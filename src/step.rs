use vstd::prelude::*;

use crate::config::strings_view;

verus! {

/// One unit of work of a plan.
#[derive(Debug, Clone)]
pub enum Step {
    /// Compile one source file into an object file.
    Compilation { source: String, output: String, preset: String },
    /// Link object files into an executable.
    Linkage { source: Vec<String>, output: String, preset: String },
    /// Run an executable with arguments.
    Run { exe: String, args: Vec<String> },
    CreateDir { path: String },
    RemoveDir { path: String },
    CreateFile { path: String },
    RemoveFile { path: String },
}

/// What a step holds, as text.
pub ghost enum StepView {
    Compilation { source: Seq<char>, output: Seq<char>, preset: Seq<char> },
    Linkage { source: Seq<Seq<char>>, output: Seq<char>, preset: Seq<char> },
    Run { exe: Seq<char>, args: Seq<Seq<char>> },
    CreateDir { path: Seq<char> },
    RemoveDir { path: Seq<char> },
    CreateFile { path: Seq<char> },
    RemoveFile { path: Seq<char> },
}

impl View for Step {
    type V = StepView;

    open spec fn view(&self) -> StepView {
        match self {
            Step::Compilation { source, output, preset } => StepView::Compilation {
                source: source@,
                output: output@,
                preset: preset@,
            },
            Step::Linkage { source, output, preset } => StepView::Linkage {
                source: strings_view(source@),
                output: output@,
                preset: preset@,
            },
            Step::Run { exe, args } => StepView::Run { exe: exe@, args: strings_view(args@) },
            Step::CreateDir { path } => StepView::CreateDir { path: path@ },
            Step::RemoveDir { path } => StepView::RemoveDir { path: path@ },
            Step::CreateFile { path } => StepView::CreateFile { path: path@ },
            Step::RemoveFile { path } => StepView::RemoveFile { path: path@ },
        }
    }
}

} // verus!
