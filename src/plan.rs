use vstd::prelude::*;

use crate::config::strings_view;
use crate::step::{Step, StepView};

verus! {

/// The views of a list of steps.
pub open spec fn steps_view(s: Seq<Step>) -> Seq<StepView> {
    s.map_values(|x: Step| x@)
}

/// An ordered list of steps, only ever added to.
#[derive(Debug)]
pub struct Plan {
    steps: Vec<Step>,
}

impl View for Plan {
    type V = Seq<StepView>;

    closed spec fn view(&self) -> Seq<StepView> {
        steps_view(self.steps@)
    }
}

impl Plan {
    /// A plan without steps.
    pub fn new() -> (r: Self)
        ensures
            r@ == Seq::<StepView>::empty(),
    {
        let r = Plan { steps: Vec::new() };
        assert(r@ =~= Seq::<StepView>::empty());
        r
    }

    fn add(&mut self, step: Step)
        ensures
            final(self)@ == old(self)@.push(step@),
    {
        self.steps.push(step);
        assert(final(self)@ =~= old(self)@.push(step@));
    }

    /// Appends the compilation of `source` into `output` with the preset `preset`.
    pub fn add_compilation(&mut self, source: String, output: String, preset: String)
        ensures
            final(self)@ == old(self)@.push(
                StepView::Compilation { source: source@, output: output@, preset: preset@ },
            ),
    {
        self.add(Step::Compilation { source, output, preset });
    }

    /// Appends the linkage of the object files `source` into `output` with the preset `preset`.
    pub fn add_linkage(&mut self, source: Vec<String>, output: String, preset: String)
        ensures
            final(self)@ == old(self)@.push(
                StepView::Linkage { source: strings_view(source@), output: output@, preset: preset@ },
            ),
    {
        self.add(Step::Linkage { source, output, preset });
    }

    /// Appends running `exe` with `args`.
    pub fn add_run(&mut self, exe: String, args: Vec<String>)
        ensures
            final(self)@ == old(self)@.push(StepView::Run { exe: exe@, args: strings_view(args@) }),
    {
        self.add(Step::Run { exe, args });
    }

    /// Appends creating the directory `path` (with its parents).
    pub fn add_make_dir(&mut self, path: String)
        ensures
            final(self)@ == old(self)@.push(StepView::CreateDir { path: path@ }),
    {
        self.add(Step::CreateDir { path });
    }

    /// Appends removing the directory `path`.
    pub fn add_remove_dir(&mut self, path: String)
        ensures
            final(self)@ == old(self)@.push(StepView::RemoveDir { path: path@ }),
    {
        self.add(Step::RemoveDir { path });
    }

    /// Appends creating the empty file `path` where it does not exist.
    pub fn add_make_file(&mut self, path: String)
        ensures
            final(self)@ == old(self)@.push(StepView::CreateFile { path: path@ }),
    {
        self.add(Step::CreateFile { path });
    }

    /// Appends removing the file `path`.
    pub fn add_remove_file(&mut self, path: String)
        ensures
            final(self)@ == old(self)@.push(StepView::RemoveFile { path: path@ }),
    {
        self.add(Step::RemoveFile { path });
    }

    /// The steps, in order.
    pub fn steps(&self) -> (r: &Vec<Step>)
        ensures
            steps_view(r@) == self@,
    {
        &self.steps
    }
}

} // verus!
