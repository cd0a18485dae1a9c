use vstd::prelude::*;

use crate::config::{std_text, strings_view, Config};
use crate::dependency_analyzer::output_ok;
use crate::diagnostics::{has_error, sorted_view, DiagnosticBag, DiagnosticKind, DiagnosticView, Diagnostic, diagnostics_view};
use crate::errors::{ErrorMessage, ExecutionError};
use crate::fs_manager::{clean_path, cleaned};
use crate::meta::COMPILER;
use crate::planner::Context;
use crate::proc_output::ProcSpawnResult;
use crate::step::{Step, StepView};
use crate::table::table_view;
use crate::text::{concat3, decimal, decimal_text, owned, signed_decimal, signed_decimal_text, trim_space, trim_text};
use crate::timer::Timer;

verus! {

/// `prefix` put before each item.
pub open spec fn prefixed(prefix: Seq<char>, items: Seq<Seq<char>>) -> Seq<Seq<char>> {
    items.map_values(|x: Seq<char>| prefix + x)
}

/// The flag that selects the configured C++ standard.
pub open spec fn std_flag(cfg: Config) -> Seq<char> {
    "-std=c++"@ + std_text(cfg.std)->0
}

/// Whether the flags of the preset `preset` can be resolved: the standard is allowed and the
/// preset exists.
pub open spec fn resolvable(cfg: Config, preset: Seq<char>) -> bool {
    std_text(cfg.std) is Some && table_view(cfg.presets@).contains_key(preset)
}

/// The compiler's arguments for compiling `source` into `output`:
/// `<std> <cflags> <-I...> -c <source> -o <output>`.
pub open spec fn cargs_view(cfg: Config, source: Seq<char>, output: Seq<char>, preset: Seq<char>) -> Seq<
    Seq<char>,
> {
    seq![std_flag(cfg)] + table_view(cfg.presets@)[preset].cflags + prefixed(
        "-I"@,
        strings_view(cfg.include_dirs@),
    ) + seq!["-c"@, cleaned(source), "-o"@, cleaned(output)]
}

/// The linker's arguments for linking `sources` into `output`:
/// `<std> <objects> <lflags> <-L...> <-l...> -o <output>`.
pub open spec fn largs_view(
    cfg: Config,
    sources: Seq<Seq<char>>,
    output: Seq<char>,
    preset: Seq<char>,
) -> Seq<Seq<char>> {
    seq![std_flag(cfg)] + sources.map_values(|s: Seq<char>| cleaned(s)) + table_view(
        cfg.presets@,
    )[preset].lflags + prefixed("-L"@, strings_view(cfg.lib_dirs@)) + prefixed(
        "-l"@,
        table_view(cfg.presets@)[preset].libs,
    ) + seq!["-o"@, cleaned(output)]
}

/// Why the flags of `preset` cannot be resolved.
pub open spec fn unresolvable_message(cfg: Config, preset: Seq<char>) -> Seq<char> {
    if std_text(cfg.std) is None {
        "Unallowed standart: '"@ + decimal(cfg.std as nat) + "'"@
    } else {
        "Invalid preset: '"@ + preset + "'"@
    }
}

/// The diagnostics for a finished compiler or linker run: an error with its stderr where it
/// exited with a non-zero code, a warning with its stderr where it succeeded but wrote to
/// stderr, an error where it could not be run.
pub open spec fn result_diagnostics(o: ProcSpawnResult) -> Seq<DiagnosticView> {
    match o {
        Ok(p) => if p.exit_code != 0 {
            seq![DiagnosticView { kind: DiagnosticKind::Error, msg: trim_space(p.errs@) }]
        } else if p.errs@.len() > 0 {
            seq![DiagnosticView { kind: DiagnosticKind::Warning, msg: trim_space(p.errs@) }]
        } else {
            Seq::empty()
        },
        Err(e) => seq![DiagnosticView { kind: DiagnosticKind::Error, msg: e.message_view() }],
    }
}

/// The diagnostics for a list of runs, in order.
pub open spec fn results_diagnostics(rs: Seq<ProcSpawnResult>) -> Seq<DiagnosticView>
    decreases rs.len(),
{
    if rs.len() == 0 {
        Seq::empty()
    } else {
        results_diagnostics(rs.drop_last()) + result_diagnostics(rs.last())
    }
}

/// The error recorded where fewer or more compilation results came than were submitted.
pub open spec fn count_message(expected: nat, got: nat) -> Seq<char> {
    "Expected "@ + decimal(expected) + " compilation results, received "@ + decimal(got)
}

/// What the caller is asked to do next.
#[derive(Debug)]
pub enum Action {
    /// Submit this compiler run to the worker pool and go on without waiting.
    Compile { exe: String, args: Vec<String> },
    /// Wait until every submitted compilation finished, then hand all their results to
    /// `accept_compilation`.
    JoinCompilations,
    MakeDir { path: String },
    RemoveDir { path: String },
    MakeFile { path: String },
    RemoveFile { path: String },
    /// Show `flushed`, then run `exe` with `args` on the terminal's streams and hand the
    /// outcome to `accept_run`.
    Run { exe: String, args: Vec<String>, flushed: Vec<Diagnostic> },
    /// Nothing to do for this step.
    Skip,
    /// The walk is over: wait for the worker pool and stop.
    Finish,
}

/// What an action holds, as text.
pub ghost enum ActionView {
    Compile { exe: Seq<char>, args: Seq<Seq<char>> },
    JoinCompilations,
    MakeDir { path: Seq<char> },
    RemoveDir { path: Seq<char> },
    MakeFile { path: Seq<char> },
    RemoveFile { path: Seq<char> },
    Run { exe: Seq<char>, args: Seq<Seq<char>>, flushed: Seq<DiagnosticView> },
    Skip,
    Finish,
}

impl View for Action {
    type V = ActionView;

    open spec fn view(&self) -> ActionView {
        match self {
            Action::Compile { exe, args } => ActionView::Compile {
                exe: exe@,
                args: strings_view(args@),
            },
            Action::JoinCompilations => ActionView::JoinCompilations,
            Action::MakeDir { path } => ActionView::MakeDir { path: path@ },
            Action::RemoveDir { path } => ActionView::RemoveDir { path: path@ },
            Action::MakeFile { path } => ActionView::MakeFile { path: path@ },
            Action::RemoveFile { path } => ActionView::RemoveFile { path: path@ },
            Action::Run { exe, args, flushed } => ActionView::Run {
                exe: exe@,
                args: strings_view(args@),
                flushed: diagnostics_view(flushed@),
            },
            Action::Skip => ActionView::Skip,
            Action::Finish => ActionView::Finish,
        }
    }
}

/// What the step `step` asks for, with `diags` recorded so far.
pub open spec fn step_action(
    cfg: Config,
    step: StepView,
    compile_open: bool,
    diags: Seq<DiagnosticView>,
) -> ActionView {
    match step {
        StepView::Compilation { source, output, preset } => if compile_open && resolvable(
            cfg,
            preset,
        ) {
            ActionView::Compile { exe: COMPILER@, args: cargs_view(cfg, source, output, preset) }
        } else {
            ActionView::Skip
        },
        StepView::Linkage { .. } => ActionView::JoinCompilations,
        StepView::Run { exe, args } => ActionView::Run { exe, args, flushed: sorted_view(diags) },
        StepView::CreateDir { path } => ActionView::MakeDir { path },
        StepView::RemoveDir { path } => ActionView::RemoveDir { path },
        StepView::CreateFile { path } => ActionView::MakeFile { path },
        StepView::RemoveFile { path } => ActionView::RemoveFile { path },
    }
}

/// The diagnostics after the step `step` was taken up, with `diags` recorded before.
pub open spec fn step_diagnostics(
    cfg: Config,
    step: StepView,
    compile_open: bool,
    diags: Seq<DiagnosticView>,
) -> Seq<DiagnosticView> {
    match step {
        StepView::Compilation { preset, .. } => if compile_open && !resolvable(cfg, preset) {
            diags.push(
                DiagnosticView { kind: DiagnosticKind::Error, msg: unresolvable_message(cfg, preset) },
            )
        } else {
            diags
        },
        StepView::Run { .. } => Seq::empty(),
        _ => diags,
    }
}

/// How far a walk got: the next step, and how many compilations wait for collection.
#[derive(Debug)]
struct Progress {
    cursor: usize,
    submitted: usize,
}

impl Progress {
    /// Each waiting compilation was a step taken.
    #[verifier::type_invariant]
    closed spec fn inv(&self) -> bool {
        self.submitted <= self.cursor
    }
}

/// Walks a plan one step at a time and decides what each step needs; the caller performs that
/// and reports back. Compilations go to a worker pool; a linkage first waits for all of them.
#[derive(Debug)]
pub struct PlanExecutor {
    progress: Progress,
    compile_open: bool,
    pending_link: Option<usize>,
    compilation_timer: Timer,
}

fn push_all(out: &mut Vec<String>, items: &Vec<String>)
    ensures
        strings_view(final(out)@) == strings_view(old(out)@) + strings_view(items@),
{
    let n = items.len();
    let mut i: usize = 0;
    while i < n
        invariant
            n == items.len(),
            i <= n,
            strings_view(out@) == strings_view(old(out)@) + strings_view(items@).take(i as int),
        decreases n - i,
    {
        let ghost before = strings_view(out@);
        out.push(items[i].clone());
        assert(strings_view(out@) =~= before.push(items@[i as int]@));
        assert(strings_view(items@).take(i + 1) =~= strings_view(items@).take(i as int).push(items@[i as int]@));
        i += 1;
    }
    assert(strings_view(items@).take(n as int) =~= strings_view(items@));
}

fn push_prefixed(out: &mut Vec<String>, prefix: &str, items: &Vec<String>)
    ensures
        strings_view(final(out)@) == strings_view(old(out)@) + prefixed(prefix@, strings_view(items@)),
{
    let n = items.len();
    let mut i: usize = 0;
    while i < n
        invariant
            n == items.len(),
            i <= n,
            strings_view(out@) == strings_view(old(out)@) + prefixed(
                prefix@,
                strings_view(items@).take(i as int),
            ),
        decreases n - i,
    {
        let mut s = owned(prefix);
        s.append(items[i].as_str());
        let ghost before = strings_view(out@);
        out.push(s);
        assert(strings_view(out@) =~= before.push(prefix@ + items@[i as int]@));
        assert(prefixed(prefix@, strings_view(items@).take(i + 1)) =~= prefixed(
            prefix@,
            strings_view(items@).take(i as int),
        ).push(prefix@ + items@[i as int]@));
        i += 1;
    }
    assert(strings_view(items@).take(n as int) =~= strings_view(items@));
}

fn push_cleaned(out: &mut Vec<String>, items: &Vec<String>)
    ensures
        strings_view(final(out)@) == strings_view(old(out)@) + strings_view(items@).map_values(
            |s: Seq<char>| cleaned(s),
        ),
{
    let n = items.len();
    let mut i: usize = 0;
    while i < n
        invariant
            n == items.len(),
            i <= n,
            strings_view(out@) == strings_view(old(out)@) + strings_view(items@).take(
                i as int,
            ).map_values(|s: Seq<char>| cleaned(s)),
        decreases n - i,
    {
        let s = clean_path(items[i].as_str());
        let ghost before = strings_view(out@);
        out.push(s);
        assert(strings_view(out@) =~= before.push(cleaned(items@[i as int]@)));
        assert(strings_view(items@).take(i + 1).map_values(|s: Seq<char>| cleaned(s)) =~= strings_view(
            items@,
        ).take(i as int).map_values(|s: Seq<char>| cleaned(s)).push(cleaned(items@[i as int]@)));
        i += 1;
    }
    assert(strings_view(items@).take(n as int) =~= strings_view(items@));
}

fn std_flag_text(cfg: &Config) -> (r: String)
    requires
        std_text(cfg.std) is Some,
    ensures
        r@ == std_flag(*cfg),
{
    let std = match cfg.std_as_str() {
        Some(s) => s,
        None => String::new(),
    };
    let mut flag = owned("-std=c++");
    flag.append(std.as_str());
    flag
}

/// Whether the flags of `preset` can be resolved.
fn can_resolve(cfg: &Config, preset: &str) -> (r: bool)
    requires
        cfg.wf(),
    ensures
        r == resolvable(*cfg, preset@),
{
    let std_ok = match cfg.std_as_str() {
        Some(_) => true,
        None => false,
    };
    std_ok && match cfg.preset(preset) {
        Some(_) => true,
        None => false,
    }
}

fn unresolvable_text(cfg: &Config, preset: &str) -> (r: String)
    ensures
        r@ == unresolvable_message(*cfg, preset@),
{
    match cfg.std_as_str() {
        None => {
            let d = decimal_text(cfg.std as u64);
            concat3("Unallowed standart: '", d.as_str(), "'")
        },
        Some(_) => concat3("Invalid preset: '", preset, "'"),
    }
}

/// The compiler's arguments for a compilation step, in the order
/// `<std> <cflags> <-I...> -c <source> -o <output>`; `None` for another step, or where its
/// preset's flags cannot be resolved.
pub fn full_cargs(cfg: &Config, step: &Step) -> (r: Option<Vec<String>>)
    requires
        cfg.wf(),
    ensures
        match step@ {
            StepView::Compilation { source, output, preset } => if resolvable(*cfg, preset) {
                r is Some && strings_view(r->0@) == cargs_view(*cfg, source, output, preset)
            } else {
                r is None
            },
            _ => r is None,
        },
{
    match step {
        Step::Compilation { source, output, preset } => {
            if !can_resolve(cfg, preset.as_str()) {
                return None;
            }
            let p = match cfg.preset(preset.as_str()) {
                Some(p) => p,
                None => {
                    return None;
                },
            };
            let mut res: Vec<String> = Vec::new();
            res.push(std_flag_text(cfg));
            push_all(&mut res, &p.cflags);
            push_prefixed(&mut res, "-I", &cfg.include_dirs);
            let ghost before = strings_view(res@);
            res.push(owned("-c"));
            res.push(clean_path(source.as_str()));
            res.push(owned("-o"));
            res.push(clean_path(output.as_str()));
            assert(strings_view(res@) =~= before + seq!["-c"@, cleaned(source@), "-o"@, cleaned(output@)]);
            assert(strings_view(res@) =~= cargs_view(*cfg, source@, output@, preset@));
            Some(res)
        },
        _ => None,
    }
}

/// The linker's arguments for a linkage step, in the order
/// `<std> <objects> <lflags> <-L...> <-l...> -o <output>`; `None` for another step, or where
/// its preset's flags cannot be resolved.
pub fn full_largs(cfg: &Config, step: &Step) -> (r: Option<Vec<String>>)
    requires
        cfg.wf(),
    ensures
        match step@ {
            StepView::Linkage { source, output, preset } => if resolvable(*cfg, preset) {
                r is Some && strings_view(r->0@) == largs_view(*cfg, source, output, preset)
            } else {
                r is None
            },
            _ => r is None,
        },
{
    match step {
        Step::Linkage { source, output, preset } => {
            if !can_resolve(cfg, preset.as_str()) {
                return None;
            }
            let p = match cfg.preset(preset.as_str()) {
                Some(p) => p,
                None => {
                    return None;
                },
            };
            let mut res: Vec<String> = Vec::new();
            res.push(std_flag_text(cfg));
            push_cleaned(&mut res, source);
            push_all(&mut res, &p.lflags);
            push_prefixed(&mut res, "-L", &cfg.lib_dirs);
            push_prefixed(&mut res, "-l", &p.libs);
            let ghost before = strings_view(res@);
            res.push(owned("-o"));
            res.push(clean_path(output.as_str()));
            assert(strings_view(res@) =~= before + seq!["-o"@, cleaned(output@)]);
            assert(strings_view(res@) =~= largs_view(*cfg, strings_view(source@), output@, preset@));
            Some(res)
        },
        _ => None,
    }
}

/// Records the diagnostics of one finished run; whether it succeeded.
fn record_result(diags: &mut DiagnosticBag, res: &ProcSpawnResult) -> (r: bool)
    ensures
        final(diags)@ == old(diags)@ + result_diagnostics(*res),
        r == output_ok(*res),
{
    match res {
        Ok(o) => {
            if o.exit_code != 0 {
                diags.report_error_str(trim_text(o.errs.as_str()));
                assert(diags@ =~= old(diags)@ + result_diagnostics(*res));
                false
            } else if !o.errs.as_str().is_empty() {
                diags.report_warning(trim_text(o.errs.as_str()));
                assert(diags@ =~= old(diags)@ + result_diagnostics(*res));
                true
            } else {
                assert(diags@ =~= old(diags)@ + result_diagnostics(*res));
                true
            }
        },
        Err(e) => {
            let m = e.message();
            diags.report_error_str(m);
            assert(diags@ =~= old(diags)@ + result_diagnostics(*res));
            false
        },
    }
}

/// The message recorded where a run exits with a non-zero code.
pub open spec fn run_failed_message(code: i32) -> Seq<char> {
    "Program did not finish successfully: ["@ + signed_decimal(code as int) + "]"@
}

impl PlanExecutor {
    /// Each submitted compilation was a step taken.
    /// An executor at the first step of a plan, taking compilations.
    pub fn new() -> (r: Self)
        ensures
            r.cursor() == 0,
            r.compile_open(),
            r.submitted() == 0,
            r.pending_link() is None,
            !r.timer().running(),
            r.timer().measured() is None,
    {
        PlanExecutor {
            progress: Progress { cursor: 0, submitted: 0 },
            compile_open: true,
            pending_link: None,
            compilation_timer: Timer::new(),
        }
    }

    /// The index of the next step.
    pub closed spec fn cursor(&self) -> nat {
        self.progress.cursor as nat
    }

    /// Whether compilations are still submitted (until the first linkage collects them).
    pub closed spec fn compile_open(&self) -> bool {
        self.compile_open
    }

    /// How many compilations were submitted and not yet collected.
    pub closed spec fn submitted(&self) -> nat {
        self.progress.submitted as nat
    }

    /// The linkage step that waits for the submitted compilations.
    pub closed spec fn pending_link(&self) -> Option<nat> {
        match self.pending_link {
            Some(k) => Some(k as nat),
            None => None,
        }
    }

    /// The timer of the compilation phase.
    pub closed spec fn timer(&self) -> Timer {
        self.compilation_timer
    }

    /// The timer of the compilation phase.
    pub fn compilation_timer(&self) -> (r: &Timer)
        ensures
            *r == self.timer(),
    {
        &self.compilation_timer
    }

    /// Takes up the next step of `ctx.plan` and says what it needs. Once an error is recorded
    /// or the plan is done, every call says `Finish` and changes nothing; while a linkage waits
    /// for its compilations, every call says `JoinCompilations`.
    pub fn next_action(&mut self, ctx: &Context, diags: &mut DiagnosticBag) -> (r: Action)
        requires
            ctx.config.wf(),
        ensures
            old(self).pending_link() is Some ==> r@ == ActionView::JoinCompilations && *final(self) == *old(self) && final(diags)@ == old(diags)@,
            old(self).pending_link() is None && (has_error(old(diags)@) || old(self).cursor()
                >= ctx.plan@.len()) ==> r@ == ActionView::Finish && *final(self) == *old(self)
                && final(diags)@ == old(diags)@,
            old(self).pending_link() is None && !has_error(old(diags)@) && old(self).cursor()
                < ctx.plan@.len() ==> {
                let step = ctx.plan@[old(self).cursor() as int];
                &&& final(self).cursor() == old(self).cursor() + 1
                &&& r@ == step_action(ctx.config, step, old(self).compile_open(), old(diags)@)
                &&& final(diags)@ == step_diagnostics(
                    ctx.config,
                    step,
                    old(self).compile_open(),
                    old(diags)@,
                )
                &&& final(self).compile_open() == old(self).compile_open()
                &&& final(self).submitted() == if r@ is Compile {
                    old(self).submitted() + 1
                } else {
                    old(self).submitted()
                }
                &&& final(self).pending_link() == if step is Linkage {
                    Some(old(self).cursor())
                } else {
                    None::<nat>
                }
                &&& r@ is Compile ==> final(self).timer().running()
                &&& r@ is Compile && !old(self).timer().running() ==> final(self).timer().measured()
                    == old(self).timer().measured()
                &&& (old(self).timer().running() || !(r@ is Compile)) ==> final(self).timer()
                    == old(self).timer()
            },
    {
        proof {
            use_type_invariant(&self.progress);
        }
        if self.pending_link.is_some() {
            return Action::JoinCompilations;
        }
        let steps = ctx.plan.steps();
        if diags.contains_error() || self.progress.cursor >= steps.len() {
            return Action::Finish;
        }
        let i = self.progress.cursor;
        let waiting = self.progress.submitted;
        assert(ctx.plan@[i as int] == steps@[i as int]@);
        self.progress = Progress { cursor: i + 1, submitted: waiting };
        match &steps[i] {
            Step::Compilation { source, output, preset } => {
                if !self.compile_open {
                    return Action::Skip;
                }
                match full_cargs(&ctx.config, &steps[i]) {
                    Some(args) => {
                        self.compilation_timer.start();
                        self.progress = Progress { cursor: i + 1, submitted: waiting + 1 };
                        Action::Compile { exe: owned(COMPILER), args }
                    },
                    None => {
                        diags.report_error_str(unresolvable_text(&ctx.config, preset.as_str()));
                        Action::Skip
                    },
                }
            },
            Step::Linkage { .. } => {
                self.pending_link = Some(i);
                Action::JoinCompilations
            },
            Step::Run { exe, args } => {
                let flushed = diags.take_sorted();
                Action::Run {
                    exe: exe.clone(),
                    args: crate::config::clone_strings(args),
                    flushed,
                }
            },
            Step::CreateDir { path } => Action::MakeDir { path: path.clone() },
            Step::RemoveDir { path } => Action::RemoveDir { path: path.clone() },
            Step::CreateFile { path } => Action::MakeFile { path: path.clone() },
            Step::RemoveFile { path } => Action::RemoveFile { path: path.clone() },
        }
    }

    /// Collects the results of every submitted compilation, in whatever order they finished,
    /// for the waiting linkage: records their diagnostics, stops taking compilations, and
    /// gives the linker's arguments only where exactly the submitted number of results came,
    /// all of them succeeded, and the linkage's flags can be resolved.
    pub fn accept_compilation(
        &mut self,
        ctx: &Context,
        diags: &mut DiagnosticBag,
        results: Vec<ProcSpawnResult>,
    ) -> (r: Option<Vec<String>>)
        requires
            ctx.config.wf(),
        ensures
            old(self).pending_link() is None ==> r is None && *final(self) == *old(self) && final(diags)@ == old(diags)@,
            old(self).pending_link() is Some ==> {
                let k = old(self).pending_link()->0;
                let counted = results.len() == old(self).submitted();
                let all_ok = forall|i: int| 0 <= i < results.len() ==> output_ok(#[trigger] results@[i]);
                let base = old(diags)@ + results_diagnostics(results@) + if counted {
                    Seq::<DiagnosticView>::empty()
                } else {
                    seq![
                        DiagnosticView {
                            kind: DiagnosticKind::Error,
                            msg: count_message(old(self).submitted(), results.len() as nat),
                        },
                    ]
                };
                &&& final(self).pending_link() is None
                &&& !final(self).timer().running()
                &&& old(self).timer().running() ==> final(self).timer().measured() is Some
                &&& !old(self).timer().running() ==> final(self).timer() == old(self).timer()
                &&& !final(self).compile_open()
                &&& final(self).submitted() == 0
                &&& final(self).cursor() == old(self).cursor()
                &&& (r is Some ==> counted && all_ok)
                &&& if counted && all_ok && k < ctx.plan@.len() && ctx.plan@[k as int] is Linkage {
                    let step = ctx.plan@[k as int];
                    let preset = step->Linkage_preset;
                    if resolvable(ctx.config, preset) {
                        &&& r is Some
                        &&& strings_view(r->0@) == largs_view(
                            ctx.config,
                            step->Linkage_source,
                            step->Linkage_output,
                            preset,
                        )
                        &&& final(diags)@ == base
                    } else {
                        &&& r is None
                        &&& final(diags)@ == base.push(
                            DiagnosticView {
                                kind: DiagnosticKind::Error,
                                msg: unresolvable_message(ctx.config, preset),
                            },
                        )
                    }
                } else {
                    r is None && final(diags)@ == base
                }
            },
    {
        let k = match self.pending_link {
            Some(k) => k,
            None => {
                return None;
            },
        };
        self.pending_link = None;
        self.compile_open = false;
        self.compilation_timer.stop();
        let expected = self.progress.submitted;
        self.progress = Progress { cursor: self.progress.cursor, submitted: 0 };
        let n = results.len();
        let mut all_ok = true;
        let mut i: usize = 0;
        while i < n
            invariant
                n == results.len(),
                i <= n,
                diags@ == old(diags)@ + results_diagnostics(results@.take(i as int)),
                all_ok == forall|j: int| 0 <= j < i ==> output_ok(#[trigger] results@[j]),
            decreases n - i,
        {
            let ok = record_result(diags, &results[i]);
            assert(results@.take(i + 1).drop_last() =~= results@.take(i as int));
            all_ok = all_ok && ok;
            i += 1;
        }
        assert(results@.take(n as int) =~= results@);
        if n != expected {
            let e = decimal_text(expected as u64);
            let g = decimal_text(n as u64);
            let mut m = concat3("Expected ", e.as_str(), " compilation results, received ");
            m.append(g.as_str());
            diags.report_error_str(m);
            return None;
        }
        if !all_ok {
            return None;
        }
        let steps = ctx.plan.steps();
        if k >= steps.len() {
            return None;
        }
        assert(ctx.plan@[k as int] == steps@[k as int]@);
        match &steps[k] {
            Step::Linkage { preset, .. } => {
                let args = full_largs(&ctx.config, &steps[k]);
                if args.is_none() {
                    diags.report_error_str(unresolvable_text(&ctx.config, preset.as_str()));
                }
                args
            },
            _ => None,
        }
    }

    /// Records the diagnostics of the linker's run.
    pub fn accept_linkage(&self, diags: &mut DiagnosticBag, res: ProcSpawnResult)
        ensures
            final(diags)@ == old(diags)@ + result_diagnostics(res),
    {
        record_result(diags, &res);
    }

    /// Records how a file-system step ended: an error with the text of the failure, if it
    /// failed.
    pub fn accept_fs(&self, diags: &mut DiagnosticBag, res: Result<(), String>)
        ensures
            match res {
                Ok(()) => final(diags)@ == old(diags)@,
                Err(m) => final(diags)@ == old(diags)@.push(
                    DiagnosticView { kind: DiagnosticKind::Error, msg: m@ },
                ),
            },
    {
        match res {
            Ok(()) => {},
            Err(m) => diags.report_error_str(m),
        }
    }

    /// Records how the run of the executable ended: an error where it exited with a non-zero
    /// code or could not be started.
    pub fn accept_run(&self, diags: &mut DiagnosticBag, res: Result<i32, ExecutionError>)
        ensures
            match res {
                Ok(code) => if code == 0 {
                    final(diags)@ == old(diags)@
                } else {
                    final(diags)@ == old(diags)@.push(
                        DiagnosticView { kind: DiagnosticKind::Error, msg: run_failed_message(code) },
                    )
                },
                Err(e) => final(diags)@ == old(diags)@.push(
                    DiagnosticView { kind: DiagnosticKind::Error, msg: e.message_view() },
                ),
            },
    {
        match res {
            Ok(code) => {
                if code != 0 {
                    let c = signed_decimal_text(code);
                    diags.report_error_str(
                        concat3("Program did not finish successfully: [", c.as_str(), "]"),
                    );
                }
            },
            Err(e) => {
                diags.report_error(e);
            },
        }
    }
}

/// Whether every run of `rs` succeeded.
pub open spec fn all_succeeded(rs: Seq<ProcSpawnResult>) -> bool {
    forall|i: int| 0 <= i < rs.len() ==> output_ok(#[trigger] rs[i])
}

/// Collecting compilations does not depend on the order in which they finished: two orders
/// of the same results agree on their number and on whether all of them succeeded, and so on
/// whether the linkage may go on.
pub proof fn lemma_completion_order_irrelevant(rs1: Seq<ProcSpawnResult>, rs2: Seq<ProcSpawnResult>)
    requires
        rs1.to_multiset() == rs2.to_multiset(),
    ensures
        rs1.len() == rs2.len(),
        all_succeeded(rs1) == all_succeeded(rs2),
{
    rs1.to_multiset_ensures();
    rs2.to_multiset_ensures();
    assert(all_succeeded(rs1) ==> all_succeeded(rs2)) by {
        if all_succeeded(rs1) {
            assert forall|i: int| 0 <= i < rs2.len() implies output_ok(#[trigger] rs2[i]) by {
                assert(rs2.contains(rs2[i]));
                assert(rs2.to_multiset().count(rs2[i]) > 0);
                assert(rs1.to_multiset().count(rs2[i]) > 0);
                assert(rs1.contains(rs2[i]));
                let k = choose|k: int| 0 <= k < rs1.len() && rs1[k] == rs2[i];
                assert(output_ok(rs1[k]));
            }
        }
    }
    assert(all_succeeded(rs2) ==> all_succeeded(rs1)) by {
        if all_succeeded(rs2) {
            assert forall|i: int| 0 <= i < rs1.len() implies output_ok(#[trigger] rs1[i]) by {
                assert(rs1.contains(rs1[i]));
                assert(rs1.to_multiset().count(rs1[i]) > 0);
                assert(rs2.to_multiset().count(rs1[i]) > 0);
                assert(rs2.contains(rs1[i]));
                let k = choose|k: int| 0 <= k < rs2.len() && rs2[k] == rs1[i];
                assert(output_ok(rs2[k]));
            }
        }
    }
}

/// A run that failed or exited with a non-zero code leaves an error among the collected
/// diagnostics, so that the walk stops before the linkage that waits for it.
pub proof fn lemma_failed_run_records_error(rs: Seq<ProcSpawnResult>, i: int)
    requires
        0 <= i < rs.len(),
        !output_ok(rs[i]),
    ensures
        has_error(results_diagnostics(rs)),
    decreases rs.len(),
{
    let head = results_diagnostics(rs.drop_last());
    let tail = result_diagnostics(rs.last());
    assert(results_diagnostics(rs) == head + tail);
    if i == rs.len() - 1 {
        assert(tail[0].kind == DiagnosticKind::Error);
        assert((head + tail)[head.len() as int] == tail[0]);
    } else {
        assert(rs.drop_last()[i] == rs[i]);
        lemma_failed_run_records_error(rs.drop_last(), i);
        let k = choose|k: int| 0 <= k < head.len() && (#[trigger] head[k]).kind == DiagnosticKind::Error;
        assert((head + tail)[k] == head[k]);
    }
}

} // verus!
