use vstd::prelude::*;

use crate::arg_parser::{Args, ArgsView};
use crate::args_specification::{
    command_is, forced, ArgsSpec, Combine, FullBuild, FullRun, IncrementalBuild, IncrementalRun,
    InitProject,
};
use crate::config::{strings_view, Config};
use crate::dependency_analyzer::{dirty_sources, DependencyAnalyzer, DependencySpan};
use crate::errors::{ExecutionError, PlannerError, QueryError};
use crate::fs_manager::{
    clean_path, cleaned, join_path, obj_path_of, parent_dir, parent_of, FilesystemManager,
};
use crate::plan::Plan;
use crate::step::StepView;
use crate::table::{find_key, lemma_table_domain, lemma_table_index, table_view};
use crate::text::owned;

verus! {

/// The preset used where none is named.
pub const DEFAULT_PRESET: &'static str = "debug";

/// What one invocation works on.
pub struct Context {
    pub config: Config,
    pub args: Args,
    pub plan: Plan,
}

/// The outcome of the dependency analysis: the span of each source file, and for each span the
/// modification times of its source and then of its dependencies (`None` where one could not
/// be read).
pub struct Analysis {
    pub spans: Vec<DependencySpan>,
    pub times: Vec<Vec<Option<u64>>>,
}

/// What the planner needs to know of the file system and the platform.
pub struct ProjectState {
    /// The source files of the project, relative to its root.
    pub src_files: Vec<String>,
    /// The object files that exist, relative to the project root.
    pub obj_files: Vec<String>,
    /// The modification time of the newest object file, where there is one.
    pub newest_obj: Option<u64>,
    /// Whether the directory of the executable exists.
    pub output_dir_exists: bool,
    /// Whether executables carry the `.exe` suffix.
    pub windows_target: bool,
    /// The dependency analysis, where it was made (see `Planner::needs_analysis`).
    pub analysis: Option<Result<Analysis, ExecutionError>>,
}

/// The preset that the command line names, or the default one.
pub open spec fn preset_name(v: ArgsView) -> Seq<char> {
    if v.named.contains_key("preset"@) {
        v.named["preset"@]
    } else {
        DEFAULT_PRESET@
    }
}

/// Whether an incremental build or run was asked for.
pub open spec fn wants_incremental(v: ArgsView) -> bool {
    (command_is(v, "build"@) || command_is(v, "run"@)) && !forced(v)
}

/// Whether a full build or run was asked for.
pub open spec fn wants_full(v: ArgsView) -> bool {
    (command_is(v, "build"@) || command_is(v, "run"@)) && forced(v)
}

/// Whether the executable is run after it is linked.
pub open spec fn wants_run(v: ArgsView) -> bool {
    command_is(v, "run"@)
}

/// The executable that the preset's target folder and the target name give.
pub open spec fn executable_of(folder: Seq<char>, name: Seq<char>, windows: bool) -> Seq<char> {
    if windows {
        join_path(folder, name) + ".exe"@
    } else {
        join_path(folder, name)
    }
}

/// One compilation step for each source, in order.
pub open spec fn compile_steps(srcs: Seq<Seq<char>>, preset: Seq<char>) -> Seq<StepView> {
    Seq::new(
        srcs.len(),
        |i: int| StepView::Compilation { source: srcs[i], output: obj_path_of(srcs[i]), preset },
    )
}

/// Whether the compilation is incremental: it was asked for and object files exist.
pub open spec fn incremental_active(v: ArgsView, st: ProjectState) -> bool {
    wants_incremental(v) && st.obj_files.len() > 0
}

/// The sources to compile, or the error of the dependency analysis.
pub open spec fn sources_to_compile(v: ArgsView, st: ProjectState) -> Result<
    Seq<Seq<char>>,
    ExecutionError,
> {
    let srcs = strings_view(st.src_files@);
    if incremental_active(v, st) {
        match st.analysis {
            Some(Ok(a)) => Ok(
                dirty_sources(
                    a.spans@,
                    strings_view(st.obj_files@),
                    st.newest_obj,
                    a.times@.map_values(|t: Vec<Option<u64>>| t@),
                    a.spans@.len() as int,
                ),
            ),
            Some(Err(e)) => Err(e),
            None => Ok(srcs),
        }
    } else {
        Ok(srcs)
    }
}

/// The steps after the compilations of a build: the directory of the executable where it is
/// missing, the linkage of every object file, and the run where one was asked for.
pub open spec fn link_and_run_steps(
    cfg: Config,
    v: ArgsView,
    st: ProjectState,
    preset: Seq<char>,
) -> Seq<StepView> {
    let srcs = strings_view(st.src_files@);
    let exe = executable_of(
        table_view(cfg.presets@)[preset].target_folder,
        cfg.target_name@,
        st.windows_target,
    );
    let mkdir = if st.output_dir_exists {
        Seq::<StepView>::empty()
    } else {
        seq![StepView::CreateDir { path: parent_of(exe) }]
    };
    let link = seq![
        StepView::Linkage {
            source: srcs.map_values(|s: Seq<char>| obj_path_of(s)),
            output: exe,
            preset,
        },
    ];
    let run = if wants_run(v) {
        seq![StepView::Run { exe: cleaned(exe), args: v.free }]
    } else {
        Seq::<StepView>::empty()
    };
    mkdir + link + run
}

/// The steps that set up a new project.
pub open spec fn init_steps() -> Seq<StepView> {
    seq![
        StepView::CreateFile { path: "Cum.toml"@ },
        StepView::CreateFile { path: "src/main.cpp"@ },
        StepView::CreateFile { path: "tests/test_runner.cpp"@ },
        StepView::CreateDir { path: "target/obj"@ },
        StepView::CreateDir { path: "include"@ },
        StepView::CreateDir { path: "dependencies/include"@ },
        StepView::CreateDir { path: "dependencies/lib"@ },
    ]
}

/// What planning comes to.
pub ghost enum PlanOutcome {
    /// These steps are appended to the plan.
    Steps(Seq<StepView>),
    InvalidPreset(Seq<char>),
    UnknownCommand(Seq<char>),
    AnalysisFailed(ExecutionError),
}

/// What planning comes to for a configuration, a command line and the project's state.
pub open spec fn plan_outcome(cfg: Config, v: ArgsView, st: ProjectState) -> PlanOutcome {
    let preset = preset_name(v);
    if !table_view(cfg.presets@).contains_key(preset) {
        PlanOutcome::InvalidPreset(preset)
    } else if wants_incremental(v) || wants_full(v) {
        if st.src_files.len() == 0 {
            PlanOutcome::Steps(Seq::empty())
        } else {
            match sources_to_compile(v, st) {
                Ok(srcs) => PlanOutcome::Steps(
                    compile_steps(srcs, preset) + link_and_run_steps(cfg, v, st, preset),
                ),
                Err(e) => PlanOutcome::AnalysisFailed(e),
            }
        }
    } else if command_is(v, "init"@) {
        PlanOutcome::Steps(init_steps())
    } else {
        match v.command {
            Some(c) => PlanOutcome::UnknownCommand(c),
            None => PlanOutcome::Steps(Seq::empty()),
        }
    }
}

/// Turns the command line, the configuration and the state of the project into a plan.
pub struct Planner {
    obj_list: Vec<String>,
    preset: String,
}

/// Whether the state asks for an analysis: the dependency analysis is needed where an
/// incremental build or run was asked for and both source and object files exist.
pub open spec fn analysis_needed(v: ArgsView, st: ProjectState) -> bool {
    incremental_active(v, st) && st.src_files.len() > 0
}

/// Whether the analysis is there where it is needed and, where it succeeded, gives one span for
/// each source file, in order, with the times of each span.
pub open spec fn analysis_consistent(v: ArgsView, st: ProjectState) -> bool {
    &&& analysis_needed(v, st) ==> st.analysis is Some
    &&& match st.analysis {
        Some(Ok(a)) => {
            &&& a.times.len() == a.spans.len()
            &&& a.spans.len() == st.src_files.len()
            &&& forall|i: int|
                0 <= i < a.spans.len() ==> (#[trigger] a.spans@[i]).dependent@
                    == st.src_files@[i]@
        },
        _ => true,
    }
}

fn contains_preset(cfg: &Config, name: &str) -> (r: bool)
    requires
        cfg.wf(),
    ensures
        r == table_view(cfg.presets@).contains_key(name@),
{
    match cfg.preset(name) {
        Some(_) => true,
        None => false,
    }
}

impl Planner {
    /// A planner that has not chosen a preset yet.
    pub fn new() -> (r: Self)
        ensures
            r.preset_view() == Seq::<char>::empty(),
    {
        Planner { obj_list: Vec::new(), preset: String::new() }
    }

    /// The preset this planner plans with.
    pub closed spec fn preset_view(&self) -> Seq<char> {
        self.preset@
    }

    /// Chooses the preset that the command line names (`--preset=...`), or the default one;
    /// fails where the configuration has no preset of that name.
    pub fn get_preset(&mut self, ctx: &Context) -> (r: Result<(), QueryError>)
        requires
            ctx.config.wf(),
            ctx.args.wf(),
        ensures
            table_view(ctx.config.presets@).contains_key(preset_name(ctx.args@)) ==> r is Ok
                && final(self).preset_view() == preset_name(ctx.args@),
            !table_view(ctx.config.presets@).contains_key(preset_name(ctx.args@)) ==> match r {
                Err(QueryError::InvalidPreset(p)) => p@ == preset_name(ctx.args@),
                _ => false,
            },
            r is Err ==> final(self).preset_view() == old(self).preset_view(),
    {
        proof {
            lemma_table_domain(ctx.args.named_params@, "preset"@);
        }
        let preset = match find_key(&ctx.args.named_params, "preset") {
            Some(j) => {
                proof {
                    lemma_table_index(ctx.args.named_params@, j as int);
                }
                ctx.args.named_params[j].1.clone()
            },
            None => owned(DEFAULT_PRESET),
        };
        if !contains_preset(&ctx.config, preset.as_str()) {
            Err(QueryError::InvalidPreset(preset))
        } else {
            self.preset = preset;
            Ok(())
        }
    }

    /// Whether planning needs the dependency analysis for this state.
    pub fn needs_analysis(args: &Args, st: &ProjectState) -> (r: bool)
        ensures
            r == analysis_needed(args@, *st),
    {
        IncrementalBuild.or(IncrementalRun).is_satisfied_by(args) && st.obj_files.len() > 0
            && st.src_files.len() > 0
    }

    /// The executable that the preset `preset` builds.
    pub fn executable_path(cfg: &Config, preset: &str, windows_target: bool) -> (r: Option<String>)
        requires
            cfg.wf(),
        ensures
            match r {
                Some(e) => table_view(cfg.presets@).contains_key(preset@) && e@ == executable_of(
                    table_view(cfg.presets@)[preset@].target_folder,
                    cfg.target_name@,
                    windows_target,
                ),
                None => !table_view(cfg.presets@).contains_key(preset@),
            },
    {
        match cfg.preset(preset) {
            Some(p) => {
                let fs = FilesystemManager::new(p.target_folder.clone());
                let mut exe = fs.to_full(cfg.target_name.as_str());
                if windows_target {
                    exe.append(".exe");
                }
                Some(exe)
            },
            None => None,
        }
    }

    /// The directory the executable goes to, for the preset that the command line selects;
    /// `None` where there is no such preset.
    pub fn output_dir(ctx: &Context, windows_target: bool) -> (r: Option<String>)
        requires
            ctx.config.wf(),
            ctx.args.wf(),
        ensures
            match r {
                Some(d) => table_view(ctx.config.presets@).contains_key(preset_name(ctx.args@))
                    && d@ == parent_of(
                    executable_of(
                        table_view(ctx.config.presets@)[preset_name(ctx.args@)].target_folder,
                        ctx.config.target_name@,
                        windows_target,
                    ),
                ),
                None => !table_view(ctx.config.presets@).contains_key(preset_name(ctx.args@)),
            },
    {
        let mut planner = Planner::new();
        match planner.get_preset(ctx) {
            Ok(()) => match Self::executable_path(&ctx.config, planner.preset.as_str(), windows_target) {
                Some(exe) => Some(parent_dir(exe.as_str())),
                None => None,
            },
            Err(_) => None,
        }
    }

    fn create_obj_list(&mut self, src_list: &Vec<String>)
        ensures
            strings_view(final(self).obj_list@) == strings_view(src_list@).map_values(
                |s: Seq<char>| obj_path_of(s),
            ),
            final(self).preset_view() == old(self).preset_view(),
    {
        let mut objs: Vec<String> = Vec::new();
        let n = src_list.len();
        let mut i: usize = 0;
        while i < n
            invariant
                n == src_list.len(),
                i <= n,
                strings_view(objs@) == strings_view(src_list@).take(i as int).map_values(
                    |s: Seq<char>| obj_path_of(s),
                ),
            decreases n - i,
        {
            let o = FilesystemManager::src_to_obj(&src_list[i]);
            let ghost before = strings_view(objs@);
            objs.push(o);
            assert(strings_view(objs@) =~= before.push(o@));
            assert(strings_view(src_list@).take(i + 1).map_values(|s: Seq<char>| obj_path_of(s))
                =~= strings_view(src_list@).take(i as int).map_values(
                |s: Seq<char>| obj_path_of(s),
            ).push(obj_path_of(src_list@[i as int]@)));
            i += 1;
        }
        assert(strings_view(src_list@).take(n as int) =~= strings_view(src_list@));
        self.obj_list = objs;
    }

    fn add_compilations(&self, plan: &mut Plan, srcs: &Vec<String>)
        ensures
            final(plan)@ == old(plan)@ + compile_steps(strings_view(srcs@), self.preset_view()),
    {
        let ghost base = plan@;
        let n = srcs.len();
        let mut i: usize = 0;
        while i < n
            invariant
                n == srcs.len(),
                i <= n,
                plan@ == base + compile_steps(strings_view(srcs@).take(i as int), self.preset_view()),
            decreases n - i,
        {
            let file = srcs[i].clone();
            let obj = FilesystemManager::src_to_obj(&file);
            plan.add_compilation(file, obj, self.preset.clone());
            assert(compile_steps(strings_view(srcs@).take(i + 1), self.preset_view()) =~= compile_steps(
                strings_view(srcs@).take(i as int),
                self.preset_view(),
            ).push(
                StepView::Compilation {
                    source: srcs@[i as int]@,
                    output: obj_path_of(srcs@[i as int]@),
                    preset: self.preset_view(),
                },
            ));
            i += 1;
        }
        assert(strings_view(srcs@).take(n as int) =~= strings_view(srcs@));
    }

    fn plan_compilation(&mut self, ctx: &mut Context, st: ProjectState) -> (r: Result<
        (),
        PlannerError,
    >)
        requires
            old(ctx).config.wf(),
            analysis_consistent(old(ctx).args@, st),
            st.src_files.len() > 0,
            wants_incremental(old(ctx).args@) || wants_full(old(ctx).args@),
        ensures
            final(ctx).config == old(ctx).config,
            final(ctx).args == old(ctx).args,
            final(self).preset_view() == old(self).preset_view(),
            strings_view(final(self).obj_list@) == strings_view(st.src_files@).map_values(
                |s: Seq<char>| obj_path_of(s),
            ),
            match sources_to_compile(old(ctx).args@, st) {
                Ok(srcs) => r is Ok && final(ctx).plan@ == old(ctx).plan@ + compile_steps(
                    srcs,
                    old(self).preset_view(),
                ),
                Err(e) => r == Err::<(), PlannerError>(PlannerError::ExecutionError(e))
                    && final(ctx).plan@ == old(ctx).plan@,
            },
    {
        self.create_obj_list(&st.src_files);
        let ProjectState { src_files, obj_files, newest_obj, analysis, .. } = st;
        let incremental = IncrementalBuild.or(IncrementalRun).is_satisfied_by(&ctx.args)
            && obj_files.len() > 0;
        if incremental {
            match analysis {
                Some(Ok(a)) => {
                    let Analysis { spans, times } = a;
                    let mut analyzer = DependencyAnalyzer::new(&ctx.config, &src_files);
                    analyzer.dependency_spans = spans;
                    let dirty = analyzer.get_dirty_src(&obj_files, newest_obj, &times);
                    self.add_compilations(&mut ctx.plan, &dirty);
                },
                Some(Err(e)) => {
                    return Err(PlannerError::ExecutionError(e));
                },
                None => {
                    self.add_compilations(&mut ctx.plan, &src_files);
                },
            }
        } else {
            self.add_compilations(&mut ctx.plan, &src_files);
        }
        Ok(())
    }

    fn plan_linkage(&self, ctx: &mut Context, output_dir_exists: bool, windows_target: bool)
        requires
            old(ctx).config.wf(),
            table_view(old(ctx).config.presets@).contains_key(self.preset_view()),
        ensures
            final(ctx).config == old(ctx).config,
            final(ctx).args == old(ctx).args,
            final(ctx).plan@ == old(ctx).plan@ + ({
                let exe = executable_of(
                    table_view(old(ctx).config.presets@)[self.preset_view()].target_folder,
                    old(ctx).config.target_name@,
                    windows_target,
                );
                let mkdir = if output_dir_exists {
                    Seq::<StepView>::empty()
                } else {
                    seq![StepView::CreateDir { path: parent_of(exe) }]
                };
                mkdir + seq![
                    StepView::Linkage {
                        source: strings_view(self.obj_list@),
                        output: exe,
                        preset: self.preset_view(),
                    },
                ]
            }),
    {
        let exe = match Self::executable_path(&ctx.config, self.preset.as_str(), windows_target) {
            Some(e) => e,
            None => String::new(),
        };
        let ghost base = ctx.plan@;
        if !output_dir_exists {
            ctx.plan.add_make_dir(parent_dir(exe.as_str()));
        }
        let ghost mid = ctx.plan@;
        ctx.plan.add_linkage(crate::config::clone_strings(&self.obj_list), exe, self.preset.clone());
        proof {
            if output_dir_exists {
                assert(ctx.plan@ =~= base + seq![ctx.plan@.last()]);
            } else {
                assert(ctx.plan@ =~= base + seq![mid.last(), ctx.plan@.last()]);
            }
        }
    }

    /// The steps that set up a new project.
    fn plan_init(&self, ctx: &mut Context)
        ensures
            final(ctx).config == old(ctx).config,
            final(ctx).args == old(ctx).args,
            final(ctx).plan@ == old(ctx).plan@ + init_steps(),
    {
        ctx.plan.add_make_file(owned("Cum.toml"));
        ctx.plan.add_make_file(owned("src/main.cpp"));
        ctx.plan.add_make_file(owned("tests/test_runner.cpp"));
        ctx.plan.add_make_dir(owned("target/obj"));
        ctx.plan.add_make_dir(owned("include"));
        ctx.plan.add_make_dir(owned("dependencies/include"));
        ctx.plan.add_make_dir(owned("dependencies/lib"));
        assert(ctx.plan@ =~= old(ctx).plan@ + init_steps());
    }

    /// Appends running the executable that the plan's last step links, with the arguments
    /// after `--`; nothing where the last step is no linkage.
    fn plan_run_linked(&self, ctx: &mut Context)
        ensures
            final(ctx).config == old(ctx).config,
            final(ctx).args == old(ctx).args,
            match old(ctx).plan@.last() {
                StepView::Linkage { output, .. } => old(ctx).plan@.len() > 0 ==> final(ctx).plan@
                    == old(ctx).plan@.push(StepView::Run { exe: cleaned(output), args: old(ctx).args@.free }),
                _ => true,
            },
            old(ctx).plan@.len() == 0 || !(old(ctx).plan@.last() is Linkage) ==> final(ctx).plan@
                == old(ctx).plan@,
    {
        let steps = ctx.plan.steps();
        let n = steps.len();
        if n == 0 {
            return;
        }
        let run = match &steps[n - 1] {
            crate::step::Step::Linkage { output, .. } => Some(clean_path(output.as_str())),
            _ => None,
        };
        assert(ctx.plan@.last() == steps@[n - 1]@);
        match run {
            Some(exe) => {
                let args = crate::config::clone_strings(&ctx.args.freestanding_params);
                ctx.plan.add_run(exe, args);
            },
            None => {},
        }
    }

    /// Plans the command of the command line: compilation, linkage and run for `build` and
    /// `run`, the project skeleton for `init`. Fails where the preset is not configured, the
    /// command is unknown, or the dependency analysis failed; the plan is then left as it was.
    pub fn try_make_plan(&mut self, ctx: &mut Context, st: ProjectState) -> (r: Result<
        (),
        PlannerError,
    >)
        requires
            old(ctx).config.wf(),
            old(ctx).args.wf(),
            analysis_consistent(old(ctx).args@, st),
        ensures
            final(ctx).config == old(ctx).config,
            final(ctx).args == old(ctx).args,
            match plan_outcome(old(ctx).config, old(ctx).args@, st) {
                PlanOutcome::Steps(s) => r is Ok && final(ctx).plan@ == old(ctx).plan@ + s,
                PlanOutcome::InvalidPreset(p) => final(ctx).plan@ == old(ctx).plan@ && match r {
                    Err(PlannerError::QueryError(QueryError::InvalidPreset(x))) => x@ == p,
                    _ => false,
                },
                PlanOutcome::UnknownCommand(c) => final(ctx).plan@ == old(ctx).plan@ && match r {
                    Err(PlannerError::QueryError(QueryError::UnknownCommand(x))) => x@ == c,
                    _ => false,
                },
                PlanOutcome::AnalysisFailed(e) => final(ctx).plan@ == old(ctx).plan@ && r == Err::<
                    (),
                    PlannerError,
                >(PlannerError::ExecutionError(e)),
            },
    {
        match self.get_preset(ctx) {
            Ok(()) => {},
            Err(e) => {
                return Err(PlannerError::QueryError(e));
            },
        }
        let ghost st0 = st;
        let output_dir_exists = st.output_dir_exists;
        let windows_target = st.windows_target;
        let has_sources = st.src_files.len() > 0;
        if IncrementalBuild.or(IncrementalRun).is_satisfied_by(&ctx.args) || FullBuild.or(
            FullRun,
        ).is_satisfied_by(&ctx.args) {
            if has_sources {
                match self.plan_compilation(ctx, st) {
                    Ok(()) => {},
                    Err(e) => {
                        return Err(e);
                    },
                }
                self.plan_linkage(ctx, output_dir_exists, windows_target);
                if FullRun.or(IncrementalRun).is_satisfied_by(&ctx.args) {
                    self.plan_run_linked(ctx);
                }
                proof {
                    let preset = preset_name(old(ctx).args@);
                    let v = old(ctx).args@;
                    let srcs = sources_to_compile(v, st0)->Ok_0;
                    assert(strings_view(self.obj_list@) =~= strings_view(st0.src_files@).map_values(
                        |s: Seq<char>| obj_path_of(s),
                    ));
                    assert(ctx.plan@ =~= old(ctx).plan@ + (compile_steps(srcs, preset)
                        + link_and_run_steps(old(ctx).config, v, st0, preset)));
                }
            } else {
                assert(ctx.plan@ =~= old(ctx).plan@ + Seq::<StepView>::empty());
            }
        } else if InitProject.is_satisfied_by(&ctx.args) {
            self.plan_init(ctx);
        } else {
            match &ctx.args.command {
                Some(c) => {
                    return Err(PlannerError::QueryError(QueryError::UnknownCommand(c.clone())));
                },
                None => {
                    assert(ctx.plan@ =~= old(ctx).plan@ + Seq::<StepView>::empty());
                },
            }
        }
        Ok(())
    }
}

/// The plan is ordered: in the steps that planning appends, every compilation comes before the
/// linkage, a directory creation for the executable comes before the linkage, and the run of
/// the executable comes after it.
pub proof fn lemma_plan_ordering(cfg: Config, v: ArgsView, st: ProjectState)
    ensures
        plan_outcome(cfg, v, st) is Steps ==> {
            let s = plan_outcome(cfg, v, st)->Steps_0;
            &&& forall|i: int, j: int|
                0 <= i < s.len() && 0 <= j < s.len() && (#[trigger] s[i]) is Compilation && (
                #[trigger] s[j]) is Linkage ==> i < j
            &&& forall|i: int, j: int|
                0 <= i < s.len() && 0 <= j < s.len() && (#[trigger] s[i]) is CreateDir && (
                #[trigger] s[j]) is Linkage ==> i < j
            &&& forall|i: int, j: int|
                0 <= i < s.len() && 0 <= j < s.len() && (#[trigger] s[i]) is Run && (
                #[trigger] s[j]) is Linkage ==> j < i
        },
{
    let preset = preset_name(v);
    if plan_outcome(cfg, v, st) is Steps {
        let s = plan_outcome(cfg, v, st)->Steps_0;
        if table_view(cfg.presets@).contains_key(preset) && (wants_incremental(v) || wants_full(v))
            && st.src_files.len() > 0 {
            let srcs = sources_to_compile(v, st)->Ok_0;
            let c = compile_steps(srcs, preset);
            let rest = link_and_run_steps(cfg, v, st, preset);
            assert(s == c + rest);
            let m: int = if st.output_dir_exists {
                0
            } else {
                1
            };
            // the linkage stands right after the compilations and the directory creation
            assert forall|j: int| 0 <= j < s.len() && (#[trigger] s[j]) is Linkage implies j
                == c.len() + m by {
                if j < c.len() {
                    assert(s[j] == c[j]);
                } else if j < c.len() + m {
                    assert(s[j] == rest[j - c.len()]);
                } else if j > c.len() + m {
                    assert(s[j] == rest[j - c.len()]);
                }
            }
            assert forall|i: int| 0 <= i < s.len() && (#[trigger] s[i]) is Compilation implies i
                < c.len() by {
                if i >= c.len() {
                    assert(s[i] == rest[i - c.len()]);
                }
            }
            assert forall|i: int| 0 <= i < s.len() && (#[trigger] s[i]) is CreateDir implies i
                < c.len() + m by {
                if i < c.len() {
                    assert(s[i] == c[i]);
                } else {
                    assert(s[i] == rest[i - c.len()]);
                }
            }
            assert forall|i: int| 0 <= i < s.len() && (#[trigger] s[i]) is Run implies i > c.len()
                + m by {
                if i < c.len() {
                    assert(s[i] == c[i]);
                } else {
                    assert(s[i] == rest[i - c.len()]);
                }
            }
        } else if table_view(cfg.presets@).contains_key(preset) && !(wants_incremental(v)
            || wants_full(v)) && command_is(v, "init"@) {
            assert(s == init_steps());
            assert forall|j: int| 0 <= j < s.len() implies !((#[trigger] s[j]) is Linkage) by {
                assert(j < 7);
            }
        }
    }
}

proof fn lemma_compiled_are_sources(v: ArgsView, st: ProjectState)
    requires
        analysis_consistent(v, st),
        sources_to_compile(v, st) is Ok,
    ensures
        forall|i: int|
            0 <= i < sources_to_compile(v, st)->Ok_0.len() ==> strings_view(st.src_files@).contains(
                #[trigger] sources_to_compile(v, st)->Ok_0[i],
            ),
{
    let srcs = sources_to_compile(v, st)->Ok_0;
    let all = strings_view(st.src_files@);
    if incremental_active(v, st) && st.analysis is Some {
        let a = st.analysis->Some_0->Ok_0;
        let objs = strings_view(st.obj_files@);
        let tv = a.times@.map_values(|t: Vec<Option<u64>>| t@);
        assert forall|i: int| 0 <= i < srcs.len() implies all.contains(#[trigger] srcs[i]) by {
            let x = srcs[i];
            assert(srcs.contains(x));
            crate::dependency_analyzer::lemma_dirty_sources_members(
                a.spans@,
                objs,
                st.newest_obj,
                tv,
                a.spans@.len() as int,
                x,
            );
            let k = choose|k: int|
                0 <= k < a.spans@.len() && (#[trigger] a.spans@[k]).dependent@ == x
                    && crate::dependency_analyzer::is_dirty(x, objs, st.newest_obj, tv[k]);
            assert(a.spans@[k].dependent@ == st.src_files@[k]@);
            assert(all[k] == x);
        }
    } else {
        assert forall|i: int| 0 <= i < srcs.len() implies all.contains(#[trigger] srcs[i]) by {
            assert(srcs[i] == all[i]);
        }
    }
}

/// The linkage takes every object that the plan compiles, and a run step, where there is one,
/// is the only one and comes right after the linkage, running the cleaned executable with the
/// arguments given after `--`.
pub proof fn lemma_plan_links_and_runs(cfg: Config, v: ArgsView, st: ProjectState)
    requires
        analysis_consistent(v, st),
    ensures
        plan_outcome(cfg, v, st) is Steps ==> {
            let s = plan_outcome(cfg, v, st)->Steps_0;
            &&& forall|i: int, j: int|
                0 <= i < s.len() && 0 <= j < s.len() && (#[trigger] s[i]) is Compilation && (
                #[trigger] s[j]) is Linkage ==> s[j]->Linkage_source.contains(
                    s[i]->Compilation_output,
                )
            &&& forall|k: int|
                0 <= k < s.len() && (#[trigger] s[k]) is Run ==> {
                    &&& k > 0
                    &&& s[k - 1] is Linkage
                    &&& s[k]->Run_exe == cleaned(s[k - 1]->Linkage_output)
                    &&& s[k]->Run_args == v.free
                }
            &&& forall|k1: int, k2: int|
                0 <= k1 < s.len() && 0 <= k2 < s.len() && (#[trigger] s[k1]) is Run && (
                #[trigger] s[k2]) is Run ==> k1 == k2
        },
{
    let preset = preset_name(v);
    if plan_outcome(cfg, v, st) is Steps {
        let s = plan_outcome(cfg, v, st)->Steps_0;
        if table_view(cfg.presets@).contains_key(preset) && (wants_incremental(v) || wants_full(v))
            && st.src_files.len() > 0 {
            let srcs = sources_to_compile(v, st)->Ok_0;
            let all = strings_view(st.src_files@);
            let c = compile_steps(srcs, preset);
            let rest = link_and_run_steps(cfg, v, st, preset);
            assert(s == c + rest);
            let m: int = if st.output_dir_exists {
                0
            } else {
                1
            };
            let l = c.len() + m;
            assert(s[l] == rest[m]);
            lemma_compiled_are_sources(v, st);
            assert forall|j: int| 0 <= j < s.len() && (#[trigger] s[j]) is Linkage implies j
                == l by {
                if j < c.len() {
                    assert(s[j] == c[j]);
                } else {
                    assert(s[j] == rest[j - c.len()]);
                }
            }
            assert forall|i: int, j: int|
                0 <= i < s.len() && 0 <= j < s.len() && (#[trigger] s[i]) is Compilation && (
                #[trigger] s[j]) is Linkage implies s[j]->Linkage_source.contains(
                s[i]->Compilation_output,
            ) by {
                if i >= c.len() {
                    assert(s[i] == rest[i - c.len()]);
                }
                assert(s[i] == c[i]);
                let x = srcs[i];
                assert(all.contains(x));
                let k = choose|k: int| 0 <= k < all.len() && all[k] == x;
                let link_src = all.map_values(|p: Seq<char>| obj_path_of(p));
                assert(s[j]->Linkage_source == link_src);
                assert(link_src[k] == obj_path_of(x));
            }
            assert forall|k: int| 0 <= k < s.len() && (#[trigger] s[k]) is Run implies k == l + 1
                && wants_run(v) by {
                if k < c.len() {
                    assert(s[k] == c[k]);
                } else {
                    assert(s[k] == rest[k - c.len()]);
                }
            }
        } else if table_view(cfg.presets@).contains_key(preset) && !(wants_incremental(v)
            || wants_full(v)) && command_is(v, "init"@) {
            assert(s == init_steps());
            assert forall|j: int| 0 <= j < s.len() implies !((#[trigger] s[j]) is Linkage) && !(
            s[j] is Run) by {
                assert(j < 7);
            }
        }
    }
}

} // verus!
