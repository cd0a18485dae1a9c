use cum::arg_parser::Args;
use cum::args_specification::{ArgsSpec, Combine, FullBuild, FullRun, IncrementalBuild, IncrementalRun, InitProject, PrintHelp, PrintVersion};
use cum::config::{Config, Preset};
use cum::dependency_analyzer::DependencySpan;
use cum::errors::{ErrorMessage, ExecutionError, PlannerError, QueryError};
use cum::plan::Plan;
use cum::planner::{Analysis, Context, Planner, ProjectState};
use cum::step::Step;
use cum::test_utils::MockFactory;

fn s(x: &str) -> String {
    String::from(x)
}

fn config() -> Config {
    Config {
        std: 20,
        include_dirs: vec![s("include")],
        lib_dirs: vec![s("lib")],
        target_name: s("app"),
        presets: vec![(
            s("debug"),
            Preset {
                cflags: vec![s("-g")],
                lflags: vec![s("-fuse-ld=lld")],
                libs: vec![s("m")],
                target_folder: s("target/debug"),
            },
        )],
    }
}

fn ctx(args: &[&str]) -> Context {
    Context { config: config(), args: MockFactory::mock_args(args), plan: Plan::new() }
}

fn state(srcs: &[&str], objs: &[&str]) -> ProjectState {
    ProjectState {
        src_files: srcs.iter().map(|x| s(x)).collect(),
        obj_files: objs.iter().map(|x| s(x)).collect(),
        newest_obj: if objs.is_empty() { None } else { Some(100) },
        output_dir_exists: true,
        windows_target: false,
        analysis: None,
    }
}

fn count(plan: &Plan, f: fn(&Step) -> bool) -> usize {
    plan.steps().iter().filter(|x| f(x)).count()
}

#[test]
fn empty_source_directory_plans_nothing() {
    let mut c = ctx(&["cum", "build"]);
    Planner::new().try_make_plan(&mut c, state(&[], &[])).unwrap();
    assert_eq!(count(&c.plan, |x| matches!(x, Step::Compilation { .. })), 0);
    assert_eq!(count(&c.plan, |x| matches!(x, Step::Linkage { .. })), 0);
    assert!(c.plan.steps().is_empty());
}

#[test]
fn no_objects_downgrades_to_full_build() {
    let c = ctx(&["cum", "build"]);
    let st = state(&["src/a.cpp", "src/b.cpp"], &[]);
    assert!(!Planner::needs_analysis(&c.args, &st));
    let mut c = c;
    Planner::new().try_make_plan(&mut c, st).unwrap();
    assert_eq!(count(&c.plan, |x| matches!(x, Step::Compilation { .. })), 2);
}

#[test]
fn incremental_build_compiles_dirty_sources_and_links_all() {
    let c = ctx(&["cum", "build"]);
    let mut st = state(&["src/a.cpp", "src/b.cpp"], &["target/obj/src.a.o", "target/obj/src.b.o"]);
    assert!(Planner::needs_analysis(&c.args, &st));
    st.analysis = Some(Ok(Analysis {
        spans: vec![
            DependencySpan { dependent: s("src/a.cpp"), dependencies: vec![s("src/a.cpp")] },
            DependencySpan { dependent: s("src/b.cpp"), dependencies: vec![s("src/b.cpp"), s("b.hpp")] },
        ],
        times: vec![vec![Some(1), Some(1)], vec![Some(1), Some(1), Some(200)]],
    }));
    let mut c = c;
    Planner::new().try_make_plan(&mut c, st).unwrap();
    let steps = c.plan.steps();
    assert_eq!(steps.len(), 2);
    match &steps[0] {
        Step::Compilation { source, output, preset } => {
            assert_eq!(source, "src/b.cpp");
            assert_eq!(output, "target/obj/src.b.o");
            assert_eq!(preset, "debug");
        }
        other => panic!("unexpected {:?}", other),
    }
    match &steps[1] {
        Step::Linkage { source, output, .. } => {
            assert_eq!(source, &vec![s("target/obj/src.a.o"), s("target/obj/src.b.o")]);
            assert_eq!(output, "target/debug/app");
        }
        other => panic!("unexpected {:?}", other),
    }
}

#[test]
fn failed_analysis_fails_planning() {
    let mut c = ctx(&["cum", "run"]);
    let mut st = state(&["src/a.cpp"], &["target/obj/src.a.o"]);
    st.analysis = Some(Err(ExecutionError::ProcErr { code: 1, errs: s("boom") }));
    let err = Planner::new().try_make_plan(&mut c, st).unwrap_err();
    assert!(matches!(err, PlannerError::ExecutionError(ExecutionError::ProcErr { code: 1, .. })));
    assert_eq!(err.message(), "Execution error: [Process finished with error (1): boom]");
    assert!(c.plan.steps().is_empty());
}

#[test]
fn missing_release_preset_is_invalid() {
    let mut c = ctx(&["cum", "build", "--preset=release"]);
    let err = Planner::new().try_make_plan(&mut c, state(&["src/a.cpp"], &[])).unwrap_err();
    match &err {
        PlannerError::QueryError(QueryError::InvalidPreset(p)) => assert_eq!(p, "release"),
        other => panic!("unexpected {:?}", other),
    }
    assert_eq!(err.message(), "Query error: [Invalid preset: 'release']");
    assert!(c.plan.steps().is_empty());
}

#[test]
fn unknown_command_fails() {
    let mut c = ctx(&["cum", "deploy"]);
    let err = Planner::new().try_make_plan(&mut c, state(&["src/a.cpp"], &[])).unwrap_err();
    match err {
        PlannerError::QueryError(QueryError::UnknownCommand(cmd)) => assert_eq!(cmd, "deploy"),
        other => panic!("unexpected {:?}", other),
    }
}

#[test]
fn run_plan_is_ordered() {
    let mut c = ctx(&["cum", "run", "-f", "--", "x"]);
    let mut st = state(&["src/a.cpp", "src/b.cpp"], &["target/obj/src.a.o"]);
    st.output_dir_exists = false;
    Planner::new().try_make_plan(&mut c, st).unwrap();
    let steps = c.plan.steps();
    assert_eq!(steps.len(), 5);
    assert!(matches!(steps[0], Step::Compilation { .. }));
    assert!(matches!(steps[1], Step::Compilation { .. }));
    match &steps[2] {
        Step::CreateDir { path } => assert_eq!(path, "target/debug"),
        other => panic!("unexpected {:?}", other),
    }
    assert!(matches!(steps[3], Step::Linkage { .. }));
    match &steps[4] {
        Step::Run { exe, args } => {
            assert_eq!(exe, "target/debug/app");
            assert_eq!(args, &vec![s("x")]);
        }
        other => panic!("unexpected {:?}", other),
    }
}

#[test]
fn run_step_names_the_cleaned_executable() {
    let mut c = ctx(&["cum", "run"]);
    c.config.presets[0].1.target_folder = s("target/./debug/");
    Planner::new().try_make_plan(&mut c, state(&["src/a.cpp"], &[])).unwrap();
    match c.plan.steps().last().unwrap() {
        Step::Run { exe, .. } => assert_eq!(exe, "target/debug/app"),
        other => panic!("unexpected {:?}", other),
    }
}

#[test]
fn windows_target_gets_exe_suffix() {
    let mut c = ctx(&["cum", "build", "--force"]);
    let mut st = state(&["src/a.cpp"], &[]);
    st.windows_target = true;
    Planner::new().try_make_plan(&mut c, st).unwrap();
    match c.plan.steps().last().unwrap() {
        Step::Linkage { output, .. } => assert_eq!(output, "target/debug/app.exe"),
        other => panic!("unexpected {:?}", other),
    }
}

#[test]
fn init_plans_project_skeleton() {
    let mut c = ctx(&["cum", "init"]);
    Planner::new().try_make_plan(&mut c, state(&[], &[])).unwrap();
    let steps = c.plan.steps();
    assert_eq!(steps.len(), 7);
    match &steps[0] {
        Step::CreateFile { path } => assert_eq!(path, "Cum.toml"),
        other => panic!("unexpected {:?}", other),
    }
    match &steps[6] {
        Step::CreateDir { path } => assert_eq!(path, "dependencies/lib"),
        other => panic!("unexpected {:?}", other),
    }
}

#[test]
fn output_dir_of_selected_preset() {
    let c = ctx(&["cum", "build"]);
    assert_eq!(Planner::output_dir(&c, false), Some(s("target/debug")));
    let c = ctx(&["cum", "build", "--preset=nope"]);
    assert_eq!(Planner::output_dir(&c, false), None);
}

#[test]
fn command_classification() {
    let b = MockFactory::mock_args(&["cum", "build"]);
    assert!(IncrementalBuild.is_satisfied_by(&b));
    assert!(!FullBuild.is_satisfied_by(&b));
    let f = MockFactory::mock_args(&["cum", "build", "-f"]);
    assert!(FullBuild.is_satisfied_by(&f));
    assert!(!IncrementalBuild.or(IncrementalRun).is_satisfied_by(&f));
    let r = MockFactory::mock_args(&["cum", "run", "--preset=debug"]);
    assert!(FullRun.is_satisfied_by(&r));
    assert!(IncrementalRun.not().is_satisfied_by(&r));
    assert!(FullRun.and(FullRun.or(FullBuild)).is_satisfied_by(&r));
    assert!(InitProject.is_satisfied_by(&MockFactory::mock_args(&["cum", "init"])));
    assert!(PrintHelp.is_satisfied_by(&MockFactory::mock_args(&["cum", "-h"])));
    assert!(PrintVersion.is_satisfied_by(&MockFactory::mock_args(&["cum", "--version"])));
    assert!(!PrintVersion.is_satisfied_by(&MockFactory::mock_args(&["cum", "build", "-v"])));
}

#[test]
fn parse_args_edge_cases() {
    let a = MockFactory::mock_args(&["cum", "-v", "build", "--x=", "-v", "--x=2", "--"]);
    // the command is only taken from the first argument
    assert_eq!(a.command, None);
    assert_eq!(a.unnamed_params, vec![s("build")]);
    assert_eq!(a.flags, vec![s("v")]);
    assert_eq!(a.named_params, vec![(s("x"), s("2"))]);
    assert!(a.freestanding_params.is_empty());
    assert!(a.have_flag("x"));
    assert!(!a.have_flag("y"));
}

#[test]
fn parse_without_arguments_fails() {
    let mut a = Args::new();
    let err = cum::arg_parser::ArgParser::new(vec![s("cum")]).try_parse(&mut a).unwrap_err();
    assert!(matches!(err, QueryError::NoArgs));
    assert_eq!(err.message(), "No arguments provided");
}
