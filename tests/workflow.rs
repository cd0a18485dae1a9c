use cum::arg_parser::{ArgParser, Args};
use cum::config::{Config, Preset};
use cum::config_parser::ConfigParser;
use cum::dependency_analyzer::DependencyAnalyzer;
use cum::diagnostics::DiagnosticBag;
use cum::plan::Plan;
use cum::planner::{Context, Planner, ProjectState};
use cum::proc_output::ProcOutput;
use cum::step::Step;
use cum::test_utils::MockFactory;

fn s(x: &str) -> String {
    String::from(x)
}

fn default_config() -> Config {
    Config {
        std: 20,
        include_dirs: vec![s("include"), s("dependencies/include")],
        lib_dirs: vec![s("dependencies/lib")],
        target_name: s("main"),
        presets: vec![
            (
                s("debug"),
                Preset {
                    cflags: vec![s("-g"), s("-O0")],
                    lflags: vec![],
                    libs: vec![],
                    target_folder: s("target/debug"),
                },
            ),
            (
                s("release"),
                Preset {
                    cflags: vec![s("-O2")],
                    lflags: vec![],
                    libs: vec![],
                    target_folder: s("target/release"),
                },
            ),
        ],
    }
}

fn mock_ctx_for_call(args: &[&str]) -> Context {
    Context { config: default_config(), args: MockFactory::mock_args(args), plan: Plan::new() }
}

#[test]
fn simple_dep_anal_debug() {
    let mock_cfg = default_config();
    let mock_files: Vec<String> = vec!["src/main.cpp".into(), "src/dep1.cpp".into()];
    let mut analyzer = DependencyAnalyzer::new(&mock_cfg, &mock_files);
    let outputs = vec![
        Ok(ProcOutput {
            outs: s("main.o: src/main.cpp include/dep1.hpp \\\n  include/util.hpp\n"),
            errs: s(""),
            exit_code: 0,
        }),
        Ok(ProcOutput { outs: s("dep1.o: src/dep1.cpp include/dep1.hpp\n"), errs: s(""), exit_code: 0 }),
    ];

    analyzer.generate_dependencies(outputs).unwrap();

    println!("Generated: {:#?}", analyzer.dependency_spans);
    assert_eq!(analyzer.dependency_spans.len(), 2);
    assert_eq!(
        analyzer.dependency_spans[0].dependencies,
        vec![s("src/main.cpp"), s("include/dep1.hpp"), s("include/util.hpp")]
    );
}

#[test]
fn simple_args_regression() {
    let mock_args: Vec<String> =
        vec!["cum.exe", "build", "--config=release", "-v", "main.cpp", "--", "--forward-flag"]
            .iter()
            .map(|s| String::from(*s))
            .collect();
    let mut parsed = Args::new();
    let parser = ArgParser::new(mock_args);

    let mut expected_args = Args::new();
    expected_args.command = Some("build".to_string());
    expected_args.flags.push("v".to_string());
    expected_args.named_params.push((String::from("config"), String::from("release")));
    expected_args.unnamed_params.push(String::from("main.cpp"));
    expected_args.freestanding_params.push(String::from("--forward-flag"));

    parser.try_parse(&mut parsed).unwrap();

    println!("Parsed args: {:#?}", parsed);
    assert_eq!(parsed, expected_args);
}

#[test]
fn simple_args_param_as_flag() {
    let mock_args: Vec<String> = vec!["cum.exe", "--help"].iter().map(|s| String::from(*s)).collect();
    let mut parsed = Args::new();
    let parser = ArgParser::new(mock_args);

    let mut expected_args = Args::new();
    expected_args.named_params.push((String::from("help"), String::from("help")));

    parser.try_parse(&mut parsed).unwrap();

    assert_eq!(parsed, expected_args);
}

#[test]
fn simple_cfg_parser_debug() {
    let parser = ConfigParser::new(s("test_assets/Cum.toml"));
    let mut config = Config {
        std: 0,
        include_dirs: vec![],
        lib_dirs: vec![],
        target_name: s(""),
        presets: vec![],
    };
    let user = Config {
        std: 17,
        include_dirs: vec![],
        lib_dirs: vec![],
        target_name: s("test_app"),
        presets: vec![(
            s("debug"),
            Preset { cflags: vec![s("-Wall")], lflags: vec![], libs: vec![], target_folder: s("") },
        )],
    };

    parser.make_default(&mut config, Ok(default_config())).unwrap();
    parser.try_incremental_parse(&mut config, Some(Ok(user))).unwrap();

    println!("Parsed config: {:#?}", config);
    assert_eq!(config.std, 17);
    assert_eq!(config.target_name, "test_app");
    let debug = config.preset("debug").unwrap();
    assert_eq!(debug.cflags, vec![s("-Wall")]);
    assert_eq!(debug.target_folder, "target/debug");
}

#[test]
fn simple_planner_build_inc_debug() {
    let mut mock_ctx = mock_ctx_for_call(&["cum.exe", "build"]);
    let state = ProjectState {
        src_files: vec![s("src/main.cpp"), s("src/dep1.cpp")],
        obj_files: vec![],
        newest_obj: None,
        output_dir_exists: true,
        windows_target: false,
        analysis: None,
    };

    let mut planner = Planner::new();
    planner.try_make_plan(&mut mock_ctx, state).unwrap();

    println!("IncrementalBuild: {:#?}", mock_ctx.plan);
    assert_eq!(mock_ctx.plan.steps().len(), 3);
}

#[test]
fn simple_planner_run_inc_debug() {
    let mut mock_ctx = mock_ctx_for_call(&["cum.exe", "run", "--", "-param", "-flag"]);
    let state = ProjectState {
        src_files: vec![s("src/main.cpp")],
        obj_files: vec![],
        newest_obj: None,
        output_dir_exists: false,
        windows_target: false,
        analysis: None,
    };

    let mut planner = Planner::new();
    planner.try_make_plan(&mut mock_ctx, state).unwrap();

    println!("IncrementalRun: {:#?}", mock_ctx.plan);
    match mock_ctx.plan.steps().last().unwrap() {
        Step::Run { exe, args } => {
            assert_eq!(exe, "target/debug/main");
            assert_eq!(args, &vec![s("-param"), s("-flag")]);
        }
        other => panic!("unexpected last step {:?}", other),
    }
    let _ = DiagnosticBag::new();
}
