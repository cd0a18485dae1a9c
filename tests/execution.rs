use cum::config::{Config, Preset};
use cum::diagnostics::{DiagnosticBag, DiagnosticKind};
use cum::errors::ExecutionError;
use cum::execution::{full_cargs, full_largs, Action, PlanExecutor};
use cum::plan::Plan;
use cum::planner::Context;
use cum::proc_output::ProcOutput;
use cum::step::Step;
use cum::test_utils::MockFactory;

fn s(x: &str) -> String {
    String::from(x)
}

fn config() -> Config {
    Config {
        std: 3,
        include_dirs: vec![s("include")],
        lib_dirs: vec![s("lib")],
        target_name: s("app"),
        presets: vec![(
            s("debug"),
            Preset {
                cflags: vec![s("-g"), s("-Wall")],
                lflags: vec![s("-static")],
                libs: vec![s("m"), s("pthread")],
                target_folder: s("target/debug"),
            },
        )],
    }
}

fn out(code: i32, errs: &str) -> Result<ProcOutput, ExecutionError> {
    Ok(ProcOutput { outs: s(""), errs: s(errs), exit_code: code })
}

fn build_plan(n: usize) -> Plan {
    let mut plan = Plan::new();
    for i in 0..n {
        plan.add_compilation(format!("src/f{i}.cpp"), format!("target/obj/src.f{i}.o"), s("debug"));
    }
    plan.add_linkage((0..n).map(|i| format!("target/obj/src.f{i}.o")).collect(), s("target/debug/app"), s("debug"));
    plan.add_run(s("target/debug/app"), vec![s("--flag")]);
    plan
}

fn context(plan: Plan) -> Context {
    Context { config: config(), args: MockFactory::mock_args(&["cum", "run"]), plan }
}

#[test]
fn compile_and_link_argument_order() {
    let cfg = config();
    let c = Step::Compilation { source: s("src/./a.cpp"), output: s("target/obj/src.a.o"), preset: s("debug") };
    assert_eq!(
        full_cargs(&cfg, &c).unwrap(),
        vec![s("-std=c++03"), s("-g"), s("-Wall"), s("-Iinclude"), s("-c"), s("src/a.cpp"), s("-o"), s("target/obj/src.a.o")]
    );
    let l = Step::Linkage { source: vec![s("a.o"), s("x/../b.o")], output: s("target/debug/app"), preset: s("debug") };
    assert_eq!(
        full_largs(&cfg, &l).unwrap(),
        vec![s("-std=c++03"), s("a.o"), s("b.o"), s("-static"), s("-Llib"), s("-lm"), s("-lpthread"), s("-o"), s("target/debug/app")]
    );
    assert!(full_cargs(&cfg, &l).is_none());
    let bad = Step::Compilation { source: s("a.cpp"), output: s("a.o"), preset: s("nope") };
    assert!(full_cargs(&cfg, &bad).is_none());
}

#[test]
fn successful_build_walks_every_step() {
    let ctx = context(build_plan(2));
    let mut diags = DiagnosticBag::new();
    let mut ex = PlanExecutor::new();
    assert!(matches!(ex.next_action(&ctx, &mut diags), Action::Compile { .. }));
    match ex.next_action(&ctx, &mut diags) {
        Action::Compile { exe, args } => {
            assert_eq!(exe, "clang++");
            assert_eq!(args[args.len() - 3], "src/f1.cpp");
        }
        other => panic!("unexpected {:?}", other),
    }
    assert!(matches!(ex.next_action(&ctx, &mut diags), Action::JoinCompilations));
    // still waiting: asked again for the join
    assert!(matches!(ex.next_action(&ctx, &mut diags), Action::JoinCompilations));
    let largs = ex.accept_compilation(&ctx, &mut diags, vec![out(0, "warning: unused\n"), out(0, "")]).unwrap();
    assert_eq!(largs[1], "target/obj/src.f0.o");
    assert_eq!(diags.get_sorted().len(), 1);
    assert_eq!(diags.get_sorted()[0].kind, DiagnosticKind::Warning);
    assert_eq!(diags.get_sorted()[0].msg, "warning: unused");
    assert!(ex.compilation_timer().elapsed().is_some());
    ex.accept_linkage(&mut diags, out(0, ""));
    match ex.next_action(&ctx, &mut diags) {
        Action::Run { exe, args, flushed } => {
            assert_eq!(exe, "target/debug/app");
            assert_eq!(args, vec![s("--flag")]);
            assert_eq!(flushed.len(), 1);
        }
        other => panic!("unexpected {:?}", other),
    }
    assert!(diags.get_sorted().is_empty());
    ex.accept_run(&mut diags, Ok(0));
    assert!(matches!(ex.next_action(&ctx, &mut diags), Action::Finish));
}

#[test]
fn failing_compile_stops_before_link_and_run() {
    let ctx = context(build_plan(1));
    let mut diags = DiagnosticBag::new();
    let mut ex = PlanExecutor::new();
    assert!(matches!(ex.next_action(&ctx, &mut diags), Action::Compile { .. }));
    assert!(matches!(ex.next_action(&ctx, &mut diags), Action::JoinCompilations));
    let largs = ex.accept_compilation(&ctx, &mut diags, vec![out(2, "  error: expected ';'\n")]);
    assert!(largs.is_none());
    assert!(diags.contains_error());
    let sorted = diags.get_sorted();
    assert_eq!(sorted[0].kind, DiagnosticKind::Error);
    assert_eq!(sorted[0].msg, "error: expected ';'");
    // neither the link nor the run is ever handed out
    assert!(matches!(ex.next_action(&ctx, &mut diags), Action::Finish));
    assert!(matches!(ex.next_action(&ctx, &mut diags), Action::Finish));
}

#[test]
fn link_waits_for_all_results_in_any_order() {
    let ctx = context(build_plan(3));
    let mut diags = DiagnosticBag::new();
    let mut ex = PlanExecutor::new();
    for _ in 0..3 {
        assert!(matches!(ex.next_action(&ctx, &mut diags), Action::Compile { .. }));
    }
    assert!(matches!(ex.next_action(&ctx, &mut diags), Action::JoinCompilations));
    // only two of the three results arrived: no linkage
    let mut ex2 = PlanExecutor::new();
    let mut diags2 = DiagnosticBag::new();
    for _ in 0..4 {
        ex2.next_action(&ctx, &mut diags2);
    }
    assert!(ex2.accept_compilation(&ctx, &mut diags2, vec![out(0, ""), out(0, "")]).is_none());
    assert_eq!(diags2.get_sorted()[0].msg, "Expected 3 compilation results, received 2");
    // all three, in another order than submitted
    assert!(ex.accept_compilation(&ctx, &mut diags, vec![out(0, ""), out(0, "note\n"), out(0, "")]).is_some());
    assert!(!diags.contains_error());
}

#[test]
fn link_failure_and_run_failure_are_errors() {
    let ctx = context(build_plan(0));
    let mut diags = DiagnosticBag::new();
    let ex = PlanExecutor::new();
    ex.accept_linkage(&mut diags, out(1, "ld: undefined symbol\n"));
    assert_eq!(diags.get_sorted()[0].msg, "ld: undefined symbol");
    let mut diags = DiagnosticBag::new();
    ex.accept_run(&mut diags, Ok(-3));
    assert_eq!(diags.get_sorted()[0].msg, "Program did not finish successfully: [-3]");
    let mut diags = DiagnosticBag::new();
    ex.accept_run(&mut diags, Err(ExecutionError::ProcIO(s("No such file"))));
    assert_eq!(diags.get_sorted()[0].msg, "Process IO error: [No such file]");
    let _ = ctx;
}

#[test]
fn file_steps_become_actions() {
    let mut plan = Plan::new();
    plan.add_make_dir(s("d"));
    plan.add_remove_dir(s("e"));
    plan.add_make_file(s("f"));
    plan.add_remove_file(s("g"));
    let ctx = context(plan);
    let mut diags = DiagnosticBag::new();
    let mut ex = PlanExecutor::new();
    assert!(matches!(ex.next_action(&ctx, &mut diags), Action::MakeDir { path } if path == "d"));
    assert!(matches!(ex.next_action(&ctx, &mut diags), Action::RemoveDir { path } if path == "e"));
    diags.report_error_str(s("mkfile failed"));
    assert!(matches!(ex.next_action(&ctx, &mut diags), Action::Finish));
}

#[test]
fn compile_with_unknown_preset_is_an_error() {
    let mut plan = Plan::new();
    plan.add_compilation(s("a.cpp"), s("a.o"), s("gone"));
    let ctx = context(plan);
    let mut diags = DiagnosticBag::new();
    let mut ex = PlanExecutor::new();
    assert!(matches!(ex.next_action(&ctx, &mut diags), Action::Skip));
    assert_eq!(diags.get_sorted()[0].msg, "Invalid preset: 'gone'");
}

#[test]
fn diagnostics_sorted_warnings_first() {
    let mut bag = DiagnosticBag::new();
    bag.report_error_str(s("e1"));
    bag.report_warning(s("w1"));
    bag.report_error(ExecutionError::ProcErr { code: 4, errs: s("x") });
    bag.report_warning(s("w2"));
    let msgs: Vec<String> = bag.get_sorted().into_iter().map(|d| d.msg).collect();
    assert_eq!(msgs, vec![s("w1"), s("w2"), s("e1"), s("Process finished with error (4): x")]);
    assert!(bag.contains_error());
    let taken = bag.take_sorted();
    assert_eq!(taken.len(), 4);
    assert!(!bag.contains_error());
}

#[test]
fn failed_file_step_is_an_error() {
    let ex = PlanExecutor::new();
    let mut diags = DiagnosticBag::new();
    ex.accept_fs(&mut diags, Ok(()));
    assert!(!diags.contains_error());
    ex.accept_fs(&mut diags, Err(s("Permission denied")));
    assert_eq!(diags.get_sorted()[0].msg, "Permission denied");
    assert!(diags.contains_error());
}

#[test]
fn compile_step_starts_the_timer_and_collection_stops_it() {
    let ctx = context(build_plan(1));
    let mut diags = DiagnosticBag::new();
    let mut ex = PlanExecutor::new();
    assert!(ex.compilation_timer().elapsed().is_none());
    assert!(matches!(ex.next_action(&ctx, &mut diags), Action::Compile { .. }));
    assert!(ex.compilation_timer().elapsed().is_none());
    assert!(matches!(ex.next_action(&ctx, &mut diags), Action::JoinCompilations));
    ex.accept_compilation(&ctx, &mut diags, vec![out(0, "")]).unwrap();
    assert!(ex.compilation_timer().elapsed().is_some());
}
