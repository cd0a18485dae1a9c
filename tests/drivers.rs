use cum::config::{Config, Preset};
use cum::dependency_analyzer::{DependencyAnalyzer, DependencySpan, MakefileParser};
use cum::errors::{ErrorMessage, ExecutionError};
use cum::fs_manager::{parent_dir, FilesystemManager};
use cum::proc_output::ProcOutput;

fn s(x: &str) -> String {
    String::from(x)
}

fn config() -> Config {
    Config {
        std: 17,
        include_dirs: vec![s("include"), s("deps/include")],
        lib_dirs: vec![],
        target_name: s("app"),
        presets: vec![(
            s("debug"),
            Preset { cflags: vec![], lflags: vec![], libs: vec![], target_folder: s("target/debug") },
        )],
    }
}

fn ok(outs: &str) -> Result<ProcOutput, ExecutionError> {
    Ok(ProcOutput { outs: s(outs), errs: s(""), exit_code: 0 })
}

#[test]
fn src_to_obj_flattens_directories() {
    assert_eq!(FilesystemManager::src_to_obj(&s("src/deps/dep1.cpp")), "target/obj/src.deps.dep1.o");
    assert_eq!(FilesystemManager::src_to_obj_path("src/main.cpp"), "target/obj/src.main.o");
}

#[test]
fn src_to_obj_escapes_dots_inside_names() {
    assert_eq!(FilesystemManager::src_to_obj_path("src/a.b.cpp"), "target/obj/src.a%2Eb.o");
    assert_eq!(FilesystemManager::src_to_obj_path("src/a/b.cpp"), "target/obj/src.a.b.o");
    assert_eq!(FilesystemManager::src_to_obj_path("src/foo.test.cpp"), "target/obj/src.foo%2Etest.o");
    assert_eq!(FilesystemManager::src_to_obj_path("src/100%.cpp"), "target/obj/src.100%25.o");
    assert_eq!(FilesystemManager::src_to_obj_path("noext"), "target/obj/noext.o");
    assert_eq!(FilesystemManager::src_to_obj_path("dir.d/noext"), "target/obj/dir%2Ed.noext.o");
}

#[test]
fn src_to_obj_never_collides_on_dotted_names() {
    let a = FilesystemManager::src_to_obj_path("src/a.b.cpp");
    let b = FilesystemManager::src_to_obj_path("src/a/b.cpp");
    assert_ne!(a, b);
    let c = FilesystemManager::src_to_obj_path("src/x%2Ey.cpp");
    let d = FilesystemManager::src_to_obj_path("src/x.y.cpp");
    assert_ne!(c, d);
}

#[test]
fn find_newest_time_is_the_latest() {
    let list = vec![s("a.o"), s("b.o"), s("c.o"), s("d.o")];
    let times = vec![Some(3), Some(8), Some(8), Some(1)];
    assert_eq!(FilesystemManager::find_newest(&list, &times), Some(s("b.o")));
}

#[test]
fn src_to_obj_is_deterministic_and_distinguishes_same_names() {
    let a = FilesystemManager::src_to_obj_path("src/a/util.cpp");
    let b = FilesystemManager::src_to_obj_path("src/b/util.cpp");
    assert_ne!(a, b);
    assert_eq!(a, FilesystemManager::src_to_obj_path("src/a/util.cpp"));
}

#[test]
fn find_newest_picks_latest_time() {
    let list = vec![s("a.o"), s("b.o"), s("c.o")];
    assert_eq!(FilesystemManager::find_newest(&list, &vec![Some(5), Some(9), Some(7)]), Some(s("b.o")));
    assert_eq!(FilesystemManager::find_newest(&vec![], &vec![]), None);
    // a time that cannot be read never keeps the current pick
    assert_eq!(FilesystemManager::find_newest(&list, &vec![Some(5), None, Some(1)]), Some(s("c.o")));
}

#[test]
fn is_older_and_is_newer() {
    assert_eq!(FilesystemManager::is_older(Some(1), Some(2)), Some(true));
    assert_eq!(FilesystemManager::is_older(Some(2), Some(2)), Some(false));
    assert_eq!(FilesystemManager::is_newer(Some(2), Some(2)), Some(true));
    assert_eq!(FilesystemManager::is_newer(None, Some(2)), None);
}

#[test]
fn to_full_joins_relative_paths() {
    let fs = FilesystemManager::new(s("/home/p"));
    assert_eq!(fs.to_full("src/a.cpp"), "/home/p/src/a.cpp");
    assert_eq!(fs.to_full("/abs"), "/abs");
    assert_eq!(FilesystemManager::new(s("/root/")).to_full("x"), "/root/x");
    assert_eq!(fs.root(), "/home/p");
}

#[test]
fn parent_dir_of_paths() {
    assert_eq!(parent_dir("target/debug/app"), "target/debug");
    assert_eq!(parent_dir("app"), "");
    assert_eq!(parent_dir("/a"), "");
}

#[test]
fn make_dependency_reads_makefile_rule() {
    let span = MakefileParser::make_dependency(
        "src/main.cpp",
        s("main.o: src/main.cpp \\\n  include/a.hpp include/b.hpp \\\n  include/c.hpp\n"),
    );
    assert_eq!(span.dependent, "src/main.cpp");
    assert_eq!(
        span.dependencies,
        vec![s("src/main.cpp"), s("include/a.hpp"), s("include/b.hpp"), s("include/c.hpp")]
    );
}

#[test]
fn make_dependency_of_empty_output() {
    let span = MakefileParser::make_dependency("x.cpp", s(""));
    assert!(span.dependencies.is_empty());
}

#[test]
fn clang_args_order() {
    let cfg = config();
    let files = vec![s("src/a.cpp")];
    let analyzer = DependencyAnalyzer::new(&cfg, &files);
    assert_eq!(
        analyzer.get_clang_args("src/a.cpp"),
        vec![s("-std=c++17"), s("-MM"), s("src/a.cpp"), s("-Iinclude"), s("-Ideps/include")]
    );
}

#[test]
fn generate_dependencies_stops_at_first_failure() {
    let cfg = config();
    let files = vec![s("a.cpp"), s("b.cpp"), s("c.cpp")];
    let mut analyzer = DependencyAnalyzer::new(&cfg, &files);
    let outputs = vec![
        ok("a.o: a.cpp\n"),
        Ok(ProcOutput { outs: s(""), errs: s("fatal: b.hpp not found"), exit_code: 1 }),
        ok("c.o: c.cpp\n"),
    ];
    let err = analyzer.generate_dependencies(outputs).unwrap_err();
    match &err {
        ExecutionError::ProcErr { code, errs } => {
            assert_eq!(*code, 1);
            assert_eq!(errs, "fatal: b.hpp not found");
        }
        other => panic!("unexpected {:?}", other),
    }
    assert_eq!(err.message(), "Process finished with error (1): fatal: b.hpp not found");
    assert_eq!(analyzer.dependency_spans.len(), 1);
}

#[test]
fn push_dependency_passes_spawn_errors() {
    let cfg = config();
    let files = vec![s("a.cpp")];
    let mut analyzer = DependencyAnalyzer::new(&cfg, &files);
    let err = analyzer.push_dependency("a.cpp", Err(ExecutionError::ProcIO(s("not found")))).unwrap_err();
    assert_eq!(err.message(), "Process IO error: [not found]");
    assert!(analyzer.dependency_spans.is_empty());
}

fn span(dependent: &str, deps: &[&str]) -> DependencySpan {
    DependencySpan { dependent: s(dependent), dependencies: deps.iter().map(|d| s(d)).collect() }
}

#[test]
fn dirty_source_with_stale_header() {
    // one source, one header newer than the newest object file
    let cfg = config();
    let files = vec![s("src/main.cpp")];
    let mut analyzer = DependencyAnalyzer::new(&cfg, &files);
    analyzer.dependency_spans = vec![span("src/main.cpp", &["src/main.cpp", "include/a.hpp"])];
    let objs = vec![s("target/obj/src.main.o")];
    let times = vec![vec![Some(10), Some(10), Some(30)]];
    assert_eq!(analyzer.get_dirty_src(&objs, Some(20), &times), vec![s("src/main.cpp")]);
}

#[test]
fn dirty_set_excludes_up_to_date_and_includes_missing_objects() {
    let cfg = config();
    let files = vec![s("src/a.cpp"), s("src/b.cpp"), s("src/c.cpp")];
    let mut analyzer = DependencyAnalyzer::new(&cfg, &files);
    analyzer.dependency_spans = vec![
        span("src/a.cpp", &["src/a.cpp"]),
        span("src/b.cpp", &["src/b.cpp"]),
        span("src/c.cpp", &["src/c.cpp", "x.hpp"]),
    ];
    // b has no object file; c has a header whose time cannot be read
    let objs = vec![s("target/obj/src.a.o"), s("target/obj/src.c.o")];
    let times = vec![vec![Some(1), Some(1)], vec![Some(1), Some(1)], vec![Some(1), Some(1), None]];
    assert_eq!(analyzer.get_dirty_src(&objs, Some(5), &times), vec![s("src/b.cpp"), s("src/c.cpp")]);
    // with no object file at all, every source is dirty
    assert_eq!(analyzer.get_dirty_src(&objs, None, &times).len(), 3);
}

#[test]
fn analysis_asks_for_no_file_after_a_failure() {
    let cfg = config();
    let files = vec![s("a.cpp"), s("b.cpp"), s("c.cpp")];
    let mut analyzer = DependencyAnalyzer::new(&cfg, &files);
    assert_eq!(analyzer.next_file(), Some(0));
    analyzer.push_dependency("a.cpp", ok("a.o: a.cpp\n")).unwrap();
    assert_eq!(analyzer.next_file(), Some(1));
    assert!(analyzer.push_dependency("b.cpp", Err(ExecutionError::ProcIO(s("gone")))).is_err());
    assert!(analyzer.stopped);
    assert_eq!(analyzer.next_file(), None);
}

#[test]
fn analysis_ends_after_the_last_file() {
    let cfg = config();
    let files = vec![s("a.cpp")];
    let mut analyzer = DependencyAnalyzer::new(&cfg, &files);
    analyzer.push_dependency("a.cpp", ok("a.o: a.cpp\n")).unwrap();
    assert_eq!(analyzer.next_file(), None);
}
