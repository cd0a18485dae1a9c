use vstd::prelude::*;

verus! {

/// Shown when the command line cannot be read.
pub const SHORT_HELP: &'static str = "Call 'cum --help' for help";

/// The usage text.
pub const HELP_MSG: &'static str = "Usage:
  cum <command> [options] [files]

Commands:
  build             Compile and link with 'debug' preset
  run               Same as build, but also run executable at the end
  test              Build and run test_runner with 'test' preset
  init              Initialize new project in current directory

Options:
  -h, --help        Show this help message and exit
  -v, --version     Show version
  -f, --force       Forced build, ignored with 'test' command
  --preset=...      Specify preset for build

Variadic:
    [files]         Specify file with 'main()' function, it will be included in build proccess, and other entry points will be ignored

Examples:
  prog build --force
  prog run src/main.cpp
  prog test -- --gtest_filter=MyTestSuite.*";

/// The version text.
pub const VERSION_MSG: &'static str =
    "C.U.M. 0.1.0\nCopyright (c) 2025 Zloy Kot\nCompilation unit manager for clang++.";

/// The compiler and linker that builds run.
pub const COMPILER: &'static str = "clang++";

} // verus!
