use vstd::prelude::*;

use crate::arg_parser::{Args, ArgsView};
use crate::text::same_text;

verus! {

/// A condition on a parsed command line.
pub trait ArgsSpec: Sized {
    /// Whether a command line meets the condition.
    spec fn satisfied(&self, item: ArgsView) -> bool;

    fn is_satisfied_by(&self, item: &Args) -> (r: bool)
        ensures
            r == self.satisfied(item@),
    ;
}

/// Conditions built from other conditions.
pub trait Combine: ArgsSpec {
    /// Both conditions.
    fn and<B: ArgsSpec>(self, other: B) -> (r: AndArgsSpec<Self, B>)
        ensures
            r.left == self,
            r.right == other,
    ;

    /// Either condition.
    fn or<B: ArgsSpec>(self, other: B) -> (r: OrArgsSpec<Self, B>)
        ensures
            r.left == self,
            r.right == other,
    ;

    /// The opposite condition.
    fn not(self) -> (r: NotArgsSpec<Self>)
        ensures
            r.wrapped == self,
    ;
}

impl<T: ArgsSpec> Combine for T {
    fn and<B: ArgsSpec>(self, other: B) -> (r: AndArgsSpec<Self, B>) {
        AndArgsSpec { left: self, right: other }
    }

    fn or<B: ArgsSpec>(self, other: B) -> (r: OrArgsSpec<Self, B>) {
        OrArgsSpec { left: self, right: other }
    }

    fn not(self) -> (r: NotArgsSpec<Self>) {
        NotArgsSpec { wrapped: self }
    }
}

pub struct AndArgsSpec<A, B> {
    pub left: A,
    pub right: B,
}

pub struct OrArgsSpec<A, B> {
    pub left: A,
    pub right: B,
}

pub struct NotArgsSpec<W> {
    pub wrapped: W,
}

impl<A: ArgsSpec, B: ArgsSpec> ArgsSpec for AndArgsSpec<A, B> {
    open spec fn satisfied(&self, item: ArgsView) -> bool {
        self.left.satisfied(item) && self.right.satisfied(item)
    }

    fn is_satisfied_by(&self, item: &Args) -> (r: bool) {
        self.left.is_satisfied_by(item) && self.right.is_satisfied_by(item)
    }
}

impl<A: ArgsSpec, B: ArgsSpec> ArgsSpec for OrArgsSpec<A, B> {
    open spec fn satisfied(&self, item: ArgsView) -> bool {
        self.left.satisfied(item) || self.right.satisfied(item)
    }

    fn is_satisfied_by(&self, item: &Args) -> (r: bool) {
        self.left.is_satisfied_by(item) || self.right.is_satisfied_by(item)
    }
}

impl<W: ArgsSpec> ArgsSpec for NotArgsSpec<W> {
    open spec fn satisfied(&self, item: ArgsView) -> bool {
        !self.wrapped.satisfied(item)
    }

    fn is_satisfied_by(&self, item: &Args) -> (r: bool) {
        !self.wrapped.is_satisfied_by(item)
    }
}

/// Whether `flag` was given, as a flag or as a named argument.
pub open spec fn given(v: ArgsView, flag: Seq<char>) -> bool {
    v.flags.contains(flag) || v.named.contains_key(flag)
}

/// Whether the command is `cmd`.
pub open spec fn command_is(v: ArgsView, cmd: Seq<char>) -> bool {
    v.command == Some(cmd)
}

/// Whether a full build was asked for: with `--preset`, `--force` or `-f`.
pub open spec fn forced(v: ArgsView) -> bool {
    given(v, "preset"@) || given(v, "force"@) || given(v, "f"@)
}

/// Whether the command is `name`.
fn command_named(item: &Args, name: &str) -> (r: bool)
    ensures
        r == command_is(item@, name@),
{
    match &item.command {
        Some(c) => same_text(c.as_str(), name),
        None => false,
    }
}

fn is_forced(item: &Args) -> (r: bool)
    ensures
        r == forced(item@),
{
    item.have_flag("preset") || item.have_flag("force") || item.have_flag("f")
}

/// `build` without `--preset`, `--force` or `-f`.
pub struct IncrementalBuild;

/// `build` with `--preset`, `--force` or `-f`.
pub struct FullBuild;

/// `run` without `--preset`, `--force` or `-f`.
pub struct IncrementalRun;

/// `run` with `--preset`, `--force` or `-f`.
pub struct FullRun;

/// `init`.
pub struct InitProject;

/// No command, with `-h` or `--help`.
pub struct PrintHelp;

/// No command, with `-v` or `--version`.
pub struct PrintVersion;

impl ArgsSpec for IncrementalBuild {
    open spec fn satisfied(&self, item: ArgsView) -> bool {
        command_is(item, "build"@) && !forced(item)
    }

    fn is_satisfied_by(&self, item: &Args) -> (r: bool) {
        command_named(item, "build") && !is_forced(item)
    }
}

impl ArgsSpec for IncrementalRun {
    open spec fn satisfied(&self, item: ArgsView) -> bool {
        command_is(item, "run"@) && !forced(item)
    }

    fn is_satisfied_by(&self, item: &Args) -> (r: bool) {
        command_named(item, "run") && !is_forced(item)
    }
}

impl ArgsSpec for FullBuild {
    open spec fn satisfied(&self, item: ArgsView) -> bool {
        command_is(item, "build"@) && forced(item)
    }

    fn is_satisfied_by(&self, item: &Args) -> (r: bool) {
        command_named(item, "build") && is_forced(item)
    }
}

impl ArgsSpec for FullRun {
    open spec fn satisfied(&self, item: ArgsView) -> bool {
        command_is(item, "run"@) && forced(item)
    }

    fn is_satisfied_by(&self, item: &Args) -> (r: bool) {
        command_named(item, "run") && is_forced(item)
    }
}

impl ArgsSpec for InitProject {
    open spec fn satisfied(&self, item: ArgsView) -> bool {
        command_is(item, "init"@)
    }

    fn is_satisfied_by(&self, item: &Args) -> (r: bool) {
        command_named(item, "init")
    }
}

impl ArgsSpec for PrintHelp {
    open spec fn satisfied(&self, item: ArgsView) -> bool {
        item.command is None && (given(item, "h"@) || given(item, "help"@))
    }

    fn is_satisfied_by(&self, item: &Args) -> (r: bool) {
        item.command.is_none() && (item.have_flag("h") || item.have_flag("help"))
    }
}

impl ArgsSpec for PrintVersion {
    open spec fn satisfied(&self, item: ArgsView) -> bool {
        item.command is None && (given(item, "v"@) || given(item, "version"@))
    }

    fn is_satisfied_by(&self, item: &Args) -> (r: bool) {
        item.command.is_none() && (item.have_flag("v") || item.have_flag("version"))
    }
}

} // verus!
