use vstd::prelude::*;

use crate::config::{std_text, strings_view, Config};
use crate::errors::ExecutionError;
use crate::fs_manager::{obj_path_of, FilesystemManager};
use crate::proc_output::ProcSpawnResult;
use crate::text::{
    chars_of, is_space, is_space_char, owned, same_text, split_on, split_pieces, string_of,
    trim_end_space,
};

verus! {

/// `s` without the backslashes at its end.
pub open spec fn trim_end_backslash(s: Seq<char>) -> Seq<char>
    decreases s.len(),
{
    if s.len() > 0 && s.last() == '\\' {
        trim_end_backslash(s.drop_last())
    } else {
        s
    }
}

/// The pieces of `s` between white space characters (always at least one, possibly empty).
pub open spec fn split_space(s: Seq<char>) -> Seq<Seq<char>>
    decreases s.len(),
{
    if s.len() == 0 {
        seq![Seq::<char>::empty()]
    } else {
        let rest = split_space(s.drop_last());
        if is_space(s.last()) {
            rest.push(Seq::<char>::empty())
        } else {
            rest.update(rest.len() - 1, rest.last().push(s.last()))
        }
    }
}

/// The non-empty pieces of `segs`, in order.
pub open spec fn non_empty(segs: Seq<Seq<char>>) -> Seq<Seq<char>>
    decreases segs.len(),
{
    if segs.len() == 0 {
        segs
    } else if segs.last().len() > 0 {
        non_empty(segs.drop_last()).push(segs.last())
    } else {
        non_empty(segs.drop_last())
    }
}

/// The words of `s`: its maximal runs of characters that are not white space.
pub open spec fn words(s: Seq<char>) -> Seq<Seq<char>> {
    non_empty(split_space(s))
}

/// The dependencies that one line of a Makefile rule names: its words, after a trailing
/// line continuation is cut off, without a leading `target:`.
pub open spec fn line_dependencies(line: Seq<char>) -> Seq<Seq<char>> {
    let w = words(trim_end_backslash(trim_end_space(line)));
    if w.len() > 0 && w[0].last() == ':' {
        w.drop_first()
    } else {
        w
    }
}

/// The dependencies that the lines `lines` name, in order.
pub open spec fn lines_dependencies(lines: Seq<Seq<char>>) -> Seq<Seq<char>>
    decreases lines.len(),
{
    if lines.len() == 0 {
        Seq::<Seq<char>>::empty()
    } else {
        lines_dependencies(lines.drop_last()) + line_dependencies(lines.last())
    }
}

/// The dependencies that a Makefile rule, as the compiler's `-MM` prints it, names.
pub open spec fn rule_dependencies(text: Seq<char>) -> Seq<Seq<char>> {
    lines_dependencies(split_on(text, '\n'))
}

/// The compiler's arguments that list the dependencies of `file`.
pub open spec fn clang_args_view(std: Seq<char>, file: Seq<char>, include_dirs: Seq<Seq<char>>) -> Seq<
    Seq<char>,
> {
    seq!["-std=c++"@ + std, "-MM"@, file] + include_dirs.map_values(|d: Seq<char>| "-I"@ + d)
}

/// Whether a file with modification time `t` is newer than the newest object file (a time
/// that could not be read counts as newer).
pub open spec fn is_stale(t: Option<u64>, newest: u64) -> bool {
    match t {
        Some(x) => x > newest,
        None => true,
    }
}

/// Whether the source of a span must be compiled again: its object file is missing, there is
/// no object file at all, or it or a file it includes is newer than the newest object file.
/// `times[0]` is the time of the source, `times[j + 1]` that of its `j`-th dependency.
pub open spec fn is_dirty(
    dependent: Seq<char>,
    objs: Seq<Seq<char>>,
    newest: Option<u64>,
    times: Seq<Option<u64>>,
) -> bool {
    !objs.contains(obj_path_of(dependent)) || newest is None || exists|j: int|
        0 <= j < times.len() && is_stale(#[trigger] times[j], newest->0)
}

/// A source file and the files it includes.
#[derive(Debug, Clone)]
pub struct DependencySpan {
    pub dependent: String,
    pub dependencies: Vec<String>,
}

/// The sources of the first `n` spans that must be compiled again, in order.
pub open spec fn dirty_sources(
    spans: Seq<DependencySpan>,
    objs: Seq<Seq<char>>,
    newest: Option<u64>,
    times: Seq<Seq<Option<u64>>>,
    n: int,
) -> Seq<Seq<char>>
    decreases n,
{
    if n <= 0 {
        Seq::<Seq<char>>::empty()
    } else {
        let rest = dirty_sources(spans, objs, newest, times, n - 1);
        if is_dirty(spans[n - 1].dependent@, objs, newest, times[n - 1]) {
            rest.push(spans[n - 1].dependent@)
        } else {
            rest
        }
    }
}

/// Reads the dependencies out of the compiler's Makefile rules.
pub struct MakefileParser;

/// Finds the files each source file includes, and which sources must be compiled again.
pub struct DependencyAnalyzer<'a> {
    pub cfg: &'a Config,
    pub src_files: &'a Vec<String>,
    pub dependency_spans: Vec<DependencySpan>,
    /// Set once a compiler run failed; no further file is asked for after that.
    pub stopped: bool,
}

proof fn lemma_non_empty_items(segs: Seq<Seq<char>>)
    ensures
        forall|i: int| 0 <= i < non_empty(segs).len() ==> (#[trigger] non_empty(segs)[i]).len() > 0,
    decreases segs.len(),
{
    if segs.len() > 0 {
        lemma_non_empty_items(segs.drop_last());
        let rest = non_empty(segs.drop_last());
        if segs.last().len() > 0 {
            assert forall|i: int| 0 <= i < non_empty(segs).len() implies (#[trigger] non_empty(
                segs,
            )[i]).len() > 0 by {
                if i < rest.len() {
                    assert(non_empty(segs)[i] == rest[i]);
                }
            }
        }
    }
}

fn line_words(line: &Vec<char>) -> (r: Vec<String>)
    ensures
        strings_view(r@) == line_dependencies(line@),
{
    let mut e = line.len();
    assert(line@.take(e as int) =~= line@);
    while e > 0 && is_space_char(line[e - 1])
        invariant
            e <= line.len(),
            trim_end_space(line@) == trim_end_space(line@.take(e as int)),
        decreases e,
    {
        assert(line@.take(e as int).drop_last() =~= line@.take(e - 1));
        e -= 1;
    }
    assert(trim_end_space(line@.take(e as int)) == line@.take(e as int));
    while e > 0 && line[e - 1] == '\\'
        invariant
            e <= line.len(),
            trim_end_backslash(trim_end_space(line@)) == trim_end_backslash(line@.take(e as int)),
        decreases e,
    {
        assert(line@.take(e as int).drop_last() =~= line@.take(e - 1));
        e -= 1;
    }
    let ghost t = line@.take(e as int);
    assert(trim_end_backslash(t) == t);
    let mut done: Vec<String> = Vec::new();
    let ghost mut pieces: Seq<Seq<char>> = Seq::empty();
    let mut start: usize = 0;
    let mut j: usize = 0;
    assert(t.take(0) =~= Seq::<char>::empty());
    assert(t.subrange(0, 0) =~= Seq::<char>::empty());
    assert(pieces.push(Seq::<char>::empty()) =~= seq![Seq::<char>::empty()]);
    while j < e
        invariant
            e <= line.len(),
            t == line@.take(e as int),
            start <= j <= e,
            split_space(t.take(j as int)) == pieces.push(t.subrange(start as int, j as int)),
            strings_view(done@) == non_empty(pieces),
        decreases e - j,
    {
        let c = line[j];
        assert(t.take(j + 1).drop_last() =~= t.take(j as int));
        if is_space_char(c) {
            let ghost cur = t.subrange(start as int, j as int);
            if start < j {
                assert(t.subrange(start as int, j as int) =~= line@.subrange(start as int, j as int));
                let w = string_of(line, start, j);
                let ghost before = strings_view(done@);
                done.push(w);
                assert(strings_view(done@) =~= before.push(cur));
            }
            proof {
                assert(pieces.push(cur).drop_last() =~= pieces);
                pieces = pieces.push(cur);
                assert(t.subrange(j + 1, j + 1) =~= Seq::<char>::empty());
            }
            start = j + 1;
        } else {
            assert(t.subrange(start as int, j + 1) =~= t.subrange(start as int, j as int).push(c));
        }
        j += 1;
    }
    let ghost cur = t.subrange(start as int, e as int);
    if start < e {
        assert(t.subrange(start as int, e as int) =~= line@.subrange(start as int, e as int));
        let w = string_of(line, start, e);
        let ghost before = strings_view(done@);
        done.push(w);
        assert(strings_view(done@) =~= before.push(cur));
    }
    assert(t.take(e as int) =~= t);
    assert(pieces.push(cur).drop_last() =~= pieces);
    let ghost w = words(t);
    assert(strings_view(done@) == w);
    proof {
        lemma_non_empty_items(split_space(t));
    }
    if done.len() > 0 {
        let first = chars_of(done[0].as_str());
        if first.len() > 0 && first[first.len() - 1] == ':' {
            assert(w[0] == first@);
            let ghost before = done@;
            done.remove(0);
            assert(strings_view(done@) =~= w.drop_first());
        } else {
            assert(w[0] == first@);
        }
    }
    done
}

impl MakefileParser {
    /// The span of `file`, its dependencies read from `text`, the Makefile rule that the
    /// compiler printed for it: every word of the rule but a leading `target:`, line
    /// continuations left out.
    pub fn make_dependency(file: &str, text: String) -> (r: DependencySpan)
        ensures
            r.dependent@ == file@,
            strings_view(r.dependencies@) == rule_dependencies(text@),
    {
        let chars = chars_of(text.as_str());
        let lines = split_pieces(&chars, '\n');
        let ghost ls = lines@.map_values(|v: Vec<char>| v@);
        let mut deps: Vec<String> = Vec::new();
        let n = lines.len();
        let mut i: usize = 0;
        while i < n
            invariant
                n == lines@.len(),
                ls == lines@.map_values(|v: Vec<char>| v@),
                ls == split_on(text@, '\n'),
                i <= n,
                strings_view(deps@) == lines_dependencies(ls.take(i as int)),
            decreases n - i,
        {
            let mut w = line_words(&lines[i]);
            let ghost before = strings_view(deps@);
            let ghost wv = strings_view(w@);
            deps.append(&mut w);
            assert(ls.take(i + 1).drop_last() =~= ls.take(i as int));
            assert(strings_view(deps@) =~= before + wv);
            i += 1;
        }
        assert(ls.take(n as int) =~= ls);
        DependencySpan { dependent: owned(file), dependencies: deps }
    }
}

/// The source and dependencies of a span, as text.
pub open spec fn span_view(s: DependencySpan) -> (Seq<char>, Seq<Seq<char>>) {
    (s.dependent@, strings_view(s.dependencies@))
}

/// The views of a list of spans.
pub open spec fn spans_view(s: Seq<DependencySpan>) -> Seq<(Seq<char>, Seq<Seq<char>>)> {
    s.map_values(|x: DependencySpan| span_view(x))
}

/// Whether the compiler ran and exited with code 0.
pub open spec fn output_ok(o: ProcSpawnResult) -> bool {
    match o {
        Ok(p) => p.exit_code == 0,
        Err(_) => false,
    }
}

/// The error for a compiler run that failed.
pub open spec fn output_error(o: ProcSpawnResult) -> ExecutionError {
    match o {
        Ok(p) => ExecutionError::ProcErr { code: p.exit_code, errs: p.errs },
        Err(e) => e,
    }
}

/// The spans that the first `k` compiler runs give for their files.
pub open spec fn spans_from(files: Seq<String>, outputs: Seq<ProcSpawnResult>, k: int) -> Seq<
    (Seq<char>, Seq<Seq<char>>),
> {
    Seq::new(k as nat, |i: int| (files[i]@, rule_dependencies(outputs[i]->Ok_0.outs@)))
}

fn contains_text(v: &Vec<String>, s: &str) -> (r: bool)
    ensures
        r == strings_view(v@).contains(s@),
{
    let n = v.len();
    let mut i: usize = 0;
    while i < n
        invariant
            n == v.len(),
            i <= n,
            forall|j: int| 0 <= j < i ==> (#[trigger] v@[j])@ != s@,
        decreases n - i,
    {
        if same_text(v[i].as_str(), s) {
            assert(strings_view(v@)[i as int] == s@);
            return true;
        }
        i += 1;
    }
    assert(!strings_view(v@).contains(s@)) by {
        if strings_view(v@).contains(s@) {
            let j = choose|j: int| 0 <= j < strings_view(v@).len() && strings_view(v@)[j] == s@;
            assert(v@[j]@ == s@);
        }
    }
    false
}

impl<'a> DependencyAnalyzer<'a> {
    /// An analyzer of `src_files` under the configuration `cfg`, with no spans yet.
    pub fn new(cfg: &'a Config, src_files: &'a Vec<String>) -> (r: Self)
        ensures
            r.config() == *cfg,
            r.src_files == src_files,
            r.dependency_spans@.len() == 0,
            !r.stopped,
    {
        DependencyAnalyzer { cfg, src_files, dependency_spans: Vec::new(), stopped: false }
    }

    /// The index in `src_files` of the file to run the compiler on next: the first one without
    /// a span, as long as no run has failed; `None` once every file has its span or a run
    /// failed.
    pub fn next_file(&self) -> (r: Option<usize>)
        ensures
            r == if !self.stopped && self.dependency_spans.len() < self.src_files.len() {
                Some(self.dependency_spans.len())
            } else {
                None::<usize>
            },
    {
        if !self.stopped && self.dependency_spans.len() < self.src_files.len() {
            Some(self.dependency_spans.len())
        } else {
            None
        }
    }

    /// The configuration the analyzer works with.
    pub open spec fn config(&self) -> Config {
        *self.cfg
    }

    /// Reads the dependencies of every source file from compiler runs that were already made,
    /// `outputs[i]` being the run for `src_files[i]`. Stops at the first run that failed or
    /// exited with a non-zero code, and returns its error; the spans of the files before it are
    /// kept. Since the runs are made before this is called, it does not save any of them; a
    /// caller that runs the compiler file by file asks `next_file` and hands each run to
    /// `push_dependency`, and is asked for no further file after the first failure.
    pub fn generate_dependencies(&mut self, outputs: Vec<ProcSpawnResult>) -> (r: Result<(), ExecutionError>)
        requires
            outputs.len() == old(self).src_files.len(),
        ensures
            final(self).src_files == old(self).src_files,
            final(self).config() == old(self).config(),
            r is Ok ==> final(self).stopped == old(self).stopped,
            r is Err ==> final(self).stopped,
            r is Ok <==> forall|i: int| 0 <= i < outputs.len() ==> output_ok(#[trigger] outputs@[i]),
            r is Ok ==> spans_view(final(self).dependency_spans@) == spans_view(
                old(self).dependency_spans@,
            ) + spans_from(old(self).src_files@, outputs@, outputs.len() as int),
            r is Err ==> exists|k: int|
                0 <= k < outputs.len() && (forall|i: int|
                    0 <= i < k ==> output_ok(#[trigger] outputs@[i])) && !output_ok(outputs@[k])
                    && r == Err::<(), ExecutionError>(output_error(outputs@[k])) && spans_view(
                    final(self).dependency_spans@,
                ) == spans_view(old(self).dependency_spans@) + spans_from(
                    old(self).src_files@,
                    outputs@,
                    k,
                ),
    {
        let ghost all = outputs@;
        let ghost base = spans_view(self.dependency_spans@);
        let mut rest = outputs;
        let n = rest.len();
        let mut i: usize = 0;
        while i < n
            invariant
                n == all.len() == self.src_files.len(),
                all == outputs@,
                base == spans_view(old(self).dependency_spans@),
                self.stopped == old(self).stopped,
                self.src_files == old(self).src_files,
                self.config() == old(self).config(),
                i <= n,
                rest@ == all.subrange(i as int, n as int),
                forall|j: int| 0 <= j < i ==> output_ok(#[trigger] all[j]),
                spans_view(self.dependency_spans@) == base + spans_from(
                    self.src_files@,
                    all,
                    i as int,
                ),
            decreases n - i,
        {
            let out = rest.remove(0);
            assert(out == all[i as int]);
            assert(rest@ =~= all.subrange(i + 1, n as int));
            let ghost before = spans_view(self.dependency_spans@);
            match self.push_dependency(self.src_files[i].as_str(), out) {
                Ok(()) => {
                    assert(spans_from(self.src_files@, all, i + 1) =~= spans_from(
                        self.src_files@,
                        all,
                        i as int,
                    ).push((self.src_files@[i as int]@, rule_dependencies(all[i as int]->Ok_0.outs@))));
                    assert(spans_view(self.dependency_spans@) =~= base + spans_from(
                        self.src_files@,
                        all,
                        i + 1,
                    ));
                },
                Err(e) => {
                    assert(spans_view(self.dependency_spans@) == before);
                    assert(!output_ok(all[i as int]));
                    assert(e == output_error(all[i as int]));
                    assert(spans_view(self.dependency_spans@) == spans_view(
                        old(self).dependency_spans@,
                    ) + spans_from(old(self).src_files@, outputs@, i as int));
                    return Err(e);
                },
            }
            i += 1;
        }
        Ok(())
    }

    /// The compiler's arguments that list the dependencies of `file`.
    pub fn get_clang_args(&self, file: &str) -> (r: Vec<String>)
        requires
            std_text(self.config().std) is Some,
        ensures
            strings_view(r@) == clang_args_view(
                std_text(self.config().std)->0,
                file@,
                strings_view(self.config().include_dirs@),
            ),
    {
        let std = match self.cfg.std_as_str() {
            Some(s) => s,
            None => String::new(),
        };
        let mut flag = owned("-std=c++");
        flag.append(std.as_str());
        let mut res: Vec<String> = Vec::new();
        res.push(flag);
        res.push(owned("-MM"));
        res.push(owned(file));
        let ghost head = strings_view(res@);
        let dirs = &self.cfg.include_dirs;
        let n = dirs.len();
        let mut i: usize = 0;
        while i < n
            invariant
                n == dirs.len(),
                dirs == self.config().include_dirs,
                i <= n,
                strings_view(res@) == head + strings_view(dirs@).take(i as int).map_values(
                    |d: Seq<char>| "-I"@ + d,
                ),
            decreases n - i,
        {
            let mut d = owned("-I");
            d.append(dirs[i].as_str());
            let ghost before = strings_view(res@);
            res.push(d);
            assert(strings_view(res@) =~= before.push(d@));
            assert(strings_view(dirs@).take(i + 1).map_values(|d: Seq<char>| "-I"@ + d) =~= strings_view(
                dirs@,
            ).take(i as int).map_values(|d: Seq<char>| "-I"@ + d).push(d@));
            i += 1;
        }
        assert(strings_view(dirs@).take(n as int) =~= strings_view(dirs@));
        assert(strings_view(res@) =~= clang_args_view(
            std_text(self.config().std)->0,
            file@,
            strings_view(self.config().include_dirs@),
        ));
        res
    }

    /// Takes the compiler's run for `file`: a failed run, or one that exited with a non-zero
    /// code, is an error, adds nothing and stops the analysis; otherwise the span of `file` is
    /// added.
    pub fn push_dependency(&mut self, file: &str, out: ProcSpawnResult) -> (r: Result<(), ExecutionError>)
        ensures
            final(self).src_files == old(self).src_files,
            final(self).config() == old(self).config(),
            final(self).stopped == (old(self).stopped || !output_ok(out)),
            output_ok(out) ==> r is Ok && spans_view(final(self).dependency_spans@) == spans_view(
                old(self).dependency_spans@,
            ).push((file@, rule_dependencies(out->Ok_0.outs@))),
            !output_ok(out) ==> r == Err::<(), ExecutionError>(output_error(out))
                && final(self).dependency_spans@ == old(self).dependency_spans@,
    {
        match out {
            Err(e) => {
                self.stopped = true;
                Err(e)
            },
            Ok(o) => {
                if o.exit_code != 0 {
                    self.stopped = true;
                    return Err(ExecutionError::ProcErr { code: o.exit_code, errs: o.errs });
                }
                let span = MakefileParser::make_dependency(file, o.outs);
                self.dependency_spans.push(span);
                assert(spans_view(self.dependency_spans@) =~= spans_view(
                    old(self).dependency_spans@,
                ).push((file@, rule_dependencies(out->Ok_0.outs@))));
                Ok(())
            },
        }
    }

    /// The sources that must be compiled again, in the order of their spans. `obj_files` are
    /// the object files that exist, `newest` the time of the newest of them (`None` where there
    /// are none), and `times[i]` the modification times of the `i`-th span's source followed
    /// by those of its dependencies (`None` where one could not be read).
    pub fn get_dirty_src(
        &self,
        obj_files: &Vec<String>,
        newest: Option<u64>,
        times: &Vec<Vec<Option<u64>>>,
    ) -> (r: Vec<String>)
        requires
            times.len() == self.dependency_spans.len(),
        ensures
            strings_view(r@) == dirty_sources(
                self.dependency_spans@,
                strings_view(obj_files@),
                newest,
                times@.map_values(|t: Vec<Option<u64>>| t@),
                self.dependency_spans.len() as int,
            ),
    {
        let ghost tv = times@.map_values(|t: Vec<Option<u64>>| t@);
        let ghost objs = strings_view(obj_files@);
        let spans = &self.dependency_spans;
        let n = spans.len();
        let mut r: Vec<String> = Vec::new();
        let mut i: usize = 0;
        while i < n
            invariant
                n == spans.len() == times.len(),
                spans == self.dependency_spans,
                tv == times@.map_values(|t: Vec<Option<u64>>| t@),
                objs == strings_view(obj_files@),
                i <= n,
                strings_view(r@) == dirty_sources(spans@, objs, newest, tv, i as int),
            decreases n - i,
        {
            let src = &spans[i].dependent;
            let obj = FilesystemManager::src_to_obj(src);
            let mut dirty = !contains_text(obj_files, obj.as_str());
            if !dirty {
                match newest {
                    None => {
                        dirty = true;
                    },
                    Some(limit) => {
                        let t = &times[i];
                        assert(t@ == tv[i as int]);
                        let m = t.len();
                        let mut j: usize = 0;
                        while j < m && !dirty
                            invariant
                                m == t.len(),
                                j <= m,
                                dirty ==> is_stale(t@[j - 1], limit) && j >= 1,
                                !dirty ==> forall|k: int| 0 <= k < j ==> !is_stale(#[trigger] t@[k], limit),
                            decreases m - j,
                        {
                            match t[j] {
                                Some(x) => {
                                    if x > limit {
                                        dirty = true;
                                    }
                                },
                                None => {
                                    dirty = true;
                                },
                            }
                            j += 1;
                        }
                    },
                }
            }
            assert(dirty == is_dirty(spans@[i as int].dependent@, objs, newest, tv[i as int]));
            if dirty {
                let ghost before = strings_view(r@);
                r.push(src.clone());
                assert(strings_view(r@) =~= before.push(src@));
            }
            i += 1;
        }
        r
    }
}

/// Whether no two spans have the same source.
pub open spec fn dependents_unique(spans: Seq<DependencySpan>) -> bool {
    forall|i: int, j: int|
        0 <= i < spans.len() && 0 <= j < spans.len() && i != j ==> (#[trigger] spans[i]).dependent@
            != (#[trigger] spans[j]).dependent@
}

/// What the dirty sources are: the sources of the spans that are dirty.
pub proof fn lemma_dirty_sources_members(
    spans: Seq<DependencySpan>,
    objs: Seq<Seq<char>>,
    newest: Option<u64>,
    times: Seq<Seq<Option<u64>>>,
    n: int,
    x: Seq<char>,
)
    requires
        0 <= n <= spans.len(),
    ensures
        dirty_sources(spans, objs, newest, times, n).contains(x) <==> exists|i: int|
            0 <= i < n && (#[trigger] spans[i]).dependent@ == x && is_dirty(
                x,
                objs,
                newest,
                times[i],
            ),
    decreases n,
{
    if n > 0 {
        lemma_dirty_sources_members(spans, objs, newest, times, n - 1, x);
        let rest = dirty_sources(spans, objs, newest, times, n - 1);
        let d = spans[n - 1].dependent@;
        if is_dirty(d, objs, newest, times[n - 1]) {
            assert(rest.push(d).contains(x) <==> (rest.contains(x) || d == x)) by {
                if rest.push(d).contains(x) {
                    let k = choose|k: int| 0 <= k < rest.push(d).len() && rest.push(d)[k] == x;
                    if k < rest.len() {
                        assert(rest[k] == x);
                    }
                }
                if rest.contains(x) {
                    let k = choose|k: int| 0 <= k < rest.len() && rest[k] == x;
                    assert(rest.push(d)[k] == x);
                }
                if d == x {
                    assert(rest.push(d)[rest.len() as int] == x);
                }
            }
        }
    }
}

/// The dirty set is correct: a source whose object file is missing is always recompiled, and
/// a source whose object file exists, and which with every file it includes is no newer than
/// the newest object file, is left out.
pub proof fn lemma_dirty_set_correct(
    spans: Seq<DependencySpan>,
    objs: Seq<Seq<char>>,
    newest: Option<u64>,
    times: Seq<Seq<Option<u64>>>,
    i: int,
)
    requires
        0 <= i < spans.len(),
        dependents_unique(spans),
    ensures
        !objs.contains(obj_path_of(spans[i].dependent@)) ==> dirty_sources(
            spans,
            objs,
            newest,
            times,
            spans.len() as int,
        ).contains(spans[i].dependent@),
        objs.contains(obj_path_of(spans[i].dependent@)) && newest is Some && (forall|j: int|
            0 <= j < times[i].len() ==> (#[trigger] times[i][j]) is Some && times[i][j]->0
                <= newest->0) ==> !dirty_sources(
            spans,
            objs,
            newest,
            times,
            spans.len() as int,
        ).contains(spans[i].dependent@),
{
    let x = spans[i].dependent@;
    lemma_dirty_sources_members(spans, objs, newest, times, spans.len() as int, x);
    if objs.contains(obj_path_of(x)) && newest is Some && (forall|j: int|
        0 <= j < times[i].len() ==> (#[trigger] times[i][j]) is Some && times[i][j]->0
            <= newest->0) {
        assert(!is_dirty(x, objs, newest, times[i]));
        assert forall|k: int| 0 <= k < spans.len() && (#[trigger] spans[k]).dependent@ == x implies !is_dirty(
            x,
            objs,
            newest,
            times[k],
        ) by {
            if k != i {
                assert(spans[k].dependent@ != spans[i].dependent@);
            }
        }
    }
}

} // verus!
