use vstd::prelude::*;

use crate::config::strings_view;
use crate::errors::QueryError;
use crate::table::{find_key, keys_unique, lemma_table_push, lemma_table_update, table_view};
use crate::text::{chars_of, same_text, string_of};

verus! {

/// The parsed command line.
#[derive(Debug, PartialEq, Eq)]
pub struct Args {
    /// The first argument after the program's name, where it is neither a flag nor named.
    pub command: Option<String>,
    /// Arguments of the form `-x`, without the dash; each once.
    pub flags: Vec<String>,
    /// Arguments of the form `--name=value` or `--name` (whose value is then its name); each
    /// name once.
    pub named_params: Vec<(String, String)>,
    pub unnamed_params: Vec<String>,
    /// The arguments after a lone `--`, as they were given.
    pub freestanding_params: Vec<String>,
}

/// What an `Args` holds, as text.
pub ghost struct ArgsView {
    pub command: Option<Seq<char>>,
    pub flags: Set<Seq<char>>,
    pub named: Map<Seq<char>, Seq<char>>,
    pub unnamed: Seq<Seq<char>>,
    pub free: Seq<Seq<char>>,
}

impl View for Args {
    type V = ArgsView;

    open spec fn view(&self) -> ArgsView {
        ArgsView {
            command: match self.command {
                Some(c) => Some(c@),
                None => None,
            },
            flags: strings_view(self.flags@).to_set(),
            named: table_view(self.named_params@),
            unnamed: strings_view(self.unnamed_params@),
            free: strings_view(self.freestanding_params@),
        }
    }
}

/// An argument of the form `--name` or `--name=value`.
pub open spec fn is_named_arg(s: Seq<char>) -> bool {
    s.len() >= 2 && s[0] == '-' && s[1] == '-'
}

/// An argument of the form `-x`.
pub open spec fn is_flag_arg(s: Seq<char>) -> bool {
    s.len() >= 1 && s[0] == '-' && !is_named_arg(s)
}

/// The name and value of a named argument: split at its first `=`, or its name twice.
pub open spec fn named_pair(s: Seq<char>) -> (Seq<char>, Seq<char>) {
    if exists|e: int| 2 <= e < s.len() && s[e] == '=' {
        let e = choose|e: int|
            2 <= e < s.len() && s[e] == '=' && forall|j: int| 2 <= j < e ==> s[j] != '=';
        (s.subrange(2, e), s.subrange(e + 1, s.len() as int))
    } else {
        (s.subrange(2, s.len() as int), s.subrange(2, s.len() as int))
    }
}

/// The view of `m` after the arguments `a[1..k]` were read into it; the flag says whether a
/// lone `--` was met, after which nothing more is read.
pub open spec fn parse_upto(m: ArgsView, a: Seq<Seq<char>>, k: int) -> (ArgsView, bool)
    decreases k,
{
    if k <= 1 {
        (m, false)
    } else {
        let (p, stopped) = parse_upto(m, a, k - 1);
        let arg = a[k - 1];
        if stopped {
            (p, true)
        } else if arg == seq!['-', '-'] {
            (ArgsView { free: p.free + a.subrange(k, a.len() as int), ..p }, true)
        } else if is_named_arg(arg) {
            (ArgsView { named: p.named.insert(named_pair(arg).0, named_pair(arg).1), ..p }, false)
        } else if is_flag_arg(arg) {
            (ArgsView { flags: p.flags.insert(arg.subrange(1, arg.len() as int)), ..p }, false)
        } else if k - 1 == 1 {
            (ArgsView { command: Some(arg), ..p }, false)
        } else {
            (ArgsView { unnamed: p.unnamed.push(arg), ..p }, false)
        }
    }
}

/// The view of `m` after the whole command line `a` (its first item the program's name) was
/// read into it.
pub open spec fn parse_into(m: ArgsView, a: Seq<Seq<char>>) -> ArgsView {
    parse_upto(m, a, a.len() as int).0
}

/// Reads a command line into an `Args`.
pub struct ArgParser {
    args: Vec<String>,
}

impl Args {
    /// No command and no arguments.
    pub fn new() -> (r: Self)
        ensures
            r.wf(),
            r@ == (ArgsView {
                command: None,
                flags: Set::empty(),
                named: Map::empty(),
                unnamed: Seq::empty(),
                free: Seq::empty(),
            }),
    {
        let r = Args {
            command: None,
            flags: Vec::new(),
            named_params: Vec::new(),
            unnamed_params: Vec::new(),
            freestanding_params: Vec::new(),
        };
        assert(strings_view(r.flags@).to_set() =~= Set::empty());
        assert(strings_view(r.unnamed_params@) =~= Seq::empty());
        assert(strings_view(r.freestanding_params@) =~= Seq::empty());
        r
    }

    /// Each flag and each name occurs once.
    pub open spec fn wf(&self) -> bool {
        strings_view(self.flags@).no_duplicates() && keys_unique(self.named_params@)
    }

    fn has_flag_entry(&self, flag: &str) -> (r: bool)
        ensures
            r == strings_view(self.flags@).contains(flag@),
    {
        let n = self.flags.len();
        let mut i: usize = 0;
        while i < n
            invariant
                n == self.flags.len(),
                i <= n,
                forall|j: int| 0 <= j < i ==> (#[trigger] self.flags@[j])@ != flag@,
            decreases n - i,
        {
            if same_text(self.flags[i].as_str(), flag) {
                assert(strings_view(self.flags@)[i as int] == flag@);
                return true;
            }
            i += 1;
        }
        assert(!strings_view(self.flags@).contains(flag@)) by {
            if strings_view(self.flags@).contains(flag@) {
                let j = choose|j: int|
                    0 <= j < strings_view(self.flags@).len() && strings_view(self.flags@)[j]
                        == flag@;
                assert(self.flags@[j]@ == flag@);
            }
        }
        false
    }

    /// Whether `flag` was given, as a flag or as a named argument.
    pub fn have_flag(&self, flag: &str) -> (r: bool)
        ensures
            r == (self@.flags.contains(flag@) || self@.named.contains_key(flag@)),
    {
        proof {
            crate::table::lemma_table_domain(self.named_params@, flag@);
        }
        if self.has_flag_entry(flag) {
            return true;
        }
        match find_key(&self.named_params, flag) {
            Some(_) => true,
            None => false,
        }
    }

    fn insert_flag(&mut self, flag: String)
        requires
            old(self).wf(),
        ensures
            final(self).wf(),
            final(self)@ == (ArgsView { flags: old(self)@.flags.insert(flag@), ..old(self)@ }),
    {
        let ghost before = strings_view(self.flags@);
        if self.has_flag_entry(flag.as_str()) {
            assert(before.to_set().insert(flag@) =~= before.to_set());
            return;
        }
        self.flags.push(flag);
        proof {
            assert(strings_view(self.flags@) =~= before.push(flag@));
            before.lemma_push_to_set_commute(flag@);
        }
    }

    fn insert_named(&mut self, name: String, value: String)
        requires
            old(self).wf(),
        ensures
            final(self).wf(),
            final(self)@ == (ArgsView { named: old(self)@.named.insert(name@, value@), ..old(self)@ }),
    {
        let ghost before = self.named_params@;
        match find_key(&self.named_params, name.as_str()) {
            Some(j) => {
                proof {
                    lemma_table_update(before, j as int, (name, value));
                }
                self.named_params.set(j, (name, value));
            },
            None => {
                proof {
                    lemma_table_push(before, (name, value));
                }
                self.named_params.push((name, value));
                assert(keys_unique(self.named_params@)) by {
                    assert forall|a: int, b: int|
                        0 <= a < self.named_params@.len() && 0 <= b < self.named_params@.len() && a
                            != b implies (#[trigger] self.named_params@[a]).0@ != (
                    #[trigger] self.named_params@[b]).0@ by {
                        if a < before.len() && b < before.len() {
                            assert(before[a] == self.named_params@[a]);
                            assert(before[b] == self.named_params@[b]);
                        }
                    }
                }
            },
        }
    }
}

impl ArgParser {
    /// A parser for the command line `args`, whose first item is the program's name.
    pub fn new(args: Vec<String>) -> (r: Self)
        ensures
            r.args() == strings_view(args@),
    {
        ArgParser { args }
    }

    /// The command line, as text.
    pub closed spec fn args(&self) -> Seq<Seq<char>> {
        strings_view(self.args@)
    }

    fn is_flag(arg: &Vec<char>) -> (r: bool)
        ensures
            r == is_flag_arg(arg@),
    {
        arg.len() >= 1 && arg[0] == '-' && !Self::is_named(arg)
    }

    fn is_named(arg: &Vec<char>) -> (r: bool)
        ensures
            r == is_named_arg(arg@),
    {
        arg.len() >= 2 && arg[0] == '-' && arg[1] == '-'
    }

    fn get_named_from(arg: &Vec<char>) -> (r: (String, String))
        requires
            is_named_arg(arg@),
        ensures
            r.0@ == named_pair(arg@).0,
            r.1@ == named_pair(arg@).1,
    {
        let n = arg.len();
        let mut e: usize = 2;
        while e < n && arg[e] != '='
            invariant
                2 <= e <= n == arg@.len(),
                forall|j: int| 2 <= j < e ==> arg@[j] != '=',
            decreases n - e,
        {
            e += 1;
        }
        if e < n {
            proof {
                let c = choose|c: int|
                    2 <= c < arg@.len() && arg@[c] == '=' && forall|j: int|
                        2 <= j < c ==> arg@[j] != '=';
                assert(c == e as int);
            }
            (string_of(arg, 2, e), string_of(arg, e + 1, n))
        } else {
            (string_of(arg, 2, n), string_of(arg, 2, n))
        }
    }

    fn get_flag_from(arg: &Vec<char>) -> (r: String)
        requires
            arg@.len() >= 1,
        ensures
            r@ == arg@.subrange(1, arg@.len() as int),
    {
        string_of(arg, 1, arg.len())
    }

    /// Reads the command line into `dest`; fails with `NoArgs` where it holds nothing after the
    /// program's name.
    pub fn try_parse(&self, dest: &mut Args) -> (r: Result<(), QueryError>)
        requires
            old(dest).wf(),
        ensures
            final(dest).wf(),
            self.args().len() < 2 ==> r == Err::<(), QueryError>(QueryError::NoArgs) && final(dest)@
                == old(dest)@,
            self.args().len() >= 2 ==> r is Ok && final(dest)@ == parse_into(old(dest)@, self.args()),
    {
        let n = self.args.len();
        if n < 2 {
            return Err(QueryError::NoArgs);
        }
        let ghost a = self.args();
        let mut i: usize = 1;
        let mut stopped = false;
        while i < n && !stopped
            invariant
                n == self.args@.len() == a.len(),
                a == strings_view(self.args@),
                1 <= i <= n,
                dest.wf(),
                parse_upto(old(dest)@, a, i as int) == (dest@, stopped),
                stopped ==> parse_upto(old(dest)@, a, n as int) == (dest@, true),
            decreases n - i,
        {
            let arg = chars_of(self.args[i].as_str());
            assert(arg@ == a[i as int]);
            if arg.len() == 2 && arg[0] == '-' && arg[1] == '-' {
                assert(arg@ =~= seq!['-', '-']);
                let ghost p = dest@;
                let mut j: usize = i + 1;
                while j < n
                    invariant
                        n == self.args@.len() == a.len(),
                        a == strings_view(self.args@),
                        i < j <= n,
                        dest.wf(),
                        dest@ == (ArgsView { free: p.free + a.subrange(i + 1, j as int), ..p }),
                    decreases n - j,
                {
                    let ghost before = strings_view(dest.freestanding_params@);
                    dest.freestanding_params.push(self.args[j].clone());
                    assert(strings_view(dest.freestanding_params@) =~= before.push(a[j as int]));
                    assert(p.free + a.subrange(i + 1, j + 1) =~= (p.free + a.subrange(
                        i + 1,
                        j as int,
                    )).push(a[j as int]));
                    j += 1;
                }
                stopped = true;
                proof {
                    lemma_parse_stays_stopped(old(dest)@, a, i + 1, n as int);
                }
            } else {
                assert(arg@ != seq!['-', '-']) by {
                    if arg@ == seq!['-', '-'] {
                        assert(arg@.len() == 2 && arg@[0] == '-' && arg@[1] == '-');
                    }
                }
                if Self::is_named(&arg) {
                    let (k, v) = Self::get_named_from(&arg);
                    dest.insert_named(k, v);
                } else if Self::is_flag(&arg) {
                    let f = Self::get_flag_from(&arg);
                    dest.insert_flag(f);
                } else if i == 1 {
                    dest.command = Some(self.args[i].clone());
                } else {
                    let ghost before = strings_view(dest.unnamed_params@);
                    dest.unnamed_params.push(self.args[i].clone());
                    assert(strings_view(dest.unnamed_params@) =~= before.push(a[i as int]));
                }
            }
            i += 1;
        }
        Ok(())
    }
}

proof fn lemma_parse_stays_stopped(m: ArgsView, a: Seq<Seq<char>>, k: int, n: int)
    requires
        1 <= k <= n,
        parse_upto(m, a, k).1,
    ensures
        parse_upto(m, a, n) == parse_upto(m, a, k),
    decreases n - k,
{
    if k < n {
        lemma_parse_stays_stopped(m, a, k + 1, n);
    }
}

} // verus!
