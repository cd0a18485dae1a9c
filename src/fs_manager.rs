use vstd::prelude::*;

use crate::text::{chars_of, owned, string_of};

verus! {

/// The directory, relative to the project root, that holds object files.
pub const OBJ_DIR: &'static str = "target/obj";

/// The escape of one character in an object file name: `/` becomes `.`, a `.` or `%` of the
/// path is written `%2E` or `%25`, any other character stands for itself.
pub open spec fn escape_char(c: char) -> Seq<char> {
    if c == '/' {
        seq!['.']
    } else if c == '.' {
        seq!['%', '2', 'E']
    } else if c == '%' {
        seq!['%', '2', '5']
    } else {
        seq![c]
    }
}

/// The escape of every character of `s`, in order.
pub open spec fn escaped(s: Seq<char>) -> Seq<char>
    decreases s.len(),
{
    if s.len() == 0 {
        Seq::<char>::empty()
    } else {
        escaped(s.drop_last()) + escape_char(s.last())
    }
}

/// Whether `k` is the position of the dot that starts the extension of the last name of `p`.
pub open spec fn is_ext_dot(p: Seq<char>, k: int) -> bool {
    0 <= k < p.len() && p[k] == '.' && forall|j: int| k < j < p.len() ==> p[j] != '.' && p[j] != '/'
}

/// `p` without the extension of its last name (from that name's last `.` on).
pub open spec fn without_extension(p: Seq<char>) -> Seq<char> {
    if exists|k: int| is_ext_dot(p, k) {
        p.take(choose|k: int| is_ext_dot(p, k))
    } else {
        p
    }
}

/// The object file name of a source path: the path without its extension, its separators
/// turned into dots (dots and `%` of the path escaped, so that no two paths share a name), and
/// `.o` added.
pub open spec fn dotted_obj_name(p: Seq<char>) -> Seq<char> {
    escaped(without_extension(p)) + seq!['.', 'o']
}

/// The object path of a source path, under the object directory.
pub open spec fn obj_path_of(p: Seq<char>) -> Seq<char> {
    OBJ_DIR@ + seq!['/'] + dotted_obj_name(p)
}

/// `base` joined with a relative `p`; an absolute `p` stands for itself.
pub open spec fn join_path(base: Seq<char>, p: Seq<char>) -> Seq<char> {
    if p.len() > 0 && p[0] == '/' {
        p
    } else if base.len() == 0 || base.last() == '/' {
        base + p
    } else {
        base + seq!['/'] + p
    }
}

/// Whether a file with modification time `first` is older than one with `second`; `None`
/// where a time could not be read.
pub open spec fn older(first: Option<u64>, second: Option<u64>) -> Option<bool> {
    match (first, second) {
        (Some(a), Some(b)) => Some(a < b),
        _ => None,
    }
}

/// The newest of the first `n` paths, by their modification times: each next one replaces the
/// current pick unless the pick is known to be at least as new.
pub open spec fn newest_index(times: Seq<Option<u64>>, n: int) -> int
    decreases n,
{
    if n <= 1 {
        0
    } else {
        let a = newest_index(times, n - 1);
        if older(times[a], times[n - 1]) == Some(false) {
            a
        } else {
            n - 1
        }
    }
}

proof fn lemma_newest_index_in_range(times: Seq<Option<u64>>, n: int)
    requires
        n >= 1,
    ensures
        0 <= newest_index(times, n) < n,
    decreases n,
{
    if n > 1 {
        lemma_newest_index_in_range(times, n - 1);
    }
}

/// What `path_clean` makes of a path: repeated separators and `.` elements dropped, `..`
/// folded into the element before it, `.` for what would be empty.
pub uninterp spec fn cleaned(p: Seq<char>) -> Seq<char>;

/// Relies on `path_clean::clean`, which rewrites a path lexically and depends on nothing but
/// the path.
#[verifier::external_body]
pub(crate) fn clean_path(p: &str) -> (r: String)
    ensures
        r@ == cleaned(p@),
{
    path_clean::clean(p).display().to_string()
}

/// The directory part of a path: all before its last `/`, or nothing where it has none.
pub open spec fn parent_of(p: Seq<char>) -> Seq<char> {
    if exists|k: int| 0 <= k < p.len() && p[k] == '/' {
        let k = choose|k: int|
            0 <= k < p.len() && p[k] == '/' && forall|j: int| k < j < p.len() ==> p[j] != '/';
        p.take(k)
    } else {
        Seq::<char>::empty()
    }
}

/// The directory part of `p`: all before its last `/`, or nothing where it has none.
pub fn parent_dir(p: &str) -> (r: String)
    ensures
        r@ == parent_of(p@),
{
    let c = chars_of(p);
    let n = c.len();
    let mut k: usize = n;
    while k > 0 && c[k - 1] != '/'
        invariant
            k <= n == c@.len(),
            forall|j: int| k <= j < n ==> c@[j] != '/',
        decreases k,
    {
        k -= 1;
    }
    if k == 0 {
        assert(!exists|m: int| 0 <= m < c@.len() && c@[m] == '/');
        String::new()
    } else {
        proof {
            let m = choose|m: int|
                0 <= m < c@.len() && c@[m] == '/' && forall|j: int| m < j < c@.len() ==> c@[j] != '/';
            assert(m == k - 1);
        }
        let r = string_of(&c, 0, k - 1);
        assert(c@.subrange(0, k - 1) =~= c@.take(k - 1));
        r
    }
}

proof fn lemma_newest_is_latest(times: Seq<Option<u64>>, n: int)
    requires
        1 <= n <= times.len(),
        forall|i: int| 0 <= i < n ==> (#[trigger] times[i]) is Some,
    ensures
        forall|i: int|
            0 <= i < n ==> times[newest_index(times, n)]->0 >= (#[trigger] times[i])->0,
    decreases n,
{
    lemma_newest_index_in_range(times, n);
    if n > 1 {
        lemma_newest_is_latest(times, n - 1);
        lemma_newest_index_in_range(times, n - 1);
    }
}

/// Paths of the project, relative to its root.
#[derive(Debug, Clone)]
pub struct FilesystemManager {
    root: String,
}

fn push_escaped(out: &mut Vec<char>, c: char)
    ensures
        final(out)@ == old(out)@ + escape_char(c),
{
    if c == '/' {
        out.push('.');
    } else if c == '.' {
        out.push('%');
        out.push('2');
        out.push('E');
    } else if c == '%' {
        out.push('%');
        out.push('2');
        out.push('5');
    } else {
        out.push(c);
    }
    assert(out@ =~= old(out)@ + escape_char(c));
}

impl View for FilesystemManager {
    type V = Seq<char>;

    /// The root directory of the project.
    closed spec fn view(&self) -> Seq<char> {
        self.root@
    }
}

impl FilesystemManager {
    /// A manager for the project rooted at `root` (already made absolute by the caller).
    pub fn new(root: String) -> (r: Self)
        ensures
            r@ == root@,
    {
        FilesystemManager { root }
    }

    /// The newest of `list` by modification time, `times[i]` being that of `list[i]` (`None`
    /// where it could not be read); `None` for an empty list.
    pub fn find_newest(list: &Vec<String>, times: &Vec<Option<u64>>) -> (r: Option<String>)
        requires
            times.len() == list.len(),
        ensures
            list.len() == 0 ==> r is None,
            list.len() > 0 ==> 0 <= newest_index(times@, list.len() as int) < list.len() && r
                == Some(list@[newest_index(times@, list.len() as int)]),
            list.len() > 0 && (forall|i: int| 0 <= i < times.len() ==> (#[trigger] times@[i]) is Some)
                ==> forall|i: int|
                0 <= i < times.len() ==> times@[newest_index(times@, list.len() as int)]->0 >= (
                #[trigger] times@[i])->0,
    {
        let n = list.len();
        if n == 0 {
            return None;
        }
        proof {
            if forall|i: int| 0 <= i < times.len() ==> (#[trigger] times@[i]) is Some {
                lemma_newest_is_latest(times@, n as int);
            }
        }
        let mut best: usize = 0;
        let mut i: usize = 1;
        while i < n
            invariant
                n == list.len() == times.len(),
                1 <= i <= n,
                best == newest_index(times@, i as int),
                best < i,
            decreases n - i,
        {
            proof {
                lemma_newest_index_in_range(times@, i as int);
            }
            if Self::is_newer(times[best], times[i]) == Some(true) {
            } else {
                best = i;
            }
            i += 1;
        }
        Some(list[best].clone())
    }

    /// Whether a file with modification time `first` is older than one with `second`.
    pub fn is_older(first: Option<u64>, second: Option<u64>) -> (r: Option<bool>)
        ensures
            r == older(first, second),
    {
        match (first, second) {
            (Some(a), Some(b)) => Some(a < b),
            _ => None,
        }
    }

    /// Whether a file with modification time `first` is at least as new as one with `second`.
    pub fn is_newer(first: Option<u64>, second: Option<u64>) -> (r: Option<bool>)
        ensures
            r == match older(first, second) {
                Some(b) => Some(!b),
                None => None,
            },
    {
        match Self::is_older(first, second) {
            Some(b) => Some(!b),
            None => None,
        }
    }

    /// The path `path` of the project as a path from the file system's root.
    pub fn to_full(&self, path: &str) -> (r: String)
        ensures
            r@ == join_path(self@, path@),
    {
        proof {
            reveal_strlit("/");
        }
        let p = chars_of(path);
        if p.len() > 0 && p[0] == '/' {
            return owned(path);
        }
        let b = chars_of(self.root.as_str());
        let mut r = self.root.clone();
        if b.len() == 0 || b[b.len() - 1] == '/' {
            r.append(path);
        } else {
            r.append("/");
            r.append(path);
        }
        r
    }

    /// The object file of a source file: `src/deps/dep1.cpp` becomes
    /// `target/obj/src.deps.dep1.o`.
    pub fn src_to_obj(path: &String) -> (r: String)
        ensures
            r@ == obj_path_of(path@),
    {
        Self::src_to_obj_path(path.as_str())
    }

    /// The object file of a source file: `src/deps/dep1.cpp` becomes
    /// `target/obj/src.deps.dep1.o`.
    pub fn src_to_obj_path(path: &str) -> (r: String)
        ensures
            r@ == obj_path_of(path@),
    {
        let p = chars_of(path);
        let n = p.len();
        // the dot that starts the extension, or `n` where there is none
        let mut k: usize = n;
        let mut j: usize = n;
        while j > 0 && k == n && p[j - 1] != '/'
            invariant
                j <= n == p@.len(),
                k == n || (k == j && is_ext_dot(p@, k as int)),
                k == n ==> forall|m: int| j <= m < n ==> p@[m] != '.' && p@[m] != '/',
            decreases j,
        {
            j -= 1;
            if p[j] == '.' {
                k = j;
            }
        }
        proof {
            if k < n {
                assert forall|m: int| is_ext_dot(p@, m) implies m == k by {
                    if m < k {
                        assert(p@[k as int] == '.');
                    } else if m > k {
                        assert(p@[m] == '.');
                    }
                }
            } else {
                assert forall|m: int| !is_ext_dot(p@, m) by {
                    if is_ext_dot(p@, m) {
                        if m >= j {
                            assert(p@[m] == '.');
                        } else {
                            assert(j > 0 && p@[j - 1] == '/');
                            if m < j - 1 {
                                assert(p@[j - 1] != '/');
                            }
                        }
                    }
                }
                assert(p@.take(n as int) =~= p@);
            }
        }
        let mut name: Vec<char> = Vec::new();
        let mut i: usize = 0;
        while i < k
            invariant
                k <= n == p@.len(),
                i <= k,
                name@ == escaped(p@.take(i as int)),
            decreases k - i,
        {
            push_escaped(&mut name, p[i]);
            assert(p@.take(i + 1).drop_last() =~= p@.take(i as int));
            i += 1;
        }
        name.push('.');
        name.push('o');
        assert(name@ =~= dotted_obj_name(path@));
        let text = string_of(&name, 0, name.len());
        assert(name@.subrange(0, name@.len() as int) =~= name@);
        let mut r = owned(OBJ_DIR);
        r.append("/");
        r.append(text.as_str());
        proof {
            reveal_strlit("/");
        }
        assert(r@ =~= obj_path_of(path@));
        r
    }

    /// The root directory of the project.
    pub fn root(&self) -> (r: &String)
        ensures
            r@ == self@,
    {
        &self.root
    }
}

proof fn lemma_escaped_front(s: Seq<char>)
    requires
        s.len() > 0,
    ensures
        escaped(s) == escape_char(s[0]) + escaped(s.drop_first()),
    decreases s.len(),
{
    if s.len() == 1 {
        assert(s.drop_last() =~= Seq::<char>::empty());
        assert(s.drop_first() =~= Seq::<char>::empty());
        assert(escaped(s) =~= escape_char(s[0]) + escaped(s.drop_first()));
    } else {
        lemma_escaped_front(s.drop_last());
        assert(s.drop_last().drop_first() =~= s.drop_first().drop_last());
        assert(s.drop_first().last() == s.last());
        assert(escaped(s) =~= escape_char(s[0]) + escaped(s.drop_first()));
    }
}

/// Escaping loses nothing: two texts with the same escape are equal.
proof fn lemma_escaped_injective(a: Seq<char>, b: Seq<char>)
    requires
        escaped(a) == escaped(b),
    ensures
        a == b,
    decreases a.len() + b.len(),
{
    if a.len() == 0 || b.len() == 0 {
        if a.len() > 0 {
            lemma_escaped_front(a);
            assert(escaped(a).len() > 0);
        }
        if b.len() > 0 {
            lemma_escaped_front(b);
            assert(escaped(b).len() > 0);
        }
        assert(a =~= b);
    } else {
        lemma_escaped_front(a);
        lemma_escaped_front(b);
        let x = a[0];
        let y = b[0];
        let e = escaped(a);
        let ca = escape_char(x);
        let cb = escape_char(y);
        assert(e[0] == ca[0] && e[0] == cb[0]);
        if ca[0] == '%' {
            assert(ca.len() == 3 && cb.len() == 3);
            assert(e[2] == ca[2] && e[2] == cb[2]);
        }
        assert(x == y);
        assert(ca == cb);
        assert(escaped(a.drop_first()) =~= e.skip(ca.len() as int));
        assert(escaped(b.drop_first()) =~= e.skip(cb.len() as int));
        lemma_escaped_injective(a.drop_first(), b.drop_first());
        assert(a =~= seq![x] + a.drop_first());
        assert(b =~= seq![y] + b.drop_first());
    }
}

proof fn lemma_cpp_stem(p: Seq<char>)
    requires
        p.len() >= 4,
        p.skip(p.len() - 4) == seq!['.', 'c', 'p', 'p'],
    ensures
        without_extension(p) == p.take(p.len() - 4),
{
    let k = p.len() - 4;
    assert(p[k] == p.skip(k)[0]);
    assert forall|j: int| k < j < p.len() implies p[j] != '.' && p[j] != '/' by {
        assert(p[j] == p.skip(k)[j - k]);
    }
    assert(is_ext_dot(p, k));
    let c = choose|m: int| is_ext_dot(p, m);
    assert(c == k) by {
        if c < k {
            assert(p[k] == '.');
        } else if c > k {
            assert(p[c] == '.');
        }
    }
}

/// The object path is a function of the source path alone, and two different `.cpp` source
/// paths never share an object path.
pub proof fn lemma_obj_path_injective(p: Seq<char>, q: Seq<char>)
    requires
        p.len() >= 4,
        q.len() >= 4,
        p.skip(p.len() - 4) == seq!['.', 'c', 'p', 'p'],
        q.skip(q.len() - 4) == seq!['.', 'c', 'p', 'p'],
        p != q,
    ensures
        obj_path_of(p) != obj_path_of(q),
{
    lemma_cpp_stem(p);
    lemma_cpp_stem(q);
    if obj_path_of(p) == obj_path_of(q) {
        let pre = OBJ_DIR@ + seq!['/'];
        let ep = escaped(p.take(p.len() - 4));
        let eq = escaped(q.take(q.len() - 4));
        assert(obj_path_of(p) == pre + (ep + seq!['.', 'o']));
        assert(obj_path_of(q) == pre + (eq + seq!['.', 'o']));
        assert(ep.len() == eq.len());
        assert(ep =~= obj_path_of(p).subrange(pre.len() as int, (pre.len() + ep.len()) as int));
        assert(eq =~= obj_path_of(q).subrange(pre.len() as int, (pre.len() + eq.len()) as int));
        lemma_escaped_injective(p.take(p.len() - 4), q.take(q.len() - 4));
        assert(p =~= p.take(p.len() - 4) + p.skip(p.len() - 4));
        assert(q =~= q.take(q.len() - 4) + q.skip(q.len() - 4));
    }
}

} // verus!
