use vstd::prelude::*;

verus! {

/// Whether the keys of `ps` are pairwise different.
pub open spec fn keys_unique<V>(ps: Seq<(String, V)>) -> bool {
    forall|i: int, j: int|
        0 <= i < ps.len() && 0 <= j < ps.len() && i != j ==> (#[trigger] ps[i]).0@ != (
        #[trigger] ps[j]).0@
}

/// The mapping that a list of named entries stands for (a later entry wins over an earlier one).
pub open spec fn table_view<V: View>(ps: Seq<(String, V)>) -> Map<Seq<char>, V::V>
    decreases ps.len(),
{
    if ps.len() == 0 {
        Map::empty()
    } else {
        table_view(ps.drop_last()).insert(ps.last().0@, ps.last().1@)
    }
}

pub proof fn lemma_table_push<V: View>(ps: Seq<(String, V)>, e: (String, V))
    ensures
        table_view(ps.push(e)) == table_view(ps).insert(e.0@, e.1@),
{
    assert(ps.push(e).drop_last() =~= ps);
}

pub proof fn lemma_table_domain<V: View>(ps: Seq<(String, V)>, k: Seq<char>)
    ensures
        table_view(ps).contains_key(k) <==> exists|j: int| 0 <= j < ps.len() && (#[trigger] ps[j]).0@
            == k,
    decreases ps.len(),
{
    if ps.len() > 0 {
        lemma_table_domain(ps.drop_last(), k);
        if table_view(ps.drop_last()).contains_key(k) {
            let j = choose|j: int| 0 <= j < ps.drop_last().len() && (#[trigger] ps.drop_last()[j]).0@ == k;
            assert(ps[j].0@ == k);
        }
        if exists|j: int| 0 <= j < ps.len() && (#[trigger] ps[j]).0@ == k {
            let j = choose|j: int| 0 <= j < ps.len() && (#[trigger] ps[j]).0@ == k;
            if j < ps.len() - 1 {
                assert(ps.drop_last()[j].0@ == k);
            }
        }
    }
}

pub proof fn lemma_table_index<V: View>(ps: Seq<(String, V)>, j: int)
    requires
        keys_unique(ps),
        0 <= j < ps.len(),
    ensures
        table_view(ps).contains_key(ps[j].0@),
        table_view(ps)[ps[j].0@] == ps[j].1@,
    decreases ps.len(),
{
    if j < ps.len() - 1 {
        assert(ps.drop_last()[j] == ps[j]);
        lemma_table_index(ps.drop_last(), j);
        assert(ps[ps.len() - 1].0@ != ps[j].0@);
    }
}

pub proof fn lemma_table_update<V: View>(ps: Seq<(String, V)>, j: int, e: (String, V))
    requires
        keys_unique(ps),
        0 <= j < ps.len(),
        e.0@ == ps[j].0@,
    ensures
        keys_unique(ps.update(j, e)),
        table_view(ps.update(j, e)) == table_view(ps).insert(e.0@, e.1@),
    decreases ps.len(),
{
    let qs = ps.update(j, e);
    assert(keys_unique(qs)) by {
        assert forall|a: int, b: int|
            0 <= a < qs.len() && 0 <= b < qs.len() && a != b implies (#[trigger] qs[a]).0@ != (
            #[trigger] qs[b]).0@ by {
            assert(qs[a].0@ == ps[a].0@);
            assert(qs[b].0@ == ps[b].0@);
        }
    }
    if j == ps.len() - 1 {
        assert(qs.drop_last() =~= ps.drop_last());
        lemma_table_domain(ps.drop_last(), ps[j].0@);
        assert(table_view(qs) =~= table_view(ps).insert(e.0@, e.1@));
    } else {
        assert(qs.drop_last() =~= ps.drop_last().update(j, e));
        lemma_table_update(ps.drop_last(), j, e);
        assert(ps.last().0@ != ps[j].0@);
        assert(table_view(qs) =~= table_view(ps).insert(e.0@, e.1@));
    }
}

/// The position of the entry named `k`, if there is one.
pub fn find_key<V>(ps: &Vec<(String, V)>, k: &str) -> (r: Option<usize>)
    ensures
        match r {
            Some(j) => j < ps.len() && ps@[j as int].0@ == k@,
            None => forall|j: int| 0 <= j < ps.len() ==> (#[trigger] ps@[j]).0@ != k@,
        },
{
    let n = ps.len();
    let mut i: usize = 0;
    while i < n
        invariant
            n == ps.len(),
            i <= n,
            forall|j: int| 0 <= j < i ==> (#[trigger] ps@[j]).0@ != k@,
        decreases n - i,
    {
        if crate::text::same_text(ps[i].0.as_str(), k) {
            return Some(i);
        }
        i += 1;
    }
    None
}

} // verus!
