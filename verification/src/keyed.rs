//! Sequences of (name, value) entries kept in ascending order of their names,
//! where a later insertion under a name replaces the earlier value.

use vstd::prelude::*;

use crate::text::{lemma_lex_asymmetric, lemma_lex_irreflexive, lemma_lex_total, lemma_lex_transitive, lex_lt, text_eq, text_less};

verus! {

/// Entries with their names taken as character sequences.
pub open spec fn keyed<V>(s: Seq<(String, V)>) -> Seq<(Seq<char>, V)> {
    s.map_values(|p: (String, V)| (p.0@, p.1))
}

/// Entries with `f` applied to every value.
pub open spec fn map_entry_values<V, W>(e: Seq<(Seq<char>, V)>, f: spec_fn(V) -> W) -> Seq<
    (Seq<char>, W),
> {
    e.map_values(|p: (Seq<char>, V)| (p.0, f(p.1)))
}

/// Inserts `(k, v)`: replaces the value of the first entry named `k`, or else
/// places the entry before the first entry whose name comes after `k`.
pub open spec fn map_insert<V>(e: Seq<(Seq<char>, V)>, k: Seq<char>, v: V) -> Seq<(Seq<char>, V)>
    decreases e.len(),
{
    if e.len() == 0 {
        seq![(k, v)]
    } else if e[0].0 == k {
        e.update(0, (k, v))
    } else if lex_lt(k, e[0].0) {
        seq![(k, v)] + e
    } else {
        seq![e[0]] + map_insert(e.drop_first(), k, v)
    }
}

/// Inserts all `items`, in order.
pub open spec fn insert_all<V>(acc: Seq<(Seq<char>, V)>, items: Seq<(Seq<char>, V)>) -> Seq<
    (Seq<char>, V),
>
    decreases items.len(),
{
    if items.len() == 0 {
        acc
    } else {
        map_insert(insert_all(acc, items.drop_last()), items.last().0, items.last().1)
    }
}

/// The value of the first entry named `k`.
pub open spec fn lookup<V>(e: Seq<(Seq<char>, V)>, k: Seq<char>) -> Option<V>
    decreases e.len(),
{
    if e.len() == 0 {
        None
    } else if e[0].0 == k {
        Some(e[0].1)
    } else {
        lookup(e.drop_first(), k)
    }
}

/// Names strictly ascending.
pub open spec fn keys_sorted<V>(e: Seq<(Seq<char>, V)>) -> bool {
    forall|i: int, j: int| 0 <= i < j < e.len() ==> lex_lt(#[trigger] e[i].0, #[trigger] e[j].0)
}

/// Law: after inserting `(k, v)`, looking up `k` gives `v` and looking up any
/// other name gives what it gave before.
pub proof fn law_map_insert_lookup<V>(e: Seq<(Seq<char>, V)>, k: Seq<char>, v: V, k2: Seq<char>)
    ensures
        lookup(map_insert(e, k, v), k) == Some(v),
        k2 != k ==> lookup(map_insert(e, k, v), k2) == lookup(e, k2),
    decreases e.len(),
{
    let m = map_insert(e, k, v);
    if e.len() == 0 {
        assert(m.drop_first().len() == 0);
        assert(lookup(m.drop_first(), k2) == None::<V>);
        assert(lookup(e, k2) == None::<V>);
    } else if e[0].0 == k {
        assert(m.drop_first() == e.drop_first());
    } else if lex_lt(k, e[0].0) {
        assert(m.drop_first() == e);
    } else {
        law_map_insert_lookup(e.drop_first(), k, v, k2);
        assert(m.drop_first() == map_insert(e.drop_first(), k, v));
    }
}

/// The names after an insertion are the names before and `k`.
pub proof fn lemma_map_insert_keys<V>(e: Seq<(Seq<char>, V)>, k: Seq<char>, v: V)
    ensures
        forall|i: int|
            0 <= i < map_insert(e, k, v).len() ==> (#[trigger] map_insert(e, k, v)[i]).0 == k
                || exists|j: int| 0 <= j < e.len() && e[j].0 == map_insert(e, k, v)[i].0,
        exists|i: int| 0 <= i < map_insert(e, k, v).len() && map_insert(e, k, v)[i].0 == k,
    decreases e.len(),
{
    let m = map_insert(e, k, v);
    if e.len() == 0 {
        assert(m[0].0 == k);
    } else if e[0].0 == k {
        assert(m[0].0 == k);
        assert forall|i: int| 0 <= i < m.len() implies (#[trigger] m[i]).0 == k || exists|j: int|
            0 <= j < e.len() && e[j].0 == m[i].0 by {
            if i > 0 {
                assert(e[i].0 == m[i].0);
            }
        }
    } else if lex_lt(k, e[0].0) {
        assert(m[0].0 == k);
        assert forall|i: int| 0 <= i < m.len() implies (#[trigger] m[i]).0 == k || exists|j: int|
            0 <= j < e.len() && e[j].0 == m[i].0 by {
            if i > 0 {
                assert(e[i - 1].0 == m[i].0);
            }
        }
    } else {
        let r = map_insert(e.drop_first(), k, v);
        lemma_map_insert_keys(e.drop_first(), k, v);
        let w = choose|i: int| 0 <= i < r.len() && r[i].0 == k;
        assert(m[w + 1].0 == k);
        assert forall|i: int| 0 <= i < m.len() implies (#[trigger] m[i]).0 == k || exists|j: int|
            0 <= j < e.len() && e[j].0 == m[i].0 by {
            if i == 0 {
                assert(e[0].0 == m[0].0);
            } else {
                assert(m[i] == r[i - 1]);
                if r[i - 1].0 != k {
                    let j = choose|j: int|
                        0 <= j < e.drop_first().len() && e.drop_first()[j].0 == r[i - 1].0;
                    assert(e[j + 1].0 == m[i].0);
                }
            }
        }
    }
}

/// Law: inserting into entries with ascending names keeps them ascending.
pub proof fn law_map_insert_sorted<V>(e: Seq<(Seq<char>, V)>, k: Seq<char>, v: V)
    requires
        keys_sorted(e),
    ensures
        keys_sorted(map_insert(e, k, v)),
    decreases e.len(),
{
    let m = map_insert(e, k, v);
    if e.len() == 0 {
    } else if e[0].0 == k {
        assert forall|i: int, j: int| 0 <= i < j < m.len() implies lex_lt(
            #[trigger] m[i].0,
            #[trigger] m[j].0,
        ) by {
            assert(e[i].0 == m[i].0 || i == 0);
            assert(e[j].0 == m[j].0);
            if i == 0 {
                assert(lex_lt(e[0].0, e[j].0));
            }
        }
    } else if lex_lt(k, e[0].0) {
        assert forall|i: int, j: int| 0 <= i < j < m.len() implies lex_lt(
            #[trigger] m[i].0,
            #[trigger] m[j].0,
        ) by {
            assert(m[j] == e[j - 1]);
            if i == 0 {
                if j - 1 > 0 {
                    assert(lex_lt(e[0].0, e[j - 1].0));
                    lemma_lex_transitive(k, e[0].0, e[j - 1].0);
                }
            } else {
                assert(m[i] == e[i - 1]);
            }
        }
    } else {
        let d = e.drop_first();
        let r = map_insert(d, k, v);
        assert(keys_sorted(d)) by {
            assert forall|i: int, j: int| 0 <= i < j < d.len() implies lex_lt(
                #[trigger] d[i].0,
                #[trigger] d[j].0,
            ) by {
                assert(d[i] == e[i + 1]);
                assert(d[j] == e[j + 1]);
            }
        }
        law_map_insert_sorted(d, k, v);
        lemma_map_insert_keys(d, k, v);
        lemma_lex_total(k, e[0].0);
        assert(lex_lt(e[0].0, k));
        assert forall|i: int, j: int| 0 <= i < j < m.len() implies lex_lt(
            #[trigger] m[i].0,
            #[trigger] m[j].0,
        ) by {
            assert(m[j] == r[j - 1]);
            if i == 0 {
                assert(m[0] == e[0]);
                if r[j - 1].0 != k {
                    let w = choose|w: int| 0 <= w < d.len() && d[w].0 == r[j - 1].0;
                    assert(d[w] == e[w + 1]);
                    assert(lex_lt(e[0].0, e[w + 1].0));
                }
            } else {
                assert(m[i] == r[i - 1]);
            }
        }
    }
}

/// Inserting after entries whose names all come before `k`.
pub proof fn lemma_map_insert_skip<V>(e: Seq<(Seq<char>, V)>, k: Seq<char>, v: V, i: int)
    requires
        0 <= i <= e.len(),
        forall|j: int| 0 <= j < i ==> lex_lt(#[trigger] e[j].0, k),
    ensures
        map_insert(e, k, v) == e.take(i) + map_insert(e.skip(i), k, v),
    decreases i,
{
    if i == 0 {
        assert(e.take(0) + map_insert(e.skip(0), k, v) == map_insert(e, k, v)) by {
            assert(e.skip(0) == e);
        }
    } else {
        let d = e.drop_first();
        assert(lex_lt(e[0].0, k));
        lemma_lex_irreflexive(k);
        lemma_lex_asymmetric(e[0].0, k);
        assert forall|j: int| 0 <= j < i - 1 implies lex_lt(#[trigger] d[j].0, k) by {
            assert(d[j] == e[j + 1]);
        }
        lemma_map_insert_skip(d, k, v, i - 1);
        assert(d.take(i - 1) == e.take(i).drop_first());
        assert(d.skip(i - 1) == e.skip(i));
        assert(e.take(i) == seq![e[0]] + d.take(i - 1));
    }
}

/// Law: inserting commutes with applying a function to every value.
pub proof fn lemma_map_insert_map_values<V, W>(
    e: Seq<(Seq<char>, V)>,
    k: Seq<char>,
    v: V,
    f: spec_fn(V) -> W,
)
    ensures
        map_entry_values(map_insert(e, k, v), f) == map_insert(map_entry_values(e, f), k, f(v)),
    decreases e.len(),
{
    let fe = map_entry_values(e, f);
    if e.len() == 0 {
        assert(map_entry_values(map_insert(e, k, v), f) =~= seq![(k, f(v))]);
    } else if e[0].0 == k {
        assert(fe[0].0 == k);
        assert(map_entry_values(map_insert(e, k, v), f) =~= fe.update(0, (k, f(v))));
    } else if lex_lt(k, e[0].0) {
        assert(fe[0].0 == e[0].0);
        assert(map_entry_values(map_insert(e, k, v), f) =~= seq![(k, f(v))] + fe);
    } else {
        lemma_map_insert_map_values(e.drop_first(), k, v, f);
        assert(fe[0].0 == e[0].0);
        assert(fe.drop_first() =~= map_entry_values(e.drop_first(), f));
        assert(map_entry_values(map_insert(e, k, v), f) =~= seq![fe[0]] + map_entry_values(
            map_insert(e.drop_first(), k, v),
            f,
        ));
    }
}

/// Inserts `(k, v)` into the entries as `map_insert` describes.
pub fn entries_insert<V>(e: &mut Vec<(String, V)>, k: String, v: V)
    ensures
        keyed(final(e)@) == map_insert(keyed(old(e)@), k@, v),
{
    let ghost ke = keyed(e@);
    let mut i: usize = 0;
    while i < e.len() && text_less(e[i].0.as_str(), k.as_str())
        invariant
            i <= e@.len(),
            e@ == old(e)@,
            ke == keyed(e@),
            forall|j: int| 0 <= j < i ==> lex_lt(#[trigger] ke[j].0, k@),
        decreases e@.len() - i,
    {
        i += 1;
    }
    proof {
        lemma_map_insert_skip(ke, k@, v, i as int);
    }
    if i < e.len() && text_eq(e[i].0.as_str(), k.as_str()) {
        let ghost rest = ke.skip(i as int);
        assert(rest[0].0 == k@);
        e.set(i, (k, v));
        assert(keyed(e@) =~= ke.take(i as int) + rest.update(0, (k@, v)));
    } else {
        let ghost rest = ke.skip(i as int);
        if i < e.len() {
            proof {
                lemma_lex_total(k@, ke[i as int].0);
            }
            assert(lex_lt(k@, rest[0].0));
        } else {
            assert(rest.len() == 0);
        }
        e.insert(i, (k, v));
        assert(keyed(e@) =~= ke.take(i as int) + map_insert(rest, k@, v));
    }
}

} // verus!
