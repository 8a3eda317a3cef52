//! Association lists keyed by strings: the first entry with a key is the one
//! that counts. Used where a map keyed by text is needed.
use vstd::prelude::*;

use crate::text::str_eq;

verus! {

/// The keys and values of an association list, keys by their view.
pub open spec fn assoc_view<V>(e: Seq<(String, V)>) -> Seq<(Seq<char>, V)> {
    e.map_values(|p: (String, V)| (p.0@, p.1))
}

/// The value of the first entry with key `k`.
pub open spec fn assoc_get<V>(e: Seq<(Seq<char>, V)>, k: Seq<char>) -> Option<V>
    decreases e.len(),
{
    if e.len() == 0 {
        None
    } else if e[0].0 == k {
        Some(e[0].1)
    } else {
        assoc_get(e.drop_first(), k)
    }
}

/// No key occurs twice.
pub open spec fn keys_distinct<V>(e: Seq<(Seq<char>, V)>) -> bool {
    forall|i: int, j: int| 0 <= i < j < e.len() ==> e[i].0 != e[j].0
}

/// `assoc_get` finds the entry at `i` when no earlier entry has the key.
pub proof fn lemma_assoc_get_at<V>(e: Seq<(Seq<char>, V)>, k: Seq<char>, i: int)
    requires
        0 <= i < e.len(),
        e[i].0 == k,
        forall|j: int| 0 <= j < i ==> e[j].0 != k,
    ensures
        assoc_get(e, k) == Some(e[i].1),
    decreases i,
{
    if i > 0 {
        lemma_assoc_get_at(e.drop_first(), k, i - 1);
    }
}

/// `assoc_get` finds nothing when no entry has the key.
pub proof fn lemma_assoc_get_absent<V>(e: Seq<(Seq<char>, V)>, k: Seq<char>)
    requires
        forall|j: int| 0 <= j < e.len() ==> e[j].0 != k,
    ensures
        assoc_get(e, k) is None,
    decreases e.len(),
{
    if e.len() > 0 {
        lemma_assoc_get_absent(e.drop_first(), k);
    }
}

/// `assoc_get` on a list with an entry appended.
pub proof fn lemma_assoc_get_push<V>(e: Seq<(Seq<char>, V)>, x: (Seq<char>, V), k: Seq<char>)
    ensures
        assoc_get(e.push(x), k) == match assoc_get(e, k) {
            Some(v) => Some(v),
            None => if x.0 == k {
                Some(x.1)
            } else {
                None
            },
        },
    decreases e.len(),
{
    if e.len() > 0 {
        assert(e.push(x)[0] == e[0]);
        assert(e.push(x).drop_first() =~= e.drop_first().push(x));
        lemma_assoc_get_push(e.drop_first(), x, k);
    } else {
        assert(e.push(x)[0] == x);
        assert(e.push(x).drop_first() =~= Seq::<(Seq<char>, V)>::empty());
        assert(assoc_get(e, k) is None);
        assert(assoc_get(Seq::<(Seq<char>, V)>::empty(), k) is None);
    }
}

/// Changing the value of another key's entry leaves `assoc_get` at `k` unchanged.
pub proof fn lemma_assoc_get_update_other<V>(e: Seq<(Seq<char>, V)>, i: int, v: V, k: Seq<char>)
    requires
        0 <= i < e.len(),
        e[i].0 != k,
    ensures
        assoc_get(e.update(i, (e[i].0, v)), k) == assoc_get(e, k),
    decreases i,
{
    let e2 = e.update(i, (e[i].0, v));
    if i == 0 {
        assert(e2.drop_first() =~= e.drop_first());
    } else {
        assert(e2[0] == e[0]);
        assert(e2.drop_first() =~= e.drop_first().update(i - 1, (e[i].0, v)));
        lemma_assoc_get_update_other(e.drop_first(), i - 1, v, k);
    }
}

/// Changing the value of the first entry with key `k` changes what `assoc_get` finds.
pub proof fn lemma_assoc_get_update_same<V>(e: Seq<(Seq<char>, V)>, i: int, v: V, k: Seq<char>)
    requires
        0 <= i < e.len(),
        e[i].0 == k,
        forall|j: int| 0 <= j < i ==> e[j].0 != k,
    ensures
        assoc_get(e.update(i, (e[i].0, v)), k) == Some(v),
{
    let e2 = e.update(i, (e[i].0, v));
    assert forall|j: int| 0 <= j < i implies e2[j].0 != k by {
        assert(e2[j] == e[j]);
    }
    lemma_assoc_get_at(e2, k, i);
}

/// The position of the first entry with key `k`.
pub fn assoc_find<V>(e: &Vec<(String, V)>, k: &str) -> (r: Option<usize>)
    ensures
        r matches Some(i) ==> i < e@.len() && e@[i as int].0@ == k@ && forall|j: int|
            0 <= j < i ==> e@[j].0@ != k@,
        r is None ==> forall|j: int| 0 <= j < e@.len() ==> e@[j].0@ != k@,
{
    let mut i: usize = 0;
    while i < e.len()
        invariant
            i <= e@.len(),
            forall|j: int| 0 <= j < i ==> e@[j].0@ != k@,
        decreases e@.len() - i,
    {
        if str_eq(e[i].0.as_str(), k) {
            return Some(i);
        }
        i += 1;
    }
    None
}

/// `assoc_find`'s answer read through `assoc_get`.
pub proof fn lemma_assoc_find_get<V>(e: Seq<(String, V)>, k: Seq<char>, r: Option<usize>)
    requires
        r matches Some(i) ==> i < e.len() && e[i as int].0@ == k && forall|j: int|
            0 <= j < i ==> e[j].0@ != k,
        r is None ==> forall|j: int| 0 <= j < e.len() ==> e[j].0@ != k,
    ensures
        assoc_get(assoc_view(e), k) == match r {
            Some(i) => Some(e[i as int].1),
            None => None,
        },
{
    let ev = assoc_view(e);
    match r {
        Some(i) => {
            assert forall|j: int| 0 <= j < i implies ev[j].0 != k by {
                assert(ev[j].0 == e[j].0@);
            }
            lemma_assoc_get_at(ev, k, i as int);
        },
        None => {
            assert forall|j: int| 0 <= j < ev.len() implies ev[j].0 != k by {
                assert(ev[j].0 == e[j].0@);
            }
            lemma_assoc_get_absent(ev, k);
        },
    }
}

/// The list with `x` put in place of the first entry with its key, or appended
/// when no entry has it.
pub open spec fn replace_or_push<K, V>(e: Seq<(K, V)>, x: (K, V)) -> Seq<(K, V)>
    decreases e.len(),
{
    if e.len() == 0 {
        seq![x]
    } else if e[0].0 == x.0 {
        seq![x] + e.drop_first()
    } else {
        seq![e[0]] + replace_or_push(e.drop_first(), x)
    }
}

/// `replace_or_push` leaves a prefix without the key as it is.
pub proof fn lemma_replace_or_push_split<K, V>(e: Seq<(K, V)>, x: (K, V), i: int)
    requires
        0 <= i <= e.len(),
        forall|j: int| 0 <= j < i ==> e[j].0 != x.0,
    ensures
        replace_or_push(e, x) == e.take(i) + replace_or_push(e.skip(i), x),
    decreases i,
{
    if i > 0 {
        lemma_replace_or_push_split(e.drop_first(), x, i - 1);
        assert(e.drop_first().take(i - 1) =~= e.take(i).drop_first());
        assert(e.drop_first().skip(i - 1) =~= e.skip(i));
        assert(e.take(i) =~= seq![e[0]] + e.take(i).drop_first());
    } else {
        assert(e.skip(0) =~= e);
    }
}

/// Putting the same entry twice gives what putting it once gives.
pub proof fn lemma_replace_or_push_idempotent<K, V>(e: Seq<(K, V)>, x: (K, V))
    ensures
        replace_or_push(replace_or_push(e, x), x) == replace_or_push(e, x),
    decreases e.len(),
{
    let r = replace_or_push(e, x);
    if e.len() == 0 {
        assert(r.drop_first() =~= Seq::<(K, V)>::empty());
    } else if e[0].0 == x.0 {
        assert(r.drop_first() =~= e.drop_first());
    } else {
        lemma_replace_or_push_idempotent(e.drop_first(), x);
        assert(r.drop_first() =~= replace_or_push(e.drop_first(), x));
        assert(r[0] == e[0]);
    }
}

} // verus!
