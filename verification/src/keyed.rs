//! Lists of key and value pairs in the order of their keys, each key once.

use vstd::prelude::*;
use crate::model::pairs;
use crate::order::{is_less, text_less};
use crate::text::str_eq;

verus! {

/// A list in the order of its keys with `value` under `key`, in place of what stood there.
pub open spec fn put(list: Seq<(Seq<char>, Seq<char>)>, key: Seq<char>, value: Seq<char>) -> Seq<
    (Seq<char>, Seq<char>),
>
    decreases list.len(),
{
    if list.len() == 0 {
        seq![(key, value)]
    } else if list.last().0 == key {
        list.drop_last().push((key, value))
    } else if text_less(list.last().0, key) {
        list.push((key, value))
    } else {
        put(list.drop_last(), key, value).push(list.last())
    }
}

/// The pairs of a list in the order of their keys; of two with one key, the later stays.
pub open spec fn keyed(list: Seq<(Seq<char>, Seq<char>)>) -> Seq<(Seq<char>, Seq<char>)>
    decreases list.len(),
{
    if list.len() == 0 {
        list
    } else {
        put(keyed(list.drop_last()), list.last().0, list.last().1)
    }
}

proof fn lemma_put_at(list: Seq<(Seq<char>, Seq<char>)>, key: Seq<char>, value: Seq<char>, k: int)
    requires
        0 <= k <= list.len(),
        k > 0 ==> list[k - 1].0 != key && text_less(list[k - 1].0, key),
        forall|j: int| k <= j < list.len() ==> list[j].0 != key && !text_less(list[j].0, key),
    ensures
        put(list, key, value) == list.insert(k, (key, value)),
    decreases list.len() - k,
{
    if k < list.len() {
        lemma_put_at(list.drop_last(), key, value, k);
    }
    assert(put(list, key, value) =~= list.insert(k, (key, value)));
}

proof fn lemma_put_over(list: Seq<(Seq<char>, Seq<char>)>, key: Seq<char>, value: Seq<char>, k: int)
    requires
        0 <= k < list.len(),
        list[k].0 == key,
        forall|j: int| k < j < list.len() ==> list[j].0 != key && !text_less(list[j].0, key),
    ensures
        put(list, key, value) == list.update(k, (key, value)),
    decreases list.len() - k,
{
    if k < list.len() - 1 {
        lemma_put_over(list.drop_last(), key, value, k);
    }
    assert(put(list, key, value) =~= list.update(k, (key, value)));
}

/// Puts `value` under `key`.
pub fn put_pair(list: &mut Vec<(String, String)>, key: String, value: String)
    ensures
        pairs(final(list)@) == put(pairs(old(list)@), key@, value@),
{
    let mut k: usize = list.len();
    while k > 0
        invariant
            k <= list@.len(),
            *list == *old(list),
            forall|j: int|
                k <= j < list@.len() ==> (#[trigger] list@[j]).0@ != key@ && !text_less(list@[j].0@, key@),
        decreases k,
    {
        if str_eq(list[k - 1].0.as_str(), key.as_str()) {
            let ghost before = pairs(list@);
            proof {
                lemma_put_over(before, key@, value@, k - 1);
            }
            list[k - 1] = (key, value);
            assert(pairs(list@) =~= before.update(k - 1, (key@, value@)));
            return;
        }
        if is_less(list[k - 1].0.as_str(), key.as_str()) {
            let ghost before = pairs(list@);
            proof {
                lemma_put_at(before, key@, value@, k as int);
            }
            list.insert(k, (key, value));
            assert(pairs(list@) =~= before.insert(k as int, (key@, value@)));
            return;
        }
        k = k - 1;
    }
    let ghost before = pairs(list@);
    proof {
        lemma_put_at(before, key@, value@, 0);
    }
    list.insert(0, (key, value));
    assert(pairs(list@) =~= before.insert(0, (key@, value@)));
}

/// The list that holds no pair.
pub fn no_pairs() -> (list: Vec<(String, String)>)
    ensures
        pairs(list@) == Seq::<(Seq<char>, Seq<char>)>::empty(),
{
    let list: Vec<(String, String)> = Vec::new();
    assert(pairs(list@) =~= Seq::<(Seq<char>, Seq<char>)>::empty());
    list
}

/// Puts a list of pairs in the order of their keys; of two with one key, the later stays.
pub fn keyed_pairs(list: &Vec<(String, String)>) -> (sorted: Vec<(String, String)>)
    ensures
        pairs(sorted@) == keyed(pairs(list@)),
{
    let mut sorted: Vec<(String, String)> = no_pairs();
    let mut i: usize = 0;
    assert(pairs(list@).take(0) =~= Seq::<(Seq<char>, Seq<char>)>::empty());
    while i < list.len()
        invariant
            i <= list@.len(),
            pairs(sorted@) == keyed(pairs(list@).take(i as int)),
        decreases list@.len() - i,
    {
        assert(pairs(list@).take(i + 1).drop_last() =~= pairs(list@).take(i as int));
        put_pair(&mut sorted, list[i].0.clone(), list[i].1.clone());
        i = i + 1;
    }
    assert(pairs(list@).take(list@.len() as int) =~= pairs(list@));
    sorted
}

/// What is put under a key is there, what stands under the other keys stays, and nothing else comes in.
pub proof fn lemma_put_keeps(list: Seq<(Seq<char>, Seq<char>)>, key: Seq<char>, value: Seq<char>)
    ensures
        put(list, key, value).contains((key, value)),
        forall|k: int|
            0 <= k < list.len() && (#[trigger] list[k]).0 != key ==> put(list, key, value).contains(
                list[k],
            ),
        forall|i: int|
            0 <= i < put(list, key, value).len() ==> #[trigger] put(list, key, value)[i] == (key, value)
                || list.contains(put(list, key, value)[i]),
    decreases list.len(),
{
    let now = put(list, key, value);
    if list.len() == 0 {
        assert(now[0] == (key, value));
    } else if list.last().0 == key {
        assert(now[list.len() - 1] == (key, value));
        assert forall|k: int| 0 <= k < list.len() && (#[trigger] list[k]).0 != key implies now.contains(
            list[k],
        ) by {
            assert(now[k] == list[k]);
        }
    } else if text_less(list.last().0, key) {
        assert(now[list.len() as int] == (key, value));
        assert forall|k: int| 0 <= k < list.len() && (#[trigger] list[k]).0 != key implies now.contains(
            list[k],
        ) by {
            assert(now[k] == list[k]);
        }
    } else {
        let rest = list.drop_last();
        let inner = put(rest, key, value);
        lemma_put_keeps(rest, key, value);
        let at = choose|at: int| 0 <= at < inner.len() && inner[at] == (key, value);
        assert(now[at] == (key, value));
        assert forall|k: int| 0 <= k < list.len() && (#[trigger] list[k]).0 != key implies now.contains(
            list[k],
        ) by {
            if k < rest.len() {
                assert(rest[k] == list[k]);
                let i = choose|i: int| 0 <= i < inner.len() && inner[i] == rest[k];
                assert(now[i] == list[k]);
            } else {
                assert(now[inner.len() as int] == list[k]);
            }
        }
        assert forall|i: int| 0 <= i < now.len() implies #[trigger] now[i] == (key, value)
            || list.contains(now[i]) by {
            if i < inner.len() {
                assert(inner[i] == now[i]);
                if now[i] != (key, value) {
                    let k = choose|k: int| 0 <= k < rest.len() && rest[k] == inner[i];
                    assert(list[k] == now[i]);
                }
            } else {
                assert(now[i] == list[list.len() - 1]);
            }
        }
    }
}

/// Each pair whose key no later pair has stands in the list that is ordered by key, and nothing else does.
pub proof fn lemma_last_values_stay(list: Seq<(Seq<char>, Seq<char>)>)
    ensures
        forall|k: int|
            0 <= k < list.len() && (forall|j: int|
                k < j < list.len() ==> (#[trigger] list[j]).0 != list[k].0) ==> keyed(list).contains(
                #[trigger] list[k],
            ),
        forall|i: int| 0 <= i < keyed(list).len() ==> list.contains(#[trigger] keyed(list)[i]),
    decreases list.len(),
{
    if list.len() > 0 {
        let rest = list.drop_last();
        let before = keyed(rest);
        lemma_last_values_stay(rest);
        lemma_put_keeps(before, list.last().0, list.last().1);
        assert((list.last().0, list.last().1) == list[list.len() - 1]);
        assert forall|k: int|
            0 <= k < list.len() && (forall|j: int|
                k < j < list.len() ==> (#[trigger] list[j]).0 != list[k].0) implies keyed(list).contains(
            #[trigger] list[k],
        ) by {
            if k < list.len() - 1 {
                assert(list[list.len() - 1].0 != list[k].0);
                assert(rest[k] == list[k]);
                assert forall|j: int| k < j < rest.len() implies (#[trigger] rest[j]).0 != rest[k].0 by {
                    assert(rest[j] == list[j]);
                }
                let i = choose|i: int| 0 <= i < before.len() && before[i] == rest[k];
                assert(before[i].0 != list.last().0);
            }
        }
        assert forall|i: int| 0 <= i < keyed(list).len() implies list.contains(
            #[trigger] keyed(list)[i],
        ) by {
            let found = keyed(list)[i];
            if found != (list.last().0, list.last().1) {
                let m = choose|m: int| 0 <= m < before.len() && before[m] == found;
                assert(rest.contains(before[m]));
                let k = choose|k: int| 0 <= k < rest.len() && rest[k] == found;
                assert(list[k] == found);
            }
        }
    }
}

} // verus!
