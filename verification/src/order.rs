//! The order of texts, and lists of texts kept in that order.

use vstd::prelude::*;
use crate::text::{chars_of, str_eq, texts};

verus! {

/// From position `i` on, `a` stands before `b` character by character.
pub open spec fn less_from(a: Seq<char>, b: Seq<char>, i: int) -> bool
    decreases b.len() - i,
{
    if i >= b.len() {
        false
    } else if i >= a.len() {
        true
    } else if a[i] == b[i] {
        less_from(a, b, i + 1)
    } else {
        a[i] < b[i]
    }
}

/// The order of texts: by the first character in which they differ, the shorter first.
pub open spec fn text_less(a: Seq<char>, b: Seq<char>) -> bool {
    less_from(a, b, 0)
}

pub fn is_less(a: &str, b: &str) -> (yes: bool)
    ensures
        yes == text_less(a@, b@),
{
    let left = chars_of(a);
    let right = chars_of(b);
    let mut i: usize = 0;
    while i < right.len() && i < left.len() && left[i] == right[i]
        invariant
            i <= left@.len(),
            i <= right@.len(),
            text_less(left@, right@) == less_from(left@, right@, i as int),
        decreases right@.len() - i,
    {
        i = i + 1;
    }
    if i >= right.len() {
        false
    } else if i >= left.len() {
        true
    } else {
        left[i] < right[i]
    }
}

proof fn lemma_less_split(a: Seq<char>, b: Seq<char>, i: int) -> (k: int)
    requires
        0 <= i <= a.len(),
        less_from(a, b, i),
    ensures
        i <= k < b.len(),
        k <= a.len(),
        forall|j: int| i <= j < k ==> a[j] == b[j],
        k == a.len() || a[k] < b[k],
    decreases b.len() - i,
{
    if i < b.len() && i < a.len() && a[i] == b[i] {
        lemma_less_split(a, b, i + 1)
    } else {
        i
    }
}

proof fn lemma_less_join(a: Seq<char>, b: Seq<char>, i: int, k: int)
    requires
        0 <= i <= k < b.len(),
        k <= a.len(),
        forall|j: int| i <= j < k ==> a[j] == b[j],
        k == a.len() || a[k] < b[k],
    ensures
        less_from(a, b, i),
    decreases k - i,
{
    if i < k {
        lemma_less_join(a, b, i + 1, k);
    }
}

/// No text stands before itself.
pub proof fn lemma_less_irreflexive(a: Seq<char>)
    ensures
        !text_less(a, a),
{
    if text_less(a, a) {
        let k = lemma_less_split(a, a, 0);
    }
}

/// The order of texts is transitive.
pub proof fn lemma_less_transitive(a: Seq<char>, b: Seq<char>, c: Seq<char>)
    requires
        text_less(a, b),
        text_less(b, c),
    ensures
        text_less(a, c),
{
    let k = lemma_less_split(a, b, 0);
    let m = lemma_less_split(b, c, 0);
    let n = if k < m { k } else { m };
    assert forall|j: int| 0 <= j < n implies a[j] == c[j] by {
        assert(a[j] == b[j]);
    }
    lemma_less_join(a, c, 0, n);
}

proof fn lemma_total_from(a: Seq<char>, b: Seq<char>, i: int)
    requires
        0 <= i <= a.len(),
        i <= b.len(),
        forall|j: int| 0 <= j < i ==> a[j] == b[j],
    ensures
        a == b || less_from(a, b, i) || less_from(b, a, i),
    decreases b.len() - i,
{
    if i < a.len() && i < b.len() && a[i] == b[i] {
        lemma_total_from(a, b, i + 1);
    } else if i == a.len() && i == b.len() {
        assert(a =~= b);
    }
}

/// Of two different texts, one stands before the other.
pub proof fn lemma_less_total(a: Seq<char>, b: Seq<char>)
    ensures
        a == b || text_less(a, b) || text_less(b, a),
{
    lemma_total_from(a, b, 0);
}

/// Each text of a list stands before the next: the list is in order and holds nothing twice.
pub open spec fn ascending(list: Seq<Seq<char>>) -> bool {
    forall|i: int, j: int| 0 <= i < j < list.len() ==> #[trigger] text_less(list[i], list[j])
}

/// A list in order with one more text at its place, unless it holds the text already.
pub open spec fn placed(list: Seq<Seq<char>>, s: Seq<char>) -> Seq<Seq<char>>
    decreases list.len(),
{
    if list.len() == 0 {
        seq![s]
    } else if list.last() == s {
        list
    } else if text_less(list.last(), s) {
        list.push(s)
    } else {
        placed(list.drop_last(), s).push(list.last())
    }
}

/// The texts of a list in order, each once.
pub open spec fn in_order(list: Seq<Seq<char>>) -> Seq<Seq<char>>
    decreases list.len(),
{
    if list.len() == 0 {
        list
    } else {
        placed(in_order(list.drop_last()), list.last())
    }
}

/// Placing a text keeps a list in order, and adds that text and nothing else.
pub proof fn lemma_placed(list: Seq<Seq<char>>, s: Seq<char>)
    requires
        ascending(list),
    ensures
        ascending(placed(list, s)),
        forall|t: Seq<char>| #[trigger] placed(list, s).contains(t) <==> list.contains(t) || t == s,
    decreases list.len(),
{
    if list.len() == 0 {
        assert(placed(list, s)[0] == s);
    } else if list.last() == s {
        assert(list[list.len() - 1] == s);
    } else if text_less(list.last(), s) {
        let out = list.push(s);
        assert forall|i: int, j: int| 0 <= i < j < out.len() implies #[trigger] text_less(out[i], out[j]) by {
            if j == out.len() - 1 && i < list.len() - 1 {
                assert(text_less(list[i], list[list.len() - 1]));
                lemma_less_transitive(list[i], list.last(), s);
            } else if j < list.len() {
                assert(text_less(list[i], list[j]));
            }
        }
        assert forall|t: Seq<char>| #[trigger] out.contains(t) <==> list.contains(t) || t == s by {
            if list.contains(t) {
                let k = choose|k: int| 0 <= k < list.len() && list[k] == t;
                assert(out[k] == t);
            }
            if t == s {
                assert(out[list.len() as int] == t);
            }
        }
    } else {
        let head = list.drop_last();
        assert forall|i: int, j: int| 0 <= i < j < head.len() implies #[trigger] text_less(head[i], head[j]) by {
            assert(text_less(list[i], list[j]));
        }
        lemma_placed(head, s);
        lemma_less_total(s, list.last());
        let rest = placed(head, s);
        let out = rest.push(list.last());
        assert forall|i: int, j: int| 0 <= i < j < out.len() implies #[trigger] text_less(out[i], out[j]) by {
            if j == out.len() - 1 {
                assert(rest.contains(rest[i]));
                if rest[i] != s {
                    assert(head.contains(rest[i]));
                    let k = choose|k: int| 0 <= k < head.len() && head[k] == rest[i];
                    assert(text_less(list[k], list[list.len() - 1]));
                }
            } else {
                assert(text_less(rest[i], rest[j]));
            }
        }
        assert forall|t: Seq<char>| #[trigger] out.contains(t) <==> list.contains(t) || t == s by {
            if out.contains(t) {
                let k = choose|k: int| 0 <= k < out.len() && out[k] == t;
                if k < rest.len() {
                    assert(rest[k] == t);
                    assert(rest.contains(t));
                    if t != s {
                        assert(head.contains(t));
                        let m = choose|m: int| 0 <= m < head.len() && head[m] == t;
                        assert(list[m] == t);
                    }
                } else {
                    assert(list[list.len() - 1] == t);
                }
            }
            if list.contains(t) {
                let k = choose|k: int| 0 <= k < list.len() && list[k] == t;
                if k < head.len() {
                    assert(head[k] == t);
                    assert(head.contains(t));
                    assert(rest.contains(t));
                    let m = choose|m: int| 0 <= m < rest.len() && rest[m] == t;
                    assert(out[m] == t);
                } else {
                    assert(out[rest.len() as int] == t);
                }
            }
            if t == s {
                assert(rest.contains(t));
                let m = choose|m: int| 0 <= m < rest.len() && rest[m] == t;
                assert(out[m] == t);
            }
        }
    }
}

/// What `in_order` gives is in order, holds nothing twice and holds what the list held.
pub proof fn lemma_in_order(list: Seq<Seq<char>>)
    ensures
        ascending(in_order(list)),
        forall|t: Seq<char>| #[trigger] in_order(list).contains(t) <==> list.contains(t),
    decreases list.len(),
{
    if list.len() > 0 {
        let head = list.drop_last();
        lemma_in_order(head);
        lemma_placed(in_order(head), list.last());
        assert forall|t: Seq<char>| #[trigger] in_order(list).contains(t) <==> list.contains(t) by {
            if list.contains(t) {
                let k = choose|k: int| 0 <= k < list.len() && list[k] == t;
                if k < head.len() {
                    assert(head[k] == t);
                    assert(head.contains(t));
                    assert(in_order(head).contains(t));
                }
            }
            if head.contains(t) {
                let k = choose|k: int| 0 <= k < head.len() && head[k] == t;
                assert(list[k] == t);
            }
            if t == list.last() {
                assert(list[list.len() - 1] == t);
            }
        }
    }
}

/// A list that is in order and holds nothing twice stays as it is.
pub proof fn lemma_in_order_fixed(list: Seq<Seq<char>>)
    requires
        ascending(list),
    ensures
        in_order(list) == list,
    decreases list.len(),
{
    if list.len() > 0 {
        let head = list.drop_last();
        assert forall|i: int, j: int| 0 <= i < j < head.len() implies #[trigger] text_less(head[i], head[j]) by {
            assert(text_less(list[i], list[j]));
        }
        lemma_in_order_fixed(head);
        if head.len() > 0 {
            assert(text_less(list[list.len() - 2], list[list.len() - 1]));
            lemma_less_irreflexive(list.last());
        }
        assert(in_order(list) =~= list);
    }
}

/// Ordering a list twice gives what ordering it once gives.
pub proof fn lemma_in_order_idempotent(list: Seq<Seq<char>>)
    ensures
        in_order(in_order(list)) == in_order(list),
{
    lemma_in_order(list);
    lemma_in_order_fixed(in_order(list));
}

proof fn lemma_placed_at(list: Seq<Seq<char>>, s: Seq<char>, k: int)
    requires
        0 <= k <= list.len(),
        k == 0 || text_less(list[k - 1], s),
        k > 0 ==> list[k - 1] != s,
        forall|j: int| k <= j < list.len() ==> list[j] != s && !text_less(list[j], s),
    ensures
        placed(list, s) == list.insert(k, s),
    decreases list.len() - k,
{
    if list.len() == 0 {
        assert(placed(list, s) =~= list.insert(k, s));
    } else if k == list.len() {
        assert(placed(list, s) =~= list.insert(k, s));
    } else {
        lemma_placed_at(list.drop_last(), s, k);
        assert(placed(list, s) =~= list.insert(k, s));
    }
}

proof fn lemma_placed_held(list: Seq<Seq<char>>, s: Seq<char>, k: int)
    requires
        0 <= k < list.len(),
        list[k] == s,
        forall|j: int| k < j < list.len() ==> list[j] != s && !text_less(list[j], s),
    ensures
        placed(list, s) == list,
    decreases list.len() - k,
{
    if k < list.len() - 1 {
        lemma_placed_held(list.drop_last(), s, k);
        assert(placed(list, s) =~= list);
    }
}

/// Puts a text at its place in a list in order, unless the list holds it.
pub fn place(list: &mut Vec<String>, s: String)
    ensures
        texts(final(list)@) == placed(texts(old(list)@), s@),
{
    let mut k: usize = list.len();
    while k > 0
        invariant
            k <= list@.len(),
            *list == *old(list),
            forall|j: int| k <= j < list@.len() ==> (#[trigger] list@[j])@ != s@ && !text_less(list@[j]@, s@),
        decreases k,
    {
        if str_eq(list[k - 1].as_str(), s.as_str()) {
            proof {
                lemma_placed_held(texts(list@), s@, k - 1);
            }
            return;
        }
        if is_less(list[k - 1].as_str(), s.as_str()) {
            let ghost before = texts(list@);
            proof {
                lemma_placed_at(before, s@, k as int);
            }
            list.insert(k, s);
            assert(texts(list@) =~= before.insert(k as int, s@));
            return;
        }
        k = k - 1;
    }
    let ghost before = texts(list@);
    proof {
        lemma_placed_at(before, s@, 0);
    }
    list.insert(0, s);
    assert(texts(list@) =~= before.insert(0, s@));
}

/// Puts a list in order and drops what it holds twice.
pub fn sort_dedup(list: Vec<String>) -> (sorted: Vec<String>)
    ensures
        texts(sorted@) == in_order(texts(list@)),
{
    let mut sorted: Vec<String> = Vec::new();
    let mut i: usize = 0;
    assert(texts(list@).take(0) =~= Seq::<Seq<char>>::empty());
    assert(texts(sorted@) =~= Seq::<Seq<char>>::empty());
    while i < list.len()
        invariant
            i <= list@.len(),
            texts(sorted@) == in_order(texts(list@).take(i as int)),
        decreases list@.len() - i,
    {
        assert(texts(list@).take(i + 1).drop_last() =~= texts(list@).take(i as int));
        place(&mut sorted, list[i].clone());
        i = i + 1;
    }
    assert(texts(list@).take(list@.len() as int) =~= texts(list@));
    sorted
}

/// Of two texts that begin alike, the one with the smaller character where they first differ stands
/// before the other, and a text stands before whatever it begins.
pub proof fn lemma_first_difference_decides(
    start: Seq<char>,
    x: char,
    y: char,
    a: Seq<char>,
    b: Seq<char>,
)
    ensures
        x < y ==> text_less(start + seq![x] + a, start + seq![y] + b),
        x < y ==> !text_less(start + seq![y] + b, start + seq![x] + a),
        text_less(start, start + seq![x] + a),
{
    let left = start + seq![x] + a;
    let right = start + seq![y] + b;
    let k = start.len() as int;
    if x < y {
        lemma_less_join(left, right, 0, k);
        if text_less(right, left) {
            lemma_less_transitive(left, right, left);
            lemma_less_irreflexive(left);
        }
    }
    lemma_less_join(start, left, 0, k);
}

} // verus!
