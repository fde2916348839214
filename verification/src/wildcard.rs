//! Patterns in which `*` stands for any run of bytes and `?` for any one byte.

use vstd::prelude::*;
use vstd::string::*;
use vstd::utf8::{encode_utf8, encode_utf8_decode_utf8, is_ascii_chars_encode_utf8};

verus! {

pub const STAR: u8 = 42;

pub const ANY: u8 = 63;

/// The pattern from `i` on stands for the value from `j` on.
pub open spec fn glob_from(p: Seq<u8>, v: Seq<u8>, i: int, j: int) -> bool
    decreases p.len() - i + v.len() - j,
{
    if i < 0 || j < 0 || i > p.len() || j > v.len() {
        false
    } else if i == p.len() {
        j == v.len()
    } else if p[i] == STAR {
        glob_from(p, v, i + 1, j) || (j < v.len() && glob_from(p, v, i, j + 1))
    } else {
        j < v.len() && (p[i] == ANY || p[i] == v[j]) && glob_from(p, v, i + 1, j + 1)
    }
}

/// The pattern stands for the value: `*` for any run of bytes, `?` for any one byte and each
/// other byte for itself.
pub open spec fn glob(p: Seq<u8>, v: Seq<u8>) -> bool {
    glob_from(p, v, 0, 0)
}

/// Where a match that is under way stands: at `i` in the pattern and `j` in the value, with the
/// last star passed at `star.0` and the value taken up to `star.1` by it.
pub open spec fn run_from(p: Seq<u8>, v: Seq<u8>, i: int, j: int, star: Option<(int, int)>) -> bool
    decreases
            (match star {
                Some(s) => v.len() - s.1,
                None => v.len() + 1int,
            }),
            p.len() - i + v.len() - j,
{
    if i < 0 || i > p.len() || j < 0 || j > v.len() {
        false
    } else if star matches Some(s) && !(0 <= s.0 < i && 0 <= s.1 <= j) {
        false
    } else if j == v.len() {
        forall|k: int| i <= k < p.len() ==> p[k] == STAR
    } else if i < p.len() && (p[i] == ANY || p[i] == v[j]) {
        run_from(p, v, i + 1, j + 1, star)
    } else if i < p.len() && p[i] == STAR {
        run_from(p, v, i + 1, j, Some((i, j)))
    } else {
        match star {
            Some(s) => run_from(p, v, s.0 + 1, s.1 + 1, Some((s.0, s.1 + 1))),
            None => false,
        }
    }
}

/// Whether a pattern stands for a value. A `*` in the value is taken by a `*` at the same place
/// in the pattern as by any equal byte.
pub open spec fn wildcard(pattern: Seq<char>, value: Seq<char>) -> bool {
    run_from(encode_utf8(pattern), encode_utf8(value), 0, 0, None)
}

proof fn lemma_star_takes_less(p: Seq<u8>, v: Seq<u8>, i: int, j: int, k: int)
    requires
        0 <= i < p.len(),
        p[i] == STAR,
        0 <= j <= k <= v.len(),
        glob_from(p, v, i, k),
    ensures
        glob_from(p, v, i, j),
    decreases k - j,
{
    if j < k {
        lemma_star_takes_less(p, v, i, j + 1, k);
    }
}

proof fn lemma_star_takes(p: Seq<u8>, v: Seq<u8>, i: int, j: int) -> (k: int)
    requires
        0 <= i < p.len(),
        p[i] == STAR,
        0 <= j <= v.len(),
        glob_from(p, v, i, j),
    ensures
        j <= k <= v.len(),
        glob_from(p, v, i + 1, k),
    decreases v.len() - j,
{
    if glob_from(p, v, i + 1, j) {
        j
    } else {
        lemma_star_takes(p, v, i, j + 1)
    }
}

proof fn lemma_plain_run(p: Seq<u8>, v: Seq<u8>, from: int, to: int, k: int)
    requires
        0 <= from <= to <= p.len(),
        0 <= k <= v.len(),
        forall|m: int| from <= m < to ==> p[m] != STAR,
        glob_from(p, v, from, k),
    ensures
        k + (to - from) <= v.len(),
        glob_from(p, v, to, k + (to - from)),
    decreases to - from,
{
    if from < to {
        lemma_plain_run(p, v, from + 1, to, k + 1);
    }
}

proof fn lemma_stars_end(p: Seq<u8>, v: Seq<u8>, i: int)
    requires
        0 <= i <= p.len(),
    ensures
        glob_from(p, v, i, v.len() as int) == (forall|k: int| i <= k < p.len() ==> p[k] == STAR),
    decreases p.len() - i,
{
    if i < p.len() {
        lemma_stars_end(p, v, i + 1);
        if p[i] == STAR {
            assert((forall|k: int| i <= k < p.len() ==> p[k] == STAR) == (forall|k: int|
                i + 1 <= k < p.len() ==> p[k] == STAR));
        }
    }
}

/// The last star, were it to take more of the value than it has, could still lead to a match.
spec fn more_by_star(p: Seq<u8>, v: Seq<u8>, star: Option<(int, int)>) -> bool {
    star matches Some(s) && exists|k: int|
        s.1 < k <= v.len() && #[trigger] glob_from(p, v, s.0 + 1, k)
}

proof fn lemma_run_is_glob(p: Seq<u8>, v: Seq<u8>, i: int, j: int, star: Option<(int, int)>)
    requires
        0 <= i <= p.len(),
        0 <= j <= v.len(),
        forall|k: int| 0 <= k < v.len() ==> v[k] != STAR,
        match star {
            Some(s) => {
                &&& 0 <= s.0 < i
                &&& 0 <= s.1 <= j
                &&& j - s.1 == i - s.0 - 1
                &&& p[s.0] == STAR
                &&& forall|m: int| s.0 < m < i ==> p[m] != STAR
            },
            None => true,
        },
    ensures
        run_from(p, v, i, j, star) == (glob_from(p, v, i, j) || more_by_star(p, v, star)),
    decreases
            (match star {
                Some(s) => v.len() - s.1,
                None => v.len() + 1int,
            }),
            p.len() - i + v.len() - j,
{
    if j == v.len() {
        lemma_stars_end(p, v, i);
        if more_by_star(p, v, star) {
            let s = star->0;
            let k = choose|k: int| s.1 < k <= v.len() && #[trigger] glob_from(p, v, s.0 + 1, k);
            lemma_plain_run(p, v, s.0 + 1, i, k);
        }
    } else if i < p.len() && (p[i] == ANY || p[i] == v[j]) {
        lemma_run_is_glob(p, v, i + 1, j + 1, star);
    } else if i < p.len() && p[i] == STAR {
        let next = Some((i, j));
        lemma_run_is_glob(p, v, i + 1, j, next);
        if glob_from(p, v, i, j) {
            let k = lemma_star_takes(p, v, i, j);
            if k > j {
                assert(more_by_star(p, v, next));
            }
        }
        if more_by_star(p, v, next) {
            let k = choose|k: int| j < k <= v.len() && #[trigger] glob_from(p, v, i + 1, k);
            assert(glob_from(p, v, i, k));
            lemma_star_takes_less(p, v, i, j, k);
        }
        if more_by_star(p, v, star) {
            let s = star->0;
            let k = choose|k: int| s.1 < k <= v.len() && #[trigger] glob_from(p, v, s.0 + 1, k);
            lemma_plain_run(p, v, s.0 + 1, i, k);
            lemma_star_takes_less(p, v, i, j, k + (i - s.0 - 1));
        }
    } else if star is Some {
        let s = star->0;
        let next = Some((s.0, s.1 + 1));
        lemma_run_is_glob(p, v, s.0 + 1, s.1 + 1, next);
        if more_by_star(p, v, star) {
            let k = choose|k: int| s.1 < k <= v.len() && #[trigger] glob_from(p, v, s.0 + 1, k);
            if k > s.1 + 1 {
                assert(more_by_star(p, v, next));
            }
        }
        if glob_from(p, v, s.0 + 1, s.1 + 1) {
            assert(more_by_star(p, v, star));
        }
        if more_by_star(p, v, next) {
            let k = choose|k: int| s.1 + 1 < k <= v.len() && #[trigger] glob_from(p, v, s.0 + 1, k);
            assert(more_by_star(p, v, star));
        }
    }
}

/// For a value that holds no `*`, the pattern matches exactly when `*` can stand for some run of
/// bytes, `?` for one byte and each other byte for itself.
pub proof fn lemma_wildcard_is_glob(pattern: Seq<char>, value: Seq<char>)
    requires
        forall|k: int| 0 <= k < encode_utf8(value).len() ==> encode_utf8(value)[k] != STAR,
    ensures
        wildcard(pattern, value) == glob(encode_utf8(pattern), encode_utf8(value)),
{
    lemma_run_is_glob(encode_utf8(pattern), encode_utf8(value), 0, 0, None);
}

pub fn wildcard_matches(pattern: &str, value: &str) -> (yes: bool)
    ensures
        yes == wildcard(pattern@, value@),
{
    let p = pattern.as_bytes();
    let v = value.as_bytes();
    let mut i: usize = 0;
    let mut j: usize = 0;
    let mut passed: bool = false;
    let mut star: usize = 0;
    let mut taken: usize = 0;
    while j < v.len()
        invariant
            p@ == encode_utf8(pattern@),
            v@ == encode_utf8(value@),
            i <= p@.len(),
            j <= v@.len(),
            passed ==> star < i && taken <= j,
            wildcard(pattern@, value@) == run_from(p@, v@, i as int, j as int, if passed {
                Some((star as int, taken as int))
            } else {
                None
            }),
        decreases
                (if passed {
                    v@.len() - taken
                } else {
                    v@.len() + 1int
                }),
                p@.len() - i + v@.len() - j,
    {
        if i < p.len() && (p[i] == ANY || p[i] == v[j]) {
            i = i + 1;
            j = j + 1;
        } else if i < p.len() && p[i] == STAR {
            star = i;
            passed = true;
            taken = j;
            i = i + 1;
        } else if passed {
            i = star + 1;
            taken = taken + 1;
            j = taken;
        } else {
            return false;
        }
    }
    let ghost end = i as int;
    while i < p.len() && p[i] == STAR
        invariant
            end <= i <= p@.len(),
            forall|k: int| end <= k < i ==> p@[k] == STAR,
        decreases p@.len() - i,
    {
        i = i + 1;
    }
    i == p.len()
}

proof fn lemma_glob_star(v: Seq<u8>, j: int)
    requires
        0 <= j <= v.len(),
    ensures
        glob_from(seq![STAR], v, 0, j),
    decreases v.len() - j,
{
    if j < v.len() {
        lemma_glob_star(v, j + 1);
    } else {
        assert(glob_from(seq![STAR], v, 1, j));
    }
}

/// The pattern `*` stands for every value that holds no `*`.
pub proof fn lemma_star_matches_all(value: Seq<char>)
    requires
        forall|k: int| 0 <= k < encode_utf8(value).len() ==> encode_utf8(value)[k] != STAR,
    ensures
        wildcard("*"@, value),
{
    reveal_strlit("*");
    is_ascii_chars_encode_utf8("*"@);
    assert("*"@[0] as u8 == STAR);
    assert(encode_utf8("*"@) =~= seq![STAR]);
    lemma_glob_star(encode_utf8(value), 0);
    lemma_wildcard_is_glob("*"@, value);
}

proof fn lemma_plain_from(p: Seq<u8>, v: Seq<u8>, i: int)
    requires
        0 <= i <= p.len(),
        i <= v.len(),
        forall|k: int| 0 <= k < p.len() ==> p[k] != STAR && p[k] != ANY,
    ensures
        run_from(p, v, i, i, None) == (p.len() == v.len() && forall|k: int| i <= k < p.len() ==> p[k] == v[k]),
    decreases p.len() - i,
{
    if i < p.len() && i < v.len() {
        lemma_plain_from(p, v, i + 1);
        if p[i] == v[i] {
            assert((forall|k: int| i <= k < p.len() ==> p[k] == v[k]) == (forall|k: int|
                i + 1 <= k < p.len() ==> p[k] == v[k]));
        }
    } else if i < p.len() {
        assert(p[i] != STAR);
    }
}

/// A pattern without `*` and `?` stands for itself and nothing else.
pub proof fn lemma_plain_matches_itself(pattern: Seq<char>, value: Seq<char>)
    requires
        forall|k: int|
            0 <= k < encode_utf8(pattern).len() ==> encode_utf8(pattern)[k] != STAR && encode_utf8(pattern)[k]
                != ANY,
    ensures
        wildcard(pattern, value) == (pattern == value),
{
    lemma_plain_from(encode_utf8(pattern), encode_utf8(value), 0);
    if wildcard(pattern, value) {
        assert(encode_utf8(pattern) =~= encode_utf8(value));
        encode_utf8_decode_utf8(pattern);
        encode_utf8_decode_utf8(value);
    }
}

proof fn lemma_prefix_from(p: Seq<u8>, v: Seq<u8>, i: int)
    requires
        0 <= i < p.len(),
        i <= v.len(),
        p[p.len() - 1] == STAR,
        forall|k: int| 0 <= k < p.len() - 1 ==> #[trigger] p[k] != STAR && p[k] != ANY,
    ensures
        glob_from(p, v, i, i) <==> p.len() - 1 <= v.len() && forall|k: int|
            i <= k < p.len() - 1 ==> #[trigger] p[k] == v[k],
    decreases p.len() - i,
{
    if i == p.len() - 1 {
        lemma_tail_star(p, v, i, i);
    } else if i < v.len() {
        assert(p[i] != STAR && p[i] != ANY);
        lemma_prefix_from(p, v, i + 1);
        if glob_from(p, v, i, i) {
            assert forall|k: int| i <= k < p.len() - 1 implies #[trigger] p[k] == v[k] by {}
        }
        if p.len() - 1 <= v.len() && forall|k: int| i <= k < p.len() - 1 ==> #[trigger] p[k] == v[k] {
            assert(p[i] == v[i]);
        }
    }
}

proof fn lemma_tail_star(p: Seq<u8>, v: Seq<u8>, i: int, j: int)
    requires
        i == p.len() - 1,
        0 <= i,
        p[i] == STAR,
        0 <= j <= v.len(),
    ensures
        glob_from(p, v, i, j),
    decreases v.len() - j,
{
    reveal_with_fuel(glob_from, 2);
    if j < v.len() {
        lemma_tail_star(p, v, i, j + 1);
    }
}

/// A pattern of plain characters and a star at its end matches what begins with these characters, and
/// nothing else.
pub proof fn lemma_star_at_the_end_matches_what_begins_so(start: Seq<u8>, value: Seq<u8>)
    requires
        forall|k: int| 0 <= k < start.len() ==> #[trigger] start[k] != STAR && start[k] != ANY,
    ensures
        glob(start.push(STAR), value) <==> start.len() <= value.len() && value.take(start.len() as int)
            == start,
{
    let p = start.push(STAR);
    assert forall|k: int| 0 <= k < p.len() - 1 implies #[trigger] p[k] != STAR && p[k] != ANY by {
        assert(p[k] == start[k]);
    }
    lemma_prefix_from(p, value, 0);
    if start.len() <= value.len() {
        if value.take(start.len() as int) == start {
            assert forall|k: int| 0 <= k < p.len() - 1 implies #[trigger] p[k] == value[k] by {
                assert(value.take(start.len() as int)[k] == value[k]);
            }
        }
        if forall|k: int| 0 <= k < p.len() - 1 ==> #[trigger] p[k] == value[k] {
            assert forall|k: int| 0 <= k < start.len() implies value.take(start.len() as int)[k]
                == start[k] by {
                assert(p[k] == value[k]);
            }
            assert(value.take(start.len() as int) =~= start);
        }
    }
}

/// The mark for any character stands for exactly one.
pub proof fn lemma_any_matches_one(value: Seq<u8>)
    ensures
        glob(seq![ANY], value) <==> value.len() == 1,
{
    reveal_with_fuel(glob_from, 3);
}

} // verus!
