//! Text as sequences of characters: the searching, splitting and joining that the
//! credential parsers and the classifiers rest on.

use vstd::prelude::*;

verus! {

/// `String::push` appends one character.
pub assume_specification[ String::push ](s: &mut String, c: char)
    ensures
        final(s)@ == old(s)@.push(c),
;

/// `==` on `str` compares the characters of both sides.
#[verifier::external_body]
pub(crate) fn str_eq(a: &str, b: &str) -> (same: bool)
    ensures
        same == (a@ == b@),
{
    a == b
}

/// The texts behind a list of strings.
pub open spec fn texts(list: Seq<String>) -> Seq<Seq<char>> {
    list.map_values(|s: String| s@)
}

/// The text behind an optional string.
pub open spec fn opt_text(value: Option<String>) -> Option<Seq<char>> {
    match value {
        Some(s) => Some(s@),
        None => None,
    }
}

pub fn chars_of(s: &str) -> (list: Vec<char>)
    ensures
        list@ == s@,
{
    let mut list: Vec<char> = Vec::new();
    for c in it: s.chars()
        invariant
            it.seq() == s@,
            list@ == s@.take(it.index() as int),
    {
        list.push(c);
        assert(list@ =~= s@.take(it.index() as int + 1));
    }
    assert(s@.take(s@.len() as int) =~= s@);
    list
}

/// The characters `from..to` as a string.
pub fn string_of(list: &Vec<char>, from: usize, to: usize) -> (s: String)
    requires
        from <= to <= list@.len(),
    ensures
        s@ == list@.subrange(from as int, to as int),
{
    let mut s: String = String::new();
    let mut i: usize = from;
    while i < to
        invariant
            from <= i <= to <= list@.len(),
            s@ == list@.subrange(from as int, i as int),
        decreases to - i,
    {
        s.push(list[i]);
        i = i + 1;
        assert(s@ =~= list@.subrange(from as int, i as int));
    }
    s
}

/// White space as Unicode's White_Space property has it.
pub open spec fn whitespace(c: char) -> bool {
    ||| '\u{9}' <= c <= '\u{d}'
    ||| c == ' '
    ||| c == '\u{85}'
    ||| c == '\u{a0}'
    ||| c == '\u{1680}'
    ||| '\u{2000}' <= c <= '\u{200a}'
    ||| c == '\u{2028}'
    ||| c == '\u{2029}'
    ||| c == '\u{202f}'
    ||| c == '\u{205f}'
    ||| c == '\u{3000}'
}

pub fn is_whitespace(c: char) -> (yes: bool)
    ensures
        yes == whitespace(c),
{
    ('\u{9}' <= c && c <= '\u{d}') || c == ' ' || c == '\u{85}' || c == '\u{a0}' || c == '\u{1680}'
        || ('\u{2000}' <= c && c <= '\u{200a}') || c == '\u{2028}' || c == '\u{2029}' || c
        == '\u{202f}' || c == '\u{205f}' || c == '\u{3000}'
}

/// The first position at or after `i` that holds no white space.
pub open spec fn skip_whitespace(s: Seq<char>, i: int) -> int
    decreases s.len() - i,
{
    if 0 <= i < s.len() && whitespace(s[i]) {
        skip_whitespace(s, i + 1)
    } else {
        i
    }
}

/// The end of `s[from..to]` once the white space at its end is gone.
pub open spec fn drop_whitespace(s: Seq<char>, from: int, to: int) -> int
    decreases to - from,
{
    if from < to && whitespace(s[to - 1]) {
        drop_whitespace(s, from, to - 1)
    } else {
        to
    }
}

/// A text without the white space around it.
pub open spec fn trimmed(s: Seq<char>) -> Seq<char> {
    let from = skip_whitespace(s, 0);
    s.subrange(from, drop_whitespace(s, from, s.len() as int))
}

pub fn trim(s: &str) -> (t: String)
    ensures
        t@ == trimmed(s@),
{
    let list = chars_of(s);
    let mut from: usize = 0;
    while from < list.len() && is_whitespace(list[from])
        invariant
            from <= list@.len(),
            skip_whitespace(list@, 0) == skip_whitespace(list@, from as int),
        decreases list@.len() - from,
    {
        from = from + 1;
    }
    let mut to: usize = list.len();
    while from < to && is_whitespace(list[to - 1])
        invariant
            from <= to <= list@.len(),
            drop_whitespace(list@, from as int, list@.len() as int) == drop_whitespace(list@, from as int, to as int),
        decreases to,
    {
        to = to - 1;
    }
    string_of(&list, from, to)
}

/// `needle` stands in `hay` at position `k`.
pub open spec fn stands_at(hay: Seq<char>, needle: Seq<char>, k: int) -> bool {
    0 <= k && k + needle.len() <= hay.len() && hay.subrange(k, k + needle.len()) == needle
}

/// `needle` stands somewhere in `hay`.
pub open spec fn holds(hay: Seq<char>, needle: Seq<char>) -> bool {
    exists|k: int| #[trigger] stands_at(hay, needle, k)
}

/// `s` begins with `prefix`.
pub open spec fn begins(s: Seq<char>, prefix: Seq<char>) -> bool {
    stands_at(s, prefix, 0)
}

/// `s` ends with `suffix`.
pub open spec fn ends(s: Seq<char>, suffix: Seq<char>) -> bool {
    stands_at(s, suffix, s.len() - suffix.len())
}

fn matches_at(hay: &Vec<char>, needle: &Vec<char>, k: usize) -> (yes: bool)
    requires
        k <= hay@.len(),
    ensures
        yes == stands_at(hay@, needle@, k as int),
{
    if needle.len() > hay.len() - k {
        return false;
    }
    let total: usize = hay.len();
    let mut i: usize = 0;
    while i < needle.len()
        invariant
            i <= needle@.len(),
            k + needle@.len() <= hay@.len(),
            total == hay@.len(),
            forall|j: int| 0 <= j < i ==> hay@[k + j] == needle@[j],
        decreases needle@.len() - i,
    {
        if hay[k + i] != needle[i] {
            assert(hay@.subrange(k as int, k + needle@.len())[i as int] == hay@[k + i]);
            return false;
        }
        i = i + 1;
    }
    assert(hay@.subrange(k as int, k + needle@.len()) =~= needle@);
    true
}

pub fn starts_with(s: &str, prefix: &str) -> (yes: bool)
    ensures
        yes == begins(s@, prefix@),
{
    matches_at(&chars_of(s), &chars_of(prefix), 0)
}

pub fn ends_with(s: &str, suffix: &str) -> (yes: bool)
    ensures
        yes == ends(s@, suffix@),
{
    let hay = chars_of(s);
    let needle = chars_of(suffix);
    if needle.len() > hay.len() {
        false
    } else {
        matches_at(&hay, &needle, hay.len() - needle.len())
    }
}

/// The first position at or after `from` at which `needle` stands in `hay`.
pub open spec fn first_at(hay: Seq<char>, needle: Seq<char>, from: int) -> Option<int>
    decreases hay.len() + 1 - from,
{
    if from + needle.len() > hay.len() {
        None
    } else if stands_at(hay, needle, from) {
        Some(from)
    } else {
        first_at(hay, needle, from + 1)
    }
}

/// What `first_at` gives is where `needle` stands, and nothing before it is.
pub proof fn lemma_first_at(hay: Seq<char>, needle: Seq<char>, from: int)
    requires
        0 <= from,
    ensures
        match first_at(hay, needle, from) {
            Some(k) => from <= k && stands_at(hay, needle, k) && forall|j: int|
                from <= j < k ==> !#[trigger] stands_at(hay, needle, j),
            None => forall|j: int| from <= j ==> !#[trigger] stands_at(hay, needle, j),
        },
    decreases hay.len() + 1 - from,
{
    if from + needle.len() > hay.len() {
    } else if stands_at(hay, needle, from) {
    } else {
        lemma_first_at(hay, needle, from + 1);
    }
}

pub fn find(s: &str, needle: &str) -> (at: Option<usize>)
    ensures
        match at {
            Some(k) => first_at(s@, needle@, 0) == Some(k as int) && k + needle@.len() <= s@.len(),
            None => first_at(s@, needle@, 0) is None,
        },
{
    let hay = chars_of(s);
    let word = chars_of(needle);
    if word.len() > hay.len() {
        return None;
    }
    let last: usize = hay.len() - word.len();
    let mut k: usize = 0;
    while k < last
        invariant
            k <= last,
            last + word@.len() == hay@.len(),
            hay@ == s@,
            word@ == needle@,
            first_at(s@, needle@, 0) == first_at(s@, needle@, k as int),
        decreases last - k,
    {
        if matches_at(&hay, &word, k) {
            return Some(k);
        }
        k = k + 1;
    }
    if matches_at(&hay, &word, last) {
        Some(last)
    } else {
        assert(first_at(s@, needle@, last + 1) is None);
        None
    }
}

pub fn contains(hay: &str, needle: &str) -> (yes: bool)
    ensures
        yes == holds(hay@, needle@),
{
    proof {
        lemma_first_at(hay@, needle@, 0);
    }
    match find(hay, needle) {
        Some(k) => {
            assert(stands_at(hay@, needle@, k as int));
            true
        },
        None => false,
    }
}

/// The part of a text from `from` up to `to`.
pub fn slice(s: &str, from: usize, to: usize) -> (part: String)
    requires
        from <= to <= s@.len(),
    ensures
        part@ == s@.subrange(from as int, to as int),
{
    string_of(&chars_of(s), from, to)
}

/// The part of a text from `from` on.
pub fn slice_from(s: &str, from: usize) -> (part: String)
    requires
        from <= s@.len(),
    ensures
        part@ == s@.skip(from as int),
{
    let list = chars_of(s);
    let n: usize = list.len();
    string_of(&list, from, n)
}

/// What follows `prefix` where a text begins with it.
pub open spec fn after_prefix(s: Seq<char>, prefix: Seq<char>) -> Option<Seq<char>> {
    if begins(s, prefix) {
        Some(s.skip(prefix.len() as int))
    } else {
        None
    }
}

pub fn strip_prefix(s: &str, prefix: &str) -> (rest: Option<String>)
    ensures
        opt_text(rest) == after_prefix(s@, prefix@),
{
    if starts_with(s, prefix) {
        let n: usize = chars_of(prefix).len();
        Some(slice_from(s, n))
    } else {
        None
    }
}

/// What precedes `suffix` where a text ends with it.
pub open spec fn before_suffix(s: Seq<char>, suffix: Seq<char>) -> Option<Seq<char>> {
    if ends(s, suffix) {
        Some(s.take(s.len() - suffix.len()))
    } else {
        None
    }
}

pub fn strip_suffix(s: &str, suffix: &str) -> (rest: Option<String>)
    ensures
        opt_text(rest) == before_suffix(s@, suffix@),
{
    if ends_with(s, suffix) {
        let n: usize = chars_of(s).len();
        let m: usize = chars_of(suffix).len();
        Some(slice(s, 0, n - m))
    } else {
        None
    }
}

/// The text before and the text after the first `mark`.
pub open spec fn cut(s: Seq<char>, mark: Seq<char>) -> Option<(Seq<char>, Seq<char>)> {
    match first_at(s, mark, 0) {
        Some(k) => Some((s.take(k), s.skip(k + mark.len()))),
        None => None,
    }
}

pub fn split_once(s: &str, mark: &str) -> (parts: Option<(String, String)>)
    ensures
        match parts {
            Some(p) => cut(s@, mark@) == Some((p.0@, p.1@)),
            None => cut(s@, mark@) is None,
        },
{
    match find(s, mark) {
        Some(k) => {
            let m: usize = chars_of(mark).len();
            let n: usize = chars_of(s).len();
            assert(k + m <= n);
            Some((slice(s, 0, k), slice_from(s, k + m)))
        },
        None => None,
    }
}

/// A text cut at each `mark`: one piece more than there are marks.
pub open spec fn pieces(s: Seq<char>, mark: char) -> Seq<Seq<char>>
    decreases s.len(),
{
    if s.len() == 0 {
        seq![Seq::empty()]
    } else {
        let head = pieces(s.drop_last(), mark);
        if s.last() == mark {
            head.push(Seq::empty())
        } else {
            head.drop_last().push(head.last().push(s.last()))
        }
    }
}

/// There is always a piece.
pub proof fn lemma_pieces_some(s: Seq<char>, mark: char)
    ensures
        pieces(s, mark).len() > 0,
    decreases s.len(),
{
    if s.len() > 0 {
        lemma_pieces_some(s.drop_last(), mark);
    }
}

pub fn split(s: &str, mark: char) -> (list: Vec<String>)
    ensures
        texts(list@) == pieces(s@, mark),
        list@.len() > 0,
{
    let all = chars_of(s);
    let mut done: Vec<String> = Vec::new();
    let mut piece: String = String::new();
    let mut i: usize = 0;
    assert(s@.take(0) =~= Seq::<char>::empty());
    assert(texts(done@).push(piece@) =~= pieces(s@.take(0), mark));
    while i < all.len()
        invariant
            i <= all@.len(),
            all@ == s@,
            texts(done@).push(piece@) == pieces(s@.take(i as int), mark),
        decreases all@.len() - i,
    {
        assert(s@.take(i + 1).drop_last() =~= s@.take(i as int));
        let ghost before = texts(done@).push(piece@);
        assert(before.last() == piece@);
        assert(before.drop_last() =~= texts(done@));
        if all[i] == mark {
            let ghost held = done@;
            done.push(piece);
            piece = String::new();
            assert(texts(done@) =~= before);
        } else {
            piece.push(all[i]);
        }
        i = i + 1;
        assert(texts(done@).push(piece@) =~= pieces(s@.take(i as int), mark));
    }
    assert(s@.take(s@.len() as int) =~= s@);
    let ghost before = texts(done@).push(piece@);
    done.push(piece);
    assert(texts(done@) =~= before);
    done
}

/// A text cut at white space, the empty pieces among the others.
pub open spec fn gaps(s: Seq<char>) -> Seq<Seq<char>>
    decreases s.len(),
{
    if s.len() == 0 {
        seq![Seq::empty()]
    } else {
        let head = gaps(s.drop_last());
        if whitespace(s.last()) {
            head.push(Seq::empty())
        } else {
            head.drop_last().push(head.last().push(s.last()))
        }
    }
}

/// The pieces that are not empty, in order.
pub open spec fn filled(list: Seq<Seq<char>>) -> Seq<Seq<char>>
    decreases list.len(),
{
    if list.len() == 0 {
        Seq::empty()
    } else if list.last().len() == 0 {
        filled(list.drop_last())
    } else {
        filled(list.drop_last()).push(list.last())
    }
}

/// The words of a text: what stands between white space.
pub open spec fn words(s: Seq<char>) -> Seq<Seq<char>> {
    filled(gaps(s))
}

pub fn split_whitespace(s: &str) -> (list: Vec<String>)
    ensures
        texts(list@) == words(s@),
{
    let all = chars_of(s);
    let mut done: Vec<String> = Vec::new();
    let mut piece: String = String::new();
    let ghost mut cutup: Seq<Seq<char>> = Seq::empty();
    let mut i: usize = 0;
    assert(s@.take(0) =~= Seq::<char>::empty());
    assert(cutup.push(piece@) =~= gaps(s@.take(0)));
    assert(texts(done@) =~= filled(cutup));
    while i < all.len()
        invariant
            i <= all@.len(),
            all@ == s@,
            cutup.push(piece@) == gaps(s@.take(i as int)),
            texts(done@) == filled(cutup),
        decreases all@.len() - i,
    {
        assert(s@.take(i + 1).drop_last() =~= s@.take(i as int));
        let ghost before = cutup.push(piece@);
        assert(before.last() == piece@);
        assert(before.drop_last() =~= cutup);
        if is_whitespace(all[i]) {
            let ghost held = texts(done@);
            let ghost last = piece@;
            if !piece.as_str().is_empty() {
                done.push(piece);
                assert(texts(done@) =~= held.push(last));
            }
            piece = String::new();
            proof {
                cutup = before;
            }
            assert(texts(done@) =~= filled(cutup));
        } else {
            piece.push(all[i]);
        }
        i = i + 1;
        assert(cutup.push(piece@) =~= gaps(s@.take(i as int)));
    }
    assert(s@.take(s@.len() as int) =~= s@);
    let ghost before = cutup.push(piece@);
    assert(before.drop_last() =~= cutup);
    let ghost held = texts(done@);
    let ghost last = piece@;
    if !piece.as_str().is_empty() {
        done.push(piece);
        assert(texts(done@) =~= held.push(last));
    }
    assert(texts(done@) =~= filled(before));
    done
}

/// The pieces of a list with `mark` between them.
pub open spec fn joined(list: Seq<Seq<char>>, mark: Seq<char>) -> Seq<char>
    decreases list.len(),
{
    if list.len() == 0 {
        Seq::empty()
    } else if list.len() == 1 {
        list[0]
    } else {
        joined(list.drop_last(), mark) + mark + list.last()
    }
}

pub fn join(list: &Vec<String>, mark: &str) -> (s: String)
    ensures
        s@ == joined(texts(list@), mark@),
{
    let mut s: String = String::new();
    let mut i: usize = 0;
    assert(texts(list@).take(0) =~= Seq::<Seq<char>>::empty());
    while i < list.len()
        invariant
            i <= list@.len(),
            s@ == joined(texts(list@).take(i as int), mark@),
        decreases list@.len() - i,
    {
        assert(texts(list@).take(i + 1).drop_last() =~= texts(list@).take(i as int));
        if i > 0 {
            s.append(mark);
        }
        s.append(list[i].as_str());
        i = i + 1;
        assert(s@ =~= joined(texts(list@).take(i as int), mark@));
    }
    assert(texts(list@).take(list@.len() as int) =~= texts(list@));
    s
}

/// An ASCII capital as its small letter, any other character as it is.
pub open spec fn small(c: char) -> char {
    if 'A' <= c <= 'Z' {
        (c as u8 + 32) as char
    } else {
        c
    }
}

/// A text with its ASCII capitals as small letters.
pub open spec fn ascii_lower(s: Seq<char>) -> Seq<char> {
    s.map_values(|c: char| small(c))
}

pub fn to_ascii_lowercase(s: &str) -> (t: String)
    ensures
        t@ == ascii_lower(s@),
{
    let list = chars_of(s);
    let mut t: String = String::new();
    let mut i: usize = 0;
    while i < list.len()
        invariant
            i <= list@.len(),
            list@ == s@,
            t@ == ascii_lower(s@.take(i as int)),
        decreases list@.len() - i,
    {
        let c: char = list[i];
        if 'A' <= c && c <= 'Z' {
            t.push(((c as u8) + 32u8) as char);
        } else {
            t.push(c);
        }
        i = i + 1;
        assert(t@ =~= ascii_lower(s@.take(i as int)));
    }
    assert(s@.take(s@.len() as int) =~= s@);
    t
}

pub fn eq_ignore_ascii_case(a: &str, b: &str) -> (same: bool)
    ensures
        same == (ascii_lower(a@) == ascii_lower(b@)),
{
    str_eq(to_ascii_lowercase(a).as_str(), to_ascii_lowercase(b).as_str())
}

/// An ASCII small letter as its capital, any other character as it is.
pub open spec fn capital(c: char) -> char {
    if 'a' <= c <= 'z' {
        (c as u8 - 32) as char
    } else {
        c
    }
}

/// Each character of a text is an ASCII character.
pub open spec fn all_ascii(s: Seq<char>) -> bool {
    forall|i: int| 0 <= i < s.len() ==> #[trigger] s[i] < '\u{80}'
}

/// What `str::to_lowercase` makes of a text that is not all ASCII.
pub uninterp spec fn unicode_lower(s: Seq<char>) -> Seq<char>;

/// A text in lower case.
pub open spec fn lowered(s: Seq<char>) -> Seq<char> {
    if all_ascii(s) {
        ascii_lower(s)
    } else {
        unicode_lower(s)
    }
}

/// `str::to_lowercase`: an ASCII text gets its capitals as small letters; what another text
/// becomes depends on the text alone.
#[verifier::external_body]
pub(crate) fn to_lowercase(s: &str) -> (t: String)
    ensures
        all_ascii(s@) ==> t@ == ascii_lower(s@),
        !all_ascii(s@) ==> t@ == unicode_lower(s@),
{
    s.to_lowercase()
}

/// What `str::to_uppercase` makes of a text that is not all ASCII.
pub uninterp spec fn unicode_upper(s: Seq<char>) -> Seq<char>;

/// A text in upper case.
pub open spec fn raised(s: Seq<char>) -> Seq<char> {
    if all_ascii(s) {
        s.map_values(|c: char| capital(c))
    } else {
        unicode_upper(s)
    }
}

/// `str::to_uppercase`: an ASCII text gets its small letters as capitals; what another text
/// becomes depends on the text alone.
#[verifier::external_body]
pub(crate) fn to_uppercase(s: &str) -> (t: String)
    ensures
        all_ascii(s@) ==> t@ == s@.map_values(|c: char| capital(c)),
        !all_ascii(s@) ==> t@ == unicode_upper(s@),
{
    s.to_uppercase()
}

/// One text after another.
pub fn cat2(a: &str, b: &str) -> (s: String)
    ensures
        s@ == a@ + b@,
{
    let mut s: String = a.to_owned();
    s.append(b);
    s
}

/// Three texts, one after another.
pub fn cat3(a: &str, b: &str, c: &str) -> (s: String)
    ensures
        s@ == a@ + b@ + c@,
{
    let mut s: String = a.to_owned();
    s.append(b);
    s.append(c);
    s
}

/// Four texts, one after another.
pub fn cat4(a: &str, b: &str, c: &str, d: &str) -> (s: String)
    ensures
        s@ == a@ + b@ + c@ + d@,
{
    let mut s: String = a.to_owned();
    s.append(b);
    s.append(c);
    s.append(d);
    s
}

/// Five texts, one after another.
pub fn cat5(a: &str, b: &str, c: &str, d: &str, e: &str) -> (s: String)
    ensures
        s@ == a@ + b@ + c@ + d@ + e@,
{
    let mut s: String = a.to_owned();
    s.append(b);
    s.append(c);
    s.append(d);
    s.append(e);
    s
}

/// The digit for a number below ten.
pub open spec fn digit(n: nat) -> char {
    ((48 + n) as u8) as char
}

/// A number in decimal digits.
pub open spec fn decimal(n: nat) -> Seq<char>
    decreases n,
{
    if n < 10 {
        seq![digit(n)]
    } else {
        decimal(n / 10).push(digit(n % 10))
    }
}

pub fn u64_text(n: u64) -> (s: String)
    ensures
        s@ == decimal(n as nat),
    decreases n,
{
    if n < 10 {
        let mut s: String = String::new();
        s.push((48u8 + (n as u8)) as char);
        assert(s@ =~= decimal(n as nat));
        s
    } else {
        let mut s: String = u64_text(n / 10);
        s.push((48u8 + ((n % 10) as u8)) as char);
        s
    }
}

pub fn usize_text(n: usize) -> (s: String)
    ensures
        s@ == decimal(n as nat),
{
    u64_text(n as u64)
}

/// A signed number in decimal digits.
pub open spec fn signed_decimal(n: int) -> Seq<char> {
    if n < 0 {
        "-"@ + decimal((-n) as nat)
    } else {
        decimal(n as nat)
    }
}

pub fn i64_text(n: i64) -> (s: String)
    ensures
        s@ == signed_decimal(n as int),
{
    if n == i64::MIN {
        cat2("-", u64_text(9_223_372_036_854_775_808u64).as_str())
    } else if n < 0 {
        cat2("-", u64_text((-n) as u64).as_str())
    } else {
        u64_text(n as u64)
    }
}

/// The first position at or after `i` that holds another character than `c`.
pub open spec fn skip_char(s: Seq<char>, c: char, i: int) -> int
    decreases s.len() - i,
{
    if 0 <= i < s.len() && s[i] == c {
        skip_char(s, c, i + 1)
    } else {
        i
    }
}

/// The end of `s[from..to]` once each `c` at its end is gone.
pub open spec fn drop_char(s: Seq<char>, c: char, from: int, to: int) -> int
    decreases to - from,
{
    if from < to && s[to - 1] == c {
        drop_char(s, c, from, to - 1)
    } else {
        to
    }
}

/// A text without each `c` at its start.
pub open spec fn without_leading(s: Seq<char>, c: char) -> Seq<char> {
    s.skip(skip_char(s, c, 0))
}

/// A text without each `c` at its end.
pub open spec fn without_trailing(s: Seq<char>, c: char) -> Seq<char> {
    s.take(drop_char(s, c, 0, s.len() as int))
}

pub fn trim_start_char(s: &str, c: char) -> (t: String)
    ensures
        t@ == without_leading(s@, c),
{
    let list = chars_of(s);
    let mut from: usize = 0;
    while from < list.len() && list[from] == c
        invariant
            from <= list@.len(),
            skip_char(list@, c, 0) == skip_char(list@, c, from as int),
        decreases list@.len() - from,
    {
        from = from + 1;
    }
    let n: usize = list.len();
    let t = string_of(&list, from, n);
    assert(t@ =~= without_leading(s@, c));
    t
}

pub fn trim_end_char(s: &str, c: char) -> (t: String)
    ensures
        t@ == without_trailing(s@, c),
{
    let list = chars_of(s);
    let mut to: usize = list.len();
    while 0 < to && list[to - 1] == c
        invariant
            to <= list@.len(),
            drop_char(list@, c, 0, list@.len() as int) == drop_char(list@, c, 0, to as int),
        decreases to,
    {
        to = to - 1;
    }
    let t = string_of(&list, 0, to);
    assert(t@ =~= without_trailing(s@, c));
    t
}

/// A text with `new` in place of each `old_char`.
pub open spec fn replaced(s: Seq<char>, old_char: char, new: Seq<char>) -> Seq<char>
    decreases s.len(),
{
    if s.len() == 0 {
        s
    } else if s.last() == old_char {
        replaced(s.drop_last(), old_char, new) + new
    } else {
        replaced(s.drop_last(), old_char, new).push(s.last())
    }
}

pub fn replace(s: &str, old_char: char, new: &str) -> (t: String)
    ensures
        t@ == replaced(s@, old_char, new@),
{
    let list = chars_of(s);
    let mut t: String = String::new();
    let mut i: usize = 0;
    assert(s@.take(0) =~= Seq::<char>::empty());
    while i < list.len()
        invariant
            i <= list@.len(),
            list@ == s@,
            t@ == replaced(s@.take(i as int), old_char, new@),
        decreases list@.len() - i,
    {
        assert(s@.take(i + 1).drop_last() =~= s@.take(i as int));
        if list[i] == old_char {
            t.append(new);
        } else {
            t.push(list[i]);
        }
        i = i + 1;
    }
    assert(s@.take(s@.len() as int) =~= s@);
    t
}

/// A line without the carriage return at its end.
pub open spec fn line_text(s: Seq<char>) -> Seq<char> {
    if s.len() > 0 && s.last() == '\r' {
        s.drop_last()
    } else {
        s
    }
}

/// The lines of a text: each ends at a line feed, which may follow a carriage return, and
/// nothing after the last line feed is no line.
pub open spec fn line_list(s: Seq<char>) -> Seq<Seq<char>> {
    let cuts = pieces(s, '\n');
    let ended = cuts.drop_last().map_values(|line: Seq<char>| line_text(line));
    if cuts.last().len() == 0 {
        ended
    } else {
        ended.push(cuts.last())
    }
}

pub fn lines(s: &str) -> (list: Vec<String>)
    ensures
        texts(list@) == line_list(s@),
{
    let cuts = split(s, '\n');
    let last: usize = cuts.len() - 1;
    let mut list: Vec<String> = Vec::new();
    let mut i: usize = 0;
    assert(texts(cuts@).last() == cuts@[last as int]@);
    while i < last
        invariant
            i <= last,
            last == cuts@.len() - 1,
            list@.len() == i,
            forall|j: int| 0 <= j < i ==> #[trigger] list@[j]@ == line_text(cuts@[j]@),
        decreases last - i,
    {
        let all = chars_of(cuts[i].as_str());
        let n: usize = all.len();
        if n > 0 && all[n - 1] == '\r' {
            let line = string_of(&all, 0, n - 1);
            assert(line@ =~= line_text(cuts@[i as int]@));
            list.push(line);
        } else {
            list.push(cuts[i].clone());
        }
        i = i + 1;
    }
    assert(texts(list@) =~= pieces(s@, '\n').drop_last().map_values(|line: Seq<char>| line_text(line)));
    if !cuts[last].as_str().is_empty() {
        let ghost ended = texts(list@);
        list.push(cuts[last].clone());
        assert(texts(list@) =~= ended.push(cuts@[last as int]@));
    }
    list
}

/// A copy of a list of strings.
pub fn copy_texts(list: &Vec<String>) -> (copy: Vec<String>)
    ensures
        texts(copy@) == texts(list@),
{
    let mut copy: Vec<String> = Vec::new();
    let mut i: usize = 0;
    while i < list.len()
        invariant
            i <= list@.len(),
            copy@.len() == i,
            forall|j: int| 0 <= j < i ==> copy@[j] == #[trigger] list@[j],
        decreases list@.len() - i,
    {
        copy.push(list[i].clone());
        i = i + 1;
    }
    assert(texts(copy@) =~= texts(list@));
    copy
}

/// A copy of an optional string.
pub fn copy_opt(value: &Option<String>) -> (copy: Option<String>)
    ensures
        opt_text(copy) == opt_text(*value),
{
    match value {
        Some(s) => Some(s.clone()),
        None => None,
    }
}

/// Adds one string at the end of a list.
pub fn push_text(list: &mut Vec<String>, s: String)
    ensures
        texts(final(list)@) == texts(old(list)@).push(s@),
{
    let ghost before = texts(list@);
    list.push(s);
    assert(texts(list@) =~= before.push(s@));
}

/// The list that holds no string.
pub fn no_texts() -> (list: Vec<String>)
    ensures
        texts(list@) == Seq::<Seq<char>>::empty(),
{
    let list: Vec<String> = Vec::new();
    assert(texts(list@) =~= Seq::<Seq<char>>::empty());
    list
}

/// The list of one string.
pub fn one_text(a: &str) -> (list: Vec<String>)
    ensures
        texts(list@) == seq![a@],
{
    let mut list: Vec<String> = Vec::new();
    list.push(a.to_owned());
    assert(texts(list@) =~= seq![a@]);
    list
}

/// The list of two strings.
pub fn two_texts(a: &str, b: &str) -> (list: Vec<String>)
    ensures
        texts(list@) == seq![a@, b@],
{
    let mut list: Vec<String> = Vec::new();
    list.push(a.to_owned());
    list.push(b.to_owned());
    assert(texts(list@) =~= seq![a@, b@]);
    list
}

/// The list of three strings.
pub fn three_texts(a: &str, b: &str, c: &str) -> (list: Vec<String>)
    ensures
        texts(list@) == seq![a@, b@, c@],
{
    let mut list: Vec<String> = Vec::new();
    list.push(a.to_owned());
    list.push(b.to_owned());
    list.push(c.to_owned());
    assert(texts(list@) =~= seq![a@, b@, c@]);
    list
}

/// Whether a text is one of a list.
pub fn is_among(list: &Vec<String>, s: &str) -> (yes: bool)
    ensures
        yes == texts(list@).contains(s@),
{
    let mut i: usize = 0;
    while i < list.len()
        invariant
            i <= list@.len(),
            forall|j: int| 0 <= j < i ==> #[trigger] texts(list@)[j] != s@,
        decreases list@.len() - i,
    {
        if str_eq(list[i].as_str(), s) {
            assert(texts(list@)[i as int] == s@);
            return true;
        }
        i = i + 1;
    }
    false
}

/// The value of an optional string, or `fallback`.
pub open spec fn text_or(value: Option<String>, fallback: Seq<char>) -> Seq<char> {
    match value {
        Some(s) => s@,
        None => fallback,
    }
}

pub fn unwrap_text(value: &Option<String>, fallback: &str) -> (s: String)
    ensures
        s@ == text_or(*value, fallback@),
{
    match value {
        Some(s) => s.clone(),
        None => fallback.to_owned(),
    }
}

/// The first of two optional texts that is there.
pub open spec fn either(a: Option<Seq<char>>, b: Option<Seq<char>>) -> Option<Seq<char>> {
    match a {
        Some(s) => Some(s),
        None => b,
    }
}

pub fn or_text(a: &Option<String>, b: &Option<String>) -> (s: Option<String>)
    ensures
        opt_text(s) == either(opt_text(*a), opt_text(*b)),
{
    match a {
        Some(s) => Some(s.clone()),
        None => copy_opt(b),
    }
}

/// Adds the strings of a second list at the end of a list.
pub fn extend_texts(list: &mut Vec<String>, more: &Vec<String>)
    ensures
        texts(final(list)@) == texts(old(list)@) + texts(more@),
{
    let ghost before = texts(list@);
    let mut i: usize = 0;
    assert(before + texts(more@).take(0) =~= before);
    while i < more.len()
        invariant
            i <= more@.len(),
            texts(list@) == before + texts(more@).take(i as int),
        decreases more@.len() - i,
    {
        push_text(list, more[i].clone());
        i = i + 1;
        assert(texts(list@) =~= before + texts(more@).take(i as int));
    }
    assert(texts(more@).take(more@.len() as int) =~= texts(more@));
}

/// Each text of a list with `prefix` before it.
pub open spec fn prefixed(prefix: Seq<char>, list: Seq<Seq<char>>) -> Seq<Seq<char>> {
    list.map_values(|s: Seq<char>| prefix + s)
}

pub fn prefix_all(prefix: &str, list: &Vec<String>) -> (all: Vec<String>)
    ensures
        texts(all@) == prefixed(prefix@, texts(list@)),
{
    let mut all: Vec<String> = Vec::new();
    let mut i: usize = 0;
    while i < list.len()
        invariant
            i <= list@.len(),
            all@.len() == i,
            forall|j: int| 0 <= j < i ==> (#[trigger] all@[j])@ == prefix@ + list@[j]@,
        decreases list@.len() - i,
    {
        all.push(cat2(prefix, list[i].as_str()));
        i = i + 1;
    }
    assert(texts(all@) =~= prefixed(prefix@, texts(list@)));
    all
}

/// A result with its error as a text.
pub open spec fn by_text<T>(result: Result<T, String>) -> Result<T, Seq<char>> {
    match result {
        Ok(value) => Ok(value),
        Err(error) => Err(error@),
    }
}

/// The texts behind a list of string slices.
pub open spec fn slices(list: Seq<&str>) -> Seq<Seq<char>> {
    list.map_values(|s: &str| s@)
}

/// Whether a text is one of a list.
pub fn is_one_of(list: &[&str], s: &str) -> (yes: bool)
    ensures
        yes == slices(list@).contains(s@),
{
    let mut i: usize = 0;
    while i < list.len()
        invariant
            i <= list@.len(),
            forall|j: int| 0 <= j < i ==> #[trigger] slices(list@)[j] != s@,
        decreases list@.len() - i,
    {
        if str_eq(list[i], s) {
            assert(slices(list@)[i as int] == s@);
            return true;
        }
        i = i + 1;
    }
    false
}

/// The first `n` characters of a text, or all of it where there are fewer.
pub open spec fn shortened(s: Seq<char>, n: int) -> Seq<char> {
    if s.len() <= n {
        s
    } else {
        s.take(n)
    }
}

pub fn shorten(s: &str, n: usize) -> (t: String)
    ensures
        t@ == shortened(s@, n as int),
{
    let list = chars_of(s);
    let to: usize = if list.len() <= n {
        list.len()
    } else {
        n
    };
    let t = string_of(&list, 0, to);
    assert(t@ =~= shortened(s@, n as int));
    t
}

/// A single or a double quote.
pub open spec fn quote(c: char) -> bool {
    c == '"' || c == '\''
}

/// The first position at or after `i` that holds no quote.
pub open spec fn skip_quotes(s: Seq<char>, i: int) -> int
    decreases s.len() - i,
{
    if 0 <= i < s.len() && quote(s[i]) {
        skip_quotes(s, i + 1)
    } else {
        i
    }
}

/// The end of `s[from..to]` once the quotes at its end are gone.
pub open spec fn drop_quotes(s: Seq<char>, from: int, to: int) -> int
    decreases to - from,
{
    if from < to && quote(s[to - 1]) {
        drop_quotes(s, from, to - 1)
    } else {
        to
    }
}

/// A text without the quotes at either end.
pub open spec fn without_quotes(s: Seq<char>) -> Seq<char> {
    let from = skip_quotes(s, 0);
    s.subrange(from, drop_quotes(s, from, s.len() as int))
}

pub fn trim_quotes(s: &str) -> (t: String)
    ensures
        t@ == without_quotes(s@),
{
    let list = chars_of(s);
    let mut from: usize = 0;
    while from < list.len() && (list[from] == '"' || list[from] == '\'')
        invariant
            from <= list@.len(),
            skip_quotes(list@, 0) == skip_quotes(list@, from as int),
        decreases list@.len() - from,
    {
        from = from + 1;
    }
    let mut to: usize = list.len();
    while from < to && (list[to - 1] == '"' || list[to - 1] == '\'')
        invariant
            from <= to <= list@.len(),
            drop_quotes(list@, from as int, list@.len() as int) == drop_quotes(
                list@,
                from as int,
                to as int,
            ),
        decreases to,
    {
        to = to - 1;
    }
    string_of(&list, from, to)
}

/// The number that a row of digits writes.
pub open spec fn digits_value(s: Seq<char>) -> int
    decreases s.len(),
{
    if s.len() == 0 {
        0
    } else {
        digits_value(s.drop_last()) * 10 + (s.last() as int - 48)
    }
}

/// Whether a text is made of decimal digits.
pub open spec fn all_digits(s: Seq<char>) -> bool {
    forall|k: int| 0 <= k < s.len() ==> '0' <= #[trigger] s[k] <= '9'
}

/// A number that is written in decimal digits reads back as that number.
pub proof fn lemma_decimal_digits(n: nat)
    ensures
        decimal(n).len() > 0,
        all_digits(decimal(n)),
        digits_value(decimal(n)) == n,
    decreases n,
{
    reveal_with_fuel(digits_value, 2);
    if n < 10 {
        assert(decimal(n).drop_last() =~= Seq::<char>::empty());
    } else {
        lemma_decimal_digits(n / 10);
        assert(decimal(n).drop_last() =~= decimal(n / 10));
    }
}

proof fn lemma_digits_grow(s: Seq<char>, k: int)
    requires
        all_digits(s),
        0 <= k <= s.len(),
    ensures
        0 <= digits_value(s.take(k)) <= digits_value(s),
    decreases s.len(),
{
    if k == s.len() {
        assert(s.take(k) =~= s);
        if k > 0 {
            assert(s.drop_last().take(k - 1) =~= s.drop_last());
            lemma_digits_grow(s.drop_last(), k - 1);
        }
    } else {
        assert(s.drop_last().take(k) =~= s.take(k));
        lemma_digits_grow(s.drop_last(), k);
    }
}

/// No two numbers are written alike.
pub proof fn lemma_signed_decimal_unique(a: int, b: int)
    requires
        signed_decimal(a) == signed_decimal(b),
    ensures
        a == b,
{
    reveal_strlit("-");
    if a < 0 {
        lemma_decimal_digits((-a) as nat);
    } else {
        lemma_decimal_digits(a as nat);
    }
    if b < 0 {
        lemma_decimal_digits((-b) as nat);
    } else {
        lemma_decimal_digits(b as nat);
    }
    if a < 0 && b < 0 {
        assert(decimal((-a) as nat) =~= ("-"@ + decimal((-a) as nat)).skip(1));
        assert(decimal((-b) as nat) =~= ("-"@ + decimal((-b) as nat)).skip(1));
    } else if a < 0 {
        assert(signed_decimal(a)[0] == '-');
        assert('0' <= signed_decimal(b)[0]);
    } else if b < 0 {
        assert(signed_decimal(b)[0] == '-');
        assert('0' <= signed_decimal(a)[0]);
    }
}

/// The number that `decimal` writes as `s`.
pub fn parse_decimal(s: &str) -> (n: Option<u64>)
    ensures
        match n {
            Some(value) => s@ == decimal(value as nat),
            None => forall|value: u64| s@ != #[trigger] decimal(value as nat),
        },
{
    let list = chars_of(s);
    let mut value: u64 = 0;
    let mut i: usize = 0;
    while i < list.len()
        invariant
            i <= list@.len(),
            list@ == s@,
            all_digits(list@.take(i as int)),
            value == digits_value(list@.take(i as int)),
        decreases list@.len() - i,
    {
        if list[i] < '0' || list[i] > '9' {
            assert forall|number: u64| s@ != #[trigger] decimal(number as nat) by {
                lemma_decimal_digits(number as nat);
                if s@ == decimal(number as nat) {
                    assert(all_digits(s@));
                    assert('0' <= s@[i as int] <= '9');
                }
            }
            return None;
        }
        let d: u64 = (list[i] as u32 - 48) as u64;
        assert(list@.take(i + 1).drop_last() =~= list@.take(i as int));
        assert(digits_value(list@.take(i + 1)) == value * 10 + d);
        assert(all_digits(list@.take(i + 1))) by {
            assert forall|k: int| 0 <= k < i + 1 implies '0' <= #[trigger] list@.take(i + 1)[k]
                <= '9' by {
                if k < i {
                    assert(list@.take(i as int)[k] == list@.take(i + 1)[k]);
                }
            }
        }
        if value > (u64::MAX - d) / 10 {
            assert forall|number: u64| s@ != #[trigger] decimal(number as nat) by {
                lemma_decimal_digits(number as nat);
                if s@ == decimal(number as nat) {
                    lemma_digits_grow(s@, i + 1);
                }
            }
            return None;
        }
        value = value * 10 + d;
        i = i + 1;
    }
    assert(list@.take(list@.len() as int) =~= list@);
    if str_eq(u64_text(value).as_str(), s) {
        Some(value)
    } else {
        assert forall|number: u64| s@ != #[trigger] decimal(number as nat) by {
            lemma_decimal_digits(number as nat);
        }
        None
    }
}

/// The number that `signed_decimal` writes as `s`.
pub fn parse_signed(s: &str) -> (n: Option<i64>)
    ensures
        match n {
            Some(value) => s@ == signed_decimal(value as int),
            None => forall|value: i64| s@ != #[trigger] signed_decimal(value as int),
        },
{
    proof {
        reveal_strlit("-");
    }
    match strip_prefix(s, "-") {
        Some(rest) => {
            assert(s@ =~= "-"@ + rest@);
            match parse_decimal(rest.as_str()) {
                Some(value) if 0 < value && value <= 9_223_372_036_854_775_808u64 => {
                    if value == 9_223_372_036_854_775_808u64 {
                        Some(i64::MIN)
                    } else {
                        Some(-(value as i64))
                    }
                },
                other => {
                    proof {
                        if other is Some {
                            lemma_decimal_digits(other->0 as nat);
                        }
                    }
                    assert forall|number: i64| s@ != #[trigger] signed_decimal(number as int) by {
                        if s@ == signed_decimal(number as int) {
                            if number < 0 {
                                let size = (-(number as int)) as nat;
                                assert(decimal(size) =~= (("-"@ + decimal(size)).skip(1)));
                                assert(rest@ =~= ("-"@ + rest@).skip(1));
                                assert(decimal((size as u64) as nat) == rest@);
                                lemma_decimal_digits(size);
                            } else {
                                lemma_decimal_digits(number as nat);
                                assert(s@[0] == '-');
                            }
                        }
                    }
                    None
                },
            }
        },
        None => match parse_decimal(s) {
            Some(value) if value <= 9_223_372_036_854_775_807u64 => Some(value as i64),
            other => {
                proof {
                    if other is Some {
                        lemma_decimal_digits(other->0 as nat);
                    }
                }
                assert forall|number: i64| s@ != #[trigger] signed_decimal(number as int) by {
                    if s@ == signed_decimal(number as int) {
                        if number < 0 {
                            assert(begins(s@, "-"@)) by {
                                assert(s@[0] == '-');
                                assert(s@.subrange(0, 1) =~= "-"@);
                            }
                        } else {
                            assert(s@ == decimal((number as u64) as nat));
                            lemma_decimal_digits(number as nat);
                        }
                    }
                }
                None
            },
        },
    }
}

/// A text that is more than white space.
pub open spec fn filled_text(value: Option<Seq<char>>) -> Option<Seq<char>> {
    match value {
        Some(text) => if trimmed(text).len() > 0 {
            Some(text)
        } else {
            None
        },
        None => None,
    }
}

pub fn keep_filled(value: &Option<String>) -> (kept: Option<String>)
    ensures
        opt_text(kept) == filled_text(opt_text(*value)),
{
    match value {
        Some(text) => if trim(text.as_str()).as_str().is_empty() {
            None
        } else {
            Some(text.clone())
        },
        None => None,
    }
}

/// A text without the white space around it, where anything is left of it.
pub open spec fn bare_text(value: Option<Seq<char>>) -> Option<Seq<char>> {
    match value {
        Some(text) => if trimmed(text).len() > 0 {
            Some(trimmed(text))
        } else {
            None
        },
        None => None,
    }
}

pub fn keep_bare(value: &Option<String>) -> (kept: Option<String>)
    ensures
        opt_text(kept) == bare_text(opt_text(*value)),
{
    match value {
        Some(text) => {
            let bare = trim(text.as_str());
            if bare.as_str().is_empty() {
                None
            } else {
                Some(bare)
            }
        },
        None => None,
    }
}

/// The first `n` of the texts without the white space around them, as far as anything is left of
/// them.
pub open spec fn bare_upto(list: Seq<Seq<char>>, n: int) -> Seq<Seq<char>>
    decreases n,
{
    if n <= 0 {
        Seq::empty()
    } else if trimmed(list[n - 1]).len() > 0 {
        bare_upto(list, n - 1).push(trimmed(list[n - 1]))
    } else {
        bare_upto(list, n - 1)
    }
}

/// The items of a list with commas between them.
pub open spec fn comma_items(s: Seq<char>) -> Seq<Seq<char>> {
    bare_upto(pieces(s, ','), pieces(s, ',').len() as int)
}

pub fn split_commas(s: &str) -> (items: Vec<String>)
    ensures
        texts(items@) == comma_items(s@),
{
    let list = split(s, ',');
    let mut items = no_texts();
    let mut i: usize = 0;
    while i < list.len()
        invariant
            i <= list@.len(),
            texts(items@) == bare_upto(texts(list@), i as int),
        decreases list@.len() - i,
    {
        assert(texts(list@)[i as int] == list@[i as int]@);
        let item = trim(list[i].as_str());
        if !item.as_str().is_empty() {
            push_text(&mut items, item);
        }
        i = i + 1;
    }
    items
}

/// Whether one of the texts holds `needle`.
pub open spec fn some_hold(list: Seq<Seq<char>>, needle: Seq<char>) -> bool {
    exists|k: int| 0 <= k < list.len() && holds(#[trigger] list[k], needle)
}

pub fn any_holds(list: &Vec<String>, needle: &str) -> (yes: bool)
    ensures
        yes == some_hold(texts(list@), needle@),
{
    let mut i: usize = 0;
    while i < list.len()
        invariant
            i <= list@.len(),
            forall|k: int| 0 <= k < i ==> !holds(#[trigger] texts(list@)[k], needle@),
        decreases list@.len() - i,
    {
        if contains(list[i].as_str(), needle) {
            assert(holds(texts(list@)[i as int], needle@));
            return true;
        }
        i = i + 1;
    }
    false
}

/// A text, or what stands in for it.
pub open spec fn text_else(value: Option<Seq<char>>, fallback: Seq<char>) -> Seq<char> {
    match value {
        Some(text) => text,
        None => fallback,
    }
}

/// The first of two texts that is there, or what stands in for both.
pub fn first_text(a: &Option<String>, b: &Option<String>, fallback: &str) -> (s: String)
    ensures
        s@ == text_else(either(opt_text(*a), opt_text(*b)), fallback@),
{
    unwrap_text(&or_text(a, b), fallback)
}

/// Whether an optional flag is set.
pub open spec fn is_set(flag: Option<bool>) -> bool {
    flag == Some(true)
}

pub fn flag_set(flag: Option<bool>) -> (yes: bool)
    ensures
        yes == is_set(flag),
{
    match flag {
        Some(value) => value,
        None => false,
    }
}

/// The number of bytes of a character in UTF-8.
pub open spec fn char_width(c: char) -> int {
    if '\u{80}' > c {
        1
    } else if '\u{800}' > c {
        2
    } else if '\u{10000}' > c {
        3
    } else {
        4
    }
}

fn width_of_char(c: char) -> (n: u128)
    ensures
        n == char_width(c),
{
    if '\u{80}' > c {
        1
    } else if '\u{800}' > c {
        2
    } else if '\u{10000}' > c {
        3
    } else {
        4
    }
}

/// The number of bytes of the first `n` characters of a text in UTF-8.
pub open spec fn width_upto(s: Seq<char>, n: int) -> int
    decreases n,
{
    if n <= 0 {
        0
    } else {
        width_upto(s, n - 1) + char_width(s[n - 1])
    }
}

/// Counts the bytes of the first characters of a text.
pub fn byte_width(s: &str, to: usize) -> (n: u128)
    requires
        to <= s@.len(),
    ensures
        n == width_upto(s@, to as int),
        n <= 4 * to,
{
    let list = chars_of(s);
    let mut n: u128 = 0;
    let mut i: usize = 0;
    while i < to
        invariant
            i <= to <= list@.len(),
            list@ == s@,
            n == width_upto(s@, i as int),
            n <= 4 * i,
        decreases to - i,
    {
        n = n + width_of_char(list[i]);
        i = i + 1;
    }
    n
}

/// The position that is `bytes` bytes behind position `i` of a text, where a character begins or
/// the text ends there.
pub open spec fn at_byte(s: Seq<char>, bytes: int, i: int) -> Option<int>
    decreases s.len() - i,
{
    if bytes == 0 {
        Some(i)
    } else if i < 0 || i >= s.len() || char_width(s[i]) > bytes {
        None
    } else {
        at_byte(s, bytes - char_width(s[i]), i + 1)
    }
}

/// Finds the position that is a number of bytes behind the start of a text.
pub fn find_byte(s: &str, bytes: u128) -> (at: Option<usize>)
    ensures
        match at {
            Some(i) => at_byte(s@, bytes as int, 0) == Some(i as int) && i <= s@.len(),
            None => at_byte(s@, bytes as int, 0) is None,
        },
{
    let list = chars_of(s);
    let mut left: u128 = bytes;
    let mut i: usize = 0;
    while left > 0
        invariant
            i <= list@.len(),
            list@ == s@,
            at_byte(s@, left as int, i as int) == at_byte(s@, bytes as int, 0),
        decreases left,
    {
        if i >= list.len() {
            return None;
        }
        let n: u128 = width_of_char(list[i]);
        if n > left {
            return None;
        }
        left = left - n;
        i = i + 1;
    }
    Some(i)
}

/// A text without the mark is one piece, and a text made of two with the mark between them has the
/// pieces of the first and then those of the second.
pub proof fn lemma_pieces_of_parts(a: Seq<char>, b: Seq<char>, mark: char)
    ensures
        !a.contains(mark) ==> pieces(a, mark) == seq![a],
        pieces(a + seq![mark] + b, mark) == pieces(a, mark) + pieces(b, mark),
    decreases a.len() + b.len(),
{
    lemma_pieces_some(a, mark);
    lemma_pieces_some(b, mark);
    if !a.contains(mark) {
        lemma_unmarked(a, mark);
    }
    let whole = a + seq![mark] + b;
    if b.len() == 0 {
        assert(whole.drop_last() =~= a);
        assert(whole.last() == mark);
        assert(pieces(b, mark) =~= seq![Seq::<char>::empty()]);
        assert(pieces(whole, mark) =~= pieces(a, mark) + pieces(b, mark));
    } else {
        let shorter = b.drop_last();
        lemma_pieces_of_parts(a, shorter, mark);
        lemma_pieces_some(shorter, mark);
        assert(whole.drop_last() =~= a + seq![mark] + shorter);
        assert(whole.last() == b.last());
        let head = pieces(a, mark) + pieces(shorter, mark);
        assert(head.last() == pieces(shorter, mark).last());
        if b.last() == mark {
            assert(pieces(whole, mark) =~= pieces(a, mark) + pieces(b, mark));
        } else {
            assert(head.drop_last() =~= pieces(a, mark) + pieces(shorter, mark).drop_last());
            assert(pieces(whole, mark) =~= pieces(a, mark) + pieces(b, mark));
        }
    }
}

proof fn lemma_unmarked(s: Seq<char>, mark: char)
    requires
        !s.contains(mark),
    ensures
        pieces(s, mark) == seq![s],
    decreases s.len(),
{
    if s.len() > 0 {
        let rest = s.drop_last();
        if rest.contains(mark) {
            let k = choose|k: int| 0 <= k < rest.len() && rest[k] == mark;
            assert(s[k] == mark);
        }
        lemma_unmarked(rest, mark);
        assert(s.contains(s.last()));
        assert(pieces(s, mark) =~= seq![rest.push(s.last())]);
        assert(rest.push(s.last()) =~= s);
    } else {
        assert(s =~= Seq::<char>::empty());
    }
}

proof fn lemma_skip_whitespace(s: Seq<char>, i: int)
    requires
        0 <= i <= s.len(),
    ensures
        i <= skip_whitespace(s, i) <= s.len(),
        forall|j: int| i <= j < skip_whitespace(s, i) ==> whitespace(#[trigger] s[j]),
        skip_whitespace(s, i) < s.len() ==> !whitespace(s[skip_whitespace(s, i)]),
    decreases s.len() - i,
{
    if i < s.len() && whitespace(s[i]) {
        lemma_skip_whitespace(s, i + 1);
    }
}

proof fn lemma_drop_whitespace(s: Seq<char>, from: int, to: int)
    requires
        0 <= from <= to <= s.len(),
    ensures
        from <= drop_whitespace(s, from, to) <= to,
        forall|j: int| drop_whitespace(s, from, to) <= j < to ==> whitespace(#[trigger] s[j]),
        drop_whitespace(s, from, to) > from ==> !whitespace(s[drop_whitespace(s, from, to) - 1]),
    decreases to - from,
{
    if from < to && whitespace(s[to - 1]) {
        lemma_drop_whitespace(s, from, to - 1);
    }
}

/// Trimming takes white space away and nothing else: what is left begins and ends with something else,
/// and around it stood white space only. A text that begins and ends with something else stays as it is.
pub proof fn lemma_trimming_takes_white_space(s: Seq<char>)
    ensures
        exists|from: int, to: int|
            0 <= from <= to <= s.len() && trimmed(s) == #[trigger] s.subrange(from, to) && (forall|j: int|
                0 <= j < from || to <= j < s.len() ==> whitespace(#[trigger] s[j])),
        trimmed(s).len() > 0 ==> !whitespace(trimmed(s)[0]) && !whitespace(trimmed(s).last()),
        s.len() > 0 && !whitespace(s[0]) && !whitespace(s.last()) ==> trimmed(s) == s,
        (exists|j: int| 0 <= j < s.len() && !whitespace(#[trigger] s[j])) ==> trimmed(s).len() > 0,
{
    let from = skip_whitespace(s, 0);
    let to = drop_whitespace(s, from, s.len() as int);
    lemma_skip_whitespace(s, 0);
    lemma_drop_whitespace(s, from, s.len() as int);
    assert(trimmed(s) == s.subrange(from, to));
    assert forall|j: int| 0 <= j < from || to <= j < s.len() implies whitespace(#[trigger] s[j]) by {}
    if s.len() > 0 && !whitespace(s[0]) && !whitespace(s.last()) {
        assert(from == 0);
        assert(to == s.len());
        assert(trimmed(s) =~= s);
    }
}

/// A text is cut at the first mark in it: what stands before and what stands after make up the text
/// again, with the mark between them. A text without the mark is not cut.
pub proof fn lemma_texts_are_cut_at_the_first_mark(s: Seq<char>, mark: Seq<char>)
    ensures
        match cut(s, mark) {
            Some((before, after)) => s == before + mark + after && forall|j: int|
                0 <= j < before.len() ==> !#[trigger] stands_at(s, mark, j),
            None => !holds(s, mark),
        },
{
    lemma_first_at(s, mark, 0);
    match first_at(s, mark, 0) {
        Some(k) => {
            assert(s.take(k) + mark + s.skip(k + mark.len()) =~= s) by {
                assert(s.subrange(k, k + mark.len()) == mark);
                assert forall|j: int| k <= j < k + mark.len() implies s[j] == mark[j - k] by {
                    assert(s.subrange(k, k + mark.len())[j - k] == s[j]);
                }
            }
        },
        None => {},
    }
}

/// What precedes the first of a character and what follows it are what is put together again with it.
pub proof fn lemma_parts_are_cut(before: Seq<char>, mark: char, after: Seq<char>)
    requires
        !before.contains(mark),
    ensures
        cut(before + seq![mark] + after, seq![mark]) == Some((before, after)),
{
    let s = before + seq![mark] + after;
    let k = before.len() as int;
    lemma_first_at(s, seq![mark], 0);
    assert(s.subrange(k, k + 1) =~= seq![mark]);
    assert(stands_at(s, seq![mark], k));
    match first_at(s, seq![mark], 0) {
        Some(at) => {
            if at < k {
                assert(s.subrange(at, at + 1)[0] == s[at]);
                assert(before[at] == mark);
            }
            assert(s.take(k) =~= before);
            assert(s.skip(k + 1) =~= after);
        },
        None => {},
    }
}

/// The pieces of a text have no mark in them, and joined by the mark they make up the text again.
pub proof fn lemma_pieces_make_up_the_text(s: Seq<char>, mark: char)
    ensures
        joined(pieces(s, mark), seq![mark]) == s,
        forall|k: int| 0 <= k < pieces(s, mark).len() ==> !(#[trigger] pieces(s, mark)[k]).contains(mark),
    decreases s.len(),
{
    let list = pieces(s, mark);
    lemma_pieces_some(s, mark);
    if s.len() == 0 {
        assert(s =~= Seq::<char>::empty());
    } else {
        let rest = s.drop_last();
        let head = pieces(rest, mark);
        lemma_pieces_some(rest, mark);
        lemma_pieces_make_up_the_text(rest, mark);
        assert(rest.push(s.last()) =~= s);
        if s.last() == mark {
            assert(list == head.push(Seq::empty()));
            assert(list.drop_last() =~= head);
            assert(joined(list, seq![mark]) =~= s);
        } else {
            let tail = head.last().push(s.last());
            assert(list == head.drop_last().push(tail));
            assert(!head[head.len() - 1].contains(mark));
            if tail.contains(mark) {
                let i = choose|i: int| 0 <= i < tail.len() && tail[i] == mark;
                assert(head.last()[i] == mark);
                assert(head.last().contains(mark));
            }
            assert(list.drop_last() =~= head.drop_last());
            if head.len() == 1 {
                assert(joined(list, seq![mark]) =~= s);
            } else {
                assert(joined(head, seq![mark]) == joined(head.drop_last(), seq![mark]) + seq![mark]
                    + head.last());
                assert(joined(list, seq![mark]) =~= s);
            }
            assert forall|k: int| 0 <= k < list.len() implies !(#[trigger] list[k]).contains(mark) by {
                if k < list.len() - 1 {
                    assert(list[k] == head[k]);
                }
            }
        }
    }
}

proof fn lemma_filled_join(a: Seq<Seq<char>>, b: Seq<Seq<char>>)
    ensures
        filled(a + b) == filled(a) + filled(b),
    decreases b.len(),
{
    if b.len() == 0 {
        assert(a + b =~= a);
        assert(filled(a) + filled(b) =~= filled(a));
    } else {
        assert((a + b).drop_last() =~= a + b.drop_last());
        assert((a + b).last() == b.last());
        lemma_filled_join(a, b.drop_last());
        assert(filled(a + b) =~= filled(a) + filled(b));
    }
}

proof fn lemma_gaps_some(s: Seq<char>)
    ensures
        gaps(s).len() > 0,
    decreases s.len(),
{
    if s.len() > 0 {
        lemma_gaps_some(s.drop_last());
    }
}

proof fn lemma_gaps_join(a: Seq<char>, c: char, b: Seq<char>)
    requires
        whitespace(c),
    ensures
        gaps(a + seq![c] + b) == gaps(a) + gaps(b),
    decreases b.len(),
{
    let whole = a + seq![c] + b;
    if b.len() == 0 {
        assert(whole.drop_last() =~= a);
        assert(whole.last() == c);
        assert(gaps(whole) =~= gaps(a) + gaps(b));
    } else {
        let shorter = b.drop_last();
        lemma_gaps_join(a, c, shorter);
        lemma_gaps_some(shorter);
        assert(whole.drop_last() =~= a + seq![c] + shorter);
        assert(whole.last() == b.last());
        let head = gaps(a) + gaps(shorter);
        assert(head.last() == gaps(shorter).last());
        if !whitespace(b.last()) {
            assert(head.drop_last() =~= gaps(a) + gaps(shorter).drop_last());
        }
        assert(gaps(whole) =~= gaps(a) + gaps(b));
    }
}

proof fn lemma_gapless(s: Seq<char>)
    requires
        forall|k: int| 0 <= k < s.len() ==> !whitespace(#[trigger] s[k]),
    ensures
        gaps(s) == seq![s],
    decreases s.len(),
{
    if s.len() > 0 {
        assert forall|k: int| 0 <= k < s.drop_last().len() implies !whitespace(
            #[trigger] s.drop_last()[k],
        ) by {
            assert(s.drop_last()[k] == s[k]);
        }
        lemma_gapless(s.drop_last());
        assert(!whitespace(s[s.len() - 1]));
        assert(gaps(s) =~= seq![s.drop_last().push(s.last())]);
        assert(s.drop_last().push(s.last()) =~= s);
    } else {
        assert(s =~= Seq::<char>::empty());
    }
}

/// A text without white space is one word, and the words of a text with white space in it are those
/// before it and then those after it.
pub proof fn lemma_words_stand_between_white_space(a: Seq<char>, c: char, b: Seq<char>)
    ensures
        a.len() > 0 && (forall|k: int| 0 <= k < a.len() ==> !whitespace(#[trigger] a[k])) ==> words(a)
            == seq![a],
        whitespace(c) ==> words(a + seq![c] + b) == words(a) + words(b),
{
    if a.len() > 0 && (forall|k: int| 0 <= k < a.len() ==> !whitespace(#[trigger] a[k])) {
        lemma_gapless(a);
        assert(seq![a].drop_last() =~= Seq::<Seq<char>>::empty());
        reveal_with_fuel(filled, 2);
        assert(filled(seq![a]) =~= seq![a]);
    }
    if whitespace(c) {
        lemma_gaps_join(a, c, b);
        lemma_filled_join(gaps(a), gaps(b));
    }
}

proof fn lemma_bare_holds(list: Seq<Seq<char>>, n: int, k: int)
    requires
        0 <= k < n <= list.len(),
    ensures
        trimmed(list[k]).len() > 0 ==> bare_upto(list, n).contains(trimmed(list[k])),
    decreases n,
{
    let before = bare_upto(list, n - 1);
    let now = bare_upto(list, n);
    if trimmed(list[k]).len() > 0 {
        if k < n - 1 {
            lemma_bare_holds(list, n - 1, k);
            let i = choose|i: int| 0 <= i < before.len() && before[i] == trimmed(list[k]);
            assert(now[i] == before[i]);
        } else {
            assert(now[before.len() as int] == trimmed(list[k]));
        }
    }
}

proof fn lemma_bare_come_from(list: Seq<Seq<char>>, n: int, item: Seq<char>)
    requires
        0 <= n <= list.len(),
        bare_upto(list, n).contains(item),
    ensures
        item.len() > 0,
        exists|k: int| 0 <= k < n && trimmed(#[trigger] list[k]) == item,
    decreases n,
{
    let now = bare_upto(list, n);
    if n > 0 {
        let before = bare_upto(list, n - 1);
        let i = choose|i: int| 0 <= i < now.len() && now[i] == item;
        if trimmed(list[n - 1]).len() == 0 || i < before.len() {
            assert(before[i] == item);
            lemma_bare_come_from(list, n - 1, item);
        } else {
            assert(trimmed(list[n - 1]) == item);
        }
    }
}

/// What stands between the commas of a list, without the white space around it, are its items, as far as
/// anything is left of it.
pub proof fn lemma_items_stand_between_commas(s: Seq<char>, item: Seq<char>)
    ensures
        comma_items(s).contains(item) <==> item.len() > 0 && exists|k: int|
            0 <= k < pieces(s, ',').len() && trimmed(#[trigger] pieces(s, ',')[k]) == item,
{
    let list = pieces(s, ',');
    if comma_items(s).contains(item) {
        lemma_bare_come_from(list, list.len() as int, item);
    }
    if item.len() > 0 && exists|k: int| 0 <= k < list.len() && trimmed(#[trigger] list[k]) == item {
        let k = choose|k: int| 0 <= k < list.len() && trimmed(#[trigger] list[k]) == item;
        lemma_bare_holds(list, list.len() as int, k);
    }
}

/// Small letters and capitals go over into each other one for one and nothing else changes, so that two
/// texts that differ in capitals only are one text in lower case and one in upper case.
pub proof fn lemma_letters_change_case(c: char, s: Seq<char>)
    ensures
        'A' <= c <= 'Z' ==> 'a' <= small(c) <= 'z' && small(c) as int - 'a' as int == c as int
            - 'A' as int && capital(small(c)) == c,
        'a' <= c <= 'z' ==> 'A' <= capital(c) <= 'Z' && small(capital(c)) == c && small(c) == c,
        !('A' <= c <= 'Z') ==> small(c) == c,
        !('a' <= c <= 'z') ==> capital(c) == c,
        ascii_lower(s).len() == s.len(),
        forall|k: int|
            0 <= k < s.len() ==> (#[trigger] ascii_lower(s)[k] == s[k] || 'A' <= s[k] <= 'Z') && !('A'
                <= ascii_lower(s)[k] <= 'Z'),
        ascii_lower(ascii_lower(s)) == ascii_lower(s),
        all_ascii(s) ==> lowered(s) == ascii_lower(s) && ascii_lower(raised(s)) == ascii_lower(s)
            && lowered(raised(s)) == lowered(s),
{
    assert forall|x: char| 'A' <= x <= 'Z' implies 'a' <= #[trigger] small(x) <= 'z' && small(x) as int
        - 'a' as int == x as int - 'A' as int by {
        assert(small(x) as int == x as int + 32);
    }
    assert forall|x: char| 'a' <= x <= 'z' implies 'A' <= #[trigger] capital(x) <= 'Z' && small(
        capital(x),
    ) == x by {
        assert(capital(x) as int == x as int - 32);
        assert(small(capital(x)) as int == x as int);
    }
    if 'A' <= c <= 'Z' {
        assert(capital(small(c)) as int == c as int);
    }
    assert(ascii_lower(ascii_lower(s)) =~= ascii_lower(s));
    if all_ascii(s) {
        let high = raised(s);
        assert forall|k: int| 0 <= k < high.len() implies #[trigger] high[k] < '\u{80}' by {
            assert(s[k] < '\u{80}');
            if 'a' <= s[k] <= 'z' {
                assert('A' <= capital(s[k]) <= 'Z');
            }
        }
        assert(all_ascii(high));
        assert forall|k: int| 0 <= k < s.len() implies ascii_lower(high)[k] == ascii_lower(s)[k] by {
            if 'a' <= s[k] <= 'z' {
                assert(small(capital(s[k])) == s[k]);
            }
        }
        assert(ascii_lower(high) =~= ascii_lower(s));
    }
}

/// A line ends at a line feed, without it and without a carriage return before it; the lines that follow
/// are those of the rest.
pub proof fn lemma_lines_end_at_line_feeds(a: Seq<char>, b: Seq<char>)
    requires
        !a.contains('\n'),
    ensures
        line_list(a + seq!['\n'] + b) == seq![line_text(a)] + line_list(b),
        a.len() > 0 ==> line_list(a) == seq![a],
        line_list(Seq::empty()) == Seq::<Seq<char>>::empty(),
{
    lemma_pieces_of_parts(a, b, '\n');
    lemma_pieces_some(b, '\n');
    let whole = pieces(a + seq!['\n'] + b, '\n');
    let rest = pieces(b, '\n');
    assert(whole == seq![a] + rest);
    assert(whole.last() == rest.last());
    assert(whole.drop_last() =~= seq![a] + rest.drop_last());
    assert(line_list(a + seq!['\n'] + b) =~= seq![line_text(a)] + line_list(b));
    assert(seq![a].drop_last() =~= Seq::<Seq<char>>::empty());
    assert(pieces(a, '\n') == seq![a]);
    if a.len() > 0 {
        assert(line_list(a) =~= seq![a]);
    }
    let none = Seq::<char>::empty();
    assert(pieces(none, '\n') == seq![none]);
    assert(seq![none].drop_last() =~= Seq::<Seq<char>>::empty());
    assert(line_list(none) =~= Seq::<Seq<char>>::empty());
}

proof fn lemma_skip_char(s: Seq<char>, c: char, i: int)
    requires
        0 <= i <= s.len(),
    ensures
        i <= skip_char(s, c, i) <= s.len(),
        forall|j: int| i <= j < skip_char(s, c, i) ==> #[trigger] s[j] == c,
        skip_char(s, c, i) < s.len() ==> s[skip_char(s, c, i)] != c,
    decreases s.len() - i,
{
    if i < s.len() && s[i] == c {
        lemma_skip_char(s, c, i + 1);
    }
}

proof fn lemma_drop_char(s: Seq<char>, c: char, from: int, to: int)
    requires
        0 <= from <= to <= s.len(),
    ensures
        from <= drop_char(s, c, from, to) <= to,
        forall|j: int| drop_char(s, c, from, to) <= j < to ==> #[trigger] s[j] == c,
        drop_char(s, c, from, to) > from ==> s[drop_char(s, c, from, to) - 1] != c,
    decreases to - from,
{
    if from < to && s[to - 1] == c {
        lemma_drop_char(s, c, from, to - 1);
    }
}

/// What is left of a text without a character at its start or at its end does not start or end with it;
/// what is gone was that character only.
pub proof fn lemma_characters_are_taken_from_the_ends(s: Seq<char>, c: char)
    ensures
        without_leading(s, c).len() <= s.len(),
        without_leading(s, c) == s.skip(s.len() - without_leading(s, c).len()),
        forall|j: int| 0 <= j < s.len() - without_leading(s, c).len() ==> #[trigger] s[j] == c,
        without_leading(s, c).len() > 0 ==> without_leading(s, c)[0] != c,
        without_trailing(s, c).len() <= s.len(),
        without_trailing(s, c) == s.take(without_trailing(s, c).len() as int),
        forall|j: int| without_trailing(s, c).len() <= j < s.len() ==> #[trigger] s[j] == c,
        without_trailing(s, c).len() > 0 ==> without_trailing(s, c).last() != c,
{
    lemma_skip_char(s, c, 0);
    lemma_drop_char(s, c, 0, s.len() as int);
}

/// Replacing a character goes through a text piece by piece: it changes that character and no other.
pub proof fn lemma_characters_are_replaced(a: Seq<char>, b: Seq<char>, c: char, new: Seq<char>)
    ensures
        replaced(a + b, c, new) == replaced(a, c, new) + replaced(b, c, new),
        !a.contains(c) ==> replaced(a, c, new) == a,
        replaced(seq![c], c, new) == new,
    decreases a.len() + b.len(),
{
    reveal_with_fuel(replaced, 2);
    assert(seq![c].drop_last() =~= Seq::<char>::empty());
    assert(Seq::<char>::empty() + new =~= new);
    if b.len() == 0 {
        assert(a + b =~= a);
        assert(replaced(b, c, new) =~= Seq::<char>::empty());
        assert(replaced(a, c, new) + replaced(b, c, new) =~= replaced(a, c, new));
        if !a.contains(c) && a.len() > 0 {
            let rest = a.drop_last();
            if rest.contains(c) {
                let k = choose|k: int| 0 <= k < rest.len() && rest[k] == c;
                assert(a[k] == c);
            }
            lemma_characters_are_replaced(rest, Seq::empty(), c, new);
            assert(a[a.len() - 1] != c);
            assert(rest.push(a.last()) =~= a);
        }
    } else {
        lemma_characters_are_replaced(a, b.drop_last(), c, new);
        assert((a + b).drop_last() =~= a + b.drop_last());
        assert((a + b).last() == b.last());
        assert(replaced(a + b, c, new) =~= replaced(a, c, new) + replaced(b, c, new));
    }
}

} // verus!
