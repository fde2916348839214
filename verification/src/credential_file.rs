//! What credential files hold: JSON objects, or lines.

use vstd::prelude::*;
use crate::json::{field, text_of, Json};
use crate::text::{
    begins, line_list, lines, no_texts, opt_text, push_text, slices, starts_with, texts, trim,
    trimmed,
};

verus! {

/// The value under the first of the keys, from the `i`-th on, that an object has.
pub open spec fn first_field(value: Json, keys: Seq<Seq<char>>, i: int) -> Option<Json>
    decreases keys.len() - i,
{
    if i < 0 || i >= keys.len() {
        None
    } else {
        match field(value, keys[i]) {
            Some(found) => Some(found),
            None => first_field(value, keys, i + 1),
        }
    }
}

/// The value under the first of the keys that an object has, where that is a text, without the
/// white space around it.
pub open spec fn trimmed_field(value: Json, keys: Seq<Seq<char>>) -> Option<Seq<char>> {
    match text_of(first_field(value, keys, 0)) {
        Some(text) => Some(trimmed(text)),
        None => None,
    }
}

/// Finds the text under the first of the keys that an object has.
pub fn read_field(value: &Json, keys: &[&str]) -> (text: Option<String>)
    ensures
        opt_text(text) == trimmed_field(*value, slices(keys@)),
{
    let mut i: usize = 0;
    while i < keys.len()
        invariant
            i <= keys@.len(),
            first_field(*value, slices(keys@), 0) == first_field(
                *value,
                slices(keys@),
                i as int,
            ),
        decreases keys@.len() - i,
    {
        assert(slices(keys@)[i as int] == keys@[i as int]@);
        match value.get(keys[i]) {
            Some(Json::Text(text)) => {
                return Some(trim(text.as_str()));
            },
            Some(_) => {
                return None;
            },
            None => {},
        }
        i = i + 1;
    }
    None
}

/// Those of the first `n` lines that are neither empty nor comments, without the white space
/// around them.
pub open spec fn used_upto(list: Seq<Seq<char>>, n: int) -> Seq<Seq<char>>
    decreases n,
{
    if n <= 0 {
        Seq::empty()
    } else {
        let line = trimmed(list[n - 1]);
        if line.len() > 0 && !begins(line, "#"@) {
            used_upto(list, n - 1).push(line)
        } else {
            used_upto(list, n - 1)
        }
    }
}

/// The lines of a file that are neither empty nor comments.
pub open spec fn used_lines(raw: Seq<char>) -> Seq<Seq<char>> {
    used_upto(line_list(raw), line_list(raw).len() as int)
}

/// Finds the lines of a file that are neither empty nor comments.
pub fn read_lines(raw: &str) -> (used: Vec<String>)
    ensures
        texts(used@) == used_lines(raw@),
{
    let list = lines(raw);
    let mut used = no_texts();
    let mut i: usize = 0;
    while i < list.len()
        invariant
            i <= list@.len(),
            texts(used@) == used_upto(texts(list@), i as int),
        decreases list@.len() - i,
    {
        assert(texts(list@)[i as int] == list@[i as int]@);
        let line = trim(list[i].as_str());
        if !line.as_str().is_empty() && !starts_with(line.as_str(), "#") {
            push_text(&mut used, line);
        }
        i = i + 1;
    }
    used
}

proof fn lemma_used_upto(list: Seq<Seq<char>>, n: int, k: int)
    requires
        0 <= k < n <= list.len(),
        trimmed(list[k]).len() > 0,
        !begins(trimmed(list[k]), "#"@),
    ensures
        used_upto(list, n).contains(trimmed(list[k])),
    decreases n,
{
    let before = used_upto(list, n - 1);
    let now = used_upto(list, n);
    if k < n - 1 {
        lemma_used_upto(list, n - 1, k);
        let i = choose|i: int| 0 <= i < before.len() && before[i] == trimmed(list[k]);
        assert(now[i] == trimmed(list[k]));
    } else {
        assert(now[before.len() as int] == trimmed(list[k]));
    }
}

/// Every line of a file that is neither empty nor a comment is used, without the white space around it, and
/// nothing that is used is empty or a comment.
pub proof fn lemma_lines_are_used(raw: Seq<char>, k: int)
    ensures
        0 <= k < line_list(raw).len() && trimmed(line_list(raw)[k]).len() > 0 && !begins(
            trimmed(line_list(raw)[k]),
            "#"@,
        ) ==> used_lines(raw).contains(trimmed(line_list(raw)[k])),
        0 <= k < used_lines(raw).len() ==> used_lines(raw)[k].len() > 0 && !begins(
            used_lines(raw)[k],
            "#"@,
        ),
{
    let list = line_list(raw);
    if 0 <= k < list.len() && trimmed(list[k]).len() > 0 && !begins(trimmed(list[k]), "#"@) {
        lemma_used_upto(list, list.len() as int, k);
    }
    lemma_used_say_something(list, list.len() as int);
}

proof fn lemma_used_say_something(list: Seq<Seq<char>>, n: int)
    requires
        0 <= n <= list.len(),
    ensures
        forall|i: int|
            0 <= i < used_upto(list, n).len() ==> (#[trigger] used_upto(list, n)[i]).len() > 0 && !begins(
                used_upto(list, n)[i],
                "#"@,
            ),
    decreases n,
{
    if n > 0 {
        lemma_used_say_something(list, n - 1);
        let before = used_upto(list, n - 1);
        let now = used_upto(list, n);
        assert forall|i: int| 0 <= i < now.len() implies (#[trigger] now[i]).len() > 0 && !begins(
            now[i],
            "#"@,
        ) by {
            if i < before.len() {
                assert(now[i] == before[i]);
            } else {
                assert(now[i] == trimmed(list[n - 1]));
            }
        }
    }
}

/// The value under the first key that an object has is the one that counts.
pub proof fn lemma_first_key_counts(value: Json, keys: Seq<Seq<char>>, i: int, k: int)
    requires
        0 <= i <= k < keys.len(),
        field(value, keys[k]) is Some,
        forall|j: int| i <= j < k ==> field(value, #[trigger] keys[j]) is None,
    ensures
        first_field(value, keys, i) == field(value, keys[k]),
    decreases k - i,
{
    if i < k {
        assert(field(value, keys[i]) is None);
        lemma_first_key_counts(value, keys, i + 1, k);
    }
}

} // verus!
