//! JSON values as plain data.

use serde_json::Value;
use vstd::prelude::*;
use crate::text::{
    by_text, cat3, cat5, chars_of, lemma_signed_decimal_unique, opt_text, parse_signed,
    signed_decimal, str_eq, texts,
};

verus! {

/// A JSON value. A number is held as its text; the fields of an object stand in the order in which
/// the parser holds them, and no key occurs twice in what `parse_json` gives.
#[derive(Debug)]
pub enum Json {
    Null,
    Bool(bool),
    Number(String),
    Text(String),
    Array(Vec<Json>),
    Object(Vec<(String, Json)>),
}

/// What `serde_json::from_str` makes of a text: the value it holds, or the text of the error.
pub uninterp spec fn parsed_json(text: Seq<char>) -> Result<Json, Seq<char>>;

/// `serde_json::from_str`: what a text holds depends on the text alone. The parts of an array
/// or an object are turned over through their own JSON text.
#[verifier::external_body]
pub(crate) fn parse_json(text: &str) -> (value: Result<Json, String>)
    ensures
        by_text(value) == parsed_json(text@),
{
    let value: Value = serde_json::from_str(text).map_err(|error| error.to_string())?;
    Ok(match value {
        Value::Null => Json::Null,
        Value::Bool(flag) => Json::Bool(flag),
        Value::Number(number) => Json::Number(number.to_string()),
        Value::String(string) => Json::Text(string),
        Value::Array(items) => Json::Array(
            items.iter().map(|item| parse_json(&item.to_string())).collect::<Result<_, _>>()?,
        ),
        Value::Object(fields) => Json::Object(
            fields.into_iter().map(|(key, item)| Ok((key, parse_json(&item.to_string())?)))
                .collect::<Result<_, String>>()?,
        ),
    })
}

/// What `serde_json::from_slice` makes of bytes: the value they hold, or the text of the error.
pub uninterp spec fn parsed_json_bytes(bytes: Seq<u8>) -> Result<Json, Seq<char>>;

/// `serde_json::from_slice`: what bytes hold depends on the bytes alone. The value is turned over
/// through its own JSON text.
#[verifier::external_body]
pub(crate) fn parse_json_bytes(bytes: &[u8]) -> (value: Result<Json, String>)
    ensures
        by_text(value) == parsed_json_bytes(bytes@),
{
    match serde_json::from_slice::<Value>(bytes) {
        Ok(value) => parse_json(&value.to_string()),
        Err(error) => Err(error.to_string()),
    }
}

/// The value behind an optional reference.
pub open spec fn held(value: Option<&Json>) -> Option<Json> {
    match value {
        Some(v) => Some(*v),
        None => None,
    }
}

/// Position of the first field named `key` at or after `i`.
pub open spec fn field_at(fields: Seq<(String, Json)>, key: Seq<char>, i: int) -> Option<int>
    decreases fields.len() - i,
{
    if i < 0 || i >= fields.len() {
        None
    } else if fields[i].0@ == key {
        Some(i)
    } else {
        field_at(fields, key, i + 1)
    }
}

/// What an object holds under `key`.
pub open spec fn field(value: Json, key: Seq<char>) -> Option<Json> {
    match value {
        Json::Object(fields) => match field_at(fields@, key, 0) {
            Some(i) => Some(fields@[i].1),
            None => None,
        },
        _ => None,
    }
}

/// What the object under `outer` holds under `inner`.
pub open spec fn field_in(value: Json, outer: Seq<char>, inner: Seq<char>) -> Option<Json> {
    match field(value, outer) {
        Some(object) => field(object, inner),
        None => None,
    }
}

/// Whether a value is an array.
pub open spec fn is_array(value: Option<Json>) -> bool {
    match value {
        Some(Json::Array(_)) => true,
        _ => false,
    }
}

/// The text that a value is.
pub open spec fn text_of(value: Option<Json>) -> Option<Seq<char>> {
    match value {
        Some(Json::Text(s)) => Some(s@),
        _ => None,
    }
}

/// The texts among the values of a list, in order.
pub open spec fn texts_among(list: Seq<Json>) -> Seq<Seq<char>>
    decreases list.len(),
{
    if list.len() == 0 {
        Seq::empty()
    } else {
        match list.last() {
            Json::Text(s) => texts_among(list.drop_last()).push(s@),
            _ => texts_among(list.drop_last()),
        }
    }
}

impl Json {
    /// What an object holds under `key`.
    pub fn get(&self, key: &str) -> (value: Option<&Json>)
        ensures
            held(value) == field(*self, key@),
    {
        match self {
            Json::Object(fields) => {
                let mut i: usize = 0;
                while i < fields.len()
                    invariant
                        i <= fields@.len(),
                        *self == Json::Object(*fields),
                        field_at(fields@, key@, 0) == field_at(fields@, key@, i as int),
                    decreases fields@.len() - i,
                {
                    if str_eq(fields[i].0.as_str(), key) {
                        return Some(&fields[i].1);
                    }
                    i = i + 1;
                }
                None
            },
            _ => None,
        }
    }

    /// The text that a value is.
    pub fn as_text(&self) -> (s: Option<String>)
        ensures
            opt_text(s) == text_of(Some(*self)),
    {
        match self {
            Json::Text(s) => Some(s.clone()),
            _ => None,
        }
    }

    /// What the object under `outer` holds under `inner`.
    pub fn get_in(&self, outer: &str, inner: &str) -> (value: Option<&Json>)
        ensures
            held(value) == field_in(*self, outer@, inner@),
    {
        match self.get(outer) {
            Some(object) => object.get(inner),
            None => None,
        }
    }

    /// Whether an object holds an array under `key`.
    pub fn has_array(&self, key: &str) -> (yes: bool)
        ensures
            yes == is_array(field(*self, key@)),
    {
        match self.get(key) {
            Some(Json::Array(_)) => true,
            _ => false,
        }
    }

    /// The text that an object holds under `key`.
    pub fn text_at(&self, key: &str) -> (s: Option<String>)
        ensures
            opt_text(s) == text_of(field(*self, key@)),
    {
        match self.get(key) {
            Some(value) => value.as_text(),
            None => None,
        }
    }
}

/// The texts among the values of a list, in order.
pub fn collect_texts(list: &Vec<Json>) -> (found: Vec<String>)
    ensures
        texts(found@) == texts_among(list@),
{
    let mut found: Vec<String> = Vec::new();
    let mut i: usize = 0;
    assert(list@.take(0) =~= Seq::<Json>::empty());
    assert(texts(found@) =~= Seq::<Seq<char>>::empty());
    while i < list.len()
        invariant
            i <= list@.len(),
            texts(found@) == texts_among(list@.take(i as int)),
        decreases list@.len() - i,
    {
        assert(list@.take(i + 1).drop_last() =~= list@.take(i as int));
        match &list[i] {
            Json::Text(s) => {
                crate::text::push_text(&mut found, s.clone());
            },
            _ => {},
        }
        i = i + 1;
    }
    assert(list@.take(list@.len() as int) =~= list@);
    found
}

/// Whether a value is the whole number `n`.
pub open spec fn holds_integer(value: Option<Json>, n: i64) -> bool {
    match value {
        Some(Json::Number(text)) => text@ == signed_decimal(n as int),
        _ => false,
    }
}

/// The whole number that a value holds, where it is one and fits 64 bits with a sign.
pub open spec fn integer_in(value: Option<Json>) -> Option<i64> {
    if exists|n: i64| holds_integer(value, n) {
        Some(choose|n: i64| holds_integer(value, n))
    } else {
        None
    }
}

impl Json {
    /// The whole number under a key.
    pub fn integer_at(&self, key: &str) -> (n: Option<i64>)
        ensures
            n == integer_in(field(*self, key@)),
    {
        match self.get(key) {
            Some(Json::Number(text)) => {
                let n = parse_signed(text.as_str());
                proof {
                    let value = field(*self, key@);
                    match n {
                        Some(number) => {
                            assert(holds_integer(value, number));
                            let other = choose|other: i64| holds_integer(value, other);
                            lemma_signed_decimal_unique(number as int, other as int);
                        },
                        None => {
                            assert forall|number: i64| !#[trigger] holds_integer(value, number) by {
                                assert(text@ != signed_decimal(number as int));
                            }
                        },
                    }
                }
                n
            },
            _ => None,
        }
    }
}

/// A hexadecimal digit in lower case.
pub open spec fn low_hex_digit(n: int) -> char {
    if n < 10 {
        (48 + n) as u8 as char
    } else {
        (87 + n) as u8 as char
    }
}

/// How a character is written inside a JSON string.
pub open spec fn escaped_char(c: char) -> Seq<char> {
    if c == '"' {
        seq!['\\', '"']
    } else if c == '\\' {
        seq!['\\', '\\']
    } else if c as int == 8 {
        seq!['\\', 'b']
    } else if c as int == 9 {
        seq!['\\', 't']
    } else if c as int == 10 {
        seq!['\\', 'n']
    } else if c as int == 12 {
        seq!['\\', 'f']
    } else if c as int == 13 {
        seq!['\\', 'r']
    } else if (c as int) < 32 {
        seq!['\\', 'u', '0', '0', low_hex_digit(c as int / 16), low_hex_digit(c as int % 16)]
    } else {
        seq![c]
    }
}

/// The first `n` characters as they are written inside a JSON string.
pub open spec fn escaped_upto(s: Seq<char>, n: int) -> Seq<char>
    decreases n,
{
    if n <= 0 {
        Seq::empty()
    } else {
        escaped_upto(s, n - 1) + escaped_char(s[n - 1])
    }
}

/// A text as a JSON string.
pub open spec fn quoted(s: Seq<char>) -> Seq<char> {
    "\""@ + escaped_upto(s, s.len() as int) + "\""@
}

/// A value as JSON text, with nothing between its parts but what has to be there.
pub open spec fn json_text(value: Json) -> Seq<char>
    decreases value, 0int,
{
    match value {
        Json::Null => "null"@,
        Json::Bool(flag) => if flag {
            "true"@
        } else {
            "false"@
        },
        Json::Number(text) => text@,
        Json::Text(text) => quoted(text@),
        Json::Array(list) => "["@ + items_text(list@, list@.len() as int) + "]"@,
        Json::Object(fields) => "{"@ + fields_text(fields@, fields@.len() as int) + "}"@,
    }
}

/// The first `n` values as JSON text, with commas between them.
pub open spec fn items_text(list: Seq<Json>, n: int) -> Seq<char>
    decreases list, n,
{
    if n <= 0 || n > list.len() {
        Seq::empty()
    } else if n == 1 {
        json_text(list[0])
    } else {
        items_text(list, n - 1) + ","@ + json_text(list[n - 1])
    }
}

/// The first `n` fields as JSON text, with commas between them.
pub open spec fn fields_text(fields: Seq<(String, Json)>, n: int) -> Seq<char>
    decreases fields, n,
{
    if n <= 0 || n > fields.len() {
        Seq::empty()
    } else if n == 1 {
        quoted(fields[0].0@) + ":"@ + json_text(fields[0].1)
    } else {
        fields_text(fields, n - 1) + ","@ + quoted(fields[n - 1].0@) + ":"@ + json_text(
            fields[n - 1].1,
        )
    }
}

fn low_hex_char(n: u32) -> (c: char)
    requires
        n < 16,
    ensures
        c == low_hex_digit(n as int),
{
    if n < 10 {
        (48 + n as u8) as char
    } else {
        (87 + n as u8) as char
    }
}

fn push_escaped(out: &mut String, c: char)
    ensures
        final(out)@ == old(out)@ + escaped_char(c),
{
    let code: u32 = c as u32;
    let ghost before = out@;
    if c == '"' {
        out.push('\\');
        out.push('"');
    } else if c == '\\' {
        out.push('\\');
        out.push('\\');
    } else if code == 8 {
        out.push('\\');
        out.push('b');
    } else if code == 9 {
        out.push('\\');
        out.push('t');
    } else if code == 10 {
        out.push('\\');
        out.push('n');
    } else if code == 12 {
        out.push('\\');
        out.push('f');
    } else if code == 13 {
        out.push('\\');
        out.push('r');
    } else if code < 32 {
        out.push('\\');
        out.push('u');
        out.push('0');
        out.push('0');
        out.push(low_hex_char(code / 16));
        out.push(low_hex_char(code % 16));
    } else {
        out.push(c);
    }
    assert(out@ =~= before + escaped_char(c));
}

/// Writes a text as a JSON string.
pub fn quote_text(s: &str) -> (out: String)
    ensures
        out@ == quoted(s@),
{
    let list = chars_of(s);
    let mut out: String = String::new();
    let mut i: usize = 0;
    assert(out@ =~= escaped_upto(s@, 0));
    while i < list.len()
        invariant
            i <= list@.len(),
            list@ == s@,
            out@ == escaped_upto(s@, i as int),
        decreases list@.len() - i,
    {
        push_escaped(&mut out, list[i]);
        i = i + 1;
    }
    cat3("\"", out.as_str(), "\"")
}

impl Json {
    /// Writes a value as JSON text.
    pub fn to_text(&self) -> (out: String)
        ensures
            out@ == json_text(*self),
        decreases *self,
    {
        match self {
            Json::Null => "null".to_owned(),
            Json::Bool(flag) => if *flag {
                "true".to_owned()
            } else {
                "false".to_owned()
            },
            Json::Number(text) => text.clone(),
            Json::Text(text) => quote_text(text.as_str()),
            Json::Array(list) => {
                let mut inner: String = String::new();
                let mut i: usize = 0;
                assert(inner@ =~= items_text(list@, 0));
                while i < list.len()
                    invariant
                        i <= list@.len(),
                        *self == Json::Array(*list),
                        inner@ == items_text(list@, i as int),
                    decreases list@.len() - i,
                {
                    assert(decreases_to!(*self => self->Array_0@[i as int]));
                    let item = list[i].to_text();
                    inner = if i == 0 {
                        item
                    } else {
                        cat3(inner.as_str(), ",", item.as_str())
                    };
                    i = i + 1;
                }
                cat3("[", inner.as_str(), "]")
            },
            Json::Object(fields) => {
                let mut inner: String = String::new();
                let mut i: usize = 0;
                assert(inner@ =~= fields_text(fields@, 0));
                while i < fields.len()
                    invariant
                        i <= fields@.len(),
                        *self == Json::Object(*fields),
                        inner@ == fields_text(fields@, i as int),
                    decreases fields@.len() - i,
                {
                    assert(decreases_to!(*self => self->Object_0@[i as int].1));
                    let key = quote_text(fields[i].0.as_str());
                    let item = fields[i].1.to_text();
                    inner = if i == 0 {
                        cat3(key.as_str(), ":", item.as_str())
                    } else {
                        cat5(inner.as_str(), ",", key.as_str(), ":", item.as_str())
                    };
                    i = i + 1;
                }
                cat3("{", inner.as_str(), "}")
            },
        }
    }

    /// A value as it is shown: a text as it is, anything else as JSON text.
    pub fn shown(&self) -> (out: String)
        ensures
            out@ == shown_text(*self),
    {
        match self {
            Json::Text(text) => text.clone(),
            _ => self.to_text(),
        }
    }
}

/// A value as it is shown: a text as it is, anything else as JSON text.
pub open spec fn shown_text(value: Json) -> Seq<char> {
    match value {
        Json::Text(text) => text@,
        _ => json_text(value),
    }
}

/// An optional value as it is shown.
pub open spec fn shown_opt(value: Option<Json>) -> Option<Seq<char>> {
    match value {
        Some(item) => Some(shown_text(item)),
        None => None,
    }
}

pub fn show_opt(value: &Option<Json>) -> (text: Option<String>)
    ensures
        opt_text(text) == shown_opt(*value),
{
    match value {
        Some(item) => Some(item.shown()),
        None => None,
    }
}

proof fn lemma_field_at(fields: Seq<(String, Json)>, key: Seq<char>, i: int)
    requires
        0 <= i,
    ensures
        match field_at(fields, key, i) {
            Some(k) => i <= k < fields.len() && fields[k].0@ == key && forall|j: int|
                i <= j < k ==> (#[trigger] fields[j]).0@ != key,
            None => forall|j: int| i <= j < fields.len() ==> (#[trigger] fields[j]).0@ != key,
        },
    decreases fields.len() - i,
{
    if i < fields.len() && fields[i].0@ != key {
        lemma_field_at(fields, key, i + 1);
    }
}

/// An object that has a field gives the value of the first one of that name; one that has none
/// gives nothing.
pub proof fn lemma_fields_are_found(value: Json, fields: Vec<(String, Json)>, key: Seq<char>)
    requires
        value == Json::Object(fields),
    ensures
        forall|k: int|
            0 <= k < fields@.len() && (#[trigger] fields@[k]).0@ == key && (forall|j: int|
                0 <= j < k ==> (#[trigger] fields@[j]).0@ != key) ==> field(value, key) == Some(
                fields@[k].1,
            ),
        field(value, key) is Some ==> exists|k: int|
            0 <= k < fields@.len() && (#[trigger] fields@[k]).0@ == key && field(value, key) == Some(
                fields@[k].1,
            ),
        field(value, key) is None ==> forall|k: int|
            0 <= k < fields@.len() ==> (#[trigger] fields@[k]).0@ != key,
{
    lemma_field_at(fields@, key, 0);
    assert forall|k: int|
        0 <= k < fields@.len() && (#[trigger] fields@[k]).0@ == key && (forall|j: int|
            0 <= j < k ==> (#[trigger] fields@[j]).0@ != key) implies field(value, key) == Some(
        fields@[k].1,
    ) by {
        match field_at(fields@, key, 0) {
            Some(m) => {
                if m < k {
                    assert(fields@[m].0@ != key);
                }
            },
            None => {},
        }
    }
    match field_at(fields@, key, 0) {
        Some(m) => {
            assert(fields@[m].0@ == key);
        },
        None => {},
    }
}

/// Whether a value is the text `text`, or a list that holds it.
pub open spec fn states(value: Option<Json>, text: Seq<char>) -> bool {
    match value {
        Some(Json::Text(s)) => s@ == text,
        Some(Json::Array(list)) => exists|k: int|
            0 <= k < list@.len() && text_of(Some(#[trigger] list@[k])) == Some(text),
        _ => false,
    }
}

/// The texts among the values of a list are those values that are texts, each at its place among
/// them: none is lost and none is made up.
pub proof fn lemma_texts_among(list: Seq<Json>, text: Seq<char>)
    ensures
        texts_among(list).contains(text) <==> exists|k: int|
            0 <= k < list.len() && text_of(Some(#[trigger] list[k])) == Some(text),
        texts_among(list).len() <= list.len(),
    decreases list.len(),
{
    if list.len() > 0 {
        let rest = list.drop_last();
        lemma_texts_among(rest, text);
        let before = texts_among(rest);
        let now = texts_among(list);
        if now.contains(text) {
            let m = choose|m: int| 0 <= m < now.len() && now[m] == text;
            if m < before.len() {
                assert(before[m] == text);
                assert(before.contains(text));
                let k = choose|k: int|
                    0 <= k < rest.len() && text_of(Some(#[trigger] rest[k])) == Some(text);
                assert(list[k] == rest[k]);
            } else {
                assert(text_of(Some(list[list.len() - 1])) == Some(text));
            }
        }
        if exists|k: int| 0 <= k < list.len() && text_of(Some(#[trigger] list[k])) == Some(text) {
            let k = choose|k: int|
                0 <= k < list.len() && text_of(Some(#[trigger] list[k])) == Some(text);
            if k < rest.len() {
                assert(rest[k] == list[k]);
                assert(before.contains(text));
                let m = choose|m: int| 0 <= m < before.len() && before[m] == text;
                assert(now[m] == text);
            } else {
                assert(now[before.len() as int] == text);
            }
        }
    }
}

} // verus!
