//! AWS access keys as they stand in credential files.

use vstd::prelude::*;
use crate::model::result_view;
use crate::json::{parse_json, parsed_json, text_of, Json};
use crate::text::{
    after_prefix, ascii_lower, before_suffix, begins, cut, either, eq_ignore_ascii_case,
    lemma_parts_are_cut, line_list, lines, opt_text, or_text, split_once, starts_with, str_eq,
    strip_prefix, strip_suffix, texts, to_ascii_lowercase, trim, trimmed, unwrap_text,
};

verus! {

/// An access key, its secret and the token of a session.
#[derive(Clone, Debug)]
pub struct AwsCredentials {
    pub access_key: String,
    pub secret_key: String,
    pub session_token: Option<String>,
}

/// What an `AwsCredentials` says.
#[verifier::ext_equal]
pub struct AwsCredentialsView {
    pub access_key: Seq<char>,
    pub secret_key: Seq<char>,
    pub session_token: Option<Seq<char>>,
}

impl View for AwsCredentials {
    type V = AwsCredentialsView;

    open spec fn view(&self) -> AwsCredentialsView {
        AwsCredentialsView {
            access_key: self.access_key@,
            secret_key: self.secret_key@,
            session_token: opt_text(self.session_token),
        }
    }
}

/// The text of the first field named `key`, whatever the case, at or after `i`.
pub open spec fn named_text(fields: Seq<(String, Json)>, key: Seq<char>, i: int) -> Option<Seq<char>>
    decreases fields.len() - i,
{
    if i < 0 || i >= fields.len() {
        None
    } else if ascii_lower(fields[i].0@) == ascii_lower(key) {
        text_of(Some(fields[i].1))
    } else {
        named_text(fields, key, i + 1)
    }
}

fn find_named(fields: &Vec<(String, Json)>, key: &str) -> (value: Option<String>)
    ensures
        opt_text(value) == named_text(fields@, key@, 0),
{
    let mut i: usize = 0;
    while i < fields.len()
        invariant
            i <= fields@.len(),
            named_text(fields@, key@, 0) == named_text(fields@, key@, i as int),
        decreases fields@.len() - i,
    {
        if eq_ignore_ascii_case(fields[i].0.as_str(), key) {
            return fields[i].1.as_text();
        }
        i = i + 1;
    }
    None
}

/// The text under the first of four names that has one.
pub open spec fn text_under(fields: Seq<(String, Json)>, a: Seq<char>, b: Seq<char>, c: Seq<char>, d: Seq<char>) -> Option<Seq<char>> {
    either(
        named_text(fields, a, 0),
        either(
            named_text(fields, b, 0),
            either(named_text(fields, c, 0), named_text(fields, d, 0)),
        ),
    )
}

pub fn get_case_insensitive(fields: &Vec<(String, Json)>, a: &str, b: &str, c: &str, d: &str) -> (value: Option<String>)
    ensures
        opt_text(value) == text_under(fields@, a@, b@, c@, d@),
{
    let last = or_text(&find_named(fields, c), &find_named(fields, d));
    let rest = or_text(&find_named(fields, b), &last);
    or_text(&find_named(fields, a), &rest)
}

/// The credentials that a JSON document holds.
pub open spec fn json_credentials(value: Json) -> Result<AwsCredentialsView, Seq<char>> {
    match value {
        Json::Object(fields) => {
            let access = text_under(
                fields@,
                "access_key_id"@,
                "accessKeyId"@,
                "aws_access_key_id"@,
                "AccessKeyId"@,
            );
            let secret = text_under(
                fields@,
                "secret_access_key"@,
                "secretAccessKey"@,
                "aws_secret_access_key"@,
                "SecretAccessKey"@,
            );
            if access is None {
                Err("Missing access_key_id in credential JSON"@)
            } else if secret is None {
                Err("Missing secret_access_key in credential JSON"@)
            } else {
                Ok(
                    AwsCredentialsView {
                        access_key: access->0,
                        secret_key: secret->0,
                        session_token: text_under(
                            fields@,
                            "session_token"@,
                            "sessionToken"@,
                            "aws_session_token"@,
                            "SessionToken"@,
                        ),
                    },
                )
            }
        },
        _ => Err("Credential JSON must be an object"@),
    }
}

pub fn credentials_from_json(value: &Json) -> (credentials: Result<AwsCredentials, String>)
    ensures
        result_view(credentials) == json_credentials(*value),
{
    match value {
        Json::Object(fields) => {
            let access = get_case_insensitive(
                fields,
                "access_key_id",
                "accessKeyId",
                "aws_access_key_id",
                "AccessKeyId",
            );
            let secret = get_case_insensitive(
                fields,
                "secret_access_key",
                "secretAccessKey",
                "aws_secret_access_key",
                "SecretAccessKey",
            );
            match (access, secret) {
                (None, _) => Err("Missing access_key_id in credential JSON".to_owned()),
                (Some(_), None) => Err("Missing secret_access_key in credential JSON".to_owned()),
                (Some(access_key), Some(secret_key)) => Ok(
                    AwsCredentials {
                        access_key,
                        secret_key,
                        session_token: get_case_insensitive(
                            fields,
                            "session_token",
                            "sessionToken",
                            "aws_session_token",
                            "SessionToken",
                        ),
                    },
                ),
            }
        },
        _ => Err("Credential JSON must be an object".to_owned()),
    }
}

/// A value without the quotes around it, where both are there.
pub open spec fn unquoted_by(value: Seq<char>, quote: Seq<char>) -> Option<Seq<char>> {
    match after_prefix(value, quote) {
        Some(rest) => before_suffix(rest, quote),
        None => None,
    }
}

fn unquote_by(value: &str, quote: &str) -> (inner: Option<String>)
    ensures
        opt_text(inner) == unquoted_by(value@, quote@),
{
    match strip_prefix(value, quote) {
        Some(rest) => strip_suffix(rest.as_str(), quote),
        None => None,
    }
}

/// A value without the double or the single quotes around it.
pub open spec fn unquoted(value: Seq<char>) -> Seq<char> {
    match either(unquoted_by(value, "\""@), unquoted_by(value, "'"@)) {
        Some(inner) => inner,
        None => value,
    }
}

pub fn unquote(value: &str) -> (inner: String)
    ensures
        inner@ == unquoted(value@),
{
    let found = or_text(&unquote_by(value, "\""), &unquote_by(value, "'"));
    unwrap_text(&found, value)
}

/// The key and the value that a line assigns: a line that is empty or a comment assigns nothing,
/// and an `export` before the key is passed over.
pub open spec fn assignment(line: Seq<char>) -> Option<(Seq<char>, Seq<char>)> {
    let text = trimmed(line);
    if begins(text, "#"@) || text.len() == 0 {
        None
    } else {
        match cut(text, "="@) {
            None => None,
            Some(parts) => {
                let key = match after_prefix(trimmed(parts.0), "export "@) {
                    Some(rest) => rest,
                    None => trimmed(parts.0),
                };
                Some((ascii_lower(key), unquoted(trimmed(parts.1))))
            },
        }
    }
}

/// A key and its value as texts.
pub open spec fn pair_view(pair: Option<(String, String)>) -> Option<(Seq<char>, Seq<char>)> {
    match pair {
        Some(found) => Some((found.0@, found.1@)),
        None => None,
    }
}

pub fn read_assignment(line: &str) -> (pair: Option<(String, String)>)
    ensures
        pair_view(pair) == assignment(line@),
{
    let text = trim(line);
    if starts_with(text.as_str(), "#") || text.as_str().is_empty() {
        return None;
    }
    match split_once(text.as_str(), "=") {
        None => None,
        Some((left, right)) => {
            let bare = trim(left.as_str());
            let stripped = strip_prefix(bare.as_str(), "export ");
            let key = unwrap_text(&stripped, bare.as_str());
            let value = trim(right.as_str());
            Some((to_ascii_lowercase(key.as_str()), unquote(value.as_str())))
        },
    }
}

/// The value that the first `n` lines assign to one of two keys, the last assignment before any
/// other.
pub open spec fn assigned(lines: Seq<Seq<char>>, a: Seq<char>, b: Seq<char>, n: int) -> Option<Seq<char>>
    decreases n,
{
    if n <= 0 {
        None
    } else {
        match assignment(lines[n - 1]) {
            Some(pair) => if pair.0 == a || pair.0 == b {
                Some(pair.1)
            } else {
                assigned(lines, a, b, n - 1)
            },
            None => assigned(lines, a, b, n - 1),
        }
    }
}

/// The value that a text assigns to one of two keys.
pub open spec fn assigned_in(raw: Seq<char>, a: Seq<char>, b: Seq<char>) -> Option<Seq<char>> {
    assigned(line_list(raw), a, b, line_list(raw).len() as int)
}

fn find_assigned(raw: &str, a: &str, b: &str) -> (value: Option<String>)
    ensures
        opt_text(value) == assigned_in(raw@, a@, b@),
{
    let list = lines(raw);
    let mut value: Option<String> = None;
    let mut i: usize = 0;
    while i < list.len()
        invariant
            i <= list@.len(),
            opt_text(value) == assigned(texts(list@), a@, b@, i as int),
        decreases list@.len() - i,
    {
        assert(texts(list@)[i as int] == list@[i as int]@);
        match read_assignment(list[i].as_str()) {
            Some((key, found)) => {
                if str_eq(key.as_str(), a) || str_eq(key.as_str(), b) {
                    value = Some(found);
                }
            },
            None => {},
        }
        i = i + 1;
    }
    value
}

/// The credentials that a file of assignments holds.
pub open spec fn kv_credentials(raw: Seq<char>) -> Result<AwsCredentialsView, Seq<char>> {
    let access = assigned_in(raw, "aws_access_key_id"@, "access_key_id"@);
    let secret = assigned_in(raw, "aws_secret_access_key"@, "secret_access_key"@);
    if access is None {
        Err("Missing aws_access_key_id in credential file"@)
    } else if secret is None {
        Err("Missing aws_secret_access_key in credential file"@)
    } else {
        Ok(
            AwsCredentialsView {
                access_key: access->0,
                secret_key: secret->0,
                session_token: assigned_in(raw, "aws_session_token"@, "session_token"@),
            },
        )
    }
}

pub fn credentials_from_kv(raw: &str) -> (credentials: Result<AwsCredentials, String>)
    ensures
        result_view(credentials) == kv_credentials(raw@),
{
    let access = find_assigned(raw, "aws_access_key_id", "access_key_id");
    let secret = find_assigned(raw, "aws_secret_access_key", "secret_access_key");
    match (access, secret) {
        (None, _) => Err("Missing aws_access_key_id in credential file".to_owned()),
        (Some(_), None) => Err("Missing aws_secret_access_key in credential file".to_owned()),
        (Some(access_key), Some(secret_key)) => Ok(
            AwsCredentials {
                access_key,
                secret_key,
                session_token: find_assigned(raw, "aws_session_token", "session_token"),
            },
        ),
    }
}

/// The credentials that a file holds: JSON where it is JSON, else assignments.
pub open spec fn file_credentials(raw: Seq<char>) -> Result<AwsCredentialsView, Seq<char>> {
    match parsed_json(raw) {
        Ok(value) => json_credentials(value),
        Err(_) => kv_credentials(raw),
    }
}

pub fn load_credentials(raw: &str) -> (credentials: Result<AwsCredentials, String>)
    ensures
        result_view(credentials) == file_credentials(raw@),
{
    match parse_json(raw) {
        Ok(value) => credentials_from_json(&value),
        Err(_) => credentials_from_kv(raw),
    }
}

proof fn lemma_named_text(fields: Seq<(String, Json)>, key: Seq<char>, i: int, k: int)
    requires
        0 <= i <= k < fields.len(),
        ascii_lower(fields[k].0@) == ascii_lower(key),
        forall|j: int| 0 <= j < k ==> ascii_lower((#[trigger] fields[j]).0@) != ascii_lower(key),
    ensures
        named_text(fields, key, i) == text_of(Some(fields[k].1)),
    decreases k - i,
{
    if i < k {
        assert(ascii_lower(fields[i].0@) != ascii_lower(key));
        lemma_named_text(fields, key, i + 1, k);
    }
}

/// An object that holds the ID and the secret of a key under their names, whatever the case of these, holds
/// that credential, with the token of the session where there is one.
pub proof fn lemma_objects_hold_credentials(fields: Vec<(String, Json)>, i: int, j: int)
    requires
        0 <= i < fields@.len(),
        0 <= j < fields@.len(),
        ascii_lower(fields@[i].0@) == "access_key_id"@,
        ascii_lower(fields@[j].0@) == "secret_access_key"@,
        text_of(Some(fields@[i].1)) is Some,
        text_of(Some(fields@[j].1)) is Some,
        forall|k: int| 0 <= k < i ==> ascii_lower((#[trigger] fields@[k]).0@) != "access_key_id"@,
        forall|k: int| 0 <= k < j ==> ascii_lower((#[trigger] fields@[k]).0@) != "secret_access_key"@,
    ensures
        ({
            let found = json_credentials(Json::Object(fields));
            &&& found is Ok
            &&& Some(found->Ok_0.access_key) == text_of(Some(fields@[i].1))
            &&& Some(found->Ok_0.secret_key) == text_of(Some(fields@[j].1))
        }),
{
    reveal_strlit("access_key_id");
    reveal_strlit("secret_access_key");
    assert(ascii_lower("access_key_id"@) =~= "access_key_id"@);
    assert(ascii_lower("secret_access_key"@) =~= "secret_access_key"@);
    lemma_named_text(fields@, "access_key_id"@, 0, i);
    lemma_named_text(fields@, "secret_access_key"@, 0, j);
}

/// A document that is no object, or lacks the ID or the secret of a key under every name, is refused.
pub proof fn lemma_incomplete_objects_are_refused(value: Json)
    ensures
        match value {
            Json::Object(fields) => (forall|k: int|
                0 <= k < fields@.len() ==> text_of(Some((#[trigger] fields@[k]).1)) is None)
                ==> json_credentials(value) is Err,
            _ => json_credentials(value) is Err,
        },
{
    match value {
        Json::Object(fields) => {
            if forall|k: int| 0 <= k < fields@.len() ==> text_of(Some((#[trigger] fields@[k]).1)) is None {
                lemma_no_text(fields@, "access_key_id"@, 0);
                lemma_no_text(fields@, "accessKeyId"@, 0);
                lemma_no_text(fields@, "aws_access_key_id"@, 0);
                lemma_no_text(fields@, "AccessKeyId"@, 0);
            }
        },
        _ => {},
    }
}

proof fn lemma_no_text(fields: Seq<(String, Json)>, key: Seq<char>, i: int)
    requires
        0 <= i <= fields.len(),
        forall|k: int| 0 <= k < fields.len() ==> text_of(Some((#[trigger] fields[k]).1)) is None,
    ensures
        named_text(fields, key, i) is None,
    decreases fields.len() - i,
{
    if i < fields.len() {
        assert(text_of(Some(fields[i].1)) is None);
        lemma_no_text(fields, key, i + 1);
    }
}

/// Of several lines that assign a value to a key the last counts, under whichever of its two names.
pub proof fn lemma_last_assignment_counts(lines: Seq<Seq<char>>, a: Seq<char>, b: Seq<char>, n: int, k: int)
    requires
        0 <= k < n <= lines.len(),
        assignment(lines[k]) is Some,
        ({
            let (key, _) = assignment(lines[k])->0;
            key == a || key == b
        }),
        forall|j: int|
            k < j < n ==> match assignment(#[trigger] lines[j]) {
                Some((key, _)) => key != a && key != b,
                None => true,
            },
    ensures
        ({
            let (_, value) = assignment(lines[k])->0;
            assigned(lines, a, b, n) == Some(value)
        }),
    decreases n,
{
    if k < n - 1 {
        assert(match assignment(lines[n - 1]) {
            Some((key, _)) => key != a && key != b,
            None => true,
        });
        lemma_last_assignment_counts(lines, a, b, n - 1, k);
    }
}

/// A line assigns what follows the first `=` in it to what precedes it, in lower case and without an
/// `export`; the quotes around a value are taken off, and a comment assigns nothing.
pub proof fn lemma_lines_assign(line: Seq<char>, key: Seq<char>, value: Seq<char>)
    requires
        trimmed(line) == key + seq!['='] + value,
        !key.contains('='),
    ensures
        begins(trimmed(line), "#"@) ==> assignment(line) is None,
        !begins(trimmed(line), "#"@) ==> assignment(line) is Some,
        !begins(trimmed(line), "#"@) && !begins(trimmed(key), "export "@) ==> assignment(line) == Some(
            (ascii_lower(trimmed(key)), unquoted(trimmed(value))),
        ),
        !begins(trimmed(line), "#"@) && begins(trimmed(key), "export "@) ==> assignment(line) == Some(
            (ascii_lower(trimmed(key).skip(7)), unquoted(trimmed(value))),
        ),
        unquoted(seq!['"'] + value + seq!['"']) == value,
        !begins(value, "\""@) && !begins(value, "'"@) ==> unquoted(value) == value,
{
    reveal_strlit("=");
    reveal_strlit("export ");
    reveal_strlit("\"");
    assert("="@ =~= seq!['=']);
    assert("\""@ =~= seq!['"']);
    lemma_parts_are_cut(key, '=', value);
    let quoted = seq!['"'] + value + seq!['"'];
    assert(quoted.subrange(0, 1) =~= seq!['"']);
    let rest = quoted.skip(1);
    assert(rest =~= value + seq!['"']);
    assert(rest.subrange(rest.len() - 1, rest.len() as int) =~= seq!['"']);
    assert(rest.take(rest.len() - 1) =~= value);
}

} // verus!
