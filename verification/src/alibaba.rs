//! Alibaba Cloud access keys.

use vstd::prelude::*;
use vstd::utf8::encode_utf8;
use crate::encoding::{base64_text, encode_base64, hmac_sha1, hmac_sha1_of};
use crate::json::{field, parse_json, parsed_json, text_of, Json};
use crate::keyed::{lemma_put_keeps, no_pairs, put, put_pair};
use crate::mapping::{build_recommendations, recommendations};
use crate::model::{
    binding, empty_access_token_details, empty_permission_summary, exposure, no_views, one_view,
    pairs, push_view, result_view, views, AccessMapResult, AccessMapResultView, AccessSummary,
    AccessSummaryView, AccessTokenDetails, AccessTokenDetailsView, PermissionSummary,
    ResourceExposure, ResourceExposureView, RoleBinding, Severity,
};
use crate::text::{
    ascii_lower, bare_text, begins, cat2, cat3, copy_opt, cut, either, eq_ignore_ascii_case, join,
    joined, keep_bare, lemma_parts_are_cut, line_list, lines, no_texts, one_text, opt_text, or_text,
    push_text, raised, slices, split_once, starts_with, str_eq, text_or, texts, to_ascii_lowercase,
    to_uppercase, trim, trim_end_char, trim_start_char, trimmed, unwrap_text, without_leading,
    without_trailing,
};
use crate::url::{parse_url_with_params, url_with_params};

verus! {

pub const STS_API: &'static str = "https://sts.aliyuncs.com/";

/// Who a key belongs to, as `GetCallerIdentity` says it.
#[derive(Debug)]
pub struct CallerIdentity {
    pub identity_type: Option<String>,
    pub account_id: Option<String>,
    pub arn: Option<String>,
    pub user_id: Option<String>,
    pub principal_id: Option<String>,
    pub role_id: Option<String>,
}

/// Whether a byte is written as an escape in a signed request: a control character, one of the
/// reserved characters, or a part of a character outside ASCII.
pub open spec fn escapes(byte: u8) -> bool {
    ||| byte < 0x20
    ||| byte >= 0x7f
    ||| byte == 0x20
    ||| byte == 0x22
    ||| byte == 0x23
    ||| byte == 0x25
    ||| byte == 0x26
    ||| byte == 0x2a
    ||| byte == 0x2b
    ||| byte == 0x2f
    ||| 0x3a <= byte <= 0x40
    ||| 0x5b <= byte <= 0x5e
    ||| byte == 0x60
    ||| 0x7b <= byte <= 0x7d
}

/// A hexadecimal digit.
pub open spec fn hex_digit(n: u8) -> char {
    if n < 10 {
        (48 + n) as u8 as char
    } else {
        (55 + n) as u8 as char
    }
}

/// How a byte is written in a signed request.
pub open spec fn encoded_byte(byte: u8) -> Seq<char> {
    if escapes(byte) {
        seq!['%', hex_digit(byte / 16), hex_digit(byte % 16)]
    } else {
        seq![byte as char]
    }
}

/// How the first `n` bytes are written in a signed request.
pub open spec fn encoded_bytes(bytes: Seq<u8>, n: int) -> Seq<char>
    decreases n,
{
    if n <= 0 {
        Seq::empty()
    } else {
        encoded_bytes(bytes, n - 1) + encoded_byte(bytes[n - 1])
    }
}

/// How a text is written in a signed request: by its UTF-8 bytes.
pub open spec fn openapi_encoded(text: Seq<char>) -> Seq<char> {
    encoded_bytes(encode_utf8(text), encode_utf8(text).len() as int)
}

fn is_escaped(byte: u8) -> (yes: bool)
    ensures
        yes == escapes(byte),
{
    byte < 0x20 || byte >= 0x7f || byte == 0x20 || byte == 0x22 || byte == 0x23 || byte == 0x25
        || byte == 0x26 || byte == 0x2a || byte == 0x2b || byte == 0x2f || (0x3a <= byte && byte
        <= 0x40) || (0x5b <= byte && byte <= 0x5e) || byte == 0x60 || (0x7b <= byte && byte
        <= 0x7d)
}

fn hex_char(n: u8) -> (c: char)
    requires
        n < 16,
    ensures
        c == hex_digit(n),
{
    if n < 10 {
        (48 + n) as char
    } else {
        (55 + n) as char
    }
}

pub fn encode_openapi(value: &str) -> (encoded: String)
    ensures
        encoded@ == openapi_encoded(value@),
{
    let bytes = value.as_bytes();
    let mut encoded: String = String::new();
    let mut i: usize = 0;
    assert(encoded@ =~= encoded_bytes(bytes@, 0));
    while i < bytes.len()
        invariant
            i <= bytes@.len(),
            encoded@ == encoded_bytes(bytes@, i as int),
        decreases bytes@.len() - i,
    {
        let byte: u8 = bytes[i];
        let ghost before = encoded@;
        if is_escaped(byte) {
            encoded.push('%');
            encoded.push(hex_char(byte / 16));
            encoded.push(hex_char(byte % 16));
        } else {
            encoded.push(byte as char);
        }
        assert(encoded@ =~= before + encoded_byte(byte));
        i = i + 1;
    }
    encoded
}

/// A signed request holds no reserved character but the escape sign.
pub proof fn lemma_encoded_is_plain(bytes: Seq<u8>, n: int)
    requires
        0 <= n <= bytes.len(),
    ensures
        forall|k: int|
            0 <= k < encoded_bytes(bytes, n).len() ==> {
                let c = #[trigger] encoded_bytes(bytes, n)[k];
                c == '%' || (c as u32) < 0x7f && !escapes(c as u8)
            },
    decreases n,
{
    if n > 0 {
        lemma_encoded_is_plain(bytes, n - 1);
        let head = encoded_bytes(bytes, n - 1);
        let byte = bytes[n - 1];
        assert(byte / 16 < 16);
        assert(byte % 16 < 16);
        assert forall|k: int| 0 <= k < encoded_bytes(bytes, n).len() implies {
            let c = #[trigger] encoded_bytes(bytes, n)[k];
            c == '%' || (c as u32) < 0x7f && !escapes(c as u8)
        } by {
            if k < head.len() {
                assert(encoded_bytes(bytes, n)[k] == head[k]);
            } else {
                assert(encoded_bytes(bytes, n)[k] == encoded_byte(byte)[k - head.len()]);
            }
        }
    }
}

/// The parameters, each with `=` between name and value.
pub open spec fn query_items(params: Seq<(Seq<char>, Seq<char>)>) -> Seq<Seq<char>> {
    params.map_values(
        |param: (Seq<char>, Seq<char>)| openapi_encoded(param.0) + "="@ + openapi_encoded(param.1),
    )
}

/// The query that is signed.
pub open spec fn canonical_query(params: Seq<(Seq<char>, Seq<char>)>) -> Seq<char> {
    joined(query_items(params), "&"@)
}

pub fn canonical_query_string(params: &Vec<(String, String)>) -> (query: String)
    ensures
        query@ == canonical_query(pairs(params@)),
{
    let mut items: Vec<String> = Vec::new();
    let mut i: usize = 0;
    while i < params.len()
        invariant
            i <= params@.len(),
            items@.len() == i,
            forall|k: int|
                0 <= k < i ==> (#[trigger] items@[k])@ == openapi_encoded(params@[k].0@) + "="@
                    + openapi_encoded(params@[k].1@),
        decreases params@.len() - i,
    {
        let name = encode_openapi(params[i].0.as_str());
        let value = encode_openapi(params[i].1.as_str());
        items.push(cat3(name.as_str(), "=", value.as_str()));
        i = i + 1;
    }
    assert(texts(items@) =~= query_items(pairs(params@)));
    join(&items, "&")
}

/// The parameters of a request for the caller's identity, in the order of their names.
pub open spec fn identity_params(
    access_key: Seq<char>,
    session_token: Option<Seq<char>>,
    nonce: Seq<char>,
    timestamp: Seq<char>,
) -> Seq<(Seq<char>, Seq<char>)> {
    let start = put(
        put(
            put(
                put(
                    put(
                        put(
                            put(
                                put(Seq::empty(), "AccessKeyId"@, access_key),
                                "Action"@,
                                "GetCallerIdentity"@,
                            ),
                            "Format"@,
                            "JSON"@,
                        ),
                        "SignatureMethod"@,
                        "HMAC-SHA1"@,
                    ),
                    "SignatureNonce"@,
                    raised(nonce),
                ),
                "SignatureVersion"@,
                "1.0"@,
            ),
            "Timestamp"@,
            timestamp,
        ),
        "Version"@,
        "2015-04-01"@,
    );
    match session_token {
        Some(token) => put(start, "SecurityToken"@, token),
        None => start,
    }
}

/// The signature over the parameters of a request.
pub open spec fn signature_of(secret_key: Seq<char>, params: Seq<(Seq<char>, Seq<char>)>) -> Seq<char> {
    base64_text(
        hmac_sha1_of(
            encode_utf8(secret_key + "&"@),
            encode_utf8("GET&%2F&"@ + openapi_encoded(canonical_query(params))),
        ),
    )
}

/// The URL of a signed request for the caller's identity.
pub open spec fn sts_url(
    access_key: Seq<char>,
    secret_key: Seq<char>,
    session_token: Option<Seq<char>>,
    nonce: Seq<char>,
    timestamp: Seq<char>,
) -> Result<Seq<char>, Seq<char>> {
    let params = identity_params(access_key, session_token, nonce, timestamp);
    url_with_params(STS_API@, put(params, "Signature"@, signature_of(secret_key, params)))
}

fn make_params(
    access_key: &str,
    session_token: &Option<String>,
    nonce: &str,
    timestamp: &str,
) -> (params: Vec<(String, String)>)
    ensures
        pairs(params@) == identity_params(access_key@, opt_text(*session_token), nonce@, timestamp@),
{
    let mut params = no_pairs();
    put_pair(&mut params, "AccessKeyId".to_owned(), access_key.to_owned());
    put_pair(&mut params, "Action".to_owned(), "GetCallerIdentity".to_owned());
    put_pair(&mut params, "Format".to_owned(), "JSON".to_owned());
    put_pair(&mut params, "SignatureMethod".to_owned(), "HMAC-SHA1".to_owned());
    put_pair(&mut params, "SignatureNonce".to_owned(), to_uppercase(nonce));
    put_pair(&mut params, "SignatureVersion".to_owned(), "1.0".to_owned());
    put_pair(&mut params, "Timestamp".to_owned(), timestamp.to_owned());
    put_pair(&mut params, "Version".to_owned(), "2015-04-01".to_owned());
    match session_token {
        Some(token) => put_pair(&mut params, "SecurityToken".to_owned(), token.clone()),
        None => {},
    }
    params
}

/// Makes and signs the request for the caller's identity. `nonce` is unique to the request and
/// `timestamp` is when it is made.
pub fn signed_sts_url(
    access_key: &str,
    secret_key: &str,
    session_token: &Option<String>,
    nonce: &str,
    timestamp: &str,
) -> (url: Result<String, String>)
    ensures
        result_view(url) == sts_url(
            access_key@,
            secret_key@,
            opt_text(*session_token),
            nonce@,
            timestamp@,
        ),
{
    let mut params = make_params(access_key, session_token, nonce, timestamp);
    let query = canonical_query_string(&params);
    let message = cat2("GET&%2F&", encode_openapi(query.as_str()).as_str());
    let key = cat2(secret_key, "&");
    let code = hmac_sha1(key.as_str().as_bytes(), message.as_str().as_bytes());
    put_pair(&mut params, "Signature".to_owned(), encode_base64(code.as_slice()));
    parse_url_with_params(STS_API, &params)
}

/// The first text, at or after the `i`-th key, that is more than white space.
pub open spec fn bare_at_keys(value: Json, keys: Seq<Seq<char>>, i: int) -> Option<Seq<char>>
    decreases keys.len() - i,
{
    if i < 0 || i >= keys.len() {
        None
    } else {
        match bare_text(text_of(field(value, keys[i]))) {
            Some(text) => Some(text),
            None => bare_at_keys(value, keys, i + 1),
        }
    }
}

pub fn value_as_string(json: &Json, keys: &[&str]) -> (text: Option<String>)
    ensures
        opt_text(text) == bare_at_keys(*json, slices(keys@), 0),
{
    let mut i: usize = 0;
    while i < keys.len()
        invariant
            i <= keys@.len(),
            bare_at_keys(*json, slices(keys@), 0) == bare_at_keys(*json, slices(keys@), i as int),
        decreases keys@.len() - i,
    {
        assert(slices(keys@)[i as int] == keys@[i as int]@);
        match keep_bare(&json.text_at(keys[i])) {
            Some(text) => {
                return Some(text);
            },
            None => {},
        }
        i = i + 1;
    }
    None
}

/// The value under a key, at or after the `j`-th pair.
pub open spec fn value_for(values: Seq<(Seq<char>, Seq<char>)>, key: Seq<char>, j: int) -> Option<
    Seq<char>,
>
    decreases values.len() - j,
{
    if j < 0 || j >= values.len() {
        None
    } else if values[j].0 == key {
        Some(values[j].1)
    } else {
        value_for(values, key, j + 1)
    }
}

/// The value under the first of the keys, from the `i`-th on, that is there.
pub open spec fn present_at(
    values: Seq<(Seq<char>, Seq<char>)>,
    keys: Seq<Seq<char>>,
    i: int,
) -> Option<Seq<char>>
    decreases keys.len() - i,
{
    if i < 0 || i >= keys.len() {
        None
    } else {
        match value_for(values, keys[i], 0) {
            Some(value) => Some(value),
            None => present_at(values, keys, i + 1),
        }
    }
}

/// The value under the first key that is there, unless it is empty.
pub open spec fn present_value(values: Seq<(Seq<char>, Seq<char>)>, keys: Seq<Seq<char>>) -> Option<
    Seq<char>,
> {
    match present_at(values, keys, 0) {
        Some(value) => if value.len() > 0 {
            Some(value)
        } else {
            None
        },
        None => None,
    }
}

fn find_value(values: &Vec<(String, String)>, key: &str) -> (value: Option<String>)
    ensures
        opt_text(value) == value_for(pairs(values@), key@, 0),
{
    let mut j: usize = 0;
    while j < values.len()
        invariant
            j <= values@.len(),
            value_for(pairs(values@), key@, 0) == value_for(pairs(values@), key@, j as int),
        decreases values@.len() - j,
    {
        if str_eq(values[j].0.as_str(), key) {
            return Some(values[j].1.clone());
        }
        j = j + 1;
    }
    None
}

pub fn first_present(values: &Vec<(String, String)>, keys: &[&str]) -> (value: Option<String>)
    ensures
        opt_text(value) == present_value(pairs(values@), slices(keys@)),
{
    let mut i: usize = 0;
    while i < keys.len()
        invariant
            i <= keys@.len(),
            present_at(pairs(values@), slices(keys@), 0) == present_at(
                pairs(values@),
                slices(keys@),
                i as int,
            ),
        decreases keys@.len() - i,
    {
        assert(slices(keys@)[i as int] == keys@[i as int]@);
        match find_value(values, keys[i]) {
            Some(value) => {
                return if value.as_str().is_empty() {
                    None
                } else {
                    Some(value)
                };
            },
            None => {},
        }
        i = i + 1;
    }
    None
}

/// A line that says something: no comment and more than white space.
pub open spec fn says_something(line: Seq<char>) -> bool {
    trimmed(line).len() > 0 && !begins(trimmed(line), "#"@)
}

/// A value without the double quotes at either end.
pub open spec fn unquoted(value: Seq<char>) -> Seq<char> {
    without_trailing(without_leading(trimmed(value), '"'), '"')
}

/// What the first `n` lines assign, with `=` or `:`, under keys in lower case.
pub open spec fn assigned_upto(list: Seq<Seq<char>>, n: int) -> Seq<(Seq<char>, Seq<char>)>
    decreases n,
{
    if n <= 0 {
        Seq::empty()
    } else {
        let before = assigned_upto(list, n - 1);
        if !says_something(list[n - 1]) {
            before
        } else {
            let line = trimmed(list[n - 1]);
            match cut(line, "="@) {
                Some((key, value)) => put(before, ascii_lower(trimmed(key)), unquoted(value)),
                None => match cut(line, ":"@) {
                    Some((key, value)) => put(before, ascii_lower(trimmed(key)), unquoted(value)),
                    None => before,
                },
            }
        }
    }
}

/// Those of the first `n` lines that say something.
pub open spec fn said_upto(list: Seq<Seq<char>>, n: int) -> Seq<Seq<char>>
    decreases n,
{
    if n <= 0 {
        Seq::empty()
    } else if says_something(list[n - 1]) {
        said_upto(list, n - 1).push(trimmed(list[n - 1]))
    } else {
        said_upto(list, n - 1)
    }
}

/// The names under which JSON holds the ID of a key.
pub open spec fn json_id_keys() -> Seq<Seq<char>> {
    seq![
        "access_key_id"@,
        "accessKeyId"@,
        "AccessKeyId"@,
        "alibaba_access_key_id"@,
        "alibabacloud_access_key_id"@,
        "aliyun_access_key_id"@,
    ]
}

/// The names under which JSON holds the secret of a key.
pub open spec fn json_secret_keys() -> Seq<Seq<char>> {
    seq![
        "access_key_secret"@,
        "accessKeySecret"@,
        "AccessKeySecret"@,
        "secret_access_key"@,
        "secretAccessKey"@,
        "SecretAccessKey"@,
        "alibaba_access_key_secret"@,
        "alibabacloud_access_key_secret"@,
        "aliyun_access_key_secret"@,
    ]
}

/// The names under which JSON holds the token of a session.
pub open spec fn json_token_keys() -> Seq<Seq<char>> {
    seq![
        "security_token"@,
        "securityToken"@,
        "SecurityToken"@,
        "session_token"@,
        "sessionToken"@,
        "SessionToken"@,
    ]
}

/// The names under which lines hold the ID of a key.
pub open spec fn line_id_keys() -> Seq<Seq<char>> {
    seq![
        "accesskeyid"@,
        "access_key_id"@,
        "alibaba_access_key_id"@,
        "alibabacloud_access_key_id"@,
        "aliyun_access_key_id"@,
    ]
}

/// The names under which lines hold the secret of a key.
pub open spec fn line_secret_keys() -> Seq<Seq<char>> {
    seq![
        "accesskeysecret"@,
        "access_key_secret"@,
        "secret_access_key"@,
        "alibaba_access_key_secret"@,
        "alibabacloud_access_key_secret"@,
        "aliyun_access_key_secret"@,
    ]
}

/// The names under which lines hold the token of a session.
pub open spec fn line_token_keys() -> Seq<Seq<char>> {
    seq!["securitytoken"@, "security_token"@, "sessiontoken"@, "session_token"@]
}

/// The key, the secret and the session token in a JSON document, where it has the first two.
pub open spec fn json_credentials(value: Json) -> Option<(Seq<char>, Seq<char>, Option<Seq<char>>)> {
    let id = bare_at_keys(value, json_id_keys(), 0);
    let secret = bare_at_keys(value, json_secret_keys(), 0);
    if id is Some && secret is Some {
        Some((id->0, secret->0, bare_at_keys(value, json_token_keys(), 0)))
    } else {
        None
    }
}

/// The key, the secret and the session token that lines assign, where they assign the first two.
pub open spec fn line_credentials(list: Seq<Seq<char>>) -> Option<
    (Seq<char>, Seq<char>, Option<Seq<char>>),
> {
    let values = assigned_upto(list, list.len() as int);
    let id = present_value(values, line_id_keys());
    let secret = present_value(values, line_secret_keys());
    if id is Some && secret is Some {
        Some((id->0, secret->0, present_value(values, line_token_keys())))
    } else {
        None
    }
}

/// The key, the secret and the session token that stand in lines by themselves.
pub open spec fn bare_credentials(list: Seq<Seq<char>>) -> Result<
    (Seq<char>, Seq<char>, Option<Seq<char>>),
    Seq<char>,
> {
    let said = said_upto(list, list.len() as int);
    if said.len() < 2 {
        Err(
            "Alibaba access-map credential file must contain an access key ID and access key secret"@,
        )
    } else if said.len() == 2 {
        Ok((said[0], said[1], None))
    } else {
        Ok((said[0], said[1], Some(said[2])))
    }
}

/// The key, the secret and the session token that a file holds: in a JSON document, as assignments
/// or line by line.
pub open spec fn alibaba_credentials(raw: Seq<char>) -> Result<
    (Seq<char>, Seq<char>, Option<Seq<char>>),
    Seq<char>,
> {
    let from_json = match parsed_json(raw) {
        Ok(value) => json_credentials(value),
        Err(_) => None,
    };
    match from_json {
        Some(found) => Ok(found),
        None => match line_credentials(line_list(raw)) {
            Some(found) => Ok(found),
            None => bare_credentials(line_list(raw)),
        },
    }
}

/// A key, its secret and the token of a session, as texts.
pub open spec fn triple(found: (String, String, Option<String>)) -> (
    Seq<char>,
    Seq<char>,
    Option<Seq<char>>,
) {
    (found.0@, found.1@, opt_text(found.2))
}

/// Reads the credentials out of a JSON document.
pub fn credentials_from_json(value: &Json) -> (found: Option<(String, String, Option<String>)>)
    ensures
        match found {
            Some(credentials) => json_credentials(*value) == Some(triple(credentials)),
            None => json_credentials(*value) is None,
        },
{
    let id_keys: [&str; 6] = [
        "access_key_id",
        "accessKeyId",
        "AccessKeyId",
        "alibaba_access_key_id",
        "alibabacloud_access_key_id",
        "aliyun_access_key_id",
    ];
    assert(slices(id_keys@) =~= json_id_keys());
    let secret_keys: [&str; 9] = [
        "access_key_secret",
        "accessKeySecret",
        "AccessKeySecret",
        "secret_access_key",
        "secretAccessKey",
        "SecretAccessKey",
        "alibaba_access_key_secret",
        "alibabacloud_access_key_secret",
        "aliyun_access_key_secret",
    ];
    assert(slices(secret_keys@) =~= json_secret_keys());
    let token_keys: [&str; 6] = [
        "security_token",
        "securityToken",
        "SecurityToken",
        "session_token",
        "sessionToken",
        "SessionToken",
    ];
    assert(slices(token_keys@) =~= json_token_keys());
    match (value_as_string(value, &id_keys), value_as_string(value, &secret_keys)) {
        (Some(id), Some(secret)) => Some((id, secret, value_as_string(value, &token_keys))),
        _ => None,
    }
}

fn is_said(line: &str) -> (yes: bool)
    ensures
        yes == says_something(line@),
{
    let text = trim(line);
    !text.as_str().is_empty() && !starts_with(text.as_str(), "#")
}

fn unquote(value: &str) -> (inner: String)
    ensures
        inner@ == unquoted(value@),
{
    let bare = trim(value);
    let begun = trim_start_char(bare.as_str(), '"');
    trim_end_char(begun.as_str(), '"')
}

fn read_assignments(list: &Vec<String>) -> (values: Vec<(String, String)>)
    ensures
        pairs(values@) == assigned_upto(texts(list@), list@.len() as int),
{
    let mut values = no_pairs();
    let mut i: usize = 0;
    while i < list.len()
        invariant
            i <= list@.len(),
            pairs(values@) == assigned_upto(texts(list@), i as int),
        decreases list@.len() - i,
    {
        assert(texts(list@)[i as int] == list@[i as int]@);
        if is_said(list[i].as_str()) {
            let line = trim(list[i].as_str());
            let parts = match split_once(line.as_str(), "=") {
                Some(parts) => Some(parts),
                None => split_once(line.as_str(), ":"),
            };
            match parts {
                Some((key, value)) => {
                    let name = trim(key.as_str());
                    put_pair(
                        &mut values,
                        to_ascii_lowercase(name.as_str()),
                        unquote(value.as_str()),
                    );
                },
                None => {},
            }
        }
        i = i + 1;
    }
    values
}

fn read_said(list: &Vec<String>) -> (said: Vec<String>)
    ensures
        texts(said@) == said_upto(texts(list@), list@.len() as int),
{
    let mut said = no_texts();
    let mut i: usize = 0;
    while i < list.len()
        invariant
            i <= list@.len(),
            texts(said@) == said_upto(texts(list@), i as int),
        decreases list@.len() - i,
    {
        assert(texts(list@)[i as int] == list@[i as int]@);
        if is_said(list[i].as_str()) {
            push_text(&mut said, trim(list[i].as_str()));
        }
        i = i + 1;
    }
    said
}

fn credentials_from_lines(list: &Vec<String>) -> (found: Option<(String, String, Option<String>)>)
    ensures
        match found {
            Some(credentials) => line_credentials(texts(list@)) == Some(triple(credentials)),
            None => line_credentials(texts(list@)) is None,
        },
{
    let id_keys: [&str; 5] = [
        "accesskeyid",
        "access_key_id",
        "alibaba_access_key_id",
        "alibabacloud_access_key_id",
        "aliyun_access_key_id",
    ];
    assert(slices(id_keys@) =~= line_id_keys());
    let secret_keys: [&str; 6] = [
        "accesskeysecret",
        "access_key_secret",
        "secret_access_key",
        "alibaba_access_key_secret",
        "alibabacloud_access_key_secret",
        "aliyun_access_key_secret",
    ];
    assert(slices(secret_keys@) =~= line_secret_keys());
    let token_keys: [&str; 4] = ["securitytoken", "security_token", "sessiontoken", "session_token"];
    assert(slices(token_keys@) =~= line_token_keys());
    let values = read_assignments(list);
    match (first_present(&values, &id_keys), first_present(&values, &secret_keys)) {
        (Some(id), Some(secret)) => Some((id, secret, first_present(&values, &token_keys))),
        _ => None,
    }
}

pub fn parse_alibaba_credentials(raw: &str) -> (credentials: Result<
    (String, String, Option<String>),
    String,
>)
    ensures
        match credentials {
            Ok(found) => alibaba_credentials(raw@) == Ok::<
                (Seq<char>, Seq<char>, Option<Seq<char>>),
                Seq<char>,
            >(triple(found)),
            Err(error) => alibaba_credentials(raw@) == Err::<
                (Seq<char>, Seq<char>, Option<Seq<char>>),
                Seq<char>,
            >(error@),
        },
{
    match parse_json(raw) {
        Ok(value) => match credentials_from_json(&value) {
            Some(found) => {
                return Ok(found);
            },
            None => {},
        },
        Err(_) => {},
    }
    let list = lines(raw);
    match credentials_from_lines(&list) {
        Some(found) => {
            return Ok(found);
        },
        None => {},
    }
    let said = read_said(&list);
    if said.len() < 2 {
        return Err(
            "Alibaba access-map credential file must contain an access key ID and access key secret".to_owned(),
        );
    }
    assert(texts(said@)[0] == said@[0]@);
    assert(texts(said@)[1] == said@[1]@);
    let token: Option<String> = if said.len() == 2 {
        None
    } else {
        assert(texts(said@)[2] == said@[2]@);
        Some(said[2].clone())
    };
    Ok((said[0].clone(), said[1].clone(), token))
}

/// How a kind of identity is written.
pub open spec fn identity_kind(identity_type: Seq<char>) -> Seq<char> {
    if ascii_lower(identity_type) == ascii_lower("Account"@) {
        "account"@
    } else if ascii_lower(identity_type) == ascii_lower("RAMUser"@) {
        "ram_user"@
    } else if ascii_lower(identity_type) == ascii_lower("AssumedRoleUser"@) {
        "assumed_role_user"@
    } else {
        ascii_lower(identity_type)
    }
}

pub fn normalize_identity_type(identity_type: &str) -> (kind: String)
    ensures
        kind@ == identity_kind(identity_type@),
{
    if eq_ignore_ascii_case(identity_type, "Account") {
        "account".to_owned()
    } else if eq_ignore_ascii_case(identity_type, "RAMUser") {
        "ram_user".to_owned()
    } else if eq_ignore_ascii_case(identity_type, "AssumedRoleUser") {
        "assumed_role_user".to_owned()
    } else {
        to_ascii_lowercase(identity_type)
    }
}

/// Whether an identity is the account itself.
pub open spec fn is_account(identity_type: Seq<char>) -> bool {
    ascii_lower(identity_type) == ascii_lower("Account"@)
}

/// Whether a credential holds for a session only.
pub open spec fn is_temporary(identity_type: Seq<char>, session: bool) -> bool {
    session || ascii_lower(identity_type) == ascii_lower("AssumedRoleUser"@)
}

/// How grave it is to hold a key.
pub open spec fn identity_severity(identity_type: Seq<char>, session: bool) -> Severity {
    if is_account(identity_type) {
        Severity::Critical
    } else if is_temporary(identity_type, session) {
        Severity::Medium
    } else {
        Severity::High
    }
}

pub fn derive_severity(identity_type: &str, session_token: &Option<String>) -> (severity: Severity)
    ensures
        severity == identity_severity(identity_type@, session_token is Some),
{
    if eq_ignore_ascii_case(identity_type, "Account") {
        Severity::Critical
    } else if session_token.is_some() || eq_ignore_ascii_case(identity_type, "AssumedRoleUser") {
        Severity::Medium
    } else {
        Severity::High
    }
}

/// What follows the first `n` colons of a text, as far as it has them.
pub open spec fn after_colons(text: Seq<char>, n: int) -> Seq<char>
    decreases n,
{
    if n <= 0 {
        text
    } else {
        match cut(text, ":"@) {
            Some((_, rest)) => after_colons(rest, n - 1),
            None => text,
        }
    }
}

/// The kind of resource and the name of the principal in an ARN.
pub open spec fn principal_resource(arn: Seq<char>) -> (Seq<char>, Seq<char>) {
    let resource = after_colons(arn, 4);
    let (kind, rest) = match cut(resource, "/"@) {
        Some(parts) => parts,
        None => (resource, resource),
    };
    (
        if kind == "user"@ {
            "ram_user"@
        } else if kind == "role"@ {
            "ram_role"@
        } else if kind == "assumed-role"@ {
            "ram_assumed_role"@
        } else if kind == "root"@ || kind == "account"@ {
            "account"@
        } else {
            "principal"@
        },
        if rest.len() == 0 {
            arn
        } else {
            rest
        },
    )
}

fn skip_colons(text: &str, n: usize) -> (rest: String)
    ensures
        rest@ == after_colons(text@, n as int),
    decreases n,
{
    if n == 0 {
        text.to_owned()
    } else {
        match split_once(text, ":") {
            Some((_, rest)) => skip_colons(rest.as_str(), n - 1),
            None => text.to_owned(),
        }
    }
}

pub fn classify_principal_resource(arn: &str) -> (found: (&'static str, String))
    ensures
        (found.0@, found.1@) == principal_resource(arn@),
{
    let resource = skip_colons(arn, 4);
    let (kind, rest) = match split_once(resource.as_str(), "/") {
        Some(parts) => parts,
        None => (resource.clone(), resource.clone()),
    };
    let kind = kind.as_str();
    let resource_type: &'static str = if str_eq(kind, "user") {
        "ram_user"
    } else if str_eq(kind, "role") {
        "ram_role"
    } else if str_eq(kind, "assumed-role") {
        "ram_assumed_role"
    } else if str_eq(kind, "root") || str_eq(kind, "account") {
        "account"
    } else {
        "principal"
    };
    let name = if rest.as_str().is_empty() {
        arn.to_owned()
    } else {
        rest
    };
    (resource_type, name)
}

/// The name of the principal in an ARN, where there is one.
pub open spec fn name_in_arn(arn: Option<Seq<char>>) -> Option<Seq<char>> {
    match arn {
        Some(text) => if principal_resource(text).1.len() > 0 {
            Some(principal_resource(text).1)
        } else {
            None
        },
        None => None,
    }
}

pub fn extract_principal_name(arn: &str) -> (name: Option<String>)
    ensures
        opt_text(name) == name_in_arn(Some(arn@)),
{
    let (_, name) = classify_principal_resource(arn);
    if name.as_str().is_empty() {
        None
    } else {
        Some(name)
    }
}

/// What is said of an identity lookup that was refused.
pub fn identity_lookup_failed(status: &str) -> (error: String)
    ensures
        error@ == "Alibaba access-map: STS GetCallerIdentity failed with HTTP "@ + status@,
{
    cat2("Alibaba access-map: STS GetCallerIdentity failed with HTTP ", status)
}

/// The resources that an identity stands for.
pub open spec fn identity_resources(caller: CallerIdentity, id: Seq<char>, risk: Severity) -> Seq<
    ResourceExposureView,
> {
    let found = (match caller.account_id {
        Some(account) => seq![
            exposure(
                "account"@,
                account@,
                Seq::empty(),
                risk,
                "Alibaba Cloud account resolved from STS GetCallerIdentity"@,
            ),
        ],
        None => Seq::empty(),
    }) + (match caller.arn {
        Some(arn) => seq![
            exposure(
                principal_resource(arn@).0,
                principal_resource(arn@).1,
                Seq::empty(),
                risk,
                "Alibaba Cloud principal resolved from STS GetCallerIdentity"@,
            ),
        ],
        None => Seq::empty(),
    });
    if found.len() == 0 {
        seq![
            exposure(
                "principal"@,
                id,
                Seq::empty(),
                risk,
                "Alibaba Cloud identity resolved from STS GetCallerIdentity"@,
            ),
        ]
    } else {
        found
    }
}

/// The notes on an identity.
pub open spec fn identity_notes(identity_type: Seq<char>, session: bool, role: bool) -> Seq<Seq<char>> {
    let start = seq![
        "Alibaba access-map currently resolves caller identity from STS; broad service-level resource enumeration is not yet available."@,
        if is_temporary(identity_type, session) {
            "Credential is an STS temporary session; review the assumed role policy and expiration."@
        } else {
            "Credential is a long-lived access key pair; rotate it promptly if exposure is confirmed."@
        },
    ];
    let with_account = if is_account(identity_type) {
        start.push(
            "Credential belongs to the Alibaba Cloud account principal and may grant broad account-level access."@,
        )
    } else {
        start
    };
    if role {
        with_account.push("Caller identity includes a RAM role context."@)
    } else {
        with_account
    }
}

/// What an Alibaba Cloud key gives access to.
pub open spec fn alibaba_result(
    access_key: Seq<char>,
    session: bool,
    caller: CallerIdentity,
) -> AccessMapResultView {
    let identity_type = text_or(caller.identity_type, "Unknown"@);
    let severity = identity_severity(identity_type, session);
    let id = match either(
        opt_text(caller.arn),
        either(opt_text(caller.principal_id), opt_text(caller.user_id)),
    ) {
        Some(id) => id,
        None => access_key,
    };
    let name = either(
        name_in_arn(opt_text(caller.arn)),
        either(opt_text(caller.user_id), opt_text(caller.principal_id)),
    );
    AccessMapResultView {
        cloud: "alibaba"@,
        fingerprint: None,
        identity: AccessSummaryView {
            id,
            access_type: identity_kind(identity_type),
            project: None,
            tenant: None,
            account_id: opt_text(caller.account_id),
        },
        roles: seq![
            binding(
                match name {
                    Some(text) => text,
                    None => identity_type,
                },
                "sts"@,
                Seq::empty(),
            ),
        ],
        permissions: empty_permission_summary(),
        resources: identity_resources(caller, id, severity),
        severity,
        recommendations: recommendations(severity),
        risk_notes: identity_notes(identity_type, session, caller.role_id is Some),
        token_details: Some(
            AccessTokenDetailsView {
                name,
                username: opt_text(caller.user_id),
                account_type: Some(identity_type),
                url: Some(STS_API@),
                token_type: Some(
                    if session {
                        "sts_access_key"@
                    } else {
                        "access_key"@
                    },
                ),
                user_id: either(opt_text(caller.principal_id), opt_text(caller.user_id)),
                ..empty_access_token_details()
            },
        ),
        provider_metadata: None,
        mapping_error: None,
    }
}

fn expose_identity(caller: &CallerIdentity, id: &str, risk: Severity) -> (resources: Vec<
    ResourceExposure,
>)
    ensures
        views(resources@) == identity_resources(*caller, id@, risk),
{
    let mut resources: Vec<ResourceExposure> = no_views();
    match &caller.account_id {
        Some(account) => push_view(
            &mut resources,
            ResourceExposure::new(
                "account",
                account.as_str(),
                no_texts(),
                risk,
                "Alibaba Cloud account resolved from STS GetCallerIdentity",
            ),
        ),
        None => {},
    }
    match &caller.arn {
        Some(arn) => {
            let (resource_type, name) = classify_principal_resource(arn.as_str());
            push_view(
                &mut resources,
                ResourceExposure::new(
                    resource_type,
                    name.as_str(),
                    no_texts(),
                    risk,
                    "Alibaba Cloud principal resolved from STS GetCallerIdentity",
                ),
            );
        },
        None => {},
    }
    if resources.len() == 0 {
        push_view(
            &mut resources,
            ResourceExposure::new(
                "principal",
                id,
                no_texts(),
                risk,
                "Alibaba Cloud identity resolved from STS GetCallerIdentity",
            ),
        );
    }
    assert(views(resources@) =~= identity_resources(*caller, id@, risk));
    resources
}

fn note_identity(identity_type: &str, session: bool, role: bool) -> (notes: Vec<String>)
    ensures
        texts(notes@) == identity_notes(identity_type@, session, role),
{
    let mut notes = one_text(
        "Alibaba access-map currently resolves caller identity from STS; broad service-level resource enumeration is not yet available.",
    );
    if session || eq_ignore_ascii_case(identity_type, "AssumedRoleUser") {
        push_text(
            &mut notes,
            "Credential is an STS temporary session; review the assumed role policy and expiration.".to_owned(),
        );
    } else {
        push_text(
            &mut notes,
            "Credential is a long-lived access key pair; rotate it promptly if exposure is confirmed.".to_owned(),
        );
    }
    if eq_ignore_ascii_case(identity_type, "Account") {
        push_text(
            &mut notes,
            "Credential belongs to the Alibaba Cloud account principal and may grant broad account-level access.".to_owned(),
        );
    }
    if role {
        push_text(&mut notes, "Caller identity includes a RAM role context.".to_owned());
    }
    assert(texts(notes@) =~= identity_notes(identity_type@, session, role));
    notes
}

/// Maps an Alibaba Cloud key from what `GetCallerIdentity` answered to it.
pub fn map_access_with_credentials(
    access_key: &str,
    session_token: &Option<String>,
    caller: &CallerIdentity,
) -> (result: AccessMapResult)
    ensures
        result@ == alibaba_result(access_key@, session_token is Some, *caller),
{
    let identity_type = unwrap_text(&caller.identity_type, "Unknown");
    let severity = derive_severity(identity_type.as_str(), session_token);
    let principal = or_text(&caller.principal_id, &caller.user_id);
    let id = unwrap_text(&or_text(&caller.arn, &principal), access_key);
    let in_arn: Option<String> = match &caller.arn {
        Some(arn) => extract_principal_name(arn.as_str()),
        None => None,
    };
    let other = or_text(&caller.user_id, &caller.principal_id);
    let name = or_text(&in_arn, &other);
    let role_name = unwrap_text(&name, identity_type.as_str());
    let resources = expose_identity(caller, id.as_str(), severity);
    let risk_notes = note_identity(
        identity_type.as_str(),
        session_token.is_some(),
        caller.role_id.is_some(),
    );
    let token_type: &str = if session_token.is_some() {
        "sts_access_key"
    } else {
        "access_key"
    };
    let mut details = AccessTokenDetails::default();
    details.name = name;
    details.username = copy_opt(&caller.user_id);
    details.account_type = Some(identity_type.clone());
    details.url = Some(STS_API.to_owned());
    details.token_type = Some(token_type.to_owned());
    details.user_id = principal;
    AccessMapResult {
        cloud: "alibaba".to_owned(),
        fingerprint: None,
        identity: AccessSummary {
            id,
            access_type: normalize_identity_type(identity_type.as_str()),
            project: None,
            tenant: None,
            account_id: copy_opt(&caller.account_id),
        },
        roles: one_view(RoleBinding::new(role_name.as_str(), "sts", no_texts())),
        permissions: PermissionSummary::default(),
        resources,
        severity,
        recommendations: build_recommendations(severity),
        risk_notes,
        token_details: Some(details),
        provider_metadata: None,
        mapping_error: None,
    }
}

/// Who a key belongs to decides: the key of an account is critical, one that holds for a session medium,
/// any other high. The account and the principal are reported at that risk.
pub proof fn lemma_owner_decides(access_key: Seq<char>, session: bool, caller: CallerIdentity)
    ensures
        ({
            let result = alibaba_result(access_key, session, caller);
            let kind = opt_text(caller.identity_type);
            &&& kind == Some("Account"@) ==> result.severity == Severity::Critical
                && result.identity.access_type == "account"@
            &&& kind == Some("RAMUser"@) ==> result.identity.access_type == "ram_user"@
                && result.severity == (if session {
                Severity::Medium
            } else {
                Severity::High
            })
            &&& kind == Some("AssumedRoleUser"@) ==> result.severity == Severity::Medium
                && result.identity.access_type == "assumed_role_user"@
            &&& kind is None ==> result.severity == (if session {
                Severity::Medium
            } else {
                Severity::High
            })
            &&& caller.account_id is Some ==> result.identity.account_id == Some(caller.account_id->0@)
                && result.resources[0].name == caller.account_id->0@ && (kind == Some("Account"@)
                ==> result.resources[0].risk == "critical"@)
            &&& caller.arn is Some ==> result.identity.id == caller.arn->0@ && exists|i: int|
                0 <= i < result.resources.len() && (#[trigger] result.resources[i]).name
                    == principal_resource(caller.arn->0@).1
            &&& caller.arn is None && caller.principal_id is Some ==> result.identity.id
                == caller.principal_id->0@
            &&& caller.arn is None && caller.principal_id is None && caller.user_id is None
                ==> result.identity.id == access_key
        }),
{
    let result = alibaba_result(access_key, session, caller);
    reveal_strlit("Account");
    reveal_strlit("RAMUser");
    reveal_strlit("AssumedRoleUser");
    reveal_strlit("Unknown");
    assert("Account"@.len() == 7);
    assert("RAMUser"@.len() == 7);
    assert("AssumedRoleUser"@.len() == 15);
    assert("Unknown"@.len() == 7);
    assert("Account"@[0] != "RAMUser"@[0]);
    assert("Account"@[0] != "Unknown"@[0]);
    assert("RAMUser"@[0] != "Unknown"@[0]);
    lemma_kinds_differ();
    if caller.arn is Some {
        let i: int = if caller.account_id is Some {
            1
        } else {
            0
        };
        assert(result.resources[i].name == principal_resource(caller.arn->0@).1);
    }
}

/// No two kinds of identity are written alike, not even in lower case.
proof fn lemma_kinds_differ()
    ensures
        ascii_lower("RAMUser"@) != ascii_lower("Account"@),
        ascii_lower("AssumedRoleUser"@) != ascii_lower("Account"@),
        ascii_lower("AssumedRoleUser"@) != ascii_lower("RAMUser"@),
        ascii_lower("Unknown"@) != ascii_lower("Account"@),
        ascii_lower("Unknown"@) != ascii_lower("RAMUser"@),
        ascii_lower("Unknown"@) != ascii_lower("AssumedRoleUser"@),
{
    reveal_strlit("Account");
    reveal_strlit("RAMUser");
    reveal_strlit("AssumedRoleUser");
    reveal_strlit("Unknown");
    assert(ascii_lower("Account"@)[0] == 'a');
    assert(ascii_lower("RAMUser"@)[0] == 'r');
    assert(ascii_lower("Unknown"@)[0] == 'u');
    assert(ascii_lower("AssumedRoleUser"@)[1] == 's');
    assert(ascii_lower("AssumedRoleUser"@)[0] == 'a');
    assert(ascii_lower("Account"@)[1] == 'c');
}

/// The fifth part of an ARN names the principal: a user, a role or an assumed role, by what precedes the
/// slash, under the name that follows it.
pub proof fn lemma_arns_name_their_principal(
    a: Seq<char>,
    b: Seq<char>,
    c: Seq<char>,
    d: Seq<char>,
    kind: Seq<char>,
    name: Seq<char>,
)
    requires
        !a.contains(':') && !b.contains(':') && !c.contains(':') && !d.contains(':'),
        !kind.contains('/'),
        name.len() > 0,
    ensures
        ({
            let arn = a + seq![':'] + (b + seq![':'] + (c + seq![':'] + (d + seq![':'] + (kind + seq!['/']
                + name))));
            &&& principal_resource(arn).1 == name
            &&& kind == "user"@ ==> principal_resource(arn).0 == "ram_user"@
            &&& kind == "role"@ ==> principal_resource(arn).0 == "ram_role"@
            &&& kind == "assumed-role"@ ==> principal_resource(arn).0 == "ram_assumed_role"@
        }),
{
    let tail = kind + seq!['/'] + name;
    let three = d + seq![':'] + tail;
    let two = c + seq![':'] + three;
    let one = b + seq![':'] + two;
    let arn = a + seq![':'] + one;
    reveal_strlit(":");
    reveal_strlit("/");
    assert(":"@ =~= seq![':']);
    assert("/"@ =~= seq!['/']);
    lemma_parts_are_cut(a, ':', one);
    lemma_parts_are_cut(b, ':', two);
    lemma_parts_are_cut(c, ':', three);
    lemma_parts_are_cut(d, ':', tail);
    lemma_parts_are_cut(kind, '/', name);
    reveal_with_fuel(after_colons, 5);
    assert(after_colons(arn, 4) == tail);
    reveal_strlit("user");
    reveal_strlit("role");
    reveal_strlit("assumed-role");
    reveal_strlit("root");
    reveal_strlit("account");
    assert("user"@.len() == 4);
    assert("role"@.len() == 4);
    assert("assumed-role"@.len() == 12);
    assert("root"@.len() == 4);
    assert("account"@.len() == 7);
    assert("user"@[0] != "role"@[0]);
    assert("user"@[0] != "root"@[0]);
    assert("role"@[2] != "root"@[2]);
}

proof fn lemma_pair_stays(
    list: Seq<(Seq<char>, Seq<char>)>,
    now: Seq<(Seq<char>, Seq<char>)>,
    key: Seq<char>,
    value: Seq<char>,
    other: Seq<char>,
    held: Seq<char>,
)
    requires
        now == put(list, key, value),
        list.contains((other, held)),
        other != key,
    ensures
        now.contains((other, held)),
{
    lemma_put_keeps(list, key, value);
    let k = choose|k: int| 0 <= k < list.len() && list[k] == (other, held);
    assert(list[k].0 != key);
}

/// A request for the identity behind a key names the key, what is asked for, the nonce and the time, and
/// the token of the session where there is one.
pub proof fn lemma_requests_carry_what_is_asked(
    access_key: Seq<char>,
    session_token: Option<Seq<char>>,
    nonce: Seq<char>,
    timestamp: Seq<char>,
)
    ensures
        ({
            let params = identity_params(access_key, session_token, nonce, timestamp);
            &&& params.contains(("AccessKeyId"@, access_key))
            &&& params.contains(("Action"@, "GetCallerIdentity"@))
            &&& params.contains(("Format"@, "JSON"@))
            &&& params.contains(("SignatureMethod"@, "HMAC-SHA1"@))
            &&& params.contains(("SignatureNonce"@, raised(nonce)))
            &&& params.contains(("SignatureVersion"@, "1.0"@))
            &&& params.contains(("Timestamp"@, timestamp))
            &&& params.contains(("Version"@, "2015-04-01"@))
            &&& session_token is Some ==> params.contains(("SecurityToken"@, session_token->0))
        }),
{
    reveal_strlit("AccessKeyId");
    reveal_strlit("Action");
    reveal_strlit("Format");
    reveal_strlit("SignatureMethod");
    reveal_strlit("SignatureNonce");
    reveal_strlit("SignatureVersion");
    reveal_strlit("Timestamp");
    reveal_strlit("Version");
    reveal_strlit("SecurityToken");
    assert("AccessKeyId"@.len() == 11);
    assert("Action"@.len() == 6);
    assert("Format"@.len() == 6);
    assert("SignatureMethod"@.len() == 15);
    assert("SignatureNonce"@.len() == 14);
    assert("SignatureVersion"@.len() == 16);
    assert("Timestamp"@.len() == 9);
    assert("Version"@.len() == 7);
    assert("SecurityToken"@.len() == 13);
    assert("Action"@[0] != "Format"@[0]);
    let p1 = put(Seq::<(Seq<char>, Seq<char>)>::empty(), "AccessKeyId"@, access_key);
    lemma_put_keeps(Seq::<(Seq<char>, Seq<char>)>::empty(), "AccessKeyId"@, access_key);
    let p2 = put(p1, "Action"@, "GetCallerIdentity"@);
    lemma_put_keeps(p1, "Action"@, "GetCallerIdentity"@);
    lemma_pair_stays(p1, p2, "Action"@, "GetCallerIdentity"@, "AccessKeyId"@, access_key);
    let p3 = put(p2, "Format"@, "JSON"@);
    lemma_put_keeps(p2, "Format"@, "JSON"@);
    lemma_pair_stays(p2, p3, "Format"@, "JSON"@, "AccessKeyId"@, access_key);
    lemma_pair_stays(p2, p3, "Format"@, "JSON"@, "Action"@, "GetCallerIdentity"@);
    let p4 = put(p3, "SignatureMethod"@, "HMAC-SHA1"@);
    lemma_put_keeps(p3, "SignatureMethod"@, "HMAC-SHA1"@);
    lemma_pair_stays(p3, p4, "SignatureMethod"@, "HMAC-SHA1"@, "AccessKeyId"@, access_key);
    lemma_pair_stays(p3, p4, "SignatureMethod"@, "HMAC-SHA1"@, "Action"@, "GetCallerIdentity"@);
    lemma_pair_stays(p3, p4, "SignatureMethod"@, "HMAC-SHA1"@, "Format"@, "JSON"@);
    let p5 = put(p4, "SignatureNonce"@, raised(nonce));
    lemma_put_keeps(p4, "SignatureNonce"@, raised(nonce));
    lemma_pair_stays(p4, p5, "SignatureNonce"@, raised(nonce), "AccessKeyId"@, access_key);
    lemma_pair_stays(p4, p5, "SignatureNonce"@, raised(nonce), "Action"@, "GetCallerIdentity"@);
    lemma_pair_stays(p4, p5, "SignatureNonce"@, raised(nonce), "Format"@, "JSON"@);
    lemma_pair_stays(p4, p5, "SignatureNonce"@, raised(nonce), "SignatureMethod"@, "HMAC-SHA1"@);
    let p6 = put(p5, "SignatureVersion"@, "1.0"@);
    lemma_put_keeps(p5, "SignatureVersion"@, "1.0"@);
    lemma_pair_stays(p5, p6, "SignatureVersion"@, "1.0"@, "AccessKeyId"@, access_key);
    lemma_pair_stays(p5, p6, "SignatureVersion"@, "1.0"@, "Action"@, "GetCallerIdentity"@);
    lemma_pair_stays(p5, p6, "SignatureVersion"@, "1.0"@, "Format"@, "JSON"@);
    lemma_pair_stays(p5, p6, "SignatureVersion"@, "1.0"@, "SignatureMethod"@, "HMAC-SHA1"@);
    lemma_pair_stays(p5, p6, "SignatureVersion"@, "1.0"@, "SignatureNonce"@, raised(nonce));
    let p7 = put(p6, "Timestamp"@, timestamp);
    lemma_put_keeps(p6, "Timestamp"@, timestamp);
    lemma_pair_stays(p6, p7, "Timestamp"@, timestamp, "AccessKeyId"@, access_key);
    lemma_pair_stays(p6, p7, "Timestamp"@, timestamp, "Action"@, "GetCallerIdentity"@);
    lemma_pair_stays(p6, p7, "Timestamp"@, timestamp, "Format"@, "JSON"@);
    lemma_pair_stays(p6, p7, "Timestamp"@, timestamp, "SignatureMethod"@, "HMAC-SHA1"@);
    lemma_pair_stays(p6, p7, "Timestamp"@, timestamp, "SignatureNonce"@, raised(nonce));
    lemma_pair_stays(p6, p7, "Timestamp"@, timestamp, "SignatureVersion"@, "1.0"@);
    let p8 = put(p7, "Version"@, "2015-04-01"@);
    lemma_put_keeps(p7, "Version"@, "2015-04-01"@);
    lemma_pair_stays(p7, p8, "Version"@, "2015-04-01"@, "AccessKeyId"@, access_key);
    lemma_pair_stays(p7, p8, "Version"@, "2015-04-01"@, "Action"@, "GetCallerIdentity"@);
    lemma_pair_stays(p7, p8, "Version"@, "2015-04-01"@, "Format"@, "JSON"@);
    lemma_pair_stays(p7, p8, "Version"@, "2015-04-01"@, "SignatureMethod"@, "HMAC-SHA1"@);
    lemma_pair_stays(p7, p8, "Version"@, "2015-04-01"@, "SignatureNonce"@, raised(nonce));
    lemma_pair_stays(p7, p8, "Version"@, "2015-04-01"@, "SignatureVersion"@, "1.0"@);
    lemma_pair_stays(p7, p8, "Version"@, "2015-04-01"@, "Timestamp"@, timestamp);
    match session_token {
        Some(token) => {
            lemma_put_keeps(p8, "SecurityToken"@, token);
            lemma_pair_stays(p8, put(p8, "SecurityToken"@, token), "SecurityToken"@, token, "AccessKeyId"@, access_key);
            lemma_pair_stays(p8, put(p8, "SecurityToken"@, token), "SecurityToken"@, token, "Action"@, "GetCallerIdentity"@);
            lemma_pair_stays(p8, put(p8, "SecurityToken"@, token), "SecurityToken"@, token, "Format"@, "JSON"@);
            lemma_pair_stays(p8, put(p8, "SecurityToken"@, token), "SecurityToken"@, token, "SignatureMethod"@, "HMAC-SHA1"@);
            lemma_pair_stays(p8, put(p8, "SecurityToken"@, token), "SecurityToken"@, token, "SignatureNonce"@, raised(nonce));
            lemma_pair_stays(p8, put(p8, "SecurityToken"@, token), "SecurityToken"@, token, "SignatureVersion"@, "1.0"@);
            lemma_pair_stays(p8, put(p8, "SecurityToken"@, token), "SecurityToken"@, token, "Timestamp"@, timestamp);
            lemma_pair_stays(p8, put(p8, "SecurityToken"@, token), "SecurityToken"@, token, "Version"@, "2015-04-01"@);
        },
        None => {},
    }
}

proof fn lemma_bare_found(value: Json, keys: Seq<Seq<char>>, i: int, k: int)
    requires
        0 <= i <= k < keys.len(),
        bare_text(text_of(field(value, keys[k]))) is Some,
    ensures
        bare_at_keys(value, keys, i) is Some,
        (forall|j: int| i <= j < k ==> bare_text(text_of(field(value, #[trigger] keys[j]))) is None)
            ==> bare_at_keys(value, keys, i) == bare_text(text_of(field(value, keys[k]))),
    decreases k - i,
{
    if bare_text(text_of(field(value, keys[i]))) is None {
        lemma_bare_found(value, keys, i + 1, k);
    }
}

/// A document that holds the ID and the secret of a key, each under any of the names in use, holds a
/// credential.
pub proof fn lemma_documents_hold_credentials(value: Json, id_key: Seq<char>, secret_key: Seq<char>)
    requires
        id_key == "access_key_id"@ || id_key == "accessKeyId"@ || id_key == "AccessKeyId"@ || id_key == "alibaba_access_key_id"@ || id_key == "alibabacloud_access_key_id"@ || id_key == "aliyun_access_key_id"@,
        secret_key == "access_key_secret"@ || secret_key == "accessKeySecret"@ || secret_key == "AccessKeySecret"@ || secret_key == "secret_access_key"@ || secret_key == "secretAccessKey"@ || secret_key == "SecretAccessKey"@ || secret_key == "alibaba_access_key_secret"@ || secret_key == "alibabacloud_access_key_secret"@ || secret_key == "aliyun_access_key_secret"@,
        text_of(field(value, id_key)) is Some,
        trimmed(text_of(field(value, id_key))->0).len() > 0,
        text_of(field(value, secret_key)) is Some,
        trimmed(text_of(field(value, secret_key))->0).len() > 0,
    ensures
        match json_credentials(value) {
            Some((id, secret, _)) => {
                &&& id_key == "access_key_id"@ ==> id == trimmed(text_of(field(value, id_key))->0)
                &&& secret_key == "access_key_secret"@ ==> secret == trimmed(
                    text_of(field(value, secret_key))->0,
                )
            },
            None => false,
        },
{
    let ids = json_id_keys();
    let secrets = json_secret_keys();
    let i: int = if id_key == "access_key_id"@ { 0 } else if id_key == "accessKeyId"@ { 1 } else if id_key == "AccessKeyId"@ { 2 } else if id_key == "alibaba_access_key_id"@ { 3 } else if id_key == "alibabacloud_access_key_id"@ { 4 } else { 5 };
    let j: int = if secret_key == "access_key_secret"@ { 0 } else if secret_key == "accessKeySecret"@ { 1 } else if secret_key == "AccessKeySecret"@ { 2 } else if secret_key == "secret_access_key"@ { 3 } else if secret_key == "secretAccessKey"@ { 4 } else if secret_key == "SecretAccessKey"@ { 5 } else if secret_key == "alibaba_access_key_secret"@ { 6 } else if secret_key == "alibabacloud_access_key_secret"@ { 7 } else { 8 };
    assert(ids[i] == id_key);
    assert(secrets[j] == secret_key);
    lemma_bare_found(value, ids, 0, i);
    lemma_bare_found(value, secrets, 0, j);
}

/// Where nothing else is found in a file, its first two lines that say something are the ID and the secret,
/// and the third is the token of the session.
pub proof fn lemma_bare_lines_hold_credentials(list: Seq<Seq<char>>)
    ensures
        match bare_credentials(list) {
            Ok((id, secret, token)) => {
                let said = said_upto(list, list.len() as int);
                &&& said.len() >= 2
                &&& id == said[0] && secret == said[1]
                &&& token is Some <==> said.len() > 2
            },
            Err(_) => said_upto(list, list.len() as int).len() < 2,
        },
        list.len() == 2 && says_something(list[0]) && says_something(list[1]) ==> bare_credentials(list)
            == Ok::<(Seq<char>, Seq<char>, Option<Seq<char>>), Seq<char>>(
            (trimmed(list[0]), trimmed(list[1]), None),
        ),
{
    reveal_with_fuel(said_upto, 3);
}

} // verus!
