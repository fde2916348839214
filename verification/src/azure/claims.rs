//! The claims that an Entra access token carries.

use vstd::prelude::*;
use crate::encoding::{
    base64_url_bytes, base64_url_unpadded_bytes, decode_base64_url, decode_base64_url_unpadded,
};
use crate::json::{
    collect_texts, field, integer_in, lemma_texts_among, parse_json_bytes, parsed_json_bytes,
    text_of, texts_among, Json,
};
use crate::order::{in_order, lemma_in_order, sort_dedup};
use crate::text::{
    ascii_lower, copy_texts, either, eq_ignore_ascii_case, extend_texts,
    no_texts, opt_text, or_text, pieces, slices, split, split_whitespace,
    str_eq, texts, trim_end_char, without_trailing, words,
};

verus! {

/// What an access token says of its bearer.
#[derive(Debug)]
pub struct TokenClaims {
    pub audience: Option<String>,
    pub tenant_id: Option<String>,
    pub object_id: Option<String>,
    pub client_id: Option<String>,
    pub subject: Option<String>,
    pub name: Option<String>,
    pub username: Option<String>,
    pub token_type: Option<String>,
    pub version: Option<String>,
    pub scopes: Vec<String>,
    pub roles: Vec<String>,
    pub groups: Vec<String>,
    pub directory_roles: Vec<String>,
    pub expires_at: Option<i64>,
}

/// What a `TokenClaims` says.
#[verifier::ext_equal]
pub struct TokenClaimsView {
    pub audience: Option<Seq<char>>,
    pub tenant_id: Option<Seq<char>>,
    pub object_id: Option<Seq<char>>,
    pub client_id: Option<Seq<char>>,
    pub subject: Option<Seq<char>>,
    pub name: Option<Seq<char>>,
    pub username: Option<Seq<char>>,
    pub token_type: Option<Seq<char>>,
    pub version: Option<Seq<char>>,
    pub scopes: Seq<Seq<char>>,
    pub roles: Seq<Seq<char>>,
    pub groups: Seq<Seq<char>>,
    pub directory_roles: Seq<Seq<char>>,
    pub expires_at: Option<i64>,
}

impl View for TokenClaims {
    type V = TokenClaimsView;

    open spec fn view(&self) -> TokenClaimsView {
        TokenClaimsView {
            audience: opt_text(self.audience),
            tenant_id: opt_text(self.tenant_id),
            object_id: opt_text(self.object_id),
            client_id: opt_text(self.client_id),
            subject: opt_text(self.subject),
            name: opt_text(self.name),
            username: opt_text(self.username),
            token_type: opt_text(self.token_type),
            version: opt_text(self.version),
            scopes: texts(self.scopes@),
            roles: texts(self.roles@),
            groups: texts(self.groups@),
            directory_roles: texts(self.directory_roles@),
            expires_at: self.expires_at,
        }
    }
}

/// The claims of a token that says nothing.
pub open spec fn no_claims() -> TokenClaimsView {
    TokenClaimsView {
        audience: None,
        tenant_id: None,
        object_id: None,
        client_id: None,
        subject: None,
        name: None,
        username: None,
        token_type: None,
        version: None,
        scopes: Seq::empty(),
        roles: Seq::empty(),
        groups: Seq::empty(),
        directory_roles: Seq::empty(),
        expires_at: None,
    }
}

impl Default for TokenClaims {
    fn default() -> (claims: Self)
        ensures
            claims@ == no_claims(),
    {
        TokenClaims {
            audience: None,
            tenant_id: None,
            object_id: None,
            client_id: None,
            subject: None,
            name: None,
            username: None,
            token_type: None,
            version: None,
            scopes: no_texts(),
            roles: no_texts(),
            groups: no_texts(),
            directory_roles: no_texts(),
            expires_at: None,
        }
    }
}

/// Whether a token was issued to an application and not to a user.
pub open spec fn of_application(claims: TokenClaimsView) -> bool {
    ||| claims.token_type == Some("app"@)
    ||| claims.roles.len() > 0 && claims.scopes.len() == 0
    ||| claims.client_id is Some && claims.username is None && claims.scopes.len() == 0
}

/// The permissions that a token carries: its roles and its scopes.
pub open spec fn granted(claims: TokenClaimsView) -> Seq<Seq<char>> {
    in_order(claims.roles + claims.scopes)
}

/// The first of two numbers that is there.
pub open spec fn either_number(a: Option<i64>, b: Option<i64>) -> Option<i64> {
    match a {
        Some(_) => a,
        None => b,
    }
}

/// One set of claims, completed from another: what is there stays, and the lists are united.
pub open spec fn merged(claims: TokenClaimsView, other: TokenClaimsView) -> TokenClaimsView {
    TokenClaimsView {
        audience: either(claims.audience, other.audience),
        tenant_id: either(claims.tenant_id, other.tenant_id),
        object_id: either(claims.object_id, other.object_id),
        client_id: either(claims.client_id, other.client_id),
        subject: either(claims.subject, other.subject),
        name: either(claims.name, other.name),
        username: either(claims.username, other.username),
        token_type: either(claims.token_type, other.token_type),
        version: either(claims.version, other.version),
        scopes: in_order(claims.scopes + other.scopes),
        roles: in_order(claims.roles + other.roles),
        groups: in_order(claims.groups + other.groups),
        directory_roles: in_order(claims.directory_roles + other.directory_roles),
        expires_at: either_number(claims.expires_at, other.expires_at),
    }
}

/// The texts of two lists in their order, each once.
fn united(a: &Vec<String>, b: &Vec<String>) -> (list: Vec<String>)
    ensures
        texts(list@) == in_order(texts(a@) + texts(b@)),
{
    let mut list = copy_texts(a);
    extend_texts(&mut list, b);
    sort_dedup(list)
}

impl TokenClaims {
    pub fn is_application(&self) -> (yes: bool)
        ensures
            yes == of_application(self@),
    {
        let app: bool = match &self.token_type {
            Some(kind) => str_eq(kind.as_str(), "app"),
            None => false,
        };
        app || (self.roles.len() > 0 && self.scopes.len() == 0) || (self.client_id.is_some()
            && self.username.is_none() && self.scopes.len() == 0)
    }

    pub fn permissions(&self) -> (list: Vec<String>)
        ensures
            texts(list@) == granted(self@),
    {
        united(&self.roles, &self.scopes)
    }

    pub fn merge_missing(&mut self, other: &Self)
        ensures
            final(self)@ == merged(old(self)@, other@),
    {
        self.audience = or_text(&self.audience, &other.audience);
        self.tenant_id = or_text(&self.tenant_id, &other.tenant_id);
        self.object_id = or_text(&self.object_id, &other.object_id);
        self.client_id = or_text(&self.client_id, &other.client_id);
        self.subject = or_text(&self.subject, &other.subject);
        self.name = or_text(&self.name, &other.name);
        self.username = or_text(&self.username, &other.username);
        self.token_type = or_text(&self.token_type, &other.token_type);
        self.version = or_text(&self.version, &other.version);
        if self.expires_at.is_none() {
            self.expires_at = other.expires_at;
        }
        self.scopes = united(&self.scopes, &other.scopes);
        self.roles = united(&self.roles, &other.roles);
        self.groups = united(&self.groups, &other.groups);
        self.directory_roles = united(&self.directory_roles, &other.directory_roles);
    }
}

/// The first text, at or after the `i`-th key, that is there and is not empty.
pub open spec fn text_at_keys(value: Json, keys: Seq<Seq<char>>, i: int) -> Option<Seq<char>>
    decreases keys.len() - i,
{
    if i < 0 || i >= keys.len() {
        None
    } else {
        match text_of(field(value, keys[i])) {
            Some(text) => if text.len() > 0 {
                Some(text)
            } else {
                text_at_keys(value, keys, i + 1)
            },
            None => text_at_keys(value, keys, i + 1),
        }
    }
}

pub fn json_string(value: &Json, keys: &[&str]) -> (text: Option<String>)
    ensures
        opt_text(text) == text_at_keys(*value, slices(keys@), 0),
{
    let mut i: usize = 0;
    while i < keys.len()
        invariant
            i <= keys@.len(),
            text_at_keys(*value, slices(keys@), 0) == text_at_keys(*value, slices(keys@), i as int),
        decreases keys@.len() - i,
    {
        assert(slices(keys@)[i as int] == keys@[i as int]@);
        match value.text_at(keys[i]) {
            Some(text) => {
                if !text.as_str().is_empty() {
                    return Some(text);
                }
            },
            None => {},
        }
        i = i + 1;
    }
    None
}

/// The texts in the array under a key.
pub open spec fn texts_at(value: Json, key: Seq<char>) -> Seq<Seq<char>> {
    match field(value, key) {
        Some(Json::Array(list)) => texts_among(list@),
        _ => Seq::empty(),
    }
}

pub fn json_string_array(value: &Json, key: &str) -> (list: Vec<String>)
    ensures
        texts(list@) == texts_at(*value, key@),
{
    match value.get(key) {
        Some(Json::Array(list)) => collect_texts(list),
        _ => no_texts(),
    }
}

/// The scopes that a claim lists with white space between them.
pub open spec fn scopes_of(scope: Option<Seq<char>>) -> Seq<Seq<char>> {
    match scope {
        Some(text) => words(text),
        None => Seq::empty(),
    }
}

/// The claims that the payload of a token holds.
pub open spec fn claims_in(value: Json) -> TokenClaimsView {
    TokenClaimsView {
        audience: text_at_keys(value, seq!["aud"@], 0),
        tenant_id: text_at_keys(value, seq!["tid"@, "tenant_id"@], 0),
        object_id: text_at_keys(value, seq!["oid"@], 0),
        client_id: text_at_keys(value, seq!["appid"@, "azp"@, "client_id"@], 0),
        subject: text_at_keys(value, seq!["sub"@], 0),
        name: text_at_keys(value, seq!["name"@], 0),
        username: text_at_keys(value, seq!["preferred_username"@, "upn"@, "unique_name"@], 0),
        token_type: text_at_keys(value, seq!["idtyp"@], 0),
        version: text_at_keys(value, seq!["ver"@], 0),
        scopes: scopes_of(text_at_keys(value, seq!["scp"@], 0)),
        roles: texts_at(value, "roles"@),
        groups: texts_at(value, "groups"@),
        directory_roles: texts_at(value, "wids"@),
        expires_at: integer_in(field(value, "exp"@)),
    }
}

fn string_at(value: &Json, key: &str) -> (text: Option<String>)
    ensures
        opt_text(text) == text_at_keys(*value, seq![key@], 0),
{
    let keys: [&str; 1] = [key];
    assert(slices(keys@) =~= seq![key@]);
    json_string(value, &keys)
}

/// Reads the claims out of the payload of a token.
pub fn read_claims(value: &Json) -> (claims: TokenClaims)
    ensures
        claims@ == claims_in(*value),
{
    let tenant_keys: [&str; 2] = ["tid", "tenant_id"];
    assert(slices(tenant_keys@) =~= seq!["tid"@, "tenant_id"@]);
    let client_keys: [&str; 3] = ["appid", "azp", "client_id"];
    assert(slices(client_keys@) =~= seq!["appid"@, "azp"@, "client_id"@]);
    let user_keys: [&str; 3] = ["preferred_username", "upn", "unique_name"];
    assert(slices(user_keys@) =~= seq!["preferred_username"@, "upn"@, "unique_name"@]);
    TokenClaims {
        audience: string_at(value, "aud"),
        tenant_id: json_string(value, &tenant_keys),
        object_id: string_at(value, "oid"),
        client_id: json_string(value, &client_keys),
        subject: string_at(value, "sub"),
        name: string_at(value, "name"),
        username: json_string(value, &user_keys),
        token_type: string_at(value, "idtyp"),
        version: string_at(value, "ver"),
        scopes: match string_at(value, "scp") {
            Some(scope) => split_whitespace(scope.as_str()),
            None => no_texts(),
        },
        roles: json_string_array(value, "roles"),
        groups: json_string_array(value, "groups"),
        directory_roles: json_string_array(value, "wids"),
        expires_at: value.integer_at("exp"),
    }
}

/// The claims that a token carries: those in its second part, which is base64 with or without
/// padding around JSON. A token of another form says nothing.
pub open spec fn token_claims(token: Seq<char>) -> TokenClaimsView {
    let parts = pieces(token, '.');
    if parts.len() < 2 {
        no_claims()
    } else {
        let payload = match base64_url_unpadded_bytes(parts[1]) {
            Some(bytes) => Some(bytes),
            None => base64_url_bytes(parts[1]),
        };
        match payload {
            None => no_claims(),
            Some(bytes) => match parsed_json_bytes(bytes) {
                Ok(value) => claims_in(value),
                Err(_) => no_claims(),
            },
        }
    }
}

pub fn decode_token_claims(token: &str) -> (claims: TokenClaims)
    ensures
        claims@ == token_claims(token@),
{
    let parts = split(token, '.');
    if parts.len() < 2 {
        return TokenClaims::default();
    }
    assert(texts(parts@)[1] == parts@[1]@);
    let payload = match decode_base64_url_unpadded(parts[1].as_str()) {
        Some(bytes) => Some(bytes),
        None => decode_base64_url(parts[1].as_str()),
    };
    match payload {
        None => TokenClaims::default(),
        Some(bytes) => match parse_json_bytes(bytes.as_slice()) {
            Ok(value) => read_claims(&value),
            Err(_) => TokenClaims::default(),
        },
    }
}

/// Whether a token is meant for Azure Resource Manager.
pub open spec fn for_management(audience: Seq<char>) -> bool {
    let host = ascii_lower(without_trailing(audience, '/'));
    ||| host == ascii_lower("https://management.azure.com"@)
    ||| host == ascii_lower("https://management.core.windows.net"@)
}

pub fn is_management_audience(audience: &str) -> (yes: bool)
    ensures
        yes == for_management(audience@),
{
    let host = trim_end_char(audience, '/');
    eq_ignore_ascii_case(host.as_str(), "https://management.azure.com") || eq_ignore_ascii_case(
        host.as_str(),
        "https://management.core.windows.net",
    )
}

/// What a token claims itself is never replaced when claims are completed from another token, and
/// nothing that either token grants is lost.
pub proof fn lemma_merge_keeps_claims(claims: TokenClaimsView, other: TokenClaimsView)
    ensures
        claims.audience is Some ==> merged(claims, other).audience == claims.audience,
        claims.tenant_id is Some ==> merged(claims, other).tenant_id == claims.tenant_id,
        claims.object_id is Some ==> merged(claims, other).object_id == claims.object_id,
        claims.client_id is Some ==> merged(claims, other).client_id == claims.client_id,
        claims.subject is Some ==> merged(claims, other).subject == claims.subject,
        claims.name is Some ==> merged(claims, other).name == claims.name,
        claims.username is Some ==> merged(claims, other).username == claims.username,
        claims.token_type is Some ==> merged(claims, other).token_type == claims.token_type,
        claims.version is Some ==> merged(claims, other).version == claims.version,
        claims.expires_at is Some ==> merged(claims, other).expires_at == claims.expires_at,
        forall|scope: Seq<char>|
            #[trigger] merged(claims, other).scopes.contains(scope) <==> claims.scopes.contains(
                scope,
            ) || other.scopes.contains(scope),
        forall|role: Seq<char>|
            #[trigger] merged(claims, other).roles.contains(role) <==> claims.roles.contains(role)
                || other.roles.contains(role),
        forall|group: Seq<char>|
            #[trigger] merged(claims, other).groups.contains(group) <==> claims.groups.contains(
                group,
            ) || other.groups.contains(group),
        forall|role: Seq<char>|
            #[trigger] merged(claims, other).directory_roles.contains(role)
                <==> claims.directory_roles.contains(role) || other.directory_roles.contains(role),
{
    lemma_united(claims.scopes, other.scopes);
    lemma_united(claims.roles, other.roles);
    lemma_united(claims.groups, other.groups);
    lemma_united(claims.directory_roles, other.directory_roles);
}

proof fn lemma_united(a: Seq<Seq<char>>, b: Seq<Seq<char>>)
    ensures
        forall|s: Seq<char>|
            #[trigger] in_order(a + b).contains(s) <==> a.contains(s) || b.contains(s),
{
    lemma_in_order(a + b);
    assert forall|s: Seq<char>| #[trigger] in_order(a + b).contains(s) <==> a.contains(s)
        || b.contains(s) by {
        if a.contains(s) {
            let k = a.index_of(s);
            assert((a + b)[k] == s);
        }
        if b.contains(s) {
            let k = b.index_of(s);
            assert((a + b)[a.len() + k] == s);
        }
        if (a + b).contains(s) {
            let k = (a + b).index_of(s);
            if k < a.len() {
                assert(a[k] == s);
            } else {
                assert(b[k - a.len()] == s);
            }
        }
    }
}

/// Whether a text that is not empty stands under a key.
pub open spec fn filled_under(value: Json, key: Seq<char>) -> bool {
    match text_of(field(value, key)) {
        Some(text) => text.len() > 0,
        None => false,
    }
}

/// Each claim is read from where a token holds it, and one that stands in a second place only from there.
pub proof fn lemma_claims_are_read(value: Json)
    ensures
        filled_under(value, "aud"@) ==> claims_in(value).audience == text_of(field(value, "aud"@)),
        filled_under(value, "tid"@) ==> claims_in(value).tenant_id == text_of(field(value, "tid"@)),
        filled_under(value, "oid"@) ==> claims_in(value).object_id == text_of(field(value, "oid"@)),
        filled_under(value, "appid"@) ==> claims_in(value).client_id == text_of(field(value, "appid"@)),
        filled_under(value, "sub"@) ==> claims_in(value).subject == text_of(field(value, "sub"@)),
        filled_under(value, "name"@) ==> claims_in(value).name == text_of(field(value, "name"@)),
        filled_under(value, "preferred_username"@) ==> claims_in(value).username == text_of(field(value, "preferred_username"@)),
        filled_under(value, "idtyp"@) ==> claims_in(value).token_type == text_of(field(value, "idtyp"@)),
        filled_under(value, "ver"@) ==> claims_in(value).version == text_of(field(value, "ver"@)),
        !filled_under(value, "tid"@) && filled_under(value, "tenant_id"@) ==> claims_in(value).tenant_id
            == text_of(field(value, "tenant_id"@)),
        !filled_under(value, "appid"@) && filled_under(value, "azp"@) ==> claims_in(value).client_id
            == text_of(field(value, "azp"@)),
        !filled_under(value, "preferred_username"@) && filled_under(value, "upn"@) ==> claims_in(
            value,
        ).username == text_of(field(value, "upn"@)),
        filled_under(value, "scp"@) ==> claims_in(value).scopes == words(
            text_of(field(value, "scp"@))->0,
        ),
{
    reveal_with_fuel(text_at_keys, 3);
}

/// Every role, group and directory role that a token lists is read.
pub proof fn lemma_lists_of_claims_are_read(value: Json, list: Vec<Json>, k: int, text: Seq<char>)
    requires
        0 <= k < list@.len(),
        text_of(Some(list@[k])) == Some(text),
    ensures
        field(value, "roles"@) == Some(Json::Array(list)) ==> claims_in(value).roles.contains(text),
        field(value, "groups"@) == Some(Json::Array(list)) ==> claims_in(value).groups.contains(text),
        field(value, "wids"@) == Some(Json::Array(list)) ==> claims_in(value).directory_roles.contains(
            text,
        ),
{
    lemma_texts_among(list@, text);
}

/// A token of which the roles stand alone, and one that says so itself, is that of an application; one with
/// the name of a user and scopes and without such a word is not. What either carries are its roles and its
/// scopes.
pub proof fn lemma_applications_are_told_from_users(claims: TokenClaimsView, permission: Seq<char>)
    ensures
        claims.token_type == Some("app"@) ==> of_application(claims),
        claims.roles.len() > 0 && claims.scopes.len() == 0 ==> of_application(claims),
        claims.scopes.len() > 0 && claims.token_type != Some("app"@) ==> !of_application(claims),
        claims.username is Some && claims.roles.len() == 0 && claims.token_type != Some("app"@)
            ==> !of_application(claims),
        granted(claims).contains(permission) <==> claims.roles.contains(permission)
            || claims.scopes.contains(permission),
{
    let all = claims.roles + claims.scopes;
    lemma_in_order(all);
    if claims.roles.contains(permission) {
        let k = choose|k: int| 0 <= k < claims.roles.len() && claims.roles[k] == permission;
        assert(all[k] == permission);
        assert(all.contains(permission));
    }
    if claims.scopes.contains(permission) {
        let k = choose|k: int| 0 <= k < claims.scopes.len() && claims.scopes[k] == permission;
        assert(all[claims.roles.len() + k] == permission);
        assert(all.contains(permission));
    }
    if all.contains(permission) {
        let k = choose|k: int| 0 <= k < all.len() && all[k] == permission;
        if k < claims.roles.len() {
            assert(claims.roles[k] == permission);
        } else {
            assert(claims.scopes[k - claims.roles.len()] == permission);
        }
    }
}

} // verus!
