//! IAM policy documents: their statements, the actions they grant and what limits them.

use vstd::prelude::*;
use crate::json::{
    collect_texts, field, held, lemma_texts_among, parse_json, parsed_json, states, text_of,
    texts_among, Json,
};
use crate::model::{views, AuthorizationStatement, AuthorizationStatementView};
use crate::notes::{lemma_noted_keeps, note_if, noted_if};
use crate::order::{ascending, in_order, lemma_in_order, sort_dedup, text_less};
use crate::text::{
    by_text, cat2, cat3, contains, eq_ignore_ascii_case, extend_texts, holds, is_among, no_texts,
    one_text, prefix_all, prefixed, push_text, replace, replaced, str_eq, texts, to_lowercase, trim,
    trimmed, lowered, unwrap_text, usize_text, ascii_lower, decimal,
};
use crate::wildcard::{lemma_plain_matches_itself, wildcard, wildcard_matches, ANY, STAR};
use vstd::utf8::encode_utf8;

verus! {

/// What percent decoding makes of a text: the text, or the text of the error where the bytes are
/// no UTF-8.
pub uninterp spec fn percent_decoded(text: Seq<char>) -> Result<Seq<char>, Seq<char>>;

/// `percent_encoding::percent_decode_str` with `decode_utf8`: what a text decodes to depends on
/// the text alone.
#[verifier::external_body]
fn percent_decode(text: &str) -> (decoded: Result<String, String>)
    ensures
        match decoded {
            Ok(s) => percent_decoded(text@) == Ok::<Seq<char>, Seq<char>>(s@),
            Err(error) => percent_decoded(text@) == Err::<Seq<char>, Seq<char>>(error@),
        },
{
    match percent_encoding::percent_decode_str(text).decode_utf8() {
        Ok(decoded) => Ok(decoded.into_owned()),
        Err(error) => Err(error.to_string()),
    }
}

/// A document that is a JSON string holds the document as that string.
pub open spec fn unwrapped_policy(value: Json) -> Result<Json, Seq<char>> {
    match value {
        Json::Text(inner) => match parsed_json(inner@) {
            Ok(document) => Ok(document),
            Err(error) => Err("Failed to parse wrapped IAM policy document: "@ + error),
        },
        _ => Ok(value),
    }
}

/// The policy that a document holds: plain JSON as it is, anything else percent-decoded first.
pub open spec fn decoded_policy(document: Seq<char>) -> Result<Json, Seq<char>> {
    let text = trimmed(document);
    match parsed_json(text) {
        Ok(value) => unwrapped_policy(value),
        Err(_) => match percent_decoded(text) {
            Err(error) => Err(error),
            Ok(decoded) => match parsed_json(decoded) {
                Ok(value) => unwrapped_policy(value),
                Err(error) => Err("Failed to parse IAM policy document: "@ + error),
            },
        },
    }
}

fn unwrap_policy(value: Json) -> (policy: Result<Json, String>)
    ensures
        by_text(policy) == unwrapped_policy(value),
{
    match value {
        Json::Text(inner) => match parse_json(inner.as_str()) {
            Ok(document) => Ok(document),
            Err(error) => Err(
                cat2("Failed to parse wrapped IAM policy document: ", error.as_str()),
            ),
        },
        other => Ok(other),
    }
}

pub fn decode_policy_document(document: &str) -> (policy: Result<Json, String>)
    ensures
        by_text(policy) == decoded_policy(document@),
{
    let text = trim(document);
    match parse_json(text.as_str()) {
        Ok(value) => unwrap_policy(value),
        Err(_) => match percent_decode(text.as_str()) {
            Err(error) => Err(error),
            Ok(decoded) => match parse_json(decoded.as_str()) {
                Ok(value) => unwrap_policy(value),
                Err(error) => Err(cat2("Failed to parse IAM policy document: ", error.as_str())),
            },
        },
    }
}

/// The statements of a policy.
pub open spec fn statement_list(policy: Json) -> Seq<Json> {
    match field(policy, "Statement"@) {
        Some(Json::Array(statements)) => statements@,
        Some(statement) => seq![statement],
        None => Seq::empty(),
    }
}

/// How many statements a policy has.
pub fn statement_count(policy: &Json) -> (count: usize)
    ensures
        count == statement_list(*policy).len(),
{
    match policy.get("Statement") {
        Some(Json::Array(statements)) => statements.len(),
        Some(_) => 1,
        None => 0,
    }
}

/// One statement of a policy.
pub fn statement_at(policy: &Json, index: usize) -> (statement: &Json)
    requires
        index < statement_list(*policy).len(),
    ensures
        *statement == statement_list(*policy)[index as int],
{
    match policy.get("Statement") {
        Some(Json::Array(statements)) => &statements[index],
        Some(statement) => statement,
        None => policy,
    }
}

/// The texts that a clause holds, in order and each once.
pub open spec fn clause_texts(value: Option<Json>) -> Seq<Seq<char>> {
    in_order(
        match value {
            Some(Json::Text(s)) => seq![s@],
            Some(Json::Array(list)) => texts_among(list@),
            _ => Seq::empty(),
        },
    )
}

pub fn string_values(value: Option<&Json>) -> (list: Vec<String>)
    ensures
        texts(list@) == clause_texts(held(value)),
{
    let all: Vec<String> = match value {
        Some(Json::Text(s)) => one_text(s.as_str()),
        Some(Json::Array(list)) => collect_texts(list),
        _ => no_texts(),
    };
    sort_dedup(all)
}

/// The principals of the first `n` kinds of a clause, each as `kind:principal`.
pub open spec fn principals_by_kind(kinds: Seq<(String, Json)>, n: int) -> Seq<Seq<char>>
    decreases n,
{
    if n <= 0 {
        Seq::empty()
    } else {
        principals_by_kind(kinds, n - 1) + prefixed(
            kinds[n - 1].0@ + ":"@,
            clause_texts(Some(kinds[n - 1].1)),
        )
    }
}

/// The principals that a clause names, in order and each once.
pub open spec fn clause_principals(value: Option<Json>) -> Seq<Seq<char>> {
    in_order(
        match value {
            Some(Json::Text(s)) => seq![s@],
            Some(Json::Array(list)) => texts_among(list@),
            Some(Json::Object(kinds)) => principals_by_kind(kinds@, kinds@.len() as int),
            _ => Seq::empty(),
        },
    )
}

fn collect_principals(kinds: &Vec<(String, Json)>) -> (list: Vec<String>)
    ensures
        texts(list@) == principals_by_kind(kinds@, kinds@.len() as int),
{
    let mut list: Vec<String> = no_texts();
    let mut i: usize = 0;
    while i < kinds.len()
        invariant
            i <= kinds@.len(),
            texts(list@) == principals_by_kind(kinds@, i as int),
        decreases kinds@.len() - i,
    {
        let named = string_values(Some(&kinds[i].1));
        let prefix = cat2(kinds[i].0.as_str(), ":");
        extend_texts(&mut list, &prefix_all(prefix.as_str(), &named));
        i = i + 1;
    }
    list
}

pub fn principal_values(value: Option<&Json>) -> (list: Vec<String>)
    ensures
        texts(list@) == clause_principals(held(value)),
{
    let all: Vec<String> = match value {
        Some(Json::Text(s)) => one_text(s.as_str()),
        Some(Json::Array(list)) => collect_texts(list),
        Some(Json::Object(kinds)) => collect_principals(kinds),
        _ => no_texts(),
    };
    sort_dedup(all)
}

/// The keys of an object's fields.
pub open spec fn field_names(fields: Seq<(String, Json)>) -> Seq<Seq<char>> {
    fields.map_values(|entry: (String, Json)| entry.0@)
}

fn key_list(fields: &Vec<(String, Json)>) -> (list: Vec<String>)
    ensures
        texts(list@) == field_names(fields@),
{
    let mut list: Vec<String> = Vec::new();
    let mut i: usize = 0;
    while i < fields.len()
        invariant
            i <= fields@.len(),
            list@.len() == i,
            forall|j: int| 0 <= j < i ==> (#[trigger] list@[j])@ == fields@[j].0@,
        decreases fields@.len() - i,
    {
        list.push(fields[i].0.clone());
        i = i + 1;
    }
    assert(texts(list@) =~= field_names(fields@));
    list
}

/// The operator and key names of the first `n` operators: `operator:key` for each key, and the
/// operator alone where it holds no keys.
pub open spec fn operator_keys(operators: Seq<(String, Json)>, n: int) -> Seq<Seq<char>>
    decreases n,
{
    if n <= 0 {
        Seq::empty()
    } else {
        match operators[n - 1].1 {
            Json::Object(entries) => operator_keys(operators, n - 1) + prefixed(
                operators[n - 1].0@ + ":"@,
                field_names(entries@),
            ),
            _ => operator_keys(operators, n - 1).push(operators[n - 1].0@),
        }
    }
}

/// The names that a condition speaks of, in order and each once. No value is among them.
pub open spec fn condition_names(value: Option<Json>) -> Seq<Seq<char>> {
    in_order(
        match value {
            Some(Json::Object(operators)) => operator_keys(operators@, operators@.len() as int),
            _ => Seq::empty(),
        },
    )
}

fn collect_operator_keys(operators: &Vec<(String, Json)>) -> (list: Vec<String>)
    ensures
        texts(list@) == operator_keys(operators@, operators@.len() as int),
{
    let mut list: Vec<String> = no_texts();
    let mut i: usize = 0;
    while i < operators.len()
        invariant
            i <= operators@.len(),
            texts(list@) == operator_keys(operators@, i as int),
        decreases operators@.len() - i,
    {
        match &operators[i].1 {
            Json::Object(entries) => {
                let prefix = cat2(operators[i].0.as_str(), ":");
                extend_texts(&mut list, &prefix_all(prefix.as_str(), &key_list(entries)));
            },
            _ => {
                push_text(&mut list, operators[i].0.clone());
            },
        }
        i = i + 1;
    }
    list
}

pub fn condition_keys(value: Option<&Json>) -> (list: Vec<String>)
    ensures
        texts(list@) == condition_names(held(value)),
{
    let all: Vec<String> = match value {
        Some(Json::Object(operators)) => collect_operator_keys(operators),
        _ => no_texts(),
    };
    sort_dedup(all)
}

/// The name of a statement in its policy: its `Sid`, or its position.
pub open spec fn statement_name(statement: Json, index: nat) -> Seq<char> {
    match text_of(field(statement, "Sid"@)) {
        Some(sid) => sid,
        None => decimal(index),
    }
}

/// What is retained of one statement.
pub open spec fn normalized(statement: Json, policy_id: Seq<char>, index: nat) -> AuthorizationStatementView {
    AuthorizationStatementView {
        id: policy_id + "#"@ + statement_name(statement, index),
        sid: text_of(field(statement, "Sid"@)),
        effect: match text_of(field(statement, "Effect"@)) {
            Some(effect) => effect,
            None => "Unknown"@,
        },
        actions: clause_texts(field(statement, "Action"@)),
        not_actions: clause_texts(field(statement, "NotAction"@)),
        resources: clause_texts(field(statement, "Resource"@)),
        not_resources: clause_texts(field(statement, "NotResource"@)),
        principals: clause_principals(field(statement, "Principal"@)),
        not_principals: clause_principals(field(statement, "NotPrincipal"@)),
        condition_keys: condition_names(field(statement, "Condition"@)),
    }
}

pub fn authorization_statement(statement: &Json, policy_id: &str, index: usize) -> (kept: AuthorizationStatement)
    ensures
        kept@ == normalized(*statement, policy_id@, index as nat),
{
    let sid = statement.text_at("Sid");
    let position = usize_text(index);
    let name = unwrap_text(&sid, position.as_str());
    let effect = statement.text_at("Effect");
    AuthorizationStatement {
        id: cat3(policy_id, "#", name.as_str()),
        sid,
        effect: unwrap_text(&effect, "Unknown"),
        actions: string_values(statement.get("Action")),
        not_actions: string_values(statement.get("NotAction")),
        resources: string_values(statement.get("Resource")),
        not_resources: string_values(statement.get("NotResource")),
        principals: principal_values(statement.get("Principal")),
        not_principals: principal_values(statement.get("NotPrincipal")),
        condition_keys: condition_keys(statement.get("Condition")),
    }
}

/// What is retained of the statements of a policy.
pub open spec fn normalized_statements(policy: Json, policy_id: Seq<char>) -> Seq<AuthorizationStatementView> {
    Seq::new(
        statement_list(policy).len(),
        |i: int| normalized(statement_list(policy)[i], policy_id, i as nat),
    )
}

pub fn policy_statements(policy: &Json, policy_id: &str) -> (list: Vec<AuthorizationStatement>)
    ensures
        views(list@) == normalized_statements(*policy, policy_id@),
{
    let count = statement_count(policy);
    let mut list: Vec<AuthorizationStatement> = Vec::new();
    let mut i: usize = 0;
    while i < count
        invariant
            i <= count,
            count == statement_list(*policy).len(),
            list@.len() == i,
            forall|j: int|
                0 <= j < i ==> (#[trigger] list@[j])@ == normalized(
                    statement_list(*policy)[j],
                    policy_id@,
                    j as nat,
                ),
        decreases count - i,
    {
        list.push(authorization_statement(statement_at(policy, i), policy_id, i));
        i = i + 1;
    }
    assert(views(list@) =~= normalized_statements(*policy, policy_id@));
    list
}

/// What is retained of the statements of a policy document.
pub open spec fn document_statements(document: Seq<char>, policy_id: Seq<char>) -> Result<
    Seq<AuthorizationStatementView>,
    Seq<char>,
> {
    match decoded_policy(document) {
        Ok(policy) => Ok(normalized_statements(policy, policy_id)),
        Err(error) => Err(error),
    }
}

pub fn parse_policy_statements(document: &str, policy_id: &str) -> (list: Result<
    Vec<AuthorizationStatement>,
    String,
>)
    ensures
        match list {
            Ok(kept) => document_statements(document@, policy_id@) == Ok::<
                Seq<AuthorizationStatementView>,
                Seq<char>,
            >(views(kept@)),
            Err(error) => document_statements(document@, policy_id@) == Err::<
                Seq<AuthorizationStatementView>,
                Seq<char>,
            >(error@),
        },
{
    match decode_policy_document(document) {
        Ok(policy) => Ok(policy_statements(&policy, policy_id)),
        Err(error) => Err(error),
    }
}

/// What limits the actions that a set of policies grants.
pub struct PolicyDocumentFlags {
    pub denied_actions: Vec<String>,
    pub saw_deny: bool,
    pub saw_allow_not_action: bool,
    pub saw_condition: bool,
    pub saw_scoped_resource: bool,
}

/// What a `PolicyDocumentFlags` says.
#[verifier::ext_equal]
pub struct PolicyDocumentFlagsView {
    pub denied_actions: Seq<Seq<char>>,
    pub saw_deny: bool,
    pub saw_allow_not_action: bool,
    pub saw_condition: bool,
    pub saw_scoped_resource: bool,
}

impl View for PolicyDocumentFlags {
    type V = PolicyDocumentFlagsView;

    open spec fn view(&self) -> PolicyDocumentFlagsView {
        PolicyDocumentFlagsView {
            denied_actions: texts(self.denied_actions@),
            saw_deny: self.saw_deny,
            saw_allow_not_action: self.saw_allow_not_action,
            saw_condition: self.saw_condition,
            saw_scoped_resource: self.saw_scoped_resource,
        }
    }
}

/// Nothing limits the actions.
pub open spec fn no_flags() -> PolicyDocumentFlagsView {
    PolicyDocumentFlagsView {
        denied_actions: Seq::empty(),
        saw_deny: false,
        saw_allow_not_action: false,
        saw_condition: false,
        saw_scoped_resource: false,
    }
}

impl Default for PolicyDocumentFlags {
    fn default() -> (flags: Self)
        ensures
            flags@ == no_flags(),
    {
        PolicyDocumentFlags {
            denied_actions: no_texts(),
            saw_deny: false,
            saw_allow_not_action: false,
            saw_condition: false,
            saw_scoped_resource: false,
        }
    }
}

/// An action as the summary writes it: in lower case, with a dot after the service.
pub open spec fn action_text(action: Seq<char>) -> Seq<char> {
    replaced(lowered(action), ':', "."@)
}

/// The actions that an action clause holds.
pub open spec fn clause_actions(value: Json) -> Seq<Seq<char>> {
    match value {
        Json::Text(s) => seq![action_text(s@)],
        Json::Array(list) => texts_among(list@).map_values(|s: Seq<char>| action_text(s)),
        _ => Seq::empty(),
    }
}

pub fn collect_action_values(value: &Json, actions: &mut Vec<String>)
    ensures
        texts(final(actions)@) == texts(old(actions)@) + clause_actions(*value),
{
    let ghost before = texts(actions@);
    match value {
        Json::Text(s) => {
            push_text(actions, replace(to_lowercase(s.as_str()).as_str(), ':', "."));
            assert(texts(actions@) =~= before + clause_actions(*value));
        },
        Json::Array(list) => {
            let all = collect_texts(list);
            let mut i: usize = 0;
            assert(texts(actions@) =~= before + texts(all@).take(0).map_values(|s: Seq<char>| action_text(s)));
            while i < all.len()
                invariant
                    i <= all@.len(),
                    texts(actions@) == before + texts(all@).take(i as int).map_values(
                        |s: Seq<char>| action_text(s),
                    ),
                decreases all@.len() - i,
            {
                push_text(actions, replace(to_lowercase(all[i].as_str()).as_str(), ':', "."));
                i = i + 1;
                assert(texts(actions@) =~= before + texts(all@).take(i as int).map_values(
                    |s: Seq<char>| action_text(s),
                ));
            }
            assert(texts(all@).take(all@.len() as int) =~= texts(all@));
        },
        _ => {
            assert(texts(actions@) =~= before + clause_actions(*value));
        },
    }
}

/// Whether a value other than the text `*` is among the first `n` of a list.
pub open spec fn scoped_among(list: Seq<Json>, n: int) -> bool
    decreases n,
{
    n > 0 && (scoped_among(list, n - 1) || text_of(Some(list[n - 1])) != Some("*"@))
}

/// Whether a statement speaks of anything but every resource.
pub open spec fn scoped_resource(statement: Json) -> bool {
    field(statement, "NotResource"@) is Some || match field(statement, "Resource"@) {
        None => false,
        Some(Json::Text(resource)) => resource@ != "*"@,
        Some(Json::Array(list)) => scoped_among(list@, list@.len() as int),
        Some(_) => true,
    }
}

pub fn statement_has_scoped_resource(statement: &Json) -> (yes: bool)
    ensures
        yes == scoped_resource(*statement),
{
    if statement.get("NotResource").is_some() {
        return true;
    }
    match statement.get("Resource") {
        None => false,
        Some(Json::Text(resource)) => !str_eq(resource.as_str(), "*"),
        Some(Json::Array(list)) => {
            let mut scoped: bool = false;
            let mut i: usize = 0;
            while i < list.len()
                invariant
                    i <= list@.len(),
                    scoped == scoped_among(list@, i as int),
                decreases list@.len() - i,
            {
                let plain: bool = match &list[i] {
                    Json::Text(s) => str_eq(s.as_str(), "*"),
                    _ => false,
                };
                scoped = scoped || !plain;
                i = i + 1;
            }
            scoped
        },
        Some(_) => true,
    }
}

/// Whether a statement has the effect `effect`, whatever the case it is written in.
pub open spec fn has_effect(statement: Json, effect: Seq<char>) -> bool {
    ascii_lower(
        match text_of(field(statement, "Effect"@)) {
            Some(found) => found,
            None => Seq::empty(),
        },
    ) == ascii_lower(effect)
}

pub fn effect_is(statement: &Json, effect: &str) -> (yes: bool)
    ensures
        yes == has_effect(*statement, effect@),
{
    let found = statement.text_at("Effect");
    match found {
        Some(s) => eq_ignore_ascii_case(s.as_str(), effect),
        None => eq_ignore_ascii_case(String::new().as_str(), effect),
    }
}

/// The actions that an optional clause holds.
pub open spec fn optional_actions(value: Option<Json>) -> Seq<Seq<char>> {
    match value {
        Some(clause) => clause_actions(clause),
        None => Seq::empty(),
    }
}

/// What one statement adds to the actions.
pub open spec fn actions_after(statement: Json, actions: Seq<Seq<char>>) -> Seq<Seq<char>> {
    if has_effect(statement, "Deny"@) || !has_effect(statement, "Allow"@) {
        actions
    } else {
        let granted = actions + optional_actions(field(statement, "Action"@));
        if field(statement, "NotAction"@) is Some {
            granted.push("*"@)
        } else {
            granted
        }
    }
}

/// What one statement adds to the limits. Only a deny without condition and without a resource
/// scope takes actions away.
pub open spec fn flags_after(statement: Json, flags: PolicyDocumentFlagsView) -> PolicyDocumentFlagsView {
    let conditional = field(statement, "Condition"@) is Some;
    let scoped = scoped_resource(statement);
    if has_effect(statement, "Deny"@) {
        PolicyDocumentFlagsView {
            denied_actions: if !conditional && !scoped {
                flags.denied_actions + optional_actions(field(statement, "Action"@))
            } else {
                flags.denied_actions
            },
            saw_deny: true,
            saw_allow_not_action: flags.saw_allow_not_action,
            saw_condition: flags.saw_condition || conditional,
            saw_scoped_resource: flags.saw_scoped_resource || scoped,
        }
    } else if has_effect(statement, "Allow"@) {
        PolicyDocumentFlagsView {
            denied_actions: flags.denied_actions + optional_actions(field(statement, "NotAction"@)),
            saw_deny: flags.saw_deny,
            saw_allow_not_action: flags.saw_allow_not_action || field(statement, "NotAction"@) is Some,
            saw_condition: flags.saw_condition || conditional,
            saw_scoped_resource: flags.saw_scoped_resource || scoped,
        }
    } else {
        flags
    }
}

pub fn collect_actions_from_statement(
    statement: &Json,
    actions: &mut Vec<String>,
    flags: &mut PolicyDocumentFlags,
)
    ensures
        texts(final(actions)@) == actions_after(*statement, texts(old(actions)@)),
        final(flags)@ == flags_after(*statement, old(flags)@),
{
    let ghost granted = texts(actions@);
    let ghost denied = texts(flags.denied_actions@);
    if effect_is(statement, "Deny") {
        let has_condition = statement.get("Condition").is_some();
        let has_scoped_resource = statement_has_scoped_resource(statement);
        flags.saw_deny = true;
        flags.saw_condition = flags.saw_condition || has_condition;
        flags.saw_scoped_resource = flags.saw_scoped_resource || has_scoped_resource;
        if !has_condition && !has_scoped_resource {
            match statement.get("Action") {
                Some(action) => collect_action_values(action, &mut flags.denied_actions),
                None => {
                    assert(denied =~= denied + optional_actions(field(*statement, "Action"@)));
                },
            }
        }
        return;
    }
    if !effect_is(statement, "Allow") {
        return;
    }
    flags.saw_condition = flags.saw_condition || statement.get("Condition").is_some();
    flags.saw_scoped_resource = flags.saw_scoped_resource || statement_has_scoped_resource(statement);
    match statement.get("Action") {
        Some(action) => collect_action_values(action, actions),
        None => {
            assert(granted =~= granted + optional_actions(field(*statement, "Action"@)));
        },
    }
    match statement.get("NotAction") {
        Some(not_action) => {
            flags.saw_allow_not_action = true;
            collect_action_values(not_action, &mut flags.denied_actions);
            push_text(actions, "*".to_owned());
        },
        None => {
            assert(denied =~= denied + optional_actions(field(*statement, "NotAction"@)));
        },
    }
}

/// The actions after the first `n` statements of a policy.
pub open spec fn actions_upto(policy: Json, n: int, actions: Seq<Seq<char>>) -> Seq<Seq<char>>
    decreases n,
{
    if n <= 0 {
        actions
    } else {
        actions_after(statement_list(policy)[n - 1], actions_upto(policy, n - 1, actions))
    }
}

/// The limits after the first `n` statements of a policy.
pub open spec fn flags_upto(policy: Json, n: int, flags: PolicyDocumentFlagsView) -> PolicyDocumentFlagsView
    decreases n,
{
    if n <= 0 {
        flags
    } else {
        flags_after(statement_list(policy)[n - 1], flags_upto(policy, n - 1, flags))
    }
}

/// The actions with those that a policy grants.
pub open spec fn policy_actions(policy: Json, actions: Seq<Seq<char>>) -> Seq<Seq<char>> {
    actions_upto(policy, statement_list(policy).len() as int, actions)
}

/// The limits with those that a policy sets.
pub open spec fn policy_flags(policy: Json, flags: PolicyDocumentFlagsView) -> PolicyDocumentFlagsView {
    flags_upto(policy, statement_list(policy).len() as int, flags)
}

pub fn collect_policy_actions(policy: &Json, actions: &mut Vec<String>, flags: &mut PolicyDocumentFlags)
    ensures
        texts(final(actions)@) == policy_actions(*policy, texts(old(actions)@)),
        final(flags)@ == policy_flags(*policy, old(flags)@),
{
    let count = statement_count(policy);
    let mut i: usize = 0;
    while i < count
        invariant
            i <= count,
            count == statement_list(*policy).len(),
            texts(actions@) == actions_upto(*policy, i as int, texts(old(actions)@)),
            flags@ == flags_upto(*policy, i as int, old(flags)@),
        decreases count - i,
    {
        collect_actions_from_statement(statement_at(policy, i), actions, flags);
        i = i + 1;
    }
}

pub fn extract_actions_from_document(
    document: &str,
    actions: &mut Vec<String>,
    flags: &mut PolicyDocumentFlags,
) -> (outcome: Result<(), String>)
    ensures
        match decoded_policy(document@) {
            Ok(policy) => outcome is Ok && texts(final(actions)@) == policy_actions(
                policy,
                texts(old(actions)@),
            ) && final(flags)@ == policy_flags(policy, old(flags)@),
            Err(error) => (outcome matches Err(found) && found@ == error) && texts(final(actions)@)
                == texts(old(actions)@) && final(flags)@ == old(flags)@,
        },
{
    match decode_policy_document(document) {
        Ok(policy) => {
            collect_policy_actions(&policy, actions, flags);
            Ok(())
        },
        Err(error) => Err(error),
    }
}

/// Whether one of the patterns stands for an action.
pub open spec fn matched_by_any(patterns: Seq<Seq<char>>, action: Seq<char>) -> bool {
    exists|i: int| 0 <= i < patterns.len() && wildcard(#[trigger] patterns[i], action)
}

pub fn any_pattern_matches(patterns: &Vec<String>, action: &str) -> (yes: bool)
    ensures
        yes == matched_by_any(texts(patterns@), action@),
{
    let mut i: usize = 0;
    while i < patterns.len()
        invariant
            i <= patterns@.len(),
            forall|j: int| 0 <= j < i ==> !wildcard(#[trigger] texts(patterns@)[j], action@),
        decreases patterns@.len() - i,
    {
        if wildcard_matches(patterns[i].as_str(), action) {
            assert(wildcard(texts(patterns@)[i as int], action@));
            return true;
        }
        i = i + 1;
    }
    false
}

/// Whether an action stays: one with a `*` in it always, any other unless it is denied.
pub open spec fn action_stays(action: Seq<char>, denied: Seq<Seq<char>>) -> bool {
    holds(action, "*"@) || !matched_by_any(denied, action)
}

/// The first `n` actions of a list without those that are denied.
pub open spec fn undenied(actions: Seq<Seq<char>>, denied: Seq<Seq<char>>, n: int) -> Seq<Seq<char>>
    decreases n,
{
    if n <= 0 {
        Seq::empty()
    } else if action_stays(actions[n - 1], denied) {
        undenied(actions, denied, n - 1).push(actions[n - 1])
    } else {
        undenied(actions, denied, n - 1)
    }
}

/// The actions that the policies leave, in order and each once.
pub open spec fn final_actions(actions: Seq<Seq<char>>, flags: PolicyDocumentFlagsView) -> Seq<Seq<char>> {
    if flags.denied_actions.contains("*"@) {
        Seq::empty()
    } else {
        undenied(in_order(actions), flags.denied_actions, in_order(actions).len() as int)
    }
}

/// The notes with those that the limits call for.
pub open spec fn final_notes(notes: Seq<Seq<char>>, flags: PolicyDocumentFlagsView) -> Seq<Seq<char>> {
    noted_if(
        noted_if(
            noted_if(
                noted_if(
                    notes,
                    flags.saw_deny || flags.denied_actions.len() > 0,
                    "IAM policies include explicit exclusions or Deny statements; wildcard permissions may be narrower than the summary can represent."@,
                ),
                flags.saw_allow_not_action,
                "An IAM Allow statement uses NotAction; Kingfisher conservatively summarizes it as wildcard access with exclusions."@,
            ),
            flags.saw_condition,
            "Some IAM permissions are conditional; actual access depends on request and session context."@,
        ),
        flags.saw_scoped_resource,
        "Some IAM permissions are resource-scoped; action summaries do not imply access to every resource in the service."@,
    )
}

pub fn finalize_policy_actions(
    actions: Vec<String>,
    flags: &PolicyDocumentFlags,
    risk_notes: &mut Vec<String>,
) -> (left: Vec<String>)
    ensures
        texts(left@) == final_actions(texts(actions@), flags@),
        texts(final(risk_notes)@) == final_notes(texts(old(risk_notes)@), flags@),
{
    let sorted = sort_dedup(actions);
    let mut left: Vec<String> = no_texts();
    if !is_among(&flags.denied_actions, "*") {
        let mut i: usize = 0;
        while i < sorted.len()
            invariant
                i <= sorted@.len(),
                texts(left@) == undenied(texts(sorted@), texts(flags.denied_actions@), i as int),
            decreases sorted@.len() - i,
        {
            if contains(sorted[i].as_str(), "*") || !any_pattern_matches(
                &flags.denied_actions,
                sorted[i].as_str(),
            ) {
                push_text(&mut left, sorted[i].clone());
            }
            i = i + 1;
        }
    }
    note_if(
        risk_notes,
        flags.saw_deny || flags.denied_actions.len() > 0,
        "IAM policies include explicit exclusions or Deny statements; wildcard permissions may be narrower than the summary can represent.",
    );
    note_if(
        risk_notes,
        flags.saw_allow_not_action,
        "An IAM Allow statement uses NotAction; Kingfisher conservatively summarizes it as wildcard access with exclusions.",
    );
    note_if(
        risk_notes,
        flags.saw_condition,
        "Some IAM permissions are conditional; actual access depends on request and session context.",
    );
    note_if(
        risk_notes,
        flags.saw_scoped_resource,
        "Some IAM permissions are resource-scoped; action summaries do not imply access to every resource in the service.",
    );
    left
}

/// Whether two conditions differ in nothing but their values: they name the same operators, and
/// under each the same keys.
pub open spec fn same_names(a: Option<Json>, b: Option<Json>) -> bool {
    match (a, b) {
        (Some(Json::Object(left)), Some(Json::Object(right))) => {
            &&& left@.len() == right@.len()
            &&& forall|k: int| 0 <= k < left@.len() ==> same_operator(#[trigger] left@[k], right@[k])
        },
        (Some(Json::Object(_)), _) => false,
        (_, Some(Json::Object(_))) => false,
        _ => true,
    }
}

/// Whether two operators of a condition have one name and name the same keys.
pub open spec fn same_operator(a: (String, Json), b: (String, Json)) -> bool {
    &&& a.0@ == b.0@
    &&& match (a.1, b.1) {
        (Json::Object(left), Json::Object(right)) => field_names(left@) == field_names(right@),
        (Json::Object(_), _) => false,
        (_, Json::Object(_)) => false,
        _ => true,
    }
}

proof fn lemma_same_operators(a: Seq<(String, Json)>, b: Seq<(String, Json)>, n: int)
    requires
        0 <= n <= a.len(),
        a.len() == b.len(),
        forall|k: int| 0 <= k < a.len() ==> same_operator(#[trigger] a[k], b[k]),
    ensures
        operator_keys(a, n) == operator_keys(b, n),
    decreases n,
{
    if n > 0 {
        lemma_same_operators(a, b, n - 1);
        assert(same_operator(a[n - 1], b[n - 1]));
    }
}

/// What is retained of a condition does not depend on the values in it.
pub proof fn lemma_condition_values_are_not_retained(a: Option<Json>, b: Option<Json>)
    requires
        same_names(a, b),
    ensures
        condition_names(a) == condition_names(b),
{
    match (a, b) {
        (Some(Json::Object(left)), Some(Json::Object(right))) => {
            lemma_same_operators(left@, right@, left@.len() as int);
        },
        _ => {},
    }
}

/// What is retained of a statement does not depend on the values in its condition.
pub proof fn lemma_statements_are_redacted(a: Json, b: Json, policy_id: Seq<char>, index: nat)
    requires
        forall|key: Seq<char>| key != "Condition"@ ==> #[trigger] field(a, key) == field(b, key),
        same_names(field(a, "Condition"@), field(b, "Condition"@)),
    ensures
        normalized(a, policy_id, index) == normalized(b, policy_id, index),
{
    lemma_condition_values_are_not_retained(field(a, "Condition"@), field(b, "Condition"@));
    reveal_strlit("Condition");
    reveal_strlit("Sid");
    reveal_strlit("Effect");
    reveal_strlit("Action");
    reveal_strlit("NotAction");
    reveal_strlit("Resource");
    reveal_strlit("NotResource");
    reveal_strlit("Principal");
    reveal_strlit("NotPrincipal");
    assert("Condition"@[0] == 'C');
    assert("NotAction"@[0] == 'N');
    assert("Principal"@[0] == 'P');
    assert(field(a, "Sid"@) == field(b, "Sid"@));
    assert(field(a, "Effect"@) == field(b, "Effect"@));
    assert(field(a, "Action"@) == field(b, "Action"@));
    assert(field(a, "NotAction"@) == field(b, "NotAction"@));
    assert(field(a, "Resource"@) == field(b, "Resource"@));
    assert(field(a, "NotResource"@) == field(b, "NotResource"@));
    assert(field(a, "Principal"@) == field(b, "Principal"@));
    assert(field(a, "NotPrincipal"@) == field(b, "NotPrincipal"@));
}

proof fn lemma_undenied(actions: Seq<Seq<char>>, denied: Seq<Seq<char>>, n: int, action: Seq<char>)
    requires
        0 <= n <= actions.len(),
    ensures
        undenied(actions, denied, n).contains(action) <==> actions.take(n).contains(action)
            && action_stays(action, denied),
    decreases n,
{
    if n > 0 {
        lemma_undenied(actions, denied, n - 1, action);
        let before = undenied(actions, denied, n - 1);
        let after = undenied(actions, denied, n);
        let last = actions[n - 1];
        if after.contains(action) {
            let k = choose|k: int| 0 <= k < after.len() && after[k] == action;
            if k < before.len() {
                assert(before[k] == action);
                let head = actions.take(n - 1);
                let j = choose|j: int| 0 <= j < head.len() && head[j] == action;
                assert(actions.take(n)[j] == action);
            } else {
                assert(actions.take(n)[n - 1] == action);
            }
        }
        if actions.take(n).contains(action) && action_stays(action, denied) {
            let head = actions.take(n);
            let j = choose|j: int| 0 <= j < head.len() && head[j] == action;
            if j < n - 1 {
                assert(actions.take(n - 1)[j] == action);
                let k = choose|k: int| 0 <= k < before.len() && before[k] == action;
                assert(after[k] == action);
            } else {
                assert(after[before.len() as int] == action);
            }
        }
    }
}

/// An action is left where a policy grants it and no outright deny takes it away: of the actions
/// without a `*` none is left that is denied, and none is dropped that is not.
pub proof fn lemma_denied_actions_are_dropped(
    actions: Seq<Seq<char>>,
    flags: PolicyDocumentFlagsView,
    action: Seq<char>,
)
    ensures
        final_actions(actions, flags).contains(action) <==> {
            &&& actions.contains(action)
            &&& !flags.denied_actions.contains("*"@)
            &&& action_stays(action, flags.denied_actions)
        },
{
    let sorted = in_order(actions);
    lemma_in_order(actions);
    lemma_undenied(sorted, flags.denied_actions, sorted.len() as int, action);
    assert(sorted.take(sorted.len() as int) =~= sorted);
    assert(sorted.contains(action) <==> actions.contains(action));
}

/// A deny under a condition is reported, and takes no possible access away.
pub proof fn lemma_conditional_deny_erases_nothing(
    statement: Json,
    actions: Seq<Seq<char>>,
    flags: PolicyDocumentFlagsView,
)
    requires
        has_effect(statement, "Deny"@),
        field(statement, "Condition"@) is Some,
    ensures
        final_actions(actions_after(statement, actions), flags_after(statement, flags))
            == final_actions(actions, flags),
        flags_after(statement, flags).saw_deny,
        flags_after(statement, flags).saw_condition,
{
}

/// A clause of texts is read whole: what it states, alone or anywhere in a list, is among its
/// texts, and nothing else is.
pub proof fn lemma_clauses_are_read_whole(value: Option<Json>, text: Seq<char>)
    ensures
        clause_texts(value).contains(text) <==> states(value, text),
        clause_texts(value).len() > 0 <==> exists|t: Seq<char>| #[trigger] states(value, t),
{
    let raw = match value {
        Some(Json::Text(s)) => seq![s@],
        Some(Json::Array(list)) => texts_among(list@),
        _ => Seq::empty(),
    };
    lemma_in_order(raw);
    assert forall|t: Seq<char>| clause_texts(value).contains(t) <==> #[trigger] states(value, t) by {
        assert(in_order(raw).contains(t) <==> raw.contains(t));
        match value {
            Some(Json::Text(s)) => {
                assert(seq![s@][0] == s@);
            },
            Some(Json::Array(list)) => {
                lemma_texts_among(list@, t);
            },
            _ => {},
        }
    }
    assert(states(value, text) || !states(value, text));
    if clause_texts(value).len() > 0 {
        assert(clause_texts(value).contains(clause_texts(value)[0]));
        assert(states(value, clause_texts(value)[0]));
    }
}

/// The effect of a statement is `effect`, in whatever case it is written.
pub open spec fn effect_reads(statement: Json, effect: Seq<char>) -> bool {
    exists|e: Seq<char>|
        text_of(field(statement, "Effect"@)) == Some(e) && #[trigger] ascii_lower(e) == effect
}

/// The effect of a statement is read in whatever case it is written, and is one at most.
pub proof fn lemma_effects(statement: Json)
    ensures
        effect_reads(statement, "allow"@) ==> has_effect(statement, "Allow"@) && !has_effect(
            statement,
            "Deny"@,
        ),
        effect_reads(statement, "deny"@) ==> has_effect(statement, "Deny"@) && !has_effect(
            statement,
            "Allow"@,
        ),
        has_effect(statement, "Allow"@) ==> effect_reads(statement, "allow"@),
        has_effect(statement, "Deny"@) ==> effect_reads(statement, "deny"@),
{
    reveal_strlit("Allow");
    reveal_strlit("Deny");
    reveal_strlit("allow");
    reveal_strlit("deny");
    assert(ascii_lower("Allow"@) =~= "allow"@);
    assert(ascii_lower("Deny"@) =~= "deny"@);
    assert("allow"@.len() != "deny"@.len());
    assert(ascii_lower(Seq::<char>::empty()).len() == 0);
    match text_of(field(statement, "Effect"@)) {
        Some(e) => {
            assert(ascii_lower(e) == ascii_lower(e));
        },
        None => {},
    }
}

/// An action in a summary is the action in lower case, with a dot in place of each colon and
/// nothing else changed.
pub proof fn lemma_action_names_are_kept(action: Seq<char>)
    ensures
        action_text(action).len() == lowered(action).len(),
        forall|i: int|
            0 <= i < lowered(action).len() ==> #[trigger] action_text(action)[i] == if lowered(action)[i]
                == ':' {
                '.'
            } else {
                lowered(action)[i]
            },
{
    lemma_dots_for_colons(lowered(action));
}

proof fn lemma_dots_for_colons(s: Seq<char>)
    ensures
        replaced(s, ':', "."@).len() == s.len(),
        forall|i: int|
            0 <= i < s.len() ==> #[trigger] replaced(s, ':', "."@)[i] == if s[i] == ':' {
                '.'
            } else {
                s[i]
            },
    decreases s.len(),
{
    reveal_strlit(".");
    if s.len() > 0 {
        lemma_dots_for_colons(s.drop_last());
        let before = replaced(s.drop_last(), ':', "."@);
        let now = replaced(s, ':', "."@);
        assert forall|i: int| 0 <= i < s.len() implies #[trigger] now[i] == if s[i] == ':' {
            '.'
        } else {
            s[i]
        } by {
            if i < before.len() {
                assert(now[i] == before[i]);
                assert(s.drop_last()[i] == s[i]);
            }
        }
    }
}

proof fn lemma_optional_actions(value: Option<Json>, action: Seq<char>)
    ensures
        optional_actions(value).contains(action) <==> exists|name: Seq<char>| #[trigger]
            states(value, name) && action == action_text(name),
{
    match value {
        Some(Json::Text(s)) => {
            assert(seq![action_text(s@)][0] == action_text(s@));
            assert(states(value, s@));
        },
        Some(Json::Array(list)) => {
            let names = texts_among(list@);
            let found = optional_actions(value);
            if found.contains(action) {
                let k = choose|k: int| 0 <= k < found.len() && found[k] == action;
                lemma_texts_among(list@, names[k]);
                assert(names.contains(names[k]));
                assert(states(value, names[k]));
            }
            assert forall|name: Seq<char>| #[trigger] states(value, name) && action == action_text(name) implies found.contains(
            action) by {
                lemma_texts_among(list@, name);
                let k = choose|k: int| 0 <= k < names.len() && names[k] == name;
                assert(found[k] == action);
            }
        },
        _ => {},
    }
}

/// A statement that allows grants every action it names, alone or anywhere in a list, on whatever
/// resource and under whatever condition, and every action where it names those it leaves out. It
/// takes nothing away. A statement with another effect grants nothing.
pub proof fn lemma_statements_grant_what_they_allow(statement: Json, actions: Seq<Seq<char>>, action: Seq<char>)
    ensures
        actions.contains(action) ==> actions_after(statement, actions).contains(action),
        effect_reads(statement, "allow"@) ==> forall|name: Seq<char>| #[trigger]
            states(field(statement, "Action"@), name) ==> actions_after(statement, actions).contains(
                action_text(name),
            ),
        effect_reads(statement, "allow"@) && field(statement, "NotAction"@) is Some ==> actions_after(
            statement,
            actions,
        ).contains("*"@),
        actions_after(statement, actions).contains(action) && !actions.contains(action) ==> {
            &&& effect_reads(statement, "allow"@)
            &&& (action == "*"@ && field(statement, "NotAction"@) is Some) || exists|name: Seq<char>|
                #[trigger] states(field(statement, "Action"@), name) && action == action_text(name)
        },
{
    lemma_effects(statement);
    let clause = field(statement, "Action"@);
    let added = optional_actions(clause);
    let after = actions_after(statement, actions);
    lemma_optional_actions(clause, action);
    if actions.contains(action) {
        let k = choose|k: int| 0 <= k < actions.len() && actions[k] == action;
        assert(after[k] == action);
    }
    if effect_reads(statement, "allow"@) {
        assert forall|name: Seq<char>| #[trigger] states(clause, name) implies after.contains(
            action_text(name),
        ) by {
            lemma_optional_actions(clause, action_text(name));
            let k = choose|k: int| 0 <= k < added.len() && added[k] == action_text(name);
            assert(after[actions.len() + k] == action_text(name));
        }
        if field(statement, "NotAction"@) is Some {
            assert(after[(actions.len() + added.len()) as int] == "*"@);
        }
        if after.contains(action) && !actions.contains(action) {
            let k = choose|k: int| 0 <= k < after.len() && after[k] == action;
            if k < actions.len() {
                assert(actions[k] == action);
            } else if k < actions.len() + added.len() {
                assert(added[k - actions.len()] == action);
                assert(added.contains(action));
            }
        }
    }
}

proof fn lemma_actions_upto(policy: Json, n: int, actions: Seq<Seq<char>>, action: Seq<char>)
    requires
        0 <= n <= statement_list(policy).len(),
    ensures
        actions.contains(action) ==> actions_upto(policy, n, actions).contains(action),
        forall|k: int, name: Seq<char>|
            0 <= k < n && effect_reads(#[trigger] statement_list(policy)[k], "allow"@) && #[trigger] states(
                field(statement_list(policy)[k], "Action"@),
                name,
            ) && action == action_text(name) ==> actions_upto(policy, n, actions).contains(action),
        forall|k: int|
            0 <= k < n && action == "*"@ && effect_reads(
                #[trigger] statement_list(policy)[k],
                "allow"@,
            ) && field(statement_list(policy)[k], "NotAction"@) is Some ==> actions_upto(
                policy,
                n,
                actions,
            ).contains(action),
        actions_upto(policy, n, actions).contains(action) && !actions.contains(action) ==> exists|k: int|
            0 <= k < n && effect_reads(#[trigger] statement_list(policy)[k], "allow"@) && ((action
                == "*"@ && field(statement_list(policy)[k], "NotAction"@) is Some) || exists|
                name: Seq<char>,
            | #[trigger]
                states(field(statement_list(policy)[k], "Action"@), name) && action == action_text(name)),
    decreases n,
{
    if n > 0 {
        let before = actions_upto(policy, n - 1, actions);
        lemma_actions_upto(policy, n - 1, actions, action);
        lemma_statements_grant_what_they_allow(statement_list(policy)[n - 1], before, action);
    }
}

/// Whichever statement of a policy allows an action, the action is among those that the policy
/// grants; and an action that is among them is one that some statement allows.
pub proof fn lemma_policies_grant_what_they_allow(policy: Json, actions: Seq<Seq<char>>, action: Seq<char>)
    ensures
        actions.contains(action) ==> policy_actions(policy, actions).contains(action),
        forall|k: int, name: Seq<char>|
            0 <= k < statement_list(policy).len() && effect_reads(
                #[trigger] statement_list(policy)[k],
                "allow"@,
            ) && #[trigger] states(field(statement_list(policy)[k], "Action"@), name) && action
                == action_text(name) ==> policy_actions(policy, actions).contains(action),
        forall|k: int|
            0 <= k < statement_list(policy).len() && action == "*"@ && effect_reads(
                #[trigger] statement_list(policy)[k],
                "allow"@,
            ) && field(statement_list(policy)[k], "NotAction"@) is Some ==> policy_actions(
                policy,
                actions,
            ).contains(action),
        policy_actions(policy, actions).contains(action) && !actions.contains(action) ==> exists|
            k: int,
        |
            0 <= k < statement_list(policy).len() && effect_reads(
                #[trigger] statement_list(policy)[k],
                "allow"@,
            ) && ((action == "*"@ && field(statement_list(policy)[k], "NotAction"@) is Some) || exists|
                name: Seq<char>,
            | #[trigger]
                states(field(statement_list(policy)[k], "Action"@), name) && action == action_text(name)),
{
    lemma_actions_upto(policy, statement_list(policy).len() as int, actions, action);
}

/// A statement without a condition on every resource of the account.
pub open spec fn on_everything(statement: Json) -> bool {
    &&& field(statement, "Condition"@) is None
    &&& field(statement, "NotResource"@) is None
    &&& match field(statement, "Resource"@) {
        None => true,
        Some(Json::Text(resource)) => resource@ == "*"@,
        Some(Json::Array(list)) => forall|k: int|
            0 <= k < list@.len() ==> text_of(Some(#[trigger] list@[k])) == Some("*"@),
        Some(_) => false,
    }
}

proof fn lemma_scoped_among(list: Seq<Json>, n: int)
    requires
        0 <= n <= list.len(),
    ensures
        scoped_among(list, n) <==> exists|k: int|
            0 <= k < n && text_of(Some(#[trigger] list[k])) != Some("*"@),
    decreases n,
{
    if n > 0 {
        lemma_scoped_among(list, n - 1);
    }
}

proof fn lemma_on_everything(statement: Json)
    ensures
        on_everything(statement) <==> field(statement, "Condition"@) is None && !scoped_resource(
            statement,
        ),
{
    match field(statement, "Resource"@) {
        Some(Json::Array(list)) => {
            lemma_scoped_among(list@, list@.len() as int);
        },
        _ => {},
    }
}

/// A statement that denies without a condition and on every resource takes away each action that it
/// names, alone or anywhere in a list; one that allows all but some takes away those. Nothing else
/// takes an action away, and what was taken away stays so. Every deny, condition and scope of a
/// statement that counts is noticed.
pub proof fn lemma_statements_take_what_they_deny(
    statement: Json,
    flags: PolicyDocumentFlagsView,
    action: Seq<char>,
)
    ensures
        flags.denied_actions.contains(action) ==> flags_after(statement, flags).denied_actions.contains(
            action,
        ),
        effect_reads(statement, "deny"@) && on_everything(statement) ==> forall|name: Seq<char>|
            #[trigger]
            states(field(statement, "Action"@), name) ==> flags_after(
                statement,
                flags,
            ).denied_actions.contains(action_text(name)),
        effect_reads(statement, "allow"@) ==> forall|name: Seq<char>| #[trigger]
            states(field(statement, "NotAction"@), name) ==> flags_after(
                statement,
                flags,
            ).denied_actions.contains(action_text(name)),
        flags_after(statement, flags).denied_actions.contains(action)
            && !flags.denied_actions.contains(action) ==> {
            ||| effect_reads(statement, "deny"@) && on_everything(statement) && exists|
                name: Seq<char>,
            | #[trigger]
                states(field(statement, "Action"@), name) && action == action_text(name)
            ||| effect_reads(statement, "allow"@) && exists|name: Seq<char>| #[trigger]
                states(field(statement, "NotAction"@), name) && action == action_text(name)
        },
        flags_after(statement, flags).saw_deny == (flags.saw_deny || effect_reads(
            statement,
            "deny"@,
        )),
        flags_after(statement, flags).saw_allow_not_action == (flags.saw_allow_not_action || (
        effect_reads(statement, "allow"@) && field(statement, "NotAction"@) is Some)),
        effect_reads(statement, "allow"@) || effect_reads(statement, "deny"@) ==> {
            &&& field(statement, "Condition"@) is Some ==> flags_after(
                statement,
                flags,
            ).saw_condition
            &&& field(statement, "Condition"@) is None && !on_everything(statement) ==> flags_after(
                statement,
                flags,
            ).saw_scoped_resource
        },
        flags.saw_condition ==> flags_after(statement, flags).saw_condition,
        flags.saw_scoped_resource ==> flags_after(statement, flags).saw_scoped_resource,
        on_everything(statement) ==> flags_after(statement, flags).saw_condition
            == flags.saw_condition && flags_after(statement, flags).saw_scoped_resource
            == flags.saw_scoped_resource,
{
    lemma_effects(statement);
    lemma_on_everything(statement);
    let named = field(statement, "Action"@);
    let left_out = field(statement, "NotAction"@);
    let before = flags.denied_actions;
    let after = flags_after(statement, flags).denied_actions;
    lemma_optional_actions(named, action);
    lemma_optional_actions(left_out, action);
    if before.contains(action) {
        let k = choose|k: int| 0 <= k < before.len() && before[k] == action;
        assert(after[k] == action);
    }
    if effect_reads(statement, "deny"@) && on_everything(statement) {
        let added = optional_actions(named);
        assert forall|name: Seq<char>| #[trigger] states(named, name) implies after.contains(
            action_text(name),
        ) by {
            lemma_optional_actions(named, action_text(name));
            let k = choose|k: int| 0 <= k < added.len() && added[k] == action_text(name);
            assert(after[before.len() + k] == action_text(name));
        }
    }
    if effect_reads(statement, "allow"@) {
        let added = optional_actions(left_out);
        assert forall|name: Seq<char>| #[trigger] states(left_out, name) implies after.contains(
            action_text(name),
        ) by {
            lemma_optional_actions(left_out, action_text(name));
            let k = choose|k: int| 0 <= k < added.len() && added[k] == action_text(name);
            assert(after[before.len() + k] == action_text(name));
        }
    }
    if after.contains(action) && !before.contains(action) {
        let k = choose|k: int| 0 <= k < after.len() && after[k] == action;
        if k < before.len() {
            assert(before[k] == action);
        } else if effect_reads(statement, "deny"@) {
            assert(optional_actions(named)[k - before.len()] == action);
            assert(optional_actions(named).contains(action));
        } else {
            assert(optional_actions(left_out)[k - before.len()] == action);
            assert(optional_actions(left_out).contains(action));
        }
    }
}

proof fn lemma_flags_upto(policy: Json, n: int, flags: PolicyDocumentFlagsView, action: Seq<char>)
    requires
        0 <= n <= statement_list(policy).len(),
    ensures
        flags.denied_actions.contains(action) ==> flags_upto(policy, n, flags).denied_actions.contains(
            action,
        ),
        forall|k: int, name: Seq<char>|
            0 <= k < n && effect_reads(#[trigger] statement_list(policy)[k], "deny"@) && on_everything(
                statement_list(policy)[k],
            ) && #[trigger] states(field(statement_list(policy)[k], "Action"@), name) && action
                == action_text(name) ==> flags_upto(policy, n, flags).denied_actions.contains(action),
        flags_upto(policy, n, flags).denied_actions.contains(action)
            && !flags.denied_actions.contains(action) ==> exists|k: int|
            0 <= k < n && (effect_reads(#[trigger] statement_list(policy)[k], "deny"@) || field(
                statement_list(policy)[k],
                "NotAction"@,
            ) is Some),
        forall|k: int|
            0 <= k < n && effect_reads(#[trigger] statement_list(policy)[k], "deny"@) ==> flags_upto(
                policy,
                n,
                flags,
            ).saw_deny,
        forall|k: int|
            0 <= k < n && (effect_reads(#[trigger] statement_list(policy)[k], "allow"@)
                || effect_reads(statement_list(policy)[k], "deny"@)) && field(
                statement_list(policy)[k],
                "Condition"@,
            ) is Some ==> flags_upto(policy, n, flags).saw_condition,
        flags.saw_deny ==> flags_upto(policy, n, flags).saw_deny,
        flags.saw_condition ==> flags_upto(policy, n, flags).saw_condition,
    decreases n,
{
    if n > 0 {
        let before = flags_upto(policy, n - 1, flags);
        lemma_flags_upto(policy, n - 1, flags, action);
        lemma_statements_take_what_they_deny(statement_list(policy)[n - 1], before, action);
    }
}

/// Where no statement denies and none leaves actions out, each action that some statement allows is
/// left in the end.
pub proof fn lemma_allowed_actions_are_left(policy: Json, k: int, name: Seq<char>)
    requires
        0 <= k < statement_list(policy).len(),
        effect_reads(statement_list(policy)[k], "allow"@),
        states(field(statement_list(policy)[k], "Action"@), name),
        forall|j: int|
            0 <= j < statement_list(policy).len() ==> !effect_reads(
                #[trigger] statement_list(policy)[j],
                "deny"@,
            ) && field(statement_list(policy)[j], "NotAction"@) is None,
    ensures
        final_actions(
            policy_actions(policy, Seq::empty()),
            policy_flags(policy, no_flags()),
        ).contains(action_text(name)),
{
    let n = statement_list(policy).len() as int;
    let granted = policy_actions(policy, Seq::empty());
    let flags = policy_flags(policy, no_flags());
    lemma_policies_grant_what_they_allow(policy, Seq::empty(), action_text(name));
    assert(states(field(statement_list(policy)[k], "Action"@), name));
    assert(granted.contains(action_text(name)));
    assert forall|a: Seq<char>| !flags.denied_actions.contains(a) by {
        lemma_flags_upto(policy, n, no_flags(), a);
    }
    if matched_by_any(flags.denied_actions, action_text(name)) {
        let i = choose|i: int|
            0 <= i < flags.denied_actions.len() && wildcard(
                #[trigger] flags.denied_actions[i],
                action_text(name),
            );
        assert(flags.denied_actions.contains(flags.denied_actions[i]));
    }
    lemma_denied_actions_are_dropped(granted, flags, action_text(name));
}

/// An action that a policy denies by its own name, without a condition and on every resource, is
/// not left, whatever else allows it and wherever the statement stands.
pub proof fn lemma_named_denies_win(policy: Json, actions: Seq<Seq<char>>, k: int, name: Seq<char>)
    requires
        0 <= k < statement_list(policy).len(),
        effect_reads(statement_list(policy)[k], "deny"@),
        on_everything(statement_list(policy)[k]),
        states(field(statement_list(policy)[k], "Action"@), name),
        !holds(action_text(name), "*"@),
        forall|i: int|
            0 <= i < encode_utf8(action_text(name)).len() ==> encode_utf8(action_text(name))[i] != STAR
                && encode_utf8(action_text(name))[i] != ANY,
    ensures
        !final_actions(
            policy_actions(policy, actions),
            policy_flags(policy, no_flags()),
        ).contains(action_text(name)),
        policy_flags(policy, no_flags()).saw_deny,
{
    let n = statement_list(policy).len() as int;
    let granted = policy_actions(policy, actions);
    let flags = policy_flags(policy, no_flags());
    let action = action_text(name);
    lemma_flags_upto(policy, n, no_flags(), action);
    assert(states(field(statement_list(policy)[k], "Action"@), name));
    assert(flags.denied_actions.contains(action));
    let i = choose|i: int| 0 <= i < flags.denied_actions.len() && flags.denied_actions[i] == action;
    lemma_plain_matches_itself(action, action);
    assert(wildcard(flags.denied_actions[i], action));
    lemma_denied_actions_are_dropped(granted, flags, action);
}

/// Of the actions that were granted exactly these are left in the end: none where everything is
/// denied; else those with a `*` in them, and of the others those that no denied pattern stands for.
pub proof fn lemma_actions_left(
    actions: Seq<Seq<char>>,
    flags: PolicyDocumentFlagsView,
    action: Seq<char>,
)
    ensures
        final_actions(actions, flags).contains(action) ==> actions.contains(action),
        flags.denied_actions.contains("*"@) ==> final_actions(actions, flags).len() == 0,
        actions.contains(action) && !flags.denied_actions.contains("*"@) && holds(action, "*"@)
            ==> final_actions(actions, flags).contains(action),
        actions.contains(action) && !flags.denied_actions.contains("*"@) && !(exists|i: int|
            0 <= i < flags.denied_actions.len() && wildcard(
                #[trigger] flags.denied_actions[i],
                action,
            )) ==> final_actions(actions, flags).contains(action),
        !holds(action, "*"@) && (exists|i: int|
            0 <= i < flags.denied_actions.len() && wildcard(
                #[trigger] flags.denied_actions[i],
                action,
            )) ==> !final_actions(actions, flags).contains(action),
        flags.denied_actions.len() == 0 && actions.len() > 0 ==> final_actions(actions, flags).len() > 0,
        ascending(final_actions(actions, flags)),
{
    lemma_denied_actions_are_dropped(actions, flags, action);
    if flags.denied_actions.len() == 0 && actions.len() > 0 {
        lemma_denied_actions_are_dropped(actions, flags, actions[0]);
        assert(actions.contains(actions[0]));
        assert(final_actions(actions, flags).contains(actions[0]));
    }
    lemma_in_order(actions);
    lemma_undenied_ascending(
        in_order(actions),
        flags.denied_actions,
        in_order(actions).len() as int,
    );
}

proof fn lemma_undenied_ascending(actions: Seq<Seq<char>>, denied: Seq<Seq<char>>, n: int)
    requires
        0 <= n <= actions.len(),
        ascending(actions),
    ensures
        ascending(undenied(actions, denied, n)),
        forall|j: int|
            0 <= j < undenied(actions, denied, n).len() ==> exists|i: int|
                0 <= i < n && actions[i] == #[trigger] undenied(actions, denied, n)[j],
    decreases n,
{
    if n > 0 {
        lemma_undenied_ascending(actions, denied, n - 1);
        let before = undenied(actions, denied, n - 1);
        let now = undenied(actions, denied, n);
        if action_stays(actions[n - 1], denied) {
            assert forall|i: int, j: int| 0 <= i < j < now.len() implies #[trigger] text_less(
                now[i],
                now[j],
            ) by {
                if j == before.len() {
                    assert(now[i] == before[i]);
                    let m = choose|m: int| 0 <= m < n - 1 && actions[m] == before[i];
                    assert(text_less(actions[m], actions[n - 1]));
                } else {
                    assert(text_less(before[i], before[j]));
                }
            }
            assert forall|j: int| 0 <= j < now.len() implies exists|i: int|
                0 <= i < n && actions[i] == #[trigger] now[j] by {
                if j < before.len() {
                    assert(now[j] == before[j]);
                }
            }
        }
    }
}

/// What narrows the permissions of an identity is told: a deny, actions left out of an allow, a
/// condition and a resource scope each bring their note, and no note that was made is lost.
pub proof fn lemma_limits_are_noted(notes: Seq<Seq<char>>, flags: PolicyDocumentFlagsView, note: Seq<char>)
    ensures
        notes.contains(note) ==> final_notes(notes, flags).contains(note),
        flags.saw_deny ==> final_notes(notes, flags).contains(
            "IAM policies include explicit exclusions or Deny statements; wildcard permissions may be narrower than the summary can represent."@,
        ),
        flags.saw_allow_not_action ==> final_notes(notes, flags).contains(
            "An IAM Allow statement uses NotAction; Kingfisher conservatively summarizes it as wildcard access with exclusions."@,
        ),
        flags.saw_condition ==> final_notes(notes, flags).contains(
            "Some IAM permissions are conditional; actual access depends on request and session context."@,
        ),
        flags.saw_scoped_resource ==> final_notes(notes, flags).contains(
            "Some IAM permissions are resource-scoped; action summaries do not imply access to every resource in the service."@,
        ),
        !flags.saw_deny && flags.denied_actions.len() == 0 && !flags.saw_allow_not_action
            && !flags.saw_condition && !flags.saw_scoped_resource ==> final_notes(notes, flags) == notes,
{
    let deny = "IAM policies include explicit exclusions or Deny statements; wildcard permissions may be narrower than the summary can represent."@;
    let not_action = "An IAM Allow statement uses NotAction; Kingfisher conservatively summarizes it as wildcard access with exclusions."@;
    let condition = "Some IAM permissions are conditional; actual access depends on request and session context."@;
    let scope = "Some IAM permissions are resource-scoped; action summaries do not imply access to every resource in the service."@;
    let first = noted_if(notes, flags.saw_deny || flags.denied_actions.len() > 0, deny);
    let second = noted_if(first, flags.saw_allow_not_action, not_action);
    let third = noted_if(second, flags.saw_condition, condition);
    lemma_noted_keeps(notes, deny);
    lemma_noted_keeps(first, not_action);
    lemma_noted_keeps(second, condition);
    lemma_noted_keeps(third, scope);
}

/// Every statement of a policy is looked at, whether the policy holds a list of them or one alone.
pub proof fn lemma_every_statement_is_read(policy: Json)
    ensures
        match field(policy, "Statement"@) {
            Some(Json::Array(list)) => statement_list(policy).len() == list@.len() && forall|k: int|
                0 <= k < list@.len() ==> statement_list(policy)[k] == #[trigger] list@[k],
            Some(statement) => statement_list(policy).len() == 1 && statement_list(policy)[0] == statement,
            None => statement_list(policy).len() == 0,
        },
{
}

/// What is retained of a statement is what it states: each action, resource and name of a principal
/// under the clause that it stands in, and its effect as it is written.
pub proof fn lemma_statements_are_retained(statement: Json, policy_id: Seq<char>, index: nat, text: Seq<char>)
    ensures
        normalized(statement, policy_id, index).actions.contains(text) <==> states(
            field(statement, "Action"@),
            text,
        ),
        normalized(statement, policy_id, index).not_actions.contains(text) <==> states(
            field(statement, "NotAction"@),
            text,
        ),
        normalized(statement, policy_id, index).resources.contains(text) <==> states(
            field(statement, "Resource"@),
            text,
        ),
        normalized(statement, policy_id, index).not_resources.contains(text) <==> states(
            field(statement, "NotResource"@),
            text,
        ),
        states(field(statement, "Principal"@), text) ==> normalized(
            statement,
            policy_id,
            index,
        ).principals.contains(text),
        states(field(statement, "NotPrincipal"@), text) ==> normalized(
            statement,
            policy_id,
            index,
        ).not_principals.contains(text),
        text_of(field(statement, "Effect"@)) == Some(text) ==> normalized(
            statement,
            policy_id,
            index,
        ).effect == text,
        text_of(field(statement, "Sid"@)) == Some(text) ==> normalized(statement, policy_id, index).id
            == policy_id + "#"@ + text,
        text_of(field(statement, "Sid"@)) is None ==> normalized(statement, policy_id, index).id
            == policy_id + "#"@ + decimal(index),
{
    lemma_clauses_are_read_whole(field(statement, "Action"@), text);
    lemma_clauses_are_read_whole(field(statement, "NotAction"@), text);
    lemma_clauses_are_read_whole(field(statement, "Resource"@), text);
    lemma_clauses_are_read_whole(field(statement, "NotResource"@), text);
    lemma_clauses_are_read_whole(field(statement, "Principal"@), text);
    lemma_clauses_are_read_whole(field(statement, "NotPrincipal"@), text);
}

proof fn lemma_operator_keys(operators: Seq<(String, Json)>, n: int, i: int)
    requires
        0 <= i < n <= operators.len(),
    ensures
        match operators[i].1 {
            Json::Object(entries) => forall|j: int|
                0 <= j < entries@.len() ==> operator_keys(operators, n).contains(
                    operators[i].0@ + ":"@ + (#[trigger] entries@[j]).0@,
                ),
            _ => operator_keys(operators, n).contains(operators[i].0@),
        },
    decreases n,
{
    let before = operator_keys(operators, n - 1);
    let now = operator_keys(operators, n);
    if i < n - 1 {
        lemma_operator_keys(operators, n - 1, i);
        assert forall|name: Seq<char>| #[trigger] before.contains(name) implies now.contains(name) by {
            let k = choose|k: int| 0 <= k < before.len() && before[k] == name;
            assert(now[k] == name);
        }
        match operators[i].1 {
            Json::Object(entries) => {
                assert forall|j: int| 0 <= j < entries@.len() implies now.contains(
                    operators[i].0@ + ":"@ + (#[trigger] entries@[j]).0@,
                ) by {
                    assert(before.contains(operators[i].0@ + ":"@ + entries@[j].0@));
                }
            },
            _ => {},
        }
    } else {
        match operators[i].1 {
            Json::Object(entries) => {
                assert forall|j: int| 0 <= j < entries@.len() implies now.contains(
                    operators[i].0@ + ":"@ + (#[trigger] entries@[j]).0@,
                ) by {
                    assert(field_names(entries@)[j] == entries@[j].0@);
                    assert(now[before.len() + j] == operators[i].0@ + ":"@ + entries@[j].0@);
                }
            },
            _ => {
                assert(now[before.len() as int] == operators[i].0@);
            },
        }
    }
}

/// Every key that a condition speaks of is retained, under its operator.
pub proof fn lemma_condition_keys_are_retained(
    operators: Vec<(String, Json)>,
    i: int,
    entries: Vec<(String, Json)>,
    j: int,
)
    requires
        0 <= i < operators@.len(),
        operators@[i].1 == Json::Object(entries),
        0 <= j < entries@.len(),
    ensures
        condition_names(Some(Json::Object(operators))).contains(
            operators@[i].0@ + ":"@ + entries@[j].0@,
        ),
{
    let raw = operator_keys(operators@, operators@.len() as int);
    lemma_operator_keys(operators@, operators@.len() as int, i);
    lemma_in_order(raw);
    match operators@[i].1 {
        Json::Object(found) => {
            assert(found == entries);
            assert(raw.contains(operators@[i].0@ + ":"@ + found@[j].0@));
        },
        _ => {},
    }
}

} // verus!
