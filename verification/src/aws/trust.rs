//! Role trust policies: which principals may assume a role, and on what conditions.

use vstd::prelude::*;
use crate::aws::identity::{
    account_of, arn_account, authorizing_arn, is_account_root_arn, is_root_arn, PrincipalContext,
    PrincipalContextView,
};
use crate::aws::policy::{
    clause_texts, condition_keys, condition_names, decode_policy_document, decoded_policy,
    effect_is, effect_reads, has_effect, lemma_clauses_are_read_whole, lemma_effects, statement_at, statement_count, statement_list, statement_name,
    string_values,
};
use crate::json::{field, field_at, held, lemma_fields_are_found, states, text_of, Json};
use crate::model::{pairs, views};
use crate::order::{in_order, lemma_in_order, sort_dedup};
use crate::text::{
    after_prefix, ascii_lower, before_suffix, begins, cat2, cat3, contains, copy_texts, ends,
    ends_with, eq_ignore_ascii_case, extend_texts, holds, no_texts, opt_text, pieces, push_text,
    split, starts_with, str_eq, strip_prefix, strip_suffix, texts, to_ascii_lowercase,
    unwrap_text, usize_text,
};
use crate::wildcard::{lemma_plain_matches_itself, wildcard, wildcard_matches, ANY, STAR};
use vstd::utf8::{encode_utf8, is_ascii_chars_encode_utf8};

verus! {

/// One statement of a trust policy that lets a principal assume the role.
#[derive(Clone, Debug)]
pub struct TrustMatch {
    pub statement_id: String,
    pub related_statement_ids: Vec<String>,
    pub conditional: bool,
    pub condition_keys: Vec<String>,
    pub identity_policy_required: bool,
}

/// What a `TrustMatch` says.
#[verifier::ext_equal]
pub struct TrustMatchView {
    pub statement_id: Seq<char>,
    pub related_statement_ids: Seq<Seq<char>>,
    pub conditional: bool,
    pub condition_keys: Seq<Seq<char>>,
    pub identity_policy_required: bool,
}

impl View for TrustMatch {
    type V = TrustMatchView;

    open spec fn view(&self) -> TrustMatchView {
        TrustMatchView {
            statement_id: self.statement_id@,
            related_statement_ids: texts(self.related_statement_ids@),
            conditional: self.conditional,
            condition_keys: texts(self.condition_keys@),
            identity_policy_required: self.identity_policy_required,
        }
    }
}

/// Whether one of the patterns, in lower case, stands for an action in lower case.
pub open spec fn lowered_match(patterns: Seq<Seq<char>>, action: Seq<char>) -> bool {
    exists|i: int| 0 <= i < patterns.len() && wildcard(ascii_lower(#[trigger] patterns[i]), action)
}

pub fn any_lowered_matches(patterns: &Vec<String>, action: &str) -> (yes: bool)
    ensures
        yes == lowered_match(texts(patterns@), action@),
{
    let mut i: usize = 0;
    while i < patterns.len()
        invariant
            i <= patterns@.len(),
            forall|j: int|
                0 <= j < i ==> !wildcard(ascii_lower(#[trigger] texts(patterns@)[j]), action@),
        decreases patterns@.len() - i,
    {
        if wildcard_matches(to_ascii_lowercase(patterns[i].as_str()).as_str(), action) {
            assert(wildcard(ascii_lower(texts(patterns@)[i as int]), action@));
            return true;
        }
        i = i + 1;
    }
    false
}

/// Whether the actions of a statement, or else those it leaves out, cover an action.
pub open spec fn actions_cover(actions: Seq<Seq<char>>, not_actions: Seq<Seq<char>>, action: Seq<char>) -> bool {
    if actions.len() > 0 {
        lowered_match(actions, ascii_lower(action))
    } else {
        not_actions.len() > 0 && !lowered_match(not_actions, ascii_lower(action))
    }
}

pub fn covers_action(actions: &Vec<String>, not_actions: &Vec<String>, action: &str) -> (yes: bool)
    ensures
        yes == actions_cover(texts(actions@), texts(not_actions@), action@),
{
    let requested = to_ascii_lowercase(action);
    if actions.len() > 0 {
        any_lowered_matches(actions, requested.as_str())
    } else {
        not_actions.len() > 0 && !any_lowered_matches(not_actions, requested.as_str())
    }
}

/// Whether a statement speaks of an action.
pub open spec fn speaks_of(statement: Json, action: Seq<char>) -> bool {
    actions_cover(
        clause_texts(field(statement, "Action"@)),
        clause_texts(field(statement, "NotAction"@)),
        action,
    )
}

pub fn statement_allows_action(statement: &Json, requested: &str) -> (yes: bool)
    ensures
        yes == speaks_of(*statement, requested@),
{
    let actions = string_values(statement.get("Action"));
    let not_actions = string_values(statement.get("NotAction"));
    covers_action(&actions, &not_actions, requested)
}

/// The part of a user ID before its first colon.
pub open spec fn id_stem(id: Seq<char>) -> Seq<char> {
    pieces(id, ':')[0]
}

/// Whether a text is the principal's ARN, resolved or not, its user ID or the stem of that.
pub open spec fn names_principal(value: Seq<char>, principal: PrincipalContextView) -> bool {
    value == principal.raw_arn || value == authorizing_arn(principal) || match principal.user_id {
        Some(id) => id == value || id_stem(id) == value,
        None => false,
    }
}

pub fn principal_string_directly_names(value: &str, principal: &PrincipalContext) -> (yes: bool)
    ensures
        yes == names_principal(value@, principal@),
{
    if str_eq(value, principal.raw_arn.as_str()) || str_eq(value, principal.authorization_arn()) {
        return true;
    }
    match &principal.user_id {
        Some(id) => {
            let stems = split(id.as_str(), ':');
            assert(texts(stems@)[0] == stems@[0]@);
            str_eq(id.as_str(), value) || str_eq(stems[0].as_str(), value)
        },
        None => false,
    }
}

/// Whether a text stands for the principal: `*`, its own names, its account, or the root of its
/// account.
pub open spec fn stands_for(value: Seq<char>, principal: PrincipalContextView) -> bool {
    value == "*"@ || names_principal(value, principal) || match principal.account_id {
        Some(account) => value == account || (is_root_arn(value) && account_of(value) == Some(account)),
        None => false,
    }
}

pub fn principal_string_matches(value: &str, principal: &PrincipalContext) -> (yes: bool)
    ensures
        yes == stands_for(value@, principal@),
{
    if str_eq(value, "*") || principal_string_directly_names(value, principal) {
        return true;
    }
    match &principal.account_id {
        None => false,
        Some(account) => {
            if str_eq(value, account.as_str()) {
                return true;
            }
            if !is_account_root_arn(value) {
                return false;
            }
            match arn_account(value) {
                Some(owner) => str_eq(owner.as_str(), account.as_str()),
                None => false,
            }
        },
    }
}

/// The texts of a clause that may name a principal: those of arrays, and of the `AWS` kind of an
/// object, at any depth.
pub open spec fn clause_stands_for(value: Json, principal: PrincipalContextView) -> bool
    decreases value,
{
    match value {
        Json::Text(s) => stands_for(s@, principal),
        Json::Array(list) => exists|i: int|
            0 <= i < list@.len() && clause_stands_for(#[trigger] list@[i], principal),
        Json::Object(kinds) => match field_at(kinds@, "AWS"@, 0) {
            Some(i) => 0 <= i < kinds@.len() && clause_stands_for(kinds@[i].1, principal),
            None => false,
        },
        _ => false,
    }
}

pub fn principal_value_matches(value: &Json, principal: &PrincipalContext) -> (yes: bool)
    ensures
        yes == clause_stands_for(*value, principal@),
    decreases value,
{
    match value {
        Json::Text(s) => principal_string_matches(s.as_str(), principal),
        Json::Array(list) => {
            let mut i: usize = 0;
            while i < list.len()
                invariant
                    i <= list@.len(),
                    *value == Json::Array(*list),
                    forall|j: int| 0 <= j < i ==> !clause_stands_for(#[trigger] list@[j], principal@),
                decreases list@.len() - i,
            {
                assert(decreases_to!(*value => value->Array_0@[i as int]));
                if principal_value_matches(&list[i], principal) {
                    return true;
                }
                i = i + 1;
            }
            false
        },
        Json::Object(kinds) => {
            let mut i: usize = 0;
            while i < kinds.len()
                invariant
                    i <= kinds@.len(),
                    *value == Json::Object(*kinds),
                    field_at(kinds@, "AWS"@, 0) == field_at(kinds@, "AWS"@, i as int),
                decreases kinds@.len() - i,
            {
                if str_eq(kinds[i].0.as_str(), "AWS") {
                    assert(decreases_to!(*value => value->Object_0@[i as int].1));
                    return principal_value_matches(&kinds[i].1, principal);
                }
                i = i + 1;
            }
            false
        },
        _ => false,
    }
}

/// Whether a clause names the principal itself, as `clause_stands_for` reads it.
pub open spec fn clause_names(value: Json, principal: PrincipalContextView) -> bool
    decreases value,
{
    match value {
        Json::Text(s) => names_principal(s@, principal),
        Json::Array(list) => exists|i: int|
            0 <= i < list@.len() && clause_names(#[trigger] list@[i], principal),
        Json::Object(kinds) => match field_at(kinds@, "AWS"@, 0) {
            Some(i) => 0 <= i < kinds@.len() && clause_names(kinds@[i].1, principal),
            None => false,
        },
        _ => false,
    }
}

pub fn principal_value_directly_names(value: &Json, principal: &PrincipalContext) -> (yes: bool)
    ensures
        yes == clause_names(*value, principal@),
    decreases value,
{
    match value {
        Json::Text(s) => principal_string_directly_names(s.as_str(), principal),
        Json::Array(list) => {
            let mut i: usize = 0;
            while i < list.len()
                invariant
                    i <= list@.len(),
                    *value == Json::Array(*list),
                    forall|j: int| 0 <= j < i ==> !clause_names(#[trigger] list@[j], principal@),
                decreases list@.len() - i,
            {
                assert(decreases_to!(*value => value->Array_0@[i as int]));
                if principal_value_directly_names(&list[i], principal) {
                    return true;
                }
                i = i + 1;
            }
            false
        },
        Json::Object(kinds) => {
            let mut i: usize = 0;
            while i < kinds.len()
                invariant
                    i <= kinds@.len(),
                    *value == Json::Object(*kinds),
                    field_at(kinds@, "AWS"@, 0) == field_at(kinds@, "AWS"@, i as int),
                decreases kinds@.len() - i,
            {
                if str_eq(kinds[i].0.as_str(), "AWS") {
                    assert(decreases_to!(*value => value->Object_0@[i as int].1));
                    return principal_value_directly_names(&kinds[i].1, principal);
                }
                i = i + 1;
            }
            false
        },
        _ => false,
    }
}

/// Whether the principal clause of a statement speaks of the principal, and then whether the
/// principal's own policies must allow the call too: a role of the principal's own account that
/// names the principal itself needs no more.
pub open spec fn clause_requirement(statement: Json, principal: PrincipalContextView, role_arn: Seq<char>) -> Option<bool> {
    match field(statement, "NotPrincipal"@) {
        Some(excluded) => if clause_stands_for(excluded, principal) {
            None
        } else {
            Some(true)
        },
        None => match field(statement, "Principal"@) {
            None => None,
            Some(clause) => if clause_stands_for(clause, principal) {
                Some(
                    !(account_of(role_arn) == principal.account_id && clause_names(
                        clause,
                        principal,
                    )),
                )
            } else {
                None
            },
        },
    }
}

pub fn principal_clause_requirement(
    statement: &Json,
    principal: &PrincipalContext,
    target_role_arn: &str,
) -> (required: Option<bool>)
    ensures
        required == clause_requirement(*statement, principal@, target_role_arn@),
{
    match statement.get("NotPrincipal") {
        Some(excluded) => {
            if principal_value_matches(excluded, principal) {
                return None;
            }
            return Some(true);
        },
        None => {},
    }
    match statement.get("Principal") {
        None => None,
        Some(clause) => {
            if !principal_value_matches(clause, principal) {
                return None;
            }
            let owner = arn_account(target_role_arn);
            let same_account: bool = match (&owner, &principal.account_id) {
                (Some(a), Some(b)) => str_eq(a.as_str(), b.as_str()),
                (None, None) => true,
                _ => false,
            };
            Some(!(same_account && principal_value_directly_names(clause, principal)))
        },
    }
}

/// What is known of one entry of a condition.
#[derive(Debug, Clone, Copy, PartialEq, Eq, Structural)]
pub enum Verdict {
    /// The entry holds.
    Holds,
    /// The entry does not hold.
    Fails,
    /// Whether the entry holds cannot be told from what is visible.
    Unknown,
}

/// The value of the first tag named `tag`, whatever the case, at or after `i`.
pub open spec fn tag_value(tags: Seq<(Seq<char>, Seq<char>)>, tag: Seq<char>, i: int) -> Option<Seq<char>>
    decreases tags.len() - i,
{
    if i < 0 || i >= tags.len() {
        None
    } else if ascii_lower(tags[i].0) == ascii_lower(tag) {
        Some(tags[i].1)
    } else {
        tag_value(tags, tag, i + 1)
    }
}

fn find_tag(tags: &Vec<(String, String)>, tag: &str) -> (value: Option<String>)
    ensures
        opt_text(value) == tag_value(pairs(tags@), tag@, 0),
{
    let mut i: usize = 0;
    while i < tags.len()
        invariant
            i <= tags@.len(),
            tag_value(pairs(tags@), tag@, 0) == tag_value(pairs(tags@), tag@, i as int),
        decreases tags@.len() - i,
    {
        assert(pairs(tags@)[i as int] == (tags@[i as int].0@, tags@[i as int].1@));
        if eq_ignore_ascii_case(tags[i].0.as_str(), tag) {
            return Some(tags[i].1.clone());
        }
        i = i + 1;
    }
    None
}

/// What a principal has under a condition key in lower case: `None` where the key is not one
/// that is known of principals.
pub open spec fn known_value(key: Seq<char>, principal: PrincipalContextView) -> Option<Option<Seq<char>>> {
    if key == "aws:principalarn"@ {
        Some(Some(authorizing_arn(principal)))
    } else if key == "aws:principalaccount"@ {
        Some(principal.account_id)
    } else if key == "aws:userid"@ {
        Some(principal.user_id)
    } else if key == "aws:username"@ {
        Some(principal.name)
    } else {
        match after_prefix(key, "aws:principaltag/"@) {
            Some(tag) => Some(tag_value(principal.tags, tag, 0)),
            None => None,
        }
    }
}

/// A value that may be known, as texts.
pub open spec fn opt_opt(value: Option<Option<String>>) -> Option<Option<Seq<char>>> {
    match value {
        Some(inner) => Some(opt_text(inner)),
        None => None,
    }
}

fn find_known(key: &str, principal: &PrincipalContext) -> (value: Option<Option<String>>)
    ensures
        opt_opt(value) == known_value(key@, principal@),
{
    if str_eq(key, "aws:principalarn") {
        Some(Some(principal.authorization_arn().to_owned()))
    } else if str_eq(key, "aws:principalaccount") {
        Some(crate::text::copy_opt(&principal.account_id))
    } else if str_eq(key, "aws:userid") {
        Some(crate::text::copy_opt(&principal.user_id))
    } else if str_eq(key, "aws:username") {
        Some(crate::text::copy_opt(&principal.name))
    } else {
        match strip_prefix(key, "aws:principaltag/") {
            Some(tag) => Some(find_tag(&principal.tags, tag.as_str())),
            None => None,
        }
    }
}

/// What an entry comes to where the principal has no value under its key.
pub open spec fn absent_verdict(operator: Seq<char>, key: Seq<char>, principal: PrincipalContextView) -> Verdict {
    let session = principal.kind == "assumed_role"@;
    if key == "aws:userid"@ && session {
        Verdict::Unknown
    } else if begins(key, "aws:principaltag/"@) && (session || !principal.tags_complete) {
        Verdict::Unknown
    } else if key == "aws:username"@ && session {
        if holds(operator, "Not"@) {
            Verdict::Holds
        } else {
            Verdict::Fails
        }
    } else if ends(operator, "IfExists"@) || holds(operator, "Not"@) {
        Verdict::Holds
    } else {
        Verdict::Fails
    }
}

fn judge_absent(operator: &str, key: &str, principal: &PrincipalContext) -> (verdict: Verdict)
    ensures
        verdict == absent_verdict(operator@, key@, principal@),
{
    let session = str_eq(principal.kind.as_str(), "assumed_role");
    if str_eq(key, "aws:userid") && session {
        Verdict::Unknown
    } else if starts_with(key, "aws:principaltag/") && (session || !principal.tags_complete) {
        Verdict::Unknown
    } else if str_eq(key, "aws:username") && session {
        if contains(operator, "Not") {
            Verdict::Holds
        } else {
            Verdict::Fails
        }
    } else if ends_with(operator, "IfExists") || contains(operator, "Not") {
        Verdict::Holds
    } else {
        Verdict::Fails
    }
}

/// An operator without the `IfExists` at its end.
pub open spec fn plain_operator(operator: Seq<char>) -> Seq<char> {
    match before_suffix(operator, "IfExists"@) {
        Some(plain) => plain,
        None => operator,
    }
}

/// Whether a pattern among `expected` stands for `actual`.
pub open spec fn like_any(expected: Seq<Seq<char>>, actual: Seq<char>) -> bool {
    exists|i: int| 0 <= i < expected.len() && wildcard(#[trigger] expected[i], actual)
}

fn is_like_any(expected: &Vec<String>, actual: &str) -> (yes: bool)
    ensures
        yes == like_any(texts(expected@), actual@),
{
    let mut i: usize = 0;
    while i < expected.len()
        invariant
            i <= expected@.len(),
            forall|j: int| 0 <= j < i ==> !wildcard(#[trigger] texts(expected@)[j], actual@),
        decreases expected@.len() - i,
    {
        if wildcard_matches(expected[i].as_str(), actual) {
            assert(wildcard(texts(expected@)[i as int], actual@));
            return true;
        }
        i = i + 1;
    }
    false
}

/// What an entry comes to where the principal has the value `actual` under its key.
pub open spec fn present_verdict(operator: Seq<char>, expected: Seq<Seq<char>>, actual: Seq<char>) -> Verdict {
    let plain = plain_operator(operator);
    let met = |yes: bool|
        if yes {
            Verdict::Holds
        } else {
            Verdict::Fails
        };
    if plain == "ArnEquals"@ || plain == "StringEquals"@ {
        met(expected.contains(actual))
    } else if plain == "ArnLike"@ || plain == "StringLike"@ {
        met(like_any(expected, actual))
    } else if plain == "ArnNotEquals"@ || plain == "StringNotEquals"@ {
        met(!expected.contains(actual))
    } else if plain == "ArnNotLike"@ || plain == "StringNotLike"@ {
        met(!like_any(expected, actual))
    } else {
        Verdict::Unknown
    }
}

fn verdict_of(yes: bool) -> (verdict: Verdict)
    ensures
        verdict == if yes {
            Verdict::Holds
        } else {
            Verdict::Fails
        },
{
    if yes {
        Verdict::Holds
    } else {
        Verdict::Fails
    }
}

fn judge_present(operator: &str, expected: &Vec<String>, actual: &str) -> (verdict: Verdict)
    ensures
        verdict == present_verdict(operator@, texts(expected@), actual@),
{
    let stripped = strip_suffix(operator, "IfExists");
    let plain = unwrap_text(&stripped, operator);
    let op = plain.as_str();
    if str_eq(op, "ArnEquals") || str_eq(op, "StringEquals") {
        verdict_of(crate::text::is_among(expected, actual))
    } else if str_eq(op, "ArnLike") || str_eq(op, "StringLike") {
        verdict_of(is_like_any(expected, actual))
    } else if str_eq(op, "ArnNotEquals") || str_eq(op, "StringNotEquals") {
        verdict_of(!crate::text::is_among(expected, actual))
    } else if str_eq(op, "ArnNotLike") || str_eq(op, "StringNotLike") {
        verdict_of(!is_like_any(expected, actual))
    } else {
        Verdict::Unknown
    }
}

/// Whether one of the texts holds a policy variable.
pub open spec fn has_variable(expected: Seq<Seq<char>>) -> bool {
    exists|i: int| 0 <= i < expected.len() && holds(#[trigger] expected[i], "${"@)
}

fn holds_variable(expected: &Vec<String>) -> (yes: bool)
    ensures
        yes == has_variable(texts(expected@)),
{
    let mut i: usize = 0;
    while i < expected.len()
        invariant
            i <= expected@.len(),
            forall|j: int| 0 <= j < i ==> !holds(#[trigger] texts(expected@)[j], "${"@),
        decreases expected@.len() - i,
    {
        if contains(expected[i].as_str(), "${") {
            assert(holds(texts(expected@)[i as int], "${"@));
            return true;
        }
        i = i + 1;
    }
    false
}

/// What one entry of a condition comes to. Policy variables, the tags of a session and keys that
/// say nothing of the principal cannot be told.
pub open spec fn entry_verdict(operator: Seq<char>, key: Seq<char>, value: Json, principal: PrincipalContextView) -> Verdict {
    let expected = clause_texts(Some(value));
    let lower = ascii_lower(key);
    if has_variable(expected) {
        Verdict::Unknown
    } else if begins(lower, "aws:principaltag/"@) && principal.kind == "assumed_role"@ {
        Verdict::Unknown
    } else {
        match known_value(lower, principal) {
            None => Verdict::Unknown,
            Some(None) => absent_verdict(operator, lower, principal),
            Some(Some(actual)) => present_verdict(operator, expected, actual),
        }
    }
}

pub fn judge_entry(operator: &str, key: &str, value: &Json, principal: &PrincipalContext) -> (verdict: Verdict)
    ensures
        verdict == entry_verdict(operator@, key@, *value, principal@),
{
    let expected = string_values(Some(value));
    let lower = to_ascii_lowercase(key);
    if holds_variable(&expected) {
        return Verdict::Unknown;
    }
    if starts_with(lower.as_str(), "aws:principaltag/") && str_eq(
        principal.kind.as_str(),
        "assumed_role",
    ) {
        return Verdict::Unknown;
    }
    match find_known(lower.as_str(), principal) {
        None => Verdict::Unknown,
        Some(None) => judge_absent(operator, lower.as_str(), principal),
        Some(Some(actual)) => judge_present(operator, &expected, actual.as_str()),
    }
}

/// Where the reading of a condition stands: whether nothing has failed yet, and whether anything
/// could not be told before that.
#[verifier::ext_equal]
pub struct Reading {
    pub alive: bool,
    pub conditional: bool,
}

/// The reading after one more verdict.
pub open spec fn after_verdict(reading: Reading, verdict: Verdict) -> Reading {
    if !reading.alive {
        reading
    } else {
        match verdict {
            Verdict::Holds => reading,
            Verdict::Fails => Reading { alive: false, conditional: reading.conditional },
            Verdict::Unknown => Reading { alive: true, conditional: true },
        }
    }
}

/// The reading after the first `n` entries of an operator.
pub open spec fn entries_reading(
    reading: Reading,
    operator: Seq<char>,
    entries: Seq<(String, Json)>,
    n: int,
    principal: PrincipalContextView,
) -> Reading
    decreases n,
{
    if n <= 0 {
        reading
    } else {
        after_verdict(
            entries_reading(reading, operator, entries, n - 1, principal),
            entry_verdict(operator, entries[n - 1].0@, entries[n - 1].1, principal),
        )
    }
}

/// The reading after the first `n` operators.
pub open spec fn operators_reading(operators: Seq<(String, Json)>, n: int, principal: PrincipalContextView) -> Reading
    decreases n,
{
    if n <= 0 {
        Reading { alive: true, conditional: false }
    } else {
        let before = operators_reading(operators, n - 1, principal);
        match operators[n - 1].1 {
            Json::Object(entries) => entries_reading(
                before,
                operators[n - 1].0@,
                entries@,
                entries@.len() as int,
                principal,
            ),
            _ => after_verdict(before, Verdict::Unknown),
        }
    }
}

/// What a condition comes to for a principal: whether nothing in it fails, and whether something
/// in it cannot be told.
pub open spec fn condition_reading(condition: Option<Json>, principal: PrincipalContextView) -> Reading {
    match condition {
        Some(Json::Object(operators)) => operators_reading(
            operators@,
            operators@.len() as int,
            principal,
        ),
        _ => Reading { alive: true, conditional: false },
    }
}

/// The names that a condition speaks of, where it is one that can be read.
pub open spec fn condition_reading_names(condition: Option<Json>) -> Seq<Seq<char>> {
    match condition {
        Some(Json::Object(_)) => condition_names(condition),
        _ => Seq::empty(),
    }
}

pub fn evaluate_principal_conditions(condition: Option<&Json>, principal: &PrincipalContext) -> (read: (
    bool,
    bool,
    Vec<String>,
))
    ensures
        condition_reading(held(condition), principal@) == (Reading {
            alive: read.0,
            conditional: read.1,
        }),
        texts(read.2@) == condition_reading_names(held(condition)),
{
    match condition {
        Some(Json::Object(operators)) => {
            let keys = condition_keys(condition);
            let mut alive: bool = true;
            let mut conditional: bool = false;
            let mut i: usize = 0;
            while i < operators.len()
                invariant
                    i <= operators@.len(),
                    operators_reading(operators@, i as int, principal@) == (Reading {
                        alive,
                        conditional,
                    }),
                decreases operators@.len() - i,
            {
                let ghost before = Reading { alive, conditional };
                match &operators[i].1 {
                    Json::Object(entries) => {
                        let mut j: usize = 0;
                        while j < entries.len()
                            invariant
                                i < operators@.len(),
                                j <= entries@.len(),
                                entries_reading(
                                    before,
                                    operators@[i as int].0@,
                                    entries@,
                                    j as int,
                                    principal@,
                                ) == (Reading { alive, conditional }),
                            decreases entries@.len() - j,
                        {
                            if alive {
                                match judge_entry(
                                    operators[i].0.as_str(),
                                    entries[j].0.as_str(),
                                    &entries[j].1,
                                    principal,
                                ) {
                                    Verdict::Holds => {},
                                    Verdict::Fails => {
                                        alive = false;
                                    },
                                    Verdict::Unknown => {
                                        conditional = true;
                                    },
                                }
                            }
                            j = j + 1;
                        }
                    },
                    _ => {
                        if alive {
                            conditional = true;
                        }
                    },
                }
                i = i + 1;
            }
            (alive, conditional, keys)
        },
        _ => (true, false, no_texts()),
    }
}

/// Where the reading of a trust policy stands: the statements that allow, those that deny under a
/// condition with the names in it, and whether one denies outright.
#[verifier::ext_equal]
pub struct TrustReading {
    pub allows: Seq<TrustMatchView>,
    pub denies: Seq<Seq<char>>,
    pub deny_keys: Seq<Seq<char>>,
    pub refused: bool,
}

/// The ID of a statement of a role's trust policy.
pub open spec fn trust_statement_id(role_arn: Seq<char>, statement: Json, index: nat) -> Seq<char> {
    "trust:"@ + role_arn + "#"@ + statement_name(statement, index)
}

/// The reading of a trust policy after one more statement.
pub open spec fn after_statement(
    reading: TrustReading,
    statement: Json,
    index: nat,
    role_arn: Seq<char>,
    principal: PrincipalContextView,
) -> TrustReading {
    let requirement = clause_requirement(statement, principal, role_arn);
    let condition = field(statement, "Condition"@);
    let read = condition_reading(condition, principal);
    if reading.refused || !speaks_of(statement, "sts:AssumeRole"@) || requirement is None || !read.alive {
        reading
    } else if has_effect(statement, "Allow"@) {
        TrustReading {
            allows: reading.allows.push(
                TrustMatchView {
                    statement_id: trust_statement_id(role_arn, statement, index),
                    related_statement_ids: Seq::empty(),
                    conditional: read.conditional,
                    condition_keys: condition_reading_names(condition),
                    identity_policy_required: requirement->0,
                },
            ),
            ..reading
        }
    } else if has_effect(statement, "Deny"@) {
        if read.conditional {
            TrustReading {
                denies: reading.denies.push(trust_statement_id(role_arn, statement, index)),
                deny_keys: reading.deny_keys + condition_reading_names(condition),
                ..reading
            }
        } else {
            TrustReading { refused: true, ..reading }
        }
    } else {
        reading
    }
}

/// The reading of the first `n` statements of a trust policy.
pub open spec fn trust_reading(policy: Json, n: int, role_arn: Seq<char>, principal: PrincipalContextView) -> TrustReading
    decreases n,
{
    if n <= 0 {
        TrustReading {
            allows: Seq::empty(),
            denies: Seq::empty(),
            deny_keys: Seq::empty(),
            refused: false,
        }
    } else {
        after_statement(
            trust_reading(policy, n - 1, role_arn, principal),
            statement_list(policy)[n - 1],
            (n - 1) as nat,
            role_arn,
            principal,
        )
    }
}

/// An allow under the shadow of conditional denies: it is conditional too and carries their IDs
/// and the names of their conditions.
pub open spec fn shadowed(matched: TrustMatchView, denies: Seq<Seq<char>>, deny_keys: Seq<Seq<char>>) -> TrustMatchView {
    TrustMatchView {
        statement_id: matched.statement_id,
        related_statement_ids: in_order(matched.related_statement_ids + denies),
        conditional: true,
        condition_keys: in_order(matched.condition_keys + deny_keys),
        identity_policy_required: matched.identity_policy_required,
    }
}

/// The statements of a trust policy by which a principal may assume the role: none where one
/// denies it outright.
pub open spec fn policy_trusts(policy: Json, role_arn: Seq<char>, principal: PrincipalContextView) -> Seq<TrustMatchView> {
    let read = trust_reading(policy, statement_list(policy).len() as int, role_arn, principal);
    if read.refused {
        Seq::empty()
    } else if read.denies.len() > 0 {
        read.allows.map_values(
            |matched: TrustMatchView| shadowed(matched, read.denies, read.deny_keys),
        )
    } else {
        read.allows
    }
}

fn shadow(matched: &TrustMatch, denies: &Vec<String>, deny_keys: &Vec<String>) -> (result: TrustMatch)
    ensures
        result@ == shadowed(matched@, texts(denies@), texts(deny_keys@)),
{
    let mut related = copy_texts(&matched.related_statement_ids);
    extend_texts(&mut related, denies);
    let mut keys = copy_texts(&matched.condition_keys);
    extend_texts(&mut keys, deny_keys);
    TrustMatch {
        statement_id: matched.statement_id.clone(),
        related_statement_ids: sort_dedup(related),
        conditional: true,
        condition_keys: sort_dedup(keys),
        identity_policy_required: matched.identity_policy_required,
    }
}

pub fn policy_trust_matches(policy: &Json, role_arn: &str, principal: &PrincipalContext) -> (matches: Vec<TrustMatch>)
    ensures
        views(matches@) == policy_trusts(*policy, role_arn@, principal@),
{
    let count = statement_count(policy);
    let mut allows: Vec<TrustMatch> = crate::model::no_views();
    let mut denies: Vec<String> = no_texts();
    let mut deny_keys: Vec<String> = no_texts();
    let mut refused: bool = false;
    let mut i: usize = 0;
    while i < count
        invariant
            i <= count,
            count == statement_list(*policy).len(),
            trust_reading(*policy, i as int, role_arn@, principal@) == (TrustReading {
                allows: views(allows@),
                denies: texts(denies@),
                deny_keys: texts(deny_keys@),
                refused,
            }),
        decreases count - i,
    {
        let statement = statement_at(policy, i);
        if !refused && statement_allows_action(statement, "sts:AssumeRole") {
            match principal_clause_requirement(statement, principal, role_arn) {
                Some(identity_policy_required) => {
                    let (alive, conditional, keys) = evaluate_principal_conditions(
                        statement.get("Condition"),
                        principal,
                    );
                    if alive {
                        let sid = statement.text_at("Sid");
                        let name = unwrap_text(&sid, usize_text(i).as_str());
                        let policy_id = cat2("trust:", role_arn);
                        let statement_id = cat3(policy_id.as_str(), "#", name.as_str());
                        if effect_is(statement, "Allow") {
                            crate::model::push_view(
                                &mut allows,
                                TrustMatch {
                                    statement_id,
                                    related_statement_ids: no_texts(),
                                    conditional,
                                    condition_keys: keys,
                                    identity_policy_required,
                                },
                            );
                        } else if effect_is(statement, "Deny") {
                            if conditional {
                                push_text(&mut denies, statement_id);
                                extend_texts(&mut deny_keys, &keys);
                            } else {
                                refused = true;
                            }
                        }
                    }
                },
                None => {},
            }
        }
        i = i + 1;
    }
    if refused {
        return crate::model::no_views();
    }
    if denies.len() == 0 {
        return allows;
    }
    let mut out: Vec<TrustMatch> = Vec::new();
    let mut k: usize = 0;
    while k < allows.len()
        invariant
            k <= allows@.len(),
            out@.len() == k,
            forall|j: int|
                0 <= j < k ==> (#[trigger] out@[j])@ == shadowed(allows@[j]@, texts(denies@), texts(deny_keys@)),
        decreases allows@.len() - k,
    {
        out.push(shadow(&allows[k], &denies, &deny_keys));
        k = k + 1;
    }
    assert(views(out@) =~= views(allows@).map_values(
        |matched: TrustMatchView| shadowed(matched, texts(denies@), texts(deny_keys@)),
    ));
    out
}

/// The statements of a trust policy document by which a principal may assume the role: none where
/// the document cannot be read.
pub open spec fn document_trusts(document: Seq<char>, role_arn: Seq<char>, principal: PrincipalContextView) -> Seq<TrustMatchView> {
    match decoded_policy(document) {
        Ok(policy) => policy_trusts(policy, role_arn, principal),
        Err(_) => Seq::empty(),
    }
}

pub fn trust_matches(document: &str, role_arn: &str, principal: &PrincipalContext) -> (matches: Vec<TrustMatch>)
    ensures
        views(matches@) == document_trusts(document@, role_arn@, principal@),
{
    match decode_policy_document(document) {
        Ok(policy) => policy_trust_matches(&policy, role_arn, principal),
        Err(_) => crate::model::no_views(),
    }
}

proof fn lemma_refused_upto(
    policy: Json,
    n: int,
    role_arn: Seq<char>,
    principal: PrincipalContextView,
    k: int,
)
    requires
        0 <= k < n <= statement_list(policy).len(),
        denies_outright(statement_list(policy)[k], role_arn, principal),
    ensures
        trust_reading(policy, n, role_arn, principal).refused,
    decreases n,
{
    if k < n - 1 {
        lemma_refused_upto(policy, n - 1, role_arn, principal, k);
    } else {
        let statement = statement_list(policy)[k];
        reveal_strlit("Deny");
        reveal_strlit("Allow");
        assert(ascii_lower("Deny"@).len() == 4);
        assert(ascii_lower("Allow"@).len() == 5);
        assert(!has_effect(statement, "Allow"@));
    }
}

/// Whether a statement of a trust policy denies the role to a principal whatever the request is.
pub open spec fn denies_outright(statement: Json, role_arn: Seq<char>, principal: PrincipalContextView) -> bool {
    let read = condition_reading(field(statement, "Condition"@), principal);
    &&& speaks_of(statement, "sts:AssumeRole"@)
    &&& clause_requirement(statement, principal, role_arn) is Some
    &&& read.alive
    &&& !read.conditional
    &&& has_effect(statement, "Deny"@)
}

/// One statement that denies a role outright refuses it, whatever the other statements allow.
pub proof fn lemma_outright_deny_refuses(
    policy: Json,
    role_arn: Seq<char>,
    principal: PrincipalContextView,
    k: int,
)
    requires
        0 <= k < statement_list(policy).len(),
        denies_outright(statement_list(policy)[k], role_arn, principal),
    ensures
        policy_trusts(policy, role_arn, principal).len() == 0,
{
    lemma_refused_upto(policy, statement_list(policy).len() as int, role_arn, principal, k);
}

proof fn lemma_aws_kind(clause: Json, principal: PrincipalContextView)
    ensures
        clause is Object ==> match field(clause, "AWS"@) {
            Some(kind) => clause_stands_for(clause, principal) == clause_stands_for(kind, principal)
                && clause_names(clause, principal) == clause_names(kind, principal),
            None => !clause_stands_for(clause, principal) && !clause_names(clause, principal),
        },
{
    if clause is Object {
        lemma_fields_are_found(clause, clause->Object_0, "AWS"@);
        lemma_aws_position(clause->Object_0@, 0);
    }
}

proof fn lemma_aws_position(kinds: Seq<(String, Json)>, i: int)
    requires
        0 <= i,
    ensures
        match field_at(kinds, "AWS"@, i) {
            Some(k) => i <= k < kinds.len(),
            None => true,
        },
    decreases kinds.len() - i,
{
    if i < kinds.len() && kinds[i].0@ != "AWS"@ {
        lemma_aws_position(kinds, i + 1);
    }
}

/// The list of principals that a clause is, or that it holds under `AWS`.
pub open spec fn principal_list(clause: Json, list: Vec<Json>) -> bool {
    clause == Json::Array(list) || (clause is Object && field(clause, "AWS"@) == Some(
        Json::Array(list),
    ))
}

proof fn lemma_list_members(list: Vec<Json>, principal: PrincipalContextView)
    ensures
        clause_stands_for(Json::Array(list), principal) <==> exists|k: int|
            0 <= k < list@.len() && clause_stands_for(#[trigger] list@[k], principal),
        clause_names(Json::Array(list), principal) <==> exists|k: int|
            0 <= k < list@.len() && clause_names(#[trigger] list@[k], principal),
{
    let value = Json::Array(list);
    match value {
        Json::Array(members) => {
            assert(members@ == list@);
            if clause_stands_for(value, principal) {
                let k = choose|k: int|
                    0 <= k < members@.len() && clause_stands_for(#[trigger] members@[k], principal);
                assert(clause_stands_for(list@[k], principal));
            }
            if clause_names(value, principal) {
                let k = choose|k: int|
                    0 <= k < members@.len() && clause_names(#[trigger] members@[k], principal);
                assert(clause_names(list@[k], principal));
            }
            if exists|k: int| 0 <= k < list@.len() && clause_stands_for(#[trigger] list@[k], principal) {
                let k = choose|k: int|
                    0 <= k < list@.len() && clause_stands_for(#[trigger] list@[k], principal);
                assert(clause_stands_for(members@[k], principal));
            }
            if exists|k: int| 0 <= k < list@.len() && clause_names(#[trigger] list@[k], principal) {
                let k = choose|k: int|
                    0 <= k < list@.len() && clause_names(#[trigger] list@[k], principal);
                assert(clause_names(members@[k], principal));
            }
        },
        _ => {},
    }
}

proof fn lemma_same_members(list: Vec<Json>, others: Vec<Json>, principal: PrincipalContextView)
    requires
        forall|item: Json| #[trigger] list@.contains(item) ==> others@.contains(item),
    ensures
        clause_stands_for(Json::Array(list), principal) ==> clause_stands_for(
            Json::Array(others),
            principal,
        ),
        clause_names(Json::Array(list), principal) ==> clause_names(Json::Array(others), principal),
{
    lemma_list_members(list, principal);
    lemma_list_members(others, principal);
    if clause_stands_for(Json::Array(list), principal) {
        let k = choose|k: int|
            0 <= k < list@.len() && clause_stands_for(#[trigger] list@[k], principal);
        assert(list@.contains(list@[k]));
        let m = choose|m: int| 0 <= m < others@.len() && others@[m] == list@[k];
        assert(clause_stands_for(others@[m], principal));
    }
    if clause_names(Json::Array(list), principal) {
        let k = choose|k: int| 0 <= k < list@.len() && clause_names(#[trigger] list@[k], principal);
        assert(list@.contains(list@[k]));
        let m = choose|m: int| 0 <= m < others@.len() && others@[m] == list@[k];
        assert(clause_names(others@[m], principal));
    }
}

/// A list of principals matches where one of its members does, whichever it is, and a list of one
/// member matches as that member does. So the order of a list does not matter: two lists with the
/// same members match the same principals.
pub proof fn lemma_principal_lists_have_no_order(
    one: Json,
    list: Vec<Json>,
    other: Json,
    others: Vec<Json>,
    principal: PrincipalContextView,
)
    requires
        principal_list(one, list),
        principal_list(other, others),
    ensures
        forall|k: int|
            0 <= k < list@.len() && clause_stands_for(#[trigger] list@[k], principal)
                ==> clause_stands_for(one, principal),
        forall|k: int|
            0 <= k < list@.len() && clause_names(#[trigger] list@[k], principal) ==> clause_names(
                one,
                principal,
            ),
        list@.len() == 1 ==> clause_stands_for(one, principal) == clause_stands_for(
            list@[0],
            principal,
        ) && clause_names(one, principal) == clause_names(list@[0], principal),
        list@.len() == 0 ==> !clause_stands_for(one, principal) && !clause_names(one, principal),
        (forall|item: Json| #[trigger] list@.contains(item) <==> others@.contains(item)) ==> {
            &&& clause_stands_for(one, principal) == clause_stands_for(other, principal)
            &&& clause_names(one, principal) == clause_names(other, principal)
        },
{
    lemma_aws_kind(one, principal);
    lemma_aws_kind(other, principal);
    lemma_list_members(list, principal);
    lemma_list_members(others, principal);
    if forall|item: Json| #[trigger] list@.contains(item) <==> others@.contains(item) {
        lemma_same_members(list, others, principal);
        lemma_same_members(others, list, principal);
    }
}

/// Whether a clause of principals states a text: alone or in a list, there or under `AWS`.
pub open spec fn clause_states(clause: Json, text: Seq<char>) -> bool {
    states(Some(clause), text) || (clause is Object && states(field(clause, "AWS"@), text))
}

proof fn lemma_stated_member(value: Json, text: Seq<char>, principal: PrincipalContextView)
    requires
        states(Some(value), text),
    ensures
        stands_for(text, principal) ==> clause_stands_for(value, principal),
        names_principal(text, principal) ==> clause_names(value, principal),
{
    match value {
        Json::Array(list) => {
            let k = choose|k: int|
                0 <= k < list@.len() && text_of(Some(#[trigger] list@[k])) == Some(text);
            if stands_for(text, principal) {
                assert(clause_stands_for(list@[k], principal));
            }
            if names_principal(text, principal) {
                assert(clause_names(list@[k], principal));
            }
        },
        _ => {},
    }
}

/// A clause that states the ARN or the user ID of a principal, alone or anywhere in a list, matches
/// the principal and names it. One that states `*` or the account matches it.
pub proof fn lemma_stated_principals_match(clause: Json, text: Seq<char>, principal: PrincipalContextView)
    requires
        clause_states(clause, text),
    ensures
        text == principal.raw_arn ==> clause_stands_for(clause, principal) && clause_names(
            clause,
            principal,
        ),
        principal.canonical_arn == Some(text) ==> clause_stands_for(clause, principal)
            && clause_names(clause, principal),
        principal.user_id == Some(text) ==> clause_stands_for(clause, principal) && clause_names(
            clause,
            principal,
        ),
        text == "*"@ ==> clause_stands_for(clause, principal),
        principal.account_id == Some(text) ==> clause_stands_for(clause, principal),
        is_root_arn(text) && account_of(text) == principal.account_id ==> clause_stands_for(
            clause,
            principal,
        ),
{
    lemma_aws_kind(clause, principal);
    if states(Some(clause), text) {
        lemma_stated_member(clause, text, principal);
    } else {
        lemma_stated_member(field(clause, "AWS"@)->0, text, principal);
    }
}

/// A text that is neither `*` nor the principal's account, and neither an ARN nor the user ID of the
/// principal nor the start of that, matches it only as the root of its account. In particular a
/// principal is not matched by the ARN of another one.
pub proof fn lemma_other_principals_do_not_match(text: Seq<char>, principal: PrincipalContextView)
    requires
        text != "*"@,
        text != principal.raw_arn,
        principal.canonical_arn != Some(text),
        principal.account_id != Some(text),
        match principal.user_id {
            Some(id) => text != id && text != pieces(id, ':')[0],
            None => true,
        },
    ensures
        stands_for(text, principal) ==> is_root_arn(text) && account_of(text) is Some && account_of(text)
            == principal.account_id,
        !names_principal(text, principal),
{
}

/// The name of the call by which a role is assumed holds no `*` and no `?`.
pub proof fn lemma_assume_role_is_plain()
    ensures
        forall|k: int|
            0 <= k < encode_utf8(ascii_lower("sts:AssumeRole"@)).len() ==> #[trigger] encode_utf8(
                ascii_lower("sts:AssumeRole"@),
            )[k] != STAR && encode_utf8(ascii_lower("sts:AssumeRole"@))[k] != ANY,
{
    reveal_strlit("sts:AssumeRole");
    let name = ascii_lower("sts:AssumeRole"@);
    assert(name =~= seq!['s', 't', 's', ':', 'a', 's', 's', 'u', 'm', 'e', 'r', 'o', 'l', 'e']);
    is_ascii_chars_encode_utf8(name);
    assert forall|k: int| 0 <= k < encode_utf8(name).len() implies #[trigger] encode_utf8(name)[k] != STAR
        && encode_utf8(name)[k] != ANY by {
        assert(name[k] as u8 == encode_utf8(name)[k]);
        assert(name[k] != '*' && name[k] != '?');
    }
}

/// A statement whose actions name an action, alone or anywhere in a list and in whatever case,
/// speaks of it. A statement that leaves actions out speaks of an action exactly where none of
/// these stands for it.
pub proof fn lemma_named_actions_are_spoken_of(statement: Json, name: Seq<char>, action: Seq<char>)
    requires
        forall|k: int|
            0 <= k < encode_utf8(ascii_lower(action)).len() ==> encode_utf8(ascii_lower(action))[k]
                != STAR && encode_utf8(ascii_lower(action))[k] != ANY,
    ensures
        states(field(statement, "Action"@), name) && ascii_lower(name) == ascii_lower(action)
            ==> speaks_of(statement, action),
        states(field(statement, "Action"@), name) && wildcard(
            ascii_lower(name),
            ascii_lower(action),
        ) ==> speaks_of(statement, action),
        (forall|t: Seq<char>| !#[trigger] states(field(statement, "Action"@), t)) && states(
            field(statement, "NotAction"@),
            name,
        ) && wildcard(ascii_lower(name), ascii_lower(action)) ==> !speaks_of(statement, action),
        (forall|t: Seq<char>| !#[trigger] states(field(statement, "Action"@), t)) && states(
            field(statement, "NotAction"@),
            name,
        ) && (forall|t: Seq<char>| #[trigger]
            states(field(statement, "NotAction"@), t) ==> !wildcard(
                ascii_lower(t),
                ascii_lower(action),
            )) ==> speaks_of(statement, action),
        (forall|t: Seq<char>| !#[trigger] states(field(statement, "Action"@), t)) && (forall|
            t: Seq<char>,
        | !#[trigger] states(field(statement, "NotAction"@), t)) ==> !speaks_of(statement, action),
        states(field(statement, "Action"@), name) && (forall|t: Seq<char>| #[trigger]
            states(field(statement, "Action"@), t) ==> !wildcard(
                ascii_lower(t),
                ascii_lower(action),
            )) ==> !speaks_of(statement, action),
{
    let actions = clause_texts(field(statement, "Action"@));
    let left_out = clause_texts(field(statement, "NotAction"@));
    let wanted = ascii_lower(action);
    lemma_plain_matches_itself(wanted, wanted);
    assert forall|t: Seq<char>|
        #![trigger actions.contains(t)]
        #![trigger states(field(statement, "Action"@), t)]
        actions.contains(t) <==> states(field(statement, "Action"@), t) by {
        lemma_clauses_are_read_whole(field(statement, "Action"@), t);
    }
    assert forall|t: Seq<char>|
        #![trigger left_out.contains(t)]
        #![trigger states(field(statement, "NotAction"@), t)]
        left_out.contains(t) <==> states(field(statement, "NotAction"@), t) by {
        lemma_clauses_are_read_whole(field(statement, "NotAction"@), t);
    }
    if actions.contains(name) && wildcard(ascii_lower(name), wanted) {
        let k = choose|k: int| 0 <= k < actions.len() && actions[k] == name;
        assert(wildcard(ascii_lower(actions[k]), wanted));
    }
    if left_out.contains(name) && wildcard(ascii_lower(name), wanted) {
        let k = choose|k: int| 0 <= k < left_out.len() && left_out[k] == name;
        assert(wildcard(ascii_lower(left_out[k]), wanted));
    }
    if actions.len() > 0 {
        assert(actions.contains(actions[0]));
        assert(states(field(statement, "Action"@), actions[0]));
    }
    if left_out.len() > 0 {
        assert(left_out.contains(left_out[0]));
        assert(states(field(statement, "NotAction"@), left_out[0]));
    }
    if lowered_match(actions, wanted) {
        let k = choose|k: int|
            0 <= k < actions.len() && wildcard(ascii_lower(#[trigger] actions[k]), wanted);
        assert(actions.contains(actions[k]));
        assert(states(field(statement, "Action"@), actions[k]));
    }
    if lowered_match(left_out, wanted) {
        let k = choose|k: int|
            0 <= k < left_out.len() && wildcard(ascii_lower(#[trigger] left_out[k]), wanted);
        assert(left_out.contains(left_out[k]));
        assert(states(field(statement, "NotAction"@), left_out[k]));
    }
}

/// Whom `NotPrincipal` states, the statement does not speak of, and it speaks of everybody else;
/// whom `Principal` states, it speaks of. The principal's own policies need not allow the call
/// exactly where the role is of the principal's account and the clause names the principal itself.
pub proof fn lemma_principal_clauses(
    statement: Json,
    principal: PrincipalContextView,
    role_arn: Seq<char>,
    clause: Json,
    text: Seq<char>,
)
    ensures
        field(statement, "NotPrincipal"@) == Some(clause) ==> {
            let required = clause_requirement(statement, principal, role_arn);
            &&& clause_states(clause, text) && (text == principal.raw_arn || text == "*"@) ==> required is None
            &&& clause == Json::Null ==> required == Some(true)
            &&& required is Some ==> required == Some(true)
        },
        field(statement, "NotPrincipal"@) is None && field(statement, "Principal"@) == Some(clause)
            && clause_states(clause, text) ==> {
            let required = clause_requirement(statement, principal, role_arn);
            &&& text == principal.raw_arn || principal.canonical_arn == Some(text) ==> required == Some(
                account_of(role_arn) != principal.account_id,
            )
            &&& text == "*"@ || principal.account_id == Some(text) ==> required is Some
            &&& account_of(role_arn) != principal.account_id && required is Some ==> required == Some(
                true,
            )
        },
        field(statement, "NotPrincipal"@) is None && field(statement, "Principal"@) is None
            ==> clause_requirement(statement, principal, role_arn) is None,
{
    if clause_states(clause, text) {
        lemma_stated_principals_match(clause, text, principal);
    }
}

/// A statement that lets a principal assume a role without more ado: it allows the call, states the
/// principal's ARN among its principals and has no condition.
pub open spec fn plainly_allows(statement: Json, principal: PrincipalContextView) -> bool {
    &&& effect_reads(statement, "allow"@)
    &&& states(field(statement, "Action"@), "sts:AssumeRole"@)
    &&& field(statement, "NotPrincipal"@) is None
    &&& field(statement, "Principal"@) is Some
    &&& clause_states(field(statement, "Principal"@)->0, authorizing_arn(principal))
    &&& field(statement, "Condition"@) is None
}

/// The match that such a statement leads to.
pub open spec fn plain_match(
    matched: TrustMatchView,
    statement: Json,
    index: nat,
    role_arn: Seq<char>,
    principal: PrincipalContextView,
) -> bool {
    &&& matched.statement_id == "trust:"@ + role_arn + "#"@ + statement_name(statement, index)
    &&& !matched.conditional
    &&& matched.condition_keys.len() == 0
    &&& matched.identity_policy_required == (account_of(role_arn) != principal.account_id)
}

proof fn lemma_plain_allow_upto(
    policy: Json,
    n: int,
    role_arn: Seq<char>,
    principal: PrincipalContextView,
    k: int,
)
    requires
        0 <= n <= statement_list(policy).len(),
        forall|j: int|
            0 <= j < statement_list(policy).len() ==> !effect_reads(
                #[trigger] statement_list(policy)[j],
                "deny"@,
            ),
        0 <= k < n ==> plainly_allows(statement_list(policy)[k], principal),
    ensures
        !trust_reading(policy, n, role_arn, principal).refused,
        trust_reading(policy, n, role_arn, principal).denies.len() == 0,
        0 <= k < n ==> exists|i: int|
            0 <= i < trust_reading(policy, n, role_arn, principal).allows.len() && plain_match(
                #[trigger] trust_reading(policy, n, role_arn, principal).allows[i],
                statement_list(policy)[k],
                k as nat,
                role_arn,
                principal,
            ),
    decreases n,
{
    if n > 0 {
        lemma_plain_allow_upto(policy, n - 1, role_arn, principal, k);
        let statement = statement_list(policy)[n - 1];
        let before = trust_reading(policy, n - 1, role_arn, principal);
        let now = trust_reading(policy, n, role_arn, principal);
        lemma_effects(statement);
        if k == n - 1 {
            lemma_assume_role_is_plain();
            lemma_named_actions_are_spoken_of(statement, "sts:AssumeRole"@, "sts:AssumeRole"@);
            lemma_principal_clauses(
                statement,
                principal,
                role_arn,
                field(statement, "Principal"@)->0,
                authorizing_arn(principal),
            );
            let i = before.allows.len() as int;
            assert(plain_match(now.allows[i], statement, k as nat, role_arn, principal));
        } else if 0 <= k < n - 1 {
            let i = choose|i: int|
                0 <= i < before.allows.len() && plain_match(
                    #[trigger] before.allows[i],
                    statement_list(policy)[k],
                    k as nat,
                    role_arn,
                    principal,
                );
            assert(now.allows[i] == before.allows[i]);
        }
    }
}

/// Whoever is listed is trusted: where some statement of a role's trust policy allows the call to a
/// list of principals with the principal's ARN anywhere in it, without a condition, and none
/// denies, the role trusts the principal unconditionally. The principal's own policies have to allow
/// the call too only where the role is of another account.
pub proof fn lemma_listed_principals_are_trusted(
    policy: Json,
    role_arn: Seq<char>,
    principal: PrincipalContextView,
    k: int,
)
    requires
        0 <= k < statement_list(policy).len(),
        plainly_allows(statement_list(policy)[k], principal),
        forall|j: int|
            0 <= j < statement_list(policy).len() ==> !effect_reads(
                #[trigger] statement_list(policy)[j],
                "deny"@,
            ),
    ensures
        exists|i: int|
            0 <= i < policy_trusts(policy, role_arn, principal).len() && plain_match(
                #[trigger] policy_trusts(policy, role_arn, principal)[i],
                statement_list(policy)[k],
                k as nat,
                role_arn,
                principal,
            ),
{
    let n = statement_list(policy).len() as int;
    lemma_plain_allow_upto(policy, n, role_arn, principal, k);
    let allows = trust_reading(policy, n, role_arn, principal).allows;
    let i = choose|i: int|
        0 <= i < allows.len() && plain_match(
            #[trigger] allows[i],
            statement_list(policy)[k],
            k as nat,
            role_arn,
            principal,
        );
    assert(policy_trusts(policy, role_arn, principal)[i] == allows[i]);
}

/// A statement that denies a role to everybody, without a condition, leaves nobody trusted, wherever
/// it stands in the policy.
pub proof fn lemma_plain_denies_refuse(
    policy: Json,
    role_arn: Seq<char>,
    principal: PrincipalContextView,
    k: int,
    text: Seq<char>,
)
    requires
        0 <= k < statement_list(policy).len(),
        effect_reads(statement_list(policy)[k], "deny"@),
        states(field(statement_list(policy)[k], "Action"@), "sts:AssumeRole"@),
        field(statement_list(policy)[k], "NotPrincipal"@) is None,
        field(statement_list(policy)[k], "Principal"@) is Some,
        clause_states(field(statement_list(policy)[k], "Principal"@)->0, text),
        text == "*"@ || text == authorizing_arn(principal) || text == principal.raw_arn
            || principal.account_id == Some(text),
        field(statement_list(policy)[k], "Condition"@) is None,
    ensures
        policy_trusts(policy, role_arn, principal).len() == 0,
{
    let statement = statement_list(policy)[k];
    lemma_effects(statement);
    lemma_assume_role_is_plain();
    lemma_named_actions_are_spoken_of(statement, "sts:AssumeRole"@, "sts:AssumeRole"@);
    lemma_stated_principals_match(field(statement, "Principal"@)->0, text, principal);
    lemma_outright_deny_refuses(policy, role_arn, principal, k);
}

proof fn lemma_allows_upto(
    policy: Json,
    n: int,
    role_arn: Seq<char>,
    principal: PrincipalContextView,
    i: int,
) -> (k: int)
    requires
        0 <= n <= statement_list(policy).len(),
        0 <= i < trust_reading(policy, n, role_arn, principal).allows.len(),
    ensures
        0 <= k < n,
        effect_reads(statement_list(policy)[k], "allow"@),
        speaks_of(statement_list(policy)[k], "sts:AssumeRole"@),
        clause_requirement(statement_list(policy)[k], principal, role_arn) == Some(
            trust_reading(policy, n, role_arn, principal).allows[i].identity_policy_required,
        ),
        condition_reading(field(statement_list(policy)[k], "Condition"@), principal) == (Reading {
            alive: true,
            conditional: trust_reading(policy, n, role_arn, principal).allows[i].conditional,
        }),
        trust_reading(policy, n, role_arn, principal).allows[i].statement_id == "trust:"@ + role_arn
            + "#"@ + statement_name(statement_list(policy)[k], k as nat),
    decreases n,
{
    let statement = statement_list(policy)[n - 1];
    let before = trust_reading(policy, n - 1, role_arn, principal);
    lemma_effects(statement);
    if i < before.allows.len() {
        lemma_allows_upto(policy, n - 1, role_arn, principal, i)
    } else {
        n - 1
    }
}

/// Nobody is trusted without a statement: each match comes from one that allows the call, whose
/// clause of principals speaks of the principal and whose condition does not fail; and it tells how
/// far that condition, and the principal's own policies, are still to be asked.
pub proof fn lemma_trust_has_a_statement(
    policy: Json,
    role_arn: Seq<char>,
    principal: PrincipalContextView,
    i: int,
)
    requires
        0 <= i < policy_trusts(policy, role_arn, principal).len(),
    ensures
        exists|k: int|
            0 <= k < statement_list(policy).len() && {
                let statement = #[trigger] statement_list(policy)[k];
                let matched = policy_trusts(policy, role_arn, principal)[i];
                let read = condition_reading(field(statement, "Condition"@), principal);
                &&& effect_reads(statement, "allow"@)
                &&& speaks_of(statement, "sts:AssumeRole"@)
                &&& clause_requirement(statement, principal, role_arn) == Some(
                    matched.identity_policy_required,
                )
                &&& read.alive
                &&& read.conditional ==> matched.conditional
                &&& matched.statement_id == "trust:"@ + role_arn + "#"@ + statement_name(
                    statement,
                    k as nat,
                )
            },
{
    let n = statement_list(policy).len() as int;
    let k = lemma_allows_upto(policy, n, role_arn, principal, i);
    assert(statement_list(policy)[k] == statement_list(policy)[k]);
}

/// The key of a condition is one under which the principal has the value `actual`, in whatever case
/// the key is written.
pub open spec fn principal_has(key: Seq<char>, actual: Seq<char>, principal: PrincipalContextView) -> bool {
    ||| ascii_lower(key) == "aws:principalarn"@ && actual == authorizing_arn(principal)
    ||| ascii_lower(key) == "aws:principalaccount"@ && principal.account_id == Some(actual)
    ||| ascii_lower(key) == "aws:userid"@ && principal.user_id == Some(actual)
    ||| ascii_lower(key) == "aws:username"@ && principal.name == Some(actual)
}

proof fn lemma_known_keys(key: Seq<char>, actual: Seq<char>, principal: PrincipalContextView)
    requires
        principal_has(key, actual, principal),
    ensures
        known_value(ascii_lower(key), principal) == Some(Some(actual)),
        !begins(ascii_lower(key), "aws:principaltag/"@),
{
    reveal_strlit("aws:principalarn");
    reveal_strlit("aws:principalaccount");
    reveal_strlit("aws:userid");
    reveal_strlit("aws:username");
    reveal_strlit("aws:principaltag/");
    assert("aws:principalarn"@.len() == 16);
    assert("aws:principalaccount"@.len() == 20);
    assert("aws:userid"@.len() == 10);
    assert("aws:username"@.len() == 12);
    assert("aws:principaltag/"@.len() == 17);
    if begins("aws:principalaccount"@, "aws:principaltag/"@) {
        assert("aws:principalaccount"@.subrange(0, 17)[13] == "aws:principaltag/"@[13]);
    }
}

proof fn lemma_operator_stems()
    ensures
        plain_operator("StringEquals"@) == "StringEquals"@,
        plain_operator("ArnEquals"@) == "ArnEquals"@,
        plain_operator("StringNotEquals"@) == "StringNotEquals"@,
        plain_operator("ArnNotEquals"@) == "ArnNotEquals"@,
        plain_operator("StringLike"@) == "StringLike"@,
        plain_operator("ArnLike"@) == "ArnLike"@,
        plain_operator("StringNotLike"@) == "StringNotLike"@,
        plain_operator("ArnNotLike"@) == "ArnNotLike"@,
{
    reveal_strlit("IfExists");
    reveal_strlit("StringEquals");
    reveal_strlit("ArnEquals");
    reveal_strlit("StringNotEquals");
    reveal_strlit("ArnNotEquals");
    reveal_strlit("StringLike");
    reveal_strlit("ArnLike");
    reveal_strlit("StringNotLike");
    reveal_strlit("ArnNotLike");
    assert("IfExists"@.len() == 8);
    assert(!ends("StringEquals"@, "IfExists"@)) by {
        assert("StringEquals"@.subrange(4, 12)[6] != "IfExists"@[6]);
    }
    assert(!ends("ArnEquals"@, "IfExists"@)) by {
        assert("ArnEquals"@.subrange(1, 9)[6] != "IfExists"@[6]);
    }
    assert(!ends("StringNotEquals"@, "IfExists"@)) by {
        assert("StringNotEquals"@.subrange(7, 15)[6] != "IfExists"@[6]);
    }
    assert(!ends("ArnNotEquals"@, "IfExists"@)) by {
        assert("ArnNotEquals"@.subrange(4, 12)[6] != "IfExists"@[6]);
    }
    assert(!ends("StringLike"@, "IfExists"@)) by {
        assert("StringLike"@.subrange(2, 10)[7] != "IfExists"@[7]);
    }
    assert(!ends("ArnLike"@, "IfExists"@));
    assert(!ends("StringNotLike"@, "IfExists"@)) by {
        assert("StringNotLike"@.subrange(5, 13)[7] != "IfExists"@[7]);
    }
    assert(!ends("ArnNotLike"@, "IfExists"@)) by {
        assert("ArnNotLike"@.subrange(2, 10)[7] != "IfExists"@[7]);
    }
}

proof fn lemma_operators_differ()
    ensures
        forall|a: int, b: int|
            0 <= a < 8 && 0 <= b < 8 && a != b ==> #[trigger] operator_names()[a] != #[trigger] operator_names()[b],
{
    reveal_strlit("StringEquals");
    reveal_strlit("ArnEquals");
    reveal_strlit("StringNotEquals");
    reveal_strlit("ArnNotEquals");
    reveal_strlit("StringLike");
    reveal_strlit("ArnLike");
    reveal_strlit("StringNotLike");
    reveal_strlit("ArnNotLike");
    assert("StringEquals"@.len() == 12);
    assert("ArnEquals"@.len() == 9);
    assert("StringNotEquals"@.len() == 15);
    assert("ArnNotEquals"@.len() == 12);
    assert("StringLike"@.len() == 10);
    assert("ArnLike"@.len() == 7);
    assert("StringNotLike"@.len() == 13);
    assert("ArnNotLike"@.len() == 10);
    assert("StringEquals"@[0] == 'S');
    assert("ArnNotEquals"@[0] == 'A');
    assert("StringLike"@[0] == 'S');
    assert("ArnNotLike"@[0] == 'A');
}

/// The operators that compare a principal's own value.
pub open spec fn operator_names() -> Seq<Seq<char>> {
    seq![
        "StringEquals"@,
        "ArnEquals"@,
        "StringNotEquals"@,
        "ArnNotEquals"@,
        "StringLike"@,
        "ArnLike"@,
        "StringNotLike"@,
        "ArnNotLike"@,
    ]
}

/// The operator asks that the value is one of those expected, and its opposite that it is none.
pub open spec fn are_opposites(operator: Seq<char>, opposite: Seq<char>) -> bool {
    ||| operator == "StringEquals"@ && opposite == "StringNotEquals"@
    ||| operator == "ArnEquals"@ && opposite == "ArnNotEquals"@
    ||| operator == "StringLike"@ && opposite == "StringNotLike"@
    ||| operator == "ArnLike"@ && opposite == "ArnNotLike"@
}

/// A condition on what the principal is, is decided: an equality holds where the values expected
/// state the principal's value, alone or anywhere in a list, a likeness where one of them stands for
/// it, and the opposite of either holds where it does not.
pub proof fn lemma_principal_conditions_are_decided(
    operator: Seq<char>,
    opposite: Seq<char>,
    key: Seq<char>,
    value: Json,
    actual: Seq<char>,
    principal: PrincipalContextView,
)
    requires
        principal_has(key, actual, principal),
        are_opposites(operator, opposite),
        forall|t: Seq<char>| #[trigger] states(Some(value), t) ==> !holds(t, "${"@),
    ensures
        operator == "StringEquals"@ || operator == "ArnEquals"@ ==> {
            entry_verdict(operator, key, value, principal) == if states(Some(value), actual) {
                Verdict::Holds
            } else {
                Verdict::Fails
            }
        },
        operator == "StringLike"@ || operator == "ArnLike"@ ==> {
            entry_verdict(operator, key, value, principal) == if exists|t: Seq<char>| #[trigger]
                states(Some(value), t) && wildcard(t, actual) {
                Verdict::Holds
            } else {
                Verdict::Fails
            }
        },
        entry_verdict(opposite, key, value, principal) == Verdict::Holds <==> entry_verdict(
            operator,
            key,
            value,
            principal,
        ) == Verdict::Fails,
        entry_verdict(opposite, key, value, principal) == Verdict::Fails <==> entry_verdict(
            operator,
            key,
            value,
            principal,
        ) == Verdict::Holds,
        entry_verdict(operator + "IfExists"@, key, value, principal) == entry_verdict(
            operator,
            key,
            value,
            principal,
        ),
{
    let expected = clause_texts(Some(value));
    lemma_known_keys(key, actual, principal);
    lemma_operator_stems();
    lemma_operators_differ();
    let names = operator_names();
    assert(names[0] == "StringEquals"@ && names[1] == "ArnEquals"@ && names[2] == "StringNotEquals"@
        && names[3] == "ArnNotEquals"@ && names[4] == "StringLike"@ && names[5] == "ArnLike"@ && names[6]
        == "StringNotLike"@ && names[7] == "ArnNotLike"@);
    assert forall|t: Seq<char>|
        #![trigger expected.contains(t)]
        #![trigger states(Some(value), t)]
        expected.contains(t) <==> states(Some(value), t) by {
        lemma_clauses_are_read_whole(Some(value), t);
    }
    if has_variable(expected) {
        let i = choose|i: int| 0 <= i < expected.len() && holds(#[trigger] expected[i], "${"@);
        assert(expected.contains(expected[i]));
        assert(states(Some(value), expected[i]));
    }
    if like_any(expected, actual) {
        let i = choose|i: int| 0 <= i < expected.len() && wildcard(#[trigger] expected[i], actual);
        assert(expected.contains(expected[i]));
        assert(states(Some(value), expected[i]));
    }
    if exists|t: Seq<char>| #[trigger] states(Some(value), t) && wildcard(t, actual) {
        let t = choose|t: Seq<char>| #[trigger] states(Some(value), t) && wildcard(t, actual);
        let i = choose|i: int| 0 <= i < expected.len() && expected[i] == t;
        assert(wildcard(expected[i], actual));
    }
    let longer = operator + "IfExists"@;
    assert(longer.subrange(longer.len() - "IfExists"@.len(), longer.len() as int) =~= "IfExists"@);
    assert(longer.take(longer.len() - "IfExists"@.len()) =~= operator);
    assert(plain_operator(longer) == operator);
}

/// A condition that cannot be told from what is visible is left open, never decided: one on a key
/// that says nothing of the principal, and one whose expected values hold a policy variable.
pub proof fn lemma_unknown_conditions_stay_open(
    operator: Seq<char>,
    key: Seq<char>,
    value: Json,
    principal: PrincipalContextView,
    text: Seq<char>,
)
    ensures
        states(Some(value), text) && holds(text, "${"@) ==> entry_verdict(
            operator,
            key,
            value,
            principal,
        ) == Verdict::Unknown,
        begins(ascii_lower(key), "aws:principaltag/"@) && principal.kind == "assumed_role"@
            ==> entry_verdict(operator, key, value, principal) == Verdict::Unknown,
        ascii_lower(key) != "aws:principalarn"@ && ascii_lower(key) != "aws:principalaccount"@
            && ascii_lower(key) != "aws:userid"@ && ascii_lower(key) != "aws:username"@ && !begins(
            ascii_lower(key),
            "aws:principaltag/"@,
        ) ==> entry_verdict(operator, key, value, principal) == Verdict::Unknown,
{
    let expected = clause_texts(Some(value));
    lemma_clauses_are_read_whole(Some(value), text);
    if states(Some(value), text) && holds(text, "${"@) {
        let i = choose|i: int| 0 <= i < expected.len() && expected[i] == text;
        assert(holds(expected[i], "${"@));
    }
}

/// One entry of an operator of a condition.
pub open spec fn entry_of(operators: Seq<(String, Json)>, i: int, j: int) -> bool {
    &&& 0 <= i < operators.len()
    &&& operators[i].1 is Object
    &&& 0 <= j < operators[i].1->Object_0@.len()
}

/// What that entry comes to.
pub open spec fn verdict_at(operators: Seq<(String, Json)>, i: int, j: int, principal: PrincipalContextView) -> Verdict {
    let entry = operators[i].1->Object_0@[j];
    entry_verdict(operators[i].0@, entry.0@, entry.1, principal)
}

proof fn lemma_entries_reading(
    reading: Reading,
    operator: Seq<char>,
    entries: Seq<(String, Json)>,
    n: int,
    principal: PrincipalContextView,
)
    requires
        0 <= n <= entries.len(),
    ensures
        entries_reading(reading, operator, entries, n, principal).alive <==> reading.alive && forall|
            j: int,
        |
            0 <= j < n ==> entry_verdict(
                operator,
                (#[trigger] entries[j]).0@,
                entries[j].1,
                principal,
            ) != Verdict::Fails,
        entries_reading(reading, operator, entries, n, principal).alive ==> (entries_reading(
            reading,
            operator,
            entries,
            n,
            principal,
        ).conditional <==> reading.conditional || exists|j: int|
            0 <= j < n && entry_verdict(operator, (#[trigger] entries[j]).0@, entries[j].1, principal)
                == Verdict::Unknown),
    decreases n,
{
    if n > 0 {
        lemma_entries_reading(reading, operator, entries, n - 1, principal);
        let last = entries[n - 1];
        let verdict = entry_verdict(operator, last.0@, last.1, principal);
    }
}

proof fn lemma_operators_reading(operators: Seq<(String, Json)>, n: int, principal: PrincipalContextView)
    requires
        0 <= n <= operators.len(),
    ensures
        operators_reading(operators, n, principal).alive <==> forall|i: int, j: int|
            i < n && #[trigger] entry_of(operators, i, j) ==> verdict_at(operators, i, j, principal)
                != Verdict::Fails,
        operators_reading(operators, n, principal).alive ==> (operators_reading(
            operators,
            n,
            principal,
        ).conditional <==> (exists|i: int, j: int|
            i < n && #[trigger] entry_of(operators, i, j) && verdict_at(operators, i, j, principal)
                == Verdict::Unknown) || exists|i: int|
            0 <= i < n && !((#[trigger] operators[i]).1 is Object)),
    decreases n,
{
    if n > 0 {
        lemma_operators_reading(operators, n - 1, principal);
        let before = operators_reading(operators, n - 1, principal);
        let now = operators_reading(operators, n, principal);
        match operators[n - 1].1 {
            Json::Object(entries) => {
                let operator = operators[n - 1].0@;
                let m = entries@.len() as int;
                lemma_entries_reading(before, operator, entries@, m, principal);
                assert forall|j: int| 0 <= j < m implies verdict_at(operators, n - 1, j, principal)
                    == entry_verdict(
                    operator,
                    (#[trigger] entries@[j]).0@,
                    entries@[j].1,
                    principal,
                ) && entry_of(operators, n - 1, j) by {}
                if now.alive {
                    assert forall|i: int, j: int|
                        i < n && #[trigger] entry_of(operators, i, j) implies verdict_at(
                        operators,
                        i,
                        j,
                        principal,
                    ) != Verdict::Fails by {
                        if i == n - 1 {
                            assert(entry_verdict(operator, entries@[j].0@, entries@[j].1, principal)
                                != Verdict::Fails);
                        }
                    }
                    if now.conditional && !before.conditional {
                        let j = choose|j: int|
                            0 <= j < m && entry_verdict(
                                operator,
                                (#[trigger] entries@[j]).0@,
                                entries@[j].1,
                                principal,
                            ) == Verdict::Unknown;
                        assert(entry_of(operators, n - 1, j));
                    }
                    if exists|i: int, j: int|
                        i < n && #[trigger] entry_of(operators, i, j) && verdict_at(
                            operators,
                            i,
                            j,
                            principal,
                        ) == Verdict::Unknown {
                        let (i, j) = choose|i: int, j: int|
                            i < n && #[trigger] entry_of(operators, i, j) && verdict_at(
                                operators,
                                i,
                                j,
                                principal,
                            ) == Verdict::Unknown;
                        if i == n - 1 {
                            assert(entry_verdict(operator, entries@[j].0@, entries@[j].1, principal)
                                == Verdict::Unknown);
                        }
                    }
                } else if before.alive {
                    let j = choose|j: int|
                        0 <= j < m && entry_verdict(
                            operator,
                            (#[trigger] entries@[j]).0@,
                            entries@[j].1,
                            principal,
                        ) == Verdict::Fails;
                    assert(entry_of(operators, n - 1, j));
                }
            },
            _ => {
                assert(!(operators[n - 1].1 is Object));
            },
        }
    }
}

/// A condition fails where one entry of it fails, whichever that is, and then only. Where none
/// fails, it is open exactly where one entry cannot be told or an operator holds no entries.
pub proof fn lemma_conditions_hold_together(operators: Vec<(String, Json)>, principal: PrincipalContextView)
    ensures
        condition_reading(Some(Json::Object(operators)), principal).alive <==> forall|i: int, j: int|
            #[trigger]
            entry_of(operators@, i, j) ==> verdict_at(operators@, i, j, principal) != Verdict::Fails,
        condition_reading(Some(Json::Object(operators)), principal).alive ==> (condition_reading(
            Some(Json::Object(operators)),
            principal,
        ).conditional <==> (exists|i: int, j: int| #[trigger]
            entry_of(operators@, i, j) && verdict_at(operators@, i, j, principal) == Verdict::Unknown)
            || exists|i: int| 0 <= i < operators@.len() && !((#[trigger] operators@[i]).1 is Object)),
        condition_reading(None, principal).alive && !condition_reading(None, principal).conditional,
{
    lemma_operators_reading(operators@, operators@.len() as int, principal);
}

/// An allow beside a deny that may apply is no more than conditional, and tells of the deny.
pub proof fn lemma_possible_denies_are_told(
    policy: Json,
    role_arn: Seq<char>,
    principal: PrincipalContextView,
    k: int,
    i: int,
)
    requires
        0 <= k < statement_list(policy).len(),
        effect_reads(statement_list(policy)[k], "deny"@),
        speaks_of(statement_list(policy)[k], "sts:AssumeRole"@),
        clause_requirement(statement_list(policy)[k], principal, role_arn) is Some,
        condition_reading(field(statement_list(policy)[k], "Condition"@), principal) == (Reading {
            alive: true,
            conditional: true,
        }),
        0 <= i < policy_trusts(policy, role_arn, principal).len(),
    ensures
        policy_trusts(policy, role_arn, principal)[i].conditional,
        policy_trusts(policy, role_arn, principal)[i].related_statement_ids.contains(
            "trust:"@ + role_arn + "#"@ + statement_name(statement_list(policy)[k], k as nat),
        ),
{
    let n = statement_list(policy).len() as int;
    let read = trust_reading(policy, n, role_arn, principal);
    let id = trust_statement_id(role_arn, statement_list(policy)[k], k as nat);
    lemma_deny_upto(policy, n, role_arn, principal, k);
    let matched = read.allows[i];
    lemma_in_order(matched.related_statement_ids + read.denies);
    let m = choose|m: int| 0 <= m < read.denies.len() && read.denies[m] == id;
    assert((matched.related_statement_ids + read.denies)[matched.related_statement_ids.len() + m] == id);
    assert((matched.related_statement_ids + read.denies).contains(id));
}

proof fn lemma_deny_upto(
    policy: Json,
    n: int,
    role_arn: Seq<char>,
    principal: PrincipalContextView,
    k: int,
)
    requires
        0 <= k < n <= statement_list(policy).len(),
        effect_reads(statement_list(policy)[k], "deny"@),
        speaks_of(statement_list(policy)[k], "sts:AssumeRole"@),
        clause_requirement(statement_list(policy)[k], principal, role_arn) is Some,
        condition_reading(field(statement_list(policy)[k], "Condition"@), principal) == (Reading {
            alive: true,
            conditional: true,
        }),
    ensures
        trust_reading(policy, n, role_arn, principal).refused || trust_reading(
            policy,
            n,
            role_arn,
            principal,
        ).denies.contains(trust_statement_id(role_arn, statement_list(policy)[k], k as nat)),
    decreases n,
{
    let before = trust_reading(policy, n - 1, role_arn, principal);
    let now = trust_reading(policy, n, role_arn, principal);
    let id = trust_statement_id(role_arn, statement_list(policy)[k], k as nat);
    lemma_effects(statement_list(policy)[k]);
    if k < n - 1 {
        lemma_deny_upto(policy, n - 1, role_arn, principal, k);
        if !before.refused {
            let m = choose|m: int| 0 <= m < before.denies.len() && before.denies[m] == id;
            if !now.refused {
                assert(now.denies[m] == id);
            }
        }
    } else if !before.refused {
        assert(now.denies[before.denies.len() as int] == id);
    }
}

} // verus!
