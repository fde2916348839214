//! Paths from a principal to the roles it may assume.

use vstd::prelude::*;
use crate::aws::trust::{
    actions_cover, covers_action, lemma_assume_role_is_plain, TrustMatch, TrustMatchView,
};
use crate::aws::policy::{any_pattern_matches, matched_by_any};
use crate::model::{
    one_view, views, AuthorizationEvidence, AuthorizationEvidenceView, AuthorizationHop,
    AuthorizationHopView, AuthorizationPath, AuthorizationPathView, AuthorizationStatement,
    AuthorizationStatementView, PolicyEvidence, PolicyEvidenceView,
};
use crate::order::{in_order, lemma_in_order, sort_dedup};
use crate::text::{
    ascii_lower, eq_ignore_ascii_case, extend_texts, no_texts, push_text, str_eq, texts,
};
use crate::wildcard::{lemma_plain_matches_itself, wildcard};

verus! {

/// What the policies of a principal say of assuming a role.
pub struct IdentityPolicySupport {
    pub allow_evidence: Vec<String>,
    pub deny_evidence: Vec<String>,
    pub condition_keys: Vec<String>,
    pub conditional_allow: bool,
    pub unconditional_allow: bool,
    pub conditional_deny: bool,
    pub denied: bool,
}

/// What an `IdentityPolicySupport` says.
#[verifier::ext_equal]
pub struct IdentityPolicySupportView {
    pub allow_evidence: Seq<Seq<char>>,
    pub deny_evidence: Seq<Seq<char>>,
    pub condition_keys: Seq<Seq<char>>,
    pub conditional_allow: bool,
    pub unconditional_allow: bool,
    pub conditional_deny: bool,
    pub denied: bool,
}

impl View for IdentityPolicySupport {
    type V = IdentityPolicySupportView;

    open spec fn view(&self) -> IdentityPolicySupportView {
        IdentityPolicySupportView {
            allow_evidence: texts(self.allow_evidence@),
            deny_evidence: texts(self.deny_evidence@),
            condition_keys: texts(self.condition_keys@),
            conditional_allow: self.conditional_allow,
            unconditional_allow: self.unconditional_allow,
            conditional_deny: self.conditional_deny,
            denied: self.denied,
        }
    }
}

/// Whether a retained statement speaks of an action.
pub open spec fn statement_covers(statement: AuthorizationStatementView, action: Seq<char>) -> bool {
    actions_cover(statement.actions, statement.not_actions, action)
}

pub fn normalized_statement_allows_action(statement: &AuthorizationStatement, requested: &str) -> (yes: bool)
    ensures
        yes == statement_covers(statement@, requested@),
{
    covers_action(&statement.actions, &statement.not_actions, requested)
}

/// Whether a retained statement speaks of a resource.
pub open spec fn statement_reaches(statement: AuthorizationStatementView, target: Seq<char>) -> bool {
    if statement.not_resources.len() > 0 {
        !matched_by_any(statement.not_resources, target)
    } else {
        matched_by_any(statement.resources, target)
    }
}

pub fn statement_matches_resource(statement: &AuthorizationStatement, target: &str) -> (yes: bool)
    ensures
        yes == statement_reaches(statement@, target@),
{
    if statement.not_resources.len() > 0 {
        !any_pattern_matches(&statement.not_resources, target)
    } else {
        any_pattern_matches(&statement.resources, target)
    }
}

/// Whether a retained statement has the effect `effect`, whatever the case it is written in.
pub open spec fn retained_effect(statement: AuthorizationStatementView, effect: Seq<char>) -> bool {
    ascii_lower(statement.effect) == ascii_lower(effect)
}

/// Whether a policy applies to a principal as one of its own.
pub open spec fn policy_applies(policy: PolicyEvidenceView, source: Seq<char>) -> bool {
    policy.kind != "trust"@ && (policy.attached_to == source || policy.attached_via == Some(source))
}

/// Whether a statement speaks of assuming a role.
pub open spec fn on_assuming(statement: AuthorizationStatementView, target: Seq<char>) -> bool {
    statement_covers(statement, "sts:AssumeRole"@) && statement_reaches(statement, target)
}

/// What is known after one more statement.
pub open spec fn support_after(
    support: IdentityPolicySupportView,
    statement: AuthorizationStatementView,
    target: Seq<char>,
) -> IdentityPolicySupportView {
    if !on_assuming(statement, target) {
        support
    } else if retained_effect(statement, "Deny"@) {
        IdentityPolicySupportView {
            deny_evidence: support.deny_evidence.push(statement.id),
            condition_keys: support.condition_keys + statement.condition_keys,
            denied: support.denied || statement.condition_keys.len() == 0,
            conditional_deny: support.conditional_deny || statement.condition_keys.len() > 0,
            ..support
        }
    } else if retained_effect(statement, "Allow"@) {
        IdentityPolicySupportView {
            allow_evidence: support.allow_evidence.push(statement.id),
            condition_keys: support.condition_keys + statement.condition_keys,
            unconditional_allow: support.unconditional_allow || statement.condition_keys.len() == 0,
            conditional_allow: support.conditional_allow || statement.condition_keys.len() > 0,
            ..support
        }
    } else {
        IdentityPolicySupportView {
            condition_keys: support.condition_keys + statement.condition_keys,
            ..support
        }
    }
}

/// What is known after the first `n` statements of a policy.
pub open spec fn support_within(
    support: IdentityPolicySupportView,
    statements: Seq<AuthorizationStatementView>,
    target: Seq<char>,
    n: int,
) -> IdentityPolicySupportView
    decreases n,
{
    if n <= 0 {
        support
    } else {
        support_after(support_within(support, statements, target, n - 1), statements[n - 1], target)
    }
}

/// Nothing is known yet.
pub open spec fn no_support() -> IdentityPolicySupportView {
    IdentityPolicySupportView {
        allow_evidence: Seq::empty(),
        deny_evidence: Seq::empty(),
        condition_keys: Seq::empty(),
        conditional_allow: false,
        unconditional_allow: false,
        conditional_deny: false,
        denied: false,
    }
}

/// What is known after the first `n` policies.
pub open spec fn support_upto(policies: Seq<PolicyEvidenceView>, source: Seq<char>, target: Seq<char>, n: int) -> IdentityPolicySupportView
    decreases n,
{
    if n <= 0 {
        no_support()
    } else {
        let before = support_upto(policies, source, target, n - 1);
        if policy_applies(policies[n - 1], source) {
            support_within(
                before,
                policies[n - 1].statements,
                target,
                policies[n - 1].statements.len() as int,
            )
        } else {
            before
        }
    }
}

/// What the policies of a principal say of assuming a role, each list in order and without
/// repetition.
pub open spec fn identity_support(evidence: AuthorizationEvidenceView, source: Seq<char>, target: Seq<char>) -> IdentityPolicySupportView {
    let found = support_upto(evidence.policies, source, target, evidence.policies.len() as int);
    IdentityPolicySupportView {
        allow_evidence: in_order(found.allow_evidence),
        deny_evidence: in_order(found.deny_evidence),
        condition_keys: in_order(found.condition_keys),
        ..found
    }
}

fn add_statement(support: IdentityPolicySupport, statement: &AuthorizationStatement, target_arn: &str) -> (next: IdentityPolicySupport)
    ensures
        next@ == support_after(support@, statement@, target_arn@),
{
    let mut next = support;
    if !normalized_statement_allows_action(statement, "sts:AssumeRole")
        || !statement_matches_resource(statement, target_arn) {
        return next;
    }
    if eq_ignore_ascii_case(statement.effect.as_str(), "Deny") {
        push_text(&mut next.deny_evidence, statement.id.clone());
        if statement.condition_keys.len() == 0 {
            next.denied = true;
        } else {
            next.conditional_deny = true;
        }
    } else if eq_ignore_ascii_case(statement.effect.as_str(), "Allow") {
        push_text(&mut next.allow_evidence, statement.id.clone());
        if statement.condition_keys.len() == 0 {
            next.unconditional_allow = true;
        } else {
            next.conditional_allow = true;
        }
    }
    extend_texts(&mut next.condition_keys, &statement.condition_keys);
    next
}

fn applies(policy: &PolicyEvidence, source_arn: &str) -> (yes: bool)
    ensures
        yes == policy_applies(policy@, source_arn@),
{
    let via: bool = match &policy.attached_via {
        Some(arn) => str_eq(arn.as_str(), source_arn),
        None => false,
    };
    !str_eq(policy.kind.as_str(), "trust") && (str_eq(policy.attached_to.as_str(), source_arn)
        || via)
}

pub fn identity_policy_support(evidence: &AuthorizationEvidence, source_arn: &str, target_arn: &str) -> (support: IdentityPolicySupport)
    ensures
        support@ == identity_support(evidence@, source_arn@, target_arn@),
{
    let mut support = IdentityPolicySupport {
        allow_evidence: no_texts(),
        deny_evidence: no_texts(),
        condition_keys: no_texts(),
        conditional_allow: false,
        unconditional_allow: false,
        conditional_deny: false,
        denied: false,
    };
    let mut i: usize = 0;
    while i < evidence.policies.len()
        invariant
            i <= evidence.policies@.len(),
            support@ == support_upto(evidence@.policies, source_arn@, target_arn@, i as int),
        decreases evidence.policies@.len() - i,
    {
        let policy = &evidence.policies[i];
        assert(evidence@.policies[i as int] == policy@);
        if applies(policy, source_arn) {
            let ghost before = support@;
            let mut j: usize = 0;
            while j < policy.statements.len()
                invariant
                    j <= policy.statements@.len(),
                    support@ == support_within(before, policy@.statements, target_arn@, j as int),
                decreases policy.statements@.len() - j,
            {
                assert(policy@.statements[j as int] == policy.statements@[j as int]@);
                support = add_statement(support, &policy.statements[j], target_arn);
                j = j + 1;
            }
        }
        i = i + 1;
    }
    IdentityPolicySupport {
        allow_evidence: sort_dedup(support.allow_evidence),
        deny_evidence: sort_dedup(support.deny_evidence),
        condition_keys: sort_dedup(support.condition_keys),
        conditional_allow: support.conditional_allow,
        unconditional_allow: support.unconditional_allow,
        conditional_deny: support.conditional_deny,
        denied: support.denied,
    }
}

/// The IDs of the first `n` trusting statements.
pub open spec fn trust_ids(matches: Seq<TrustMatchView>, n: int) -> Seq<Seq<char>>
    decreases n,
{
    if n <= 0 {
        Seq::empty()
    } else {
        trust_ids(matches, n - 1).push(matches[n - 1].statement_id)
    }
}

/// The IDs that the first `n` trusting statements are related to.
pub open spec fn related_ids(matches: Seq<TrustMatchView>, n: int) -> Seq<Seq<char>>
    decreases n,
{
    if n <= 0 {
        Seq::empty()
    } else {
        related_ids(matches, n - 1) + matches[n - 1].related_statement_ids
    }
}

/// The names in the conditions of the first `n` trusting statements.
pub open spec fn trust_keys(matches: Seq<TrustMatchView>, n: int) -> Seq<Seq<char>>
    decreases n,
{
    if n <= 0 {
        Seq::empty()
    } else {
        trust_keys(matches, n - 1) + matches[n - 1].condition_keys
    }
}

/// Whether each of the first `n` trusting statements is conditional.
pub open spec fn all_conditional(matches: Seq<TrustMatchView>, n: int) -> bool
    decreases n,
{
    n <= 0 || (all_conditional(matches, n - 1) && matches[n - 1].conditional)
}

/// Whether each of the first `n` trusting statements leaves it to the principal's own policies.
pub open spec fn all_require(matches: Seq<TrustMatchView>, n: int) -> bool
    decreases n,
{
    n <= 0 || (all_require(matches, n - 1) && matches[n - 1].identity_policy_required)
}

/// How sure a path is.
pub open spec fn path_status(matches: Seq<TrustMatchView>, support: IdentityPolicySupportView) -> Seq<char> {
    let required = all_require(matches, matches.len() as int);
    let unsure = support.conditional_deny || (!support.unconditional_allow
        && support.conditional_allow);
    if all_conditional(matches, matches.len() as int) || (required && unsure) {
        "conditional"@
    } else if required && support.allow_evidence.len() == 0 {
        "trust_only"@
    } else {
        "potential"@
    }
}

/// One hop from a principal to a role.
pub open spec fn assume_hop(source: Seq<char>, target: Seq<char>) -> AuthorizationHopView {
    AuthorizationHopView { from: source, to: target, relationship: "can_assume_role"@ }
}

/// The path from a principal to a role that trusts it by `matches`: none where the principal's
/// own policies deny it outright.
pub open spec fn role_path(
    source: Seq<char>,
    target: Seq<char>,
    matches: Seq<TrustMatchView>,
    evidence: AuthorizationEvidenceView,
) -> Option<AuthorizationPathView> {
    let support = identity_support(evidence, source, target);
    let n = matches.len() as int;
    if support.denied {
        None
    } else {
        Some(
            AuthorizationPathView {
                direction: Some("outbound"@),
                status: path_status(matches, support),
                hops: seq![assume_hop(source, target)],
                evidence: in_order(
                    trust_ids(matches, n) + related_ids(matches, n) + support.allow_evidence
                        + support.deny_evidence,
                ),
                conditions: in_order(trust_keys(matches, n) + support.condition_keys),
            },
        )
    }
}

pub fn build_role_path(
    source_arn: &str,
    target_arn: &str,
    trust_matches: &Vec<TrustMatch>,
    evidence: &AuthorizationEvidence,
) -> (path: Option<AuthorizationPath>)
    ensures
        crate::model::opt_view(path) == role_path(
            source_arn@,
            target_arn@,
            views(trust_matches@),
            evidence@,
        ),
{
    let support = identity_policy_support(evidence, source_arn, target_arn);
    if support.denied {
        return None;
    }
    let ghost matches = views(trust_matches@);
    let mut conditional: bool = true;
    let mut required: bool = true;
    let mut ids: Vec<String> = no_texts();
    let mut related: Vec<String> = no_texts();
    let mut conditions: Vec<String> = no_texts();
    let mut i: usize = 0;
    while i < trust_matches.len()
        invariant
            matches == views(trust_matches@),
            i <= trust_matches@.len(),
            conditional == all_conditional(matches, i as int),
            required == all_require(matches, i as int),
            texts(ids@) == trust_ids(matches, i as int),
            texts(related@) == related_ids(matches, i as int),
            texts(conditions@) == trust_keys(matches, i as int),
        decreases trust_matches@.len() - i,
    {
        let matched = &trust_matches[i];
        assert(matches[i as int] == matched@);
        conditional = conditional && matched.conditional;
        required = required && matched.identity_policy_required;
        push_text(&mut ids, matched.statement_id.clone());
        extend_texts(&mut related, &matched.related_statement_ids);
        extend_texts(&mut conditions, &matched.condition_keys);
        i = i + 1;
    }
    let unsure = support.conditional_deny || (!support.unconditional_allow
        && support.conditional_allow);
    let status: &'static str = if conditional || (required && unsure) {
        "conditional"
    } else if required && support.allow_evidence.len() == 0 {
        "trust_only"
    } else {
        "potential"
    };
    extend_texts(&mut ids, &related);
    extend_texts(&mut ids, &support.allow_evidence);
    extend_texts(&mut ids, &support.deny_evidence);
    extend_texts(&mut conditions, &support.condition_keys);
    Some(
        AuthorizationPath {
            direction: Some("outbound".to_owned()),
            status: status.to_owned(),
            hops: one_view(
                AuthorizationHop {
                    from: source_arn.to_owned(),
                    to: target_arn.to_owned(),
                    relationship: "can_assume_role".to_owned(),
                },
            ),
            evidence: sort_dedup(ids),
            conditions: sort_dedup(conditions),
        },
    )
}

/// How sure two hops are together: as sure as the less sure of them.
pub open spec fn combined_status(first: Seq<char>, second: Seq<char>) -> Seq<char> {
    if first == "conditional"@ || second == "conditional"@ {
        "conditional"@
    } else if first == "trust_only"@ || second == "trust_only"@ {
        "trust_only"@
    } else {
        "potential"@
    }
}

pub fn combine_path_status(first: &str, second: &str) -> (status: &'static str)
    ensures
        status@ == combined_status(first@, second@),
{
    if str_eq(first, "conditional") || str_eq(second, "conditional") {
        "conditional"
    } else if str_eq(first, "trust_only") || str_eq(second, "trust_only") {
        "trust_only"
    } else {
        "potential"
    }
}

/// The order of two hops does not matter to how sure they are together, and a hop together with
/// itself is as sure as it is alone.
pub proof fn lemma_combined_status(first: Seq<char>, second: Seq<char>, third: Seq<char>)
    ensures
        combined_status(first, second) == combined_status(second, first),
        combined_status(combined_status(first, second), third) == combined_status(
            first,
            combined_status(second, third),
        ),
        first == "potential"@ || first == "conditional"@ || first == "trust_only"@ ==> combined_status(
            first,
            first,
        ) == first,
{
    reveal_strlit("conditional");
    reveal_strlit("trust_only");
    reveal_strlit("potential");
    assert("conditional"@.len() == 11);
    assert("trust_only"@.len() == 10);
    assert("potential"@.len() == 9);
}

proof fn lemma_denied_within(
    support: IdentityPolicySupportView,
    statements: Seq<AuthorizationStatementView>,
    target: Seq<char>,
    n: int,
)
    requires
        0 <= n <= statements.len(),
    ensures
        support.denied ==> support_within(support, statements, target, n).denied,
        forall|i: int|
            0 <= i < n && on_assuming(#[trigger] statements[i], target) && retained_effect(
                statements[i],
                "Deny"@,
            ) && statements[i].condition_keys.len() == 0 ==> support_within(
                support,
                statements,
                target,
                n,
            ).denied,
    decreases n,
{
    if n > 0 {
        lemma_denied_within(support, statements, target, n - 1);
    }
}

proof fn lemma_denied_upto(
    policies: Seq<PolicyEvidenceView>,
    source: Seq<char>,
    target: Seq<char>,
    n: int,
    policy: int,
    statement: int,
)
    requires
        0 <= policy < n <= policies.len(),
        policy_applies(policies[policy], source),
        0 <= statement < policies[policy].statements.len(),
        on_assuming(policies[policy].statements[statement], target),
        retained_effect(policies[policy].statements[statement], "Deny"@),
        policies[policy].statements[statement].condition_keys.len() == 0,
    ensures
        support_upto(policies, source, target, n).denied,
    decreases n,
{
    let last = policies[n - 1];
    let before = support_upto(policies, source, target, n - 1);
    lemma_denied_within(before, last.statements, target, last.statements.len() as int);
    if policy < n - 1 {
        lemma_denied_upto(policies, source, target, n - 1, policy, statement);
    } else {
        let s = last.statements[statement];
        assert(on_assuming(s, target));
    }
}

/// A deny without a condition in one of the principal's own policies suppresses the path, whatever
/// else allows it.
pub proof fn lemma_deny_suppresses_the_path(
    source: Seq<char>,
    target: Seq<char>,
    matches: Seq<TrustMatchView>,
    evidence: AuthorizationEvidenceView,
    policy: int,
    statement: int,
)
    requires
        0 <= policy < evidence.policies.len(),
        policy_applies(evidence.policies[policy], source),
        0 <= statement < evidence.policies[policy].statements.len(),
        on_assuming(evidence.policies[policy].statements[statement], target),
        retained_effect(evidence.policies[policy].statements[statement], "Deny"@),
        evidence.policies[policy].statements[statement].condition_keys.len() == 0,
    ensures
        role_path(source, target, matches, evidence) is None,
{
    lemma_denied_upto(
        evidence.policies,
        source,
        target,
        evidence.policies.len() as int,
        policy,
        statement,
    );
}

/// A policy is one of the principal's own: no trust policy, and attached to the principal or reaching
/// it through a group.
pub open spec fn own_policy(policy: PolicyEvidenceView, source: Seq<char>) -> bool {
    policy.kind != "trust"@ && (policy.attached_to == source || policy.attached_via == Some(source))
}

/// One statement of the principal's own policies.
pub open spec fn own_statement(
    evidence: AuthorizationEvidenceView,
    source: Seq<char>,
    i: int,
    j: int,
) -> bool {
    &&& 0 <= i < evidence.policies.len()
    &&& own_policy(evidence.policies[i], source)
    &&& 0 <= j < evidence.policies[i].statements.len()
}

/// A statement names assuming a role, and the role, among its actions and resources.
pub open spec fn names_the_call(statement: AuthorizationStatementView, target: Seq<char>) -> bool {
    &&& statement.actions.contains("sts:AssumeRole"@)
    &&& statement.not_resources.len() == 0
    &&& exists|k: int| 0 <= k < statement.resources.len() && wildcard(#[trigger] statement.resources[k], target)
}

proof fn lemma_named_call(statement: AuthorizationStatementView, target: Seq<char>)
    requires
        names_the_call(statement, target),
    ensures
        on_assuming(statement, target),
{
    let name = ascii_lower("sts:AssumeRole"@);
    lemma_assume_role_is_plain();
    lemma_plain_matches_itself(name, name);
    let k = choose|k: int| 0 <= k < statement.actions.len() && statement.actions[k] == "sts:AssumeRole"@;
    assert(wildcard(ascii_lower(statement.actions[k]), name));
}

/// A statement of the principal's own policies that denies assuming a role by name, without a
/// condition, leaves no path to it, wherever the statement stands.
pub proof fn lemma_named_denies_leave_no_path(
    source: Seq<char>,
    target: Seq<char>,
    matches: Seq<TrustMatchView>,
    evidence: AuthorizationEvidenceView,
    i: int,
    j: int,
)
    requires
        own_statement(evidence, source, i, j),
        names_the_call(evidence.policies[i].statements[j], target),
        ascii_lower(evidence.policies[i].statements[j].effect) == "deny"@,
        evidence.policies[i].statements[j].condition_keys.len() == 0,
    ensures
        role_path(source, target, matches, evidence) is None,
{
    reveal_strlit("Deny");
    reveal_strlit("deny");
    assert(ascii_lower("Deny"@) =~= "deny"@);
    lemma_named_call(evidence.policies[i].statements[j], target);
    lemma_deny_suppresses_the_path(source, target, matches, evidence, i, j);
}

/// No statement of the principal's own policies has the effect `effect`.
pub open spec fn no_own_statement_reads(
    evidence: AuthorizationEvidenceView,
    source: Seq<char>,
    effect: Seq<char>,
) -> bool {
    forall|i: int, j: int| #[trigger]
        own_statement(evidence, source, i, j) ==> ascii_lower(
            evidence.policies[i].statements[j].effect,
        ) != effect
}

proof fn lemma_support_within(
    support: IdentityPolicySupportView,
    statements: Seq<AuthorizationStatementView>,
    target: Seq<char>,
    n: int,
)
    requires
        0 <= n <= statements.len(),
    ensures
        ({
            let now = support_within(support, statements, target, n);
            &&& (forall|j: int| 0 <= j < n ==> ascii_lower((#[trigger] statements[j]).effect) != "deny"@)
                ==> now.denied == support.denied && now.conditional_deny == support.conditional_deny
                && now.deny_evidence == support.deny_evidence
            &&& (forall|j: int| 0 <= j < n ==> ascii_lower((#[trigger] statements[j]).effect) != "allow"@)
                ==> now.allow_evidence == support.allow_evidence && now.unconditional_allow
                == support.unconditional_allow && now.conditional_allow == support.conditional_allow
            &&& support.unconditional_allow ==> now.unconditional_allow
            &&& support.allow_evidence.len() <= now.allow_evidence.len()
            &&& forall|j: int|
                0 <= j < n && names_the_call(#[trigger] statements[j], target) && ascii_lower(
                    statements[j].effect,
                ) == "allow"@ ==> now.allow_evidence.len() > 0 && (statements[j].condition_keys.len()
                    == 0 ==> now.unconditional_allow)
        }),
    decreases n,
{
    if n > 0 {
        lemma_support_within(support, statements, target, n - 1);
        reveal_strlit("Deny");
        reveal_strlit("deny");
        reveal_strlit("Allow");
        reveal_strlit("allow");
        assert(ascii_lower("Deny"@) =~= "deny"@);
        assert(ascii_lower("Allow"@) =~= "allow"@);
        assert("allow"@.len() != "deny"@.len());
        let last = statements[n - 1];
        if names_the_call(last, target) {
            lemma_named_call(last, target);
        }
    }
}

proof fn lemma_support_upto(
    evidence: AuthorizationEvidenceView,
    source: Seq<char>,
    target: Seq<char>,
    n: int,
)
    requires
        0 <= n <= evidence.policies.len(),
    ensures
        ({
            let now = support_upto(evidence.policies, source, target, n);
            &&& no_own_statement_reads(evidence, source, "deny"@) ==> !now.denied && !now.conditional_deny
                && now.deny_evidence.len() == 0
            &&& no_own_statement_reads(evidence, source, "allow"@) ==> now.allow_evidence.len() == 0
                && !now.unconditional_allow && !now.conditional_allow
            &&& forall|i: int, j: int|
                i < n && #[trigger] own_statement(evidence, source, i, j) && names_the_call(
                    evidence.policies[i].statements[j],
                    target,
                ) && ascii_lower(evidence.policies[i].statements[j].effect) == "allow"@
                    ==> now.allow_evidence.len() > 0 && (evidence.policies[i].statements[j].condition_keys.len()
                    == 0 ==> now.unconditional_allow)
        }),
    decreases n,
{
    if n > 0 {
        lemma_support_upto(evidence, source, target, n - 1);
        let before = support_upto(evidence.policies, source, target, n - 1);
        let last = evidence.policies[n - 1];
        lemma_support_within(before, last.statements, target, last.statements.len() as int);
        if own_policy(last, source) {
            assert forall|j: int| 0 <= j < last.statements.len() implies own_statement(
                evidence,
                source,
                n - 1,
                j,
            ) && evidence.policies[n - 1].statements[j] == #[trigger] last.statements[j] by {}
        }
    }
}

proof fn lemma_all_flags(matches: Seq<TrustMatchView>, n: int)
    requires
        0 <= n <= matches.len(),
    ensures
        all_conditional(matches, n) <==> forall|k: int| 0 <= k < n ==> (#[trigger] matches[k]).conditional,
        all_require(matches, n) <==> forall|k: int|
            0 <= k < n ==> (#[trigger] matches[k]).identity_policy_required,
    decreases n,
{
    if n > 0 {
        lemma_all_flags(matches, n - 1);
    }
}

/// Where no policy of the principal denies anything, each role that trusts it is reached by a path
/// of one hop from the principal to the role. The path is a sure one where some statement trusts the
/// principal unconditionally, and either needs nothing more or the principal's own policies allow the
/// call by name without a condition. It rests on trust alone where every statement leaves it to the
/// principal's policies and none of these allows anything, and it is conditional where every
/// statement is.
pub proof fn lemma_trusted_roles_are_reached(
    source: Seq<char>,
    target: Seq<char>,
    matches: Seq<TrustMatchView>,
    evidence: AuthorizationEvidenceView,
)
    requires
        matches.len() > 0,
        no_own_statement_reads(evidence, source, "deny"@),
    ensures
        role_path(source, target, matches, evidence) is Some,
        ({
            let path = role_path(source, target, matches, evidence)->0;
            &&& path.hops.len() == 1
            &&& path.hops[0].from == source
            &&& path.hops[0].to == target
            &&& path.hops[0].relationship == "can_assume_role"@
            &&& path.direction == Some("outbound"@)
            &&& (exists|k: int|
                0 <= k < matches.len() && !(#[trigger] matches[k]).conditional) && (exists|k: int|
                0 <= k < matches.len() && !(#[trigger] matches[k]).identity_policy_required)
                ==> path.status == "potential"@
            &&& (exists|k: int| 0 <= k < matches.len() && !(#[trigger] matches[k]).conditional) && (
            exists|i: int, j: int| #[trigger]
                own_statement(evidence, source, i, j) && names_the_call(
                    evidence.policies[i].statements[j],
                    target,
                ) && ascii_lower(evidence.policies[i].statements[j].effect) == "allow"@
                    && evidence.policies[i].statements[j].condition_keys.len() == 0) ==> path.status
                == "potential"@
            &&& (exists|k: int| 0 <= k < matches.len() && !(#[trigger] matches[k]).conditional) && (
            forall|k: int|
                0 <= k < matches.len() ==> (#[trigger] matches[k]).identity_policy_required)
                && no_own_statement_reads(evidence, source, "allow"@) ==> path.status == "trust_only"@
            &&& (forall|k: int| 0 <= k < matches.len() ==> (#[trigger] matches[k]).conditional)
                ==> path.status == "conditional"@
            &&& forall|k: int|
                0 <= k < matches.len() ==> path.evidence.contains(
                    (#[trigger] matches[k]).statement_id,
                )
        }),
{
    let n = evidence.policies.len() as int;
    lemma_support_upto(evidence, source, target, n);
    lemma_all_flags(matches, matches.len() as int);
    let found = support_upto(evidence.policies, source, target, n);
    let support = identity_support(evidence, source, target);
    lemma_in_order_empty(found.allow_evidence);
    let ids = trust_ids(matches, matches.len() as int) + related_ids(matches, matches.len() as int)
        + support.allow_evidence + support.deny_evidence;
    lemma_in_order(ids);
    assert forall|k: int| 0 <= k < matches.len() implies in_order(ids).contains(
        (#[trigger] matches[k]).statement_id,
    ) by {
        lemma_trust_ids(matches, matches.len() as int, k);
        assert(ids[k] == matches[k].statement_id);
        assert(ids.contains(matches[k].statement_id));
    }
}

proof fn lemma_in_order_empty(list: Seq<Seq<char>>)
    ensures
        in_order(list).len() == 0 <==> list.len() == 0,
{
    lemma_in_order(list);
    if list.len() > 0 {
        assert(list.contains(list[0]));
        assert(in_order(list).contains(list[0]));
    }
}

proof fn lemma_trust_ids(matches: Seq<TrustMatchView>, n: int, k: int)
    requires
        0 <= k < n <= matches.len(),
    ensures
        trust_ids(matches, n).len() == n,
        trust_ids(matches, n)[k] == matches[k].statement_id,
    decreases n,
{
    lemma_trust_ids_len(matches, n);
    if k < n - 1 {
        lemma_trust_ids(matches, n - 1, k);
    } else {
        lemma_trust_ids_len(matches, n - 1);
    }
}

proof fn lemma_trust_ids_len(matches: Seq<TrustMatchView>, n: int)
    requires
        0 <= n <= matches.len(),
    ensures
        trust_ids(matches, n).len() == n,
    decreases n,
{
    if n > 0 {
        lemma_trust_ids_len(matches, n - 1);
    }
}

/// Two hops are as sure together as the less sure of them: one that is conditional makes the path
/// so, else one that rests on trust alone does, and two sure hops make a sure path.
pub proof fn lemma_hops_are_as_sure_as_the_weaker(first: Seq<char>, second: Seq<char>)
    ensures
        first == "conditional"@ || second == "conditional"@ ==> combined_status(first, second)
            == "conditional"@,
        first != "conditional"@ && second != "conditional"@ && (first == "trust_only"@ || second
            == "trust_only"@) ==> combined_status(first, second) == "trust_only"@,
        first == "potential"@ ==> (second == "potential"@ ==> combined_status(first, second)
            == "potential"@),
{
    reveal_strlit("conditional");
    reveal_strlit("trust_only");
    reveal_strlit("potential");
    assert("conditional"@.len() == 11);
    assert("trust_only"@.len() == 10);
    assert("potential"@.len() == 9);
}

} // verus!
