//! The evidence that an AWS mapping retains, and the limits on its size.

use vstd::prelude::*;
use crate::aws::policy::{document_statements, parse_policy_statements};
use crate::model::{
    no_views, push_view, views, AuthorizationEvidence, AuthorizationEvidenceView,
    AuthorizationPath, AuthorizationPathView, AuthorizationStatement, AuthorizationStatementView,
    PolicyEvidence, PolicyEvidenceView,
};
use crate::notes::{lemma_noted_keeps, note_if, noted, noted_if, push_unique_note};
use crate::text::{
    cat4, cat5, contains, extend_texts, holds, is_among, no_texts, opt_text, push_text, str_eq,
    texts,
};

verus! {

pub const MAX_AUTHORIZATION_PATHS: usize = 256;

pub const MAX_POLICY_EVIDENCE: usize = 512;

pub const MAX_POLICY_STATEMENTS: usize = 2_000;

/// Where a policy document comes from and what it applies to.
#[derive(Clone, Debug)]
pub struct PolicySource {
    pub id: String,
    pub name: Option<String>,
    pub kind: String,
    pub attached_to: String,
    pub attached_via: Option<String>,
    pub version: Option<String>,
}

/// What a `PolicySource` says.
#[verifier::ext_equal]
pub struct PolicySourceView {
    pub id: Seq<char>,
    pub name: Option<Seq<char>>,
    pub kind: Seq<char>,
    pub attached_to: Seq<char>,
    pub attached_via: Option<Seq<char>>,
    pub version: Option<Seq<char>>,
}

impl View for PolicySource {
    type V = PolicySourceView;

    open spec fn view(&self) -> PolicySourceView {
        PolicySourceView {
            id: self.id@,
            name: opt_text(self.name),
            kind: self.kind@,
            attached_to: self.attached_to@,
            attached_via: opt_text(self.attached_via),
            version: opt_text(self.version),
        }
    }
}

/// The source of a managed policy.
pub open spec fn managed_source(
    arn: Seq<char>,
    name: Option<Seq<char>>,
    version: Seq<char>,
    attached_to: Seq<char>,
    attached_via: Option<Seq<char>>,
) -> PolicySourceView {
    PolicySourceView {
        id: arn + ":"@ + version + ":"@ + attached_to,
        name,
        kind: "managed"@,
        attached_to,
        attached_via,
        version: Some(version),
    }
}

/// The source of an inline policy.
pub open spec fn inline_source(name: Seq<char>, attached_to: Seq<char>, attached_via: Option<Seq<char>>) -> PolicySourceView {
    PolicySourceView {
        id: "inline:"@ + attached_to + ":"@ + name,
        name: Some(name),
        kind: "inline"@,
        attached_to,
        attached_via,
        version: None,
    }
}

/// The source of a role's trust policy.
pub open spec fn trust_source(role_arn: Seq<char>) -> PolicySourceView {
    PolicySourceView {
        id: "trust:"@ + role_arn,
        name: Some("AssumeRolePolicyDocument"@),
        kind: "trust"@,
        attached_to: role_arn,
        attached_via: None,
        version: None,
    }
}

impl PolicySource {
    pub fn managed(
        arn: &str,
        name: Option<String>,
        version: &str,
        attached_to: &str,
        attached_via: Option<String>,
    ) -> (source: Self)
        ensures
            source@ == managed_source(arn@, opt_text(name), version@, attached_to@, opt_text(attached_via)),
    {
        PolicySource {
            id: cat5(arn, ":", version, ":", attached_to),
            name,
            kind: "managed".to_owned(),
            attached_to: attached_to.to_owned(),
            attached_via,
            version: Some(version.to_owned()),
        }
    }

    pub fn inline(name: &str, attached_to: &str, attached_via: Option<String>) -> (source: Self)
        ensures
            source@ == inline_source(name@, attached_to@, opt_text(attached_via)),
    {
        PolicySource {
            id: cat4("inline:", attached_to, ":", name),
            name: Some(name.to_owned()),
            kind: "inline".to_owned(),
            attached_to: attached_to.to_owned(),
            attached_via,
            version: None,
        }
    }

    pub fn trust(role_arn: &str) -> (source: Self)
        ensures
            source@ == trust_source(role_arn@),
    {
        PolicySource {
            id: crate::text::cat2("trust:", role_arn),
            name: Some("AssumeRolePolicyDocument".to_owned()),
            kind: "trust".to_owned(),
            attached_to: role_arn.to_owned(),
            attached_via: None,
            version: None,
        }
    }
}

/// Whether a policy of some ID is among the first `n`.
pub open spec fn has_policy(policies: Seq<PolicyEvidenceView>, id: Seq<char>, n: int) -> bool
    decreases n,
{
    n > 0 && (has_policy(policies, id, n - 1) || policies[n - 1].id == id)
}

/// A policy as evidence.
pub open spec fn policy_from(source: PolicySourceView, statements: Seq<AuthorizationStatementView>) -> PolicyEvidenceView {
    PolicyEvidenceView {
        id: source.id,
        name: source.name,
        kind: source.kind,
        attached_to: source.attached_to,
        attached_via: source.attached_via,
        scope: None,
        version: source.version,
        statements,
    }
}

/// The evidence with a policy document: as it was where the policy is there already, cannot be
/// read or has no statement.
pub open spec fn with_document(
    evidence: AuthorizationEvidenceView,
    document: Seq<char>,
    source: PolicySourceView,
) -> AuthorizationEvidenceView {
    if has_policy(evidence.policies, source.id, evidence.policies.len() as int) {
        evidence
    } else {
        match document_statements(document, source.id) {
            Ok(statements) => if statements.len() > 0 {
                AuthorizationEvidenceView {
                    policies: evidence.policies.push(policy_from(source, statements)),
                    ..evidence
                }
            } else {
                evidence
            },
            Err(_) => evidence,
        }
    }
}

/// What stands in the way of retaining a policy document.
pub open spec fn document_error(
    evidence: AuthorizationEvidenceView,
    document: Seq<char>,
    source: PolicySourceView,
) -> Option<Seq<char>> {
    if has_policy(evidence.policies, source.id, evidence.policies.len() as int) {
        None
    } else {
        match document_statements(document, source.id) {
            Ok(_) => None,
            Err(error) => Some(error),
        }
    }
}

/// The error that an outcome reports.
pub open spec fn error_of(outcome: Result<(), String>) -> Option<Seq<char>> {
    match outcome {
        Ok(_) => None,
        Err(error) => Some(error@),
    }
}

pub fn add_policy_evidence(
    document: &str,
    source: PolicySource,
    evidence: &mut AuthorizationEvidence,
) -> (outcome: Result<(), String>)
    ensures
        final(evidence)@ == with_document(old(evidence)@, document@, source@),
        error_of(outcome) == document_error(old(evidence)@, document@, source@),
{
    let mut known: bool = false;
    let mut i: usize = 0;
    while i < evidence.policies.len()
        invariant
            *evidence == *old(evidence),
            i <= evidence.policies@.len(),
            known == has_policy(evidence@.policies, source@.id, i as int),
        decreases evidence.policies@.len() - i,
    {
        assert(evidence@.policies[i as int] == evidence.policies@[i as int]@);
        known = known || str_eq(evidence.policies[i].id.as_str(), source.id.as_str());
        i = i + 1;
    }
    if known {
        return Ok(());
    }
    match parse_policy_statements(document, source.id.as_str()) {
        Err(error) => Err(error),
        Ok(statements) => {
            if statements.len() > 0 {
                push_view(
                    &mut evidence.policies,
                    PolicyEvidence {
                        id: source.id,
                        name: source.name,
                        kind: source.kind,
                        attached_to: source.attached_to,
                        attached_via: source.attached_via,
                        scope: None,
                        version: source.version,
                        statements,
                    },
                );
            }
            Ok(())
        },
    }
}

/// The note that paths were left out.
pub open spec fn path_cap_note() -> Seq<char> {
    "Role-path discovery stopped after 256 paths."@
}

/// The evidence with the note that paths were left out.
pub open spec fn capped(evidence: AuthorizationEvidenceView) -> AuthorizationEvidenceView {
    AuthorizationEvidenceView {
        limitations: noted(evidence.limitations, path_cap_note()),
        ..evidence
    }
}

pub fn record_path_cap(evidence: &mut AuthorizationEvidence)
    ensures
        final(evidence)@ == capped(old(evidence)@),
{
    push_unique_note(
        &mut evidence.limitations,
        "Role-path discovery stopped after 256 paths.".to_owned(),
    );
}

/// Whether the evidence holds as many paths as it may.
pub open spec fn paths_full(evidence: AuthorizationEvidenceView) -> bool {
    evidence.paths.len() >= MAX_AUTHORIZATION_PATHS
}

/// The evidence with one more path, or the note that it was left out.
pub open spec fn with_path(evidence: AuthorizationEvidenceView, path: AuthorizationPathView) -> AuthorizationEvidenceView {
    if paths_full(evidence) {
        capped(evidence)
    } else {
        AuthorizationEvidenceView { paths: evidence.paths.push(path), ..evidence }
    }
}

pub fn push_authorization_path(evidence: &mut AuthorizationEvidence, path: AuthorizationPath) -> (pushed: bool)
    ensures
        pushed == !paths_full(old(evidence)@),
        final(evidence)@ == with_path(old(evidence)@, path@),
{
    if evidence.paths.len() >= MAX_AUTHORIZATION_PATHS {
        record_path_cap(evidence);
        false
    } else {
        push_view(&mut evidence.paths, path);
        true
    }
}

/// However often a path is added, no more than the limit are held.
pub proof fn lemma_paths_stay_capped(evidence: AuthorizationEvidenceView, path: AuthorizationPathView)
    requires
        evidence.paths.len() <= MAX_AUTHORIZATION_PATHS,
    ensures
        with_path(evidence, path).paths.len() <= MAX_AUTHORIZATION_PATHS,
{
}

/// The references of the first `n` paths.
pub open spec fn path_references(paths: Seq<AuthorizationPathView>, n: int) -> Seq<Seq<char>>
    decreases n,
{
    if n <= 0 {
        Seq::empty()
    } else {
        path_references(paths, n - 1) + paths[n - 1].evidence
    }
}

/// Those of the first `n` statements that are referred to, or those that are not, in order.
pub open spec fn statements_where(
    statements: Seq<AuthorizationStatementView>,
    references: Seq<Seq<char>>,
    referred: bool,
    n: int,
) -> Seq<AuthorizationStatementView>
    decreases n,
{
    if n <= 0 {
        Seq::empty()
    } else if references.contains(statements[n - 1].id) == referred {
        statements_where(statements, references, referred, n - 1).push(statements[n - 1])
    } else {
        statements_where(statements, references, referred, n - 1)
    }
}

/// The statements with those that are referred to first, else in the order they had.
pub open spec fn statements_by_reference(
    statements: Seq<AuthorizationStatementView>,
    references: Seq<Seq<char>>,
) -> Seq<AuthorizationStatementView> {
    let n = statements.len() as int;
    statements_where(statements, references, true, n) + statements_where(
        statements,
        references,
        false,
        n,
    )
}

/// Whether one of the first `n` statements is referred to.
pub open spec fn some_referred(statements: Seq<AuthorizationStatementView>, references: Seq<Seq<char>>, n: int) -> bool
    decreases n,
{
    n > 0 && (some_referred(statements, references, n - 1) || references.contains(
        statements[n - 1].id,
    ))
}

/// Whether a policy or one of its statements is referred to.
pub open spec fn policy_referred(policy: PolicyEvidenceView, references: Seq<Seq<char>>) -> bool {
    references.contains(policy.id) || some_referred(
        policy.statements,
        references,
        policy.statements.len() as int,
    )
}

/// A policy with its statements by reference.
pub open spec fn policy_by_reference(policy: PolicyEvidenceView, references: Seq<Seq<char>>) -> PolicyEvidenceView {
    PolicyEvidenceView {
        statements: statements_by_reference(policy.statements, references),
        ..policy
    }
}

/// Those of the first `n` policies that are referred to, or those that are not, in order, each
/// with its statements by reference.
pub open spec fn policies_where(
    policies: Seq<PolicyEvidenceView>,
    references: Seq<Seq<char>>,
    referred: bool,
    n: int,
) -> Seq<PolicyEvidenceView>
    decreases n,
{
    if n <= 0 {
        Seq::empty()
    } else if policy_referred(policies[n - 1], references) == referred {
        policies_where(policies, references, referred, n - 1).push(
            policy_by_reference(policies[n - 1], references),
        )
    } else {
        policies_where(policies, references, referred, n - 1)
    }
}

/// The policies with those that are referred to first, else in the order they had.
pub open spec fn policies_by_reference(policies: Seq<PolicyEvidenceView>, references: Seq<Seq<char>>) -> Seq<
    PolicyEvidenceView,
> {
    let n = policies.len() as int;
    policies_where(policies, references, true, n) + policies_where(policies, references, false, n)
}

/// The smaller of two counts.
pub open spec fn smaller(a: int, b: int) -> int {
    if a < b {
        a
    } else {
        b
    }
}

/// How many statements may still be retained after the first `n` policies.
pub open spec fn statements_left(policies: Seq<PolicyEvidenceView>, n: int) -> int
    decreases n,
{
    if n <= 0 {
        MAX_POLICY_STATEMENTS as int
    } else {
        let left = statements_left(policies, n - 1);
        left - smaller(policies[n - 1].statements.len() as int, left)
    }
}

/// A policy with as many of its statements as are left to it.
pub open spec fn cut_policy(policies: Seq<PolicyEvidenceView>, i: int) -> PolicyEvidenceView {
    PolicyEvidenceView {
        statements: policies[i].statements.take(
            smaller(policies[i].statements.len() as int, statements_left(policies, i)),
        ),
        ..policies[i]
    }
}

/// Whether one of the first `n` policies loses statements.
pub open spec fn some_cut(policies: Seq<PolicyEvidenceView>, n: int) -> bool
    decreases n,
{
    n > 0 && (some_cut(policies, n - 1) || policies[n - 1].statements.len() > statements_left(
        policies,
        n - 1,
    ))
}

/// What the first `n` policies retain: those that keep a statement.
pub open spec fn cut_policies(policies: Seq<PolicyEvidenceView>, n: int) -> Seq<PolicyEvidenceView>
    decreases n,
{
    if n <= 0 {
        Seq::empty()
    } else if cut_policy(policies, n - 1).statements.len() > 0 {
        cut_policies(policies, n - 1).push(cut_policy(policies, n - 1))
    } else {
        cut_policies(policies, n - 1)
    }
}

/// The IDs of the first `n` statements.
pub open spec fn statement_ids(statements: Seq<AuthorizationStatementView>, n: int) -> Seq<Seq<char>>
    decreases n,
{
    if n <= 0 {
        Seq::empty()
    } else {
        statement_ids(statements, n - 1).push(statements[n - 1].id)
    }
}

/// The IDs of the statements of the first `n` policies.
pub open spec fn retained_ids(policies: Seq<PolicyEvidenceView>, n: int) -> Seq<Seq<char>>
    decreases n,
{
    if n <= 0 {
        Seq::empty()
    } else {
        retained_ids(policies, n - 1) + statement_ids(
            policies[n - 1].statements,
            policies[n - 1].statements.len() as int,
        )
    }
}

/// Whether a reference stays: it is to a retained statement, or to no statement at all.
pub open spec fn reference_stays(reference: Seq<char>, retained: Seq<Seq<char>>) -> bool {
    retained.contains(reference) || !holds(reference, "#"@)
}

/// Those of the first `n` references that stay.
pub open spec fn staying(references: Seq<Seq<char>>, retained: Seq<Seq<char>>, n: int) -> Seq<Seq<char>>
    decreases n,
{
    if n <= 0 {
        Seq::empty()
    } else if reference_stays(references[n - 1], retained) {
        staying(references, retained, n - 1).push(references[n - 1])
    } else {
        staying(references, retained, n - 1)
    }
}

/// A path without the references that were left out.
pub open spec fn pruned(path: AuthorizationPathView, retained: Seq<Seq<char>>) -> AuthorizationPathView {
    AuthorizationPathView {
        evidence: staying(path.evidence, retained, path.evidence.len() as int),
        ..path
    }
}

/// Whether one of the first `n` paths loses a reference.
pub open spec fn some_pruned(paths: Seq<AuthorizationPathView>, retained: Seq<Seq<char>>, n: int) -> bool
    decreases n,
{
    n > 0 && (some_pruned(paths, retained, n - 1) || pruned(
        paths[n - 1],
        retained,
    ).evidence.len() != paths[n - 1].evidence.len())
}

/// The policies within the limit on documents, those that paths refer to first.
pub open spec fn policies_within(evidence: AuthorizationEvidenceView) -> Seq<PolicyEvidenceView> {
    let sorted = policies_by_reference(
        evidence.policies,
        path_references(evidence.paths, evidence.paths.len() as int),
    );
    sorted.take(smaller(sorted.len() as int, MAX_POLICY_EVIDENCE as int))
}

/// The evidence within the limits on its size, what paths refer to before anything else.
pub open spec fn truncated(evidence: AuthorizationEvidenceView) -> AuthorizationEvidenceView {
    let within = policies_within(evidence);
    let policies = cut_policies(within, within.len() as int);
    let retained = retained_ids(policies, policies.len() as int);
    AuthorizationEvidenceView {
        principal: evidence.principal,
        policies,
        paths: evidence.paths.map_values(|path: AuthorizationPathView| pruned(path, retained)),
        role_impacts: evidence.role_impacts,
        hierarchy: evidence.hierarchy,
        limitations: noted_if(
            noted_if(
                noted_if(
                    evidence.limitations,
                    evidence.policies.len() > MAX_POLICY_EVIDENCE,
                    "Policy evidence was limited to 512 documents."@,
                ),
                some_cut(within, within.len() as int),
                "Policy evidence was limited to 2000 statements."@,
            ),
            some_pruned(evidence.paths, retained, evidence.paths.len() as int),
            "Some path evidence references were omitted by report-size limits."@,
        ),
        probes: evidence.probes,
    }
}

fn collect_references(paths: &Vec<AuthorizationPath>) -> (list: Vec<String>)
    ensures
        texts(list@) == path_references(views(paths@), paths@.len() as int),
{
    let mut list: Vec<String> = no_texts();
    let mut i: usize = 0;
    while i < paths.len()
        invariant
            i <= paths@.len(),
            texts(list@) == path_references(views(paths@), i as int),
        decreases paths@.len() - i,
    {
        assert(views(paths@)[i as int] == paths@[i as int]@);
        extend_texts(&mut list, &paths[i].evidence);
        i = i + 1;
    }
    list
}

/// One list after another.
fn join_views<T: View>(first: Vec<T>, second: Vec<T>) -> (all: Vec<T>)
    ensures
        views(all@) == views(first@) + views(second@),
{
    let mut all = first;
    let mut rest = second;
    let ghost a = all@;
    let ghost b = rest@;
    all.append(&mut rest);
    assert(views(all@) =~= views(a) + views(b));
    all
}

fn order_statements(statements: Vec<AuthorizationStatement>, references: &Vec<String>) -> (list: Vec<
    AuthorizationStatement,
>)
    ensures
        views(list@) == statements_by_reference(views(statements@), texts(references@)),
{
    let mut left = statements;
    let mut first: Vec<AuthorizationStatement> = no_views();
    let mut second: Vec<AuthorizationStatement> = no_views();
    let ghost mut i: int = 0;
    while left.len() > 0
        invariant
            0 <= i <= statements@.len(),
            left@ == statements@.skip(i),
            views(first@) == statements_where(views(statements@), texts(references@), true, i),
            views(second@) == statements_where(views(statements@), texts(references@), false, i),
        decreases left@.len(),
    {
        let statement = left.remove(0);
        assert(views(statements@)[i] == statement@);
        proof {
            i = i + 1;
        }
        if is_among(references, statement.id.as_str()) {
            push_view(&mut first, statement);
        } else {
            push_view(&mut second, statement);
        }
    }
    join_views(first, second)
}

fn refers_to_some(statements: &Vec<AuthorizationStatement>, references: &Vec<String>) -> (yes: bool)
    ensures
        yes == some_referred(views(statements@), texts(references@), statements@.len() as int),
{
    let mut yes: bool = false;
    let mut i: usize = 0;
    while i < statements.len()
        invariant
            i <= statements@.len(),
            yes == some_referred(views(statements@), texts(references@), i as int),
        decreases statements@.len() - i,
    {
        assert(views(statements@)[i as int] == statements@[i as int]@);
        yes = yes || is_among(references, statements[i].id.as_str());
        i = i + 1;
    }
    yes
}

fn order_policies(policies: Vec<PolicyEvidence>, references: &Vec<String>) -> (list: Vec<PolicyEvidence>)
    ensures
        views(list@) == policies_by_reference(views(policies@), texts(references@)),
{
    let mut left = policies;
    let mut first: Vec<PolicyEvidence> = no_views();
    let mut second: Vec<PolicyEvidence> = no_views();
    let ghost mut i: int = 0;
    while left.len() > 0
        invariant
            0 <= i <= policies@.len(),
            left@ == policies@.skip(i),
            views(first@) == policies_where(views(policies@), texts(references@), true, i),
            views(second@) == policies_where(views(policies@), texts(references@), false, i),
        decreases left@.len(),
    {
        let policy = left.remove(0);
        assert(views(policies@)[i] == policy@);
        proof {
            i = i + 1;
        }
        let referred = is_among(references, policy.id.as_str()) || refers_to_some(
            &policy.statements,
            references,
        );
        let ordered = PolicyEvidence {
            id: policy.id,
            name: policy.name,
            kind: policy.kind,
            attached_to: policy.attached_to,
            attached_via: policy.attached_via,
            scope: policy.scope,
            version: policy.version,
            statements: order_statements(policy.statements, references),
        };
        if referred {
            push_view(&mut first, ordered);
        } else {
            push_view(&mut second, ordered);
        }
    }
    join_views(first, second)
}

/// The first `n` values of a list.
fn take_views<T: View>(list: Vec<T>, n: usize) -> (kept: Vec<T>)
    requires
        n <= list@.len(),
    ensures
        views(kept@) == views(list@).take(n as int),
{
    let mut kept = list;
    kept.truncate(n);
    assert(views(kept@) =~= views(list@).take(n as int));
    kept
}

fn cut_statements(policies: Vec<PolicyEvidence>) -> (kept: (Vec<PolicyEvidence>, bool))
    ensures
        views(kept.0@) == cut_policies(views(policies@), policies@.len() as int),
        kept.1 == some_cut(views(policies@), policies@.len() as int),
{
    let mut left = policies;
    let mut list: Vec<PolicyEvidence> = no_views();
    let mut remaining: usize = MAX_POLICY_STATEMENTS;
    let mut cut: bool = false;
    let ghost mut i: int = 0;
    let ghost all = views(policies@);
    while left.len() > 0
        invariant
            0 <= i <= policies@.len(),
            all == views(policies@),
            left@ == policies@.skip(i),
            remaining == statements_left(all, i),
            views(list@) == cut_policies(all, i),
            cut == some_cut(all, i),
        decreases left@.len(),
    {
        let policy = left.remove(0);
        assert(all[i] == policy@);
        proof {
            i = i + 1;
        }
        let count = policy.statements.len();
        let keep: usize = if count > remaining {
            cut = true;
            remaining
        } else {
            count
        };
        let ghost before = remaining as int;
        assert(keep == smaller(count as int, before));
        remaining = remaining - keep;
        let shorter = PolicyEvidence {
            id: policy.id,
            name: policy.name,
            kind: policy.kind,
            attached_to: policy.attached_to,
            attached_via: policy.attached_via,
            scope: policy.scope,
            version: policy.version,
            statements: take_views(policy.statements, keep),
        };
        assert(shorter@ =~= cut_policy(all, i - 1));
        if keep > 0 {
            push_view(&mut list, shorter);
        }
    }
    (list, cut)
}

fn collect_ids(policies: &Vec<PolicyEvidence>) -> (list: Vec<String>)
    ensures
        texts(list@) == retained_ids(views(policies@), policies@.len() as int),
{
    let mut list: Vec<String> = no_texts();
    let mut i: usize = 0;
    while i < policies.len()
        invariant
            i <= policies@.len(),
            texts(list@) == retained_ids(views(policies@), i as int),
        decreases policies@.len() - i,
    {
        assert(views(policies@)[i as int] == policies@[i as int]@);
        let ghost statements = views(policies@[i as int].statements@);
        let mut ids: Vec<String> = no_texts();
        let mut j: usize = 0;
        while j < policies[i].statements.len()
            invariant
                i < policies@.len(),
                j <= policies@[i as int].statements@.len(),
                statements == views(policies@[i as int].statements@),
                texts(ids@) == statement_ids(statements, j as int),
            decreases policies@[i as int].statements@.len() - j,
        {
            assert(statements[j as int] == policies@[i as int].statements@[j as int]@);
            push_text(&mut ids, policies[i].statements[j].id.clone());
            j = j + 1;
        }
        extend_texts(&mut list, &ids);
        i = i + 1;
    }
    list
}

fn keep_references(references: Vec<String>, retained: &Vec<String>) -> (list: Vec<String>)
    ensures
        texts(list@) == staying(texts(references@), texts(retained@), references@.len() as int),
{
    let mut list: Vec<String> = no_texts();
    let mut i: usize = 0;
    while i < references.len()
        invariant
            i <= references@.len(),
            texts(list@) == staying(texts(references@), texts(retained@), i as int),
        decreases references@.len() - i,
    {
        if is_among(retained, references[i].as_str()) || !contains(references[i].as_str(), "#") {
            push_text(&mut list, references[i].clone());
        }
        i = i + 1;
    }
    list
}

fn prune_paths(paths: Vec<AuthorizationPath>, retained: &Vec<String>) -> (kept: (
    Vec<AuthorizationPath>,
    bool,
))
    ensures
        views(kept.0@) == views(paths@).map_values(
            |path: AuthorizationPathView| pruned(path, texts(retained@)),
        ),
        kept.1 == some_pruned(views(paths@), texts(retained@), paths@.len() as int),
{
    let mut left = paths;
    let mut list: Vec<AuthorizationPath> = Vec::new();
    let mut omitted: bool = false;
    let ghost all = views(paths@);
    while left.len() > 0
        invariant
            all == views(paths@),
            list@.len() <= paths@.len(),
            left@ == paths@.skip(list@.len() as int),
            forall|j: int| 0 <= j < list@.len() ==> (#[trigger] list@[j])@ == pruned(all[j], texts(retained@)),
            omitted == some_pruned(all, texts(retained@), list@.len() as int),
        decreases left@.len(),
    {
        let path = left.remove(0);
        assert(all[list@.len() as int] == path@);
        let previous = path.evidence.len();
        let evidence = keep_references(path.evidence, retained);
        omitted = omitted || evidence.len() != previous;
        list.push(
            AuthorizationPath {
                direction: path.direction,
                status: path.status,
                hops: path.hops,
                evidence,
                conditions: path.conditions,
            },
        );
    }
    assert(views(list@) =~= all.map_values(
        |path: AuthorizationPathView| pruned(path, texts(retained@)),
    ));
    (list, omitted)
}

proof fn lemma_sorted_len(policies: Seq<PolicyEvidenceView>, references: Seq<Seq<char>>, n: int)
    requires
        0 <= n <= policies.len(),
    ensures
        policies_where(policies, references, true, n).len() + policies_where(
            policies,
            references,
            false,
            n,
        ).len() == n,
    decreases n,
{
    if n > 0 {
        lemma_sorted_len(policies, references, n - 1);
    }
}

pub fn truncate_authorization_evidence(evidence: AuthorizationEvidence) -> (kept: AuthorizationEvidence)
    ensures
        kept@ == truncated(evidence@),
{
    let references = collect_references(&evidence.paths);
    let total = evidence.policies.len();
    let mut limitations = evidence.limitations;
    let sorted = order_policies(evidence.policies, &references);
    proof {
        lemma_sorted_len(evidence@.policies, texts(references@), total as int);
        assert(views(sorted@).len() == total);
    }
    note_if(
        &mut limitations,
        total > MAX_POLICY_EVIDENCE,
        "Policy evidence was limited to 512 documents.",
    );
    let limit: usize = if total > MAX_POLICY_EVIDENCE {
        MAX_POLICY_EVIDENCE
    } else {
        total
    };
    let within = take_views(sorted, limit);
    assert(views(within@) == policies_within(evidence@));
    let (policies, statements_truncated) = cut_statements(within);
    note_if(
        &mut limitations,
        statements_truncated,
        "Policy evidence was limited to 2000 statements.",
    );
    let retained = collect_ids(&policies);
    let (paths, references_truncated) = prune_paths(evidence.paths, &retained);
    note_if(
        &mut limitations,
        references_truncated,
        "Some path evidence references were omitted by report-size limits.",
    );
    AuthorizationEvidence {
        principal: evidence.principal,
        policies,
        paths,
        role_impacts: evidence.role_impacts,
        hierarchy: evidence.hierarchy,
        limitations,
        probes: evidence.probes,
    }
}

/// How many statements the first `n` policies hold.
pub open spec fn statement_total(policies: Seq<PolicyEvidenceView>, n: int) -> int
    decreases n,
{
    if n <= 0 {
        0
    } else {
        statement_total(policies, n - 1) + policies[n - 1].statements.len()
    }
}

proof fn lemma_total_prefix(a: Seq<PolicyEvidenceView>, b: Seq<PolicyEvidenceView>, n: int)
    requires
        0 <= n <= a.len(),
        n <= b.len(),
        forall|i: int| 0 <= i < n ==> a[i] == b[i],
    ensures
        statement_total(a, n) == statement_total(b, n),
    decreases n,
{
    if n > 0 {
        lemma_total_prefix(a, b, n - 1);
    }
}

proof fn lemma_cut_within(policies: Seq<PolicyEvidenceView>, n: int)
    requires
        0 <= n <= policies.len(),
    ensures
        cut_policies(policies, n).len() <= n,
        0 <= statements_left(policies, n) <= MAX_POLICY_STATEMENTS,
        statement_total(cut_policies(policies, n), cut_policies(policies, n).len() as int)
            + statements_left(policies, n) == MAX_POLICY_STATEMENTS,
        forall|i: int|
            0 <= i < cut_policies(policies, n).len() ==> (#[trigger] cut_policies(
                policies,
                n,
            )[i]).statements.len() > 0,
    decreases n,
{
    if n > 0 {
        lemma_cut_within(policies, n - 1);
        let before = cut_policies(policies, n - 1);
        let now = cut_policies(policies, n);
        if cut_policy(policies, n - 1).statements.len() > 0 {
            lemma_total_prefix(before, now, before.len() as int);
        }
    }
}

/// Whatever was collected, no more documents and statements are retained than the limits allow,
/// and no document is retained without a statement.
pub proof fn lemma_truncated_within_limits(evidence: AuthorizationEvidenceView)
    ensures
        truncated(evidence).policies.len() <= MAX_POLICY_EVIDENCE,
        statement_total(truncated(evidence).policies, truncated(evidence).policies.len() as int)
            <= MAX_POLICY_STATEMENTS,
        forall|i: int|
            0 <= i < truncated(evidence).policies.len() ==> (#[trigger] truncated(
                evidence,
            ).policies[i]).statements.len() > 0,
        truncated(evidence).paths.len() == evidence.paths.len(),
{
    let within = policies_within(evidence);
    lemma_cut_within(within, within.len() as int);
}

proof fn lemma_staying_retained(references: Seq<Seq<char>>, retained: Seq<Seq<char>>, n: int)
    requires
        0 <= n <= references.len(),
    ensures
        forall|i: int|
            0 <= i < staying(references, retained, n).len() ==> reference_stays(
                #[trigger] staying(references, retained, n)[i],
                retained,
            ),
    decreases n,
{
    if n > 0 {
        lemma_staying_retained(references, retained, n - 1);
        let before = staying(references, retained, n - 1);
        let now = staying(references, retained, n);
        assert forall|i: int| 0 <= i < now.len() implies reference_stays(#[trigger] now[i], retained) by {
            if i < before.len() {
                assert(now[i] == before[i]);
            }
        }
    }
}

/// After truncation no path refers to a statement that was left out.
pub proof fn lemma_references_are_retained(evidence: AuthorizationEvidenceView, path: int, item: int)
    requires
        0 <= path < evidence.paths.len(),
        0 <= item < truncated(evidence).paths[path].evidence.len(),
    ensures
        ({
            let kept = truncated(evidence);
            let reference = kept.paths[path].evidence[item];
            holds(reference, "#"@) ==> retained_ids(kept.policies, kept.policies.len() as int).contains(
                reference,
            )
        }),
{
    let kept = truncated(evidence);
    let retained = retained_ids(kept.policies, kept.policies.len() as int);
    lemma_staying_retained(
        evidence.paths[path].evidence,
        retained,
        evidence.paths[path].evidence.len() as int,
    );
    assert(kept.paths[path] == pruned(evidence.paths[path], retained));
    assert(reference_stays(kept.paths[path].evidence[item], retained));
}

proof fn lemma_statements_stay(
    statements: Seq<AuthorizationStatementView>,
    references: Seq<Seq<char>>,
    referred: bool,
    n: int,
    k: int,
)
    requires
        0 <= k < n <= statements.len(),
        references.contains(statements[k].id) == referred,
    ensures
        statements_where(statements, references, referred, n).contains(statements[k]),
    decreases n,
{
    let before = statements_where(statements, references, referred, n - 1);
    let now = statements_where(statements, references, referred, n);
    if k < n - 1 {
        lemma_statements_stay(statements, references, referred, n - 1, k);
        let i = choose|i: int| 0 <= i < before.len() && before[i] == statements[k];
        assert(now[i] == statements[k]);
    } else {
        assert(now[before.len() as int] == statements[k]);
    }
}

proof fn lemma_statement_counts(
    statements: Seq<AuthorizationStatementView>,
    references: Seq<Seq<char>>,
    n: int,
)
    requires
        0 <= n <= statements.len(),
    ensures
        statements_where(statements, references, true, n).len() + statements_where(
            statements,
            references,
            false,
            n,
        ).len() == n,
        forall|i: int|
            0 <= i < statements_where(statements, references, true, n).len() ==> references.contains(
                (#[trigger] statements_where(statements, references, true, n)[i]).id,
            ),
    decreases n,
{
    if n > 0 {
        lemma_statement_counts(statements, references, n - 1);
    }
}

/// Putting the statements that are referred to first loses none and adds none, and no statement that is not
/// referred to comes before one that is.
pub proof fn lemma_references_come_first(
    statements: Seq<AuthorizationStatementView>,
    references: Seq<Seq<char>>,
    k: int,
)
    requires
        0 <= k < statements.len(),
    ensures
        statements_by_reference(statements, references).len() == statements.len(),
        statements_by_reference(statements, references).contains(statements[k]),
        references.contains(statements[k].id) ==> exists|i: int|
            0 <= i < statements.len() && statements_by_reference(statements, references)[i]
                == statements[k] && forall|j: int|
                0 <= j <= i ==> references.contains(
                    (#[trigger] statements_by_reference(statements, references)[j]).id,
                ),
{
    let n = statements.len() as int;
    let first = statements_where(statements, references, true, n);
    let second = statements_where(statements, references, false, n);
    let all = statements_by_reference(statements, references);
    lemma_statement_counts(statements, references, n);
    let referred = references.contains(statements[k].id);
    lemma_statements_stay(statements, references, referred, n, k);
    if referred {
        let i = choose|i: int| 0 <= i < first.len() && first[i] == statements[k];
        assert(all[i] == statements[k]);
        assert forall|j: int| 0 <= j <= i implies references.contains((#[trigger] all[j]).id) by {
            assert(all[j] == first[j]);
        }
    } else {
        let i = choose|i: int| 0 <= i < second.len() && second[i] == statements[k];
        assert(all[first.len() + i] == statements[k]);
    }
}

proof fn lemma_policies_stay(
    policies: Seq<PolicyEvidenceView>,
    references: Seq<Seq<char>>,
    referred: bool,
    n: int,
    k: int,
)
    requires
        0 <= k < n <= policies.len(),
        policy_referred(policies[k], references) == referred,
    ensures
        policies_where(policies, references, referred, n).contains(
            policy_by_reference(policies[k], references),
        ),
    decreases n,
{
    let before = policies_where(policies, references, referred, n - 1);
    let now = policies_where(policies, references, referred, n);
    let found = policy_by_reference(policies[k], references);
    if k < n - 1 {
        lemma_policies_stay(policies, references, referred, n - 1, k);
        let i = choose|i: int| 0 <= i < before.len() && before[i] == found;
        assert(now[i] == found);
    } else {
        assert(now[before.len() as int] == found);
    }
}

proof fn lemma_policy_counts(policies: Seq<PolicyEvidenceView>, references: Seq<Seq<char>>, n: int)
    requires
        0 <= n <= policies.len(),
    ensures
        policies_where(policies, references, true, n).len() + policies_where(
            policies,
            references,
            false,
            n,
        ).len() == n,
    decreases n,
{
    if n > 0 {
        lemma_policy_counts(policies, references, n - 1);
    }
}

/// Within the limit on documents every policy is kept, under its ID, with every statement of it.
pub proof fn lemma_policies_within_the_limit_are_kept(
    evidence: AuthorizationEvidenceView,
    k: int,
    s: int,
)
    requires
        0 <= k < evidence.policies.len() <= 512,
        0 <= s < evidence.policies[k].statements.len(),
    ensures
        policies_within(evidence).len() == evidence.policies.len(),
        exists|i: int|
            0 <= i < policies_within(evidence).len() && (#[trigger] policies_within(evidence)[i]).id
                == evidence.policies[k].id && policies_within(evidence)[i].statements.contains(
                evidence.policies[k].statements[s],
            ),
{
    let references = path_references(evidence.paths, evidence.paths.len() as int);
    let n = evidence.policies.len() as int;
    let first = policies_where(evidence.policies, references, true, n);
    let second = policies_where(evidence.policies, references, false, n);
    let sorted = policies_by_reference(evidence.policies, references);
    let within = policies_within(evidence);
    let found = policy_by_reference(evidence.policies[k], references);
    let referred = policy_referred(evidence.policies[k], references);
    lemma_policy_counts(evidence.policies, references, n);
    lemma_policies_stay(evidence.policies, references, referred, n, k);
    lemma_references_come_first(evidence.policies[k].statements, references, s);
    assert(within =~= sorted);
    if referred {
        let i = choose|i: int| 0 <= i < first.len() && first[i] == found;
        assert(within[i] == found);
    } else {
        let i = choose|i: int| 0 <= i < second.len() && second[i] == found;
        assert(within[first.len() + i] == found);
    }
}

proof fn lemma_has_policy(policies: Seq<PolicyEvidenceView>, id: Seq<char>, n: int)
    requires
        0 <= n <= policies.len(),
    ensures
        has_policy(policies, id, n) <==> exists|k: int| 0 <= k < n && (#[trigger] policies[k]).id == id,
    decreases n,
{
    if n > 0 {
        lemma_has_policy(policies, id, n - 1);
    }
}

/// A policy document that can be read and says something is retained under the ID of its source, with all
/// its statements, once; no policy that was there is lost, and one that cannot be read is an error.
pub proof fn lemma_documents_are_retained(
    evidence: AuthorizationEvidenceView,
    document: Seq<char>,
    source: PolicySourceView,
)
    ensures
        ({
            let after = with_document(evidence, document, source);
            let known = exists|k: int|
                0 <= k < evidence.policies.len() && (#[trigger] evidence.policies[k]).id == source.id;
            &&& forall|k: int|
                0 <= k < evidence.policies.len() ==> #[trigger] after.policies[k] == evidence.policies[k]
            &&& after.policies.len() >= evidence.policies.len()
            &&& known ==> after == evidence
            &&& !known && document_statements(document, source.id) is Ok && document_statements(
                document,
                source.id,
            )->Ok_0.len() > 0 ==> {
                let last = after.policies[evidence.policies.len() as int];
                &&& after.policies.len() == evidence.policies.len() + 1
                &&& last.id == source.id
                &&& last.kind == source.kind
                &&& last.attached_to == source.attached_to
                &&& last.statements == document_statements(document, source.id)->Ok_0
            }
            &&& document_error(evidence, document, source) is Some <==> !known && document_statements(
                document,
                source.id,
            ) is Err
        }),
{
    lemma_has_policy(evidence.policies, source.id, evidence.policies.len() as int);
}

/// A path that is found is retained while there is room for it, and where there is none that is noted.
pub proof fn lemma_paths_are_retained(evidence: AuthorizationEvidenceView, path: AuthorizationPathView)
    ensures
        evidence.paths.len() < 256 ==> with_path(evidence, path).paths == evidence.paths.push(path),
        evidence.paths.len() >= 256 ==> with_path(evidence, path).paths == evidence.paths && with_path(
            evidence,
            path,
        ).limitations.contains("Role-path discovery stopped after 256 paths."@),
{
    lemma_noted_keeps(evidence.limitations, path_cap_note());
}

} // verus!
