//! What IAM says of the principal behind a credential, and what its policies permit.

use vstd::prelude::*;
use crate::aws::collect::{
    collect_role_actions, collect_user_actions, groups_upto, listing_after, notes_after,
    notes_after_failure, record_iam_error, role_owner, user_owner, AwsFailure, AwsGroup,
    AwsGroupView, GroupPolicies, PolicyCollection, PolicyCollectionView, PolicyListing,
};
use crate::aws::evidence::{
    add_policy_evidence, document_error, trust_source, with_document, PolicySource,
};
use crate::aws::identity::{authorizing_arn, PrincipalContext, PrincipalContextView};
use crate::aws::policy::{
    final_actions, final_notes, finalize_policy_actions, no_flags, PolicyDocumentFlags,
};
use crate::aws::severity::{classified, classify_permissions};
use crate::keyed::{keyed, keyed_pairs, no_pairs, put, put_pair};
use crate::model::{
    no_views, pairs, views, AuthorizationEvidence, AuthorizationEvidenceView, PermissionSummary,
    PermissionSummaryView, PrincipalEvidence, PrincipalEvidenceView, RoleBinding, RoleBindingView,
};
use crate::notes::{lemma_noted_keeps, note_if, noted, noted_if, push_unique_note};
use crate::order::{is_less, text_less};
use crate::text::{
    cat4, contains, copy_opt, copy_texts, holds, i64_text, no_texts, push_text, signed_decimal,
    str_eq, texts, unwrap_text,
};

verus! {

/// An IAM user, as IAM describes it.
#[derive(Debug)]
pub struct IamUser {
    pub arn: String,
    pub user_id: String,
    pub path: String,
    pub tags: Vec<(String, String)>,
    pub has_permissions_boundary: bool,
}

/// An IAM role, as IAM describes it.
#[derive(Debug)]
pub struct IamRole {
    pub arn: String,
    pub role_name: String,
    pub role_id: String,
    pub path: String,
    pub tags: Vec<(String, String)>,
    pub max_session_duration: Option<i32>,
    pub has_permissions_boundary: bool,
    pub assume_role_policy_document: Option<String>,
}

/// What IAM answered when the principal was looked up.
#[derive(Debug)]
pub enum PrincipalAnswer {
    /// A user, and the groups it belongs to up to the first call that failed.
    User {
        user: Result<Option<IamUser>, AwsFailure>,
        groups: Vec<AwsGroup>,
        groups_failure: Option<AwsFailure>,
    },
    /// A role.
    Role(Result<Option<IamRole>, AwsFailure>),
    /// Nothing was asked.
    Nothing,
}

/// Tags in the order of their keys, each with nothing but the fact that it is there.
pub open spec fn tag_presence(tags: Seq<(Seq<char>, Seq<char>)>) -> Seq<(Seq<char>, Seq<char>)> {
    tags.map_values(|tag: (Seq<char>, Seq<char>)| (tag.0, "present"@))
}

pub fn redacted_tag_presence(tags: &Vec<(String, String)>) -> (redacted: Vec<(String, String)>)
    ensures
        pairs(redacted@) == tag_presence(pairs(tags@)),
{
    let mut redacted: Vec<(String, String)> = Vec::new();
    let mut i: usize = 0;
    while i < tags.len()
        invariant
            i <= tags@.len(),
            redacted@.len() == i,
            forall|j: int|
                0 <= j < i ==> (#[trigger] redacted@[j]).0@ == tags@[j].0@ && redacted@[j].1@ == "present"@,
        decreases tags@.len() - i,
    {
        redacted.push((tags[i].0.clone(), "present".to_owned()));
        i = i + 1;
    }
    assert(pairs(redacted@) =~= tag_presence(pairs(tags@)));
    redacted
}

/// What is retained of tags does not depend on their values.
pub proof fn lemma_tag_values_are_not_retained(
    a: Seq<(Seq<char>, Seq<char>)>,
    b: Seq<(Seq<char>, Seq<char>)>,
)
    requires
        a.len() == b.len(),
        forall|i: int| 0 <= i < a.len() ==> (#[trigger] a[i]).0 == b[i].0,
    ensures
        tag_presence(a) == tag_presence(b),
{
    assert(tag_presence(a) =~= tag_presence(b));
}

/// The groups in the order of their names; groups of one name stay in the order they had.
pub open spec fn placed_group(list: Seq<AwsGroupView>, group: AwsGroupView) -> Seq<AwsGroupView>
    decreases list.len(),
{
    if list.len() > 0 && text_less(group.name, list.last().name) {
        placed_group(list.drop_last(), group).push(list.last())
    } else {
        list.push(group)
    }
}

/// The first `n` groups in the order of their names.
pub open spec fn groups_in_order(list: Seq<AwsGroupView>, n: int) -> Seq<AwsGroupView>
    decreases n,
{
    if n <= 0 {
        Seq::empty()
    } else {
        placed_group(groups_in_order(list, n - 1), list[n - 1])
    }
}

proof fn lemma_placed_group_at(list: Seq<AwsGroupView>, group: AwsGroupView, k: int)
    requires
        0 <= k <= list.len(),
        k > 0 ==> !text_less(group.name, list[k - 1].name),
        forall|j: int| k <= j < list.len() ==> text_less(group.name, list[j].name),
    ensures
        placed_group(list, group) == list.insert(k, group),
    decreases list.len() - k,
{
    if k < list.len() {
        lemma_placed_group_at(list.drop_last(), group, k);
    }
    assert(placed_group(list, group) =~= list.insert(k, group));
}

fn place_group(list: &mut Vec<AwsGroup>, group: AwsGroup)
    ensures
        views(final(list)@) == placed_group(views(old(list)@), group@),
{
    let mut k: usize = list.len();
    while k > 0 && is_less(group.name.as_str(), list[k - 1].name.as_str())
        invariant
            k <= list@.len(),
            *list == *old(list),
            forall|j: int| k <= j < list@.len() ==> text_less(group.name@, (#[trigger] list@[j]).name@),
        decreases k,
    {
        k = k - 1;
    }
    let ghost before = views(list@);
    proof {
        lemma_placed_group_at(before, group@, k as int);
    }
    list.insert(k, group);
    assert(views(list@) =~= before.insert(k as int, group@));
}

fn sort_groups(groups: &Vec<AwsGroup>) -> (sorted: Vec<AwsGroup>)
    ensures
        views(sorted@) == groups_in_order(views(groups@), groups@.len() as int),
{
    let mut sorted: Vec<AwsGroup> = no_views();
    let mut i: usize = 0;
    while i < groups.len()
        invariant
            i <= groups@.len(),
            views(sorted@) == groups_in_order(views(groups@), i as int),
        decreases groups@.len() - i,
    {
        assert(views(groups@)[i as int] == groups@[i as int]@);
        place_group(
            &mut sorted,
            AwsGroup { name: groups[i].name.clone(), arn: groups[i].arn.clone() },
        );
        i = i + 1;
    }
    sorted
}

/// The names of groups.
pub open spec fn group_names(groups: Seq<AwsGroupView>) -> Seq<Seq<char>> {
    groups.map_values(|group: AwsGroupView| group.name)
}

fn collect_group_names(groups: &Vec<AwsGroup>) -> (names: Vec<String>)
    ensures
        texts(names@) == group_names(views(groups@)),
{
    let mut names: Vec<String> = Vec::new();
    let mut i: usize = 0;
    while i < groups.len()
        invariant
            i <= groups@.len(),
            names@.len() == i,
            forall|j: int| 0 <= j < i ==> (#[trigger] names@[j])@ == groups@[j].name@,
        decreases groups@.len() - i,
    {
        names.push(groups[i].name.clone());
        i = i + 1;
    }
    assert(texts(names@) =~= group_names(views(groups@)));
    names
}

/// What was learned of a principal.
pub struct Inspection {
    pub principal: PrincipalContext,
    pub groups: Vec<AwsGroup>,
    pub evidence: AuthorizationEvidence,
    pub risk_notes: Vec<String>,
}

/// What an `Inspection` says.
#[verifier::ext_equal]
pub struct InspectionView {
    pub principal: PrincipalContextView,
    pub groups: Seq<AwsGroupView>,
    pub evidence: AuthorizationEvidenceView,
    pub risk_notes: Seq<Seq<char>>,
}

impl View for Inspection {
    type V = InspectionView;

    open spec fn view(&self) -> InspectionView {
        InspectionView {
            principal: self.principal@,
            groups: views(self.groups@),
            evidence: self.evidence@,
            risk_notes: texts(self.risk_notes@),
        }
    }
}

/// Where an inspection stands: what `Inspection` says, with the attributes found so far.
#[verifier::ext_equal]
pub struct Findings {
    pub principal: PrincipalContextView,
    pub attributes: Seq<(Seq<char>, Seq<char>)>,
    pub evidence: AuthorizationEvidenceView,
    pub risk_notes: Seq<Seq<char>>,
}

/// A principal with what IAM resolved it to.
pub open spec fn resolved(
    principal: PrincipalContextView,
    arn: Seq<char>,
    tags: Seq<(Seq<char>, Seq<char>)>,
) -> PrincipalContextView {
    PrincipalContextView {
        canonical_arn: Some(arn),
        tags: keyed(tags),
        tags_complete: true,
        ..principal
    }
}

/// The attributes with a permissions boundary, where there is one.
pub open spec fn with_boundary(attributes: Seq<(Seq<char>, Seq<char>)>, bound: bool) -> Seq<
    (Seq<char>, Seq<char>),
> {
    if bound {
        put(attributes, "permissions_boundary"@, "present"@)
    } else {
        attributes
    }
}

/// The evidence with the note on a permissions boundary, where there is one.
pub open spec fn evidence_with_boundary(evidence: AuthorizationEvidenceView, bound: bool) -> AuthorizationEvidenceView {
    AuthorizationEvidenceView {
        limitations: noted_if(
            evidence.limitations,
            bound,
            "An IAM permissions boundary applies to the principal and may reduce the listed permissions."@,
        ),
        ..evidence
    }
}

/// The findings with one more limitation, where `when` holds.
pub open spec fn limited_if(findings: Findings, when: bool, note: Seq<char>) -> Findings {
    Findings {
        evidence: AuthorizationEvidenceView {
            limitations: noted_if(findings.evidence.limitations, when, note),
            ..findings.evidence
        },
        ..findings
    }
}

/// The findings after the user was looked up.
pub open spec fn after_user(findings: Findings, user: Result<Option<IamUser>, AwsFailure>) -> Findings {
    match user {
        Err(failure) => Findings {
            risk_notes: notes_after_failure(findings.risk_notes, failure),
            ..findings
        },
        Ok(None) => findings,
        Ok(Some(found)) => Findings {
            principal: resolved(findings.principal, found.arn@, pairs(found.tags@)),
            attributes: with_boundary(
                put(put(findings.attributes, "iam_id"@, found.user_id@), "path"@, found.path@),
                found.has_permissions_boundary,
            ),
            evidence: evidence_with_boundary(findings.evidence, found.has_permissions_boundary),
            risk_notes: findings.risk_notes,
        },
    }
}

/// The findings after the groups of a user were listed.
pub open spec fn after_groups(findings: Findings, failure: Option<AwsFailure>) -> Findings {
    limited_if(
        Findings { risk_notes: notes_after(findings.risk_notes, failure), ..findings },
        failure is Some,
        "IAM group membership could not be completely enumerated."@,
    )
}

/// The attributes of a role.
pub open spec fn role_attributes(attributes: Seq<(Seq<char>, Seq<char>)>, role: IamRole) -> Seq<
    (Seq<char>, Seq<char>),
> {
    let named = put(put(attributes, "iam_id"@, role.role_id@), "path"@, role.path@);
    with_boundary(
        match role.max_session_duration {
            Some(seconds) => put(
                named,
                "max_session_duration_seconds"@,
                signed_decimal(seconds as int),
            ),
            None => named,
        },
        role.has_permissions_boundary,
    )
}

/// The findings after the role was looked up under `role_name`.
pub open spec fn after_role(
    findings: Findings,
    role: Result<Option<IamRole>, AwsFailure>,
    role_name: Seq<char>,
) -> Findings {
    match role {
        Err(failure) => limited_if(
            Findings { risk_notes: notes_after_failure(findings.risk_notes, failure), ..findings },
            true,
            "The backing IAM role could not be resolved from the session ARN."@,
        ),
        Ok(None) => findings,
        Ok(Some(found)) => {
            let bound = evidence_with_boundary(findings.evidence, found.has_permissions_boundary);
            Findings {
                principal: resolved(findings.principal, found.arn@, pairs(found.tags@)),
                attributes: role_attributes(findings.attributes, found),
                evidence: match found.assume_role_policy_document {
                    Some(document) => with_document(bound, document@, trust_source(found.arn@)),
                    None => bound,
                },
                risk_notes: match found.assume_role_policy_document {
                    Some(document) => match document_error(
                        bound,
                        document@,
                        trust_source(found.arn@),
                    ) {
                        Some(error) => noted(
                            findings.risk_notes,
                            "Failed to parse trust policy for role "@ + role_name + ": "@ + error,
                        ),
                        None => findings.risk_notes,
                    },
                    None => findings.risk_notes,
                },
            }
        },
    }
}

/// The findings before anything was asked.
pub open spec fn first_findings(
    principal: PrincipalContextView,
    evidence: AuthorizationEvidenceView,
    risk_notes: Seq<Seq<char>>,
) -> Findings {
    Findings {
        principal,
        attributes: match principal.user_id {
            Some(id) => put(Seq::empty(), "sts_user_id"@, id),
            None => Seq::empty(),
        },
        evidence,
        risk_notes,
    }
}

/// Whether a principal is a role or a session of one.
pub open spec fn is_role_kind(kind: Seq<char>) -> bool {
    kind == "role"@ || kind == "assumed_role"@
}

/// The findings after IAM answered. Only a user or a role with a name is looked up.
pub open spec fn findings_from(
    principal: PrincipalContextView,
    answer: PrincipalAnswer,
    evidence: AuthorizationEvidenceView,
    risk_notes: Seq<Seq<char>>,
) -> Findings {
    let start = first_findings(principal, evidence, risk_notes);
    match (principal.name, answer) {
        (Some(_), PrincipalAnswer::User { user, groups: _, groups_failure }) => if principal.kind
            == "user"@ {
            after_groups(after_user(start, user), groups_failure)
        } else {
            start
        },
        (Some(name), PrincipalAnswer::Role(role)) => if is_role_kind(principal.kind) {
            after_role(start, role, name)
        } else {
            start
        },
        _ => start,
    }
}

/// The groups that IAM named, in the order of their names.
pub open spec fn groups_from(principal: PrincipalContextView, answer: PrincipalAnswer) -> Seq<AwsGroupView> {
    match (principal.name, answer) {
        (Some(_), PrincipalAnswer::User { user: _, groups, groups_failure: _ }) => if principal.kind
            == "user"@ {
            groups_in_order(views(groups@), groups@.len() as int)
        } else {
            Seq::empty()
        },
        _ => Seq::empty(),
    }
}

/// What is retained of the principal.
pub open spec fn principal_evidence(findings: Findings, groups: Seq<AwsGroupView>) -> PrincipalEvidenceView {
    PrincipalEvidenceView {
        id: findings.principal.raw_arn,
        kind: findings.principal.kind,
        canonical_id: findings.principal.canonical_arn,
        name: findings.principal.name,
        groups: group_names(groups),
        tags: tag_presence(findings.principal.tags),
        attributes: findings.attributes,
    }
}

/// What is learned of a principal from what IAM answered.
pub open spec fn inspected(
    principal: PrincipalContextView,
    answer: PrincipalAnswer,
    evidence: AuthorizationEvidenceView,
    risk_notes: Seq<Seq<char>>,
) -> InspectionView {
    let findings = findings_from(principal, answer, evidence, risk_notes);
    let groups = groups_from(principal, answer);
    InspectionView {
        principal: findings.principal,
        groups,
        evidence: AuthorizationEvidenceView {
            principal: Some(principal_evidence(findings, groups)),
            ..findings.evidence
        },
        risk_notes: findings.risk_notes,
    }
}

struct Progress {
    principal: PrincipalContext,
    attributes: Vec<(String, String)>,
    evidence: AuthorizationEvidence,
    risk_notes: Vec<String>,
}

impl View for Progress {
    type V = Findings;

    closed spec fn view(&self) -> Findings {
        Findings {
            principal: self.principal@,
            attributes: pairs(self.attributes@),
            evidence: self.evidence@,
            risk_notes: texts(self.risk_notes@),
        }
    }
}

fn note_boundary(evidence: &mut AuthorizationEvidence, bound: bool)
    ensures
        final(evidence)@ == evidence_with_boundary(old(evidence)@, bound),
{
    note_if(
        &mut evidence.limitations,
        bound,
        "An IAM permissions boundary applies to the principal and may reduce the listed permissions.",
    );
}

fn put_boundary(attributes: &mut Vec<(String, String)>, bound: bool)
    ensures
        pairs(final(attributes)@) == with_boundary(pairs(old(attributes)@), bound),
{
    if bound {
        put_pair(attributes, "permissions_boundary".to_owned(), "present".to_owned());
    }
}

fn resolve(principal: PrincipalContext, arn: &str, tags: &Vec<(String, String)>) -> (next: PrincipalContext)
    ensures
        next@ == resolved(principal@, arn@, pairs(tags@)),
{
    PrincipalContext {
        raw_arn: principal.raw_arn,
        canonical_arn: Some(arn.to_owned()),
        account_id: principal.account_id,
        user_id: principal.user_id,
        kind: principal.kind,
        name: principal.name,
        tags: keyed_pairs(tags),
        tags_complete: true,
    }
}

fn learn_user(progress: Progress, user: &Result<Option<IamUser>, AwsFailure>) -> (next: Progress)
    ensures
        next@ == after_user(progress@, *user),
{
    let mut next = progress;
    match user {
        Err(failure) => record_iam_error(failure, &mut next.risk_notes),
        Ok(None) => {},
        Ok(Some(found)) => {
            put_pair(&mut next.attributes, "iam_id".to_owned(), found.user_id.clone());
            put_pair(&mut next.attributes, "path".to_owned(), found.path.clone());
            put_boundary(&mut next.attributes, found.has_permissions_boundary);
            note_boundary(&mut next.evidence, found.has_permissions_boundary);
            next = Progress {
                principal: resolve(next.principal, found.arn.as_str(), &found.tags),
                attributes: next.attributes,
                evidence: next.evidence,
                risk_notes: next.risk_notes,
            };
        },
    }
    next
}

fn learn_groups(progress: Progress, failure: &Option<AwsFailure>) -> (next: Progress)
    ensures
        next@ == after_groups(progress@, *failure),
{
    let mut next = progress;
    match failure {
        Some(found) => {
            record_iam_error(found, &mut next.risk_notes);
            push_unique_note(
                &mut next.evidence.limitations,
                "IAM group membership could not be completely enumerated.".to_owned(),
            );
        },
        None => {},
    }
    next
}

fn learn_role(progress: Progress, role: &Result<Option<IamRole>, AwsFailure>, role_name: &str) -> (next: Progress)
    ensures
        next@ == after_role(progress@, *role, role_name@),
{
    let mut next = progress;
    match role {
        Err(failure) => {
            record_iam_error(failure, &mut next.risk_notes);
            push_unique_note(
                &mut next.evidence.limitations,
                "The backing IAM role could not be resolved from the session ARN.".to_owned(),
            );
        },
        Ok(None) => {},
        Ok(Some(found)) => {
            put_pair(&mut next.attributes, "iam_id".to_owned(), found.role_id.clone());
            put_pair(&mut next.attributes, "path".to_owned(), found.path.clone());
            match found.max_session_duration {
                Some(seconds) => put_pair(
                    &mut next.attributes,
                    "max_session_duration_seconds".to_owned(),
                    i64_text(seconds as i64),
                ),
                None => {},
            }
            put_boundary(&mut next.attributes, found.has_permissions_boundary);
            note_boundary(&mut next.evidence, found.has_permissions_boundary);
            match &found.assume_role_policy_document {
                Some(document) => {
                    match add_policy_evidence(
                        document.as_str(),
                        PolicySource::trust(found.arn.as_str()),
                        &mut next.evidence,
                    ) {
                        Err(error) => push_unique_note(
                            &mut next.risk_notes,
                            cat4(
                                "Failed to parse trust policy for role ",
                                role_name,
                                ": ",
                                error.as_str(),
                            ),
                        ),
                        Ok(_) => {},
                    }
                },
                None => {},
            }
            next = Progress {
                principal: resolve(next.principal, found.arn.as_str(), &found.tags),
                attributes: next.attributes,
                evidence: next.evidence,
                risk_notes: next.risk_notes,
            };
        },
    }
    next
}

pub fn inspect_principal(
    principal: PrincipalContext,
    answer: &PrincipalAnswer,
    evidence: AuthorizationEvidence,
    risk_notes: Vec<String>,
) -> (learned: Inspection)
    ensures
        learned@ == inspected(principal@, *answer, evidence@, texts(risk_notes@)),
{
    let mut attributes: Vec<(String, String)> = no_pairs();
    match &principal.user_id {
        Some(id) => put_pair(&mut attributes, "sts_user_id".to_owned(), id.clone()),
        None => {},
    }
    let is_user = str_eq(principal.kind.as_str(), "user");
    let is_role = str_eq(principal.kind.as_str(), "role") || str_eq(
        principal.kind.as_str(),
        "assumed_role",
    );
    let name = copy_opt(&principal.name);
    let mut progress = Progress { principal, attributes, evidence, risk_notes };
    let mut found: Vec<AwsGroup> = no_views();
    match (&name, answer) {
        (Some(_), PrincipalAnswer::User { user, groups, groups_failure }) => {
            if is_user {
                progress = learn_user(progress, user);
                progress = learn_groups(progress, groups_failure);
                found = sort_groups(groups);
            }
        },
        (Some(name), PrincipalAnswer::Role(role)) => {
            if is_role {
                progress = learn_role(progress, role, name.as_str());
            }
        },
        _ => {},
    }
    let mut evidence = progress.evidence;
    evidence.principal = Some(
        PrincipalEvidence {
            id: progress.principal.raw_arn.clone(),
            kind: progress.principal.kind.clone(),
            canonical_id: copy_opt(&progress.principal.canonical_arn),
            name: copy_opt(&progress.principal.name),
            groups: collect_group_names(&found),
            tags: redacted_tag_presence(&progress.principal.tags),
            attributes: progress.attributes,
        },
    );
    Inspection {
        principal: progress.principal,
        groups: found,
        evidence,
        risk_notes: progress.risk_notes,
    }
}

/// What the policies of a principal permit.
pub struct Expansion {
    pub permissions: PermissionSummary,
    pub roles: Vec<RoleBinding>,
    pub evidence: AuthorizationEvidence,
    pub risk_notes: Vec<String>,
}

/// What an `Expansion` says.
#[verifier::ext_equal]
pub struct ExpansionView {
    pub permissions: PermissionSummaryView,
    pub roles: Seq<RoleBindingView>,
    pub evidence: AuthorizationEvidenceView,
    pub risk_notes: Seq<Seq<char>>,
}

impl View for Expansion {
    type V = ExpansionView;

    open spec fn view(&self) -> ExpansionView {
        ExpansionView {
            permissions: self.permissions@,
            roles: views(self.roles@),
            evidence: self.evidence@,
            risk_notes: texts(self.risk_notes@),
        }
    }
}

/// The notes with the one on a session of AWS IAM Identity Center.
pub open spec fn notes_on_session(raw_arn: Seq<char>, notes: Seq<Seq<char>>) -> Seq<Seq<char>> {
    if holds(raw_arn, ":assumed-role/AWSReservedSSO_"@) {
        notes.push(
            "This is an AWS IAM Identity Center session; Kingfisher will inspect the backing AWSReservedSSO role when IAM read access is available."@,
        )
    } else {
        notes
    }
}

/// Nothing was collected yet.
pub open spec fn nothing_collected(evidence: AuthorizationEvidenceView, notes: Seq<Seq<char>>) -> PolicyCollectionView {
    PolicyCollectionView {
        actions: Seq::empty(),
        flags: no_flags(),
        evidence,
        risk_notes: notes,
    }
}

/// The name of a principal, or nothing.
pub open spec fn name_or_empty(principal: PrincipalContextView) -> Seq<char> {
    match principal.name {
        Some(name) => name,
        None => Seq::empty(),
    }
}

/// What the policies of a principal come to: its own, and those of its groups where it is a user.
pub open spec fn principal_collection(
    principal: PrincipalContextView,
    own: PolicyListing,
    groups: Seq<GroupPolicies>,
    evidence: AuthorizationEvidenceView,
    notes: Seq<Seq<char>>,
) -> PolicyCollectionView {
    let start = nothing_collected(evidence, notes);
    let name = name_or_empty(principal);
    let arn = authorizing_arn(principal);
    if is_role_kind(principal.kind) {
        listing_after(start, own, role_owner(name, arn))
    } else if principal.kind == "user"@ {
        groups_upto(
            listing_after(start, own, user_owner(name, arn)),
            groups,
            arn,
            groups.len() as int,
        )
    } else {
        start
    }
}

/// A role with the actions found, where it has no permissions of its own.
pub open spec fn filled_role(role: RoleBindingView, actions: Seq<Seq<char>>) -> RoleBindingView {
    if role.permissions.len() == 0 {
        RoleBindingView { permissions: actions, ..role }
    } else {
        role
    }
}

/// The roles with the actions found; a user without roles stands as one itself.
pub open spec fn expanded_roles(
    roles: Seq<RoleBindingView>,
    principal: PrincipalContextView,
    actions: Seq<Seq<char>>,
) -> Seq<RoleBindingView> {
    let all = if roles.len() == 0 && principal.kind == "user"@ {
        seq![
            RoleBindingView {
                name: name_or_empty(principal),
                source: "iam_user_and_groups"@,
                permissions: actions,
            },
        ]
    } else {
        roles
    };
    all.map_values(|role: RoleBindingView| filled_role(role, actions))
}

/// What the policies of a principal permit.
pub open spec fn expanded(
    principal: PrincipalContextView,
    own: PolicyListing,
    groups: Seq<GroupPolicies>,
    roles: Seq<RoleBindingView>,
    evidence: AuthorizationEvidenceView,
    notes: Seq<Seq<char>>,
) -> ExpansionView {
    let found = principal_collection(
        principal,
        own,
        groups,
        evidence,
        notes_on_session(principal.raw_arn, notes),
    );
    let actions = final_actions(found.actions, found.flags);
    ExpansionView {
        permissions: classified(actions),
        roles: expanded_roles(roles, principal, actions),
        evidence: found.evidence,
        risk_notes: final_notes(found.risk_notes, found.flags),
    }
}

fn fill_roles(roles: Vec<RoleBinding>, actions: &Vec<String>) -> (filled: Vec<RoleBinding>)
    ensures
        views(filled@) == views(roles@).map_values(
            |role: RoleBindingView| filled_role(role, texts(actions@)),
        ),
{
    let mut left = roles;
    let mut filled: Vec<RoleBinding> = Vec::new();
    while left.len() > 0
        invariant
            filled@.len() <= roles@.len(),
            left@ == roles@.skip(filled@.len() as int),
            forall|j: int|
                0 <= j < filled@.len() ==> (#[trigger] filled@[j])@ == filled_role(
                    roles@[j]@,
                    texts(actions@),
                ),
        decreases left@.len(),
    {
        let role = left.remove(0);
        if role.permissions.len() == 0 {
            filled.push(
                RoleBinding {
                    name: role.name,
                    source: role.source,
                    permissions: copy_texts(actions),
                },
            );
        } else {
            filled.push(role);
        }
    }
    assert(views(filled@) =~= views(roles@).map_values(
        |role: RoleBindingView| filled_role(role, texts(actions@)),
    ));
    filled
}

pub fn expand_permissions(
    principal: &PrincipalContext,
    own: &PolicyListing,
    groups: &Vec<GroupPolicies>,
    roles: Vec<RoleBinding>,
    evidence: AuthorizationEvidence,
    risk_notes: Vec<String>,
) -> (permitted: Expansion)
    ensures
        permitted@ == expanded(
            principal@,
            *own,
            groups@,
            views(roles@),
            evidence@,
            texts(risk_notes@),
        ),
{
    let name = unwrap_text(&principal.name, String::new().as_str());
    let mut notes = risk_notes;
    if contains(principal.raw_arn.as_str(), ":assumed-role/AWSReservedSSO_") {
        push_text(
            &mut notes,
            "This is an AWS IAM Identity Center session; Kingfisher will inspect the backing AWSReservedSSO role when IAM read access is available.".to_owned(),
        );
    }
    let start = PolicyCollection {
        actions: no_texts(),
        flags: PolicyDocumentFlags::default(),
        evidence,
        risk_notes: notes,
    };
    let is_user = str_eq(principal.kind.as_str(), "user");
    let found = if str_eq(principal.kind.as_str(), "role") || str_eq(
        principal.kind.as_str(),
        "assumed_role",
    ) {
        collect_role_actions(start, name.as_str(), principal.authorization_arn(), own)
    } else if is_user {
        collect_user_actions(start, name.as_str(), principal.authorization_arn(), own, groups)
    } else {
        start
    };
    let mut risk_notes = found.risk_notes;
    let actions = finalize_policy_actions(found.actions, &found.flags, &mut risk_notes);
    let all: Vec<RoleBinding> = if roles.len() == 0 && is_user {
        crate::model::one_view(
            RoleBinding::new(name.as_str(), "iam_user_and_groups", copy_texts(&actions)),
        )
    } else {
        roles
    };
    Expansion {
        permissions: classify_permissions(&actions),
        roles: fill_roles(all, &actions),
        evidence: found.evidence,
        risk_notes,
    }
}

proof fn lemma_placed_group(list: Seq<AwsGroupView>, group: AwsGroupView)
    ensures
        placed_group(list, group).len() == list.len() + 1,
        placed_group(list, group).contains(group),
        forall|k: int| 0 <= k < list.len() ==> placed_group(list, group).contains(#[trigger] list[k]),
    decreases list.len(),
{
    let now = placed_group(list, group);
    if list.len() > 0 && text_less(group.name, list.last().name) {
        let rest = list.drop_last();
        let inner = placed_group(rest, group);
        lemma_placed_group(rest, group);
        let at = choose|at: int| 0 <= at < inner.len() && inner[at] == group;
        assert(now[at] == group);
        assert forall|k: int| 0 <= k < list.len() implies now.contains(#[trigger] list[k]) by {
            if k < rest.len() {
                assert(rest[k] == list[k]);
                let i = choose|i: int| 0 <= i < inner.len() && inner[i] == rest[k];
                assert(now[i] == list[k]);
            } else {
                assert(now[inner.len() as int] == list[k]);
            }
        }
    } else {
        assert(now[list.len() as int] == group);
        assert forall|k: int| 0 <= k < list.len() implies now.contains(#[trigger] list[k]) by {
            assert(now[k] == list[k]);
        }
    }
}

proof fn lemma_groups_in_order(list: Seq<AwsGroupView>, n: int, k: int)
    requires
        0 <= k < n <= list.len(),
    ensures
        groups_in_order(list, n).len() == n,
        groups_in_order(list, n).contains(list[k]),
    decreases n,
{
    let before = groups_in_order(list, n - 1);
    lemma_placed_group(before, list[n - 1]);
    if n > 1 {
        lemma_groups_in_order(list, n - 1, if k < n - 1 { k } else { 0 });
    }
    if k < n - 1 {
        let i = choose|i: int| 0 <= i < before.len() && before[i] == list[k];
        assert(before[i] == list[k]);
    }
}

/// What IAM says of a user is taken over: the user's ARN, every group that is named, and that a permissions
/// boundary applies where one does. What of it could not be had is noted.
pub proof fn lemma_users_are_inspected(
    principal: PrincipalContextView,
    user: IamUser,
    groups: Vec<AwsGroup>,
    groups_failure: Option<AwsFailure>,
    evidence: AuthorizationEvidenceView,
    risk_notes: Seq<Seq<char>>,
    k: int,
)
    requires
        principal.kind == "user"@,
        principal.name is Some,
    ensures
        ({
            let result = inspected(
                principal,
                PrincipalAnswer::User { user: Ok(Some(user)), groups, groups_failure },
                evidence,
                risk_notes,
            );
            &&& result.principal.canonical_arn == Some(user.arn@)
            &&& result.principal.tags_complete
            &&& result.principal.raw_arn == principal.raw_arn
            &&& result.evidence.principal is Some
            &&& result.evidence.principal->0.id == principal.raw_arn
            &&& result.evidence.principal->0.canonical_id == Some(user.arn@)
            &&& result.groups.len() == groups@.len()
            &&& 0 <= k < groups@.len() ==> result.groups.contains(groups@[k]@)
                && result.evidence.principal->0.groups.contains(groups@[k]@.name)
            &&& user.has_permissions_boundary ==> result.evidence.limitations.contains(
                "An IAM permissions boundary applies to the principal and may reduce the listed permissions."@,
            )
            &&& groups_failure is Some ==> result.evidence.limitations.contains(
                "IAM group membership could not be completely enumerated."@,
            )
        }),
{
    let answer = PrincipalAnswer::User { user: Ok(Some(user)), groups, groups_failure };
    let result = inspected(principal, answer, evidence, risk_notes);
    let start = first_findings(principal, evidence, risk_notes);
    let middle = after_user(start, Ok(Some(user)));
    lemma_noted_keeps(
        evidence.limitations,
        "An IAM permissions boundary applies to the principal and may reduce the listed permissions."@,
    );
    lemma_noted_keeps(
        middle.evidence.limitations,
        "IAM group membership could not be completely enumerated."@,
    );
    let listed = views(groups@);
    if groups@.len() > 0 {
        lemma_groups_in_order(listed, groups@.len() as int, 0);
    }
    if 0 <= k < groups@.len() {
        lemma_groups_in_order(listed, groups@.len() as int, k);
        assert(listed[k] == groups@[k]@);
        let i = choose|i: int| 0 <= i < result.groups.len() && result.groups[i] == listed[k];
        assert(group_names(result.groups)[i] == groups@[k]@.name);
    }
}

/// What IAM says of the role behind a session is taken over: the role's ARN and its trust policy; where IAM
/// refused, that is a limitation of the evidence.
pub proof fn lemma_roles_are_inspected(
    principal: PrincipalContextView,
    role: Result<Option<IamRole>, AwsFailure>,
    evidence: AuthorizationEvidenceView,
    risk_notes: Seq<Seq<char>>,
)
    requires
        principal.kind == "role"@ || principal.kind == "assumed_role"@,
        principal.name is Some,
    ensures
        ({
            let result = inspected(principal, PrincipalAnswer::Role(role), evidence, risk_notes);
            &&& result.groups.len() == 0
            &&& match role {
                Ok(Some(found)) => result.principal.canonical_arn == Some(found.arn@) && (
                found.has_permissions_boundary ==> result.evidence.limitations.contains(
                    "An IAM permissions boundary applies to the principal and may reduce the listed permissions."@,
                )),
                Ok(None) => result.principal == principal,
                Err(_) => result.principal == principal && result.evidence.limitations.contains(
                    "The backing IAM role could not be resolved from the session ARN."@,
                ),
            }
        }),
{
    lemma_noted_keeps(
        evidence.limitations,
        "An IAM permissions boundary applies to the principal and may reduce the listed permissions."@,
    );
    lemma_noted_keeps(
        evidence.limitations,
        "The backing IAM role could not be resolved from the session ARN."@,
    );
    reveal_strlit("role");
    reveal_strlit("assumed_role");
    reveal_strlit("user");
    assert("role"@.len() == 4 && "user"@.len() == 4 && "role"@[0] == 'r' && "user"@[0] == 'u');
}

/// The policies of a user count together with those of the user's groups, those of a role alone, and a
/// principal of any other kind has none. A role without permissions of its own is shown with all actions
/// that were found, and a user without roles as one binding of all of them.
pub proof fn lemma_principals_are_expanded(
    principal: PrincipalContextView,
    own: PolicyListing,
    groups: Seq<GroupPolicies>,
    roles: Seq<RoleBindingView>,
    evidence: AuthorizationEvidenceView,
    notes: Seq<Seq<char>>,
    k: int,
)
    ensures
        ({
            let result = expanded(principal, own, groups, roles, evidence, notes);
            let found = principal_collection(
                principal,
                own,
                groups,
                evidence,
                notes_on_session(principal.raw_arn, notes),
            );
            let actions = final_actions(found.actions, found.flags);
            &&& result.permissions == classified(actions)
            &&& principal.kind != "user"@ && principal.kind != "role"@ && principal.kind
                != "assumed_role"@ ==> found.actions.len() == 0 && found.evidence == evidence
            &&& 0 <= k < roles.len() ==> result.roles.len() == roles.len() && result.roles[k].name
                == roles[k].name && (roles[k].permissions.len() == 0 ==> result.roles[k].permissions
                == actions) && (roles[k].permissions.len() > 0 ==> result.roles[k] == roles[k])
            &&& roles.len() == 0 && principal.kind == "user"@ ==> result.roles.len() == 1
                && result.roles[0].permissions == actions
            &&& holds(principal.raw_arn, ":assumed-role/AWSReservedSSO_"@) ==> notes_on_session(
                principal.raw_arn,
                notes,
            ).len() == notes.len() + 1
        }),
{
    let result = expanded(principal, own, groups, roles, evidence, notes);
    if roles.len() == 0 && principal.kind == "user"@ {
        assert(result.roles.len() == 1);
    }
}

} // verus!
