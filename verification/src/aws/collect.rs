//! What the policies of an IAM entity grant, from what IAM answered.

use vstd::prelude::*;
use crate::aws::evidence::{
    add_policy_evidence, document_error, inline_source, managed_source, with_document, PolicySource,
    PolicySourceView,
};
use crate::aws::policy::{
    action_text, decoded_policy, effect_reads, extract_actions_from_document,
    lemma_policies_grant_what_they_allow, policy_actions, policy_flags, statement_list,
    PolicyDocumentFlags, PolicyDocumentFlagsView,
};
use crate::model::{AuthorizationEvidence, AuthorizationEvidenceView};
use crate::notes::{lemma_noted_keeps, note_if, noted, noted_if, push_unique_note};
use crate::text::{
    ascii_lower, cat2, cat3, cat4, cat5, contains, copy_opt, holds, opt_text, str_eq, texts,
    to_ascii_lowercase,
};
use crate::json::{field, states, Json};

verus! {

/// What an AWS call that failed reports: its error code and message, where it has them, and the
/// error as it is displayed.
#[derive(Debug)]
pub struct AwsFailure {
    pub code: Option<String>,
    pub message: Option<String>,
    pub display: String,
}

/// How a failure is worded.
pub open spec fn failure_text(failure: AwsFailure) -> Seq<char> {
    match (failure.code, failure.message) {
        (Some(code), Some(message)) => code@ + ": "@ + message@,
        (Some(code), None) => code@,
        _ => failure.display@,
    }
}

pub fn iam_error_message(failure: &AwsFailure) -> (message: String)
    ensures
        message@ == failure_text(*failure),
{
    match (&failure.code, &failure.message) {
        (Some(code), Some(message)) => cat3(code.as_str(), ": ", message.as_str()),
        (Some(code), None) => code.clone(),
        _ => failure.display.clone(),
    }
}

/// Whether a message speaks of missing access.
pub open spec fn speaks_of_denial(message: Seq<char>) -> bool {
    let lower = ascii_lower(message);
    holds(lower, "accessdenied"@) || holds(lower, "unauthorizedoperation"@) || holds(
        lower,
        "notauthorized"@,
    )
}

pub fn is_access_denied(message: &str) -> (yes: bool)
    ensures
        yes == speaks_of_denial(message@),
{
    let lower = to_ascii_lowercase(message);
    contains(lower.as_str(), "accessdenied") || contains(lower.as_str(), "unauthorizedoperation")
        || contains(lower.as_str(), "notauthorized")
}

/// Whether an error code, in lower case, is one of missing access.
pub open spec fn is_denial_code(code: Seq<char>) -> bool {
    code == "accessdenied"@ || code == "accessdeniedexception"@ || code == "notauthorized"@ || code
        == "notauthorizedexception"@ || code == "unauthorizedoperation"@
}

/// Whether a call failed for want of access.
pub open spec fn denied_access(failure: AwsFailure) -> bool {
    (failure.code matches Some(code) && is_denial_code(ascii_lower(code@))) || speaks_of_denial(
        failure_text(failure),
    )
}

pub fn iam_error_is_access_denied(failure: &AwsFailure) -> (yes: bool)
    ensures
        yes == denied_access(*failure),
{
    let by_code: bool = match &failure.code {
        Some(code) => {
            let lower = to_ascii_lowercase(code.as_str());
            let code = lower.as_str();
            str_eq(code, "accessdenied") || str_eq(code, "accessdeniedexception") || str_eq(
                code,
                "notauthorized",
            ) || str_eq(code, "notauthorizedexception") || str_eq(code, "unauthorizedoperation")
        },
        None => false,
    };
    by_code || is_access_denied(iam_error_message(failure).as_str())
}

/// The notes after an IAM call failed.
pub open spec fn notes_after_failure(notes: Seq<Seq<char>>, failure: AwsFailure) -> Seq<Seq<char>> {
    noted_if(
        notes,
        denied_access(failure),
        "IAM policy enumeration blocked: the caller does not have iam:Get* or iam:List* permissions. Permissions incomplete."@,
    )
}

/// The notes after an IAM call that may have failed.
pub open spec fn notes_after(notes: Seq<Seq<char>>, failure: Option<AwsFailure>) -> Seq<Seq<char>> {
    match failure {
        Some(found) => notes_after_failure(notes, found),
        None => notes,
    }
}

/// Notes a failure, and words it with what was being done.
pub fn map_iam_error(failure: &AwsFailure, risk_notes: &mut Vec<String>, context: &str) -> (error: String)
    ensures
        error@ == context@ + ": "@ + failure_text(*failure),
        texts(final(risk_notes)@) == notes_after_failure(texts(old(risk_notes)@), *failure),
{
    record_iam_error(failure, risk_notes);
    cat3(context, ": ", iam_error_message(failure).as_str())
}

pub fn record_iam_error(failure: &AwsFailure, risk_notes: &mut Vec<String>)
    ensures
        texts(final(risk_notes)@) == notes_after_failure(texts(old(risk_notes)@), *failure),
{
    note_if(
        risk_notes,
        iam_error_is_access_denied(failure),
        "IAM policy enumeration blocked: the caller does not have iam:Get* or iam:List* permissions. Permissions incomplete.",
    );
}

fn record_optional(failure: &Option<AwsFailure>, risk_notes: &mut Vec<String>)
    ensures
        texts(final(risk_notes)@) == notes_after(texts(old(risk_notes)@), *failure),
{
    match failure {
        Some(found) => record_iam_error(found, risk_notes),
        None => {},
    }
}

/// What IAM answered when a managed policy was fetched.
#[derive(Debug)]
pub enum ManagedOutcome {
    /// The policy could not be had.
    PolicyFailed(AwsFailure),
    /// The policy has no default version.
    NoVersion,
    /// The default version could not be had.
    VersionFailed { version: String, failure: AwsFailure },
    /// The default version, and its document where it has one.
    Fetched { version: String, document: Option<String> },
}

/// A managed policy that is attached to an entity.
#[derive(Debug)]
pub struct ManagedPolicyFetch {
    pub arn: Option<String>,
    pub name: Option<String>,
    pub outcome: ManagedOutcome,
}

/// An inline policy of an entity.
#[derive(Debug)]
pub struct InlinePolicyFetch {
    pub name: String,
    pub document: Result<String, AwsFailure>,
}

/// The policies of an entity, up to the first call that failed in each of both listings.
#[derive(Debug)]
pub struct PolicyListing {
    pub attached: Vec<ManagedPolicyFetch>,
    pub attached_failure: Option<AwsFailure>,
    pub inline: Vec<InlinePolicyFetch>,
    pub inline_failure: Option<AwsFailure>,
}

/// What was collected from policies so far.
pub struct PolicyCollection {
    pub actions: Vec<String>,
    pub flags: PolicyDocumentFlags,
    pub evidence: AuthorizationEvidence,
    pub risk_notes: Vec<String>,
}

/// What a `PolicyCollection` says.
#[verifier::ext_equal]
pub struct PolicyCollectionView {
    pub actions: Seq<Seq<char>>,
    pub flags: PolicyDocumentFlagsView,
    pub evidence: AuthorizationEvidenceView,
    pub risk_notes: Seq<Seq<char>>,
}

impl View for PolicyCollection {
    type V = PolicyCollectionView;

    open spec fn view(&self) -> PolicyCollectionView {
        PolicyCollectionView {
            actions: texts(self.actions@),
            flags: self.flags@,
            evidence: self.evidence@,
            risk_notes: texts(self.risk_notes@),
        }
    }
}

/// The entity whose policies are collected.
#[derive(Debug)]
pub struct PolicyOwner {
    /// `role`, `user` or `group`.
    pub kind: String,
    pub name: String,
    pub attached_to: String,
    pub attached_via: Option<String>,
}

/// What a `PolicyOwner` says.
#[verifier::ext_equal]
pub struct PolicyOwnerView {
    pub kind: Seq<char>,
    pub name: Seq<char>,
    pub attached_to: Seq<char>,
    pub attached_via: Option<Seq<char>>,
}

impl View for PolicyOwner {
    type V = PolicyOwnerView;

    open spec fn view(&self) -> PolicyOwnerView {
        PolicyOwnerView {
            kind: self.kind@,
            name: self.name@,
            attached_to: self.attached_to@,
            attached_via: opt_text(self.attached_via),
        }
    }
}

/// What was collected after a policy document: its actions and limits, and the policy as evidence.
/// A document that cannot be read adds nothing.
pub open spec fn with_policy_document(
    collection: PolicyCollectionView,
    document: Seq<char>,
    source: PolicySourceView,
) -> PolicyCollectionView {
    match decoded_policy(document) {
        Ok(policy) => PolicyCollectionView {
            actions: policy_actions(policy, collection.actions),
            flags: policy_flags(policy, collection.flags),
            evidence: with_document(collection.evidence, document, source),
            risk_notes: collection.risk_notes,
        },
        Err(_) => collection,
    }
}

/// What was collected with one more note.
pub open spec fn with_note(collection: PolicyCollectionView, note: Seq<char>) -> PolicyCollectionView {
    PolicyCollectionView { risk_notes: noted(collection.risk_notes, note), ..collection }
}

/// What was collected after a managed policy, and the error where there is one.
pub open spec fn managed_after(
    collection: PolicyCollectionView,
    arn: Seq<char>,
    fetch: ManagedPolicyFetch,
    owner: PolicyOwnerView,
) -> (PolicyCollectionView, Option<Seq<char>>) {
    match fetch.outcome {
        ManagedOutcome::PolicyFailed(failure) => (
            PolicyCollectionView {
                risk_notes: notes_after_failure(collection.risk_notes, failure),
                ..collection
            },
            Some("get_policy failed for "@ + arn + ": "@ + failure_text(failure)),
        ),
        ManagedOutcome::NoVersion => (
            collection,
            Some("Managed policy "@ + arn + " missing default version"@),
        ),
        ManagedOutcome::VersionFailed { version, failure } => (
            PolicyCollectionView {
                risk_notes: notes_after_failure(collection.risk_notes, failure),
                ..collection
            },
            Some(
                "get_policy_version failed for "@ + arn + " version "@ + version@ + ": "@
                    + failure_text(failure),
            ),
        ),
        ManagedOutcome::Fetched { version, document } => match document {
            None => (collection, None),
            Some(text) => {
                let source = managed_source(
                    arn,
                    opt_text(fetch.name),
                    version@,
                    owner.attached_to,
                    owner.attached_via,
                );
                (
                    with_policy_document(collection, text@, source),
                    match decoded_policy(text@) {
                        Ok(_) => document_error(collection.evidence, text@, source),
                        Err(error) => Some(error),
                    },
                )
            },
        },
    }
}

pub fn collect_managed_policy_actions(
    collection: PolicyCollection,
    policy_arn: &str,
    fetch: &ManagedPolicyFetch,
    owner: &PolicyOwner,
) -> (next: (PolicyCollection, Option<String>))
    ensures
        next.0@ == managed_after(collection@, policy_arn@, *fetch, owner@).0,
        opt_text(next.1) == managed_after(collection@, policy_arn@, *fetch, owner@).1,
{
    let mut next = collection;
    match &fetch.outcome {
        ManagedOutcome::PolicyFailed(failure) => {
            let context = cat2("get_policy failed for ", policy_arn);
            let error = map_iam_error(failure, &mut next.risk_notes, context.as_str());
            (next, Some(error))
        },
        ManagedOutcome::NoVersion => {
            (next, Some(cat3("Managed policy ", policy_arn, " missing default version")))
        },
        ManagedOutcome::VersionFailed { version, failure } => {
            let context = cat4("get_policy_version failed for ", policy_arn, " version ", version.as_str());
            let error = map_iam_error(failure, &mut next.risk_notes, context.as_str());
            (next, Some(error))
        },
        ManagedOutcome::Fetched { version, document } => match document {
            None => (next, None),
            Some(text) => {
                match extract_actions_from_document(text.as_str(), &mut next.actions, &mut next.flags) {
                    Err(error) => (next, Some(error)),
                    Ok(_) => {
                        let source = PolicySource::managed(
                            policy_arn,
                            copy_opt(&fetch.name),
                            version.as_str(),
                            owner.attached_to.as_str(),
                            copy_opt(&owner.attached_via),
                        );
                        match add_policy_evidence(text.as_str(), source, &mut next.evidence) {
                            Err(error) => (next, Some(error)),
                            Ok(_) => (next, None),
                        }
                    },
                }
            },
        },
    }
}

/// What was collected after an attached policy: a policy without an ARN is passed over, and an
/// error becomes a note.
pub open spec fn attached_after(
    collection: PolicyCollectionView,
    fetch: ManagedPolicyFetch,
    owner: PolicyOwnerView,
) -> PolicyCollectionView {
    match fetch.arn {
        None => collection,
        Some(arn) => {
            let next = managed_after(collection, arn@, fetch, owner);
            match next.1 {
                Some(error) => with_note(next.0, "IAM enumeration incomplete: "@ + error),
                None => next.0,
            }
        },
    }
}

fn collect_attached(collection: PolicyCollection, fetch: &ManagedPolicyFetch, owner: &PolicyOwner) -> (next: PolicyCollection)
    ensures
        next@ == attached_after(collection@, *fetch, owner@),
{
    match &fetch.arn {
        None => collection,
        Some(arn) => {
            let (found, error) = collect_managed_policy_actions(collection, arn.as_str(), fetch, owner);
            let mut next = found;
            match error {
                Some(text) => push_unique_note(
                    &mut next.risk_notes,
                    cat2("IAM enumeration incomplete: ", text.as_str()),
                ),
                None => {},
            }
            next
        },
    }
}

/// How trouble with an inline policy is worded.
pub open spec fn inline_note(verb: Seq<char>, name: Seq<char>, owner: PolicyOwnerView, error: Seq<char>) -> Seq<char> {
    "Failed to "@ + verb + " inline policy "@ + name + (" for "@ + owner.kind + " "@ + owner.name + ": "@ + error)
}

fn word_inline(verb: &str, name: &str, owner: &PolicyOwner, error: &str) -> (note: String)
    ensures
        note@ == inline_note(verb@, name@, owner@, error@),
{
    let head = cat4("Failed to ", verb, " inline policy ", name);
    let middle = cat5(" for ", owner.kind.as_str(), " ", owner.name.as_str(), ": ");
    let tail = cat2(middle.as_str(), error);
    cat2(head.as_str(), tail.as_str())
}

/// What was collected after an inline policy.
pub open spec fn inline_after(
    collection: PolicyCollectionView,
    fetch: InlinePolicyFetch,
    owner: PolicyOwnerView,
) -> PolicyCollectionView {
    match fetch.document {
        Err(failure) => PolicyCollectionView {
            risk_notes: notes_after_failure(collection.risk_notes, failure),
            ..collection
        },
        Ok(document) => match decoded_policy(document@) {
            Err(error) => with_note(collection, inline_note("parse"@, fetch.name@, owner, error)),
            Ok(_) => {
                let source = inline_source(fetch.name@, owner.attached_to, owner.attached_via);
                let next = with_policy_document(collection, document@, source);
                match document_error(collection.evidence, document@, source) {
                    Some(error) => with_note(next, inline_note("retain"@, fetch.name@, owner, error)),
                    None => next,
                }
            },
        },
    }
}

fn collect_inline(collection: PolicyCollection, fetch: &InlinePolicyFetch, owner: &PolicyOwner) -> (next: PolicyCollection)
    ensures
        next@ == inline_after(collection@, *fetch, owner@),
{
    let mut next = collection;
    match &fetch.document {
        Err(failure) => record_iam_error(failure, &mut next.risk_notes),
        Ok(document) => {
            match extract_actions_from_document(document.as_str(), &mut next.actions, &mut next.flags) {
                Err(error) => {
                    let note = word_inline("parse", fetch.name.as_str(), owner, error.as_str());
                    push_unique_note(&mut next.risk_notes, note);
                },
                Ok(_) => {
                    let source = PolicySource::inline(
                        fetch.name.as_str(),
                        owner.attached_to.as_str(),
                        copy_opt(&owner.attached_via),
                    );
                    match add_policy_evidence(document.as_str(), source, &mut next.evidence) {
                        Err(error) => {
                            let note = word_inline("retain", fetch.name.as_str(), owner, error.as_str());
                            push_unique_note(&mut next.risk_notes, note);
                        },
                        Ok(_) => {},
                    }
                },
            }
        },
    }
    next
}

/// What was collected after the first `n` attached policies.
pub open spec fn attached_upto(
    collection: PolicyCollectionView,
    list: Seq<ManagedPolicyFetch>,
    owner: PolicyOwnerView,
    n: int,
) -> PolicyCollectionView
    decreases n,
{
    if n <= 0 {
        collection
    } else {
        attached_after(attached_upto(collection, list, owner, n - 1), list[n - 1], owner)
    }
}

/// What was collected after the first `n` inline policies.
pub open spec fn inline_upto(
    collection: PolicyCollectionView,
    list: Seq<InlinePolicyFetch>,
    owner: PolicyOwnerView,
    n: int,
) -> PolicyCollectionView
    decreases n,
{
    if n <= 0 {
        collection
    } else {
        inline_after(inline_upto(collection, list, owner, n - 1), list[n - 1], owner)
    }
}

/// What was collected after a listing may have failed.
pub open spec fn after_listing(collection: PolicyCollectionView, failure: Option<AwsFailure>) -> PolicyCollectionView {
    PolicyCollectionView { risk_notes: notes_after(collection.risk_notes, failure), ..collection }
}

/// What was collected after the policies of an entity: the attached ones first, then the inline
/// ones.
pub open spec fn listing_after(
    collection: PolicyCollectionView,
    listing: PolicyListing,
    owner: PolicyOwnerView,
) -> PolicyCollectionView {
    let attached = after_listing(
        attached_upto(collection, listing.attached@, owner, listing.attached@.len() as int),
        listing.attached_failure,
    );
    after_listing(
        inline_upto(attached, listing.inline@, owner, listing.inline@.len() as int),
        listing.inline_failure,
    )
}

pub fn collect_listing(collection: PolicyCollection, listing: &PolicyListing, owner: &PolicyOwner) -> (next: PolicyCollection)
    ensures
        next@ == listing_after(collection@, *listing, owner@),
{
    let ghost start = collection@;
    let mut next = collection;
    let mut i: usize = 0;
    while i < listing.attached.len()
        invariant
            i <= listing.attached@.len(),
            next@ == attached_upto(start, listing.attached@, owner@, i as int),
        decreases listing.attached@.len() - i,
    {
        next = collect_attached(next, &listing.attached[i], owner);
        i = i + 1;
    }
    record_optional(&listing.attached_failure, &mut next.risk_notes);
    let ghost middle = next@;
    let mut j: usize = 0;
    while j < listing.inline.len()
        invariant
            j <= listing.inline@.len(),
            next@ == inline_upto(middle, listing.inline@, owner@, j as int),
        decreases listing.inline@.len() - j,
    {
        next = collect_inline(next, &listing.inline[j], owner);
        j = j + 1;
    }
    record_optional(&listing.inline_failure, &mut next.risk_notes);
    next
}

/// A role as the owner of policies.
pub open spec fn role_owner(name: Seq<char>, arn: Seq<char>) -> PolicyOwnerView {
    PolicyOwnerView { kind: "role"@, name, attached_to: arn, attached_via: None }
}

pub fn collect_role_actions(
    collection: PolicyCollection,
    role_name: &str,
    role_arn: &str,
    listing: &PolicyListing,
) -> (next: PolicyCollection)
    ensures
        next@ == listing_after(collection@, *listing, role_owner(role_name@, role_arn@)),
{
    let owner = PolicyOwner {
        kind: "role".to_owned(),
        name: role_name.to_owned(),
        attached_to: role_arn.to_owned(),
        attached_via: None,
    };
    collect_listing(collection, listing, &owner)
}

/// A group that a user belongs to.
#[derive(Debug)]
pub struct AwsGroup {
    pub name: String,
    pub arn: String,
}

/// What an `AwsGroup` says.
#[verifier::ext_equal]
pub struct AwsGroupView {
    pub name: Seq<char>,
    pub arn: Seq<char>,
}

impl View for AwsGroup {
    type V = AwsGroupView;

    open spec fn view(&self) -> AwsGroupView {
        AwsGroupView { name: self.name@, arn: self.arn@ }
    }
}

/// A user as the owner of policies.
pub open spec fn user_owner(name: Seq<char>, arn: Seq<char>) -> PolicyOwnerView {
    PolicyOwnerView { kind: "user"@, name, attached_to: arn, attached_via: None }
}

/// A group of a user as the owner of policies.
pub open spec fn group_owner(group: AwsGroupView, user_arn: Seq<char>) -> PolicyOwnerView {
    PolicyOwnerView {
        kind: "group"@,
        name: group.name,
        attached_to: group.arn,
        attached_via: Some(user_arn),
    }
}

/// A group of a user, with its policies.
#[derive(Debug)]
pub struct GroupPolicies {
    pub group: AwsGroup,
    pub listing: PolicyListing,
}

/// What was collected after the first `n` groups of a user.
pub open spec fn groups_upto(
    collection: PolicyCollectionView,
    groups: Seq<GroupPolicies>,
    user_arn: Seq<char>,
    n: int,
) -> PolicyCollectionView
    decreases n,
{
    if n <= 0 {
        collection
    } else {
        listing_after(
            groups_upto(collection, groups, user_arn, n - 1),
            groups[n - 1].listing,
            group_owner(groups[n - 1].group@, user_arn),
        )
    }
}

pub fn collect_user_group_actions(
    collection: PolicyCollection,
    user_arn: &str,
    groups: &Vec<GroupPolicies>,
) -> (next: PolicyCollection)
    ensures
        next@ == groups_upto(collection@, groups@, user_arn@, groups@.len() as int),
{
    let ghost start = collection@;
    let mut next = collection;
    let mut i: usize = 0;
    while i < groups.len()
        invariant
            i <= groups@.len(),
            next@ == groups_upto(start, groups@, user_arn@, i as int),
        decreases groups@.len() - i,
    {
        let owner = PolicyOwner {
            kind: "group".to_owned(),
            name: groups[i].group.name.clone(),
            attached_to: groups[i].group.arn.clone(),
            attached_via: Some(user_arn.to_owned()),
        };
        next = collect_listing(next, &groups[i].listing, &owner);
        i = i + 1;
    }
    next
}

pub fn collect_user_actions(
    collection: PolicyCollection,
    user_name: &str,
    user_arn: &str,
    listing: &PolicyListing,
    groups: &Vec<GroupPolicies>,
) -> (next: PolicyCollection)
    ensures
        next@ == groups_upto(
            listing_after(collection@, *listing, user_owner(user_name@, user_arn@)),
            groups@,
            user_arn@,
            groups@.len() as int,
        ),
{
    let owner = PolicyOwner {
        kind: "user".to_owned(),
        name: user_name.to_owned(),
        attached_to: user_arn.to_owned(),
        attached_via: None,
    };
    let own = collect_listing(collection, listing, &owner);
    collect_user_group_actions(own, user_arn, groups)
}

/// Nothing that was collected is lost as more is.
pub open spec fn kept_actions(before: PolicyCollectionView, after: PolicyCollectionView) -> bool {
    forall|action: Seq<char>| #[trigger]
        before.actions.contains(action) ==> after.actions.contains(action)
}

proof fn lemma_attached_keeps(
    collection: PolicyCollectionView,
    list: Seq<ManagedPolicyFetch>,
    owner: PolicyOwnerView,
    n: int,
)
    requires
        0 <= n <= list.len(),
    ensures
        kept_actions(collection, attached_upto(collection, list, owner, n)),
        forall|k: int, action: Seq<char>|
            0 <= k < n && (#[trigger] managed_policy(list[k])) is Some && #[trigger] policy_actions(
                managed_policy(list[k])->0,
                Seq::empty(),
            ).contains(action) ==> attached_upto(collection, list, owner, n).actions.contains(action),
    decreases n,
{
    if n > 0 {
        lemma_attached_keeps(collection, list, owner, n - 1);
        let before = attached_upto(collection, list, owner, n - 1);
        let now = attached_upto(collection, list, owner, n);
        match managed_policy(list[n - 1]) {
            Some(policy) => {
                assert(now.actions == policy_actions(policy, before.actions));
                lemma_policy_added(policy, before.actions);
            },
            None => {
                assert(now.actions == before.actions);
            },
        }
    }
}

proof fn lemma_policy_added(policy: Json, actions: Seq<Seq<char>>)
    ensures
        forall|action: Seq<char>| #[trigger]
            actions.contains(action) ==> policy_actions(policy, actions).contains(action),
        forall|action: Seq<char>| #[trigger]
            policy_actions(policy, Seq::empty()).contains(action) ==> policy_actions(
                policy,
                actions,
            ).contains(action),
{
    assert forall|action: Seq<char>| #[trigger] actions.contains(action) implies policy_actions(
        policy,
        actions,
    ).contains(action) by {
        lemma_policies_grant_what_they_allow(policy, actions, action);
    }
    assert forall|action: Seq<char>| #[trigger]
        policy_actions(policy, Seq::empty()).contains(action) implies policy_actions(
        policy,
        actions,
    ).contains(action) by {
        lemma_policies_grant_what_they_allow(policy, Seq::empty(), action);
        lemma_policies_grant_what_they_allow(policy, actions, action);
        let k = choose|k: int|
            0 <= k < statement_list(policy).len() && effect_reads(
                #[trigger] statement_list(policy)[k],
                "allow"@,
            ) && ((action == "*"@ && field(statement_list(policy)[k], "NotAction"@) is Some) || exists|
                name: Seq<char>,
            | #[trigger]
                states(field(statement_list(policy)[k], "Action"@), name) && action == action_text(name));
        if exists|name: Seq<char>| #[trigger]
            states(field(statement_list(policy)[k], "Action"@), name) && action == action_text(name) {
            let name = choose|name: Seq<char>| #[trigger]
                states(field(statement_list(policy)[k], "Action"@), name) && action == action_text(name);
            assert(effect_reads(statement_list(policy)[k], "allow"@));
            assert(states(field(statement_list(policy)[k], "Action"@), name));
        } else {
            assert(effect_reads(statement_list(policy)[k], "allow"@));
        }
    }
}

/// The policy that was fetched for a managed policy, where it came and can be read.
pub open spec fn managed_policy(fetch: ManagedPolicyFetch) -> Option<Json> {
    match (fetch.arn, fetch.outcome) {
        (Some(_), ManagedOutcome::Fetched { version: _, document: Some(text) }) => match decoded_policy(
            text@,
        ) {
            Ok(policy) => Some(policy),
            Err(_) => None,
        },
        _ => None,
    }
}

/// The policy that was fetched for an inline policy, where it came and can be read.
pub open spec fn inline_policy(fetch: InlinePolicyFetch) -> Option<Json> {
    match fetch.document {
        Ok(text) => match decoded_policy(text@) {
            Ok(policy) => Some(policy),
            Err(_) => None,
        },
        Err(_) => None,
    }
}

proof fn lemma_inline_keeps(
    collection: PolicyCollectionView,
    list: Seq<InlinePolicyFetch>,
    owner: PolicyOwnerView,
    n: int,
)
    requires
        0 <= n <= list.len(),
    ensures
        kept_actions(collection, inline_upto(collection, list, owner, n)),
        forall|k: int, action: Seq<char>|
            0 <= k < n && (#[trigger] inline_policy(list[k])) is Some && #[trigger] policy_actions(
                inline_policy(list[k])->0,
                Seq::empty(),
            ).contains(action) ==> inline_upto(collection, list, owner, n).actions.contains(action),
    decreases n,
{
    if n > 0 {
        lemma_inline_keeps(collection, list, owner, n - 1);
        let before = inline_upto(collection, list, owner, n - 1);
        let now = inline_upto(collection, list, owner, n);
        match inline_policy(list[n - 1]) {
            Some(policy) => {
                assert(now.actions == policy_actions(policy, before.actions));
                lemma_policy_added(policy, before.actions);
            },
            None => {
                assert(now.actions == before.actions);
            },
        }
    }
}

/// Every policy counts: each action that an attached or an inline policy of an entity grants, whichever
/// of them it is, is among the actions that are collected, and none that was there is lost.
pub proof fn lemma_every_policy_counts(
    collection: PolicyCollectionView,
    listing: PolicyListing,
    owner: PolicyOwnerView,
    action: Seq<char>,
)
    ensures
        collection.actions.contains(action) ==> listing_after(
            collection,
            listing,
            owner,
        ).actions.contains(action),
        forall|k: int|
            0 <= k < listing.attached@.len() && (#[trigger] managed_policy(listing.attached@[k])) is Some
                && policy_actions(
                managed_policy(listing.attached@[k])->0,
                Seq::empty(),
            ).contains(action) ==> listing_after(collection, listing, owner).actions.contains(action),
        forall|k: int|
            0 <= k < listing.inline@.len() && (#[trigger] inline_policy(listing.inline@[k])) is Some
                && policy_actions(
                inline_policy(listing.inline@[k])->0,
                Seq::empty(),
            ).contains(action) ==> listing_after(collection, listing, owner).actions.contains(action),
{
    let n = listing.attached@.len() as int;
    let m = listing.inline@.len() as int;
    lemma_attached_keeps(collection, listing.attached@, owner, n);
    let middle = after_listing(
        attached_upto(collection, listing.attached@, owner, n),
        listing.attached_failure,
    );
    lemma_inline_keeps(middle, listing.inline@, owner, m);
    let last = inline_upto(middle, listing.inline@, owner, m);
    assert(middle.actions == attached_upto(collection, listing.attached@, owner, n).actions);
    assert(listing_after(collection, listing, owner).actions == last.actions);
    assert(middle.actions.contains(action) ==> last.actions.contains(action));
}

/// The policies of every group that a user is in count, whichever group it is.
pub proof fn lemma_every_group_counts(
    collection: PolicyCollectionView,
    groups: Seq<GroupPolicies>,
    user_arn: Seq<char>,
    n: int,
    g: int,
    action: Seq<char>,
)
    requires
        0 <= n <= groups.len(),
    ensures
        collection.actions.contains(action) ==> groups_upto(
            collection,
            groups,
            user_arn,
            n,
        ).actions.contains(action),
        0 <= g < n ==> forall|k: int|
            0 <= k < groups[g].listing.attached@.len() && (#[trigger] managed_policy(
                groups[g].listing.attached@[k],
            )) is Some && policy_actions(
                managed_policy(groups[g].listing.attached@[k])->0,
                Seq::empty(),
            ).contains(action) ==> groups_upto(collection, groups, user_arn, n).actions.contains(action),
        0 <= g < n ==> forall|k: int|
            0 <= k < groups[g].listing.inline@.len() && (#[trigger] inline_policy(
                groups[g].listing.inline@[k],
            )) is Some && policy_actions(
                inline_policy(groups[g].listing.inline@[k])->0,
                Seq::empty(),
            ).contains(action) ==> groups_upto(collection, groups, user_arn, n).actions.contains(action),
    decreases n,
{
    if n > 0 {
        lemma_every_group_counts(collection, groups, user_arn, n - 1, g, action);
        lemma_every_policy_counts(
            groups_upto(collection, groups, user_arn, n - 1),
            groups[n - 1].listing,
            group_owner(groups[n - 1].group@, user_arn),
            action,
        );
    }
}

/// A call that was refused for want of access leaves a note that the permissions are incomplete.
pub proof fn lemma_refusals_are_noted(notes: Seq<Seq<char>>, failure: AwsFailure)
    ensures
        failure.code is Some && (ascii_lower(failure.code->0@) == "accessdenied"@ || ascii_lower(
            failure.code->0@,
        ) == "accessdeniedexception"@ || ascii_lower(failure.code->0@) == "unauthorizedoperation"@)
            ==> notes_after_failure(notes, failure).contains(
            "IAM policy enumeration blocked: the caller does not have iam:Get* or iam:List* permissions. Permissions incomplete."@,
        ),
        failure.code is None && holds(ascii_lower(failure.display@), "accessdenied"@)
            ==> notes_after_failure(notes, failure).contains(
            "IAM policy enumeration blocked: the caller does not have iam:Get* or iam:List* permissions. Permissions incomplete."@,
        ),
{
    lemma_noted_keeps(
        notes,
        "IAM policy enumeration blocked: the caller does not have iam:Get* or iam:List* permissions. Permissions incomplete."@,
    );
}

} // verus!
