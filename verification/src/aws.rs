//! AWS: policies, role paths and the resources that an access key reaches.

pub mod collect;
pub mod credentials;
pub mod discovery;
pub mod evidence;
pub mod identity;
pub mod paths;
pub mod policy;
pub mod principal;
pub mod resources;
pub mod severity;
pub mod trust;

use vstd::prelude::*;
use crate::aws::evidence::{truncate_authorization_evidence, truncated};
use crate::aws::identity::{
    arn_roles, authorizing_arn, bare_principal, classify_identity, derive_roles_from_arn,
    identity_kind, lemma_identity_kinds, PrincipalContext, PrincipalContextView,
};
use crate::aws::resources::{none_known, Exposures, ExposuresView};
use crate::aws::severity::{
    derive_severity, higher, identity_severity, lemma_gravest_permission_decides, max_severity,
    permission_count, reachable_severity, severity_for_reachable_permissions,
};
use crate::mapping::{
    build_default_account_resource, build_recommendations, default_account_resource,
    recommendations,
};
use crate::model::{
    binding, empty_access_token_details, empty_authorization_evidence, no_views, one_view, views,
    AccessMapResult, AccessMapResultView, AccessSummary, AccessSummaryView, AccessTokenDetails,
    AccessTokenDetailsView, AuthorizationEvidence, AuthorizationEvidenceView, HierarchyScope,
    HierarchyScopeView, PermissionSummary, PermissionSummaryView, ProviderMetadata,
    ProviderMetadataView, ResourceExposure, RoleBinding, RoleBindingView, Severity,
};
use crate::text::{
    cat3, contains, copy_opt, decimal, either, holds, no_texts, opt_text, or_text, push_text,
    str_eq, texts, usize_text,
};

verus! {

/// What is known of a credential once its caller is.
pub struct CallerStart {
    pub arn: String,
    pub roles: Vec<RoleBinding>,
    pub principal: PrincipalContext,
    pub evidence: AuthorizationEvidence,
}

/// The evidence that an account is.
pub open spec fn account_evidence(account: Option<Seq<char>>) -> AuthorizationEvidenceView {
    AuthorizationEvidenceView {
        hierarchy: match account {
            Some(id) => seq![HierarchyScopeView { kind: "account"@, id }],
            None => Seq::empty(),
        },
        ..empty_authorization_evidence()
    }
}

/// Begins a mapping with the caller that STS names.
pub fn begin_mapping(arn: Option<String>, account_id: Option<String>, user_id: Option<String>) -> (start: Result<CallerStart, String>)
    ensures
        match start {
            Ok(begun) => {
                &&& arn matches Some(name)
                &&& begun.arn@ == name@
                &&& views(begun.roles@) == arn_roles(name@)
                &&& begun.principal@ == bare_principal(
                    name@,
                    opt_text(account_id),
                    opt_text(user_id),
                    identity_kind(name@),
                )
                &&& begun.evidence@ == account_evidence(opt_text(account_id))
            },
            Err(error) => arn is None && error@ == "AWS GetCallerIdentity response missing ARN"@,
        },
{
    match arn {
        None => Err("AWS GetCallerIdentity response missing ARN".to_owned()),
        Some(name) => {
            let kind = classify_identity(name.as_str());
            let mut evidence = AuthorizationEvidence::default();
            evidence.hierarchy = match &account_id {
                Some(id) => one_view(
                    HierarchyScope { kind: "account".to_owned(), id: id.clone() },
                ),
                None => no_views(),
            };
            Ok(
                CallerStart {
                    roles: derive_roles_from_arn(name.as_str()),
                    principal: PrincipalContext::new(name.clone(), account_id, user_id, kind),
                    arn: name,
                    evidence,
                },
            )
        },
    }
}

/// How severe what was found is.
pub open spec fn found_severity(
    kind: Seq<char>,
    permissions: PermissionSummaryView,
    reachable: PermissionSummaryView,
    has_resources: bool,
) -> Severity {
    higher(identity_severity(kind, permissions, has_resources), reachable_severity(reachable))
}

/// The notes with those that close a mapping.
pub open spec fn closing_notes(
    notes: Seq<Seq<char>>,
    arn: Seq<char>,
    permissions: PermissionSummaryView,
    reachable: PermissionSummaryView,
) -> Seq<Seq<char>> {
    let kind = identity_kind(arn);
    let reached = if none_known(reachable) {
        notes
    } else {
        notes.push(
            "Potential role paths reach "@ + decimal(permission_count(reachable))
                + " additional permission entries."@,
        )
    };
    let session = if holds(arn, ":assumed-role/"@) {
        reached.push(
            "Credential represents an assumed role session; review the role trust policy and session duration"@,
        )
    } else {
        reached
    };
    let root = if kind == "root"@ {
        session.push(
            "Credential authenticates as the AWS account root user; root access keys have unrestricted account-level impact."@,
        )
    } else {
        session
    };
    if kind != "root"@ && none_known(permissions) {
        root.push("IAM permissions could not be enumerated for this identity."@)
    } else {
        root
    }
}

/// What is reported of an AWS credential.
pub open spec fn aws_result(
    arn: Seq<char>,
    account: Option<Seq<char>>,
    principal: PrincipalContextView,
    roles: Seq<RoleBindingView>,
    permissions: PermissionSummaryView,
    evidence: AuthorizationEvidenceView,
    reachable: PermissionSummaryView,
    found: ExposuresView,
) -> AccessMapResultView {
    let kind = identity_kind(arn);
    let severity = found_severity(kind, permissions, reachable, found.resources.len() > 0);
    AccessMapResultView {
        cloud: "aws"@,
        fingerprint: None,
        identity: AccessSummaryView {
            id: arn,
            access_type: kind,
            project: None,
            tenant: None,
            account_id: account,
        },
        roles: if roles.len() == 0 {
            seq![binding(kind, "sts"@, Seq::empty())]
        } else {
            roles
        },
        permissions,
        resources: if found.resources.len() == 0 {
            seq![default_account_resource(account, severity)]
        } else {
            found.resources
        },
        severity,
        recommendations: recommendations(severity),
        risk_notes: closing_notes(found.risk_notes, arn, permissions, reachable),
        token_details: Some(
            AccessTokenDetailsView {
                name: either(principal.name, account),
                username: if principal.kind == "user"@ {
                    principal.name
                } else {
                    None
                },
                account_type: Some(principal.kind),
                token_type: Some("access_key"@),
                user_id: Some(authorizing_arn(principal)),
                ..empty_access_token_details()
            },
        ),
        provider_metadata: Some(
            ProviderMetadataView {
                version: None,
                enterprise: None,
                authorization_evidence: Some(truncated(evidence)),
            },
        ),
        mapping_error: None,
    }
}

fn close_notes(
    risk_notes: Vec<String>,
    arn: &str,
    permissions: &PermissionSummary,
    reachable: &PermissionSummary,
) -> (notes: Vec<String>)
    requires
        permission_count(reachable@) <= usize::MAX,
    ensures
        texts(notes@) == closing_notes(texts(risk_notes@), arn@, permissions@, reachable@),
{
    let mut notes = risk_notes;
    let is_root = str_eq(classify_identity(arn), "root");
    if !reachable.is_empty() {
        let count = usize_text(reachable.total());
        push_text(
            &mut notes,
            cat3(
                "Potential role paths reach ",
                count.as_str(),
                " additional permission entries.",
            ),
        );
    }
    if contains(arn, ":assumed-role/") {
        push_text(
            &mut notes,
            "Credential represents an assumed role session; review the role trust policy and session duration".to_owned(),
        );
    }
    if is_root {
        push_text(
            &mut notes,
            "Credential authenticates as the AWS account root user; root access keys have unrestricted account-level impact.".to_owned(),
        );
    }
    if !is_root && permissions.is_empty() {
        push_text(
            &mut notes,
            "IAM permissions could not be enumerated for this identity.".to_owned(),
        );
    }
    notes
}

/// Closes a mapping with what was found of the identity, its permissions, the roles it reaches and
/// the resources it sees.
pub fn map_access_with_config(
    arn: String,
    account_id: Option<String>,
    principal: &PrincipalContext,
    roles: Vec<RoleBinding>,
    permissions: PermissionSummary,
    evidence: AuthorizationEvidence,
    reachable_permissions: &PermissionSummary,
    found: Exposures,
) -> (result: AccessMapResult)
    requires
        permission_count(reachable_permissions@) <= usize::MAX,
    ensures
        result@ == aws_result(
            arn@,
            opt_text(account_id),
            principal@,
            views(roles@),
            permissions@,
            evidence@,
            reachable_permissions@,
            found@,
        ),
{
    let kind = classify_identity(arn.as_str());
    let severity = max_severity(
        derive_severity(kind, &permissions, found.resources.len() > 0),
        severity_for_reachable_permissions(reachable_permissions),
    );
    let risk_notes = close_notes(
        found.risk_notes,
        arn.as_str(),
        &permissions,
        reachable_permissions,
    );
    let roles: Vec<RoleBinding> = if roles.len() == 0 {
        one_view(RoleBinding::new(kind, "sts", no_texts()))
    } else {
        roles
    };
    let resources: Vec<ResourceExposure> = if found.resources.len() == 0 {
        one_view(build_default_account_resource(&account_id, severity))
    } else {
        found.resources
    };
    let mut details = AccessTokenDetails::default();
    details.name = or_text(&principal.name, &account_id);
    details.username = if str_eq(principal.kind.as_str(), "user") {
        copy_opt(&principal.name)
    } else {
        None
    };
    details.account_type = Some(principal.kind.clone());
    details.token_type = Some("access_key".to_owned());
    details.user_id = Some(principal.authorization_arn().to_owned());
    AccessMapResult {
        cloud: "aws".to_owned(),
        fingerprint: None,
        identity: AccessSummary {
            id: arn,
            access_type: kind.to_owned(),
            project: None,
            tenant: None,
            account_id,
        },
        roles,
        permissions,
        resources,
        severity,
        recommendations: build_recommendations(severity),
        risk_notes,
        token_details: Some(details),
        provider_metadata: Some(
            ProviderMetadata {
                version: None,
                enterprise: None,
                authorization_evidence: Some(truncate_authorization_evidence(evidence)),
            },
        ),
        mapping_error: None,
    }
}

/// The severity of a credential is that of the gravest it has or can reach: the root of an account, or
/// an administering or escalating permission, its own or one of a role that it reaches, is critical; a
/// permission to change something is high at least, any other permission or a resource medium at
/// least. What was found is reported as it was found.
pub proof fn lemma_gravest_finding_decides(
    arn: Seq<char>,
    account: Option<Seq<char>>,
    principal: PrincipalContextView,
    roles: Seq<RoleBindingView>,
    permissions: PermissionSummaryView,
    evidence: AuthorizationEvidenceView,
    reachable: PermissionSummaryView,
    found: ExposuresView,
)
    ensures
        ({
            let result = aws_result(
                arn,
                account,
                principal,
                roles,
                permissions,
                evidence,
                reachable,
                found,
            );
            let severity = result.severity;
            &&& permissions.admin.len() > 0 || permissions.privilege_escalation.len() > 0 ==> severity
                == Severity::Critical
            &&& reachable.admin.len() > 0 || reachable.privilege_escalation.len() > 0 ==> severity
                == Severity::Critical
            &&& holds(arn, ":root"@) && !holds(arn, "/"@) ==> severity == Severity::Critical
            &&& permissions.risky.len() > 0 || reachable.risky.len() > 0 ==> severity == Severity::High
                || severity == Severity::Critical
            &&& permissions.read_only.len() > 0 || reachable.read_only.len() > 0
                || found.resources.len() > 0 ==> severity != Severity::Low
            &&& permissions.admin.len() == 0 && permissions.privilege_escalation.len() == 0
                && reachable.admin.len() == 0 && reachable.privilege_escalation.len() == 0
                && result.identity.access_type != "root"@ ==> severity != Severity::Critical
            &&& result.identity.id == arn
            &&& result.identity.account_id == account
            &&& result.permissions == permissions
            &&& roles.len() > 0 ==> result.roles == roles
            &&& found.resources.len() > 0 ==> result.resources == found.resources
            &&& result.roles.len() > 0 && result.resources.len() > 0
            &&& found.risk_notes.is_prefix_of(result.risk_notes)
            &&& reachable.admin.len() + reachable.privilege_escalation.len() + reachable.risky.len()
                + reachable.read_only.len() > 0 ==> result.risk_notes.len() > found.risk_notes.len()
            &&& holds(arn, ":assumed-role/"@) ==> result.risk_notes.contains(
                "Credential represents an assumed role session; review the role trust policy and session duration"@,
            )
        }),
{
    let kind = identity_kind(arn);
    let severity = found_severity(kind, permissions, reachable, found.resources.len() > 0);
    lemma_gravest_permission_decides(kind, permissions, found.resources.len() > 0);
    lemma_gravest_permission_decides(kind, reachable, false);
    lemma_identity_kinds(arn);
    let notes = closing_notes(found.risk_notes, arn, permissions, reachable);
    assert(found.risk_notes =~= notes.subrange(0, found.risk_notes.len() as int));
    if holds(arn, ":assumed-role/"@) {
        let at = if none_known(reachable) {
            found.risk_notes.len() as int
        } else {
            found.risk_notes.len() as int + 1
        };
        assert(notes[at]
            == "Credential represents an assumed role session; review the role trust policy and session duration"@);
    }
}

} // verus!
