//! What a mapping reports: the identity, its permissions, the resources it reaches and the
//! evidence for each, together with the views that the contracts speak of.

use vstd::prelude::*;
use crate::text::{opt_text, texts};

verus! {

/// The views of a list of values.
pub open spec fn views<T: View>(list: Seq<T>) -> Seq<T::V> {
    list.map_values(|item: T| item@)
}

/// The view of an optional value.
pub open spec fn opt_view<T: View>(value: Option<T>) -> Option<T::V> {
    match value {
        Some(item) => Some(item@),
        None => None,
    }
}

/// A result, as views.
pub open spec fn result_view<T: View>(result: Result<T, String>) -> Result<T::V, Seq<char>> {
    match result {
        Ok(value) => Ok(value@),
        Err(error) => Err(error@),
    }
}

/// The texts behind a list of key and value pairs.
pub open spec fn pairs(list: Seq<(String, String)>) -> Seq<(Seq<char>, Seq<char>)> {
    list.map_values(|entry: (String, String)| (entry.0@, entry.1@))
}

/// Adds one value at the end of a list.
pub fn push_view<T: View>(list: &mut Vec<T>, item: T)
    ensures
        views(final(list)@) == views(old(list)@).push(item@),
{
    let ghost before = views(list@);
    list.push(item);
    assert(views(list@) =~= before.push(item@));
}

/// The list that holds nothing.
pub fn no_views<T: View>() -> (list: Vec<T>)
    ensures
        views(list@) == Seq::<T::V>::empty(),
        list@.len() == 0,
{
    let list: Vec<T> = Vec::new();
    assert(views(list@) =~= Seq::<T::V>::empty());
    list
}

/// The list of one value.
pub fn one_view<T: View>(item: T) -> (list: Vec<T>)
    ensures
        views(list@) == seq![item@],
{
    let mut list: Vec<T> = Vec::new();
    list.push(item);
    assert(views(list@) =~= seq![item@]);
    list
}

/// Severity classification for the credential.
#[derive(Debug, Clone, Copy, PartialEq, Eq, Structural)]
pub enum Severity {
    /// Low risk.
    Low,
    /// Medium risk.
    Medium,
    /// High risk.
    High,
    /// Critical risk.
    Critical,
}

/// Identity details such as email or ARN.
#[derive(Debug, Clone)]
pub struct AccessSummary {
    /// A stable identifier for the identity (email, ARN, or SPN).
    pub id: String,
    /// Identity type such as service account or user.
    pub access_type: String,
    /// Optional project or subscription identifier.
    pub project: Option<String>,
    /// Optional tenant identifier.
    pub tenant: Option<String>,
    /// Optional AWS-style account identifier.
    pub account_id: Option<String>,
}

/// What a `AccessSummary` says.
#[verifier::ext_equal]
pub struct AccessSummaryView {
    pub id: Seq<char>,
    pub access_type: Seq<char>,
    pub project: Option<Seq<char>>,
    pub tenant: Option<Seq<char>>,
    pub account_id: Option<Seq<char>>,
}

impl View for AccessSummary {
    type V = AccessSummaryView;

    open spec fn view(&self) -> AccessSummaryView {
        AccessSummaryView {
            id: self.id@,
            access_type: self.access_type@,
            project: opt_text(self.project),
            tenant: opt_text(self.tenant),
            account_id: opt_text(self.account_id),
        }
    }
}

/// A single role or binding and its permissions.
#[derive(Debug, Clone)]
pub struct RoleBinding {
    /// Name of the role (for example, `roles/editor`).
    pub name: String,
    /// Source of the role (direct, inherited, etc.).
    pub source: String,
    /// Expanded permissions associated with the role.
    pub permissions: Vec<String>,
}

/// What a `RoleBinding` says.
#[verifier::ext_equal]
pub struct RoleBindingView {
    pub name: Seq<char>,
    pub source: Seq<char>,
    pub permissions: Seq<Seq<char>>,
}

impl View for RoleBinding {
    type V = RoleBindingView;

    open spec fn view(&self) -> RoleBindingView {
        RoleBindingView {
            name: self.name@,
            source: self.source@,
            permissions: texts(self.permissions@),
        }
    }
}

/// Summarized permissions grouped by risk profile.
#[derive(Debug, Clone)]
pub struct PermissionSummary {
    /// Administrator or owner-level permissions.
    pub admin: Vec<String>,
    /// Permissions that allow privilege escalation.
    pub privilege_escalation: Vec<String>,
    /// Risky permissions with broad or sensitive access.
    pub risky: Vec<String>,
    /// Lower-risk read-only permissions.
    pub read_only: Vec<String>,
}

/// What a `PermissionSummary` says.
#[verifier::ext_equal]
pub struct PermissionSummaryView {
    pub admin: Seq<Seq<char>>,
    pub privilege_escalation: Seq<Seq<char>>,
    pub risky: Seq<Seq<char>>,
    pub read_only: Seq<Seq<char>>,
}

impl View for PermissionSummary {
    type V = PermissionSummaryView;

    open spec fn view(&self) -> PermissionSummaryView {
        PermissionSummaryView {
            admin: texts(self.admin@),
            privilege_escalation: texts(self.privilege_escalation@),
            risky: texts(self.risky@),
            read_only: texts(self.read_only@),
        }
    }
}

/// A `PermissionSummary` that says nothing.
pub open spec fn empty_permission_summary() -> PermissionSummaryView {
    PermissionSummaryView {
        admin: Seq::empty(),
        privilege_escalation: Seq::empty(),
        risky: Seq::empty(),
        read_only: Seq::empty(),
    }
}

impl Default for PermissionSummary {
    fn default() -> (value: Self)
        ensures
            value@ == empty_permission_summary(),
    {
        let value = PermissionSummary {
            admin: Vec::new(),
            privilege_escalation: Vec::new(),
            risky: Vec::new(),
            read_only: Vec::new(),
        };
        assert(value@ =~= empty_permission_summary());
        value
    }
}

/// Exposed resources and their assessed risk.
#[derive(Debug, Clone)]
pub struct ResourceExposure {
    /// Resource type such as project or bucket.
    pub resource_type: String,
    /// Resource name.
    pub name: String,
    /// Permissions that grant visibility or access to the resource.
    pub permissions: Vec<String>,
    /// Risk level.
    pub risk: String,
    /// Human-readable justification.
    pub reason: String,
}

/// What a `ResourceExposure` says.
#[verifier::ext_equal]
pub struct ResourceExposureView {
    pub resource_type: Seq<char>,
    pub name: Seq<char>,
    pub permissions: Seq<Seq<char>>,
    pub risk: Seq<char>,
    pub reason: Seq<char>,
}

impl View for ResourceExposure {
    type V = ResourceExposureView;

    open spec fn view(&self) -> ResourceExposureView {
        ResourceExposureView {
            resource_type: self.resource_type@,
            name: self.name@,
            permissions: texts(self.permissions@),
            risk: self.risk@,
            reason: self.reason@,
        }
    }
}

/// Optional metadata for access tokens.
#[derive(Debug, Clone)]
pub struct AccessTokenDetails {
    pub name: Option<String>,
    pub username: Option<String>,
    pub account_type: Option<String>,
    pub company: Option<String>,
    pub location: Option<String>,
    pub email: Option<String>,
    pub url: Option<String>,
    pub token_type: Option<String>,
    pub created_at: Option<String>,
    pub last_used_at: Option<String>,
    pub expires_at: Option<String>,
    pub user_id: Option<String>,
    pub scopes: Vec<String>,
}

/// What a `AccessTokenDetails` says.
#[verifier::ext_equal]
pub struct AccessTokenDetailsView {
    pub name: Option<Seq<char>>,
    pub username: Option<Seq<char>>,
    pub account_type: Option<Seq<char>>,
    pub company: Option<Seq<char>>,
    pub location: Option<Seq<char>>,
    pub email: Option<Seq<char>>,
    pub url: Option<Seq<char>>,
    pub token_type: Option<Seq<char>>,
    pub created_at: Option<Seq<char>>,
    pub last_used_at: Option<Seq<char>>,
    pub expires_at: Option<Seq<char>>,
    pub user_id: Option<Seq<char>>,
    pub scopes: Seq<Seq<char>>,
}

impl View for AccessTokenDetails {
    type V = AccessTokenDetailsView;

    open spec fn view(&self) -> AccessTokenDetailsView {
        AccessTokenDetailsView {
            name: opt_text(self.name),
            username: opt_text(self.username),
            account_type: opt_text(self.account_type),
            company: opt_text(self.company),
            location: opt_text(self.location),
            email: opt_text(self.email),
            url: opt_text(self.url),
            token_type: opt_text(self.token_type),
            created_at: opt_text(self.created_at),
            last_used_at: opt_text(self.last_used_at),
            expires_at: opt_text(self.expires_at),
            user_id: opt_text(self.user_id),
            scopes: texts(self.scopes@),
        }
    }
}

/// A `AccessTokenDetails` that says nothing.
pub open spec fn empty_access_token_details() -> AccessTokenDetailsView {
    AccessTokenDetailsView {
        name: None,
        username: None,
        account_type: None,
        company: None,
        location: None,
        email: None,
        url: None,
        token_type: None,
        created_at: None,
        last_used_at: None,
        expires_at: None,
        user_id: None,
        scopes: Seq::empty(),
    }
}

impl Default for AccessTokenDetails {
    fn default() -> (value: Self)
        ensures
            value@ == empty_access_token_details(),
    {
        let value = AccessTokenDetails {
            name: None,
            username: None,
            account_type: None,
            company: None,
            location: None,
            email: None,
            url: None,
            token_type: None,
            created_at: None,
            last_used_at: None,
            expires_at: None,
            user_id: None,
            scopes: Vec::new(),
        };
        assert(value@ =~= empty_access_token_details());
        value
    }
}

/// One relationship in an authorization path.
#[derive(Debug, Clone)]
pub struct AuthorizationHop {
    pub from: String,
    pub to: String,
    pub relationship: String,
}

/// What a `AuthorizationHop` says.
#[verifier::ext_equal]
pub struct AuthorizationHopView {
    pub from: Seq<char>,
    pub to: Seq<char>,
    pub relationship: Seq<char>,
}

impl View for AuthorizationHop {
    type V = AuthorizationHopView;

    open spec fn view(&self) -> AuthorizationHopView {
        AuthorizationHopView {
            from: self.from@,
            to: self.to@,
            relationship: self.relationship@,
        }
    }
}

/// A `AuthorizationHop` that says nothing.
pub open spec fn empty_authorization_hop() -> AuthorizationHopView {
    AuthorizationHopView {
        from: Seq::empty(),
        to: Seq::empty(),
        relationship: Seq::empty(),
    }
}

impl Default for AuthorizationHop {
    fn default() -> (value: Self)
        ensures
            value@ == empty_authorization_hop(),
    {
        let value = AuthorizationHop {
            from: String::new(),
            to: String::new(),
            relationship: String::new(),
        };
        assert(value@ =~= empty_authorization_hop());
        value
    }
}

/// One visible scope in a provider's resource hierarchy.
#[derive(Debug, Clone)]
pub struct HierarchyScope {
    pub kind: String,
    pub id: String,
}

/// What a `HierarchyScope` says.
#[verifier::ext_equal]
pub struct HierarchyScopeView {
    pub kind: Seq<char>,
    pub id: Seq<char>,
}

impl View for HierarchyScope {
    type V = HierarchyScopeView;

    open spec fn view(&self) -> HierarchyScopeView {
        HierarchyScopeView {
            kind: self.kind@,
            id: self.id@,
        }
    }
}

/// A `HierarchyScope` that says nothing.
pub open spec fn empty_hierarchy_scope() -> HierarchyScopeView {
    HierarchyScopeView {
        kind: Seq::empty(),
        id: Seq::empty(),
    }
}

impl Default for HierarchyScope {
    fn default() -> (value: Self)
        ensures
            value@ == empty_hierarchy_scope(),
    {
        let value = HierarchyScope {
            kind: String::new(),
            id: String::new(),
        };
        assert(value@ =~= empty_hierarchy_scope());
        value
    }
}

/// An inbound or outbound authorization-capability path involving the credential identity.
#[derive(Debug, Clone)]
pub struct AuthorizationPath {
    /// Direction relative to the credential identity: `outbound` or `inbound`.
    pub direction: Option<String>,
    pub status: String,
    pub hops: Vec<AuthorizationHop>,
    pub evidence: Vec<String>,
    pub conditions: Vec<String>,
}

/// What a `AuthorizationPath` says.
#[verifier::ext_equal]
pub struct AuthorizationPathView {
    pub direction: Option<Seq<char>>,
    pub status: Seq<char>,
    pub hops: Seq<AuthorizationHopView>,
    pub evidence: Seq<Seq<char>>,
    pub conditions: Seq<Seq<char>>,
}

impl View for AuthorizationPath {
    type V = AuthorizationPathView;

    open spec fn view(&self) -> AuthorizationPathView {
        AuthorizationPathView {
            direction: opt_text(self.direction),
            status: self.status@,
            hops: views(self.hops@),
            evidence: texts(self.evidence@),
            conditions: texts(self.conditions@),
        }
    }
}

/// A `AuthorizationPath` that says nothing.
pub open spec fn empty_authorization_path() -> AuthorizationPathView {
    AuthorizationPathView {
        direction: None,
        status: Seq::empty(),
        hops: Seq::empty(),
        evidence: Seq::empty(),
        conditions: Seq::empty(),
    }
}

impl Default for AuthorizationPath {
    fn default() -> (value: Self)
        ensures
            value@ == empty_authorization_path(),
    {
        let value = AuthorizationPath {
            direction: None,
            status: String::new(),
            hops: Vec::new(),
            evidence: Vec::new(),
            conditions: Vec::new(),
        };
        assert(value@ =~= empty_authorization_path());
        value
    }
}

/// A normalized, redacted authorization-policy statement.
#[derive(Debug, Clone)]
pub struct AuthorizationStatement {
    pub id: String,
    pub sid: Option<String>,
    pub effect: String,
    pub actions: Vec<String>,
    pub not_actions: Vec<String>,
    pub resources: Vec<String>,
    pub not_resources: Vec<String>,
    pub principals: Vec<String>,
    pub not_principals: Vec<String>,
    /// Condition operator and key names. Values are intentionally not retained in reports.
    pub condition_keys: Vec<String>,
}

/// What a `AuthorizationStatement` says.
#[verifier::ext_equal]
pub struct AuthorizationStatementView {
    pub id: Seq<char>,
    pub sid: Option<Seq<char>>,
    pub effect: Seq<char>,
    pub actions: Seq<Seq<char>>,
    pub not_actions: Seq<Seq<char>>,
    pub resources: Seq<Seq<char>>,
    pub not_resources: Seq<Seq<char>>,
    pub principals: Seq<Seq<char>>,
    pub not_principals: Seq<Seq<char>>,
    pub condition_keys: Seq<Seq<char>>,
}

impl View for AuthorizationStatement {
    type V = AuthorizationStatementView;

    open spec fn view(&self) -> AuthorizationStatementView {
        AuthorizationStatementView {
            id: self.id@,
            sid: opt_text(self.sid),
            effect: self.effect@,
            actions: texts(self.actions@),
            not_actions: texts(self.not_actions@),
            resources: texts(self.resources@),
            not_resources: texts(self.not_resources@),
            principals: texts(self.principals@),
            not_principals: texts(self.not_principals@),
            condition_keys: texts(self.condition_keys@),
        }
    }
}

/// A `AuthorizationStatement` that says nothing.
pub open spec fn empty_authorization_statement() -> AuthorizationStatementView {
    AuthorizationStatementView {
        id: Seq::empty(),
        sid: None,
        effect: Seq::empty(),
        actions: Seq::empty(),
        not_actions: Seq::empty(),
        resources: Seq::empty(),
        not_resources: Seq::empty(),
        principals: Seq::empty(),
        not_principals: Seq::empty(),
        condition_keys: Seq::empty(),
    }
}

impl Default for AuthorizationStatement {
    fn default() -> (value: Self)
        ensures
            value@ == empty_authorization_statement(),
    {
        let value = AuthorizationStatement {
            id: String::new(),
            sid: None,
            effect: String::new(),
            actions: Vec::new(),
            not_actions: Vec::new(),
            resources: Vec::new(),
            not_resources: Vec::new(),
            principals: Vec::new(),
            not_principals: Vec::new(),
            condition_keys: Vec::new(),
        };
        assert(value@ =~= empty_authorization_statement());
        value
    }
}

/// One policy document or binding and the entity through which it applies.
#[derive(Debug, Clone)]
pub struct PolicyEvidence {
    pub id: String,
    pub name: Option<String>,
    pub kind: String,
    pub attached_to: String,
    pub attached_via: Option<String>,
    pub scope: Option<String>,
    pub version: Option<String>,
    pub statements: Vec<AuthorizationStatement>,
}

/// What a `PolicyEvidence` says.
#[verifier::ext_equal]
pub struct PolicyEvidenceView {
    pub id: Seq<char>,
    pub name: Option<Seq<char>>,
    pub kind: Seq<char>,
    pub attached_to: Seq<char>,
    pub attached_via: Option<Seq<char>>,
    pub scope: Option<Seq<char>>,
    pub version: Option<Seq<char>>,
    pub statements: Seq<AuthorizationStatementView>,
}

impl View for PolicyEvidence {
    type V = PolicyEvidenceView;

    open spec fn view(&self) -> PolicyEvidenceView {
        PolicyEvidenceView {
            id: self.id@,
            name: opt_text(self.name),
            kind: self.kind@,
            attached_to: self.attached_to@,
            attached_via: opt_text(self.attached_via),
            scope: opt_text(self.scope),
            version: opt_text(self.version),
            statements: views(self.statements@),
        }
    }
}

/// A `PolicyEvidence` that says nothing.
pub open spec fn empty_policy_evidence() -> PolicyEvidenceView {
    PolicyEvidenceView {
        id: Seq::empty(),
        name: None,
        kind: Seq::empty(),
        attached_to: Seq::empty(),
        attached_via: None,
        scope: None,
        version: None,
        statements: Seq::empty(),
    }
}

impl Default for PolicyEvidence {
    fn default() -> (value: Self)
        ensures
            value@ == empty_policy_evidence(),
    {
        let value = PolicyEvidence {
            id: String::new(),
            name: None,
            kind: String::new(),
            attached_to: String::new(),
            attached_via: None,
            scope: None,
            version: None,
            statements: Vec::new(),
        };
        assert(value@ =~= empty_policy_evidence());
        value
    }
}

/// Metadata resolved for the credential's effective principal.
#[derive(Debug, Clone)]
pub struct PrincipalEvidence {
    pub id: String,
    pub kind: String,
    pub canonical_id: Option<String>,
    pub name: Option<String>,
    pub groups: Vec<String>,
    /// Tag keys in order, each with the text that stands for its value.
    pub tags: Vec<(String, String)>,
    /// Attribute keys in order, each with its value.
    pub attributes: Vec<(String, String)>,
}

/// What a `PrincipalEvidence` says.
#[verifier::ext_equal]
pub struct PrincipalEvidenceView {
    pub id: Seq<char>,
    pub kind: Seq<char>,
    pub canonical_id: Option<Seq<char>>,
    pub name: Option<Seq<char>>,
    pub groups: Seq<Seq<char>>,
    pub tags: Seq<(Seq<char>, Seq<char>)>,
    pub attributes: Seq<(Seq<char>, Seq<char>)>,
}

impl View for PrincipalEvidence {
    type V = PrincipalEvidenceView;

    open spec fn view(&self) -> PrincipalEvidenceView {
        PrincipalEvidenceView {
            id: self.id@,
            kind: self.kind@,
            canonical_id: opt_text(self.canonical_id),
            name: opt_text(self.name),
            groups: texts(self.groups@),
            tags: pairs(self.tags@),
            attributes: pairs(self.attributes@),
        }
    }
}

/// A `PrincipalEvidence` that says nothing.
pub open spec fn empty_principal_evidence() -> PrincipalEvidenceView {
    PrincipalEvidenceView {
        id: Seq::empty(),
        kind: Seq::empty(),
        canonical_id: None,
        name: None,
        groups: Seq::empty(),
        tags: Seq::empty(),
        attributes: Seq::empty(),
    }
}

impl Default for PrincipalEvidence {
    fn default() -> (value: Self)
        ensures
            value@ == empty_principal_evidence(),
    {
        let value = PrincipalEvidence {
            id: String::new(),
            kind: String::new(),
            canonical_id: None,
            name: None,
            groups: Vec::new(),
            tags: Vec::new(),
            attributes: Vec::new(),
        };
        assert(value@ =~= empty_principal_evidence());
        value
    }
}

/// One policy grant that contributes to a reachable role's blast radius.
#[derive(Debug, Clone)]
pub struct AuthorizationGrant {
    pub permissions: Vec<String>,
    pub excluded_permissions: Vec<String>,
    pub resources: Vec<String>,
    pub excluded_resources: Vec<String>,
    pub condition_keys: Vec<String>,
    pub evidence: Vec<String>,
}

/// What a `AuthorizationGrant` says.
#[verifier::ext_equal]
pub struct AuthorizationGrantView {
    pub permissions: Seq<Seq<char>>,
    pub excluded_permissions: Seq<Seq<char>>,
    pub resources: Seq<Seq<char>>,
    pub excluded_resources: Seq<Seq<char>>,
    pub condition_keys: Seq<Seq<char>>,
    pub evidence: Seq<Seq<char>>,
}

impl View for AuthorizationGrant {
    type V = AuthorizationGrantView;

    open spec fn view(&self) -> AuthorizationGrantView {
        AuthorizationGrantView {
            permissions: texts(self.permissions@),
            excluded_permissions: texts(self.excluded_permissions@),
            resources: texts(self.resources@),
            excluded_resources: texts(self.excluded_resources@),
            condition_keys: texts(self.condition_keys@),
            evidence: texts(self.evidence@),
        }
    }
}

/// A `AuthorizationGrant` that says nothing.
pub open spec fn empty_authorization_grant() -> AuthorizationGrantView {
    AuthorizationGrantView {
        permissions: Seq::empty(),
        excluded_permissions: Seq::empty(),
        resources: Seq::empty(),
        excluded_resources: Seq::empty(),
        condition_keys: Seq::empty(),
        evidence: Seq::empty(),
    }
}

impl Default for AuthorizationGrant {
    fn default() -> (value: Self)
        ensures
            value@ == empty_authorization_grant(),
    {
        let value = AuthorizationGrant {
            permissions: Vec::new(),
            excluded_permissions: Vec::new(),
            resources: Vec::new(),
            excluded_resources: Vec::new(),
            condition_keys: Vec::new(),
            evidence: Vec::new(),
        };
        assert(value@ =~= empty_authorization_grant());
        value
    }
}

/// Permissions and resource scopes added by a role reachable through an identity transition.
#[derive(Debug, Clone)]
pub struct RoleImpact {
    /// Optional identity reached before this role applies, such as an impersonated service account.
    pub target: Option<String>,
    /// Stable provider identifier for the role, such as an AWS role ARN.
    pub role: String,
    pub name: Option<String>,
    /// Strongest observed path status: `potential`, `conditional`, or `trust_only`.
    pub status: String,
    /// Hop count for the summarized strongest path status.
    pub hop_count: usize,
    /// Effective role permissions summarized from the visible identity policies.
    pub permissions: Vec<String>,
    /// Statement-level permission/resource pairs retained without flattening their scope.
    pub grants: Vec<AuthorizationGrant>,
}

/// What a `RoleImpact` says.
#[verifier::ext_equal]
pub struct RoleImpactView {
    pub target: Option<Seq<char>>,
    pub role: Seq<char>,
    pub name: Option<Seq<char>>,
    pub status: Seq<char>,
    pub hop_count: usize,
    pub permissions: Seq<Seq<char>>,
    pub grants: Seq<AuthorizationGrantView>,
}

impl View for RoleImpact {
    type V = RoleImpactView;

    open spec fn view(&self) -> RoleImpactView {
        RoleImpactView {
            target: opt_text(self.target),
            role: self.role@,
            name: opt_text(self.name),
            status: self.status@,
            hop_count: self.hop_count,
            permissions: texts(self.permissions@),
            grants: views(self.grants@),
        }
    }
}

/// A `RoleImpact` that says nothing.
pub open spec fn empty_role_impact() -> RoleImpactView {
    RoleImpactView {
        target: None,
        role: Seq::empty(),
        name: None,
        status: Seq::empty(),
        hop_count: 0,
        permissions: Seq::empty(),
        grants: Seq::empty(),
    }
}

impl Default for RoleImpact {
    fn default() -> (value: Self)
        ensures
            value@ == empty_role_impact(),
    {
        let value = RoleImpact {
            target: None,
            role: String::new(),
            name: None,
            status: String::new(),
            hop_count: 0,
            permissions: Vec::new(),
            grants: Vec::new(),
        };
        assert(value@ =~= empty_role_impact());
        value
    }
}

/// What one read-only probe of a service found.
#[derive(Debug, Clone)]
pub struct AccessProbeEvidence {
    pub service: String,
    pub method: String,
    pub status: String,
    pub http_status: Option<u16>,
    pub reason: Option<String>,
}

/// What a `AccessProbeEvidence` says.
#[verifier::ext_equal]
pub struct AccessProbeEvidenceView {
    pub service: Seq<char>,
    pub method: Seq<char>,
    pub status: Seq<char>,
    pub http_status: Option<u16>,
    pub reason: Option<Seq<char>>,
}

impl View for AccessProbeEvidence {
    type V = AccessProbeEvidenceView;

    open spec fn view(&self) -> AccessProbeEvidenceView {
        AccessProbeEvidenceView {
            service: self.service@,
            method: self.method@,
            status: self.status@,
            http_status: self.http_status,
            reason: opt_text(self.reason),
        }
    }
}

/// Provider-neutral evidence retained alongside a blast-radius result.
#[derive(Debug, Clone)]
pub struct AuthorizationEvidence {
    pub principal: Option<PrincipalEvidence>,
    pub policies: Vec<PolicyEvidence>,
    pub paths: Vec<AuthorizationPath>,
    /// Roles reachable through the recorded identity paths and the policy grants they add.
    pub role_impacts: Vec<RoleImpact>,
    pub hierarchy: Vec<HierarchyScope>,
    pub limitations: Vec<String>,
    /// Probes that were sent and what each of them found.
    pub probes: Vec<AccessProbeEvidence>,
}

/// What a `AuthorizationEvidence` says.
#[verifier::ext_equal]
pub struct AuthorizationEvidenceView {
    pub principal: Option<PrincipalEvidenceView>,
    pub policies: Seq<PolicyEvidenceView>,
    pub paths: Seq<AuthorizationPathView>,
    pub role_impacts: Seq<RoleImpactView>,
    pub hierarchy: Seq<HierarchyScopeView>,
    pub limitations: Seq<Seq<char>>,
    pub probes: Seq<AccessProbeEvidenceView>,
}

impl View for AuthorizationEvidence {
    type V = AuthorizationEvidenceView;

    open spec fn view(&self) -> AuthorizationEvidenceView {
        AuthorizationEvidenceView {
            principal: opt_view(self.principal),
            policies: views(self.policies@),
            paths: views(self.paths@),
            role_impacts: views(self.role_impacts@),
            hierarchy: views(self.hierarchy@),
            limitations: texts(self.limitations@),
            probes: views(self.probes@),
        }
    }
}

/// A `AuthorizationEvidence` that says nothing.
pub open spec fn empty_authorization_evidence() -> AuthorizationEvidenceView {
    AuthorizationEvidenceView {
        principal: None,
        policies: Seq::empty(),
        paths: Seq::empty(),
        role_impacts: Seq::empty(),
        hierarchy: Seq::empty(),
        limitations: Seq::empty(),
        probes: Seq::empty(),
    }
}

impl Default for AuthorizationEvidence {
    fn default() -> (value: Self)
        ensures
            value@ == empty_authorization_evidence(),
    {
        let value = AuthorizationEvidence {
            principal: None,
            policies: Vec::new(),
            paths: Vec::new(),
            role_impacts: Vec::new(),
            hierarchy: Vec::new(),
            limitations: Vec::new(),
            probes: Vec::new(),
        };
        assert(value@ =~= empty_authorization_evidence());
        value
    }
}

/// Optional metadata about the provider instance.
#[derive(Debug, Clone)]
pub struct ProviderMetadata {
    pub version: Option<String>,
    pub enterprise: Option<bool>,
    /// Read-only evidence explaining how permissions and identity paths were derived.
    pub authorization_evidence: Option<AuthorizationEvidence>,
}

/// What a `ProviderMetadata` says.
#[verifier::ext_equal]
pub struct ProviderMetadataView {
    pub version: Option<Seq<char>>,
    pub enterprise: Option<bool>,
    pub authorization_evidence: Option<AuthorizationEvidenceView>,
}

impl View for ProviderMetadata {
    type V = ProviderMetadataView;

    open spec fn view(&self) -> ProviderMetadataView {
        ProviderMetadataView {
            version: opt_text(self.version),
            enterprise: self.enterprise,
            authorization_evidence: opt_view(self.authorization_evidence),
        }
    }
}

/// A `ProviderMetadata` that says nothing.
pub open spec fn empty_provider_metadata() -> ProviderMetadataView {
    ProviderMetadataView {
        version: None,
        enterprise: None,
        authorization_evidence: None,
    }
}

impl Default for ProviderMetadata {
    fn default() -> (value: Self)
        ensures
            value@ == empty_provider_metadata(),
    {
        let value = ProviderMetadata {
            version: None,
            enterprise: None,
            authorization_evidence: None,
        };
        assert(value@ =~= empty_provider_metadata());
        value
    }
}

/// Structured output describing the resolved identity and its risk profile.
#[derive(Debug, Clone)]
pub struct AccessMapResult {
    /// Cloud name such as "gcp", "aws", or "azure".
    pub cloud: String,
    /// Unique fingerprint of the finding.
    pub fingerprint: Option<String>,
    /// Summary of the resolved identity.
    pub identity: AccessSummary,
    /// Roles or bindings directly associated with the identity.
    pub roles: Vec<RoleBinding>,
    /// Aggregated permission findings.
    pub permissions: PermissionSummary,
    /// Resources impacted by the credential.
    pub resources: Vec<ResourceExposure>,
    /// Overall severity score.
    pub severity: Severity,
    /// Guidance for remediation.
    pub recommendations: Vec<String>,
    /// Additional risk notes derived from permissions and impersonation exposure.
    pub risk_notes: Vec<String>,
    /// Optional access token metadata (for GitHub/GitLab).
    pub token_details: Option<AccessTokenDetails>,
    /// Optional provider metadata (for GitLab instance details, etc.).
    pub provider_metadata: Option<ProviderMetadata>,
    /// Why the identity behind the credential could not be resolved, where the provider answered in part.
    pub mapping_error: Option<String>,
}

/// What a `AccessMapResult` says.
#[verifier::ext_equal]
pub struct AccessMapResultView {
    pub cloud: Seq<char>,
    pub fingerprint: Option<Seq<char>>,
    pub identity: AccessSummaryView,
    pub roles: Seq<RoleBindingView>,
    pub permissions: PermissionSummaryView,
    pub resources: Seq<ResourceExposureView>,
    pub severity: Severity,
    pub recommendations: Seq<Seq<char>>,
    pub risk_notes: Seq<Seq<char>>,
    pub token_details: Option<AccessTokenDetailsView>,
    pub provider_metadata: Option<ProviderMetadataView>,
    pub mapping_error: Option<Seq<char>>,
}

impl View for AccessMapResult {
    type V = AccessMapResultView;

    open spec fn view(&self) -> AccessMapResultView {
        AccessMapResultView {
            cloud: self.cloud@,
            fingerprint: opt_text(self.fingerprint),
            identity: self.identity@,
            roles: views(self.roles@),
            permissions: self.permissions@,
            resources: views(self.resources@),
            severity: self.severity,
            recommendations: texts(self.recommendations@),
            risk_notes: texts(self.risk_notes@),
            token_details: opt_view(self.token_details),
            provider_metadata: opt_view(self.provider_metadata),
            mapping_error: opt_text(self.mapping_error),
        }
    }
}

impl PermissionSummary {
    /// Whether no permission was found.
    pub fn is_empty(&self) -> (yes: bool)
        ensures
            yes == (self@.admin.len() == 0 && self@.privilege_escalation.len() == 0
                && self@.risky.len() == 0 && self@.read_only.len() == 0),
    {
        self.admin.is_empty() && self.privilege_escalation.is_empty() && self.risky.is_empty()
            && self.read_only.is_empty()
    }

    /// How many permissions were found.
    pub fn total(&self) -> (count: usize)
        requires
            self@.admin.len() + self@.privilege_escalation.len() + self@.risky.len()
                + self@.read_only.len() <= usize::MAX,
        ensures
            count == self@.admin.len() + self@.privilege_escalation.len() + self@.risky.len()
                + self@.read_only.len(),
    {
        self.admin.len() + self.privilege_escalation.len() + self.risky.len()
            + self.read_only.len()
    }
}

/// An exposure of one resource.
pub open spec fn exposure(
    resource_type: Seq<char>,
    name: Seq<char>,
    permissions: Seq<Seq<char>>,
    risk: Severity,
    reason: Seq<char>,
) -> ResourceExposureView {
    ResourceExposureView { resource_type, name, permissions, risk: severity_text(risk), reason }
}

impl ResourceExposure {
    pub fn new(
        resource_type: &str,
        name: &str,
        permissions: Vec<String>,
        risk: Severity,
        reason: &str,
    ) -> (value: Self)
        ensures
            value@ == exposure(resource_type@, name@, texts(permissions@), risk, reason@),
    {
        ResourceExposure {
            resource_type: resource_type.to_owned(),
            name: name.to_owned(),
            permissions,
            risk: severity_to_str(risk).to_owned(),
            reason: reason.to_owned(),
        }
    }
}

/// A role and what it permits.
pub open spec fn binding(name: Seq<char>, source: Seq<char>, permissions: Seq<Seq<char>>) -> RoleBindingView {
    RoleBindingView { name, source, permissions }
}

impl RoleBinding {
    pub fn new(name: &str, source: &str, permissions: Vec<String>) -> (value: Self)
        ensures
            value@ == binding(name@, source@, texts(permissions@)),
    {
        RoleBinding { name: name.to_owned(), source: source.to_owned(), permissions }
    }
}

/// How a severity is written.
pub open spec fn severity_text(severity: Severity) -> Seq<char> {
    match severity {
        Severity::Low => "low"@,
        Severity::Medium => "medium"@,
        Severity::High => "high"@,
        Severity::Critical => "critical"@,
    }
}

pub fn severity_to_str(severity: Severity) -> (s: &'static str)
    ensures
        s@ == severity_text(severity),
{
    match severity {
        Severity::Low => "low",
        Severity::Medium => "medium",
        Severity::High => "high",
        Severity::Critical => "critical",
    }
}

/// One severity is no lower than another.
pub open spec fn no_lower(severity: Severity, other: Severity) -> bool {
    match other {
        Severity::Low => true,
        Severity::Medium => severity != Severity::Low,
        Severity::High => severity == Severity::High || severity == Severity::Critical,
        Severity::Critical => severity == Severity::Critical,
    }
}

/// No two severities are written alike.
pub proof fn lemma_severities_differ(a: Severity, b: Severity)
    requires
        severity_text(a) == severity_text(b),
    ensures
        a == b,
{
    reveal_strlit("low");
    reveal_strlit("medium");
    reveal_strlit("high");
    reveal_strlit("critical");
    assert("low"@.len() == 3);
    assert("medium"@.len() == 6);
    assert("high"@.len() == 4);
    assert("critical"@.len() == 8);
}

} // verus!
