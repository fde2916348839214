//! Entra service principals and access tokens.

use vstd::prelude::*;
use crate::azure::arm::{
    fresh_walk, map_arm_access, start_walk, walked, ArmReplies, ArmWalk, ArmWalkView, RbacPrincipal,
    RbacPrincipalView,
};
use crate::azure::claims::{
    decode_token_claims, granted, merged, no_claims, of_application, token_claims, TokenClaims,
    TokenClaimsView,
};
use crate::azure::credentials::{EnterpriseCredential, EnterpriseCredentialView};
use crate::azure::graph::{
    found_memberships, found_organization, found_principal, graph_notes, graph_resources,
    is_directory_role, is_group, map_graph_access, GraphDirectoryObject, GraphMapping,
    GraphOrganization, GraphPrincipal, GraphReplies,
};
use crate::azure::pages::{append_url, appended};
use crate::azure::permissions::{
    classify_graph_permission, graph_class, lemma_graph_permissions_are_filed_by_their_power,
    lemma_united_summary, merge_permissions, united_summary,
};
use crate::keyed::{lemma_put_keeps, no_pairs, put, put_pair};
use crate::mapping::{build_recommendations, recommendations};
use crate::model::{
    binding, empty_access_token_details, empty_permission_summary, exposure, no_views, pairs,
    push_view, result_view, views, AccessMapResult, AccessMapResultView, AccessSummary,
    AccessSummaryView, AccessTokenDetails, AccessTokenDetailsView, PermissionSummary,
    PermissionSummaryView, ProviderMetadata, ProviderMetadataView, ResourceExposure,
    ResourceExposureView, RoleBinding, RoleBindingView, Severity,
};
use crate::permissions::{class_list, filed, lemma_filed, PermissionClass};
use crate::text::{
    ascii_lower, cat2, cat3, copy_opt, copy_texts, decimal, either, ends, holds, no_texts, opt_text,
    or_text, push_text, str_eq, text_or, texts, trim_end_char, unwrap_text, usize_text,
    without_trailing,
};
use crate::time::{format_seconds, rfc3339_of};
use crate::order::{in_order, lemma_in_order};

verus! {

pub const MICROSOFT_ACCOUNT_TENANT_ID: &'static str = "9188040d-6c67-4c5b-b112-36a304b66dad";

/// The tokens that a credential comes to.
#[derive(Debug)]
pub struct AzureTokens {
    pub graph: Option<String>,
    pub management: Option<String>,
}

/// What an `AzureTokens` says.
#[verifier::ext_equal]
pub struct AzureTokensView {
    pub graph: Option<Seq<char>>,
    pub management: Option<Seq<char>>,
}

impl View for AzureTokens {
    type V = AzureTokensView;

    open spec fn view(&self) -> AzureTokensView {
        AzureTokensView { graph: opt_text(self.graph), management: opt_text(self.management) }
    }
}

/// A request for a token.
#[derive(Debug)]
pub struct TokenRequest {
    pub url: String,
    pub form: Vec<(String, String)>,
}

/// What a `TokenRequest` says.
#[verifier::ext_equal]
pub struct TokenRequestView {
    pub url: Seq<char>,
    pub form: Seq<(Seq<char>, Seq<char>)>,
}

impl View for TokenRequest {
    type V = TokenRequestView;

    open spec fn view(&self) -> TokenRequestView {
        TokenRequestView { url: self.url@, form: pairs(self.form@) }
    }
}

/// The scope that stands for everything a principal may do at a service.
pub open spec fn scope_at(base_url: Seq<char>) -> Seq<char> {
    without_trailing(base_url, '/') + "/.default"@
}

pub fn default_scope(base_url: &str) -> (scope: String)
    ensures
        scope@ == scope_at(base_url@),
{
    cat2(trim_end_char(base_url, '/').as_str(), "/.default")
}

/// The request with which a client gets a token.
pub open spec fn token_request(
    authority_host: Seq<char>,
    tenant_id: Seq<char>,
    client_id: Seq<char>,
    client_secret: Seq<char>,
    scope: Seq<char>,
) -> Result<TokenRequestView, Seq<char>> {
    match appended(authority_host, tenant_id + "/oauth2/v2.0/token"@) {
        Err(error) => Err(error),
        Ok(url) => Ok(
            TokenRequestView {
                url: url.text,
                form: seq![
                    ("client_id"@, client_id),
                    ("client_secret"@, client_secret),
                    ("scope"@, scope),
                    ("grant_type"@, "client_credentials"@),
                ],
            },
        ),
    }
}

pub fn request_client_token(
    authority_host: &str,
    tenant_id: &str,
    client_id: &str,
    client_secret: &str,
    scope: &str,
) -> (request: Result<TokenRequest, String>)
    ensures
        result_view(request) == token_request(
            authority_host@,
            tenant_id@,
            client_id@,
            client_secret@,
            scope@,
        ),
{
    match append_url(authority_host, cat2(tenant_id, "/oauth2/v2.0/token").as_str()) {
        Err(error) => Err(error),
        Ok(url) => {
            let mut form: Vec<(String, String)> = Vec::new();
            form.push(("client_id".to_owned(), client_id.to_owned()));
            form.push(("client_secret".to_owned(), client_secret.to_owned()));
            form.push(("scope".to_owned(), scope.to_owned()));
            form.push(("grant_type".to_owned(), "client_credentials".to_owned()));
            let request = TokenRequest { url: url.text, form };
            assert(request@.form =~= seq![
                ("client_id"@, client_id@),
                ("client_secret"@, client_secret@),
                ("scope"@, scope@),
                ("grant_type"@, "client_credentials"@),
            ]);
            Ok(request)
        },
    }
}

/// Whether a credential holds a whole service principal.
pub open spec fn has_client(config: EnterpriseCredentialView) -> bool {
    config.tenant_id is Some && config.client_id is Some && config.client_secret is Some
}

/// Whether a token for Microsoft Graph is to be requested.
pub fn wants_graph_token(config: &EnterpriseCredential) -> (yes: bool)
    ensures
        yes == (has_client(config@) && config@.graph_access_token is None),
{
    config.tenant_id.is_some() && config.client_id.is_some() && config.client_secret.is_some()
        && config.graph_access_token.is_none()
}

/// Whether a token for Resource Manager is to be requested.
pub fn wants_management_token(config: &EnterpriseCredential) -> (yes: bool)
    ensures
        yes == (has_client(config@) && config@.management_access_token is None),
{
    config.tenant_id.is_some() && config.client_id.is_some() && config.client_secret.is_some()
        && config.management_access_token.is_none()
}

/// The token at a service: the one that the credential holds, or else the one that was requested.
pub open spec fn token_at(
    held: Option<Seq<char>>,
    client: bool,
    reply: Result<String, String>,
) -> Option<Seq<char>> {
    if held is Some || !client {
        held
    } else {
        match reply {
            Ok(token) => Some(token@),
            Err(_) => None,
        }
    }
}

/// The notes, with one more where a request for a token failed.
pub open spec fn token_notes(
    notes: Seq<Seq<char>>,
    held: Option<Seq<char>>,
    client: bool,
    reply: Result<String, String>,
    what: Seq<char>,
) -> Seq<Seq<char>> {
    match reply {
        Err(error) if held is None && client => notes.push(what + error@),
        _ => notes,
    }
}

/// The tokens that a credential comes to. What was answered to a request is looked at only where
/// the request is called for.
pub open spec fn tokens_from(
    config: EnterpriseCredentialView,
    graph: Result<String, String>,
    management: Result<String, String>,
) -> Result<AzureTokensView, Seq<char>> {
    let tokens = AzureTokensView {
        graph: token_at(config.graph_access_token, has_client(config), graph),
        management: token_at(config.management_access_token, has_client(config), management),
    };
    if tokens.graph is None && tokens.management is None {
        if has_client(config) {
            Err(
                "Azure client credentials could not acquire a Microsoft Graph or management token"@,
            )
        } else {
            Err("Azure enterprise credential did not contain usable access tokens"@)
        }
    } else {
        Ok(tokens)
    }
}

/// The notes once tokens were requested.
pub open spec fn notes_after_tokens(
    notes: Seq<Seq<char>>,
    config: EnterpriseCredentialView,
    graph: Result<String, String>,
    management: Result<String, String>,
) -> Seq<Seq<char>> {
    token_notes(
        token_notes(
            notes,
            config.graph_access_token,
            has_client(config),
            graph,
            "Microsoft Graph token acquisition failed: "@,
        ),
        config.management_access_token,
        has_client(config),
        management,
        "Azure Resource Manager token acquisition failed: "@,
    )
}

fn take_token(
    held: &Option<String>,
    client: bool,
    reply: Result<String, String>,
    what: &str,
    risk_notes: &mut Vec<String>,
) -> (token: Option<String>)
    ensures
        opt_text(token) == token_at(opt_text(*held), client, reply),
        texts(final(risk_notes)@) == token_notes(
            texts(old(risk_notes)@),
            opt_text(*held),
            client,
            reply,
            what@,
        ),
{
    if held.is_some() || !client {
        return copy_opt(held);
    }
    match reply {
        Ok(token) => Some(token),
        Err(error) => {
            push_text(risk_notes, cat2(what, error.as_str()));
            None
        },
    }
}

pub fn acquire_enterprise_tokens(
    config: &EnterpriseCredential,
    graph: Result<String, String>,
    management: Result<String, String>,
    risk_notes: &mut Vec<String>,
) -> (tokens: Result<AzureTokens, String>)
    ensures
        result_view(tokens) == tokens_from(config@, graph, management),
        texts(final(risk_notes)@) == notes_after_tokens(
            texts(old(risk_notes)@),
            config@,
            graph,
            management,
        ),
{
    let client: bool = config.tenant_id.is_some() && config.client_id.is_some()
        && config.client_secret.is_some();
    let graph_token = take_token(
        &config.graph_access_token,
        client,
        graph,
        "Microsoft Graph token acquisition failed: ",
        risk_notes,
    );
    let management_token = take_token(
        &config.management_access_token,
        client,
        management,
        "Azure Resource Manager token acquisition failed: ",
        risk_notes,
    );
    if graph_token.is_none() && management_token.is_none() {
        if client {
            Err(
                "Azure client credentials could not acquire a Microsoft Graph or management token".to_owned(),
            )
        } else {
            Err("Azure enterprise credential did not contain usable access tokens".to_owned())
        }
    } else {
        Ok(AzureTokens { graph: graph_token, management: management_token })
    }
}

/// The claims of a token, if there is one.
pub open spec fn claims_of(token: Option<Seq<char>>) -> TokenClaimsView {
    match token {
        Some(text) => token_claims(text),
        None => no_claims(),
    }
}

fn decode_claims(token: &Option<String>) -> (claims: TokenClaims)
    ensures
        claims@ == claims_of(opt_text(*token)),
{
    match token {
        Some(text) => decode_token_claims(text.as_str()),
        None => TokenClaims::default(),
    }
}

/// What is claimed of a principal: by its token for Microsoft Graph, or else by that for Resource
/// Manager, or else by the credential itself.
pub open spec fn all_claims(config: EnterpriseCredentialView, tokens: AzureTokensView) -> TokenClaimsView {
    let claims = merged(claims_of(tokens.graph), claims_of(tokens.management));
    TokenClaimsView {
        tenant_id: either(claims.tenant_id, config.tenant_id),
        client_id: either(claims.client_id, config.client_id),
        token_type: if claims.token_type is None && config.client_secret is Some {
            Some("app"@)
        } else {
            claims.token_type
        },
        ..claims
    }
}

/// Puts together what is claimed of a principal.
pub fn enterprise_claims(config: &EnterpriseCredential, tokens: &AzureTokens) -> (claims: TokenClaims)
    ensures
        claims@ == all_claims(config@, tokens@),
{
    let mut claims = decode_claims(&tokens.graph);
    claims.merge_missing(&decode_claims(&tokens.management));
    claims.tenant_id = or_text(&claims.tenant_id, &config.tenant_id);
    claims.client_id = or_text(&claims.client_id, &config.client_id);
    if claims.token_type.is_none() && config.client_secret.is_some() {
        claims.token_type = Some("app".to_owned());
    }
    claims
}

/// Reads what Microsoft Graph answered, where there is a token to ask it with.
pub fn read_graph(
    tokens: &AzureTokens,
    claims: &TokenClaims,
    replies: GraphReplies,
    risk_notes: &mut Vec<String>,
) -> (mapping: GraphMapping)
    ensures
        tokens@.graph is Some ==> {
            &&& mapping.principal == found_principal(claims@, replies.principal)
            &&& mapping.organization == found_organization(replies.organizations)
            &&& mapping.memberships@ == found_memberships(claims@, replies.memberships)
            &&& views(mapping.resources@) == graph_resources(claims@, replies)
            &&& texts(final(risk_notes)@) == graph_notes(texts(old(risk_notes)@), claims@, replies)
        },
        tokens@.graph is None ==> {
            &&& mapping.principal is None
            &&& mapping.organization is None
            &&& mapping.memberships@ == Seq::<GraphDirectoryObject>::empty()
            &&& views(mapping.resources@) == Seq::<ResourceExposureView>::empty()
            &&& texts(final(risk_notes)@) == texts(old(risk_notes)@).push(
                "No Microsoft Graph token was available; Entra directory enumeration was skipped"@,
            )
        },
{
    if tokens.graph.is_some() {
        map_graph_access(claims, replies, risk_notes)
    } else {
        push_text(
            risk_notes,
            "No Microsoft Graph token was available; Entra directory enumeration was skipped".to_owned(),
        );
        GraphMapping {
            principal: None,
            organization: None,
            memberships: Vec::new(),
            resources: no_views(),
        }
    }
}

/// The object ID of a principal: as Microsoft Graph gives it, or else as the token claims it.
pub open spec fn principal_id(principal: Option<GraphPrincipal>, claims: TokenClaimsView) -> Option<
    Seq<char>,
> {
    match principal {
        Some(found) if found.id@.len() > 0 => Some(found.id@),
        _ => claims.object_id,
    }
}

/// The principals with the first `n` memberships that are in groups.
pub open spec fn with_member_groups(
    list: Seq<(Seq<char>, Seq<char>)>,
    members: Seq<GraphDirectoryObject>,
    n: int,
) -> Seq<(Seq<char>, Seq<char>)>
    decreases n,
{
    if n <= 0 {
        list
    } else {
        let before = with_member_groups(list, members, n - 1);
        let member = members[n - 1];
        if is_group(member) && member.id@.len() > 0 {
            put(before, member.id@, "Entra group "@ + text_or(member.display_name, member.id@))
        } else {
            before
        }
    }
}

/// Whether a list has a key.
pub open spec fn has_key(list: Seq<(Seq<char>, Seq<char>)>, key: Seq<char>) -> bool {
    exists|k: int| 0 <= k < list.len() && (#[trigger] list[k]).0 == key
}

/// The principals with the first `n` groups that a token names and that are not among them yet.
pub open spec fn with_claimed_groups(
    list: Seq<(Seq<char>, Seq<char>)>,
    groups: Seq<Seq<char>>,
    n: int,
) -> Seq<(Seq<char>, Seq<char>)>
    decreases n,
{
    if n <= 0 {
        list
    } else {
        let before = with_claimed_groups(list, groups, n - 1);
        if has_key(before, groups[n - 1]) {
            before
        } else {
            put(before, groups[n - 1], "Entra group "@ + groups[n - 1])
        }
    }
}

/// The principals whose roles count, with how each is reached, in the order of their IDs.
pub open spec fn rbac_pairs(
    principal: Option<GraphPrincipal>,
    members: Seq<GraphDirectoryObject>,
    claims: TokenClaimsView,
) -> Seq<(Seq<char>, Seq<char>)> {
    let start = match principal_id(principal, claims) {
        Some(id) => seq![(id, "direct principal"@)],
        None => Seq::empty(),
    };
    with_claimed_groups(
        with_member_groups(start, members, members.len() as int),
        claims.groups,
        claims.groups.len() as int,
    )
}

/// The principals whose roles count.
pub open spec fn rbac_views(
    principal: Option<GraphPrincipal>,
    members: Seq<GraphDirectoryObject>,
    claims: TokenClaimsView,
) -> Seq<RbacPrincipalView> {
    rbac_pairs(principal, members, claims).map_values(
        |entry: (Seq<char>, Seq<char>)| RbacPrincipalView { id: entry.0, source: entry.1 },
    )
}

fn is_key(list: &Vec<(String, String)>, key: &str) -> (yes: bool)
    ensures
        yes == has_key(pairs(list@), key@),
{
    let mut i: usize = 0;
    while i < list.len()
        invariant
            i <= list@.len(),
            forall|k: int| 0 <= k < i ==> (#[trigger] pairs(list@)[k]).0 != key@,
        decreases list@.len() - i,
    {
        if str_eq(list[i].0.as_str(), key) {
            assert(pairs(list@)[i as int].0 == key@);
            return true;
        }
        i = i + 1;
    }
    false
}

fn add_member_groups(list: &mut Vec<(String, String)>, members: &Vec<GraphDirectoryObject>)
    ensures
        pairs(final(list)@) == with_member_groups(
            pairs(old(list)@),
            members@,
            members@.len() as int,
        ),
{
    let ghost start = pairs(list@);
    let mut i: usize = 0;
    while i < members.len()
        invariant
            i <= members@.len(),
            pairs(list@) == with_member_groups(start, members@, i as int),
        decreases members@.len() - i,
    {
        let member = &members[i];
        if member.in_group() && !member.id.as_str().is_empty() {
            let name = unwrap_text(&member.display_name, member.id.as_str());
            put_pair(list, member.id.clone(), cat2("Entra group ", name.as_str()));
        }
        i = i + 1;
    }
}

fn add_claimed_groups(list: &mut Vec<(String, String)>, groups: &Vec<String>)
    ensures
        pairs(final(list)@) == with_claimed_groups(
            pairs(old(list)@),
            texts(groups@),
            groups@.len() as int,
        ),
{
    let ghost start = pairs(list@);
    let mut i: usize = 0;
    while i < groups.len()
        invariant
            i <= groups@.len(),
            pairs(list@) == with_claimed_groups(start, texts(groups@), i as int),
        decreases groups@.len() - i,
    {
        assert(texts(groups@)[i as int] == groups@[i as int]@);
        if !is_key(list, groups[i].as_str()) {
            put_pair(list, groups[i].clone(), cat2("Entra group ", groups[i].as_str()));
        }
        i = i + 1;
    }
}

/// Lists the principals whose roles count: the principal itself and its groups.
pub fn list_rbac_principals(graph: &GraphMapping, claims: &TokenClaims) -> (list: Vec<RbacPrincipal>)
    ensures
        views(list@) == rbac_views(graph.principal, graph.memberships@, claims@),
{
    let mut found: Vec<(String, String)> = no_pairs();
    let id: Option<String> = match &graph.principal {
        Some(principal) if !principal.id.as_str().is_empty() => Some(principal.id.clone()),
        _ => copy_opt(&claims.object_id),
    };
    match id {
        Some(id) => {
            found.push((id, "direct principal".to_owned()));
            assert(pairs(found@) =~= seq![(id@, "direct principal"@)]);
        },
        None => {},
    }
    add_member_groups(&mut found, &graph.memberships);
    add_claimed_groups(&mut found, &claims.groups);
    let ghost all = rbac_pairs(graph.principal, graph.memberships@, claims@);
    assert(pairs(found@) == all);
    let mut list: Vec<RbacPrincipal> = no_views();
    let mut i: usize = 0;
    while i < found.len()
        invariant
            i <= found@.len(),
            list@.len() == i,
            forall|k: int|
                0 <= k < i ==> (#[trigger] list@[k])@ == (RbacPrincipalView {
                    id: pairs(found@)[k].0,
                    source: pairs(found@)[k].1,
                }),
        decreases found@.len() - i,
    {
        list.push(RbacPrincipal { id: found[i].0.clone(), source: found[i].1.clone() });
        i = i + 1;
    }
    assert(views(list@) =~= rbac_views(graph.principal, graph.memberships@, claims@));
    list
}

/// Reads what Resource Manager answered so far, where there is a token to ask it with.
pub fn read_arm(
    tokens: &AzureTokens,
    rbac_principals: &Vec<RbacPrincipal>,
    replies: &ArmReplies,
    risk_notes: Vec<String>,
) -> (walk: ArmWalk)
    ensures
        walk@ == if tokens@.management is Some {
            walked(texts(risk_notes@), views(rbac_principals@), *replies)
        } else {
            fresh_walk(
                texts(risk_notes@).push(
                    "No Azure Resource Manager token was available; subscription and RBAC enumeration was skipped"@,
                ),
            )
        },
{
    if tokens.management.is_some() {
        map_arm_access(risk_notes, rbac_principals, replies)
    } else {
        let mut notes = risk_notes;
        push_text(
            &mut notes,
            "No Azure Resource Manager token was available; subscription and RBAC enumeration was skipped".to_owned(),
        );
        start_walk(notes)
    }
}

/// The summary of the first `n` Microsoft Graph permissions.
pub open spec fn graph_summary(list: Seq<Seq<char>>, n: int) -> PermissionSummaryView
    decreases n,
{
    if n <= 0 {
        empty_permission_summary()
    } else {
        filed(graph_summary(list, n - 1), graph_class(list[n - 1]), list[n - 1])
    }
}

/// Whether one of the first `n` memberships is in a directory role.
pub open spec fn some_directory_role(members: Seq<GraphDirectoryObject>) -> bool {
    exists|k: int| 0 <= k < members.len() && is_directory_role(#[trigger] members[k])
}

/// How grave what a principal may do is.
pub open spec fn enterprise_severity(
    permissions: PermissionSummaryView,
    directory_role: bool,
    roles: nat,
    subscriptions: nat,
) -> Severity {
    if permissions.admin.len() > 0 || permissions.privilege_escalation.len() > 0 || directory_role {
        Severity::Critical
    } else if permissions.risky.len() > 0 || roles > 0 {
        Severity::High
    } else if permissions.read_only.len() > 0 || subscriptions > 0 {
        Severity::Medium
    } else {
        Severity::Low
    }
}

pub fn derive_enterprise_severity(
    permissions: &PermissionSummary,
    memberships: &Vec<GraphDirectoryObject>,
    arm: &ArmWalk,
) -> (severity: Severity)
    ensures
        severity == enterprise_severity(
            permissions@,
            some_directory_role(memberships@),
            arm@.roles.len(),
            arm@.subscriptions.len(),
        ),
{
    let mut directory_role: bool = false;
    let mut i: usize = 0;
    while i < memberships.len()
        invariant
            i <= memberships@.len(),
            directory_role == exists|k: int|
                0 <= k < i && is_directory_role(#[trigger] memberships@[k]),
        decreases memberships@.len() - i,
    {
        if memberships[i].in_directory_role() {
            directory_role = true;
        }
        i = i + 1;
    }
    if permissions.admin.len() > 0 || permissions.privilege_escalation.len() > 0 || directory_role {
        Severity::Critical
    } else if permissions.risky.len() > 0 || arm.roles.len() > 0 {
        Severity::High
    } else if permissions.read_only.len() > 0 || arm.subscriptions.len() > 0 {
        Severity::Medium
    } else {
        Severity::Low
    }
}

/// A permission that allows administration or escalation makes a principal critical, whatever else
/// is known of it.
pub proof fn lemma_escalation_is_critical(
    permissions: PermissionSummaryView,
    directory_role: bool,
    roles: nat,
    subscriptions: nat,
)
    ensures
        enterprise_severity(permissions, directory_role, roles, subscriptions)
            == Severity::Critical <==> permissions.admin.len() > 0
            || permissions.privilege_escalation.len() > 0 || directory_role,
{
}

/// The roles that a principal holds in its directory.
pub open spec fn directory_bindings(members: Seq<GraphDirectoryObject>, n: int) -> Seq<
    RoleBindingView,
>
    decreases n,
{
    if n <= 0 {
        Seq::empty()
    } else if is_directory_role(members[n - 1]) {
        directory_bindings(members, n - 1).push(
            binding(
                text_or(members[n - 1].display_name, members[n - 1].id@),
                "entra_directory_role"@,
                Seq::empty(),
            ),
        )
    } else {
        directory_bindings(members, n - 1)
    }
}

/// The roles that a principal has apart from those on Azure resources: its Microsoft Graph
/// permissions and those in its directory.
pub open spec fn enterprise_roles(
    graph_claims: TokenClaimsView,
    members: Seq<GraphDirectoryObject>,
) -> Seq<RoleBindingView> {
    let permissions = granted(graph_claims);
    (if permissions.len() > 0 {
        seq![
            binding(
                if of_application(graph_claims) {
                    "microsoft_graph_application_permissions"@
                } else {
                    "microsoft_graph_delegated_scopes"@
                },
                "access_token_claims"@,
                permissions,
            ),
        ]
    } else {
        Seq::empty()
    }) + directory_bindings(members, members.len() as int)
}

/// The resources that a principal reaches, or its tenant where none could be listed.
pub open spec fn enterprise_resources(
    graph: Seq<ResourceExposureView>,
    arm: Seq<ResourceExposureView>,
    claims: TokenClaimsView,
    permissions: Seq<Seq<char>>,
) -> Seq<ResourceExposureView> {
    let found = graph + arm;
    if found.len() == 0 {
        seq![
            exposure(
                "entra_tenant"@,
                match claims.tenant_id {
                    Some(tenant) => tenant,
                    None => "unknown_tenant"@,
                },
                permissions,
                Severity::Medium,
                "Azure credential authenticated, but resource enumeration was restricted"@,
            ),
        ]
    } else {
        found
    }
}

/// What to do about a principal.
pub open spec fn enterprise_advice(severity: Severity, secret: bool) -> Seq<Seq<char>> {
    let advice = recommendations(severity).push(
        "Review Microsoft Graph admin consent, Entra directory roles, and Azure RBAC assignments"@,
    );
    if secret {
        advice.push(
            "Replace long-lived client secrets with managed identity, workload identity federation, or certificate authentication"@,
        )
    } else {
        advice
    }
}

/// A field of the principal that Microsoft Graph described.
pub open spec fn of_principal(
    principal: Option<GraphPrincipal>,
    pick: spec_fn(GraphPrincipal) -> Option<Seq<char>>,
) -> Option<Seq<char>> {
    match principal {
        Some(found) => pick(found),
        None => None,
    }
}

/// How Microsoft Graph calls a principal.
pub open spec fn name_in_graph(principal: GraphPrincipal) -> Option<Seq<char>> {
    either(
        opt_text(principal.user_principal_name),
        either(
            opt_text(principal.display_name),
            either(
                opt_text(principal.app_id),
                if principal.id@.len() > 0 {
                    Some(principal.id@)
                } else {
                    None
                },
            ),
        ),
    )
}

/// How a principal is called.
pub open spec fn identity_of(principal: Option<GraphPrincipal>, claims: TokenClaimsView) -> Seq<char> {
    match either(
        of_principal(principal, |found: GraphPrincipal| name_in_graph(found)),
        either(
            claims.username,
            either(claims.name, either(claims.object_id, claims.client_id)),
        ),
    ) {
        Some(name) => name,
        None => "azure_principal"@,
    }
}

/// The tenant of a principal.
pub open spec fn tenant_of(organization: Option<GraphOrganization>, claims: TokenClaimsView) -> Option<
    Seq<char>,
> {
    match organization {
        Some(found) if found.id@.len() > 0 => Some(found.id@),
        _ => claims.tenant_id,
    }
}

/// Whether a principal is a service principal or a user.
pub open spec fn access_type_of(claims: TokenClaimsView, secret: bool) -> Seq<char> {
    if of_application(claims) || secret {
        "entra_service_principal"@
    } else {
        "entra_delegated_user"@
    }
}

/// The notes that close the mapping.
pub open spec fn enterprise_notes(
    notes: Seq<Seq<char>>,
    organization: Option<GraphOrganization>,
    graph_claims: TokenClaimsView,
    subscriptions: nat,
) -> Seq<Seq<char>> {
    let count = granted(graph_claims).len();
    let with_tenant = match organization {
        Some(found) => match found.display_name {
            Some(name) => notes.push("Microsoft Entra tenant: "@ + name@),
            None => notes,
        },
        None => notes,
    };
    let with_permissions = if count == 0 {
        with_tenant
    } else if of_application(graph_claims) {
        with_tenant.push(
            "Application token carries "@ + decimal(count)
                + " Microsoft Graph application permission(s)"@,
        )
    } else {
        with_tenant.push(
            "Delegated token carries "@ + decimal(count) + " Microsoft Graph scope(s)"@,
        )
    };
    if subscriptions > 0 {
        with_permissions.push(
            "Azure Resource Manager exposed "@ + decimal(subscriptions) + " subscription(s)"@,
        )
    } else {
        with_permissions
    }
}

/// When a token expires.
pub open spec fn expiry_of(seconds: Option<i64>) -> Option<Seq<char>> {
    match seconds {
        Some(n) => rfc3339_of(n),
        None => None,
    }
}

/// What an Entra credential gives access to.
pub open spec fn enterprise_result(
    config: EnterpriseCredentialView,
    tokens: AzureTokensView,
    graph: GraphMapping,
    arm: ArmWalkView,
) -> AccessMapResultView {
    let graph_claims = claims_of(tokens.graph);
    let claims = all_claims(config, tokens);
    let scopes = granted(graph_claims);
    let secret = config.client_secret is Some;
    let members = graph.memberships@;
    let permissions = united_summary(graph_summary(scopes, scopes.len() as int), arm.permissions);
    let severity = enterprise_severity(
        permissions,
        some_directory_role(members),
        arm.roles.len(),
        arm.subscriptions.len(),
    );
    AccessMapResultView {
        cloud: "azure"@,
        fingerprint: None,
        identity: AccessSummaryView {
            id: identity_of(graph.principal, claims),
            access_type: access_type_of(claims, secret),
            project: if arm.subscriptions.len() > 0 {
                Some(arm.subscriptions[0])
            } else {
                None
            },
            tenant: tenant_of(graph.organization, claims),
            account_id: claims.client_id,
        },
        roles: enterprise_roles(graph_claims, members) + arm.roles,
        permissions,
        resources: enterprise_resources(
            views(graph.resources@),
            arm.resources,
            claims,
            scopes,
        ),
        severity,
        recommendations: enterprise_advice(severity, secret),
        risk_notes: enterprise_notes(
            arm.risk_notes,
            graph.organization,
            graph_claims,
            arm.subscriptions.len(),
        ),
        token_details: Some(
            AccessTokenDetailsView {
                name: either(
                    of_principal(graph.principal, |found: GraphPrincipal| opt_text(found.display_name)),
                    claims.name,
                ),
                username: either(
                    of_principal(
                        graph.principal,
                        |found: GraphPrincipal| opt_text(found.user_principal_name),
                    ),
                    claims.username,
                ),
                account_type: Some(access_type_of(claims, secret)),
                email: of_principal(graph.principal, |found: GraphPrincipal| opt_text(found.mail)),
                token_type: Some(
                    if secret {
                        "oauth2_client_credentials"@
                    } else {
                        "oauth2_access_token"@
                    },
                ),
                expires_at: expiry_of(claims.expires_at),
                user_id: claims.object_id,
                scopes,
                ..empty_access_token_details()
            },
        ),
        provider_metadata: Some(
            ProviderMetadataView {
                version: claims.version,
                enterprise: match claims.tenant_id {
                    Some(tenant) => Some(tenant != MICROSOFT_ACCOUNT_TENANT_ID@),
                    None => None,
                },
                authorization_evidence: None,
            },
        ),
        mapping_error: None,
    }
}

/// Every role that the walk over the subscriptions found is among the roles of the result.
pub proof fn lemma_walk_roles_are_reported(
    config: EnterpriseCredentialView,
    tokens: AzureTokensView,
    graph: GraphMapping,
    arm: ArmWalkView,
    k: int,
)
    requires
        0 <= k < arm.roles.len(),
    ensures
        enterprise_result(config, tokens, graph, arm).roles.contains(arm.roles[k]),
{
    let own = enterprise_roles(claims_of(tokens.graph), graph.memberships@);
    assert((own + arm.roles)[own.len() + k] == arm.roles[k]);
}

fn classify_scopes(list: &Vec<String>) -> (summary: PermissionSummary)
    ensures
        summary@ == graph_summary(texts(list@), list@.len() as int),
{
    let mut summary = PermissionSummary::default();
    let mut i: usize = 0;
    while i < list.len()
        invariant
            i <= list@.len(),
            summary@ == graph_summary(texts(list@), i as int),
        decreases list@.len() - i,
    {
        assert(texts(list@)[i as int] == list@[i as int]@);
        classify_graph_permission(list[i].as_str(), &mut summary);
        i = i + 1;
    }
    summary
}

fn bind_roles(graph_claims: &TokenClaims, members: &Vec<GraphDirectoryObject>) -> (roles: Vec<
    RoleBinding,
>)
    ensures
        views(roles@) == enterprise_roles(graph_claims@, members@),
{
    let mut roles: Vec<RoleBinding> = no_views();
    let permissions = graph_claims.permissions();
    if permissions.len() > 0 {
        let name: &str = if graph_claims.is_application() {
            "microsoft_graph_application_permissions"
        } else {
            "microsoft_graph_delegated_scopes"
        };
        push_view(&mut roles, RoleBinding::new(name, "access_token_claims", permissions));
    }
    let ghost first = views(roles@);
    let mut i: usize = 0;
    assert(first =~= first + directory_bindings(members@, 0));
    while i < members.len()
        invariant
            i <= members@.len(),
            views(roles@) == first + directory_bindings(members@, i as int),
        decreases members@.len() - i,
    {
        let member = &members[i];
        if member.in_directory_role() {
            let name = unwrap_text(&member.display_name, member.id.as_str());
            push_view(
                &mut roles,
                RoleBinding::new(name.as_str(), "entra_directory_role", no_texts()),
            );
        }
        i = i + 1;
        assert(views(roles@) =~= first + directory_bindings(members@, i as int));
    }
    assert(views(roles@) =~= enterprise_roles(graph_claims@, members@));
    roles
}

fn add_all<T: View>(list: &mut Vec<T>, more: Vec<T>)
    ensures
        views(final(list)@) == views(old(list)@) + views(more@),
{
    let ghost before = views(list@);
    let mut left = more;
    let ghost mut i: int = 0;
    assert(more@.skip(0) =~= more@);
    assert(before + views(more@).take(0) =~= before);
    while left.len() > 0
        invariant
            0 <= i <= more@.len(),
            left@ == more@.skip(i),
            views(list@) == before + views(more@).take(i),
        decreases left@.len(),
    {
        let item = left.remove(0);
        push_view(list, item);
        proof {
            i = i + 1;
        }
        assert(left@ =~= more@.skip(i));
        assert(views(list@) =~= before + views(more@).take(i));
    }
    assert(views(more@).take(i) =~= views(more@));
}

fn name_principal(principal: &Option<GraphPrincipal>, claims: &TokenClaims) -> (id: String)
    ensures
        id@ == identity_of(*principal, claims@),
{
    let in_graph: Option<String> = match principal {
        Some(found) => {
            let id: Option<String> = if found.id.as_str().is_empty() {
                None
            } else {
                Some(found.id.clone())
            };
            let app = or_text(&found.app_id, &id);
            let shown = or_text(&found.display_name, &app);
            or_text(&found.user_principal_name, &shown)
        },
        None => None,
    };
    let last = or_text(&claims.object_id, &claims.client_id);
    let named = or_text(&claims.name, &last);
    let claimed = or_text(&claims.username, &named);
    unwrap_text(&or_text(&in_graph, &claimed), "azure_principal")
}

fn close_notes(
    risk_notes: &mut Vec<String>,
    organization: &Option<GraphOrganization>,
    graph_claims: &TokenClaims,
    count: usize,
    subscriptions: usize,
)
    requires
        count == granted(graph_claims@).len(),
    ensures
        texts(final(risk_notes)@) == enterprise_notes(
            texts(old(risk_notes)@),
            *organization,
            graph_claims@,
            subscriptions as nat,
        ),
{
    match organization {
        Some(found) => match &found.display_name {
            Some(name) => push_text(risk_notes, cat2("Microsoft Entra tenant: ", name.as_str())),
            None => {},
        },
        None => {},
    }
    if count > 0 {
        if graph_claims.is_application() {
            push_text(
                risk_notes,
                cat3(
                    "Application token carries ",
                    usize_text(count).as_str(),
                    " Microsoft Graph application permission(s)",
                ),
            );
        } else {
            push_text(
                risk_notes,
                cat3(
                    "Delegated token carries ",
                    usize_text(count).as_str(),
                    " Microsoft Graph scope(s)",
                ),
            );
        }
    }
    if subscriptions > 0 {
        push_text(
            risk_notes,
            cat3(
                "Azure Resource Manager exposed ",
                usize_text(subscriptions).as_str(),
                " subscription(s)",
            ),
        );
    }
}

fn detail_token(
    config: &EnterpriseCredential,
    principal: &Option<GraphPrincipal>,
    claims: &TokenClaims,
    access_type: &str,
    scopes: Vec<String>,
) -> (details: AccessTokenDetails)
    ensures
        details@ == (AccessTokenDetailsView {
            name: either(
                of_principal(*principal, |found: GraphPrincipal| opt_text(found.display_name)),
                claims@.name,
            ),
            username: either(
                of_principal(*principal, |found: GraphPrincipal| opt_text(found.user_principal_name)),
                claims@.username,
            ),
            account_type: Some(access_type@),
            email: of_principal(*principal, |found: GraphPrincipal| opt_text(found.mail)),
            token_type: Some(
                if config@.client_secret is Some {
                    "oauth2_client_credentials"@
                } else {
                    "oauth2_access_token"@
                },
            ),
            expires_at: expiry_of(claims@.expires_at),
            user_id: claims@.object_id,
            scopes: texts(scopes@),
            ..empty_access_token_details()
        }),
{
    let mut details = AccessTokenDetails::default();
    match principal {
        Some(found) => {
            details.name = or_text(&found.display_name, &claims.name);
            details.username = or_text(&found.user_principal_name, &claims.username);
            details.email = copy_opt(&found.mail);
        },
        None => {
            details.name = copy_opt(&claims.name);
            details.username = copy_opt(&claims.username);
        },
    }
    details.account_type = Some(access_type.to_owned());
    let token_type: &str = if config.client_secret.is_some() {
        "oauth2_client_credentials"
    } else {
        "oauth2_access_token"
    };
    details.token_type = Some(token_type.to_owned());
    details.expires_at = match claims.expires_at {
        Some(seconds) => format_seconds(seconds),
        None => None,
    };
    details.user_id = copy_opt(&claims.object_id);
    details.scopes = scopes;
    details
}

pub fn map_enterprise_access(
    config: &EnterpriseCredential,
    tokens: &AzureTokens,
    graph: GraphMapping,
    arm: ArmWalk,
) -> (result: AccessMapResult)
    requires
        arm.wanted is None,
    ensures
        result@ == enterprise_result(config@, tokens@, graph, arm@),
{
    let graph_claims = decode_claims(&tokens.graph);
    let claims = enterprise_claims(config, tokens);
    let scopes = graph_claims.permissions();
    let mut permissions = classify_scopes(&scopes);
    merge_permissions(&mut permissions, &arm.permissions);
    let severity = derive_enterprise_severity(&permissions, &graph.memberships, &arm);
    let mut roles = bind_roles(&graph_claims, &graph.memberships);
    add_all(&mut roles, arm.roles);
    let mut resources = graph.resources;
    add_all(&mut resources, arm.resources);
    if resources.len() == 0 {
        let tenant = unwrap_text(&claims.tenant_id, "unknown_tenant");
        push_view(
            &mut resources,
            ResourceExposure::new(
                "entra_tenant",
                tenant.as_str(),
                copy_texts(&scopes),
                Severity::Medium,
                "Azure credential authenticated, but resource enumeration was restricted",
            ),
        );
    }
    assert(views(resources@) =~= enterprise_resources(
        views(graph.resources@),
        arm@.resources,
        claims@,
        texts(scopes@),
    ));
    let mut advice = build_recommendations(severity);
    push_text(
        &mut advice,
        "Review Microsoft Graph admin consent, Entra directory roles, and Azure RBAC assignments".to_owned(),
    );
    if config.client_secret.is_some() {
        push_text(
            &mut advice,
            "Replace long-lived client secrets with managed identity, workload identity federation, or certificate authentication".to_owned(),
        );
    }
    let access_type: &str = if claims.is_application() || config.client_secret.is_some() {
        "entra_service_principal"
    } else {
        "entra_delegated_user"
    };
    let tenant: Option<String> = match &graph.organization {
        Some(found) if !found.id.as_str().is_empty() => Some(found.id.clone()),
        _ => copy_opt(&claims.tenant_id),
    };
    let mut risk_notes = arm.risk_notes;
    close_notes(
        &mut risk_notes,
        &graph.organization,
        &graph_claims,
        scopes.len(),
        arm.subscriptions.len(),
    );
    let project: Option<String> = if arm.subscriptions.len() > 0 {
        Some(arm.subscriptions[0].clone())
    } else {
        None
    };
    let enterprise: Option<bool> = match &claims.tenant_id {
        Some(tenant) => Some(!str_eq(tenant.as_str(), MICROSOFT_ACCOUNT_TENANT_ID)),
        None => None,
    };
    AccessMapResult {
        cloud: "azure".to_owned(),
        fingerprint: None,
        identity: AccessSummary {
            id: name_principal(&graph.principal, &claims),
            access_type: access_type.to_owned(),
            project,
            tenant,
            account_id: copy_opt(&claims.client_id),
        },
        roles,
        permissions,
        resources,
        severity,
        recommendations: advice,
        risk_notes,
        token_details: Some(
            detail_token(config, &graph.principal, &claims, access_type, scopes),
        ),
        provider_metadata: Some(
            ProviderMetadata { version: claims.version, enterprise, authorization_evidence: None },
        ),
        mapping_error: None,
    }
}

proof fn lemma_graph_summary(list: Seq<Seq<char>>, n: int, k: int)
    requires
        0 <= k < n <= list.len(),
    ensures
        class_list(graph_summary(list, n), graph_class(list[k])).contains(list[k]),
    decreases n,
{
    let before = graph_summary(list, n - 1);
    lemma_filed(before, graph_class(list[n - 1]), list[n - 1]);
    if k < n - 1 {
        lemma_graph_summary(list, n - 1, k);
        assert(class_list(before, graph_class(list[k])).contains(list[k]));
    }
}

/// What is most dangerous decides, wherever it comes from. A token that carries a Microsoft Graph
/// permission with which the principal can give itself others, a membership in a directory role, and a
/// role on Azure that administers each make the principal critical. A permission to change anything, or
/// any role on Azure, makes it high at least, and a permission to read or a visible subscription medium
/// at least. Every permission that the token carries is reported in its class.
pub proof fn lemma_most_dangerous_decides(
    config: EnterpriseCredentialView,
    tokens: AzureTokensView,
    graph: GraphMapping,
    arm: ArmWalkView,
    k: int,
    m: int,
)
    ensures
        ({
            let result = enterprise_result(config, tokens, graph, arm);
            let claims = claims_of(tokens.graph);
            &&& 0 <= k < claims.roles.len() ==> {
                let name = ascii_lower(claims.roles[k]);
                &&& class_list(result.permissions, graph_class(claims.roles[k])).contains(
                    claims.roles[k],
                )
                &&& name == "rolemanagement.readwrite.directory"@ || name
                    == "approleassignment.readwrite.all"@ || name == "directory.readwrite.all"@ || name
                    == "application.readwrite.all"@ ==> result.severity == Severity::Critical
                &&& holds(name, ".readwrite"@) || ends(name, ".write"@) || ends(name, ".send"@)
                    ==> result.severity == Severity::High || result.severity == Severity::Critical
                &&& result.severity != Severity::Low
            }
            &&& 0 <= m < claims.scopes.len() ==> {
                let name = ascii_lower(claims.scopes[m]);
                &&& class_list(result.permissions, graph_class(claims.scopes[m])).contains(
                    claims.scopes[m],
                )
                &&& name == "rolemanagement.readwrite.directory"@ || name
                    == "approleassignment.readwrite.all"@ || name == "directory.readwrite.all"@ || name
                    == "application.readwrite.all"@ ==> result.severity == Severity::Critical
                &&& holds(name, ".readwrite"@) || ends(name, ".write"@) || ends(name, ".send"@)
                    ==> result.severity == Severity::High || result.severity == Severity::Critical
                &&& result.severity != Severity::Low
            }
            &&& 0 <= k < graph.memberships@.len() && graph.memberships@[k].odata_type is Some && ends(
                graph.memberships@[k].odata_type->0@,
                "directoryRole"@,
            ) ==> result.severity == Severity::Critical
            &&& arm.permissions.admin.len() > 0 || arm.permissions.privilege_escalation.len() > 0
                ==> result.severity == Severity::Critical
            &&& arm.permissions.risky.len() > 0 || arm.roles.len() > 0 ==> result.severity
                == Severity::High || result.severity == Severity::Critical
            &&& arm.permissions.read_only.len() > 0 || arm.subscriptions.len() > 0 ==> result.severity
                != Severity::Low
        }),
{
    let claims = claims_of(tokens.graph);
    let scopes = granted(claims);
    let own = graph_summary(scopes, scopes.len() as int);
    let all = united_summary(own, arm.permissions);
    let members = graph.memberships@;
    assert forall|class: PermissionClass| #[trigger] class_list(all, class).len() > 0 <==> class_list(
        own,
        class,
    ).len() > 0 || class_list(arm.permissions, class).len() > 0 by {
        lemma_united_summary(own, arm.permissions, class, Seq::empty());
    }
    assert(class_list(all, PermissionClass::Admin) == all.admin);
    assert(class_list(all, PermissionClass::PrivilegeEscalation) == all.privilege_escalation);
    assert(class_list(all, PermissionClass::Risky) == all.risky);
    assert(class_list(all, PermissionClass::ReadOnly) == all.read_only);
    if 0 <= k < claims.roles.len() {
        lemma_carried(config, tokens, graph, arm, claims.roles[k]);
    }
    if 0 <= m < claims.scopes.len() {
        lemma_carried(config, tokens, graph, arm, claims.scopes[m]);
    }
    if 0 <= k < members.len() && members[k].odata_type is Some && ends(
        members[k].odata_type->0@,
        "directoryRole"@,
    ) {
        assert(is_directory_role(members[k]));
    }
}

proof fn lemma_carried(
    config: EnterpriseCredentialView,
    tokens: AzureTokensView,
    graph: GraphMapping,
    arm: ArmWalkView,
    scope: Seq<char>,
)
    requires
        claims_of(tokens.graph).roles.contains(scope) || claims_of(tokens.graph).scopes.contains(scope),
    ensures
        ({
            let result = enterprise_result(config, tokens, graph, arm);
            &&& class_list(result.permissions, graph_class(scope)).contains(scope)
            &&& graph_class(scope) == PermissionClass::Admin || graph_class(scope)
                == PermissionClass::PrivilegeEscalation ==> result.severity == Severity::Critical
            &&& graph_class(scope) == PermissionClass::Risky ==> result.severity == Severity::High
                || result.severity == Severity::Critical
            &&& result.severity != Severity::Low
            &&& ({
                let name = ascii_lower(scope);
                &&& name == "rolemanagement.readwrite.directory"@ || name
                    == "approleassignment.readwrite.all"@ || name == "directory.readwrite.all"@ || name
                    == "application.readwrite.all"@ ==> graph_class(scope)
                    == PermissionClass::PrivilegeEscalation
                &&& holds(name, ".readwrite"@) || ends(name, ".write"@) || ends(name, ".send"@)
                    ==> graph_class(scope) != PermissionClass::ReadOnly
            })
        }),
{
    let claims = claims_of(tokens.graph);
    let raw = claims.roles + claims.scopes;
    let scopes = granted(claims);
    if claims.roles.contains(scope) {
        let i = choose|i: int| 0 <= i < claims.roles.len() && claims.roles[i] == scope;
        assert(raw[i] == scope);
    } else {
        let i = choose|i: int| 0 <= i < claims.scopes.len() && claims.scopes[i] == scope;
        assert(raw[claims.roles.len() + i] == scope);
    }
    lemma_in_order(raw);
    assert(raw.contains(scope));
    assert(in_order(raw).contains(scope));
    let i = choose|i: int| 0 <= i < scopes.len() && scopes[i] == scope;
    let own = graph_summary(scopes, scopes.len() as int);
    lemma_graph_summary(scopes, scopes.len() as int, i);
    lemma_united_summary(own, arm.permissions, graph_class(scope), scope);
    lemma_graph_permissions_are_filed_by_their_power(scope);
}

/// Nothing but these makes a principal critical.
pub proof fn lemma_nothing_else_is_critical(
    config: EnterpriseCredentialView,
    tokens: AzureTokensView,
    graph: GraphMapping,
    arm: ArmWalkView,
)
    requires
        enterprise_result(config, tokens, graph, arm).severity == Severity::Critical,
    ensures
        ({
            let result = enterprise_result(config, tokens, graph, arm);
            ||| result.permissions.admin.len() > 0
            ||| result.permissions.privilege_escalation.len() > 0
            ||| exists|k: int|
                0 <= k < graph.memberships@.len() && (#[trigger] graph.memberships@[k]).odata_type is Some
                    && ends(graph.memberships@[k].odata_type->0@, "directoryRole"@)
        }),
{
    let members = graph.memberships@;
    if some_directory_role(members) {
        let k = choose|k: int| 0 <= k < members.len() && is_directory_role(#[trigger] members[k]);
        assert(members[k].odata_type is Some);
    }
}

/// Who a credential stands for: one with a secret, or with the token of an application, for a service
/// principal, any other for a user, under the tenant and the client that its tokens or its file name and the
/// first subscription in sight. All permissions of its Microsoft Graph token are one of its roles.
pub proof fn lemma_identities_are_told(
    config: EnterpriseCredentialView,
    tokens: AzureTokensView,
    graph: GraphMapping,
    arm: ArmWalkView,
)
    ensures
        ({
            let result = enterprise_result(config, tokens, graph, arm);
            let claims = all_claims(config, tokens);
            let carried = granted(claims_of(tokens.graph));
            &&& config.client_secret is Some ==> result.identity.access_type
                == "entra_service_principal"@
            &&& of_application(claims) ==> result.identity.access_type == "entra_service_principal"@
            &&& config.client_secret is None && !of_application(claims) ==> result.identity.access_type
                == "entra_delegated_user"@
            &&& result.identity.account_id == claims.client_id
            &&& claims.client_id is None ==> config.client_id is None
            &&& graph.organization is None ==> result.identity.tenant == claims.tenant_id
            &&& graph.organization is Some && graph.organization->0.id@.len() > 0
                ==> result.identity.tenant == Some(graph.organization->0.id@)
            &&& arm.subscriptions.len() > 0 ==> result.identity.project == Some(arm.subscriptions[0])
            &&& arm.subscriptions.len() == 0 ==> result.identity.project is None
            &&& carried.len() > 0 ==> result.roles.len() > 0 && result.roles[0].permissions == carried
            &&& forall|k: int|
                0 <= k < graph.resources@.len() ==> #[trigger] result.resources[k]
                    == graph.resources@[k]@
            &&& forall|k: int|
                0 <= k < arm.resources.len() ==> result.resources[graph.resources@.len() + k]
                    == #[trigger] arm.resources[k]
            &&& config.client_secret is Some ==> result.recommendations.contains(
                "Replace long-lived client secrets with managed identity, workload identity federation, or certificate authentication"@,
            )
        }),
{
    let result = enterprise_result(config, tokens, graph, arm);
    if config.client_secret is Some {
        assert(result.recommendations[4]
            == "Replace long-lived client secrets with managed identity, workload identity federation, or certificate authentication"@);
    }
}

/// Every group that the principal belongs to is looked up with the principal, by its ID, and no one who was
/// to be looked up is dropped for it.
pub proof fn lemma_groups_are_looked_up(
    list: Seq<(Seq<char>, Seq<char>)>,
    members: Seq<GraphDirectoryObject>,
    n: int,
    k: int,
)
    requires
        0 <= n <= members.len(),
    ensures
        0 <= k < n && members[k].odata_type is Some && ends(members[k].odata_type->0@, "group"@)
            && members[k].id@.len() > 0 ==> exists|i: int|
            0 <= i < with_member_groups(list, members, n).len() && (#[trigger] with_member_groups(
                list,
                members,
                n,
            )[i]).0 == members[k].id@,
        0 <= k < list.len() ==> exists|i: int|
            0 <= i < with_member_groups(list, members, n).len() && (#[trigger] with_member_groups(
                list,
                members,
                n,
            )[i]).0 == list[k].0,
    decreases n,
{
    let now = with_member_groups(list, members, n);
    if n > 0 {
        let before = with_member_groups(list, members, n - 1);
        let member = members[n - 1];
        lemma_groups_are_looked_up(list, members, n - 1, k);
        let label = "Entra group "@ + text_or(member.display_name, member.id@);
        lemma_put_keeps(before, member.id@, label);
        if is_group(member) && member.id@.len() > 0 {
            let own = choose|i: int| 0 <= i < now.len() && now[i] == (member.id@, label);
            assert(now[own].0 == member.id@);
            assert forall|j: int| 0 <= j < before.len() implies exists|i: int|
                0 <= i < now.len() && (#[trigger] now[i]).0 == (#[trigger] before[j]).0 by {
                if before[j].0 == member.id@ {
                    assert(now[own].0 == before[j].0);
                } else {
                    let i = choose|i: int| 0 <= i < now.len() && now[i] == before[j];
                    assert(now[i].0 == before[j].0);
                }
            }
        }
    } else if 0 <= k < list.len() {
        assert(now[k].0 == list[k].0);
    }
}

} // verus!
