//! What Microsoft Graph says of a principal.

use vstd::prelude::*;
use crate::azure::claims::{granted, of_application, TokenClaims, TokenClaimsView};
use crate::model::{
    exposure, no_views, push_view, views, ResourceExposure, ResourceExposureView, Severity,
};
use crate::text::{
    begins, cat2, cat3, decimal, either, ends, ends_with, no_texts, opt_text, or_text, push_text,
    text_or, texts, unwrap_text, usize_text,
};

verus! {

/// A user or a service principal.
#[derive(Debug)]
pub struct GraphPrincipal {
    pub id: String,
    pub app_id: Option<String>,
    pub display_name: Option<String>,
    pub user_principal_name: Option<String>,
    pub mail: Option<String>,
    pub user_type: Option<String>,
    pub service_principal_type: Option<String>,
    pub account_enabled: Option<bool>,
    pub app_owner_organization_id: Option<String>,
}

/// A group or a directory role that a principal belongs to.
#[derive(Debug)]
pub struct GraphDirectoryObject {
    pub id: String,
    pub display_name: Option<String>,
    pub odata_type: Option<String>,
}

/// A tenant.
#[derive(Debug)]
pub struct GraphOrganization {
    pub id: String,
    pub display_name: Option<String>,
}

/// What Microsoft Graph answered. What a path would have asked for is looked at only where there is
/// such a path.
#[derive(Debug)]
pub struct GraphReplies {
    pub principal: Result<GraphPrincipal, String>,
    pub organizations: Result<Vec<GraphOrganization>, String>,
    pub memberships: Result<Vec<GraphDirectoryObject>, String>,
}

/// What is known of a principal from Microsoft Graph.
#[derive(Debug)]
pub struct GraphMapping {
    pub principal: Option<GraphPrincipal>,
    pub organization: Option<GraphOrganization>,
    pub memberships: Vec<GraphDirectoryObject>,
    pub resources: Vec<ResourceExposure>,
}

/// Where the principal behind a token is described: a user under its own name, an application under
/// the object that the token names.
pub open spec fn path_to_principal(claims: TokenClaimsView) -> Option<Seq<char>> {
    if of_application(claims) {
        match claims.object_id {
            Some(id) => Some(
                "v1.0/servicePrincipals/"@ + id
                    + "?$select=id,appId,displayName,servicePrincipalType,accountEnabled,appOwnerOrganizationId"@,
            ),
            None => None,
        }
    } else {
        Some("v1.0/me?$select=id,displayName,userPrincipalName,mail,userType,accountEnabled"@)
    }
}

pub fn principal_path(claims: &TokenClaims) -> (path: Option<String>)
    ensures
        opt_text(path) == path_to_principal(claims@),
{
    if claims.is_application() {
        match &claims.object_id {
            Some(id) => Some(
                cat3(
                    "v1.0/servicePrincipals/",
                    id.as_str(),
                    "?$select=id,appId,displayName,servicePrincipalType,accountEnabled,appOwnerOrganizationId",
                ),
            ),
            None => None,
        }
    } else {
        Some(
            "v1.0/me?$select=id,displayName,userPrincipalName,mail,userType,accountEnabled".to_owned(),
        )
    }
}

/// Where the groups and roles of a principal are listed.
pub open spec fn path_to_memberships(claims: TokenClaimsView) -> Option<Seq<char>> {
    if of_application(claims) {
        match claims.object_id {
            Some(id) => Some(
                "v1.0/servicePrincipals/"@ + id + "/transitiveMemberOf?$select=id,displayName"@,
            ),
            None => None,
        }
    } else {
        Some("v1.0/me/transitiveMemberOf?$select=id,displayName"@)
    }
}

pub fn membership_path(claims: &TokenClaims) -> (path: Option<String>)
    ensures
        opt_text(path) == path_to_memberships(claims@),
{
    if claims.is_application() {
        match &claims.object_id {
            Some(id) => Some(
                cat3(
                    "v1.0/servicePrincipals/",
                    id.as_str(),
                    "/transitiveMemberOf?$select=id,displayName",
                ),
            ),
            None => None,
        }
    } else {
        Some("v1.0/me/transitiveMemberOf?$select=id,displayName".to_owned())
    }
}

/// How a flag is written.
pub open spec fn flag_text(flag: bool) -> Seq<char> {
    if flag {
        "true"@
    } else {
        "false"@
    }
}

/// What is told of a principal beside its name.
pub open spec fn principal_facts(principal: GraphPrincipal) -> Seq<Seq<char>> {
    let kind = either(
        opt_text(principal.service_principal_type),
        opt_text(principal.user_type),
    );
    let with_kind = match kind {
        Some(text) => seq!["type:"@ + text],
        None => Seq::empty(),
    };
    let with_flag = match principal.account_enabled {
        Some(flag) => with_kind.push("account_enabled:"@ + flag_text(flag)),
        None => with_kind,
    };
    match principal.app_owner_organization_id {
        Some(owner) => with_flag.push("app_owner_tenant:"@ + owner@),
        None => with_flag,
    }
}

/// How a principal is called.
pub open spec fn principal_name(principal: GraphPrincipal) -> Seq<char> {
    match either(
        opt_text(principal.display_name),
        either(opt_text(principal.user_principal_name), opt_text(principal.app_id)),
    ) {
        Some(name) => name,
        None => principal.id@,
    }
}

/// The resource that stands for a principal.
pub open spec fn principal_exposure(principal: GraphPrincipal, application: bool) -> ResourceExposureView {
    exposure(
        if application {
            "entra_service_principal"@
        } else {
            "entra_user"@
        },
        principal_name(principal),
        principal_facts(principal),
        Severity::High,
        "Microsoft Graph resolved the authenticated Entra principal"@,
    )
}

fn expose_principal(principal: &GraphPrincipal, application: bool) -> (resource: ResourceExposure)
    ensures
        resource@ == principal_exposure(*principal, application),
{
    let mut facts = no_texts();
    match or_text(&principal.service_principal_type, &principal.user_type) {
        Some(kind) => {
            push_text(&mut facts, cat2("type:", kind.as_str()));
            assert(texts(facts@) =~= seq!["type:"@ + kind@]);
        },
        None => {},
    }
    match principal.account_enabled {
        Some(flag) => {
            let text: &str = if flag {
                "true"
            } else {
                "false"
            };
            push_text(&mut facts, cat2("account_enabled:", text));
        },
        None => {},
    }
    match &principal.app_owner_organization_id {
        Some(owner) => push_text(&mut facts, cat2("app_owner_tenant:", owner.as_str())),
        None => {},
    }
    let other = or_text(&principal.user_principal_name, &principal.app_id);
    let name = unwrap_text(&or_text(&principal.display_name, &other), principal.id.as_str());
    let resource_type: &str = if application {
        "entra_service_principal"
    } else {
        "entra_user"
    };
    ResourceExposure::new(
        resource_type,
        name.as_str(),
        facts,
        Severity::High,
        "Microsoft Graph resolved the authenticated Entra principal",
    )
}

/// The principal that Microsoft Graph described.
pub open spec fn found_principal(claims: TokenClaimsView, reply: Result<GraphPrincipal, String>) -> Option<
    GraphPrincipal,
> {
    match reply {
        Ok(principal) if path_to_principal(claims) is Some => Some(principal),
        _ => None,
    }
}

/// The notes once the principal was asked for.
pub open spec fn principal_notes(
    notes: Seq<Seq<char>>,
    claims: TokenClaimsView,
    reply: Result<GraphPrincipal, String>,
) -> Seq<Seq<char>> {
    if path_to_principal(claims) is None {
        notes.push(
            "Access token did not expose an object ID; service-principal lookup was skipped"@,
        )
    } else {
        match reply {
            Ok(_) => notes,
            Err(error) => notes.push("Microsoft Graph principal lookup failed: "@ + error@),
        }
    }
}

/// The tenant that Microsoft Graph described.
pub open spec fn found_organization(reply: Result<Vec<GraphOrganization>, String>) -> Option<
    GraphOrganization,
> {
    match reply {
        Ok(list) => if list@.len() > 0 {
            Some(list@[0])
        } else {
            None
        },
        Err(_) => None,
    }
}

/// The notes once the tenant was asked for.
pub open spec fn organization_notes(
    notes: Seq<Seq<char>>,
    reply: Result<Vec<GraphOrganization>, String>,
) -> Seq<Seq<char>> {
    match reply {
        Ok(_) => notes,
        Err(error) => notes.push("Microsoft Graph tenant lookup was restricted: "@ + error@),
    }
}

/// The resource that stands for a tenant.
pub open spec fn tenant_exposure(
    organization: GraphOrganization,
    permissions: Seq<Seq<char>>,
) -> ResourceExposureView {
    exposure(
        "entra_tenant"@,
        text_or(organization.display_name, organization.id@),
        permissions,
        Severity::High,
        "Microsoft Entra tenant reachable through Microsoft Graph"@,
    )
}

/// Whether a membership is in a directory role.
pub open spec fn is_directory_role(membership: GraphDirectoryObject) -> bool {
    match membership.odata_type {
        Some(kind) => ends(kind@, "directoryRole"@),
        None => false,
    }
}

/// Whether a membership is in a group.
pub open spec fn is_group(membership: GraphDirectoryObject) -> bool {
    match membership.odata_type {
        Some(kind) => ends(kind@, "group"@),
        None => false,
    }
}

impl GraphDirectoryObject {
    pub fn in_directory_role(&self) -> (yes: bool)
        ensures
            yes == is_directory_role(*self),
    {
        match &self.odata_type {
            Some(kind) => ends_with(kind.as_str(), "directoryRole"),
            None => false,
        }
    }

    pub fn in_group(&self) -> (yes: bool)
        ensures
            yes == is_group(*self),
    {
        match &self.odata_type {
            Some(kind) => ends_with(kind.as_str(), "group"),
            None => false,
        }
    }
}

/// The memberships that Microsoft Graph listed.
pub open spec fn found_memberships(
    claims: TokenClaimsView,
    reply: Result<Vec<GraphDirectoryObject>, String>,
) -> Seq<GraphDirectoryObject> {
    match reply {
        Ok(list) if path_to_memberships(claims) is Some => list@,
        _ => Seq::empty(),
    }
}

/// The notes once the memberships were asked for.
pub open spec fn membership_notes(
    notes: Seq<Seq<char>>,
    claims: TokenClaimsView,
    reply: Result<Vec<GraphDirectoryObject>, String>,
) -> Seq<Seq<char>> {
    match reply {
        Err(error) if path_to_memberships(claims) is Some => notes.push(
            "Microsoft Graph membership lookup was restricted: "@ + error@,
        ),
        _ => notes,
    }
}

/// The resource that stands for a membership.
pub open spec fn membership_exposure(membership: GraphDirectoryObject) -> ResourceExposureView {
    let name = text_or(membership.display_name, membership.id@);
    if is_directory_role(membership) {
        exposure(
            "entra_directory_role"@,
            name,
            Seq::empty(),
            Severity::Critical,
            "Authenticated principal is transitively assigned this directory role"@,
        )
    } else {
        exposure(
            "entra_group"@,
            name,
            Seq::empty(),
            Severity::Medium,
            "Authenticated principal is transitively a member of this Entra group"@,
        )
    }
}

fn expose_membership(membership: &GraphDirectoryObject) -> (resource: ResourceExposure)
    ensures
        resource@ == membership_exposure(*membership),
{
    let name = unwrap_text(&membership.display_name, membership.id.as_str());
    if membership.in_directory_role() {
        ResourceExposure::new(
            "entra_directory_role",
            name.as_str(),
            no_texts(),
            Severity::Critical,
            "Authenticated principal is transitively assigned this directory role",
        )
    } else {
        ResourceExposure::new(
            "entra_group",
            name.as_str(),
            no_texts(),
            Severity::Medium,
            "Authenticated principal is transitively a member of this Entra group",
        )
    }
}

/// The resources that stand for memberships.
pub open spec fn membership_exposures(list: Seq<GraphDirectoryObject>) -> Seq<ResourceExposureView> {
    list.map_values(|membership: GraphDirectoryObject| membership_exposure(membership))
}

/// The resources that stand for groups of which a token names the IDs alone.
pub open spec fn claimed_groups(groups: Seq<Seq<char>>) -> Seq<ResourceExposureView> {
    groups.map_values(
        |group: Seq<char>|
            exposure(
                "entra_group"@,
                group,
                Seq::empty(),
                Severity::Medium,
                "Group membership was present in the access token claims"@,
            ),
    )
}

/// Whether a token names groups that Microsoft Graph did not list.
pub open spec fn only_claimed(claims: TokenClaimsView, members: Seq<GraphDirectoryObject>) -> bool {
    claims.groups.len() > 0 && members.len() == 0
}

/// The resources that Microsoft Graph shows.
pub open spec fn graph_resources(claims: TokenClaimsView, replies: GraphReplies) -> Seq<
    ResourceExposureView,
> {
    let members = found_memberships(claims, replies.memberships);
    (match found_principal(claims, replies.principal) {
        Some(principal) => seq![principal_exposure(principal, of_application(claims))],
        None => Seq::empty(),
    }) + (match found_organization(replies.organizations) {
        Some(organization) => seq![tenant_exposure(organization, granted(claims))],
        None => Seq::empty(),
    }) + membership_exposures(members) + (if only_claimed(claims, members) {
        claimed_groups(claims.groups)
    } else {
        Seq::empty()
    })
}

/// The notes once Microsoft Graph was asked.
pub open spec fn graph_notes(
    notes: Seq<Seq<char>>,
    claims: TokenClaimsView,
    replies: GraphReplies,
) -> Seq<Seq<char>> {
    let members = found_memberships(claims, replies.memberships);
    let asked = membership_notes(
        organization_notes(
            principal_notes(notes, claims, replies.principal),
            replies.organizations,
        ),
        claims,
        replies.memberships,
    );
    let with_groups = if only_claimed(claims, members) {
        asked.push(
            "Token claims expose "@ + decimal(claims.groups.len())
                + " group membership ID(s), but Graph could not resolve names"@,
        )
    } else {
        asked
    };
    if claims.directory_roles.len() > 0 {
        with_groups.push(
            "Token claims expose "@ + decimal(claims.directory_roles.len())
                + " Entra directory role template ID(s)"@,
        )
    } else {
        with_groups
    }
}

fn expose_memberships(resources: &mut Vec<ResourceExposure>, list: &Vec<GraphDirectoryObject>)
    ensures
        views(final(resources)@) == views(old(resources)@) + membership_exposures(list@),
{
    let ghost before = views(resources@);
    let ghost all = membership_exposures(list@);
    let mut i: usize = 0;
    assert(views(resources@) =~= before + all.take(0));
    while i < list.len()
        invariant
            i <= list@.len(),
            all == membership_exposures(list@),
            views(resources@) == before + all.take(i as int),
        decreases list@.len() - i,
    {
        push_view(resources, expose_membership(&list[i]));
        i = i + 1;
        assert(views(resources@) =~= before + all.take(i as int));
    }
    assert(all.take(list@.len() as int) =~= all);
}

fn expose_claimed_groups(resources: &mut Vec<ResourceExposure>, groups: &Vec<String>)
    ensures
        views(final(resources)@) == views(old(resources)@) + claimed_groups(texts(groups@)),
{
    let ghost before = views(resources@);
    let ghost all = claimed_groups(texts(groups@));
    let mut i: usize = 0;
    assert(views(resources@) =~= before + all.take(0));
    while i < groups.len()
        invariant
            i <= groups@.len(),
            all == claimed_groups(texts(groups@)),
            views(resources@) == before + all.take(i as int),
        decreases groups@.len() - i,
    {
        push_view(
            resources,
            ResourceExposure::new(
                "entra_group",
                groups[i].as_str(),
                no_texts(),
                Severity::Medium,
                "Group membership was present in the access token claims",
            ),
        );
        i = i + 1;
        assert(texts(groups@)[i - 1] == groups@[i - 1]@);
        assert(views(resources@) =~= before + all.take(i as int));
    }
    assert(all.take(groups@.len() as int) =~= all);
}

pub fn map_graph_access(claims: &TokenClaims, replies: GraphReplies, risk_notes: &mut Vec<String>) -> (mapping:
    GraphMapping)
    ensures
        mapping.principal == found_principal(claims@, replies.principal),
        mapping.organization == found_organization(replies.organizations),
        mapping.memberships@ == found_memberships(claims@, replies.memberships),
        views(mapping.resources@) == graph_resources(claims@, replies),
        texts(final(risk_notes)@) == graph_notes(texts(old(risk_notes)@), claims@, replies),
{
    let application = claims.is_application();
    let mut resources: Vec<ResourceExposure> = no_views();
    let mut principal: Option<GraphPrincipal> = None;
    match principal_path(claims) {
        Some(_) => match replies.principal {
            Ok(found) => {
                push_view(&mut resources, expose_principal(&found, application));
                principal = Some(found);
            },
            Err(error) => {
                push_text(
                    risk_notes,
                    cat2("Microsoft Graph principal lookup failed: ", error.as_str()),
                );
            },
        },
        None => {
            push_text(
                risk_notes,
                "Access token did not expose an object ID; service-principal lookup was skipped".to_owned(),
            );
        },
    }
    let ghost first = (match found_principal(claims@, replies.principal) {
        Some(principal) => seq![principal_exposure(principal, of_application(claims@))],
        None => Seq::empty(),
    });
    assert(views(resources@) =~= first);
    let mut organization: Option<GraphOrganization> = None;
    match replies.organizations {
        Ok(list) => {
            let mut list = list;
            if list.len() > 0 {
                let found = list.remove(0);
                let name = unwrap_text(&found.display_name, found.id.as_str());
                push_view(
                    &mut resources,
                    ResourceExposure::new(
                        "entra_tenant",
                        name.as_str(),
                        claims.permissions(),
                        Severity::High,
                        "Microsoft Entra tenant reachable through Microsoft Graph",
                    ),
                );
                organization = Some(found);
            }
        },
        Err(error) => {
            push_text(
                risk_notes,
                cat2("Microsoft Graph tenant lookup was restricted: ", error.as_str()),
            );
        },
    }
    let ghost second = (match found_organization(replies.organizations) {
        Some(organization) => seq![tenant_exposure(organization, granted(claims@))],
        None => Seq::empty(),
    });
    assert(views(resources@) =~= first + second);
    let mut memberships: Vec<GraphDirectoryObject> = Vec::new();
    match membership_path(claims) {
        Some(_) => match replies.memberships {
            Ok(list) => {
                expose_memberships(&mut resources, &list);
                memberships = list;
            },
            Err(error) => {
                push_text(
                    risk_notes,
                    cat2("Microsoft Graph membership lookup was restricted: ", error.as_str()),
                );
            },
        },
        None => {},
    }
    assert(memberships@ =~= found_memberships(claims@, replies.memberships));
    let ghost third = membership_exposures(memberships@);
    assert(views(resources@) =~= first + second + third);
    if claims.groups.len() > 0 && memberships.len() == 0 {
        push_text(
            risk_notes,
            cat3(
                "Token claims expose ",
                usize_text(claims.groups.len()).as_str(),
                " group membership ID(s), but Graph could not resolve names",
            ),
        );
        expose_claimed_groups(&mut resources, &claims.groups);
    }
    assert(views(resources@) =~= graph_resources(claims@, replies));
    if claims.directory_roles.len() > 0 {
        push_text(
            risk_notes,
            cat3(
                "Token claims expose ",
                usize_text(claims.directory_roles.len()).as_str(),
                " Entra directory role template ID(s)",
            ),
        );
    }
    GraphMapping { principal, organization, memberships, resources }
}

/// What Microsoft Graph shows is reported: the principal and the tenant by their names, and each membership,
/// one in a directory role at critical risk and any other at medium. The groups that the token names
/// are reported where Graph refused to list any.
pub proof fn lemma_graph_replies_are_reported(claims: TokenClaimsView, replies: GraphReplies, k: int)
    ensures
        ({
            let resources = graph_resources(claims, replies);
            &&& replies.principal is Ok && path_to_principal(claims) is Some
                && replies.principal->Ok_0.display_name is Some ==> shows(
                resources,
                if of_application(claims) {
                    "entra_service_principal"@
                } else {
                    "entra_user"@
                },
                replies.principal->Ok_0.display_name->0@,
                "high"@,
            )
            &&& replies.organizations is Ok && replies.organizations->Ok_0@.len() > 0
                && replies.organizations->Ok_0@[0].display_name is Some ==> shows(
                resources,
                "entra_tenant"@,
                replies.organizations->Ok_0@[0].display_name->0@,
                "high"@,
            )
            &&& match replies.memberships {
                Ok(list) => 0 <= k < list@.len() && path_to_memberships(claims) is Some
                    && list@[k].odata_type is Some && list@[k].display_name is Some ==> {
                    &&& ends(list@[k].odata_type->0@, "directoryRole"@) ==> shows(
                        resources,
                        "entra_directory_role"@,
                        list@[k].display_name->0@,
                        "critical"@,
                    )
                    &&& !ends(list@[k].odata_type->0@, "directoryRole"@) ==> shows(
                        resources,
                        "entra_group"@,
                        list@[k].display_name->0@,
                        "medium"@,
                    )
                },
                Err(_) => 0 <= k < claims.groups.len() ==> shows(
                    resources,
                    "entra_group"@,
                    claims.groups[k],
                    "medium"@,
                ),
            }
        }),
{
    let resources = graph_resources(claims, replies);
    let members = found_memberships(claims, replies.memberships);
    let one: Seq<ResourceExposureView> = match found_principal(claims, replies.principal) {
        Some(principal) => seq![principal_exposure(principal, of_application(claims))],
        None => Seq::empty(),
    };
    let two: Seq<ResourceExposureView> = match found_organization(replies.organizations) {
        Some(organization) => seq![tenant_exposure(organization, granted(claims))],
        None => Seq::empty(),
    };
    if one.len() > 0 {
        assert(resources[0] == one[0]);
    }
    if two.len() > 0 {
        assert(resources[one.len() as int] == two[0]);
    }
    if 0 <= k < members.len() {
        assert(membership_exposures(members)[k] == membership_exposure(members[k]));
        assert(resources[one.len() + two.len() + k] == membership_exposure(members[k]));
    }
    if members.len() == 0 && 0 <= k < claims.groups.len() {
        assert(resources[one.len() + two.len() + k] == claimed_groups(claims.groups)[k]);
    }
}

/// Whether a resource of some type and name is shown at some risk.
pub open spec fn shows(
    resources: Seq<ResourceExposureView>,
    resource_type: Seq<char>,
    name: Seq<char>,
    risk: Seq<char>,
) -> bool {
    exists|i: int|
        0 <= i < resources.len() && (#[trigger] resources[i]).resource_type == resource_type
            && resources[i].name == name && resources[i].risk == risk
}

/// Nothing that Microsoft Graph refused goes unnoted, and no earlier note is lost.
pub proof fn lemma_graph_refusals_are_noted(
    notes: Seq<Seq<char>>,
    claims: TokenClaimsView,
    replies: GraphReplies,
)
    ensures
        ({
            let after = graph_notes(notes, claims, replies);
            &&& forall|k: int| 0 <= k < notes.len() ==> #[trigger] after[k] == notes[k]
            &&& path_to_principal(claims) is Some && replies.principal is Err ==> after.contains(
                "Microsoft Graph principal lookup failed: "@ + replies.principal->Err_0@,
            )
            &&& replies.organizations is Err ==> after.contains(
                "Microsoft Graph tenant lookup was restricted: "@ + replies.organizations->Err_0@,
            )
            &&& path_to_memberships(claims) is Some && replies.memberships is Err ==> after.contains(
                "Microsoft Graph membership lookup was restricted: "@ + replies.memberships->Err_0@,
            )
        }),
{
    let after = graph_notes(notes, claims, replies);
    let one = principal_notes(notes, claims, replies.principal);
    let two = organization_notes(one, replies.organizations);
    if path_to_principal(claims) is Some && replies.principal is Err {
        assert(after[notes.len() as int] == "Microsoft Graph principal lookup failed: "@
            + replies.principal->Err_0@);
    }
    if replies.organizations is Err {
        assert(after[one.len() as int] == "Microsoft Graph tenant lookup was restricted: "@
            + replies.organizations->Err_0@);
    }
    if path_to_memberships(claims) is Some && replies.memberships is Err {
        assert(after[two.len() as int] == "Microsoft Graph membership lookup was restricted: "@
            + replies.memberships->Err_0@);
    }
}

/// A user is asked for under its own name, an application under the object that the token names, and an
/// application without one not at all.
pub proof fn lemma_principals_are_asked_for(claims: TokenClaimsView)
    ensures
        claims.token_type == Some("app"@) && claims.object_id is None ==> path_to_principal(claims) is None
            && path_to_memberships(claims) is None,
        claims.token_type == Some("app"@) && claims.object_id is Some ==> begins(
            path_to_principal(claims)->0,
            "v1.0/servicePrincipals/"@ + claims.object_id->0,
        ) && begins(
            path_to_memberships(claims)->0,
            "v1.0/servicePrincipals/"@ + claims.object_id->0,
        ),
        !of_application(claims) ==> begins(path_to_principal(claims)->0, "v1.0/me"@) && begins(
            path_to_memberships(claims)->0,
            "v1.0/me/"@,
        ),
{
    if claims.token_type == Some("app"@) && claims.object_id is Some {
        let start = "v1.0/servicePrincipals/"@ + claims.object_id->0;
        let one = path_to_principal(claims)->0;
        let two = path_to_memberships(claims)->0;
        assert(one.subrange(0, start.len() as int) =~= start);
        assert(two.subrange(0, start.len() as int) =~= start);
    }
    if !of_application(claims) {
        reveal_strlit("v1.0/me");
        reveal_strlit("v1.0/me/");
        reveal_strlit(
            "v1.0/me?$select=id,displayName,userPrincipalName,mail,userType,accountEnabled",
        );
        reveal_strlit("v1.0/me/transitiveMemberOf?$select=id,displayName");
        assert(path_to_principal(claims)->0 .subrange(0, 7) =~= "v1.0/me"@);
        assert(path_to_memberships(claims)->0 .subrange(0, 8) =~= "v1.0/me/"@);
    }
}

} // verus!
