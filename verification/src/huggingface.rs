//! Hugging Face tokens.

use vstd::prelude::*;
use crate::mapping::{build_recommendations, recommendations};
use crate::model::{
    binding, empty_access_token_details, empty_permission_summary, exposure, no_views, opt_view,
    push_view, result_view, views, AccessMapResult, AccessMapResultView, AccessSummary,
    AccessSummaryView, AccessTokenDetails, AccessTokenDetailsView, PermissionSummary,
    PermissionSummaryView, ResourceExposure, ResourceExposureView, RoleBinding, RoleBindingView,
    Severity,
};
use crate::permissions::{
    file_permission, filed, sort_permission_summary, sorted_summary, PermissionClass,
};
use crate::text::{
    ascii_lower, cat2, cat3, cat4, cat5, contains, copy_opt, cut, decimal, either, holds, lowered,
    no_texts, one_text, opt_text, or_text, pieces, push_text, split, split_once, str_eq, text_or,
    texts, to_ascii_lowercase, to_lowercase, trim, trim_start_char, trimmed, u64_text, unwrap_text,
    without_leading,
};
use crate::url::{parse_url, parsed_url, UrlParts, UrlPartsView};

verus! {

pub const HUGGINGFACE_API: &'static str = "https://huggingface.co/api";

/// An organization that a user belongs to.
#[derive(Debug)]
pub struct HfOrg {
    pub name: Option<String>,
    pub role_in_org: Option<String>,
}

/// Who a token belongs to and what it is.
#[derive(Debug)]
pub struct HfWhoAmI {
    pub name: Option<String>,
    pub full_name: Option<String>,
    pub email: Option<String>,
    pub kind: Option<String>,
    pub orgs: Vec<HfOrg>,
    pub token_type: Option<String>,
    pub token_name: Option<String>,
    pub token_role: Option<String>,
    pub token_created_at: Option<String>,
}

/// A model, a dataset, a Space or a bucket.
#[derive(Debug)]
pub struct HfResource {
    pub id: String,
    pub resource_type: String,
    pub visibility: String,
    pub storage: Option<u64>,
}

/// What Hugging Face answered: who the token belongs to, what the user has and, for each
/// organization of the user, what it has. What stands for an organization without a name is not
/// looked at.
#[derive(Debug)]
pub struct HfReplies {
    pub whoami: HfWhoAmI,
    pub user_inventory: Result<Vec<HfResource>, String>,
    pub org_inventories: Vec<Result<Vec<HfResource>, String>>,
}

/// What is said of an identity lookup that was refused.
pub fn whoami_failed(status: &str) -> (error: String)
    ensures
        error@ == "Hugging Face access-map: whoami failed with HTTP "@ + status@,
{
    cat2("Hugging Face access-map: whoami failed with HTTP ", status)
}

/// What is said of a listing that was refused.
pub fn inventory_failed(status: &str) -> (error: String)
    ensures
        error@ == "Hugging Face access-map: unified resource enumeration failed with HTTP "@ + status@,
{
    cat2("Hugging Face access-map: unified resource enumeration failed with HTTP ", status)
}

/// Where the resources of a user, or those of an organization, are listed.
pub open spec fn inventory_text(organization: Option<Seq<char>>) -> Seq<char> {
    match organization {
        Some(org) => HUGGINGFACE_API@ + "/organizations/"@ + org + "/settings/repositories"@,
        None => HUGGINGFACE_API@ + "/settings/repositories"@,
    }
}

/// Says where the resources of a user, or those of an organization, are listed.
pub fn inventory_url(organization: &Option<String>) -> (url: Result<UrlParts, String>)
    ensures
        result_view(url) == parsed_url(inventory_text(opt_text(*organization))),
{
    let text = match organization {
        Some(org) => cat4(
            HUGGINGFACE_API,
            "/organizations/",
            org.as_str(),
            "/settings/repositories",
        ),
        None => cat2(HUGGINGFACE_API, "/settings/repositories"),
    };
    parse_url(text.as_str())
}

/// The URL that one part of a `Link` header names as the next page.
pub open spec fn next_in_part(part: Seq<char>) -> Option<UrlPartsView> {
    match cut(trimmed(part), ">"@) {
        None => None,
        Some((target, params)) => if holds(params, "rel=\"next\""@) {
            match parsed_url(trimmed(without_leading(target, '<'))) {
                Ok(url) => Some(url),
                Err(_) => None,
            }
        } else {
            None
        },
    }
}

/// The URL that the parts of a `Link` header, from the `i`-th on, name as the next page.
pub open spec fn next_in_parts(parts: Seq<Seq<char>>, i: int) -> Option<UrlPartsView>
    decreases parts.len() - i,
{
    if i < 0 || i >= parts.len() {
        None
    } else {
        match next_in_part(parts[i]) {
            Some(url) => Some(url),
            None => next_in_parts(parts, i + 1),
        }
    }
}

fn read_part(part: &str) -> (url: Option<UrlParts>)
    ensures
        opt_view(url) == next_in_part(part@),
{
    match split_once(trim(part).as_str(), ">") {
        None => None,
        Some((target, params)) => if contains(params.as_str(), "rel=\"next\"") {
            let text = trim(trim_start_char(target.as_str(), '<').as_str());
            match parse_url(text.as_str()) {
                Ok(url) => Some(url),
                Err(_) => None,
            }
        } else {
            None
        },
    }
}

/// Finds the next page in a `Link` header.
pub fn parse_next_link(value: &str) -> (url: Option<UrlParts>)
    ensures
        opt_view(url) == next_in_parts(pieces(value@, ','), 0),
{
    let parts = split(value, ',');
    let mut i: usize = 0;
    while i < parts.len()
        invariant
            i <= parts@.len(),
            texts(parts@) == pieces(value@, ','),
            next_in_parts(texts(parts@), 0) == next_in_parts(texts(parts@), i as int),
        decreases parts@.len() - i,
    {
        assert(texts(parts@)[i as int] == parts@[i as int]@);
        match read_part(parts[i].as_str()) {
            Some(url) => {
                return Some(url);
            },
            None => {},
        }
        i = i + 1;
    }
    None
}

/// Whether the role of a token lets it write.
pub open spec fn role_writes(role: Option<Seq<char>>) -> bool {
    role == Some("write"@) || role == Some("admin"@)
}

/// Whether the scope of a token is given case by case.
pub open spec fn role_is_fine(role: Option<Seq<char>>) -> bool {
    role == Some("fineGrained"@) || role == Some("fine-grained"@)
}

fn is_role(role: &Option<String>, text: &str) -> (yes: bool)
    ensures
        yes == (opt_text(*role) == Some(text@)),
{
    match role {
        Some(found) => str_eq(found.as_str(), text),
        None => false,
    }
}

/// The summary with the role of the token itself.
pub open spec fn with_role(summary: PermissionSummaryView, role: Option<Seq<char>>) -> PermissionSummaryView {
    match role {
        None => summary,
        Some(text) => if text == "write"@ {
            filed(summary, PermissionClass::Risky, "token:write"@)
        } else if text == "read"@ {
            filed(summary, PermissionClass::ReadOnly, "token:read"@)
        } else if text == "admin"@ {
            filed(summary, PermissionClass::Admin, "token:admin"@)
        } else if role_is_fine(role) {
            summary
        } else {
            filed(summary, PermissionClass::ReadOnly, "token:"@ + text)
        },
    }
}

fn file_role(summary: &mut PermissionSummary, role: &Option<String>)
    ensures
        final(summary)@ == with_role(old(summary)@, opt_text(*role)),
{
    match role {
        None => {},
        Some(text) => {
            let name = text.as_str();
            if str_eq(name, "write") {
                file_permission(summary, PermissionClass::Risky, "token:write".to_owned());
            } else if str_eq(name, "read") {
                file_permission(summary, PermissionClass::ReadOnly, "token:read".to_owned());
            } else if str_eq(name, "admin") {
                file_permission(summary, PermissionClass::Admin, "token:admin".to_owned());
            } else if !str_eq(name, "fineGrained") && !str_eq(name, "fine-grained") {
                file_permission(summary, PermissionClass::ReadOnly, cat2("token:", name));
            }
        },
    }
}

/// What a membership comes to with a token: nothing more than the token allows, and nothing more
/// than the role in the organization.
#[derive(Clone, Copy, Debug, PartialEq, Eq, Structural)]
pub enum OrgReach {
    Admin,
    Write,
    Scoped,
    Read,
    Nothing,
}

/// What a role in an organization comes to with a token.
pub open spec fn org_reach(role: Seq<char>, token_role: Option<Seq<char>>) -> OrgReach {
    let writes = role_writes(token_role);
    let fine = role_is_fine(token_role);
    let some = role == "admin"@ || role == "write"@ || role == "contributor"@;
    if role == "admin"@ && writes {
        OrgReach::Admin
    } else if (role == "write"@ || role == "contributor"@) && writes {
        OrgReach::Write
    } else if some && !writes && fine {
        OrgReach::Scoped
    } else if (some || role == "read"@) && !writes && !fine {
        OrgReach::Read
    } else {
        OrgReach::Nothing
    }
}

fn find_reach(role: &str, token_role: &Option<String>) -> (reach: OrgReach)
    ensures
        reach == org_reach(role@, opt_text(*token_role)),
{
    let writes = is_role(token_role, "write") || is_role(token_role, "admin");
    let fine = is_role(token_role, "fineGrained") || is_role(token_role, "fine-grained");
    let some = str_eq(role, "admin") || str_eq(role, "write") || str_eq(role, "contributor");
    if str_eq(role, "admin") && writes {
        OrgReach::Admin
    } else if (str_eq(role, "write") || str_eq(role, "contributor")) && writes {
        OrgReach::Write
    } else if some && !writes && fine {
        OrgReach::Scoped
    } else if (some || str_eq(role, "read")) && !writes && !fine {
        OrgReach::Read
    } else {
        OrgReach::Nothing
    }
}

/// How an organization is called.
pub open spec fn org_name(org: HfOrg) -> Seq<char> {
    text_or(org.name, "unknown_org"@)
}

/// The role of a user in an organization.
pub open spec fn org_role(org: HfOrg) -> Seq<char> {
    text_or(org.role_in_org, "member"@)
}

/// The summary with one more membership.
pub open spec fn with_org(
    summary: PermissionSummaryView,
    org: HfOrg,
    token_role: Option<Seq<char>>,
) -> PermissionSummaryView {
    let head = "organization:"@ + org_name(org);
    match org_reach(org_role(org), token_role) {
        OrgReach::Admin => filed(summary, PermissionClass::Admin, head + ":admin"@),
        OrgReach::Write => filed(summary, PermissionClass::Risky, head + ":"@ + org_role(org)),
        OrgReach::Scoped => filed(summary, PermissionClass::Risky, head + ":scoped"@),
        OrgReach::Read => filed(summary, PermissionClass::ReadOnly, head + ":read"@),
        OrgReach::Nothing => summary,
    }
}

/// The summary with the first `n` memberships.
pub open spec fn with_orgs(
    summary: PermissionSummaryView,
    orgs: Seq<HfOrg>,
    n: int,
    token_role: Option<Seq<char>>,
) -> PermissionSummaryView
    decreases n,
{
    if n <= 0 {
        summary
    } else {
        with_org(with_orgs(summary, orgs, n - 1, token_role), orgs[n - 1], token_role)
    }
}

/// The roles that the first `n` memberships stand for.
pub open spec fn org_roles_upto(orgs: Seq<HfOrg>, n: int) -> Seq<RoleBindingView>
    decreases n,
{
    if n <= 0 {
        Seq::empty()
    } else {
        org_roles_upto(orgs, n - 1).push(
            binding(
                "organization:"@ + org_name(orgs[n - 1]) + ":"@ + org_role(orgs[n - 1]),
                "huggingface"@,
                seq!["organization:"@ + org_role(orgs[n - 1])],
            ),
        )
    }
}

/// The resource that stands for an organization.
pub open spec fn org_exposure(org: HfOrg, token_role: Option<Seq<char>>) -> ResourceExposureView {
    exposure(
        "organization"@,
        org_name(org),
        seq!["org_role:"@ + org_role(org)],
        match org_reach(org_role(org), token_role) {
            OrgReach::Admin => Severity::High,
            OrgReach::Write | OrgReach::Scoped => Severity::Medium,
            OrgReach::Read | OrgReach::Nothing => Severity::Low,
        },
        "Organization membership available to the token"@,
    )
}

/// The resources that stand for the first `n` organizations.
pub open spec fn org_exposures(orgs: Seq<HfOrg>, n: int, token_role: Option<Seq<char>>) -> Seq<
    ResourceExposureView,
>
    decreases n,
{
    if n <= 0 {
        Seq::empty()
    } else {
        org_exposures(orgs, n - 1, token_role).push(org_exposure(orgs[n - 1], token_role))
    }
}

fn add_org(
    org: &HfOrg,
    token_role: &Option<String>,
    roles: &mut Vec<RoleBinding>,
    permissions: &mut PermissionSummary,
    resources: &mut Vec<ResourceExposure>,
)
    ensures
        views(final(roles)@) == views(old(roles)@).push(
            binding(
                "organization:"@ + org_name(*org) + ":"@ + org_role(*org),
                "huggingface"@,
                seq!["organization:"@ + org_role(*org)],
            ),
        ),
        final(permissions)@ == with_org(old(permissions)@, *org, opt_text(*token_role)),
        views(final(resources)@) == views(old(resources)@).push(
            org_exposure(*org, opt_text(*token_role)),
        ),
{
    let name = unwrap_text(&org.name, "unknown_org");
    let role = unwrap_text(&org.role_in_org, "member");
    let head = cat2("organization:", name.as_str());
    push_view(
        roles,
        RoleBinding::new(
            cat3(head.as_str(), ":", role.as_str()).as_str(),
            "huggingface",
            one_text(cat2("organization:", role.as_str()).as_str()),
        ),
    );
    let reach = find_reach(role.as_str(), token_role);
    match reach {
        OrgReach::Admin => file_permission(
            permissions,
            PermissionClass::Admin,
            cat2(head.as_str(), ":admin"),
        ),
        OrgReach::Write => file_permission(
            permissions,
            PermissionClass::Risky,
            cat3(head.as_str(), ":", role.as_str()),
        ),
        OrgReach::Scoped => file_permission(
            permissions,
            PermissionClass::Risky,
            cat2(head.as_str(), ":scoped"),
        ),
        OrgReach::Read => file_permission(
            permissions,
            PermissionClass::ReadOnly,
            cat2(head.as_str(), ":read"),
        ),
        OrgReach::Nothing => {},
    }
    let risk = match reach {
        OrgReach::Admin => Severity::High,
        OrgReach::Write | OrgReach::Scoped => Severity::Medium,
        OrgReach::Read | OrgReach::Nothing => Severity::Low,
    };
    push_view(
        resources,
        ResourceExposure::new(
            "organization",
            name.as_str(),
            one_text(cat2("org_role:", role.as_str()).as_str()),
            risk,
            "Organization membership available to the token",
        ),
    );
}

/// A token that cannot write never administers an organization, whatever the role of its user.
pub proof fn lemma_reach_is_bounded_by_the_token(role: Seq<char>, token_role: Option<Seq<char>>)
    ensures
        !role_writes(token_role) ==> org_reach(role, token_role) != OrgReach::Admin && org_reach(
            role,
            token_role,
        ) != OrgReach::Write,
        org_reach(role, token_role) == OrgReach::Admin ==> role == "admin"@,
{
}

/// What was found, from the user on and then through the first `n` organizations.
pub open spec fn discovered(
    user: Result<Vec<HfResource>, String>,
    orgs: Seq<HfOrg>,
    inventories: Seq<Result<Vec<HfResource>, String>>,
    n: int,
) -> Seq<HfResource>
    decreases n,
{
    if n <= 0 {
        match user {
            Ok(list) => list@,
            Err(_) => Seq::empty(),
        }
    } else {
        let before = discovered(user, orgs, inventories, n - 1);
        if has_name(orgs[n - 1]) && n - 1 < inventories.len() {
            match inventories[n - 1] {
                Ok(list) => before + list@,
                Err(_) => before,
            }
        } else {
            before
        }
    }
}

/// Whether an organization has a name that can be asked for.
pub open spec fn has_name(org: HfOrg) -> bool {
    match org.name {
        Some(name) => name@.len() > 0,
        None => false,
    }
}

/// The notes on listings that failed, through the first `n` organizations.
pub open spec fn inventory_notes(
    user: Result<Vec<HfResource>, String>,
    orgs: Seq<HfOrg>,
    inventories: Seq<Result<Vec<HfResource>, String>>,
    n: int,
) -> Seq<Seq<char>>
    decreases n,
{
    if n <= 0 {
        match user {
            Ok(_) => Seq::empty(),
            Err(error) => seq!["User repository inventory failed: "@ + error@],
        }
    } else {
        let before = inventory_notes(user, orgs, inventories, n - 1);
        if has_name(orgs[n - 1]) && n - 1 < inventories.len() {
            match inventories[n - 1] {
                Ok(_) => before,
                Err(error) => before.push(
                    "Organization repository inventory failed for "@ + org_name(orgs[n - 1])
                        + ": "@ + error@,
                ),
            }
        } else {
            before
        }
    }
}

fn gather(
    user: Result<Vec<HfResource>, String>,
    orgs: &Vec<HfOrg>,
    inventories: Vec<Result<Vec<HfResource>, String>>,
    risk_notes: &mut Vec<String>,
) -> (found: Vec<HfResource>)
    requires
        texts(old(risk_notes)@).len() == 0,
    ensures
        found@ == discovered(user, orgs@, inventories@, orgs@.len() as int),
        texts(final(risk_notes)@) == inventory_notes(
            user,
            orgs@,
            inventories@,
            orgs@.len() as int,
        ),
{
    let ghost all = inventories@;
    let mut left = inventories;
    let mut found: Vec<HfResource> = Vec::new();
    match user {
        Ok(list) => {
            found = list;
        },
        Err(error) => push_text(
            risk_notes,
            cat2("User repository inventory failed: ", error.as_str()),
        ),
    }
    assert(texts(risk_notes@) =~= inventory_notes(user, orgs@, all, 0));
    assert(found@ =~= discovered(user, orgs@, all, 0));
    let mut i: usize = 0;
    assert(all.skip(0) =~= all);
    while i < orgs.len()
        invariant
            i <= orgs@.len(),
            left@ == if i <= all.len() {
                all.skip(i as int)
            } else {
                Seq::empty()
            },
            found@ == discovered(user, orgs@, all, i as int),
            texts(risk_notes@) == inventory_notes(user, orgs@, all, i as int),
        decreases orgs@.len() - i,
    {
        let named: bool = match &orgs[i].name {
            Some(name) => !name.as_str().is_empty(),
            None => false,
        };
        if left.len() > 0 {
            let reply = left.remove(0);
            assert(reply == all[i as int]);
            assert(left@ =~= all.skip(i + 1));
            if named {
                match reply {
                    Ok(list) => {
                        let mut list = list;
                        found.append(&mut list);
                    },
                    Err(error) => {
                        let name = unwrap_text(&orgs[i].name, "unknown_org");
                        push_text(
                            risk_notes,
                            cat4(
                                "Organization repository inventory failed for ",
                                name.as_str(),
                                ": ",
                                error.as_str(),
                            ),
                        );
                    },
                }
            }
        } else {
            assert(left@ =~= if i + 1 <= all.len() {
                all.skip(i + 1)
            } else {
                Seq::empty()
            });
        }
        i = i + 1;
    }
    found
}

/// Whether a resource is not open to everyone.
pub open spec fn is_sensitive(resource: HfResource) -> bool {
    ascii_lower(resource.visibility@) == "private"@ || ascii_lower(resource.visibility@)
        == "protected"@
}

fn check_sensitive(resource: &HfResource) -> (yes: bool)
    ensures
        yes == is_sensitive(*resource),
{
    let visibility = to_ascii_lowercase(resource.visibility.as_str());
    str_eq(visibility.as_str(), "private") || str_eq(visibility.as_str(), "protected")
}

/// Whether a resource of the same type and ID stands before the `k`-th.
pub open spec fn occurred(list: Seq<HfResource>, k: int) -> bool {
    exists|j: int|
        0 <= j < k && (#[trigger] list[j]).resource_type@ == list[k].resource_type@ && list[j].id@
            == list[k].id@
}

fn has_occurred(list: &Vec<HfResource>, k: usize) -> (yes: bool)
    requires
        k < list@.len(),
    ensures
        yes == occurred(list@, k as int),
{
    let mut j: usize = 0;
    while j < k
        invariant
            j <= k < list@.len(),
            forall|m: int|
                0 <= m < j ==> !((#[trigger] list@[m]).resource_type@
                    == list@[k as int].resource_type@ && list@[m].id@ == list@[k as int].id@),
        decreases k - j,
    {
        if str_eq(list[j].resource_type.as_str(), list[k].resource_type.as_str()) && str_eq(
            list[j].id.as_str(),
            list[k].id.as_str(),
        ) {
            return true;
        }
        j = j + 1;
    }
    false
}

/// How the access to a resource is written.
pub open spec fn resource_label(resource: HfResource) -> Seq<char> {
    resource.resource_type@ + ":"@ + ascii_lower(resource.visibility@)
}

/// The resource as it is exposed.
pub open spec fn resource_exposure(resource: HfResource) -> ResourceExposureView {
    exposure(
        resource.resource_type@,
        resource.id@,
        seq![resource_label(resource)],
        if is_sensitive(resource) {
            Severity::Medium
        } else {
            Severity::Low
        },
        "Accessible "@ + ascii_lower(resource.visibility@) + " Hugging Face "@
            + resource.resource_type@ + (match resource.storage {
            Some(bytes) => " ("@ + decimal(bytes as nat) + " bytes stored)"@,
            None => Seq::empty(),
        }),
    )
}

/// The first `n` resources as they are exposed, each once.
pub open spec fn found_upto(list: Seq<HfResource>, n: int) -> Seq<ResourceExposureView>
    decreases n,
{
    if n <= 0 {
        Seq::empty()
    } else if occurred(list, n - 1) {
        found_upto(list, n - 1)
    } else {
        found_upto(list, n - 1).push(resource_exposure(list[n - 1]))
    }
}

/// The summary with the first `n` resources, each once.
pub open spec fn with_found(summary: PermissionSummaryView, list: Seq<HfResource>, n: int) -> PermissionSummaryView
    decreases n,
{
    if n <= 0 {
        summary
    } else if occurred(list, n - 1) {
        with_found(summary, list, n - 1)
    } else {
        filed(
            with_found(summary, list, n - 1),
            if is_sensitive(list[n - 1]) {
                PermissionClass::Risky
            } else {
                PermissionClass::ReadOnly
            },
            resource_label(list[n - 1]),
        )
    }
}

fn expose_resource(resource: &HfResource) -> (exposed: ResourceExposure)
    ensures
        exposed@ == resource_exposure(*resource),
{
    let visibility = to_ascii_lowercase(resource.visibility.as_str());
    let label = cat3(resource.resource_type.as_str(), ":", visibility.as_str());
    let risk = if check_sensitive(resource) {
        Severity::Medium
    } else {
        Severity::Low
    };
    let suffix = match resource.storage {
        Some(bytes) => cat3(" (", u64_text(bytes).as_str(), " bytes stored)"),
        None => {
            let none: String = String::new();
            assert(none@ =~= Seq::<char>::empty());
            none
        },
    };
    let reason = cat5(
        "Accessible ",
        visibility.as_str(),
        " Hugging Face ",
        resource.resource_type.as_str(),
        suffix.as_str(),
    );
    ResourceExposure::new(
        resource.resource_type.as_str(),
        resource.id.as_str(),
        one_text(label.as_str()),
        risk,
        reason.as_str(),
    )
}

fn add_found(
    list: &Vec<HfResource>,
    permissions: &mut PermissionSummary,
    resources: &mut Vec<ResourceExposure>,
)
    ensures
        final(permissions)@ == with_found(old(permissions)@, list@, list@.len() as int),
        views(final(resources)@) == views(old(resources)@) + found_upto(list@, list@.len() as int),
{
    let ghost before = views(resources@);
    let ghost start = permissions@;
    let mut i: usize = 0;
    assert(before =~= before + found_upto(list@, 0));
    while i < list.len()
        invariant
            i <= list@.len(),
            permissions@ == with_found(start, list@, i as int),
            views(resources@) == before + found_upto(list@, i as int),
        decreases list@.len() - i,
    {
        if !has_occurred(list, i) {
            push_view(resources, expose_resource(&list[i]));
            let visibility = to_ascii_lowercase(list[i].visibility.as_str());
            let label = cat3(list[i].resource_type.as_str(), ":", visibility.as_str());
            if check_sensitive(&list[i]) {
                file_permission(permissions, PermissionClass::Risky, label);
            } else {
                file_permission(permissions, PermissionClass::ReadOnly, label);
            }
        }
        i = i + 1;
        assert(views(resources@) =~= before + found_upto(list@, i as int));
    }
}

/// Whether one of the resources is not open to everyone.
pub open spec fn some_sensitive(list: Seq<HfResource>) -> bool {
    exists|k: int| 0 <= k < list.len() && is_sensitive(#[trigger] list[k])
}

/// Whether a user administers an organization.
pub open spec fn administers(org: HfOrg) -> bool {
    opt_text(org.role_in_org) == Some("admin"@)
}

/// Whether a user administers one of the organizations.
pub open spec fn some_administered(orgs: Seq<HfOrg>) -> bool {
    exists|k: int| 0 <= k < orgs.len() && administers(#[trigger] orgs[k])
}

/// How grave it is what a token reaches.
pub open spec fn hf_severity(
    token_role: Option<Seq<char>>,
    list: Seq<HfResource>,
    orgs: Seq<HfOrg>,
) -> Severity {
    let private = some_sensitive(list);
    if token_role == Some("admin"@) {
        Severity::High
    } else if token_role == Some("write"@) {
        if private || some_administered(orgs) {
            Severity::High
        } else {
            Severity::Medium
        }
    } else if private {
        Severity::Medium
    } else {
        Severity::Low
    }
}

pub fn derive_severity(
    token_role: &Option<String>,
    resources: &Vec<HfResource>,
    organizations: &Vec<HfOrg>,
) -> (severity: Severity)
    ensures
        severity == hf_severity(opt_text(*token_role), resources@, organizations@),
{
    let mut private: bool = false;
    let mut i: usize = 0;
    while i < resources.len()
        invariant
            i <= resources@.len(),
            private == exists|k: int| 0 <= k < i && is_sensitive(#[trigger] resources@[k]),
        decreases resources@.len() - i,
    {
        if check_sensitive(&resources[i]) {
            private = true;
        }
        i = i + 1;
    }
    let mut admin_org: bool = false;
    let mut j: usize = 0;
    while j < organizations.len()
        invariant
            j <= organizations@.len(),
            admin_org == exists|k: int| 0 <= k < j && administers(#[trigger] organizations@[k]),
        decreases organizations@.len() - j,
    {
        if is_role(&organizations[j].role_in_org, "admin") {
            assert(administers(organizations@[j as int]));
            admin_org = true;
        }
        j = j + 1;
    }
    if is_role(token_role, "admin") {
        Severity::High
    } else if is_role(token_role, "write") {
        if private || admin_org {
            Severity::High
        } else {
            Severity::Medium
        }
    } else if private {
        Severity::Medium
    } else {
        Severity::Low
    }
}

/// The resources that a token shows, or its account where it shows none.
pub open spec fn hf_resources(whoami: HfWhoAmI, found: Seq<HfResource>) -> Seq<ResourceExposureView> {
    let shown = org_exposures(whoami.orgs@, whoami.orgs@.len() as int, opt_text(whoami.token_role))
        + found_upto(found, found.len() as int);
    if found.len() == 0 && whoami.orgs@.len() == 0 {
        shown.push(
            exposure(
                "account"@,
                text_or(whoami.name, "huggingface_user"@),
                Seq::empty(),
                Severity::Low,
                "Hugging Face account associated with the token"@,
            ),
        )
    } else {
        shown
    }
}

/// The notes on a token.
pub open spec fn hf_notes(notes: Seq<Seq<char>>, whoami: HfWhoAmI, found: Seq<HfResource>) -> Seq<
    Seq<char>,
> {
    let role = opt_text(whoami.token_role);
    let first = if found.len() == 0 && whoami.orgs@.len() == 0 {
        notes.push(
            "Token did not enumerate any models, datasets, Spaces, buckets, or organizations"@,
        )
    } else {
        notes
    };
    let second = if role is None {
        first.push("Hugging Face did not report token role information"@)
    } else {
        first
    };
    if role_is_fine(role) {
        second.push(
            "Fine-grained token scope details are not exposed by whoami; resources reflect what the token could enumerate"@,
        )
    } else {
        second
    }
}

/// The roles of a token.
pub open spec fn hf_roles(whoami: HfWhoAmI) -> Seq<RoleBindingView> {
    (match whoami.token_role {
        Some(role) => seq![binding("token_role"@, "huggingface"@, seq!["role:"@ + role@])],
        None => Seq::empty(),
    }) + org_roles_upto(whoami.orgs@, whoami.orgs@.len() as int)
}

/// What a Hugging Face token gives access to.
pub open spec fn hf_result(replies: HfReplies) -> AccessMapResultView {
    let whoami = replies.whoami;
    let role = opt_text(whoami.token_role);
    let username = text_or(whoami.name, "huggingface_user"@);
    let count = whoami.orgs@.len() as int;
    let found = discovered(
        replies.user_inventory,
        whoami.orgs@,
        replies.org_inventories@,
        count,
    );
    let severity = hf_severity(role, found, whoami.orgs@);
    AccessMapResultView {
        cloud: "huggingface"@,
        fingerprint: None,
        identity: AccessSummaryView {
            id: username,
            access_type: lowered(text_or(whoami.kind, "user"@)),
            project: None,
            tenant: None,
            account_id: None,
        },
        roles: hf_roles(whoami),
        permissions: sorted_summary(
            with_found(
                with_orgs(with_role(empty_permission_summary(), role), whoami.orgs@, count, role),
                found,
                found.len() as int,
            ),
        ),
        resources: hf_resources(whoami, found),
        severity,
        recommendations: recommendations(severity),
        risk_notes: hf_notes(
            inventory_notes(
                replies.user_inventory,
                whoami.orgs@,
                replies.org_inventories@,
                count,
            ),
            whoami,
            found,
        ),
        token_details: Some(
            AccessTokenDetailsView {
                name: either(opt_text(whoami.token_name), opt_text(whoami.full_name)),
                username: opt_text(whoami.name),
                account_type: opt_text(whoami.kind),
                email: opt_text(whoami.email),
                url: Some("https://huggingface.co/"@ + username),
                token_type: opt_text(whoami.token_type),
                created_at: opt_text(whoami.token_created_at),
                user_id: Some(username),
                scopes: match role {
                    Some(text) => seq![text],
                    None => Seq::empty(),
                },
                ..empty_access_token_details()
            },
        ),
        provider_metadata: None,
        mapping_error: None,
    }
}

fn detail_token(whoami: &HfWhoAmI, username: &str) -> (details: AccessTokenDetails)
    ensures
        details@ == (AccessTokenDetailsView {
            name: either(opt_text(whoami.token_name), opt_text(whoami.full_name)),
            username: opt_text(whoami.name),
            account_type: opt_text(whoami.kind),
            email: opt_text(whoami.email),
            url: Some("https://huggingface.co/"@ + username@),
            token_type: opt_text(whoami.token_type),
            created_at: opt_text(whoami.token_created_at),
            user_id: Some(username@),
            scopes: match opt_text(whoami.token_role) {
                Some(text) => seq![text],
                None => Seq::empty(),
            },
            ..empty_access_token_details()
        }),
{
    let mut details = AccessTokenDetails::default();
    details.name = or_text(&whoami.token_name, &whoami.full_name);
    details.username = copy_opt(&whoami.name);
    details.account_type = copy_opt(&whoami.kind);
    details.email = copy_opt(&whoami.email);
    details.url = Some(cat2("https://huggingface.co/", username));
    details.token_type = copy_opt(&whoami.token_type);
    details.created_at = copy_opt(&whoami.token_created_at);
    details.user_id = Some(username.to_owned());
    match &whoami.token_role {
        Some(role) => {
            details.scopes = one_text(role.as_str());
        },
        None => {},
    }
    details
}

/// Maps a Hugging Face token from what the Hub answered to it.
pub fn map_access_from_token(replies: HfReplies) -> (result: AccessMapResult)
    ensures
        result@ == hf_result(replies),
{
    let ghost given = replies;
    let whoami = replies.whoami;
    let username = unwrap_text(&whoami.name, "huggingface_user");
    let kind = unwrap_text(&whoami.kind, "user");
    let mut roles: Vec<RoleBinding> = no_views();
    let mut permissions = PermissionSummary::default();
    let mut resources: Vec<ResourceExposure> = no_views();
    match &whoami.token_role {
        Some(role) => push_view(
            &mut roles,
            RoleBinding::new(
                "token_role",
                "huggingface",
                one_text(cat2("role:", role.as_str()).as_str()),
            ),
        ),
        None => {},
    }
    file_role(&mut permissions, &whoami.token_role);
    let ghost first = views(roles@);
    let ghost start = permissions@;
    let ghost role = opt_text(whoami.token_role);
    let mut i: usize = 0;
    assert(first =~= first + org_roles_upto(whoami.orgs@, 0));
    while i < whoami.orgs.len()
        invariant
            i <= whoami.orgs@.len(),
            role == opt_text(whoami.token_role),
            views(roles@) == first + org_roles_upto(whoami.orgs@, i as int),
            permissions@ == with_orgs(start, whoami.orgs@, i as int, role),
            views(resources@) == org_exposures(whoami.orgs@, i as int, role),
        decreases whoami.orgs@.len() - i,
    {
        add_org(
            &whoami.orgs[i],
            &whoami.token_role,
            &mut roles,
            &mut permissions,
            &mut resources,
        );
        i = i + 1;
        assert(views(roles@) =~= first + org_roles_upto(whoami.orgs@, i as int));
    }
    assert(views(roles@) =~= hf_roles(whoami));
    let mut risk_notes = no_texts();
    let found = gather(
        replies.user_inventory,
        &whoami.orgs,
        replies.org_inventories,
        &mut risk_notes,
    );
    add_found(&found, &mut permissions, &mut resources);
    sort_permission_summary(&mut permissions);
    let severity = derive_severity(&whoami.token_role, &found, &whoami.orgs);
    if found.len() == 0 && whoami.orgs.len() == 0 {
        push_view(
            &mut resources,
            ResourceExposure::new(
                "account",
                username.as_str(),
                no_texts(),
                Severity::Low,
                "Hugging Face account associated with the token",
            ),
        );
        push_text(
            &mut risk_notes,
            "Token did not enumerate any models, datasets, Spaces, buckets, or organizations".to_owned(),
        );
    }
    assert(views(resources@) =~= hf_resources(whoami, found@));
    if whoami.token_role.is_none() {
        push_text(
            &mut risk_notes,
            "Hugging Face did not report token role information".to_owned(),
        );
    }
    if is_role(&whoami.token_role, "fineGrained") || is_role(&whoami.token_role, "fine-grained") {
        push_text(
            &mut risk_notes,
            "Fine-grained token scope details are not exposed by whoami; resources reflect what the token could enumerate".to_owned(),
        );
    }
    let details = detail_token(&whoami, username.as_str());
    AccessMapResult {
        cloud: "huggingface".to_owned(),
        fingerprint: None,
        identity: AccessSummary {
            id: username,
            access_type: to_lowercase(kind.as_str()),
            project: None,
            tenant: None,
            account_id: None,
        },
        roles,
        permissions,
        resources,
        severity,
        recommendations: build_recommendations(severity),
        risk_notes,
        token_details: Some(details),
        provider_metadata: None,
        mapping_error: None,
    }
}

proof fn lemma_found_listed(list: Seq<HfResource>, n: int, k: int)
    requires
        0 <= k < n <= list.len(),
    ensures
        exists|i: int|
            0 <= i < found_upto(list, n).len() && (#[trigger] found_upto(list, n)[i]).name == list[k].id@
                && found_upto(list, n)[i].resource_type == list[k].resource_type@,
    decreases n,
{
    let before = found_upto(list, n - 1);
    let now = found_upto(list, n);
    if k < n - 1 {
        lemma_found_listed(list, n - 1, k);
        let i = choose|i: int|
            0 <= i < before.len() && (#[trigger] before[i]).name == list[k].id@ && before[i].resource_type
                == list[k].resource_type@;
        assert(now[i] == before[i]);
    } else if occurred(list, k) {
        let j = choose|j: int|
            0 <= j < k && (#[trigger] list[j]).resource_type@ == list[k].resource_type@ && list[j].id@
                == list[k].id@;
        lemma_found_listed(list, n - 1, j);
        let i = choose|i: int|
            0 <= i < before.len() && (#[trigger] before[i]).name == list[j].id@ && before[i].resource_type
                == list[j].resource_type@;
        assert(now[i] == before[i]);
    } else {
        assert(now[before.len() as int] == resource_exposure(list[k]));
    }
}

proof fn lemma_discovered_grows(
    user: Result<Vec<HfResource>, String>,
    orgs: Seq<HfOrg>,
    inventories: Seq<Result<Vec<HfResource>, String>>,
    n: int,
    resource: HfResource,
)
    requires
        0 <= n <= orgs.len(),
    ensures
        match user {
            Ok(list) => list@.contains(resource) ==> discovered(user, orgs, inventories, n).contains(
                resource,
            ),
            Err(_) => true,
        },
        forall|k: int|
            0 <= k < n && k < inventories.len() && (#[trigger] orgs[k]).name is Some
                && orgs[k].name->0@.len() > 0 && inventories[k] is Ok && inventories[k]->Ok_0@.contains(
                resource,
            ) ==> discovered(user, orgs, inventories, n).contains(resource),
    decreases n,
{
    if n > 0 {
        lemma_discovered_grows(user, orgs, inventories, n - 1, resource);
        let before = discovered(user, orgs, inventories, n - 1);
        let now = discovered(user, orgs, inventories, n);
        if before.contains(resource) {
            let i = choose|i: int| 0 <= i < before.len() && before[i] == resource;
            assert(now[i] == resource);
        }
        if has_name(orgs[n - 1]) && n - 1 < inventories.len() {
            match inventories[n - 1] {
                Ok(list) => {
                    if list@.contains(resource) {
                        let i = choose|i: int| 0 <= i < list@.len() && list@[i] == resource;
                        assert(now[before.len() + i] == resource);
                    }
                },
                Err(_) => {},
            }
        }
    }
}

/// Whatever the user or any of the user's organizations was found to have is reported, each thing under
/// its ID and type.
pub proof fn lemma_everything_found_is_reported(replies: HfReplies, resource: HfResource, k: int)
    requires
        ({
            let orgs = replies.whoami.orgs@;
            let inventories = replies.org_inventories@;
            ||| replies.user_inventory is Ok && replies.user_inventory->Ok_0@.contains(resource)
            ||| 0 <= k < orgs.len() && k < inventories.len() && orgs[k].name is Some
                && orgs[k].name->0@.len() > 0 && inventories[k] is Ok && inventories[k]->Ok_0@.contains(
                resource,
            )
        }),
    ensures
        exists|i: int|
            0 <= i < hf_result(replies).resources.len() && (#[trigger] hf_result(
                replies,
            ).resources[i]).name == resource.id@ && hf_result(replies).resources[i].resource_type
                == resource.resource_type@,
        ascii_lower(resource.visibility@) == "private"@ || ascii_lower(resource.visibility@)
            == "protected"@ ==> hf_result(replies).severity != Severity::Low,
{
    let orgs = replies.whoami.orgs@;
    let inventories = replies.org_inventories@;
    let n = orgs.len() as int;
    let found = discovered(replies.user_inventory, orgs, inventories, n);
    lemma_discovered_grows(replies.user_inventory, orgs, inventories, n, resource);
    if !(replies.user_inventory is Ok && replies.user_inventory->Ok_0@.contains(resource)) {
        assert(orgs[k].name is Some);
    }
    assert(found.contains(resource));
    let m = choose|m: int| 0 <= m < found.len() && found[m] == resource;
    lemma_found_listed(found, found.len() as int, m);
    let own = found_upto(found, found.len() as int);
    let i = choose|i: int|
        0 <= i < own.len() && (#[trigger] own[i]).name == resource.id@ && own[i].resource_type
            == resource.resource_type@;
    let first = org_exposures(orgs, n, opt_text(replies.whoami.token_role));
    assert(hf_result(replies).resources[first.len() + i] == own[i]);
    if is_sensitive(resource) {
        assert(is_sensitive(found[m]));
        assert(some_sensitive(found));
    }
}

/// The role of the token decides first: one that administers is high, one that writes medium at least and
/// high where the user administers any organization; a token that only reads is never high. A resource
/// that is not open to everyone makes a token that writes high and any other medium at least.
pub proof fn lemma_token_role_decides(replies: HfReplies, k: int)
    ensures
        ({
            let result = hf_result(replies);
            let role = opt_text(replies.whoami.token_role);
            let orgs = replies.whoami.orgs@;
            let found = discovered(
                replies.user_inventory,
                orgs,
                replies.org_inventories@,
                orgs.len() as int,
            );
            let hidden = 0 <= k < found.len() && (ascii_lower(found[k].visibility@) == "private"@
                || ascii_lower(found[k].visibility@) == "protected"@);
            &&& role == Some("admin"@) ==> result.severity == Severity::High
            &&& role == Some("write"@) ==> result.severity != Severity::Low
            &&& role == Some("write"@) && (hidden || (0 <= k < orgs.len() && opt_text(
                orgs[k].role_in_org,
            ) == Some("admin"@))) ==> result.severity == Severity::High
            &&& hidden ==> result.severity != Severity::Low
            &&& role != Some("admin"@) && role != Some("write"@) ==> result.severity != Severity::High
            &&& result.severity != Severity::Critical
        }),
{
    let orgs = replies.whoami.orgs@;
    let found = discovered(
        replies.user_inventory,
        orgs,
        replies.org_inventories@,
        orgs.len() as int,
    );
    if 0 <= k < found.len() {
        assert(is_sensitive(found[k]) ==> some_sensitive(found));
    }
    if 0 <= k < orgs.len() {
        assert(administers(orgs[k]) ==> some_administered(orgs));
    }
    reveal_strlit("admin");
    reveal_strlit("write");
    assert("admin"@[0] == 'a' && "write"@[0] == 'w');
}

} // verus!
