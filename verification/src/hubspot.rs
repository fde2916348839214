//! HubSpot tokens.

use vstd::prelude::*;
use crate::mapping::{build_result, plain_result};
use crate::model::{
    binding, empty_access_token_details, empty_permission_summary, exposure, no_views, one_view,
    push_view, views, AccessMapResult, AccessMapResultView, AccessSummary, AccessSummaryView,
    AccessTokenDetails, AccessTokenDetailsView, PermissionSummary, PermissionSummaryView,
    ResourceExposure, ResourceExposureView, RoleBinding, RoleBindingView, Severity,
};
use crate::permissions::{
    class_list, file_permission, filed, lemma_filed, lemma_sorted_classes_stay_filled,
    lemma_sorted_summary, sort_permission_summary, sorted_summary, PermissionClass,
};
use crate::text::{
    any_holds, cat2, cat3, contains, copy_opt, copy_texts, decimal, holds, no_texts, one_text,
    opt_text, push_text, some_hold, stands_at, str_eq, text_else, text_or, texts, trim, trimmed,
    two_texts, u64_text, unwrap_text, usize_text,
};

verus! {

/// An account.
#[derive(Debug)]
pub struct HubSpotAccountInfo {
    pub portal_id: Option<u64>,
    pub account_type: Option<String>,
    pub time_zone: Option<String>,
    pub ui_domain: Option<String>,
}

/// An owner.
#[derive(Debug)]
pub struct HubSpotOwner {
    pub email: Option<String>,
    pub first_name: Option<String>,
    pub last_name: Option<String>,
}

/// Which objects a token could read when they were asked for.
#[derive(Clone, Copy, Debug)]
pub struct CrmProbes {
    pub contacts: bool,
    pub deals: bool,
    pub companies: bool,
}

/// The ID of the portal, as text.
pub open spec fn portal_text(info: HubSpotAccountInfo) -> Option<Seq<char>> {
    match info.portal_id {
        Some(id) => Some(decimal(id as nat)),
        None => None,
    }
}

fn show_portal(info: &HubSpotAccountInfo) -> (text: Option<String>)
    ensures
        opt_text(text) == portal_text(*info),
{
    match info.portal_id {
        Some(id) => Some(u64_text(id)),
        None => None,
    }
}

/// The scopes that the answers to a token tell of.
pub open spec fn detected_scopes(probes: CrmProbes, owners: nat, portal: bool) -> Seq<Seq<char>> {
    let contacts = if probes.contacts {
        seq!["crm.objects.contacts.read"@, "crm.objects.contacts.write"@]
    } else {
        Seq::empty()
    };
    let deals = if probes.deals {
        contacts.push("crm.objects.deals.read"@).push("crm.objects.deals.write"@)
    } else {
        contacts
    };
    let companies = if probes.companies {
        deals.push("crm.objects.companies.read"@).push("crm.objects.companies.write"@)
    } else {
        deals
    };
    let owned = if owners > 0 {
        companies.push("crm.objects.owners.read"@)
    } else {
        companies
    };
    if portal {
        owned.push("account-info.security.read"@)
    } else {
        owned
    }
}

fn detect_scopes(probes: CrmProbes, owners: usize, portal: bool) -> (scopes: Vec<String>)
    ensures
        texts(scopes@) == detected_scopes(probes, owners as nat, portal),
{
    let mut scopes = no_texts();
    if probes.contacts {
        push_text(&mut scopes, "crm.objects.contacts.read".to_owned());
        push_text(&mut scopes, "crm.objects.contacts.write".to_owned());
        assert(texts(scopes@) =~= seq![
            "crm.objects.contacts.read"@,
            "crm.objects.contacts.write"@,
        ]);
    }
    if probes.deals {
        push_text(&mut scopes, "crm.objects.deals.read".to_owned());
        push_text(&mut scopes, "crm.objects.deals.write".to_owned());
    }
    if probes.companies {
        push_text(&mut scopes, "crm.objects.companies.read".to_owned());
        push_text(&mut scopes, "crm.objects.companies.write".to_owned());
    }
    if owners > 0 {
        push_text(&mut scopes, "crm.objects.owners.read".to_owned());
    }
    if portal {
        push_text(&mut scopes, "account-info.security.read".to_owned());
    }
    assert(texts(scopes@) =~= detected_scopes(probes, owners as nat, portal));
    scopes
}

/// The class of what a scope permits.
pub open spec fn scope_class(scope: Seq<char>) -> PermissionClass {
    if scope == "account-info.security.read"@ {
        PermissionClass::Admin
    } else if holds(scope, ".write"@) {
        PermissionClass::Risky
    } else {
        PermissionClass::ReadOnly
    }
}

pub fn classify_scope(scope: &str) -> (class: PermissionClass)
    ensures
        class == scope_class(scope@),
{
    if str_eq(scope, "account-info.security.read") {
        PermissionClass::Admin
    } else if contains(scope, ".write") {
        PermissionClass::Risky
    } else {
        PermissionClass::ReadOnly
    }
}

/// The summary with one more scope.
pub open spec fn with_scope(summary: PermissionSummaryView, scope: Seq<char>) -> PermissionSummaryView {
    filed(summary, scope_class(scope), scope)
}

fn file_scope(summary: &mut PermissionSummary, scope: &str)
    ensures
        final(summary)@ == with_scope(old(summary)@, scope@),
{
    file_permission(summary, classify_scope(scope), scope.to_owned());
}

/// The summary with the first `n` scopes.
pub open spec fn with_scopes(summary: PermissionSummaryView, list: Seq<Seq<char>>, n: int) -> PermissionSummaryView
    decreases n,
{
    if n <= 0 {
        summary
    } else {
        with_scope(with_scopes(summary, list, n - 1), list[n - 1])
    }
}

fn file_scopes(summary: &mut PermissionSummary, list: &Vec<String>)
    ensures
        final(summary)@ == with_scopes(old(summary)@, texts(list@), list@.len() as int),
{
    let ghost start = summary@;
    let mut i: usize = 0;
    while i < list.len()
        invariant
            i <= list@.len(),
            summary@ == with_scopes(start, texts(list@), i as int),
        decreases list@.len() - i,
    {
        assert(texts(list@)[i as int] == list@[i as int]@);
        file_scope(summary, list[i].as_str());
        i = i + 1;
    }
}

/// The role that a scope stands for.
pub open spec fn scope_binding(scope: Seq<char>) -> RoleBindingView {
    binding("scope:"@ + scope, "hubspot"@, seq![scope])
}

fn bind_scope(scope: &str) -> (role: RoleBinding)
    ensures
        role@ == scope_binding(scope@),
{
    RoleBinding::new(cat2("scope:", scope).as_str(), "hubspot", one_text(scope))
}

/// The roles that stand for the first `n` scopes.
pub open spec fn scope_roles_upto(list: Seq<Seq<char>>, n: int) -> Seq<RoleBindingView>
    decreases n,
{
    if n <= 0 {
        Seq::empty()
    } else {
        scope_roles_upto(list, n - 1).push(scope_binding(list[n - 1]))
    }
}

fn add_scope_roles(roles: &mut Vec<RoleBinding>, list: &Vec<String>)
    ensures
        views(final(roles)@) == views(old(roles)@) + scope_roles_upto(
            texts(list@),
            list@.len() as int,
        ),
{
    let ghost before = views(roles@);
    let mut i: usize = 0;
    assert(before =~= before + scope_roles_upto(texts(list@), 0));
    while i < list.len()
        invariant
            i <= list@.len(),
            views(roles@) == before + scope_roles_upto(texts(list@), i as int),
        decreases list@.len() - i,
    {
        assert(texts(list@)[i as int] == list@[i as int]@);
        push_view(roles, bind_scope(list[i].as_str()));
        i = i + 1;
        assert(views(roles@) =~= before + scope_roles_upto(texts(list@), i as int));
    }
}

/// How an owner is called.
pub open spec fn owner_name(owner: HubSpotOwner) -> Seq<char> {
    match owner.first_name {
        Some(first) => trimmed(first@ + " "@ + text_or(owner.last_name, ""@)),
        None => text_or(owner.email, "unknown_owner"@),
    }
}

/// The resource that stands for an owner.
pub open spec fn owner_exposure(owner: HubSpotOwner) -> ResourceExposureView {
    exposure(
        "owner"@,
        owner_name(owner),
        seq!["crm.objects.owners.read"@],
        Severity::Low,
        "CRM owner enumerable with this token"@,
    )
}

fn expose_owner(owner: &HubSpotOwner) -> (resource: ResourceExposure)
    ensures
        resource@ == owner_exposure(*owner),
{
    let name = match &owner.first_name {
        Some(first) => {
            let last = unwrap_text(&owner.last_name, "");
            trim(cat3(first.as_str(), " ", last.as_str()).as_str())
        },
        None => unwrap_text(&owner.email, "unknown_owner"),
    };
    ResourceExposure::new(
        "owner",
        name.as_str(),
        one_text("crm.objects.owners.read"),
        Severity::Low,
        "CRM owner enumerable with this token",
    )
}

/// The resources that stand for the first `n` owners.
pub open spec fn owners_upto(list: Seq<HubSpotOwner>, n: int) -> Seq<ResourceExposureView>
    decreases n,
{
    if n <= 0 {
        Seq::empty()
    } else {
        owners_upto(list, n - 1).push(owner_exposure(list[n - 1]))
    }
}

fn add_owners(resources: &mut Vec<ResourceExposure>, list: &Vec<HubSpotOwner>)
    ensures
        views(final(resources)@) == views(old(resources)@) + owners_upto(
            list@,
            list@.len() as int,
        ),
{
    let ghost before = views(resources@);
    let mut i: usize = 0;
    assert(before =~= before + owners_upto(list@, 0));
    while i < list.len()
        invariant
            i <= list@.len(),
            views(resources@) == before + owners_upto(list@, i as int),
        decreases list@.len() - i,
    {
        push_view(resources, expose_owner(&list[i]));
        i = i + 1;
        assert(views(resources@) =~= before + owners_upto(list@, i as int));
    }
}

/// How grave it is what a token permits.
pub open spec fn hubspot_severity(scopes: Seq<Seq<char>>, crm_write: bool) -> Severity {
    if crm_write && some_hold(scopes, ".write"@) {
        Severity::High
    } else if some_hold(scopes, ".read"@) {
        Severity::Medium
    } else {
        Severity::Low
    }
}

pub fn derive_severity(scopes: &Vec<String>, has_crm_write: bool) -> (severity: Severity)
    ensures
        severity == hubspot_severity(texts(scopes@), has_crm_write),
{
    if has_crm_write && any_holds(scopes, ".write") {
        Severity::High
    } else if any_holds(scopes, ".read") {
        Severity::Medium
    } else {
        Severity::Low
    }
}

/// The resources that stand for the portal and for the objects that could be read.
pub open spec fn object_resources(portal: Seq<char>, probes: CrmProbes, scopes: Seq<Seq<char>>) -> Seq<
    ResourceExposureView,
> {
    let account = seq![
        exposure(
            "account"@,
            portal,
            scopes,
            if some_hold(scopes, ".write"@) {
                Severity::High
            } else {
                Severity::Medium
            },
            "HubSpot portal accessible with this token"@,
        ),
    ];
    let contacts = if probes.contacts {
        account.push(
            exposure(
                "crm_object"@,
                "contacts"@,
                seq!["crm.objects.contacts.read"@, "crm.objects.contacts.write"@],
                Severity::High,
                "CRM contacts accessible - contains customer PII"@,
            ),
        )
    } else {
        account
    };
    let deals = if probes.deals {
        contacts.push(
            exposure(
                "crm_object"@,
                "deals"@,
                seq!["crm.objects.deals.read"@, "crm.objects.deals.write"@],
                Severity::High,
                "CRM deals accessible - contains business-sensitive data"@,
            ),
        )
    } else {
        contacts
    };
    if probes.companies {
        deals.push(
            exposure(
                "crm_object"@,
                "companies"@,
                seq!["crm.objects.companies.read"@, "crm.objects.companies.write"@],
                Severity::Medium,
                "CRM companies accessible"@,
            ),
        )
    } else {
        deals
    }
}

fn expose_objects(portal: &str, probes: CrmProbes, scopes: &Vec<String>) -> (resources: Vec<
    ResourceExposure,
>)
    ensures
        views(resources@) == object_resources(portal@, probes, texts(scopes@)),
{
    let risk = if any_holds(scopes, ".write") {
        Severity::High
    } else {
        Severity::Medium
    };
    let mut resources = one_view(
        ResourceExposure::new(
            "account",
            portal,
            copy_texts(scopes),
            risk,
            "HubSpot portal accessible with this token",
        ),
    );
    if probes.contacts {
        push_view(
            &mut resources,
            ResourceExposure::new(
                "crm_object",
                "contacts",
                two_texts("crm.objects.contacts.read", "crm.objects.contacts.write"),
                Severity::High,
                "CRM contacts accessible - contains customer PII",
            ),
        );
    }
    if probes.deals {
        push_view(
            &mut resources,
            ResourceExposure::new(
                "crm_object",
                "deals",
                two_texts("crm.objects.deals.read", "crm.objects.deals.write"),
                Severity::High,
                "CRM deals accessible - contains business-sensitive data",
            ),
        );
    }
    if probes.companies {
        push_view(
            &mut resources,
            ResourceExposure::new(
                "crm_object",
                "companies",
                two_texts("crm.objects.companies.read", "crm.objects.companies.write"),
                Severity::Medium,
                "CRM companies accessible",
            ),
        );
    }
    resources
}

/// The notes on a token.
pub open spec fn hubspot_notes(owners: nat, scopes: nat) -> Seq<Seq<char>> {
    let first = if owners > 0 {
        seq!["Token can enumerate "@ + decimal(owners) + " CRM owners"@]
    } else {
        Seq::empty()
    };
    if scopes == 0 {
        first.push("Token did not enumerate any CRM resources or scopes"@)
    } else {
        first
    }
}

/// What a HubSpot token gives access to.
pub open spec fn hubspot_result(
    info: HubSpotAccountInfo,
    probes: CrmProbes,
    owners: Seq<HubSpotOwner>,
) -> AccessMapResultView {
    let portal = text_else(portal_text(info), "unknown_portal"@);
    let scopes = detected_scopes(probes, owners.len(), info.portal_id is Some);
    let found = object_resources(portal, probes, scopes) + owners_upto(
        owners,
        owners.len() as int,
    );
    plain_result(
        "hubspot"@,
        AccessSummaryView {
            id: portal,
            access_type: text_or(info.account_type, "api_key"@),
            project: None,
            tenant: opt_text(info.ui_domain),
            account_id: Some(portal),
        },
        scope_roles_upto(scopes, scopes.len() as int),
        sorted_summary(with_scopes(empty_permission_summary(), scopes, scopes.len() as int)),
        if scopes.len() == 0 {
            found.push(
                exposure(
                    "account"@,
                    portal,
                    Seq::empty(),
                    Severity::Low,
                    "HubSpot account associated with the token"@,
                ),
            )
        } else {
            found
        },
        hubspot_severity(scopes, probes.contacts || probes.deals),
        hubspot_notes(owners.len(), scopes.len()),
        Some(
            AccessTokenDetailsView {
                account_type: opt_text(info.account_type),
                location: opt_text(info.time_zone),
                url: match info.ui_domain {
                    Some(domain) => Some("https://"@ + domain@),
                    None => None,
                },
                user_id: portal_text(info),
                scopes,
                ..empty_access_token_details()
            },
        ),
    )
}

/// Maps a HubSpot token from what the service answered to it. A listing that failed is empty.
pub fn map_access_from_token(
    info: &HubSpotAccountInfo,
    probes: CrmProbes,
    owners: &Vec<HubSpotOwner>,
) -> (result: AccessMapResult)
    ensures
        result@ == hubspot_result(*info, probes, owners@),
{
    let portal_id = show_portal(info);
    let portal = unwrap_text(&portal_id, "unknown_portal");
    let scopes = detect_scopes(probes, owners.len(), info.portal_id.is_some());
    let mut roles: Vec<RoleBinding> = no_views();
    add_scope_roles(&mut roles, &scopes);
    assert(views(roles@) =~= scope_roles_upto(texts(scopes@), texts(scopes@).len() as int));
    let mut permissions = PermissionSummary::default();
    file_scopes(&mut permissions, &scopes);
    sort_permission_summary(&mut permissions);
    let mut resources = expose_objects(portal.as_str(), probes, &scopes);
    add_owners(&mut resources, owners);
    let severity = derive_severity(&scopes, probes.contacts || probes.deals);
    let mut risk_notes = no_texts();
    if owners.len() > 0 {
        let count = usize_text(owners.len());
        push_text(
            &mut risk_notes,
            cat3("Token can enumerate ", count.as_str(), " CRM owners"),
        );
    }
    if scopes.len() == 0 {
        push_view(
            &mut resources,
            ResourceExposure::new(
                "account",
                portal.as_str(),
                no_texts(),
                Severity::Low,
                "HubSpot account associated with the token",
            ),
        );
        push_text(
            &mut risk_notes,
            "Token did not enumerate any CRM resources or scopes".to_owned(),
        );
    }
    assert(texts(risk_notes@) =~= hubspot_notes(owners@.len(), texts(scopes@).len()));
    let mut details = AccessTokenDetails::default();
    details.account_type = copy_opt(&info.account_type);
    details.location = copy_opt(&info.time_zone);
    match &info.ui_domain {
        Some(domain) => {
            details.url = Some(cat2("https://", domain.as_str()));
        },
        None => {},
    }
    details.user_id = portal_id;
    details.scopes = scopes;
    build_result(
        "hubspot",
        AccessSummary {
            id: portal.clone(),
            access_type: unwrap_text(&info.account_type, "api_key"),
            project: None,
            tenant: copy_opt(&info.ui_domain),
            account_id: Some(portal),
        },
        roles,
        permissions,
        resources,
        severity,
        risk_notes,
        Some(details),
    )
}

proof fn lemma_scopes_are_filed(summary: PermissionSummaryView, scopes: Seq<Seq<char>>, n: int, k: int)
    requires
        0 <= k < n <= scopes.len(),
    ensures
        class_list(with_scopes(summary, scopes, n), scope_class(scopes[k])).contains(scopes[k]),
    decreases n,
{
    let before = with_scopes(summary, scopes, n - 1);
    lemma_filed(before, scope_class(scopes[n - 1]), scopes[n - 1]);
    if k < n - 1 {
        lemma_scopes_are_filed(summary, scopes, n - 1, k);
    }
}

/// No scope of a token is left out: each stands in the class that it belongs to.
pub proof fn lemma_every_scope_is_reported(info: HubSpotAccountInfo, probes: CrmProbes, owners: Seq<HubSpotOwner>, k: int)
    requires
        0 <= k < detected_scopes(probes, owners.len(), info.portal_id is Some).len(),
    ensures
        class_list(hubspot_result(info, probes, owners).permissions, scope_class(detected_scopes(probes, owners.len(), info.portal_id is Some)[k])).contains(detected_scopes(probes, owners.len(), info.portal_id is Some)[k]),
{
    let scopes = detected_scopes(probes, owners.len(), info.portal_id is Some);
    lemma_scopes_are_filed(empty_permission_summary(), scopes, scopes.len() as int, k);
    lemma_sorted_summary(
        with_scopes(empty_permission_summary(), scopes, scopes.len() as int),
        scope_class(scopes[k]),
    );
}

/// The result of a token always names a resource, if only its account.
pub proof fn lemma_some_resource_is_named(info: HubSpotAccountInfo, probes: CrmProbes, owners: Seq<HubSpotOwner>)
    ensures
        hubspot_result(info, probes, owners).resources.len() > 0,
{
}

proof fn lemma_owners_listed(list: Seq<HubSpotOwner>, n: int)
    requires
        0 <= n <= list.len(),
    ensures
        owners_upto(list, n).len() == n,
        forall|k: int| 0 <= k < n ==> #[trigger] owners_upto(list, n)[k] == owner_exposure(list[k]),
    decreases n,
{
    if n > 0 {
        lemma_owners_listed(list, n - 1);
    }
}

proof fn lemma_scopes_filed_at(summary: PermissionSummaryView, list: Seq<Seq<char>>, n: int, k: int)
    requires
        0 <= k < n <= list.len(),
    ensures
        class_list(with_scopes(summary, list, n), scope_class(list[k])).contains(list[k]),
    decreases n,
{
    let before = with_scopes(summary, list, n - 1);
    lemma_filed(before, scope_class(list[n - 1]), list[n - 1]);
    if k < n - 1 {
        lemma_scopes_filed_at(summary, list, n - 1, k);
        assert(class_list(before, scope_class(list[k])).contains(list[k]));
    }
}

/// Whether a text holds another, by where it stands.
proof fn lemma_stands(s: Seq<char>, part: Seq<char>, k: int)
    requires
        0 <= k,
        k + part.len() <= s.len(),
        s.subrange(k, k + part.len()) =~= part,
    ensures
        holds(s, part),
{
    assert(stands_at(s, part, k));
}

/// A token that reaches contacts or deals can change them and is high; one that reaches companies,
/// owners or the account is medium at least; one that reaches nothing is low. Each kind of object that
/// is reached is reported, contacts and deals at high risk, and so is every owner.
pub proof fn lemma_reach_decides(info: HubSpotAccountInfo, probes: CrmProbes, owners: Seq<HubSpotOwner>, k: int)
    ensures
        ({
            let result = hubspot_result(info, probes, owners);
            &&& probes.contacts || probes.deals <==> result.severity == Severity::High
            &&& probes.companies || owners.len() > 0 || info.portal_id is Some ==> result.severity
                != Severity::Low
            &&& !probes.contacts && !probes.deals && !probes.companies && owners.len() == 0
                && info.portal_id is None ==> result.severity == Severity::Low
            &&& probes.contacts ==> result.resources[1].name == "contacts"@ && result.resources[1].risk
                == "high"@
            &&& probes.contacts && probes.deals ==> result.resources[2].name == "deals"@
                && result.resources[2].risk == "high"@
            &&& !probes.contacts && probes.deals ==> result.resources[1].name == "deals"@
                && result.resources[1].risk == "high"@
            &&& 0 <= k < owners.len() ==> exists|i: int|
                0 <= i < result.resources.len() && (#[trigger] result.resources[i]).resource_type
                    == "owner"@ && result.resources[i].name == owner_name(owners[k])
            &&& result.severity != Severity::Critical
        }),
{
    let scopes = detected_scopes(probes, owners.len(), info.portal_id is Some);
    lemma_owners_listed(owners, owners.len() as int);
    if 0 <= k < owners.len() {
        let objects = object_resources(text_else(portal_text(info), "unknown_portal"@), probes, scopes);
        assert(hubspot_result(info, probes, owners).resources[objects.len() + k] == owner_exposure(
            owners[k],
        ));
    }
    reveal_strlit(".write");
    reveal_strlit(".read");
    reveal_strlit("crm.objects.contacts.write");
    reveal_strlit("crm.objects.contacts.read");
    reveal_strlit("crm.objects.deals.write");
    reveal_strlit("crm.objects.deals.read");
    reveal_strlit("crm.objects.companies.read");
    reveal_strlit("crm.objects.owners.read");
    reveal_strlit("account-info.security.read");
    lemma_stands("crm.objects.contacts.write"@, ".write"@, 20);
    lemma_stands("crm.objects.contacts.read"@, ".read"@, 20);
    lemma_stands("crm.objects.deals.write"@, ".write"@, 17);
    lemma_stands("crm.objects.deals.read"@, ".read"@, 17);
    lemma_stands("crm.objects.companies.read"@, ".read"@, 21);
    lemma_stands("crm.objects.owners.read"@, ".read"@, 18);
    lemma_stands("account-info.security.read"@, ".read"@, 21);
    let c: int = if probes.contacts { 2 } else { 0 };
    let d: int = if probes.deals { 2 } else { 0 };
    let m: int = if probes.companies { 2 } else { 0 };
    let o: int = if owners.len() > 0 { 1 } else { 0 };
    if probes.contacts {
        assert(scopes[1] == "crm.objects.contacts.write"@);
        assert(holds(scopes[1], ".write"@));
        assert(scopes[0] == "crm.objects.contacts.read"@);
        assert(holds(scopes[0], ".read"@));
    }
    if probes.deals {
        assert(scopes[c + 1] == "crm.objects.deals.write"@);
        assert(holds(scopes[c + 1], ".write"@));
        assert(scopes[c] == "crm.objects.deals.read"@);
        assert(holds(scopes[c], ".read"@));
    }
    if probes.companies {
        assert(scopes[c + d] == "crm.objects.companies.read"@);
        assert(holds(scopes[c + d], ".read"@));
    }
    if owners.len() > 0 {
        assert(scopes[c + d + m] == "crm.objects.owners.read"@);
        assert(holds(scopes[c + d + m], ".read"@));
    }
    if info.portal_id is Some {
        assert(scopes[c + d + m + o] == "account-info.security.read"@);
        assert(holds(scopes[c + d + m + o], ".read"@));
    }
}

/// Every scope that a token was found to have is filed, the account's as administration and each to
/// write as a risk.
pub proof fn lemma_found_scopes_are_filed(info: HubSpotAccountInfo, probes: CrmProbes, owners: Seq<HubSpotOwner>)
    ensures
        ({
            let permissions = hubspot_result(info, probes, owners).permissions;
            &&& info.portal_id is Some ==> permissions.admin.contains("account-info.security.read"@)
            &&& probes.contacts ==> permissions.risky.contains("crm.objects.contacts.write"@)
            &&& probes.deals ==> permissions.risky.contains("crm.objects.deals.write"@)
            &&& probes.companies ==> permissions.risky.contains("crm.objects.companies.write"@)
        }),
{
    let scopes = detected_scopes(probes, owners.len(), info.portal_id is Some);
    let n = scopes.len() as int;
    let raw = with_scopes(empty_permission_summary(), scopes, n);
    lemma_sorted_summary(raw, PermissionClass::Admin);
    lemma_sorted_summary(raw, PermissionClass::Risky);
    let sorted = sorted_summary(raw);
    assert(class_list(sorted, PermissionClass::Admin) == sorted.admin);
    assert(class_list(sorted, PermissionClass::Risky) == sorted.risky);
    reveal_strlit(".write");
    reveal_strlit("crm.objects.contacts.write");
    reveal_strlit("crm.objects.deals.write");
    reveal_strlit("crm.objects.companies.write");
    reveal_strlit("account-info.security.read");
    assert("crm.objects.contacts.write"@[0] == 'c' && "crm.objects.deals.write"@[0] == 'c'
        && "crm.objects.companies.write"@[0] == 'c' && "account-info.security.read"@[0] == 'a');
    lemma_stands("crm.objects.contacts.write"@, ".write"@, 20);
    lemma_stands("crm.objects.deals.write"@, ".write"@, 17);
    lemma_stands("crm.objects.companies.write"@, ".write"@, 21);
    let c: int = if probes.contacts { 2 } else { 0 };
    let d: int = if probes.deals { 2 } else { 0 };
    if probes.contacts {
        assert(scopes[1] == "crm.objects.contacts.write"@);
        lemma_scopes_filed_at(empty_permission_summary(), scopes, n, 1);
        assert(class_list(sorted, PermissionClass::Risky).contains(scopes[1]));
    }
    if probes.deals {
        assert(scopes[c + 1] == "crm.objects.deals.write"@);
        lemma_scopes_filed_at(empty_permission_summary(), scopes, n, c + 1);
        assert(class_list(sorted, PermissionClass::Risky).contains(scopes[c + 1]));
    }
    if probes.companies {
        assert(scopes[c + d + 1] == "crm.objects.companies.write"@);
        lemma_scopes_filed_at(empty_permission_summary(), scopes, n, c + d + 1);
        assert(class_list(sorted, PermissionClass::Risky).contains(scopes[c + d + 1]));
    }
    if info.portal_id is Some {
        assert(scopes[n - 1] == "account-info.security.read"@);
        lemma_scopes_filed_at(empty_permission_summary(), scopes, n, n - 1);
        assert(class_list(sorted, PermissionClass::Admin).contains(scopes[n - 1]));
    }
}

} // verus!
