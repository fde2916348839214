//! Fastly tokens.

use vstd::prelude::*;
use crate::mapping::{build_result, plain_result};
use crate::model::{
    binding, empty_access_token_details, empty_permission_summary, exposure, no_views, one_view,
    push_view, views, AccessMapResult, AccessMapResultView, AccessSummary, AccessSummaryView,
    AccessTokenDetails, AccessTokenDetailsView, PermissionSummary, PermissionSummaryView,
    ResourceExposure, ResourceExposureView, RoleBinding, Severity,
};
use crate::permissions::{
    class_list, file_permission, filed, lemma_filed, lemma_sorted_classes_stay_filled,
    lemma_sorted_summary, sort_permission_summary, sorted_summary, PermissionClass,
};
use crate::text::{
    cat2, cat5, copy_opt, either, first_text, no_texts, one_text, opt_text, or_text, push_text,
    str_eq, text_else, text_or, texts, three_texts, two_texts, unwrap_text,
};

verus! {

/// A user.
#[derive(Debug)]
pub struct FastlyUser {
    pub id: Option<String>,
    pub login: Option<String>,
    pub name: Option<String>,
    pub email: Option<String>,
    pub role: Option<String>,
    pub customer_id: Option<String>,
}

/// A service.
#[derive(Debug)]
pub struct FastlyService {
    pub id: Option<String>,
    pub name: Option<String>,
    pub service_type: Option<String>,
}

/// A customer.
#[derive(Debug)]
pub struct FastlyCustomer {
    pub name: Option<String>,
}

/// What a role amounts to.
#[derive(Clone, Copy, Debug, PartialEq, Eq, Structural)]
pub enum RoleRisk {
    Superuser,
    Engineer,
    Billing,
    ReadOnly,
}

/// What a role amounts to, by its name.
pub open spec fn role_risk(role: Seq<char>) -> RoleRisk {
    if role == "superuser"@ {
        RoleRisk::Superuser
    } else if role == "engineer"@ {
        RoleRisk::Engineer
    } else if role == "billing"@ {
        RoleRisk::Billing
    } else {
        RoleRisk::ReadOnly
    }
}

pub fn classify_role(role: &str) -> (risk: RoleRisk)
    ensures
        risk == role_risk(role@),
{
    if str_eq(role, "superuser") {
        RoleRisk::Superuser
    } else if str_eq(role, "engineer") {
        RoleRisk::Engineer
    } else if str_eq(role, "billing") {
        RoleRisk::Billing
    } else {
        RoleRisk::ReadOnly
    }
}

/// What a role permits.
pub open spec fn permissions_of(role: Seq<char>) -> Seq<Seq<char>> {
    match role_risk(role) {
        RoleRisk::Superuser => seq![
            "service:create"@,
            "service:delete"@,
            "service:configure"@,
            "service:purge"@,
            "customer:admin"@,
            "user:manage"@,
        ],
        RoleRisk::Engineer => seq!["service:configure"@, "service:purge"@, "service:deploy"@],
        RoleRisk::Billing => seq!["billing:read"@, "billing:write"@],
        RoleRisk::ReadOnly => seq!["service:read"@],
    }
}

pub fn role_permissions(role: &str) -> (list: Vec<String>)
    ensures
        texts(list@) == permissions_of(role@),
{
    match classify_role(role) {
        RoleRisk::Superuser => {
            let mut list = three_texts("service:create", "service:delete", "service:configure");
            push_text(&mut list, "service:purge".to_owned());
            push_text(&mut list, "customer:admin".to_owned());
            push_text(&mut list, "user:manage".to_owned());
            assert(texts(list@) =~= permissions_of(role@));
            list
        },
        RoleRisk::Engineer => three_texts("service:configure", "service:purge", "service:deploy"),
        RoleRisk::Billing => two_texts("billing:read", "billing:write"),
        RoleRisk::ReadOnly => one_text("service:read"),
    }
}

/// How grave a role is.
pub open spec fn role_severity(role: Seq<char>) -> Severity {
    match role_risk(role) {
        RoleRisk::Superuser => Severity::Critical,
        RoleRisk::Engineer => Severity::High,
        RoleRisk::Billing => Severity::Medium,
        RoleRisk::ReadOnly => Severity::Low,
    }
}

pub fn derive_severity(role: &str) -> (severity: Severity)
    ensures
        severity == role_severity(role@),
{
    match classify_role(role) {
        RoleRisk::Superuser => Severity::Critical,
        RoleRisk::Engineer => Severity::High,
        RoleRisk::Billing => Severity::Medium,
        RoleRisk::ReadOnly => Severity::Low,
    }
}

/// The role of a user.
pub open spec fn user_role(user: FastlyUser) -> Seq<char> {
    text_or(user.role, "unknown"@)
}

/// The customer to look up: that of a superuser.
pub open spec fn wanted_customer(user: FastlyUser) -> Option<Seq<char>> {
    if role_risk(user_role(user)) == RoleRisk::Superuser {
        opt_text(user.customer_id)
    } else {
        None
    }
}

/// Says which customer to look up.
pub fn customer_to_fetch(user: &FastlyUser) -> (id: Option<String>)
    ensures
        opt_text(id) == wanted_customer(*user),
{
    let role = unwrap_text(&user.role, "unknown");
    match classify_role(role.as_str()) {
        RoleRisk::Superuser => copy_opt(&user.customer_id),
        _ => None,
    }
}

/// The resource that stands for the customer, where it was looked up.
pub open spec fn customer_resources(user: FastlyUser, customer: Option<FastlyCustomer>) -> Seq<
    ResourceExposureView,
> {
    match (wanted_customer(user), customer) {
        (Some(id), Some(found)) => seq![
            exposure(
                "customer"@,
                text_or(found.name, id),
                seq!["customer:admin"@],
                Severity::Critical,
                "Full customer account access via superuser role"@,
            ),
        ],
        _ => Seq::empty(),
    }
}

fn expose_customer(user: &FastlyUser, customer: &Option<FastlyCustomer>) -> (resources: Vec<
    ResourceExposure,
>)
    ensures
        views(resources@) == customer_resources(*user, *customer),
{
    match (customer_to_fetch(user), customer) {
        (Some(id), Some(found)) => one_view(
            ResourceExposure::new(
                "customer",
                unwrap_text(&found.name, id.as_str()).as_str(),
                one_text("customer:admin"),
                Severity::Critical,
                "Full customer account access via superuser role",
            ),
        ),
        _ => no_views(),
    }
}

/// The resource that stands for a service.
pub open spec fn service_exposure(service: FastlyService, role: Seq<char>) -> ResourceExposureView {
    let kind = text_or(service.service_type, "unknown"@);
    exposure(
        "service"@,
        text_else(either(opt_text(service.name), opt_text(service.id)), "unknown_service"@),
        seq!["service:"@ + kind],
        role_severity(role),
        "Fastly service ("@ + kind + ") accessible with "@ + role + " role"@,
    )
}

fn expose_service(service: &FastlyService, role: &str) -> (resource: ResourceExposure)
    ensures
        resource@ == service_exposure(*service, role@),
{
    let kind = unwrap_text(&service.service_type, "unknown");
    ResourceExposure::new(
        "service",
        first_text(&service.name, &service.id, "unknown_service").as_str(),
        one_text(cat2("service:", kind.as_str()).as_str()),
        derive_severity(role),
        cat5("Fastly service (", kind.as_str(), ") accessible with ", role, " role").as_str(),
    )
}

/// The resources that stand for the first `n` services.
pub open spec fn services_upto(list: Seq<FastlyService>, n: int, role: Seq<char>) -> Seq<ResourceExposureView>
    decreases n,
{
    if n <= 0 {
        Seq::empty()
    } else {
        services_upto(list, n - 1, role).push(service_exposure(list[n - 1], role))
    }
}

fn add_services(resources: &mut Vec<ResourceExposure>, list: &Vec<FastlyService>, role: &str)
    ensures
        views(final(resources)@) == views(old(resources)@) + services_upto(
            list@,
            list@.len() as int,
            role@,
        ),
{
    let ghost before = views(resources@);
    let mut i: usize = 0;
    assert(before =~= before + services_upto(list@, 0, role@));
    while i < list.len()
        invariant
            i <= list@.len(),
            views(resources@) == before + services_upto(list@, i as int, role@),
        decreases list@.len() - i,
    {
        push_view(resources, expose_service(&list[i], role));
        i = i + 1;
        assert(views(resources@) =~= before + services_upto(list@, i as int, role@));
    }
}

/// How a user is called.
pub open spec fn fastly_user(user: FastlyUser) -> Seq<char> {
    text_else(
        either(either(opt_text(user.login), opt_text(user.name)), opt_text(user.email)),
        "fastly_user"@,
    )
}

/// The notes on a token.
pub open spec fn fastly_notes(role: Seq<char>, services: nat) -> Seq<Seq<char>> {
    let first = match role_risk(role) {
        RoleRisk::Superuser => seq!["Superuser role grants full platform access"@],
        RoleRisk::Billing => seq!["Billing role grants access to financial data"@],
        _ => Seq::empty(),
    };
    if services == 0 {
        first.push("Token did not enumerate any services"@)
    } else {
        first
    }
}

/// What a role permits, as a summary.
pub open spec fn role_summary(role: Seq<char>) -> PermissionSummaryView {
    filed(
        empty_permission_summary(),
        match role_risk(role) {
            RoleRisk::Superuser => PermissionClass::Admin,
            RoleRisk::Engineer | RoleRisk::Billing => PermissionClass::Risky,
            RoleRisk::ReadOnly => PermissionClass::ReadOnly,
        },
        "role:"@ + role,
    )
}

/// What a Fastly token gives access to.
pub open spec fn fastly_result(
    user: FastlyUser,
    customer: Option<FastlyCustomer>,
    services: Seq<FastlyService>,
) -> AccessMapResultView {
    let role = user_role(user);
    let found = customer_resources(user, customer) + services_upto(
        services,
        services.len() as int,
        role,
    );
    plain_result(
        "fastly"@,
        AccessSummaryView {
            id: fastly_user(user),
            access_type: "user"@,
            project: None,
            tenant: opt_text(user.customer_id),
            account_id: opt_text(user.id),
        },
        seq![binding("role:"@ + role, "fastly"@, permissions_of(role))],
        sorted_summary(role_summary(role)),
        if services.len() == 0 {
            found.push(
                exposure(
                    "account"@,
                    fastly_user(user),
                    Seq::empty(),
                    Severity::Low,
                    "Fastly account associated with the token"@,
                ),
            )
        } else {
            found
        },
        role_severity(role),
        fastly_notes(role, services.len()),
        Some(
            AccessTokenDetailsView {
                name: opt_text(user.name),
                username: opt_text(user.login),
                account_type: Some(role),
                email: opt_text(user.email),
                user_id: opt_text(user.id),
                scopes: seq![role],
                ..empty_access_token_details()
            },
        ),
    )
}

/// Maps a Fastly token from what the service answered to it. A listing that failed is empty.
pub fn map_access_from_token(
    user: &FastlyUser,
    customer: &Option<FastlyCustomer>,
    services: &Vec<FastlyService>,
) -> (result: AccessMapResult)
    ensures
        result@ == fastly_result(*user, *customer, services@),
{
    let username = first_text(&or_text(&user.login, &user.name), &user.email, "fastly_user");
    let role = unwrap_text(&user.role, "unknown");
    let label = cat2("role:", role.as_str());
    let roles = one_view(
        RoleBinding::new(label.as_str(), "fastly", role_permissions(role.as_str())),
    );
    let mut permissions = PermissionSummary::default();
    let mut risk_notes = no_texts();
    match classify_role(role.as_str()) {
        RoleRisk::Superuser => {
            file_permission(&mut permissions, PermissionClass::Admin, label);
            push_text(
                &mut risk_notes,
                "Superuser role grants full platform access".to_owned(),
            );
        },
        RoleRisk::Engineer => file_permission(&mut permissions, PermissionClass::Risky, label),
        RoleRisk::Billing => {
            file_permission(&mut permissions, PermissionClass::Risky, label);
            push_text(
                &mut risk_notes,
                "Billing role grants access to financial data".to_owned(),
            );
        },
        RoleRisk::ReadOnly => file_permission(&mut permissions, PermissionClass::ReadOnly, label),
    }
    sort_permission_summary(&mut permissions);
    let mut resources = expose_customer(user, customer);
    add_services(&mut resources, services, role.as_str());
    let severity = derive_severity(role.as_str());
    if services.len() == 0 {
        push_view(
            &mut resources,
            ResourceExposure::new(
                "account",
                username.as_str(),
                no_texts(),
                Severity::Low,
                "Fastly account associated with the token",
            ),
        );
        push_text(&mut risk_notes, "Token did not enumerate any services".to_owned());
    }
    assert(texts(risk_notes@) =~= fastly_notes(role@, services@.len()));
    let mut details = AccessTokenDetails::default();
    details.name = copy_opt(&user.name);
    details.username = copy_opt(&user.login);
    details.account_type = Some(role.clone());
    details.email = copy_opt(&user.email);
    details.user_id = copy_opt(&user.id);
    details.scopes = one_text(role.as_str());
    build_result(
        "fastly",
        AccessSummary {
            id: username,
            access_type: "user".to_owned(),
            project: None,
            tenant: copy_opt(&user.customer_id),
            account_id: copy_opt(&user.id),
        },
        roles,
        permissions,
        resources,
        severity,
        risk_notes,
        Some(details),
    )
}

proof fn lemma_services_len(list: Seq<FastlyService>, n: int, role: Seq<char>)
    requires
        0 <= n,
    ensures
        services_upto(list, n, role).len() == n,
    decreases n,
{
    if n > 0 {
        lemma_services_len(list, n - 1, role);
    }
}

/// The result of a token always names a resource, if only its account.
pub proof fn lemma_some_resource_is_named(user: FastlyUser, customer: Option<FastlyCustomer>, services: Seq<FastlyService>)
    ensures
        fastly_result(user, customer, services).resources.len() > 0,
{
    lemma_services_len(services, services.len() as int, user_role(user));
}

proof fn lemma_services_listed(list: Seq<FastlyService>, n: int, role: Seq<char>)
    requires
        0 <= n <= list.len(),
    ensures
        services_upto(list, n, role).len() == n,
        forall|k: int| 0 <= k < n ==> #[trigger] services_upto(list, n, role)[k] == service_exposure(list[k], role),
    decreases n,
{
    if n > 0 {
        lemma_services_listed(list, n - 1, role);
    }
}

/// The role of the user decides, and only it: a superuser is critical and administers, an engineer is
/// high, billing medium, anybody else low. The services that were listed are at the same risk, each under
/// its name. The customer is looked up for a superuser alone.
pub proof fn lemma_role_decides(user: FastlyUser, customer: Option<FastlyCustomer>, services: Seq<FastlyService>, k: int)
    ensures
        ({
            let result = fastly_result(user, customer, services);
            let role = opt_text(user.role);
            let first = result.resources.len() - services.len();
            &&& role == Some("superuser"@) <==> result.severity == Severity::Critical
            &&& role == Some("engineer"@) <==> result.severity == Severity::High
            &&& role == Some("billing"@) <==> result.severity == Severity::Medium
            &&& role == Some("superuser"@) ==> result.permissions.admin.contains("role:superuser"@)
                && result.roles[0].permissions.contains("customer:admin"@)
            &&& role == Some("engineer"@) || role == Some("billing"@) ==> result.permissions.risky.len()
                > 0 && result.permissions.admin.len() == 0
            &&& role == Some("engineer"@) ==> result.roles[0].permissions.contains("service:purge"@)
            &&& role != Some("superuser"@) ==> wanted_customer(user) is None
            &&& role == Some("superuser"@) ==> wanted_customer(user) == opt_text(user.customer_id)
            &&& 0 <= k < services.len() && services[k].name is Some ==> {
                let resource = result.resources[first + k];
                &&& resource.name == services[k].name->0@
                &&& role == Some("superuser"@) ==> resource.risk == "critical"@
                &&& role == Some("engineer"@) ==> resource.risk == "high"@
            }
            &&& user.login is Some ==> result.identity.id == user.login->0@
        }),
{
    let role = user_role(user);
    lemma_services_listed(services, services.len() as int, role);
    reveal_strlit("superuser");
    reveal_strlit("engineer");
    reveal_strlit("billing");
    reveal_strlit("unknown");
    assert("superuser"@.len() == 9);
    assert("engineer"@.len() == 8);
    assert("billing"@.len() == 7);
    assert("unknown"@.len() == 7);
    assert("billing"@[0] != "unknown"@[0]);
    lemma_sorted_summary(role_summary(role), PermissionClass::Admin);
    lemma_sorted_classes_stay_filled(role_summary(role), PermissionClass::Risky);
    lemma_sorted_classes_stay_filled(role_summary(role), PermissionClass::Admin);
    reveal_strlit("role:");
    reveal_strlit("role:superuser");
    assert("role:"@ + "superuser"@ =~= "role:superuser"@);
    if role == "superuser"@ {
        assert(role_summary(role).admin[0] == "role:superuser"@);
        assert(class_list(role_summary(role), PermissionClass::Admin).contains("role:superuser"@));
        assert(permissions_of(role)[4] == "customer:admin"@);
    }
    if role == "engineer"@ {
        assert(permissions_of(role)[1] == "service:purge"@);
    }
}

} // verus!
