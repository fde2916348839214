//! IBM Cloud API keys.

use vstd::prelude::*;
use crate::mapping::{build_result, plain_result};
use crate::model::{
    binding, empty_access_token_details, empty_permission_summary, exposure, one_view, push_view,
    views, AccessMapResult, AccessMapResultView, AccessSummary, AccessSummaryView,
    AccessTokenDetails, AccessTokenDetailsView, PermissionSummary, PermissionSummaryView,
    ResourceExposure, ResourceExposureView, RoleBinding, Severity,
};
use crate::permissions::{
    class_list, file_permission, filed, lemma_filed, lemma_sorted_classes_stay_filled,
    lemma_sorted_summary, sort_permission_summary, sorted_summary, PermissionClass,
};
use crate::text::{
    cat2, cat3, cat4, copy_opt, copy_texts, decimal, no_texts, one_text, opt_text, push_text,
    split_whitespace, str_eq, text_or, texts, unwrap_text, usize_text, words,
};

verus! {

/// What the service says of a key.
#[derive(Debug)]
pub struct IbmApiKeyDetails {
    pub id: Option<String>,
    pub iam_id: Option<String>,
    pub account_id: Option<String>,
    pub name: Option<String>,
    pub created_at: Option<String>,
    pub modified_at: Option<String>,
}

/// The token that a key was exchanged for.
#[derive(Debug)]
pub struct IbmTokenResponse {
    pub access_token: Option<String>,
    pub scope: Option<String>,
}

/// A resource instance.
#[derive(Debug)]
pub struct IbmResourceInstance {
    pub name: Option<String>,
    pub resource_plan_id: Option<String>,
    pub region_id: Option<String>,
}

/// The class of what a scope permits.
pub open spec fn scope_class(scope: Seq<char>) -> PermissionClass {
    if scope == "ibm"@ {
        PermissionClass::Admin
    } else if scope == "openid"@ {
        PermissionClass::ReadOnly
    } else {
        PermissionClass::Risky
    }
}

pub fn classify_scope(scope: &str) -> (class: PermissionClass)
    ensures
        class == scope_class(scope@),
{
    if str_eq(scope, "ibm") {
        PermissionClass::Admin
    } else if str_eq(scope, "openid") {
        PermissionClass::ReadOnly
    } else {
        PermissionClass::Risky
    }
}

/// The summary with one more scope.
pub open spec fn with_scope(summary: PermissionSummaryView, scope: Seq<char>) -> PermissionSummaryView {
    filed(summary, scope_class(scope), scope)
}

fn file_scope(summary: &mut PermissionSummary, scope: &str)
    ensures
        final(summary)@ == with_scope(old(summary)@, scope@),
{
    file_permission(summary, classify_scope(scope), scope.to_owned());
}

/// The summary with the first `n` scopes.
pub open spec fn with_scopes(summary: PermissionSummaryView, list: Seq<Seq<char>>, n: int) -> PermissionSummaryView
    decreases n,
{
    if n <= 0 {
        summary
    } else {
        with_scope(with_scopes(summary, list, n - 1), list[n - 1])
    }
}

fn file_scopes(summary: &mut PermissionSummary, list: &Vec<String>)
    ensures
        final(summary)@ == with_scopes(old(summary)@, texts(list@), list@.len() as int),
{
    let ghost start = summary@;
    let mut i: usize = 0;
    while i < list.len()
        invariant
            i <= list@.len(),
            summary@ == with_scopes(start, texts(list@), i as int),
        decreases list@.len() - i,
    {
        assert(texts(list@)[i as int] == list@[i as int]@);
        file_scope(summary, list[i].as_str());
        i = i + 1;
    }
}

/// The scopes of a token: those that it names, where the exchange gave one to use.
pub open spec fn token_scopes(token: Result<IbmTokenResponse, String>) -> Seq<Seq<char>> {
    match token {
        Ok(found) => match (found.access_token, found.scope) {
            (Some(_), Some(scope)) => words(scope@),
            _ => Seq::empty(),
        },
        Err(_) => Seq::empty(),
    }
}

fn read_scopes(token: &Result<IbmTokenResponse, String>) -> (scopes: Vec<String>)
    ensures
        texts(scopes@) == token_scopes(*token),
{
    match token {
        Ok(found) => match (&found.access_token, &found.scope) {
            (Some(_), Some(scope)) => split_whitespace(scope.as_str()),
            _ => no_texts(),
        },
        Err(_) => no_texts(),
    }
}

/// The resource that stands for an instance.
pub open spec fn instance_exposure(instance: IbmResourceInstance) -> ResourceExposureView {
    exposure(
        "resource_instance"@,
        text_or(instance.name, "unknown_resource"@) + " ("@ + text_or(
            instance.region_id,
            "global"@,
        ) + ")"@,
        seq!["plan:"@ + text_or(instance.resource_plan_id, "unknown_plan"@)],
        Severity::Medium,
        "Resource instance accessible via IAM token"@,
    )
}

fn expose_instance(instance: &IbmResourceInstance) -> (resource: ResourceExposure)
    ensures
        resource@ == instance_exposure(*instance),
{
    let name = unwrap_text(&instance.name, "unknown_resource");
    let region = unwrap_text(&instance.region_id, "global");
    let plan = unwrap_text(&instance.resource_plan_id, "unknown_plan");
    ResourceExposure::new(
        "resource_instance",
        cat4(name.as_str(), " (", region.as_str(), ")").as_str(),
        one_text(cat2("plan:", plan.as_str()).as_str()),
        Severity::Medium,
        "Resource instance accessible via IAM token",
    )
}

/// The resources that stand for the first `n` instances.
pub open spec fn instances_upto(list: Seq<IbmResourceInstance>, n: int) -> Seq<ResourceExposureView>
    decreases n,
{
    if n <= 0 {
        Seq::empty()
    } else {
        instances_upto(list, n - 1).push(instance_exposure(list[n - 1]))
    }
}

fn add_instances(resources: &mut Vec<ResourceExposure>, list: &Vec<IbmResourceInstance>)
    ensures
        views(final(resources)@) == views(old(resources)@) + instances_upto(
            list@,
            list@.len() as int,
        ),
{
    let ghost before = views(resources@);
    let mut i: usize = 0;
    assert(before =~= before + instances_upto(list@, 0));
    while i < list.len()
        invariant
            i <= list@.len(),
            views(resources@) == before + instances_upto(list@, i as int),
        decreases list@.len() - i,
    {
        push_view(resources, expose_instance(&list[i]));
        i = i + 1;
        assert(views(resources@) =~= before + instances_upto(list@, i as int));
    }
}

/// How grave it is what a key shows.
pub open spec fn ibm_severity(instances: nat) -> Severity {
    if instances > 10 {
        Severity::Critical
    } else if instances > 0 {
        Severity::High
    } else {
        Severity::Medium
    }
}

pub fn derive_severity(resource_instances: &Vec<IbmResourceInstance>) -> (severity: Severity)
    ensures
        severity == ibm_severity(resource_instances@.len()),
{
    if resource_instances.len() > 10 {
        Severity::Critical
    } else if resource_instances.len() > 0 {
        Severity::High
    } else {
        Severity::Medium
    }
}

/// The notes on a key.
pub open spec fn ibm_notes(
    token: Result<IbmTokenResponse, String>,
    instances: nat,
    scopes: nat,
) -> Seq<Seq<char>> {
    let first = match token {
        Ok(_) => Seq::empty(),
        Err(_) => seq!["IAM token exchange failed; resource enumeration skipped"@],
    };
    let second = if instances > 0 {
        first.push("Token can enumerate "@ + decimal(instances) + " resource instances"@)
    } else {
        first
    };
    if instances == 0 && scopes == 0 {
        second.push("API key did not enumerate any resource instances"@)
    } else {
        second
    }
}

/// What an IBM Cloud key gives access to.
pub open spec fn ibm_result(
    details: IbmApiKeyDetails,
    token: Result<IbmTokenResponse, String>,
    instances: Seq<IbmResourceInstance>,
) -> AccessMapResultView {
    let key_name = text_or(details.name, "ibm_cloud_apikey"@);
    let scopes = token_scopes(token);
    let severity = ibm_severity(instances.len());
    let found = seq![
        exposure(
            "account"@,
            text_or(details.account_id, "unknown_account"@),
            scopes,
            severity,
            "IBM Cloud account accessible with this API key"@,
        ),
    ] + instances_upto(instances, instances.len() as int);
    plain_result(
        "ibm_cloud"@,
        AccessSummaryView {
            id: text_or(details.iam_id, key_name),
            access_type: "apikey"@,
            project: None,
            tenant: None,
            account_id: opt_text(details.account_id),
        },
        seq![binding("apikey"@, "ibm_cloud"@, scopes)],
        sorted_summary(with_scopes(empty_permission_summary(), scopes, scopes.len() as int)),
        if instances.len() == 0 && scopes.len() == 0 {
            found.push(
                exposure(
                    "account"@,
                    key_name,
                    Seq::empty(),
                    Severity::Medium,
                    "IBM Cloud API key with no enumerable resources"@,
                ),
            )
        } else {
            found
        },
        severity,
        ibm_notes(token, instances.len(), scopes.len()),
        Some(
            AccessTokenDetailsView {
                name: opt_text(details.name),
                username: opt_text(details.iam_id),
                token_type: Some("apikey"@),
                created_at: opt_text(details.created_at),
                last_used_at: opt_text(details.modified_at),
                user_id: opt_text(details.id),
                scopes,
                ..empty_access_token_details()
            },
        ),
    )
}

/// The token with which to list the instances.
pub open spec fn usable_token(token: Result<IbmTokenResponse, String>) -> Option<Seq<char>> {
    match token {
        Ok(found) => opt_text(found.access_token),
        Err(_) => None,
    }
}

/// Finds the token with which to list the instances; without one there are none.
pub fn listing_token(token: &Result<IbmTokenResponse, String>) -> (found: Option<String>)
    ensures
        opt_text(found) == usable_token(*token),
{
    match token {
        Ok(response) => copy_opt(&response.access_token),
        Err(_) => None,
    }
}

/// Maps an IBM Cloud key from what the service answered to it. A listing that failed is empty.
pub fn map_access_from_token(
    details: &IbmApiKeyDetails,
    token: &Result<IbmTokenResponse, String>,
    resource_instances: &Vec<IbmResourceInstance>,
) -> (result: AccessMapResult)
    ensures
        result@ == ibm_result(*details, *token, resource_instances@),
{
    let key_name = unwrap_text(&details.name, "ibm_cloud_apikey");
    let scopes = read_scopes(token);
    let mut risk_notes = no_texts();
    match token {
        Ok(_) => {},
        Err(_) => push_text(
            &mut risk_notes,
            "IAM token exchange failed; resource enumeration skipped".to_owned(),
        ),
    }
    let roles = one_view(RoleBinding::new("apikey", "ibm_cloud", copy_texts(&scopes)));
    let mut permissions = PermissionSummary::default();
    file_scopes(&mut permissions, &scopes);
    sort_permission_summary(&mut permissions);
    let severity = derive_severity(resource_instances);
    let mut resources = one_view(
        ResourceExposure::new(
            "account",
            unwrap_text(&details.account_id, "unknown_account").as_str(),
            copy_texts(&scopes),
            severity,
            "IBM Cloud account accessible with this API key",
        ),
    );
    add_instances(&mut resources, resource_instances);
    if resource_instances.len() > 0 {
        let count = usize_text(resource_instances.len());
        push_text(
            &mut risk_notes,
            cat3("Token can enumerate ", count.as_str(), " resource instances"),
        );
    }
    if resource_instances.len() == 0 && scopes.len() == 0 {
        push_view(
            &mut resources,
            ResourceExposure::new(
                "account",
                key_name.as_str(),
                no_texts(),
                Severity::Medium,
                "IBM Cloud API key with no enumerable resources",
            ),
        );
        push_text(
            &mut risk_notes,
            "API key did not enumerate any resource instances".to_owned(),
        );
    }
    assert(texts(risk_notes@) =~= ibm_notes(
        *token,
        resource_instances@.len(),
        texts(scopes@).len(),
    ));
    let mut told = AccessTokenDetails::default();
    told.name = copy_opt(&details.name);
    told.username = copy_opt(&details.iam_id);
    told.token_type = Some("apikey".to_owned());
    told.created_at = copy_opt(&details.created_at);
    told.last_used_at = copy_opt(&details.modified_at);
    told.user_id = copy_opt(&details.id);
    told.scopes = scopes;
    build_result(
        "ibm_cloud",
        AccessSummary {
            id: unwrap_text(&details.iam_id, key_name.as_str()),
            access_type: "apikey".to_owned(),
            project: None,
            tenant: None,
            account_id: copy_opt(&details.account_id),
        },
        roles,
        permissions,
        resources,
        severity,
        risk_notes,
        Some(told),
    )
}

proof fn lemma_scopes_are_filed(summary: PermissionSummaryView, scopes: Seq<Seq<char>>, n: int, k: int)
    requires
        0 <= k < n <= scopes.len(),
    ensures
        class_list(with_scopes(summary, scopes, n), scope_class(scopes[k])).contains(scopes[k]),
    decreases n,
{
    let before = with_scopes(summary, scopes, n - 1);
    lemma_filed(before, scope_class(scopes[n - 1]), scopes[n - 1]);
    if k < n - 1 {
        lemma_scopes_are_filed(summary, scopes, n - 1, k);
    }
}

/// No scope of a key is left out: each stands in the class that it belongs to.
pub proof fn lemma_every_scope_is_reported(details: IbmApiKeyDetails, token: Result<IbmTokenResponse, String>, instances: Seq<IbmResourceInstance>, k: int)
    requires
        0 <= k < token_scopes(token).len(),
    ensures
        class_list(ibm_result(details, token, instances).permissions, scope_class(token_scopes(token)[k])).contains(token_scopes(token)[k]),
{
    let scopes = token_scopes(token);
    lemma_scopes_are_filed(empty_permission_summary(), scopes, scopes.len() as int, k);
    lemma_sorted_summary(
        with_scopes(empty_permission_summary(), scopes, scopes.len() as int),
        scope_class(scopes[k]),
    );
}

/// The result of a key always names a resource, if only its account.
pub proof fn lemma_some_resource_is_named(details: IbmApiKeyDetails, token: Result<IbmTokenResponse, String>, instances: Seq<IbmResourceInstance>)
    ensures
        ibm_result(details, token, instances).resources.len() > 0,
{
}

proof fn lemma_instances_listed(list: Seq<IbmResourceInstance>, n: int)
    requires
        0 <= n <= list.len(),
    ensures
        instances_upto(list, n).len() == n,
        forall|k: int| 0 <= k < n ==> #[trigger] instances_upto(list, n)[k] == instance_exposure(list[k]),
    decreases n,
{
    if n > 0 {
        lemma_instances_listed(list, n - 1);
    }
}

proof fn lemma_scopes_filed_at(summary: PermissionSummaryView, list: Seq<Seq<char>>, n: int, k: int)
    requires
        0 <= k < n <= list.len(),
    ensures
        class_list(with_scopes(summary, list, n), scope_class(list[k])).contains(list[k]),
    decreases n,
{
    let before = with_scopes(summary, list, n - 1);
    lemma_filed(before, scope_class(list[n - 1]), list[n - 1]);
    if k < n - 1 {
        lemma_scopes_filed_at(summary, list, n - 1, k);
        assert(class_list(before, scope_class(list[k])).contains(list[k]));
    }
}

/// A key is medium at least; with any resource instance it is high, and with more than ten critical. The
/// scope for all of IBM counts as administration and nothing but signing in as read-only. Every instance
/// is reported under its name and region, after the account.
pub proof fn lemma_reach_decides(
    details: IbmApiKeyDetails,
    token: Result<IbmTokenResponse, String>,
    instances: Seq<IbmResourceInstance>,
    k: int,
)
    ensures
        ({
            let result = ibm_result(details, token, instances);
            let scopes = token_scopes(token);
            &&& instances.len() > 10 <==> result.severity == Severity::Critical
            &&& 0 < instances.len() <= 10 <==> result.severity == Severity::High
            &&& result.severity != Severity::Low
            &&& details.account_id is Some ==> result.resources[0].name == details.account_id->0@
            &&& 0 <= k < instances.len() && instances[k].name is Some && instances[k].region_id is Some
                ==> result.resources[1 + k].name == instances[k].name->0@ + " ("@
                + instances[k].region_id->0@ + ")"@
            &&& 0 <= k < scopes.len() ==> {
                &&& scopes[k] == "ibm"@ ==> result.permissions.admin.contains(scopes[k])
                &&& scopes[k] == "openid"@ ==> result.permissions.read_only.contains(scopes[k])
                &&& scopes[k] != "ibm"@ && scopes[k] != "openid"@ ==> result.permissions.risky.contains(
                    scopes[k],
                )
            }
            &&& match token {
                Ok(found) => found.access_token is Some && found.scope is Some ==> scopes == words(
                    found.scope->0@,
                ),
                Err(_) => scopes.len() == 0,
            }
        }),
{
    let scopes = token_scopes(token);
    let raw = with_scopes(empty_permission_summary(), scopes, scopes.len() as int);
    lemma_instances_listed(instances, instances.len() as int);
    reveal_strlit("ibm");
    reveal_strlit("openid");
    assert("ibm"@.len() != "openid"@.len());
    if 0 <= k < scopes.len() {
        lemma_scopes_filed_at(empty_permission_summary(), scopes, scopes.len() as int, k);
        lemma_sorted_summary(raw, scope_class(scopes[k]));
        assert(class_list(sorted_summary(raw), scope_class(scopes[k])).contains(scopes[k]));
    }
}

} // verus!
