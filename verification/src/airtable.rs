//! Airtable tokens.

use vstd::prelude::*;
use crate::mapping::{build_result, plain_result};
use crate::model::{
    binding, empty_access_token_details, empty_permission_summary, exposure, no_views, push_view,
    views, AccessMapResult, AccessMapResultView, AccessSummary, AccessSummaryView,
    AccessTokenDetails, AccessTokenDetailsView, PermissionSummary, PermissionSummaryView,
    ResourceExposure, ResourceExposureView, RoleBinding, RoleBindingView, Severity,
};
use crate::permissions::{
    class_list, file_permission, filed, lemma_filed, lemma_sorted_classes_stay_filled,
    lemma_sorted_summary, sort_permission_summary, sorted_summary, PermissionClass,
};
use crate::text::{
    any_holds, cat2, cat3, contains, copy_opt, copy_texts, either, first_text, holds, no_texts,
    one_text, opt_text, push_text, some_hold, stands_at, str_eq, text_else, text_or, texts,
    unwrap_text,
};

verus! {

/// Who a token belongs to.
#[derive(Debug)]
pub struct AirtableWhoami {
    pub id: Option<String>,
    pub email: Option<String>,
    pub scopes: Vec<String>,
}

/// A base.
#[derive(Debug)]
pub struct AirtableBase {
    pub id: Option<String>,
    pub name: Option<String>,
    pub permission_level: Option<String>,
}

/// Whether a scope administers something.
pub open spec fn is_admin_scope(scope: Seq<char>) -> bool {
    scope == "schema:bases:write"@ || scope == "user.email:read"@
}

fn check_admin_scope(scope: &str) -> (yes: bool)
    ensures
        yes == is_admin_scope(scope@),
{
    str_eq(scope, "schema:bases:write") || str_eq(scope, "user.email:read")
}

/// Whether one of the scopes administers something.
pub open spec fn some_admin_scope(list: Seq<Seq<char>>) -> bool {
    exists|k: int| 0 <= k < list.len() && is_admin_scope(#[trigger] list[k])
}

fn has_admin_scope(list: &Vec<String>) -> (yes: bool)
    ensures
        yes == some_admin_scope(texts(list@)),
{
    let mut i: usize = 0;
    while i < list.len()
        invariant
            i <= list@.len(),
            forall|k: int| 0 <= k < i ==> !is_admin_scope(#[trigger] texts(list@)[k]),
        decreases list@.len() - i,
    {
        assert(texts(list@)[i as int] == list@[i as int]@);
        if check_admin_scope(list[i].as_str()) {
            assert(is_admin_scope(texts(list@)[i as int]));
            return true;
        }
        i = i + 1;
    }
    false
}

/// The class of what a scope permits.
pub open spec fn scope_class(scope: Seq<char>) -> PermissionClass {
    if is_admin_scope(scope) {
        PermissionClass::Admin
    } else if holds(scope, ":write"@) {
        PermissionClass::Risky
    } else {
        PermissionClass::ReadOnly
    }
}

pub fn classify_scope(scope: &str) -> (class: PermissionClass)
    ensures
        class == scope_class(scope@),
{
    if check_admin_scope(scope) {
        PermissionClass::Admin
    } else if contains(scope, ":write") {
        PermissionClass::Risky
    } else {
        PermissionClass::ReadOnly
    }
}

/// The summary with one more scope.
pub open spec fn with_scope(summary: PermissionSummaryView, scope: Seq<char>) -> PermissionSummaryView {
    filed(summary, scope_class(scope), scope)
}

fn file_scope(summary: &mut PermissionSummary, scope: &str)
    ensures
        final(summary)@ == with_scope(old(summary)@, scope@),
{
    file_permission(summary, classify_scope(scope), scope.to_owned());
}

/// The summary with the first `n` scopes.
pub open spec fn with_scopes(summary: PermissionSummaryView, list: Seq<Seq<char>>, n: int) -> PermissionSummaryView
    decreases n,
{
    if n <= 0 {
        summary
    } else {
        with_scope(with_scopes(summary, list, n - 1), list[n - 1])
    }
}

fn file_scopes(summary: &mut PermissionSummary, list: &Vec<String>)
    ensures
        final(summary)@ == with_scopes(old(summary)@, texts(list@), list@.len() as int),
{
    let ghost start = summary@;
    let mut i: usize = 0;
    while i < list.len()
        invariant
            i <= list@.len(),
            summary@ == with_scopes(start, texts(list@), i as int),
        decreases list@.len() - i,
    {
        assert(texts(list@)[i as int] == list@[i as int]@);
        file_scope(summary, list[i].as_str());
        i = i + 1;
    }
}

/// The role that a scope stands for.
pub open spec fn scope_binding(scope: Seq<char>) -> RoleBindingView {
    binding("scope:"@ + scope, "airtable"@, seq![scope])
}

fn bind_scope(scope: &str) -> (role: RoleBinding)
    ensures
        role@ == scope_binding(scope@),
{
    RoleBinding::new(cat2("scope:", scope).as_str(), "airtable", one_text(scope))
}

/// The roles that stand for the first `n` scopes.
pub open spec fn scope_roles_upto(list: Seq<Seq<char>>, n: int) -> Seq<RoleBindingView>
    decreases n,
{
    if n <= 0 {
        Seq::empty()
    } else {
        scope_roles_upto(list, n - 1).push(scope_binding(list[n - 1]))
    }
}

fn add_scope_roles(roles: &mut Vec<RoleBinding>, list: &Vec<String>)
    ensures
        views(final(roles)@) == views(old(roles)@) + scope_roles_upto(
            texts(list@),
            list@.len() as int,
        ),
{
    let ghost before = views(roles@);
    let mut i: usize = 0;
    assert(before =~= before + scope_roles_upto(texts(list@), 0));
    while i < list.len()
        invariant
            i <= list@.len(),
            views(roles@) == before + scope_roles_upto(texts(list@), i as int),
        decreases list@.len() - i,
    {
        assert(texts(list@)[i as int] == list@[i as int]@);
        push_view(roles, bind_scope(list[i].as_str()));
        i = i + 1;
        assert(views(roles@) =~= before + scope_roles_upto(texts(list@), i as int));
    }
}

/// The resource that stands for a base.
pub open spec fn base_exposure(base: AirtableBase) -> ResourceExposureView {
    let level = text_or(base.permission_level, "unknown"@);
    exposure(
        "base"@,
        text_else(either(opt_text(base.name), opt_text(base.id)), "unknown_base"@),
        seq!["permissionLevel:"@ + level],
        if level == "create"@ {
            Severity::High
        } else if level == "read"@ || level == "comment"@ {
            Severity::Low
        } else {
            Severity::Medium
        },
        "Airtable base accessible with "@ + level + " permission"@,
    )
}

fn expose_base(base: &AirtableBase) -> (resource: ResourceExposure)
    ensures
        resource@ == base_exposure(*base),
{
    let level = unwrap_text(&base.permission_level, "unknown");
    let risk = if str_eq(level.as_str(), "create") {
        Severity::High
    } else if str_eq(level.as_str(), "read") || str_eq(level.as_str(), "comment") {
        Severity::Low
    } else {
        Severity::Medium
    };
    ResourceExposure::new(
        "base",
        first_text(&base.name, &base.id, "unknown_base").as_str(),
        one_text(cat2("permissionLevel:", level.as_str()).as_str()),
        risk,
        cat3("Airtable base accessible with ", level.as_str(), " permission").as_str(),
    )
}

/// The resources that stand for the first `n` bases.
pub open spec fn bases_upto(list: Seq<AirtableBase>, n: int) -> Seq<ResourceExposureView>
    decreases n,
{
    if n <= 0 {
        Seq::empty()
    } else {
        bases_upto(list, n - 1).push(base_exposure(list[n - 1]))
    }
}

fn add_bases(resources: &mut Vec<ResourceExposure>, list: &Vec<AirtableBase>)
    ensures
        views(final(resources)@) == views(old(resources)@) + bases_upto(
            list@,
            list@.len() as int,
        ),
{
    let ghost before = views(resources@);
    let mut i: usize = 0;
    assert(before =~= before + bases_upto(list@, 0));
    while i < list.len()
        invariant
            i <= list@.len(),
            views(resources@) == before + bases_upto(list@, i as int),
        decreases list@.len() - i,
    {
        push_view(resources, expose_base(&list[i]));
        i = i + 1;
        assert(views(resources@) =~= before + bases_upto(list@, i as int));
    }
}

/// How grave it is what a token permits.
pub open spec fn airtable_severity(scopes: Seq<Seq<char>>, bases: nat) -> Severity {
    if some_admin_scope(scopes) {
        Severity::Critical
    } else if some_hold(scopes, ":write"@) {
        if bases > 5 {
            Severity::High
        } else {
            Severity::Medium
        }
    } else {
        Severity::Low
    }
}

pub fn derive_severity(scopes: &Vec<String>, bases: &Vec<AirtableBase>) -> (severity: Severity)
    ensures
        severity == airtable_severity(texts(scopes@), bases@.len()),
{
    if has_admin_scope(scopes) {
        Severity::Critical
    } else if any_holds(scopes, ":write") {
        if bases.len() > 5 {
            Severity::High
        } else {
            Severity::Medium
        }
    } else {
        Severity::Low
    }
}

/// How a user is called.
pub open spec fn airtable_user(whoami: AirtableWhoami) -> Seq<char> {
    text_else(either(opt_text(whoami.email), opt_text(whoami.id)), "airtable_user"@)
}

/// What an Airtable token gives access to.
pub open spec fn airtable_result(whoami: AirtableWhoami, bases: Seq<AirtableBase>) -> AccessMapResultView {
    let scopes = texts(whoami.scopes@);
    let nothing = bases.len() == 0 && scopes.len() == 0;
    plain_result(
        "airtable"@,
        AccessSummaryView {
            id: airtable_user(whoami),
            access_type: "user"@,
            project: None,
            tenant: None,
            account_id: opt_text(whoami.id),
        },
        scope_roles_upto(scopes, scopes.len() as int),
        sorted_summary(with_scopes(empty_permission_summary(), scopes, scopes.len() as int)),
        if nothing {
            seq![
                exposure(
                    "account"@,
                    airtable_user(whoami),
                    Seq::empty(),
                    Severity::Low,
                    "Airtable account associated with the token"@,
                ),
            ]
        } else {
            bases_upto(bases, bases.len() as int)
        },
        airtable_severity(scopes, bases.len()),
        if nothing {
            seq!["Token did not enumerate any bases or scopes"@]
        } else {
            Seq::empty()
        },
        Some(
            AccessTokenDetailsView {
                username: opt_text(whoami.email),
                email: opt_text(whoami.email),
                user_id: opt_text(whoami.id),
                scopes,
                ..empty_access_token_details()
            },
        ),
    )
}

/// Maps an Airtable token from what the service answered to it. A listing that failed is empty.
pub fn map_access_from_token(whoami: &AirtableWhoami, bases: &Vec<AirtableBase>) -> (result: AccessMapResult)
    ensures
        result@ == airtable_result(*whoami, bases@),
{
    let username = first_text(&whoami.email, &whoami.id, "airtable_user");
    let mut roles: Vec<RoleBinding> = no_views();
    add_scope_roles(&mut roles, &whoami.scopes);
    assert(views(roles@) =~= scope_roles_upto(
        texts(whoami.scopes@),
        texts(whoami.scopes@).len() as int,
    ));
    let mut permissions = PermissionSummary::default();
    file_scopes(&mut permissions, &whoami.scopes);
    sort_permission_summary(&mut permissions);
    let mut resources: Vec<ResourceExposure> = no_views();
    add_bases(&mut resources, bases);
    assert(views(resources@) =~= bases_upto(bases@, bases@.len() as int));
    let severity = derive_severity(&whoami.scopes, bases);
    let mut risk_notes = no_texts();
    if bases.len() == 0 && whoami.scopes.len() == 0 {
        push_view(
            &mut resources,
            ResourceExposure::new(
                "account",
                username.as_str(),
                no_texts(),
                Severity::Low,
                "Airtable account associated with the token",
            ),
        );
        push_text(&mut risk_notes, "Token did not enumerate any bases or scopes".to_owned());
        assert(views(resources@) =~= airtable_result(*whoami, bases@).resources);
        assert(texts(risk_notes@) =~= airtable_result(*whoami, bases@).risk_notes);
    }
    let mut details = AccessTokenDetails::default();
    details.username = copy_opt(&whoami.email);
    details.email = copy_opt(&whoami.email);
    details.user_id = copy_opt(&whoami.id);
    details.scopes = copy_texts(&whoami.scopes);
    build_result(
        "airtable",
        AccessSummary {
            id: username,
            access_type: "user".to_owned(),
            project: None,
            tenant: None,
            account_id: copy_opt(&whoami.id),
        },
        roles,
        permissions,
        resources,
        severity,
        risk_notes,
        Some(details),
    )
}

proof fn lemma_scopes_are_filed(summary: PermissionSummaryView, scopes: Seq<Seq<char>>, n: int, k: int)
    requires
        0 <= k < n <= scopes.len(),
    ensures
        class_list(with_scopes(summary, scopes, n), scope_class(scopes[k])).contains(scopes[k]),
    decreases n,
{
    let before = with_scopes(summary, scopes, n - 1);
    lemma_filed(before, scope_class(scopes[n - 1]), scopes[n - 1]);
    if k < n - 1 {
        lemma_scopes_are_filed(summary, scopes, n - 1, k);
    }
}

/// No scope of a token is left out: each stands in the class that it belongs to.
pub proof fn lemma_every_scope_is_reported(whoami: AirtableWhoami, bases: Seq<AirtableBase>, k: int)
    requires
        0 <= k < texts(whoami.scopes@).len(),
    ensures
        class_list(airtable_result(whoami, bases).permissions, scope_class(texts(whoami.scopes@)[k])).contains(texts(whoami.scopes@)[k]),
{
    let scopes = texts(whoami.scopes@);
    lemma_scopes_are_filed(empty_permission_summary(), scopes, scopes.len() as int, k);
    lemma_sorted_summary(
        with_scopes(empty_permission_summary(), scopes, scopes.len() as int),
        scope_class(scopes[k]),
    );
}

proof fn lemma_scopes_filed(summary: PermissionSummaryView, list: Seq<Seq<char>>, n: int, k: int)
    requires
        0 <= k < n <= list.len(),
    ensures
        class_list(with_scopes(summary, list, n), scope_class(list[k])).contains(list[k]),
    decreases n,
{
    let before = with_scopes(summary, list, n - 1);
    lemma_filed(before, scope_class(list[n - 1]), list[n - 1]);
    if k < n - 1 {
        lemma_scopes_filed(summary, list, n - 1, k);
        assert(class_list(before, scope_class(list[k])).contains(list[k]));
    }
}

proof fn lemma_bases_listed(list: Seq<AirtableBase>, n: int)
    requires
        0 <= n <= list.len(),
    ensures
        bases_upto(list, n).len() == n,
        forall|k: int| 0 <= k < n ==> #[trigger] bases_upto(list, n)[k] == base_exposure(list[k]),
    decreases n,
{
    if n > 0 {
        lemma_bases_listed(list, n - 1);
    }
}

/// The gravest scope decides: one that changes the structure of bases, or tells the address of the user,
/// is critical, one that writes medium at least and high where more than five bases are reached, and
/// without either a token is low. Each scope is reported in its class, and no scope to write as
/// read-only.
pub proof fn lemma_gravest_scope_decides(whoami: AirtableWhoami, bases: Seq<AirtableBase>, k: int)
    ensures
        ({
            let result = airtable_result(whoami, bases);
            let scopes = texts(whoami.scopes@);
            &&& 0 <= k < scopes.len() ==> {
                let scope = scopes[k];
                &&& scope == "schema:bases:write"@ || scope == "user.email:read"@ ==> result.severity
                    == Severity::Critical && result.permissions.admin.contains(scope)
                &&& holds(scope, ":write"@) ==> result.severity != Severity::Low && (bases.len() > 5
                    ==> result.severity != Severity::Medium) && (result.permissions.risky.contains(scope)
                    || result.permissions.admin.contains(scope))
                &&& !holds(scope, ":write"@) && scope != "user.email:read"@
                    ==> result.permissions.read_only.contains(scope)
            }
            &&& (forall|j: int|
                0 <= j < scopes.len() ==> !holds(#[trigger] scopes[j], ":write"@) && scopes[j]
                    != "user.email:read"@) && (forall|j: int|
                0 <= j < scopes.len() ==> #[trigger] scopes[j] != "schema:bases:write"@)
                ==> result.severity == Severity::Low
        }),
{
    let scopes = texts(whoami.scopes@);
    let raw = with_scopes(empty_permission_summary(), scopes, scopes.len() as int);
    if 0 <= k < scopes.len() {
        lemma_scopes_filed(empty_permission_summary(), scopes, scopes.len() as int, k);
        lemma_sorted_summary(raw, scope_class(scopes[k]));
        assert(class_list(sorted_summary(raw), scope_class(scopes[k])).contains(scopes[k]));
        if holds(scopes[k], ":write"@) {
            assert(some_hold(scopes, ":write"@));
        }
        if is_admin_scope(scopes[k]) {
            assert(some_admin_scope(scopes));
        }
        reveal_strlit("schema:bases:write");
        reveal_strlit(":write");
        assert("schema:bases:write"@.subrange(12, 18) =~= ":write"@);
        assert(stands_at("schema:bases:write"@, ":write"@, 12));
    }
}

/// Every base is reported under its name with the level of access to it, and one in which things can be
/// created is at high risk, one that can only be read or commented on at low risk.
pub proof fn lemma_bases_are_reported(whoami: AirtableWhoami, bases: Seq<AirtableBase>, k: int)
    requires
        0 <= k < bases.len(),
    ensures
        ({
            let resource = airtable_result(whoami, bases).resources[k];
            &&& airtable_result(whoami, bases).resources.len() == bases.len()
            &&& bases[k].name is Some ==> resource.name == bases[k].name->0@
            &&& bases[k].permission_level is Some ==> {
                let level = bases[k].permission_level->0@;
                &&& resource.permissions.contains("permissionLevel:"@ + level)
                &&& level == "create"@ ==> resource.risk == "high"@
                &&& level == "edit"@ ==> resource.risk == "medium"@
                &&& level == "read"@ || level == "comment"@ ==> resource.risk == "low"@
            }
        }),
{
    lemma_bases_listed(bases, bases.len() as int);
    let level = text_or(bases[k].permission_level, "unknown"@);
    assert(seq!["permissionLevel:"@ + level][0] == "permissionLevel:"@ + level);
    reveal_strlit("create");
    reveal_strlit("read");
    reveal_strlit("comment");
    reveal_strlit("edit");
    assert("create"@.len() == 6 && "read"@.len() == 4 && "comment"@.len() == 7 && "edit"@.len() == 4);
    assert("edit"@[0] == 'e' && "read"@[0] == 'r');
}

} // verus!
