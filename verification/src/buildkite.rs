//! Buildkite tokens.

use vstd::prelude::*;
use crate::mapping::{build_result, plain_result};
use crate::model::{
    binding, empty_access_token_details, empty_permission_summary, exposure, no_views, push_view,
    severity_text, views, AccessMapResult, AccessMapResultView, AccessSummary, AccessSummaryView,
    AccessTokenDetails, AccessTokenDetailsView, PermissionSummary, PermissionSummaryView,
    ResourceExposure, ResourceExposureView, RoleBinding, RoleBindingView, Severity,
};
use crate::permissions::{
    class_list, file_permission, filed, lemma_filed, lemma_sorted_classes_stay_filled,
    lemma_sorted_summary, sort_permission_summary, sorted_summary, PermissionClass,
};
use crate::text::{
    begins, cat2, cat3, copy_opt, copy_texts, either, first_text, no_texts, one_text, opt_text,
    or_text, push_text, starts_with, str_eq, text_else, texts,
};

verus! {

/// What the service says of a token.
#[derive(Debug)]
pub struct BuildkiteAccessToken {
    pub uuid: Option<String>,
    pub scopes: Vec<String>,
}

/// A user.
#[derive(Debug)]
pub struct BuildkiteUser {
    pub id: Option<String>,
    pub name: Option<String>,
    pub email: Option<String>,
    pub created_at: Option<String>,
}

/// An organization, with the pipelines that were listed in it.
#[derive(Debug)]
pub struct BuildkiteOrganization {
    pub name: Option<String>,
    pub slug: Option<String>,
    pub pipelines: Vec<BuildkitePipeline>,
}

/// A pipeline.
#[derive(Debug)]
pub struct BuildkitePipeline {
    pub name: Option<String>,
    pub slug: Option<String>,
    pub visibility: Option<String>,
}

/// Whether a scope administers something.
pub open spec fn is_admin_scope(scope: Seq<char>) -> bool {
    scope == "write_organizations"@ || scope == "write_teams"@
}

fn check_admin_scope(scope: &str) -> (yes: bool)
    ensures
        yes == is_admin_scope(scope@),
{
    str_eq(scope, "write_organizations") || str_eq(scope, "write_teams")
}

/// Whether one of the scopes administers something.
pub open spec fn some_admin_scope(list: Seq<Seq<char>>) -> bool {
    exists|k: int| 0 <= k < list.len() && is_admin_scope(#[trigger] list[k])
}

fn has_admin_scope(list: &Vec<String>) -> (yes: bool)
    ensures
        yes == some_admin_scope(texts(list@)),
{
    let mut i: usize = 0;
    while i < list.len()
        invariant
            i <= list@.len(),
            forall|k: int| 0 <= k < i ==> !is_admin_scope(#[trigger] texts(list@)[k]),
        decreases list@.len() - i,
    {
        assert(texts(list@)[i as int] == list@[i as int]@);
        if check_admin_scope(list[i].as_str()) {
            assert(is_admin_scope(texts(list@)[i as int]));
            return true;
        }
        i = i + 1;
    }
    false
}

/// Whether a scope writes.
pub open spec fn is_write_scope(scope: Seq<char>) -> bool {
    begins(scope, "write_"@)
}

fn check_write_scope(scope: &str) -> (yes: bool)
    ensures
        yes == is_write_scope(scope@),
{
    starts_with(scope, "write_")
}

/// Whether one of the scopes writes.
pub open spec fn some_write_scope(list: Seq<Seq<char>>) -> bool {
    exists|k: int| 0 <= k < list.len() && is_write_scope(#[trigger] list[k])
}

fn has_write_scope(list: &Vec<String>) -> (yes: bool)
    ensures
        yes == some_write_scope(texts(list@)),
{
    let mut i: usize = 0;
    while i < list.len()
        invariant
            i <= list@.len(),
            forall|k: int| 0 <= k < i ==> !is_write_scope(#[trigger] texts(list@)[k]),
        decreases list@.len() - i,
    {
        assert(texts(list@)[i as int] == list@[i as int]@);
        if check_write_scope(list[i].as_str()) {
            assert(is_write_scope(texts(list@)[i as int]));
            return true;
        }
        i = i + 1;
    }
    false
}

/// The class of what a scope permits.
pub open spec fn scope_class(scope: Seq<char>) -> PermissionClass {
    if is_admin_scope(scope) {
        PermissionClass::Admin
    } else if is_write_scope(scope) {
        PermissionClass::Risky
    } else {
        PermissionClass::ReadOnly
    }
}

pub fn classify_scope(scope: &str) -> (class: PermissionClass)
    ensures
        class == scope_class(scope@),
{
    if check_admin_scope(scope) {
        PermissionClass::Admin
    } else if check_write_scope(scope) {
        PermissionClass::Risky
    } else {
        PermissionClass::ReadOnly
    }
}

/// The summary with one more scope.
pub open spec fn with_scope(summary: PermissionSummaryView, scope: Seq<char>) -> PermissionSummaryView {
    filed(summary, scope_class(scope), scope)
}

fn file_scope(summary: &mut PermissionSummary, scope: &str)
    ensures
        final(summary)@ == with_scope(old(summary)@, scope@),
{
    file_permission(summary, classify_scope(scope), scope.to_owned());
}

/// The summary with the first `n` scopes.
pub open spec fn with_scopes(summary: PermissionSummaryView, list: Seq<Seq<char>>, n: int) -> PermissionSummaryView
    decreases n,
{
    if n <= 0 {
        summary
    } else {
        with_scope(with_scopes(summary, list, n - 1), list[n - 1])
    }
}

fn file_scopes(summary: &mut PermissionSummary, list: &Vec<String>)
    ensures
        final(summary)@ == with_scopes(old(summary)@, texts(list@), list@.len() as int),
{
    let ghost start = summary@;
    let mut i: usize = 0;
    while i < list.len()
        invariant
            i <= list@.len(),
            summary@ == with_scopes(start, texts(list@), i as int),
        decreases list@.len() - i,
    {
        assert(texts(list@)[i as int] == list@[i as int]@);
        file_scope(summary, list[i].as_str());
        i = i + 1;
    }
}

/// The role that a scope stands for.
pub open spec fn scope_binding(scope: Seq<char>) -> RoleBindingView {
    binding("scope:"@ + scope, "buildkite"@, seq![scope])
}

fn bind_scope(scope: &str) -> (role: RoleBinding)
    ensures
        role@ == scope_binding(scope@),
{
    RoleBinding::new(cat2("scope:", scope).as_str(), "buildkite", one_text(scope))
}

/// The roles that stand for the first `n` scopes.
pub open spec fn scope_roles_upto(list: Seq<Seq<char>>, n: int) -> Seq<RoleBindingView>
    decreases n,
{
    if n <= 0 {
        Seq::empty()
    } else {
        scope_roles_upto(list, n - 1).push(scope_binding(list[n - 1]))
    }
}

fn add_scope_roles(roles: &mut Vec<RoleBinding>, list: &Vec<String>)
    ensures
        views(final(roles)@) == views(old(roles)@) + scope_roles_upto(
            texts(list@),
            list@.len() as int,
        ),
{
    let ghost before = views(roles@);
    let mut i: usize = 0;
    assert(before =~= before + scope_roles_upto(texts(list@), 0));
    while i < list.len()
        invariant
            i <= list@.len(),
            views(roles@) == before + scope_roles_upto(texts(list@), i as int),
        decreases list@.len() - i,
    {
        assert(texts(list@)[i as int] == list@[i as int]@);
        push_view(roles, bind_scope(list[i].as_str()));
        i = i + 1;
        assert(views(roles@) =~= before + scope_roles_upto(texts(list@), i as int));
    }
}

/// The resource that stands for a pipeline of an organization.
pub open spec fn pipeline_exposure(pipeline: BuildkitePipeline, org: Seq<char>) -> ResourceExposureView {
    let name = org + "/"@ + text_else(
        either(opt_text(pipeline.name), opt_text(pipeline.slug)),
        "unknown_pipeline"@,
    );
    if opt_text(pipeline.visibility) != Some("public"@) {
        exposure(
            "pipeline"@,
            name,
            seq!["pipeline:private"@],
            Severity::Medium,
            "Accessible private pipeline"@,
        )
    } else {
        exposure(
            "pipeline"@,
            name,
            seq!["pipeline:public"@],
            Severity::Low,
            "Accessible public pipeline"@,
        )
    }
}

fn expose_pipeline(pipeline: &BuildkitePipeline, org: &str) -> (resource: ResourceExposure)
    ensures
        resource@ == pipeline_exposure(*pipeline, org@),
{
    let label = first_text(&pipeline.name, &pipeline.slug, "unknown_pipeline");
    let name = cat3(org, "/", label.as_str());
    let public = match &pipeline.visibility {
        Some(visibility) => str_eq(visibility.as_str(), "public"),
        None => false,
    };
    if !public {
        ResourceExposure::new(
            "pipeline",
            name.as_str(),
            one_text("pipeline:private"),
            Severity::Medium,
            "Accessible private pipeline",
        )
    } else {
        ResourceExposure::new(
            "pipeline",
            name.as_str(),
            one_text("pipeline:public"),
            Severity::Low,
            "Accessible public pipeline",
        )
    }
}

/// The resources that stand for the first `n` pipelines of an organization.
pub open spec fn pipelines_upto(list: Seq<BuildkitePipeline>, n: int, org: Seq<char>) -> Seq<ResourceExposureView>
    decreases n,
{
    if n <= 0 {
        Seq::empty()
    } else {
        pipelines_upto(list, n - 1, org).push(pipeline_exposure(list[n - 1], org))
    }
}

fn add_pipelines(resources: &mut Vec<ResourceExposure>, list: &Vec<BuildkitePipeline>, org: &str)
    ensures
        views(final(resources)@) == views(old(resources)@) + pipelines_upto(
            list@,
            list@.len() as int,
            org@,
        ),
{
    let ghost before = views(resources@);
    let mut i: usize = 0;
    assert(before =~= before + pipelines_upto(list@, 0, org@));
    while i < list.len()
        invariant
            i <= list@.len(),
            views(resources@) == before + pipelines_upto(list@, i as int, org@),
        decreases list@.len() - i,
    {
        push_view(resources, expose_pipeline(&list[i], org));
        i = i + 1;
        assert(views(resources@) =~= before + pipelines_upto(list@, i as int, org@));
    }
}

/// How an organization is called.
pub open spec fn org_label(org: BuildkiteOrganization) -> Seq<char> {
    text_else(either(opt_text(org.slug), opt_text(org.name)), "unknown_org"@)
}

/// Says how an organization is called, in the requests that list its pipelines too.
pub fn org_name(org: &BuildkiteOrganization) -> (name: String)
    ensures
        name@ == org_label(*org),
{
    first_text(&org.slug, &org.name, "unknown_org")
}

/// The resources of the first `n` organizations: each one and its pipelines.
pub open spec fn orgs_upto(list: Seq<BuildkiteOrganization>, n: int, scopes: Seq<Seq<char>>) -> Seq<
    ResourceExposureView,
>
    decreases n,
{
    if n <= 0 {
        Seq::empty()
    } else {
        orgs_upto(list, n - 1, scopes).push(
            exposure(
                "organization"@,
                org_label(list[n - 1]),
                scopes,
                if some_admin_scope(scopes) {
                    Severity::High
                } else {
                    Severity::Medium
                },
                "Organization accessible with this token"@,
            ),
        ) + pipelines_upto(
            list[n - 1].pipelines@,
            list[n - 1].pipelines@.len() as int,
            org_label(list[n - 1]),
        )
    }
}

fn add_orgs(
    resources: &mut Vec<ResourceExposure>,
    list: &Vec<BuildkiteOrganization>,
    scopes: &Vec<String>,
)
    ensures
        views(final(resources)@) == views(old(resources)@) + orgs_upto(
            list@,
            list@.len() as int,
            texts(scopes@),
        ),
{
    let ghost before = views(resources@);
    let risk = if has_admin_scope(scopes) {
        Severity::High
    } else {
        Severity::Medium
    };
    let mut i: usize = 0;
    assert(before =~= before + orgs_upto(list@, 0, texts(scopes@)));
    while i < list.len()
        invariant
            i <= list@.len(),
            risk == if some_admin_scope(texts(scopes@)) {
                Severity::High
            } else {
                Severity::Medium
            },
            views(resources@) == before + orgs_upto(list@, i as int, texts(scopes@)),
        decreases list@.len() - i,
    {
        let name = org_name(&list[i]);
        push_view(
            resources,
            ResourceExposure::new(
                "organization",
                name.as_str(),
                copy_texts(scopes),
                risk,
                "Organization accessible with this token",
            ),
        );
        add_pipelines(resources, &list[i].pipelines, name.as_str());
        i = i + 1;
        assert(views(resources@) =~= before + orgs_upto(list@, i as int, texts(scopes@)));
    }
}

/// How grave it is what a token permits.
pub open spec fn buildkite_severity(scopes: Seq<Seq<char>>, orgs: nat) -> Severity {
    if some_admin_scope(scopes) {
        Severity::High
    } else if some_write_scope(scopes) && orgs > 0 {
        Severity::Medium
    } else {
        Severity::Low
    }
}

pub fn derive_severity(scopes: &Vec<String>, orgs: &Vec<BuildkiteOrganization>) -> (severity: Severity)
    ensures
        severity == buildkite_severity(texts(scopes@), orgs@.len()),
{
    if has_admin_scope(scopes) {
        Severity::High
    } else if has_write_scope(scopes) && orgs.len() > 0 {
        Severity::Medium
    } else {
        Severity::Low
    }
}

/// How a user is called.
pub open spec fn buildkite_user(user: BuildkiteUser) -> Seq<char> {
    text_else(either(opt_text(user.name), opt_text(user.email)), "buildkite_user"@)
}

/// What a Buildkite token gives access to.
pub open spec fn buildkite_result(
    token: BuildkiteAccessToken,
    user: BuildkiteUser,
    orgs: Seq<BuildkiteOrganization>,
) -> AccessMapResultView {
    let scopes = texts(token.scopes@);
    let nothing = orgs.len() == 0 && scopes.len() == 0;
    plain_result(
        "buildkite"@,
        AccessSummaryView {
            id: buildkite_user(user),
            access_type: "user"@,
            project: None,
            tenant: None,
            account_id: opt_text(user.id),
        },
        scope_roles_upto(scopes, scopes.len() as int),
        sorted_summary(with_scopes(empty_permission_summary(), scopes, scopes.len() as int)),
        if nothing {
            seq![
                exposure(
                    "account"@,
                    buildkite_user(user),
                    Seq::empty(),
                    Severity::Low,
                    "Buildkite account associated with the token"@,
                ),
            ]
        } else {
            orgs_upto(orgs, orgs.len() as int, scopes)
        },
        buildkite_severity(scopes, orgs.len()),
        if nothing {
            seq!["Token did not enumerate any organizations or scopes"@]
        } else {
            Seq::empty()
        },
        Some(
            AccessTokenDetailsView {
                name: opt_text(user.name),
                username: opt_text(user.email),
                email: opt_text(user.email),
                created_at: opt_text(user.created_at),
                user_id: either(opt_text(user.id), opt_text(token.uuid)),
                scopes,
                ..empty_access_token_details()
            },
        ),
    )
}

/// Maps a Buildkite token from what the service answered to it. A listing that failed is empty, and
/// of a user that could not be looked up nothing is known.
pub fn map_access_from_token(
    token: &BuildkiteAccessToken,
    user: &BuildkiteUser,
    orgs: &Vec<BuildkiteOrganization>,
) -> (result: AccessMapResult)
    ensures
        result@ == buildkite_result(*token, *user, orgs@),
{
    let username = first_text(&user.name, &user.email, "buildkite_user");
    let mut roles: Vec<RoleBinding> = no_views();
    add_scope_roles(&mut roles, &token.scopes);
    assert(views(roles@) =~= scope_roles_upto(
        texts(token.scopes@),
        texts(token.scopes@).len() as int,
    ));
    let mut permissions = PermissionSummary::default();
    file_scopes(&mut permissions, &token.scopes);
    sort_permission_summary(&mut permissions);
    let mut resources: Vec<ResourceExposure> = no_views();
    add_orgs(&mut resources, orgs, &token.scopes);
    assert(views(resources@) =~= orgs_upto(orgs@, orgs@.len() as int, texts(token.scopes@)));
    let severity = derive_severity(&token.scopes, orgs);
    let mut risk_notes = no_texts();
    if orgs.len() == 0 && token.scopes.len() == 0 {
        push_view(
            &mut resources,
            ResourceExposure::new(
                "account",
                username.as_str(),
                no_texts(),
                Severity::Low,
                "Buildkite account associated with the token",
            ),
        );
        push_text(
            &mut risk_notes,
            "Token did not enumerate any organizations or scopes".to_owned(),
        );
        assert(views(resources@) =~= buildkite_result(*token, *user, orgs@).resources);
        assert(texts(risk_notes@) =~= buildkite_result(*token, *user, orgs@).risk_notes);
    }
    let mut details = AccessTokenDetails::default();
    details.name = copy_opt(&user.name);
    details.username = copy_opt(&user.email);
    details.email = copy_opt(&user.email);
    details.created_at = copy_opt(&user.created_at);
    details.user_id = or_text(&user.id, &token.uuid);
    details.scopes = copy_texts(&token.scopes);
    build_result(
        "buildkite",
        AccessSummary {
            id: username,
            access_type: "user".to_owned(),
            project: None,
            tenant: None,
            account_id: copy_opt(&user.id),
        },
        roles,
        permissions,
        resources,
        severity,
        risk_notes,
        Some(details),
    )
}

proof fn lemma_scopes_are_filed(summary: PermissionSummaryView, scopes: Seq<Seq<char>>, n: int, k: int)
    requires
        0 <= k < n <= scopes.len(),
    ensures
        class_list(with_scopes(summary, scopes, n), scope_class(scopes[k])).contains(scopes[k]),
    decreases n,
{
    let before = with_scopes(summary, scopes, n - 1);
    lemma_filed(before, scope_class(scopes[n - 1]), scopes[n - 1]);
    if k < n - 1 {
        lemma_scopes_are_filed(summary, scopes, n - 1, k);
    }
}

/// No scope of a token is left out: each stands in the class that it belongs to.
pub proof fn lemma_every_scope_is_reported(token: BuildkiteAccessToken, user: BuildkiteUser, orgs: Seq<BuildkiteOrganization>, k: int)
    requires
        0 <= k < texts(token.scopes@).len(),
    ensures
        class_list(buildkite_result(token, user, orgs).permissions, scope_class(texts(token.scopes@)[k])).contains(texts(token.scopes@)[k]),
{
    let scopes = texts(token.scopes@);
    lemma_scopes_are_filed(empty_permission_summary(), scopes, scopes.len() as int, k);
    lemma_sorted_summary(
        with_scopes(empty_permission_summary(), scopes, scopes.len() as int),
        scope_class(scopes[k]),
    );
}

proof fn lemma_scopes_filed(summary: PermissionSummaryView, list: Seq<Seq<char>>, n: int, k: int)
    requires
        0 <= k < n <= list.len(),
    ensures
        class_list(with_scopes(summary, list, n), scope_class(list[k])).contains(list[k]),
    decreases n,
{
    let before = with_scopes(summary, list, n - 1);
    lemma_filed(before, scope_class(list[n - 1]), list[n - 1]);
    if k < n - 1 {
        lemma_scopes_filed(summary, list, n - 1, k);
        assert(class_list(before, scope_class(list[k])).contains(list[k]));
    }
}

proof fn lemma_pipelines_listed(list: Seq<BuildkitePipeline>, n: int, org: Seq<char>)
    requires
        0 <= n <= list.len(),
    ensures
        pipelines_upto(list, n, org).len() == n,
        forall|k: int| 0 <= k < n ==> #[trigger] pipelines_upto(list, n, org)[k] == pipeline_exposure(list[k], org),
    decreases n,
{
    if n > 0 {
        lemma_pipelines_listed(list, n - 1, org);
    }
}

proof fn lemma_orgs_listed(list: Seq<BuildkiteOrganization>, n: int, scopes: Seq<Seq<char>>, k: int, j: int)
    requires
        0 <= k < n <= list.len(),
    ensures
        exists|i: int|
            0 <= i < orgs_upto(list, n, scopes).len() && (#[trigger] orgs_upto(list, n, scopes)[i]).name
                == org_label(list[k]) && orgs_upto(list, n, scopes)[i].permissions == scopes && orgs_upto(
                list,
                n,
                scopes,
            )[i].risk == severity_text(
                if some_admin_scope(scopes) {
                    Severity::High
                } else {
                    Severity::Medium
                },
            ),
        0 <= j < list[k].pipelines@.len() ==> orgs_upto(list, n, scopes).contains(
            pipeline_exposure(list[k].pipelines@[j], org_label(list[k])),
        ),
    decreases n,
{
    let before = orgs_upto(list, n - 1, scopes);
    let now = orgs_upto(list, n, scopes);
    let last = list[n - 1];
    lemma_pipelines_listed(last.pipelines@, last.pipelines@.len() as int, org_label(last));
    if k < n - 1 {
        lemma_orgs_listed(list, n - 1, scopes, k, j);
        let i = choose|i: int|
            0 <= i < before.len() && (#[trigger] before[i]).name == org_label(list[k])
                && before[i].permissions == scopes && before[i].risk == severity_text(
                if some_admin_scope(scopes) {
                    Severity::High
                } else {
                    Severity::Medium
                },
            );
        assert(now[i] == before[i]);
        if 0 <= j < list[k].pipelines@.len() {
            let wanted = pipeline_exposure(list[k].pipelines@[j], org_label(list[k]));
            let m = choose|m: int| 0 <= m < before.len() && before[m] == wanted;
            assert(now[m] == wanted);
        }
    } else {
        assert(now[before.len() as int].name == org_label(last));
        if 0 <= j < last.pipelines@.len() {
            assert(now[before.len() + 1 + j] == pipeline_exposure(last.pipelines@[j], org_label(last)));
        }
    }
}

/// The gravest scope decides: one that changes organizations or teams makes a token high, any other that
/// writes medium at least where an organization is reached. Each scope is reported in its class, and no
/// scope to write as read-only; every organization and every pipeline is reported, one that is not
/// public at medium risk.
pub proof fn lemma_gravest_scope_decides(
    token: BuildkiteAccessToken,
    user: BuildkiteUser,
    orgs: Seq<BuildkiteOrganization>,
    k: int,
    i: int,
    j: int,
)
    ensures
        ({
            let result = buildkite_result(token, user, orgs);
            let scopes = texts(token.scopes@);
            &&& 0 <= k < scopes.len() ==> {
                &&& scopes[k] == "write_organizations"@ || scopes[k] == "write_teams"@
                    ==> result.severity == Severity::High && result.permissions.admin.contains(scopes[k])
                &&& begins(scopes[k], "write_"@) ==> (orgs.len() > 0 ==> result.severity
                    != Severity::Low) && (result.permissions.admin.contains(scopes[k])
                    || result.permissions.risky.contains(scopes[k]))
                &&& !begins(scopes[k], "write_"@) ==> result.permissions.read_only.contains(scopes[k])
            }
            &&& (forall|m: int| 0 <= m < scopes.len() ==> !begins(#[trigger] scopes[m], "write_"@))
                ==> result.severity == Severity::Low
            &&& 0 <= i < orgs.len() && orgs[i].slug is Some ==> exists|r: int|
                0 <= r < result.resources.len() && (#[trigger] result.resources[r]).name
                    == orgs[i].slug->0@ && result.resources[r].permissions == scopes
            &&& 0 <= i < orgs.len() && orgs[i].slug is Some && 0 <= j < orgs[i].pipelines@.len()
                && orgs[i].pipelines@[j].name is Some ==> exists|r: int|
                0 <= r < result.resources.len() && (#[trigger] result.resources[r]).name
                    == orgs[i].slug->0@ + "/"@ + orgs[i].pipelines@[j].name->0@ && (opt_text(
                    orgs[i].pipelines@[j].visibility,
                ) != Some("public"@) ==> result.resources[r].risk == "medium"@)
        }),
{
    let result = buildkite_result(token, user, orgs);
    let scopes = texts(token.scopes@);
    let raw = with_scopes(empty_permission_summary(), scopes, scopes.len() as int);
    reveal_strlit("write_");
    reveal_strlit("write_organizations");
    reveal_strlit("write_teams");
    assert("write_organizations"@.subrange(0, 6) =~= "write_"@);
    assert("write_teams"@.subrange(0, 6) =~= "write_"@);
    if 0 <= k < scopes.len() {
        lemma_scopes_filed(empty_permission_summary(), scopes, scopes.len() as int, k);
        lemma_sorted_summary(raw, scope_class(scopes[k]));
        assert(class_list(sorted_summary(raw), scope_class(scopes[k])).contains(scopes[k]));
        assert(is_admin_scope(scopes[k]) ==> some_admin_scope(scopes));
        assert(is_write_scope(scopes[k]) ==> some_write_scope(scopes));
    }
    if some_admin_scope(scopes) {
        let m = choose|m: int| 0 <= m < scopes.len() && is_admin_scope(#[trigger] scopes[m]);
        assert(begins(scopes[m], "write_"@));
    }
    if 0 <= i < orgs.len() {
        lemma_orgs_listed(orgs, orgs.len() as int, scopes, i, j);
        let found = orgs_upto(orgs, orgs.len() as int, scopes);
        assert(result.resources == found);
        let r = choose|r: int|
            0 <= r < found.len() && (#[trigger] found[r]).name == org_label(orgs[i])
                && found[r].permissions == scopes;
        assert(result.resources[r] == found[r]);
        if 0 <= j < orgs[i].pipelines@.len() {
            let wanted = pipeline_exposure(orgs[i].pipelines@[j], org_label(orgs[i]));
            let m = choose|m: int| 0 <= m < found.len() && found[m] == wanted;
            assert(result.resources[m] == wanted);
        }
    }
}

} // verus!
