//! Asana tokens.

use vstd::prelude::*;
use crate::mapping::{build_result, plain_result};
use crate::model::{
    binding, empty_access_token_details, empty_permission_summary, exposure, no_views, one_view,
    push_view, views, AccessMapResult, AccessMapResultView, AccessSummary, AccessSummaryView,
    AccessTokenDetails, AccessTokenDetailsView, PermissionSummary, ResourceExposure,
    ResourceExposureView, RoleBinding, RoleBindingView, Severity,
};
use crate::permissions::{
    file_permission, filed, sort_permission_summary, sorted_summary, PermissionClass,
};
use crate::text::{
    begins, cat2, cat3, cat5, copy_opt, either, first_text, flag_set, is_set, no_texts, one_text,
    opt_text, push_text, starts_with, str_eq, text_else, text_or, texts, unwrap_text,
};

verus! {

/// A workspace, with the projects and the teams that were listed in it.
#[derive(Debug)]
pub struct AsanaWorkspace {
    pub gid: Option<String>,
    pub name: Option<String>,
    pub is_organization: Option<bool>,
    pub projects: Vec<AsanaProject>,
    pub teams: Vec<AsanaTeam>,
}

/// A user.
#[derive(Debug)]
pub struct AsanaUser {
    pub gid: Option<String>,
    pub name: Option<String>,
    pub email: Option<String>,
    pub resource_type: Option<String>,
    pub workspaces: Vec<AsanaWorkspace>,
}

/// A project.
#[derive(Debug)]
pub struct AsanaProject {
    pub gid: Option<String>,
    pub name: Option<String>,
    pub privacy_setting: Option<String>,
    pub archived: Option<bool>,
}

/// A team.
#[derive(Debug)]
pub struct AsanaTeam {
    pub gid: Option<String>,
    pub name: Option<String>,
}

/// How a workspace is identified.
pub open spec fn workspace_gid(workspace: AsanaWorkspace) -> Seq<char> {
    text_or(workspace.gid, "unknown"@)
}

/// How a workspace is called.
pub open spec fn workspace_name(workspace: AsanaWorkspace) -> Seq<char> {
    text_or(workspace.name, workspace_gid(workspace))
}

/// Says how a workspace is identified in the requests that list what is in it.
pub fn find_gid(workspace: &AsanaWorkspace) -> (gid: String)
    ensures
        gid@ == workspace_gid(*workspace),
{
    unwrap_text(&workspace.gid, "unknown")
}

/// The resource that stands for a project of a workspace.
pub open spec fn project_exposure(project: AsanaProject, workspace: Seq<char>) -> ResourceExposureView {
    let privacy = text_or(project.privacy_setting, "unknown"@);
    exposure(
        "project"@,
        workspace + "/"@ + text_else(
            either(opt_text(project.name), opt_text(project.gid)),
            "unknown_project"@,
        ),
        if is_set(project.archived) {
            seq!["project:"@ + privacy, "archived"@]
        } else {
            seq!["project:"@ + privacy]
        },
        if privacy == "public_to_workspace"@ {
            Severity::Medium
        } else {
            Severity::Low
        },
        "Asana project in workspace "@ + workspace + " accessible with this token ("@ + privacy
            + ")"@,
    )
}

fn expose_project(project: &AsanaProject, workspace: &str) -> (resource: ResourceExposure)
    ensures
        resource@ == project_exposure(*project, workspace@),
{
    let name = first_text(&project.name, &project.gid, "unknown_project");
    let privacy = unwrap_text(&project.privacy_setting, "unknown");
    let mut labels = one_text(cat2("project:", privacy.as_str()).as_str());
    if flag_set(project.archived) {
        push_text(&mut labels, "archived".to_owned());
    }
    let risk = if str_eq(privacy.as_str(), "public_to_workspace") {
        Severity::Medium
    } else {
        Severity::Low
    };
    let reason = cat5(
        "Asana project in workspace ",
        workspace,
        " accessible with this token (",
        privacy.as_str(),
        ")",
    );
    let resource = ResourceExposure::new(
        "project",
        cat3(workspace, "/", name.as_str()).as_str(),
        labels,
        risk,
        reason.as_str(),
    );
    assert(resource@ =~= project_exposure(*project, workspace@));
    resource
}

/// The resources that stand for the first `n` projects of a workspace.
pub open spec fn projects_upto(list: Seq<AsanaProject>, n: int, workspace: Seq<char>) -> Seq<ResourceExposureView>
    decreases n,
{
    if n <= 0 {
        Seq::empty()
    } else {
        projects_upto(list, n - 1, workspace).push(project_exposure(list[n - 1], workspace))
    }
}

fn add_projects(resources: &mut Vec<ResourceExposure>, list: &Vec<AsanaProject>, workspace: &str)
    ensures
        views(final(resources)@) == views(old(resources)@) + projects_upto(
            list@,
            list@.len() as int,
            workspace@,
        ),
{
    let ghost before = views(resources@);
    let mut i: usize = 0;
    assert(before =~= before + projects_upto(list@, 0, workspace@));
    while i < list.len()
        invariant
            i <= list@.len(),
            views(resources@) == before + projects_upto(list@, i as int, workspace@),
        decreases list@.len() - i,
    {
        push_view(resources, expose_project(&list[i], workspace));
        i = i + 1;
        assert(views(resources@) =~= before + projects_upto(list@, i as int, workspace@));
    }
}

/// The resource that stands for a workspace.
pub open spec fn workspace_exposure(workspace: AsanaWorkspace) -> ResourceExposureView {
    let name = workspace_name(workspace);
    if is_set(workspace.is_organization) {
        exposure(
            "organization"@,
            name,
            seq!["organization:member"@],
            Severity::Medium,
            "Asana organization "@ + name + " accessible with this token"@,
        )
    } else {
        exposure(
            "workspace"@,
            name,
            seq!["workspace:member"@],
            Severity::Low,
            "Asana workspace "@ + name + " accessible with this token"@,
        )
    }
}

fn expose_workspace(workspace: &AsanaWorkspace, name: &str) -> (resource: ResourceExposure)
    requires
        name@ == workspace_name(*workspace),
    ensures
        resource@ == workspace_exposure(*workspace),
{
    if flag_set(workspace.is_organization) {
        ResourceExposure::new(
            "organization",
            name,
            one_text("organization:member"),
            Severity::Medium,
            cat3("Asana organization ", name, " accessible with this token").as_str(),
        )
    } else {
        ResourceExposure::new(
            "workspace",
            name,
            one_text("workspace:member"),
            Severity::Low,
            cat3("Asana workspace ", name, " accessible with this token").as_str(),
        )
    }
}

/// The role that a team stands for.
pub open spec fn team_binding(team: AsanaTeam) -> RoleBindingView {
    binding(
        "team:"@ + text_else(either(opt_text(team.name), opt_text(team.gid)), "unknown_team"@),
        "asana"@,
        Seq::empty(),
    )
}

fn bind_team(team: &AsanaTeam) -> (role: RoleBinding)
    ensures
        role@ == team_binding(*team),
{
    let name = first_text(&team.name, &team.gid, "unknown_team");
    RoleBinding::new(cat2("team:", name.as_str()).as_str(), "asana", no_texts())
}

/// The roles that stand for the first `n` teams.
pub open spec fn teams_upto(list: Seq<AsanaTeam>, n: int) -> Seq<RoleBindingView>
    decreases n,
{
    if n <= 0 {
        Seq::empty()
    } else {
        teams_upto(list, n - 1).push(team_binding(list[n - 1]))
    }
}

fn add_teams(roles: &mut Vec<RoleBinding>, list: &Vec<AsanaTeam>)
    ensures
        views(final(roles)@) == views(old(roles)@) + teams_upto(
            list@,
            list@.len() as int,
        ),
{
    let ghost before = views(roles@);
    let mut i: usize = 0;
    assert(before =~= before + teams_upto(list@, 0));
    while i < list.len()
        invariant
            i <= list@.len(),
            views(roles@) == before + teams_upto(list@, i as int),
        decreases list@.len() - i,
    {
        push_view(roles, bind_team(&list[i]));
        i = i + 1;
        assert(views(roles@) =~= before + teams_upto(list@, i as int));
    }
}

/// The resources of the first `n` workspaces: each one and its projects.
pub open spec fn workspaces_upto(list: Seq<AsanaWorkspace>, n: int) -> Seq<ResourceExposureView>
    decreases n,
{
    if n <= 0 {
        Seq::empty()
    } else {
        workspaces_upto(list, n - 1).push(workspace_exposure(list[n - 1])) + projects_upto(
            list[n - 1].projects@,
            list[n - 1].projects@.len() as int,
            workspace_name(list[n - 1]),
        )
    }
}

/// The roles of the first `n` workspaces: the teams of those that are organizations.
pub open spec fn workspace_roles(list: Seq<AsanaWorkspace>, n: int) -> Seq<RoleBindingView>
    decreases n,
{
    if n <= 0 {
        Seq::empty()
    } else if is_set(list[n - 1].is_organization) {
        workspace_roles(list, n - 1) + teams_upto(
            list[n - 1].teams@,
            list[n - 1].teams@.len() as int,
        )
    } else {
        workspace_roles(list, n - 1)
    }
}

fn add_workspaces(
    resources: &mut Vec<ResourceExposure>,
    roles: &mut Vec<RoleBinding>,
    list: &Vec<AsanaWorkspace>,
)
    ensures
        views(final(resources)@) == views(old(resources)@) + workspaces_upto(
            list@,
            list@.len() as int,
        ),
        views(final(roles)@) == views(old(roles)@) + workspace_roles(list@, list@.len() as int),
{
    let ghost before = views(resources@);
    let ghost before_roles = views(roles@);
    let mut i: usize = 0;
    assert(before =~= before + workspaces_upto(list@, 0));
    assert(before_roles =~= before_roles + workspace_roles(list@, 0));
    while i < list.len()
        invariant
            i <= list@.len(),
            views(resources@) == before + workspaces_upto(list@, i as int),
            views(roles@) == before_roles + workspace_roles(list@, i as int),
        decreases list@.len() - i,
    {
        let gid = find_gid(&list[i]);
        let name = unwrap_text(&list[i].name, gid.as_str());
        push_view(resources, expose_workspace(&list[i], name.as_str()));
        add_projects(resources, &list[i].projects, name.as_str());
        if flag_set(list[i].is_organization) {
            add_teams(roles, &list[i].teams);
        }
        i = i + 1;
        assert(views(resources@) =~= before + workspaces_upto(list@, i as int));
        assert(views(roles@) =~= before_roles + workspace_roles(list@, i as int));
    }
}

/// The kind of a token.
pub open spec fn token_kind(token: Seq<char>) -> Seq<char> {
    if begins(token, "2/"@) {
        "personal_access_token_v2"@
    } else if begins(token, "1/"@) {
        "personal_access_token_v1"@
    } else if begins(token, "0/"@) {
        "oauth_or_legacy_pat"@
    } else {
        "asana_token"@
    }
}

pub fn classify_token(token: &str) -> (kind: &'static str)
    ensures
        kind@ == token_kind(token@),
{
    if starts_with(token, "2/") {
        "personal_access_token_v2"
    } else if starts_with(token, "1/") {
        "personal_access_token_v1"
    } else if starts_with(token, "0/") {
        "oauth_or_legacy_pat"
    } else {
        "asana_token"
    }
}

/// Whether a workspace is an organization.
pub open spec fn is_org(workspace: AsanaWorkspace) -> bool {
    is_set(workspace.is_organization)
}

fn check_org(workspace: &AsanaWorkspace) -> (yes: bool)
    ensures
        yes == is_org(*workspace),
{
    flag_set(workspace.is_organization)
}

/// Whether one of the workspaces is an organization.
pub open spec fn some_org(list: Seq<AsanaWorkspace>) -> bool {
    exists|k: int| 0 <= k < list.len() && is_org(#[trigger] list[k])
}

fn any_org(list: &Vec<AsanaWorkspace>) -> (yes: bool)
    ensures
        yes == some_org(list@),
{
    let mut i: usize = 0;
    while i < list.len()
        invariant
            i <= list@.len(),
            forall|k: int| 0 <= k < i ==> !is_org(#[trigger] list@[k]),
        decreases list@.len() - i,
    {
        if check_org(&list[i]) {
            assert(is_org(list@[i as int]));
            return true;
        }
        i = i + 1;
    }
    false
}

/// How many of the first `n` resources are projects.
pub open spec fn project_count(list: Seq<ResourceExposureView>, n: int) -> nat
    decreases n,
{
    if n <= 0 {
        0
    } else if list[n - 1].resource_type == "project"@ {
        project_count(list, n - 1) + 1
    } else {
        project_count(list, n - 1)
    }
}

/// How grave it is what a token shows.
pub open spec fn asana_severity(
    workspaces: Seq<AsanaWorkspace>,
    resources: Seq<ResourceExposureView>,
) -> Severity {
    let count = project_count(resources, resources.len() as int);
    if some_org(workspaces) && count > 20 {
        Severity::High
    } else if some_org(workspaces) || count > 5 {
        Severity::Medium
    } else {
        Severity::Low
    }
}

pub fn derive_severity(workspaces: &Vec<AsanaWorkspace>, resources: &Vec<ResourceExposure>) -> (severity: Severity)
    ensures
        severity == asana_severity(workspaces@, views(resources@)),
{
    let has_org = any_org(workspaces);
    let mut count: usize = 0;
    let mut i: usize = 0;
    while i < resources.len()
        invariant
            i <= resources@.len(),
            count <= i,
            count == project_count(views(resources@), i as int),
        decreases resources@.len() - i,
    {
        assert(views(resources@)[i as int] == resources@[i as int]@);
        if str_eq(resources[i].resource_type.as_str(), "project") {
            count = count + 1;
        }
        i = i + 1;
    }
    if has_org && count > 20 {
        Severity::High
    } else if has_org || count > 5 {
        Severity::Medium
    } else {
        Severity::Low
    }
}

/// How a user is called.
pub open spec fn asana_user(user: AsanaUser) -> Seq<char> {
    text_else(either(opt_text(user.name), opt_text(user.email)), "asana_user"@)
}

/// The name and the ID of the first workspace.
pub open spec fn primary_workspace(list: Seq<AsanaWorkspace>) -> (Option<Seq<char>>, Option<Seq<char>>) {
    if list.len() > 0 {
        (opt_text(list[0].name), opt_text(list[0].gid))
    } else {
        (None, None)
    }
}

/// What an Asana token gives access to.
pub open spec fn asana_result(token: Seq<char>, user: AsanaUser) -> AccessMapResultView {
    let list = user.workspaces@;
    let found = workspaces_upto(list, list.len() as int);
    let primary = primary_workspace(list);
    plain_result(
        "asana"@,
        AccessSummaryView {
            id: asana_user(user),
            access_type: text_or(user.resource_type, "user"@),
            project: primary.0,
            tenant: primary.1,
            account_id: opt_text(user.gid),
        },
        seq![binding("workspace_member"@, "asana"@, seq!["workspace:member"@])] + workspace_roles(
            list,
            list.len() as int,
        ),
        sorted_summary(
            filed(empty_permission_summary(), PermissionClass::Risky, "workspace:member"@),
        ),
        if list.len() == 0 {
            found.push(
                exposure(
                    "account"@,
                    asana_user(user),
                    Seq::empty(),
                    Severity::Low,
                    "Asana account associated with the token"@,
                ),
            )
        } else {
            found
        },
        asana_severity(list, found),
        if list.len() == 0 {
            seq!["Token did not enumerate any workspaces"@]
        } else {
            Seq::empty()
        },
        Some(
            AccessTokenDetailsView {
                name: opt_text(user.name),
                username: opt_text(user.email),
                account_type: opt_text(user.resource_type),
                company: primary.0,
                email: opt_text(user.email),
                url: Some("https://app.asana.com"@),
                token_type: Some(token_kind(token)),
                user_id: opt_text(user.gid),
                ..empty_access_token_details()
            },
        ),
    )
}

/// Maps an Asana token from what the service answered to it. A listing that failed is empty.
pub fn map_access_from_token(token: &str, user: &AsanaUser) -> (result: AccessMapResult)
    ensures
        result@ == asana_result(token@, *user),
{
    let username = first_text(&user.name, &user.email, "asana_user");
    let list = &user.workspaces;
    let (company, tenant) = if list.len() > 0 {
        (copy_opt(&list[0].name), copy_opt(&list[0].gid))
    } else {
        (None, None)
    };
    let mut roles = one_view(
        RoleBinding::new("workspace_member", "asana", one_text("workspace:member")),
    );
    let mut permissions = PermissionSummary::default();
    file_permission(&mut permissions, PermissionClass::Risky, "workspace:member".to_owned());
    sort_permission_summary(&mut permissions);
    let mut resources: Vec<ResourceExposure> = no_views();
    add_workspaces(&mut resources, &mut roles, list);
    assert(views(resources@) =~= workspaces_upto(list@, list@.len() as int));
    let severity = derive_severity(list, &resources);
    let mut risk_notes = no_texts();
    if list.len() == 0 {
        push_view(
            &mut resources,
            ResourceExposure::new(
                "account",
                username.as_str(),
                no_texts(),
                Severity::Low,
                "Asana account associated with the token",
            ),
        );
        push_text(&mut risk_notes, "Token did not enumerate any workspaces".to_owned());
        assert(texts(risk_notes@) =~= seq!["Token did not enumerate any workspaces"@]);
    }
    let mut details = AccessTokenDetails::default();
    details.name = copy_opt(&user.name);
    details.username = copy_opt(&user.email);
    details.account_type = copy_opt(&user.resource_type);
    details.company = copy_opt(&company);
    details.email = copy_opt(&user.email);
    details.url = Some("https://app.asana.com".to_owned());
    details.token_type = Some(classify_token(token).to_owned());
    details.user_id = copy_opt(&user.gid);
    build_result(
        "asana",
        AccessSummary {
            id: username,
            access_type: unwrap_text(&user.resource_type, "user"),
            project: company,
            tenant,
            account_id: copy_opt(&user.gid),
        },
        roles,
        permissions,
        resources,
        severity,
        risk_notes,
        Some(details),
    )
}

/// The result of a token always names a resource, if only its account.
pub proof fn lemma_some_resource_is_named(token: Seq<char>, user: AsanaUser)
    ensures
        asana_result(token, user).resources.len() > 0,
{
}

proof fn lemma_projects_listed(list: Seq<AsanaProject>, n: int, workspace: Seq<char>)
    requires
        0 <= n <= list.len(),
    ensures
        projects_upto(list, n, workspace).len() == n,
        forall|k: int| 0 <= k < n ==> #[trigger] projects_upto(list, n, workspace)[k] == project_exposure(list[k], workspace),
    decreases n,
{
    if n > 0 {
        lemma_projects_listed(list, n - 1, workspace);
    }
}

proof fn lemma_workspaces_listed(list: Seq<AsanaWorkspace>, n: int, k: int, j: int)
    requires
        0 <= k < n <= list.len(),
    ensures
        workspaces_upto(list, n).contains(workspace_exposure(list[k])),
        0 <= j < list[k].projects@.len() ==> workspaces_upto(list, n).contains(
            project_exposure(list[k].projects@[j], workspace_name(list[k])),
        ),
    decreases n,
{
    let before = workspaces_upto(list, n - 1);
    let now = workspaces_upto(list, n);
    let last = list[n - 1];
    let projects = projects_upto(last.projects@, last.projects@.len() as int, workspace_name(last));
    lemma_projects_listed(last.projects@, last.projects@.len() as int, workspace_name(last));
    assert(now == before.push(workspace_exposure(last)) + projects);
    if k < n - 1 {
        lemma_workspaces_listed(list, n - 1, k, j);
        assert forall|r: ResourceExposureView| #[trigger] before.contains(r) implies now.contains(r) by {
            let m = choose|m: int| 0 <= m < before.len() && before[m] == r;
            assert(now[m] == r);
        }
        if 0 <= j < list[k].projects@.len() {
            assert(before.contains(project_exposure(list[k].projects@[j], workspace_name(list[k]))));
        }
        assert(before.contains(workspace_exposure(list[k])));
    } else {
        assert(now[before.len() as int] == workspace_exposure(last));
        if 0 <= j < last.projects@.len() {
            assert(now[before.len() + 1 + j] == project_exposure(
                last.projects@[j],
                workspace_name(last),
            ));
        }
    }
}

/// Every workspace and every project of it is reported, and an organization at medium risk, as is a
/// project that is public in its workspace. A token that reaches an organization is medium at least.
pub proof fn lemma_workspaces_are_reported(token: Seq<char>, user: AsanaUser, k: int, j: int)
    requires
        0 <= k < user.workspaces@.len(),
    ensures
        ({
            let result = asana_result(token, user);
            let workspace = user.workspaces@[k];
            &&& workspace.name is Some ==> exists|i: int|
                0 <= i < result.resources.len() && (#[trigger] result.resources[i]).name
                    == workspace.name->0@ && (workspace.is_organization == Some(true)
                    ==> result.resources[i].resource_type == "organization"@ && result.resources[i].risk
                    == "medium"@)
            &&& workspace.is_organization == Some(true) ==> result.severity != Severity::Low
            &&& workspace.name is Some && 0 <= j < workspace.projects@.len()
                && workspace.projects@[j].name is Some ==> exists|i: int|
                0 <= i < result.resources.len() && (#[trigger] result.resources[i]).name
                    == workspace.name->0@ + "/"@ + workspace.projects@[j].name->0@
                    && result.resources[i].resource_type == "project"@ && (
                workspace.projects@[j].privacy_setting is Some
                    && workspace.projects@[j].privacy_setting->0@ == "public_to_workspace"@
                    ==> result.resources[i].risk == "medium"@)
        }),
{
    let list = user.workspaces@;
    let result = asana_result(token, user);
    let found = workspaces_upto(list, list.len() as int);
    lemma_workspaces_listed(list, list.len() as int, k, j);
    assert(result.resources == found);
    let i = choose|i: int| 0 <= i < found.len() && found[i] == workspace_exposure(list[k]);
    assert(result.resources[i] == workspace_exposure(list[k]));
    if is_org(list[k]) {
        assert(some_org(list));
    }
    if 0 <= j < list[k].projects@.len() {
        let wanted = project_exposure(list[k].projects@[j], workspace_name(list[k]));
        let m = choose|m: int| 0 <= m < found.len() && found[m] == wanted;
        assert(result.resources[m] == wanted);
    }
}

} // verus!
