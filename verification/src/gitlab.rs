//! GitLab tokens.

use vstd::prelude::*;
use crate::mapping::{build_result, plain_result};
use crate::model::{
    binding, empty_access_token_details, empty_permission_summary, exposure, no_views, one_view,
    push_view, views, AccessMapResult, AccessMapResultView, AccessSummary, AccessSummaryView,
    AccessTokenDetails, AccessTokenDetailsView, PermissionSummary, PermissionSummaryView,
    ResourceExposure, ResourceExposureView, RoleBinding, Severity,
};
use crate::permissions::{
    class_list, file_permission, filed, lemma_filed, lemma_sorted_classes_stay_filled,
    lemma_sorted_summary, sort_permission_summary, sorted_summary, PermissionClass,
};
use crate::text::{
    cat2, cat3, copy_opt, decimal, no_texts, one_text, opt_text, push_text, texts, u64_text,
};

verus! {

/// A project.
#[derive(Debug)]
pub struct GitLabProject {
    pub path_with_namespace: String,
    pub visibility: String,
    pub permissions: Option<GitLabProjectPermissions>,
}

/// A user.
#[derive(Debug)]
pub struct GitLabUser {
    pub id: u64,
    pub username: String,
    pub name: String,
    pub email: Option<String>,
}

/// The access to a project: its own and that of its group.
#[derive(Clone, Copy, Debug)]
pub struct GitLabProjectPermissions {
    pub project_access: Option<GitLabAccess>,
    pub group_access: Option<GitLabAccess>,
}

/// An access level.
#[derive(Clone, Copy, Debug)]
pub struct GitLabAccess {
    pub access_level: u32,
}

/// The level of an access, 0 where there is none.
pub open spec fn level_of(access: Option<GitLabAccess>) -> u32 {
    match access {
        Some(found) => found.access_level,
        None => 0,
    }
}

/// The higher of the levels of a project and its group.
pub open spec fn effective_level(permissions: GitLabProjectPermissions) -> u32 {
    let own = level_of(permissions.project_access);
    let inherited = level_of(permissions.group_access);
    if own < inherited {
        inherited
    } else {
        own
    }
}

pub fn effective_access_level(perms: &GitLabProjectPermissions) -> (level: u32)
    ensures
        level == effective_level(*perms),
{
    let own: u32 = match perms.project_access {
        Some(access) => access.access_level,
        None => 0,
    };
    let inherited: u32 = match perms.group_access {
        Some(access) => access.access_level,
        None => 0,
    };
    if own < inherited {
        inherited
    } else {
        own
    }
}

/// How an access level is called, and how grave it is.
pub open spec fn level_risk(level: u32) -> (Seq<char>, Severity) {
    if level == 50 {
        ("project:owner"@, Severity::High)
    } else if level == 40 {
        ("project:maintainer"@, Severity::High)
    } else if level == 30 {
        ("project:developer"@, Severity::Medium)
    } else if level == 20 {
        ("project:reporter"@, Severity::Low)
    } else if level == 10 {
        ("project:guest"@, Severity::Low)
    } else {
        ("project:access"@, Severity::Low)
    }
}

pub fn access_level_to_risk(access_level: u32) -> (risk: (&'static str, Severity))
    ensures
        (risk.0@, risk.1) == level_risk(access_level),
{
    if access_level == 50 {
        ("project:owner", Severity::High)
    } else if access_level == 40 {
        ("project:maintainer", Severity::High)
    } else if access_level == 30 {
        ("project:developer", Severity::Medium)
    } else if access_level == 20 {
        ("project:reporter", Severity::Low)
    } else if access_level == 10 {
        ("project:guest", Severity::Low)
    } else {
        ("project:access", Severity::Low)
    }
}

/// How the access to a project is called, and how grave it is.
pub open spec fn project_risk(project: GitLabProject) -> (Seq<char>, Severity) {
    level_risk(
        match project.permissions {
            Some(permissions) => effective_level(permissions),
            None => 0,
        },
    )
}

fn find_risk(project: &GitLabProject) -> (risk: (&'static str, Severity))
    ensures
        (risk.0@, risk.1) == project_risk(*project),
{
    let level: u32 = match &project.permissions {
        Some(permissions) => effective_access_level(permissions),
        None => 0,
    };
    access_level_to_risk(level)
}

/// The resource that stands for a project.
pub open spec fn project_exposure(project: GitLabProject) -> ResourceExposureView {
    let risk = project_risk(project);
    exposure(
        "project"@,
        project.path_with_namespace@,
        seq![risk.0],
        risk.1,
        "Accessible "@ + project.visibility@ + " project"@,
    )
}

fn expose_project(project: &GitLabProject) -> (resource: ResourceExposure)
    ensures
        resource@ == project_exposure(*project),
{
    let (label, risk) = find_risk(project);
    ResourceExposure::new(
        "project",
        project.path_with_namespace.as_str(),
        one_text(label),
        risk,
        cat3("Accessible ", project.visibility.as_str(), " project").as_str(),
    )
}

/// The resources that stand for the first `n` projects.
pub open spec fn projects_upto(list: Seq<GitLabProject>, n: int) -> Seq<ResourceExposureView>
    decreases n,
{
    if n <= 0 {
        Seq::empty()
    } else {
        projects_upto(list, n - 1).push(project_exposure(list[n - 1]))
    }
}

fn add_projects(resources: &mut Vec<ResourceExposure>, list: &Vec<GitLabProject>)
    ensures
        views(final(resources)@) == views(old(resources)@) + projects_upto(
            list@,
            list@.len() as int,
        ),
{
    let ghost before = views(resources@);
    let mut i: usize = 0;
    assert(before =~= before + projects_upto(list@, 0));
    while i < list.len()
        invariant
            i <= list@.len(),
            views(resources@) == before + projects_upto(list@, i as int),
        decreases list@.len() - i,
    {
        push_view(resources, expose_project(&list[i]));
        i = i + 1;
        assert(views(resources@) =~= before + projects_upto(list@, i as int));
    }
}

/// The summary with one more project.
pub open spec fn with_project(summary: PermissionSummaryView, project: GitLabProject) -> PermissionSummaryView {
    let risk = project_risk(project);
    filed(
        summary,
        match risk.1 {
            Severity::High | Severity::Critical => PermissionClass::Admin,
            Severity::Medium => PermissionClass::Risky,
            Severity::Low => PermissionClass::ReadOnly,
        },
        risk.0,
    )
}

fn file_project(summary: &mut PermissionSummary, project: &GitLabProject)
    ensures
        final(summary)@ == with_project(old(summary)@, *project),
{
    let (label, risk) = find_risk(project);
    let class = match risk {
        Severity::High | Severity::Critical => PermissionClass::Admin,
        Severity::Medium => PermissionClass::Risky,
        Severity::Low => PermissionClass::ReadOnly,
    };
    file_permission(summary, class, label.to_owned());
}

/// The summary with the first `n` projects.
pub open spec fn with_projects(summary: PermissionSummaryView, list: Seq<GitLabProject>, n: int) -> PermissionSummaryView
    decreases n,
{
    if n <= 0 {
        summary
    } else {
        with_project(with_projects(summary, list, n - 1), list[n - 1])
    }
}

fn file_projects(summary: &mut PermissionSummary, list: &Vec<GitLabProject>)
    ensures
        final(summary)@ == with_projects(old(summary)@, list@, list@.len() as int),
{
    let ghost start = summary@;
    let mut i: usize = 0;
    while i < list.len()
        invariant
            i <= list@.len(),
            summary@ == with_projects(start, list@, i as int),
        decreases list@.len() - i,
    {
        file_project(summary, &list[i]);
        i = i + 1;
    }
}

/// Whether the access to a project is grave.
pub open spec fn is_high(project: GitLabProject) -> bool {
    project_risk(project).1 == Severity::High
}

fn check_high(project: &GitLabProject) -> (yes: bool)
    ensures
        yes == is_high(*project),
{
    let (_, risk) = find_risk(project);
    risk == Severity::High
}

/// Whether the access to one of the projects is grave.
pub open spec fn some_high(list: Seq<GitLabProject>) -> bool {
    exists|k: int| 0 <= k < list.len() && is_high(#[trigger] list[k])
}

fn any_high(list: &Vec<GitLabProject>) -> (yes: bool)
    ensures
        yes == some_high(list@),
{
    let mut i: usize = 0;
    while i < list.len()
        invariant
            i <= list@.len(),
            forall|k: int| 0 <= k < i ==> !is_high(#[trigger] list@[k]),
        decreases list@.len() - i,
    {
        if check_high(&list[i]) {
            assert(is_high(list@[i as int]));
            return true;
        }
        i = i + 1;
    }
    false
}

/// Whether the access to a project is that of a developer.
pub open spec fn is_medium(project: GitLabProject) -> bool {
    project_risk(project).1 == Severity::Medium
}

fn check_medium(project: &GitLabProject) -> (yes: bool)
    ensures
        yes == is_medium(*project),
{
    let (_, risk) = find_risk(project);
    risk == Severity::Medium
}

/// Whether the access to one of the projects is that of a developer.
pub open spec fn some_medium(list: Seq<GitLabProject>) -> bool {
    exists|k: int| 0 <= k < list.len() && is_medium(#[trigger] list[k])
}

fn any_medium(list: &Vec<GitLabProject>) -> (yes: bool)
    ensures
        yes == some_medium(list@),
{
    let mut i: usize = 0;
    while i < list.len()
        invariant
            i <= list@.len(),
            forall|k: int| 0 <= k < i ==> !is_medium(#[trigger] list@[k]),
        decreases list@.len() - i,
    {
        if check_medium(&list[i]) {
            assert(is_medium(list@[i as int]));
            return true;
        }
        i = i + 1;
    }
    false
}

/// How grave it is what a token permits.
pub open spec fn gitlab_severity(projects: Seq<GitLabProject>) -> Severity {
    if some_high(projects) {
        Severity::High
    } else if some_medium(projects) {
        Severity::Medium
    } else {
        Severity::Low
    }
}

pub fn derive_severity(projects: &Vec<GitLabProject>) -> (severity: Severity)
    ensures
        severity == gitlab_severity(projects@),
{
    if any_high(projects) {
        Severity::High
    } else if any_medium(projects) {
        Severity::Medium
    } else {
        Severity::Low
    }
}

/// The projects that were listed.
pub open spec fn found_projects(projects: Result<Vec<GitLabProject>, String>) -> Seq<GitLabProject> {
    match projects {
        Ok(list) => list@,
        Err(_) => Seq::empty(),
    }
}

/// The notes on a token.
pub open spec fn gitlab_notes(projects: Result<Vec<GitLabProject>, String>) -> Seq<Seq<char>> {
    let first = match projects {
        Ok(_) => Seq::empty(),
        Err(error) => seq!["Project enumeration failed: "@ + error@],
    };
    if found_projects(projects).len() == 0 {
        first.push("Token did not enumerate any projects"@)
    } else {
        first
    }
}

/// What a GitLab token gives access to.
pub open spec fn gitlab_result(
    user: GitLabUser,
    projects: Result<Vec<GitLabProject>, String>,
) -> AccessMapResultView {
    let list = found_projects(projects);
    let id = decimal(user.id as nat);
    plain_result(
        "gitlab"@,
        AccessSummaryView {
            id: user.username@,
            access_type: "user_token"@,
            project: None,
            tenant: None,
            account_id: Some(id),
        },
        seq![binding("gitlab_user"@, "users/current"@, seq!["projects:membership:list"@])],
        sorted_summary(with_projects(empty_permission_summary(), list, list.len() as int)),
        if list.len() == 0 {
            seq![
                exposure(
                    "account"@,
                    user.username@,
                    Seq::empty(),
                    Severity::Low,
                    "GitLab account associated with the token"@,
                ),
            ]
        } else {
            projects_upto(list, list.len() as int)
        },
        gitlab_severity(list),
        gitlab_notes(projects),
        Some(
            AccessTokenDetailsView {
                name: Some(user.name@),
                username: Some(user.username@),
                email: opt_text(user.email),
                token_type: Some("gitlab_user_token"@),
                user_id: Some(id),
                ..empty_access_token_details()
            },
        ),
    )
}

/// Maps a GitLab token from what the service answered to it.
pub fn map_access_from_token(
    user: &GitLabUser,
    projects: Result<Vec<GitLabProject>, String>,
) -> (result: AccessMapResult)
    ensures
        result@ == gitlab_result(*user, projects),
{
    let ghost given = projects;
    let mut risk_notes = no_texts();
    let list: Vec<GitLabProject> = match projects {
        Ok(list) => list,
        Err(error) => {
            push_text(&mut risk_notes, cat2("Project enumeration failed: ", error.as_str()));
            Vec::new()
        },
    };
    assert(list@ =~= found_projects(given));
    let mut resources: Vec<ResourceExposure> = no_views();
    add_projects(&mut resources, &list);
    let mut permissions = PermissionSummary::default();
    file_projects(&mut permissions, &list);
    sort_permission_summary(&mut permissions);
    let severity = derive_severity(&list);
    let roles = one_view(
        RoleBinding::new("gitlab_user", "users/current", one_text("projects:membership:list")),
    );
    if list.len() == 0 {
        push_view(
            &mut resources,
            ResourceExposure::new(
                "account",
                user.username.as_str(),
                no_texts(),
                Severity::Low,
                "GitLab account associated with the token",
            ),
        );
        push_text(&mut risk_notes, "Token did not enumerate any projects".to_owned());
    }
    assert(views(resources@) =~= gitlab_result(*user, given).resources);
    assert(texts(risk_notes@) =~= gitlab_notes(given));
    let mut details = AccessTokenDetails::default();
    details.name = Some(user.name.clone());
    details.username = Some(user.username.clone());
    details.email = copy_opt(&user.email);
    details.token_type = Some("gitlab_user_token".to_owned());
    details.user_id = Some(u64_text(user.id));
    build_result(
        "gitlab",
        AccessSummary {
            id: user.username.clone(),
            access_type: "user_token".to_owned(),
            project: None,
            tenant: None,
            account_id: Some(u64_text(user.id)),
        },
        roles,
        permissions,
        resources,
        severity,
        risk_notes,
        Some(details),
    )
}

/// The access that a group passes on never lowers the level of a project.
pub proof fn lemma_inherited_access_counts(permissions: GitLabProjectPermissions)
    ensures
        effective_level(permissions) >= level_of(permissions.project_access),
        effective_level(permissions) >= level_of(permissions.group_access),
        effective_level(permissions) == level_of(permissions.project_access) || effective_level(
            permissions,
        ) == level_of(permissions.group_access),
{
}

proof fn lemma_projects_len(list: Seq<GitLabProject>, n: int)
    requires
        0 <= n,
    ensures
        projects_upto(list, n).len() == n,
    decreases n,
{
    if n > 0 {
        lemma_projects_len(list, n - 1);
    }
}

/// The result of a token always names a resource, if only its account.
pub proof fn lemma_some_resource_is_named(user: GitLabUser, projects: Result<Vec<GitLabProject>, String>)
    ensures
        gitlab_result(user, projects).resources.len() > 0,
{
    lemma_projects_len(found_projects(projects), found_projects(projects).len() as int);
}

proof fn lemma_projects_listed(list: Seq<GitLabProject>, n: int)
    requires
        0 <= n <= list.len(),
    ensures
        projects_upto(list, n).len() == n,
        forall|k: int| 0 <= k < n ==> #[trigger] projects_upto(list, n)[k] == project_exposure(list[k]),
    decreases n,
{
    if n > 0 {
        lemma_projects_listed(list, n - 1);
    }
}

proof fn lemma_projects_filed(summary: PermissionSummaryView, list: Seq<GitLabProject>, n: int, k: int)
    requires
        0 <= k < n <= list.len(),
    ensures
        class_list(with_projects(summary, list, n), (match project_risk(list[k]).1 { Severity::High | Severity::Critical => PermissionClass::Admin, Severity::Medium => PermissionClass::Risky, Severity::Low => PermissionClass::ReadOnly })).contains(project_risk(list[k]).0),
    decreases n,
{
    let before = with_projects(summary, list, n - 1);
    lemma_filed(before, (match project_risk(list[n - 1]).1 { Severity::High | Severity::Critical => PermissionClass::Admin, Severity::Medium => PermissionClass::Risky, Severity::Low => PermissionClass::ReadOnly }), project_risk(list[n - 1]).0);
    if k < n - 1 {
        lemma_projects_filed(summary, list, n - 1, k);
        assert(class_list(before, (match project_risk(list[k]).1 { Severity::High | Severity::Critical => PermissionClass::Admin, Severity::Medium => PermissionClass::Risky, Severity::Low => PermissionClass::ReadOnly })).contains(project_risk(list[k]).0));
    }
}

/// The strongest access to any project decides, whether the user has it in the project or through its
/// group: an owner or a maintainer is high and administers, a developer medium at least. A token with
/// nothing more than a reporter's access is low. Every project is reported under its path at the risk
/// of the access to it.
pub proof fn lemma_strongest_access_decides(
    user: GitLabUser,
    projects: Result<Vec<GitLabProject>, String>,
    k: int,
)
    ensures
        ({
            let result = gitlab_result(user, projects);
            let list = found_projects(projects);
            &&& 0 <= k < list.len() && list[k].permissions is Some ==> {
                let own = match list[k].permissions->0.project_access {
                    Some(found) => found.access_level as int,
                    None => 0,
                };
                let inherited = match list[k].permissions->0.group_access {
                    Some(found) => found.access_level as int,
                    None => 0,
                };
                let level = if own < inherited {
                    inherited
                } else {
                    own
                };
                &&& level == 50 ==> result.permissions.admin.contains("project:owner"@)
                &&& level == 40 ==> result.permissions.admin.contains("project:maintainer"@)
                &&& level == 50 || level == 40 ==> result.severity == Severity::High
                    && result.resources[k].risk == "high"@
                &&& level == 30 ==> result.severity != Severity::Low && result.resources[k].risk
                    == "medium"@ && result.permissions.risky.contains("project:developer"@)
                &&& level == 20 || level == 10 ==> result.resources[k].risk == "low"@
            }
            &&& 0 <= k < list.len() ==> result.resources[k].name == list[k].path_with_namespace@
                && result.resources.len() == list.len()
            &&& (forall|j: int| 0 <= j < list.len() ==> (#[trigger] list[j]).permissions is None)
                ==> result.severity == Severity::Low
            &&& result.severity != Severity::Critical
            &&& result.identity.id == user.username@
        }),
{
    let list = found_projects(projects);
    let n = list.len() as int;
    let raw = with_projects(empty_permission_summary(), list, n);
    lemma_projects_listed(list, n);
    if 0 <= k < n {
        lemma_projects_filed(empty_permission_summary(), list, n, k);
        lemma_sorted_summary(raw, PermissionClass::Admin);
        lemma_sorted_summary(raw, PermissionClass::Risky);
        let name = project_risk(list[k]).0;
        assert(is_high(list[k]) ==> some_high(list));
        assert(is_medium(list[k]) ==> some_medium(list));
        assert(class_list(raw, PermissionClass::Admin).contains(name) ==> class_list(
            sorted_summary(raw),
            PermissionClass::Admin,
        ).contains(name));
        assert(class_list(raw, PermissionClass::Risky).contains(name) ==> class_list(
            sorted_summary(raw),
            PermissionClass::Risky,
        ).contains(name));
    }
}

} // verus!
