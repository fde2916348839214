//! Gitea tokens.

use vstd::prelude::*;
use crate::mapping::{build_result, plain_result};
use crate::model::{
    binding, empty_access_token_details, empty_permission_summary, exposure, no_views, push_view,
    views, AccessMapResult, AccessMapResultView, AccessSummary, AccessSummaryView,
    AccessTokenDetails, AccessTokenDetailsView, PermissionSummary, PermissionSummaryView,
    ResourceExposure, ResourceExposureView, RoleBinding, Severity,
};
use crate::permissions::{
    class_list, file_permission, filed, lemma_filed, lemma_sorted_classes_stay_filled,
    lemma_sorted_summary, sort_permission_summary, sorted_summary, PermissionClass,
};
use crate::text::{
    copy_opt, either, filled_text, first_text, keep_filled, no_texts, one_text, opt_text, push_text,
    text_else, texts, unwrap_text,
};

verus! {

/// The number of entries that a page of a listing holds.
pub const PER_PAGE: usize = 50;

/// A user.
#[derive(Debug)]
pub struct GiteaUser {
    pub login: String,
    pub full_name: Option<String>,
    pub email: Option<String>,
    pub avatar_url: Option<String>,
    pub is_admin: bool,
    pub created: Option<String>,
}

/// A repository.
#[derive(Debug)]
pub struct GiteaRepo {
    pub full_name: String,
    pub private: bool,
    pub permissions: Option<GiteaRepoPermissions>,
}

/// What a user may do with a repository.
#[derive(Clone, Copy, Debug)]
pub struct GiteaRepoPermissions {
    pub admin: bool,
    pub push: bool,
    pub pull: bool,
}

/// An organization.
#[derive(Debug)]
pub struct GiteaOrg {
    pub username: Option<String>,
    pub full_name: Option<String>,
}

/// The resource that stands for an organization.
pub open spec fn org_exposure(org: GiteaOrg) -> ResourceExposureView {
    exposure(
        "organization"@,
        text_else(either(opt_text(org.username), opt_text(org.full_name)), "unknown_org"@),
        seq!["org:member"@],
        Severity::Low,
        "Organization membership available to the token"@,
    )
}

fn expose_org(org: &GiteaOrg) -> (resource: ResourceExposure)
    ensures
        resource@ == org_exposure(*org),
{
    ResourceExposure::new(
        "organization",
        first_text(&org.username, &org.full_name, "unknown_org").as_str(),
        one_text("org:member"),
        Severity::Low,
        "Organization membership available to the token",
    )
}

/// The resources that stand for the first `n` organizations.
pub open spec fn orgs_upto(list: Seq<GiteaOrg>, n: int) -> Seq<ResourceExposureView>
    decreases n,
{
    if n <= 0 {
        Seq::empty()
    } else {
        orgs_upto(list, n - 1).push(org_exposure(list[n - 1]))
    }
}

fn add_orgs(resources: &mut Vec<ResourceExposure>, list: &Vec<GiteaOrg>)
    ensures
        views(final(resources)@) == views(old(resources)@) + orgs_upto(
            list@,
            list@.len() as int,
        ),
{
    let ghost before = views(resources@);
    let mut i: usize = 0;
    assert(before =~= before + orgs_upto(list@, 0));
    while i < list.len()
        invariant
            i <= list@.len(),
            views(resources@) == before + orgs_upto(list@, i as int),
        decreases list@.len() - i,
    {
        push_view(resources, expose_org(&list[i]));
        i = i + 1;
        assert(views(resources@) =~= before + orgs_upto(list@, i as int));
    }
}

/// What a user may do with a repository: read it, where nothing is said.
pub open spec fn repo_rights(repo: GiteaRepo) -> GiteaRepoPermissions {
    match repo.permissions {
        Some(rights) => rights,
        None => GiteaRepoPermissions { admin: false, push: false, pull: true },
    }
}

fn find_rights(repo: &GiteaRepo) -> (rights: GiteaRepoPermissions)
    ensures
        rights == repo_rights(*repo),
{
    match repo.permissions {
        Some(rights) => rights,
        None => GiteaRepoPermissions { admin: false, push: false, pull: true },
    }
}

/// The permissions of a repository, by name.
pub open spec fn right_names(rights: GiteaRepoPermissions) -> Seq<Seq<char>> {
    let admin = if rights.admin {
        seq!["repo:admin"@]
    } else {
        Seq::empty()
    };
    let push = if rights.push {
        admin.push("repo:write"@)
    } else {
        admin
    };
    if rights.pull {
        push.push("repo:read"@)
    } else {
        push
    }
}

fn name_rights(rights: GiteaRepoPermissions) -> (names: Vec<String>)
    ensures
        texts(names@) == right_names(rights),
{
    let mut names = no_texts();
    if rights.admin {
        push_text(&mut names, "repo:admin".to_owned());
    }
    if rights.push {
        push_text(&mut names, "repo:write".to_owned());
    }
    if rights.pull {
        push_text(&mut names, "repo:read".to_owned());
    }
    assert(texts(names@) =~= right_names(rights));
    names
}

/// The resource that stands for a repository.
pub open spec fn repo_exposure(repo: GiteaRepo) -> ResourceExposureView {
    let rights = repo_rights(repo);
    exposure(
        "repository"@,
        repo.full_name@,
        right_names(rights),
        if rights.admin {
            Severity::High
        } else if rights.push {
            Severity::Medium
        } else {
            Severity::Low
        },
        if repo.private {
            "Accessible private repository"@
        } else {
            "Accessible public repository"@
        },
    )
}

fn expose_repo(repo: &GiteaRepo) -> (resource: ResourceExposure)
    ensures
        resource@ == repo_exposure(*repo),
{
    let rights = find_rights(repo);
    let risk = if rights.admin {
        Severity::High
    } else if rights.push {
        Severity::Medium
    } else {
        Severity::Low
    };
    let reason: &str = if repo.private {
        "Accessible private repository"
    } else {
        "Accessible public repository"
    };
    ResourceExposure::new(
        "repository",
        repo.full_name.as_str(),
        name_rights(rights),
        risk,
        reason,
    )
}

/// The resources that stand for the first `n` repositories.
pub open spec fn repos_upto(list: Seq<GiteaRepo>, n: int) -> Seq<ResourceExposureView>
    decreases n,
{
    if n <= 0 {
        Seq::empty()
    } else {
        repos_upto(list, n - 1).push(repo_exposure(list[n - 1]))
    }
}

fn add_repos(resources: &mut Vec<ResourceExposure>, list: &Vec<GiteaRepo>)
    ensures
        views(final(resources)@) == views(old(resources)@) + repos_upto(
            list@,
            list@.len() as int,
        ),
{
    let ghost before = views(resources@);
    let mut i: usize = 0;
    assert(before =~= before + repos_upto(list@, 0));
    while i < list.len()
        invariant
            i <= list@.len(),
            views(resources@) == before + repos_upto(list@, i as int),
        decreases list@.len() - i,
    {
        push_view(resources, expose_repo(&list[i]));
        i = i + 1;
        assert(views(resources@) =~= before + repos_upto(list@, i as int));
    }
}

/// The summary with the strongest right of one more repository.
pub open spec fn with_repo(summary: PermissionSummaryView, repo: GiteaRepo) -> PermissionSummaryView {
    let rights = repo_rights(repo);
    if rights.admin {
        filed(summary, PermissionClass::Admin, "repo:admin"@)
    } else if rights.push {
        filed(summary, PermissionClass::Risky, "repo:write"@)
    } else if rights.pull {
        filed(summary, PermissionClass::ReadOnly, "repo:read"@)
    } else {
        summary
    }
}

fn file_repo(summary: &mut PermissionSummary, repo: &GiteaRepo)
    ensures
        final(summary)@ == with_repo(old(summary)@, *repo),
{
    let rights = find_rights(repo);
    if rights.admin {
        file_permission(summary, PermissionClass::Admin, "repo:admin".to_owned());
    } else if rights.push {
        file_permission(summary, PermissionClass::Risky, "repo:write".to_owned());
    } else if rights.pull {
        file_permission(summary, PermissionClass::ReadOnly, "repo:read".to_owned());
    }
}

/// The summary with the first `n` repositories.
pub open spec fn with_repos(summary: PermissionSummaryView, list: Seq<GiteaRepo>, n: int) -> PermissionSummaryView
    decreases n,
{
    if n <= 0 {
        summary
    } else {
        with_repo(with_repos(summary, list, n - 1), list[n - 1])
    }
}

fn file_repos(summary: &mut PermissionSummary, list: &Vec<GiteaRepo>)
    ensures
        final(summary)@ == with_repos(old(summary)@, list@, list@.len() as int),
{
    let ghost start = summary@;
    let mut i: usize = 0;
    while i < list.len()
        invariant
            i <= list@.len(),
            summary@ == with_repos(start, list@, i as int),
        decreases list@.len() - i,
    {
        file_repo(summary, &list[i]);
        i = i + 1;
    }
}

/// Whether a repository is said to be administered.
pub open spec fn is_administered(repo: GiteaRepo) -> bool {
    match repo.permissions {
        Some(rights) => rights.admin,
        None => false,
    }
}

fn check_administered(repo: &GiteaRepo) -> (yes: bool)
    ensures
        yes == is_administered(*repo),
{
    match repo.permissions {
        Some(rights) => rights.admin,
        None => false,
    }
}

/// Whether one of the repositories is administered.
pub open spec fn some_administered(list: Seq<GiteaRepo>) -> bool {
    exists|k: int| 0 <= k < list.len() && is_administered(#[trigger] list[k])
}

fn any_administered(list: &Vec<GiteaRepo>) -> (yes: bool)
    ensures
        yes == some_administered(list@),
{
    let mut i: usize = 0;
    while i < list.len()
        invariant
            i <= list@.len(),
            forall|k: int| 0 <= k < i ==> !is_administered(#[trigger] list@[k]),
        decreases list@.len() - i,
    {
        if check_administered(&list[i]) {
            assert(is_administered(list@[i as int]));
            return true;
        }
        i = i + 1;
    }
    false
}

/// Whether a repository is said to be written to.
pub open spec fn is_written(repo: GiteaRepo) -> bool {
    match repo.permissions {
        Some(rights) => rights.push,
        None => false,
    }
}

fn check_written(repo: &GiteaRepo) -> (yes: bool)
    ensures
        yes == is_written(*repo),
{
    match repo.permissions {
        Some(rights) => rights.push,
        None => false,
    }
}

/// Whether one of the repositories is written to.
pub open spec fn some_written(list: Seq<GiteaRepo>) -> bool {
    exists|k: int| 0 <= k < list.len() && is_written(#[trigger] list[k])
}

fn any_written(list: &Vec<GiteaRepo>) -> (yes: bool)
    ensures
        yes == some_written(list@),
{
    let mut i: usize = 0;
    while i < list.len()
        invariant
            i <= list@.len(),
            forall|k: int| 0 <= k < i ==> !is_written(#[trigger] list@[k]),
        decreases list@.len() - i,
    {
        if check_written(&list[i]) {
            assert(is_written(list@[i as int]));
            return true;
        }
        i = i + 1;
    }
    false
}

/// How grave it is what a token permits.
pub open spec fn gitea_severity(user: GiteaUser, repos: Seq<GiteaRepo>) -> Severity {
    if user.is_admin {
        Severity::Critical
    } else if some_administered(repos) {
        Severity::High
    } else if some_written(repos) {
        Severity::Medium
    } else {
        Severity::Low
    }
}

pub fn derive_severity(user: &GiteaUser, repos: &Vec<GiteaRepo>) -> (severity: Severity)
    ensures
        severity == gitea_severity(*user, repos@),
{
    if user.is_admin {
        Severity::Critical
    } else if any_administered(repos) {
        Severity::High
    } else if any_written(repos) {
        Severity::Medium
    } else {
        Severity::Low
    }
}

/// The kind of a user.
pub open spec fn user_kind(user: GiteaUser) -> Seq<char> {
    if user.is_admin {
        "admin"@
    } else {
        "user"@
    }
}

/// What is told of a token and its user.
pub open spec fn gitea_details(user: GiteaUser) -> AccessTokenDetailsView {
    AccessTokenDetailsView {
        name: Some(text_else(filled_text(opt_text(user.full_name)), user.login@)),
        username: Some(user.login@),
        account_type: Some(user_kind(user)),
        email: filled_text(opt_text(user.email)),
        url: filled_text(opt_text(user.avatar_url)),
        created_at: opt_text(user.created),
        user_id: Some(user.login@),
        ..empty_access_token_details()
    }
}

/// What a Gitea token gives access to.
pub open spec fn gitea_result(
    user: GiteaUser,
    orgs: Seq<GiteaOrg>,
    repos: Seq<GiteaRepo>,
) -> AccessMapResultView {
    let start = if user.is_admin {
        filed(empty_permission_summary(), PermissionClass::Admin, "site:admin"@)
    } else {
        empty_permission_summary()
    };
    let found = orgs_upto(orgs, orgs.len() as int) + repos_upto(repos, repos.len() as int);
    let notes = if user.is_admin {
        seq!["Token belongs to a Gitea site administrator"@]
    } else {
        Seq::empty()
    };
    plain_result(
        "gitea"@,
        AccessSummaryView {
            id: user.login@,
            access_type: user_kind(user),
            project: None,
            tenant: None,
            account_id: None,
        },
        if user.is_admin {
            seq![binding("site_admin"@, "gitea"@, seq!["site:admin"@])]
        } else {
            Seq::empty()
        },
        sorted_summary(with_repos(start, repos, repos.len() as int)),
        if repos.len() == 0 {
            found.push(
                exposure(
                    "account"@,
                    user.login@,
                    Seq::empty(),
                    Severity::Low,
                    "Gitea account associated with the token"@,
                ),
            )
        } else {
            found
        },
        gitea_severity(user, repos),
        if repos.len() == 0 {
            notes.push("Token did not enumerate any repositories"@)
        } else {
            notes
        },
        Some(gitea_details(user)),
    )
}

fn describe_user(user: &GiteaUser) -> (kind: &'static str)
    ensures
        kind@ == user_kind(*user),
{
    if user.is_admin {
        "admin"
    } else {
        "user"
    }
}

fn detail_token(user: &GiteaUser) -> (details: AccessTokenDetails)
    ensures
        details@ == gitea_details(*user),
{
    let mut details = AccessTokenDetails::default();
    details.name = Some(unwrap_text(&keep_filled(&user.full_name), user.login.as_str()));
    details.username = Some(user.login.clone());
    details.account_type = Some(describe_user(user).to_owned());
    details.email = keep_filled(&user.email);
    details.url = keep_filled(&user.avatar_url);
    details.created_at = copy_opt(&user.created);
    details.user_id = Some(user.login.clone());
    details
}

/// Maps a Gitea token from what the service answered to it. A listing of organizations that failed
/// is empty.
pub fn map_access_from_token(
    user: &GiteaUser,
    orgs: &Vec<GiteaOrg>,
    repos: &Vec<GiteaRepo>,
) -> (result: AccessMapResult)
    ensures
        result@ == gitea_result(*user, orgs@, repos@),
{
    let mut roles: Vec<RoleBinding> = no_views();
    let mut permissions = PermissionSummary::default();
    let mut risk_notes = no_texts();
    if user.is_admin {
        push_view(
            &mut roles,
            RoleBinding::new("site_admin", "gitea", one_text("site:admin")),
        );
        file_permission(&mut permissions, PermissionClass::Admin, "site:admin".to_owned());
        push_text(&mut risk_notes, "Token belongs to a Gitea site administrator".to_owned());
    }
    file_repos(&mut permissions, repos);
    sort_permission_summary(&mut permissions);
    let mut resources: Vec<ResourceExposure> = no_views();
    add_orgs(&mut resources, orgs);
    add_repos(&mut resources, repos);
    let severity = derive_severity(user, repos);
    if repos.len() == 0 {
        push_view(
            &mut resources,
            ResourceExposure::new(
                "account",
                user.login.as_str(),
                no_texts(),
                Severity::Low,
                "Gitea account associated with the token",
            ),
        );
        push_text(&mut risk_notes, "Token did not enumerate any repositories".to_owned());
    }
    let ghost wanted = gitea_result(*user, orgs@, repos@);
    assert(views(roles@) =~= wanted.roles);
    assert(views(resources@) =~= wanted.resources);
    assert(texts(risk_notes@) =~= wanted.risk_notes);
    let details = detail_token(user);
    build_result(
        "gitea",
        AccessSummary {
            id: user.login.clone(),
            access_type: describe_user(user).to_owned(),
            project: None,
            tenant: None,
            account_id: None,
        },
        roles,
        permissions,
        resources,
        severity,
        risk_notes,
        Some(details),
    )
}

proof fn lemma_repos_len(list: Seq<GiteaRepo>, n: int)
    requires
        0 <= n,
    ensures
        repos_upto(list, n).len() == n,
    decreases n,
{
    if n > 0 {
        lemma_repos_len(list, n - 1);
    }
}

/// The result of a token always names a resource, if only its account.
pub proof fn lemma_some_resource_is_named(user: GiteaUser, orgs: Seq<GiteaOrg>, repos: Seq<GiteaRepo>)
    ensures
        gitea_result(user, orgs, repos).resources.len() > 0,
{
    lemma_repos_len(repos, repos.len() as int);
}

proof fn lemma_orgs_listed(list: Seq<GiteaOrg>, n: int)
    requires
        0 <= n <= list.len(),
    ensures
        orgs_upto(list, n).len() == n,
        forall|k: int| 0 <= k < n ==> #[trigger] orgs_upto(list, n)[k] == org_exposure(list[k]),
    decreases n,
{
    if n > 0 {
        lemma_orgs_listed(list, n - 1);
    }
}

proof fn lemma_repos_listed(list: Seq<GiteaRepo>, n: int)
    requires
        0 <= n <= list.len(),
    ensures
        repos_upto(list, n).len() == n,
        forall|k: int| 0 <= k < n ==> #[trigger] repos_upto(list, n)[k] == repo_exposure(list[k]),
    decreases n,
{
    if n > 0 {
        lemma_repos_listed(list, n - 1);
    }
}

proof fn lemma_repos_filed(summary: PermissionSummaryView, list: Seq<GiteaRepo>, n: int, k: int)
    requires
        0 <= n <= list.len(),
    ensures
        forall|held: Seq<char>| #[trigger]
            summary.admin.contains(held) ==> with_repos(summary, list, n).admin.contains(held),
        0 <= k < n && repo_rights(list[k]).admin ==> with_repos(summary, list, n).admin.contains(
            "repo:admin"@,
        ),
        0 <= k < n && repo_rights(list[k]).push && !repo_rights(list[k]).admin ==> with_repos(
            summary,
            list,
            n,
        ).risky.contains("repo:write"@),
    decreases n,
{
    if n > 0 {
        lemma_repos_filed(summary, list, n - 1, k);
        let before = with_repos(summary, list, n - 1);
        let now = with_repos(summary, list, n);
        assert forall|held: Seq<char>| #[trigger] before.admin.contains(held) implies now.admin.contains(
            held,
        ) by {
            let m = choose|m: int| 0 <= m < before.admin.len() && before.admin[m] == held;
            assert(now.admin[m] == held);
        }
        assert forall|held: Seq<char>| #[trigger] before.risky.contains(held) implies now.risky.contains(
            held,
        ) by {
            let m = choose|m: int| 0 <= m < before.risky.len() && before.risky[m] == held;
            assert(now.risky[m] == held);
        }
        if k == n - 1 {
            if repo_rights(list[k]).admin {
                assert(now.admin[before.admin.len() as int] == "repo:admin"@);
            } else if repo_rights(list[k]).push {
                assert(now.risky[before.risky.len() as int] == "repo:write"@);
            }
        }
    }
}

/// A site administrator is critical, whatever the repositories are; a repository that is administered
/// makes a token high at least, one that can be written to medium at least, and without any of these it
/// is low. Every organization and every repository is reported, a repository under its full name with
/// each right to it and at the risk of the strongest.
pub proof fn lemma_strongest_right_decides(user: GiteaUser, orgs: Seq<GiteaOrg>, repos: Seq<GiteaRepo>, k: int)
    ensures
        ({
            let result = gitea_result(user, orgs, repos);
            &&& user.is_admin <==> result.severity == Severity::Critical
            &&& user.is_admin ==> result.permissions.admin.contains("site:admin"@)
                && result.identity.access_type == "admin"@
            &&& result.identity.id == user.login@
            &&& 0 <= k < repos.len() && repos[k].permissions is Some ==> {
                let rights = repos[k].permissions->0;
                let resource = result.resources[orgs.len() + k];
                &&& resource.name == repos[k].full_name@
                &&& rights.admin ==> (result.severity == Severity::High || result.severity
                    == Severity::Critical) && resource.risk == "high"@ && resource.permissions.contains(
                    "repo:admin"@,
                ) && result.permissions.admin.contains("repo:admin"@)
                &&& rights.push ==> result.severity != Severity::Low && resource.permissions.contains(
                    "repo:write"@,
                )
                &&& rights.push && !rights.admin ==> resource.risk == "medium"@
                    && result.permissions.risky.contains("repo:write"@)
                &&& rights.pull ==> resource.permissions.contains("repo:read"@)
                &&& !rights.admin && !rights.push ==> resource.risk == "low"@
            }
            &&& 0 <= k < orgs.len() && orgs[k].username is Some ==> result.resources[k].name
                == orgs[k].username->0@
            &&& (forall|j: int|
                0 <= j < repos.len() ==> (#[trigger] repos[j]).permissions is None || (
                !repos[j].permissions->0.admin && !repos[j].permissions->0.push)) && !user.is_admin
                ==> result.severity == Severity::Low
        }),
{
    let start = if user.is_admin {
        filed(empty_permission_summary(), PermissionClass::Admin, "site:admin"@)
    } else {
        empty_permission_summary()
    };
    let raw = with_repos(start, repos, repos.len() as int);
    lemma_orgs_listed(orgs, orgs.len() as int);
    lemma_repos_listed(repos, repos.len() as int);
    lemma_repos_filed(start, repos, repos.len() as int, k);
    lemma_sorted_summary(raw, PermissionClass::Admin);
    lemma_sorted_summary(raw, PermissionClass::Risky);
    let sorted = sorted_summary(raw);
    assert(class_list(sorted, PermissionClass::Admin) == sorted.admin);
    assert(class_list(sorted, PermissionClass::Risky) == sorted.risky);
    assert(class_list(raw, PermissionClass::Admin) == raw.admin);
    assert(class_list(raw, PermissionClass::Risky) == raw.risky);
    if user.is_admin {
        assert(start.admin[0] == "site:admin"@);
        assert(start.admin.contains("site:admin"@));
        assert(class_list(raw, PermissionClass::Admin).contains("site:admin"@));
        assert(class_list(sorted, PermissionClass::Admin).contains("site:admin"@));
    }
    if 0 <= k < repos.len() && repos[k].permissions is Some {
        let rights = repos[k].permissions->0;
        assert(is_administered(repos[k]) ==> some_administered(repos));
        assert(is_written(repos[k]) ==> some_written(repos));
        let names = right_names(rights);
        if rights.admin {
            assert(names[0] == "repo:admin"@);
            assert(class_list(raw, PermissionClass::Admin).contains("repo:admin"@));
            assert(class_list(sorted, PermissionClass::Admin).contains("repo:admin"@));
        }
        if rights.push {
            let at: int = if rights.admin { 1 } else { 0 };
            assert(names[at] == "repo:write"@);
            if !rights.admin {
                assert(class_list(raw, PermissionClass::Risky).contains("repo:write"@));
                assert(class_list(sorted, PermissionClass::Risky).contains("repo:write"@));
            }
        }
        if rights.pull {
            assert(names[names.len() - 1] == "repo:read"@);
        }
    }
}

} // verus!
