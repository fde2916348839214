//! GitHub tokens.

use vstd::prelude::*;
use crate::keyed::{keyed, keyed_pairs};
use crate::mapping::{build_recommendations, recommendations};
use crate::model::{
    binding, empty_permission_summary, exposure, no_views, pairs, push_view, views, AccessMapResult,
    AccessMapResultView, AccessSummary, AccessSummaryView, AccessTokenDetails,
    AccessTokenDetailsView, PermissionSummary, PermissionSummaryView, ResourceExposure,
    ResourceExposureView, RoleBinding, RoleBindingView, Severity,
};
use crate::order::{in_order, lemma_in_order, sort_dedup};
use crate::permissions::{
    class_list, file_permission, filed, lemma_filed, lemma_sorted_classes_stay_filled,
    lemma_sorted_summary, sort_permission_summary, sorted_summary, PermissionClass,
};
use crate::text::{
    any_holds, bare_text, begins, cat2, cat3, cat4, comma_items, contains, copy_texts, decimal,
    either, filled_text, holds, is_one_of, keep_bare, keep_filled, lowered, no_texts, opt_text,
    or_text, push_text, slices, some_hold, split_commas, stands_at, starts_with, str_eq, texts,
    to_lowercase, trim, trimmed, u64_text, unwrap_text,
};

verus! {

pub const PER_PAGE: usize = 100;

/// A GitHub account.
#[derive(Debug)]
pub struct GitHubUser {
    pub login: String,
    pub name: Option<String>,
    pub email: Option<String>,
    pub company: Option<String>,
    pub location: Option<String>,
    pub html_url: Option<String>,
    pub kind: String,
}

/// What a token may do in a repository.
#[derive(Clone, Copy, Debug, PartialEq, Eq, Structural)]
pub struct GitHubRepoPermissions {
    pub admin: bool,
    pub push: bool,
    pub pull: bool,
}

/// A repository.
#[derive(Debug)]
pub struct GitHubRepo {
    pub full_name: String,
    pub private: bool,
    pub permissions: Option<GitHubRepoPermissions>,
}

/// A membership in an organization.
#[derive(Debug)]
pub struct GitHubOrgMembership {
    pub organization: String,
    pub role: String,
    pub state: String,
}

/// A GitHub App installation, with the permissions that it has.
#[derive(Debug)]
pub struct GitHubInstallation {
    pub id: u64,
    pub app_slug: Option<String>,
    pub permissions: Vec<(String, String)>,
    pub account: Option<String>,
}

/// What GitHub answered. A listing that failed holds nothing.
#[derive(Debug)]
pub struct GitHubReplies {
    pub user: GitHubUser,
    /// The `x-oauth-scopes` header.
    pub scopes: Option<String>,
    /// The `github-authentication-token-expiration` header.
    pub expiration: Option<String>,
    /// The `github-authentication-token-type` header.
    pub token_type: Option<String>,
    pub installations: Vec<GitHubInstallation>,
    /// The repositories of all installations, one after the other.
    pub installed_repos: Vec<GitHubRepo>,
    /// The repositories that the user can reach.
    pub repos: Vec<GitHubRepo>,
    pub memberships: Vec<GitHubOrgMembership>,
}

/// What is said of a user lookup that was refused.
pub fn user_lookup_failed(status: &str) -> (error: String)
    ensures
        error@ == "GitHub access-map: user lookup failed with HTTP "@ + status@,
{
    cat2("GitHub access-map: user lookup failed with HTTP ", status)
}

/// Whether a token belongs to a GitHub App.
pub open spec fn of_app(token: Seq<char>) -> bool {
    begins(token, "ghu_"@) || begins(token, "ghs_"@)
}

pub fn is_app_token(token: &str) -> (yes: bool)
    ensures
        yes == of_app(token@),
{
    starts_with(token, "ghu_") || starts_with(token, "ghs_")
}

/// Whether the repositories that the user can reach have to be listed: not where installations of
/// an App have shown some.
pub fn needs_user_repos(token: &str, installed_repos: &Vec<GitHubRepo>) -> (yes: bool)
    ensures
        yes == (!of_app(token@) || installed_repos@.len() == 0),
{
    !is_app_token(token) || installed_repos.len() == 0
}

/// The items of a header that lists them with commas.
pub open spec fn header_items(value: Option<Seq<char>>) -> Seq<Seq<char>> {
    match value {
        Some(text) => comma_items(text),
        None => Seq::empty(),
    }
}

pub fn parse_csv_header(value: &Option<String>) -> (items: Vec<String>)
    ensures
        texts(items@) == header_items(opt_text(*value)),
{
    match value {
        Some(text) => split_commas(text.as_str()),
        None => no_texts(),
    }
}

/// The permissions of a GitHub App that concern the user and no repository.
pub open spec fn user_level_permissions() -> Seq<Seq<char>> {
    seq![
        "blocking"@,
        "codespace_user_secrets"@,
        "email"@,
        "followers"@,
        "git_ssh_keys"@,
        "gpg_keys"@,
        "interaction_limits"@,
        "plan"@,
        "profile"@,
        "ssh_signing_keys"@,
        "starring"@,
        "watching"@,
    ]
}

fn is_user_level(name: &str) -> (yes: bool)
    ensures
        yes == user_level_permissions().contains(name@),
{
    let list: [&str; 12] = [
        "blocking",
        "codespace_user_secrets",
        "email",
        "followers",
        "git_ssh_keys",
        "gpg_keys",
        "interaction_limits",
        "plan",
        "profile",
        "ssh_signing_keys",
        "starring",
        "watching",
    ];
    assert(slices(list@) =~= user_level_permissions());
    is_one_of(&list, name)
}

/// Those of the first `n` permissions that concern the user, or those that do not.
pub open spec fn of_level(list: Seq<(Seq<char>, Seq<char>)>, user: bool, n: int) -> Seq<
    (Seq<char>, Seq<char>),
>
    decreases n,
{
    if n <= 0 {
        Seq::empty()
    } else if user_level_permissions().contains(list[n - 1].0) == user {
        of_level(list, user, n - 1).push(list[n - 1])
    } else {
        of_level(list, user, n - 1)
    }
}

/// The permissions of an installation on repositories, or those on the user, by name.
pub open spec fn permissions_of_level(perms: Seq<(Seq<char>, Seq<char>)>, user: bool) -> Seq<
    (Seq<char>, Seq<char>),
> {
    of_level(keyed(perms), user, keyed(perms).len() as int)
}

/// Parts the permissions of an installation into those on repositories and those on the user.
pub fn categorize_installation_permissions(perms: &Vec<(String, String)>) -> (parts: (
    Vec<(String, String)>,
    Vec<(String, String)>,
))
    ensures
        pairs(parts.0@) == permissions_of_level(pairs(perms@), false),
        pairs(parts.1@) == permissions_of_level(pairs(perms@), true),
{
    let sorted = keyed_pairs(perms);
    let mut repo_perms: Vec<(String, String)> = Vec::new();
    let mut user_perms: Vec<(String, String)> = Vec::new();
    let mut i: usize = 0;
    assert(pairs(repo_perms@) =~= Seq::<(Seq<char>, Seq<char>)>::empty());
    assert(pairs(user_perms@) =~= Seq::<(Seq<char>, Seq<char>)>::empty());
    while i < sorted.len()
        invariant
            i <= sorted@.len(),
            pairs(repo_perms@) == of_level(pairs(sorted@), false, i as int),
            pairs(user_perms@) == of_level(pairs(sorted@), true, i as int),
        decreases sorted@.len() - i,
    {
        let ghost repo_before = pairs(repo_perms@);
        let ghost user_before = pairs(user_perms@);
        if is_user_level(sorted[i].0.as_str()) {
            user_perms.push((sorted[i].0.clone(), sorted[i].1.clone()));
            assert(pairs(user_perms@) =~= user_before.push(pairs(sorted@)[i as int]));
        } else {
            repo_perms.push((sorted[i].0.clone(), sorted[i].1.clone()));
            assert(pairs(repo_perms@) =~= repo_before.push(pairs(sorted@)[i as int]));
        }
        i = i + 1;
    }
    (repo_perms, user_perms)
}

/// How a level of access is shown.
pub open spec fn level_label(level: Seq<char>) -> Seq<char> {
    if level == "admin"@ {
        "ADMIN"@
    } else if level == "write"@ {
        "READ_WRITE"@
    } else if level == "read"@ {
        "READ_ONLY"@
    } else {
        level
    }
}

pub fn permission_to_label(level: &str) -> (label: String)
    ensures
        label@ == level_label(level@),
{
    if str_eq(level, "admin") {
        "ADMIN".to_owned()
    } else if str_eq(level, "write") {
        "READ_WRITE".to_owned()
    } else if str_eq(level, "read") {
        "READ_ONLY".to_owned()
    } else {
        level.to_owned()
    }
}

/// Permissions with their levels, as they are shown.
pub open spec fn labelled(list: Seq<(Seq<char>, Seq<char>)>) -> Seq<Seq<char>> {
    list.map_values(|entry: (Seq<char>, Seq<char>)| entry.0 + ":"@ + level_label(entry.1))
}

fn label_all(list: &Vec<(String, String)>) -> (labels: Vec<String>)
    ensures
        texts(labels@) == labelled(pairs(list@)),
{
    let mut labels: Vec<String> = Vec::new();
    let mut i: usize = 0;
    while i < list.len()
        invariant
            i <= list@.len(),
            labels@.len() == i,
            forall|k: int|
                0 <= k < i ==> (#[trigger] labels@[k])@ == pairs(list@)[k].0 + ":"@ + level_label(
                    pairs(list@)[k].1,
                ),
        decreases list@.len() - i,
    {
        let label = permission_to_label(list[i].1.as_str());
        labels.push(cat3(list[i].0.as_str(), ":", label.as_str()));
        i = i + 1;
    }
    assert(texts(labels@) =~= labelled(pairs(list@)));
    labels
}

/// How an installation is called: by its account, its App or its number.
pub open spec fn installation_label(installation: GitHubInstallation) -> Seq<char> {
    match either(opt_text(installation.account), opt_text(installation.app_slug)) {
        Some(name) => name,
        None => "installation-"@ + decimal(installation.id as nat),
    }
}

/// The roles that an installation stands for: one for repositories and one for the user, as far as
/// it has permissions of the kind.
pub open spec fn installation_roles(installation: GitHubInstallation) -> Seq<RoleBindingView> {
    let label = installation_label(installation);
    let on_repos = permissions_of_level(pairs(installation.permissions@), false);
    let on_user = permissions_of_level(pairs(installation.permissions@), true);
    (if on_repos.len() > 0 {
        seq![
            binding(
                "installation_repo_permissions:"@ + label,
                "github_app"@,
                labelled(on_repos),
            ),
        ]
    } else {
        Seq::empty()
    }) + (if on_user.len() > 0 {
        seq![
            binding("installation_user_permissions:"@ + label, "github_app"@, labelled(on_user)),
        ]
    } else {
        Seq::empty()
    })
}

/// A summary with the first `n` permissions of an installation on repositories, each by its level.
pub open spec fn with_levels(
    summary: PermissionSummaryView,
    label: Seq<char>,
    list: Seq<(Seq<char>, Seq<char>)>,
    n: int,
) -> PermissionSummaryView
    decreases n,
{
    if n <= 0 {
        summary
    } else {
        let before = with_levels(summary, label, list, n - 1);
        if list[n - 1].1 == "admin"@ {
            filed(before, PermissionClass::Admin, "app:"@ + label + ":admin"@)
        } else if list[n - 1].1 == "write"@ {
            filed(before, PermissionClass::Risky, "app:"@ + label + ":write"@)
        } else {
            filed(before, PermissionClass::ReadOnly, "app:"@ + label + ":read"@)
        }
    }
}

/// The roles of the first `n` installations.
pub open spec fn roles_upto(list: Seq<GitHubInstallation>, n: int) -> Seq<RoleBindingView>
    decreases n,
{
    if n <= 0 {
        Seq::empty()
    } else {
        roles_upto(list, n - 1) + installation_roles(list[n - 1])
    }
}

/// The summary of the first `n` installations.
pub open spec fn summary_upto(list: Seq<GitHubInstallation>, n: int) -> PermissionSummaryView
    decreases n,
{
    if n <= 0 {
        empty_permission_summary()
    } else {
        let on_repos = permissions_of_level(pairs(list[n - 1].permissions@), false);
        with_levels(
            summary_upto(list, n - 1),
            installation_label(list[n - 1]),
            on_repos,
            on_repos.len() as int,
        )
    }
}

fn add_installation(
    installation: &GitHubInstallation,
    roles: &mut Vec<RoleBinding>,
    permissions: &mut PermissionSummary,
)
    ensures
        views(final(roles)@) == views(old(roles)@) + installation_roles(*installation),
        final(permissions)@ == with_levels(
            old(permissions)@,
            installation_label(*installation),
            permissions_of_level(pairs(installation.permissions@), false),
            permissions_of_level(pairs(installation.permissions@), false).len() as int,
        ),
{
    let ghost roles_before = views(roles@);
    let numbered = cat2("installation-", u64_text(installation.id).as_str());
    let label = unwrap_text(
        &or_text(&installation.account, &installation.app_slug),
        numbered.as_str(),
    );
    let (repo_perms, user_perms) = categorize_installation_permissions(&installation.permissions);
    if repo_perms.len() > 0 {
        push_view(
            roles,
            RoleBinding::new(
                cat2("installation_repo_permissions:", label.as_str()).as_str(),
                "github_app",
                label_all(&repo_perms),
            ),
        );
    }
    let ghost start = permissions@;
    let mut i: usize = 0;
    while i < repo_perms.len()
        invariant
            i <= repo_perms@.len(),
            permissions@ == with_levels(start, label@, pairs(repo_perms@), i as int),
        decreases repo_perms@.len() - i,
    {
        let level = repo_perms[i].1.as_str();
        if str_eq(level, "admin") {
            file_permission(
                permissions,
                PermissionClass::Admin,
                cat3("app:", label.as_str(), ":admin"),
            );
        } else if str_eq(level, "write") {
            file_permission(
                permissions,
                PermissionClass::Risky,
                cat3("app:", label.as_str(), ":write"),
            );
        } else {
            file_permission(
                permissions,
                PermissionClass::ReadOnly,
                cat3("app:", label.as_str(), ":read"),
            );
        }
        i = i + 1;
    }
    if user_perms.len() > 0 {
        push_view(
            roles,
            RoleBinding::new(
                cat2("installation_user_permissions:", label.as_str()).as_str(),
                "github_app",
                label_all(&user_perms),
            ),
        );
    }
    assert(views(roles@) =~= roles_before + installation_roles(*installation));
}

/// Whether a repository of a name is among a list.
pub open spec fn has_repo(list: Seq<GitHubRepo>, name: Seq<char>) -> bool {
    exists|k: int| 0 <= k < list.len() && (#[trigger] list[k]).full_name@ == name
}

/// The first `n` repositories, without those whose name occurred before.
pub open spec fn distinct_upto(list: Seq<GitHubRepo>, n: int) -> Seq<GitHubRepo>
    decreases n,
{
    if n <= 0 {
        Seq::empty()
    } else {
        let before = distinct_upto(list, n - 1);
        if has_repo(before, list[n - 1].full_name@) {
            before
        } else {
            before.push(list[n - 1])
        }
    }
}

fn is_listed(list: &Vec<GitHubRepo>, name: &str) -> (yes: bool)
    ensures
        yes == has_repo(list@, name@),
{
    let mut i: usize = 0;
    while i < list.len()
        invariant
            i <= list@.len(),
            forall|k: int| 0 <= k < i ==> (#[trigger] list@[k]).full_name@ != name@,
        decreases list@.len() - i,
    {
        if str_eq(list[i].full_name.as_str(), name) {
            return true;
        }
        i = i + 1;
    }
    false
}

/// Leaves out the repositories whose name occurred before.
pub fn distinct_repos(list: Vec<GitHubRepo>) -> (kept: Vec<GitHubRepo>)
    ensures
        kept@ == distinct_upto(list@, list@.len() as int),
{
    let ghost all = list@;
    let mut left = list;
    let mut kept: Vec<GitHubRepo> = Vec::new();
    let ghost mut i: int = 0;
    assert(all.skip(0) =~= all);
    while left.len() > 0
        invariant
            0 <= i <= all.len(),
            left@ == all.skip(i),
            kept@ == distinct_upto(all, i),
        decreases left@.len(),
    {
        let repo = left.remove(0);
        assert(repo == all[i]);
        if !is_listed(&kept, repo.full_name.as_str()) {
            kept.push(repo);
        }
        proof {
            i = i + 1;
        }
        assert(left@ =~= all.skip(i));
    }
    kept
}

/// No repository is named twice once the list is cleared, and none is lost.
pub proof fn lemma_repos_are_distinct(list: Seq<GitHubRepo>, n: int)
    requires
        0 <= n <= list.len(),
    ensures
        forall|j: int, k: int|
            0 <= j < k < distinct_upto(list, n).len() ==> (#[trigger] distinct_upto(list, n)[j]).full_name@
                != (#[trigger] distinct_upto(list, n)[k]).full_name@,
        forall|k: int| 0 <= k < n ==> has_repo(distinct_upto(list, n), (#[trigger] list[k]).full_name@),
        n > 0 ==> distinct_upto(list, n).len() > 0,
    decreases n,
{
    if n > 0 {
        lemma_repos_are_distinct(list, n - 1);
        let before = distinct_upto(list, n - 1);
        let after = distinct_upto(list, n);
        assert forall|k: int| 0 <= k < n implies has_repo(after, (#[trigger] list[k]).full_name@) by {
            if k < n - 1 {
                assert(has_repo(before, list[k].full_name@));
                let j = choose|j: int|
                    0 <= j < before.len() && (#[trigger] before[j]).full_name@ == list[k].full_name@;
                assert(after[j] == before[j]);
            } else if !has_repo(before, list[n - 1].full_name@) {
                assert(after[before.len() as int] == list[n - 1]);
            }
        }
        if !has_repo(before, list[n - 1].full_name@) {
            assert forall|j: int, k: int| 0 <= j < k < after.len() implies (
            #[trigger] after[j]).full_name@ != (#[trigger] after[k]).full_name@ by {
                if k == before.len() {
                    assert(after[j] == before[j]);
                }
            }
        }
        assert(has_repo(after, list[n - 1].full_name@));
    }
}

/// Those of the first `n` scopes that concern organizations or enterprises.
pub open spec fn org_scopes_upto(scopes: Seq<Seq<char>>, n: int) -> Seq<Seq<char>>
    decreases n,
{
    if n <= 0 {
        Seq::empty()
    } else if holds(scopes[n - 1], ":org"@) || holds(scopes[n - 1], ":enterprise"@) {
        org_scopes_upto(scopes, n - 1).push(scopes[n - 1])
    } else {
        org_scopes_upto(scopes, n - 1)
    }
}

/// The scopes that concern organizations or enterprises, in order.
pub open spec fn scopes_on_orgs(scopes: Seq<Seq<char>>) -> Seq<Seq<char>> {
    in_order(org_scopes_upto(scopes, scopes.len() as int))
}

pub fn org_scopes(scopes: &Vec<String>) -> (found: Vec<String>)
    ensures
        texts(found@) == scopes_on_orgs(texts(scopes@)),
{
    let mut found = no_texts();
    let mut i: usize = 0;
    while i < scopes.len()
        invariant
            i <= scopes@.len(),
            texts(found@) == org_scopes_upto(texts(scopes@), i as int),
        decreases scopes@.len() - i,
    {
        assert(texts(scopes@)[i as int] == scopes@[i as int]@);
        if contains(scopes[i].as_str(), ":org") || contains(scopes[i].as_str(), ":enterprise") {
            push_text(&mut found, scopes[i].clone());
        }
        i = i + 1;
    }
    sort_dedup(found)
}

/// What a token may do in an organization.
pub open spec fn org_permissions(role: Seq<char>, scopes: Seq<Seq<char>>) -> Seq<Seq<char>> {
    in_order(
        if trimmed(role).len() > 0 {
            scopes.push("org_role:"@ + trimmed(role))
        } else {
            scopes
        },
    )
}

/// How grave it is what a token may do in an organization.
pub open spec fn org_risk(permissions: Seq<Seq<char>>) -> Severity {
    if some_hold(permissions, "admin"@) {
        Severity::High
    } else if some_hold(permissions, "write"@) {
        Severity::Medium
    } else {
        Severity::Low
    }
}

/// The organizations behind the first `n` memberships: those that are active and permit something.
pub open spec fn orgs_upto(
    memberships: Seq<GitHubOrgMembership>,
    n: int,
    scopes: Seq<Seq<char>>,
) -> Seq<ResourceExposureView>
    decreases n,
{
    if n <= 0 {
        Seq::empty()
    } else {
        let before = orgs_upto(memberships, n - 1, scopes);
        let membership = memberships[n - 1];
        let permissions = org_permissions(membership.role@, scopes);
        if membership.state@ == "active"@ && permissions.len() > 0 {
            before.push(
                exposure(
                    "organization"@,
                    membership.organization@,
                    permissions,
                    org_risk(permissions),
                    "Organization membership available to the token"@,
                ),
            )
        } else {
            before
        }
    }
}

fn add_orgs(
    resources: &mut Vec<ResourceExposure>,
    memberships: &Vec<GitHubOrgMembership>,
    scopes: &Vec<String>,
)
    requires
        old(resources)@.len() == 0,
    ensures
        views(final(resources)@) == orgs_upto(
            memberships@,
            memberships@.len() as int,
            texts(scopes@),
        ),
{
    let mut i: usize = 0;
    assert(views(resources@) =~= Seq::<ResourceExposureView>::empty());
    while i < memberships.len()
        invariant
            i <= memberships@.len(),
            views(resources@) == orgs_upto(memberships@, i as int, texts(scopes@)),
        decreases memberships@.len() - i,
    {
        let membership = &memberships[i];
        if str_eq(membership.state.as_str(), "active") {
            let mut permissions = copy_texts(scopes);
            let role = trim(membership.role.as_str());
            if !role.as_str().is_empty() {
                push_text(&mut permissions, cat2("org_role:", role.as_str()));
            }
            let permissions = sort_dedup(permissions);
            if permissions.len() > 0 {
                let risk = if any_holds(&permissions, "admin") {
                    Severity::High
                } else if any_holds(&permissions, "write") {
                    Severity::Medium
                } else {
                    Severity::Low
                };
                push_view(
                    resources,
                    ResourceExposure::new(
                        "organization",
                        membership.organization.as_str(),
                        permissions,
                        risk,
                        "Organization membership available to the token",
                    ),
                );
            }
        }
        i = i + 1;
    }
}

/// What a token may do in a repository: read it, where nothing is said.
pub open spec fn repo_rights(repo: GitHubRepo) -> GitHubRepoPermissions {
    match repo.permissions {
        Some(rights) => rights,
        None => GitHubRepoPermissions { admin: false, push: false, pull: true },
    }
}

/// The names of what a token may do in a repository.
pub open spec fn rights_texts(rights: GitHubRepoPermissions) -> Seq<Seq<char>> {
    (if rights.admin {
        seq!["repo:admin"@]
    } else {
        Seq::empty()
    }) + (if rights.push {
        seq!["repo:write"@]
    } else {
        Seq::empty()
    }) + (if rights.pull {
        seq!["repo:read"@]
    } else {
        Seq::empty()
    })
}

/// The resource that stands for a repository.
pub open spec fn repo_exposure(repo: GitHubRepo) -> ResourceExposureView {
    let rights = repo_rights(repo);
    exposure(
        "repository"@,
        repo.full_name@,
        rights_texts(rights),
        if rights.admin {
            Severity::High
        } else if rights.push {
            Severity::Medium
        } else {
            Severity::Low
        },
        if repo.private {
            "Accessible private repository"@
        } else {
            "Accessible public repository"@
        },
    )
}

/// The resources that stand for repositories.
pub open spec fn repo_exposures(list: Seq<GitHubRepo>) -> Seq<ResourceExposureView> {
    list.map_values(|repo: GitHubRepo| repo_exposure(repo))
}

/// A summary with the strongest right in each of the first `n` repositories.
pub open spec fn with_repos(
    summary: PermissionSummaryView,
    list: Seq<GitHubRepo>,
    n: int,
) -> PermissionSummaryView
    decreases n,
{
    if n <= 0 {
        summary
    } else {
        let before = with_repos(summary, list, n - 1);
        let rights = repo_rights(list[n - 1]);
        if rights.admin {
            filed(before, PermissionClass::Admin, "repo:admin"@)
        } else if rights.push {
            filed(before, PermissionClass::Risky, "repo:write"@)
        } else if rights.pull {
            filed(before, PermissionClass::ReadOnly, "repo:read"@)
        } else {
            before
        }
    }
}

fn expose_repo(repo: &GitHubRepo) -> (resource: ResourceExposure)
    ensures
        resource@ == repo_exposure(*repo),
{
    let rights = match repo.permissions {
        Some(rights) => rights,
        None => GitHubRepoPermissions { admin: false, push: false, pull: true },
    };
    let mut names = no_texts();
    if rights.admin {
        push_text(&mut names, "repo:admin".to_owned());
    }
    if rights.push {
        push_text(&mut names, "repo:write".to_owned());
    }
    if rights.pull {
        push_text(&mut names, "repo:read".to_owned());
    }
    assert(texts(names@) =~= rights_texts(rights));
    let risk = if rights.admin {
        Severity::High
    } else if rights.push {
        Severity::Medium
    } else {
        Severity::Low
    };
    let reason: &str = if repo.private {
        "Accessible private repository"
    } else {
        "Accessible public repository"
    };
    ResourceExposure::new("repository", repo.full_name.as_str(), names, risk, reason)
}

fn add_repos(
    resources: &mut Vec<ResourceExposure>,
    permissions: &mut PermissionSummary,
    repos: &Vec<GitHubRepo>,
)
    ensures
        views(final(resources)@) == views(old(resources)@) + repo_exposures(repos@),
        final(permissions)@ == with_repos(old(permissions)@, repos@, repos@.len() as int),
{
    let ghost before = views(resources@);
    let ghost start = permissions@;
    let ghost all = repo_exposures(repos@);
    let mut i: usize = 0;
    assert(views(resources@) =~= before + all.take(0));
    while i < repos.len()
        invariant
            i <= repos@.len(),
            all == repo_exposures(repos@),
            views(resources@) == before + all.take(i as int),
            permissions@ == with_repos(start, repos@, i as int),
        decreases repos@.len() - i,
    {
        push_view(resources, expose_repo(&repos[i]));
        let rights = match repos[i].permissions {
            Some(rights) => rights,
            None => GitHubRepoPermissions { admin: false, push: false, pull: true },
        };
        if rights.admin {
            file_permission(permissions, PermissionClass::Admin, "repo:admin".to_owned());
        } else if rights.push {
            file_permission(permissions, PermissionClass::Risky, "repo:write".to_owned());
        } else if rights.pull {
            file_permission(permissions, PermissionClass::ReadOnly, "repo:read".to_owned());
        }
        i = i + 1;
        assert(views(resources@) =~= before + all.take(i as int));
    }
    assert(all.take(repos@.len() as int) =~= all);
}

/// Whether a token is said to administer a repository.
pub open spec fn administers(repo: GitHubRepo) -> bool {
    match repo.permissions {
        Some(rights) => rights.admin,
        None => false,
    }
}

/// Whether a token is said to write to a repository.
pub open spec fn writes(repo: GitHubRepo) -> bool {
    match repo.permissions {
        Some(rights) => rights.push,
        None => false,
    }
}

/// How grave it is what a token may do in repositories.
pub open spec fn repos_severity(repos: Seq<GitHubRepo>) -> Severity {
    if exists|k: int| 0 <= k < repos.len() && administers(#[trigger] repos[k]) {
        Severity::High
    } else if exists|k: int| 0 <= k < repos.len() && writes(#[trigger] repos[k]) {
        Severity::Medium
    } else {
        Severity::Low
    }
}

pub fn derive_severity(repos: &Vec<GitHubRepo>) -> (severity: Severity)
    ensures
        severity == repos_severity(repos@),
{
    let mut severity = Severity::Low;
    let mut i: usize = 0;
    while i < repos.len()
        invariant
            i <= repos@.len(),
            forall|k: int| 0 <= k < i ==> !administers(#[trigger] repos@[k]),
            severity == if exists|k: int| 0 <= k < i && writes(#[trigger] repos@[k]) {
                Severity::Medium
            } else {
                Severity::Low
            },
        decreases repos@.len() - i,
    {
        match repos[i].permissions {
            Some(rights) => {
                if rights.admin {
                    assert(administers(repos@[i as int]));
                    return Severity::High;
                }
                if rights.push {
                    assert(writes(repos@[i as int]));
                    severity = Severity::Medium;
                }
            },
            None => {},
        }
        i = i + 1;
    }
    severity
}

/// The repositories that count: those of an App's installations, or else those of the user.
pub open spec fn repos_of(token: Seq<char>, replies: GitHubReplies) -> Seq<GitHubRepo> {
    let installed = distinct_upto(
        replies.installed_repos@,
        replies.installed_repos@.len() as int,
    );
    if of_app(token) && installed.len() > 0 {
        installed
    } else {
        replies.repos@
    }
}

/// The installations that count: none but for the token of an App.
pub open spec fn installations_of(token: Seq<char>, replies: GitHubReplies) -> Seq<
    GitHubInstallation,
> {
    if of_app(token) {
        replies.installations@
    } else {
        Seq::empty()
    }
}

/// The roles that a token has.
pub open spec fn github_roles(token: Seq<char>, replies: GitHubReplies) -> Seq<RoleBindingView> {
    let installations = installations_of(token, replies);
    let scopes = header_items(opt_text(replies.scopes));
    let roles = roles_upto(installations, installations.len() as int);
    if scopes.len() > 0 {
        roles.push(binding("token_scopes"@, "github"@, scopes))
    } else {
        roles
    }
}

/// The summary of what a token may do.
pub open spec fn github_permissions(token: Seq<char>, replies: GitHubReplies) -> PermissionSummaryView {
    let installations = installations_of(token, replies);
    let repos = repos_of(token, replies);
    sorted_summary(
        with_repos(
            summary_upto(installations, installations.len() as int),
            repos,
            repos.len() as int,
        ),
    )
}

/// The resources that a token reaches.
pub open spec fn github_resources(token: Seq<char>, replies: GitHubReplies) -> Seq<
    ResourceExposureView,
> {
    let repos = repos_of(token, replies);
    let found = orgs_upto(
        replies.memberships@,
        replies.memberships@.len() as int,
        scopes_on_orgs(header_items(opt_text(replies.scopes))),
    ) + repo_exposures(repos);
    if repos.len() == 0 {
        found.push(
            exposure(
                "account"@,
                replies.user.login@,
                Seq::empty(),
                Severity::Low,
                "GitHub account associated with the token"@,
            ),
        )
    } else {
        found
    }
}

/// The notes on a token.
pub open spec fn github_notes(token: Seq<char>, replies: GitHubReplies) -> Seq<Seq<char>> {
    let first = if repos_of(token, replies).len() == 0 {
        seq!["Token did not enumerate any repositories"@]
    } else {
        Seq::empty()
    };
    if github_roles(token, replies).len() == 0 {
        first.push(
            "GitHub did not report OAuth scopes; fine-grained tokens may omit scope headers"@,
        )
    } else {
        first
    }
}

/// What is told of a token and its user.
pub open spec fn github_details(replies: GitHubReplies) -> AccessTokenDetailsView {
    let user = replies.user;
    AccessTokenDetailsView {
        name: either(filled_text(opt_text(user.name)), Some(user.login@)),
        username: Some(user.login@),
        account_type: filled_text(Some(user.kind@)),
        company: filled_text(opt_text(user.company)),
        location: filled_text(opt_text(user.location)),
        email: filled_text(opt_text(user.email)),
        url: filled_text(opt_text(user.html_url)),
        token_type: bare_text(opt_text(replies.token_type)),
        created_at: None,
        last_used_at: None,
        expires_at: bare_text(opt_text(replies.expiration)),
        user_id: Some(
            match filled_text(opt_text(user.email)) {
                Some(email) => user.login@ + " ("@ + email + ")"@,
                None => user.login@,
            },
        ),
        scopes: header_items(opt_text(replies.scopes)),
    }
}

/// What a GitHub token gives access to.
pub open spec fn github_result(token: Seq<char>, replies: GitHubReplies) -> AccessMapResultView {
    let severity = repos_severity(repos_of(token, replies));
    AccessMapResultView {
        cloud: "github"@,
        fingerprint: None,
        identity: AccessSummaryView {
            id: replies.user.login@,
            access_type: if replies.user.kind@.len() == 0 {
                "user"@
            } else {
                lowered(replies.user.kind@)
            },
            project: None,
            tenant: None,
            account_id: None,
        },
        roles: github_roles(token, replies),
        permissions: github_permissions(token, replies),
        resources: github_resources(token, replies),
        severity,
        recommendations: recommendations(severity),
        risk_notes: github_notes(token, replies),
        token_details: Some(github_details(replies)),
        provider_metadata: None,
        mapping_error: None,
    }
}

fn detail_token(
    user: &GitHubUser,
    token_type: &Option<String>,
    expiration: &Option<String>,
    scopes: Vec<String>,
) -> (details: AccessTokenDetails)
    ensures
        details@ == (AccessTokenDetailsView {
            name: either(filled_text(opt_text(user.name)), Some(user.login@)),
            username: Some(user.login@),
            account_type: filled_text(Some(user.kind@)),
            company: filled_text(opt_text(user.company)),
            location: filled_text(opt_text(user.location)),
            email: filled_text(opt_text(user.email)),
            url: filled_text(opt_text(user.html_url)),
            token_type: bare_text(opt_text(*token_type)),
            created_at: None,
            last_used_at: None,
            expires_at: bare_text(opt_text(*expiration)),
            user_id: Some(
                match filled_text(opt_text(user.email)) {
                    Some(email) => user.login@ + " ("@ + email + ")"@,
                    None => user.login@,
                },
            ),
            scopes: texts(scopes@),
        }),
{
    let email = keep_filled(&user.email);
    let user_id = match &email {
        Some(address) => cat4(user.login.as_str(), " (", address.as_str(), ")"),
        None => user.login.clone(),
    };
    AccessTokenDetails {
        name: or_text(&keep_filled(&user.name), &Some(user.login.clone())),
        username: Some(user.login.clone()),
        account_type: keep_filled(&Some(user.kind.clone())),
        company: keep_filled(&user.company),
        location: keep_filled(&user.location),
        email,
        url: keep_filled(&user.html_url),
        token_type: keep_bare(token_type),
        created_at: None,
        last_used_at: None,
        expires_at: keep_bare(expiration),
        user_id: Some(user_id),
        scopes,
    }
}

/// Maps a GitHub token from what GitHub answered to it.
pub fn map_access_from_token(token: &str, replies: GitHubReplies) -> (result: AccessMapResult)
    ensures
        result@ == github_result(token@, replies),
{
    let ghost given = replies;
    let app = is_app_token(token);
    let oauth_scopes = parse_csv_header(&replies.scopes);
    let mut roles: Vec<RoleBinding> = no_views();
    let mut permissions = PermissionSummary::default();
    if app {
        let mut i: usize = 0;
        while i < replies.installations.len()
            invariant
                i <= replies.installations@.len(),
                views(roles@) == roles_upto(replies.installations@, i as int),
                permissions@ == summary_upto(replies.installations@, i as int),
            decreases replies.installations@.len() - i,
        {
            add_installation(&replies.installations[i], &mut roles, &mut permissions);
            i = i + 1;
        }
    }
    let installed = distinct_repos(replies.installed_repos);
    let repos = if app && installed.len() > 0 {
        installed
    } else {
        replies.repos
    };
    assert(repos@ == repos_of(token@, given));
    let mut resources: Vec<ResourceExposure> = no_views();
    add_orgs(&mut resources, &replies.memberships, &org_scopes(&oauth_scopes));
    add_repos(&mut resources, &mut permissions, &repos);
    sort_permission_summary(&mut permissions);
    let severity = derive_severity(&repos);
    if oauth_scopes.len() > 0 {
        push_view(
            &mut roles,
            RoleBinding::new("token_scopes", "github", copy_texts(&oauth_scopes)),
        );
    }
    let mut risk_notes = no_texts();
    if repos.len() == 0 {
        push_view(
            &mut resources,
            ResourceExposure::new(
                "account",
                replies.user.login.as_str(),
                no_texts(),
                Severity::Low,
                "GitHub account associated with the token",
            ),
        );
        push_text(&mut risk_notes, "Token did not enumerate any repositories".to_owned());
    }
    assert(views(resources@) =~= github_resources(token@, given));
    if roles.len() == 0 {
        push_text(
            &mut risk_notes,
            "GitHub did not report OAuth scopes; fine-grained tokens may omit scope headers".to_owned(),
        );
    }
    assert(texts(risk_notes@) =~= github_notes(token@, given));
    let access_type = if replies.user.kind.as_str().is_empty() {
        "user".to_owned()
    } else {
        to_lowercase(replies.user.kind.as_str())
    };
    AccessMapResult {
        cloud: "github".to_owned(),
        fingerprint: None,
        identity: AccessSummary {
            id: replies.user.login.clone(),
            access_type,
            project: None,
            tenant: None,
            account_id: None,
        },
        roles,
        permissions,
        resources,
        severity,
        recommendations: build_recommendations(severity),
        risk_notes,
        token_details: Some(
            detail_token(&replies.user, &replies.token_type, &replies.expiration, oauth_scopes),
        ),
        provider_metadata: None,
        mapping_error: None,
    }
}

proof fn lemma_repos_filed(
    summary: PermissionSummaryView,
    list: Seq<GitHubRepo>,
    n: int,
    k: int,
    class: PermissionClass,
    held: Seq<char>,
)
    requires
        0 <= n <= list.len(),
    ensures
        class_list(summary, class).contains(held) ==> class_list(
            with_repos(summary, list, n),
            class,
        ).contains(held),
        0 <= k < n && repo_rights(list[k]).admin ==> with_repos(summary, list, n).admin.contains(
            "repo:admin"@,
        ),
        0 <= k < n && repo_rights(list[k]).push && !repo_rights(list[k]).admin ==> with_repos(
            summary,
            list,
            n,
        ).risky.contains("repo:write"@),
    decreases n,
{
    if n > 0 {
        lemma_repos_filed(summary, list, n - 1, k, class, held);
        let before = with_repos(summary, list, n - 1);
        let now = with_repos(summary, list, n);
        lemma_filed(before, PermissionClass::Admin, "repo:admin"@);
        lemma_filed(before, PermissionClass::Risky, "repo:write"@);
        lemma_filed(before, PermissionClass::ReadOnly, "repo:read"@);
        assert(class_list(before, class).contains(held) ==> class_list(now, class).contains(held));
        assert(class_list(before, PermissionClass::Admin).contains("repo:admin"@) ==> class_list(
            now,
            PermissionClass::Admin,
        ).contains("repo:admin"@));
        assert(class_list(before, PermissionClass::Risky).contains("repo:write"@) ==> class_list(
            now,
            PermissionClass::Risky,
        ).contains("repo:write"@));
    }
}

proof fn lemma_orgs_listed(
    memberships: Seq<GitHubOrgMembership>,
    n: int,
    scopes: Seq<Seq<char>>,
    k: int,
)
    requires
        0 <= k < n <= memberships.len(),
        memberships[k].state@ == "active"@,
        trimmed(memberships[k].role@).len() > 0,
    ensures
        exists|i: int|
            0 <= i < orgs_upto(memberships, n, scopes).len() && {
                let resource = #[trigger] orgs_upto(memberships, n, scopes)[i];
                &&& resource.name == memberships[k].organization@
                &&& resource.permissions.contains("org_role:"@ + trimmed(memberships[k].role@))
                &&& trimmed(memberships[k].role@) == "admin"@ ==> resource.risk == "high"@
            },
    decreases n,
{
    let before = orgs_upto(memberships, n - 1, scopes);
    let now = orgs_upto(memberships, n, scopes);
    if k < n - 1 {
        lemma_orgs_listed(memberships, n - 1, scopes, k);
        let i = choose|i: int|
            0 <= i < before.len() && {
                let resource = #[trigger] before[i];
                &&& resource.name == memberships[k].organization@
                &&& resource.permissions.contains("org_role:"@ + trimmed(memberships[k].role@))
                &&& trimmed(memberships[k].role@) == "admin"@ ==> resource.risk == "high"@
            };
        assert(now[i] == before[i]);
    } else {
        let role = trimmed(memberships[k].role@);
        let raw = scopes.push("org_role:"@ + role);
        let permissions = org_permissions(memberships[k].role@, scopes);
        lemma_in_order(raw);
        assert(raw[scopes.len() as int] == "org_role:"@ + role);
        assert(raw.contains("org_role:"@ + role));
        assert(permissions.contains("org_role:"@ + role));
        let m = choose|m: int| 0 <= m < permissions.len() && permissions[m] == "org_role:"@ + role;
        if role == "admin"@ {
            reveal_strlit("org_role:");
            reveal_strlit("admin");
            assert(permissions[m].subrange(9, 14) =~= "admin"@);
            assert(stands_at(permissions[m], "admin"@, 9));
            assert(holds(permissions[m], "admin"@));
            assert(some_hold(permissions, "admin"@));
        }
        assert(now[before.len() as int].name == memberships[k].organization@);
    }
}

/// The strongest right in any repository decides: to administer one is high, to write to one medium at
/// least, and a token that can do neither is low. The strongest right in each repository is reported, and
/// each repository under its full name with every right that the token has in it. An active membership
/// in an organization is reported with its role, an administrator's at high risk.
pub proof fn lemma_strongest_right_decides(token: Seq<char>, replies: GitHubReplies, k: int)
    ensures
        ({
            let result = github_result(token, replies);
            let repos = repos_of(token, replies);
            &&& 0 <= k < repos.len() && repos[k].permissions is Some ==> {
                let rights = repos[k].permissions->0;
                &&& rights.admin ==> result.severity == Severity::High
                    && result.permissions.admin.contains("repo:admin"@)
                &&& rights.push ==> result.severity != Severity::Low
                &&& rights.push && !rights.admin ==> result.permissions.risky.contains("repo:write"@)
                &&& exists|i: int|
                    0 <= i < result.resources.len() && {
                        let resource = #[trigger] result.resources[i];
                        &&& resource.name == repos[k].full_name@
                        &&& rights.admin ==> resource.permissions.contains("repo:admin"@) && resource.risk
                            == "high"@
                        &&& rights.push ==> resource.permissions.contains("repo:write"@)
                        &&& rights.push && !rights.admin ==> resource.risk == "medium"@
                        &&& rights.pull ==> resource.permissions.contains("repo:read"@)
                    }
            }
            &&& (forall|j: int|
                0 <= j < repos.len() ==> (#[trigger] repos[j]).permissions is None || (
                !repos[j].permissions->0.admin && !repos[j].permissions->0.push)) ==> result.severity
                == Severity::Low
            &&& !begins(token, "ghu_"@) && !begins(token, "ghs_"@) ==> repos == replies.repos@
            &&& result.severity != Severity::Critical
            &&& result.identity.id == replies.user.login@
            &&& 0 <= k < replies.memberships@.len() && replies.memberships@[k].state@ == "active"@
                && trimmed(replies.memberships@[k].role@).len() > 0 ==> exists|i: int|
                0 <= i < result.resources.len() && (#[trigger] result.resources[i]).name
                    == replies.memberships@[k].organization@ && (trimmed(
                    replies.memberships@[k].role@,
                ) == "admin"@ ==> result.resources[i].risk == "high"@)
        }),
{
    let result = github_result(token, replies);
    let repos = repos_of(token, replies);
    let n = repos.len() as int;
    let installations = installations_of(token, replies);
    let start = summary_upto(installations, installations.len() as int);
    let raw = with_repos(start, repos, n);
    let sorted = sorted_summary(raw);
    let scopes = scopes_on_orgs(header_items(opt_text(replies.scopes)));
    let orgs = orgs_upto(replies.memberships@, replies.memberships@.len() as int, scopes);
    lemma_sorted_summary(raw, PermissionClass::Admin);
    lemma_sorted_summary(raw, PermissionClass::Risky);
    assert(class_list(raw, PermissionClass::Admin) == raw.admin);
    assert(class_list(raw, PermissionClass::Risky) == raw.risky);
    assert(class_list(sorted, PermissionClass::Admin) == sorted.admin);
    assert(class_list(sorted, PermissionClass::Risky) == sorted.risky);
    if 0 <= k < n && repos[k].permissions is Some {
        let rights = repos[k].permissions->0;
        lemma_repos_filed(start, repos, n, k, PermissionClass::Admin, "repo:admin"@);
        if rights.admin {
            assert(administers(repos[k]));
            assert(class_list(sorted, PermissionClass::Admin).contains("repo:admin"@));
        }
        if rights.push {
            assert(writes(repos[k]));
            if !rights.admin {
                assert(class_list(sorted, PermissionClass::Risky).contains("repo:write"@));
            }
        }
        let names = rights_texts(rights);
        if rights.admin {
            assert(names[0] == "repo:admin"@);
        }
        if rights.push {
            let at: int = if rights.admin { 1 } else { 0 };
            assert(names[at] == "repo:write"@);
        }
        if rights.pull {
            assert(names[names.len() - 1] == "repo:read"@);
        }
        assert(repo_exposures(repos)[k] == repo_exposure(repos[k]));
        assert(result.resources[orgs.len() + k] == repo_exposure(repos[k]));
    }
    if 0 <= k < replies.memberships@.len() && replies.memberships@[k].state@ == "active"@ && trimmed(
        replies.memberships@[k].role@,
    ).len() > 0 {
        lemma_orgs_listed(replies.memberships@, replies.memberships@.len() as int, scopes, k);
        let i = choose|i: int|
            0 <= i < orgs.len() && {
                let resource = #[trigger] orgs[i];
                &&& resource.name == replies.memberships@[k].organization@
                &&& resource.permissions.contains("org_role:"@ + trimmed(replies.memberships@[k].role@))
                &&& trimmed(replies.memberships@[k].role@) == "admin"@ ==> resource.risk == "high"@
            };
        assert(result.resources[i] == orgs[i]);
    }
}

proof fn lemma_levels_filed(
    summary: PermissionSummaryView,
    label: Seq<char>,
    list: Seq<(Seq<char>, Seq<char>)>,
    n: int,
    k: int,
    class: PermissionClass,
    held: Seq<char>,
)
    requires
        0 <= n <= list.len(),
    ensures
        class_list(summary, class).contains(held) ==> class_list(
            with_levels(summary, label, list, n),
            class,
        ).contains(held),
        0 <= k < n && list[k].1 == "admin"@ ==> with_levels(summary, label, list, n).admin.contains(
            "app:"@ + label + ":admin"@,
        ),
        0 <= k < n && list[k].1 == "write"@ ==> with_levels(summary, label, list, n).risky.contains(
            "app:"@ + label + ":write"@,
        ),
    decreases n,
{
    if n > 0 {
        lemma_levels_filed(summary, label, list, n - 1, k, class, held);
        let before = with_levels(summary, label, list, n - 1);
        let now = with_levels(summary, label, list, n);
        reveal_strlit("admin");
        reveal_strlit("write");
        assert("admin"@[0] == 'a' && "write"@[0] == 'w');
        let admin = "app:"@ + label + ":admin"@;
        let write = "app:"@ + label + ":write"@;
        lemma_filed(before, PermissionClass::Admin, admin);
        lemma_filed(before, PermissionClass::Risky, write);
        lemma_filed(before, PermissionClass::ReadOnly, "app:"@ + label + ":read"@);
        assert(class_list(before, class).contains(held) ==> class_list(now, class).contains(held));
        assert(class_list(before, PermissionClass::Admin).contains(admin) ==> class_list(
            now,
            PermissionClass::Admin,
        ).contains(admin));
        assert(class_list(before, PermissionClass::Risky).contains(write) ==> class_list(
            now,
            PermissionClass::Risky,
        ).contains(write));
    }
}

proof fn lemma_installations_filed(list: Seq<GitHubInstallation>, n: int, i: int, k: int)
    requires
        0 <= i < n <= list.len(),
        0 <= k < permissions_of_level(pairs(list[i].permissions@), false).len(),
    ensures
        ({
            let found = permissions_of_level(pairs(list[i].permissions@), false)[k];
            let label = installation_label(list[i]);
            &&& found.1 == "admin"@ ==> summary_upto(list, n).admin.contains(
                "app:"@ + label + ":admin"@,
            )
            &&& found.1 == "write"@ ==> summary_upto(list, n).risky.contains(
                "app:"@ + label + ":write"@,
            )
        }),
    decreases n,
{
    let before = summary_upto(list, n - 1);
    let on_repos = permissions_of_level(pairs(list[n - 1].permissions@), false);
    let label = installation_label(list[n - 1]);
    let own = installation_label(list[i]);
    if i < n - 1 {
        lemma_installations_filed(list, n - 1, i, k);
        lemma_levels_filed(
            before,
            label,
            on_repos,
            on_repos.len() as int,
            0,
            PermissionClass::Admin,
            "app:"@ + own + ":admin"@,
        );
        lemma_levels_filed(
            before,
            label,
            on_repos,
            on_repos.len() as int,
            0,
            PermissionClass::Risky,
            "app:"@ + own + ":write"@,
        );
    } else {
        lemma_levels_filed(
            before,
            label,
            on_repos,
            on_repos.len() as int,
            k,
            PermissionClass::Admin,
            "app:"@ + own + ":admin"@,
        );
    }
}

/// What an App may do in the repositories of an installation, whichever it is, is reported by its level:
/// to administer as administration, to write as a risk.
pub proof fn lemma_installations_are_reported(token: Seq<char>, replies: GitHubReplies, i: int, k: int)
    requires
        begins(token, "ghu_"@) || begins(token, "ghs_"@),
        0 <= i < replies.installations@.len(),
        0 <= k < permissions_of_level(pairs(replies.installations@[i].permissions@), false).len(),
    ensures
        ({
            let result = github_result(token, replies);
            let found = permissions_of_level(pairs(replies.installations@[i].permissions@), false)[k];
            let label = installation_label(replies.installations@[i]);
            &&& found.1 == "admin"@ ==> result.permissions.admin.contains("app:"@ + label + ":admin"@)
            &&& found.1 == "write"@ ==> result.permissions.risky.contains("app:"@ + label + ":write"@)
        }),
{
    let repos = repos_of(token, replies);
    let list = replies.installations@;
    let start = summary_upto(list, list.len() as int);
    let raw = with_repos(start, repos, repos.len() as int);
    let label = installation_label(list[i]);
    let admin = "app:"@ + label + ":admin"@;
    let write = "app:"@ + label + ":write"@;
    lemma_installations_filed(list, list.len() as int, i, k);
    lemma_repos_filed(start, repos, repos.len() as int, 0, PermissionClass::Admin, admin);
    lemma_repos_filed(start, repos, repos.len() as int, 0, PermissionClass::Risky, write);
    lemma_sorted_summary(raw, PermissionClass::Admin);
    lemma_sorted_summary(raw, PermissionClass::Risky);
    assert(class_list(raw, PermissionClass::Admin).contains(admin) ==> class_list(
        sorted_summary(raw),
        PermissionClass::Admin,
    ).contains(admin));
    assert(class_list(raw, PermissionClass::Risky).contains(write) ==> class_list(
        sorted_summary(raw),
        PermissionClass::Risky,
    ).contains(write));
}

} // verus!
