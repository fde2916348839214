//! Bitbucket tokens.

use vstd::prelude::*;
use crate::mapping::{build_result, plain_result};
use crate::model::{
    binding, empty_access_token_details, empty_permission_summary, exposure, no_views, push_view,
    views, AccessMapResult, AccessMapResultView, AccessSummary, AccessSummaryView,
    AccessTokenDetails, AccessTokenDetailsView, PermissionSummary, PermissionSummaryView,
    ResourceExposure, ResourceExposureView, RoleBinding, RoleBindingView, Severity,
};
use crate::permissions::{
    class_list, file_permission, filed, lemma_filed, lemma_sorted_classes_stay_filled,
    lemma_sorted_summary, sort_permission_summary, sorted_summary, PermissionClass,
};
use crate::text::{
    cat2, cat3, copy_opt, either, first_text, lowered, no_texts, one_text, opt_text, or_text,
    push_text, str_eq, text_else, text_or, texts, to_lowercase, unwrap_text,
};

verus! {

/// A user.
#[derive(Debug)]
pub struct BitbucketUser {
    pub display_name: Option<String>,
    pub username: Option<String>,
    pub nickname: Option<String>,
    pub account_id: Option<String>,
    pub uuid: Option<String>,
    pub account_type: Option<String>,
}

/// A repository.
#[derive(Debug)]
pub struct BitbucketRepo {
    pub full_name: Option<String>,
    pub is_private: bool,
    pub slug: Option<String>,
}

/// A workspace.
#[derive(Debug)]
pub struct BitbucketWorkspace {
    pub slug: Option<String>,
    pub name: Option<String>,
}

/// What a user may do in a workspace.
#[derive(Debug)]
pub struct BitbucketWorkspacePermission {
    pub permission: Option<String>,
    pub workspace: Option<BitbucketWorkspace>,
}

/// How the workspace of a membership is called.
pub open spec fn membership_name(membership: BitbucketWorkspacePermission) -> Seq<char> {
    match membership.workspace {
        Some(workspace) => text_else(
            either(opt_text(workspace.slug), opt_text(workspace.name)),
            "unknown_workspace"@,
        ),
        None => "unknown_workspace"@,
    }
}

/// What a membership permits.
pub open spec fn membership_permission(membership: BitbucketWorkspacePermission) -> Seq<char> {
    text_or(membership.permission, "member"@)
}

fn find_name(membership: &BitbucketWorkspacePermission) -> (name: String)
    ensures
        name@ == membership_name(*membership),
{
    match &membership.workspace {
        Some(workspace) => first_text(&workspace.slug, &workspace.name, "unknown_workspace"),
        None => "unknown_workspace".to_owned(),
    }
}

/// The class of what a membership permits.
pub open spec fn membership_class(permission: Seq<char>) -> PermissionClass {
    if permission == "owner"@ {
        PermissionClass::Admin
    } else if permission == "collaborator"@ {
        PermissionClass::Risky
    } else {
        PermissionClass::ReadOnly
    }
}

fn classify_membership(permission: &str) -> (class: PermissionClass)
    ensures
        class == membership_class(permission@),
{
    if str_eq(permission, "owner") {
        PermissionClass::Admin
    } else if str_eq(permission, "collaborator") {
        PermissionClass::Risky
    } else {
        PermissionClass::ReadOnly
    }
}

/// The role that a membership stands for.
pub open spec fn membership_binding(membership: BitbucketWorkspacePermission) -> RoleBindingView {
    binding(
        "workspace:"@ + membership_name(membership),
        "bitbucket"@,
        seq!["workspace:"@ + membership_permission(membership)],
    )
}

fn bind_membership(membership: &BitbucketWorkspacePermission) -> (role: RoleBinding)
    ensures
        role@ == membership_binding(*membership),
{
    let name = find_name(membership);
    let permission = unwrap_text(&membership.permission, "member");
    RoleBinding::new(
        cat2("workspace:", name.as_str()).as_str(),
        "bitbucket",
        one_text(cat2("workspace:", permission.as_str()).as_str()),
    )
}

/// The roles that stand for the first `n` memberships.
pub open spec fn membership_roles(list: Seq<BitbucketWorkspacePermission>, n: int) -> Seq<RoleBindingView>
    decreases n,
{
    if n <= 0 {
        Seq::empty()
    } else {
        membership_roles(list, n - 1).push(membership_binding(list[n - 1]))
    }
}

fn add_membership_roles(roles: &mut Vec<RoleBinding>, list: &Vec<BitbucketWorkspacePermission>)
    ensures
        views(final(roles)@) == views(old(roles)@) + membership_roles(
            list@,
            list@.len() as int,
        ),
{
    let ghost before = views(roles@);
    let mut i: usize = 0;
    assert(before =~= before + membership_roles(list@, 0));
    while i < list.len()
        invariant
            i <= list@.len(),
            views(roles@) == before + membership_roles(list@, i as int),
        decreases list@.len() - i,
    {
        push_view(roles, bind_membership(&list[i]));
        i = i + 1;
        assert(views(roles@) =~= before + membership_roles(list@, i as int));
    }
}

/// The resource that stands for a membership.
pub open spec fn membership_exposure(membership: BitbucketWorkspacePermission) -> ResourceExposureView {
    let permission = membership_permission(membership);
    exposure(
        "workspace"@,
        membership_name(membership),
        seq!["workspace:"@ + permission],
        match membership_class(permission) {
            PermissionClass::Admin => Severity::High,
            PermissionClass::Risky => Severity::Medium,
            _ => Severity::Low,
        },
        "Workspace membership with "@ + permission + " permission"@,
    )
}

fn expose_membership(membership: &BitbucketWorkspacePermission) -> (resource: ResourceExposure)
    ensures
        resource@ == membership_exposure(*membership),
{
    let name = find_name(membership);
    let permission = unwrap_text(&membership.permission, "member");
    let risk = match classify_membership(permission.as_str()) {
        PermissionClass::Admin => Severity::High,
        PermissionClass::Risky => Severity::Medium,
        _ => Severity::Low,
    };
    ResourceExposure::new(
        "workspace",
        name.as_str(),
        one_text(cat2("workspace:", permission.as_str()).as_str()),
        risk,
        cat3("Workspace membership with ", permission.as_str(), " permission").as_str(),
    )
}

/// The resources that stand for the first `n` memberships.
pub open spec fn memberships_upto(list: Seq<BitbucketWorkspacePermission>, n: int) -> Seq<ResourceExposureView>
    decreases n,
{
    if n <= 0 {
        Seq::empty()
    } else {
        memberships_upto(list, n - 1).push(membership_exposure(list[n - 1]))
    }
}

fn add_memberships(resources: &mut Vec<ResourceExposure>, list: &Vec<BitbucketWorkspacePermission>)
    ensures
        views(final(resources)@) == views(old(resources)@) + memberships_upto(
            list@,
            list@.len() as int,
        ),
{
    let ghost before = views(resources@);
    let mut i: usize = 0;
    assert(before =~= before + memberships_upto(list@, 0));
    while i < list.len()
        invariant
            i <= list@.len(),
            views(resources@) == before + memberships_upto(list@, i as int),
        decreases list@.len() - i,
    {
        push_view(resources, expose_membership(&list[i]));
        i = i + 1;
        assert(views(resources@) =~= before + memberships_upto(list@, i as int));
    }
}

/// The summary with one more membership.
pub open spec fn with_membership(
    summary: PermissionSummaryView,
    membership: BitbucketWorkspacePermission,
) -> PermissionSummaryView {
    let permission = membership_permission(membership);
    filed(summary, membership_class(permission), "workspace:"@ + permission)
}

fn file_membership(summary: &mut PermissionSummary, membership: &BitbucketWorkspacePermission)
    ensures
        final(summary)@ == with_membership(old(summary)@, *membership),
{
    let permission = unwrap_text(&membership.permission, "member");
    let class = classify_membership(permission.as_str());
    file_permission(summary, class, cat2("workspace:", permission.as_str()));
}

/// The summary with the first `n` memberships.
pub open spec fn with_memberships(summary: PermissionSummaryView, list: Seq<BitbucketWorkspacePermission>, n: int) -> PermissionSummaryView
    decreases n,
{
    if n <= 0 {
        summary
    } else {
        with_membership(with_memberships(summary, list, n - 1), list[n - 1])
    }
}

fn file_memberships(summary: &mut PermissionSummary, list: &Vec<BitbucketWorkspacePermission>)
    ensures
        final(summary)@ == with_memberships(old(summary)@, list@, list@.len() as int),
{
    let ghost start = summary@;
    let mut i: usize = 0;
    while i < list.len()
        invariant
            i <= list@.len(),
            summary@ == with_memberships(start, list@, i as int),
        decreases list@.len() - i,
    {
        file_membership(summary, &list[i]);
        i = i + 1;
    }
}

/// The resource that stands for a repository.
pub open spec fn repo_exposure(repo: BitbucketRepo) -> ResourceExposureView {
    let name = text_else(either(opt_text(repo.full_name), opt_text(repo.slug)), "unknown"@);
    if repo.is_private {
        exposure(
            "repository"@,
            name,
            seq!["repo:private"@],
            Severity::Medium,
            "Accessible private repository"@,
        )
    } else {
        exposure(
            "repository"@,
            name,
            seq!["repo:public"@],
            Severity::Low,
            "Accessible public repository"@,
        )
    }
}

fn expose_repo(repo: &BitbucketRepo) -> (resource: ResourceExposure)
    ensures
        resource@ == repo_exposure(*repo),
{
    let name = first_text(&repo.full_name, &repo.slug, "unknown");
    if repo.is_private {
        ResourceExposure::new(
            "repository",
            name.as_str(),
            one_text("repo:private"),
            Severity::Medium,
            "Accessible private repository",
        )
    } else {
        ResourceExposure::new(
            "repository",
            name.as_str(),
            one_text("repo:public"),
            Severity::Low,
            "Accessible public repository",
        )
    }
}

/// The resources that stand for the first `n` repositories.
pub open spec fn repos_upto(list: Seq<BitbucketRepo>, n: int) -> Seq<ResourceExposureView>
    decreases n,
{
    if n <= 0 {
        Seq::empty()
    } else {
        repos_upto(list, n - 1).push(repo_exposure(list[n - 1]))
    }
}

fn add_repos(resources: &mut Vec<ResourceExposure>, list: &Vec<BitbucketRepo>)
    ensures
        views(final(resources)@) == views(old(resources)@) + repos_upto(
            list@,
            list@.len() as int,
        ),
{
    let ghost before = views(resources@);
    let mut i: usize = 0;
    assert(before =~= before + repos_upto(list@, 0));
    while i < list.len()
        invariant
            i <= list@.len(),
            views(resources@) == before + repos_upto(list@, i as int),
        decreases list@.len() - i,
    {
        push_view(resources, expose_repo(&list[i]));
        i = i + 1;
        assert(views(resources@) =~= before + repos_upto(list@, i as int));
    }
}

/// The summary with one more repository.
pub open spec fn with_repo(summary: PermissionSummaryView, repo: BitbucketRepo) -> PermissionSummaryView {
    if repo.is_private {
        filed(summary, PermissionClass::Risky, "repo:private"@)
    } else {
        filed(summary, PermissionClass::ReadOnly, "repo:public"@)
    }
}

fn file_repo(summary: &mut PermissionSummary, repo: &BitbucketRepo)
    ensures
        final(summary)@ == with_repo(old(summary)@, *repo),
{
    if repo.is_private {
        file_permission(summary, PermissionClass::Risky, "repo:private".to_owned());
    } else {
        file_permission(summary, PermissionClass::ReadOnly, "repo:public".to_owned());
    }
}

/// The summary with the first `n` repositories.
pub open spec fn with_repos(summary: PermissionSummaryView, list: Seq<BitbucketRepo>, n: int) -> PermissionSummaryView
    decreases n,
{
    if n <= 0 {
        summary
    } else {
        with_repo(with_repos(summary, list, n - 1), list[n - 1])
    }
}

fn file_repos(summary: &mut PermissionSummary, list: &Vec<BitbucketRepo>)
    ensures
        final(summary)@ == with_repos(old(summary)@, list@, list@.len() as int),
{
    let ghost start = summary@;
    let mut i: usize = 0;
    while i < list.len()
        invariant
            i <= list@.len(),
            summary@ == with_repos(start, list@, i as int),
        decreases list@.len() - i,
    {
        file_repo(summary, &list[i]);
        i = i + 1;
    }
}

/// Whether a membership is that of an owner.
pub open spec fn is_owner(membership: BitbucketWorkspacePermission) -> bool {
    opt_text(membership.permission) == Some("owner"@)
}

fn check_owner(membership: &BitbucketWorkspacePermission) -> (yes: bool)
    ensures
        yes == is_owner(*membership),
{
    match &membership.permission {
        Some(permission) => str_eq(permission.as_str(), "owner"),
        None => false,
    }
}

/// Whether one of the memberships is that of an owner.
pub open spec fn some_owner(list: Seq<BitbucketWorkspacePermission>) -> bool {
    exists|k: int| 0 <= k < list.len() && is_owner(#[trigger] list[k])
}

fn any_owner(list: &Vec<BitbucketWorkspacePermission>) -> (yes: bool)
    ensures
        yes == some_owner(list@),
{
    let mut i: usize = 0;
    while i < list.len()
        invariant
            i <= list@.len(),
            forall|k: int| 0 <= k < i ==> !is_owner(#[trigger] list@[k]),
        decreases list@.len() - i,
    {
        if check_owner(&list[i]) {
            assert(is_owner(list@[i as int]));
            return true;
        }
        i = i + 1;
    }
    false
}

/// Whether a membership is that of a collaborator.
pub open spec fn is_collaborator(membership: BitbucketWorkspacePermission) -> bool {
    opt_text(membership.permission) == Some("collaborator"@)
}

fn check_collaborator(membership: &BitbucketWorkspacePermission) -> (yes: bool)
    ensures
        yes == is_collaborator(*membership),
{
    match &membership.permission {
        Some(permission) => str_eq(permission.as_str(), "collaborator"),
        None => false,
    }
}

/// Whether one of the memberships is that of a collaborator.
pub open spec fn some_collaborator(list: Seq<BitbucketWorkspacePermission>) -> bool {
    exists|k: int| 0 <= k < list.len() && is_collaborator(#[trigger] list[k])
}

fn any_collaborator(list: &Vec<BitbucketWorkspacePermission>) -> (yes: bool)
    ensures
        yes == some_collaborator(list@),
{
    let mut i: usize = 0;
    while i < list.len()
        invariant
            i <= list@.len(),
            forall|k: int| 0 <= k < i ==> !is_collaborator(#[trigger] list@[k]),
        decreases list@.len() - i,
    {
        if check_collaborator(&list[i]) {
            assert(is_collaborator(list@[i as int]));
            return true;
        }
        i = i + 1;
    }
    false
}

/// Whether a repository is private.
pub open spec fn is_hidden(repo: BitbucketRepo) -> bool {
    repo.is_private
}

fn check_hidden(repo: &BitbucketRepo) -> (yes: bool)
    ensures
        yes == is_hidden(*repo),
{
    repo.is_private
}

/// Whether one of the repositories is private.
pub open spec fn some_hidden(list: Seq<BitbucketRepo>) -> bool {
    exists|k: int| 0 <= k < list.len() && is_hidden(#[trigger] list[k])
}

fn any_hidden(list: &Vec<BitbucketRepo>) -> (yes: bool)
    ensures
        yes == some_hidden(list@),
{
    let mut i: usize = 0;
    while i < list.len()
        invariant
            i <= list@.len(),
            forall|k: int| 0 <= k < i ==> !is_hidden(#[trigger] list@[k]),
        decreases list@.len() - i,
    {
        if check_hidden(&list[i]) {
            assert(is_hidden(list@[i as int]));
            return true;
        }
        i = i + 1;
    }
    false
}

/// How grave it is what a token shows.
pub open spec fn bitbucket_severity(
    memberships: Seq<BitbucketWorkspacePermission>,
    repos: Seq<BitbucketRepo>,
) -> Severity {
    if some_owner(memberships) {
        Severity::High
    } else if some_hidden(repos) || some_collaborator(memberships) {
        Severity::Medium
    } else {
        Severity::Low
    }
}

pub fn derive_severity(
    workspace_perms: &Vec<BitbucketWorkspacePermission>,
    repos: &Vec<BitbucketRepo>,
) -> (severity: Severity)
    ensures
        severity == bitbucket_severity(workspace_perms@, repos@),
{
    if any_owner(workspace_perms) {
        Severity::High
    } else if any_hidden(repos) || any_collaborator(workspace_perms) {
        Severity::Medium
    } else {
        Severity::Low
    }
}

/// How a user is called.
pub open spec fn bitbucket_user(user: BitbucketUser) -> Seq<char> {
    text_else(either(opt_text(user.username), opt_text(user.nickname)), "bitbucket_user"@)
}

/// The resources that a token shows, or its account where it shows none.
pub open spec fn bitbucket_resources(
    user: BitbucketUser,
    memberships: Seq<BitbucketWorkspacePermission>,
    repos: Seq<BitbucketRepo>,
) -> Seq<ResourceExposureView> {
    if memberships.len() == 0 && repos.len() == 0 {
        seq![
            exposure(
                "account"@,
                bitbucket_user(user),
                Seq::empty(),
                Severity::Low,
                "Bitbucket account associated with the token"@,
            ),
        ]
    } else {
        memberships_upto(memberships, memberships.len() as int) + repos_upto(
            repos,
            repos.len() as int,
        )
    }
}

/// What is told of a token and its user.
pub open spec fn bitbucket_details(user: BitbucketUser) -> AccessTokenDetailsView {
    AccessTokenDetailsView {
        name: opt_text(user.display_name),
        username: either(opt_text(user.username), opt_text(user.nickname)),
        account_type: opt_text(user.account_type),
        url: match user.username {
            Some(name) => Some("https://bitbucket.org/"@ + name@ + "/"@),
            None => None,
        },
        user_id: either(opt_text(user.account_id), opt_text(user.uuid)),
        ..empty_access_token_details()
    }
}

/// What a Bitbucket token gives access to.
pub open spec fn bitbucket_result(
    user: BitbucketUser,
    memberships: Seq<BitbucketWorkspacePermission>,
    repos: Seq<BitbucketRepo>,
) -> AccessMapResultView {
    plain_result(
        "bitbucket"@,
        AccessSummaryView {
            id: bitbucket_user(user),
            access_type: lowered(text_or(user.account_type, "user"@)),
            project: None,
            tenant: None,
            account_id: either(opt_text(user.account_id), opt_text(user.uuid)),
        },
        membership_roles(memberships, memberships.len() as int),
        sorted_summary(
            with_repos(
                with_memberships(
                    empty_permission_summary(),
                    memberships,
                    memberships.len() as int,
                ),
                repos,
                repos.len() as int,
            ),
        ),
        bitbucket_resources(user, memberships, repos),
        bitbucket_severity(memberships, repos),
        if memberships.len() == 0 && repos.len() == 0 {
            seq!["Token did not enumerate any repositories or workspaces"@]
        } else {
            Seq::empty()
        },
        Some(bitbucket_details(user)),
    )
}

fn detail_token(user: &BitbucketUser) -> (details: AccessTokenDetails)
    ensures
        details@ == bitbucket_details(*user),
{
    let mut details = AccessTokenDetails::default();
    details.name = copy_opt(&user.display_name);
    details.username = or_text(&user.username, &user.nickname);
    details.account_type = copy_opt(&user.account_type);
    match &user.username {
        Some(name) => {
            details.url = Some(cat3("https://bitbucket.org/", name.as_str(), "/"));
        },
        None => {},
    }
    details.user_id = or_text(&user.account_id, &user.uuid);
    details
}

/// Maps a Bitbucket token from what the service answered to it. A listing of memberships that
/// failed is empty.
pub fn map_access_from_token(
    user: &BitbucketUser,
    workspace_perms: &Vec<BitbucketWorkspacePermission>,
    repos: &Vec<BitbucketRepo>,
) -> (result: AccessMapResult)
    ensures
        result@ == bitbucket_result(*user, workspace_perms@, repos@),
{
    let username = first_text(&user.username, &user.nickname, "bitbucket_user");
    let mut roles: Vec<RoleBinding> = no_views();
    add_membership_roles(&mut roles, workspace_perms);
    assert(views(roles@) =~= membership_roles(workspace_perms@, workspace_perms@.len() as int));
    let mut resources: Vec<ResourceExposure> = no_views();
    add_memberships(&mut resources, workspace_perms);
    add_repos(&mut resources, repos);
    let mut permissions = PermissionSummary::default();
    file_memberships(&mut permissions, workspace_perms);
    file_repos(&mut permissions, repos);
    sort_permission_summary(&mut permissions);
    let severity = derive_severity(workspace_perms, repos);
    let mut risk_notes = no_texts();
    if workspace_perms.len() == 0 && repos.len() == 0 {
        push_view(
            &mut resources,
            ResourceExposure::new(
                "account",
                username.as_str(),
                no_texts(),
                Severity::Low,
                "Bitbucket account associated with the token",
            ),
        );
        push_text(
            &mut risk_notes,
            "Token did not enumerate any repositories or workspaces".to_owned(),
        );
        assert(texts(risk_notes@) =~= seq![
            "Token did not enumerate any repositories or workspaces"@,
        ]);
    }
    assert(views(resources@) =~= bitbucket_resources(*user, workspace_perms@, repos@));
    let kind = unwrap_text(&user.account_type, "user");
    let details = detail_token(user);
    build_result(
        "bitbucket",
        AccessSummary {
            id: username,
            access_type: to_lowercase(kind.as_str()),
            project: None,
            tenant: None,
            account_id: or_text(&user.account_id, &user.uuid),
        },
        roles,
        permissions,
        resources,
        severity,
        risk_notes,
        Some(details),
    )
}

proof fn lemma_memberships_len(list: Seq<BitbucketWorkspacePermission>, n: int)
    requires
        0 <= n,
    ensures
        memberships_upto(list, n).len() == n,
    decreases n,
{
    if n > 0 {
        lemma_memberships_len(list, n - 1);
    }
}

proof fn lemma_repos_len(list: Seq<BitbucketRepo>, n: int)
    requires
        0 <= n,
    ensures
        repos_upto(list, n).len() == n,
    decreases n,
{
    if n > 0 {
        lemma_repos_len(list, n - 1);
    }
}

/// The result of a token always names a resource, if only its account.
pub proof fn lemma_some_resource_is_named(user: BitbucketUser, memberships: Seq<BitbucketWorkspacePermission>, repos: Seq<BitbucketRepo>)
    ensures
        bitbucket_result(user, memberships, repos).resources.len() > 0,
{
    lemma_memberships_len(memberships, memberships.len() as int);
    lemma_repos_len(repos, repos.len() as int);
}

proof fn lemma_memberships_listed(list: Seq<BitbucketWorkspacePermission>, n: int)
    requires
        0 <= n <= list.len(),
    ensures
        memberships_upto(list, n).len() == n,
        forall|k: int| 0 <= k < n ==> #[trigger] memberships_upto(list, n)[k] == membership_exposure(list[k]),
    decreases n,
{
    if n > 0 {
        lemma_memberships_listed(list, n - 1);
    }
}

proof fn lemma_repos_listed(list: Seq<BitbucketRepo>, n: int)
    requires
        0 <= n <= list.len(),
    ensures
        repos_upto(list, n).len() == n,
        forall|k: int| 0 <= k < n ==> #[trigger] repos_upto(list, n)[k] == repo_exposure(list[k]),
    decreases n,
{
    if n > 0 {
        lemma_repos_listed(list, n - 1);
    }
}

proof fn lemma_memberships_filed(summary: PermissionSummaryView, list: Seq<BitbucketWorkspacePermission>, n: int, k: int)
    requires
        0 <= k < n <= list.len(),
    ensures
        class_list(with_memberships(summary, list, n), membership_class(membership_permission(list[k]))).contains("workspace:"@ + membership_permission(list[k])),
    decreases n,
{
    let before = with_memberships(summary, list, n - 1);
    lemma_filed(before, membership_class(membership_permission(list[n - 1])), "workspace:"@ + membership_permission(list[n - 1]));
    if k < n - 1 {
        lemma_memberships_filed(summary, list, n - 1, k);
        assert(class_list(before, membership_class(membership_permission(list[k]))).contains("workspace:"@ + membership_permission(list[k])));
    }
}

proof fn lemma_repos_filed(summary: PermissionSummaryView, list: Seq<BitbucketRepo>, n: int, k: int)
    requires
        0 <= k < n <= list.len(),
    ensures
        class_list(with_repos(summary, list, n), (if list[k].is_private { PermissionClass::Risky } else { PermissionClass::ReadOnly })).contains((if list[k].is_private { "repo:private"@ } else { "repo:public"@ })),
    decreases n,
{
    let before = with_repos(summary, list, n - 1);
    lemma_filed(before, (if list[n - 1].is_private { PermissionClass::Risky } else { PermissionClass::ReadOnly }), (if list[n - 1].is_private { "repo:private"@ } else { "repo:public"@ }));
    if k < n - 1 {
        lemma_repos_filed(summary, list, n - 1, k);
        assert(class_list(before, (if list[k].is_private { PermissionClass::Risky } else { PermissionClass::ReadOnly })).contains((if list[k].is_private { "repo:private"@ } else { "repo:public"@ })));
    }
}

proof fn lemma_repos_keep(summary: PermissionSummaryView, list: Seq<BitbucketRepo>, n: int, class: PermissionClass, held: Seq<char>)
    requires
        0 <= n <= list.len(),
        class_list(summary, class).contains(held),
    ensures
        class_list(with_repos(summary, list, n), class).contains(held),
    decreases n,
{
    if n > 0 {
        lemma_repos_keep(summary, list, n - 1, class, held);
        let before = with_repos(summary, list, n - 1);
        lemma_filed(before, PermissionClass::Risky, "repo:private"@);
        lemma_filed(before, PermissionClass::ReadOnly, "repo:public"@);
        assert(class_list(before, class).contains(held));
    }
}

/// An owner of any workspace is high; a private repository, or the work of a collaborator, makes a token
/// medium at least; without any of these it is low. Every membership and every repository is reported
/// under its name, an owned workspace at high risk and a private repository at medium risk.
pub proof fn lemma_gravest_access_decides(
    user: BitbucketUser,
    memberships: Seq<BitbucketWorkspacePermission>,
    repos: Seq<BitbucketRepo>,
    k: int,
)
    ensures
        ({
            let result = bitbucket_result(user, memberships, repos);
            &&& 0 <= k < memberships.len() && memberships[k].permission is Some ==> {
                let permission = memberships[k].permission->0@;
                &&& permission == "owner"@ ==> result.severity == Severity::High
                    && result.permissions.admin.contains("workspace:owner"@) && result.resources[k].risk
                    == "high"@
                &&& permission == "collaborator"@ ==> result.severity != Severity::Low
                    && result.permissions.risky.contains("workspace:collaborator"@)
                    && result.resources[k].risk == "medium"@
                &&& memberships[k].workspace is Some && memberships[k].workspace->0.slug is Some
                    ==> result.resources[k].name == memberships[k].workspace->0.slug->0@
            }
            &&& 0 <= k < repos.len() ==> {
                let resource = result.resources[memberships.len() + k];
                &&& repos[k].is_private ==> result.severity != Severity::Low
                    && result.permissions.risky.contains("repo:private"@) && resource.risk == "medium"@
                &&& !repos[k].is_private ==> resource.risk == "low"@
                &&& repos[k].full_name is Some ==> resource.name == repos[k].full_name->0@
            }
            &&& (forall|j: int|
                0 <= j < memberships.len() ==> opt_text((#[trigger] memberships[j]).permission) != Some(
                    "owner"@,
                )) ==> result.severity != Severity::High
            &&& result.severity != Severity::Critical
            &&& user.username is Some ==> result.identity.id == user.username->0@
        }),
{
    let m = memberships.len() as int;
    let first = with_memberships(empty_permission_summary(), memberships, m);
    let all = with_repos(first, repos, repos.len() as int);
    lemma_memberships_listed(memberships, m);
    lemma_repos_listed(repos, repos.len() as int);
    lemma_sorted_summary(all, PermissionClass::Admin);
    lemma_sorted_summary(all, PermissionClass::Risky);
    reveal_strlit("workspace:");
    reveal_strlit("owner");
    reveal_strlit("collaborator");
    reveal_strlit("workspace:owner");
    reveal_strlit("workspace:collaborator");
    assert("workspace:"@ + "owner"@ =~= "workspace:owner"@);
    assert("workspace:"@ + "collaborator"@ =~= "workspace:collaborator"@);
    assert("owner"@.len() != "collaborator"@.len());
    let sorted = sorted_summary(all);
    assert(class_list(sorted, PermissionClass::Admin) == sorted.admin);
    assert(class_list(sorted, PermissionClass::Risky) == sorted.risky);
    if 0 <= k < m && memberships[k].permission is Some {
        let class = membership_class(membership_permission(memberships[k]));
        let filed_as = "workspace:"@ + membership_permission(memberships[k]);
        lemma_memberships_filed(empty_permission_summary(), memberships, m, k);
        lemma_repos_keep(first, repos, repos.len() as int, class, filed_as);
        assert(class_list(all, class).contains(filed_as));
        assert(is_owner(memberships[k]) ==> some_owner(memberships));
        assert(is_collaborator(memberships[k]) ==> some_collaborator(memberships));
    }
    if 0 <= k < repos.len() {
        lemma_repos_filed(first, repos, repos.len() as int, k);
        if repos[k].is_private {
            assert(is_hidden(repos[k]));
            assert(class_list(all, PermissionClass::Risky).contains("repo:private"@));
        }
    }
}

} // verus!
