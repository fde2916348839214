//! Artifactory tokens.

use vstd::prelude::*;
use crate::credential_file::{read_field, read_lines, trimmed_field, used_lines};
use crate::json::{parse_json, parsed_json, Json};
use crate::mapping::{build_result, plain_result};
use crate::model::{
    binding, empty_access_token_details, empty_permission_summary, exposure, no_views, one_view,
    push_view, result_view, views, AccessMapResult, AccessMapResultView, AccessSummary,
    AccessSummaryView, AccessTokenDetails, AccessTokenDetailsView, PermissionSummary,
    PermissionSummaryView, ResourceExposure, ResourceExposureView, RoleBinding, Severity,
};
use crate::order::{in_order, lemma_in_order, sort_dedup};
use crate::permissions::{file_permission, filed, PermissionClass};
use crate::text::{
    by_text, cat2, cat3, contains, copy_opt, copy_texts, decimal, flag_set, holds, is_set, lowered,
    no_texts, one_text, opt_text, prefix_all, prefixed, push_text, slices, text_or, texts,
    three_texts, to_lowercase, trim, trim_end_char, trimmed, two_texts, unwrap_text, usize_text,
    without_trailing,
};

verus! {

/// The number of repositories that a result lists.
pub const MAX_REPO_RESOURCES: usize = 100;

/// A user.
#[derive(Debug)]
pub struct ArtifactoryUser {
    pub name: Option<String>,
    pub email: Option<String>,
    pub admin: Option<bool>,
    pub groups: Vec<String>,
}

/// A repository.
#[derive(Debug)]
pub struct ArtifactoryRepo {
    pub key: Option<String>,
    pub repo_type: Option<String>,
    pub package_type: Option<String>,
}

/// A token, and the address of its instance where that is known.
#[derive(Debug)]
pub struct ArtifactoryCredentials {
    pub token: String,
    pub base_url: Option<String>,
}

/// A token and an address, as views.
#[verifier::ext_equal]
pub ghost struct ArtifactoryCredentialsView {
    pub token: Seq<char>,
    pub base_url: Option<Seq<char>>,
}

impl View for ArtifactoryCredentials {
    type V = ArtifactoryCredentialsView;

    open spec fn view(&self) -> ArtifactoryCredentialsView {
        ArtifactoryCredentialsView { token: self.token@, base_url: opt_text(self.base_url) }
    }
}

/// The keys under which a token stands.
pub open spec fn token_keys() -> Seq<Seq<char>> {
    seq!["token"@, "access_token"@, "api_key"@]
}

/// The keys under which an address stands.
pub open spec fn url_keys() -> Seq<Seq<char>> {
    seq!["base_url"@, "url"@, "instance_url"@]
}

/// The credentials that a text holds, by what it is as JSON: an object with a token, or else lines,
/// the first of which is the token and the second the address.
pub open spec fn credentials_of(raw: Seq<char>, json: Result<Json, Seq<char>>) -> Result<
    ArtifactoryCredentialsView,
    Seq<char>,
> {
    let from_json = match json {
        Ok(value) => match trimmed_field(value, token_keys()) {
            Some(token) => Some(
                ArtifactoryCredentialsView {
                    token,
                    base_url: trimmed_field(value, url_keys()),
                },
            ),
            None => None,
        },
        Err(_) => None,
    };
    let used = used_lines(raw);
    match from_json {
        Some(found) => Ok(found),
        None => if used.len() == 0 {
            Err(
                "Artifactory credential format not recognized. Provide JSON with token (+ optional base_url), or lines."@,
            )
        } else if used.len() == 1 {
            Ok(ArtifactoryCredentialsView { token: used[0], base_url: None })
        } else {
            Ok(ArtifactoryCredentialsView { token: used[0], base_url: Some(used[1]) })
        },
    }
}

/// Finds the credentials in a text of which it is known what it is as JSON.
pub fn read_credentials(raw: &str, json: &Result<Json, String>) -> (credentials: Result<
    ArtifactoryCredentials,
    String,
>)
    ensures
        result_view(credentials) == credentials_of(raw@, by_text(*json)),
{
    let token_names: [&str; 3] = ["token", "access_token", "api_key"];
    assert(slices(token_names@) =~= token_keys());
    let url_names: [&str; 3] = ["base_url", "url", "instance_url"];
    assert(slices(url_names@) =~= url_keys());
    match json {
        Ok(value) => match read_field(value, &token_names) {
            Some(token) => {
                return Ok(
                    ArtifactoryCredentials { token, base_url: read_field(value, &url_names) },
                );
            },
            None => {},
        },
        Err(_) => {},
    }
    let used = read_lines(raw);
    if used.len() == 0 {
        Err(
            "Artifactory credential format not recognized. Provide JSON with token (+ optional base_url), or lines.".to_owned(),
        )
    } else {
        assert(texts(used@)[0] == used@[0]@);
        if used.len() == 1 {
            Ok(ArtifactoryCredentials { token: used[0].clone(), base_url: None })
        } else {
            assert(texts(used@)[1] == used@[1]@);
            Ok(
                ArtifactoryCredentials {
                    token: used[0].clone(),
                    base_url: Some(used[1].clone()),
                },
            )
        }
    }
}

/// Finds the credentials in a text.
pub fn parse_artifactory_credentials(raw: &str) -> (credentials: Result<
    ArtifactoryCredentials,
    String,
>)
    ensures
        result_view(credentials) == credentials_of(raw@, parsed_json(raw@)),
{
    let json = parse_json(raw);
    read_credentials(raw, &json)
}

/// What is known of a token whose instance is not known, by whether the service answered to it.
pub open spec fn unknown_instance_result(ping_ok: bool) -> AccessMapResultView {
    let permissions = if ping_ok {
        filed(empty_permission_summary(), PermissionClass::ReadOnly, "system:ping"@)
    } else {
        empty_permission_summary()
    };
    let note = if ping_ok {
        "Token responded to JFrog cloud ping; base_url unknown so full mapping not possible"@
    } else {
        "Token did not respond to JFrog cloud ping; provide base_url for full mapping"@
    };
    AccessMapResultView {
        mapping_error: if ping_ok {
            None
        } else {
            Some(
                "Artifactory identity mapping failed: token did not respond to the JFrog cloud ping"@,
            )
        },
        ..plain_result(
            "artifactory"@,
            AccessSummaryView {
                id: "unknown_artifactory_user"@,
                access_type: "token"@,
                project: None,
                tenant: None,
                account_id: None,
            },
            Seq::empty(),
            permissions,
            Seq::empty(),
            Severity::Medium,
            seq![note],
            Some(
                AccessTokenDetailsView {
                    token_type: Some("bearer_token"@),
                    ..empty_access_token_details()
                },
            ),
        )
    }
}

/// Maps a token whose instance is not known. Where the service did not answer to it, the identity
/// is a placeholder, and the result says so.
pub fn map_access_from_token(ping_ok: bool) -> (result: AccessMapResult)
    ensures
        result@ == unknown_instance_result(ping_ok),
{
    let mut permissions = PermissionSummary::default();
    if ping_ok {
        file_permission(&mut permissions, PermissionClass::ReadOnly, "system:ping".to_owned());
    }
    let note: &str = if ping_ok {
        "Token responded to JFrog cloud ping; base_url unknown so full mapping not possible"
    } else {
        "Token did not respond to JFrog cloud ping; provide base_url for full mapping"
    };
    let mut details = AccessTokenDetails::default();
    details.token_type = Some("bearer_token".to_owned());
    let mut result = build_result(
        "artifactory",
        AccessSummary {
            id: "unknown_artifactory_user".to_owned(),
            access_type: "token".to_owned(),
            project: None,
            tenant: None,
            account_id: None,
        },
        no_views(),
        permissions,
        no_views(),
        Severity::Medium,
        one_text(note),
        Some(details),
    );
    if !ping_ok {
        result.mapping_error = Some(
            "Artifactory identity mapping failed: token did not respond to the JFrog cloud ping".to_owned(),
        );
    }
    result
}

/// The address of an instance without the white space around it and the slashes behind it.
pub open spec fn base_of(url: Seq<char>) -> Seq<char> {
    without_trailing(trimmed(url), '/')
}

/// Brings the address of an instance into the form in which paths follow it.
pub fn instance_base(base_url: &str) -> (base: Result<String, String>)
    ensures
        by_text(base) is Ok == (base_of(base_url@).len() > 0),
        match base {
            Ok(text) => text@ == base_of(base_url@),
            Err(error) => error@ == "Artifactory access-map requires a non-empty base URL"@,
        },
{
    let bare = trim(base_url);
    let base = trim_end_char(bare.as_str(), '/');
    if base.as_str().is_empty() {
        Err("Artifactory access-map requires a non-empty base URL".to_owned())
    } else {
        Ok(base)
    }
}

/// Whether the name of a group tells of deployment.
pub open spec fn deploys(group: Seq<char>) -> bool {
    holds(lowered(group), "deploy"@)
}

/// Whether one of the groups deploys.
pub open spec fn some_deploy(groups: Seq<Seq<char>>) -> bool {
    exists|k: int| 0 <= k < groups.len() && deploys(#[trigger] groups[k])
}

fn any_deploys(groups: &Vec<String>) -> (yes: bool)
    ensures
        yes == some_deploy(texts(groups@)),
{
    let mut i: usize = 0;
    while i < groups.len()
        invariant
            i <= groups@.len(),
            forall|k: int| 0 <= k < i ==> !deploys(#[trigger] texts(groups@)[k]),
        decreases groups@.len() - i,
    {
        assert(texts(groups@)[i as int] == groups@[i as int]@);
        let name = to_lowercase(groups[i].as_str());
        if contains(name.as_str(), "deploy") {
            assert(deploys(texts(groups@)[i as int]));
            return true;
        }
        i = i + 1;
    }
    false
}

/// The resource that stands for a repository.
pub open spec fn repo_exposure(repo: ArtifactoryRepo, trusted: bool) -> ResourceExposureView {
    exposure(
        "repository:"@ + text_or(repo.repo_type, ""@),
        text_or(repo.key, ""@),
        seq!["package_type:"@ + text_or(repo.package_type, ""@)],
        if trusted {
            Severity::High
        } else {
            Severity::Low
        },
        if trusted {
            "Repository with deploy/admin access - supply chain risk"@
        } else {
            "Repository visible to this token"@
        },
    )
}

fn expose_repo(repo: &ArtifactoryRepo, trusted: bool) -> (resource: ResourceExposure)
    ensures
        resource@ == repo_exposure(*repo, trusted),
{
    let kind = unwrap_text(&repo.repo_type, "");
    let package = unwrap_text(&repo.package_type, "");
    let risk = if trusted {
        Severity::High
    } else {
        Severity::Low
    };
    let reason: &str = if trusted {
        "Repository with deploy/admin access - supply chain risk"
    } else {
        "Repository visible to this token"
    };
    ResourceExposure::new(
        cat2("repository:", kind.as_str()).as_str(),
        unwrap_text(&repo.key, "").as_str(),
        one_text(cat2("package_type:", package.as_str()).as_str()),
        risk,
        reason,
    )
}

/// The resources that stand for the first `n` repositories.
pub open spec fn repos_upto(list: Seq<ArtifactoryRepo>, n: int, trusted: bool) -> Seq<
    ResourceExposureView,
>
    decreases n,
{
    if n <= 0 {
        Seq::empty()
    } else {
        repos_upto(list, n - 1, trusted).push(repo_exposure(list[n - 1], trusted))
    }
}

/// How many of a number of repositories a result lists.
pub open spec fn listed_repos(count: nat) -> int {
    if count > MAX_REPO_RESOURCES {
        MAX_REPO_RESOURCES as int
    } else {
        count as int
    }
}

fn add_repos(resources: &mut Vec<ResourceExposure>, list: &Vec<ArtifactoryRepo>, trusted: bool)
    ensures
        views(final(resources)@) == views(old(resources)@) + repos_upto(
            list@,
            listed_repos(list@.len()),
            trusted,
        ),
{
    let ghost before = views(resources@);
    let mut i: usize = 0;
    assert(before =~= before + repos_upto(list@, 0, trusted));
    while i < list.len() && i < MAX_REPO_RESOURCES
        invariant
            i <= list@.len(),
            i <= MAX_REPO_RESOURCES,
            views(resources@) == before + repos_upto(list@, i as int, trusted),
        decreases list@.len() - i,
    {
        push_view(resources, expose_repo(&list[i], trusted));
        i = i + 1;
        assert(views(resources@) =~= before + repos_upto(list@, i as int, trusted));
    }
}

/// The repositories that were listed.
pub open spec fn found_repos(repos: Result<Vec<ArtifactoryRepo>, String>) -> Seq<ArtifactoryRepo> {
    match repos {
        Ok(list) => list@,
        Err(_) => Seq::empty(),
    }
}

/// What a user may do.
pub open spec fn user_permissions(user: ArtifactoryUser, repos: bool) -> PermissionSummaryView {
    let groups = texts(user.groups@);
    PermissionSummaryView {
        admin: if is_set(user.admin) {
            in_order(
                seq![
                    "artifactory:admin"@,
                    "repositories:manage"@,
                    "security:manage"@,
                    "system:configure"@,
                ],
            )
        } else {
            Seq::empty()
        },
        privilege_escalation: Seq::empty(),
        risky: if some_deploy(groups) {
            in_order(seq!["artifacts:deploy"@, "artifacts:delete"@])
        } else {
            Seq::empty()
        },
        read_only: in_order(
            prefixed("group:"@, groups) + if repos {
                seq!["repositories:list"@]
            } else {
                Seq::empty()
            },
        ),
    }
}

fn gather_permissions(user: &ArtifactoryUser, repos: bool) -> (permissions: PermissionSummary)
    ensures
        permissions@ == user_permissions(*user, repos),
{
    let mut permissions = PermissionSummary::default();
    if flag_set(user.admin) {
        let mut admin = three_texts("artifactory:admin", "repositories:manage", "security:manage");
        push_text(&mut admin, "system:configure".to_owned());
        assert(texts(admin@) =~= seq![
            "artifactory:admin"@,
            "repositories:manage"@,
            "security:manage"@,
            "system:configure"@,
        ]);
        permissions.admin = sort_dedup(admin);
    }
    if any_deploys(&user.groups) {
        permissions.risky = sort_dedup(two_texts("artifacts:deploy", "artifacts:delete"));
    }
    let mut read_only = prefix_all("group:", &user.groups);
    if repos {
        push_text(&mut read_only, "repositories:list".to_owned());
    }
    assert(texts(read_only@) =~= prefixed("group:"@, texts(user.groups@)) + if repos {
        seq!["repositories:list"@]
    } else {
        Seq::empty()
    });
    permissions.read_only = sort_dedup(read_only);
    permissions
}

/// How grave it is what a user may do.
pub open spec fn artifactory_severity(user: ArtifactoryUser) -> Severity {
    if is_set(user.admin) {
        Severity::Critical
    } else if some_deploy(texts(user.groups@)) {
        Severity::High
    } else {
        Severity::Medium
    }
}

/// The notes on a token.
pub open spec fn artifactory_notes(
    user: ArtifactoryUser,
    repos: Result<Vec<ArtifactoryRepo>, String>,
) -> Seq<Seq<char>> {
    let first = if is_set(user.admin) {
        seq!["Admin flag is set - full Artifactory control"@]
    } else {
        Seq::empty()
    };
    let second = if some_deploy(texts(user.groups@)) {
        first.push("User is in a deployer group - supply chain risk"@)
    } else {
        first
    };
    match repos {
        Err(error) => second.push("Repository listing failed: "@ + error@),
        Ok(list) => if list@.len() > MAX_REPO_RESOURCES {
            second.push(
                "Repository list truncated to first 100 entries ("@ + decimal(list@.len())
                    + " total)"@,
            )
        } else {
            second
        },
    }
}

/// How a user is identified: by the address, or else the name, or else as a token.
pub open spec fn artifactory_identity(user: ArtifactoryUser) -> Seq<char> {
    let id = match user.email {
        Some(email) => email@,
        None => text_or(user.name, ""@),
    };
    if id.len() == 0 {
        "artifactory_token"@
    } else {
        id
    }
}

/// What a token gives access to on an instance.
pub open spec fn artifactory_result(
    base_url: Seq<char>,
    user: ArtifactoryUser,
    repos: Result<Vec<ArtifactoryRepo>, String>,
) -> AccessMapResultView {
    let admin = is_set(user.admin);
    let groups = texts(user.groups@);
    let list = found_repos(repos);
    let kind = if admin {
        "admin"@
    } else {
        "user"@
    };
    let severity = artifactory_severity(user);
    plain_result(
        "artifactory"@,
        AccessSummaryView {
            id: artifactory_identity(user),
            access_type: kind,
            project: None,
            tenant: None,
            account_id: None,
        },
        seq![
            binding(
                if admin {
                    "artifactory:admin"@
                } else {
                    "artifactory:user"@
                },
                "artifactory"@,
                prefixed("group:"@, groups),
            ),
        ],
        user_permissions(user, list.len() > 0),
        seq![
            exposure(
                "artifactory_instance"@,
                base_url,
                seq![
                    if admin {
                        "admin"@
                    } else {
                        "authenticated"@
                    },
                ],
                severity,
                "Artifactory instance accessible with this token"@,
            ),
        ] + repos_upto(list, listed_repos(list.len()), some_deploy(groups) || admin),
        severity,
        artifactory_notes(user, repos),
        Some(
            AccessTokenDetailsView {
                name: Some(text_or(user.name, ""@)),
                account_type: Some(kind),
                email: opt_text(user.email),
                url: Some(base_url),
                token_type: Some("bearer_token"@),
                scopes: groups,
                ..empty_access_token_details()
            },
        ),
    )
}

fn note_findings(user: &ArtifactoryUser, repos: &Result<Vec<ArtifactoryRepo>, String>) -> (notes: Vec<
    String,
>)
    ensures
        texts(notes@) == artifactory_notes(*user, *repos),
{
    let mut notes = no_texts();
    if flag_set(user.admin) {
        push_text(&mut notes, "Admin flag is set - full Artifactory control".to_owned());
    }
    if any_deploys(&user.groups) {
        push_text(&mut notes, "User is in a deployer group - supply chain risk".to_owned());
    }
    match repos {
        Err(error) => push_text(&mut notes, cat2("Repository listing failed: ", error.as_str())),
        Ok(list) => if list.len() > MAX_REPO_RESOURCES {
            let count = usize_text(list.len());
            push_text(
                &mut notes,
                cat3(
                    "Repository list truncated to first 100 entries (",
                    count.as_str(),
                    " total)",
                ),
            );
        },
    }
    assert(texts(notes@) =~= artifactory_notes(*user, *repos));
    notes
}

/// Maps a token from what its instance answered to it.
pub fn map_access_from_token_and_url(
    base_url: &str,
    user: &ArtifactoryUser,
    repos: Result<Vec<ArtifactoryRepo>, String>,
) -> (result: AccessMapResult)
    ensures
        result@ == artifactory_result(base_url@, *user, repos),
{
    let ghost given = repos;
    let risk_notes = note_findings(user, &repos);
    let admin = flag_set(user.admin);
    let deployer = any_deploys(&user.groups);
    let list: Vec<ArtifactoryRepo> = match repos {
        Ok(list) => list,
        Err(_) => Vec::new(),
    };
    assert(list@ =~= found_repos(given));
    let permissions = gather_permissions(user, list.len() > 0);
    let severity = if admin {
        Severity::Critical
    } else if deployer {
        Severity::High
    } else {
        Severity::Medium
    };
    let role_name: &str = if admin {
        "artifactory:admin"
    } else {
        "artifactory:user"
    };
    let kind: &str = if admin {
        "admin"
    } else {
        "user"
    };
    let roles = one_view(
        RoleBinding::new(role_name, "artifactory", prefix_all("group:", &user.groups)),
    );
    let mut resources = one_view(
        ResourceExposure::new(
            "artifactory_instance",
            base_url,
            one_text(
                if admin {
                    "admin"
                } else {
                    "authenticated"
                },
            ),
            severity,
            "Artifactory instance accessible with this token",
        ),
    );
    add_repos(&mut resources, &list, deployer || admin);
    let id = match &user.email {
        Some(email) => email.clone(),
        None => unwrap_text(&user.name, ""),
    };
    let id = if id.as_str().is_empty() {
        "artifactory_token".to_owned()
    } else {
        id
    };
    let mut details = AccessTokenDetails::default();
    details.name = Some(unwrap_text(&user.name, ""));
    details.account_type = Some(kind.to_owned());
    details.email = copy_opt(&user.email);
    details.url = Some(base_url.to_owned());
    details.token_type = Some("bearer_token".to_owned());
    details.scopes = copy_texts(&user.groups);
    build_result(
        "artifactory",
        AccessSummary {
            id,
            access_type: kind.to_owned(),
            project: None,
            tenant: None,
            account_id: None,
        },
        roles,
        permissions,
        resources,
        severity,
        risk_notes,
        Some(details),
    )
}

/// A result never lists more repositories than its limit, and says so where it leaves some out.
pub proof fn lemma_listing_is_bounded(
    base_url: Seq<char>,
    user: ArtifactoryUser,
    repos: Result<Vec<ArtifactoryRepo>, String>,
)
    ensures
        artifactory_result(base_url, user, repos).resources.len() <= MAX_REPO_RESOURCES + 1,
        found_repos(repos).len() > MAX_REPO_RESOURCES ==> artifactory_result(
            base_url,
            user,
            repos,
        ).risk_notes.contains(
            "Repository list truncated to first 100 entries ("@ + decimal(found_repos(repos).len())
                + " total)"@,
        ),
{
    let list = found_repos(repos);
    let trusted = some_deploy(texts(user.groups@)) || is_set(user.admin);
    lemma_repos_len(list, listed_repos(list.len()), trusted);
    if list.len() > MAX_REPO_RESOURCES {
        let notes = artifactory_notes(user, repos);
        assert(notes[notes.len() - 1] == "Repository list truncated to first 100 entries ("@
            + decimal(list.len()) + " total)"@);
    }
}

proof fn lemma_repos_len(list: Seq<ArtifactoryRepo>, n: int, trusted: bool)
    requires
        0 <= n,
    ensures
        repos_upto(list, n, trusted).len() == n,
    decreases n,
{
    if n > 0 {
        lemma_repos_len(list, n - 1, trusted);
    }
}

/// Where the service did not answer to a token, the result says that nothing was resolved, and
/// grants nothing; where it answered, no failure is reported.
pub proof fn lemma_failed_ping_is_reported()
    ensures
        unknown_instance_result(false).mapping_error is Some,
        unknown_instance_result(false).permissions == empty_permission_summary(),
        unknown_instance_result(false).resources.len() == 0,
        unknown_instance_result(true).mapping_error is None,
{
}

proof fn lemma_repos_listed(list: Seq<ArtifactoryRepo>, n: int, trusted: bool)
    requires
        0 <= n <= list.len(),
    ensures
        repos_upto(list, n, trusted).len() == n,
        forall|k: int| 0 <= k < n ==> #[trigger] repos_upto(list, n, trusted)[k] == repo_exposure(list[k], trusted),
    decreases n,
{
    if n > 0 {
        lemma_repos_listed(list, n - 1, trusted);
    }
}

/// An administrator is critical and holds the permissions to manage; a user in any group that deploys is
/// high at least and can deploy; anybody else is medium. Every repository that is listed is reported under
/// its key, at high risk where the user can deploy or administer and at low risk otherwise.
pub proof fn lemma_power_decides(
    base_url: Seq<char>,
    user: ArtifactoryUser,
    repos: Result<Vec<ArtifactoryRepo>, String>,
    k: int,
)
    ensures
        ({
            let result = artifactory_result(base_url, user, repos);
            let groups = texts(user.groups@);
            let list = found_repos(repos);
            let admin = user.admin == Some(true);
            &&& admin <==> result.severity == Severity::Critical
            &&& admin ==> result.permissions.admin.contains("artifactory:admin"@)
                && result.permissions.admin.contains("security:manage"@)
            &&& result.severity != Severity::Low
            &&& 0 <= k < groups.len() && holds(lowered(groups[k]), "deploy"@) ==> (result.severity
                == Severity::High || result.severity == Severity::Critical)
                && result.permissions.risky.contains("artifacts:deploy"@)
            &&& 0 <= k < groups.len() ==> result.permissions.read_only.contains("group:"@ + groups[k])
            &&& !admin && (forall|j: int|
                0 <= j < groups.len() ==> !holds(lowered(#[trigger] groups[j]), "deploy"@))
                ==> result.severity == Severity::Medium
            &&& result.resources[0].name == base_url
            &&& 0 <= k < list.len() && k < MAX_REPO_RESOURCES && list[k].key is Some ==> {
                let resource = result.resources[k + 1];
                &&& resource.name == list[k].key->0@
                &&& admin ==> resource.risk == "high"@
                &&& (exists|j: int|
                    0 <= j < groups.len() && holds(lowered(#[trigger] groups[j]), "deploy"@))
                    ==> resource.risk == "high"@
                &&& !admin && (forall|j: int|
                    0 <= j < groups.len() ==> !holds(lowered(#[trigger] groups[j]), "deploy"@))
                    ==> resource.risk == "low"@
            }
        }),
{
    let groups = texts(user.groups@);
    let list = found_repos(repos);
    let admin = is_set(user.admin);
    lemma_repos_listed(list, listed_repos(list.len()), some_deploy(groups) || admin);
    let managing = seq![
        "artifactory:admin"@,
        "repositories:manage"@,
        "security:manage"@,
        "system:configure"@,
    ];
    lemma_in_order(managing);
    assert(managing[0] == "artifactory:admin"@ && managing[2] == "security:manage"@);
    assert(managing.contains("artifactory:admin"@) && managing.contains("security:manage"@));
    let deploying = seq!["artifacts:deploy"@, "artifacts:delete"@];
    lemma_in_order(deploying);
    assert(deploying[0] == "artifacts:deploy"@);
    assert(deploying.contains("artifacts:deploy"@));
    if exists|j: int| 0 <= j < groups.len() && holds(lowered(#[trigger] groups[j]), "deploy"@) {
        let j = choose|j: int| 0 <= j < groups.len() && holds(lowered(#[trigger] groups[j]), "deploy"@);
        assert(deploys(groups[j]));
        assert(some_deploy(groups));
    }
    if some_deploy(groups) {
        let j = choose|j: int| 0 <= j < groups.len() && deploys(#[trigger] groups[j]);
        assert(holds(lowered(groups[j]), "deploy"@));
    }
    if 0 <= k < groups.len() {
        let raw = prefixed("group:"@, groups) + if list.len() > 0 {
            seq!["repositories:list"@]
        } else {
            Seq::empty()
        };
        lemma_in_order(raw);
        assert(raw[k] == "group:"@ + groups[k]);
        assert(raw.contains("group:"@ + groups[k]));
        assert(in_order(raw).contains("group:"@ + groups[k]));
    }
}

} // verus!
