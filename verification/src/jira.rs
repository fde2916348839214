//! Jira tokens.

use vstd::prelude::*;
use crate::credential_file::{read_field, read_lines, trimmed_field, used_lines};
use crate::json::{parse_json, parsed_json, Json};
use crate::mapping::{build_result, plain_result};
use crate::model::{
    binding, empty_access_token_details, empty_permission_summary, exposure, no_views, one_view,
    push_view, result_view, views, AccessMapResult, AccessMapResultView, AccessSummary,
    AccessSummaryView, AccessTokenDetails, AccessTokenDetailsView, PermissionSummary,
    PermissionSummaryView, ResourceExposure, ResourceExposureView, RoleBinding, Severity,
};
use crate::permissions::{
    class_list, file_permission, filed, lemma_filed, lemma_sorted_classes_stay_filled,
    lemma_sorted_summary, PermissionClass,
};
use crate::text::{
    by_text, cat2, cat3, cat4, copy_opt, copy_texts, either, first_text, is_among, no_texts,
    opt_text, push_text, slices, str_eq, text_else, text_or, texts, trim_end_char, unwrap_text,
    without_trailing,
};

verus! {

/// The permissions that are asked for.
pub const CHECKED_PERMISSIONS: &'static str = "BROWSE_PROJECTS,CREATE_ISSUES,EDIT_ISSUES,DELETE_ISSUES,MANAGE_WATCHERS,ADMINISTER_PROJECTS,SYSTEM_ADMIN";

/// A user.
#[derive(Debug)]
pub struct JiraUser {
    pub account_id: Option<String>,
    pub email_address: Option<String>,
    pub display_name: Option<String>,
    pub active: bool,
    pub account_type: Option<String>,
}

/// A permission and whether a user has it.
#[derive(Debug)]
pub struct JiraPermissionEntry {
    pub name: String,
    pub have_permission: bool,
}

/// A project.
#[derive(Debug)]
pub struct JiraProject {
    pub key: String,
    pub name: String,
    pub project_type_key: Option<String>,
}

/// A token and the address of its instance.
#[derive(Debug)]
pub struct JiraCredentials {
    pub token: String,
    pub base_url: String,
}

/// A token and an address, as views.
#[verifier::ext_equal]
pub ghost struct JiraCredentialsView {
    pub token: Seq<char>,
    pub base_url: Seq<char>,
}

impl View for JiraCredentials {
    type V = JiraCredentialsView;

    open spec fn view(&self) -> JiraCredentialsView {
        JiraCredentialsView { token: self.token@, base_url: self.base_url@ }
    }
}

/// The keys under which a token stands.
pub open spec fn token_keys() -> Seq<Seq<char>> {
    seq!["token"@, "api_token"@, "apiToken"@]
}

/// The keys under which an address stands.
pub open spec fn url_keys() -> Seq<Seq<char>> {
    seq!["base_url"@, "baseUrl"@, "url"@, "domain"@]
}

/// The credentials that a text holds, by what it is as JSON: an object with a token and an address,
/// or else two lines.
pub open spec fn credentials_of(raw: Seq<char>, json: Result<Json, Seq<char>>) -> Result<
    JiraCredentialsView,
    Seq<char>,
> {
    let from_json = match json {
        Ok(value) => match (
            trimmed_field(value, token_keys()),
            trimmed_field(value, url_keys()),
        ) {
            (Some(token), Some(base_url)) => Some(JiraCredentialsView { token, base_url }),
            _ => None,
        },
        Err(_) => None,
    };
    let used = used_lines(raw);
    match from_json {
        Some(found) => Ok(found),
        None => if used.len() >= 2 {
            Ok(JiraCredentialsView { token: used[0], base_url: used[1] })
        } else {
            Err(
                "Jira credential format not recognized. Provide JSON with token + base_url, or two lines (token, base_url)."@,
            )
        },
    }
}

/// Finds the credentials in a text of which it is known what it is as JSON.
pub fn read_credentials(raw: &str, json: &Result<Json, String>) -> (credentials: Result<
    JiraCredentials,
    String,
>)
    ensures
        result_view(credentials) == credentials_of(raw@, by_text(*json)),
{
    let token_names: [&str; 3] = ["token", "api_token", "apiToken"];
    assert(slices(token_names@) =~= token_keys());
    let url_names: [&str; 4] = ["base_url", "baseUrl", "url", "domain"];
    assert(slices(url_names@) =~= url_keys());
    match json {
        Ok(value) => match (read_field(value, &token_names), read_field(value, &url_names)) {
            (Some(token), Some(base_url)) => {
                return Ok(JiraCredentials { token, base_url });
            },
            _ => {},
        },
        Err(_) => {},
    }
    let used = read_lines(raw);
    if used.len() >= 2 {
        assert(texts(used@)[0] == used@[0]@);
        assert(texts(used@)[1] == used@[1]@);
        Ok(JiraCredentials { token: used[0].clone(), base_url: used[1].clone() })
    } else {
        Err(
            "Jira credential format not recognized. Provide JSON with token + base_url, or two lines (token, base_url).".to_owned(),
        )
    }
}

/// Finds the credentials in a text.
pub fn parse_jira_credentials(raw: &str) -> (credentials: Result<JiraCredentials, String>)
    ensures
        result_view(credentials) == credentials_of(raw@, parsed_json(raw@)),
{
    let json = parse_json(raw);
    read_credentials(raw, &json)
}

/// The names of those of the first `n` permissions that a user has.
pub open spec fn granted_upto(list: Seq<JiraPermissionEntry>, n: int) -> Seq<Seq<char>>
    decreases n,
{
    if n <= 0 {
        Seq::empty()
    } else if list[n - 1].have_permission {
        granted_upto(list, n - 1).push(list[n - 1].name@)
    } else {
        granted_upto(list, n - 1)
    }
}

/// Keeps the names of the permissions that a user has.
pub fn granted_permissions(entries: &Vec<JiraPermissionEntry>) -> (granted: Vec<String>)
    ensures
        texts(granted@) == granted_upto(entries@, entries@.len() as int),
{
    let mut granted = no_texts();
    let mut i: usize = 0;
    while i < entries.len()
        invariant
            i <= entries@.len(),
            texts(granted@) == granted_upto(entries@, i as int),
        decreases entries@.len() - i,
    {
        if entries[i].have_permission {
            push_text(&mut granted, entries[i].name.clone());
        }
        i = i + 1;
    }
    granted
}

/// The class of a permission: some have none.
pub open spec fn permission_class(name: Seq<char>) -> Option<PermissionClass> {
    if name == "SYSTEM_ADMIN"@ || name == "ADMINISTER_PROJECTS"@ {
        Some(PermissionClass::Admin)
    } else if name == "DELETE_ISSUES"@ || name == "EDIT_ISSUES"@ || name == "CREATE_ISSUES"@ || name
        == "MANAGE_WATCHERS"@ {
        Some(PermissionClass::Risky)
    } else if name == "BROWSE_PROJECTS"@ {
        Some(PermissionClass::ReadOnly)
    } else {
        None
    }
}

/// Finds the class of a permission.
pub fn classify_permission(name: &str) -> (class: Option<PermissionClass>)
    ensures
        class == permission_class(name@),
{
    if str_eq(name, "SYSTEM_ADMIN") || str_eq(name, "ADMINISTER_PROJECTS") {
        Some(PermissionClass::Admin)
    } else if str_eq(name, "DELETE_ISSUES") || str_eq(name, "EDIT_ISSUES") || str_eq(
        name,
        "CREATE_ISSUES",
    ) || str_eq(name, "MANAGE_WATCHERS") {
        Some(PermissionClass::Risky)
    } else if str_eq(name, "BROWSE_PROJECTS") {
        Some(PermissionClass::ReadOnly)
    } else {
        None
    }
}

/// The summary with one more permission.
pub open spec fn with_permission(summary: PermissionSummaryView, name: Seq<char>) -> PermissionSummaryView {
    match permission_class(name) {
        Some(class) => filed(summary, class, name),
        None => summary,
    }
}

fn file_named(summary: &mut PermissionSummary, name: &str)
    ensures
        final(summary)@ == with_permission(old(summary)@, name@),
{
    match classify_permission(name) {
        Some(class) => file_permission(summary, class, name.to_owned()),
        None => {},
    }
}

/// The summary with the first `n` permissions.
pub open spec fn with_permissions(summary: PermissionSummaryView, list: Seq<Seq<char>>, n: int) -> PermissionSummaryView
    decreases n,
{
    if n <= 0 {
        summary
    } else {
        with_permission(with_permissions(summary, list, n - 1), list[n - 1])
    }
}

fn file_all(summary: &mut PermissionSummary, list: &Vec<String>)
    ensures
        final(summary)@ == with_permissions(old(summary)@, texts(list@), list@.len() as int),
{
    let ghost start = summary@;
    let mut i: usize = 0;
    while i < list.len()
        invariant
            i <= list@.len(),
            summary@ == with_permissions(start, texts(list@), i as int),
        decreases list@.len() - i,
    {
        assert(texts(list@)[i as int] == list@[i as int]@);
        file_named(summary, list[i].as_str());
        i = i + 1;
    }
}

/// Whether a permission changes something.
pub open spec fn is_write(name: Seq<char>) -> bool {
    permission_class(name) == Some(PermissionClass::Admin) || permission_class(name) == Some(
        PermissionClass::Risky,
    )
}

fn check_write(name: &str) -> (yes: bool)
    ensures
        yes == is_write(name@),
{
    match classify_permission(name) {
        Some(PermissionClass::Admin) => true,
        Some(PermissionClass::Risky) => true,
        _ => false,
    }
}

/// Whether one of the permissions changes something.
pub open spec fn some_write(list: Seq<Seq<char>>) -> bool {
    exists|k: int| 0 <= k < list.len() && is_write(#[trigger] list[k])
}

fn any_write(list: &Vec<String>) -> (yes: bool)
    ensures
        yes == some_write(texts(list@)),
{
    let mut i: usize = 0;
    while i < list.len()
        invariant
            i <= list@.len(),
            forall|k: int| 0 <= k < i ==> !is_write(#[trigger] texts(list@)[k]),
        decreases list@.len() - i,
    {
        assert(texts(list@)[i as int] == list@[i as int]@);
        if check_write(list[i].as_str()) {
            assert(is_write(texts(list@)[i as int]));
            return true;
        }
        i = i + 1;
    }
    false
}

/// The resource that stands for a project, to a user with the permissions.
pub open spec fn project_exposure(project: JiraProject, granted: Seq<Seq<char>>) -> ResourceExposureView {
    exposure(
        "jira_project"@,
        project.name@ + " ("@ + project.key@ + ")"@,
        granted,
        if some_write(granted) {
            Severity::Medium
        } else {
            Severity::Low
        },
        "Jira "@ + text_or(project.project_type_key, "unknown"@)
            + " project accessible by this token"@,
    )
}

fn expose_project(project: &JiraProject, granted: &Vec<String>) -> (resource: ResourceExposure)
    ensures
        resource@ == project_exposure(*project, texts(granted@)),
{
    let kind = unwrap_text(&project.project_type_key, "unknown");
    let risk = if any_write(granted) {
        Severity::Medium
    } else {
        Severity::Low
    };
    ResourceExposure::new(
        "jira_project",
        cat4(project.name.as_str(), " (", project.key.as_str(), ")").as_str(),
        copy_texts(granted),
        risk,
        cat3("Jira ", kind.as_str(), " project accessible by this token").as_str(),
    )
}

/// The resources that stand for the first `n` projects.
pub open spec fn projects_upto(list: Seq<JiraProject>, n: int, granted: Seq<Seq<char>>) -> Seq<
    ResourceExposureView,
>
    decreases n,
{
    if n <= 0 {
        Seq::empty()
    } else {
        projects_upto(list, n - 1, granted).push(project_exposure(list[n - 1], granted))
    }
}

fn list_projects(list: &Vec<JiraProject>, granted: &Vec<String>) -> (resources: Vec<
    ResourceExposure,
>)
    ensures
        views(resources@) == projects_upto(list@, list@.len() as int, texts(granted@)),
{
    let mut resources: Vec<ResourceExposure> = no_views();
    let mut i: usize = 0;
    while i < list.len()
        invariant
            i <= list@.len(),
            views(resources@) == projects_upto(list@, i as int, texts(granted@)),
        decreases list@.len() - i,
    {
        push_view(&mut resources, expose_project(&list[i], granted));
        i = i + 1;
    }
    resources
}

/// How grave it is what a token permits.
pub open spec fn jira_severity(permissions: PermissionSummaryView) -> Severity {
    if permissions.admin.contains("SYSTEM_ADMIN"@) {
        Severity::Critical
    } else if permissions.admin.contains("ADMINISTER_PROJECTS"@) {
        Severity::High
    } else if permissions.risky.len() > 0 {
        Severity::Medium
    } else {
        Severity::Low
    }
}

pub fn derive_severity(permissions: &PermissionSummary) -> (severity: Severity)
    ensures
        severity == jira_severity(permissions@),
{
    if is_among(&permissions.admin, "SYSTEM_ADMIN") {
        Severity::Critical
    } else if is_among(&permissions.admin, "ADMINISTER_PROJECTS") {
        Severity::High
    } else if permissions.risky.len() > 0 {
        Severity::Medium
    } else {
        Severity::Low
    }
}

/// What a listing gave.
pub open spec fn listed<T>(listing: Result<Vec<T>, String>) -> Seq<T> {
    match listing {
        Ok(list) => list@,
        Err(_) => Seq::empty(),
    }
}

/// The notes on a token.
pub open spec fn jira_notes(
    user: JiraUser,
    granted: Result<Vec<String>, String>,
    projects: Result<Vec<JiraProject>, String>,
    permissions: PermissionSummaryView,
) -> Seq<Seq<char>> {
    let first = if !user.active {
        seq!["Jira account is marked as inactive"@]
    } else {
        Seq::empty()
    };
    let second = match granted {
        Ok(_) => first,
        Err(error) => first.push("Permission enumeration failed: "@ + error@),
    };
    let third = match projects {
        Ok(_) => second,
        Err(error) => second.push("Project enumeration failed: "@ + error@),
    };
    let fourth = if permissions.admin.contains("SYSTEM_ADMIN"@) {
        third.push("Token has SYSTEM_ADMIN privilege — full Jira administration access"@)
    } else {
        third
    };
    if permissions.admin.contains("ADMINISTER_PROJECTS"@) {
        fourth.push("Token can administer projects — project configuration access"@)
    } else {
        fourth
    }
}

/// The address of an instance without the slashes behind it.
pub open spec fn base_of(url: Seq<char>) -> Seq<char> {
    without_trailing(url, '/')
}

/// Brings the address of an instance into the form in which paths follow it.
pub fn instance_base(base_url: &str) -> (base: String)
    ensures
        base@ == base_of(base_url@),
{
    trim_end_char(base_url, '/')
}

/// What a Jira token gives access to.
pub open spec fn jira_result(
    base_url: Seq<char>,
    user: JiraUser,
    granted: Result<Vec<String>, String>,
    projects: Result<Vec<JiraProject>, String>,
) -> AccessMapResultView {
    let names = texts(listed(granted));
    let list = listed(projects);
    let permissions = with_permissions(empty_permission_summary(), names, names.len() as int);
    plain_result(
        "jira"@,
        AccessSummaryView {
            id: text_else(
                either(opt_text(user.email_address), opt_text(user.account_id)),
                "unknown_jira_user"@,
            ),
            access_type: text_or(user.account_type, "token"@),
            project: None,
            tenant: None,
            account_id: opt_text(user.account_id),
        },
        seq![binding("jira_user:"@ + text_or(user.account_type, "unknown"@), "jira"@, names)],
        permissions,
        projects_upto(list, list.len() as int, names),
        jira_severity(permissions),
        jira_notes(user, granted, projects, permissions),
        Some(
            AccessTokenDetailsView {
                name: opt_text(user.display_name),
                account_type: Some("api_token"@),
                email: opt_text(user.email_address),
                url: Some(base_of(base_url)),
                token_type: Some("bearer"@),
                user_id: opt_text(user.account_id),
                scopes: names,
                ..empty_access_token_details()
            },
        ),
    )
}

/// Maps a Jira token from what its instance answered to it.
pub fn map_access_from_token_and_url(
    base_url: &str,
    user: &JiraUser,
    granted: Result<Vec<String>, String>,
    projects: Result<Vec<JiraProject>, String>,
) -> (result: AccessMapResult)
    ensures
        result@ == jira_result(base_url@, *user, granted, projects),
{
    let ghost given = granted;
    let ghost given_projects = projects;
    let mut risk_notes = no_texts();
    if !user.active {
        push_text(&mut risk_notes, "Jira account is marked as inactive".to_owned());
    }
    let names: Vec<String> = match granted {
        Ok(list) => list,
        Err(error) => {
            push_text(&mut risk_notes, cat2("Permission enumeration failed: ", error.as_str()));
            no_texts()
        },
    };
    assert(texts(names@) =~= texts(listed(given)));
    let mut permissions = PermissionSummary::default();
    file_all(&mut permissions, &names);
    let list: Vec<JiraProject> = match projects {
        Ok(list) => list,
        Err(error) => {
            push_text(&mut risk_notes, cat2("Project enumeration failed: ", error.as_str()));
            Vec::new()
        },
    };
    assert(list@ =~= listed(given_projects));
    let kind = unwrap_text(&user.account_type, "unknown");
    let roles = one_view(
        RoleBinding::new(cat2("jira_user:", kind.as_str()).as_str(), "jira", copy_texts(&names)),
    );
    let resources = list_projects(&list, &names);
    let severity = derive_severity(&permissions);
    if is_among(&permissions.admin, "SYSTEM_ADMIN") {
        push_text(
            &mut risk_notes,
            "Token has SYSTEM_ADMIN privilege — full Jira administration access".to_owned(),
        );
    }
    if is_among(&permissions.admin, "ADMINISTER_PROJECTS") {
        push_text(
            &mut risk_notes,
            "Token can administer projects — project configuration access".to_owned(),
        );
    }
    assert(texts(risk_notes@) =~= jira_notes(*user, given, given_projects, permissions@));
    let mut details = AccessTokenDetails::default();
    details.name = copy_opt(&user.display_name);
    details.account_type = Some("api_token".to_owned());
    details.email = copy_opt(&user.email_address);
    details.url = Some(instance_base(base_url));
    details.token_type = Some("bearer".to_owned());
    details.user_id = copy_opt(&user.account_id);
    details.scopes = names;
    build_result(
        "jira",
        AccessSummary {
            id: first_text(&user.email_address, &user.account_id, "unknown_jira_user"),
            access_type: unwrap_text(&user.account_type, "token"),
            project: None,
            tenant: None,
            account_id: copy_opt(&user.account_id),
        },
        roles,
        permissions,
        resources,
        severity,
        risk_notes,
        Some(details),
    )
}

proof fn lemma_admin_is_filed(summary: PermissionSummaryView, names: Seq<Seq<char>>, n: int, k: int)
    requires
        0 <= k < n <= names.len(),
        permission_class(names[k]) == Some(PermissionClass::Admin),
    ensures
        with_permissions(summary, names, n).admin.contains(names[k]),
    decreases n,
{
    let before = with_permissions(summary, names, n - 1);
    if k < n - 1 {
        lemma_admin_is_filed(summary, names, n - 1, k);
        match permission_class(names[n - 1]) {
            Some(class) => lemma_filed(before, class, names[n - 1]),
            None => {},
        }
        assert(class_list(before, PermissionClass::Admin).contains(names[k]));
        assert(class_list(with_permissions(summary, names, n), PermissionClass::Admin).contains(
            names[k],
        ));
    } else {
        lemma_filed(before, PermissionClass::Admin, names[k]);
        assert(class_list(with_permissions(summary, names, n), PermissionClass::Admin).contains(
            names[k],
        ));
    }
}

/// A token with the permission to administer the system is critical, whatever else it permits.
pub proof fn lemma_system_admin_is_critical(
    base_url: Seq<char>,
    user: JiraUser,
    granted: Result<Vec<String>, String>,
    projects: Result<Vec<JiraProject>, String>,
    k: int,
)
    requires
        0 <= k < texts(listed(granted)).len(),
        texts(listed(granted))[k] == "SYSTEM_ADMIN"@,
    ensures
        jira_result(base_url, user, granted, projects).severity == Severity::Critical,
{
    let names = texts(listed(granted));
    lemma_admin_is_filed(empty_permission_summary(), names, names.len() as int, k);
}

proof fn lemma_projects_listed(list: Seq<JiraProject>, n: int, granted: Seq<Seq<char>>)
    requires
        0 <= n <= list.len(),
    ensures
        projects_upto(list, n, granted).len() == n,
        forall|k: int| 0 <= k < n ==> #[trigger] projects_upto(list, n, granted)[k] == project_exposure(list[k], granted),
    decreases n,
{
    if n > 0 {
        lemma_projects_listed(list, n - 1, granted);
    }
}

proof fn lemma_permissions_filed(summary: PermissionSummaryView, list: Seq<Seq<char>>, n: int, k: int)
    requires
        0 <= k < n <= list.len(),
        permission_class(list[k]) is Some,
    ensures
        class_list(with_permissions(summary, list, n), permission_class(list[k])->0).contains(list[k]),
    decreases n,
{
    let before = with_permissions(summary, list, n - 1);
    match permission_class(list[n - 1]) {
        Some(class) => {
            lemma_filed(before, class, list[n - 1]);
        },
        None => {},
    }
    if k < n - 1 {
        lemma_permissions_filed(summary, list, n - 1, k);
        assert(class_list(before, permission_class(list[k])->0).contains(list[k]));
    }
}

proof fn lemma_permissions_source(list: Seq<Seq<char>>, n: int, name: Seq<char>)
    requires
        0 <= n <= list.len(),
        with_permissions(empty_permission_summary(), list, n).admin.contains(name),
    ensures
        list.contains(name),
    decreases n,
{
    if n > 0 {
        let before = with_permissions(empty_permission_summary(), list, n - 1);
        let now = with_permissions(empty_permission_summary(), list, n);
        if before.admin.contains(name) {
            lemma_permissions_source(list, n - 1, name);
        } else {
            let m = choose|m: int| 0 <= m < now.admin.len() && now.admin[m] == name;
            if m < before.admin.len() {
                assert(before.admin[m] == name);
            }
            assert(list[n - 1] == name);
        }
    }
}

/// The gravest permission decides: to administer the system is critical, to administer projects high at
/// least, to create, edit or delete issues medium at least. Each is reported in its class. Every project
/// is reported under its name and key, at medium risk where the token can change anything.
pub proof fn lemma_gravest_permission_decides(
    base_url: Seq<char>,
    user: JiraUser,
    granted: Result<Vec<String>, String>,
    projects: Result<Vec<JiraProject>, String>,
    k: int,
    p: int,
)
    ensures
        ({
            let result = jira_result(base_url, user, granted, projects);
            let names = texts(listed(granted));
            let list = listed(projects);
            &&& 0 <= k < names.len() ==> {
                let name = names[k];
                &&& name == "SYSTEM_ADMIN"@ ==> result.severity == Severity::Critical
                    && result.permissions.admin.contains(name)
                &&& name == "ADMINISTER_PROJECTS"@ ==> (result.severity == Severity::High
                    || result.severity == Severity::Critical) && result.permissions.admin.contains(name)
                &&& name == "DELETE_ISSUES"@ || name == "EDIT_ISSUES"@ || name == "CREATE_ISSUES"@ || name
                    == "MANAGE_WATCHERS"@ ==> result.severity != Severity::Low
                    && result.permissions.risky.contains(name)
                &&& name == "BROWSE_PROJECTS"@ ==> result.permissions.read_only.contains(name)
                &&& (name == "SYSTEM_ADMIN"@ || name == "ADMINISTER_PROJECTS"@ || name
                    == "DELETE_ISSUES"@ || name == "EDIT_ISSUES"@ || name == "CREATE_ISSUES"@) && 0 <= p
                    < list.len() ==> result.resources[p].risk == "medium"@
            }
            &&& !names.contains("SYSTEM_ADMIN"@) ==> result.severity != Severity::Critical
            &&& 0 <= p < list.len() ==> result.resources[p].name == list[p].name@ + " ("@ + list[p].key@
                + ")"@ && result.resources[p].permissions == names
            &&& user.email_address is Some ==> result.identity.id == user.email_address->0@
        }),
{
    let names = texts(listed(granted));
    let n = names.len() as int;
    let list = listed(projects);
    reveal_strlit("SYSTEM_ADMIN");
    reveal_strlit("ADMINISTER_PROJECTS");
    reveal_strlit("DELETE_ISSUES");
    reveal_strlit("EDIT_ISSUES");
    reveal_strlit("CREATE_ISSUES");
    reveal_strlit("MANAGE_WATCHERS");
    reveal_strlit("BROWSE_PROJECTS");
    assert("SYSTEM_ADMIN"@.len() == 12);
    assert("ADMINISTER_PROJECTS"@.len() == 19);
    assert("DELETE_ISSUES"@.len() == 13);
    assert("EDIT_ISSUES"@.len() == 11);
    assert("CREATE_ISSUES"@.len() == 13);
    assert("MANAGE_WATCHERS"@.len() == 15);
    assert("BROWSE_PROJECTS"@.len() == 15);
    assert("DELETE_ISSUES"@[0] != "CREATE_ISSUES"@[0]);
    assert("MANAGE_WATCHERS"@[0] != "BROWSE_PROJECTS"@[0]);
    lemma_projects_listed(list, list.len() as int, names);
    if 0 <= k < n && permission_class(names[k]) is Some {
        lemma_permissions_filed(empty_permission_summary(), names, n, k);
        assert(is_write(names[k]) ==> some_write(names));
    }
    if with_permissions(empty_permission_summary(), names, n).admin.contains("SYSTEM_ADMIN"@) {
        lemma_permissions_source(names, n, "SYSTEM_ADMIN"@);
    }
}

proof fn lemma_granted_upto(list: Seq<JiraPermissionEntry>, n: int, k: int)
    requires
        0 <= k < n <= list.len(),
        list[k].have_permission,
    ensures
        granted_upto(list, n).contains(list[k].name@),
    decreases n,
{
    let before = granted_upto(list, n - 1);
    let now = granted_upto(list, n);
    if k < n - 1 {
        lemma_granted_upto(list, n - 1, k);
        let m = choose|m: int| 0 <= m < before.len() && before[m] == list[k].name@;
        assert(now[m] == before[m]);
    } else {
        assert(now[before.len() as int] == list[k].name@);
    }
}

/// The permissions of a user are those that the user is said to have, all of them and no others.
pub proof fn lemma_held_permissions_count(list: Seq<JiraPermissionEntry>, k: int)
    requires
        0 <= k < list.len(),
    ensures
        list[k].have_permission ==> granted_upto(list, list.len() as int).contains(list[k].name@),
        (forall|j: int| 0 <= j < list.len() ==> !(#[trigger] list[j]).have_permission) ==> granted_upto(
            list,
            list.len() as int,
        ).len() == 0,
{
    if list[k].have_permission {
        lemma_granted_upto(list, list.len() as int, k);
    }
    if forall|j: int| 0 <= j < list.len() ==> !(#[trigger] list[j]).have_permission {
        lemma_none_granted(list, list.len() as int);
    }
}

proof fn lemma_none_granted(list: Seq<JiraPermissionEntry>, n: int)
    requires
        0 <= n <= list.len(),
        forall|j: int| 0 <= j < list.len() ==> !(#[trigger] list[j]).have_permission,
    ensures
        granted_upto(list, n).len() == 0,
    decreases n,
{
    if n > 0 {
        lemma_none_granted(list, n - 1);
    }
}

} // verus!
