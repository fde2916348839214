//! monday.com tokens.

use vstd::prelude::*;
use crate::json::{show_opt, shown_opt, Json};
use crate::mapping::{build_result, plain_result};
use crate::model::{
    binding, empty_access_token_details, empty_permission_summary, exposure, no_views, one_view,
    push_view, views, AccessMapResult, AccessMapResultView, AccessSummary, AccessSummaryView,
    AccessTokenDetails, AccessTokenDetailsView, PermissionSummary, ProviderMetadata,
    ProviderMetadataView, ResourceExposure, ResourceExposureView, RoleBinding, RoleBindingView,
    Severity,
};
use crate::permissions::{
    class_list, file_permission, filed, lemma_filed, lemma_sorted_classes_stay_filled,
    lemma_sorted_summary, sort_permission_summary, sorted_summary, PermissionClass,
};
use crate::text::{
    cat2, cat3, copy_opt, either, first_text, flag_set, is_set, join, joined, no_texts, one_text,
    opt_text, or_text, push_text, str_eq, text_else, text_or, texts, two_texts, unwrap_text,
};

verus! {

/// The account of a user.
#[derive(Debug)]
pub struct MondayAccount {
    pub id: Option<Json>,
    pub name: Option<String>,
    pub slug: Option<String>,
    pub plan_tier: Option<String>,
}

/// A user and the names of its teams.
#[derive(Debug)]
pub struct MondayUser {
    pub id: Option<Json>,
    pub name: Option<String>,
    pub email: Option<String>,
    pub is_admin: Option<bool>,
    pub is_guest: Option<bool>,
    pub is_view_only: Option<bool>,
    pub created_at: Option<String>,
    pub last_activity: Option<String>,
    pub account: Option<MondayAccount>,
    pub teams: Vec<Option<String>>,
}

/// A workspace.
#[derive(Debug)]
pub struct MondayWorkspace {
    pub id: Option<Json>,
    pub name: Option<String>,
    pub kind: Option<String>,
    pub state: Option<String>,
}

/// A board.
#[derive(Debug)]
pub struct MondayBoard {
    pub id: Option<Json>,
    pub name: Option<String>,
    pub board_kind: Option<String>,
    pub state: Option<String>,
}

/// The messages among the first `n` errors.
pub open spec fn messages_upto(errors: Seq<Option<String>>, n: int) -> Seq<Seq<char>>
    decreases n,
{
    if n <= 0 {
        Seq::empty()
    } else {
        match errors[n - 1] {
            Some(message) => messages_upto(errors, n - 1).push(message@),
            None => messages_upto(errors, n - 1),
        }
    }
}

/// What the errors of an answer say, where it has any.
pub open spec fn query_failure(errors: Option<Vec<Option<String>>>) -> Option<Seq<char>> {
    match errors {
        Some(list) => if list@.len() > 0 {
            Some(joined(messages_upto(list@, list@.len() as int), "; "@))
        } else {
            None
        },
        None => None,
    }
}

/// Says what the errors of an answer say, where it has any. The lists of an answer with errors are
/// not looked at.
pub fn query_errors(errors: &Option<Vec<Option<String>>>) -> (failure: Option<String>)
    ensures
        opt_text(failure) == query_failure(*errors),
{
    match errors {
        Some(list) => {
            if list.len() == 0 {
                return None;
            }
            let mut messages = no_texts();
            let mut i: usize = 0;
            while i < list.len()
                invariant
                    i <= list@.len(),
                    texts(messages@) == messages_upto(list@, i as int),
                decreases list@.len() - i,
            {
                match &list[i] {
                    Some(message) => push_text(&mut messages, message.clone()),
                    None => {},
                }
                i = i + 1;
            }
            Some(join(&messages, "; "))
        },
        None => None,
    }
}

/// Takes the user out of the answer to the first query.
pub fn read_me(errors: &Option<Vec<Option<String>>>, me: Option<MondayUser>) -> (user: Result<
    MondayUser,
    String,
>)
    ensures
        match user {
            Ok(found) => query_failure(*errors) is None && me == Some(found),
            Err(error) => match query_failure(*errors) {
                Some(message) => error@ == "monday.com access-map: me query failed: "@ + message,
                None => me is None && error@ == "monday.com access-map: me query returned no data"@,
            },
        },
{
    match query_errors(errors) {
        Some(message) => Err(cat2("monday.com access-map: me query failed: ", message.as_str())),
        None => match me {
            Some(found) => Ok(found),
            None => Err("monday.com access-map: me query returned no data".to_owned()),
        },
    }
}

/// What a user may do in the account.
#[derive(Clone, Copy, Debug, PartialEq, Eq, Structural)]
pub enum MondayStanding {
    Admin,
    Guest,
    Viewer,
    Member,
}

/// The role of a user: an administrator before a guest, a guest before a viewer.
pub open spec fn standing(user: MondayUser) -> MondayStanding {
    if is_set(user.is_admin) {
        MondayStanding::Admin
    } else if is_set(user.is_guest) {
        MondayStanding::Guest
    } else if is_set(user.is_view_only) {
        MondayStanding::Viewer
    } else {
        MondayStanding::Member
    }
}

fn find_standing(user: &MondayUser) -> (found: MondayStanding)
    ensures
        found == standing(*user),
{
    if flag_set(user.is_admin) {
        MondayStanding::Admin
    } else if flag_set(user.is_guest) {
        MondayStanding::Guest
    } else if flag_set(user.is_view_only) {
        MondayStanding::Viewer
    } else {
        MondayStanding::Member
    }
}

/// The kind of access of a user: a guest before a viewer, a viewer before an administrator.
pub open spec fn access_type_of(user: MondayUser) -> Seq<char> {
    if is_set(user.is_guest) {
        "guest"@
    } else if is_set(user.is_view_only) {
        "viewer"@
    } else if is_set(user.is_admin) {
        "admin"@
    } else {
        "user"@
    }
}

/// The name and the permission of a role.
pub open spec fn standing_texts(found: MondayStanding) -> (Seq<char>, Seq<char>) {
    match found {
        MondayStanding::Admin => ("account_admin"@, "account:admin"@),
        MondayStanding::Guest => ("guest"@, "account:guest"@),
        MondayStanding::Viewer => ("viewer"@, "account:viewer"@),
        MondayStanding::Member => ("member"@, "account:member"@),
    }
}

/// The class of what a role permits.
pub open spec fn standing_class(found: MondayStanding) -> PermissionClass {
    match found {
        MondayStanding::Admin => PermissionClass::Admin,
        MondayStanding::Guest | MondayStanding::Viewer => PermissionClass::ReadOnly,
        MondayStanding::Member => PermissionClass::Risky,
    }
}

fn describe(found: MondayStanding) -> (told: (&'static str, &'static str, PermissionClass))
    ensures
        (told.0@, told.1@) == standing_texts(found),
        told.2 == standing_class(found),
{
    match found {
        MondayStanding::Admin => ("account_admin", "account:admin", PermissionClass::Admin),
        MondayStanding::Guest => ("guest", "account:guest", PermissionClass::ReadOnly),
        MondayStanding::Viewer => ("viewer", "account:viewer", PermissionClass::ReadOnly),
        MondayStanding::Member => ("member", "account:member", PermissionClass::Risky),
    }
}

/// The role that a team stands for.
pub open spec fn team_binding(team: Option<String>) -> RoleBindingView {
    binding("team:"@ + text_or(team, "unknown_team"@), "monday"@, Seq::empty())
}

fn bind_team(team: &Option<String>) -> (role: RoleBinding)
    ensures
        role@ == team_binding(*team),
{
    let name = unwrap_text(team, "unknown_team");
    RoleBinding::new(cat2("team:", name.as_str()).as_str(), "monday", no_texts())
}

/// The roles that stand for the first `n` teams.
pub open spec fn teams_upto(list: Seq<Option<String>>, n: int) -> Seq<RoleBindingView>
    decreases n,
{
    if n <= 0 {
        Seq::empty()
    } else {
        teams_upto(list, n - 1).push(team_binding(list[n - 1]))
    }
}

fn add_teams(roles: &mut Vec<RoleBinding>, list: &Vec<Option<String>>)
    ensures
        views(final(roles)@) == views(old(roles)@) + teams_upto(
            list@,
            list@.len() as int,
        ),
{
    let ghost before = views(roles@);
    let mut i: usize = 0;
    assert(before =~= before + teams_upto(list@, 0));
    while i < list.len()
        invariant
            i <= list@.len(),
            views(roles@) == before + teams_upto(list@, i as int),
        decreases list@.len() - i,
    {
        push_view(roles, bind_team(&list[i]));
        i = i + 1;
        assert(views(roles@) =~= before + teams_upto(list@, i as int));
    }
}

/// The resource that stands for a workspace.
pub open spec fn workspace_exposure(workspace: MondayWorkspace) -> ResourceExposureView {
    let kind = text_or(workspace.kind, "unknown"@);
    exposure(
        "workspace"@,
        text_else(
            either(opt_text(workspace.name), shown_opt(workspace.id)),
            "unknown_workspace"@,
        ),
        seq!["workspace:"@ + kind, "state:"@ + text_or(workspace.state, "active"@)],
        if kind == "open"@ {
            Severity::Medium
        } else {
            Severity::Low
        },
        "monday.com "@ + kind + " workspace accessible with this token"@,
    )
}

fn expose_workspace(workspace: &MondayWorkspace) -> (resource: ResourceExposure)
    ensures
        resource@ == workspace_exposure(*workspace),
{
    let kind = unwrap_text(&workspace.kind, "unknown");
    let state = unwrap_text(&workspace.state, "active");
    let risk = if str_eq(kind.as_str(), "open") {
        Severity::Medium
    } else {
        Severity::Low
    };
    let shown_kind = cat2("workspace:", kind.as_str());
    let shown_state = cat2("state:", state.as_str());
    ResourceExposure::new(
        "workspace",
        first_text(&workspace.name, &show_opt(&workspace.id), "unknown_workspace").as_str(),
        two_texts(shown_kind.as_str(), shown_state.as_str()),
        risk,
        cat3("monday.com ", kind.as_str(), " workspace accessible with this token").as_str(),
    )
}

/// The resources that stand for the first `n` workspaces.
pub open spec fn workspaces_upto(list: Seq<MondayWorkspace>, n: int) -> Seq<ResourceExposureView>
    decreases n,
{
    if n <= 0 {
        Seq::empty()
    } else {
        workspaces_upto(list, n - 1).push(workspace_exposure(list[n - 1]))
    }
}

fn add_workspaces(resources: &mut Vec<ResourceExposure>, list: &Vec<MondayWorkspace>)
    ensures
        views(final(resources)@) == views(old(resources)@) + workspaces_upto(
            list@,
            list@.len() as int,
        ),
{
    let ghost before = views(resources@);
    let mut i: usize = 0;
    assert(before =~= before + workspaces_upto(list@, 0));
    while i < list.len()
        invariant
            i <= list@.len(),
            views(resources@) == before + workspaces_upto(list@, i as int),
        decreases list@.len() - i,
    {
        push_view(resources, expose_workspace(&list[i]));
        i = i + 1;
        assert(views(resources@) =~= before + workspaces_upto(list@, i as int));
    }
}

/// The resource that stands for a board.
pub open spec fn board_exposure(board: MondayBoard) -> ResourceExposureView {
    let kind = text_or(board.board_kind, "unknown"@);
    exposure(
        "board"@,
        text_else(either(opt_text(board.name), shown_opt(board.id)), "unknown_board"@),
        seq!["board:"@ + kind, "state:"@ + text_or(board.state, "active"@)],
        if kind == "private"@ || kind == "share"@ {
            Severity::Medium
        } else {
            Severity::Low
        },
        "monday.com "@ + kind + " board accessible with this token"@,
    )
}

fn expose_board(board: &MondayBoard) -> (resource: ResourceExposure)
    ensures
        resource@ == board_exposure(*board),
{
    let kind = unwrap_text(&board.board_kind, "unknown");
    let state = unwrap_text(&board.state, "active");
    let risk = if str_eq(kind.as_str(), "private") || str_eq(kind.as_str(), "share") {
        Severity::Medium
    } else {
        Severity::Low
    };
    let shown_kind = cat2("board:", kind.as_str());
    let shown_state = cat2("state:", state.as_str());
    ResourceExposure::new(
        "board",
        first_text(&board.name, &show_opt(&board.id), "unknown_board").as_str(),
        two_texts(shown_kind.as_str(), shown_state.as_str()),
        risk,
        cat3("monday.com ", kind.as_str(), " board accessible with this token").as_str(),
    )
}

/// The resources that stand for the first `n` boards.
pub open spec fn boards_upto(list: Seq<MondayBoard>, n: int) -> Seq<ResourceExposureView>
    decreases n,
{
    if n <= 0 {
        Seq::empty()
    } else {
        boards_upto(list, n - 1).push(board_exposure(list[n - 1]))
    }
}

fn add_boards(resources: &mut Vec<ResourceExposure>, list: &Vec<MondayBoard>)
    ensures
        views(final(resources)@) == views(old(resources)@) + boards_upto(
            list@,
            list@.len() as int,
        ),
{
    let ghost before = views(resources@);
    let mut i: usize = 0;
    assert(before =~= before + boards_upto(list@, 0));
    while i < list.len()
        invariant
            i <= list@.len(),
            views(resources@) == before + boards_upto(list@, i as int),
        decreases list@.len() - i,
    {
        push_view(resources, expose_board(&list[i]));
        i = i + 1;
        assert(views(resources@) =~= before + boards_upto(list@, i as int));
    }
}

/// How grave it is what a token shows.
pub open spec fn monday_severity(user: MondayUser, workspaces: nat, boards: nat) -> Severity {
    if is_set(user.is_admin) {
        Severity::Critical
    } else if is_set(user.is_guest) || is_set(user.is_view_only) {
        Severity::Low
    } else if workspaces > 5 || boards > 20 {
        Severity::High
    } else if workspaces > 0 || boards > 0 {
        Severity::Medium
    } else {
        Severity::Low
    }
}

pub fn derive_severity(
    user: &MondayUser,
    workspaces: &Vec<MondayWorkspace>,
    boards: &Vec<MondayBoard>,
) -> (severity: Severity)
    ensures
        severity == monday_severity(*user, workspaces@.len(), boards@.len()),
{
    if flag_set(user.is_admin) {
        Severity::Critical
    } else if flag_set(user.is_guest) || flag_set(user.is_view_only) {
        Severity::Low
    } else if workspaces.len() > 5 || boards.len() > 20 {
        Severity::High
    } else if workspaces.len() > 0 || boards.len() > 0 {
        Severity::Medium
    } else {
        Severity::Low
    }
}

/// How a user is called.
pub open spec fn monday_user(user: MondayUser) -> Seq<char> {
    text_else(either(opt_text(user.name), opt_text(user.email)), "monday_user"@)
}

/// What is known of the account of a user: its ID, name, slug and plan.
pub open spec fn account_fields(user: MondayUser) -> (
    Option<Seq<char>>,
    Option<Seq<char>>,
    Option<Seq<char>>,
    Option<Seq<char>>,
) {
    match user.account {
        Some(account) => (
            shown_opt(account.id),
            opt_text(account.name),
            opt_text(account.slug),
            opt_text(account.plan_tier),
        ),
        None => (None, None, None, None),
    }
}

/// The resources that a token shows. Where it shows none, the account stands for them, but for an
/// administrator.
pub open spec fn monday_resources(
    user: MondayUser,
    workspaces: Seq<MondayWorkspace>,
    boards: Seq<MondayBoard>,
) -> Seq<ResourceExposureView> {
    let found = workspaces_upto(workspaces, workspaces.len() as int) + boards_upto(
        boards,
        boards.len() as int,
    );
    if workspaces.len() == 0 && boards.len() == 0 && !is_set(user.is_admin) {
        found.push(
            exposure(
                "account"@,
                text_else(account_fields(user).1, monday_user(user)),
                Seq::empty(),
                Severity::Low,
                "monday.com account associated with the token"@,
            ),
        )
    } else {
        found
    }
}

/// The notes on a token.
pub open spec fn monday_notes(user: MondayUser, shown: nat) -> Seq<Seq<char>> {
    let first = if is_set(user.is_admin) {
        seq!["Token is attached to a monday.com account administrator"@]
    } else {
        Seq::empty()
    };
    if shown == 0 {
        first.push(
            "Token did not enumerate any workspaces or boards (limited scope or empty account)"@,
        )
    } else {
        first
    }
}

/// What is told of a token and its user.
pub open spec fn monday_details(user: MondayUser) -> AccessTokenDetailsView {
    let (account_id, account_name, slug, tier) = account_fields(user);
    AccessTokenDetailsView {
        name: opt_text(user.name),
        username: opt_text(user.email),
        account_type: Some(access_type_of(user)),
        company: account_name,
        email: opt_text(user.email),
        url: match slug {
            Some(text) => Some("https://"@ + text + ".monday.com"@),
            None => None,
        },
        token_type: Some(
            if is_set(user.is_admin) {
                "admin_api_token"@
            } else if is_set(user.is_guest) {
                "guest_api_token"@
            } else {
                "api_token"@
            },
        ),
        created_at: opt_text(user.created_at),
        last_used_at: opt_text(user.last_activity),
        user_id: shown_opt(user.id),
        ..empty_access_token_details()
    }
}

/// What a monday.com token gives access to.
pub open spec fn monday_result(
    user: MondayUser,
    workspaces: Seq<MondayWorkspace>,
    boards: Seq<MondayBoard>,
) -> AccessMapResultView {
    let (account_id, account_name, slug, tier) = account_fields(user);
    let told = standing_texts(standing(user));
    AccessMapResultView {
        provider_metadata: Some(
            ProviderMetadataView { version: tier, enterprise: None, authorization_evidence: None },
        ),
        ..plain_result(
            "monday"@,
            AccessSummaryView {
                id: monday_user(user),
                access_type: access_type_of(user),
                project: either(account_name, slug),
                tenant: slug,
                account_id,
            },
            seq![binding(told.0, "monday"@, seq![told.1])] + teams_upto(
                user.teams@,
                user.teams@.len() as int,
            ),
            sorted_summary(
                filed(empty_permission_summary(), standing_class(standing(user)), told.1),
            ),
            monday_resources(user, workspaces, boards),
            monday_severity(user, workspaces.len(), boards.len()),
            monday_notes(user, workspaces.len() + boards.len()),
            Some(monday_details(user)),
        )
    }
}

fn describe_access(user: &MondayUser) -> (kind: &'static str)
    ensures
        kind@ == access_type_of(*user),
{
    if flag_set(user.is_guest) {
        "guest"
    } else if flag_set(user.is_view_only) {
        "viewer"
    } else if flag_set(user.is_admin) {
        "admin"
    } else {
        "user"
    }
}

fn detail_token(user: &MondayUser) -> (details: AccessTokenDetails)
    ensures
        details@ == monday_details(*user),
{
    let mut details = AccessTokenDetails::default();
    details.name = copy_opt(&user.name);
    details.username = copy_opt(&user.email);
    details.account_type = Some(describe_access(user).to_owned());
    details.email = copy_opt(&user.email);
    match &user.account {
        Some(account) => {
            details.company = copy_opt(&account.name);
            match &account.slug {
                Some(slug) => {
                    details.url = Some(cat3("https://", slug.as_str(), ".monday.com"));
                },
                None => {},
            }
        },
        None => {},
    }
    let token_type: &str = if flag_set(user.is_admin) {
        "admin_api_token"
    } else if flag_set(user.is_guest) {
        "guest_api_token"
    } else {
        "api_token"
    };
    details.token_type = Some(token_type.to_owned());
    details.created_at = copy_opt(&user.created_at);
    details.last_used_at = copy_opt(&user.last_activity);
    details.user_id = show_opt(&user.id);
    details
}

/// Maps a monday.com token from what the service answered to it. A listing that failed is empty.
pub fn map_access_from_token(
    user: &MondayUser,
    workspaces: &Vec<MondayWorkspace>,
    boards: &Vec<MondayBoard>,
) -> (result: AccessMapResult)
    ensures
        result@ == monday_result(*user, workspaces@, boards@),
{
    let username = first_text(&user.name, &user.email, "monday_user");
    let (account_id, account_name, slug, tier) = match &user.account {
        Some(account) => (
            show_opt(&account.id),
            copy_opt(&account.name),
            copy_opt(&account.slug),
            copy_opt(&account.plan_tier),
        ),
        None => (None, None, None, None),
    };
    let (role_name, permission, class) = describe(find_standing(user));
    let mut roles = one_view(RoleBinding::new(role_name, "monday", one_text(permission)));
    add_teams(&mut roles, &user.teams);
    let mut permissions = PermissionSummary::default();
    file_permission(&mut permissions, class, permission.to_owned());
    sort_permission_summary(&mut permissions);
    let mut resources: Vec<ResourceExposure> = no_views();
    add_workspaces(&mut resources, workspaces);
    add_boards(&mut resources, boards);
    let severity = derive_severity(user, workspaces, boards);
    let mut risk_notes = no_texts();
    if flag_set(user.is_admin) {
        push_text(
            &mut risk_notes,
            "Token is attached to a monday.com account administrator".to_owned(),
        );
    }
    if workspaces.len() == 0 && boards.len() == 0 {
        if !flag_set(user.is_admin) {
            push_view(
                &mut resources,
                ResourceExposure::new(
                    "account",
                    unwrap_text(&account_name, username.as_str()).as_str(),
                    no_texts(),
                    Severity::Low,
                    "monday.com account associated with the token",
                ),
            );
        }
        push_text(
            &mut risk_notes,
            "Token did not enumerate any workspaces or boards (limited scope or empty account)".to_owned(),
        );
    }
    assert(views(resources@) =~= monday_resources(*user, workspaces@, boards@));
    assert(texts(risk_notes@) =~= monday_notes(*user, workspaces@.len() + boards@.len()));
    let identity = AccessSummary {
        id: username,
        access_type: describe_access(user).to_owned(),
        project: or_text(&account_name, &slug),
        tenant: slug,
        account_id,
    };
    let details = detail_token(user);
    let mut result = build_result(
        "monday",
        identity,
        roles,
        permissions,
        resources,
        severity,
        risk_notes,
        Some(details),
    );
    result.provider_metadata = Some(
        ProviderMetadata { version: tier, enterprise: None, authorization_evidence: None },
    );
    result
}

proof fn lemma_workspaces_listed(list: Seq<MondayWorkspace>, n: int)
    requires
        0 <= n <= list.len(),
    ensures
        workspaces_upto(list, n).len() == n,
        forall|k: int| 0 <= k < n ==> #[trigger] workspaces_upto(list, n)[k] == workspace_exposure(list[k]),
    decreases n,
{
    if n > 0 {
        lemma_workspaces_listed(list, n - 1);
    }
}

proof fn lemma_boards_listed(list: Seq<MondayBoard>, n: int)
    requires
        0 <= n <= list.len(),
    ensures
        boards_upto(list, n).len() == n,
        forall|k: int| 0 <= k < n ==> #[trigger] boards_upto(list, n)[k] == board_exposure(list[k]),
    decreases n,
{
    if n > 0 {
        lemma_boards_listed(list, n - 1);
    }
}

/// An administrator is critical whatever else is known; a guest or a viewer that is none is low; a member
/// is medium with any workspace or board and high with more than five workspaces or twenty boards. Every
/// workspace and every board is reported under its name, an open workspace and a private or shared board
/// at medium risk.
pub proof fn lemma_standing_decides(
    user: MondayUser,
    workspaces: Seq<MondayWorkspace>,
    boards: Seq<MondayBoard>,
    k: int,
)
    ensures
        ({
            let result = monday_result(user, workspaces, boards);
            let admin = user.is_admin == Some(true);
            let limited = user.is_guest == Some(true) || user.is_view_only == Some(true);
            &&& admin <==> result.severity == Severity::Critical
            &&& admin ==> result.permissions.admin.contains("account:admin"@)
            &&& !admin && limited ==> result.severity == Severity::Low
                && result.permissions.read_only.len() > 0 && result.permissions.risky.len() == 0
            &&& !admin && !limited ==> {
                &&& workspaces.len() > 5 || boards.len() > 20 <==> result.severity == Severity::High
                &&& workspaces.len() == 0 && boards.len() == 0 <==> result.severity == Severity::Low
                &&& result.permissions.risky.contains("account:member"@)
            }
            &&& 0 <= k < workspaces.len() && workspaces[k].name is Some ==> result.resources[k].name
                == workspaces[k].name->0@ && (workspaces[k].kind is Some && workspaces[k].kind->0@
                == "open"@ ==> result.resources[k].risk == "medium"@)
            &&& 0 <= k < boards.len() && boards[k].name is Some ==> {
                let resource = result.resources[workspaces.len() + k];
                &&& resource.name == boards[k].name->0@
                &&& boards[k].board_kind is Some && (boards[k].board_kind->0@ == "private"@
                    || boards[k].board_kind->0@ == "share"@) ==> resource.risk == "medium"@
                &&& boards[k].board_kind is Some && boards[k].board_kind->0@ == "public"@ ==> resource.risk
                    == "low"@
            }
            &&& user.name is Some ==> result.identity.id == user.name->0@
        }),
{
    lemma_workspaces_listed(workspaces, workspaces.len() as int);
    lemma_boards_listed(boards, boards.len() as int);
    let told = standing_texts(standing(user));
    let class = standing_class(standing(user));
    let raw = filed(empty_permission_summary(), class, told.1);
    lemma_filed(empty_permission_summary(), class, told.1);
    lemma_sorted_summary(raw, class);
    lemma_sorted_classes_stay_filled(raw, PermissionClass::ReadOnly);
    lemma_sorted_classes_stay_filled(raw, PermissionClass::Risky);
    assert(class_list(sorted_summary(raw), class).contains(told.1));
    reveal_strlit("private");
    reveal_strlit("share");
    reveal_strlit("public");
    assert("private"@.len() == 7 && "share"@.len() == 5 && "public"@.len() == 6);
}

} // verus!
