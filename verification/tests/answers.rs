//! Answers that come as JSON values.

use access_map::harness::{
    aggregate_action, extract_first_string, extract_first_string_vec, map_access_from_token,
    page_action, parse_collection, AggregateAction, HarnessOrg, HarnessOrgListing, HarnessProject,
    PageAction,
};
use access_map::json::Json;
use access_map::model::Severity;
use access_map::monday::{
    query_errors, read_me, MondayAccount, MondayBoard, MondayUser, MondayWorkspace,
};

fn text(value: &str) -> Json {
    Json::Text(value.to_string())
}

fn object(fields: Vec<(&str, Json)>) -> Json {
    Json::Object(fields.into_iter().map(|(key, value)| (key.to_string(), value)).collect())
}

#[test]
fn paths_lead_into_objects() {
    let value = Some(object(vec![
        ("name", text("")),
        ("data", object(vec![("name", text("key"))])),
    ]));
    assert_eq!(extract_first_string(&value, &["name", "data.name"]).as_deref(), Some("key"));
    assert!(extract_first_string(&value, &["data.other"]).is_none());
    assert!(extract_first_string(&None, &["name"]).is_none());
}

#[test]
fn scopes_are_sorted_and_distinct() {
    let value = Some(object(vec![(
        "scopes",
        Json::Array(vec![text("b"), text(""), text("a"), Json::Null, text("b")]),
    )]));
    assert_eq!(
        extract_first_string_vec(&value, &["data.scopes", "scopes"]),
        vec!["a".to_string(), "b".to_string()]
    );
}

#[test]
fn collections_are_found_where_they_stand() {
    let keys = ["identifier", "name"];
    let row = || object(vec![("identifier", text("p")), ("name", Json::Null)]);
    let plain = Json::Array(vec![row()]);
    assert_eq!(parse_collection(&plain, &keys), vec![vec![Some("p".to_string()), None]]);
    let nested = object(vec![("data", object(vec![("content", Json::Array(vec![row()]))]))]);
    assert_eq!(parse_collection(&nested, &keys).len(), 1);
    let items = object(vec![("data", object(vec![("items", Json::Array(vec![row(), row()]))]))]);
    assert_eq!(parse_collection(&items, &keys).len(), 2);
    let content = object(vec![("content", Json::Array(vec![row()]))]);
    assert_eq!(parse_collection(&content, &keys).len(), 1);
    let wrong = Json::Array(vec![object(vec![("identifier", Json::Bool(true))])]);
    assert!(parse_collection(&wrong, &keys).is_empty());
    let positional = Json::Array(vec![Json::Array(vec![text("p")])]);
    assert_eq!(parse_collection(&positional, &keys), vec![vec![Some("p".to_string()), None]]);
}

#[test]
fn harness_statuses_decide() {
    assert_eq!(aggregate_action(200), AggregateAction::Read);
    assert_eq!(aggregate_action(403), AggregateAction::Read);
    assert_eq!(aggregate_action(401), AggregateAction::Reject);
    assert_eq!(aggregate_action(500), AggregateAction::Ignore);
    assert_eq!(page_action(200, 1), PageAction::Next);
    assert_eq!(page_action(200, 0), PageAction::Stop);
    assert_eq!(page_action(401, 0), PageAction::Reject);
    assert_eq!(page_action(404, 0), PageAction::Stop);
}

#[test]
fn harness_keys_are_mapped() {
    let aggregate = Some(object(vec![(
        "data",
        object(vec![
            ("name", text("ci")),
            ("scopes", Json::Array(vec![text("core_Admin"), text("pipeline_execute"), text("view")])),
        ]),
    )]));
    let orgs = Ok(vec![
        HarnessOrgListing {
            org: HarnessOrg {
                identifier: Some("default".to_string()),
                name: None,
                account_identifier: Some("acct".to_string()),
            },
            projects: Ok(vec![HarnessProject {
                identifier: None,
                name: Some("web".to_string()),
            }]),
        },
        HarnessOrgListing {
            org: HarnessOrg { identifier: None, name: None, account_identifier: None },
            projects: Err("no answer".to_string()),
        },
    ]);
    let result = map_access_from_token(&aggregate, orgs);
    assert_eq!(result.identity.id, "ci");
    assert_eq!(result.identity.account_id.as_deref(), Some("acct"));
    assert!(matches!(result.severity, Severity::High));
    assert_eq!(result.permissions.admin, vec!["core_Admin".to_string()]);
    assert_eq!(result.permissions.risky, vec!["pipeline_execute".to_string()]);
    assert_eq!(result.permissions.read_only, vec!["view".to_string()]);
    assert_eq!(result.resources.len(), 3);
    assert_eq!(result.resources[1].name, "default/web");
    assert_eq!(
        result.risk_notes,
        vec!["Project enumeration for org unknown_org failed: no answer".to_string()]
    );
}

#[test]
fn harness_keys_that_show_nothing_are_low() {
    let result = map_access_from_token(&None, Err("no answer".to_string()));
    assert_eq!(result.identity.id, "harness_api_key");
    assert!(matches!(result.severity, Severity::Low));
    assert_eq!(result.risk_notes.len(), 2);
    assert_eq!(result.resources[0].name, "harness_account");
}

fn monday_user(admin: bool, guest: bool) -> MondayUser {
    MondayUser {
        id: Some(Json::Number("42".to_string())),
        name: Some("Alice".to_string()),
        email: None,
        is_admin: Some(admin),
        is_guest: Some(guest),
        is_view_only: None,
        created_at: None,
        last_activity: None,
        account: Some(MondayAccount {
            id: Some(text("a1")),
            name: None,
            slug: Some("contoso".to_string()),
            plan_tier: Some("pro".to_string()),
        }),
        teams: vec![Some("ops".to_string()), None],
    }
}

#[test]
fn monday_errors_are_joined() {
    let errors = Some(vec![Some("a".to_string()), None, Some("b".to_string())]);
    assert_eq!(query_errors(&errors).as_deref(), Some("a; b"));
    assert!(query_errors(&Some(vec![])).is_none());
    assert!(query_errors(&None).is_none());
    assert_eq!(
        read_me(&errors, Some(monday_user(false, false))).unwrap_err(),
        "monday.com access-map: me query failed: a; b"
    );
    assert_eq!(
        read_me(&None, None).unwrap_err(),
        "monday.com access-map: me query returned no data"
    );
    assert!(read_me(&None, Some(monday_user(false, false))).is_ok());
}

#[test]
fn monday_administrators_are_critical() {
    let user = monday_user(true, false);
    let result = access_map::monday::map_access_from_token(&user, &vec![], &vec![]);
    assert!(matches!(result.severity, Severity::Critical));
    assert_eq!(result.identity.access_type, "admin");
    assert_eq!(result.identity.project.as_deref(), Some("contoso"));
    assert_eq!(result.identity.account_id.as_deref(), Some("a1"));
    assert!(result.resources.is_empty());
    assert_eq!(result.roles.len(), 3);
    assert_eq!(result.roles[2].name, "team:unknown_team");
    let details = result.token_details.unwrap();
    assert_eq!(details.user_id.as_deref(), Some("42"));
    assert_eq!(details.url.as_deref(), Some("https://contoso.monday.com"));
    assert_eq!(
        result.provider_metadata.unwrap().version.as_deref(),
        Some("pro")
    );
}

#[test]
fn monday_members_are_graded_by_what_they_see() {
    let boards: Vec<MondayBoard> = (0..21)
        .map(|_| MondayBoard {
            id: Some(Json::Number("7".to_string())),
            name: None,
            board_kind: Some("private".to_string()),
            state: None,
        })
        .collect();
    let workspace = MondayWorkspace {
        id: None,
        name: Some("Main".to_string()),
        kind: Some("open".to_string()),
        state: None,
    };
    let member = monday_user(false, false);
    let result = access_map::monday::map_access_from_token(&member, &vec![workspace], &boards);
    assert!(matches!(result.severity, Severity::High));
    assert_eq!(result.permissions.risky, vec!["account:member".to_string()]);
    assert_eq!(result.resources[0].risk, "medium");
    assert_eq!(result.resources[1].name, "7");
    let guest = monday_user(false, true);
    let result = access_map::monday::map_access_from_token(&guest, &vec![], &vec![]);
    assert!(matches!(result.severity, Severity::Low));
    assert_eq!(result.identity.access_type, "guest");
    assert_eq!(result.resources[0].resource_type, "account");
}
