//! MySQL grants.

use access_map::model::Severity;
use access_map::mysql::{
    can_read, map_access_from_uri, parse_grants, read_row, try_map_access_from_uri, RowReading,
};

fn rows(list: &[&str]) -> Vec<String> {
    list.iter().map(|row| row.to_string()).collect()
}

fn text(value: &str) -> Option<String> {
    Some(value.to_string())
}

#[test]
fn grant_rows_are_parsed() {
    let list = rows(&[
        "GRANT SELECT, insert ON `mydb`.* TO 'user'@'host'",
        "grant usage on *.* to `u`@`%`",
        "GRANT PROXY",
        "REVOKE SELECT ON a TO b",
        "GRANT  ,  ON `x`.* TO 'u'",
        "GRANT SELECT ON `t`.*",
    ]);
    assert!(can_read(&list));
    let grants = parse_grants(&list);
    assert_eq!(grants.len(), 3);
    assert_eq!(grants[0].privileges, vec!["SELECT".to_string(), "INSERT".to_string()]);
    assert_eq!(grants[0].scope, "`mydb`.*");
    assert_eq!(grants[1].privileges, vec!["USAGE".to_string()]);
    assert_eq!(grants[1].scope, "*.*");
    assert_eq!(grants[2].scope, "`t`.*");
}

#[test]
fn proxy_grants_are_skipped() {
    let row = "GRANT PROXY ON ''@'' TO 'root'@'localhost'";
    assert!(matches!(read_row(row), RowReading::Skipped));
    let list = rows(&[
        row,
        "grant proxy on ''@'' to 'root'@'localhost' with grant option",
    ]);
    assert!(can_read(&list));
    assert!(parse_grants(&list).is_empty());

    let list = rows(&["GRANT SELECT, PROXY ON `a`.* TO 'u'@'h'"]);
    let grants = parse_grants(&list);
    assert_eq!(grants.len(), 1);
    assert_eq!(grants[0].privileges, vec!["SELECT".to_string(), "PROXY".to_string()]);
}

#[test]
fn rows_outside_ascii_are_cut_by_bytes() {
    match read_row("grant select (`größe`) on `dänisch`.* to 'u'") {
        RowReading::Grant(grant) => {
            assert_eq!(grant.scope, "`dänisch`.*");
            assert_eq!(grant.privileges, vec!["SELECT (`GRÖSSE`)".to_string()]);
        }
        _ => panic!("the row is a grant"),
    }
}

#[test]
fn rows_without_privileges_cannot_be_cut() {
    assert!(matches!(read_row("GRANT ON `x`.* TO 'u'"), RowReading::Unreadable));
    assert!(!can_read(&rows(&["GRANT ON `x`.* TO 'u'"])));
    assert!(try_map_access_from_uri(&None, &None, Ok(rows(&["GRANT ON x"])), Ok(vec![])).is_none());
}

#[test]
fn all_privileges_everywhere_are_critical() {
    let result = map_access_from_uri(
        &text("root@%"),
        &text("8.0.36"),
        Ok(rows(&["GRANT ALL PRIVILEGES ON *.* TO `root`@`%` WITH GRANT OPTION"])),
        Ok(rows(&["app"])),
    );
    assert!(matches!(result.severity, Severity::Critical));
    assert_eq!(result.identity.access_type, "superuser");
    assert_eq!(result.permissions.admin, vec!["ALL PRIVILEGES".to_string()]);
    assert_eq!(result.resources[0].risk, "medium");
    assert_eq!(result.resources[0].reason, "Database accessible by user 'root@%'");
    assert_eq!(
        result.provider_metadata.unwrap().version.as_deref(),
        Some("8.0.36")
    );
    assert_eq!(result.risk_notes.len(), 1);
}

#[test]
fn grants_count_where_they_apply() {
    let result = map_access_from_uri(
        &None,
        &None,
        Ok(rows(&[
            "GRANT SELECT, UPDATE ON `app`.* TO 'u'@'%'",
            "GRANT CREATE USER ON *.* TO 'u'@'%'",
        ])),
        Ok(rows(&["app", "other"])),
    );
    assert!(matches!(result.severity, Severity::High));
    assert_eq!(result.identity.id, "unknown");
    assert_eq!(result.permissions.admin, vec!["CREATE USER".to_string()]);
    assert_eq!(result.permissions.risky, vec!["UPDATE ON `app`.*".to_string()]);
    assert_eq!(result.permissions.read_only, vec!["SELECT ON `app`.*".to_string()]);
    assert_eq!(
        result.resources[0].permissions,
        vec!["SELECT".to_string(), "UPDATE".to_string(), "CREATE USER".to_string()]
    );
    assert_eq!(result.resources[1].permissions, vec!["CREATE USER".to_string()]);
    assert_eq!(
        result.risk_notes,
        vec!["User has admin-level grants: CREATE USER".to_string()]
    );
}

#[test]
fn grants_on_one_database_are_medium() {
    let result = try_map_access_from_uri(
        &text("u"),
        &None,
        Ok(rows(&["GRANT DELETE ON `app`.* TO 'u'@'%'"])),
        Ok(rows(&["other"])),
    )
    .unwrap();
    assert!(matches!(result.severity, Severity::Medium));
    assert!(result.resources[0].permissions.is_empty());
    assert_eq!(result.resources[0].risk, "low");
}

#[test]
fn failed_mysql_queries_are_noted() {
    let result =
        map_access_from_uri(&None, &None, Err("a".to_string()), Err("b".to_string()));
    assert_eq!(
        result.risk_notes,
        vec![
            "Grant enumeration failed: a".to_string(),
            "Database enumeration failed: b".to_string(),
        ]
    );
    assert!(matches!(result.severity, Severity::Low));
}
