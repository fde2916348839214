//! GitLab access levels and projects.

use access_map::gitlab::{
    access_level_to_risk, derive_severity, effective_access_level, map_access_from_token,
    GitLabAccess, GitLabProject, GitLabProjectPermissions, GitLabUser,
};
use access_map::model::Severity;

fn project(level: Option<u32>) -> GitLabProject {
    GitLabProject {
        path_with_namespace: "group/project".to_string(),
        visibility: "private".to_string(),
        permissions: level.map(|access_level| GitLabProjectPermissions {
            project_access: Some(GitLabAccess { access_level }),
            group_access: None,
        }),
    }
}

fn user() -> GitLabUser {
    GitLabUser {
        id: 42,
        username: "alice".to_string(),
        name: "Alice".to_string(),
        email: None,
    }
}

#[test]
fn inherited_group_access_contributes_to_effective_level() {
    let permissions = GitLabProjectPermissions {
        project_access: Some(GitLabAccess { access_level: 20 }),
        group_access: Some(GitLabAccess { access_level: 40 }),
    };
    assert_eq!(effective_access_level(&permissions), 40);
    assert_eq!(access_level_to_risk(40).0, "project:maintainer");
}

#[test]
fn missing_access_is_level_zero() {
    let permissions = GitLabProjectPermissions { project_access: None, group_access: None };
    assert_eq!(effective_access_level(&permissions), 0);
    assert_eq!(access_level_to_risk(0).0, "project:access");
    assert_eq!(access_level_to_risk(50).0, "project:owner");
    assert_eq!(access_level_to_risk(30).0, "project:developer");
    assert_eq!(access_level_to_risk(20).0, "project:reporter");
    assert_eq!(access_level_to_risk(10).0, "project:guest");
}

#[test]
fn gravest_gitlab_project_decides() {
    assert!(matches!(derive_severity(&vec![]), Severity::Low));
    assert!(matches!(derive_severity(&vec![project(None)]), Severity::Low));
    assert!(matches!(derive_severity(&vec![project(Some(30))]), Severity::Medium));
    assert!(matches!(
        derive_severity(&vec![project(Some(30)), project(Some(50))]),
        Severity::High
    ));
}

#[test]
fn gitlab_projects_are_listed() {
    let result = map_access_from_token(&user(), Ok(vec![project(Some(40)), project(Some(40))]));
    assert_eq!(result.identity.account_id.as_deref(), Some("42"));
    assert_eq!(result.permissions.admin, vec!["project:maintainer".to_string()]);
    assert_eq!(result.resources.len(), 2);
    assert_eq!(result.resources[0].reason, "Accessible private project");
    assert!(result.risk_notes.is_empty());
}

#[test]
fn failed_gitlab_listing_is_noted() {
    let result = map_access_from_token(&user(), Err("no answer".to_string()));
    assert_eq!(
        result.risk_notes,
        vec![
            "Project enumeration failed: no answer".to_string(),
            "Token did not enumerate any projects".to_string(),
        ]
    );
    assert_eq!(result.resources[0].resource_type, "account");
}
