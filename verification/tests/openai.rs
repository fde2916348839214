//! OpenAI keys.

use access_map::model::{PermissionSummary, ResourceExposure, Severity};
use access_map::openai::{derive_severity, detect_token_type, is_access_denied};

#[test]
fn observed_sensitive_resources_raise_severity_without_write_probes() {
    let resources = vec![ResourceExposure {
        resource_type: "file".into(),
        name: "example.jsonl".into(),
        permissions: vec!["file:metadata:read".into()],
        risk: "medium".into(),
        reason: "Visible file metadata".into(),
    }];
    assert!(matches!(
        derive_severity(&PermissionSummary::default(), &resources),
        Severity::Medium
    ));
}

#[test]
fn organization_project_listing_is_high_severity() {
    let mut permissions = PermissionSummary::default();
    permissions.admin.push("organization_projects:list".into());
    assert!(matches!(derive_severity(&permissions, &vec![]), Severity::High));
}

#[test]
fn openai_token_kinds_go_by_prefix() {
    assert_eq!(detect_token_type("sk-proj-x"), "project_api_key");
    assert_eq!(detect_token_type("sk-svcacct-x"), "service_account_api_key");
    assert_eq!(detect_token_type("sk-None-x"), "legacy_api_key");
    assert_eq!(detect_token_type("sk-x"), "api_key");
    assert!(is_access_denied(403));
    assert!(!is_access_denied(500));
}
