//! Requests, attempts and results.

use access_map::mapping::{
    build_default_account_resource, build_default_resource, build_failed_result,
    build_recommendations, dispatch_access_map_request, map_collected_requests, map_request_attempts,
    map_requests, AccessMapRequest, CollectedAccessMapRequest,
};
use access_map::model::{severity_to_str, AccessMapResult, Severity};

fn github(fingerprint: &str) -> AccessMapRequest {
    AccessMapRequest::Github {
        token: "ghp_example".to_string(),
        fingerprint: fingerprint.to_string(),
    }
}

fn aws() -> AccessMapRequest {
    AccessMapRequest::Aws {
        access_key: "AKIAEXAMPLE".to_string(),
        secret_key: "secret".to_string(),
        session_token: None,
        fingerprint: "f-aws".to_string(),
    }
}

fn done() -> AccessMapResult {
    build_failed_result("github", "alice", "none")
}

#[test]
fn failures_are_reported_with_the_identity_label() {
    let (attempt, fingerprint) = dispatch_access_map_request(aws(), Err("denied".to_string()));
    assert!(!attempt.succeeded);
    assert_eq!(fingerprint, "f-aws");
    assert_eq!(attempt.result.cloud, "aws");
    assert_eq!(attempt.result.identity.id, "AKIAEXAMPLE");
    assert_eq!(
        attempt.result.risk_notes,
        vec!["Identity mapping failed: denied".to_string()]
    );
    assert!(matches!(attempt.result.severity, Severity::Medium));
}

#[test]
fn successes_are_kept_as_they_are() {
    let (attempt, _) = dispatch_access_map_request(github("f"), Ok(done()));
    assert!(attempt.succeeded);
    assert_eq!(attempt.result.identity.id, "alice");
}

#[test]
fn attempts_carry_their_fingerprints() {
    let attempts = map_request_attempts(vec![
        (github("f-1"), Ok(done())),
        (aws(), Err("denied".to_string())),
    ]);
    assert_eq!(attempts[0].result.fingerprint.as_deref(), Some("f-1"));
    assert_eq!(attempts[1].result.fingerprint.as_deref(), Some("f-aws"));
    let results = map_requests(vec![(github("f-1"), Ok(done()))]);
    assert_eq!(results.len(), 1);
}

#[test]
fn collected_requests_keep_their_findings() {
    let results = map_collected_requests(vec![(
        CollectedAccessMapRequest {
            request: github("f-1"),
            finding_fingerprints: vec!["f-1".to_string(), "f-2".to_string()],
        },
        Ok(done()),
    )]);
    assert_eq!(results.len(), 1);
    assert!(results[0].mapping_succeeded);
    assert_eq!(
        results[0].finding_fingerprints,
        vec!["f-1".to_string(), "f-2".to_string()]
    );
}

#[test]
fn fingerprints_belong_to_requests() {
    assert_eq!(github("f").finding_fingerprint(), "f");
    assert_eq!(aws().finding_fingerprint(), "f-aws");
}

#[test]
fn recommendations_follow_the_severity() {
    assert_eq!(
        build_recommendations(Severity::High)[2],
        "Investigate blast radius and revoke unused bindings"
    );
    assert_eq!(
        build_recommendations(Severity::Medium)[2],
        "Review write-level permissions and tighten scopes"
    );
    assert_eq!(
        build_recommendations(Severity::Low)[2],
        "Maintain monitoring for anomalous access"
    );
    assert_eq!(severity_to_str(Severity::Critical), "critical");
}

#[test]
fn default_resources_name_what_they_stand_for() {
    let project = build_default_resource(&Some("p".to_string()), Severity::Low);
    assert_eq!((project.resource_type.as_str(), project.name.as_str()), ("project", "p"));
    assert_eq!(build_default_resource(&None, Severity::Low).name, "");
    let account = build_default_account_resource(&Some("a".to_string()), Severity::High);
    assert_eq!(account.risk, "high");
}
