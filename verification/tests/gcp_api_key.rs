//! Google API keys.

use access_map::gcp::api_key::{
    build_access_map, check_api_key, classify_response, map_access, probes, read_limited_body,
    transport_reason, unanswered_probe, ApiKeyProbe, ProbeResult, ProbeStatus, MAX_RESPONSE_BODY,
};
use access_map::model::Severity;

fn probe() -> ApiKeyProbe {
    probes()[0]
}

#[test]
fn successful_probe_extracts_identity_toolkit_project() {
    let result = classify_response(
        probe(),
        200,
        br#"{"projectId":"example-project","authorizedDomains":["example.test"]}"#,
    );

    assert_eq!(result.status, ProbeStatus::Accepted);
    assert_eq!(result.project.as_deref(), Some("example-project"));
    assert!(result.reason.is_none());
}

#[test]
fn restriction_reason_and_consumer_are_retained_without_response_text() {
    let result = classify_response(
        probe(),
        403,
        br#"{
                "error": {
                    "details": [{
                        "reason": "API_KEY_SERVICE_BLOCKED",
                        "metadata": {"consumer": "projects/123456", "service": "example.googleapis.com"}
                    }]
                }
            }"#,
    );

    assert_eq!(result.status, ProbeStatus::Restricted);
    assert_eq!(result.reason.as_deref(), Some("API_KEY_SERVICE_BLOCKED"));
    assert_eq!(result.project.as_deref(), Some("123456"));
}

#[test]
fn generic_success_response_is_not_treated_as_access() {
    let result = classify_response(probes()[2], 200, br#"{"status":"healthy"}"#);

    assert_eq!(result.status, ProbeStatus::Inconclusive);
    assert_eq!(result.reason.as_deref(), Some("unexpected_response"));
}

#[test]
fn unrecognized_403_reason_is_still_live_key_evidence() {
    for reason in ["PERMISSION_DENIED", "CONSUMER_SUSPENDED"] {
        let body = format!(r#"{{"error":{{"details":[{{"reason":"{reason}"}}]}}}}"#);
        let result = classify_response(probe(), 403, body.as_bytes());
        assert_eq!(result.status, ProbeStatus::Restricted, "reason: {reason}");
        assert_eq!(result.reason.as_deref(), Some(reason));
    }

    let result = classify_response(probe(), 403, b"forbidden");
    assert_eq!(result.status, ProbeStatus::Inconclusive);
    assert!(result.reason.is_none());

    let result = classify_response(
        probe(),
        400,
        br#"{"error":{"details":[{"reason":"SOMETHING_ELSE"}]}}"#,
    );
    assert_eq!(result.status, ProbeStatus::Inconclusive);
}

#[test]
fn access_map_grants_only_successfully_probed_methods() {
    let results = vec![
        ProbeResult {
            probe: probes()[0],
            status: ProbeStatus::Accepted,
            http_status: Some(200),
            reason: None,
            project: Some("example-project".into()),
        },
        ProbeResult {
            probe: probes()[1],
            status: ProbeStatus::Restricted,
            http_status: Some(403),
            reason: Some("API_KEY_SERVICE_BLOCKED".into()),
            project: None,
        },
    ];

    let mapped = build_access_map(results).unwrap();

    assert_eq!(mapped.identity.project.as_deref(), Some("example-project"));
    assert_eq!(mapped.permissions.read_only, ["identitytoolkit.getProjectConfig"]);
    assert_eq!(mapped.resources.len(), 1);
    assert_eq!(mapped.resources[0].name, "identitytoolkit.googleapis.com");
    let probes = &mapped
        .provider_metadata
        .as_ref()
        .unwrap()
        .authorization_evidence
        .as_ref()
        .unwrap()
        .probes;
    assert_eq!(probes.len(), 2);
    assert_eq!(probes[1].status, "restricted");
}

#[test]
fn restricted_key_returns_partial_result_without_inferred_permissions() {
    let mapped = build_access_map(vec![ProbeResult {
        probe: probes()[1],
        status: ProbeStatus::Restricted,
        http_status: Some(403),
        reason: Some("API_KEY_SERVICE_BLOCKED".into()),
        project: Some("123456".into()),
    }])
    .unwrap();

    assert!(matches!(mapped.severity, Severity::Low));
    assert_eq!(mapped.identity.project.as_deref(), Some("123456"));
    assert!(mapped.permissions.read_only.is_empty());
    assert!(mapped.resources.is_empty());
    let probes = &mapped
        .provider_metadata
        .as_ref()
        .unwrap()
        .authorization_evidence
        .as_ref()
        .unwrap()
        .probes;
    assert_eq!(probes.len(), 1);
    assert_eq!(probes[0].status, "restricted");
    assert_eq!(probes[0].reason.as_deref(), Some("API_KEY_SERVICE_BLOCKED"));
}

#[test]
fn invalid_key_does_not_produce_a_successful_mapping() {
    let result = build_access_map(vec![ProbeResult {
        probe: probes()[0],
        status: ProbeStatus::Invalid,
        http_status: Some(400),
        reason: Some("API_KEY_INVALID".into()),
        project: None,
    }]);

    assert!(result.unwrap_err().contains("invalid"));
}

#[test]
fn invalid_argument_is_classified_as_an_invalid_key() {
    let result =
        classify_response(probe(), 400, br#"{"error":{"status":"INVALID_ARGUMENT"}}"#);
    assert_eq!(result.status, ProbeStatus::Invalid);
}

#[test]
fn a_redirect_says_nothing_of_the_key() {
    let body = br#"{"error":{"status":"INVALID_ARGUMENT"}}"#;
    for http_status in [300, 302, 399] {
        let result = classify_response(probe(), http_status, body);
        assert_eq!(result.status, ProbeStatus::Inconclusive);
        assert_eq!(result.http_status, Some(http_status));
        assert_eq!(result.reason.as_deref(), Some("INVALID_ARGUMENT"));
    }
    let result = classify_response(
        probe(),
        302,
        br#"{"error":{"details":[{"reason":"API_KEY_SERVICE_BLOCKED"}]}}"#,
    );
    assert_eq!(result.status, ProbeStatus::Inconclusive);
    assert_eq!(classify_response(probe(), 400, body).status, ProbeStatus::Invalid);
}

#[test]
fn bodies_are_cut_off_at_the_limit() {
    let mut body: Vec<u8> = Vec::new();
    assert!(read_limited_body(&mut body, b"abc"));
    assert_eq!(body, b"abc");
    let rest = vec![0u8; MAX_RESPONSE_BODY];
    assert!(read_limited_body(&mut body, &rest));
    assert_eq!(body.len(), MAX_RESPONSE_BODY);
    assert!(!read_limited_body(&mut body, b"more"));
    assert_eq!(body.len(), MAX_RESPONSE_BODY);
}

#[test]
fn keys_must_not_be_blank() {
    assert!(check_api_key("   ").is_err());
    assert!(check_api_key("AIzaExample").is_ok());
}

#[test]
fn unanswered_probes_say_why() {
    let reason = transport_reason(true, false, false, false);
    let result = unanswered_probe(probe(), reason);
    assert_eq!(result.reason.as_deref(), Some(reason));
    assert!(result.http_status.is_none());
    assert!(map_access(vec![]).is_err());
}
