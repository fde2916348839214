//! Alibaba Cloud credentials and identities.

use access_map::alibaba::{
    canonical_query_string, classify_principal_resource, derive_severity, encode_openapi,
    extract_principal_name, map_access_with_credentials, normalize_identity_type,
    parse_alibaba_credentials, signed_sts_url, CallerIdentity,
};
use access_map::model::Severity;

#[test]
fn parses_json_credentials_with_security_token() {
    let raw = r#"{
            "AccessKeyId": "STS.example",
            "AccessKeySecret": "secret-value",
            "SecurityToken": "token-value"
        }"#;

    let (access_key, secret_key, session_token) =
        parse_alibaba_credentials(raw).expect("credentials should parse");
    assert_eq!(access_key, "STS.example");
    assert_eq!(secret_key, "secret-value");
    assert_eq!(session_token.as_deref(), Some("token-value"));
}

#[test]
fn parses_key_value_credentials() {
    let raw = r#"
            access_key_id=LTAIexample
            access_key_secret=secret-value
        "#;

    let (access_key, secret_key, session_token) =
        parse_alibaba_credentials(raw).expect("credentials should parse");
    assert_eq!(access_key, "LTAIexample");
    assert_eq!(secret_key, "secret-value");
    assert!(session_token.is_none());
}

#[test]
fn classifies_principal_resource_from_arn() {
    let (resource_type, name) =
        classify_principal_resource("acs:ram::1234567890123456:user/admin");
    assert_eq!(resource_type, "ram_user");
    assert_eq!(name, "admin");
}

#[test]
fn alibaba_credentials_without_a_secret_are_refused() {
    assert!(parse_alibaba_credentials("access_key_id=LTAIexample").is_err());
    assert!(parse_alibaba_credentials("").is_err());
}

#[test]
fn openapi_text_keeps_only_unreserved_characters() {
    assert_eq!(encode_openapi("a-Z_0.9~"), "a-Z_0.9~");
    assert_eq!(encode_openapi("a b/c*"), "a%20b%2Fc%2A");
    assert_eq!(encode_openapi("é"), "%C3%A9");
}

#[test]
fn query_strings_join_encoded_pairs() {
    let params = vec![
        ("Action".to_string(), "Get Caller".to_string()),
        ("Format".to_string(), "JSON".to_string()),
    ];
    assert_eq!(canonical_query_string(&params), "Action=Get%20Caller&Format=JSON");
}

#[test]
fn sts_requests_are_signed() {
    let first = signed_sts_url("id", "secret", &None, "nonce", "2026-01-01T00:00:00Z").unwrap();
    let again = signed_sts_url("id", "secret", &None, "nonce", "2026-01-01T00:00:00Z").unwrap();
    let other = signed_sts_url("id", "other", &None, "nonce", "2026-01-01T00:00:00Z").unwrap();
    assert_eq!(
        signed_sts_url("id", "secret", &None, "abc", "2026-01-01T00:00:00Z").unwrap(),
        "https://sts.aliyuncs.com/?AccessKeyId=id&Action=GetCallerIdentity&Format=JSON&Signature=7rKTPM0JN75VAfMneYEoT6DVWbg%3D&SignatureMethod=HMAC-SHA1&SignatureNonce=ABC&SignatureVersion=1.0&Timestamp=2026-01-01T00%3A00%3A00Z&Version=2015-04-01"
    );
    assert!(first.starts_with("https://sts.aliyuncs.com/?"));
    assert!(first.contains("Signature="));
    assert!(first.contains("Action=GetCallerIdentity"));
    assert!(!first.contains("secret"));
    assert_eq!(first, again);
    assert_ne!(first, other);
}

#[test]
fn session_tokens_are_sent_along() {
    let token = Some("session-token".to_string());
    let url = signed_sts_url("id", "secret", &token, "nonce", "2026-01-01T00:00:00Z").unwrap();
    assert!(url.contains("SecurityToken=session-token"));
}

#[test]
fn root_accounts_are_graver_than_sessions() {
    let session = Some("token".to_string());
    assert!(matches!(derive_severity("AssumedRoleUser", &None), Severity::Medium));
    assert!(matches!(derive_severity("RAMUser", &session), Severity::Medium));
    assert!(matches!(derive_severity("RAMUser", &None), Severity::High));
}

#[test]
fn principal_names_come_from_arns() {
    assert_eq!(
        extract_principal_name("acs:ram::1:assumed-role/deploy/session"),
        Some("deploy/session".to_string())
    );
    let (kind, name) = classify_principal_resource("acs:ram::1234567890123456:root");
    assert_eq!(kind, "account");
    assert_eq!(name, "root");
}

#[test]
fn callers_are_mapped() {
    let identity = CallerIdentity {
        identity_type: Some("RAMUser".to_string()),
        account_id: Some("1234567890123456".to_string()),
        arn: Some("acs:ram::1234567890123456:user/admin".to_string()),
        user_id: Some("2800".to_string()),
        principal_id: Some("2800".to_string()),
        role_id: None,
    };
    let result = map_access_with_credentials("LTAIexample", &None, &identity);
    assert_eq!(result.cloud, "alibaba");
    assert_eq!(result.identity.account_id.as_deref(), Some("1234567890123456"));
    assert!(matches!(result.severity, Severity::High));
    assert!(result.resources.iter().any(|resource| resource.resource_type == "ram_user"));
    assert!(!normalize_identity_type("RAMUser").is_empty());
}
