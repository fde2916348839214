//! Credential files of the providers that read more than a token.

use access_map::algolia::{key_head, parse_algolia_credentials};
use access_map::artifactory::{instance_base, parse_artifactory_credentials};
use access_map::auth0::{normalize_domain, parse_auth0_credentials};
use access_map::jira::parse_jira_credentials;
use access_map::microsoft_teams::{parse_webhook_url, probe_webhook};

#[test]
fn artifactory_tokens_come_from_json() {
    let found =
        parse_artifactory_credentials(r#"{"access_token":" abc ","url":"https://a.example"}"#)
            .unwrap();
    assert_eq!(found.token, "abc");
    assert_eq!(found.base_url.as_deref(), Some("https://a.example"));
}

#[test]
fn artifactory_first_present_key_decides() {
    let error = parse_artifactory_credentials("{\"token\":1,\"access_token\":\"abc\"}");
    let found = error.unwrap();
    assert_eq!(found.token, "{\"token\":1,\"access_token\":\"abc\"}");
    assert!(found.base_url.is_none());
}

#[test]
fn artifactory_tokens_come_from_lines() {
    let found = parse_artifactory_credentials("# comment\n\n token \nhttps://a.example\n").unwrap();
    assert_eq!(found.token, "token");
    assert_eq!(found.base_url.as_deref(), Some("https://a.example"));
    let found = parse_artifactory_credentials("token").unwrap();
    assert!(found.base_url.is_none());
    let error = parse_artifactory_credentials("# nothing").unwrap_err();
    assert!(error.starts_with("Artifactory credential format not recognized."));
}

#[test]
fn artifactory_addresses_lose_their_slashes() {
    assert_eq!(instance_base(" https://a.example// ").unwrap(), "https://a.example");
    assert_eq!(
        instance_base(" // ").unwrap_err(),
        "Artifactory access-map requires a non-empty base URL"
    );
}

#[test]
fn jira_credentials_need_token_and_address() {
    let found =
        parse_jira_credentials(r#"{"apiToken":"t","domain":" https://j.example "}"#).unwrap();
    assert_eq!(found.token, "t");
    assert_eq!(found.base_url, "https://j.example");
    let found = parse_jira_credentials("t\nhttps://j.example\nmore").unwrap();
    assert_eq!(found.base_url, "https://j.example");
    assert!(parse_jira_credentials("only-a-token")
        .unwrap_err()
        .starts_with("Jira credential format not recognized."));
}

#[test]
fn auth0_credentials_name_what_is_missing() {
    let found =
        parse_auth0_credentials(r#"{"client_id":"a","client_secret":"b","domain":"c"}"#).unwrap();
    assert_eq!((found.client_id.as_str(), found.domain.as_str()), ("a", "c"));
    assert_eq!(found.client_secret, "b");
    assert_eq!(
        parse_auth0_credentials("nothing").unwrap_err(),
        "Auth0 credential file must be valid JSON with client_id, client_secret, and domain"
    );
    assert_eq!(
        parse_auth0_credentials("{}").unwrap_err(),
        "Auth0 credential JSON missing 'client_id'"
    );
    assert_eq!(
        parse_auth0_credentials(r#"{"client_id":"a"}"#).unwrap_err(),
        "Auth0 credential JSON missing 'client_secret'"
    );
    assert_eq!(
        parse_auth0_credentials(r#"{"client_id":"a","client_secret":"b","domain":3}"#).unwrap_err(),
        "Auth0 credential JSON missing 'domain'"
    );
}

#[test]
fn auth0_domains_are_bare() {
    assert_eq!(normalize_domain(" https://tenant.auth0.com/ "), "tenant.auth0.com");
    assert_eq!(normalize_domain("http://tenant.auth0.com/path"), "tenant.auth0.com");
    assert_eq!(normalize_domain("https://https://tenant.auth0.com"), "tenant.auth0.com");
    assert_eq!(normalize_domain("//tenant.auth0.com"), "tenant.auth0.com");
    assert_eq!(normalize_domain(""), "");
}

#[test]
fn algolia_credentials_name_what_is_missing() {
    let found = parse_algolia_credentials(r#"{"app_id":"A","api_key":"K"}"#).unwrap();
    assert_eq!((found.app_id.as_str(), found.api_key.as_str()), ("A", "K"));
    assert_eq!(
        parse_algolia_credentials("x").unwrap_err(),
        "Algolia credential file must be valid JSON with app_id and api_key"
    );
    assert_eq!(
        parse_algolia_credentials("{}").unwrap_err(),
        "Algolia credential JSON missing 'app_id'"
    );
    assert_eq!(
        parse_algolia_credentials(r#"{"app_id":"A"}"#).unwrap_err(),
        "Algolia credential JSON missing 'api_key'"
    );
}

#[test]
fn algolia_keys_are_shown_by_their_first_bytes() {
    assert_eq!(key_head("0123456789").as_deref(), Some("01234567"));
    assert_eq!(key_head("0123").as_deref(), Some("0123"));
    assert_eq!(key_head("ääää89").as_deref(), Some("ääää"));
    assert_eq!(key_head("0123456ä"), None);
    assert_eq!(key_head("ééé€"), None);
    assert_eq!(key_head("abcd😀rest").as_deref(), Some("abcd😀"));
}

#[test]
fn workflow_webhooks_are_read() {
    let parsed = parse_webhook_url(
        "https://contoso.webhook.office.com/webhookb2/abc@tenant/IncomingWebhook/x/y",
    )
    .unwrap();
    assert_eq!(parsed.webhook_id, "abc");
    assert_eq!(parsed.tenant_id, "tenant");
    assert_eq!(parsed.subdomain.as_deref(), Some("contoso"));
    assert!(parsed.is_workflow_webhook);
}

#[test]
fn legacy_webhooks_are_read() {
    let parsed = parse_webhook_url("https://outlook.office.com/webhook/abc/def/x").unwrap();
    assert_eq!((parsed.webhook_id.as_str(), parsed.tenant_id.as_str()), ("abc", "def"));
    assert!(parsed.subdomain.is_none());
    assert!(!parsed.is_workflow_webhook);
    let parsed = parse_webhook_url("https://outlook.office.com/webhook/abc").unwrap();
    assert_eq!(parsed.tenant_id, "unknown");
}

#[test]
fn other_addresses_are_no_webhooks() {
    assert_eq!(
        parse_webhook_url("https://example.com/").unwrap_err(),
        "URL does not appear to be a Microsoft Teams webhook: https://example.com/"
    );
    assert_eq!(
        parse_webhook_url("x.office.com/webhook/abc").unwrap_err(),
        "Malformed webhook URL: x.office.com/webhook/abc"
    );
    assert_eq!(
        parse_webhook_url("https://a/b.office.com/webhook/abc").unwrap_err(),
        "Cannot parse webhook path: https://a/b.office.com/webhook/abc"
    );
}

#[test]
fn live_webhooks_ask_for_a_text() {
    assert!(probe_webhook(400, &Some("Text is required".to_string())));
    assert!(!probe_webhook(400, &Some("gone".to_string())));
    assert!(!probe_webhook(400, &None));
    assert!(probe_webhook(200, &None));
    assert!(!probe_webhook(404, &Some("Text is required".to_string())));
}
