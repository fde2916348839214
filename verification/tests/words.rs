//! Errors, names and small decisions that the providers put into words.

use access_map::alibaba::identity_lookup_failed;
use access_map::asana::{find_gid, AsanaWorkspace};
use access_map::azure::pages::{append_url, failed_response, MAX_ERROR_BODY};
use access_map::azure::storage::needs_container_listing;
use access_map::azure_devops::{projects_url, repositories_url};
use access_map::buildkite::{org_name, BuildkiteOrganization};
use access_map::encoding::hmac_sha1;
use access_map::github::{needs_user_repos, org_scopes, user_lookup_failed, GitHubRepo};
use access_map::huggingface::{inventory_failed, whoami_failed};
use access_map::mongodb::{is_risky_action, is_write_action};

#[test]
fn failed_lookups_name_their_status() {
    assert_eq!(
        user_lookup_failed("401 Unauthorized"),
        "GitHub access-map: user lookup failed with HTTP 401 Unauthorized"
    );
    assert_eq!(
        whoami_failed("401 Unauthorized"),
        "Hugging Face access-map: whoami failed with HTTP 401 Unauthorized"
    );
    assert_eq!(
        inventory_failed("500 Internal Server Error"),
        "Hugging Face access-map: unified resource enumeration failed with HTTP 500 Internal Server Error"
    );
    assert_eq!(
        identity_lookup_failed("403 Forbidden"),
        "Alibaba access-map: STS GetCallerIdentity failed with HTTP 403 Forbidden"
    );
}

#[test]
fn azure_errors_are_cut() {
    let body = "é".repeat(MAX_ERROR_BODY + 5);
    assert_eq!(
        failed_response("Azure Resource Manager request", "404 Not Found", &body),
        format!(
            "Azure Resource Manager request failed with HTTP 404 Not Found: {}",
            "é".repeat(MAX_ERROR_BODY)
        )
    );
}

#[test]
fn azure_paths_are_put_behind_their_base() {
    let url = append_url("https://graph.microsoft.com//", "/v1.0/me").unwrap();
    assert_eq!(url.text, "https://graph.microsoft.com/v1.0/me");
    assert_eq!(url.port, Some(443));
    let error = append_url("nowhere", "x").err().unwrap();
    assert_eq!(error, "Invalid Azure API URL: nowhere");
}

#[test]
fn known_containers_are_not_listed() {
    assert!(needs_container_listing(&None));
    assert!(needs_container_listing(&Some(vec![])));
    assert!(!needs_container_listing(&Some(vec!["a".to_string()])));
}

#[test]
fn devops_addresses_name_the_organization() {
    assert_eq!(
        projects_url("contoso"),
        "https://dev.azure.com/contoso/_apis/projects?api-version=7.1-preview.1"
    );
    assert_eq!(
        repositories_url("contoso"),
        "https://dev.azure.com/contoso/_apis/git/repositories?api-version=7.1-preview.1"
    );
}

#[test]
fn listings_fall_back_to_other_names() {
    let mut workspace = AsanaWorkspace {
        gid: None,
        name: Some("Team".to_string()),
        is_organization: None,
        projects: vec![],
        teams: vec![],
    };
    assert_eq!(find_gid(&workspace), "unknown");
    workspace.gid = Some("17".to_string());
    assert_eq!(find_gid(&workspace), "17");
    let org = BuildkiteOrganization {
        name: Some("Acme".to_string()),
        slug: None,
        pipelines: vec![],
    };
    assert_eq!(org_name(&org), "Acme");
}

#[test]
fn github_asks_for_user_repositories_without_installed_ones() {
    let repo = GitHubRepo { full_name: "a/b".to_string(), private: true, permissions: None };
    assert!(needs_user_repos("ghp_x", &vec![]));
    assert!(needs_user_repos("ghu_x", &vec![]));
    assert!(!needs_user_repos("ghs_x", &vec![repo]));
    let scopes = vec!["repo".to_string(), "read:org".to_string(), "admin:org".to_string()];
    assert_eq!(org_scopes(&scopes), vec!["admin:org".to_string(), "read:org".to_string()]);
}

#[test]
fn keyed_hashes_are_those_of_the_standard() {
    let code = hmac_sha1(b"key", b"The quick brown fox jumps over the lazy dog");
    let hex: String = code.iter().map(|byte| format!("{byte:02x}")).collect();
    assert_eq!(hex, "de7c9b85b8b78aa6bc8a7a36f70a90701c9db4d9");
}

#[test]
fn mongodb_writes_are_risky() {
    assert!(is_write_action("insert"));
    assert!(is_risky_action("insert"));
    assert!(is_risky_action("movechunk"));
    assert!(!is_risky_action("find"));
}
