//! GitHub, Azure DevOps, DigitalOcean, MongoDB and OpenAI.

use access_map::azure_devops::{
    build_auth_header, check_organization, fetch_subject_descriptor, list_repositories,
    normalize_org, parse_pat_scopes, parse_user_data, pat_list_url, select_matching_pat,
    AzureDevopsPat, AzureDevopsProfile, AzureDevopsProject, AzureDevopsRepo, DescriptorSearch,
    IdentityReply,
};
use access_map::digitalocean;
use access_map::github::{
    categorize_installation_permissions, distinct_repos, is_app_token, parse_csv_header,
    permission_to_label, GitHubOrgMembership, GitHubReplies, GitHubRepo, GitHubRepoPermissions,
    GitHubUser,
};
use access_map::model::Severity;
use access_map::mongodb::{
    is_admin_action, is_privilege_escalation_action, is_read_only_action, parse_connection_status,
    parse_database_list, BsonValue,
};
use access_map::openai::{
    FilePurpose, FineTuningStatus, Inventory, OpenAiFile, OpenAiFineTuningJob, OpenAiModel,
    OpenAiReplies,
};

fn text(value: &str) -> Option<String> {
    Some(value.to_string())
}

fn repo(name: &str, admin: bool, push: bool) -> GitHubRepo {
    GitHubRepo {
        full_name: name.to_string(),
        private: true,
        permissions: Some(GitHubRepoPermissions { admin, push, pull: true }),
    }
}

#[test]
fn github_headers_are_split() {
    assert_eq!(
        parse_csv_header(&text("repo, read:org,")),
        vec!["repo".to_string(), "read:org".to_string()]
    );
    assert!(parse_csv_header(&None).is_empty());
    assert!(is_app_token("ghs_x"));
    assert!(!is_app_token("ghp_x"));
    assert_eq!(permission_to_label("write"), "READ_WRITE");
    assert_eq!(permission_to_label("custom"), "custom");
}

#[test]
fn github_repositories_are_listed_once() {
    let kept = distinct_repos(vec![repo("a/b", true, true), repo("a/c", false, false), repo("a/b", false, false)]);
    assert_eq!(kept.len(), 2);
    assert_eq!(kept[0].full_name, "a/b");
    assert!(kept[0].permissions.unwrap().admin);
}

#[test]
fn github_installation_permissions_are_parted() {
    let perms = vec![
        ("metadata".to_string(), "read".to_string()),
        ("email_addresses".to_string(), "read".to_string()),
        ("contents".to_string(), "write".to_string()),
    ];
    let (repositories, user) = categorize_installation_permissions(&perms);
    assert_eq!(repositories.len() + user.len(), 3);
    assert_eq!(repositories[0].0, "contents");
}

#[test]
fn github_tokens_are_mapped() {
    let replies = GitHubReplies {
        user: GitHubUser {
            login: "alice".to_string(),
            name: None,
            email: None,
            company: None,
            location: None,
            html_url: None,
            kind: "User".to_string(),
        },
        scopes: text("repo, admin:org"),
        expiration: None,
        token_type: None,
        installations: vec![],
        installed_repos: vec![],
        repos: vec![repo("alice/app", true, true)],
        memberships: vec![GitHubOrgMembership {
            organization: "org".to_string(),
            role: "admin".to_string(),
            state: "active".to_string(),
        }],
    };
    let result = access_map::github::map_access_from_token("ghp_x", replies);
    assert_eq!(result.identity.id, "alice");
    assert!(matches!(result.severity, Severity::High));
    assert!(result.resources.iter().any(|resource| resource.name == "alice/app"));
    assert_eq!(
        result.token_details.unwrap().scopes,
        vec!["repo".to_string(), "admin:org".to_string()]
    );
}

#[test]
fn devops_organizations_are_named_by_their_last_part() {
    assert_eq!(normalize_org(" https://dev.azure.com/contoso/ "), "contoso");
    assert_eq!(
        check_organization(" / ").unwrap_err(),
        "Azure DevOps access-map requires a valid organization name"
    );
    assert_eq!(build_auth_header("pat"), "Basic OnBhdA==");
}

#[test]
fn devops_user_data_is_split() {
    let data = parse_user_data(&text("id: a@example.com "));
    assert_eq!(data.user_id.as_deref(), Some("id"));
    assert_eq!(data.email.as_deref(), Some("a@example.com"));
    assert!(parse_user_data(&None).user_id.is_none());
}

#[test]
fn devops_descriptors_are_searched_in_turn() {
    let profile = AzureDevopsProfile {
        display_name: None,
        public_alias: None,
        email_address: text("a b@example.com"),
        id: text("id"),
    };
    let first = match fetch_subject_descriptor("org", &profile, &vec![]) {
        DescriptorSearch::Ask(url) => url,
        _ => panic!("the first lookup is wanted"),
    };
    assert!(first.contains("id"));
    let refused = vec![IdentityReply::Refused];
    let second = match fetch_subject_descriptor("org", &profile, &refused) {
        DescriptorSearch::Ask(url) => url,
        _ => panic!("the second lookup is wanted"),
    };
    assert_ne!(first, second);
    assert!(!second.contains(' '));
    let found = vec![
        IdentityReply::Refused,
        IdentityReply::Identities(vec![None, text("aad.x")]),
    ];
    match fetch_subject_descriptor("org", &profile, &found) {
        DescriptorSearch::Found(descriptor) => assert_eq!(descriptor, "aad.x"),
        _ => panic!("the descriptor is there"),
    }
    let failed = vec![IdentityReply::Failed];
    assert!(matches!(
        fetch_subject_descriptor("org", &profile, &failed),
        DescriptorSearch::NotFound
    ));
    assert_eq!(
        pat_list_url("org", "aad/x").as_deref().map(|url| url.contains("aad%2Fx")),
        Some(true)
    );
}

#[test]
fn devops_tokens_are_matched_by_scope() {
    let pat = |name: &str, scope: &str, from: &str| AzureDevopsPat {
        display_name: text(name),
        valid_from: text(from),
        valid_to: None,
        user_id: text("u"),
        scope: text(scope),
    };
    let pats = vec![
        pat("old", "vso.code", "2025-01-01"),
        pat("new", "vso.code", "2026-01-01"),
        pat("other", "vso.build", "2027-01-01"),
    ];
    let scopes = parse_pat_scopes(&text(" vso.code "));
    let found = select_matching_pat(&pats, &scopes, &text("u")).unwrap();
    assert_eq!(found.display_name.as_deref(), Some("new"));
    assert!(select_matching_pat(&pats, &scopes, &text("someone")).is_none());
}

#[test]
fn devops_projects_are_asked_only_without_repositories() {
    let projects = vec![AzureDevopsProject { name: " web ".to_string(), visibility: None }];
    let repos = vec![AzureDevopsRepo {
        name: "app".to_string(),
        is_disabled: false,
        project: None,
    }];
    assert_eq!(list_repositories("org", &projects, &vec![]).len(), 1);
    assert!(list_repositories("org", &projects, &repos).is_empty());
    let result =
        access_map::azure_devops::map_access_from_token("org", None, &vec![], &projects, &repos);
    assert_eq!(result.cloud, "azure_devops");
    assert!(!result.resources.is_empty());
}

#[test]
fn digitalocean_databases_raise_the_severity() {
    let replies = digitalocean::DigitalOceanReplies {
        account: digitalocean::DigitalOceanAccount {
            email: text("a@example.com"),
            uuid: text("u"),
            team_name: None,
        },
        projects: vec![],
        droplets: vec![digitalocean::DigitalOceanDroplet {
            id: Some(3),
            name: None,
            status: text("active"),
        }],
        databases: vec![],
        clusters: vec![],
    };
    let result = digitalocean::map_access_from_token(&replies);
    assert_eq!(result.identity.id, "a@example.com");
    assert!(result.resources.iter().any(|resource| resource.resource_type == "droplet"));
    assert!(digitalocean::account_error(false, "401 Unauthorized", false).is_some());
    assert!(digitalocean::account_error(true, "200 OK", true).is_none());
}

fn document(fields: Vec<(&str, BsonValue)>) -> BsonValue {
    BsonValue::Document(
        fields.into_iter().map(|(key, value)| (key.to_string(), value)).collect(),
    )
}

fn bson(value: &str) -> BsonValue {
    BsonValue::Text(value.to_string())
}

#[test]
fn mongodb_users_are_read() {
    let status = document(vec![(
        "authInfo",
        document(vec![
            (
                "authenticatedUsers",
                BsonValue::Array(vec![document(vec![("user", bson("app")), ("db", bson("admin"))])]),
            ),
            (
                "authenticatedUserRoles",
                BsonValue::Array(vec![document(vec![("role", bson("readWrite")), ("db", bson("shop"))])]),
            ),
        ]),
    )]);
    let read = parse_connection_status(&status);
    assert_eq!(read.username, "app");
    assert_eq!(read.auth_db, "admin");
    assert_eq!(read.roles[0].role, "readWrite");
    let databases = document(vec![(
        "databases",
        BsonValue::Array(vec![document(vec![
            ("name", bson("shop")),
            ("sizeOnDisk", BsonValue::Double(8192)),
        ])]),
    )]);
    assert_eq!(parse_database_list(&databases)[0].size_on_disk, Some(8192));
    let result = access_map::mongodb::map_access_from_uri(
        &status,
        &Err("denied".to_string()),
        &Ok(databases),
        &vec![Err("denied".to_string())],
    );
    assert_eq!(result.cloud, "mongodb");
    assert!(result.resources.iter().any(|resource| resource.name == "shop"));
}

#[test]
fn mongodb_actions_are_classed() {
    assert!(is_read_only_action("find"));
    assert!(is_privilege_escalation_action("grantrole"));
    assert!(is_admin_action("shutdown"));
    assert!(!is_read_only_action("insert"));
}

fn openai_replies() -> OpenAiReplies {
    OpenAiReplies {
        projects: Ok(Inventory::Denied),
        models: Ok(Inventory::Accessible(vec![OpenAiModel {
            id: "gpt".to_string(),
            owned_by: "openai".to_string(),
        }])),
        files: Ok(Inventory::Accessible(vec![OpenAiFile {
            filename: "train.jsonl".to_string(),
            purpose: FilePurpose::FineTune,
        }])),
        assistants: Err("no answer".to_string()),
        fine_tuning_jobs: Ok(Inventory::Accessible(vec![OpenAiFineTuningJob {
            id: "job".to_string(),
            fine_tuned_model: None,
            model: "gpt".to_string(),
            status: FineTuningStatus::Running,
        }])),
    }
}

#[test]
fn openai_keys_are_mapped() {
    let result = access_map::openai::map_access_from_token("sk-proj-x", &openai_replies());
    assert_eq!(result.cloud, "openai");
    assert!(matches!(result.severity, Severity::Medium));
    assert!(result.resources.iter().any(|resource| resource.name == "train.jsonl"));
    assert!(result.risk_notes.iter().any(|note| note.contains("no answer")));
    assert_eq!(
        result.token_details.unwrap().token_type.as_deref(),
        Some("project_api_key")
    );
}
