//! What each provider makes of the answers to a token.

use access_map::airtable;
use access_map::algolia;
use access_map::anthropic;
use access_map::artifactory;
use access_map::asana;
use access_map::auth0;
use access_map::bitbucket;
use access_map::buildkite;
use access_map::circleci;
use access_map::fastly;
use access_map::gitea;
use access_map::hubspot;
use access_map::ibm_cloud;
use access_map::jira;
use access_map::microsoft_teams;
use access_map::model::Severity;
use access_map::permissions::PermissionClass;

fn text(value: &str) -> Option<String> {
    Some(value.to_string())
}

#[test]
fn artifactory_failed_ping_is_no_confirmed_identity() {
    let failed = artifactory::map_access_from_token(false);
    assert_eq!(
        failed.mapping_error.as_deref(),
        Some("Artifactory identity mapping failed: token did not respond to the JFrog cloud ping")
    );
    assert!(failed.permissions.read_only.is_empty());
    let answered = artifactory::map_access_from_token(true);
    assert!(answered.mapping_error.is_none());
    assert_eq!(answered.permissions.read_only, vec!["system:ping".to_string()]);
}

fn artifactory_user(admin: bool, group: &str) -> artifactory::ArtifactoryUser {
    artifactory::ArtifactoryUser {
        name: text("alice"),
        email: None,
        admin: Some(admin),
        groups: vec![group.to_string()],
    }
}

fn artifactory_repos(count: usize) -> Vec<artifactory::ArtifactoryRepo> {
    (0..count)
        .map(|index| artifactory::ArtifactoryRepo {
            key: Some(format!("repo-{index}")),
            repo_type: text("LOCAL"),
            package_type: text("maven"),
        })
        .collect()
}

#[test]
fn artifactory_deployers_are_a_supply_chain_risk() {
    let result = artifactory::map_access_from_token_and_url(
        "https://a.example",
        &artifactory_user(false, "Äußere-DEPLOYERS"),
        Ok(artifactory_repos(1)),
    );
    assert!(matches!(result.severity, Severity::High));
    assert_eq!(
        result.permissions.risky,
        vec!["artifacts:delete".to_string(), "artifacts:deploy".to_string()]
    );
    assert_eq!(result.resources[1].risk, "high");
    assert_eq!(result.resources[1].resource_type, "repository:LOCAL");
    assert_eq!(result.identity.id, "alice");
}

#[test]
fn artifactory_lists_are_cut_at_the_limit() {
    let result = artifactory::map_access_from_token_and_url(
        "https://a.example",
        &artifactory_user(false, "readers"),
        Ok(artifactory_repos(101)),
    );
    assert_eq!(result.resources.len(), 101);
    assert_eq!(
        result.risk_notes,
        vec!["Repository list truncated to first 100 entries (101 total)".to_string()]
    );
    assert!(matches!(result.severity, Severity::Medium));
    let failed = artifactory::map_access_from_token_and_url(
        "https://a.example",
        &artifactory_user(true, "readers"),
        Err("no answer".to_string()),
    );
    assert!(matches!(failed.severity, Severity::Critical));
    assert_eq!(failed.risk_notes[1], "Repository listing failed: no answer");
}

#[test]
fn auth0_changing_scopes_are_critical() {
    let token = auth0::TokenResponse {
        token_type: "Bearer".to_string(),
        scope: "read:users  delete:users read:logs read:stats".to_string(),
        expires_in: 3600,
    };
    let clients = vec![auth0::Auth0Client {
        client_id: "c".to_string(),
        name: String::new(),
        app_type: "spa".to_string(),
    }];
    let result = auth0::map_access_from_credentials(
        "id",
        "tenant.auth0.com",
        &token,
        Ok(clients),
        Err("no answer".to_string()),
    );
    assert!(matches!(result.severity, Severity::Critical));
    assert_eq!(result.identity.id, "id@tenant.auth0.com");
    assert_eq!(result.permissions.admin, vec!["delete:users".to_string()]);
    assert_eq!(result.permissions.risky, vec!["read:users".to_string()]);
    assert_eq!(
        result.permissions.read_only,
        vec!["read:logs".to_string(), "read:stats".to_string()]
    );
    assert_eq!(
        result.risk_notes,
        vec![
            "Resource server listing failed: no answer".to_string(),
            "Management API can enumerate 1 client(s)".to_string(),
        ]
    );
    assert_eq!(result.resources[1].name, "c");
    assert_eq!(
        result.token_details.unwrap().expires_at.as_deref(),
        Some("3600s from issuance")
    );
    assert_eq!(auth0::classify_scope("update:users"), PermissionClass::Admin);
    assert_eq!(auth0::classify_scope("update:rules"), PermissionClass::Risky);
    assert_eq!(auth0::classify_scope("openid"), PermissionClass::Risky);
}

fn anthropic_key(permissions: &[&str]) -> anthropic::AnthropicApiKey {
    anthropic::AnthropicApiKey {
        id: text("key_1"),
        name: text("ci"),
        created_at: text("2026-01-01"),
        permissions: permissions.iter().map(|name| name.to_string()).collect(),
    }
}

#[test]
fn anthropic_keys_are_found_by_the_first_telling_answer() {
    let silent = Some(anthropic_key(&[]));
    let telling = Some(anthropic_key(&["full_access"]));
    let none = Err("no answer".to_string());
    assert!(!anthropic::is_telling(&silent));
    assert!(anthropic::is_telling(&telling));
    let info = anthropic::fetch_key_permissions(&silent, &telling, &none).unwrap();
    assert_eq!(info.permissions, vec!["full_access".to_string()]);
    let single = Ok(vec![anthropic_key(&["read"])]);
    let info = anthropic::fetch_key_permissions(&None, &silent, &single).unwrap();
    assert_eq!(info.permissions, vec!["read".to_string()]);
    let several = Ok(vec![anthropic_key(&[]), anthropic_key(&[])]);
    assert_eq!(
        anthropic::fetch_key_permissions(&None, &None, &several).unwrap_err(),
        "Anthropic access-map: unable to map listed key permissions to this token"
    );
    assert_eq!(
        anthropic::fetch_key_permissions(&None, &None, &none).unwrap_err(),
        "no answer"
    );
}

#[test]
fn anthropic_full_access_manages_the_keys() {
    let info = anthropic::fetch_key_permissions(
        &Some(anthropic_key(&["write", "full_access", "write"])),
        &None,
        &Ok(vec![]),
    );
    let keys = vec![anthropic_key(&[])];
    let models = (0..51)
        .map(|index| anthropic::AnthropicModel {
            id: Some(format!("model-{index}")),
            display_name: None,
        })
        .collect();
    let result = anthropic::map_access_from_token("sk-ant-admin01", info, &keys, Ok(models));
    assert!(matches!(result.severity, Severity::High));
    assert_eq!(result.permissions.admin, vec!["key:full_access".to_string()]);
    assert_eq!(result.permissions.risky, vec!["key:write".to_string()]);
    assert_eq!(
        result.permissions.read_only,
        vec!["api_keys:list".to_string(), "models:list".to_string()]
    );
    assert_eq!(result.resources.len(), 51);
    assert_eq!(result.resources[50].risk, "high");
    assert_eq!(
        result.risk_notes,
        vec![
            "Model resource list truncated to first 50 entries (51 total models visible)".to_string(),
            "Key can enumerate organization API keys".to_string(),
        ]
    );
    assert_eq!(result.token_details.unwrap().token_type.as_deref(), Some("admin_api_key"));
    assert_eq!(anthropic::detect_token_type("sk-ant-api03"), "api_key");
    assert_eq!(anthropic::detect_token_type("x"), "unknown_api_key");
}

#[test]
fn anthropic_silent_keys_stand_for_their_account() {
    let result = anthropic::map_access_from_token(
        "sk-ant-api03",
        Err("denied".to_string()),
        &vec![],
        Err("refused".to_string()),
    );
    assert_eq!(result.resources[0].resource_type, "account");
    assert_eq!(
        result.risk_notes,
        vec![
            "Key permission lookup failed: denied".to_string(),
            "Model enumeration failed: refused".to_string(),
            "No models were enumerable for this key".to_string(),
        ]
    );
    assert!(matches!(result.severity, Severity::Low));
}

#[test]
fn asana_organizations_show_projects_and_teams() {
    let project = asana::AsanaProject {
        gid: text("p"),
        name: text("Roadmap"),
        privacy_setting: text("public_to_workspace"),
        archived: Some(true),
    };
    let team = asana::AsanaTeam { gid: text("t"), name: None };
    let user = asana::AsanaUser {
        gid: text("u"),
        name: None,
        email: text("a@example.com"),
        resource_type: None,
        workspaces: vec![asana::AsanaWorkspace {
            gid: text("w"),
            name: None,
            is_organization: Some(true),
            projects: vec![project],
            teams: vec![team],
        }],
    };
    let result = asana::map_access_from_token("1/abc", &user);
    assert_eq!(result.identity.id, "a@example.com");
    assert_eq!(result.identity.tenant.as_deref(), Some("w"));
    assert_eq!(result.resources[0].resource_type, "organization");
    assert_eq!(result.resources[1].name, "w/Roadmap");
    assert_eq!(
        result.resources[1].permissions,
        vec!["project:public_to_workspace".to_string(), "archived".to_string()]
    );
    assert_eq!(result.roles[1].name, "team:t");
    assert!(matches!(result.severity, Severity::Medium));
    assert_eq!(
        result.token_details.unwrap().token_type.as_deref(),
        Some("personal_access_token_v1")
    );
    assert_eq!(asana::classify_token("0/x"), "oauth_or_legacy_pat");
    assert_eq!(asana::classify_token("2/x"), "personal_access_token_v2");
    assert_eq!(asana::classify_token("x"), "asana_token");
}

#[test]
fn asana_users_without_workspaces_stand_for_their_account() {
    let user = asana::AsanaUser {
        gid: None,
        name: None,
        email: None,
        resource_type: None,
        workspaces: vec![],
    };
    let result = asana::map_access_from_token("x", &user);
    assert_eq!(result.resources[0].name, "asana_user");
    assert_eq!(result.risk_notes, vec!["Token did not enumerate any workspaces".to_string()]);
    assert!(matches!(result.severity, Severity::Low));
}

fn bitbucket_user() -> bitbucket::BitbucketUser {
    bitbucket::BitbucketUser {
        display_name: text("Alice"),
        username: text("alice"),
        nickname: None,
        account_id: None,
        uuid: text("{1}"),
        account_type: text("Team"),
    }
}

#[test]
fn bitbucket_owners_are_grave() {
    let owner = bitbucket::BitbucketWorkspacePermission {
        permission: text("owner"),
        workspace: Some(bitbucket::BitbucketWorkspace { slug: None, name: text("space") }),
    };
    let repo = bitbucket::BitbucketRepo {
        full_name: None,
        is_private: true,
        slug: text("repo"),
    };
    let result = bitbucket::map_access_from_token(&bitbucket_user(), &vec![owner], &vec![repo]);
    assert!(matches!(result.severity, Severity::High));
    assert_eq!(result.identity.access_type, "team");
    assert_eq!(result.identity.account_id.as_deref(), Some("{1}"));
    assert_eq!(result.permissions.admin, vec!["workspace:owner".to_string()]);
    assert_eq!(result.permissions.risky, vec!["repo:private".to_string()]);
    assert_eq!(result.resources[0].name, "space");
    assert_eq!(result.resources[1].name, "repo");
    assert_eq!(
        result.token_details.unwrap().url.as_deref(),
        Some("https://bitbucket.org/alice/")
    );
}

#[test]
fn bitbucket_tokens_that_show_nothing_are_low() {
    let result = bitbucket::map_access_from_token(&bitbucket_user(), &vec![], &vec![]);
    assert!(matches!(result.severity, Severity::Low));
    assert_eq!(result.resources[0].resource_type, "account");
    assert_eq!(result.risk_notes.len(), 1);
}

#[test]
fn airtable_admin_scopes_are_critical() {
    let whoami = airtable::AirtableWhoami {
        id: text("usr"),
        email: None,
        scopes: vec!["user.email:read".to_string(), "data.records:write".to_string()],
    };
    let base = airtable::AirtableBase {
        id: text("app"),
        name: None,
        permission_level: text("create"),
    };
    let result = airtable::map_access_from_token(&whoami, &vec![base]);
    assert!(matches!(result.severity, Severity::Critical));
    assert_eq!(result.identity.id, "usr");
    assert_eq!(result.permissions.admin, vec!["user.email:read".to_string()]);
    assert_eq!(result.permissions.risky, vec!["data.records:write".to_string()]);
    assert_eq!(result.resources[0].risk, "high");
    assert_eq!(airtable::classify_scope("data.records:read"), PermissionClass::ReadOnly);
}

#[test]
fn airtable_writers_are_graver_with_many_bases() {
    let scopes = vec!["webhook:write".to_string()];
    let bases: Vec<airtable::AirtableBase> = (0..6)
        .map(|_| airtable::AirtableBase { id: None, name: None, permission_level: None })
        .collect();
    assert!(matches!(airtable::derive_severity(&scopes, &bases), Severity::High));
    assert!(matches!(airtable::derive_severity(&scopes, &vec![]), Severity::Medium));
    assert!(matches!(airtable::derive_severity(&vec![], &bases), Severity::Low));
}

#[test]
fn algolia_keys_are_classed_by_their_entries() {
    let info = algolia::AlgoliaKeyInfo {
        acl: vec!["search".to_string(), "browse".to_string()],
        indexes: vec!["*".to_string()],
        validity: 0,
        description: String::new(),
    };
    let result = algolia::map_access_from_credentials(
        "APP",
        "0123456789",
        &info,
        Ok(algolia::named_indexes(&vec!["products".to_string(), String::new()])),
    );
    assert_eq!(result.identity.id, "APP:01234567");
    assert!(matches!(result.severity, Severity::High));
    assert_eq!(result.permissions.risky, vec!["acl:browse".to_string()]);
    assert_eq!(result.resources.len(), 2);
    assert_eq!(
        result.risk_notes,
        vec![
            "API key has wildcard index access (all indexes)".to_string(),
            "API key has no validity limit (does not expire)".to_string(),
        ]
    );
    assert!(result.token_details.unwrap().name.is_none());
    assert_eq!(algolia::classify_acl("deleteIndex"), PermissionClass::Admin);
    assert_eq!(algolia::classify_acl("other"), PermissionClass::ReadOnly);
}

#[test]
fn buildkite_pipelines_are_private_unless_public() {
    let pipelines = vec![
        buildkite::BuildkitePipeline { name: text("a"), slug: None, visibility: text("public") },
        buildkite::BuildkitePipeline { name: None, slug: text("b"), visibility: None },
    ];
    let org = buildkite::BuildkiteOrganization { name: text("Org"), slug: None, pipelines };
    let token = buildkite::BuildkiteAccessToken {
        uuid: text("uuid"),
        scopes: vec!["write_builds".to_string(), "read_user".to_string()],
    };
    let user = buildkite::BuildkiteUser { id: None, name: None, email: None, created_at: None };
    let result = buildkite::map_access_from_token(&token, &user, &vec![org]);
    assert!(matches!(result.severity, Severity::Medium));
    assert_eq!(result.resources[1].permissions, vec!["pipeline:public".to_string()]);
    assert_eq!(result.resources[2].name, "Org/b");
    assert_eq!(result.resources[2].permissions, vec!["pipeline:private".to_string()]);
    assert_eq!(result.token_details.unwrap().user_id.as_deref(), Some("uuid"));
    assert_eq!(buildkite::classify_scope("write_teams"), PermissionClass::Admin);
}

#[test]
fn circleci_collaborations_are_counted() {
    let collaborations: Vec<circleci::CircleCiCollaboration> = (0..6)
        .map(|index| circleci::CircleCiCollaboration {
            vcs_type: text("github"),
            name: None,
            slug: Some(format!("gh/{index}")),
        })
        .collect();
    let user = circleci::CircleCiUser {
        id: text("1"),
        login: None,
        name: None,
        email: text("a@example.com"),
    };
    let result = circleci::map_access_from_token(&user, &collaborations, &vec![]);
    assert!(matches!(result.severity, Severity::High));
    assert_eq!(result.identity.id, "a@example.com");
    assert_eq!(result.resources[0].risk, "high");
    assert_eq!(result.permissions.risky[0], "collaboration:gh/0");
    let empty = circleci::map_access_from_token(&user, &vec![], &vec![]);
    assert!(matches!(empty.severity, Severity::Low));
    assert_eq!(empty.resources[0].resource_type, "account");
}

#[test]
fn fastly_superusers_reach_the_customer() {
    let user = fastly::FastlyUser {
        id: text("u"),
        login: text("a@example.com"),
        name: None,
        email: None,
        role: text("superuser"),
        customer_id: text("c"),
    };
    assert_eq!(fastly::customer_to_fetch(&user).as_deref(), Some("c"));
    let customer = Some(fastly::FastlyCustomer { name: None });
    let result = fastly::map_access_from_token(&user, &customer, &vec![]);
    assert!(matches!(result.severity, Severity::Critical));
    assert_eq!(result.resources[0].name, "c");
    assert_eq!(result.resources[1].resource_type, "account");
    assert_eq!(result.roles[0].permissions.len(), 6);
    assert_eq!(
        result.risk_notes,
        vec![
            "Superuser role grants full platform access".to_string(),
            "Token did not enumerate any services".to_string(),
        ]
    );
}

#[test]
fn fastly_roles_grade_the_services() {
    let user = fastly::FastlyUser {
        id: None,
        login: None,
        name: None,
        email: None,
        role: text("engineer"),
        customer_id: text("c"),
    };
    assert!(fastly::customer_to_fetch(&user).is_none());
    let service = fastly::FastlyService { id: text("s"), name: None, service_type: text("vcl") };
    let result = fastly::map_access_from_token(&user, &None, &vec![service]);
    assert_eq!(result.resources[0].risk, "high");
    assert_eq!(
        result.resources[0].reason,
        "Fastly service (vcl) accessible with engineer role"
    );
    assert!(matches!(fastly::derive_severity("billing"), Severity::Medium));
    assert!(matches!(fastly::derive_severity("user"), Severity::Low));
    assert_eq!(fastly::role_permissions("user"), vec!["service:read".to_string()]);
}

fn gitea_user(is_admin: bool) -> gitea::GiteaUser {
    gitea::GiteaUser {
        login: "alice".to_string(),
        full_name: text("  "),
        email: text(""),
        avatar_url: None,
        is_admin,
        created: None,
    }
}

#[test]
fn gitea_repositories_grade_the_token() {
    let repo = |admin: bool, push: bool| gitea::GiteaRepo {
        full_name: "alice/repo".to_string(),
        private: true,
        permissions: Some(gitea::GiteaRepoPermissions { admin, push, pull: true }),
    };
    let silent = gitea::GiteaRepo {
        full_name: "alice/open".to_string(),
        private: false,
        permissions: None,
    };
    let user = gitea_user(false);
    assert!(matches!(
        gitea::derive_severity(&user, &vec![repo(false, true), repo(true, true)]),
        Severity::High
    ));
    assert!(matches!(gitea::derive_severity(&user, &vec![repo(false, true)]), Severity::Medium));
    let result = gitea::map_access_from_token(&user, &vec![], &vec![silent, repo(true, true)]);
    assert_eq!(result.permissions.read_only, vec!["repo:read".to_string()]);
    assert_eq!(result.permissions.admin, vec!["repo:admin".to_string()]);
    assert_eq!(result.resources[1].permissions.len(), 3);
    let details = result.token_details.unwrap();
    assert_eq!(details.name.as_deref(), Some("alice"));
    assert!(details.email.is_none());
}

#[test]
fn gitea_administrators_are_critical() {
    let org = gitea::GiteaOrg { username: None, full_name: text("Org") };
    let result = gitea::map_access_from_token(&gitea_user(true), &vec![org], &vec![]);
    assert!(matches!(result.severity, Severity::Critical));
    assert_eq!(result.permissions.admin, vec!["site:admin".to_string()]);
    assert_eq!(result.resources.len(), 2);
    assert_eq!(result.risk_notes.len(), 2);
}

#[test]
fn hubspot_scopes_follow_from_the_probes() {
    let info = hubspot::HubSpotAccountInfo {
        portal_id: Some(7),
        account_type: None,
        time_zone: text("UTC"),
        ui_domain: text("app.hubspot.com"),
    };
    let owner = hubspot::HubSpotOwner {
        email: None,
        first_name: text("Ada"),
        last_name: None,
    };
    let probes = hubspot::CrmProbes { contacts: true, deals: false, companies: false };
    let result = hubspot::map_access_from_token(&info, probes, &vec![owner]);
    assert!(matches!(result.severity, Severity::High));
    assert_eq!(result.identity.id, "7");
    assert_eq!(result.permissions.admin, vec!["account-info.security.read".to_string()]);
    assert_eq!(result.permissions.risky, vec!["crm.objects.contacts.write".to_string()]);
    assert_eq!(result.resources[2].name, "Ada");
    assert_eq!(result.risk_notes, vec!["Token can enumerate 1 CRM owners".to_string()]);
    assert_eq!(
        result.token_details.unwrap().url.as_deref(),
        Some("https://app.hubspot.com")
    );
}

#[test]
fn hubspot_tokens_without_scopes_are_low() {
    let info = hubspot::HubSpotAccountInfo {
        portal_id: None,
        account_type: None,
        time_zone: None,
        ui_domain: None,
    };
    let probes = hubspot::CrmProbes { contacts: false, deals: false, companies: false };
    let result = hubspot::map_access_from_token(&info, probes, &vec![]);
    assert!(matches!(result.severity, Severity::Low));
    assert_eq!(result.resources.len(), 2);
    assert_eq!(result.identity.id, "unknown_portal");
}

fn ibm_details() -> ibm_cloud::IbmApiKeyDetails {
    ibm_cloud::IbmApiKeyDetails {
        id: text("ApiKey-1"),
        iam_id: None,
        account_id: text("acct"),
        name: text("ci"),
        created_at: None,
        modified_at: None,
    }
}

#[test]
fn ibm_scopes_need_a_token() {
    let response = |access_token: Option<String>| -> Result<ibm_cloud::IbmTokenResponse, String> {
        Ok(ibm_cloud::IbmTokenResponse { access_token, scope: text("ibm openid other") })
    };
    let usable = response(text("t"));
    assert_eq!(ibm_cloud::listing_token(&usable).as_deref(), Some("t"));
    let instance = ibm_cloud::IbmResourceInstance {
        name: text("db"),
        resource_plan_id: None,
        region_id: None,
    };
    let result = ibm_cloud::map_access_from_token(&ibm_details(), &usable, &vec![instance]);
    assert!(matches!(result.severity, Severity::High));
    assert_eq!(result.permissions.admin, vec!["ibm".to_string()]);
    assert_eq!(result.permissions.risky, vec!["other".to_string()]);
    assert_eq!(result.permissions.read_only, vec!["openid".to_string()]);
    assert_eq!(result.resources[1].name, "db (global)");
    let unusable = response(None);
    let result = ibm_cloud::map_access_from_token(&ibm_details(), &unusable, &vec![]);
    assert!(matches!(result.severity, Severity::Medium));
    assert_eq!(result.resources.len(), 2);
    assert_eq!(result.identity.id, "ci");
}

#[test]
fn ibm_failed_exchange_is_noted() {
    let failed = Err("denied".to_string());
    assert!(ibm_cloud::listing_token(&failed).is_none());
    let result = ibm_cloud::map_access_from_token(&ibm_details(), &failed, &vec![]);
    assert_eq!(
        result.risk_notes,
        vec![
            "IAM token exchange failed; resource enumeration skipped".to_string(),
            "API key did not enumerate any resource instances".to_string(),
        ]
    );
}

#[test]
fn jira_permissions_decide() {
    let entries = vec![
        jira::JiraPermissionEntry {
            name: "ADMINISTER_PROJECTS".to_string(),
            have_permission: true,
        },
        jira::JiraPermissionEntry { name: "SYSTEM_ADMIN".to_string(), have_permission: false },
        jira::JiraPermissionEntry { name: "UNKNOWN".to_string(), have_permission: true },
    ];
    let granted = jira::granted_permissions(&entries);
    assert_eq!(granted, vec!["ADMINISTER_PROJECTS".to_string(), "UNKNOWN".to_string()]);
    let user = jira::JiraUser {
        account_id: text("1"),
        email_address: None,
        display_name: None,
        active: false,
        account_type: text("atlassian"),
    };
    let project = jira::JiraProject {
        key: "K".to_string(),
        name: "Kanban".to_string(),
        project_type_key: None,
    };
    let result = jira::map_access_from_token_and_url(
        "https://j.example//",
        &user,
        Ok(granted),
        Ok(vec![project]),
    );
    assert!(matches!(result.severity, Severity::High));
    assert_eq!(result.permissions.admin, vec!["ADMINISTER_PROJECTS".to_string()]);
    assert_eq!(result.resources[0].name, "Kanban (K)");
    assert_eq!(result.resources[0].risk, "medium");
    assert_eq!(
        result.risk_notes,
        vec![
            "Jira account is marked as inactive".to_string(),
            "Token can administer projects — project configuration access".to_string(),
        ]
    );
    assert_eq!(
        result.token_details.unwrap().url.as_deref(),
        Some("https://j.example")
    );
}

#[test]
fn jira_failures_are_noted() {
    let user = jira::JiraUser {
        account_id: None,
        email_address: None,
        display_name: None,
        active: true,
        account_type: None,
    };
    let result = jira::map_access_from_token_and_url(
        "https://j.example",
        &user,
        Err("a".to_string()),
        Err("b".to_string()),
    );
    assert_eq!(result.identity.id, "unknown_jira_user");
    assert_eq!(
        result.risk_notes,
        vec![
            "Permission enumeration failed: a".to_string(),
            "Project enumeration failed: b".to_string(),
        ]
    );
}

#[test]
fn teams_webhooks_post_to_one_channel() {
    let url = "https://contoso.webhook.office.com/webhookb2/abc@tenant/IncomingWebhook/x/y";
    let result = microsoft_teams::map_access_from_webhook_url(url, true).unwrap();
    assert!(matches!(result.severity, Severity::Medium));
    assert_eq!(result.identity.id, "webhook:abc");
    assert_eq!(result.resources[0].name, "contoso.webhook.office.com");
    assert_eq!(result.risk_notes[1], "Tenant ID: tenant");
    let result = microsoft_teams::map_access_from_webhook_url(url, false).unwrap();
    assert!(matches!(result.severity, Severity::Low));
    assert!(microsoft_teams::map_access_from_webhook_url("https://example.com", true).is_err());
}
