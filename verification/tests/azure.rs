//! Azure credentials, tokens, Graph, ARM and storage.

use access_map::azure::arm::{
    map_arm_access, ArmReplies, ArmRequest, ArmResourceGroup, ArmRoleAssignment, ArmSubscription,
};
use access_map::azure::claims::decode_token_claims;
use access_map::azure::credentials::{parse_azure_credentials, AzureCredential};
use access_map::azure::enterprise::{
    acquire_enterprise_tokens, default_scope, enterprise_claims, list_rbac_principals,
    map_enterprise_access, read_arm, read_graph, request_client_token, wants_graph_token,
    wants_management_token,
};
use access_map::azure::graph::{
    membership_path, principal_path, GraphDirectoryObject, GraphOrganization, GraphPrincipal,
    GraphReplies,
};
use access_map::azure::pages::{next_page, AzureApi};
use access_map::azure::permissions::{
    classify_arm_role, classify_graph_permission, ArmRoleDefinition, ArmRolePermission,
};
use access_map::azure::storage::{
    list_service_items, map_storage_access, read_page, sign_list_request, Listing, StoragePage,
    StorageService,
};
use access_map::model::{PermissionSummary, Severity};
use base64::Engine;

fn fake_jwt(payload: &str) -> String {
    let engine = base64::engine::general_purpose::URL_SAFE_NO_PAD;
    let header = engine.encode(r#"{"alg":"RS256","typ":"JWT"}"#);
    let payload = engine.encode(payload);
    format!("{header}.{payload}.{}", "signaturebytes01234567890123456789")
}

#[test]
fn parses_azure_cli_service_principal_aliases() {
    let credential = parse_azure_credentials(
        r#"{
                "appId": "12345678-90ab-4cde-8f01-234567890abc",
                "password": "secret-value",
                "tenant": "11111111-2222-4333-8444-555555555555"
            }"#,
    )
    .unwrap();

    let AzureCredential::Enterprise(config) = credential else {
        panic!("expected enterprise credential");
    };
    assert_eq!(config.client_id.as_deref(), Some("12345678-90ab-4cde-8f01-234567890abc"));
    assert_eq!(config.client_secret.as_deref(), Some("secret-value"));
    assert_eq!(config.tenant_id.as_deref(), Some("11111111-2222-4333-8444-555555555555"));
}

#[test]
fn routes_management_audience_tokens_to_arm() {
    let token = fake_jwt(
        r#"{"aud":"https://management.azure.com/","tid":"tenant","oid":"principal"}"#,
    );
    let credential =
        parse_azure_credentials(&format!(r#"{{"access_token":"{token}"}}"#)).unwrap();

    let AzureCredential::Enterprise(config) = credential else {
        panic!("expected enterprise credential");
    };
    assert!(config.graph_access_token.is_none());
    assert!(config.management_access_token.is_some());
}

#[test]
fn classifies_graph_privilege_escalation_permissions() {
    let mut permissions = PermissionSummary::default();
    classify_graph_permission("Application.ReadWrite.All", &mut permissions);
    classify_graph_permission("User.Read.All", &mut permissions);
    classify_graph_permission("Mail.Send", &mut permissions);

    assert_eq!(permissions.privilege_escalation, vec!["Application.ReadWrite.All".to_string()]);
    assert_eq!(permissions.read_only, vec!["User.Read.All".to_string()]);
    assert_eq!(permissions.risky, vec!["Mail.Send".to_string()]);
}

#[test]
fn classifies_rbac_role_assignment_write_as_privilege_escalation() {
    let mut permissions = PermissionSummary::default();
    classify_arm_role(
        "Custom IAM Operator",
        "/subscriptions/sub",
        &vec!["Microsoft.Authorization/roleAssignments/write".into()],
        &mut permissions,
    );

    assert_eq!(
        permissions.privilege_escalation,
        vec!["azure_rbac:Custom IAM Operator@/subscriptions/sub".to_string()]
    );
}

#[test]
fn maps_entra_graph_and_arm_access_from_client_credentials() {
    let tenant_id = "11111111-2222-4333-8444-555555555555";
    let client_id = "12345678-90ab-4cde-8f01-234567890abc";
    let principal_id = "aaaaaaaa-bbbb-4ccc-8ddd-eeeeeeeeeeee";
    let graph_base_url = "http://127.0.0.1:9/graph";
    let management_base_url = "http://127.0.0.1:9/management";
    let graph_token = fake_jwt(&format!(
        r#"{{"aud":"{graph_base_url}","tid":"{tenant_id}","oid":"{principal_id}","appid":"{client_id}","idtyp":"app","ver":"2.0","roles":["Directory.ReadWrite.All","User.Read.All"],"exp":4102444800}}"#
    ));
    let management_token = fake_jwt(&format!(
        r#"{{"aud":"{management_base_url}","tid":"{tenant_id}","oid":"{principal_id}","appid":"{client_id}","idtyp":"app","ver":"2.0","exp":4102444800}}"#
    ));
    let credential = parse_azure_credentials(&format!(
        r#"{{"tenant_id":"{tenant_id}","client_id":"{client_id}","client_secret":"client-secret-value","authority_host":"http://127.0.0.1:9","graph_base_url":"{graph_base_url}","management_base_url":"{management_base_url}"}}"#
    ))
    .unwrap();
    let AzureCredential::Enterprise(config) = credential else {
        panic!("expected enterprise credential");
    };
    assert!(wants_graph_token(&config));
    assert!(wants_management_token(&config));
    let request = request_client_token(
        &config.authority_host,
        tenant_id,
        client_id,
        "client-secret-value",
        &default_scope(graph_base_url),
    )
    .unwrap();
    assert_eq!(
        request.url,
        format!("http://127.0.0.1:9/{tenant_id}/oauth2/v2.0/token")
    );
    assert!(request.form.contains(&(
        "scope".to_string(),
        "http://127.0.0.1:9/graph/.default".to_string()
    )));

    let mut notes: Vec<String> = Vec::new();
    let tokens =
        acquire_enterprise_tokens(&config, Ok(graph_token), Ok(management_token), &mut notes)
            .unwrap();
    let claims = enterprise_claims(&config, &tokens);
    assert!(principal_path(&claims)
        .unwrap()
        .contains(&format!("servicePrincipals/{principal_id}")));
    assert!(membership_path(&claims)
        .unwrap()
        .contains(&format!("servicePrincipals/{principal_id}/transitiveMemberOf")));
    let graph = read_graph(
        &tokens,
        &claims,
        GraphReplies {
            principal: Ok(GraphPrincipal {
                id: principal_id.to_string(),
                app_id: Some(client_id.to_string()),
                display_name: Some("Kingfisher Enterprise App".to_string()),
                user_principal_name: None,
                mail: None,
                user_type: None,
                service_principal_type: Some("Application".to_string()),
                account_enabled: Some(true),
                app_owner_organization_id: Some(tenant_id.to_string()),
            }),
            organizations: Ok(vec![GraphOrganization {
                id: tenant_id.to_string(),
                display_name: Some("Contoso".to_string()),
            }]),
            memberships: Ok(vec![GraphDirectoryObject {
                id: "group-id".to_string(),
                display_name: Some("Production Operators".to_string()),
                odata_type: Some("#microsoft.graph.group".to_string()),
            }]),
        },
        &mut notes,
    );
    let principals = list_rbac_principals(&graph, &claims);
    assert_eq!(principals.len(), 2);

    let mut replies = ArmReplies {
        subscriptions: None,
        groups: vec![],
        assignments: vec![],
        definitions: vec![],
    };
    let mut asked: Vec<String> = Vec::new();
    let walk = loop {
        let walk = read_arm(&tokens, &principals, &replies, notes.clone());
        match &walk.wanted {
            None => break walk,
            Some(ArmRequest::Subscriptions(path)) => {
                asked.push(path.clone());
                replies.subscriptions = Some(Ok(vec![ArmSubscription {
                    subscription_id: "sub-123".to_string(),
                    display_name: Some("Production".to_string()),
                    state: Some("Enabled".to_string()),
                    tenant_id: Some(tenant_id.to_string()),
                }]));
            }
            Some(ArmRequest::Groups(path)) => {
                asked.push(path.clone());
                replies.groups.push(Ok(vec![ArmResourceGroup {
                    id: "/subscriptions/sub-123/resourceGroups/payments".to_string(),
                    name: "payments".to_string(),
                    location: Some("westus2".to_string()),
                }]));
            }
            Some(ArmRequest::Assignments(path)) => {
                asked.push(path.clone());
                if path.contains("group-id") {
                    replies.assignments.push(Ok(vec![]));
                } else {
                    replies.assignments.push(Ok(vec![ArmRoleAssignment {
                        id: "/subscriptions/sub-123/providers/Microsoft.Authorization/roleAssignments/ra-1".to_string(),
                        role_definition_id: "/subscriptions/sub-123/providers/Microsoft.Authorization/roleDefinitions/role-1".to_string(),
                        scope: "/subscriptions/sub-123".to_string(),
                        principal_id: Some(principal_id.to_string()),
                        principal_type: Some("ServicePrincipal".to_string()),
                    }]));
                }
            }
            Some(ArmRequest::Definition(path)) => {
                asked.push(path.clone());
                replies.definitions.push(Ok(ArmRoleDefinition {
                    id: "/subscriptions/sub-123/providers/Microsoft.Authorization/roleDefinitions/role-1".to_string(),
                    role_name: Some("Contributor".to_string()),
                    permissions: vec![ArmRolePermission {
                        actions: vec!["*".to_string()],
                        data_actions: vec![],
                    }],
                }));
            }
        }
    };
    assert_eq!(asked.len(), 5);
    assert_eq!(asked[0], "subscriptions?api-version=2022-12-01");

    let result = map_enterprise_access(&config, &tokens, graph, walk);
    let role = result.roles.last().unwrap();
    assert_eq!(role.name, "Contributor");
    assert_eq!(role.source, "/subscriptions/sub-123 via direct principal");
    assert_eq!(
        role.permissions,
        vec![
            "*".to_string(),
            "role_definition:/subscriptions/sub-123/providers/Microsoft.Authorization/roleDefinitions/role-1".to_string(),
        ]
    );
    assert_eq!(result.identity.id, "Kingfisher Enterprise App");
    assert_eq!(result.identity.tenant.as_deref(), Some(tenant_id));
    assert_eq!(result.identity.project.as_deref(), Some("sub-123"));
    assert!(result
        .permissions
        .privilege_escalation
        .contains(&"Directory.ReadWrite.All".to_string()));
    assert!(result
        .permissions
        .risky
        .iter()
        .any(|permission| permission.contains("Contributor")));
    assert!(result
        .resources
        .iter()
        .any(|resource| resource.resource_type == "azure_resource_group"));
    assert!(result.resources.iter().any(|resource| resource.resource_type == "entra_group"));
    assert!(matches!(result.severity, Severity::Critical));
    let details = result.token_details.unwrap();
    assert_eq!(details.expires_at.as_deref(), Some("2100-01-01T00:00:00+00:00"));
}

#[test]
fn arm_walks_begin_with_the_subscriptions() {
    let replies = ArmReplies {
        subscriptions: None,
        groups: vec![],
        assignments: vec![],
        definitions: vec![],
    };
    let walk = map_arm_access(vec![], &vec![], &replies);
    assert!(matches!(walk.wanted, Some(ArmRequest::Subscriptions(_))));
}

#[test]
fn storage_requests_are_signed_with_the_account_key() {
    let request = sign_list_request(
        "acct",
        "c3RvcmFnZS1rZXk=",
        StorageService::Blob,
        "Thu, 01 Jan 2026 00:00:00 GMT",
        &None,
    )
    .unwrap();
    assert_eq!(request.url, "https://acct.blob.core.windows.net/?comp=list");
    assert_eq!(request.authorization, "SharedKey acct:dAerY4tvDOc/jDrQr5IuTV29cCVBBDB8aG/XsdsUv3Q=");
    assert!(sign_list_request("acct", "not base64!", StorageService::Blob, "now", &None).is_err());
}

#[test]
fn storage_pages_are_read_in_order() {
    let page = StoragePage {
        success: true,
        status: "200 OK".to_string(),
        body: "<EnumerationResults><Containers><Container><Name>logs &amp; more</Name></Container><Container><Name>audit</Name></Container></Containers><NextMarker>after</NextMarker></EnumerationResults>".to_string(),
    };
    match list_service_items(StorageService::Blob, &vec![page]).unwrap() {
        Listing::NeedsPage(marker) => assert_eq!(marker.as_deref(), Some("after")),
        Listing::Done(_) => panic!("another page is named"),
    }
    let mut items: Vec<String> = Vec::new();
    let marker = read_page(
        "<R><Container><Name>b</Name></Container><Container><name>a</name></Container><NextMarker/></R>",
        &mut items,
    )
    .unwrap();
    assert_eq!(items, vec!["a".to_string(), "b".to_string()]);
    assert!(marker.is_none());
    assert!(read_page("<R><Name>a</R>", &mut items).is_err());
}

#[test]
fn refused_storage_pages_are_errors() {
    let page = StoragePage {
        success: false,
        status: "403 Forbidden".to_string(),
        body: "denied".to_string(),
    };
    let error = list_service_items(StorageService::Queue, &vec![page]).unwrap_err();
    assert!(error.contains("403 Forbidden"));
}

#[test]
fn pages_on_another_origin_are_refused() {
    let base = "https://graph.microsoft.com";
    let first = next_page(AzureApi::Graph, base, "/v1.0/organization", &vec![]).unwrap();
    assert_eq!(first.as_deref(), Some("https://graph.microsoft.com/v1.0/organization"));
    let same = vec![Some("https://graph.microsoft.com/next".to_string())];
    assert_eq!(
        next_page(AzureApi::Graph, base, "/v1.0/organization", &same).unwrap().as_deref(),
        Some("https://graph.microsoft.com/next")
    );
    let other = vec![Some("https://elsewhere.example/next".to_string())];
    assert!(next_page(AzureApi::Graph, base, "/v1.0/organization", &other).is_err());
    let last = vec![None];
    assert!(next_page(AzureApi::Graph, base, "/v1.0/organization", &last).unwrap().is_none());
}

#[test]
fn incomplete_azure_credentials_are_refused() {
    assert!(parse_azure_credentials(r#"{"tenant_id":"t","client_id":"c"}"#).is_err());
    match parse_azure_credentials(r#"{"storage_account":"a","storage_key":"k"}"#).unwrap() {
        AzureCredential::Storage { storage_account, storage_key } => {
            assert_eq!(storage_account, "a");
            assert_eq!(storage_key, "k");
        }
        AzureCredential::Enterprise(_) => panic!("expected storage credential"),
    }
}

#[test]
fn claims_of_a_token_are_read() {
    let token = fake_jwt(r#"{"aud":"https://graph.microsoft.com","scp":"User.Read Mail.Send"}"#);
    let claims = decode_token_claims(&token);
    assert_eq!(claims.audience.as_deref(), Some("https://graph.microsoft.com"));
    assert_eq!(claims.scopes, vec!["User.Read".to_string(), "Mail.Send".to_string()]);
    assert!(decode_token_claims("not a token").audience.is_none());
}

#[test]
fn storage_accounts_are_mapped() {
    let result = map_storage_access(
        "acct".to_string(),
        &None,
        &Ok(vec!["logs".to_string()]),
        &Err("no answer".to_string()),
        &Ok(vec![]),
    );
    assert_eq!(result.cloud, "azure");
    assert!(result.resources.iter().any(|resource| resource.name.contains("logs")));
    assert!(result.risk_notes.iter().any(|note| note.contains("no answer")));
}
