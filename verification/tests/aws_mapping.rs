//! AWS mappings from the answers of STS, IAM and the services.

use access_map::aws::collect::{
    iam_error_is_access_denied, iam_error_message, AwsFailure, AwsGroup, GroupPolicies,
    InlinePolicyFetch, ManagedOutcome, ManagedPolicyFetch, PolicyListing,
};
use access_map::aws::credentials::load_credentials;
use access_map::aws::discovery::{
    discover_role_paths, role_listing_is_full, Discovery, RolePathDiscovery, MAX_DISCOVERED_ROLES,
};
use access_map::aws::identity::{classify_identity, derive_roles_from_arn, is_account_root_arn};
use access_map::aws::paths::combine_path_status;
use access_map::aws::principal::{
    expand_permissions, inspect_principal, Expansion, IamRole, IamUser, Inspection, PrincipalAnswer,
};
use access_map::aws::resources::{
    aws_resource_arn, enumerate_resources, should_enumerate, ListedItem, ServiceInventory,
    ServicePages,
};
use access_map::aws::severity::classify_permissions;
use access_map::aws::{begin_mapping, map_access_with_config, CallerStart};
use access_map::model::{PermissionSummary, Severity};

const USER: &str = "arn:aws:iam::123456789012:user/team/alice";
const ROLE: &str = "arn:aws:iam::123456789012:role/Deploy";
const SECOND: &str = "arn:aws:iam::123456789012:role/Second";

fn text(s: &str) -> Option<String> {
    Some(s.to_string())
}

fn denied() -> AwsFailure {
    AwsFailure {
        code: text("AccessDenied"),
        message: text("no"),
        display: "service error".to_string(),
    }
}

fn empty_listing() -> PolicyListing {
    PolicyListing {
        attached: vec![],
        attached_failure: None,
        inline: vec![],
        inline_failure: None,
    }
}

fn inline_listing(name: &str, document: &str) -> PolicyListing {
    PolicyListing {
        inline: vec![InlinePolicyFetch {
            name: name.to_string(),
            document: Ok(document.to_string()),
        }],
        ..empty_listing()
    }
}

fn role(arn: &str, name: &str, trusted: &str) -> IamRole {
    IamRole {
        arn: arn.to_string(),
        role_name: name.to_string(),
        role_id: "AROA1".to_string(),
        path: "/".to_string(),
        tags: vec![],
        max_session_duration: Some(3600),
        has_permissions_boundary: false,
        assume_role_policy_document: Some(format!(
            r#"{{"Statement":[{{"Effect":"Allow","Principal":{{"AWS":"{trusted}"}},"Action":"sts:AssumeRole"}}]}}"#
        )),
    }
}

fn started(arn: &str) -> CallerStart {
    begin_mapping(text(arn), text("123456789012"), text("AIDA1")).unwrap()
}

fn inspected() -> Inspection {
    let start = started(USER);
    inspect_principal(
        start.principal,
        &PrincipalAnswer::User {
            user: Ok(Some(IamUser {
                arn: USER.to_string(),
                user_id: "AIDA1".to_string(),
                path: "/team/".to_string(),
                tags: vec![("team".to_string(), "payments".to_string())],
                has_permissions_boundary: true,
            })),
            groups: vec![
                AwsGroup { name: "ops".to_string(), arn: "arn:g:ops".to_string() },
                AwsGroup { name: "dev".to_string(), arn: "arn:g:dev".to_string() },
            ],
            groups_failure: None,
        },
        start.evidence,
        vec![],
    )
}

fn pages<T>(items: Vec<T>) -> ServicePages<T> {
    ServicePages { items, failure: None }
}

fn empty_inventory() -> ServiceInventory {
    ServiceInventory {
        region: text("eu-west-1"),
        buckets: pages(vec![]),
        instances: pages(vec![]),
        functions: pages(vec![]),
        tables: pages(vec![]),
        keys: pages(vec![]),
        secrets: pages(vec![]),
        queues: pages(vec![]),
        topics: pages(vec![]),
        databases: pages(vec![]),
        repositories: pages(vec![]),
        parameters: pages(vec![]),
    }
}

fn full_inventory() -> ServiceInventory {
    ServiceInventory {
        region: text("eu-west-1"),
        buckets: pages(vec![text("logs"), None]),
        instances: pages(vec![text("i-1")]),
        functions: pages(vec![text("arn:fn")]),
        tables: pages(vec![text("orders")]),
        keys: pages(vec![
            ListedItem { id: text("k1"), arn: None },
            ListedItem { id: text("k2"), arn: text("arn:key") },
            ListedItem { id: None, arn: text("arn:lost") },
        ]),
        secrets: pages(vec![text("arn:secret")]),
        queues: pages(vec![text("https://queue")]),
        topics: pages(vec![text("arn:topic")]),
        databases: pages(vec![ListedItem { id: text("db"), arn: None }]),
        repositories: pages(vec![ListedItem { id: text("repo"), arn: text("arn:repo") }]),
        parameters: pages(vec![text("/app/key")]),
    }
}

fn names(found: &[access_map::model::ResourceExposure]) -> Vec<String> {
    found.iter().map(|item| format!("{}={}:{}", item.resource_type, item.name, item.risk)).collect()
}

fn summary(admin: &[&str], risky: &[&str], read_only: &[&str]) -> PermissionSummary {
    let list = |items: &[&str]| items.iter().map(|item| item.to_string()).collect::<Vec<_>>();
    PermissionSummary {
        admin: list(admin),
        privilege_escalation: vec![],
        risky: list(risky),
        read_only: list(read_only),
    }
}

#[test]
fn aws_mapping_needs_an_arn() {
    assert_eq!(
        begin_mapping(None, text("1"), None).err(),
        text("AWS GetCallerIdentity response missing ARN")
    );
    let start = started(ROLE);
    assert_eq!(start.arn, ROLE);
    assert_eq!(start.roles.len(), 1);
    assert_eq!(start.roles[0].name, "Deploy");
    assert_eq!(start.roles[0].source, "iam");
    assert_eq!(start.evidence.hierarchy[0].kind, "account");
    assert_eq!(start.evidence.hierarchy[0].id, "123456789012");
    assert_eq!(start.principal.kind, "role");
    assert!(derive_roles_from_arn(USER).is_empty());
}

#[test]
fn aws_identities_are_classified_by_their_arn() {
    assert_eq!(classify_identity("arn:aws:sts::1:assumed-role/r/s"), "assumed_role");
    assert_eq!(classify_identity(ROLE), "role");
    assert_eq!(classify_identity(USER), "user");
    assert_eq!(classify_identity("arn:aws:iam::1:root"), "root");
    assert_eq!(classify_identity("arn:aws:sts::1:federated-user"), "unknown");
    assert!(is_account_root_arn("arn:aws:iam::1:root"));
    assert!(!is_account_root_arn(USER));
}

#[test]
fn aws_user_is_inspected() {
    let found = inspected();
    assert_eq!(found.principal.canonical_arn, text(USER));
    assert!(found.principal.tags_complete);
    assert_eq!(found.groups[0].name, "dev");
    assert_eq!(found.groups[1].name, "ops");
    let evidence = found.evidence.principal.unwrap();
    assert_eq!(evidence.groups, vec!["dev".to_string(), "ops".to_string()]);
    assert_eq!(evidence.tags, vec![("team".to_string(), "present".to_string())]);
    let keys: Vec<&str> = evidence.attributes.iter().map(|(key, _)| key.as_str()).collect();
    assert_eq!(keys, vec!["iam_id", "path", "permissions_boundary", "sts_user_id"]);
    assert_eq!(
        found.evidence.limitations,
        vec!["An IAM permissions boundary applies to the principal and may reduce the listed permissions.".to_string()]
    );
    assert!(found.risk_notes.is_empty());
}

#[test]
fn aws_role_that_cannot_be_read_is_noted() {
    let start = started("arn:aws:sts::123456789012:assumed-role/Deploy/ci");
    let found = inspect_principal(
        start.principal,
        &PrincipalAnswer::Role(Err(denied())),
        start.evidence,
        vec![],
    );
    assert_eq!(found.principal.canonical_arn, None);
    assert_eq!(
        found.risk_notes,
        vec!["IAM policy enumeration blocked: the caller does not have iam:Get* or iam:List* permissions. Permissions incomplete.".to_string()]
    );
    assert_eq!(
        found.evidence.limitations,
        vec!["The backing IAM role could not be resolved from the session ARN.".to_string()]
    );
}

fn expanded() -> (Inspection, Expansion) {
    let found = inspected();
    let again = inspected();
    let own = PolicyListing {
        attached: vec![
            ManagedPolicyFetch {
                arn: text("arn:p:reader"),
                name: text("Reader"),
                outcome: ManagedOutcome::Fetched {
                    version: "v3".to_string(),
                    document: text(
                        r#"{"Statement":{"Effect":"Allow","Action":["s3:GetObject","s3:ListBucket"],"Resource":"*"}}"#,
                    ),
                },
            },
            ManagedPolicyFetch {
                arn: text("arn:p:broken"),
                name: None,
                outcome: ManagedOutcome::NoVersion,
            },
        ],
        ..inline_listing(
            "queue",
            r#"{"Statement":[{"Effect":"Allow","Action":"sqs:SendMessage","Resource":"*"},{"Effect":"Deny","Action":"s3:ListBucket","Resource":"*"}]}"#,
        )
    };
    let groups = vec![GroupPolicies {
        group: AwsGroup { name: "dev".to_string(), arn: "arn:g:dev".to_string() },
        listing: PolicyListing { attached_failure: Some(denied()), ..empty_listing() },
    }];
    let expansion = expand_permissions(
        &found.principal,
        &own,
        &groups,
        vec![],
        found.evidence,
        found.risk_notes,
    );
    (again, expansion)
}

#[test]
fn aws_user_permissions_are_expanded() {
    let (_, expansion) = expanded();
    assert_eq!(expansion.permissions.read_only, vec!["s3.getobject".to_string()]);
    assert_eq!(expansion.permissions.risky, vec!["sqs.sendmessage".to_string()]);
    assert!(expansion.permissions.admin.is_empty());
    assert_eq!(expansion.roles.len(), 1);
    assert_eq!(expansion.roles[0].name, "alice");
    assert_eq!(expansion.roles[0].source, "iam_user_and_groups");
    assert_eq!(
        expansion.roles[0].permissions,
        vec!["s3.getobject".to_string(), "sqs.sendmessage".to_string()]
    );
    assert!(expansion
        .risk_notes
        .contains(&"IAM enumeration incomplete: Managed policy arn:p:broken missing default version".to_string()));
    assert!(expansion.risk_notes.iter().any(|note| note.contains("explicit exclusions")));
    assert!(expansion.risk_notes.iter().any(|note| note.contains("enumeration blocked")));
    let ids: Vec<&str> =
        expansion.evidence.policies.iter().map(|policy| policy.id.as_str()).collect();
    assert_eq!(
        ids,
        vec![
            "arn:p:reader:v3:arn:aws:iam::123456789012:user/team/alice",
            "inline:arn:aws:iam::123456789012:user/team/alice:queue",
        ]
    );
}

fn discovered() -> (RolePathDiscovery, Vec<IamRole>, Vec<usize>) {
    let (inspection, expansion) = expanded();
    let roles = vec![role(ROLE, "Deploy", USER), role(SECOND, "Second", ROLE)];
    let mut fetched: Vec<PolicyListing> = vec![];
    let mut asked = vec![];
    loop {
        let step = discover_role_paths(
            &inspection.principal,
            expansion.evidence.clone(),
            vec![],
            &roles,
            &None,
            &fetched,
        );
        match step {
            Discovery::Done(found) => return (found, roles, asked),
            Discovery::NeedsPolicies(index) => {
                asked.push(index);
                fetched.push(if index == 0 {
                    inline_listing(
                        "hop",
                        r#"{"Statement":{"Effect":"Allow","Action":"sts:AssumeRole","Resource":"*"}}"#,
                    )
                } else {
                    inline_listing(
                        "all",
                        r#"{"Statement":{"Effect":"Allow","Action":"*","Resource":"*"}}"#,
                    )
                });
            }
        }
    }
}

#[test]
fn aws_role_paths_reach_two_hops() {
    let (found, _, asked) = discovered();
    assert_eq!(asked, vec![0, 1]);
    let paths = &found.evidence.paths;
    assert_eq!(paths.len(), 2);
    assert_eq!(paths[0].status, "potential");
    assert_eq!(paths[0].hops.len(), 1);
    assert_eq!(paths[0].hops[0].from, USER);
    assert_eq!(paths[0].hops[0].to, ROLE);
    assert_eq!(paths[1].hops.len(), 2);
    assert_eq!(paths[1].hops[0].to, ROLE);
    assert_eq!(paths[1].hops[1].to, SECOND);
    assert_eq!(paths[1].hops[1].relationship, "can_assume_role");
    assert_eq!(found.reachable_permissions.admin, vec!["*".to_string()]);
    assert_eq!(
        found.reachable_permissions.privilege_escalation,
        vec!["sts.assumerole".to_string()]
    );
    assert_eq!(found.evidence.limitations.len(), 4);
}

#[test]
fn aws_role_listing_stops_at_its_cap() {
    assert!(!role_listing_is_full(MAX_DISCOVERED_ROLES - 1));
    assert!(role_listing_is_full(MAX_DISCOVERED_ROLES));
    let (inspection, expansion) = expanded();
    let step = discover_role_paths(
        &inspection.principal,
        expansion.evidence,
        vec![],
        &vec![],
        &Some(denied()),
        &vec![],
    );
    match step {
        Discovery::Done(found) => {
            assert!(found.evidence.paths.is_empty());
            assert!(found
                .evidence
                .limitations
                .contains(&"IAM role inventory could not be completely enumerated.".to_string()));
        }
        Discovery::NeedsPolicies(_) => panic!("nothing is needed"),
    }
}

#[test]
fn aws_path_status_joins_two_hops() {
    assert_eq!(combine_path_status("potential", "potential"), "potential");
    assert_eq!(combine_path_status("potential", "conditional"), "conditional");
    assert_eq!(combine_path_status("trust_only", "conditional"), "conditional");
    assert_eq!(combine_path_status("potential", "trust_only"), "trust_only");
}

#[test]
fn aws_resources_are_enumerated_without_permissions() {
    let none = summary(&[], &[], &[]);
    let roles = vec![role(ROLE, "Deploy", USER)];
    let found = enumerate_resources(&none, &text("1"), &roles, &full_inventory(), vec![]);
    assert_eq!(
        found.risk_notes,
        vec!["IAM permissions unavailable; attempting best-effort resource discovery without permission gating.".to_string()]
    );
    assert_eq!(
        names(&found.resources),
        vec![
            "s3_bucket=arn:aws:s3:::logs:medium".to_string(),
            "ec2_instance=arn:aws:ec2:eu-west-1:1:instance/i-1:medium".to_string(),
            format!("iam_role={ROLE}:high"),
            "lambda_function=arn:fn:medium".to_string(),
            "dynamodb_table=arn:aws:dynamodb:eu-west-1:1:table/orders:medium".to_string(),
            "kms_key=arn:aws:kms:eu-west-1:1:key/k1:high".to_string(),
            "kms_key=arn:key:high".to_string(),
            "secret=arn:secret:high".to_string(),
            "sqs_queue=https://queue:medium".to_string(),
            "sns_topic=arn:topic:medium".to_string(),
            "rds_instance=db:medium".to_string(),
            "ecr_repository=arn:repo:medium".to_string(),
            "ssm_parameter=arn:aws:ssm:eu-west-1:1:parameter/app/key:medium".to_string(),
        ]
    );
}

#[test]
fn aws_resources_follow_the_permissions() {
    let granted = summary(&[], &["sqs.sendmessage", "ssm.putparameter"], &["s3.getobject"]);
    assert!(should_enumerate(&granted, "s3."));
    assert!(!should_enumerate(&granted, "kms."));
    let mut inventory = full_inventory();
    inventory.region = None;
    inventory.buckets.failure = Some(denied());
    let found = enumerate_resources(&granted, &text("1"), &vec![], &inventory, vec![]);
    assert_eq!(
        names(&found.resources),
        vec![
            "s3_bucket=arn:aws:s3:::logs:medium".to_string(),
            "sqs_queue=https://queue:high".to_string(),
            "ssm_parameter=/app/key:high".to_string(),
        ]
    );
    assert_eq!(
        found.resources[2].reason,
        "SSM parameter visible and parameter metadata suggests write access"
    );
    assert_eq!(found.resources[0].permissions, vec!["s3.getobject".to_string()]);
    assert_eq!(
        found.risk_notes,
        vec!["AWS enumeration incomplete: AccessDenied for s3".to_string()]
    );
    assert_eq!(aws_resource_arn(&None, &text("1"), "kms", "key/k"), None);
    assert_eq!(
        aws_resource_arn(&text("r"), &text("1"), "kms", "key/k"),
        text("arn:aws:kms:r:1:key/k")
    );
}

#[test]
fn aws_other_failures_are_noted_once() {
    let granted = summary(&["*"], &[], &[]);
    let mut inventory = empty_inventory();
    inventory.queues.failure =
        Some(AwsFailure { code: None, message: None, display: "timed out".to_string() });
    let found = enumerate_resources(&granted, &None, &vec![], &inventory, vec![]);
    assert!(found.resources.is_empty());
    assert_eq!(found.risk_notes, vec!["AWS enumeration failed for sqs: timed out".to_string()]);
}

#[test]
fn aws_failures_are_worded() {
    assert_eq!(iam_error_message(&denied()), "AccessDenied: no");
    let coded = AwsFailure { code: text("Throttling"), message: None, display: "x".to_string() };
    assert_eq!(iam_error_message(&coded), "Throttling");
    assert!(!iam_error_is_access_denied(&coded));
    let plain =
        AwsFailure { code: None, message: None, display: "NotAuthorized here".to_string() };
    assert_eq!(iam_error_message(&plain), "NotAuthorized here");
    assert!(iam_error_is_access_denied(&plain));
}

#[test]
fn aws_user_is_mapped() {
    let (inspection, expansion) = expanded();
    let (discovery, roles, _) = discovered();
    let found = enumerate_resources(
        &expansion.permissions,
        &text("123456789012"),
        &roles,
        &full_inventory(),
        vec![],
    );
    let result = map_access_with_config(
        USER.to_string(),
        text("123456789012"),
        &inspection.principal,
        expansion.roles,
        expansion.permissions,
        discovery.evidence,
        &discovery.reachable_permissions,
        found,
    );
    assert_eq!(result.cloud, "aws");
    assert_eq!(result.identity.id, USER);
    assert_eq!(result.identity.access_type, "user");
    assert_eq!(result.severity, Severity::Critical);
    assert_eq!(names(&result.resources).len(), 2);
    assert_eq!(
        result.risk_notes,
        vec!["Potential role paths reach 2 additional permission entries.".to_string()]
    );
    let details = result.token_details.unwrap();
    assert_eq!(details.name, text("alice"));
    assert_eq!(details.username, text("alice"));
    assert_eq!(details.token_type, text("access_key"));
    assert_eq!(details.user_id, text(USER));
    let evidence = result.provider_metadata.unwrap().authorization_evidence.unwrap();
    assert_eq!(evidence.paths.len(), 2);
}

#[test]
fn aws_root_with_nothing_visible_is_mapped() {
    let arn = "arn:aws:iam::1:root";
    let start = started(arn);
    let result = map_access_with_config(
        arn.to_string(),
        None,
        &start.principal,
        vec![],
        summary(&[], &[], &[]),
        start.evidence,
        &summary(&[], &[], &[]),
        enumerate_resources(&summary(&["*"], &[], &[]), &None, &vec![], &empty_inventory(), vec![]),
    );
    assert_eq!(result.severity, Severity::Critical);
    assert_eq!(result.roles.len(), 1);
    assert_eq!(result.roles[0].name, "root");
    assert_eq!(result.roles[0].source, "sts");
    assert_eq!(names(&result.resources), vec!["account=:critical".to_string()]);
    assert_eq!(
        result.risk_notes,
        vec!["Credential authenticates as the AWS account root user; root access keys have unrestricted account-level impact.".to_string()]
    );
}

#[test]
fn aws_actions_are_parted_by_risk() {
    let actions: Vec<String> =
        ["s3.*", "iam.passrole", "s3.putobject", "ec2.describeinstances"].map(String::from).to_vec();
    let found = classify_permissions(&actions);
    assert_eq!(found.admin, vec!["s3.*".to_string()]);
    assert_eq!(found.privilege_escalation, vec!["iam.passrole".to_string()]);
    assert_eq!(found.risky, vec!["s3.putobject".to_string()]);
    assert_eq!(found.read_only, vec!["ec2.describeinstances".to_string()]);
}

#[test]
fn aws_json_credentials_are_loaded() {
    let found = load_credentials(
        r#"{"AccessKeyId":"a","SecretAccessKey":"s","SessionToken":"t"}"#,
    )
    .unwrap();
    assert_eq!(found.access_key, "a");
    assert_eq!(found.secret_key, "s");
    assert_eq!(found.session_token, text("t"));
    assert_eq!(load_credentials("[]").err(), text("Credential JSON must be an object"));
    assert_eq!(
        load_credentials(r#"{"secret_access_key":"s"}"#).err(),
        text("Missing access_key_id in credential JSON")
    );
    assert_eq!(
        load_credentials(r#"{"access_key_id":"a"}"#).err(),
        text("Missing secret_access_key in credential JSON")
    );
    assert_eq!(
        load_credentials("# nothing\n").err(),
        text("Missing aws_access_key_id in credential file")
    );
    assert_eq!(
        load_credentials("aws_access_key_id=a").err(),
        text("Missing aws_secret_access_key in credential file")
    );
}
