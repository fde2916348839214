//! AWS policies, trust, paths and credentials.

use access_map::aws::credentials::credentials_from_kv;
use access_map::aws::evidence::{
    add_policy_evidence, push_authorization_path, truncate_authorization_evidence, PolicySource,
    MAX_AUTHORIZATION_PATHS, MAX_POLICY_EVIDENCE, MAX_POLICY_STATEMENTS,
};
use access_map::aws::identity::{principal_name_from_resource, PrincipalContext};
use access_map::aws::paths::{build_role_path, statement_matches_resource};
use access_map::aws::policy::{
    extract_actions_from_document, finalize_policy_actions, parse_policy_statements,
    PolicyDocumentFlags,
};
use access_map::aws::principal::redacted_tag_presence;
use access_map::aws::severity::{
    derive_severity, max_severity, severity_for_reachable_permissions,
};
use access_map::aws::trust::{principal_string_matches, trust_matches, TrustMatch};
use access_map::model::{
    AuthorizationEvidence, AuthorizationPath, AuthorizationStatement, PermissionSummary,
    PolicyEvidence, Severity,
};
use access_map::wildcard::wildcard_matches;

#[test]
fn extracts_principal_names_from_iam_and_sts_arns() {
    assert_eq!(
        principal_name_from_resource("role/service-role/DeployRole", &["role"]),
        Some("DeployRole".into())
    );
    assert_eq!(
        principal_name_from_resource(
            "assumed-role/AWSReservedSSO_Admin/session@example.com",
            &["assumed-role"]
        ),
        Some("AWSReservedSSO_Admin".into())
    );
    assert_eq!(
        principal_name_from_resource("user/engineering/alice", &["user"]),
        Some("alice".into())
    );
}

#[test]
fn policy_parser_applies_concrete_denies_and_records_scope_limits() {
    let document = r#"{
        "Statement": [
            {
                "Effect": "Allow",
                "Action": ["s3:GetObject", "s3:DeleteObject"],
                "Resource": "arn:aws:s3:::example/*",
                "Condition": {"StringEquals": {"aws:RequestedRegion": "us-west-2"}}
            },
            {
                "Effect": "Deny",
                "Action": "s3:Delete*",
                "Resource": "*"
            },
            {
                "Action": "iam:CreateUser",
                "Resource": "*"
            }
        ]
    }"#;
    let mut actions: Vec<String> = Vec::new();
    let mut flags = PolicyDocumentFlags::default();
    extract_actions_from_document(document, &mut actions, &mut flags).unwrap();

    let mut notes: Vec<String> = Vec::new();
    let actions = finalize_policy_actions(actions, &flags, &mut notes);

    assert_eq!(actions, vec!["s3.getobject"]);
    assert!(notes.iter().any(|note| note.contains("Deny statements")));
    assert!(notes.iter().any(|note| note.contains("conditional")));
    assert!(notes.iter().any(|note| note.contains("resource-scoped")));
}

#[test]
fn allow_not_action_is_summarized_as_constrained_wildcard() {
    let document = r#"{
        "Statement": {
            "Effect": "Allow",
            "NotAction": ["iam:DeleteUser", "organizations:*"],
            "Resource": "*"
        }
    }"#;
    let mut actions: Vec<String> = Vec::new();
    let mut flags = PolicyDocumentFlags::default();
    extract_actions_from_document(document, &mut actions, &mut flags).unwrap();

    let mut notes: Vec<String> = Vec::new();
    let actions = finalize_policy_actions(actions, &flags, &mut notes);

    assert_eq!(actions, vec!["*"]);
    assert!(notes.iter().any(|note| note.contains("NotAction")));
}

#[test]
fn conditional_deny_is_reported_without_erasing_possible_access() {
    let document = r#"{
        "Statement": [
            {
                "Effect": "Allow",
                "Action": "s3:GetObject",
                "Resource": "*"
            },
            {
                "Effect": "Deny",
                "Action": "s3:GetObject",
                "Resource": "*",
                "Condition": {"StringNotEquals": {"aws:RequestedRegion": "us-west-2"}}
            }
        ]
    }"#;
    let mut actions: Vec<String> = Vec::new();
    let mut flags = PolicyDocumentFlags::default();
    extract_actions_from_document(document, &mut actions, &mut flags).unwrap();

    let mut notes: Vec<String> = Vec::new();
    let actions = finalize_policy_actions(actions, &flags, &mut notes);

    assert_eq!(actions, vec!["s3.getobject"]);
    assert!(notes.iter().any(|note| note.contains("Deny statements")));
    assert!(notes.iter().any(|note| note.contains("conditional")));
}

#[test]
fn wildcard_matching_handles_iam_action_patterns() {
    assert!(wildcard_matches("s3.get*", "s3.getobject"));
    assert!(wildcard_matches("iam.?reateuser", "iam.createuser"));
    assert!(!wildcard_matches("s3.get*", "s3.putobject"));
}

#[test]
fn policy_evidence_preserves_provenance_and_redacts_condition_values() {
    let document = r#"{
        "Statement": {
            "Sid": "AllowDeploy",
            "Effect": "Allow",
            "Action": ["sts:AssumeRole", "iam:PassRole"],
            "Resource": "arn:aws:iam::123456789012:role/Deploy",
            "Condition": {
                "StringEquals": {
                    "sts:ExternalId": "sensitive-value"
                }
            }
        }
    }"#;
    let mut evidence = AuthorizationEvidence::default();
    add_policy_evidence(
        document,
        PolicySource::inline("deployment", "arn:aws:iam::123456789012:user/alice", None),
        &mut evidence,
    )
    .unwrap();

    assert_eq!(evidence.policies.len(), 1);
    let policy = &evidence.policies[0];
    assert_eq!(policy.name.as_deref(), Some("deployment"));
    assert_eq!(policy.attached_to, "arn:aws:iam::123456789012:user/alice");
    assert_eq!(policy.statements[0].sid.as_deref(), Some("AllowDeploy"));
    assert_eq!(policy.statements[0].actions, ["iam:PassRole", "sts:AssumeRole"]);
    assert_eq!(policy.statements[0].condition_keys, ["StringEquals:sts:ExternalId"]);
    assert!(!format!("{evidence:?}").contains("sensitive-value"));
}

#[test]
fn policy_sources_preserve_managed_inline_and_trust_provenance() {
    let managed = PolicySource::managed(
        "arn:aws:iam::aws:policy/ReadOnlyAccess",
        Some("ReadOnlyAccess".to_string()),
        "v4",
        "arn:aws:iam::123456789012:group/developers",
        Some("arn:aws:iam::123456789012:user/alice".to_string()),
    );
    assert_eq!(managed.kind, "managed");
    assert_eq!(managed.name.as_deref(), Some("ReadOnlyAccess"));
    assert_eq!(managed.version.as_deref(), Some("v4"));
    assert_eq!(managed.attached_via.as_deref(), Some("arn:aws:iam::123456789012:user/alice"));

    let inline =
        PolicySource::inline("deploy", "arn:aws:iam::123456789012:role/application", None);
    assert_eq!(inline.id, "inline:arn:aws:iam::123456789012:role/application:deploy");
    assert_eq!(inline.kind, "inline");

    let trust = PolicySource::trust("arn:aws:iam::123456789012:role/application");
    assert_eq!(trust.id, "trust:arn:aws:iam::123456789012:role/application");
    assert_eq!(trust.kind, "trust");
    assert_eq!(trust.name.as_deref(), Some("AssumeRolePolicyDocument"));
}

#[test]
fn principal_tag_values_are_not_retained() {
    let tags: Vec<(String, String)> = vec![
        ("environment".into(), "production".into()),
        ("external-id".into(), "sensitive-value".into()),
    ];

    let retained = redacted_tag_presence(&tags);
    assert_eq!(retained[0], ("environment".to_string(), "present".to_string()));
    assert_eq!(retained[1], ("external-id".to_string(), "present".to_string()));
    assert_eq!(retained.len(), 2);
    assert!(!format!("{retained:?}").contains("sensitive-value"));
}

#[test]
fn authorization_evidence_enforces_document_statement_and_path_caps() {
    let statement_document = r#"{
        "Statement": {"Effect": "Allow", "Action": "s3:ListAllMyBuckets", "Resource": "*"}
    }"#;

    let mut document_capped = AuthorizationEvidence {
        policies: (0..MAX_POLICY_EVIDENCE)
            .map(|index| PolicyEvidence {
                id: format!("policy-{index}"),
                statements: vec![AuthorizationStatement {
                    id: format!("policy-{index}#0"),
                    ..Default::default()
                }],
                ..Default::default()
            })
            .collect(),
        ..Default::default()
    };
    add_policy_evidence(
        statement_document,
        PolicySource::inline("overflow", "principal", None),
        &mut document_capped,
    )
    .unwrap();
    let document_capped = truncate_authorization_evidence(document_capped);
    assert_eq!(document_capped.policies.len(), MAX_POLICY_EVIDENCE);
    assert!(document_capped.limitations.iter().any(|note| note.contains("documents")));

    let mut statement_capped = AuthorizationEvidence {
        policies: vec![PolicyEvidence {
            id: "full".into(),
            statements: vec![AuthorizationStatement::default(); MAX_POLICY_STATEMENTS],
            ..Default::default()
        }],
        ..Default::default()
    };
    add_policy_evidence(
        statement_document,
        PolicySource::inline("overflow", "principal", None),
        &mut statement_capped,
    )
    .unwrap();
    let statement_capped = truncate_authorization_evidence(statement_capped);
    assert_eq!(statement_capped.policies.len(), 1);
    assert!(statement_capped.limitations.iter().any(|note| note.contains("statements")));

    let mut path_capped = AuthorizationEvidence {
        paths: vec![AuthorizationPath::default(); MAX_AUTHORIZATION_PATHS],
        ..Default::default()
    };
    assert!(!push_authorization_path(&mut path_capped, AuthorizationPath::default()));
    assert_eq!(path_capped.paths.len(), MAX_AUTHORIZATION_PATHS);
    assert!(path_capped.limitations.iter().any(|note| note.contains("paths")));
}

#[test]
fn plain_policy_json_does_not_decode_literal_percent_sequences() {
    let document = r#"{
        "Statement": {
            "Effect": "Allow",
            "Action": "s3:GetObject",
            "Resource": "arn:aws:s3:::example/%2Fobject"
        }
    }"#;

    let statements = parse_policy_statements(document, "example").unwrap();
    assert_eq!(statements[0].resources, ["arn:aws:s3:::example/%2Fobject"]);
}

#[test]
fn trust_policy_matches_account_delegation_and_marks_unknown_conditions() {
    let principal = PrincipalContext {
        raw_arn: "arn:aws:iam::123456789012:user/alice".into(),
        canonical_arn: None,
        account_id: Some("123456789012".into()),
        user_id: Some("AIDAEXAMPLE".into()),
        kind: "user".into(),
        name: Some("alice".into()),
        tags: Vec::new(),
        tags_complete: true,
    };
    let document = r#"{
        "Statement": {
            "Sid": "AccountWithExternalId",
            "Effect": "Allow",
            "Principal": {"AWS": "arn:aws:iam::123456789012:root"},
            "Action": "sts:AssumeRole",
            "Condition": {"StringEquals": {"sts:ExternalId": "required"}}
        }
    }"#;

    let matches = trust_matches(document, "arn:aws:iam::123456789012:role/Target", &principal);
    assert_eq!(matches.len(), 1);
    assert!(matches[0].conditional);
    assert_eq!(matches[0].condition_keys, ["StringEquals:sts:ExternalId"]);
    assert!(matches[0].identity_policy_required);
}

#[test]
fn direct_same_account_principal_grant_does_not_require_identity_allow() {
    let principal = PrincipalContext {
        raw_arn: "arn:aws:iam::123456789012:user/alice".into(),
        canonical_arn: None,
        account_id: Some("123456789012".into()),
        user_id: Some("AIDAEXAMPLE".into()),
        kind: "user".into(),
        name: Some("alice".into()),
        tags: Vec::new(),
        tags_complete: true,
    };
    let document = r#"{
        "Statement": {
            "Effect": "Allow",
            "Principal": {"AWS": "arn:aws:iam::123456789012:user/alice"},
            "Action": "sts:AssumeRole"
        }
    }"#;
    let target = "arn:aws:iam::123456789012:role/Target";
    let matches = trust_matches(document, target, &principal);

    assert_eq!(matches.len(), 1);
    assert!(!matches[0].identity_policy_required);
    let path = build_role_path(
        principal.authorization_arn(),
        target,
        &matches,
        &AuthorizationEvidence::default(),
    )
    .unwrap();
    assert_eq!(path.status, "potential");
}

#[test]
fn future_role_session_user_id_condition_is_unknown() {
    let principal = PrincipalContext {
        raw_arn: "arn:aws:iam::123456789012:role/Source".into(),
        canonical_arn: Some("arn:aws:iam::123456789012:role/Source".into()),
        account_id: Some("123456789012".into()),
        user_id: None,
        kind: "assumed_role".into(),
        name: None,
        tags: Vec::new(),
        tags_complete: false,
    };
    let document = r#"{
        "Statement": {
            "Effect": "Allow",
            "Principal": {"AWS": "arn:aws:iam::123456789012:role/Source"},
            "Action": "sts:AssumeRole",
            "Condition": {"StringLike": {"aws:userid": "AROAEXAMPLE:*"}}
        }
    }"#;

    let matches = trust_matches(document, "arn:aws:iam::123456789012:role/Target", &principal);
    assert_eq!(matches.len(), 1);
    assert!(matches[0].conditional);
    assert_eq!(matches[0].condition_keys, ["StringLike:aws:userid"]);
}

#[test]
fn unconditional_identity_deny_suppresses_role_path() {
    let source = "arn:aws:iam::123456789012:user/alice";
    let target = "arn:aws:iam::123456789012:role/Target";
    let evidence = AuthorizationEvidence {
        policies: vec![PolicyEvidence {
            id: "identity-policy".into(),
            name: Some("identity-policy".into()),
            kind: "inline".into(),
            attached_to: source.into(),
            statements: vec![
                AuthorizationStatement {
                    id: "identity-policy#allow".into(),
                    effect: "Allow".into(),
                    actions: vec!["sts:AssumeRole".into()],
                    resources: vec![target.into()],
                    ..AuthorizationStatement::default()
                },
                AuthorizationStatement {
                    id: "identity-policy#deny".into(),
                    effect: "Deny".into(),
                    actions: vec!["sts:AssumeRole".into()],
                    resources: vec![target.into()],
                    ..AuthorizationStatement::default()
                },
            ],
            ..PolicyEvidence::default()
        }],
        ..AuthorizationEvidence::default()
    };
    let trust = vec![TrustMatch {
        statement_id: "trust#allow".into(),
        related_statement_ids: Vec::new(),
        conditional: false,
        condition_keys: Vec::new(),
        identity_policy_required: true,
    }];

    assert!(build_role_path(source, target, &trust, &evidence).is_none());
}

#[test]
fn role_path_links_trust_and_identity_policy_evidence() {
    let source = "arn:aws:iam::123456789012:user/alice";
    let target = "arn:aws:iam::123456789012:role/Target";
    let evidence = AuthorizationEvidence {
        policies: vec![PolicyEvidence {
            id: "identity-policy".into(),
            name: None,
            kind: "managed".into(),
            attached_to: source.into(),
            statements: vec![AuthorizationStatement {
                id: "identity-policy#allow".into(),
                effect: "Allow".into(),
                actions: vec!["sts:*".into()],
                resources: vec!["arn:aws:iam::123456789012:role/*".into()],
                ..AuthorizationStatement::default()
            }],
            ..PolicyEvidence::default()
        }],
        ..AuthorizationEvidence::default()
    };
    let trust = vec![TrustMatch {
        statement_id: "trust#allow".into(),
        related_statement_ids: Vec::new(),
        conditional: false,
        condition_keys: Vec::new(),
        identity_policy_required: true,
    }];

    let path = build_role_path(source, target, &trust, &evidence).unwrap();
    assert_eq!(path.status, "potential");
    assert_eq!(path.evidence, ["identity-policy#allow", "trust#allow"]);
    assert_eq!(path.hops[0].relationship, "can_assume_role");
}

#[test]
fn role_path_distinguishes_trust_only_and_conditional_evidence() {
    let source = "arn:aws:iam::123456789012:user/alice";
    let target = "arn:aws:iam::123456789012:role/Target";
    let evidence = AuthorizationEvidence::default();

    let trust_only = vec![TrustMatch {
        statement_id: "trust#allow".into(),
        related_statement_ids: Vec::new(),
        conditional: false,
        condition_keys: Vec::new(),
        identity_policy_required: true,
    }];
    assert_eq!(
        build_role_path(source, target, &trust_only, &evidence).unwrap().status,
        "trust_only"
    );

    let conditional = vec![TrustMatch {
        statement_id: "trust#conditional".into(),
        related_statement_ids: Vec::new(),
        conditional: true,
        condition_keys: vec!["StringEquals:sts:ExternalId".into()],
        identity_policy_required: true,
    }];
    let path = build_role_path(source, target, &conditional, &evidence).unwrap();
    assert_eq!(path.status, "conditional");
    assert_eq!(path.conditions, ["StringEquals:sts:ExternalId"]);
}

#[test]
fn not_resource_allows_targets_outside_the_exclusion() {
    let statement = AuthorizationStatement {
        effect: "Allow".into(),
        actions: vec!["sts:AssumeRole".into()],
        not_resources: vec!["arn:aws:iam::123456789012:role/Blocked".into()],
        ..AuthorizationStatement::default()
    };

    assert!(statement_matches_resource(&statement, "arn:aws:iam::123456789012:role/Allowed"));
    assert!(!statement_matches_resource(&statement, "arn:aws:iam::123456789012:role/Blocked"));
}

#[test]
fn account_root_match_requires_the_iam_root_resource() {
    let principal = PrincipalContext {
        raw_arn: "arn:aws:iam::123456789012:user/alice".into(),
        canonical_arn: None,
        account_id: Some("123456789012".into()),
        user_id: Some("AIDAEXAMPLE".into()),
        kind: "user".into(),
        name: Some("alice".into()),
        tags: Vec::new(),
        tags_complete: true,
    };

    assert!(principal_string_matches("arn:aws:iam::123456789012:root", &principal));
    assert!(!principal_string_matches(
        "arn:aws:sts::123456789012:assumed-role/root",
        &principal
    ));
}

#[test]
fn root_identity_is_always_critical() {
    assert!(matches!(
        derive_severity("root", &PermissionSummary::default(), false),
        Severity::Critical
    ));
}

#[test]
fn reachable_admin_permissions_raise_severity() {
    let direct = Severity::Low;
    let reachable = PermissionSummary { admin: vec!["*".into()], ..Default::default() };

    assert!(matches!(
        max_severity(direct, severity_for_reachable_permissions(&reachable)),
        Severity::Critical
    ));
}

#[test]
fn kv_credentials_accept_exported_and_quoted_values() {
    let credentials = credentials_from_kv(
        "export AWS_ACCESS_KEY_ID='AKIAEXAMPLE'\n\
         export AWS_SECRET_ACCESS_KEY=\"secret\"\n\
         export AWS_SESSION_TOKEN='session'\n",
    )
    .unwrap();

    assert_eq!(credentials.access_key, "AKIAEXAMPLE");
    assert_eq!(credentials.secret_key, "secret");
    assert_eq!(credentials.session_token.as_deref(), Some("session"));
}
