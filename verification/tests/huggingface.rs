//! Hugging Face tokens.

use access_map::huggingface::{
    derive_severity, inventory_url, map_access_from_token, parse_next_link, HfOrg, HfReplies,
    HfResource, HfWhoAmI,
};
use access_map::model::Severity;

#[test]
fn fine_grained_token_is_not_implicitly_admin() {
    let role = Some("fineGrained".to_string());
    let public = vec![HfResource {
        id: "owner/model".into(),
        resource_type: "model".into(),
        visibility: "public".into(),
        storage: None,
    }];
    assert!(matches!(derive_severity(&role, &public, &vec![]), Severity::Low));
}

#[test]
fn protected_resources_raise_severity() {
    let role = Some("read".to_string());
    let protected = vec![HfResource {
        id: "owner/space".into(),
        resource_type: "space".into(),
        visibility: "protected".into(),
        storage: None,
    }];
    assert!(matches!(derive_severity(&role, &protected, &vec![]), Severity::Medium));
}

#[test]
fn private_bucket_raises_severity() {
    let role = Some("read".to_string());
    let private_bucket = vec![HfResource {
        id: "owner/checkpoints".into(),
        resource_type: "bucket".into(),
        visibility: "private".into(),
        storage: Some(42),
    }];
    assert!(matches!(derive_severity(&role, &private_bucket, &vec![]), Severity::Medium));
}

#[test]
fn write_token_with_admin_org_is_high_severity() {
    let role = Some("write".to_string());
    let organizations =
        vec![HfOrg { name: Some("example".into()), role_in_org: Some("admin".into()) }];
    assert!(matches!(derive_severity(&role, &vec![], &organizations), Severity::High));
}

#[test]
fn inventory_addresses_name_the_organization() {
    let own = inventory_url(&None).unwrap();
    let other = inventory_url(&Some("a b".to_string())).unwrap();
    assert_ne!(own.text, other.text);
    assert!(other.text.contains("a%20b"));
}

#[test]
fn next_links_are_found_by_their_relation() {
    let header = "<https://huggingface.co/api/a>; rel=\"prev\", <https://huggingface.co/api/b>; rel=\"next\"";
    assert_eq!(parse_next_link(header).unwrap().text, "https://huggingface.co/api/b");
    assert!(parse_next_link("<https://huggingface.co/api/a>; rel=\"prev\"").is_none());
}

#[test]
fn failed_inventories_are_noted() {
    let replies = HfReplies {
        whoami: HfWhoAmI {
            name: Some("alice".into()),
            full_name: None,
            email: None,
            kind: Some("user".into()),
            orgs: vec![],
            token_type: None,
            token_name: None,
            token_role: Some("read".into()),
            token_created_at: None,
        },
        user_inventory: Err("no answer".into()),
        org_inventories: vec![],
    };
    let result = map_access_from_token(replies);
    assert_eq!(result.cloud, "huggingface");
    assert_eq!(result.identity.id, "alice");
    assert!(result.risk_notes.iter().any(|note| note.contains("no answer")));
    assert!(!result.resources.is_empty());
}
