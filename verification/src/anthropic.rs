//! Anthropic API keys.

use vstd::prelude::*;
use crate::mapping::{build_result, plain_result};
use crate::model::{
    binding, empty_access_token_details, empty_permission_summary, exposure, no_views, one_view,
    push_view, result_view, views, AccessMapResult, AccessMapResultView, AccessSummary,
    AccessSummaryView, AccessTokenDetails, AccessTokenDetailsView, PermissionSummary,
    PermissionSummaryView, ResourceExposure, ResourceExposureView, RoleBinding, RoleBindingView,
    Severity,
};
use crate::order::{in_order, lemma_in_order, sort_dedup};
use crate::permissions::{
    class_list, file_permission, filed, lemma_filed, lemma_sorted_classes_stay_filled,
    lemma_sorted_summary, PermissionClass,
};
use crate::text::{
    begins, cat2, cat3, copy_opt, copy_texts, decimal, either, first_text, is_among, no_texts,
    one_text, opt_text, push_text, starts_with, str_eq, text_else, texts, two_texts, usize_text,
};

verus! {

/// The number of models that a result lists.
pub const MAX_MODEL_RESOURCES: usize = 50;

/// A model.
#[derive(Debug)]
pub struct AnthropicModel {
    pub id: Option<String>,
    pub display_name: Option<String>,
}

/// An API key.
#[derive(Debug)]
pub struct AnthropicApiKey {
    pub id: Option<String>,
    pub name: Option<String>,
    pub created_at: Option<String>,
    pub permissions: Vec<String>,
}

/// What is known of the key that is mapped.
#[derive(Debug)]
pub struct KeyIntrospection {
    pub permissions: Vec<String>,
    pub id: Option<String>,
    pub name: Option<String>,
    pub created_at: Option<String>,
}

/// What is known of a key, as views.
#[verifier::ext_equal]
pub ghost struct KeyIntrospectionView {
    pub permissions: Seq<Seq<char>>,
    pub id: Option<Seq<char>>,
    pub name: Option<Seq<char>>,
    pub created_at: Option<Seq<char>>,
}

impl View for KeyIntrospection {
    type V = KeyIntrospectionView;

    open spec fn view(&self) -> KeyIntrospectionView {
        KeyIntrospectionView {
            permissions: texts(self.permissions@),
            id: opt_text(self.id),
            name: opt_text(self.name),
            created_at: opt_text(self.created_at),
        }
    }
}

/// What a listed key says of itself.
pub open spec fn introspection(key: AnthropicApiKey) -> KeyIntrospectionView {
    KeyIntrospectionView {
        permissions: texts(key.permissions@),
        id: opt_text(key.id),
        name: opt_text(key.name),
        created_at: opt_text(key.created_at),
    }
}

fn introspect(key: &AnthropicApiKey) -> (info: KeyIntrospection)
    ensures
        info@ == introspection(*key),
{
    KeyIntrospection {
        permissions: copy_texts(&key.permissions),
        id: copy_opt(&key.id),
        name: copy_opt(&key.name),
        created_at: copy_opt(&key.created_at),
    }
}

/// Whether the answer of an endpoint tells what a key may do.
pub open spec fn tells_permissions(key: Option<AnthropicApiKey>) -> bool {
    match key {
        Some(found) => found.permissions@.len() > 0,
        None => false,
    }
}

/// Says whether the answer of an endpoint tells what a key may do: where it does, nothing else is
/// asked.
pub fn is_telling(key: &Option<AnthropicApiKey>) -> (yes: bool)
    ensures
        yes == tells_permissions(*key),
{
    match key {
        Some(found) => found.permissions.len() > 0,
        None => false,
    }
}

/// What is known of a key: what the first endpoint that tells its permissions answered, or else the
/// only key of the organization.
pub open spec fn key_info(
    first: Option<AnthropicApiKey>,
    second: Option<AnthropicApiKey>,
    keys: Result<Vec<AnthropicApiKey>, String>,
) -> Result<KeyIntrospectionView, Seq<char>> {
    if tells_permissions(first) {
        Ok(introspection(first->0))
    } else if tells_permissions(second) {
        Ok(introspection(second->0))
    } else {
        match keys {
            Err(error) => Err(error@),
            Ok(list) => if list@.len() == 1 {
                Ok(introspection(list@[0]))
            } else {
                Err("Anthropic access-map: unable to map listed key permissions to this token"@)
            },
        }
    }
}

/// Finds out what is known of a key, from the answers of the two endpoints that speak of the key
/// itself and from the listing of the keys of its organization.
pub fn fetch_key_permissions(
    first: &Option<AnthropicApiKey>,
    second: &Option<AnthropicApiKey>,
    keys: &Result<Vec<AnthropicApiKey>, String>,
) -> (info: Result<KeyIntrospection, String>)
    ensures
        result_view(info) == key_info(*first, *second, *keys),
{
    match first {
        Some(key) => if key.permissions.len() > 0 {
            return Ok(introspect(key));
        },
        None => {},
    }
    match second {
        Some(key) => if key.permissions.len() > 0 {
            return Ok(introspect(key));
        },
        None => {},
    }
    match keys {
        Err(error) => Err(error.clone()),
        Ok(list) => if list.len() == 1 {
            Ok(introspect(&list[0]))
        } else {
            Err(
                "Anthropic access-map: unable to map listed key permissions to this token".to_owned(),
            )
        },
    }
}

/// The kind of a token.
pub open spec fn token_kind(token: Seq<char>) -> Seq<char> {
    if begins(token, "sk-ant-admin"@) {
        "admin_api_key"@
    } else if begins(token, "sk-ant-api"@) {
        "api_key"@
    } else {
        "unknown_api_key"@
    }
}

pub fn detect_token_type(token: &str) -> (kind: &'static str)
    ensures
        kind@ == token_kind(token@),
{
    if starts_with(token, "sk-ant-admin") {
        "admin_api_key"
    } else if starts_with(token, "sk-ant-api") {
        "api_key"
    } else {
        "unknown_api_key"
    }
}

/// The role that a scope stands for.
pub open spec fn scope_binding(scope: Seq<char>) -> RoleBindingView {
    binding("permission:"@ + scope, "anthropic"@, seq!["key:"@ + scope])
}

fn bind_scope(scope: &str) -> (role: RoleBinding)
    ensures
        role@ == scope_binding(scope@),
{
    RoleBinding::new(
        cat2("permission:", scope).as_str(),
        "anthropic",
        one_text(cat2("key:", scope).as_str()),
    )
}

/// The roles that stand for the first `n` scopes.
pub open spec fn scope_roles_upto(list: Seq<Seq<char>>, n: int) -> Seq<RoleBindingView>
    decreases n,
{
    if n <= 0 {
        Seq::empty()
    } else {
        scope_roles_upto(list, n - 1).push(scope_binding(list[n - 1]))
    }
}

fn add_scope_roles(roles: &mut Vec<RoleBinding>, list: &Vec<String>)
    ensures
        views(final(roles)@) == views(old(roles)@) + scope_roles_upto(
            texts(list@),
            list@.len() as int,
        ),
{
    let ghost before = views(roles@);
    let mut i: usize = 0;
    assert(before =~= before + scope_roles_upto(texts(list@), 0));
    while i < list.len()
        invariant
            i <= list@.len(),
            views(roles@) == before + scope_roles_upto(texts(list@), i as int),
        decreases list@.len() - i,
    {
        assert(texts(list@)[i as int] == list@[i as int]@);
        push_view(roles, bind_scope(list[i].as_str()));
        i = i + 1;
        assert(views(roles@) =~= before + scope_roles_upto(texts(list@), i as int));
    }
}

/// The summary with one more scope.
pub open spec fn with_scope(summary: PermissionSummaryView, scope: Seq<char>) -> PermissionSummaryView {
    filed(
        summary,
        if scope == "full_access"@ {
            PermissionClass::Admin
        } else {
            PermissionClass::Risky
        },
        "key:"@ + scope,
    )
}

fn file_scope(summary: &mut PermissionSummary, scope: &str)
    ensures
        final(summary)@ == with_scope(old(summary)@, scope@),
{
    let class = if str_eq(scope, "full_access") {
        PermissionClass::Admin
    } else {
        PermissionClass::Risky
    };
    file_permission(summary, class, cat2("key:", scope));
}

/// The summary with the first `n` scopes.
pub open spec fn with_scopes(summary: PermissionSummaryView, list: Seq<Seq<char>>, n: int) -> PermissionSummaryView
    decreases n,
{
    if n <= 0 {
        summary
    } else {
        with_scope(with_scopes(summary, list, n - 1), list[n - 1])
    }
}

fn file_scopes(summary: &mut PermissionSummary, list: &Vec<String>)
    ensures
        final(summary)@ == with_scopes(old(summary)@, texts(list@), list@.len() as int),
{
    let ghost start = summary@;
    let mut i: usize = 0;
    while i < list.len()
        invariant
            i <= list@.len(),
            summary@ == with_scopes(start, texts(list@), i as int),
        decreases list@.len() - i,
    {
        assert(texts(list@)[i as int] == list@[i as int]@);
        file_scope(summary, list[i].as_str());
        i = i + 1;
    }
}

/// The resource that stands for a model.
pub open spec fn model_exposure(model: AnthropicModel) -> ResourceExposureView {
    exposure(
        "model"@,
        text_else(either(opt_text(model.id), opt_text(model.display_name)), "unknown_model"@),
        seq!["model:read"@],
        Severity::Low,
        "Model accessible to this Anthropic key"@,
    )
}

fn expose_model(model: &AnthropicModel) -> (resource: ResourceExposure)
    ensures
        resource@ == model_exposure(*model),
{
    ResourceExposure::new(
        "model",
        first_text(&model.id, &model.display_name, "unknown_model").as_str(),
        one_text("model:read"),
        Severity::Low,
        "Model accessible to this Anthropic key",
    )
}

/// The resources that stand for the first `n` models.
pub open spec fn models_upto(list: Seq<AnthropicModel>, n: int) -> Seq<ResourceExposureView>
    decreases n,
{
    if n <= 0 {
        Seq::empty()
    } else {
        models_upto(list, n - 1).push(model_exposure(list[n - 1]))
    }
}

/// How many of a number of models a result lists.
pub open spec fn listed_models(count: nat) -> int {
    if count > MAX_MODEL_RESOURCES {
        MAX_MODEL_RESOURCES as int
    } else {
        count as int
    }
}

fn add_models(resources: &mut Vec<ResourceExposure>, list: &Vec<AnthropicModel>)
    ensures
        views(final(resources)@) == views(old(resources)@) + models_upto(
            list@,
            listed_models(list@.len()),
        ),
{
    let ghost before = views(resources@);
    let mut i: usize = 0;
    assert(before =~= before + models_upto(list@, 0));
    while i < list.len() && i < MAX_MODEL_RESOURCES
        invariant
            i <= list@.len(),
            i <= MAX_MODEL_RESOURCES,
            views(resources@) == before + models_upto(list@, i as int),
        decreases list@.len() - i,
    {
        push_view(resources, expose_model(&list[i]));
        i = i + 1;
        assert(views(resources@) =~= before + models_upto(list@, i as int));
    }
}

/// The resource that stands for a key of the organization.
pub open spec fn key_exposure(key: AnthropicApiKey, manages: bool) -> ResourceExposureView {
    exposure(
        "api_key"@,
        text_else(either(opt_text(key.name), opt_text(key.id)), "unknown_api_key"@),
        if manages {
            seq!["api_key:read"@, "api_key:manage"@]
        } else {
            seq!["api_key:read"@]
        },
        if manages {
            Severity::High
        } else {
            Severity::Medium
        },
        if manages {
            "Organization API key visible to a full-access Anthropic key"@
        } else {
            "Organization API key visible to this Anthropic key"@
        },
    )
}

fn expose_key(key: &AnthropicApiKey, manages: bool) -> (resource: ResourceExposure)
    ensures
        resource@ == key_exposure(*key, manages),
{
    let name = first_text(&key.name, &key.id, "unknown_api_key");
    if manages {
        ResourceExposure::new(
            "api_key",
            name.as_str(),
            two_texts("api_key:read", "api_key:manage"),
            Severity::High,
            "Organization API key visible to a full-access Anthropic key",
        )
    } else {
        ResourceExposure::new(
            "api_key",
            name.as_str(),
            one_text("api_key:read"),
            Severity::Medium,
            "Organization API key visible to this Anthropic key",
        )
    }
}

/// The resources that stand for the first `n` keys of the organization.
pub open spec fn keys_upto(list: Seq<AnthropicApiKey>, n: int, manages: bool) -> Seq<ResourceExposureView>
    decreases n,
{
    if n <= 0 {
        Seq::empty()
    } else {
        keys_upto(list, n - 1, manages).push(key_exposure(list[n - 1], manages))
    }
}

fn add_keys(resources: &mut Vec<ResourceExposure>, list: &Vec<AnthropicApiKey>, manages: bool)
    ensures
        views(final(resources)@) == views(old(resources)@) + keys_upto(
            list@,
            list@.len() as int,
            manages,
        ),
{
    let ghost before = views(resources@);
    let mut i: usize = 0;
    assert(before =~= before + keys_upto(list@, 0, manages));
    while i < list.len()
        invariant
            i <= list@.len(),
            views(resources@) == before + keys_upto(list@, i as int, manages),
        decreases list@.len() - i,
    {
        push_view(resources, expose_key(&list[i], manages));
        i = i + 1;
        assert(views(resources@) =~= before + keys_upto(list@, i as int, manages));
    }
}

/// How grave it is what a key may do.
pub open spec fn anthropic_severity(permissions: PermissionSummaryView) -> Severity {
    if permissions.admin.len() > 0 {
        Severity::High
    } else if permissions.risky.len() > 0 {
        Severity::Medium
    } else {
        Severity::Low
    }
}

pub fn derive_severity(permissions: &PermissionSummary) -> (severity: Severity)
    ensures
        severity == anthropic_severity(permissions@),
{
    if permissions.admin.len() > 0 {
        Severity::High
    } else if permissions.risky.len() > 0 {
        Severity::Medium
    } else {
        Severity::Low
    }
}

/// What is known of a key where the lookup failed.
pub open spec fn known_info(info: Result<KeyIntrospection, String>) -> KeyIntrospectionView {
    match info {
        Ok(found) => found@,
        Err(_) => KeyIntrospectionView {
            permissions: Seq::empty(),
            id: None,
            name: None,
            created_at: None,
        },
    }
}

/// The models that were listed.
pub open spec fn found_models(models: Result<Vec<AnthropicModel>, String>) -> Seq<AnthropicModel> {
    match models {
        Ok(list) => list@,
        Err(_) => Seq::empty(),
    }
}

/// What a key may do.
pub open spec fn key_permissions(scopes: Seq<Seq<char>>, keys: nat) -> PermissionSummaryView {
    let filed_scopes = with_scopes(empty_permission_summary(), scopes, scopes.len() as int);
    PermissionSummaryView {
        read_only: in_order(
            if keys > 0 {
                seq!["models:list"@, "api_keys:list"@]
            } else {
                seq!["models:list"@]
            },
        ),
        ..filed_scopes
    }
}

/// The resources that a key shows, or its account where it shows none.
pub open spec fn anthropic_resources(
    models: Seq<AnthropicModel>,
    keys: Seq<AnthropicApiKey>,
    manages: bool,
) -> Seq<ResourceExposureView> {
    if models.len() == 0 && keys.len() == 0 {
        seq![
            exposure(
                "account"@,
                "anthropic_api_key"@,
                Seq::empty(),
                Severity::Low,
                "Anthropic account associated with this API key"@,
            ),
        ]
    } else {
        models_upto(models, listed_models(models.len())) + keys_upto(
            keys,
            keys.len() as int,
            manages,
        )
    }
}

/// The notes on a key.
pub open spec fn anthropic_notes(
    info: Result<KeyIntrospection, String>,
    models: Result<Vec<AnthropicModel>, String>,
    keys: nat,
    manages: bool,
) -> Seq<Seq<char>> {
    let first = match info {
        Ok(_) => Seq::empty(),
        Err(error) => seq!["Key permission lookup failed: "@ + error@],
    };
    let second = match models {
        Err(error) => first.push("Model enumeration failed: "@ + error@),
        Ok(list) => if list@.len() > MAX_MODEL_RESOURCES {
            first.push(
                "Model resource list truncated to first 50 entries ("@ + decimal(list@.len())
                    + " total models visible)"@,
            )
        } else {
            first
        },
    };
    let third = if keys > 0 && manages {
        second.push("Key can enumerate organization API keys"@)
    } else {
        second
    };
    if found_models(models).len() == 0 && keys == 0 {
        third.push("No models were enumerable for this key"@)
    } else {
        third
    }
}

/// What an Anthropic key gives access to.
pub open spec fn anthropic_result(
    token: Seq<char>,
    info: Result<KeyIntrospection, String>,
    keys: Seq<AnthropicApiKey>,
    models: Result<Vec<AnthropicModel>, String>,
) -> AccessMapResultView {
    let scopes = in_order(known_info(info).permissions);
    let manages = scopes.contains("full_access"@);
    let permissions = key_permissions(scopes, keys.len());
    plain_result(
        "anthropic"@,
        AccessSummaryView {
            id: "anthropic_api_key"@,
            access_type: "token"@,
            project: None,
            tenant: None,
            account_id: None,
        },
        seq![
            binding(
                "token_type:"@ + token_kind(token),
                "anthropic"@,
                seq!["token:"@ + token_kind(token)],
            ),
        ] + scope_roles_upto(scopes, scopes.len() as int),
        permissions,
        anthropic_resources(found_models(models), keys, manages),
        anthropic_severity(permissions),
        anthropic_notes(info, models, keys.len(), manages),
        Some(
            AccessTokenDetailsView {
                name: known_info(info).name,
                account_type: Some("api_key"@),
                url: Some("https://console.anthropic.com/settings/keys"@),
                token_type: Some(token_kind(token)),
                created_at: known_info(info).created_at,
                user_id: known_info(info).id,
                scopes,
                ..empty_access_token_details()
            },
        ),
    )
}

fn note_findings(
    info: &Result<KeyIntrospection, String>,
    models: &Result<Vec<AnthropicModel>, String>,
    keys: usize,
    manages: bool,
) -> (notes: Vec<String>)
    ensures
        texts(notes@) == anthropic_notes(*info, *models, keys as nat, manages),
{
    let mut notes = no_texts();
    match info {
        Ok(_) => {},
        Err(error) => push_text(
            &mut notes,
            cat2("Key permission lookup failed: ", error.as_str()),
        ),
    }
    let mut some_models: bool = false;
    match models {
        Err(error) => push_text(&mut notes, cat2("Model enumeration failed: ", error.as_str())),
        Ok(list) => {
            some_models = list.len() > 0;
            if list.len() > MAX_MODEL_RESOURCES {
                let count = usize_text(list.len());
                push_text(
                    &mut notes,
                    cat3(
                        "Model resource list truncated to first 50 entries (",
                        count.as_str(),
                        " total models visible)",
                    ),
                );
            }
        },
    }
    if keys > 0 && manages {
        push_text(&mut notes, "Key can enumerate organization API keys".to_owned());
    }
    if !some_models && keys == 0 {
        push_text(&mut notes, "No models were enumerable for this key".to_owned());
    }
    assert(texts(notes@) =~= anthropic_notes(*info, *models, keys as nat, manages));
    notes
}

fn gather_permissions(scopes: &Vec<String>, keys: usize) -> (permissions: PermissionSummary)
    ensures
        permissions@ == key_permissions(texts(scopes@), keys as nat),
{
    let mut permissions = PermissionSummary::default();
    file_scopes(&mut permissions, scopes);
    let read_only = if keys > 0 {
        two_texts("models:list", "api_keys:list")
    } else {
        one_text("models:list")
    };
    permissions.read_only = sort_dedup(read_only);
    permissions
}

fn gather_resources(
    models: &Vec<AnthropicModel>,
    keys: &Vec<AnthropicApiKey>,
    manages: bool,
) -> (resources: Vec<ResourceExposure>)
    ensures
        views(resources@) == anthropic_resources(models@, keys@, manages),
{
    if models.len() == 0 && keys.len() == 0 {
        return one_view(
            ResourceExposure::new(
                "account",
                "anthropic_api_key",
                no_texts(),
                Severity::Low,
                "Anthropic account associated with this API key",
            ),
        );
    }
    let mut resources: Vec<ResourceExposure> = no_views();
    add_models(&mut resources, models);
    add_keys(&mut resources, keys, manages);
    assert(views(resources@) =~= anthropic_resources(models@, keys@, manages));
    resources
}

/// Maps an Anthropic key from what the service answered to it. A listing of keys that failed is
/// empty.
pub fn map_access_from_token(
    token: &str,
    info: Result<KeyIntrospection, String>,
    keys: &Vec<AnthropicApiKey>,
    models: Result<Vec<AnthropicModel>, String>,
) -> (result: AccessMapResult)
    ensures
        result@ == anthropic_result(token@, info, keys@, models),
{
    let ghost given_info = info;
    let ghost given_models = models;
    let ghost scope_views = in_order(known_info(info).permissions);
    let held = match &info {
        Ok(found) => copy_texts(&found.permissions),
        Err(_) => no_texts(),
    };
    let scopes = sort_dedup(held);
    let manages = is_among(&scopes, "full_access");
    let risk_notes = note_findings(&info, &models, keys.len(), manages);
    let kind = detect_token_type(token);
    let mut roles = one_view(
        RoleBinding::new(
            cat2("token_type:", kind).as_str(),
            "anthropic",
            one_text(cat2("token:", kind).as_str()),
        ),
    );
    add_scope_roles(&mut roles, &scopes);
    let permissions = gather_permissions(&scopes, keys.len());
    let models: Vec<AnthropicModel> = match models {
        Ok(list) => list,
        Err(_) => Vec::new(),
    };
    assert(models@ =~= found_models(given_models));
    let resources = gather_resources(&models, keys, manages);
    let severity = derive_severity(&permissions);
    let mut details = AccessTokenDetails::default();
    details.account_type = Some("api_key".to_owned());
    details.url = Some("https://console.anthropic.com/settings/keys".to_owned());
    details.token_type = Some(kind.to_owned());
    match info {
        Ok(found) => {
            details.name = found.name;
            details.created_at = found.created_at;
            details.user_id = found.id;
        },
        Err(_) => {},
    }
    details.scopes = scopes;
    build_result(
        "anthropic",
        AccessSummary {
            id: "anthropic_api_key".to_owned(),
            access_type: "token".to_owned(),
            project: None,
            tenant: None,
            account_id: None,
        },
        roles,
        permissions,
        resources,
        severity,
        risk_notes,
        Some(details),
    )
}

proof fn lemma_scopes_are_filed(summary: PermissionSummaryView, scopes: Seq<Seq<char>>, n: int, k: int)
    requires
        0 <= k < n <= scopes.len(),
    ensures
        class_list(with_scopes(summary, scopes, n), if scopes[k] == "full_access"@ { PermissionClass::Admin } else { PermissionClass::Risky }).contains("key:"@ + scopes[k]),
    decreases n,
{
    let before = with_scopes(summary, scopes, n - 1);
    lemma_filed(before, if scopes[n - 1] == "full_access"@ { PermissionClass::Admin } else { PermissionClass::Risky }, "key:"@ + scopes[n - 1]);
    if k < n - 1 {
        lemma_scopes_are_filed(summary, scopes, n - 1, k);
    }
}

/// No scope of a key is left out: each stands in the class that it belongs to.
pub proof fn lemma_every_scope_is_reported(token: Seq<char>, info: Result<KeyIntrospection, String>, keys: Seq<AnthropicApiKey>, models: Result<Vec<AnthropicModel>, String>, k: int)
    requires
        0 <= k < in_order(known_info(info).permissions).len(),
    ensures
        class_list(anthropic_result(token, info, keys, models).permissions, if in_order(known_info(info).permissions)[k] == "full_access"@ { PermissionClass::Admin } else { PermissionClass::Risky }).contains("key:"@ + in_order(known_info(info).permissions)[k]),
{
    let scopes = in_order(known_info(info).permissions);
    lemma_scopes_are_filed(empty_permission_summary(), scopes, scopes.len() as int, k);
}

proof fn lemma_models_len(list: Seq<AnthropicModel>, n: int)
    requires
        0 <= n,
    ensures
        models_upto(list, n).len() == n,
    decreases n,
{
    if n > 0 {
        lemma_models_len(list, n - 1);
    }
}

proof fn lemma_keys_len(list: Seq<AnthropicApiKey>, n: int, manages: bool)
    requires
        0 <= n,
    ensures
        keys_upto(list, n, manages).len() == n,
    decreases n,
{
    if n > 0 {
        lemma_keys_len(list, n - 1, manages);
    }
}

/// The result of a key always names a resource, if only its account.
pub proof fn lemma_some_resource_is_named(token: Seq<char>, info: Result<KeyIntrospection, String>, keys: Seq<AnthropicApiKey>, models: Result<Vec<AnthropicModel>, String>)
    ensures
        anthropic_result(token, info, keys, models).resources.len() > 0,
{
    let manages = in_order(known_info(info).permissions).contains("full_access"@);
    let list = found_models(models);
    lemma_models_len(list, listed_models(list.len()));
    lemma_keys_len(keys, keys.len() as int, manages);
}

proof fn lemma_scopes_filed(summary: PermissionSummaryView, list: Seq<Seq<char>>, n: int, k: int)
    requires
        0 <= k < n <= list.len(),
    ensures
        class_list(with_scopes(summary, list, n), (if list[k] == "full_access"@ { PermissionClass::Admin } else { PermissionClass::Risky })).contains("key:"@ + list[k]),
    decreases n,
{
    let before = with_scopes(summary, list, n - 1);
    lemma_filed(before, (if list[n - 1] == "full_access"@ { PermissionClass::Admin } else { PermissionClass::Risky }), "key:"@ + list[n - 1]);
    if k < n - 1 {
        lemma_scopes_filed(summary, list, n - 1, k);
        assert(class_list(before, (if list[k] == "full_access"@ { PermissionClass::Admin } else { PermissionClass::Risky })).contains("key:"@ + list[k]));
    }
}

proof fn lemma_models_listed(list: Seq<AnthropicModel>, n: int)
    requires
        0 <= n <= list.len(),
    ensures
        models_upto(list, n).len() == n,
        forall|k: int| 0 <= k < n ==> #[trigger] models_upto(list, n)[k] == model_exposure(list[k]),
    decreases n,
{
    if n > 0 {
        lemma_models_listed(list, n - 1);
    }
}

proof fn lemma_keys_listed(list: Seq<AnthropicApiKey>, n: int, manages: bool)
    requires
        0 <= n <= list.len(),
    ensures
        keys_upto(list, n, manages).len() == n,
        forall|k: int| 0 <= k < n ==> #[trigger] keys_upto(list, n, manages)[k] == key_exposure(list[k], manages),
    decreases n,
{
    if n > 0 {
        lemma_keys_listed(list, n - 1, manages);
    }
}

/// A key with full access is high and can manage the keys of its organization, each of which is then at
/// high risk; one with any other permission is medium at least, and one of which none is known is low.
/// Each permission of the key is reported in its class.
pub proof fn lemma_gravest_permission_decides(
    token: Seq<char>,
    info: Result<KeyIntrospection, String>,
    keys: Seq<AnthropicApiKey>,
    models: Result<Vec<AnthropicModel>, String>,
    k: int,
)
    ensures
        ({
            let result = anthropic_result(token, info, keys, models);
            let scopes = known_info(info).permissions;
            let count = found_models(models).len();
            &&& 0 <= k < scopes.len() ==> {
                &&& scopes[k] == "full_access"@ ==> result.severity == Severity::High
                    && result.permissions.admin.contains("key:full_access"@)
                &&& scopes[k] != "full_access"@ ==> result.severity != Severity::Low
                    && result.permissions.risky.contains("key:"@ + scopes[k])
            }
            &&& !scopes.contains("full_access"@) ==> result.severity != Severity::High
            &&& scopes.len() == 0 ==> result.severity == Severity::Low
            &&& result.permissions.read_only.contains("models:list"@)
            &&& keys.len() > 0 ==> result.permissions.read_only.contains("api_keys:list"@)
            &&& 0 <= k < keys.len() && keys[k].name is Some ==> {
                let resource = result.resources[listed_models(count) + k];
                &&& resource.resource_type == "api_key"@
                &&& resource.name == keys[k].name->0@
                &&& scopes.contains("full_access"@) ==> resource.risk == "high"@
                &&& !scopes.contains("full_access"@) ==> resource.risk == "medium"@
            }
            &&& 0 <= k < count && k < MAX_MODEL_RESOURCES && found_models(models)[k].id is Some
                ==> result.resources[k].resource_type == "model"@ && result.resources[k].name
                == found_models(models)[k].id->0@
        }),
{
    let raw = known_info(info).permissions;
    let scopes = in_order(raw);
    let manages = scopes.contains("full_access"@);
    let all = found_models(models);
    lemma_in_order(raw);
    lemma_models_listed(all, listed_models(all.len()));
    lemma_keys_listed(keys, keys.len() as int, manages);
    let filed_scopes = with_scopes(empty_permission_summary(), scopes, scopes.len() as int);
    reveal_strlit("key:");
    reveal_strlit("full_access");
    reveal_strlit("key:full_access");
    assert("key:"@ + "full_access"@ =~= "key:full_access"@);
    if 0 <= k < raw.len() {
        assert(raw.contains(raw[k]));
        assert(scopes.contains(raw[k]));
        let m = choose|m: int| 0 <= m < scopes.len() && scopes[m] == raw[k];
        lemma_scopes_filed(empty_permission_summary(), scopes, scopes.len() as int, m);
    }
    if filed_scopes.admin.len() > 0 {
        lemma_scopes_source(scopes, scopes.len() as int, PermissionClass::Admin);
    }
    if scopes.len() > 0 {
        assert(scopes.contains(scopes[0]));
        assert(raw.contains(scopes[0]));
    }
    let listed = if keys.len() > 0 {
        seq!["models:list"@, "api_keys:list"@]
    } else {
        seq!["models:list"@]
    };
    lemma_in_order(listed);
    assert(listed[0] == "models:list"@);
    assert(listed.contains("models:list"@));
    if keys.len() > 0 {
        assert(listed[1] == "api_keys:list"@);
        assert(listed.contains("api_keys:list"@));
    }
}

proof fn lemma_scopes_source(list: Seq<Seq<char>>, n: int, class: PermissionClass)
    requires
        0 <= n <= list.len(),
        class_list(with_scopes(empty_permission_summary(), list, n), class).len() > 0,
    ensures
        exists|k: int| 0 <= k < n && (if #[trigger] list[k] == "full_access"@ { PermissionClass::Admin } else { PermissionClass::Risky }) == class,
    decreases n,
{
    if n > 0 {
        let before = with_scopes(empty_permission_summary(), list, n - 1);
        lemma_filed(before, (if list[n - 1] == "full_access"@ { PermissionClass::Admin } else { PermissionClass::Risky }), "key:"@ + list[n - 1]);
        if (if list[n - 1] == "full_access"@ { PermissionClass::Admin } else { PermissionClass::Risky }) != class {
            assert(class_list(before, class) == class_list(
                with_scopes(empty_permission_summary(), list, n),
                class,
            ));
            lemma_scopes_source(list, n - 1, class);
        }
    }
}

} // verus!
