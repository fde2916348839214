//! Auth0 client credentials.

use vstd::prelude::*;
use crate::json::{field, parse_json, parsed_json, text_of, Json};
use crate::mapping::{build_result, plain_result};
use crate::model::{
    binding, empty_access_token_details, empty_permission_summary, exposure, one_view, push_view,
    result_view, views, AccessMapResult, AccessMapResultView, AccessSummary, AccessSummaryView,
    AccessTokenDetails, AccessTokenDetailsView, PermissionSummary, PermissionSummaryView,
    ResourceExposure, ResourceExposureView, RoleBinding, Severity,
};
use crate::permissions::{
    class_list, file_permission, filed, lemma_filed, lemma_sorted_classes_stay_filled,
    lemma_sorted_summary, sort_permission_summary, sorted_summary, PermissionClass,
};
use crate::text::{
    begins, by_text, cat2, cat3, chars_of, copy_texts, decimal, i64_text, no_texts, one_text,
    pieces, push_text, signed_decimal, slice_from, split, split_whitespace, starts_with, str_eq,
    texts, trim, trim_end_char, trim_start_char, trimmed, usize_text, without_leading,
    without_trailing, words,
};

verus! {

/// What the exchange of credentials for a token came to.
#[derive(Debug)]
pub struct TokenResponse {
    pub token_type: String,
    pub scope: String,
    pub expires_in: i64,
}

/// A client.
#[derive(Debug)]
pub struct Auth0Client {
    pub client_id: String,
    pub name: String,
    pub app_type: String,
}

/// A resource server.
#[derive(Debug)]
pub struct Auth0ResourceServer {
    pub identifier: String,
    pub name: String,
}

/// Client credentials.
#[derive(Debug)]
pub struct Auth0Credentials {
    pub client_id: String,
    pub client_secret: String,
    pub domain: String,
}

/// Client credentials, as views.
#[verifier::ext_equal]
pub ghost struct Auth0CredentialsView {
    pub client_id: Seq<char>,
    pub client_secret: Seq<char>,
    pub domain: Seq<char>,
}

impl View for Auth0Credentials {
    type V = Auth0CredentialsView;

    open spec fn view(&self) -> Auth0CredentialsView {
        Auth0CredentialsView {
            client_id: self.client_id@,
            client_secret: self.client_secret@,
            domain: self.domain@,
        }
    }
}

/// The credentials in a file, by what the file is as JSON.
pub open spec fn file_credentials(json: Result<Json, Seq<char>>) -> Result<
    Auth0CredentialsView,
    Seq<char>,
> {
    match json {
        Err(_) => Err(
            "Auth0 credential file must be valid JSON with client_id, client_secret, and domain"@,
        ),
        Ok(value) => match (
            text_of(field(value, "client_id"@)),
            text_of(field(value, "client_secret"@)),
            text_of(field(value, "domain"@)),
        ) {
            (None, _, _) => Err("Auth0 credential JSON missing 'client_id'"@),
            (_, None, _) => Err("Auth0 credential JSON missing 'client_secret'"@),
            (_, _, None) => Err("Auth0 credential JSON missing 'domain'"@),
            (Some(client_id), Some(client_secret), Some(domain)) => Ok(
                Auth0CredentialsView { client_id, client_secret, domain },
            ),
        },
    }
}

/// Reads credentials out of a file of which it is known what it is as JSON.
pub fn read_credentials(json: &Result<Json, String>) -> (credentials: Result<
    Auth0Credentials,
    String,
>)
    ensures
        result_view(credentials) == file_credentials(by_text(*json)),
{
    match json {
        Err(_) => Err(
            "Auth0 credential file must be valid JSON with client_id, client_secret, and domain".to_owned(),
        ),
        Ok(value) => {
            let client_id = match value.text_at("client_id") {
                Some(text) => text,
                None => {
                    return Err("Auth0 credential JSON missing 'client_id'".to_owned());
                },
            };
            let client_secret = match value.text_at("client_secret") {
                Some(text) => text,
                None => {
                    return Err("Auth0 credential JSON missing 'client_secret'".to_owned());
                },
            };
            match value.text_at("domain") {
                Some(domain) => Ok(Auth0Credentials { client_id, client_secret, domain }),
                None => Err("Auth0 credential JSON missing 'domain'".to_owned()),
            }
        },
    }
}

/// Reads credentials out of a file.
pub fn parse_auth0_credentials(raw: &str) -> (credentials: Result<Auth0Credentials, String>)
    ensures
        result_view(credentials) == file_credentials(parsed_json(raw@)),
{
    let json = parse_json(raw);
    read_credentials(&json)
}

/// A text without the copies of a prefix at its start.
pub open spec fn without_prefix(s: Seq<char>, prefix: Seq<char>) -> Seq<char>
    decreases s.len(),
{
    if prefix.len() > 0 && begins(s, prefix) {
        without_prefix(s.skip(prefix.len() as int), prefix)
    } else {
        s
    }
}

fn trim_prefix(s: &str, prefix: &str) -> (rest: String)
    requires
        prefix@.len() > 0,
    ensures
        rest@ == without_prefix(s@, prefix@),
{
    let mut rest: String = s.to_owned();
    while starts_with(rest.as_str(), prefix)
        invariant
            prefix@.len() > 0,
            without_prefix(rest@, prefix@) == without_prefix(s@, prefix@),
        decreases rest@.len(),
    {
        let n: usize = chars_of(prefix).len();
        rest = slice_from(rest.as_str(), n);
    }
    rest
}

/// The bare domain in the address of a tenant: without its scheme, its path and the slashes around
/// it.
pub open spec fn bare_domain(domain: Seq<char>) -> Seq<char> {
    let text = without_trailing(without_leading(trimmed(domain), '/'), '/');
    let host = if begins(text, "https://"@) {
        without_prefix(text, "https://"@)
    } else if begins(text, "http://"@) {
        without_prefix(text, "http://"@)
    } else {
        text
    };
    pieces(host, '/')[0]
}

pub fn normalize_domain(domain: &str) -> (bare: String)
    ensures
        bare@ == bare_domain(domain@),
{
    let text = trim(domain);
    let text = trim_start_char(text.as_str(), '/');
    let text = trim_end_char(text.as_str(), '/');
    proof {
        reveal_strlit("https://");
        reveal_strlit("http://");
    }
    let host = if starts_with(text.as_str(), "https://") {
        trim_prefix(text.as_str(), "https://")
    } else if starts_with(text.as_str(), "http://") {
        trim_prefix(text.as_str(), "http://")
    } else {
        text
    };
    let parts = split(host.as_str(), '/');
    assert(texts(parts@)[0] == parts@[0]@);
    parts[0].clone()
}

/// The class of what a scope permits.
pub open spec fn scope_class(scope: Seq<char>) -> PermissionClass {
    if begins(scope, "create:"@) || begins(scope, "delete:"@) || scope == "update:users"@ || scope
        == "update:clients"@ {
        PermissionClass::Admin
    } else if begins(scope, "read:users"@) || begins(scope, "read:clients"@) || begins(
        scope,
        "update:"@,
    ) {
        PermissionClass::Risky
    } else if begins(scope, "read:"@) {
        PermissionClass::ReadOnly
    } else {
        PermissionClass::Risky
    }
}

pub fn classify_scope(scope: &str) -> (class: PermissionClass)
    ensures
        class == scope_class(scope@),
{
    if starts_with(scope, "create:") || starts_with(scope, "delete:") || str_eq(
        scope,
        "update:users",
    ) || str_eq(scope, "update:clients") {
        PermissionClass::Admin
    } else if starts_with(scope, "read:users") || starts_with(scope, "read:clients")
        || starts_with(scope, "update:") {
        PermissionClass::Risky
    } else if starts_with(scope, "read:") {
        PermissionClass::ReadOnly
    } else {
        PermissionClass::Risky
    }
}

/// The summary with one more scope.
pub open spec fn with_scope(summary: PermissionSummaryView, scope: Seq<char>) -> PermissionSummaryView {
    filed(summary, scope_class(scope), scope)
}

fn file_scope(summary: &mut PermissionSummary, scope: &str)
    ensures
        final(summary)@ == with_scope(old(summary)@, scope@),
{
    file_permission(summary, classify_scope(scope), scope.to_owned());
}

/// The summary with the first `n` scopes.
pub open spec fn with_scopes(summary: PermissionSummaryView, list: Seq<Seq<char>>, n: int) -> PermissionSummaryView
    decreases n,
{
    if n <= 0 {
        summary
    } else {
        with_scope(with_scopes(summary, list, n - 1), list[n - 1])
    }
}

fn file_scopes(summary: &mut PermissionSummary, list: &Vec<String>)
    ensures
        final(summary)@ == with_scopes(old(summary)@, texts(list@), list@.len() as int),
{
    let ghost start = summary@;
    let mut i: usize = 0;
    while i < list.len()
        invariant
            i <= list@.len(),
            summary@ == with_scopes(start, texts(list@), i as int),
        decreases list@.len() - i,
    {
        assert(texts(list@)[i as int] == list@[i as int]@);
        file_scope(summary, list[i].as_str());
        i = i + 1;
    }
}

/// The name of a thing, or else its identifier.
pub open spec fn label(name: Seq<char>, id: Seq<char>) -> Seq<char> {
    if name.len() == 0 {
        id
    } else {
        name
    }
}

fn pick_label(name: &String, id: &String) -> (text: String)
    ensures
        text@ == label(name@, id@),
{
    if name.as_str().is_empty() {
        id.clone()
    } else {
        name.clone()
    }
}

/// The resource that stands for a client.
pub open spec fn client_exposure(client: Auth0Client) -> ResourceExposureView {
    exposure(
        "auth0_client"@,
        label(client.name@, client.client_id@),
        seq!["app_type:"@ + client.app_type@],
        Severity::Medium,
        "Auth0 client application visible to management API"@,
    )
}

fn expose_client(client: &Auth0Client) -> (resource: ResourceExposure)
    ensures
        resource@ == client_exposure(*client),
{
    ResourceExposure::new(
        "auth0_client",
        pick_label(&client.name, &client.client_id).as_str(),
        one_text(cat2("app_type:", client.app_type.as_str()).as_str()),
        Severity::Medium,
        "Auth0 client application visible to management API",
    )
}

/// The resources that stand for the first `n` clients.
pub open spec fn clients_upto(list: Seq<Auth0Client>, n: int) -> Seq<ResourceExposureView>
    decreases n,
{
    if n <= 0 {
        Seq::empty()
    } else {
        clients_upto(list, n - 1).push(client_exposure(list[n - 1]))
    }
}

fn add_clients(resources: &mut Vec<ResourceExposure>, list: &Vec<Auth0Client>)
    ensures
        views(final(resources)@) == views(old(resources)@) + clients_upto(
            list@,
            list@.len() as int,
        ),
{
    let ghost before = views(resources@);
    let mut i: usize = 0;
    assert(before =~= before + clients_upto(list@, 0));
    while i < list.len()
        invariant
            i <= list@.len(),
            views(resources@) == before + clients_upto(list@, i as int),
        decreases list@.len() - i,
    {
        push_view(resources, expose_client(&list[i]));
        i = i + 1;
        assert(views(resources@) =~= before + clients_upto(list@, i as int));
    }
}

/// The resource that stands for a resource server.
pub open spec fn server_exposure(server: Auth0ResourceServer) -> ResourceExposureView {
    exposure(
        "auth0_resource_server"@,
        label(server.name@, server.identifier@),
        seq!["resource_server:visible"@],
        Severity::Medium,
        "Auth0 resource server (API) visible to management API"@,
    )
}

fn expose_server(server: &Auth0ResourceServer) -> (resource: ResourceExposure)
    ensures
        resource@ == server_exposure(*server),
{
    ResourceExposure::new(
        "auth0_resource_server",
        pick_label(&server.name, &server.identifier).as_str(),
        one_text("resource_server:visible"),
        Severity::Medium,
        "Auth0 resource server (API) visible to management API",
    )
}

/// The resources that stand for the first `n` resource servers.
pub open spec fn servers_upto(list: Seq<Auth0ResourceServer>, n: int) -> Seq<ResourceExposureView>
    decreases n,
{
    if n <= 0 {
        Seq::empty()
    } else {
        servers_upto(list, n - 1).push(server_exposure(list[n - 1]))
    }
}

fn add_servers(resources: &mut Vec<ResourceExposure>, list: &Vec<Auth0ResourceServer>)
    ensures
        views(final(resources)@) == views(old(resources)@) + servers_upto(
            list@,
            list@.len() as int,
        ),
{
    let ghost before = views(resources@);
    let mut i: usize = 0;
    assert(before =~= before + servers_upto(list@, 0));
    while i < list.len()
        invariant
            i <= list@.len(),
            views(resources@) == before + servers_upto(list@, i as int),
        decreases list@.len() - i,
    {
        push_view(resources, expose_server(&list[i]));
        i = i + 1;
        assert(views(resources@) =~= before + servers_upto(list@, i as int));
    }
}

/// What a listing gave.
pub open spec fn listed<T>(listing: Result<Vec<T>, String>) -> Seq<T> {
    match listing {
        Ok(list) => list@,
        Err(_) => Seq::empty(),
    }
}

/// The notes on credentials.
pub open spec fn auth0_notes(
    clients: Result<Vec<Auth0Client>, String>,
    servers: Result<Vec<Auth0ResourceServer>, String>,
) -> Seq<Seq<char>> {
    let first = match clients {
        Ok(_) => Seq::empty(),
        Err(error) => seq!["Client listing failed: "@ + error@],
    };
    let second = match servers {
        Ok(_) => first,
        Err(error) => first.push("Resource server listing failed: "@ + error@),
    };
    if listed(clients).len() > 0 {
        second.push(
            "Management API can enumerate "@ + decimal(listed(clients).len()) + " client(s)"@,
        )
    } else {
        second
    }
}

/// How grave it is what credentials permit.
pub open spec fn auth0_severity(permissions: PermissionSummaryView) -> Severity {
    if permissions.admin.len() > 0 {
        Severity::Critical
    } else if permissions.risky.len() > 0 {
        Severity::High
    } else {
        Severity::Medium
    }
}

/// What client credentials give access to.
pub open spec fn auth0_result(
    client_id: Seq<char>,
    domain: Seq<char>,
    token: TokenResponse,
    clients: Result<Vec<Auth0Client>, String>,
    servers: Result<Vec<Auth0ResourceServer>, String>,
) -> AccessMapResultView {
    let scopes = words(token.scope@);
    let permissions = with_scopes(empty_permission_summary(), scopes, scopes.len() as int);
    let severity = auth0_severity(permissions);
    plain_result(
        "auth0"@,
        AccessSummaryView {
            id: client_id + "@"@ + domain,
            access_type: "client_credentials"@,
            project: None,
            tenant: Some(domain),
            account_id: None,
        },
        seq![binding("auth0_client_credentials"@, "auth0"@, scopes)],
        sorted_summary(permissions),
        seq![
            exposure(
                "auth0_tenant"@,
                domain,
                scopes,
                severity,
                "Auth0 tenant reachable with these client credentials"@,
            ),
        ] + clients_upto(listed(clients), listed(clients).len() as int) + servers_upto(
            listed(servers),
            listed(servers).len() as int,
        ),
        severity,
        auth0_notes(clients, servers),
        Some(
            AccessTokenDetailsView {
                name: Some(client_id),
                token_type: Some(token.token_type@),
                scopes,
                expires_at: if token.expires_in > 0 {
                    Some(signed_decimal(token.expires_in as int) + "s from issuance"@)
                } else {
                    None
                },
                ..empty_access_token_details()
            },
        ),
    )
}

/// Maps client credentials from what the tenant answered to them. The domain is the bare one.
pub fn map_access_from_credentials(
    client_id: &str,
    domain: &str,
    token: &TokenResponse,
    clients: Result<Vec<Auth0Client>, String>,
    servers: Result<Vec<Auth0ResourceServer>, String>,
) -> (result: AccessMapResult)
    ensures
        result@ == auth0_result(client_id@, domain@, *token, clients, servers),
{
    let ghost given_clients = clients;
    let ghost given_servers = servers;
    let scopes = split_whitespace(token.scope.as_str());
    let mut permissions = PermissionSummary::default();
    file_scopes(&mut permissions, &scopes);
    let mut risk_notes = no_texts();
    let clients: Vec<Auth0Client> = match clients {
        Ok(list) => list,
        Err(error) => {
            push_text(&mut risk_notes, cat2("Client listing failed: ", error.as_str()));
            Vec::new()
        },
    };
    assert(clients@ =~= listed(given_clients));
    let servers: Vec<Auth0ResourceServer> = match servers {
        Ok(list) => list,
        Err(error) => {
            push_text(&mut risk_notes, cat2("Resource server listing failed: ", error.as_str()));
            Vec::new()
        },
    };
    assert(servers@ =~= listed(given_servers));
    let severity = if permissions.admin.len() > 0 {
        Severity::Critical
    } else if permissions.risky.len() > 0 {
        Severity::High
    } else {
        Severity::Medium
    };
    if clients.len() > 0 {
        let count = usize_text(clients.len());
        push_text(
            &mut risk_notes,
            cat3("Management API can enumerate ", count.as_str(), " client(s)"),
        );
    }
    assert(texts(risk_notes@) =~= auth0_notes(given_clients, given_servers));
    let roles = one_view(
        RoleBinding::new("auth0_client_credentials", "auth0", copy_texts(&scopes)),
    );
    let mut resources = one_view(
        ResourceExposure::new(
            "auth0_tenant",
            domain,
            copy_texts(&scopes),
            severity,
            "Auth0 tenant reachable with these client credentials",
        ),
    );
    add_clients(&mut resources, &clients);
    add_servers(&mut resources, &servers);
    sort_permission_summary(&mut permissions);
    let mut details = AccessTokenDetails::default();
    details.name = Some(client_id.to_owned());
    details.token_type = Some(token.token_type.clone());
    if token.expires_in > 0 {
        let seconds = i64_text(token.expires_in);
        details.expires_at = Some(cat2(seconds.as_str(), "s from issuance"));
    }
    details.scopes = scopes;
    build_result(
        "auth0",
        AccessSummary {
            id: cat3(client_id, "@", domain),
            access_type: "client_credentials".to_owned(),
            project: None,
            tenant: Some(domain.to_owned()),
            account_id: None,
        },
        roles,
        permissions,
        resources,
        severity,
        risk_notes,
        Some(details),
    )
}

/// A scope that creates or deletes makes a result critical.
pub proof fn lemma_changing_scopes_are_critical(
    client_id: Seq<char>,
    domain: Seq<char>,
    token: TokenResponse,
    clients: Result<Vec<Auth0Client>, String>,
    servers: Result<Vec<Auth0ResourceServer>, String>,
    k: int,
)
    requires
        0 <= k < words(token.scope@).len(),
        begins(words(token.scope@)[k], "create:"@) || begins(words(token.scope@)[k], "delete:"@),
    ensures
        auth0_result(client_id, domain, token, clients, servers).severity == Severity::Critical,
{
    let scopes = words(token.scope@);
    lemma_scope_is_filed(empty_permission_summary(), scopes, scopes.len() as int, k);
}

proof fn lemma_scope_is_filed(
    summary: PermissionSummaryView,
    scopes: Seq<Seq<char>>,
    n: int,
    k: int,
)
    requires
        0 <= k < n <= scopes.len(),
        scope_class(scopes[k]) == PermissionClass::Admin,
    ensures
        with_scopes(summary, scopes, n).admin.len() > 0,
    decreases n,
{
    if k < n - 1 {
        lemma_scope_is_filed(summary, scopes, n - 1, k);
    }
}

proof fn lemma_scopes_are_filed(summary: PermissionSummaryView, scopes: Seq<Seq<char>>, n: int, k: int)
    requires
        0 <= k < n <= scopes.len(),
    ensures
        class_list(with_scopes(summary, scopes, n), scope_class(scopes[k])).contains(scopes[k]),
    decreases n,
{
    let before = with_scopes(summary, scopes, n - 1);
    lemma_filed(before, scope_class(scopes[n - 1]), scopes[n - 1]);
    if k < n - 1 {
        lemma_scopes_are_filed(summary, scopes, n - 1, k);
    }
}

/// No scope of a token is left out: each stands in the class that it belongs to.
pub proof fn lemma_every_scope_is_reported(client_id: Seq<char>, domain: Seq<char>, token: TokenResponse, clients: Result<Vec<Auth0Client>, String>, servers: Result<Vec<Auth0ResourceServer>, String>, k: int)
    requires
        0 <= k < words(token.scope@).len(),
    ensures
        class_list(auth0_result(client_id, domain, token, clients, servers).permissions, scope_class(words(token.scope@)[k])).contains(words(token.scope@)[k]),
{
    let scopes = words(token.scope@);
    lemma_scopes_are_filed(empty_permission_summary(), scopes, scopes.len() as int, k);
    lemma_sorted_summary(
        with_scopes(empty_permission_summary(), scopes, scopes.len() as int),
        scope_class(scopes[k]),
    );
}

proof fn lemma_scopes_source(list: Seq<Seq<char>>, n: int, class: PermissionClass)
    requires
        0 <= n <= list.len(),
        class_list(with_scopes(empty_permission_summary(), list, n), class).len() > 0,
    ensures
        exists|k: int| 0 <= k < n && scope_class(#[trigger] list[k]) == class,
    decreases n,
{
    if n > 0 {
        let before = with_scopes(empty_permission_summary(), list, n - 1);
        lemma_filed(before, scope_class(list[n - 1]), list[n - 1]);
        if scope_class(list[n - 1]) != class {
            assert(class_list(before, class) == class_list(
                with_scopes(empty_permission_summary(), list, n),
                class,
            ));
            lemma_scopes_source(list, n - 1, class);
        }
    }
}

proof fn lemma_clients_listed(list: Seq<Auth0Client>, n: int)
    requires
        0 <= n <= list.len(),
    ensures
        clients_upto(list, n).len() == n,
        forall|k: int| 0 <= k < n ==> #[trigger] clients_upto(list, n)[k] == client_exposure(list[k]),
    decreases n,
{
    if n > 0 {
        lemma_clients_listed(list, n - 1);
    }
}

proof fn lemma_servers_listed(list: Seq<Auth0ResourceServer>, n: int)
    requires
        0 <= n <= list.len(),
    ensures
        servers_upto(list, n).len() == n,
        forall|k: int| 0 <= k < n ==> #[trigger] servers_upto(list, n)[k] == server_exposure(list[k]),
    decreases n,
{
    if n > 0 {
        lemma_servers_listed(list, n - 1);
    }
}

/// The gravest scope decides: one that creates, deletes or updates users or clients makes credentials
/// critical; one that updates anything else, reads users or clients, or is of a kind that is not known
/// makes them high at least. A scope counts as read-only only where it reads something else. Every
/// client and every resource server that was listed is reported, after the tenant itself.
pub proof fn lemma_gravest_scope_decides(
    client_id: Seq<char>,
    domain: Seq<char>,
    token: TokenResponse,
    clients: Result<Vec<Auth0Client>, String>,
    servers: Result<Vec<Auth0ResourceServer>, String>,
    k: int,
)
    ensures
        ({
            let result = auth0_result(client_id, domain, token, clients, servers);
            let scopes = words(token.scope@);
            &&& 0 <= k < scopes.len() ==> {
                let scope = scopes[k];
                &&& begins(scope, "create:"@) || begins(scope, "delete:"@) || scope == "update:users"@
                    || scope == "update:clients"@ ==> result.severity == Severity::Critical
                    && result.permissions.admin.contains(scope)
                &&& begins(scope, "update:"@) || begins(scope, "read:users"@) || begins(
                    scope,
                    "read:clients"@,
                ) || !begins(scope, "read:"@) ==> (result.severity == Severity::High || result.severity
                    == Severity::Critical) && (result.permissions.risky.contains(scope)
                    || result.permissions.admin.contains(scope))
            }
            &&& (forall|j: int|
                0 <= j < scopes.len() ==> begins(#[trigger] scopes[j], "read:"@) && !begins(
                    scopes[j],
                    "read:users"@,
                ) && !begins(scopes[j], "read:clients"@)) ==> result.severity == Severity::Medium
            &&& result.severity != Severity::Low
            &&& result.resources[0].name == domain
            &&& result.resources.len() == 1 + listed(clients).len() + listed(servers).len()
            &&& 0 <= k < listed(clients).len() && listed(clients)[k].name@.len() > 0
                ==> result.resources[1 + k].name == listed(clients)[k].name@
            &&& 0 <= k < listed(servers).len() && listed(servers)[k].name@.len() > 0
                ==> result.resources[1 + listed(clients).len() + k].name == listed(servers)[k].name@
            &&& result.identity.tenant == Some(domain)
        }),
{
    let scopes = words(token.scope@);
    let raw = with_scopes(empty_permission_summary(), scopes, scopes.len() as int);
    lemma_clients_listed(listed(clients), listed(clients).len() as int);
    lemma_servers_listed(listed(servers), listed(servers).len() as int);
    if 0 <= k < scopes.len() {
        lemma_scopes_are_filed(empty_permission_summary(), scopes, scopes.len() as int, k);
        lemma_sorted_summary(raw, scope_class(scopes[k]));
        assert(class_list(raw, scope_class(scopes[k])).contains(scopes[k]));
        assert(class_list(sorted_summary(raw), scope_class(scopes[k])).contains(scopes[k]));
    }
    assert(class_list(raw, PermissionClass::Admin) == raw.admin);
    assert(class_list(raw, PermissionClass::Risky) == raw.risky);
    if raw.admin.len() > 0 {
        lemma_scopes_source(scopes, scopes.len() as int, PermissionClass::Admin);
        let j = choose|j: int|
            0 <= j < scopes.len() && scope_class(#[trigger] scopes[j]) == PermissionClass::Admin;
        if begins(scopes[j], "read:"@) {
            lemma_other_verbs(scopes[j]);
        }
    }
    if raw.risky.len() > 0 {
        lemma_scopes_source(scopes, scopes.len() as int, PermissionClass::Risky);
        let j = choose|j: int|
            0 <= j < scopes.len() && scope_class(#[trigger] scopes[j]) == PermissionClass::Risky;
        if begins(scopes[j], "read:"@) {
            lemma_other_verbs(scopes[j]);
        }
    }
}

proof fn lemma_other_verbs(scope: Seq<char>)
    requires
        begins(scope, "read:"@),
    ensures
        !begins(scope, "create:"@) && !begins(scope, "delete:"@) && !begins(scope, "update:"@),
        scope != "update:users"@ && scope != "update:clients"@,
{
    reveal_strlit("read:");
    reveal_strlit("create:");
    reveal_strlit("delete:");
    reveal_strlit("update:");
    reveal_strlit("update:users");
    reveal_strlit("update:clients");
    assert(scope.subrange(0, 5)[0] == 'r');
    if begins(scope, "create:"@) {
        assert(scope.subrange(0, 7)[0] == 'c');
    }
    if begins(scope, "delete:"@) {
        assert(scope.subrange(0, 7)[0] == 'd');
    }
    if begins(scope, "update:"@) {
        assert(scope.subrange(0, 7)[0] == 'u');
    }
}

} // verus!
