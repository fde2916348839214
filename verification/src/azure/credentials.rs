//! Azure credentials as they stand in credential files.

use vstd::prelude::*;
use crate::azure::claims::{
    decode_token_claims, for_management, is_management_audience, token_claims,
};
use crate::json::{parse_json, parsed_json, text_of, Json};
use crate::keyed::{lemma_put_keeps, no_pairs, put, put_pair};
use crate::model::{pairs, result_view};
use crate::text::{
    ascii_lower, begins, cut, either, eq_ignore_ascii_case, lemma_parts_are_cut, line_list, lines,
    opt_text, or_text, slices, split_once, starts_with, texts, trim, trim_quotes, trimmed,
    unwrap_text, without_quotes,
};

verus! {

pub const DEFAULT_AUTHORITY_HOST: &'static str = "https://login.microsoftonline.com";

pub const DEFAULT_GRAPH_BASE_URL: &'static str = "https://graph.microsoft.com";

pub const DEFAULT_MANAGEMENT_BASE_URL: &'static str = "https://management.azure.com";

/// A service principal or a set of access tokens, and where to use them.
#[derive(Debug)]
pub struct EnterpriseCredential {
    pub tenant_id: Option<String>,
    pub client_id: Option<String>,
    pub client_secret: Option<String>,
    pub graph_access_token: Option<String>,
    pub management_access_token: Option<String>,
    pub authority_host: String,
    pub graph_base_url: String,
    pub management_base_url: String,
}

/// What an `EnterpriseCredential` says.
#[verifier::ext_equal]
pub struct EnterpriseCredentialView {
    pub tenant_id: Option<Seq<char>>,
    pub client_id: Option<Seq<char>>,
    pub client_secret: Option<Seq<char>>,
    pub graph_access_token: Option<Seq<char>>,
    pub management_access_token: Option<Seq<char>>,
    pub authority_host: Seq<char>,
    pub graph_base_url: Seq<char>,
    pub management_base_url: Seq<char>,
}

impl View for EnterpriseCredential {
    type V = EnterpriseCredentialView;

    open spec fn view(&self) -> EnterpriseCredentialView {
        EnterpriseCredentialView {
            tenant_id: opt_text(self.tenant_id),
            client_id: opt_text(self.client_id),
            client_secret: opt_text(self.client_secret),
            graph_access_token: opt_text(self.graph_access_token),
            management_access_token: opt_text(self.management_access_token),
            authority_host: self.authority_host@,
            graph_base_url: self.graph_base_url@,
            management_base_url: self.management_base_url@,
        }
    }
}

/// What an Azure credential file holds.
#[derive(Debug)]
pub enum AzureCredential {
    Storage { storage_account: String, storage_key: String },
    Enterprise(EnterpriseCredential),
}

/// What an `AzureCredential` says.
#[verifier::ext_equal]
pub enum AzureCredentialView {
    Storage { storage_account: Seq<char>, storage_key: Seq<char> },
    Enterprise(EnterpriseCredentialView),
}

impl View for AzureCredential {
    type V = AzureCredentialView;

    open spec fn view(&self) -> AzureCredentialView {
        match self {
            AzureCredential::Storage { storage_account, storage_key } => {
                AzureCredentialView::Storage {
                    storage_account: storage_account@,
                    storage_key: storage_key@,
                }
            },
            AzureCredential::Enterprise(config) => AzureCredentialView::Enterprise(config@),
        }
    }
}

/// The text fields among the first `n` fields of an object, in the order of their keys.
pub open spec fn object_values(fields: Seq<(String, Json)>, n: int) -> Seq<(Seq<char>, Seq<char>)>
    decreases n,
{
    if n <= 0 {
        Seq::empty()
    } else {
        match text_of(Some(fields[n - 1].1)) {
            Some(text) => put(object_values(fields, n - 1), fields[n - 1].0@, text),
            None => object_values(fields, n - 1),
        }
    }
}

/// The key and the value that a line assigns, with `=` or `:` between them. A line that is empty,
/// a comment, or lacks one of the two assigns nothing.
pub open spec fn line_value(line: Seq<char>) -> Option<(Seq<char>, Seq<char>)> {
    let text = trimmed(line);
    if text.len() == 0 || begins(text, "#"@) {
        None
    } else {
        let parts = match cut(text, "="@) {
            Some(parts) => Some(parts),
            None => cut(text, ":"@),
        };
        match parts {
            None => None,
            Some((key, value)) => {
                let value = without_quotes(trimmed(value));
                if trimmed(key).len() > 0 && value.len() > 0 {
                    Some((trimmed(key), value))
                } else {
                    None
                }
            },
        }
    }
}

/// The values that the first `n` lines assign, in the order of their keys.
pub open spec fn line_values(list: Seq<Seq<char>>, n: int) -> Seq<(Seq<char>, Seq<char>)>
    decreases n,
{
    if n <= 0 {
        Seq::empty()
    } else {
        match line_value(list[n - 1]) {
            Some((key, value)) => put(line_values(list, n - 1), key, value),
            None => line_values(list, n - 1),
        }
    }
}

/// The keys and values that a credential file holds: the texts of a JSON object, or the
/// assignments in its lines.
pub open spec fn credential_values(data: Seq<char>) -> Result<
    Seq<(Seq<char>, Seq<char>)>,
    Seq<char>,
> {
    match parsed_json(data) {
        Ok(Json::Object(fields)) => Ok(object_values(fields@, fields@.len() as int)),
        _ => {
            let list = line_list(data);
            let values = line_values(list, list.len() as int);
            if values.len() == 0 {
                Err("Azure credential file must be a JSON object or KEY=VALUE document"@)
            } else {
                Ok(values)
            }
        },
    }
}

fn read_line(line: &str) -> (value: Option<(String, String)>)
    ensures
        match value {
            Some((key, text)) => line_value(line@) == Some((key@, text@)),
            None => line_value(line@) is None,
        },
{
    let text = trim(line);
    if text.as_str().is_empty() || starts_with(text.as_str(), "#") {
        return None;
    }
    let parts = match split_once(text.as_str(), "=") {
        Some(parts) => Some(parts),
        None => split_once(text.as_str(), ":"),
    };
    match parts {
        None => None,
        Some((key, value)) => {
            let key = trim(key.as_str());
            let value = trim_quotes(trim(value.as_str()).as_str());
            if !key.as_str().is_empty() && !value.as_str().is_empty() {
                Some((key, value))
            } else {
                None
            }
        },
    }
}

pub fn parse_credential_values(data: &str) -> (values: Result<Vec<(String, String)>, String>)
    ensures
        match values {
            Ok(list) => credential_values(data@) == Ok::<Seq<(Seq<char>, Seq<char>)>, Seq<char>>(
                pairs(list@),
            ),
            Err(error) => credential_values(data@) == Err::<
                Seq<(Seq<char>, Seq<char>)>,
                Seq<char>,
            >(error@),
        },
{
    match parse_json(data) {
        Ok(Json::Object(fields)) => {
            let mut values = no_pairs();
            let mut i: usize = 0;
            while i < fields.len()
                invariant
                    i <= fields@.len(),
                    pairs(values@) == object_values(fields@, i as int),
                decreases fields@.len() - i,
            {
                match fields[i].1.as_text() {
                    Some(text) => put_pair(&mut values, fields[i].0.clone(), text),
                    None => {},
                }
                i = i + 1;
            }
            Ok(values)
        },
        _ => {
            let list = lines(data);
            let mut values = no_pairs();
            let mut i: usize = 0;
            while i < list.len()
                invariant
                    i <= list@.len(),
                    pairs(values@) == line_values(texts(list@), i as int),
                decreases list@.len() - i,
            {
                assert(texts(list@)[i as int] == list@[i as int]@);
                match read_line(list[i].as_str()) {
                    Some((key, value)) => put_pair(&mut values, key, value),
                    None => {},
                }
                i = i + 1;
            }
            if values.len() == 0 {
                Err("Azure credential file must be a JSON object or KEY=VALUE document".to_owned())
            } else {
                Ok(values)
            }
        },
    }
}

/// The first value at or after `j` whose key is `key`, whatever the case, and that is more than
/// white space.
pub open spec fn value_under(values: Seq<(Seq<char>, Seq<char>)>, key: Seq<char>, j: int) -> Option<
    Seq<char>,
>
    decreases values.len() - j,
{
    if j < 0 || j >= values.len() {
        None
    } else if ascii_lower(values[j].0) == ascii_lower(key) && trimmed(values[j].1).len() > 0 {
        Some(trimmed(values[j].1))
    } else {
        value_under(values, key, j + 1)
    }
}

/// The value under the first of the keys, from the `i`-th on, that has one.
pub open spec fn value_at(
    values: Seq<(Seq<char>, Seq<char>)>,
    keys: Seq<Seq<char>>,
    i: int,
) -> Option<Seq<char>>
    decreases keys.len() - i,
{
    if i < 0 || i >= keys.len() {
        None
    } else {
        match value_under(values, keys[i], 0) {
            Some(value) => Some(value),
            None => value_at(values, keys, i + 1),
        }
    }
}

fn find_under(values: &Vec<(String, String)>, key: &str) -> (value: Option<String>)
    ensures
        opt_text(value) == value_under(pairs(values@), key@, 0),
{
    let mut j: usize = 0;
    while j < values.len()
        invariant
            j <= values@.len(),
            value_under(pairs(values@), key@, 0) == value_under(pairs(values@), key@, j as int),
        decreases values@.len() - j,
    {
        if eq_ignore_ascii_case(values[j].0.as_str(), key) {
            let text = trim(values[j].1.as_str());
            if !text.as_str().is_empty() {
                return Some(text);
            }
        }
        j = j + 1;
    }
    None
}

pub fn find_value(values: &Vec<(String, String)>, keys: &[&str]) -> (value: Option<String>)
    ensures
        opt_text(value) == value_at(pairs(values@), slices(keys@), 0),
{
    let mut i: usize = 0;
    while i < keys.len()
        invariant
            i <= keys@.len(),
            value_at(pairs(values@), slices(keys@), 0) == value_at(
                pairs(values@),
                slices(keys@),
                i as int,
            ),
        decreases keys@.len() - i,
    {
        assert(slices(keys@)[i as int] == keys@[i as int]@);
        match find_under(values, keys[i]) {
            Some(value) => {
                return Some(value);
            },
            None => {},
        }
        i = i + 1;
    }
    None
}

/// The keys under which a storage account is named.
pub open spec fn account_keys() -> Seq<Seq<char>> {
    seq!["storage_account"@, "storageAccount"@, "account_name"@, "AccountName"@]
}

/// The keys under which the key of a storage account stands.
pub open spec fn account_secret_keys() -> Seq<Seq<char>> {
    seq!["storage_key"@, "storageKey"@, "account_key"@, "AccountKey"@]
}

/// The keys under which a tenant is named.
pub open spec fn tenant_keys() -> Seq<Seq<char>> {
    seq!["tenant_id"@, "tenantId"@, "tenant"@, "AZURE_TENANT_ID"@, "ARM_TENANT_ID"@]
}

/// The keys under which a client is named.
pub open spec fn client_keys() -> Seq<Seq<char>> {
    seq![
        "client_id"@,
        "clientId"@,
        "appId"@,
        "application_id"@,
        "AZURE_CLIENT_ID"@,
        "ARM_CLIENT_ID"@,
    ]
}

/// The keys under which the secret of a client stands.
pub open spec fn secret_keys() -> Seq<Seq<char>> {
    seq![
        "client_secret"@,
        "clientSecret"@,
        "password"@,
        "AZURE_CLIENT_SECRET"@,
        "ARM_CLIENT_SECRET"@,
    ]
}

/// The keys under which a token for Microsoft Graph stands.
pub open spec fn graph_token_keys() -> Seq<Seq<char>> {
    seq!["graph_access_token"@, "graphAccessToken"@, "MS_GRAPH_TOKEN"@]
}

/// The keys under which a token for Resource Manager stands.
pub open spec fn management_token_keys() -> Seq<Seq<char>> {
    seq![
        "management_access_token"@,
        "managementAccessToken"@,
        "arm_access_token"@,
        "armAccessToken"@,
    ]
}

/// Whether a token names Resource Manager as its audience.
pub open spec fn is_management_token(token: Seq<char>) -> bool {
    match token_claims(token).audience {
        Some(audience) => for_management(audience),
        None => false,
    }
}

/// The value under one of the keys, or what stands in for it.
pub open spec fn value_or(
    values: Seq<(Seq<char>, Seq<char>)>,
    keys: Seq<Seq<char>>,
    fallback: Seq<char>,
) -> Seq<char> {
    match value_at(values, keys, 0) {
        Some(value) => value,
        None => fallback,
    }
}

/// The Entra credential that a file holds. A token of which the file does not say what it is for
/// goes by its audience, where nothing stands in its place already.
pub open spec fn enterprise_in(values: Seq<(Seq<char>, Seq<char>)>) -> EnterpriseCredentialView {
    let plain = value_at(values, seq!["access_token"@, "accessToken"@], 0);
    let graph = value_at(values, graph_token_keys(), 0);
    let management = value_at(values, management_token_keys(), 0);
    EnterpriseCredentialView {
        tenant_id: value_at(values, tenant_keys(), 0),
        client_id: value_at(values, client_keys(), 0),
        client_secret: value_at(values, secret_keys(), 0),
        graph_access_token: match plain {
            Some(token) => if is_management_token(token) {
                graph
            } else {
                either(graph, Some(token))
            },
            None => graph,
        },
        management_access_token: match plain {
            Some(token) => if is_management_token(token) {
                either(management, Some(token))
            } else {
                management
            },
            None => management,
        },
        authority_host: value_or(
            values,
            seq!["authority_host"@, "authorityHost"@, "AZURE_AUTHORITY_HOST"@],
            DEFAULT_AUTHORITY_HOST@,
        ),
        graph_base_url: value_or(
            values,
            seq!["graph_base_url"@, "graphBaseUrl"@, "AZURE_GRAPH_BASE_URL"@],
            DEFAULT_GRAPH_BASE_URL@,
        ),
        management_base_url: value_or(
            values,
            seq!["management_base_url"@, "managementBaseUrl"@, "AZURE_MANAGEMENT_BASE_URL"@],
            DEFAULT_MANAGEMENT_BASE_URL@,
        ),
    }
}

/// Whether a credential holds a service principal or a token.
pub open spec fn usable(config: EnterpriseCredentialView) -> bool {
    ||| config.tenant_id is Some && config.client_id is Some && config.client_secret is Some
    ||| config.graph_access_token is Some
    ||| config.management_access_token is Some
}

/// The credential that the keys and values of a file make up. A storage account with its key comes
/// before anything else.
pub open spec fn credential_in(values: Seq<(Seq<char>, Seq<char>)>) -> Result<
    AzureCredentialView,
    Seq<char>,
> {
    let account = value_at(values, account_keys(), 0);
    let key = value_at(values, account_secret_keys(), 0);
    if account is Some && key is Some {
        Ok(AzureCredentialView::Storage { storage_account: account->0, storage_key: key->0 })
    } else if usable(enterprise_in(values)) {
        Ok(AzureCredentialView::Enterprise(enterprise_in(values)))
    } else {
        Err(
            "Azure credential file must contain storage_account/storage_key, tenant_id/client_id/client_secret, or an Azure access token"@,
        )
    }
}

/// The credential that a file holds.
pub open spec fn azure_credential(data: Seq<char>) -> Result<AzureCredentialView, Seq<char>> {
    match credential_values(data) {
        Ok(values) => credential_in(values),
        Err(error) => Err(error),
    }
}

fn find_enterprise(values: &Vec<(String, String)>) -> (config: EnterpriseCredential)
    ensures
        config@ == enterprise_in(pairs(values@)),
{
    let tenant: [&str; 5] = ["tenant_id", "tenantId", "tenant", "AZURE_TENANT_ID", "ARM_TENANT_ID"];
    assert(slices(tenant@) =~= tenant_keys());
    let client: [&str; 6] = [
        "client_id",
        "clientId",
        "appId",
        "application_id",
        "AZURE_CLIENT_ID",
        "ARM_CLIENT_ID",
    ];
    assert(slices(client@) =~= client_keys());
    let secret: [&str; 5] = [
        "client_secret",
        "clientSecret",
        "password",
        "AZURE_CLIENT_SECRET",
        "ARM_CLIENT_SECRET",
    ];
    assert(slices(secret@) =~= secret_keys());
    let plain: [&str; 2] = ["access_token", "accessToken"];
    assert(slices(plain@) =~= seq!["access_token"@, "accessToken"@]);
    let for_graph: [&str; 3] = ["graph_access_token", "graphAccessToken", "MS_GRAPH_TOKEN"];
    assert(slices(for_graph@) =~= graph_token_keys());
    let for_arm: [&str; 4] = [
        "management_access_token",
        "managementAccessToken",
        "arm_access_token",
        "armAccessToken",
    ];
    assert(slices(for_arm@) =~= management_token_keys());
    let authority: [&str; 3] = ["authority_host", "authorityHost", "AZURE_AUTHORITY_HOST"];
    assert(slices(authority@) =~= seq![
        "authority_host"@,
        "authorityHost"@,
        "AZURE_AUTHORITY_HOST"@,
    ]);
    let graph_url: [&str; 3] = ["graph_base_url", "graphBaseUrl", "AZURE_GRAPH_BASE_URL"];
    assert(slices(graph_url@) =~= seq![
        "graph_base_url"@,
        "graphBaseUrl"@,
        "AZURE_GRAPH_BASE_URL"@,
    ]);
    let arm_url: [&str; 3] = [
        "management_base_url",
        "managementBaseUrl",
        "AZURE_MANAGEMENT_BASE_URL",
    ];
    assert(slices(arm_url@) =~= seq![
        "management_base_url"@,
        "managementBaseUrl"@,
        "AZURE_MANAGEMENT_BASE_URL"@,
    ]);
    let mut graph_access_token = find_value(values, &for_graph);
    let mut management_access_token = find_value(values, &for_arm);
    match find_value(values, &plain) {
        Some(token) => {
            let claims = decode_token_claims(token.as_str());
            let to_management: bool = match &claims.audience {
                Some(audience) => is_management_audience(audience.as_str()),
                None => false,
            };
            if to_management {
                management_access_token = or_text(&management_access_token, &Some(token));
            } else {
                graph_access_token = or_text(&graph_access_token, &Some(token));
            }
        },
        None => {},
    }
    EnterpriseCredential {
        tenant_id: find_value(values, &tenant),
        client_id: find_value(values, &client),
        client_secret: find_value(values, &secret),
        graph_access_token,
        management_access_token,
        authority_host: unwrap_text(&find_value(values, &authority), DEFAULT_AUTHORITY_HOST),
        graph_base_url: unwrap_text(&find_value(values, &graph_url), DEFAULT_GRAPH_BASE_URL),
        management_base_url: unwrap_text(
            &find_value(values, &arm_url),
            DEFAULT_MANAGEMENT_BASE_URL,
        ),
    }
}

/// Reads the credential out of the keys and values of a file.
pub fn credential_from_values(values: &Vec<(String, String)>) -> (credential: Result<
    AzureCredential,
    String,
>)
    ensures
        result_view(credential) == credential_in(pairs(values@)),
{
    let account: [&str; 4] = ["storage_account", "storageAccount", "account_name", "AccountName"];
    assert(slices(account@) =~= account_keys());
    let key: [&str; 4] = ["storage_key", "storageKey", "account_key", "AccountKey"];
    assert(slices(key@) =~= account_secret_keys());
    match (find_value(values, &account), find_value(values, &key)) {
        (Some(storage_account), Some(storage_key)) => {
            return Ok(AzureCredential::Storage { storage_account, storage_key });
        },
        _ => {},
    }
    let config = find_enterprise(values);
    if (config.tenant_id.is_some() && config.client_id.is_some() && config.client_secret.is_some())
        || config.graph_access_token.is_some() || config.management_access_token.is_some() {
        Ok(AzureCredential::Enterprise(config))
    } else {
        Err(
            "Azure credential file must contain storage_account/storage_key, tenant_id/client_id/client_secret, or an Azure access token".to_owned(),
        )
    }
}

pub fn parse_azure_credentials(data: &str) -> (credential: Result<AzureCredential, String>)
    ensures
        result_view(credential) == azure_credential(data@),
{
    match parse_credential_values(data) {
        Ok(values) => credential_from_values(&values),
        Err(error) => Err(error),
    }
}

/// An Entra credential is accepted only where it holds a whole service principal or some token.
pub proof fn lemma_accepted_credentials_are_usable(data: Seq<char>)
    ensures
        azure_credential(data) matches Ok(AzureCredentialView::Enterprise(config)) ==> usable(config),
{
}

/// Whether a value that is more than white space stands under a key, whatever the case of the key.
pub open spec fn gives(values: Seq<(Seq<char>, Seq<char>)>, key: Seq<char>) -> bool {
    exists|j: int|
        0 <= j < values.len() && ascii_lower((#[trigger] values[j]).0) == ascii_lower(key) && trimmed(
            values[j].1,
        ).len() > 0
}

proof fn lemma_value_under(values: Seq<(Seq<char>, Seq<char>)>, key: Seq<char>, j: int)
    requires
        0 <= j <= values.len(),
    ensures
        match value_under(values, key, j) {
            Some(value) => exists|m: int|
                j <= m < values.len() && ascii_lower((#[trigger] values[m]).0) == ascii_lower(key)
                    && trimmed(values[m].1) == value && value.len() > 0,
            None => forall|m: int|
                j <= m < values.len() && ascii_lower((#[trigger] values[m]).0) == ascii_lower(key)
                    ==> trimmed(values[m].1).len() == 0,
        },
    decreases values.len() - j,
{
    if j < values.len() && !(ascii_lower(values[j].0) == ascii_lower(key) && trimmed(values[j].1).len()
        > 0) {
        lemma_value_under(values, key, j + 1);
    }
}

proof fn lemma_value_at(values: Seq<(Seq<char>, Seq<char>)>, keys: Seq<Seq<char>>, i: int, k: int)
    requires
        0 <= i <= k < keys.len(),
        gives(values, keys[k]),
    ensures
        value_at(values, keys, i) is Some,
        k == i ==> value_at(values, keys, i) == value_under(values, keys[i], 0),
    decreases k - i,
{
    lemma_value_under(values, keys[i], 0);
    if value_under(values, keys[i], 0) is None {
        let j = choose|j: int|
            0 <= j < values.len() && ascii_lower((#[trigger] values[j]).0) == ascii_lower(keys[k])
                && trimmed(values[j].1).len() > 0;
        assert(ascii_lower(values[j].0) == ascii_lower(keys[k]));
        lemma_value_at(values, keys, i + 1, k);
    }
}

proof fn lemma_no_value_at(values: Seq<(Seq<char>, Seq<char>)>, keys: Seq<Seq<char>>, i: int)
    requires
        0 <= i <= keys.len(),
        value_at(values, keys, i) is Some,
    ensures
        exists|k: int| i <= k < keys.len() && gives(values, #[trigger] keys[k]),
    decreases keys.len() - i,
{
    if i < keys.len() {
        lemma_value_under(values, keys[i], 0);
        if value_under(values, keys[i], 0) is None {
            lemma_no_value_at(values, keys, i + 1);
        } else {
            assert(gives(values, keys[i]));
        }
    }
}

/// A file that names a storage account and its key, each under any of the names in use and whatever their
/// case, holds the credential of that account.
pub proof fn lemma_storage_accounts_are_found(
    values: Seq<(Seq<char>, Seq<char>)>,
    account: Seq<char>,
    secret: Seq<char>,
)
    requires
        (account == "storage_account"@ || account == "storageAccount"@ || account == "account_name"@ || account == "AccountName"@),
        (secret == "storage_key"@ || secret == "storageKey"@ || secret == "account_key"@ || secret == "AccountKey"@),
        gives(values, account),
        gives(values, secret),
    ensures
        credential_in(values) is Ok,
        credential_in(values)->Ok_0 is Storage,
        account == "storage_account"@ ==> exists|j: int|
            0 <= j < values.len() && ascii_lower((#[trigger] values[j]).0) == ascii_lower(account)
                && trimmed(values[j].1) == credential_in(values)->Ok_0->storage_account,
{
    let i: int = if account == "storage_account"@ { 0 } else if account == "storageAccount"@ { 1 } else if account == "account_name"@ { 2 } else { 3 };
    let j: int = if secret == "storage_key"@ { 0 } else if secret == "storageKey"@ { 1 } else if secret == "account_key"@ { 2 } else { 3 };
    assert(account_keys()[i] == account);
    assert(account_secret_keys()[j] == secret);
    lemma_value_at(values, account_keys(), 0, i);
    lemma_value_at(values, account_secret_keys(), 0, j);
    if account == "storage_account"@ {
        lemma_value_at(values, account_keys(), 0, 0);
        lemma_value_under(values, account, 0);
    }
}

/// A file that names a tenant, a client and its secret, each under any of the names in use and whatever
/// their case, holds the credential of a service principal with all three of them, unless it holds a storage
/// account.
pub proof fn lemma_service_principals_are_found(
    values: Seq<(Seq<char>, Seq<char>)>,
    tenant: Seq<char>,
    client: Seq<char>,
    secret: Seq<char>,
)
    requires
        (tenant == "tenant_id"@ || tenant == "tenantId"@ || tenant == "tenant"@ || tenant == "AZURE_TENANT_ID"@ || tenant == "ARM_TENANT_ID"@),
        (client == "client_id"@ || client == "clientId"@ || client == "appId"@ || client == "application_id"@ || client == "AZURE_CLIENT_ID"@ || client == "ARM_CLIENT_ID"@),
        (secret == "client_secret"@ || secret == "clientSecret"@ || secret == "password"@ || secret == "AZURE_CLIENT_SECRET"@ || secret == "ARM_CLIENT_SECRET"@),
        gives(values, tenant),
        gives(values, client),
        gives(values, secret),
    ensures
        credential_in(values) is Ok,
        match credential_in(values)->Ok_0 {
            AzureCredentialView::Enterprise(config) => config.tenant_id is Some && config.client_id is Some
                && config.client_secret is Some,
            AzureCredentialView::Storage { .. } => (exists|k: int|
                0 <= k < account_keys().len() && gives(values, #[trigger] account_keys()[k])) && exists|k: int|
                0 <= k < account_secret_keys().len() && gives(values, #[trigger] account_secret_keys()[k]),
        },
{
    let i: int = if tenant == "tenant_id"@ { 0 } else if tenant == "tenantId"@ { 1 } else if tenant == "tenant"@ { 2 } else if tenant == "AZURE_TENANT_ID"@ { 3 } else { 4 };
    let j: int = if client == "client_id"@ { 0 } else if client == "clientId"@ { 1 } else if client == "appId"@ { 2 } else if client == "application_id"@ { 3 } else if client == "AZURE_CLIENT_ID"@ { 4 } else { 5 };
    let m: int = if secret == "client_secret"@ { 0 } else if secret == "clientSecret"@ { 1 } else if secret == "password"@ { 2 } else if secret == "AZURE_CLIENT_SECRET"@ { 3 } else { 4 };
    assert(tenant_keys()[i] == tenant);
    assert(client_keys()[j] == client);
    assert(secret_keys()[m] == secret);
    lemma_value_at(values, tenant_keys(), 0, i);
    lemma_value_at(values, client_keys(), 0, j);
    lemma_value_at(values, secret_keys(), 0, m);
    if credential_in(values)->Ok_0 is Storage {
        lemma_no_value_at(values, account_keys(), 0);
        lemma_no_value_at(values, account_secret_keys(), 0);
    }
}

/// A token of which the file does not say what it is for is for Resource Manager where its audience says so,
/// and otherwise for Microsoft Graph.
pub proof fn lemma_plain_tokens_go_by_their_audience(values: Seq<(Seq<char>, Seq<char>)>)
    requires
        gives(values, "access_token"@),
    ensures
        ({
            let token = value_under(values, "access_token"@, 0);
            let config = enterprise_in(values);
            &&& token is Some
            &&& is_management_token(token->0) ==> config.management_access_token is Some
            &&& is_management_token(token->0) && value_at(values, management_token_keys(), 0) is None
                ==> config.management_access_token == token && config.graph_access_token == value_at(
                values,
                graph_token_keys(),
                0,
            )
            &&& !is_management_token(token->0) ==> config.graph_access_token is Some
            &&& !is_management_token(token->0) && value_at(values, graph_token_keys(), 0) is None
                ==> config.graph_access_token == token && config.management_access_token == value_at(
                values,
                management_token_keys(),
                0,
            )
            &&& usable(config)
        }),
{
    let keys = seq!["access_token"@, "accessToken"@];
    assert(keys[0] == "access_token"@);
    lemma_value_at(values, keys, 0, 0);
    lemma_value_under(values, "access_token"@, 0);
}

/// A line assigns what follows the first `=` in it to what precedes it, without the white space and the
/// quotes around it; a comment assigns nothing.
pub proof fn lemma_lines_assign(line: Seq<char>, key: Seq<char>, value: Seq<char>)
    requires
        trimmed(line) == key + seq!['='] + value,
        !key.contains('='),
        trimmed(key).len() > 0,
        without_quotes(trimmed(value)).len() > 0,
    ensures
        !begins(trimmed(line), "#"@) ==> line_value(line) == Some(
            (trimmed(key), without_quotes(trimmed(value))),
        ),
        begins(trimmed(line), "#"@) ==> line_value(line) is None,
{
    reveal_strlit("=");
    assert("="@ =~= seq!['=']);
    lemma_parts_are_cut(key, '=', value);
}

/// Every text of an object is among its values, unless a later one stands under the same key.
pub proof fn lemma_texts_of_objects_are_kept(fields: Seq<(String, Json)>, n: int, k: int)
    requires
        0 <= k < n <= fields.len(),
        text_of(Some(fields[k].1)) is Some,
        forall|j: int| k < j < n ==> (#[trigger] fields[j]).0@ != fields[k].0@,
    ensures
        object_values(fields, n).contains((fields[k].0@, text_of(Some(fields[k].1))->0)),
    decreases n,
{
    let before = object_values(fields, n - 1);
    let pair = (fields[k].0@, text_of(Some(fields[k].1))->0);
    if text_of(Some(fields[n - 1].1)) is Some {
        lemma_put_keeps(before, fields[n - 1].0@, text_of(Some(fields[n - 1].1))->0);
    }
    if k < n - 1 {
        lemma_texts_of_objects_are_kept(fields, n - 1, k);
        let i = choose|i: int| 0 <= i < before.len() && before[i] == pair;
        assert(fields[n - 1].0@ != fields[k].0@);
        assert(before[i].0 != fields[n - 1].0@);
    }
}

} // verus!
