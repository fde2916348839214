//! Requests to map a credential, and what comes of them.

use vstd::prelude::*;
use crate::model::{
    empty_permission_summary, exposure, no_views, one_view, opt_view, views, AccessMapResult,
    AccessMapResultView, AccessSummary, AccessSummaryView, AccessTokenDetails,
    AccessTokenDetailsView, PermissionSummary, PermissionSummaryView, ResourceExposure,
    ResourceExposureView, RoleBinding, RoleBindingView, Severity,
};
use crate::order::{in_order, sort_dedup};
use crate::text::{cat2, no_texts, one_text, opt_text, push_text, texts, three_texts};

verus! {

/// Providers that map a single token to an access profile.
///
/// Providers with more complex credentials (AWS, GCP, Azure, Postgres, MongoDB) have
/// interfaces of their own.
pub trait TokenAccessMapper: Send + Sync {
    /// The name that `cloud_name` gives.
    spec fn cloud(&self) -> Seq<char>;

    /// The cloud/platform name for results (e.g., `"github"`, `"slack"`).
    fn cloud_name(&self) -> (name: &'static str)
        ensures
            name@ == self.cloud(),
    ;
}

/// GitHub access mapper.
pub struct GithubMapper;

impl TokenAccessMapper for GithubMapper {
    open spec fn cloud(&self) -> Seq<char> {
        "github"@
    }

    fn cloud_name(&self) -> (name: &'static str) {
        "github"
    }
}

/// GitLab access mapper.
pub struct GitlabMapper;

impl TokenAccessMapper for GitlabMapper {
    open spec fn cloud(&self) -> Seq<char> {
        "gitlab"@
    }

    fn cloud_name(&self) -> (name: &'static str) {
        "gitlab"
    }
}

/// Slack access mapper.
pub struct SlackMapper;

impl TokenAccessMapper for SlackMapper {
    open spec fn cloud(&self) -> Seq<char> {
        "slack"@
    }

    fn cloud_name(&self) -> (name: &'static str) {
        "slack"
    }
}

/// Hugging Face access mapper.
pub struct HuggingFaceMapper;

impl TokenAccessMapper for HuggingFaceMapper {
    open spec fn cloud(&self) -> Seq<char> {
        "huggingface"@
    }

    fn cloud_name(&self) -> (name: &'static str) {
        "huggingface"
    }
}

/// Gitea access mapper.
pub struct GiteaMapper;

impl TokenAccessMapper for GiteaMapper {
    open spec fn cloud(&self) -> Seq<char> {
        "gitea"@
    }

    fn cloud_name(&self) -> (name: &'static str) {
        "gitea"
    }
}

/// Bitbucket access mapper.
pub struct BitbucketMapper;

impl TokenAccessMapper for BitbucketMapper {
    open spec fn cloud(&self) -> Seq<char> {
        "bitbucket"@
    }

    fn cloud_name(&self) -> (name: &'static str) {
        "bitbucket"
    }
}

/// Buildkite access mapper.
pub struct BuildkiteMapper;

impl TokenAccessMapper for BuildkiteMapper {
    open spec fn cloud(&self) -> Seq<char> {
        "buildkite"@
    }

    fn cloud_name(&self) -> (name: &'static str) {
        "buildkite"
    }
}

/// Harness access mapper.
pub struct HarnessMapper;

impl TokenAccessMapper for HarnessMapper {
    open spec fn cloud(&self) -> Seq<char> {
        "harness"@
    }

    fn cloud_name(&self) -> (name: &'static str) {
        "harness"
    }
}

/// OpenAI access mapper.
pub struct OpenAiMapper;

impl TokenAccessMapper for OpenAiMapper {
    open spec fn cloud(&self) -> Seq<char> {
        "openai"@
    }

    fn cloud_name(&self) -> (name: &'static str) {
        "openai"
    }
}

/// Anthropic access mapper.
pub struct AnthropicMapper;

impl TokenAccessMapper for AnthropicMapper {
    open spec fn cloud(&self) -> Seq<char> {
        "anthropic"@
    }

    fn cloud_name(&self) -> (name: &'static str) {
        "anthropic"
    }
}

/// Weights & Biases access mapper.
pub struct WeightsAndBiasesMapper;

impl TokenAccessMapper for WeightsAndBiasesMapper {
    open spec fn cloud(&self) -> Seq<char> {
        "weightsandbiases"@
    }

    fn cloud_name(&self) -> (name: &'static str) {
        "weightsandbiases"
    }
}

/// Airtable access mapper.
pub struct AirtableMapper;

impl TokenAccessMapper for AirtableMapper {
    open spec fn cloud(&self) -> Seq<char> {
        "airtable"@
    }

    fn cloud_name(&self) -> (name: &'static str) {
        "airtable"
    }
}

/// CircleCI access mapper.
pub struct CircleCiMapper;

impl TokenAccessMapper for CircleCiMapper {
    open spec fn cloud(&self) -> Seq<char> {
        "circleci"@
    }

    fn cloud_name(&self) -> (name: &'static str) {
        "circleci"
    }
}

/// DigitalOcean access mapper.
pub struct DigitalOceanMapper;

impl TokenAccessMapper for DigitalOceanMapper {
    open spec fn cloud(&self) -> Seq<char> {
        "digitalocean"@
    }

    fn cloud_name(&self) -> (name: &'static str) {
        "digitalocean"
    }
}

/// Fastly access mapper.
pub struct FastlyMapper;

impl TokenAccessMapper for FastlyMapper {
    open spec fn cloud(&self) -> Seq<char> {
        "fastly"@
    }

    fn cloud_name(&self) -> (name: &'static str) {
        "fastly"
    }
}

/// HubSpot access mapper.
pub struct HubSpotMapper;

impl TokenAccessMapper for HubSpotMapper {
    open spec fn cloud(&self) -> Seq<char> {
        "hubspot"@
    }

    fn cloud_name(&self) -> (name: &'static str) {
        "hubspot"
    }
}

/// IBM Cloud access mapper.
pub struct IbmCloudMapper;

impl TokenAccessMapper for IbmCloudMapper {
    open spec fn cloud(&self) -> Seq<char> {
        "ibm_cloud"@
    }

    fn cloud_name(&self) -> (name: &'static str) {
        "ibm_cloud"
    }
}

/// SendGrid access mapper.
pub struct SendGridMapper;

impl TokenAccessMapper for SendGridMapper {
    open spec fn cloud(&self) -> Seq<char> {
        "sendgrid"@
    }

    fn cloud_name(&self) -> (name: &'static str) {
        "sendgrid"
    }
}

/// Sendinblue access mapper.
pub struct SendinblueMapper;

impl TokenAccessMapper for SendinblueMapper {
    open spec fn cloud(&self) -> Seq<char> {
        "sendinblue"@
    }

    fn cloud_name(&self) -> (name: &'static str) {
        "sendinblue"
    }
}

/// Stripe access mapper.
pub struct StripeMapper;

impl TokenAccessMapper for StripeMapper {
    open spec fn cloud(&self) -> Seq<char> {
        "stripe"@
    }

    fn cloud_name(&self) -> (name: &'static str) {
        "stripe"
    }
}

/// Terraform access mapper.
pub struct TerraformMapper;

impl TokenAccessMapper for TerraformMapper {
    open spec fn cloud(&self) -> Seq<char> {
        "terraform"@
    }

    fn cloud_name(&self) -> (name: &'static str) {
        "terraform"
    }
}

/// Square access mapper.
pub struct SquareMapper;

impl TokenAccessMapper for SquareMapper {
    open spec fn cloud(&self) -> Seq<char> {
        "square"@
    }

    fn cloud_name(&self) -> (name: &'static str) {
        "square"
    }
}

/// monday.com access mapper.
pub struct MondayMapper;

impl TokenAccessMapper for MondayMapper {
    open spec fn cloud(&self) -> Seq<char> {
        "monday"@
    }

    fn cloud_name(&self) -> (name: &'static str) {
        "monday"
    }
}

/// Asana access mapper.
pub struct AsanaMapper;

impl TokenAccessMapper for AsanaMapper {
    open spec fn cloud(&self) -> Seq<char> {
        "asana"@
    }

    fn cloud_name(&self) -> (name: &'static str) {
        "asana"
    }
}

/// Pinecone access mapper.
pub struct PineconeMapper;

impl TokenAccessMapper for PineconeMapper {
    open spec fn cloud(&self) -> Seq<char> {
        "pinecone"@
    }

    fn cloud_name(&self) -> (name: &'static str) {
        "pinecone"
    }
}

/// A validated credential that can be mapped to an identity.
#[derive(Clone, Debug)]
pub enum AccessMapRequest {
    /// AWS access key credentials.
    Aws { access_key: String, secret_key: String, session_token: Option<String>, fingerprint: String },
    /// A GCP service account JSON document.
    Gcp { credential_json: String, fingerprint: String },
    /// An Azure Storage, Entra client-credential, or OAuth2 token document.
    Azure { credential_json: String, containers: Option<Vec<String>>, fingerprint: String },
    /// An Azure DevOps personal access token with organization.
    AzureDevops { token: String, organization: String, fingerprint: String },
    /// A GitHub token.
    Github { token: String, fingerprint: String },
    /// A GitLab token.
    Gitlab { token: String, fingerprint: String },
    /// A Slack token.
    Slack { token: String, fingerprint: String },
    /// A Postgres connection URI.
    Postgres { uri: String, fingerprint: String },
    /// A MongoDB connection URI.
    MongoDB { uri: String, fingerprint: String },
    /// A Hugging Face token.
    HuggingFace { token: String, fingerprint: String },
    /// A Gitea token.
    Gitea { token: String, fingerprint: String },
    /// A Bitbucket token.
    Bitbucket { token: String, fingerprint: String },
    /// A Buildkite token.
    Buildkite { token: String, fingerprint: String },
    /// A Harness API token (x-api-key).
    Harness { token: String, fingerprint: String },
    /// An OpenAI API token.
    OpenAI { token: String, fingerprint: String },
    /// An Anthropic API token.
    Anthropic { token: String, fingerprint: String },
    /// A Salesforce access token plus instance domain.
    Salesforce { token: String, instance: String, fingerprint: String },
    /// A Weights & Biases API token.
    WeightsAndBiases { token: String, fingerprint: String },
    /// A Microsoft Teams Incoming Webhook URL.
    MicrosoftTeams { webhook_url: String, fingerprint: String },
    /// An Airtable API token.
    Airtable { token: String, fingerprint: String },
    /// Alibaba Cloud access key credentials.
    Alibaba { access_key: String, secret_key: String, session_token: Option<String>, fingerprint: String },
    /// A CircleCI API token.
    CircleCI { token: String, fingerprint: String },
    /// A DigitalOcean API token.
    DigitalOcean { token: String, fingerprint: String },
    /// A Fastly API token.
    Fastly { token: String, fingerprint: String },
    /// A HubSpot API token.
    HubSpot { token: String, fingerprint: String },
    /// An IBM Cloud API key.
    IbmCloud { token: String, fingerprint: String },
    /// A SendGrid API token.
    SendGrid { token: String, fingerprint: String },
    /// A Brevo (Sendinblue) API token.
    Sendinblue { token: String, fingerprint: String },
    /// A Stripe API key.
    Stripe { token: String, fingerprint: String },
    /// A Terraform Cloud API token.
    Terraform { token: String, fingerprint: String },
    /// A Square API token.
    Square { token: String, fingerprint: String },
    /// A Jira API token with base URL.
    Jira { token: String, base_url: String, fingerprint: String },
    /// A MySQL connection URI.
    MySQL { uri: String, fingerprint: String },
    /// An Algolia app_id + api_key pair.
    Algolia { app_id: String, api_key: String, fingerprint: String },
    /// Auth0 client credentials (client_id + client_secret + domain).
    Auth0 { client_id: String, client_secret: String, domain: String, fingerprint: String },
    /// PayPal client credentials (client_id + client_secret).
    PayPal { client_id: String, client_secret: String, fingerprint: String },
    /// Plaid API credentials (client_id + secret).
    Plaid { client_id: String, secret: String, fingerprint: String },
    /// A Shopify access token with store subdomain.
    Shopify { token: String, subdomain: String, fingerprint: String },
    /// A Zendesk API token with subdomain.
    Zendesk { token: String, subdomain: String, fingerprint: String },
    /// A JFrog Artifactory token with optional base URL.
    Artifactory { token: String, base_url: Option<String>, fingerprint: String },
    /// A JFrog Xray token with optional base URL.
    Xray { token: String, base_url: Option<String>, fingerprint: String },
    /// A monday.com API token.
    Monday { token: String, fingerprint: String },
    /// An Asana personal access token / OAuth token.
    Asana { token: String, fingerprint: String },
    /// A Pinecone API key.
    Pinecone { token: String, fingerprint: String },
}

/// Finding fingerprint attached to a credential occurrence.
pub open spec fn fingerprint_of(request: AccessMapRequest) -> Seq<char> {
    match request {
        AccessMapRequest::Aws { fingerprint, .. } => fingerprint@,
        AccessMapRequest::Gcp { fingerprint, .. } => fingerprint@,
        AccessMapRequest::Azure { fingerprint, .. } => fingerprint@,
        AccessMapRequest::AzureDevops { fingerprint, .. } => fingerprint@,
        AccessMapRequest::Github { fingerprint, .. } => fingerprint@,
        AccessMapRequest::Gitlab { fingerprint, .. } => fingerprint@,
        AccessMapRequest::Slack { fingerprint, .. } => fingerprint@,
        AccessMapRequest::Postgres { fingerprint, .. } => fingerprint@,
        AccessMapRequest::MongoDB { fingerprint, .. } => fingerprint@,
        AccessMapRequest::HuggingFace { fingerprint, .. } => fingerprint@,
        AccessMapRequest::Gitea { fingerprint, .. } => fingerprint@,
        AccessMapRequest::Bitbucket { fingerprint, .. } => fingerprint@,
        AccessMapRequest::Buildkite { fingerprint, .. } => fingerprint@,
        AccessMapRequest::Harness { fingerprint, .. } => fingerprint@,
        AccessMapRequest::OpenAI { fingerprint, .. } => fingerprint@,
        AccessMapRequest::Anthropic { fingerprint, .. } => fingerprint@,
        AccessMapRequest::Salesforce { fingerprint, .. } => fingerprint@,
        AccessMapRequest::WeightsAndBiases { fingerprint, .. } => fingerprint@,
        AccessMapRequest::MicrosoftTeams { fingerprint, .. } => fingerprint@,
        AccessMapRequest::Airtable { fingerprint, .. } => fingerprint@,
        AccessMapRequest::Alibaba { fingerprint, .. } => fingerprint@,
        AccessMapRequest::CircleCI { fingerprint, .. } => fingerprint@,
        AccessMapRequest::DigitalOcean { fingerprint, .. } => fingerprint@,
        AccessMapRequest::Fastly { fingerprint, .. } => fingerprint@,
        AccessMapRequest::HubSpot { fingerprint, .. } => fingerprint@,
        AccessMapRequest::IbmCloud { fingerprint, .. } => fingerprint@,
        AccessMapRequest::SendGrid { fingerprint, .. } => fingerprint@,
        AccessMapRequest::Sendinblue { fingerprint, .. } => fingerprint@,
        AccessMapRequest::Stripe { fingerprint, .. } => fingerprint@,
        AccessMapRequest::Terraform { fingerprint, .. } => fingerprint@,
        AccessMapRequest::Square { fingerprint, .. } => fingerprint@,
        AccessMapRequest::Jira { fingerprint, .. } => fingerprint@,
        AccessMapRequest::MySQL { fingerprint, .. } => fingerprint@,
        AccessMapRequest::Algolia { fingerprint, .. } => fingerprint@,
        AccessMapRequest::Auth0 { fingerprint, .. } => fingerprint@,
        AccessMapRequest::PayPal { fingerprint, .. } => fingerprint@,
        AccessMapRequest::Plaid { fingerprint, .. } => fingerprint@,
        AccessMapRequest::Shopify { fingerprint, .. } => fingerprint@,
        AccessMapRequest::Zendesk { fingerprint, .. } => fingerprint@,
        AccessMapRequest::Artifactory { fingerprint, .. } => fingerprint@,
        AccessMapRequest::Xray { fingerprint, .. } => fingerprint@,
        AccessMapRequest::Monday { fingerprint, .. } => fingerprint@,
        AccessMapRequest::Asana { fingerprint, .. } => fingerprint@,
        AccessMapRequest::Pinecone { fingerprint, .. } => fingerprint@,
    }
}

/// The cloud that a request is mapped on.
pub open spec fn cloud_of(request: AccessMapRequest) -> Seq<char> {
    match request {
        AccessMapRequest::Aws { .. } => "aws"@,
        AccessMapRequest::Gcp { .. } => "gcp"@,
        AccessMapRequest::Azure { .. } => "azure"@,
        AccessMapRequest::AzureDevops { .. } => "azure_devops"@,
        AccessMapRequest::Github { .. } => "github"@,
        AccessMapRequest::Gitlab { .. } => "gitlab"@,
        AccessMapRequest::Slack { .. } => "slack"@,
        AccessMapRequest::Postgres { .. } => "postgres"@,
        AccessMapRequest::MongoDB { .. } => "mongodb"@,
        AccessMapRequest::HuggingFace { .. } => "huggingface"@,
        AccessMapRequest::Gitea { .. } => "gitea"@,
        AccessMapRequest::Bitbucket { .. } => "bitbucket"@,
        AccessMapRequest::Buildkite { .. } => "buildkite"@,
        AccessMapRequest::Harness { .. } => "harness"@,
        AccessMapRequest::OpenAI { .. } => "openai"@,
        AccessMapRequest::Anthropic { .. } => "anthropic"@,
        AccessMapRequest::Salesforce { .. } => "salesforce"@,
        AccessMapRequest::WeightsAndBiases { .. } => "weightsandbiases"@,
        AccessMapRequest::MicrosoftTeams { .. } => "microsoft_teams"@,
        AccessMapRequest::Airtable { .. } => "airtable"@,
        AccessMapRequest::Alibaba { .. } => "alibaba"@,
        AccessMapRequest::CircleCI { .. } => "circleci"@,
        AccessMapRequest::DigitalOcean { .. } => "digitalocean"@,
        AccessMapRequest::Fastly { .. } => "fastly"@,
        AccessMapRequest::HubSpot { .. } => "hubspot"@,
        AccessMapRequest::IbmCloud { .. } => "ibm_cloud"@,
        AccessMapRequest::SendGrid { .. } => "sendgrid"@,
        AccessMapRequest::Sendinblue { .. } => "sendinblue"@,
        AccessMapRequest::Stripe { .. } => "stripe"@,
        AccessMapRequest::Terraform { .. } => "terraform"@,
        AccessMapRequest::Square { .. } => "square"@,
        AccessMapRequest::Jira { .. } => "jira"@,
        AccessMapRequest::MySQL { .. } => "mysql"@,
        AccessMapRequest::Algolia { .. } => "algolia"@,
        AccessMapRequest::Auth0 { .. } => "auth0"@,
        AccessMapRequest::PayPal { .. } => "paypal"@,
        AccessMapRequest::Plaid { .. } => "plaid"@,
        AccessMapRequest::Shopify { .. } => "shopify"@,
        AccessMapRequest::Zendesk { .. } => "zendesk"@,
        AccessMapRequest::Artifactory { .. } => "artifactory"@,
        AccessMapRequest::Xray { .. } => "jfrog_xray"@,
        AccessMapRequest::Monday { .. } => "monday"@,
        AccessMapRequest::Asana { .. } => "asana"@,
        AccessMapRequest::Pinecone { .. } => "pinecone"@,
    }
}

/// What stands for the identity of a request where its mapping failed.
pub open spec fn label_of(request: AccessMapRequest) -> Seq<char> {
    match request {
        AccessMapRequest::Aws { access_key, .. } => access_key@,
        AccessMapRequest::Gcp { .. } => "service_account"@,
        AccessMapRequest::Azure { .. } => "credential"@,
        AccessMapRequest::AzureDevops { .. } => "pat"@,
        AccessMapRequest::Github { .. } => "token"@,
        AccessMapRequest::Gitlab { .. } => "token"@,
        AccessMapRequest::Slack { .. } => "token"@,
        AccessMapRequest::Postgres { .. } => "uri"@,
        AccessMapRequest::MongoDB { .. } => "uri"@,
        AccessMapRequest::HuggingFace { .. } => "token"@,
        AccessMapRequest::Gitea { .. } => "token"@,
        AccessMapRequest::Bitbucket { .. } => "token"@,
        AccessMapRequest::Buildkite { .. } => "token"@,
        AccessMapRequest::Harness { .. } => "token"@,
        AccessMapRequest::OpenAI { .. } => "token"@,
        AccessMapRequest::Anthropic { .. } => "token"@,
        AccessMapRequest::Salesforce { .. } => "token"@,
        AccessMapRequest::WeightsAndBiases { .. } => "token"@,
        AccessMapRequest::MicrosoftTeams { .. } => "webhook"@,
        AccessMapRequest::Airtable { .. } => "token"@,
        AccessMapRequest::Alibaba { access_key, .. } => access_key@,
        AccessMapRequest::CircleCI { .. } => "token"@,
        AccessMapRequest::DigitalOcean { .. } => "token"@,
        AccessMapRequest::Fastly { .. } => "token"@,
        AccessMapRequest::HubSpot { .. } => "token"@,
        AccessMapRequest::IbmCloud { .. } => "token"@,
        AccessMapRequest::SendGrid { .. } => "token"@,
        AccessMapRequest::Sendinblue { .. } => "token"@,
        AccessMapRequest::Stripe { .. } => "token"@,
        AccessMapRequest::Terraform { .. } => "token"@,
        AccessMapRequest::Square { .. } => "token"@,
        AccessMapRequest::Jira { .. } => "token"@,
        AccessMapRequest::MySQL { .. } => "uri"@,
        AccessMapRequest::Algolia { app_id, .. } => app_id@,
        AccessMapRequest::Auth0 { client_id, .. } => client_id@,
        AccessMapRequest::PayPal { client_id, .. } => client_id@,
        AccessMapRequest::Plaid { client_id, .. } => client_id@,
        AccessMapRequest::Shopify { subdomain, .. } => subdomain@,
        AccessMapRequest::Zendesk { subdomain, .. } => subdomain@,
        AccessMapRequest::Artifactory { .. } => "token"@,
        AccessMapRequest::Xray { .. } => "token"@,
        AccessMapRequest::Monday { .. } => "token"@,
        AccessMapRequest::Asana { .. } => "token"@,
        AccessMapRequest::Pinecone { .. } => "token"@,
    }
}

impl AccessMapRequest {
    /// Finding fingerprint attached to this credential occurrence.
    pub fn finding_fingerprint(&self) -> (fingerprint: &str)
        ensures
            fingerprint@ == fingerprint_of(*self),
    {
        match self {
            AccessMapRequest::Aws { fingerprint, .. } => fingerprint.as_str(),
            AccessMapRequest::Gcp { fingerprint, .. } => fingerprint.as_str(),
            AccessMapRequest::Azure { fingerprint, .. } => fingerprint.as_str(),
            AccessMapRequest::AzureDevops { fingerprint, .. } => fingerprint.as_str(),
            AccessMapRequest::Github { fingerprint, .. } => fingerprint.as_str(),
            AccessMapRequest::Gitlab { fingerprint, .. } => fingerprint.as_str(),
            AccessMapRequest::Slack { fingerprint, .. } => fingerprint.as_str(),
            AccessMapRequest::Postgres { fingerprint, .. } => fingerprint.as_str(),
            AccessMapRequest::MongoDB { fingerprint, .. } => fingerprint.as_str(),
            AccessMapRequest::HuggingFace { fingerprint, .. } => fingerprint.as_str(),
            AccessMapRequest::Gitea { fingerprint, .. } => fingerprint.as_str(),
            AccessMapRequest::Bitbucket { fingerprint, .. } => fingerprint.as_str(),
            AccessMapRequest::Buildkite { fingerprint, .. } => fingerprint.as_str(),
            AccessMapRequest::Harness { fingerprint, .. } => fingerprint.as_str(),
            AccessMapRequest::OpenAI { fingerprint, .. } => fingerprint.as_str(),
            AccessMapRequest::Anthropic { fingerprint, .. } => fingerprint.as_str(),
            AccessMapRequest::Salesforce { fingerprint, .. } => fingerprint.as_str(),
            AccessMapRequest::WeightsAndBiases { fingerprint, .. } => fingerprint.as_str(),
            AccessMapRequest::MicrosoftTeams { fingerprint, .. } => fingerprint.as_str(),
            AccessMapRequest::Airtable { fingerprint, .. } => fingerprint.as_str(),
            AccessMapRequest::Alibaba { fingerprint, .. } => fingerprint.as_str(),
            AccessMapRequest::CircleCI { fingerprint, .. } => fingerprint.as_str(),
            AccessMapRequest::DigitalOcean { fingerprint, .. } => fingerprint.as_str(),
            AccessMapRequest::Fastly { fingerprint, .. } => fingerprint.as_str(),
            AccessMapRequest::HubSpot { fingerprint, .. } => fingerprint.as_str(),
            AccessMapRequest::IbmCloud { fingerprint, .. } => fingerprint.as_str(),
            AccessMapRequest::SendGrid { fingerprint, .. } => fingerprint.as_str(),
            AccessMapRequest::Sendinblue { fingerprint, .. } => fingerprint.as_str(),
            AccessMapRequest::Stripe { fingerprint, .. } => fingerprint.as_str(),
            AccessMapRequest::Terraform { fingerprint, .. } => fingerprint.as_str(),
            AccessMapRequest::Square { fingerprint, .. } => fingerprint.as_str(),
            AccessMapRequest::Jira { fingerprint, .. } => fingerprint.as_str(),
            AccessMapRequest::MySQL { fingerprint, .. } => fingerprint.as_str(),
            AccessMapRequest::Algolia { fingerprint, .. } => fingerprint.as_str(),
            AccessMapRequest::Auth0 { fingerprint, .. } => fingerprint.as_str(),
            AccessMapRequest::PayPal { fingerprint, .. } => fingerprint.as_str(),
            AccessMapRequest::Plaid { fingerprint, .. } => fingerprint.as_str(),
            AccessMapRequest::Shopify { fingerprint, .. } => fingerprint.as_str(),
            AccessMapRequest::Zendesk { fingerprint, .. } => fingerprint.as_str(),
            AccessMapRequest::Artifactory { fingerprint, .. } => fingerprint.as_str(),
            AccessMapRequest::Xray { fingerprint, .. } => fingerprint.as_str(),
            AccessMapRequest::Monday { fingerprint, .. } => fingerprint.as_str(),
            AccessMapRequest::Asana { fingerprint, .. } => fingerprint.as_str(),
            AccessMapRequest::Pinecone { fingerprint, .. } => fingerprint.as_str(),
        }
    }
}

/// One credential mapping request plus every finding occurrence that supplied it.
#[derive(Clone, Debug)]
pub struct CollectedAccessMapRequest {
    pub request: AccessMapRequest,
    pub finding_fingerprints: Vec<String>,
}

/// What came of one request.
#[derive(Debug)]
pub struct AccessMapAttempt {
    pub result: AccessMapResult,
    pub succeeded: bool,
}

/// What an `AccessMapAttempt` says.
#[verifier::ext_equal]
pub struct AccessMapAttemptView {
    pub result: AccessMapResultView,
    pub succeeded: bool,
}

impl View for AccessMapAttempt {
    type V = AccessMapAttemptView;

    open spec fn view(&self) -> AccessMapAttemptView {
        AccessMapAttemptView { result: self.result@, succeeded: self.succeeded }
    }
}

/// Access-map output retained by scans together with alert correlation metadata.
#[derive(Debug, Clone)]
pub struct ScanAccessMapResult {
    pub result: AccessMapResult,
    pub finding_fingerprints: Vec<String>,
    pub mapping_succeeded: bool,
}

/// What a `ScanAccessMapResult` says.
#[verifier::ext_equal]
pub struct ScanAccessMapResultView {
    pub result: AccessMapResultView,
    pub finding_fingerprints: Seq<Seq<char>>,
    pub mapping_succeeded: bool,
}

impl View for ScanAccessMapResult {
    type V = ScanAccessMapResultView;

    open spec fn view(&self) -> ScanAccessMapResultView {
        ScanAccessMapResultView {
            result: self.result@,
            finding_fingerprints: texts(self.finding_fingerprints@),
            mapping_succeeded: self.mapping_succeeded,
        }
    }
}

/// What is recommended for a credential of some severity.
pub open spec fn recommendations(severity: Severity) -> Seq<Seq<char>> {
    seq![
        "Rotate the credential and audit recent usage"@,
        "Apply the principle of least privilege to attached roles"@,
        match severity {
            Severity::Critical | Severity::High => {
                "Investigate blast radius and revoke unused bindings"@
            },
            Severity::Medium => "Review write-level permissions and tighten scopes"@,
            Severity::Low => "Maintain monitoring for anomalous access"@,
        },
    ]
}

pub fn build_recommendations(severity: Severity) -> (list: Vec<String>)
    ensures
        texts(list@) == recommendations(severity),
{
    let last: &'static str = match severity {
        Severity::Critical | Severity::High => {
            "Investigate blast radius and revoke unused bindings"
        },
        Severity::Medium => "Review write-level permissions and tighten scopes",
        Severity::Low => "Maintain monitoring for anomalous access",
    };
    three_texts(
        "Rotate the credential and audit recent usage",
        "Apply the principle of least privilege to attached roles",
        last,
    )
}

/// A result without a fingerprint and without metadata of the provider.
pub open spec fn plain_result(
    cloud: Seq<char>,
    identity: AccessSummaryView,
    roles: Seq<RoleBindingView>,
    permissions: PermissionSummaryView,
    resources: Seq<ResourceExposureView>,
    severity: Severity,
    risk_notes: Seq<Seq<char>>,
    token_details: Option<AccessTokenDetailsView>,
) -> AccessMapResultView {
    AccessMapResultView {
        cloud,
        fingerprint: None,
        identity,
        roles,
        permissions,
        resources,
        severity,
        recommendations: recommendations(severity),
        risk_notes,
        token_details,
        provider_metadata: None,
        mapping_error: None,
    }
}

pub fn build_result(
    cloud: &str,
    identity: AccessSummary,
    roles: Vec<RoleBinding>,
    permissions: PermissionSummary,
    resources: Vec<ResourceExposure>,
    severity: Severity,
    risk_notes: Vec<String>,
    token_details: Option<AccessTokenDetails>,
) -> (result: AccessMapResult)
    ensures
        result@ == plain_result(
            cloud@,
            identity@,
            views(roles@),
            permissions@,
            views(resources@),
            severity,
            texts(risk_notes@),
            opt_view(token_details),
        ),
{
    AccessMapResult {
        cloud: cloud.to_owned(),
        fingerprint: None,
        identity,
        roles,
        permissions,
        resources,
        severity,
        recommendations: build_recommendations(severity),
        risk_notes,
        token_details,
        provider_metadata: None,
        mapping_error: None,
    }
}

/// The project that holds a credential, where nothing else is known of it.
pub open spec fn default_resource(project: Option<Seq<char>>, severity: Severity) -> ResourceExposureView {
    exposure(
        "project"@,
        match project {
            Some(id) => id,
            None => Seq::empty(),
        },
        Seq::empty(),
        severity,
        "Project containing the provided credential"@,
    )
}

pub fn build_default_resource(project_id: &Option<String>, severity: Severity) -> (resource: ResourceExposure)
    ensures
        resource@ == default_resource(opt_text(*project_id), severity),
{
    let name: String = match project_id {
        Some(id) => id.clone(),
        None => String::new(),
    };
    ResourceExposure::new(
        "project",
        name.as_str(),
        no_texts(),
        severity,
        "Project containing the provided credential",
    )
}

/// The account that a credential is linked to, where nothing else is known of it.
pub open spec fn default_account_resource(account: Option<Seq<char>>, severity: Severity) -> ResourceExposureView {
    exposure(
        "account"@,
        match account {
            Some(id) => id,
            None => Seq::empty(),
        },
        Seq::empty(),
        severity,
        "AWS account linked to the provided credential"@,
    )
}

pub fn build_default_account_resource(account_id: &Option<String>, severity: Severity) -> (resource: ResourceExposure)
    ensures
        resource@ == default_account_resource(opt_text(*account_id), severity),
{
    let name: String = match account_id {
        Some(id) => id.clone(),
        None => String::new(),
    };
    ResourceExposure::new(
        "account",
        name.as_str(),
        no_texts(),
        severity,
        "AWS account linked to the provided credential",
    )
}

/// What is reported of a credential whose mapping failed.
pub open spec fn failed_result(cloud: Seq<char>, label: Seq<char>, error: Seq<char>) -> AccessMapResultView {
    AccessMapResultView {
        cloud,
        fingerprint: None,
        identity: AccessSummaryView {
            id: label,
            access_type: "unknown"@,
            project: None,
            tenant: None,
            account_id: None,
        },
        roles: Seq::empty(),
        permissions: empty_permission_summary(),
        resources: seq![default_resource(None, Severity::Medium)],
        severity: Severity::Medium,
        recommendations: recommendations(Severity::Medium),
        risk_notes: seq!["Identity mapping failed: "@ + error],
        token_details: None,
        provider_metadata: None,
        mapping_error: None,
    }
}

pub fn build_failed_result(cloud: &str, identity_label: &str, error: &str) -> (result: AccessMapResult)
    ensures
        result@ == failed_result(cloud@, identity_label@, error@),
{
    AccessMapResult {
        cloud: cloud.to_owned(),
        fingerprint: None,
        identity: AccessSummary {
            id: identity_label.to_owned(),
            access_type: "unknown".to_owned(),
            project: None,
            tenant: None,
            account_id: None,
        },
        roles: no_views(),
        permissions: PermissionSummary::default(),
        resources: one_view(build_default_resource(&None, Severity::Medium)),
        severity: Severity::Medium,
        recommendations: build_recommendations(Severity::Medium),
        risk_notes: one_text(cat2("Identity mapping failed: ", error).as_str()),
        token_details: None,
        provider_metadata: None,
        mapping_error: None,
    }
}

/// What comes of a request whose provider gave `outcome`.
pub open spec fn attempt(
    outcome: Result<AccessMapResult, String>,
    cloud: Seq<char>,
    label: Seq<char>,
) -> AccessMapAttemptView {
    match outcome {
        Ok(result) => AccessMapAttemptView { result: result@, succeeded: true },
        Err(error) => AccessMapAttemptView {
            result: failed_result(cloud, label, error@),
            succeeded: false,
        },
    }
}

pub fn finish_mapping(
    outcome: Result<AccessMapResult, String>,
    cloud: &str,
    identity_label: &str,
) -> (mapped: AccessMapAttempt)
    ensures
        mapped@ == attempt(outcome, cloud@, identity_label@),
{
    match outcome {
        Ok(result) => AccessMapAttempt { result, succeeded: true },
        Err(error) => AccessMapAttempt {
            result: build_failed_result(cloud, identity_label, error.as_str()),
            succeeded: false,
        },
    }
}

/// Finishes the mapping of a token, retaining explicit success state.
pub fn map_token<M: TokenAccessMapper>(mapper: &M, outcome: Result<AccessMapResult, String>) -> (mapped: AccessMapAttempt)
    ensures
        mapped@ == attempt(outcome, mapper.cloud(), "token"@),
{
    finish_mapping(outcome, mapper.cloud_name(), "token")
}

/// Finishes the mapping of a request whose provider gave `outcome`, and hands its finding
/// fingerprint over.
pub fn dispatch_access_map_request(
    request: AccessMapRequest,
    outcome: Result<AccessMapResult, String>,
) -> (mapped: (AccessMapAttempt, String))
    ensures
        mapped.0@ == attempt(outcome, cloud_of(request), label_of(request)),
        mapped.1@ == fingerprint_of(request),
{
    match request {
        AccessMapRequest::Aws { access_key, fingerprint, .. } => {
            (finish_mapping(outcome, "aws", access_key.as_str()), fingerprint)
        },
        AccessMapRequest::Gcp { fingerprint, .. } => {
            (finish_mapping(outcome, "gcp", "service_account"), fingerprint)
        },
        AccessMapRequest::Azure { fingerprint, .. } => {
            (finish_mapping(outcome, "azure", "credential"), fingerprint)
        },
        AccessMapRequest::AzureDevops { fingerprint, .. } => {
            (finish_mapping(outcome, "azure_devops", "pat"), fingerprint)
        },
        AccessMapRequest::Github { fingerprint, .. } => {
            (map_token(&GithubMapper, outcome), fingerprint)
        },
        AccessMapRequest::Gitlab { fingerprint, .. } => {
            (map_token(&GitlabMapper, outcome), fingerprint)
        },
        AccessMapRequest::Slack { fingerprint, .. } => {
            (map_token(&SlackMapper, outcome), fingerprint)
        },
        AccessMapRequest::Postgres { fingerprint, .. } => {
            (finish_mapping(outcome, "postgres", "uri"), fingerprint)
        },
        AccessMapRequest::MongoDB { fingerprint, .. } => {
            (finish_mapping(outcome, "mongodb", "uri"), fingerprint)
        },
        AccessMapRequest::HuggingFace { fingerprint, .. } => {
            (map_token(&HuggingFaceMapper, outcome), fingerprint)
        },
        AccessMapRequest::Gitea { fingerprint, .. } => {
            (map_token(&GiteaMapper, outcome), fingerprint)
        },
        AccessMapRequest::Bitbucket { fingerprint, .. } => {
            (map_token(&BitbucketMapper, outcome), fingerprint)
        },
        AccessMapRequest::Buildkite { fingerprint, .. } => {
            (map_token(&BuildkiteMapper, outcome), fingerprint)
        },
        AccessMapRequest::Harness { fingerprint, .. } => {
            (map_token(&HarnessMapper, outcome), fingerprint)
        },
        AccessMapRequest::OpenAI { fingerprint, .. } => {
            (map_token(&OpenAiMapper, outcome), fingerprint)
        },
        AccessMapRequest::Anthropic { fingerprint, .. } => {
            (map_token(&AnthropicMapper, outcome), fingerprint)
        },
        AccessMapRequest::Salesforce { fingerprint, .. } => {
            (finish_mapping(outcome, "salesforce", "token"), fingerprint)
        },
        AccessMapRequest::WeightsAndBiases { fingerprint, .. } => {
            (map_token(&WeightsAndBiasesMapper, outcome), fingerprint)
        },
        AccessMapRequest::MicrosoftTeams { fingerprint, .. } => {
            (finish_mapping(outcome, "microsoft_teams", "webhook"), fingerprint)
        },
        AccessMapRequest::Airtable { fingerprint, .. } => {
            (map_token(&AirtableMapper, outcome), fingerprint)
        },
        AccessMapRequest::Alibaba { access_key, fingerprint, .. } => {
            (finish_mapping(outcome, "alibaba", access_key.as_str()), fingerprint)
        },
        AccessMapRequest::CircleCI { fingerprint, .. } => {
            (map_token(&CircleCiMapper, outcome), fingerprint)
        },
        AccessMapRequest::DigitalOcean { fingerprint, .. } => {
            (map_token(&DigitalOceanMapper, outcome), fingerprint)
        },
        AccessMapRequest::Fastly { fingerprint, .. } => {
            (map_token(&FastlyMapper, outcome), fingerprint)
        },
        AccessMapRequest::HubSpot { fingerprint, .. } => {
            (map_token(&HubSpotMapper, outcome), fingerprint)
        },
        AccessMapRequest::IbmCloud { fingerprint, .. } => {
            (map_token(&IbmCloudMapper, outcome), fingerprint)
        },
        AccessMapRequest::SendGrid { fingerprint, .. } => {
            (map_token(&SendGridMapper, outcome), fingerprint)
        },
        AccessMapRequest::Sendinblue { fingerprint, .. } => {
            (map_token(&SendinblueMapper, outcome), fingerprint)
        },
        AccessMapRequest::Stripe { fingerprint, .. } => {
            (map_token(&StripeMapper, outcome), fingerprint)
        },
        AccessMapRequest::Terraform { fingerprint, .. } => {
            (map_token(&TerraformMapper, outcome), fingerprint)
        },
        AccessMapRequest::Square { fingerprint, .. } => {
            (map_token(&SquareMapper, outcome), fingerprint)
        },
        AccessMapRequest::Jira { fingerprint, .. } => {
            (finish_mapping(outcome, "jira", "token"), fingerprint)
        },
        AccessMapRequest::MySQL { fingerprint, .. } => {
            (finish_mapping(outcome, "mysql", "uri"), fingerprint)
        },
        AccessMapRequest::Algolia { app_id, fingerprint, .. } => {
            (finish_mapping(outcome, "algolia", app_id.as_str()), fingerprint)
        },
        AccessMapRequest::Auth0 { client_id, fingerprint, .. } => {
            (finish_mapping(outcome, "auth0", client_id.as_str()), fingerprint)
        },
        AccessMapRequest::PayPal { client_id, fingerprint, .. } => {
            (finish_mapping(outcome, "paypal", client_id.as_str()), fingerprint)
        },
        AccessMapRequest::Plaid { client_id, fingerprint, .. } => {
            (finish_mapping(outcome, "plaid", client_id.as_str()), fingerprint)
        },
        AccessMapRequest::Shopify { subdomain, fingerprint, .. } => {
            (finish_mapping(outcome, "shopify", subdomain.as_str()), fingerprint)
        },
        AccessMapRequest::Zendesk { subdomain, fingerprint, .. } => {
            (finish_mapping(outcome, "zendesk", subdomain.as_str()), fingerprint)
        },
        AccessMapRequest::Artifactory { fingerprint, .. } => {
            (finish_mapping(outcome, "artifactory", "token"), fingerprint)
        },
        AccessMapRequest::Xray { fingerprint, .. } => {
            (finish_mapping(outcome, "jfrog_xray", "token"), fingerprint)
        },
        AccessMapRequest::Monday { fingerprint, .. } => {
            (map_token(&MondayMapper, outcome), fingerprint)
        },
        AccessMapRequest::Asana { fingerprint, .. } => {
            (map_token(&AsanaMapper, outcome), fingerprint)
        },
        AccessMapRequest::Pinecone { fingerprint, .. } => {
            (map_token(&PineconeMapper, outcome), fingerprint)
        },
    }
}

/// A result with the fingerprint of its finding.
pub open spec fn with_fingerprint(result: AccessMapResultView, fingerprint: Option<Seq<char>>) -> AccessMapResultView {
    AccessMapResultView { fingerprint, ..result }
}

/// What comes of one request: its attempt, marked with its finding.
pub open spec fn marked_attempt(request: AccessMapRequest, outcome: Result<AccessMapResult, String>) -> AccessMapAttemptView {
    let mapped = attempt(outcome, cloud_of(request), label_of(request));
    AccessMapAttemptView {
        result: with_fingerprint(mapped.result, Some(fingerprint_of(request))),
        succeeded: mapped.succeeded,
    }
}

/// Finishes a batch of credentials while preserving whether each provider request succeeded.
pub fn map_request_attempts(
    requests: Vec<(AccessMapRequest, Result<AccessMapResult, String>)>,
) -> (attempts: Vec<AccessMapAttempt>)
    ensures
        attempts@.len() == requests@.len(),
        forall|i: int|
            0 <= i < requests@.len() ==> (#[trigger] attempts@[i])@ == marked_attempt(
                requests@[i].0,
                requests@[i].1,
            ),
{
    let mut left = requests;
    let mut attempts: Vec<AccessMapAttempt> = Vec::new();
    while left.len() > 0
        invariant
            left@ == requests@.skip(attempts@.len() as int),
            attempts@.len() <= requests@.len(),
            forall|i: int|
                0 <= i < attempts@.len() ==> (#[trigger] attempts@[i])@ == marked_attempt(
                    requests@[i].0,
                    requests@[i].1,
                ),
        decreases left@.len(),
    {
        let (request, outcome) = left.remove(0);
        let (mapped, fingerprint) = dispatch_access_map_request(request, outcome);
        let mut result = mapped.result;
        result.fingerprint = Some(fingerprint);
        attempts.push(AccessMapAttempt { result, succeeded: mapped.succeeded });
    }
    attempts
}

/// Finishes a batch of credentials.
pub fn map_requests(
    requests: Vec<(AccessMapRequest, Result<AccessMapResult, String>)>,
) -> (results: Vec<AccessMapResult>)
    ensures
        results@.len() == requests@.len(),
        forall|i: int|
            0 <= i < requests@.len() ==> (#[trigger] results@[i])@ == marked_attempt(
                requests@[i].0,
                requests@[i].1,
            ).result,
{
    let all = map_request_attempts(requests);
    let mut left = all;
    let mut results: Vec<AccessMapResult> = Vec::new();
    while left.len() > 0
        invariant
            left@ == all@.skip(results@.len() as int),
            results@.len() <= all@.len(),
            forall|i: int| 0 <= i < results@.len() ==> (#[trigger] results@[i])@ == all@[i]@.result,
        decreases left@.len(),
    {
        let mapped = left.remove(0);
        results.push(mapped.result);
    }
    assert forall|i: int| 0 <= i < requests@.len() implies (#[trigger] results@[i])@ == marked_attempt(
        requests@[i].0,
        requests@[i].1,
    ).result by {
        assert(all@[i]@ == marked_attempt(requests@[i].0, requests@[i].1));
    }
    results
}

/// What a scan retains of one request: every finding that supplied the credential, in order and
/// each once, the first of them marking the result.
pub open spec fn scanned(
    collected: CollectedAccessMapRequest,
    outcome: Result<AccessMapResult, String>,
) -> ScanAccessMapResultView {
    let mapped = attempt(outcome, cloud_of(collected.request), label_of(collected.request));
    let findings = in_order(
        texts(collected.finding_fingerprints@).push(fingerprint_of(collected.request)),
    );
    ScanAccessMapResultView {
        result: with_fingerprint(mapped.result, Some(findings[0])),
        finding_fingerprints: findings,
        mapping_succeeded: mapped.succeeded,
    }
}

/// Finishes deduplicated scan credentials while preserving every finding occurrence and whether
/// identity mapping actually succeeded.
pub fn map_collected_requests(
    requests: Vec<(CollectedAccessMapRequest, Result<AccessMapResult, String>)>,
) -> (results: Vec<ScanAccessMapResult>)
    ensures
        results@.len() == requests@.len(),
        forall|i: int|
            0 <= i < requests@.len() ==> (#[trigger] results@[i])@ == scanned(
                requests@[i].0,
                requests@[i].1,
            ),
{
    let mut left = requests;
    let mut results: Vec<ScanAccessMapResult> = Vec::new();
    while left.len() > 0
        invariant
            left@ == requests@.skip(results@.len() as int),
            results@.len() <= requests@.len(),
            forall|i: int|
                0 <= i < results@.len() ==> (#[trigger] results@[i])@ == scanned(
                    requests@[i].0,
                    requests@[i].1,
                ),
        decreases left@.len(),
    {
        let (collected, outcome) = left.remove(0);
        let ghost supplied = texts(collected.finding_fingerprints@);
        let (mapped, primary) = dispatch_access_map_request(collected.request, outcome);
        let mut findings = collected.finding_fingerprints;
        push_text(&mut findings, primary);
        let finding_fingerprints = sort_dedup(findings);
        proof {
            crate::order::lemma_in_order(supplied.push(primary@));
            assert(supplied.push(primary@)[supplied.len() as int] == primary@);
            assert(supplied.push(primary@).contains(primary@));
            assert(in_order(supplied.push(primary@)).contains(primary@));
        }
        let mut result = mapped.result;
        result.fingerprint = Some(finding_fingerprints[0].clone());
        results.push(
            ScanAccessMapResult { result, finding_fingerprints, mapping_succeeded: mapped.succeeded },
        );
    }
    results
}

/// A mapping that failed is reported under the request's own cloud and label, at medium
/// severity, with the reason as its only note and nothing granted.
pub proof fn lemma_failure_is_reported(request: AccessMapRequest, error: String)
    ensures
        ({
            let mapped = marked_attempt(request, Err(error));
            &&& !mapped.succeeded
            &&& mapped.result.cloud == cloud_of(request)
            &&& mapped.result.identity.id == label_of(request)
            &&& mapped.result.severity == Severity::Medium
            &&& mapped.result.roles.len() == 0
            &&& mapped.result.permissions == empty_permission_summary()
            &&& mapped.result.risk_notes == seq!["Identity mapping failed: "@ + error@]
            &&& mapped.result.fingerprint == Some(fingerprint_of(request))
        }),
{
}

/// A mapping that succeeded is handed on as the provider gave it, but for the fingerprint.
pub proof fn lemma_success_is_kept(request: AccessMapRequest, result: AccessMapResult)
    ensures
        marked_attempt(request, Ok(result)).succeeded,
        marked_attempt(request, Ok(result)).result == with_fingerprint(
            result@,
            Some(fingerprint_of(request)),
        ),
{
}

/// No finding is lost: a scan retains the request's own fingerprint and each one that was
/// collected with it, nothing else, in order and each once.
pub proof fn lemma_findings_are_kept(
    collected: CollectedAccessMapRequest,
    outcome: Result<AccessMapResult, String>,
)
    ensures
        crate::order::ascending(scanned(collected, outcome).finding_fingerprints),
        forall|f: Seq<char>|
            #[trigger] scanned(collected, outcome).finding_fingerprints.contains(f) <==> (texts(
                collected.finding_fingerprints@,
            ).contains(f) || f == fingerprint_of(collected.request)),
{
    let supplied = texts(collected.finding_fingerprints@);
    let own = fingerprint_of(collected.request);
    crate::order::lemma_in_order(supplied.push(own));
    assert forall|f: Seq<char>| #[trigger]
        scanned(collected, outcome).finding_fingerprints.contains(f) <==> (supplied.contains(f) || f == own) by {
        if supplied.contains(f) {
            let k = choose|k: int| 0 <= k < supplied.len() && supplied[k] == f;
            assert(supplied.push(own)[k] == f);
        }
        if f == own {
            assert(supplied.push(own)[supplied.len() as int] == f);
        }
        if supplied.push(own).contains(f) && f != own {
            let k = choose|k: int| 0 <= k < supplied.len() + 1 && supplied.push(own)[k] == f;
            assert(supplied[k] == f);
        }
    }
}

/// What is recommended follows the severity: rotation always, an investigation of the blast radius where it
/// is high or critical and only there, a review of what may be written where it is medium.
pub proof fn lemma_recommendations_follow_severity(severity: Severity)
    ensures
        recommendations(severity).len() == 3,
        recommendations(severity).contains("Rotate the credential and audit recent usage"@),
        recommendations(severity)[2] == "Investigate blast radius and revoke unused bindings"@
            <==> severity == Severity::High || severity == Severity::Critical,
        recommendations(severity)[2] == "Review write-level permissions and tighten scopes"@
            <==> severity == Severity::Medium,
{
    assert(recommendations(severity)[0] == "Rotate the credential and audit recent usage"@);
    reveal_strlit("Investigate blast radius and revoke unused bindings");
    reveal_strlit("Review write-level permissions and tighten scopes");
    reveal_strlit("Maintain monitoring for anomalous access");
    assert("Investigate blast radius and revoke unused bindings"@.len() == 51);
    assert("Review write-level permissions and tighten scopes"@.len() == 49);
    assert("Maintain monitoring for anomalous access"@.len() == 40);
}

} // verus!
