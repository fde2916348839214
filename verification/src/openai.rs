//! OpenAI API keys.

use vstd::prelude::*;
use crate::mapping::{build_recommendations, recommendations};
use crate::model::{
    binding, empty_access_token_details, empty_permission_summary, exposure, no_views, one_view,
    push_view, views, AccessMapResult, AccessMapResultView, AccessSummary, AccessSummaryView,
    AccessTokenDetails, AccessTokenDetailsView, PermissionSummary, PermissionSummaryView,
    ResourceExposure, ResourceExposureView, RoleBinding, Severity,
};
use crate::permissions::{
    class_list, file_permission, filed, lemma_filed, lemma_sorted_classes_stay_filled,
    lemma_sorted_summary, sort_permission_summary, sorted_summary, PermissionClass,
};
use crate::text::{
    begins, cat2, cat3, cat4, cat5, copy_texts, i64_text, no_texts, one_text, push_text,
    signed_decimal, starts_with, str_eq, text_or, texts, two_texts, unwrap_text,
};

verus! {

pub const MAX_OPENAI_SERVICE_RESOURCES: usize = 50;

/// What a listing came to: items, or that the key may not list them.
#[derive(Debug)]
pub enum Inventory<T> {
    Accessible(Vec<T>),
    Denied,
}

/// The role of a member of a project.
#[derive(Clone, Copy, Debug, PartialEq, Eq, Structural)]
pub enum ProjectRole {
    Owner,
    Member,
}

/// What a file is for.
#[derive(Clone, Copy, Debug, PartialEq, Eq, Structural)]
pub enum FilePurpose {
    Assistants,
    AssistantsOutput,
    Batch,
    BatchOutput,
    FineTune,
    FineTuneResults,
    Vision,
    UserData,
}

/// How far a fine-tuning job has come.
#[derive(Clone, Copy, Debug, PartialEq, Eq, Structural)]
pub enum FineTuningStatus {
    ValidatingFiles,
    Queued,
    Running,
    Succeeded,
    Failed,
    Cancelled,
}

/// An API key of a project.
#[derive(Debug)]
pub struct OpenAiProjectKey {
    pub id: String,
    pub name: String,
    pub redacted_value: String,
}

/// A service account of a project.
#[derive(Debug)]
pub struct OpenAiServiceAccount {
    pub id: String,
    pub name: String,
    pub role: ProjectRole,
}

/// A user of a project.
#[derive(Debug)]
pub struct OpenAiProjectUser {
    pub id: String,
    pub name: Option<String>,
    pub role: ProjectRole,
}

/// The models that a project may use.
#[derive(Debug)]
pub struct OpenAiProjectModelPermissions {
    pub mode: String,
    pub model_ids: Vec<String>,
}

/// The hosted tools that a project may use.
#[derive(Clone, Copy, Debug)]
pub struct OpenAiHostedToolPermissions {
    pub file_search: bool,
    pub web_search: bool,
    pub image_generation: bool,
    pub mcp: bool,
    pub code_interpreter: bool,
}

/// A rate limit of a project.
#[derive(Debug)]
pub struct OpenAiRateLimit {
    pub model: String,
    pub max_requests_per_1_minute: i64,
    pub max_tokens_per_1_minute: i64,
}

/// What the administration API says of a project. What follows an answer that failed is not looked
/// at.
#[derive(Debug)]
pub struct ProjectAdministration {
    pub api_keys: Result<Vec<OpenAiProjectKey>, String>,
    pub service_accounts: Result<Vec<OpenAiServiceAccount>, String>,
    pub users: Result<Vec<OpenAiProjectUser>, String>,
    pub model_permissions: Result<OpenAiProjectModelPermissions, String>,
    pub tools: Result<OpenAiHostedToolPermissions, String>,
    pub rate_limits: Result<Vec<OpenAiRateLimit>, String>,
}

/// A project of an organization.
#[derive(Debug)]
pub struct OpenAiProject {
    pub id: String,
    pub name: Option<String>,
    pub status: Option<String>,
    pub administration: ProjectAdministration,
}

/// A model.
#[derive(Debug)]
pub struct OpenAiModel {
    pub id: String,
    pub owned_by: String,
}

/// A file.
#[derive(Debug)]
pub struct OpenAiFile {
    pub filename: String,
    pub purpose: FilePurpose,
}

/// An assistant.
#[derive(Debug)]
pub struct OpenAiAssistant {
    pub id: String,
    pub name: Option<String>,
    pub model: String,
}

/// A fine-tuning job.
#[derive(Debug)]
pub struct OpenAiFineTuningJob {
    pub id: String,
    pub fine_tuned_model: Option<String>,
    pub model: String,
    pub status: FineTuningStatus,
}

/// What OpenAI answered.
#[derive(Debug)]
pub struct OpenAiReplies {
    pub projects: Result<Inventory<OpenAiProject>, String>,
    pub models: Result<Inventory<OpenAiModel>, String>,
    pub files: Result<Inventory<OpenAiFile>, String>,
    pub assistants: Result<Inventory<OpenAiAssistant>, String>,
    pub fine_tuning_jobs: Result<Inventory<OpenAiFineTuningJob>, String>,
}

/// Whether a status means that a key may not list something.
pub fn is_access_denied(status: u16) -> (yes: bool)
    ensures
        yes == (status == 401 || status == 403 || status == 404),
{
    status == 401 || status == 403 || status == 404
}

/// How a role is written.
pub open spec fn role_text(role: ProjectRole) -> Seq<char> {
    match role {
        ProjectRole::Owner => "owner"@,
        ProjectRole::Member => "member"@,
    }
}

pub fn project_role_to_str(role: ProjectRole) -> (s: &'static str)
    ensures
        s@ == role_text(role),
{
    match role {
        ProjectRole::Owner => "owner",
        ProjectRole::Member => "member",
    }
}

/// How what a file is for is written.
pub open spec fn purpose_text(purpose: FilePurpose) -> Seq<char> {
    match purpose {
        FilePurpose::Assistants => "assistants"@,
        FilePurpose::AssistantsOutput => "assistants_output"@,
        FilePurpose::Batch => "batch"@,
        FilePurpose::BatchOutput => "batch_output"@,
        FilePurpose::FineTune => "fine-tune"@,
        FilePurpose::FineTuneResults => "fine-tune-results"@,
        FilePurpose::Vision => "vision"@,
        FilePurpose::UserData => "user_data"@,
    }
}

pub fn file_purpose_to_str(purpose: FilePurpose) -> (s: &'static str)
    ensures
        s@ == purpose_text(purpose),
{
    match purpose {
        FilePurpose::Assistants => "assistants",
        FilePurpose::AssistantsOutput => "assistants_output",
        FilePurpose::Batch => "batch",
        FilePurpose::BatchOutput => "batch_output",
        FilePurpose::FineTune => "fine-tune",
        FilePurpose::FineTuneResults => "fine-tune-results",
        FilePurpose::Vision => "vision",
        FilePurpose::UserData => "user_data",
    }
}

/// How the state of a fine-tuning job is written.
pub open spec fn tuning_text(status: FineTuningStatus) -> Seq<char> {
    match status {
        FineTuningStatus::ValidatingFiles => "validating_files"@,
        FineTuningStatus::Queued => "queued"@,
        FineTuningStatus::Running => "running"@,
        FineTuningStatus::Succeeded => "succeeded"@,
        FineTuningStatus::Failed => "failed"@,
        FineTuningStatus::Cancelled => "cancelled"@,
    }
}

pub fn fine_tuning_status_to_str(status: FineTuningStatus) -> (s: &'static str)
    ensures
        s@ == tuning_text(status),
{
    match status {
        FineTuningStatus::ValidatingFiles => "validating_files",
        FineTuningStatus::Queued => "queued",
        FineTuningStatus::Running => "running",
        FineTuningStatus::Succeeded => "succeeded",
        FineTuningStatus::Failed => "failed",
        FineTuningStatus::Cancelled => "cancelled",
    }
}

/// The kind of a key, by how it begins.
pub open spec fn token_kind(token: Seq<char>) -> Seq<char> {
    if begins(token, "sk-proj-"@) {
        "project_api_key"@
    } else if begins(token, "sk-svcacct-"@) {
        "service_account_api_key"@
    } else if begins(token, "sk-None-"@) {
        "legacy_api_key"@
    } else {
        "api_key"@
    }
}

pub fn detect_token_type(token: &str) -> (kind: &'static str)
    ensures
        kind@ == token_kind(token@),
{
    if starts_with(token, "sk-proj-") {
        "project_api_key"
    } else if starts_with(token, "sk-svcacct-") {
        "service_account_api_key"
    } else if starts_with(token, "sk-None-") {
        "legacy_api_key"
    } else {
        "api_key"
    }
}

/// Whether a resource shows data of the account.
pub open spec fn is_sensitive(resource: ResourceExposureView) -> bool {
    resource.resource_type == "file"@ || resource.resource_type == "fine_tuning_job"@
}

/// How grave it is what a key may do.
pub open spec fn key_severity(
    permissions: PermissionSummaryView,
    resources: Seq<ResourceExposureView>,
) -> Severity {
    if permissions.admin.len() > 0 {
        Severity::High
    } else if (exists|k: int| 0 <= k < resources.len() && is_sensitive(#[trigger] resources[k]))
        || permissions.risky.len() > 0 {
        Severity::Medium
    } else {
        Severity::Low
    }
}

pub fn derive_severity(permissions: &PermissionSummary, resources: &Vec<ResourceExposure>) -> (severity:
    Severity)
    ensures
        severity == key_severity(permissions@, views(resources@)),
{
    let mut sensitive: bool = false;
    let mut i: usize = 0;
    while i < resources.len()
        invariant
            i <= resources@.len(),
            sensitive == exists|k: int|
                0 <= k < i && is_sensitive(#[trigger] views(resources@)[k]),
        decreases resources@.len() - i,
    {
        assert(views(resources@)[i as int] == resources@[i as int]@);
        let kind = resources[i].resource_type.as_str();
        if str_eq(kind, "file") || str_eq(kind, "fine_tuning_job") {
            sensitive = true;
        }
        i = i + 1;
    }
    if permissions.admin.len() > 0 {
        Severity::High
    } else if sensitive || permissions.risky.len() > 0 {
        Severity::Medium
    } else {
        Severity::Low
    }
}

/// The name, or the ID where there is none.
pub open spec fn name_or_id(name: Seq<char>, id: Seq<char>) -> Seq<char> {
    if name.len() == 0 {
        id
    } else {
        name
    }
}

fn pick_name(name: &str, id: &str) -> (picked: String)
    ensures
        picked@ == name_or_id(name@, id@),
{
    if name.is_empty() {
        id.to_owned()
    } else {
        name.to_owned()
    }
}

/// The resource that stands for an API key of a project.
pub open spec fn key_exposure(key: OpenAiProjectKey) -> ResourceExposureView {
    exposure(
        "project_api_key"@,
        name_or_id(key.name@, key.id@),
        seq!["project_api_key:read"@],
        Severity::High,
        "Project API key visible to this admin key ("@ + key.redacted_value@ + ")"@,
    )
}

/// The resource that stands for a service account.
pub open spec fn account_exposure(account: OpenAiServiceAccount) -> ResourceExposureView {
    exposure(
        "service_account"@,
        name_or_id(account.name@, account.id@),
        seq!["project_role:"@ + role_text(account.role)],
        Severity::High,
        "Service account assigned to this OpenAI project"@,
    )
}

/// The resource that stands for a user of a project.
pub open spec fn user_exposure(user: OpenAiProjectUser) -> ResourceExposureView {
    exposure(
        "project_user"@,
        text_or(user.name, user.id@),
        seq!["project_role:"@ + role_text(user.role)],
        if user.role == ProjectRole::Owner {
            Severity::High
        } else {
            Severity::Medium
        },
        "User assigned to this OpenAI project"@,
    )
}

/// The names of the hosted tools that a project may use.
pub open spec fn enabled_tools(tools: OpenAiHostedToolPermissions) -> Seq<Seq<char>> {
    (if tools.file_search {
        seq!["file_search"@]
    } else {
        Seq::empty()
    }) + (if tools.web_search {
        seq!["web_search"@]
    } else {
        Seq::empty()
    }) + (if tools.image_generation {
        seq!["image_generation"@]
    } else {
        Seq::empty()
    }) + (if tools.mcp {
        seq!["mcp"@]
    } else {
        Seq::empty()
    }) + (if tools.code_interpreter {
        seq!["code_interpreter"@]
    } else {
        Seq::empty()
    })
}

/// The resource that stands for a rate limit.
pub open spec fn limit_exposure(limit: OpenAiRateLimit) -> ResourceExposureView {
    exposure(
        "model_rate_limit"@,
        name_or_id(limit.model@, "unknown_model"@),
        seq![
            "requests_per_minute:"@ + signed_decimal(limit.max_requests_per_1_minute as int),
            "tokens_per_minute:"@ + signed_decimal(limit.max_tokens_per_1_minute as int),
        ],
        Severity::Low,
        "Configured project rate limit"@,
    )
}

/// The resources that the administration API shows of a project, up to the first answer that
/// failed, with what that answer said.
pub open spec fn administered(id: Seq<char>, replies: ProjectAdministration) -> (
    Seq<ResourceExposureView>,
    Option<Seq<char>>,
) {
    match replies.api_keys {
        Err(error) => (Seq::empty(), Some(error@)),
        Ok(keys) => {
            let with_keys = keys@.map_values(|key: OpenAiProjectKey| key_exposure(key));
            match replies.service_accounts {
                Err(error) => (with_keys, Some(error@)),
                Ok(accounts) => {
                    let with_accounts = with_keys + accounts@.map_values(
                        |account: OpenAiServiceAccount| account_exposure(account),
                    );
                    match replies.users {
                        Err(error) => (with_accounts, Some(error@)),
                        Ok(users) => administered_settings(
                            id,
                            replies,
                            with_accounts + users@.map_values(
                                |user: OpenAiProjectUser| user_exposure(user),
                            ),
                        ),
                    }
                },
            }
        },
    }
}

/// The resources with those that stand for the settings of a project, up to the first answer that
/// failed.
pub open spec fn administered_settings(
    id: Seq<char>,
    replies: ProjectAdministration,
    found: Seq<ResourceExposureView>,
) -> (Seq<ResourceExposureView>, Option<Seq<char>>) {
    match replies.model_permissions {
        Err(error) => (found, Some(error@)),
        Ok(models) => {
            let with_models = found.push(
                exposure(
                    "model_policy"@,
                    id,
                    texts(models.model_ids@),
                    Severity::Medium,
                    "Project model policy mode: "@ + models.mode@,
                ),
            );
            match replies.tools {
                Err(error) => (with_models, Some(error@)),
                Ok(tools) => {
                    let with_tools = with_models.push(
                        exposure(
                            "hosted_tools"@,
                            id,
                            enabled_tools(tools),
                            Severity::Medium,
                            "Hosted tools enabled for this OpenAI project"@,
                        ),
                    );
                    match replies.rate_limits {
                        Err(error) => (with_tools, Some(error@)),
                        Ok(limits) => (
                            with_tools + limits@.map_values(
                                |limit: OpenAiRateLimit| limit_exposure(limit),
                            ),
                            None,
                        ),
                    }
                },
            }
        },
    }
}

fn expose_keys(resources: &mut Vec<ResourceExposure>, keys: &Vec<OpenAiProjectKey>)
    ensures
        views(final(resources)@) == views(old(resources)@) + keys@.map_values(
            |key: OpenAiProjectKey| key_exposure(key),
        ),
{
    let ghost before = views(resources@);
    let ghost all = keys@.map_values(|key: OpenAiProjectKey| key_exposure(key));
    let mut i: usize = 0;
    assert(views(resources@) =~= before + all.take(0));
    while i < keys.len()
        invariant
            i <= keys@.len(),
            all == keys@.map_values(|key: OpenAiProjectKey| key_exposure(key)),
            views(resources@) == before + all.take(i as int),
        decreases keys@.len() - i,
    {
        let key = &keys[i];
        push_view(
            resources,
            ResourceExposure::new(
                "project_api_key",
                pick_name(key.name.as_str(), key.id.as_str()).as_str(),
                one_text("project_api_key:read"),
                Severity::High,
                cat3(
                    "Project API key visible to this admin key (",
                    key.redacted_value.as_str(),
                    ")",
                ).as_str(),
            ),
        );
        i = i + 1;
        assert(views(resources@) =~= before + all.take(i as int));
    }
    assert(all.take(keys@.len() as int) =~= all);
}

fn expose_accounts(resources: &mut Vec<ResourceExposure>, accounts: &Vec<OpenAiServiceAccount>)
    ensures
        views(final(resources)@) == views(old(resources)@) + accounts@.map_values(
            |account: OpenAiServiceAccount| account_exposure(account),
        ),
{
    let ghost before = views(resources@);
    let ghost all = accounts@.map_values(
        |account: OpenAiServiceAccount| account_exposure(account),
    );
    let mut i: usize = 0;
    assert(views(resources@) =~= before + all.take(0));
    while i < accounts.len()
        invariant
            i <= accounts@.len(),
            all == accounts@.map_values(
                |account: OpenAiServiceAccount| account_exposure(account),
            ),
            views(resources@) == before + all.take(i as int),
        decreases accounts@.len() - i,
    {
        let account = &accounts[i];
        push_view(
            resources,
            ResourceExposure::new(
                "service_account",
                pick_name(account.name.as_str(), account.id.as_str()).as_str(),
                one_text(cat2("project_role:", project_role_to_str(account.role)).as_str()),
                Severity::High,
                "Service account assigned to this OpenAI project",
            ),
        );
        i = i + 1;
        assert(views(resources@) =~= before + all.take(i as int));
    }
    assert(all.take(accounts@.len() as int) =~= all);
}

fn expose_users(resources: &mut Vec<ResourceExposure>, users: &Vec<OpenAiProjectUser>)
    ensures
        views(final(resources)@) == views(old(resources)@) + users@.map_values(
            |user: OpenAiProjectUser| user_exposure(user),
        ),
{
    let ghost before = views(resources@);
    let ghost all = users@.map_values(|user: OpenAiProjectUser| user_exposure(user));
    let mut i: usize = 0;
    assert(views(resources@) =~= before + all.take(0));
    while i < users.len()
        invariant
            i <= users@.len(),
            all == users@.map_values(|user: OpenAiProjectUser| user_exposure(user)),
            views(resources@) == before + all.take(i as int),
        decreases users@.len() - i,
    {
        let user = &users[i];
        let risk = match user.role {
            ProjectRole::Owner => Severity::High,
            ProjectRole::Member => Severity::Medium,
        };
        push_view(
            resources,
            ResourceExposure::new(
                "project_user",
                unwrap_text(&user.name, user.id.as_str()).as_str(),
                one_text(cat2("project_role:", project_role_to_str(user.role)).as_str()),
                risk,
                "User assigned to this OpenAI project",
            ),
        );
        i = i + 1;
        assert(views(resources@) =~= before + all.take(i as int));
    }
    assert(all.take(users@.len() as int) =~= all);
}

fn list_tools(tools: &OpenAiHostedToolPermissions) -> (names: Vec<String>)
    ensures
        texts(names@) == enabled_tools(*tools),
{
    let mut names = no_texts();
    if tools.file_search {
        push_text(&mut names, "file_search".to_owned());
    }
    if tools.web_search {
        push_text(&mut names, "web_search".to_owned());
    }
    if tools.image_generation {
        push_text(&mut names, "image_generation".to_owned());
    }
    if tools.mcp {
        push_text(&mut names, "mcp".to_owned());
    }
    if tools.code_interpreter {
        push_text(&mut names, "code_interpreter".to_owned());
    }
    assert(texts(names@) =~= enabled_tools(*tools));
    names
}

fn expose_limits(resources: &mut Vec<ResourceExposure>, limits: &Vec<OpenAiRateLimit>)
    ensures
        views(final(resources)@) == views(old(resources)@) + limits@.map_values(
            |limit: OpenAiRateLimit| limit_exposure(limit),
        ),
{
    let ghost before = views(resources@);
    let ghost all = limits@.map_values(|limit: OpenAiRateLimit| limit_exposure(limit));
    let mut i: usize = 0;
    assert(views(resources@) =~= before + all.take(0));
    while i < limits.len()
        invariant
            i <= limits@.len(),
            all == limits@.map_values(|limit: OpenAiRateLimit| limit_exposure(limit)),
            views(resources@) == before + all.take(i as int),
        decreases limits@.len() - i,
    {
        let limit = &limits[i];
        let requests = cat2(
            "requests_per_minute:",
            i64_text(limit.max_requests_per_1_minute).as_str(),
        );
        let tokens = cat2(
            "tokens_per_minute:",
            i64_text(limit.max_tokens_per_1_minute).as_str(),
        );
        push_view(
            resources,
            ResourceExposure::new(
                "model_rate_limit",
                pick_name(limit.model.as_str(), "unknown_model").as_str(),
                two_texts(requests.as_str(), tokens.as_str()),
                Severity::Low,
                "Configured project rate limit",
            ),
        );
        i = i + 1;
        assert(views(resources@) =~= before + all.take(i as int));
    }
    assert(all.take(limits@.len() as int) =~= all);
}

/// A summary once the administration API was asked of a project.
pub open spec fn with_administration(
    summary: PermissionSummaryView,
    id: Seq<char>,
    failed: bool,
) -> PermissionSummaryView {
    if failed {
        summary
    } else {
        filed(
            summary,
            PermissionClass::Admin,
            "project:"@ + id + ":administration:read"@,
        )
    }
}

pub fn enumerate_project_administration(
    project_id: &str,
    replies: &ProjectAdministration,
    resources: &mut Vec<ResourceExposure>,
    permissions: &mut PermissionSummary,
) -> (outcome: Result<(), String>)
    ensures
        views(final(resources)@) == views(old(resources)@) + administered(project_id@, *replies).0,
        match outcome {
            Ok(_) => administered(project_id@, *replies).1 is None,
            Err(error) => administered(project_id@, *replies).1 == Some(error@),
        },
        final(permissions)@ == with_administration(old(permissions)@, project_id@, outcome is Err),
{
    let ghost before = views(resources@);
    assert(before =~= before + Seq::<ResourceExposureView>::empty());
    match &replies.api_keys {
        Err(error) => {
            return Err(error.clone());
        },
        Ok(keys) => expose_keys(resources, keys),
    }
    match &replies.service_accounts {
        Err(error) => {
            return Err(error.clone());
        },
        Ok(accounts) => expose_accounts(resources, accounts),
    }
    match &replies.users {
        Err(error) => {
            assert(views(resources@) =~= before + administered(project_id@, *replies).0);
            return Err(error.clone());
        },
        Ok(users) => expose_users(resources, users),
    }
    match &replies.model_permissions {
        Err(error) => {
            assert(views(resources@) =~= before + administered(project_id@, *replies).0);
            return Err(error.clone());
        },
        Ok(models) => push_view(
            resources,
            ResourceExposure::new(
                "model_policy",
                project_id,
                copy_texts(&models.model_ids),
                Severity::Medium,
                cat2("Project model policy mode: ", models.mode.as_str()).as_str(),
            ),
        ),
    }
    match &replies.tools {
        Err(error) => {
            assert(views(resources@) =~= before + administered(project_id@, *replies).0);
            return Err(error.clone());
        },
        Ok(tools) => push_view(
            resources,
            ResourceExposure::new(
                "hosted_tools",
                project_id,
                list_tools(tools),
                Severity::Medium,
                "Hosted tools enabled for this OpenAI project",
            ),
        ),
    }
    match &replies.rate_limits {
        Err(error) => {
            assert(views(resources@) =~= before + administered(project_id@, *replies).0);
            return Err(error.clone());
        },
        Ok(limits) => expose_limits(resources, limits),
    }
    assert(views(resources@) =~= before + administered(project_id@, *replies).0);
    file_permission(
        permissions,
        PermissionClass::Admin,
        cat3("project:", project_id, ":administration:read"),
    );
    Ok(())
}

/// What is known of a key so far.
pub struct OpenAiMap {
    pub observed: Vec<String>,
    pub permissions: PermissionSummary,
    pub resources: Vec<ResourceExposure>,
    pub risk_notes: Vec<String>,
}

/// What an `OpenAiMap` says.
#[verifier::ext_equal]
pub struct OpenAiMapView {
    pub observed: Seq<Seq<char>>,
    pub permissions: PermissionSummaryView,
    pub resources: Seq<ResourceExposureView>,
    pub risk_notes: Seq<Seq<char>>,
}

impl View for OpenAiMap {
    type V = OpenAiMapView;

    open spec fn view(&self) -> OpenAiMapView {
        OpenAiMapView {
            observed: texts(self.observed@),
            permissions: self.permissions@,
            resources: views(self.resources@),
            risk_notes: texts(self.risk_notes@),
        }
    }
}

/// The resource that stands for a project.
pub open spec fn project_exposure(project: OpenAiProject) -> ResourceExposureView {
    exposure(
        "project"@,
        text_or(project.name, project.id@),
        seq!["organization_project:read"@],
        match project.status {
            Some(status) => if status@ == "archived"@ {
                Severity::Low
            } else {
                Severity::High
            },
            None => Severity::High,
        },
        "Project returned by the OpenAI organization administration API"@,
    )
}

/// What is known of a key with one more project.
pub open spec fn with_project(map: OpenAiMapView, project: OpenAiProject) -> OpenAiMapView {
    let (found, failure) = administered(project.id@, project.administration);
    OpenAiMapView {
        resources: map.resources.push(project_exposure(project)) + found,
        permissions: with_administration(map.permissions, project.id@, failure is Some),
        risk_notes: match failure {
            Some(error) => map.risk_notes.push(
                "Administrative inventory failed for project "@ + project.id@ + ": "@ + error,
            ),
            None => map.risk_notes,
        },
        ..map
    }
}

/// What is known of a key with the first `n` projects.
pub open spec fn with_projects(map: OpenAiMapView, projects: Seq<OpenAiProject>, n: int) -> OpenAiMapView
    decreases n,
{
    if n <= 0 {
        map
    } else {
        with_project(with_projects(map, projects, n - 1), projects[n - 1])
    }
}

/// What is known of a key once its projects were listed.
pub open spec fn after_projects(
    map: OpenAiMapView,
    reply: Result<Inventory<OpenAiProject>, String>,
) -> OpenAiMapView {
    match reply {
        Ok(Inventory::Accessible(projects)) => with_projects(
            OpenAiMapView {
                observed: map.observed.push("organization_projects:list"@),
                permissions: filed(
                    map.permissions,
                    PermissionClass::Admin,
                    "organization_projects:list"@,
                ),
                ..map
            },
            projects@,
            projects@.len() as int,
        ),
        Ok(Inventory::Denied) => map,
        Err(error) => OpenAiMapView {
            risk_notes: map.risk_notes.push("Project enumeration failed: "@ + error@),
            ..map
        },
    }
}

fn add_project(map: &mut OpenAiMap, project: &OpenAiProject)
    ensures
        final(map)@ == with_project(old(map)@, *project),
{
    let archived: bool = match &project.status {
        Some(status) => str_eq(status.as_str(), "archived"),
        None => false,
    };
    let risk = if archived {
        Severity::Low
    } else {
        Severity::High
    };
    push_view(
        &mut map.resources,
        ResourceExposure::new(
            "project",
            unwrap_text(&project.name, project.id.as_str()).as_str(),
            one_text("organization_project:read"),
            risk,
            "Project returned by the OpenAI organization administration API",
        ),
    );
    match enumerate_project_administration(
        project.id.as_str(),
        &project.administration,
        &mut map.resources,
        &mut map.permissions,
    ) {
        Ok(_) => {},
        Err(error) => push_text(
            &mut map.risk_notes,
            cat4(
                "Administrative inventory failed for project ",
                project.id.as_str(),
                ": ",
                error.as_str(),
            ),
        ),
    }
}

fn take_projects(map: &mut OpenAiMap, reply: &Result<Inventory<OpenAiProject>, String>)
    ensures
        final(map)@ == after_projects(old(map)@, *reply),
{
    match reply {
        Ok(Inventory::Accessible(projects)) => {
            push_text(&mut map.observed, "organization_projects:list".to_owned());
            file_permission(
                &mut map.permissions,
                PermissionClass::Admin,
                "organization_projects:list".to_owned(),
            );
            let ghost start = map@;
            let mut i: usize = 0;
            while i < projects.len()
                invariant
                    i <= projects@.len(),
                    map@ == with_projects(start, projects@, i as int),
                decreases projects@.len() - i,
            {
                add_project(map, &projects[i]);
                i = i + 1;
            }
        },
        Ok(Inventory::Denied) => {},
        Err(error) => push_text(
            &mut map.risk_notes,
            cat2("Project enumeration failed: ", error.as_str()),
        ),
    }
}

/// How many of the items of a listing are shown.
pub open spec fn shown_count(count: nat) -> int {
    if count > MAX_OPENAI_SERVICE_RESOURCES {
        MAX_OPENAI_SERVICE_RESOURCES as int
    } else {
        count as int
    }
}

fn count_shown(count: usize) -> (shown: usize)
    ensures
        shown == shown_count(count as nat),
{
    if count > MAX_OPENAI_SERVICE_RESOURCES {
        MAX_OPENAI_SERVICE_RESOURCES
    } else {
        count
    }
}

/// What is known of a key once something was listed: what is shown of it, and whether there is more.
pub open spec fn after_listing(
    map: OpenAiMapView,
    access: Seq<char>,
    shown: Seq<ResourceExposureView>,
    truncated: bool,
    what: Seq<char>,
) -> OpenAiMapView {
    OpenAiMapView {
        observed: map.observed.push(access),
        permissions: filed(map.permissions, PermissionClass::ReadOnly, access),
        resources: map.resources + shown,
        risk_notes: if truncated {
            map.risk_notes.push(what + " resource list truncated to first 50 visible entries"@)
        } else {
            map.risk_notes
        },
    }
}

fn observe(map: &mut OpenAiMap, access: &str)
    ensures
        final(map)@ == (OpenAiMapView {
            observed: old(map)@.observed.push(access@),
            permissions: filed(old(map)@.permissions, PermissionClass::ReadOnly, access@),
            ..old(map)@
        }),
{
    push_text(&mut map.observed, access.to_owned());
    file_permission(&mut map.permissions, PermissionClass::ReadOnly, access.to_owned());
}

fn note_truncation(map: &mut OpenAiMap, count: usize, what: &str)
    ensures
        final(map)@ == (OpenAiMapView {
            risk_notes: if count > MAX_OPENAI_SERVICE_RESOURCES {
                old(map)@.risk_notes.push(
                    what@ + " resource list truncated to first 50 visible entries"@,
                )
            } else {
                old(map)@.risk_notes
            },
            ..old(map)@
        }),
{
    if count > MAX_OPENAI_SERVICE_RESOURCES {
        push_text(
            &mut map.risk_notes,
            cat2(what, " resource list truncated to first 50 visible entries"),
        );
    }
}

/// What is known of a key once a listing failed.
pub open spec fn after_failure(map: OpenAiMapView, what: Seq<char>, error: Seq<char>) -> OpenAiMapView {
    OpenAiMapView {
        risk_notes: map.risk_notes.push(what + " enumeration failed: "@ + error),
        ..map
    }
}

fn note_failure(map: &mut OpenAiMap, what: &str, error: &str)
    ensures
        final(map)@ == after_failure(old(map)@, what@, error@),
{
    push_text(&mut map.risk_notes, cat3(what, " enumeration failed: ", error));
}

/// The resource that stands for a model.
pub open spec fn model_exposure(model: OpenAiModel) -> ResourceExposureView {
    exposure(
        "model"@,
        model.id@,
        seq!["model:read"@],
        Severity::Low,
        "Model readable via this API key (owner: "@ + model.owned_by@ + ")"@,
    )
}

/// The resources that stand for the first `n` models.
pub open spec fn models_upto(list: Seq<OpenAiModel>, n: int) -> Seq<ResourceExposureView>
    decreases n,
{
    if n <= 0 {
        Seq::empty()
    } else {
        models_upto(list, n - 1).push(model_exposure(list[n - 1]))
    }
}

/// What is known of a key once its models were listed.
pub open spec fn after_models(
    map: OpenAiMapView,
    reply: Result<Inventory<OpenAiModel>, String>,
) -> OpenAiMapView {
    match reply {
        Ok(Inventory::Accessible(list)) => after_listing(
            map,
            "models:list"@,
            models_upto(list@, shown_count(list@.len())),
            list@.len() > MAX_OPENAI_SERVICE_RESOURCES,
            "Model"@,
        ),
        Ok(Inventory::Denied) => map,
        Err(error) => after_failure(map, "Model"@, error@),
    }
}

fn take_models(map: &mut OpenAiMap, reply: &Result<Inventory<OpenAiModel>, String>)
    ensures
        final(map)@ == after_models(old(map)@, *reply),
{
    match reply {
        Ok(Inventory::Accessible(list)) => {
            observe(map, "models:list");
            let ghost before = map@;
            let shown: usize = count_shown(list.len());
            let mut i: usize = 0;
            assert(before.resources =~= before.resources + models_upto(list@, 0));
            while i < shown
                invariant
                    i <= shown <= list@.len(),
                    map@ == (OpenAiMapView {
                        resources: before.resources + models_upto(list@, i as int),
                        ..before
                    }),
                decreases shown - i,
            {
                push_view(
                    &mut map.resources,
                    ResourceExposure::new(
                        "model",
                        list[i].id.as_str(),
                        one_text("model:read"),
                        Severity::Low,
                        cat3(
                            "Model readable via this API key (owner: ",
                            list[i].owned_by.as_str(),
                            ")",
                        ).as_str(),
                    ),
                );
                i = i + 1;
                assert(map@.resources =~= before.resources + models_upto(list@, i as int));
            }
            note_truncation(map, list.len(), "Model");
        },
        Ok(Inventory::Denied) => {},
        Err(error) => note_failure(map, "Model", error.as_str()),
    }
}

/// The resource that stands for a file.
pub open spec fn file_exposure(file: OpenAiFile) -> ResourceExposureView {
    exposure(
        "file"@,
        file.filename@,
        seq!["file:metadata:read"@],
        Severity::Medium,
        "File visible to this API key (purpose: "@ + purpose_text(file.purpose) + ")"@,
    )
}

/// The resources that stand for the first `n` files.
pub open spec fn files_upto(list: Seq<OpenAiFile>, n: int) -> Seq<ResourceExposureView>
    decreases n,
{
    if n <= 0 {
        Seq::empty()
    } else {
        files_upto(list, n - 1).push(file_exposure(list[n - 1]))
    }
}

/// What is known of a key once its files were listed.
pub open spec fn after_files(
    map: OpenAiMapView,
    reply: Result<Inventory<OpenAiFile>, String>,
) -> OpenAiMapView {
    match reply {
        Ok(Inventory::Accessible(list)) => after_listing(
            map,
            "files:list"@,
            files_upto(list@, shown_count(list@.len())),
            list@.len() > MAX_OPENAI_SERVICE_RESOURCES,
            "File"@,
        ),
        Ok(Inventory::Denied) => map,
        Err(error) => after_failure(map, "File"@, error@),
    }
}

fn take_files(map: &mut OpenAiMap, reply: &Result<Inventory<OpenAiFile>, String>)
    ensures
        final(map)@ == after_files(old(map)@, *reply),
{
    match reply {
        Ok(Inventory::Accessible(list)) => {
            observe(map, "files:list");
            let ghost before = map@;
            let shown: usize = count_shown(list.len());
            let mut i: usize = 0;
            assert(before.resources =~= before.resources + files_upto(list@, 0));
            while i < shown
                invariant
                    i <= shown <= list@.len(),
                    map@ == (OpenAiMapView {
                        resources: before.resources + files_upto(list@, i as int),
                        ..before
                    }),
                decreases shown - i,
            {
                push_view(
                    &mut map.resources,
                    ResourceExposure::new(
                        "file",
                        list[i].filename.as_str(),
                        one_text("file:metadata:read"),
                        Severity::Medium,
                        cat3(
                            "File visible to this API key (purpose: ",
                            file_purpose_to_str(list[i].purpose),
                            ")",
                        ).as_str(),
                    ),
                );
                i = i + 1;
                assert(map@.resources =~= before.resources + files_upto(list@, i as int));
            }
            note_truncation(map, list.len(), "File");
        },
        Ok(Inventory::Denied) => {},
        Err(error) => note_failure(map, "File", error.as_str()),
    }
}

/// The resource that stands for an assistant.
pub open spec fn assistant_exposure(assistant: OpenAiAssistant) -> ResourceExposureView {
    exposure(
        "assistant"@,
        text_or(assistant.name, assistant.id@),
        seq!["assistant:read"@],
        Severity::Low,
        "Assistant visible to this API key (model: "@ + assistant.model@ + ")"@,
    )
}

/// The resources that stand for the first `n` assistants.
pub open spec fn assistants_upto(list: Seq<OpenAiAssistant>, n: int) -> Seq<ResourceExposureView>
    decreases n,
{
    if n <= 0 {
        Seq::empty()
    } else {
        assistants_upto(list, n - 1).push(assistant_exposure(list[n - 1]))
    }
}

/// What is known of a key once its assistants were listed.
pub open spec fn after_assistants(
    map: OpenAiMapView,
    reply: Result<Inventory<OpenAiAssistant>, String>,
) -> OpenAiMapView {
    match reply {
        Ok(Inventory::Accessible(list)) => after_listing(
            map,
            "assistants:list"@,
            assistants_upto(list@, shown_count(list@.len())),
            list@.len() > MAX_OPENAI_SERVICE_RESOURCES,
            "Assistant"@,
        ),
        Ok(Inventory::Denied) => map,
        Err(error) => after_failure(map, "Assistant"@, error@),
    }
}

fn take_assistants(map: &mut OpenAiMap, reply: &Result<Inventory<OpenAiAssistant>, String>)
    ensures
        final(map)@ == after_assistants(old(map)@, *reply),
{
    match reply {
        Ok(Inventory::Accessible(list)) => {
            observe(map, "assistants:list");
            let ghost before = map@;
            let shown: usize = count_shown(list.len());
            let mut i: usize = 0;
            assert(before.resources =~= before.resources + assistants_upto(list@, 0));
            while i < shown
                invariant
                    i <= shown <= list@.len(),
                    map@ == (OpenAiMapView {
                        resources: before.resources + assistants_upto(list@, i as int),
                        ..before
                    }),
                decreases shown - i,
            {
                push_view(
                    &mut map.resources,
                    ResourceExposure::new(
                        "assistant",
                        unwrap_text(&list[i].name, list[i].id.as_str()).as_str(),
                        one_text("assistant:read"),
                        Severity::Low,
                        cat3(
                            "Assistant visible to this API key (model: ",
                            list[i].model.as_str(),
                            ")",
                        ).as_str(),
                    ),
                );
                i = i + 1;
                assert(map@.resources =~= before.resources + assistants_upto(list@, i as int));
            }
            note_truncation(map, list.len(), "Assistant");
        },
        Ok(Inventory::Denied) => {},
        Err(error) => note_failure(map, "Assistant", error.as_str()),
    }
}

/// The resource that stands for a fine-tuning job.
pub open spec fn job_exposure(job: OpenAiFineTuningJob) -> ResourceExposureView {
    exposure(
        "fine_tuning_job"@,
        text_or(job.fine_tuned_model, job.id@),
        seq!["fine_tuning_job:read"@],
        Severity::Medium,
        "Fine-tuning job visible to this API key (base model: "@ + job.model@ + ", status: "@
            + tuning_text(job.status) + ")"@,
    )
}

/// The resources that stand for the first `n` fine-tuning jobs.
pub open spec fn jobs_upto(list: Seq<OpenAiFineTuningJob>, n: int) -> Seq<ResourceExposureView>
    decreases n,
{
    if n <= 0 {
        Seq::empty()
    } else {
        jobs_upto(list, n - 1).push(job_exposure(list[n - 1]))
    }
}

/// What is known of a key once its fine-tuning jobs were listed.
pub open spec fn after_jobs(
    map: OpenAiMapView,
    reply: Result<Inventory<OpenAiFineTuningJob>, String>,
) -> OpenAiMapView {
    match reply {
        Ok(Inventory::Accessible(list)) => after_listing(
            map,
            "fine_tuning_jobs:list"@,
            jobs_upto(list@, shown_count(list@.len())),
            list@.len() > MAX_OPENAI_SERVICE_RESOURCES,
            "Fine-tuning"@,
        ),
        Ok(Inventory::Denied) => map,
        Err(error) => after_failure(map, "Fine-tuning job"@, error@),
    }
}

fn take_jobs(map: &mut OpenAiMap, reply: &Result<Inventory<OpenAiFineTuningJob>, String>)
    ensures
        final(map)@ == after_jobs(old(map)@, *reply),
{
    match reply {
        Ok(Inventory::Accessible(list)) => {
            observe(map, "fine_tuning_jobs:list");
            let ghost before = map@;
            let shown: usize = count_shown(list.len());
            let mut i: usize = 0;
            assert(before.resources =~= before.resources + jobs_upto(list@, 0));
            while i < shown
                invariant
                    i <= shown <= list@.len(),
                    map@ == (OpenAiMapView {
                        resources: before.resources + jobs_upto(list@, i as int),
                        ..before
                    }),
                decreases shown - i,
            {
                push_view(
                    &mut map.resources,
                    ResourceExposure::new(
                        "fine_tuning_job",
                        unwrap_text(&list[i].fine_tuned_model, list[i].id.as_str()).as_str(),
                        one_text("fine_tuning_job:read"),
                        Severity::Medium,
                        cat5(
                            "Fine-tuning job visible to this API key (base model: ",
                            list[i].model.as_str(),
                            ", status: ",
                            fine_tuning_status_to_str(list[i].status),
                            ")",
                        ).as_str(),
                    ),
                );
                i = i + 1;
                assert(map@.resources =~= before.resources + jobs_upto(list@, i as int));
            }
            note_truncation(map, list.len(), "Fine-tuning");
        },
        Ok(Inventory::Denied) => {},
        Err(error) => note_failure(map, "Fine-tuning job", error.as_str()),
    }
}

/// What is known of a key once all was listed.
pub open spec fn surveyed(replies: OpenAiReplies) -> OpenAiMapView {
    let start = OpenAiMapView {
        observed: Seq::empty(),
        permissions: empty_permission_summary(),
        resources: Seq::empty(),
        risk_notes: Seq::empty(),
    };
    after_jobs(
        after_assistants(
            after_files(
                after_models(after_projects(start, replies.projects), replies.models),
                replies.files,
            ),
            replies.assistants,
        ),
        replies.fine_tuning_jobs,
    )
}

fn survey(replies: &OpenAiReplies) -> (map: OpenAiMap)
    ensures
        map@ == surveyed(*replies),
{
    let mut map = OpenAiMap {
        observed: no_texts(),
        permissions: PermissionSummary::default(),
        resources: no_views(),
        risk_notes: no_texts(),
    };
    take_projects(&mut map, &replies.projects);
    take_models(&mut map, &replies.models);
    take_files(&mut map, &replies.files);
    take_assistants(&mut map, &replies.assistants);
    take_jobs(&mut map, &replies.fine_tuning_jobs);
    map
}

/// The resources of a key, or its account where it shows none.
pub open spec fn key_resources(kind: Seq<char>, found: Seq<ResourceExposureView>) -> Seq<
    ResourceExposureView,
> {
    if found.len() == 0 {
        seq![
            exposure(
                "account"@,
                "openai_"@ + kind,
                Seq::empty(),
                Severity::Low,
                "OpenAI account associated with this API key"@,
            ),
        ]
    } else {
        found
    }
}

/// What an OpenAI key gives access to.
pub open spec fn openai_result(token: Seq<char>, replies: OpenAiReplies) -> AccessMapResultView {
    let kind = token_kind(token);
    let map = surveyed(replies);
    let permissions = sorted_summary(map.permissions);
    let resources = key_resources(kind, map.resources);
    let severity = key_severity(permissions, resources);
    AccessMapResultView {
        cloud: "openai"@,
        fingerprint: None,
        identity: AccessSummaryView {
            id: "openai_"@ + kind,
            access_type: kind,
            project: None,
            tenant: None,
            account_id: None,
        },
        roles: seq![binding("token_type:"@ + kind, "openai"@, seq!["token:"@ + kind])],
        permissions,
        resources,
        severity,
        recommendations: recommendations(severity),
        risk_notes: if map.observed.len() == 0 {
            map.risk_notes.push(
                "No documented OpenAI list endpoint was accessible to this key"@,
            )
        } else {
            map.risk_notes
        },
        token_details: Some(
            AccessTokenDetailsView {
                account_type: Some("api_key"@),
                url: Some("https://platform.openai.com/"@),
                token_type: Some(kind),
                scopes: map.observed,
                ..empty_access_token_details()
            },
        ),
        provider_metadata: None,
        mapping_error: None,
    }
}

/// Maps an OpenAI key from what OpenAI answered to it.
pub fn map_access_from_token(token: &str, replies: &OpenAiReplies) -> (result: AccessMapResult)
    ensures
        result@ == openai_result(token@, *replies),
{
    let kind = detect_token_type(token);
    let mut map = survey(replies);
    let identity_id = cat2("openai_", kind);
    if map.resources.len() == 0 {
        push_view(
            &mut map.resources,
            ResourceExposure::new(
                "account",
                identity_id.as_str(),
                no_texts(),
                Severity::Low,
                "OpenAI account associated with this API key",
            ),
        );
    }
    assert(views(map.resources@) =~= key_resources(kind@, surveyed(*replies).resources));
    if map.observed.len() == 0 {
        push_text(
            &mut map.risk_notes,
            "No documented OpenAI list endpoint was accessible to this key".to_owned(),
        );
    }
    sort_permission_summary(&mut map.permissions);
    let severity = derive_severity(&map.permissions, &map.resources);
    let mut details = AccessTokenDetails::default();
    details.account_type = Some("api_key".to_owned());
    details.url = Some("https://platform.openai.com/".to_owned());
    details.token_type = Some(kind.to_owned());
    details.scopes = map.observed;
    AccessMapResult {
        cloud: "openai".to_owned(),
        fingerprint: None,
        identity: AccessSummary {
            id: identity_id,
            access_type: kind.to_owned(),
            project: None,
            tenant: None,
            account_id: None,
        },
        roles: one_view(
            RoleBinding::new(
                cat2("token_type:", kind).as_str(),
                "openai",
                one_text(cat2("token:", kind).as_str()),
            ),
        ),
        permissions: map.permissions,
        resources: map.resources,
        severity,
        recommendations: build_recommendations(severity),
        risk_notes: map.risk_notes,
        token_details: Some(details),
        provider_metadata: None,
        mapping_error: None,
    }
}

/// A key that administers an organization is graver than one that does not.
pub proof fn lemma_admin_keys_are_high(
    permissions: PermissionSummaryView,
    resources: Seq<ResourceExposureView>,
)
    ensures
        permissions.admin.len() > 0 <==> key_severity(permissions, resources) == Severity::High,
{
}

proof fn lemma_files_listed(list: Seq<OpenAiFile>, n: int)
    requires
        0 <= n <= list.len(),
    ensures
        files_upto(list, n).len() == n,
        forall|k: int| 0 <= k < n ==> #[trigger] files_upto(list, n)[k] == file_exposure(list[k]),
    decreases n,
{
    if n > 0 {
        lemma_files_listed(list, n - 1);
    }
}

proof fn lemma_jobs_listed(list: Seq<OpenAiFineTuningJob>, n: int)
    requires
        0 <= n <= list.len(),
    ensures
        jobs_upto(list, n).len() == n,
        forall|k: int| 0 <= k < n ==> #[trigger] jobs_upto(list, n)[k] == job_exposure(list[k]),
    decreases n,
{
    if n > 0 {
        lemma_jobs_listed(list, n - 1);
    }
}

proof fn lemma_models_listed(list: Seq<OpenAiModel>, n: int)
    requires
        0 <= n <= list.len(),
    ensures
        models_upto(list, n).len() == n,
        forall|k: int| 0 <= k < n ==> #[trigger] models_upto(list, n)[k] == model_exposure(list[k]),
    decreases n,
{
    if n > 0 {
        lemma_models_listed(list, n - 1);
    }
}

proof fn lemma_assistants_listed(list: Seq<OpenAiAssistant>, n: int)
    requires
        0 <= n <= list.len(),
    ensures
        assistants_upto(list, n).len() == n,
        forall|k: int| 0 <= k < n ==> #[trigger] assistants_upto(list, n)[k] == assistant_exposure(list[k]),
    decreases n,
{
    if n > 0 {
        lemma_assistants_listed(list, n - 1);
    }
}

/// Nothing that was known of a key is lost as more is listed.
pub open spec fn grown_map(before: OpenAiMapView, after: OpenAiMapView) -> bool {
    &&& before.resources.len() <= after.resources.len()
    &&& forall|i: int|
        0 <= i < before.resources.len() ==> #[trigger] after.resources[i] == before.resources[i]
    &&& before.permissions.read_only.len() <= after.permissions.read_only.len()
}

proof fn lemma_projects_grow(map: OpenAiMapView, projects: Seq<OpenAiProject>, n: int)
    requires
        0 <= n <= projects.len(),
    ensures
        grown_map(map, with_projects(map, projects, n)),
        map.permissions.admin.len() <= with_projects(map, projects, n).permissions.admin.len(),
        forall|k: int|
            0 <= k < n ==> #[trigger] with_projects(map, projects, n).resources.contains(
                project_exposure(projects[k]),
            ),
    decreases n,
{
    if n > 0 {
        lemma_projects_grow(map, projects, n - 1);
        let before = with_projects(map, projects, n - 1);
        let now = with_projects(map, projects, n);
        assert(now.resources[before.resources.len() as int] == project_exposure(projects[n - 1]));
        assert forall|k: int| 0 <= k < n implies #[trigger] now.resources.contains(
            project_exposure(projects[k]),
        ) by {
            if k < n - 1 {
                assert(before.resources.contains(project_exposure(projects[k])));
                let i = choose|i: int|
                    0 <= i < before.resources.len() && before.resources[i] == project_exposure(
                        projects[k],
                    );
                assert(now.resources[i] == before.resources[i]);
            }
        }
    }
}

proof fn lemma_models_grow(map: OpenAiMapView, reply: Result<Inventory<OpenAiModel>, String>, k: int)
    ensures
        grown_map(map, after_models(map, reply)),
        after_models(map, reply).permissions.admin == map.permissions.admin,
        match reply {
            Ok(Inventory::Accessible(list)) => {
                &&& after_models(map, reply).permissions.read_only.len() > 0
                &&& 0 <= k < list@.len() && k < MAX_OPENAI_SERVICE_RESOURCES ==> map.resources.len() + k
                    < after_models(map, reply).resources.len() && after_models(
                    map,
                    reply,
                ).resources[map.resources.len() + k] == model_exposure(list@[k])
            },
            _ => true,
        },
{
    match reply {
        Ok(Inventory::Accessible(list)) => {
            lemma_models_listed(list@, shown_count(list@.len()));
        },
        _ => {},
    }
}

proof fn lemma_files_grow(map: OpenAiMapView, reply: Result<Inventory<OpenAiFile>, String>, k: int)
    ensures
        grown_map(map, after_files(map, reply)),
        after_files(map, reply).permissions.admin == map.permissions.admin,
        match reply {
            Ok(Inventory::Accessible(list)) => {
                &&& after_files(map, reply).permissions.read_only.len() > 0
                &&& 0 <= k < list@.len() && k < MAX_OPENAI_SERVICE_RESOURCES ==> map.resources.len() + k
                    < after_files(map, reply).resources.len() && after_files(
                    map,
                    reply,
                ).resources[map.resources.len() + k] == file_exposure(list@[k])
            },
            _ => true,
        },
{
    match reply {
        Ok(Inventory::Accessible(list)) => {
            lemma_files_listed(list@, shown_count(list@.len()));
        },
        _ => {},
    }
}

proof fn lemma_assistants_grow(map: OpenAiMapView, reply: Result<Inventory<OpenAiAssistant>, String>, k: int)
    ensures
        grown_map(map, after_assistants(map, reply)),
        after_assistants(map, reply).permissions.admin == map.permissions.admin,
        match reply {
            Ok(Inventory::Accessible(list)) => {
                &&& after_assistants(map, reply).permissions.read_only.len() > 0
                &&& 0 <= k < list@.len() && k < MAX_OPENAI_SERVICE_RESOURCES ==> map.resources.len() + k
                    < after_assistants(map, reply).resources.len() && after_assistants(
                    map,
                    reply,
                ).resources[map.resources.len() + k] == assistant_exposure(list@[k])
            },
            _ => true,
        },
{
    match reply {
        Ok(Inventory::Accessible(list)) => {
            lemma_assistants_listed(list@, shown_count(list@.len()));
        },
        _ => {},
    }
}

proof fn lemma_jobs_grow(map: OpenAiMapView, reply: Result<Inventory<OpenAiFineTuningJob>, String>, k: int)
    ensures
        grown_map(map, after_jobs(map, reply)),
        after_jobs(map, reply).permissions.admin == map.permissions.admin,
        match reply {
            Ok(Inventory::Accessible(list)) => {
                &&& after_jobs(map, reply).permissions.read_only.len() > 0
                &&& 0 <= k < list@.len() && k < MAX_OPENAI_SERVICE_RESOURCES ==> map.resources.len() + k
                    < after_jobs(map, reply).resources.len() && after_jobs(
                    map,
                    reply,
                ).resources[map.resources.len() + k] == job_exposure(list@[k])
            },
            _ => true,
        },
{
    match reply {
        Ok(Inventory::Accessible(list)) => {
            lemma_jobs_listed(list@, shown_count(list@.len()));
        },
        _ => {},
    }
}

proof fn lemma_projects_found(map: OpenAiMapView, reply: Result<Inventory<OpenAiProject>, String>, k: int)
    requires
        map.permissions.admin.len() == 0,
    ensures
        match reply {
            Ok(Inventory::Accessible(list)) => {
                &&& after_projects(map, reply).permissions.admin.len() > 0
                &&& 0 <= k < list@.len() ==> after_projects(map, reply).resources.contains(
                    project_exposure(list@[k]),
                )
            },
            _ => after_projects(map, reply).permissions.admin.len() == 0,
        },
{
    match reply {
        Ok(Inventory::Accessible(list)) => {
            let opened = OpenAiMapView {
                observed: map.observed.push("organization_projects:list"@),
                permissions: filed(
                    map.permissions,
                    PermissionClass::Admin,
                    "organization_projects:list"@,
                ),
                ..map
            };
            lemma_projects_grow(opened, list@, list@.len() as int);
            lemma_filed(map.permissions, PermissionClass::Admin, "organization_projects:list"@);
            assert(class_list(opened.permissions, PermissionClass::Admin).contains(
                "organization_projects:list"@,
            ));
            assert(opened.permissions.admin.len() > 0);
        },
        _ => {},
    }
}

/// Whatever is listed of a key is kept in what is known of it at the end.
proof fn lemma_survey_keeps(replies: OpenAiReplies, k: int)
    ensures
        ({
            let map = surveyed(replies);
            &&& match replies.projects {
                Ok(Inventory::Accessible(list)) => map.permissions.admin.len() > 0 && (0 <= k
                    < list@.len() ==> map.resources.contains(project_exposure(list@[k]))),
                _ => map.permissions.admin.len() == 0,
            }
            &&& match replies.models {
                Ok(Inventory::Accessible(list)) => map.permissions.read_only.len() > 0 && (0 <= k
                    < list@.len() && k < MAX_OPENAI_SERVICE_RESOURCES ==> map.resources.contains(
                    model_exposure(list@[k]),
                )),
                _ => true,
            }
            &&& match replies.files {
                Ok(Inventory::Accessible(list)) => 0 <= k < list@.len() && k
                    < MAX_OPENAI_SERVICE_RESOURCES ==> map.resources.contains(file_exposure(list@[k])),
                _ => true,
            }
            &&& match replies.assistants {
                Ok(Inventory::Accessible(list)) => 0 <= k < list@.len() && k
                    < MAX_OPENAI_SERVICE_RESOURCES ==> map.resources.contains(
                    assistant_exposure(list@[k]),
                ),
                _ => true,
            }
            &&& match replies.fine_tuning_jobs {
                Ok(Inventory::Accessible(list)) => 0 <= k < list@.len() && k
                    < MAX_OPENAI_SERVICE_RESOURCES ==> map.resources.contains(job_exposure(list@[k])),
                _ => true,
            }
        }),
{
    let start = OpenAiMapView {
        observed: Seq::empty(),
        permissions: empty_permission_summary(),
        resources: Seq::empty(),
        risk_notes: Seq::empty(),
    };
    let one = after_projects(start, replies.projects);
    let two = after_models(one, replies.models);
    let three = after_files(two, replies.files);
    let four = after_assistants(three, replies.assistants);
    let five = after_jobs(four, replies.fine_tuning_jobs);
    assert(five == surveyed(replies));
    lemma_projects_found(start, replies.projects, k);
    lemma_models_grow(one, replies.models, k);
    lemma_files_grow(two, replies.files, k);
    lemma_assistants_grow(three, replies.assistants, k);
    lemma_jobs_grow(four, replies.fine_tuning_jobs, k);
    assert forall|found: ResourceExposureView| #[trigger]
        one.resources.contains(found) implies five.resources.contains(found) by {
        let i = choose|i: int| 0 <= i < one.resources.len() && one.resources[i] == found;
        assert(two.resources[i] == found && three.resources[i] == found);
        assert(four.resources[i] == found && five.resources[i] == found);
    }
    assert forall|i: int| 0 <= i < two.resources.len() implies #[trigger] five.resources[i]
        == two.resources[i] by {
        assert(three.resources[i] == two.resources[i] && four.resources[i] == three.resources[i]);
    }
    assert forall|i: int| 0 <= i < three.resources.len() implies #[trigger] five.resources[i]
        == three.resources[i] by {
        assert(four.resources[i] == three.resources[i]);
    }
    match replies.models {
        Ok(Inventory::Accessible(list)) => {
            if 0 <= k < list@.len() && k < MAX_OPENAI_SERVICE_RESOURCES {
                assert(five.resources[one.resources.len() + k] == model_exposure(list@[k]));
            }
        },
        _ => {},
    }
    match replies.files {
        Ok(Inventory::Accessible(list)) => {
            if 0 <= k < list@.len() && k < MAX_OPENAI_SERVICE_RESOURCES {
                assert(five.resources[two.resources.len() + k] == file_exposure(list@[k]));
            }
        },
        _ => {},
    }
    match replies.assistants {
        Ok(Inventory::Accessible(list)) => {
            if 0 <= k < list@.len() && k < MAX_OPENAI_SERVICE_RESOURCES {
                assert(five.resources[three.resources.len() + k] == assistant_exposure(list@[k]));
            }
        },
        _ => {},
    }
    match replies.fine_tuning_jobs {
        Ok(Inventory::Accessible(list)) => {
            if 0 <= k < list@.len() && k < MAX_OPENAI_SERVICE_RESOURCES {
                assert(five.resources[four.resources.len() + k] == job_exposure(list@[k]));
            }
        },
        _ => {},
    }
}

/// Whether something of the type is among what is exposed, under the name.
pub open spec fn exposes(
    resources: Seq<ResourceExposureView>,
    resource_type: Seq<char>,
    name: Seq<char>,
) -> bool {
    exists|i: int|
        0 <= i < resources.len() && (#[trigger] resources[i]).resource_type == resource_type
            && resources[i].name == name
}

/// What a key reaches is reported: each project, and each model, file, assistant and fine-tuned model
/// among the first fifty of its kind, by its name.
pub proof fn lemma_reach_is_reported(token: Seq<char>, replies: OpenAiReplies, k: int)
    ensures
        ({
            let resources = openai_result(token, replies).resources;
            &&& match replies.projects {
                Ok(Inventory::Accessible(list)) => 0 <= k < list@.len() ==> resources.contains(
                    project_exposure(list@[k]),
                ),
                _ => true,
            }
            &&& match replies.models {
                Ok(Inventory::Accessible(list)) => 0 <= k < list@.len() && k < 50 ==> exposes(
                    resources,
                    "model"@,
                    list@[k].id@,
                ),
                _ => true,
            }
            &&& match replies.files {
                Ok(Inventory::Accessible(list)) => 0 <= k < list@.len() && k < 50 ==> exposes(
                    resources,
                    "file"@,
                    list@[k].filename@,
                ),
                _ => true,
            }
            &&& match replies.fine_tuning_jobs {
                Ok(Inventory::Accessible(list)) => 0 <= k < list@.len() && k < 50
                    && list@[k].fine_tuned_model is Some ==> exposes(
                    resources,
                    "fine_tuning_job"@,
                    list@[k].fine_tuned_model->0@,
                ),
                _ => true,
            }
        }),
{
    let map = surveyed(replies);
    lemma_survey_keeps(replies, k);
    match replies.models {
        Ok(Inventory::Accessible(list)) => {
            if 0 <= k < list@.len() && k < 50 {
                let i = choose|i: int|
                    0 <= i < map.resources.len() && map.resources[i] == model_exposure(list@[k]);
                assert(openai_result(token, replies).resources[i] == model_exposure(list@[k]));
            }
        },
        _ => {},
    }
    match replies.files {
        Ok(Inventory::Accessible(list)) => {
            if 0 <= k < list@.len() && k < 50 {
                let i = choose|i: int|
                    0 <= i < map.resources.len() && map.resources[i] == file_exposure(list@[k]);
                assert(openai_result(token, replies).resources[i] == file_exposure(list@[k]));
            }
        },
        _ => {},
    }
    match replies.fine_tuning_jobs {
        Ok(Inventory::Accessible(list)) => {
            if 0 <= k < list@.len() && k < 50 {
                let i = choose|i: int|
                    0 <= i < map.resources.len() && map.resources[i] == job_exposure(list@[k]);
                assert(openai_result(token, replies).resources[i] == job_exposure(list@[k]));
            }
        },
        _ => {},
    }
}

/// What a key reaches decides: one that can list the projects of its organization is high, and no other
/// is; one that can see any file or fine-tuning job is medium at least. What a key is shows in how it
/// begins.
pub proof fn lemma_reach_decides(token: Seq<char>, replies: OpenAiReplies)
    ensures
        ({
            let result = openai_result(token, replies);
            &&& match replies.projects {
                Ok(Inventory::Accessible(_)) => result.severity == Severity::High
                    && result.permissions.admin.len() > 0,
                _ => result.severity != Severity::High,
            }
            &&& match replies.files {
                Ok(Inventory::Accessible(list)) => list@.len() > 0 ==> result.severity != Severity::Low,
                _ => true,
            }
            &&& match replies.fine_tuning_jobs {
                Ok(Inventory::Accessible(list)) => list@.len() > 0 ==> result.severity != Severity::Low,
                _ => true,
            }
            &&& result.severity != Severity::Critical
            &&& begins(token, "sk-proj-"@) ==> result.identity.access_type == "project_api_key"@
            &&& begins(token, "sk-svcacct-"@) && !begins(token, "sk-proj-"@)
                ==> result.identity.access_type == "service_account_api_key"@
        }),
{
    let map = surveyed(replies);
    let result = openai_result(token, replies);
    lemma_survey_keeps(replies, 0);
    lemma_sorted_classes_stay_filled(map.permissions, PermissionClass::Admin);
    assert(class_list(map.permissions, PermissionClass::Admin) == map.permissions.admin);
    assert(class_list(result.permissions, PermissionClass::Admin) == result.permissions.admin);
    match replies.files {
        Ok(Inventory::Accessible(list)) => {
            if list@.len() > 0 {
                let i = choose|i: int|
                    0 <= i < map.resources.len() && map.resources[i] == file_exposure(list@[0]);
                assert(is_sensitive(result.resources[i]));
            }
        },
        _ => {},
    }
    match replies.fine_tuning_jobs {
        Ok(Inventory::Accessible(list)) => {
            if list@.len() > 0 {
                let i = choose|i: int|
                    0 <= i < map.resources.len() && map.resources[i] == job_exposure(list@[0]);
                assert(is_sensitive(result.resources[i]));
            }
        },
        _ => {},
    }
}

/// A listing that failed is told, and takes nothing away.
pub proof fn lemma_failures_are_told(map: OpenAiMapView, what: Seq<char>, error: Seq<char>)
    ensures
        after_failure(map, what, error).risk_notes.contains(what + " enumeration failed: "@ + error),
        after_failure(map, what, error).resources == map.resources,
        after_failure(map, what, error).permissions == map.permissions,
{
    assert(after_failure(map, what, error).risk_notes[map.risk_notes.len() as int] == what
        + " enumeration failed: "@ + error);
}

/// A key that is allowed no listing at all has no scopes, which is told; a key that may list fine-tuning jobs,
/// even where there are none, has some, and nothing of the kind is told.
pub proof fn lemma_allowed_listings_are_told(token: Seq<char>, replies: OpenAiReplies)
    ensures
        ({
            let result = openai_result(token, replies);
            let scopes = result.token_details->0.scopes;
            let told = result.risk_notes.len() > 0 && result.risk_notes.last()
                == "No documented OpenAI list endpoint was accessible to this key"@;
            &&& result.token_details is Some
            &&& scopes.len() == 0 ==> told
            &&& replies.fine_tuning_jobs is Ok && replies.fine_tuning_jobs->Ok_0 is Accessible
                ==> scopes.len() > 0 && result.risk_notes == surveyed(replies).risk_notes
        }),
{
}

} // verus!
