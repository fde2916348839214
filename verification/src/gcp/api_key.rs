//! Google API keys, mapped with a small, fixed set of read-only API probes.

use vstd::prelude::*;
use crate::json::{
    field, field_in, held, is_array, parse_json_bytes, parsed_json_bytes, text_of, Json,
};
use crate::keyed::{no_pairs, put, put_pair};
use crate::model::{
    empty_access_token_details, empty_authorization_evidence, empty_permission_summary,
    empty_provider_metadata, exposure, no_views, one_view, pairs, push_view, result_view,
    severity_text, views, AccessMapResult, AccessMapResultView, AccessProbeEvidence,
    AccessProbeEvidenceView, AccessSummary, AccessSummaryView, AccessTokenDetails,
    AccessTokenDetailsView, AuthorizationEvidence, AuthorizationEvidenceView, HierarchyScope,
    HierarchyScopeView, PermissionSummary, PermissionSummaryView, PrincipalEvidence,
    PrincipalEvidenceView, ProviderMetadata, ProviderMetadataView, ResourceExposure,
    ResourceExposureView, Severity,
};
use crate::order::{is_less, text_less};
use crate::text::{
    after_prefix, ascii_lower, cat2, cat3, cat5, contains, copy_opt, decimal, either, holds,
    no_texts, one_text, opt_text, or_text, push_text, str_eq, strip_prefix, texts,
    to_ascii_lowercase, trim, trimmed, usize_text,
};

verus! {

pub const MAX_RESPONSE_BODY: usize = 65_536;

/// How a probe carries the key.
#[derive(Clone, Copy, Debug, PartialEq, Eq, Structural)]
pub enum ApiKeyProbeAuth {
    QueryParameter,
    Header,
}

/// One read-only method that is tried with the key.
#[derive(Clone, Copy, Debug)]
pub struct ApiKeyProbe {
    pub service: &'static str,
    pub method: &'static str,
    pub url: &'static str,
    pub auth: ApiKeyProbeAuth,
    pub risk: Severity,
}

/// The probes, in the order in which they are sent.
pub fn probes() -> (list: Vec<ApiKeyProbe>)
    ensures
        list@.len() == 4,
        list@[0].service@ == "identitytoolkit.googleapis.com"@,
        list@[0].method@ == "identitytoolkit.getProjectConfig"@,
        list@[0].url@ == "https://www.googleapis.com/identitytoolkit/v3/relyingparty/getProjectConfig"@,
        list@[0].auth == ApiKeyProbeAuth::QueryParameter,
        list@[0].risk == Severity::Medium,
        list@[1].service@ == "generativelanguage.googleapis.com"@,
        list@[1].method@ == "generativelanguage.models.list"@,
        list@[1].url@ == "https://generativelanguage.googleapis.com/v1beta/models?pageSize=1"@,
        list@[1].auth == ApiKeyProbeAuth::Header,
        list@[1].risk == Severity::Low,
        list@[2].service@ == "translate.googleapis.com"@,
        list@[2].method@ == "language.languages.list"@,
        list@[2].url@ == "https://translation.googleapis.com/language/translate/v2/languages"@,
        list@[2].auth == ApiKeyProbeAuth::Header,
        list@[2].risk == Severity::Low,
        list@[3].service@ == "youtube.googleapis.com"@,
        list@[3].method@ == "youtube.i18nLanguages.list"@,
        list@[3].url@ == "https://www.googleapis.com/youtube/v3/i18nLanguages?part=snippet&hl=en_US"@,
        list@[3].auth == ApiKeyProbeAuth::Header,
        list@[3].risk == Severity::Low,
{
    let mut list: Vec<ApiKeyProbe> = Vec::new();
    list.push(
        ApiKeyProbe {
            service: "identitytoolkit.googleapis.com",
            method: "identitytoolkit.getProjectConfig",
            url: "https://www.googleapis.com/identitytoolkit/v3/relyingparty/getProjectConfig",
            auth: ApiKeyProbeAuth::QueryParameter,
            risk: Severity::Medium,
        },
    );
    list.push(
        ApiKeyProbe {
            service: "generativelanguage.googleapis.com",
            method: "generativelanguage.models.list",
            url: "https://generativelanguage.googleapis.com/v1beta/models?pageSize=1",
            auth: ApiKeyProbeAuth::Header,
            risk: Severity::Low,
        },
    );
    list.push(
        ApiKeyProbe {
            service: "translate.googleapis.com",
            method: "language.languages.list",
            url: "https://translation.googleapis.com/language/translate/v2/languages",
            auth: ApiKeyProbeAuth::Header,
            risk: Severity::Low,
        },
    );
    list.push(
        ApiKeyProbe {
            service: "youtube.googleapis.com",
            method: "youtube.i18nLanguages.list",
            url: "https://www.googleapis.com/youtube/v3/i18nLanguages?part=snippet&hl=en_US",
            auth: ApiKeyProbeAuth::Header,
            risk: Severity::Low,
        },
    );
    list
}

/// What came of a probe.
#[derive(Clone, Copy, Debug, PartialEq, Eq, Structural)]
pub enum ProbeStatus {
    Accepted,
    Restricted,
    Invalid,
    Inconclusive,
}

/// How what came of a probe is written.
pub open spec fn status_text(status: ProbeStatus) -> Seq<char> {
    match status {
        ProbeStatus::Accepted => "accepted"@,
        ProbeStatus::Restricted => "restricted"@,
        ProbeStatus::Invalid => "invalid"@,
        ProbeStatus::Inconclusive => "inconclusive"@,
    }
}

impl ProbeStatus {
    pub fn as_str(self) -> (s: &'static str)
        ensures
            s@ == status_text(self),
    {
        match self {
            ProbeStatus::Accepted => "accepted",
            ProbeStatus::Restricted => "restricted",
            ProbeStatus::Invalid => "invalid",
            ProbeStatus::Inconclusive => "inconclusive",
        }
    }
}

/// A probe and what came of it.
#[derive(Debug)]
pub struct ProbeResult {
    pub probe: ApiKeyProbe,
    pub status: ProbeStatus,
    pub http_status: Option<u16>,
    pub reason: Option<String>,
    pub project: Option<String>,
}

/// What a `ProbeResult` says.
#[verifier::ext_equal]
pub struct ProbeResultView {
    pub service: Seq<char>,
    pub method: Seq<char>,
    pub url: Seq<char>,
    pub auth: ApiKeyProbeAuth,
    pub risk: Severity,
    pub status: ProbeStatus,
    pub http_status: Option<u16>,
    pub reason: Option<Seq<char>>,
    pub project: Option<Seq<char>>,
}

impl View for ProbeResult {
    type V = ProbeResultView;

    open spec fn view(&self) -> ProbeResultView {
        ProbeResultView {
            service: self.probe.service@,
            method: self.probe.method@,
            url: self.probe.url@,
            auth: self.probe.auth,
            risk: self.probe.risk,
            status: self.status,
            http_status: self.http_status,
            reason: opt_text(self.reason),
            project: opt_text(self.project),
        }
    }
}

/// A key that is nothing but white space is not tried.
pub fn check_api_key(api_key: &str) -> (outcome: Result<(), String>)
    ensures
        match outcome {
            Ok(_) => trimmed(api_key@).len() > 0,
            Err(error) => trimmed(api_key@).len() == 0 && error@ == "Google API key cannot be empty"@,
        },
{
    if trim(api_key).as_str().is_empty() {
        Err("Google API key cannot be empty".to_owned())
    } else {
        Ok(())
    }
}

/// Why a request got no response.
pub fn transport_reason(is_timeout: bool, is_connect: bool, is_body: bool, is_decode: bool) -> (reason: &'static str)
    ensures
        reason@ == if is_timeout {
            "timeout"@
        } else if is_connect {
            "connection_error"@
        } else if is_body || is_decode {
            "response_error"@
        } else {
            "request_error"@
        },
{
    if is_timeout {
        "timeout"
    } else if is_connect {
        "connection_error"
    } else if is_body || is_decode {
        "response_error"
    } else {
        "request_error"
    }
}

/// A probe that got no response.
pub fn unanswered_probe(probe: ApiKeyProbe, reason: &str) -> (result: ProbeResult)
    ensures
        result.probe == probe,
        result.status == ProbeStatus::Inconclusive,
        result.http_status is None,
        opt_text(result.reason) == Some(reason@),
        result.project is None,
{
    ProbeResult {
        probe,
        status: ProbeStatus::Inconclusive,
        http_status: None,
        reason: Some(reason.to_owned()),
        project: None,
    }
}

/// Takes one more piece of a response body, as far as the limit allows, and says whether the next
/// piece is wanted.
pub fn read_limited_body(body: &mut Vec<u8>, chunk: &[u8]) -> (more: bool)
    ensures
        more == (old(body)@.len() < MAX_RESPONSE_BODY),
        more ==> final(body)@ == (old(body)@ + chunk@).take(
            if old(body)@.len() + chunk@.len() < MAX_RESPONSE_BODY {
                (old(body)@.len() + chunk@.len()) as int
            } else {
                MAX_RESPONSE_BODY as int
            },
        ),
        !more ==> final(body)@ == old(body)@,
{
    if body.len() >= MAX_RESPONSE_BODY {
        return false;
    }
    let ghost before = body@;
    let room: usize = MAX_RESPONSE_BODY - body.len();
    let count: usize = if chunk.len() < room {
        chunk.len()
    } else {
        room
    };
    let mut i: usize = 0;
    while i < count
        invariant
            i <= count <= chunk@.len(),
            body@ == before + chunk@.take(i as int),
        decreases count - i,
    {
        body.push(chunk[i]);
        i = i + 1;
        assert(body@ =~= before + chunk@.take(i as int));
    }
    assert(body@ =~= (before + chunk@).take(before.len() + count));
    true
}

/// Whether a response is the one that a method gives.
pub open spec fn confirms(method: Seq<char>, value: Json) -> bool {
    if method == "identitytoolkit.getProjectConfig"@ {
        text_of(field(value, "projectId"@)) is Some
    } else if method == "generativelanguage.models.list"@ {
        is_array(field(value, "models"@))
    } else if method == "language.languages.list"@ {
        is_array(field_in(value, "data"@, "languages"@))
    } else if method == "youtube.i18nLanguages.list"@ {
        text_of(field(value, "kind"@)) == Some("youtube#i18nLanguageListResponse"@) && is_array(
            field(value, "items"@),
        )
    } else {
        false
    }
}

pub fn response_confirms_probe(probe: &ApiKeyProbe, value: &Json) -> (yes: bool)
    ensures
        yes == confirms(probe.method@, *value),
{
    if str_eq(probe.method, "identitytoolkit.getProjectConfig") {
        value.text_at("projectId").is_some()
    } else if str_eq(probe.method, "generativelanguage.models.list") {
        value.has_array("models")
    } else if str_eq(probe.method, "language.languages.list") {
        match value.get_in("data", "languages") {
            Some(Json::Array(_)) => true,
            _ => false,
        }
    } else if str_eq(probe.method, "youtube.i18nLanguages.list") {
        let kind: bool = match value.text_at("kind") {
            Some(s) => str_eq(s.as_str(), "youtube#i18nLanguageListResponse"),
            None => false,
        };
        kind && value.has_array("items")
    } else {
        false
    }
}

/// The first reason among the details of an error, from the `i`-th on.
pub open spec fn detail_reason(details: Seq<Json>, i: int) -> Option<Seq<char>>
    decreases details.len() - i,
{
    if i < 0 || i >= details.len() {
        None
    } else {
        match text_of(field(details[i], "reason"@)) {
            Some(reason) => Some(reason),
            None => detail_reason(details, i + 1),
        }
    }
}

/// The details of an error.
pub open spec fn error_details(value: Json) -> Seq<Json> {
    match field_in(value, "error"@, "details"@) {
        Some(Json::Array(details)) => details@,
        _ => Seq::empty(),
    }
}

/// Why Google refused a request: the first reason in the details, or what the message and the
/// status of the error say.
pub open spec fn error_reason(value: Json) -> Option<Seq<char>> {
    match detail_reason(error_details(value), 0) {
        Some(reason) => Some(reason),
        None => match field(value, "error"@) {
            None => None,
            Some(error) => match text_of(field(error, "message"@)) {
                Some(message) => if holds(ascii_lower(message), "api key not valid"@) {
                    Some("API_KEY_INVALID"@)
                } else {
                    text_of(field(error, "status"@))
                },
                None => text_of(field(error, "status"@)),
            },
        },
    }
}

fn find_detail_reason(details: &Vec<Json>) -> (reason: Option<String>)
    ensures
        opt_text(reason) == detail_reason(details@, 0),
{
    let mut i: usize = 0;
    while i < details.len()
        invariant
            i <= details@.len(),
            detail_reason(details@, 0) == detail_reason(details@, i as int),
        decreases details@.len() - i,
    {
        match details[i].text_at("reason") {
            Some(reason) => {
                return Some(reason);
            },
            None => {},
        }
        i = i + 1;
    }
    None
}

pub fn google_error_reason(value: &Json) -> (reason: Option<String>)
    ensures
        opt_text(reason) == error_reason(*value),
{
    match value.get_in("error", "details") {
        Some(Json::Array(details)) => {
            match find_detail_reason(details) {
                Some(reason) => {
                    return Some(reason);
                },
                None => {},
            }
        },
        _ => {
            assert(detail_reason(error_details(*value), 0) is None);
        },
    }
    match value.get("error") {
        None => None,
        Some(error) => {
            match error.text_at("message") {
                Some(message) => {
                    if contains(
                        to_ascii_lowercase(message.as_str()).as_str(),
                        "api key not valid",
                    ) {
                        return Some("API_KEY_INVALID".to_owned());
                    }
                },
                None => {},
            }
            error.text_at("status")
        },
    }
}

/// The project of the first consumer among the details of an error, from the `i`-th on.
pub open spec fn consumer_project(details: Seq<Json>, i: int) -> Option<Seq<char>>
    decreases details.len() - i,
{
    if i < 0 || i >= details.len() {
        None
    } else {
        let named = match text_of(field_in(details[i], "metadata"@, "consumer"@)) {
            Some(consumer) => after_prefix(consumer, "projects/"@),
            None => None,
        };
        match named {
            Some(project) => Some(project),
            None => consumer_project(details, i + 1),
        }
    }
}

/// The project that a response names.
pub open spec fn response_project(value: Json) -> Option<Seq<char>> {
    match text_of(field(value, "projectId"@)) {
        Some(project) => Some(project),
        None => consumer_project(error_details(value), 0),
    }
}

fn find_consumer_project(details: &Vec<Json>) -> (project: Option<String>)
    ensures
        opt_text(project) == consumer_project(details@, 0),
{
    let mut i: usize = 0;
    while i < details.len()
        invariant
            i <= details@.len(),
            consumer_project(details@, 0) == consumer_project(details@, i as int),
        decreases details@.len() - i,
    {
        match details[i].get_in("metadata", "consumer") {
            Some(Json::Text(consumer)) => {
                match strip_prefix(consumer.as_str(), "projects/") {
                    Some(project) => {
                        return Some(project);
                    },
                    None => {},
                }
            },
            _ => {},
        }
        i = i + 1;
    }
    None
}

pub fn extract_project(value: &Json) -> (project: Option<String>)
    ensures
        opt_text(project) == response_project(*value),
{
    match value.text_at("projectId") {
        Some(project) => Some(project),
        None => match value.get_in("error", "details") {
            Some(Json::Array(details)) => find_consumer_project(details),
            _ => {
                assert(consumer_project(error_details(*value), 0) is None);
                None
            },
        },
    }
}

/// Whether an HTTP status is one of redirection.
pub open spec fn is_redirect(http_status: u16) -> bool {
    300 <= http_status < 400
}

/// Whether a reason says that the key is no key.
pub open spec fn is_invalid_reason(reason: Seq<char>) -> bool {
    reason == "API_KEY_INVALID"@ || reason == "API_KEY_EXPIRED"@ || reason == "CONSUMER_INVALID"@
        || reason == "INVALID_ARGUMENT"@
}

/// Whether a reason says that the key is one, but not for this use.
pub open spec fn is_restricted_reason(reason: Seq<char>) -> bool {
    reason == "API_KEY_SERVICE_BLOCKED"@ || reason == "API_KEY_HTTP_REFERRER_BLOCKED"@ || reason
        == "API_KEY_IP_ADDRESS_BLOCKED"@ || reason == "API_KEY_ANDROID_APP_BLOCKED"@ || reason
        == "API_KEY_IOS_APP_BLOCKED"@ || reason == "SERVICE_DISABLED"@ || reason
        == "BILLING_DISABLED"@
}

/// What an answer other than one of success says of the key. A redirect says nothing of it,
/// whatever reason comes with it. Any reason that comes with status 403 shows that the key was
/// recognized.
pub open spec fn refusal_status(http_status: u16, reason: Option<Seq<char>>) -> ProbeStatus {
    if is_redirect(http_status) {
        ProbeStatus::Inconclusive
    } else {
        match reason {
            Some(r) => if is_invalid_reason(r) {
                ProbeStatus::Invalid
            } else if is_restricted_reason(r) || http_status == 403 {
                ProbeStatus::Restricted
            } else {
                ProbeStatus::Inconclusive
            },
            None => ProbeStatus::Inconclusive,
        }
    }
}

fn status_of_refusal(http_status: u16, reason: &Option<String>) -> (status: ProbeStatus)
    ensures
        status == refusal_status(http_status, opt_text(*reason)),
{
    if 300 <= http_status && http_status < 400 {
        return ProbeStatus::Inconclusive;
    }
    match reason {
        Some(text) => {
            let r = text.as_str();
            if str_eq(r, "API_KEY_INVALID") || str_eq(r, "API_KEY_EXPIRED") || str_eq(
                r,
                "CONSUMER_INVALID",
            ) || str_eq(r, "INVALID_ARGUMENT") {
                ProbeStatus::Invalid
            } else if str_eq(r, "API_KEY_SERVICE_BLOCKED") || str_eq(
                r,
                "API_KEY_HTTP_REFERRER_BLOCKED",
            ) || str_eq(r, "API_KEY_IP_ADDRESS_BLOCKED") || str_eq(
                r,
                "API_KEY_ANDROID_APP_BLOCKED",
            ) || str_eq(r, "API_KEY_IOS_APP_BLOCKED") || str_eq(r, "SERVICE_DISABLED") || str_eq(
                r,
                "BILLING_DISABLED",
            ) || http_status == 403 {
                ProbeStatus::Restricted
            } else {
                ProbeStatus::Inconclusive
            }
        },
        None => ProbeStatus::Inconclusive,
    }
}

/// Whether an HTTP status is one of success.
pub open spec fn is_success(http_status: u16) -> bool {
    200 <= http_status < 300
}

/// What a response to a probe says of the key.
pub open spec fn classified_response(probe: ApiKeyProbe, http_status: u16, parsed: Option<Json>) -> ProbeResultView {
    let project = match parsed {
        Some(value) => response_project(value),
        None => None,
    };
    let reason = if is_success(http_status) {
        if parsed matches Some(value) && confirms(probe.method@, value) {
            None
        } else {
            Some("unexpected_response"@)
        }
    } else {
        match parsed {
            Some(value) => error_reason(value),
            None => None,
        }
    };
    ProbeResultView {
        service: probe.service@,
        method: probe.method@,
        url: probe.url@,
        auth: probe.auth,
        risk: probe.risk,
        status: if is_success(http_status) {
            if reason is None {
                ProbeStatus::Accepted
            } else {
                ProbeStatus::Inconclusive
            }
        } else {
            refusal_status(http_status, reason)
        },
        http_status: Some(http_status),
        reason,
        project,
    }
}

pub fn classify_parsed_response(probe: ApiKeyProbe, http_status: u16, parsed: Option<&Json>) -> (result: ProbeResult)
    ensures
        result.probe == probe,
        result@ == classified_response(probe, http_status, held(parsed)),
{
    let project: Option<String> = match parsed {
        Some(value) => extract_project(value),
        None => None,
    };
    if 200 <= http_status && http_status < 300 {
        let confirmed: bool = match parsed {
            Some(value) => response_confirms_probe(&probe, value),
            None => false,
        };
        if !confirmed {
            return ProbeResult {
                probe,
                status: ProbeStatus::Inconclusive,
                http_status: Some(http_status),
                reason: Some("unexpected_response".to_owned()),
                project,
            };
        }
        return ProbeResult {
            probe,
            status: ProbeStatus::Accepted,
            http_status: Some(http_status),
            reason: None,
            project,
        };
    }
    let reason: Option<String> = match parsed {
        Some(value) => google_error_reason(value),
        None => None,
    };
    let status = status_of_refusal(http_status, &reason);
    ProbeResult { probe, status, http_status: Some(http_status), reason, project }
}

/// A redirect never settles whether the key is good: such an answer is inconclusive, whatever its
/// body says.
pub proof fn lemma_redirects_are_inconclusive(probe: ApiKeyProbe, http_status: u16, parsed: Option<Json>)
    requires
        is_redirect(http_status),
    ensures
        classified_response(probe, http_status, parsed).status == ProbeStatus::Inconclusive,
{
}

/// The value that a result holds.
pub open spec fn ok_value(result: Result<Json, Seq<char>>) -> Option<Json> {
    match result {
        Ok(value) => Some(value),
        Err(_) => None,
    }
}

pub fn classify_response(probe: ApiKeyProbe, http_status: u16, body: &[u8]) -> (result: ProbeResult)
    ensures
        result.probe == probe,
        result@ == classified_response(probe, http_status, ok_value(parsed_json_bytes(body@))),
{
    match parse_json_bytes(body) {
        Ok(value) => classify_parsed_response(probe, http_status, Some(&value)),
        Err(_) => classify_parsed_response(probe, http_status, None),
    }
}

/// How many of the first `n` results have a status.
pub open spec fn status_count(results: Seq<ProbeResultView>, status: ProbeStatus, n: int) -> nat
    decreases n,
{
    if n <= 0 {
        0
    } else {
        status_count(results, status, n - 1) + if results[n - 1].status == status {
            1nat
        } else {
            0nat
        }
    }
}

fn count_status(results: &Vec<ProbeResult>, status: ProbeStatus) -> (count: usize)
    ensures
        count == status_count(views(results@), status, results@.len() as int),
        count <= results@.len(),
{
    let mut count: usize = 0;
    let mut i: usize = 0;
    while i < results.len()
        invariant
            i <= results@.len(),
            count <= i,
            count == status_count(views(results@), status, i as int),
        decreases results@.len() - i,
    {
        assert(views(results@)[i as int] == results@[i as int]@);
        if results[i].status == status {
            count = count + 1;
        }
        i = i + 1;
    }
    count
}

/// The first project that an accepted probe, or where `any` holds any probe, names from the
/// `i`-th on.
pub open spec fn first_project(results: Seq<ProbeResultView>, any: bool, i: int) -> Option<Seq<char>>
    decreases results.len() - i,
{
    if i < 0 || i >= results.len() {
        None
    } else if (any || results[i].status == ProbeStatus::Accepted) && results[i].project is Some {
        results[i].project
    } else {
        first_project(results, any, i + 1)
    }
}

fn find_project(results: &Vec<ProbeResult>, any: bool) -> (project: Option<String>)
    ensures
        opt_text(project) == first_project(views(results@), any, 0),
{
    let mut i: usize = 0;
    while i < results.len()
        invariant
            i <= results@.len(),
            first_project(views(results@), any, 0) == first_project(views(results@), any, i as int),
        decreases results@.len() - i,
    {
        assert(views(results@)[i as int] == results@[i as int]@);
        if (any || results[i].status == ProbeStatus::Accepted) && results[i].project.is_some() {
            return copy_opt(&results[i].project);
        }
        i = i + 1;
    }
    None
}

/// The methods that the first `n` probes were accepted for.
pub open spec fn accepted_methods(results: Seq<ProbeResultView>, n: int) -> Seq<Seq<char>>
    decreases n,
{
    if n <= 0 {
        Seq::empty()
    } else if results[n - 1].status == ProbeStatus::Accepted {
        accepted_methods(results, n - 1).push(results[n - 1].method)
    } else {
        accepted_methods(results, n - 1)
    }
}

/// The service of an accepted probe as a resource.
pub open spec fn probe_exposure(result: ProbeResultView) -> ResourceExposureView {
    exposure(
        "google_api_service"@,
        result.service,
        seq![result.method],
        result.risk,
        "The Google API key was accepted by the read-only "@ + result.method
            + " probe; no broader access was inferred"@,
    )
}

/// The services that accepted the first `n` probes.
pub open spec fn accepted_resources(results: Seq<ProbeResultView>, n: int) -> Seq<ResourceExposureView>
    decreases n,
{
    if n <= 0 {
        Seq::empty()
    } else if results[n - 1].status == ProbeStatus::Accepted {
        accepted_resources(results, n - 1).push(probe_exposure(results[n - 1]))
    } else {
        accepted_resources(results, n - 1)
    }
}

/// A probe as evidence.
pub open spec fn probe_evidence(result: ProbeResultView) -> AccessProbeEvidenceView {
    AccessProbeEvidenceView {
        service: result.service,
        method: result.method,
        status: status_text(result.status),
        http_status: result.http_status,
        reason: result.reason,
    }
}

/// How a probe that was not accepted is noted.
pub open spec fn probe_note(result: ProbeResultView) -> Seq<char> {
    result.service + " ("@ + result.method + ") was "@ + status_text(result.status) + match result.reason {
        Some(reason) => " ["@ + reason + "]"@,
        None => Seq::empty(),
    }
}

/// The notes on those of the first `n` probes that were not accepted, after `start`.
pub open spec fn probe_notes(start: Seq<Seq<char>>, results: Seq<ProbeResultView>, n: int) -> Seq<Seq<char>>
    decreases n,
{
    if n <= 0 {
        start
    } else if results[n - 1].status == ProbeStatus::Accepted {
        probe_notes(start, results, n - 1)
    } else {
        probe_notes(start, results, n - 1).push(probe_note(results[n - 1]))
    }
}

/// The project that a mapping goes by: one that an accepted probe named, or else any.
pub open spec fn mapped_project(results: Seq<ProbeResultView>) -> Option<Seq<char>> {
    either(first_project(results, false, 0), first_project(results, true, 0))
}

/// The counts of a mapping, as attributes of the key.
pub open spec fn key_attributes(results: Seq<ProbeResultView>) -> Seq<(Seq<char>, Seq<char>)> {
    let n = results.len() as int;
    let counts = put(
        put(
            put(
                put(
                    put(
                        Seq::empty(),
                        "accepted_probe_count"@,
                        decimal(status_count(results, ProbeStatus::Accepted, n)),
                    ),
                    "inconclusive_probe_count"@,
                    decimal(status_count(results, ProbeStatus::Inconclusive, n)),
                ),
                "invalid_probe_count"@,
                decimal(status_count(results, ProbeStatus::Invalid, n)),
            ),
            "probe_count"@,
            decimal(results.len()),
        ),
        "restricted_probe_count"@,
        decimal(status_count(results, ProbeStatus::Restricted, n)),
    );
    match mapped_project(results) {
        Some(project) => put(counts, "project_id"@, project),
        None => counts,
    }
}

/// What the probes cannot show.
pub open spec fn probe_limits(inconclusive: nat) -> Seq<Seq<char>> {
    let standing = seq![
        "Only four fixed, read-only Google API methods are probed; unprobed services and methods may still accept the key."@,
        "A successful probe proves only the exact reported method, not all methods on that service."@,
        "Application restrictions can reject Kingfisher's caller even when the key works from an allowed IP, referrer, Android app, or iOS app."@,
        "Kingfisher cannot read the key's configured restrictions without separate OAuth authorization."@,
    ];
    if inconclusive > 0 {
        standing.push(
            decimal(inconclusive)
                + " probe(s) were inconclusive because Google returned an unrecognized denial or no usable response."@,
        )
    } else {
        standing
    }
}

/// The evidence of a mapping.
pub open spec fn key_evidence(results: Seq<ProbeResultView>) -> AuthorizationEvidenceView {
    AuthorizationEvidenceView {
        principal: Some(
            PrincipalEvidenceView {
                id: "google-api-key:[redacted]"@,
                kind: "api_key"@,
                canonical_id: None,
                name: None,
                groups: Seq::empty(),
                tags: Seq::empty(),
                attributes: key_attributes(results),
            },
        ),
        hierarchy: match mapped_project(results) {
            Some(project) => seq![
                HierarchyScopeView { kind: "project"@, id: "projects/"@ + project },
            ],
            None => Seq::empty(),
        },
        probes: results.map_values(|result: ProbeResultView| probe_evidence(result)),
        limitations: probe_limits(
            status_count(results, ProbeStatus::Inconclusive, results.len() as int),
        ),
        ..empty_authorization_evidence()
    }
}

/// What is recommended for an exposed API key.
pub open spec fn key_recommendations() -> Seq<Seq<char>> {
    seq![
        "Rotate the exposed API key after investigating its use."@,
        "Apply both application restrictions and API restrictions to the replacement key."@,
        "Restrict the key to only the Google API services and methods the application requires."@,
        "Review Google Cloud API usage, audit logs, quotas, and billing for unexpected activity."@,
    ]
}

/// What is reported of a key that at least one probe showed to be live.
pub open spec fn key_result(results: Seq<ProbeResultView>) -> AccessMapResultView {
    let n = results.len() as int;
    let accepted = status_count(results, ProbeStatus::Accepted, n);
    AccessMapResultView {
        cloud: "gcp"@,
        fingerprint: None,
        identity: AccessSummaryView {
            id: "google-api-key:[redacted]"@,
            access_type: "api_key"@,
            project: mapped_project(results),
            tenant: None,
            account_id: None,
        },
        roles: Seq::empty(),
        permissions: PermissionSummaryView {
            read_only: accepted_methods(results, n),
            ..empty_permission_summary()
        },
        resources: accepted_resources(results, n),
        severity: if accepted == 0 {
            Severity::Low
        } else {
            Severity::Medium
        },
        recommendations: key_recommendations(),
        risk_notes: probe_notes(
            seq![
                decimal(accepted) + " of "@ + decimal(results.len())
                    + " read-only Google API probes accepted the key; "@ + decimal(
                    status_count(results, ProbeStatus::Restricted, n),
                ) + " were restricted"@,
            ],
            results,
            n,
        ),
        token_details: Some(
            AccessTokenDetailsView {
                account_type: Some("api_key"@),
                token_type: Some("google_api_key"@),
                ..empty_access_token_details()
            },
        ),
        provider_metadata: Some(
            ProviderMetadataView {
                authorization_evidence: Some(key_evidence(results)),
                ..empty_provider_metadata()
            },
        ),
        mapping_error: None,
    }
}

/// What the probes of a key come to: an error where none of them was accepted or restricted.
pub open spec fn mapped_key(results: Seq<ProbeResultView>) -> Result<AccessMapResultView, Seq<char>> {
    let n = results.len() as int;
    if status_count(results, ProbeStatus::Accepted, n) == 0 && status_count(
        results,
        ProbeStatus::Restricted,
        n,
    ) == 0 {
        if status_count(results, ProbeStatus::Invalid, n) > 0 {
            Err("Google rejected the supplied API key as invalid"@)
        } else {
            Err("Google API-key access probes were inconclusive"@)
        }
    } else {
        Ok(key_result(results))
    }
}

fn collect_attributes(
    results: &Vec<ProbeResult>,
    accepted: usize,
    restricted: usize,
    invalid: usize,
    inconclusive: usize,
    project: &Option<String>,
) -> (attributes: Vec<(String, String)>)
    requires
        accepted == status_count(views(results@), ProbeStatus::Accepted, results@.len() as int),
        restricted == status_count(views(results@), ProbeStatus::Restricted, results@.len() as int),
        invalid == status_count(views(results@), ProbeStatus::Invalid, results@.len() as int),
        inconclusive == status_count(views(results@), ProbeStatus::Inconclusive, results@.len() as int),
        opt_text(*project) == mapped_project(views(results@)),
    ensures
        pairs(attributes@) == key_attributes(views(results@)),
{
    let mut attributes: Vec<(String, String)> = no_pairs();
    put_pair(&mut attributes, "accepted_probe_count".to_owned(), usize_text(accepted));
    put_pair(&mut attributes, "inconclusive_probe_count".to_owned(), usize_text(inconclusive));
    put_pair(&mut attributes, "invalid_probe_count".to_owned(), usize_text(invalid));
    put_pair(&mut attributes, "probe_count".to_owned(), usize_text(results.len()));
    put_pair(&mut attributes, "restricted_probe_count".to_owned(), usize_text(restricted));
    match project {
        Some(id) => put_pair(&mut attributes, "project_id".to_owned(), id.clone()),
        None => {},
    }
    attributes
}

fn collect_limits(inconclusive: usize) -> (limits: Vec<String>)
    ensures
        texts(limits@) == probe_limits(inconclusive as nat),
{
    let mut limits: Vec<String> = no_texts();
    push_text(
        &mut limits,
        "Only four fixed, read-only Google API methods are probed; unprobed services and methods may still accept the key.".to_owned(),
    );
    push_text(
        &mut limits,
        "A successful probe proves only the exact reported method, not all methods on that service.".to_owned(),
    );
    push_text(
        &mut limits,
        "Application restrictions can reject Kingfisher's caller even when the key works from an allowed IP, referrer, Android app, or iOS app.".to_owned(),
    );
    push_text(
        &mut limits,
        "Kingfisher cannot read the key's configured restrictions without separate OAuth authorization.".to_owned(),
    );
    if inconclusive > 0 {
        push_text(
            &mut limits,
            cat2(
                usize_text(inconclusive).as_str(),
                " probe(s) were inconclusive because Google returned an unrecognized denial or no usable response.",
            ),
        );
    }
    assert(texts(limits@) =~= probe_limits(inconclusive as nat));
    limits
}

fn collect_recommendations() -> (list: Vec<String>)
    ensures
        texts(list@) == key_recommendations(),
{
    let mut list: Vec<String> = no_texts();
    push_text(&mut list, "Rotate the exposed API key after investigating its use.".to_owned());
    push_text(
        &mut list,
        "Apply both application restrictions and API restrictions to the replacement key.".to_owned(),
    );
    push_text(
        &mut list,
        "Restrict the key to only the Google API services and methods the application requires.".to_owned(),
    );
    push_text(
        &mut list,
        "Review Google Cloud API usage, audit logs, quotas, and billing for unexpected activity.".to_owned(),
    );
    assert(texts(list@) =~= key_recommendations());
    list
}

fn word_probe(result: &ProbeResult) -> (note: String)
    ensures
        note@ == probe_note(result@),
{
    let head = cat5(
        result.probe.service,
        " (",
        result.probe.method,
        ") was ",
        result.status.as_str(),
    );
    let tail: String = match &result.reason {
        Some(reason) => cat3(" [", reason.as_str(), "]"),
        None => String::new(),
    };
    cat2(head.as_str(), tail.as_str())
}

pub fn build_access_map(results: Vec<ProbeResult>) -> (mapped: Result<AccessMapResult, String>)
    ensures
        result_view(mapped) == mapped_key(views(results@)),
{
    let ghost all = views(results@);
    let accepted = count_status(&results, ProbeStatus::Accepted);
    let restricted = count_status(&results, ProbeStatus::Restricted);
    let invalid = count_status(&results, ProbeStatus::Invalid);
    let inconclusive = count_status(&results, ProbeStatus::Inconclusive);
    if accepted == 0 && restricted == 0 {
        if invalid > 0 {
            return Err("Google rejected the supplied API key as invalid".to_owned());
        }
        return Err("Google API-key access probes were inconclusive".to_owned());
    }
    let project = or_text(&find_project(&results, false), &find_project(&results, true));
    let attributes = collect_attributes(
        &results,
        accepted,
        restricted,
        invalid,
        inconclusive,
        &project,
    );
    let head = cat5(
        usize_text(accepted).as_str(),
        " of ",
        usize_text(results.len()).as_str(),
        " read-only Google API probes accepted the key; ",
        usize_text(restricted).as_str(),
    );
    let mut methods: Vec<String> = no_texts();
    let mut resources: Vec<ResourceExposure> = no_views();
    let mut evidence: Vec<AccessProbeEvidence> = no_views();
    let mut risk_notes: Vec<String> = one_text(cat2(head.as_str(), " were restricted").as_str());
    let ghost first = texts(risk_notes@);
    let mut i: usize = 0;
    assert(views(evidence@) =~= all.take(0).map_values(|r: ProbeResultView| probe_evidence(r)));
    while i < results.len()
        invariant
            i <= results@.len(),
            all == views(results@),
            texts(methods@) == accepted_methods(all, i as int),
            views(resources@) == accepted_resources(all, i as int),
            views(evidence@) == all.take(i as int).map_values(|r: ProbeResultView| probe_evidence(r)),
            texts(risk_notes@) == probe_notes(first, all, i as int),
        decreases results@.len() - i,
    {
        let result = &results[i];
        assert(all[i as int] == result@);
        if result.status == ProbeStatus::Accepted {
            push_text(&mut methods, result.probe.method.to_owned());
            let reason = cat3(
                "The Google API key was accepted by the read-only ",
                result.probe.method,
                " probe; no broader access was inferred",
            );
            push_view(
                &mut resources,
                ResourceExposure::new(
                    "google_api_service",
                    result.probe.service,
                    one_text(result.probe.method),
                    result.probe.risk,
                    reason.as_str(),
                ),
            );
        } else {
            push_text(&mut risk_notes, word_probe(result));
        }
        push_view(
            &mut evidence,
            AccessProbeEvidence {
                service: result.probe.service.to_owned(),
                method: result.probe.method.to_owned(),
                status: result.status.as_str().to_owned(),
                http_status: result.http_status,
                reason: copy_opt(&result.reason),
            },
        );
        i = i + 1;
        assert(views(evidence@) =~= all.take(i as int).map_values(
            |r: ProbeResultView| probe_evidence(r),
        ));
    }
    assert(all.take(all.len() as int) =~= all);
    let mut authorization = AuthorizationEvidence::default();
    authorization.principal = Some(
        PrincipalEvidence {
            id: "google-api-key:[redacted]".to_owned(),
            kind: "api_key".to_owned(),
            canonical_id: None,
            name: None,
            groups: no_texts(),
            tags: no_pairs(),
            attributes,
        },
    );
    authorization.hierarchy = match &project {
        Some(id) => one_view(
            HierarchyScope { kind: "project".to_owned(), id: cat2("projects/", id.as_str()) },
        ),
        None => no_views(),
    };
    authorization.probes = evidence;
    authorization.limitations = collect_limits(inconclusive);
    let mut permissions = PermissionSummary::default();
    permissions.read_only = methods;
    let mut details = AccessTokenDetails::default();
    details.account_type = Some("api_key".to_owned());
    details.token_type = Some("google_api_key".to_owned());
    let mut metadata = ProviderMetadata::default();
    metadata.authorization_evidence = Some(authorization);
    Ok(
        AccessMapResult {
            cloud: "gcp".to_owned(),
            fingerprint: None,
            identity: AccessSummary {
                id: "google-api-key:[redacted]".to_owned(),
                access_type: "api_key".to_owned(),
                project,
                tenant: None,
                account_id: None,
            },
            roles: no_views(),
            permissions,
            resources,
            severity: if accepted == 0 {
                Severity::Low
            } else {
                Severity::Medium
            },
            recommendations: collect_recommendations(),
            risk_notes,
            token_details: Some(details),
            provider_metadata: Some(metadata),
            mapping_error: None,
        },
    )
}

/// The results with one more, in the order of their services.
pub open spec fn placed_result(list: Seq<ProbeResultView>, result: ProbeResultView) -> Seq<ProbeResultView>
    decreases list.len(),
{
    if list.len() > 0 && text_less(result.service, list.last().service) {
        placed_result(list.drop_last(), result).push(list.last())
    } else {
        list.push(result)
    }
}

/// The first `n` results in the order of their services.
pub open spec fn results_in_order(list: Seq<ProbeResultView>, n: int) -> Seq<ProbeResultView>
    decreases n,
{
    if n <= 0 {
        Seq::empty()
    } else {
        placed_result(results_in_order(list, n - 1), list[n - 1])
    }
}

proof fn lemma_placed_result_at(list: Seq<ProbeResultView>, result: ProbeResultView, k: int)
    requires
        0 <= k <= list.len(),
        k > 0 ==> !text_less(result.service, list[k - 1].service),
        forall|j: int| k <= j < list.len() ==> text_less(result.service, list[j].service),
    ensures
        placed_result(list, result) == list.insert(k, result),
    decreases list.len() - k,
{
    if k < list.len() {
        lemma_placed_result_at(list.drop_last(), result, k);
    }
    assert(placed_result(list, result) =~= list.insert(k, result));
}

fn place_result(list: &mut Vec<ProbeResult>, result: ProbeResult)
    ensures
        views(final(list)@) == placed_result(views(old(list)@), result@),
{
    let mut k: usize = list.len();
    while k > 0 && is_less(result.probe.service, list[k - 1].probe.service)
        invariant
            k <= list@.len(),
            *list == *old(list),
            forall|j: int|
                k <= j < list@.len() ==> text_less(
                    result.probe.service@,
                    (#[trigger] list@[j]).probe.service@,
                ),
        decreases k,
    {
        k = k - 1;
    }
    let ghost before = views(list@);
    proof {
        lemma_placed_result_at(before, result@, k as int);
    }
    list.insert(k, result);
    assert(views(list@) =~= before.insert(k as int, result@));
}

/// Maps a key from what its probes found, in whatever order they came back.
pub fn map_access(results: Vec<ProbeResult>) -> (mapped: Result<AccessMapResult, String>)
    ensures
        result_view(mapped) == mapped_key(
            results_in_order(views(results@), results@.len() as int),
        ),
{
    let mut left = results;
    let mut sorted: Vec<ProbeResult> = no_views();
    let ghost mut i: int = 0;
    while left.len() > 0
        invariant
            0 <= i <= results@.len(),
            left@ == results@.skip(i),
            views(sorted@) == results_in_order(views(results@), i),
        decreases left@.len(),
    {
        let result = left.remove(0);
        assert(views(results@)[i] == result@);
        proof {
            i = i + 1;
        }
        place_result(&mut sorted, result);
    }
    build_access_map(sorted)
}

proof fn lemma_methods_accepted(results: Seq<ProbeResultView>, n: int, method: Seq<char>)
    requires
        0 <= n <= results.len(),
        accepted_methods(results, n).contains(method),
    ensures
        exists|i: int|
            0 <= i < n && (#[trigger] results[i]).method == method && results[i].status
                == ProbeStatus::Accepted,
    decreases n,
{
    if n > 0 {
        let now = accepted_methods(results, n);
        let k = choose|k: int| 0 <= k < now.len() && now[k] == method;
        let before = accepted_methods(results, n - 1);
        if results[n - 1].status == ProbeStatus::Accepted && k == before.len() {
            assert(results[n - 1].method == method);
        } else {
            assert(before[k] == method);
            lemma_methods_accepted(results, n - 1, method);
        }
    }
}

/// A mapping grants nothing but methods that a probe was accepted for: no privilege, no role and no
/// method is inferred.
pub proof fn lemma_only_probed_methods_are_granted(results: Seq<ProbeResultView>, method: Seq<char>)
    requires
        mapped_key(results) is Ok,
        mapped_key(results)->Ok_0.permissions.read_only.contains(method),
    ensures
        exists|i: int|
            0 <= i < results.len() && (#[trigger] results[i]).method == method && results[i].status
                == ProbeStatus::Accepted,
        mapped_key(results)->Ok_0.permissions.admin.len() == 0,
        mapped_key(results)->Ok_0.permissions.privilege_escalation.len() == 0,
        mapped_key(results)->Ok_0.permissions.risky.len() == 0,
        mapped_key(results)->Ok_0.roles.len() == 0,
{
    lemma_methods_accepted(results, results.len() as int, method);
}

/// A key is mapped exactly when some probe was accepted or restricted.
pub proof fn lemma_live_keys_are_mapped(results: Seq<ProbeResultView>)
    ensures
        mapped_key(results) is Ok <==> exists|i: int|
            0 <= i < results.len() && ((#[trigger] results[i]).status == ProbeStatus::Accepted
                || results[i].status == ProbeStatus::Restricted),
{
    lemma_count_positive(results, ProbeStatus::Accepted, results.len() as int);
    lemma_count_positive(results, ProbeStatus::Restricted, results.len() as int);
}

proof fn lemma_count_positive(results: Seq<ProbeResultView>, status: ProbeStatus, n: int)
    requires
        0 <= n <= results.len(),
    ensures
        status_count(results, status, n) > 0 <==> exists|i: int|
            0 <= i < n && (#[trigger] results[i]).status == status,
    decreases n,
{
    if n > 0 {
        lemma_count_positive(results, status, n - 1);
        if results[n - 1].status == status {
            assert(status_count(results, status, n) > 0);
        }
    }
}

proof fn lemma_reason_found(details: Seq<Json>, i: int, k: int)
    requires
        0 <= i <= k < details.len(),
        text_of(field(details[k], "reason"@)) is Some,
    ensures
        detail_reason(details, i) is Some,
        (forall|j: int| i <= j < k ==> text_of(field(#[trigger] details[j], "reason"@)) is None)
            ==> detail_reason(details, i) == text_of(field(details[k], "reason"@)),
    decreases k - i,
{
    if text_of(field(details[i], "reason"@)) is None {
        lemma_reason_found(details, i + 1, k);
    }
}

/// Why a request was refused is the reason that the details of the error give first.
pub proof fn lemma_reasons_are_read(value: Json, details: Vec<Json>, k: int)
    requires
        field_in(value, "error"@, "details"@) == Some(Json::Array(details)),
        0 <= k < details@.len(),
        text_of(field(details@[k], "reason"@)) is Some,
        forall|j: int| 0 <= j < k ==> text_of(field(#[trigger] details@[j], "reason"@)) is None,
    ensures
        error_reason(value) == text_of(field(details@[k], "reason"@)),
{
    lemma_reason_found(details@, 0, k);
}

/// A response shows what the key is good for: one of success that the method gives means that the key was
/// accepted, any other of success nothing; a refusal for a reason that calls the key invalid means that it is,
/// and one that speaks of restrictions, or any other with status 403, that the key is one but not for this use.
/// Without a reason a refusal means nothing.
pub proof fn lemma_responses_are_classified(probe: ApiKeyProbe, http_status: u16, value: Json)
    ensures
        ({
            let result = classified_response(probe, http_status, Some(value));
            let refused = http_status >= 400 || http_status < 200;
            let reason = error_reason(value);
            &&& result.method == probe.method@ && result.service == probe.service@ && result.risk
                == probe.risk && result.http_status == Some(http_status)
            &&& 200 <= http_status < 300 ==> result.status == ProbeStatus::Accepted || result.status
                == ProbeStatus::Inconclusive
            &&& 200 <= http_status < 300 && probe.method@ == "generativelanguage.models.list"@ ==> (
            result.status == ProbeStatus::Accepted <==> is_array(field(value, "models"@)))
            &&& 200 <= http_status < 300 && probe.method@ == "identitytoolkit.getProjectConfig"@ ==> (
            result.status == ProbeStatus::Accepted <==> text_of(field(value, "projectId"@)) is Some)
            &&& 200 <= http_status < 300 && probe.method@ == "language.languages.list"@ ==> (
            result.status == ProbeStatus::Accepted <==> is_array(
                field_in(value, "data"@, "languages"@),
            ))
            &&& 200 <= http_status < 300 && probe.method@ == "youtube.i18nLanguages.list"@ && is_array(
                field(value, "items"@),
            ) && text_of(field(value, "kind"@)) == Some("youtube#i18nLanguageListResponse"@)
                ==> result.status == ProbeStatus::Accepted
            &&& refused && reason is Some && (reason->0 == "API_KEY_INVALID"@ || reason->0 == "API_KEY_EXPIRED"@ || reason->0 == "CONSUMER_INVALID"@ || reason->0 == "INVALID_ARGUMENT"@) ==> result.status == ProbeStatus::Invalid
            &&& refused && reason is Some && (reason->0 == "API_KEY_SERVICE_BLOCKED"@ || reason->0 == "API_KEY_HTTP_REFERRER_BLOCKED"@ || reason->0 == "API_KEY_IP_ADDRESS_BLOCKED"@ || reason->0 == "API_KEY_ANDROID_APP_BLOCKED"@ || reason->0 == "API_KEY_IOS_APP_BLOCKED"@ || reason->0 == "SERVICE_DISABLED"@ || reason->0 == "BILLING_DISABLED"@) ==> result.status == ProbeStatus::Restricted
            &&& http_status == 403 && reason is Some ==> result.status == ProbeStatus::Restricted
                || result.status == ProbeStatus::Invalid
            &&& refused && reason is None ==> result.status == ProbeStatus::Inconclusive
            &&& refused ==> result.status != ProbeStatus::Accepted
            &&& classified_response(probe, http_status, None).status == ProbeStatus::Inconclusive
        }),
{
    reveal_strlit("identitytoolkit.getProjectConfig");
    reveal_strlit("generativelanguage.models.list");
    reveal_strlit("language.languages.list");
    reveal_strlit("youtube.i18nLanguages.list");
    assert("identitytoolkit.getProjectConfig"@.len() == 32);
    assert("generativelanguage.models.list"@.len() == 30);
    assert("language.languages.list"@.len() == 23);
    assert("youtube.i18nLanguages.list"@.len() == 26);
    reveal_strlit("API_KEY_INVALID");
    reveal_strlit("API_KEY_EXPIRED");
    reveal_strlit("CONSUMER_INVALID");
    reveal_strlit("INVALID_ARGUMENT");
    reveal_strlit("API_KEY_SERVICE_BLOCKED");
    reveal_strlit("API_KEY_HTTP_REFERRER_BLOCKED");
    reveal_strlit("API_KEY_IP_ADDRESS_BLOCKED");
    reveal_strlit("API_KEY_ANDROID_APP_BLOCKED");
    reveal_strlit("API_KEY_IOS_APP_BLOCKED");
    reveal_strlit("SERVICE_DISABLED");
    reveal_strlit("BILLING_DISABLED");
    assert("API_KEY_INVALID"@.len() == 15);
    assert("API_KEY_EXPIRED"@.len() == 15);
    assert("CONSUMER_INVALID"@.len() == 16);
    assert("INVALID_ARGUMENT"@.len() == 16);
    assert("API_KEY_SERVICE_BLOCKED"@.len() == 23);
    assert("API_KEY_HTTP_REFERRER_BLOCKED"@.len() == 29);
    assert("API_KEY_IP_ADDRESS_BLOCKED"@.len() == 26);
    assert("API_KEY_ANDROID_APP_BLOCKED"@.len() == 27);
    assert("API_KEY_IOS_APP_BLOCKED"@.len() == 23);
    assert("SERVICE_DISABLED"@.len() == 16);
    assert("BILLING_DISABLED"@.len() == 16);
    assert("CONSUMER_INVALID"@[0] != "SERVICE_DISABLED"@[0]);
    assert("CONSUMER_INVALID"@[0] != "BILLING_DISABLED"@[0]);
    assert("INVALID_ARGUMENT"@[0] != "SERVICE_DISABLED"@[0]);
    assert("INVALID_ARGUMENT"@[0] != "BILLING_DISABLED"@[0]);
}

proof fn lemma_probes_listed(results: Seq<ProbeResultView>, start: Seq<Seq<char>>, n: int, k: int)
    requires
        0 <= k < n <= results.len(),
    ensures
        results[k].status == ProbeStatus::Accepted ==> accepted_methods(results, n).contains(
            results[k].method,
        ) && accepted_resources(results, n).contains(probe_exposure(results[k])),
        results[k].status != ProbeStatus::Accepted ==> probe_notes(start, results, n).contains(
            probe_note(results[k]),
        ),
        status_count(results, results[k].status, n) > 0,
    decreases n,
{
    let methods = accepted_methods(results, n - 1);
    let resources = accepted_resources(results, n - 1);
    let notes = probe_notes(start, results, n - 1);
    if k < n - 1 {
        lemma_probes_listed(results, start, n - 1, k);
        if results[k].status == ProbeStatus::Accepted {
            let i = choose|i: int| 0 <= i < methods.len() && methods[i] == results[k].method;
            assert(accepted_methods(results, n)[i] == results[k].method);
            let j = choose|j: int| 0 <= j < resources.len() && resources[j] == probe_exposure(results[k]);
            assert(accepted_resources(results, n)[j] == probe_exposure(results[k]));
        } else {
            let i = choose|i: int| 0 <= i < notes.len() && notes[i] == probe_note(results[k]);
            assert(probe_notes(start, results, n)[i] == probe_note(results[k]));
        }
    } else if results[k].status == ProbeStatus::Accepted {
        assert(accepted_methods(results, n)[methods.len() as int] == results[k].method);
        assert(accepted_resources(results, n)[resources.len() as int] == probe_exposure(results[k]));
    } else {
        assert(probe_notes(start, results, n)[notes.len() as int] == probe_note(results[k]));
    }
}

/// Every probe is reported: an accepted one by its method and its service, at the risk of the probe, any
/// other in a note, and each as evidence. A key that any method accepts is medium, one that is restricted
/// everywhere low.
pub proof fn lemma_every_probe_is_reported(results: Seq<ProbeResultView>, k: int)
    requires
        0 <= k < results.len(),
    ensures
        results[k].status == ProbeStatus::Accepted ==> {
            &&& mapped_key(results) is Ok
            &&& mapped_key(results)->Ok_0.severity == Severity::Medium
            &&& mapped_key(results)->Ok_0.permissions.read_only.contains(results[k].method)
            &&& exists|i: int|
                0 <= i < mapped_key(results)->Ok_0.resources.len() && (#[trigger] mapped_key(
                    results,
                )->Ok_0.resources[i]).name == results[k].service && mapped_key(
                    results,
                )->Ok_0.resources[i].permissions == seq![results[k].method] && mapped_key(
                    results,
                )->Ok_0.resources[i].risk == severity_text(results[k].risk)
        },
        mapped_key(results) is Ok && results[k].status != ProbeStatus::Accepted
            ==> mapped_key(results)->Ok_0.risk_notes.contains(probe_note(results[k])),
        mapped_key(results) is Ok ==> {
            let evidence = mapped_key(results)->Ok_0.provider_metadata->0.authorization_evidence->0;
            &&& evidence.probes.len() == results.len()
            &&& evidence.probes[k].service == results[k].service
            &&& evidence.probes[k].method == results[k].method
            &&& results[k].status == ProbeStatus::Accepted ==> evidence.probes[k].status == "accepted"@
            &&& results[k].status == ProbeStatus::Restricted ==> evidence.probes[k].status
                == "restricted"@
            &&& results[k].status == ProbeStatus::Invalid ==> evidence.probes[k].status == "invalid"@
            &&& results[k].status == ProbeStatus::Inconclusive ==> evidence.probes[k].status
                == "inconclusive"@
        },
        (forall|j: int| 0 <= j < results.len() ==> (#[trigger] results[j]).status == ProbeStatus::Restricted)
            ==> mapped_key(results) is Ok && mapped_key(results)->Ok_0.severity == Severity::Low
            && mapped_key(results)->Ok_0.permissions.read_only.len() == 0,
{
    let n = results.len() as int;
    let start = seq![
        decimal(status_count(results, ProbeStatus::Accepted, n)) + " of "@ + decimal(results.len())
            + " read-only Google API probes accepted the key; "@ + decimal(
            status_count(results, ProbeStatus::Restricted, n),
        ) + " were restricted"@,
    ];
    lemma_probes_listed(results, start, n, k);
    if results[k].status == ProbeStatus::Accepted {
        let resources = mapped_key(results)->Ok_0.resources;
        let i = choose|i: int| 0 <= i < resources.len() && resources[i] == probe_exposure(results[k]);
        assert(mapped_key(results)->Ok_0.resources[i].name == results[k].service);
    }
    if forall|j: int| 0 <= j < results.len() ==> (#[trigger] results[j]).status == ProbeStatus::Restricted {
        lemma_none_accepted(results, n);
        assert(results[k].status == ProbeStatus::Restricted);
    }
}

proof fn lemma_none_accepted(results: Seq<ProbeResultView>, n: int)
    requires
        0 <= n <= results.len(),
        forall|j: int| 0 <= j < results.len() ==> (#[trigger] results[j]).status != ProbeStatus::Accepted,
    ensures
        status_count(results, ProbeStatus::Accepted, n) == 0,
        accepted_methods(results, n).len() == 0,
    decreases n,
{
    if n > 0 {
        lemma_none_accepted(results, n - 1);
        assert(results[n - 1].status != ProbeStatus::Accepted);
    }
}

proof fn lemma_placed_result(list: Seq<ProbeResultView>, result: ProbeResultView)
    ensures
        placed_result(list, result).len() == list.len() + 1,
        placed_result(list, result).contains(result),
        forall|k: int| 0 <= k < list.len() ==> placed_result(list, result).contains(#[trigger] list[k]),
    decreases list.len(),
{
    let now = placed_result(list, result);
    if list.len() > 0 && text_less(result.service, list.last().service) {
        let rest = list.drop_last();
        let inner = placed_result(rest, result);
        lemma_placed_result(rest, result);
        let at = choose|at: int| 0 <= at < inner.len() && inner[at] == result;
        assert(now[at] == result);
        assert forall|k: int| 0 <= k < list.len() implies now.contains(#[trigger] list[k]) by {
            if k < rest.len() {
                assert(rest[k] == list[k]);
                let i = choose|i: int| 0 <= i < inner.len() && inner[i] == rest[k];
                assert(now[i] == list[k]);
            } else {
                assert(now[inner.len() as int] == list[k]);
            }
        }
    } else {
        assert(now[list.len() as int] == result);
        assert forall|k: int| 0 <= k < list.len() implies now.contains(#[trigger] list[k]) by {
            assert(now[k] == list[k]);
        }
    }
}

/// Ordering the results of the probes by service loses none of them.
pub proof fn lemma_no_result_is_lost(list: Seq<ProbeResultView>, n: int, k: int)
    requires
        0 <= k < n <= list.len(),
    ensures
        results_in_order(list, n).len() == n,
        results_in_order(list, n).contains(list[k]),
    decreases n,
{
    let before = results_in_order(list, n - 1);
    lemma_placed_result(before, list[n - 1]);
    if n > 1 {
        lemma_no_result_is_lost(list, n - 1, if k < n - 1 { k } else { 0 });
    }
    if k < n - 1 {
        let i = choose|i: int| 0 <= i < before.len() && before[i] == list[k];
        assert(before[i] == list[k]);
    }
}

} // verus!
