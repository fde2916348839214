//! Microsoft Teams webhooks.

use vstd::prelude::*;
use crate::mapping::{build_result, plain_result};
use crate::model::{
    binding, empty_access_token_details, empty_permission_summary, exposure, one_view, result_view,
    AccessMapResult, AccessMapResultView, AccessSummary, AccessSummaryView, AccessTokenDetails,
    AccessTokenDetailsView, PermissionSummary, ResourceExposure, RoleBinding, Severity,
};
use crate::permissions::{file_permission, filed, PermissionClass};
use crate::text::{
    after_prefix, before_suffix, cat2, contains, cut, holds, one_text, opt_text, pieces, split,
    split_once, strip_prefix, strip_suffix, texts, three_texts,
};

verus! {

/// What the address of a webhook tells.
#[derive(Debug)]
pub struct ParsedWebhookUrl {
    pub tenant_id: String,
    pub webhook_id: String,
    pub subdomain: Option<String>,
    pub is_workflow_webhook: bool,
}

/// What the address of a webhook tells, as views.
#[verifier::ext_equal]
pub ghost struct ParsedWebhookUrlView {
    pub tenant_id: Seq<char>,
    pub webhook_id: Seq<char>,
    pub subdomain: Option<Seq<char>>,
    pub is_workflow_webhook: bool,
}

impl View for ParsedWebhookUrl {
    type V = ParsedWebhookUrlView;

    open spec fn view(&self) -> ParsedWebhookUrlView {
        ParsedWebhookUrlView {
            tenant_id: self.tenant_id@,
            webhook_id: self.webhook_id@,
            subdomain: opt_text(self.subdomain),
            is_workflow_webhook: self.is_workflow_webhook,
        }
    }
}

/// The IDs of a webhook and of its tenant, from what follows the path: both in the first part, with
/// an `@` between them, or else the first two parts.
pub open spec fn webhook_ids(rest: Seq<char>) -> (Seq<char>, Seq<char>) {
    let parts = pieces(rest, '/');
    match cut(parts[0], "@"@) {
        Some(ids) => ids,
        None => (
            parts[0],
            if parts.len() > 1 {
                parts[1]
            } else {
                "unknown"@
            },
        ),
    }
}

fn find_ids(rest: &str) -> (ids: (String, String))
    ensures
        (ids.0@, ids.1@) == webhook_ids(rest@),
{
    let parts = split(rest, '/');
    assert(texts(parts@)[0] == parts@[0]@);
    match split_once(parts[0].as_str(), "@") {
        Some(ids) => ids,
        None => {
            let tenant = if parts.len() > 1 {
                assert(texts(parts@)[1] == parts@[1]@);
                parts[1].clone()
            } else {
                "unknown".to_owned()
            };
            (parts[0].clone(), tenant)
        },
    }
}

/// What the address of a webhook tells, or why it is none.
pub open spec fn webhook_of(url: Seq<char>) -> Result<ParsedWebhookUrlView, Seq<char>> {
    let workflow = holds(url, ".webhook.office.com/webhookb2/"@);
    let legacy = holds(url, ".office.com/webhook/"@);
    if !workflow && !legacy {
        Err("URL does not appear to be a Microsoft Teams webhook: "@ + url)
    } else {
        let address = match cut(url, "://"@) {
            Some(parts) => parts.1,
            None => ""@,
        };
        match cut(address, "/"@) {
            None => Err("Malformed webhook URL: "@ + url),
            Some(parts) => {
                let prefix = if workflow {
                    "/webhookb2/"@
                } else {
                    "/webhook/"@
                };
                match after_prefix("/"@ + parts.1, prefix) {
                    None => Err("Cannot parse webhook path: "@ + url),
                    Some(rest) => Ok(
                        ParsedWebhookUrlView {
                            tenant_id: webhook_ids(rest).1,
                            webhook_id: webhook_ids(rest).0,
                            subdomain: if workflow {
                                before_suffix(parts.0, ".webhook.office.com"@)
                            } else {
                                None
                            },
                            is_workflow_webhook: workflow,
                        },
                    ),
                }
            },
        }
    }
}

/// Reads the address of a webhook.
pub fn parse_webhook_url(url: &str) -> (parsed: Result<ParsedWebhookUrl, String>)
    ensures
        result_view(parsed) == webhook_of(url@),
{
    let workflow = contains(url, ".webhook.office.com/webhookb2/");
    let legacy = contains(url, ".office.com/webhook/");
    if !workflow && !legacy {
        return Err(cat2("URL does not appear to be a Microsoft Teams webhook: ", url));
    }
    let address = match split_once(url, "://") {
        Some((_, rest)) => rest,
        None => "".to_owned(),
    };
    match split_once(address.as_str(), "/") {
        None => Err(cat2("Malformed webhook URL: ", url)),
        Some((host, tail)) => {
            let path = cat2("/", tail.as_str());
            let prefix: &str = if workflow {
                "/webhookb2/"
            } else {
                "/webhook/"
            };
            match strip_prefix(path.as_str(), prefix) {
                None => Err(cat2("Cannot parse webhook path: ", url)),
                Some(rest) => {
                    let (webhook_id, tenant_id) = find_ids(rest.as_str());
                    let subdomain = if workflow {
                        strip_suffix(host.as_str(), ".webhook.office.com")
                    } else {
                        None
                    };
                    Ok(
                        ParsedWebhookUrl {
                            tenant_id,
                            webhook_id,
                            subdomain,
                            is_workflow_webhook: workflow,
                        },
                    )
                },
            }
        },
    }
}

/// Whether the answer to an empty message comes from a live webhook: a live one asks for a text.
pub open spec fn is_live(status: u16, body: Option<Seq<char>>) -> bool {
    match body {
        Some(text) => if status == 400 {
            holds(text, "Text is required"@)
        } else {
            200 <= status < 300
        },
        None => 200 <= status < 300,
    }
}

/// Says whether a webhook is live, by the answer to an empty message.
pub fn probe_webhook(status: u16, body: &Option<String>) -> (live: bool)
    ensures
        live == is_live(status, opt_text(*body)),
{
    match body {
        Some(text) => if status == 400 {
            contains(text.as_str(), "Text is required")
        } else {
            200 <= status && status < 300
        },
        None => 200 <= status && status < 300,
    }
}

/// How grave a webhook is.
pub open spec fn webhook_severity(active: bool) -> Severity {
    if active {
        Severity::Medium
    } else {
        Severity::Low
    }
}

/// What a webhook gives access to.
pub open spec fn webhook_result(
    url: Seq<char>,
    parsed: ParsedWebhookUrlView,
    active: bool,
) -> AccessMapResultView {
    let severity = webhook_severity(active);
    plain_result(
        "microsoft_teams"@,
        AccessSummaryView {
            id: "webhook:"@ + parsed.webhook_id,
            access_type: "webhook"@,
            project: None,
            tenant: Some(parsed.tenant_id),
            account_id: None,
        },
        seq![binding("Incoming Webhook"@, "microsoft_teams"@, seq!["channel:post_messages"@])],
        filed(empty_permission_summary(), PermissionClass::Risky, "channel:post_messages"@),
        seq![
            exposure(
                "channel"@,
                match parsed.subdomain {
                    Some(subdomain) => subdomain + ".webhook.office.com"@,
                    None => "outlook.office.com"@,
                },
                seq!["post_messages"@],
                severity,
                "Webhook can post messages to this Teams channel"@,
            ),
        ],
        severity,
        seq![
            if active {
                "Webhook is active and can post messages to the target channel"@
            } else {
                "Webhook appears inactive or has been removed"@
            },
            "Tenant ID: "@ + parsed.tenant_id,
            if parsed.is_workflow_webhook {
                "Workflow webhook (webhookb2) — may support Adaptive Cards"@
            } else {
                "Legacy Incoming Webhook — connector-based, posts to a single channel"@
            },
        ],
        Some(
            AccessTokenDetailsView {
                token_type: Some(
                    if parsed.is_workflow_webhook {
                        "workflow_webhook"@
                    } else {
                        "incoming_webhook"@
                    },
                ),
                url: Some(url),
                ..empty_access_token_details()
            },
        ),
    )
}

/// Maps a webhook from its address and from whether it is live.
pub fn map_access_from_webhook_url(webhook_url: &str, active: bool) -> (result: Result<
    AccessMapResult,
    String,
>)
    ensures
        match webhook_of(webhook_url@) {
            Ok(parsed) => result_view(result) == Ok::<AccessMapResultView, Seq<char>>(
                webhook_result(webhook_url@, parsed, active),
            ),
            Err(error) => result_view(result) == Err::<AccessMapResultView, Seq<char>>(error),
        },
{
    let parsed = match parse_webhook_url(webhook_url) {
        Ok(parsed) => parsed,
        Err(error) => {
            return Err(error);
        },
    };
    let mut permissions = PermissionSummary::default();
    file_permission(
        &mut permissions,
        PermissionClass::Risky,
        "channel:post_messages".to_owned(),
    );
    let severity = if active {
        Severity::Medium
    } else {
        Severity::Low
    };
    let state: &str = if active {
        "Webhook is active and can post messages to the target channel"
    } else {
        "Webhook appears inactive or has been removed"
    };
    let tenant = cat2("Tenant ID: ", parsed.tenant_id.as_str());
    let kind: &str = if parsed.is_workflow_webhook {
        "Workflow webhook (webhookb2) — may support Adaptive Cards"
    } else {
        "Legacy Incoming Webhook — connector-based, posts to a single channel"
    };
    let risk_notes = three_texts(state, tenant.as_str(), kind);
    let roles = one_view(
        RoleBinding::new("Incoming Webhook", "microsoft_teams", one_text("channel:post_messages")),
    );
    let host = match &parsed.subdomain {
        Some(subdomain) => cat2(subdomain.as_str(), ".webhook.office.com"),
        None => "outlook.office.com".to_owned(),
    };
    let resources = one_view(
        ResourceExposure::new(
            "channel",
            host.as_str(),
            one_text("post_messages"),
            severity,
            "Webhook can post messages to this Teams channel",
        ),
    );
    let token_type: &str = if parsed.is_workflow_webhook {
        "workflow_webhook"
    } else {
        "incoming_webhook"
    };
    let mut details = AccessTokenDetails::default();
    details.token_type = Some(token_type.to_owned());
    details.url = Some(webhook_url.to_owned());
    Ok(
        build_result(
            "microsoft_teams",
            AccessSummary {
                id: cat2("webhook:", parsed.webhook_id.as_str()),
                access_type: "webhook".to_owned(),
                project: None,
                tenant: Some(parsed.tenant_id),
                account_id: None,
            },
            roles,
            permissions,
            resources,
            severity,
            risk_notes,
            Some(details),
        ),
    )
}

/// A webhook that answers as a live one, by asking for a text or by taking the message, is medium, any
/// other low; either way it is reported with what it can do, under its own ID and that of its tenant.
pub proof fn lemma_live_webhooks_are_graver(
    url: Seq<char>,
    parsed: ParsedWebhookUrlView,
    status: u16,
    body: Option<Seq<char>>,
)
    ensures
        ({
            let result = webhook_result(url, parsed, is_live(status, body));
            &&& 200 <= status < 300 ==> result.severity == Severity::Medium
            &&& status == 400 && body is Some && holds(body->0, "Text is required"@) ==> result.severity
                == Severity::Medium
            &&& status == 400 && body is Some && !holds(body->0, "Text is required"@) ==> result.severity
                == Severity::Low
            &&& status >= 300 && status != 400 ==> result.severity == Severity::Low
            &&& result.permissions.risky.contains("channel:post_messages"@)
            &&& result.identity.id == "webhook:"@ + parsed.webhook_id
            &&& result.identity.tenant == Some(parsed.tenant_id)
            &&& parsed.subdomain is Some ==> result.resources[0].name == parsed.subdomain->0
                + ".webhook.office.com"@
        }),
{
    let risky = webhook_result(url, parsed, is_live(status, body)).permissions.risky;
    assert(risky[0] == "channel:post_messages"@);
}

/// An address that is none of a webhook is refused, and what is accepted is one of the two kinds.
pub proof fn lemma_only_webhooks_are_taken(url: Seq<char>)
    ensures
        webhook_of(url) is Ok ==> holds(url, ".webhook.office.com/webhookb2/"@) || holds(
            url,
            ".office.com/webhook/"@,
        ),
        webhook_of(url) is Ok ==> (webhook_of(url)->Ok_0.is_workflow_webhook <==> holds(
            url,
            ".webhook.office.com/webhookb2/"@,
        )),
{
}

} // verus!
