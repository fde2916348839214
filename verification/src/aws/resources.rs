//! The resources that the permissions of an AWS identity reach.

use vstd::prelude::*;
use crate::aws::collect::{denied_access, iam_error_is_access_denied, AwsFailure};
use crate::aws::principal::IamRole;
use crate::aws::severity::{
    acting_permissions, all_permissions, any_covers, can_read, collect_acting, collect_permissions,
    lemma_service_permissions, permissions_for_prefix, prefix_permissions, readable, some_covers,
};
use crate::model::{
    exposure, no_views, push_view, severity_text, views, PermissionSummary, PermissionSummaryView,
    ResourceExposure, ResourceExposureView, Severity,
};
use crate::notes::{lemma_noted_keeps, noted, push_unique_note};
use crate::text::{
    begins, cat2, cat4, cat5, either, lowered, opt_text, or_text, push_text, texts, trim_start_char,
    unwrap_text, without_leading,
};

verus! {

/// What one service listed, up to the first call that failed.
#[derive(Debug)]
pub struct ServicePages<T> {
    pub items: Vec<T>,
    pub failure: Option<AwsFailure>,
}

/// A thing that has an ID, and an ARN where the service gives one.
#[derive(Debug)]
pub struct ListedItem {
    pub id: Option<String>,
    pub arn: Option<String>,
}

/// What the services listed.
#[derive(Debug)]
pub struct ServiceInventory {
    pub region: Option<String>,
    pub buckets: ServicePages<Option<String>>,
    pub instances: ServicePages<Option<String>>,
    pub functions: ServicePages<Option<String>>,
    pub tables: ServicePages<Option<String>>,
    pub keys: ServicePages<ListedItem>,
    pub secrets: ServicePages<Option<String>>,
    pub queues: ServicePages<Option<String>>,
    pub topics: ServicePages<Option<String>>,
    pub databases: ServicePages<ListedItem>,
    pub repositories: ServicePages<ListedItem>,
    pub parameters: ServicePages<Option<String>>,
}

/// The texts behind a list of optional names.
pub open spec fn opt_texts(list: Seq<Option<String>>) -> Seq<Option<Seq<char>>> {
    list.map_values(|name: Option<String>| opt_text(name))
}

/// A service and how what it lists is reported.
#[verifier::ext_equal]
pub struct ServiceView {
    pub service: Seq<char>,
    pub prefix: Seq<char>,
    pub resource_type: Seq<char>,
    pub risk: Severity,
    pub reason: Seq<char>,
}

/// A service and how what it lists is reported.
pub struct Service {
    pub service: &'static str,
    pub prefix: &'static str,
    pub resource_type: &'static str,
    pub risk: Severity,
    pub reason: &'static str,
}

impl View for Service {
    type V = ServiceView;

    open spec fn view(&self) -> ServiceView {
        ServiceView {
            service: self.service@,
            prefix: self.prefix@,
            resource_type: self.resource_type@,
            risk: self.risk,
            reason: self.reason@,
        }
    }
}

/// What was found so far.
pub struct Exposures {
    pub resources: Vec<ResourceExposure>,
    pub risk_notes: Vec<String>,
}

/// What an `Exposures` says.
#[verifier::ext_equal]
pub struct ExposuresView {
    pub resources: Seq<ResourceExposureView>,
    pub risk_notes: Seq<Seq<char>>,
}

impl View for Exposures {
    type V = ExposuresView;

    open spec fn view(&self) -> ExposuresView {
        ExposuresView { resources: views(self.resources@), risk_notes: texts(self.risk_notes@) }
    }
}

/// No permission is known.
pub open spec fn none_known(permissions: PermissionSummaryView) -> bool {
    permissions.admin.len() == 0 && permissions.privilege_escalation.len() == 0
        && permissions.risky.len() == 0 && permissions.read_only.len() == 0
}

/// Whether a service is looked at: where its permissions let it be read, or none are known.
pub open spec fn looked_at(permissions: PermissionSummaryView, prefix: Seq<char>) -> bool {
    none_known(permissions) || readable(permissions, lowered(prefix))
}

pub fn should_enumerate(permissions: &PermissionSummary, service_prefix: &str) -> (yes: bool)
    ensures
        yes == looked_at(permissions@, service_prefix@),
{
    permissions.is_empty() || can_read(permissions, service_prefix)
}

/// How the first `n` named things are reported.
pub open spec fn exposures_upto(
    names: Seq<Option<Seq<char>>>,
    service: ServiceView,
    permissions: Seq<Seq<char>>,
    n: int,
) -> Seq<ResourceExposureView>
    decreases n,
{
    if n <= 0 {
        Seq::empty()
    } else {
        let before = exposures_upto(names, service, permissions, n - 1);
        match names[n - 1] {
            Some(name) => before.push(
                exposure(service.resource_type, name, permissions, service.risk, service.reason),
            ),
            None => before,
        }
    }
}

/// The notes after a service could not be listed to the end.
pub open spec fn notes_after_service(
    notes: Seq<Seq<char>>,
    service: Seq<char>,
    failure: Option<AwsFailure>,
) -> Seq<Seq<char>> {
    match failure {
        None => notes,
        Some(found) => if denied_access(found) {
            notes.push("AWS enumeration incomplete: AccessDenied for "@ + service)
        } else {
            noted(notes, "AWS enumeration failed for "@ + service + ": "@ + found.display@)
        },
    }
}

pub fn handle_access_denied(service: &str, failure: &AwsFailure, risk_notes: &mut Vec<String>) -> (denied: bool)
    ensures
        denied == denied_access(*failure),
        texts(final(risk_notes)@) == if denied {
            texts(old(risk_notes)@).push("AWS enumeration incomplete: AccessDenied for "@ + service@)
        } else {
            texts(old(risk_notes)@)
        },
{
    if iam_error_is_access_denied(failure) {
        push_text(risk_notes, cat2("AWS enumeration incomplete: AccessDenied for ", service));
        true
    } else {
        false
    }
}

pub fn record_enumeration_error(service: &str, failure: &AwsFailure, risk_notes: &mut Vec<String>)
    ensures
        texts(final(risk_notes)@) == notes_after_service(
            texts(old(risk_notes)@),
            service@,
            Some(*failure),
        ),
{
    if !handle_access_denied(service, failure, risk_notes) {
        push_unique_note(
            risk_notes,
            cat4("AWS enumeration failed for ", service, ": ", failure.display.as_str()),
        );
    }
}

/// What is found after one service, where it is looked at.
pub open spec fn after_service(
    found: ExposuresView,
    permissions: PermissionSummaryView,
    service: ServiceView,
    names: Seq<Option<Seq<char>>>,
    failure: Option<AwsFailure>,
) -> ExposuresView {
    if looked_at(permissions, service.prefix) {
        ExposuresView {
            resources: found.resources + exposures_upto(
                names,
                service,
                prefix_permissions(permissions, service.prefix),
                names.len() as int,
            ),
            risk_notes: notes_after_service(found.risk_notes, service.service, failure),
        }
    } else {
        found
    }
}

fn expose_service(
    found: Exposures,
    permissions: &PermissionSummary,
    service: &Service,
    names: &Vec<Option<String>>,
    failure: &Option<AwsFailure>,
) -> (next: Exposures)
    ensures
        next@ == after_service(found@, permissions@, service@, opt_texts(names@), *failure),
{
    if !should_enumerate(permissions, service.prefix) {
        return found;
    }
    let ghost all = opt_texts(names@);
    let ghost granted = prefix_permissions(permissions@, service.prefix@);
    let ghost before = views(found.resources@);
    let mut resources = found.resources;
    let mut risk_notes = found.risk_notes;
    let mut i: usize = 0;
    assert(before + exposures_upto(all, service@, granted, 0) =~= before);
    while i < names.len()
        invariant
            i <= names@.len(),
            all == opt_texts(names@),
            granted == prefix_permissions(permissions@, service.prefix@),
            views(resources@) == before + exposures_upto(all, service@, granted, i as int),
        decreases names@.len() - i,
    {
        assert(all[i as int] == opt_text(names@[i as int]));
        match &names[i] {
            Some(name) => {
                push_view(
                    &mut resources,
                    ResourceExposure::new(
                        service.resource_type,
                        name.as_str(),
                        permissions_for_prefix(permissions, service.prefix),
                        service.risk,
                        service.reason,
                    ),
                );
            },
            None => {},
        }
        i = i + 1;
        assert(views(resources@) =~= before + exposures_upto(all, service@, granted, i as int));
    }
    match failure {
        Some(f) => record_enumeration_error(service.service, f, &mut risk_notes),
        None => {},
    }
    Exposures { resources, risk_notes }
}

/// A name with `prefix` before it.
pub open spec fn with_prefix(prefix: Seq<char>, name: Option<Seq<char>>) -> Option<Seq<char>> {
    match name {
        Some(s) => Some(prefix + s),
        None => None,
    }
}

/// Names with `prefix` before each.
pub open spec fn names_with_prefix(prefix: Seq<char>, names: Seq<Option<String>>) -> Seq<Option<Seq<char>>> {
    names.map_values(|name: Option<String>| with_prefix(prefix, opt_text(name)))
}

fn prefix_names(prefix: &str, names: &Vec<Option<String>>) -> (list: Vec<Option<String>>)
    ensures
        opt_texts(list@) == names_with_prefix(prefix@, names@),
{
    let mut list: Vec<Option<String>> = Vec::new();
    let mut i: usize = 0;
    while i < names.len()
        invariant
            i <= names@.len(),
            list@.len() == i,
            forall|j: int|
                0 <= j < i ==> opt_text(#[trigger] list@[j]) == with_prefix(prefix@, opt_text(names@[j])),
        decreases names@.len() - i,
    {
        match &names[i] {
            Some(name) => list.push(Some(cat2(prefix, name.as_str()))),
            None => list.push(None),
        }
        i = i + 1;
    }
    assert(opt_texts(list@) =~= names_with_prefix(prefix@, names@));
    list
}

/// What an ARN of this region and account begins with, where both are known.
pub open spec fn arn_start(region: Option<Seq<char>>, account: Option<Seq<char>>, service: Seq<char>) -> Option<Seq<char>> {
    match (region, account) {
        (Some(r), Some(a)) => Some("arn:aws:"@ + service + ":"@ + r + (":"@ + a + ":"@)),
        _ => None,
    }
}

pub fn aws_resource_arn(
    region: &Option<String>,
    account_id: &Option<String>,
    service: &str,
    resource: &str,
) -> (arn: Option<String>)
    ensures
        opt_text(arn) == match arn_start(opt_text(*region), opt_text(*account_id), service@) {
            Some(start) => Some(start + resource@),
            None => None,
        },
{
    match (region, account_id) {
        (Some(r), Some(a)) => {
            let head = cat4("arn:aws:", service, ":", r.as_str());
            let tail = crate::text::cat3(":", a.as_str(), ":");
            let start = cat2(head.as_str(), tail.as_str());
            Some(cat2(start.as_str(), resource))
        },
        _ => None,
    }
}

/// The prefix under which a kind of thing is named: its ARN up to the name, or nothing where the
/// ARN is not known.
pub open spec fn kind_prefix(start: Option<Seq<char>>, kind: Seq<char>) -> Seq<char> {
    match start {
        Some(s) => s + kind,
        None => Seq::empty(),
    }
}

fn prefix_of_kind(region: &Option<String>, account_id: &Option<String>, service: &str, kind: &str) -> (prefix: String)
    ensures
        prefix@ == kind_prefix(
            arn_start(opt_text(*region), opt_text(*account_id), service@),
            kind@,
        ),
{
    match aws_resource_arn(region, account_id, service, kind) {
        Some(arn) => arn,
        None => String::new(),
    }
}

/// The name of a KMS key: its ARN as listed, or as it must be, or its ID. A key without an ID is
/// passed over.
pub open spec fn key_name(key: ListedItem, start: Option<Seq<char>>) -> Option<Seq<char>> {
    match key.id {
        None => None,
        Some(id) => match key.arn {
            Some(arn) => Some(arn@),
            None => Some(kind_prefix(start, "key/"@) + id@),
        },
    }
}

/// The names of KMS keys.
pub open spec fn key_names(keys: Seq<ListedItem>, start: Option<Seq<char>>) -> Seq<Option<Seq<char>>> {
    keys.map_values(|key: ListedItem| key_name(key, start))
}

fn name_keys(keys: &Vec<ListedItem>, region: &Option<String>, account_id: &Option<String>) -> (list: Vec<Option<String>>)
    ensures
        opt_texts(list@) == key_names(
            keys@,
            arn_start(opt_text(*region), opt_text(*account_id), "kms"@),
        ),
{
    let prefix = prefix_of_kind(region, account_id, "kms", "key/");
    let ghost start = arn_start(opt_text(*region), opt_text(*account_id), "kms"@);
    let mut list: Vec<Option<String>> = Vec::new();
    let mut i: usize = 0;
    while i < keys.len()
        invariant
            i <= keys@.len(),
            list@.len() == i,
            prefix@ == kind_prefix(start, "key/"@),
            forall|j: int| 0 <= j < i ==> opt_text(#[trigger] list@[j]) == key_name(keys@[j], start),
        decreases keys@.len() - i,
    {
        match &keys[i].id {
            None => list.push(None),
            Some(id) => match &keys[i].arn {
                Some(arn) => list.push(Some(arn.clone())),
                None => list.push(Some(cat2(prefix.as_str(), id.as_str()))),
            },
        }
        i = i + 1;
    }
    assert(opt_texts(list@) =~= key_names(keys@, start));
    list
}

/// The names of things by their ARN, or else by their ID.
pub open spec fn item_names(items: Seq<ListedItem>) -> Seq<Option<Seq<char>>> {
    items.map_values(|item: ListedItem| either(opt_text(item.arn), opt_text(item.id)))
}

fn name_items(items: &Vec<ListedItem>) -> (list: Vec<Option<String>>)
    ensures
        opt_texts(list@) == item_names(items@),
{
    let mut list: Vec<Option<String>> = Vec::new();
    let mut i: usize = 0;
    while i < items.len()
        invariant
            i <= items@.len(),
            list@.len() == i,
            forall|j: int|
                0 <= j < i ==> opt_text(#[trigger] list@[j]) == either(
                    opt_text(items@[j].arn),
                    opt_text(items@[j].id),
                ),
        decreases items@.len() - i,
    {
        list.push(or_text(&items[i].arn, &items[i].id));
        i = i + 1;
    }
    assert(opt_texts(list@) =~= item_names(items@));
    list
}

/// The name of an SSM parameter: its ARN where it is known, in which the name has no slash at its
/// start, or else its name as listed.
pub open spec fn parameter_name(name: Option<Seq<char>>, start: Option<Seq<char>>) -> Option<Seq<char>> {
    match name {
        None => None,
        Some(s) => match start {
            Some(arn) => Some(arn + ("parameter/"@ + without_leading(s, '/'))),
            None => Some(s),
        },
    }
}

/// The names of SSM parameters.
pub open spec fn parameter_names(names: Seq<Option<String>>, start: Option<Seq<char>>) -> Seq<Option<Seq<char>>> {
    names.map_values(|name: Option<String>| parameter_name(opt_text(name), start))
}

fn name_parameters(names: &Vec<Option<String>>, region: &Option<String>, account_id: &Option<String>) -> (list: Vec<Option<String>>)
    ensures
        opt_texts(list@) == parameter_names(
            names@,
            arn_start(opt_text(*region), opt_text(*account_id), "ssm"@),
        ),
{
    let ghost start = arn_start(opt_text(*region), opt_text(*account_id), "ssm"@);
    let mut list: Vec<Option<String>> = Vec::new();
    let mut i: usize = 0;
    while i < names.len()
        invariant
            i <= names@.len(),
            list@.len() == i,
            start == arn_start(opt_text(*region), opt_text(*account_id), "ssm"@),
            forall|j: int|
                0 <= j < i ==> opt_text(#[trigger] list@[j]) == parameter_name(opt_text(names@[j]), start),
        decreases names@.len() - i,
    {
        match &names[i] {
            None => list.push(None),
            Some(name) => {
                let bare = trim_start_char(name.as_str(), '/');
                let resource = cat2("parameter/", bare.as_str());
                match aws_resource_arn(region, account_id, "ssm", resource.as_str()) {
                    Some(arn) => list.push(Some(arn)),
                    None => list.push(Some(name.clone())),
                }
            },
        }
        i = i + 1;
    }
    assert(opt_texts(list@) =~= parameter_names(names@, start));
    list
}

/// Whether one of the permissions covers one of the action prefixes.
pub open spec fn covers_one_of(list: Seq<Seq<char>>, prefixes: Seq<Seq<char>>) -> bool {
    exists|i: int| 0 <= i < prefixes.len() && any_covers(list, #[trigger] prefixes[i])
}

fn some_covers_one_of(list: &Vec<String>, prefixes: &[&str]) -> (yes: bool)
    ensures
        yes == covers_one_of(texts(list@), crate::text::slices(prefixes@)),
{
    let mut i: usize = 0;
    while i < prefixes.len()
        invariant
            i <= prefixes@.len(),
            forall|j: int|
                0 <= j < i ==> !any_covers(
                    texts(list@),
                    #[trigger] crate::text::slices(prefixes@)[j],
                ),
        decreases prefixes@.len() - i,
    {
        if some_covers(list, prefixes[i]) {
            assert(any_covers(
                texts(list@),
                crate::text::slices(prefixes@)[i as int],
            ));
            return true;
        }
        i = i + 1;
    }
    false
}

/// A service whose things are of medium risk, or of high risk where the permissions act on them.
pub open spec fn acting_service(
    service: Seq<char>,
    prefix: Seq<char>,
    resource_type: Seq<char>,
    acts: bool,
    acting: Seq<char>,
    visible: Seq<char>,
) -> ServiceView {
    ServiceView {
        service,
        prefix,
        resource_type,
        risk: if acts {
            Severity::High
        } else {
            Severity::Medium
        },
        reason: if acts {
            acting
        } else {
            visible
        },
    }
}

fn make_acting_service(
    service: &'static str,
    prefix: &'static str,
    resource_type: &'static str,
    acts: bool,
    acting: &'static str,
    visible: &'static str,
) -> (made: Service)
    ensures
        made@ == acting_service(service@, prefix@, resource_type@, acts, acting@, visible@),
{
    Service {
        service,
        prefix,
        resource_type,
        risk: if acts {
            Severity::High
        } else {
            Severity::Medium
        },
        reason: if acts {
            acting
        } else {
            visible
        },
    }
}

/// The queue actions that change something.
pub open spec fn queue_actions() -> Seq<Seq<char>> {
    seq!["sqs.sendmessage"@, "sqs.purgequeue"@, "sqs.deletequeue"@, "sqs.createqueue"@]
}

/// The topic actions that change something.
pub open spec fn topic_actions() -> Seq<Seq<char>> {
    seq!["sns.publish"@, "sns.createtopic"@, "sns.deletetopic"@, "sns.settopicattributes"@]
}

/// The database actions that change something.
pub open spec fn database_actions() -> Seq<Seq<char>> {
    seq![
        "rds.modifydbinstance"@,
        "rds.createdbinstance"@,
        "rds.deletedbinstance"@,
        "rds.restoredbinstance"@,
    ]
}

/// The repository actions that change something.
pub open spec fn repository_actions() -> Seq<Seq<char>> {
    seq![
        "ecr.putimage"@,
        "ecr.batchdeleteimage"@,
        "ecr.setrepositorypolicy"@,
        "ecr.deleterepository"@,
        "ecr.createrepository"@,
    ]
}

/// The parameter actions that change something.
pub open spec fn parameter_write_actions() -> Seq<Seq<char>> {
    seq!["ssm.putparameter"@, "ssm.deleteparameter"@, "ssm.labelparameterversion"@]
}

/// The parameter actions that read values.
pub open spec fn parameter_read_actions() -> Seq<Seq<char>> {
    seq!["ssm.getparameter"@, "ssm.getparameters"@, "ssm.getparametersbypath"@]
}

/// How SSM parameters are reported.
pub open spec fn parameter_service(permissions: PermissionSummaryView) -> ServiceView {
    let modify = covers_one_of(acting_permissions(permissions), parameter_write_actions());
    let read = covers_one_of(all_permissions(permissions), parameter_read_actions());
    acting_service(
        "ssm"@,
        "ssm."@,
        "ssm_parameter"@,
        modify || read,
        if modify && read {
            "SSM parameter visible and parameter values may be readable and writable"@
        } else if modify {
            "SSM parameter visible and parameter metadata suggests write access"@
        } else {
            "SSM parameter visible and parameter values may be readable"@
        },
        "SSM parameter visible to the identity"@,
    )
}

/// A service whose things are of one risk.
pub open spec fn plain_service(
    service: Seq<char>,
    prefix: Seq<char>,
    resource_type: Seq<char>,
    risk: Severity,
    reason: Seq<char>,
) -> ServiceView {
    ServiceView { service, prefix, resource_type, risk, reason }
}

/// The ARNs of roles.
pub open spec fn role_names(roles: Seq<IamRole>) -> Seq<Option<Seq<char>>> {
    roles.map_values(|role: IamRole| Some(role.arn@))
}

fn name_roles(roles: &Vec<IamRole>) -> (list: Vec<Option<String>>)
    ensures
        opt_texts(list@) == role_names(roles@),
{
    let mut list: Vec<Option<String>> = Vec::new();
    let mut i: usize = 0;
    while i < roles.len()
        invariant
            i <= roles@.len(),
            list@.len() == i,
            forall|j: int| 0 <= j < i ==> opt_text(#[trigger] list@[j]) == Some(roles@[j].arn@),
        decreases roles@.len() - i,
    {
        list.push(Some(roles[i].arn.clone()));
        i = i + 1;
    }
    assert(opt_texts(list@) =~= role_names(roles@));
    list
}

/// The notes with the one on missing permissions.
pub open spec fn notes_on_permissions(notes: Seq<Seq<char>>, permissions: PermissionSummaryView) -> Seq<Seq<char>> {
    if none_known(permissions) {
        notes.push(
            "IAM permissions unavailable; attempting best-effort resource discovery without permission gating."@,
        )
    } else {
        notes
    }
}

/// What an EC2 instance is named under.
pub open spec fn instance_prefix(region: Option<Seq<char>>, account: Option<Seq<char>>) -> Seq<char> {
    "arn:aws:ec2:"@ + match region {
        Some(r) => r,
        None => "unknown-region"@,
    } + ":"@ + match account {
        Some(a) => a,
        None => "unknown-account"@,
    } + ":instance/"@
}

/// What is found in the first half of the services, in the order in which they are looked at.
pub open spec fn first_services(
    permissions: PermissionSummaryView,
    account: Option<Seq<char>>,
    roles: Seq<IamRole>,
    inventory: ServiceInventory,
    notes: Seq<Seq<char>>,
) -> ExposuresView {
    let region = opt_text(inventory.region);
    let start = ExposuresView {
        resources: Seq::empty(),
        risk_notes: notes_on_permissions(notes, permissions),
    };
    let s3 = after_service(
        start,
        permissions,
        plain_service("s3"@, "s3."@, "s3_bucket"@, Severity::Medium, "S3 bucket visible to the identity"@),
        names_with_prefix("arn:aws:s3:::"@, inventory.buckets.items@),
        inventory.buckets.failure,
    );
    let ec2 = after_service(
        s3,
        permissions,
        plain_service("ec2"@, "ec2."@, "ec2_instance"@, Severity::Medium, "EC2 instance readable by the identity"@),
        names_with_prefix(instance_prefix(region, account), inventory.instances.items@),
        inventory.instances.failure,
    );
    let iam = after_service(
        ec2,
        permissions,
        plain_service(
            "iam"@,
            "iam."@,
            "iam_role"@,
            Severity::High,
            "Identity can view IAM roles; may indicate privilege escalation potential"@,
        ),
        role_names(roles),
        None,
    );
    let lambda = after_service(
        iam,
        permissions,
        plain_service(
            "lambda"@,
            "lambda."@,
            "lambda_function"@,
            Severity::Medium,
            "Lambda visible; may imply code execution pathways"@,
        ),
        opt_texts(inventory.functions.items@),
        inventory.functions.failure,
    );
    after_service(
        lambda,
        permissions,
        plain_service(
            "dynamodb"@,
            "dynamodb."@,
            "dynamodb_table"@,
            Severity::Medium,
            "DynamoDB table visible to the identity"@,
        ),
        names_with_prefix(
            kind_prefix(arn_start(region, account, "dynamodb"@), "table/"@),
            inventory.tables.items@,
        ),
        inventory.tables.failure,
    )
}

/// What is found once every service was looked at.
pub open spec fn enumerated(
    permissions: PermissionSummaryView,
    account: Option<Seq<char>>,
    roles: Seq<IamRole>,
    inventory: ServiceInventory,
    notes: Seq<Seq<char>>,
) -> ExposuresView {
    let region = opt_text(inventory.region);
    let acting = acting_permissions(permissions);
    let kms = after_service(
        first_services(permissions, account, roles, inventory, notes),
        permissions,
        plain_service(
            "kms"@,
            "kms."@,
            "kms_key"@,
            Severity::High,
            "Identity can view KMS keys; possible cryptographic privilege paths"@,
        ),
        key_names(inventory.keys.items@, arn_start(region, account, "kms"@)),
        inventory.keys.failure,
    );
    let secrets = after_service(
        kms,
        permissions,
        plain_service(
            "secretsmanager"@,
            "secretsmanager."@,
            "secret"@,
            Severity::High,
            "Secret visible to the identity"@,
        ),
        opt_texts(inventory.secrets.items@),
        inventory.secrets.failure,
    );
    let sqs = after_service(
        secrets,
        permissions,
        acting_service(
            "sqs"@,
            "sqs."@,
            "sqs_queue"@,
            covers_one_of(acting, queue_actions()),
            "SQS queue visible and queue messages may be writable or destructive"@,
            "SQS queue visible to the identity"@,
        ),
        opt_texts(inventory.queues.items@),
        inventory.queues.failure,
    );
    let sns = after_service(
        sqs,
        permissions,
        acting_service(
            "sns"@,
            "sns."@,
            "sns_topic"@,
            covers_one_of(acting, topic_actions()),
            "SNS topic visible and publish or topic-management actions appear available"@,
            "SNS topic visible to the identity"@,
        ),
        opt_texts(inventory.topics.items@),
        inventory.topics.failure,
    );
    let rds = after_service(
        sns,
        permissions,
        acting_service(
            "rds"@,
            "rds."@,
            "rds_instance"@,
            covers_one_of(acting, database_actions()),
            "RDS instance visible and instance lifecycle changes appear possible"@,
            "RDS instance visible to the identity"@,
        ),
        item_names(inventory.databases.items@),
        inventory.databases.failure,
    );
    let ecr = after_service(
        rds,
        permissions,
        acting_service(
            "ecr"@,
            "ecr."@,
            "ecr_repository"@,
            covers_one_of(acting, repository_actions()),
            "ECR repository visible and image push or policy changes appear possible"@,
            "ECR repository visible to the identity"@,
        ),
        item_names(inventory.repositories.items@),
        inventory.repositories.failure,
    );
    after_service(
        ecr,
        permissions,
        parameter_service(permissions),
        parameter_names(inventory.parameters.items@, arn_start(region, account, "ssm"@)),
        inventory.parameters.failure,
    )
}

fn enumerate_first(
    permissions: &PermissionSummary,
    account_id: &Option<String>,
    role_inventory: &Vec<IamRole>,
    inventory: &ServiceInventory,
    risk_notes: Vec<String>,
) -> (found: Exposures)
    ensures
        found@ == first_services(
            permissions@,
            opt_text(*account_id),
            role_inventory@,
            *inventory,
            texts(risk_notes@),
        ),
{
    let mut risk_notes = risk_notes;
    if permissions.is_empty() {
        push_text(
            &mut risk_notes,
            "IAM permissions unavailable; attempting best-effort resource discovery without permission gating.".to_owned(),
        );
    }
    let start = Exposures { resources: no_views(), risk_notes };
    let s3 = expose_service(
        start,
        permissions,
        &Service {
            service: "s3",
            prefix: "s3.",
            resource_type: "s3_bucket",
            risk: Severity::Medium,
            reason: "S3 bucket visible to the identity",
        },
        &prefix_names("arn:aws:s3:::", &inventory.buckets.items),
        &inventory.buckets.failure,
    );
    let region = unwrap_text(&inventory.region, "unknown-region");
    let account = unwrap_text(account_id, "unknown-account");
    let instances = cat5(
        "arn:aws:ec2:",
        region.as_str(),
        ":",
        account.as_str(),
        ":instance/",
    );
    let ec2 = expose_service(
        s3,
        permissions,
        &Service {
            service: "ec2",
            prefix: "ec2.",
            resource_type: "ec2_instance",
            risk: Severity::Medium,
            reason: "EC2 instance readable by the identity",
        },
        &prefix_names(instances.as_str(), &inventory.instances.items),
        &inventory.instances.failure,
    );
    let iam = expose_service(
        ec2,
        permissions,
        &Service {
            service: "iam",
            prefix: "iam.",
            resource_type: "iam_role",
            risk: Severity::High,
            reason: "Identity can view IAM roles; may indicate privilege escalation potential",
        },
        &name_roles(role_inventory),
        &None,
    );
    let lambda = expose_service(
        iam,
        permissions,
        &Service {
            service: "lambda",
            prefix: "lambda.",
            resource_type: "lambda_function",
            risk: Severity::Medium,
            reason: "Lambda visible; may imply code execution pathways",
        },
        &inventory.functions.items,
        &inventory.functions.failure,
    );
    let tables = prefix_of_kind(&inventory.region, account_id, "dynamodb", "table/");
    expose_service(
        lambda,
        permissions,
        &Service {
            service: "dynamodb",
            prefix: "dynamodb.",
            resource_type: "dynamodb_table",
            risk: Severity::Medium,
            reason: "DynamoDB table visible to the identity",
        },
        &prefix_names(tables.as_str(), &inventory.tables.items),
        &inventory.tables.failure,
    )
}

fn service_of_parameters(permissions: &PermissionSummary, acting: &Vec<String>) -> (service: Service)
    requires
        texts(acting@) == acting_permissions(permissions@),
    ensures
        service@ == parameter_service(permissions@),
{
    let writes: [&str; 3] = ["ssm.putparameter", "ssm.deleteparameter", "ssm.labelparameterversion"];
    assert(crate::text::slices(writes@) =~= parameter_write_actions());
    let reads: [&str; 3] = ["ssm.getparameter", "ssm.getparameters", "ssm.getparametersbypath"];
    assert(crate::text::slices(reads@) =~= parameter_read_actions());
    let can_modify = some_covers_one_of(acting, &writes);
    let can_read_values = some_covers_one_of(&collect_permissions(permissions), &reads);
    make_acting_service(
        "ssm",
        "ssm.",
        "ssm_parameter",
        can_modify || can_read_values,
        if can_modify && can_read_values {
            "SSM parameter visible and parameter values may be readable and writable"
        } else if can_modify {
            "SSM parameter visible and parameter metadata suggests write access"
        } else {
            "SSM parameter visible and parameter values may be readable"
        },
        "SSM parameter visible to the identity",
    )
}

pub fn enumerate_resources(
    permissions: &PermissionSummary,
    account_id: &Option<String>,
    role_inventory: &Vec<IamRole>,
    inventory: &ServiceInventory,
    risk_notes: Vec<String>,
) -> (found: Exposures)
    ensures
        found@ == enumerated(
            permissions@,
            opt_text(*account_id),
            role_inventory@,
            *inventory,
            texts(risk_notes@),
        ),
{
    let first = enumerate_first(permissions, account_id, role_inventory, inventory, risk_notes);
    let acting = collect_acting(permissions);
    let kms = expose_service(
        first,
        permissions,
        &Service {
            service: "kms",
            prefix: "kms.",
            resource_type: "kms_key",
            risk: Severity::High,
            reason: "Identity can view KMS keys; possible cryptographic privilege paths",
        },
        &name_keys(&inventory.keys.items, &inventory.region, account_id),
        &inventory.keys.failure,
    );
    let secrets = expose_service(
        kms,
        permissions,
        &Service {
            service: "secretsmanager",
            prefix: "secretsmanager.",
            resource_type: "secret",
            risk: Severity::High,
            reason: "Secret visible to the identity",
        },
        &inventory.secrets.items,
        &inventory.secrets.failure,
    );
    let queue_writes: [&str; 4] = ["sqs.sendmessage", "sqs.purgequeue", "sqs.deletequeue", "sqs.createqueue"];
    assert(crate::text::slices(queue_writes@) =~= queue_actions());
    let sqs = expose_service(
        secrets,
        permissions,
        &make_acting_service(
            "sqs",
            "sqs.",
            "sqs_queue",
            some_covers_one_of(&acting, &queue_writes),
            "SQS queue visible and queue messages may be writable or destructive",
            "SQS queue visible to the identity",
        ),
        &inventory.queues.items,
        &inventory.queues.failure,
    );
    let topic_writes: [&str; 4] = ["sns.publish", "sns.createtopic", "sns.deletetopic", "sns.settopicattributes"];
    assert(crate::text::slices(topic_writes@) =~= topic_actions());
    let sns = expose_service(
        sqs,
        permissions,
        &make_acting_service(
            "sns",
            "sns.",
            "sns_topic",
            some_covers_one_of(&acting, &topic_writes),
            "SNS topic visible and publish or topic-management actions appear available",
            "SNS topic visible to the identity",
        ),
        &inventory.topics.items,
        &inventory.topics.failure,
    );
    let database_writes: [&str; 4] = [
        "rds.modifydbinstance",
        "rds.createdbinstance",
        "rds.deletedbinstance",
        "rds.restoredbinstance",
    ];
    assert(crate::text::slices(database_writes@) =~= database_actions());
    let rds = expose_service(
        sns,
        permissions,
        &make_acting_service(
            "rds",
            "rds.",
            "rds_instance",
            some_covers_one_of(&acting, &database_writes),
            "RDS instance visible and instance lifecycle changes appear possible",
            "RDS instance visible to the identity",
        ),
        &name_items(&inventory.databases.items),
        &inventory.databases.failure,
    );
    let repository_writes: [&str; 5] = [
        "ecr.putimage",
        "ecr.batchdeleteimage",
        "ecr.setrepositorypolicy",
        "ecr.deleterepository",
        "ecr.createrepository",
    ];
    assert(crate::text::slices(repository_writes@) =~= repository_actions());
    let ecr = expose_service(
        rds,
        permissions,
        &make_acting_service(
            "ecr",
            "ecr.",
            "ecr_repository",
            some_covers_one_of(&acting, &repository_writes),
            "ECR repository visible and image push or policy changes appear possible",
            "ECR repository visible to the identity",
        ),
        &name_items(&inventory.repositories.items),
        &inventory.repositories.failure,
    );
    expose_service(
        ecr,
        permissions,
        &service_of_parameters(permissions, &acting),
        &name_parameters(&inventory.parameters.items, &inventory.region, account_id),
        &inventory.parameters.failure,
    )
}

/// A resource of a kind, by its name, is among the resources.
pub open spec fn has_resource(
    resources: Seq<ResourceExposureView>,
    resource_type: Seq<char>,
    name: Seq<char>,
) -> bool {
    exists|i: int|
        0 <= i < resources.len() && (#[trigger] resources[i]).resource_type == resource_type
            && resources[i].name == name
}

proof fn lemma_exposures_upto(
    names: Seq<Option<Seq<char>>>,
    service: ServiceView,
    permissions: Seq<Seq<char>>,
    n: int,
    k: int,
)
    requires
        0 <= k < n <= names.len(),
        names[k] is Some,
    ensures
        exists|i: int|
            0 <= i < exposures_upto(names, service, permissions, n).len() && {
                let resource = #[trigger] exposures_upto(names, service, permissions, n)[i];
                &&& resource.resource_type == service.resource_type
                &&& resource.name == names[k]->0
                &&& resource.permissions == permissions
                &&& resource.risk == severity_text(service.risk)
            },
    decreases n,
{
    let before = exposures_upto(names, service, permissions, n - 1);
    let now = exposures_upto(names, service, permissions, n);
    if k < n - 1 {
        lemma_exposures_upto(names, service, permissions, n - 1, k);
        let i = choose|i: int|
            0 <= i < before.len() && {
                let resource = #[trigger] before[i];
                &&& resource.resource_type == service.resource_type
                &&& resource.name == names[k]->0
                &&& resource.permissions == permissions
                &&& resource.risk == severity_text(service.risk)
            };
        assert(now[i] == before[i]);
    } else {
        assert(now[before.len() as int].name == names[k]->0);
    }
}

/// A service is looked at where no permission of the identity is known, and where one of them is for
/// everything or names the service. Then everything listed in it that has a name is reported, whichever
/// item it is, with the permissions on the service; what was found before stays.
pub proof fn lemma_services_are_reported(
    found: ExposuresView,
    permissions: PermissionSummaryView,
    service: ServiceView,
    names: Seq<Option<Seq<char>>>,
    failure: Option<AwsFailure>,
    resource_type: Seq<char>,
    name: Seq<char>,
    permission: Seq<char>,
)
    ensures
        ({
            let now = after_service(found, permissions, service, names, failure);
            let known = permissions.admin.contains(permission)
                || permissions.privilege_escalation.contains(permission)
                || permissions.risky.contains(permission) || permissions.read_only.contains(permission);
            let looked = none_known(permissions) || (known && (permission == "*"@ || begins(
                permission,
                lowered(service.prefix),
            )));
            &&& found.resources.is_prefix_of(now.resources)
            &&& has_resource(found.resources, resource_type, name) ==> has_resource(
                now.resources,
                resource_type,
                name,
            )
            &&& looked && names.contains(Some(name)) && resource_type == service.resource_type
                ==> has_resource(now.resources, resource_type, name)
            &&& looked && failure is Some && !denied_access(failure->0) ==> now.risk_notes.contains(
                "AWS enumeration failed for "@ + service.service + ": "@ + failure->0.display@,
            )
            &&& looked && failure is Some && denied_access(failure->0) ==> now.risk_notes.contains(
                "AWS enumeration incomplete: AccessDenied for "@ + service.service,
            )
        }),
{
    let now = after_service(found, permissions, service, names, failure);
    let prefix = lowered(service.prefix);
    lemma_service_permissions(permissions, prefix, permission);
    assert(found.resources =~= now.resources.subrange(0, found.resources.len() as int));
    if has_resource(found.resources, resource_type, name) {
        let i = choose|i: int|
            0 <= i < found.resources.len() && (#[trigger] found.resources[i]).resource_type
                == resource_type && found.resources[i].name == name;
        assert(now.resources[i] == found.resources[i]);
    }
    if looked_at(permissions, service.prefix) {
        let own = prefix_permissions(permissions, service.prefix);
        let added = exposures_upto(names, service, own, names.len() as int);
        if names.contains(Some(name)) {
            let k = choose|k: int| 0 <= k < names.len() && names[k] == Some(name);
            lemma_exposures_upto(names, service, own, names.len() as int, k);
            let i = choose|i: int|
                0 <= i < added.len() && (#[trigger] added[i]).resource_type == service.resource_type
                    && added[i].name == name;
            assert(now.resources[found.resources.len() + i] == added[i]);
        }
        match failure {
            Some(reason) => {
                if denied_access(reason) {
                    assert(now.risk_notes[found.risk_notes.len() as int]
                        == "AWS enumeration incomplete: AccessDenied for "@ + service.service);
                } else {
                    lemma_noted_keeps(
                        found.risk_notes,
                        "AWS enumeration failed for "@ + service.service + ": "@ + reason.display@,
                    );
                }
            },
            None => {},
        }
    }
}

proof fn lemma_chain(
    permissions: PermissionSummaryView,
    account: Option<Seq<char>>,
    roles: Seq<IamRole>,
    inventory: ServiceInventory,
    notes: Seq<Seq<char>>,
    resource_type: Seq<char>,
    name: Seq<char>,
)
    requires
        none_known(permissions) || permissions.admin.contains("*"@),
    ensures
        names_with_prefix("arn:aws:s3:::"@, inventory.buckets.items@).contains(Some(name)) && resource_type == "s3_bucket"@ ==> has_resource(
            enumerated(permissions, account, roles, inventory, notes).resources,
            resource_type,
            name,
        ),
        names_with_prefix(instance_prefix(opt_text(inventory.region), account), inventory.instances.items@).contains(Some(name)) && resource_type == "ec2_instance"@ ==> has_resource(
            enumerated(permissions, account, roles, inventory, notes).resources,
            resource_type,
            name,
        ),
        role_names(roles).contains(Some(name)) && resource_type == "iam_role"@ ==> has_resource(
            enumerated(permissions, account, roles, inventory, notes).resources,
            resource_type,
            name,
        ),
        opt_texts(inventory.functions.items@).contains(Some(name)) && resource_type == "lambda_function"@ ==> has_resource(
            enumerated(permissions, account, roles, inventory, notes).resources,
            resource_type,
            name,
        ),
        names_with_prefix(kind_prefix(arn_start(opt_text(inventory.region), account, "dynamodb"@), "table/"@), inventory.tables.items@).contains(Some(name)) && resource_type == "dynamodb_table"@ ==> has_resource(
            enumerated(permissions, account, roles, inventory, notes).resources,
            resource_type,
            name,
        ),
        key_names(inventory.keys.items@, arn_start(opt_text(inventory.region), account, "kms"@)).contains(Some(name)) && resource_type == "kms_key"@ ==> has_resource(
            enumerated(permissions, account, roles, inventory, notes).resources,
            resource_type,
            name,
        ),
        opt_texts(inventory.secrets.items@).contains(Some(name)) && resource_type == "secret"@ ==> has_resource(
            enumerated(permissions, account, roles, inventory, notes).resources,
            resource_type,
            name,
        ),
        opt_texts(inventory.queues.items@).contains(Some(name)) && resource_type == "sqs_queue"@ ==> has_resource(
            enumerated(permissions, account, roles, inventory, notes).resources,
            resource_type,
            name,
        ),
        opt_texts(inventory.topics.items@).contains(Some(name)) && resource_type == "sns_topic"@ ==> has_resource(
            enumerated(permissions, account, roles, inventory, notes).resources,
            resource_type,
            name,
        ),
        item_names(inventory.databases.items@).contains(Some(name)) && resource_type == "rds_instance"@ ==> has_resource(
            enumerated(permissions, account, roles, inventory, notes).resources,
            resource_type,
            name,
        ),
        item_names(inventory.repositories.items@).contains(Some(name)) && resource_type == "ecr_repository"@ ==> has_resource(
            enumerated(permissions, account, roles, inventory, notes).resources,
            resource_type,
            name,
        ),
        parameter_names(inventory.parameters.items@, arn_start(opt_text(inventory.region), account, "ssm"@)).contains(Some(name)) && resource_type == "ssm_parameter"@ ==> has_resource(
            enumerated(permissions, account, roles, inventory, notes).resources,
            resource_type,
            name,
        ),
{
    let region = opt_text(inventory.region);
    let start = ExposuresView {
        resources: Seq::empty(),
        risk_notes: notes_on_permissions(notes, permissions),
    };
    let s3 = after_service(
        start,
        permissions,
        plain_service("s3"@, "s3."@, "s3_bucket"@, Severity::Medium, "S3 bucket visible to the identity"@),
        names_with_prefix("arn:aws:s3:::"@, inventory.buckets.items@),
        inventory.buckets.failure,
    );
    let ec2 = after_service(
        s3,
        permissions,
        plain_service("ec2"@, "ec2."@, "ec2_instance"@, Severity::Medium, "EC2 instance readable by the identity"@),
        names_with_prefix(instance_prefix(region, account), inventory.instances.items@),
        inventory.instances.failure,
    );
    let iam = after_service(
        ec2,
        permissions,
        plain_service(
            "iam"@,
            "iam."@,
            "iam_role"@,
            Severity::High,
            "Identity can view IAM roles; may indicate privilege escalation potential"@,
        ),
        role_names(roles),
        None,
    );
    let lambda = after_service(
        iam,
        permissions,
        plain_service(
            "lambda"@,
            "lambda."@,
            "lambda_function"@,
            Severity::Medium,
            "Lambda visible; may imply code execution pathways"@,
        ),
        opt_texts(inventory.functions.items@),
        inventory.functions.failure,
    );
    let dynamodb = after_service(
        lambda,
        permissions,
        plain_service(
            "dynamodb"@,
            "dynamodb."@,
            "dynamodb_table"@,
            Severity::Medium,
            "DynamoDB table visible to the identity"@,
        ),
        names_with_prefix(
            kind_prefix(arn_start(region, account, "dynamodb"@), "table/"@),
            inventory.tables.items@,
        ),
        inventory.tables.failure,
    );
    let acting = acting_permissions(permissions);
    let kms = after_service(
        dynamodb,
        permissions,
        plain_service(
            "kms"@,
            "kms."@,
            "kms_key"@,
            Severity::High,
            "Identity can view KMS keys; possible cryptographic privilege paths"@,
        ),
        key_names(inventory.keys.items@, arn_start(region, account, "kms"@)),
        inventory.keys.failure,
    );
    let secrets = after_service(
        kms,
        permissions,
        plain_service(
            "secretsmanager"@,
            "secretsmanager."@,
            "secret"@,
            Severity::High,
            "Secret visible to the identity"@,
        ),
        opt_texts(inventory.secrets.items@),
        inventory.secrets.failure,
    );
    let sqs = after_service(
        secrets,
        permissions,
        acting_service(
            "sqs"@,
            "sqs."@,
            "sqs_queue"@,
            covers_one_of(acting, queue_actions()),
            "SQS queue visible and queue messages may be writable or destructive"@,
            "SQS queue visible to the identity"@,
        ),
        opt_texts(inventory.queues.items@),
        inventory.queues.failure,
    );
    let sns = after_service(
        sqs,
        permissions,
        acting_service(
            "sns"@,
            "sns."@,
            "sns_topic"@,
            covers_one_of(acting, topic_actions()),
            "SNS topic visible and publish or topic-management actions appear available"@,
            "SNS topic visible to the identity"@,
        ),
        opt_texts(inventory.topics.items@),
        inventory.topics.failure,
    );
    let rds = after_service(
        sns,
        permissions,
        acting_service(
            "rds"@,
            "rds."@,
            "rds_instance"@,
            covers_one_of(acting, database_actions()),
            "RDS instance visible and instance lifecycle changes appear possible"@,
            "RDS instance visible to the identity"@,
        ),
        item_names(inventory.databases.items@),
        inventory.databases.failure,
    );
    let ecr = after_service(
        rds,
        permissions,
        acting_service(
            "ecr"@,
            "ecr."@,
            "ecr_repository"@,
            covers_one_of(acting, repository_actions()),
            "ECR repository visible and image push or policy changes appear possible"@,
            "ECR repository visible to the identity"@,
        ),
        item_names(inventory.repositories.items@),
        inventory.repositories.failure,
    );
    let ssm = after_service(
        ecr,
        permissions,
        parameter_service(permissions),
        parameter_names(inventory.parameters.items@, arn_start(region, account, "ssm"@)),
        inventory.parameters.failure,
    );
    lemma_services_are_reported(
        start,
        permissions,
        plain_service("s3"@, "s3."@, "s3_bucket"@, Severity::Medium, "S3 bucket visible to the identity"@),
        names_with_prefix("arn:aws:s3:::"@, inventory.buckets.items@),
        inventory.buckets.failure,
        resource_type,
        name,
        "*"@,
    );
    lemma_services_are_reported(
        s3,
        permissions,
        plain_service("ec2"@, "ec2."@, "ec2_instance"@, Severity::Medium, "EC2 instance readable by the identity"@),
        names_with_prefix(instance_prefix(region, account), inventory.instances.items@),
        inventory.instances.failure,
        resource_type,
        name,
        "*"@,
    );
    lemma_services_are_reported(
        ec2,
        permissions,
        plain_service(
            "iam"@,
            "iam."@,
            "iam_role"@,
            Severity::High,
            "Identity can view IAM roles; may indicate privilege escalation potential"@,
        ),
        role_names(roles),
        None,
        resource_type,
        name,
        "*"@,
    );
    lemma_services_are_reported(
        iam,
        permissions,
        plain_service(
            "lambda"@,
            "lambda."@,
            "lambda_function"@,
            Severity::Medium,
            "Lambda visible; may imply code execution pathways"@,
        ),
        opt_texts(inventory.functions.items@),
        inventory.functions.failure,
        resource_type,
        name,
        "*"@,
    );
    lemma_services_are_reported(
        lambda,
        permissions,
        plain_service(
            "dynamodb"@,
            "dynamodb."@,
            "dynamodb_table"@,
            Severity::Medium,
            "DynamoDB table visible to the identity"@,
        ),
        names_with_prefix(
            kind_prefix(arn_start(region, account, "dynamodb"@), "table/"@),
            inventory.tables.items@,
        ),
        inventory.tables.failure,
        resource_type,
        name,
        "*"@,
    );
    lemma_services_are_reported(
        dynamodb,
        permissions,
        plain_service(
            "kms"@,
            "kms."@,
            "kms_key"@,
            Severity::High,
            "Identity can view KMS keys; possible cryptographic privilege paths"@,
        ),
        key_names(inventory.keys.items@, arn_start(region, account, "kms"@)),
        inventory.keys.failure,
        resource_type,
        name,
        "*"@,
    );
    lemma_services_are_reported(
        kms,
        permissions,
        plain_service(
            "secretsmanager"@,
            "secretsmanager."@,
            "secret"@,
            Severity::High,
            "Secret visible to the identity"@,
        ),
        opt_texts(inventory.secrets.items@),
        inventory.secrets.failure,
        resource_type,
        name,
        "*"@,
    );
    lemma_services_are_reported(
        secrets,
        permissions,
        acting_service(
            "sqs"@,
            "sqs."@,
            "sqs_queue"@,
            covers_one_of(acting, queue_actions()),
            "SQS queue visible and queue messages may be writable or destructive"@,
            "SQS queue visible to the identity"@,
        ),
        opt_texts(inventory.queues.items@),
        inventory.queues.failure,
        resource_type,
        name,
        "*"@,
    );
    lemma_services_are_reported(
        sqs,
        permissions,
        acting_service(
            "sns"@,
            "sns."@,
            "sns_topic"@,
            covers_one_of(acting, topic_actions()),
            "SNS topic visible and publish or topic-management actions appear available"@,
            "SNS topic visible to the identity"@,
        ),
        opt_texts(inventory.topics.items@),
        inventory.topics.failure,
        resource_type,
        name,
        "*"@,
    );
    lemma_services_are_reported(
        sns,
        permissions,
        acting_service(
            "rds"@,
            "rds."@,
            "rds_instance"@,
            covers_one_of(acting, database_actions()),
            "RDS instance visible and instance lifecycle changes appear possible"@,
            "RDS instance visible to the identity"@,
        ),
        item_names(inventory.databases.items@),
        inventory.databases.failure,
        resource_type,
        name,
        "*"@,
    );
    lemma_services_are_reported(
        rds,
        permissions,
        acting_service(
            "ecr"@,
            "ecr."@,
            "ecr_repository"@,
            covers_one_of(acting, repository_actions()),
            "ECR repository visible and image push or policy changes appear possible"@,
            "ECR repository visible to the identity"@,
        ),
        item_names(inventory.repositories.items@),
        inventory.repositories.failure,
        resource_type,
        name,
        "*"@,
    );
    lemma_services_are_reported(
        ecr,
        permissions,
        parameter_service(permissions),
        parameter_names(inventory.parameters.items@, arn_start(region, account, "ssm"@)),
        inventory.parameters.failure,
        resource_type,
        name,
        "*"@,
    );
}

/// With every permission, or with none known, each thing that was listed is reported: buckets, functions,
/// tables, secrets, queues and topics by their names or ARNs, and every visible role.
pub proof fn lemma_everything_listed_is_reported(
    permissions: PermissionSummaryView,
    account: Option<Seq<char>>,
    roles: Seq<IamRole>,
    inventory: ServiceInventory,
    notes: Seq<Seq<char>>,
    k: int,
)
    requires
        none_known(permissions) || permissions.admin.contains("*"@),
    ensures
        ({
            let resources = enumerated(permissions, account, roles, inventory, notes).resources;
            &&& 0 <= k < inventory.buckets.items@.len() && inventory.buckets.items@[k] is Some
                ==> has_resource(
                resources,
                "s3_bucket"@,
                "arn:aws:s3:::"@ + inventory.buckets.items@[k]->0@,
            )
            &&& 0 <= k < roles.len() ==> has_resource(resources, "iam_role"@, roles[k].arn@)
            &&& 0 <= k < inventory.functions.items@.len() && inventory.functions.items@[k] is Some
                ==> has_resource(resources, "lambda_function"@, inventory.functions.items@[k]->0@)
            &&& 0 <= k < inventory.secrets.items@.len() && inventory.secrets.items@[k] is Some
                ==> has_resource(resources, "secret"@, inventory.secrets.items@[k]->0@)
            &&& 0 <= k < inventory.queues.items@.len() && inventory.queues.items@[k] is Some
                ==> has_resource(resources, "sqs_queue"@, inventory.queues.items@[k]->0@)
            &&& 0 <= k < inventory.topics.items@.len() && inventory.topics.items@[k] is Some
                ==> has_resource(resources, "sns_topic"@, inventory.topics.items@[k]->0@)
        }),
{
    if 0 <= k < inventory.buckets.items@.len() && inventory.buckets.items@[k] is Some {
        let name = "arn:aws:s3:::"@ + inventory.buckets.items@[k]->0@;
        let names = names_with_prefix("arn:aws:s3:::"@, inventory.buckets.items@);
        assert(names[k] == Some(name));
        lemma_chain(permissions, account, roles, inventory, notes, "s3_bucket"@, name);
    }
    if 0 <= k < roles.len() {
        assert(role_names(roles)[k] == Some(roles[k].arn@));
        lemma_chain(permissions, account, roles, inventory, notes, "iam_role"@, roles[k].arn@);
    }
    if 0 <= k < inventory.functions.items@.len() && inventory.functions.items@[k] is Some {
        let name = inventory.functions.items@[k]->0@;
        assert(opt_texts(inventory.functions.items@)[k] == Some(name));
        lemma_chain(permissions, account, roles, inventory, notes, "lambda_function"@, name);
    }
    if 0 <= k < inventory.secrets.items@.len() && inventory.secrets.items@[k] is Some {
        let name = inventory.secrets.items@[k]->0@;
        assert(opt_texts(inventory.secrets.items@)[k] == Some(name));
        lemma_chain(permissions, account, roles, inventory, notes, "secret"@, name);
    }
    if 0 <= k < inventory.queues.items@.len() && inventory.queues.items@[k] is Some {
        let name = inventory.queues.items@[k]->0@;
        assert(opt_texts(inventory.queues.items@)[k] == Some(name));
        lemma_chain(permissions, account, roles, inventory, notes, "sqs_queue"@, name);
    }
    if 0 <= k < inventory.topics.items@.len() && inventory.topics.items@[k] is Some {
        let name = inventory.topics.items@[k]->0@;
        assert(opt_texts(inventory.topics.items@)[k] == Some(name));
        lemma_chain(permissions, account, roles, inventory, notes, "sns_topic"@, name);
    }
}

proof fn lemma_exposures_at_risk(
    names: Seq<Option<Seq<char>>>,
    service: ServiceView,
    permissions: Seq<Seq<char>>,
    n: int,
    k: int,
)
    requires
        0 <= k < n <= names.len(),
        names[k] is Some,
    ensures
        exposures_upto(names, service, permissions, n).contains(
            exposure(service.resource_type, names[k]->0, permissions, service.risk, service.reason),
        ),
    decreases n,
{
    let before = exposures_upto(names, service, permissions, n - 1);
    let now = exposures_upto(names, service, permissions, n);
    let own = exposure(
        service.resource_type,
        names[k]->0,
        permissions,
        service.risk,
        service.reason,
    );
    if k < n - 1 {
        lemma_exposures_at_risk(names, service, permissions, n - 1, k);
        let i = choose|i: int| 0 <= i < before.len() && before[i] == own;
        assert(now[i] == own);
    } else {
        assert(now[before.len() as int] == own);
    }
}

/// What a service lists is at high risk where the identity may act on it and at medium risk where it may only
/// see it, with the permissions that the identity has on the service.
pub proof fn lemma_acting_is_a_higher_risk(
    found: ExposuresView,
    permissions: PermissionSummaryView,
    service: Seq<char>,
    prefix: Seq<char>,
    resource_type: Seq<char>,
    acts: bool,
    acting: Seq<char>,
    visible: Seq<char>,
    names: Seq<Option<Seq<char>>>,
    failure: Option<AwsFailure>,
    k: int,
)
    requires
        looked_at(permissions, prefix),
        0 <= k < names.len(),
        names[k] is Some,
    ensures
        ({
            let now = after_service(
                found,
                permissions,
                acting_service(service, prefix, resource_type, acts, acting, visible),
                names,
                failure,
            );
            exists|i: int|
                found.resources.len() <= i < now.resources.len() && (#[trigger] now.resources[i]).name
                    == names[k]->0 && now.resources[i].resource_type == resource_type && (acts
                    ==> now.resources[i].risk == "high"@ && now.resources[i].reason == acting) && (!acts
                    ==> now.resources[i].risk == "medium"@ && now.resources[i].reason == visible)
        }),
{
    let made = acting_service(service, prefix, resource_type, acts, acting, visible);
    let held = prefix_permissions(permissions, prefix);
    let now = after_service(found, permissions, made, names, failure);
    let own = exposure(resource_type, names[k]->0, held, made.risk, made.reason);
    lemma_exposures_at_risk(names, made, held, names.len() as int, k);
    let listed = exposures_upto(names, made, held, names.len() as int);
    let i = choose|i: int| 0 <= i < listed.len() && listed[i] == own;
    assert(now.resources[found.resources.len() + i] == own);
}

} // verus!
