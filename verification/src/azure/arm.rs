//! What Azure Resource Manager says of a principal.

use vstd::prelude::*;
use crate::azure::permissions::{
    arm_role_severity, classify_arm_role, definition_actions, lemma_roles_are_filed_by_their_power,
    role_class, role_definition_permissions, role_permission, role_severity, rules_access,
    ArmRoleDefinition,
};
use crate::model::{
    binding, empty_permission_summary, exposure, no_views, push_view, views, PermissionSummary,
    PermissionSummaryView, ResourceExposure, ResourceExposureView, RoleBinding, RoleBindingView,
    Severity,
};
use crate::permissions::{
    class_list, filed, lemma_filed, sort_permission_summary, sorted_summary, PermissionClass,
};
use crate::text::{
    ascii_lower, begins, cat2, cat3, cat4, cat5, decimal, ends, holds, no_texts, one_text, pieces,
    push_text, split, str_eq, text_or, texts, unwrap_text, usize_text,
};

verus! {

pub const MAX_SUBSCRIPTIONS: usize = 25;

pub const MAX_RBAC_PRINCIPALS: usize = 10;

pub const MAX_ROLE_DEFINITIONS: usize = 100;

/// A subscription.
#[derive(Debug)]
pub struct ArmSubscription {
    pub subscription_id: String,
    pub display_name: Option<String>,
    pub state: Option<String>,
    pub tenant_id: Option<String>,
}

/// A resource group.
#[derive(Debug)]
pub struct ArmResourceGroup {
    pub id: String,
    pub name: String,
    pub location: Option<String>,
}

/// A role assigned to a principal on a scope.
#[derive(Debug)]
pub struct ArmRoleAssignment {
    pub id: String,
    pub role_definition_id: String,
    pub scope: String,
    pub principal_id: Option<String>,
    pub principal_type: Option<String>,
}

/// A principal whose role assignments are looked up, and how it is reached.
#[derive(Debug)]
pub struct RbacPrincipal {
    pub id: String,
    pub source: String,
}

/// What a `RbacPrincipal` says.
#[verifier::ext_equal]
pub struct RbacPrincipalView {
    pub id: Seq<char>,
    pub source: Seq<char>,
}

impl View for RbacPrincipal {
    type V = RbacPrincipalView;

    open spec fn view(&self) -> RbacPrincipalView {
        RbacPrincipalView { id: self.id@, source: self.source@ }
    }
}

/// What Resource Manager answered, each list in the order in which it was asked.
#[derive(Debug)]
pub struct ArmReplies {
    pub subscriptions: Option<Result<Vec<ArmSubscription>, String>>,
    pub groups: Vec<Result<Vec<ArmResourceGroup>, String>>,
    pub assignments: Vec<Result<Vec<ArmRoleAssignment>, String>>,
    pub definitions: Vec<Result<ArmRoleDefinition, String>>,
}

/// What Resource Manager is to be asked for next, by its path.
#[derive(Debug)]
pub enum ArmRequest {
    Subscriptions(String),
    Groups(String),
    Assignments(String),
    Definition(String),
}

/// What an `ArmRequest` says.
#[verifier::ext_equal]
pub enum ArmRequestView {
    Subscriptions(Seq<char>),
    Groups(Seq<char>),
    Assignments(Seq<char>),
    Definition(Seq<char>),
}

impl View for ArmRequest {
    type V = ArmRequestView;

    open spec fn view(&self) -> ArmRequestView {
        match self {
            ArmRequest::Subscriptions(path) => ArmRequestView::Subscriptions(path@),
            ArmRequest::Groups(path) => ArmRequestView::Groups(path@),
            ArmRequest::Assignments(path) => ArmRequestView::Assignments(path@),
            ArmRequest::Definition(path) => ArmRequestView::Definition(path@),
        }
    }
}

/// How far the walk through subscriptions, groups and assignments has come. `subscriptions` holds
/// the IDs of those that it goes through; `known` holds the role
/// definitions that were resolved, each with its place among the answers; `wanted` is what has to be
/// asked before the walk can go on.
pub struct ArmWalk {
    pub subscriptions: Vec<String>,
    pub roles: Vec<RoleBinding>,
    pub permissions: PermissionSummary,
    pub resources: Vec<ResourceExposure>,
    pub risk_notes: Vec<String>,
    pub known: Vec<(String, usize)>,
    pub groups_used: usize,
    pub assignments_used: usize,
    pub definitions_used: usize,
    pub wanted: Option<ArmRequest>,
}

/// What an `ArmWalk` says.
#[verifier::ext_equal]
pub struct ArmWalkView {
    pub subscriptions: Seq<Seq<char>>,
    pub roles: Seq<RoleBindingView>,
    pub permissions: PermissionSummaryView,
    pub resources: Seq<ResourceExposureView>,
    pub risk_notes: Seq<Seq<char>>,
    pub known: Seq<(Seq<char>, int)>,
    pub groups_used: int,
    pub assignments_used: int,
    pub definitions_used: int,
    pub wanted: Option<ArmRequestView>,
}

/// Resolved role definitions, as views.
pub open spec fn known_views(list: Seq<(String, usize)>) -> Seq<(Seq<char>, int)> {
    list.map_values(|entry: (String, usize)| (entry.0@, entry.1 as int))
}

impl View for ArmWalk {
    type V = ArmWalkView;

    open spec fn view(&self) -> ArmWalkView {
        ArmWalkView {
            subscriptions: texts(self.subscriptions@),
            roles: views(self.roles@),
            permissions: self.permissions@,
            resources: views(self.resources@),
            risk_notes: texts(self.risk_notes@),
            known: known_views(self.known@),
            groups_used: self.groups_used as int,
            assignments_used: self.assignments_used as int,
            definitions_used: self.definitions_used as int,
            wanted: crate::model::opt_view(self.wanted),
        }
    }
}

/// What is told of a subscription beside its name.
pub open spec fn subscription_facts(subscription: ArmSubscription) -> Seq<Seq<char>> {
    let state = seq!["state:"@ + text_or(subscription.state, "unknown"@)];
    match subscription.tenant_id {
        Some(tenant) => state.push("tenant:"@ + tenant@),
        None => state,
    }
}

/// The walk once it has entered a subscription.
pub open spec fn entered(walk: ArmWalkView, subscription: ArmSubscription) -> ArmWalkView {
    ArmWalkView {
        resources: walk.resources.push(
            exposure(
                "azure_subscription"@,
                text_or(subscription.display_name, subscription.subscription_id@),
                subscription_facts(subscription),
                Severity::Medium,
                "Subscription is visible through Azure Resource Manager"@,
            ),
        ),
        permissions: filed(
            walk.permissions,
            PermissionClass::ReadOnly,
            "Microsoft.Resources/subscriptions/read"@,
        ),
        ..walk
    }
}

fn enter_subscription(walk: &mut ArmWalk, subscription: &ArmSubscription)
    ensures
        final(walk)@ == entered(old(walk)@, *subscription),
{
    let name = unwrap_text(&subscription.display_name, subscription.subscription_id.as_str());
    let state = unwrap_text(&subscription.state, "unknown");
    let mut facts = one_text(cat2("state:", state.as_str()).as_str());
    match &subscription.tenant_id {
        Some(tenant) => push_text(&mut facts, cat2("tenant:", tenant.as_str())),
        None => {},
    }
    push_view(
        &mut walk.resources,
        ResourceExposure::new(
            "azure_subscription",
            name.as_str(),
            facts,
            Severity::Medium,
            "Subscription is visible through Azure Resource Manager",
        ),
    );
    push_text(
        &mut walk.permissions.read_only,
        "Microsoft.Resources/subscriptions/read".to_owned(),
    );
}

/// The resource that stands for a resource group.
pub open spec fn group_exposure(group: ArmResourceGroup, subscription_id: Seq<char>) -> ResourceExposureView {
    exposure(
        "azure_resource_group"@,
        if group.name@.len() == 0 {
            group.id@
        } else {
            group.name@
        },
        match group.location {
            Some(location) => seq!["location:"@ + location@],
            None => Seq::empty(),
        },
        Severity::Medium,
        "Resource group is visible in subscription "@ + subscription_id,
    )
}

/// The resources that stand for resource groups.
pub open spec fn group_exposures(list: Seq<ArmResourceGroup>, subscription_id: Seq<char>) -> Seq<
    ResourceExposureView,
> {
    list.map_values(|group: ArmResourceGroup| group_exposure(group, subscription_id))
}

fn expose_group(group: &ArmResourceGroup, subscription_id: &str) -> (resource: ResourceExposure)
    ensures
        resource@ == group_exposure(*group, subscription_id@),
{
    let name: &str = if group.name.as_str().is_empty() {
        group.id.as_str()
    } else {
        group.name.as_str()
    };
    let facts = match &group.location {
        Some(location) => one_text(cat2("location:", location.as_str()).as_str()),
        None => no_texts(),
    };
    ResourceExposure::new(
        "azure_resource_group",
        name,
        facts,
        Severity::Medium,
        cat2("Resource group is visible in subscription ", subscription_id).as_str(),
    )
}

fn expose_groups(
    resources: &mut Vec<ResourceExposure>,
    list: &Vec<ArmResourceGroup>,
    subscription_id: &str,
)
    ensures
        views(final(resources)@) == views(old(resources)@) + group_exposures(
            list@,
            subscription_id@,
        ),
{
    let ghost before = views(resources@);
    let ghost all = group_exposures(list@, subscription_id@);
    let mut i: usize = 0;
    assert(views(resources@) =~= before + all.take(0));
    while i < list.len()
        invariant
            i <= list@.len(),
            all == group_exposures(list@, subscription_id@),
            views(resources@) == before + all.take(i as int),
        decreases list@.len() - i,
    {
        push_view(resources, expose_group(&list[i], subscription_id));
        i = i + 1;
        assert(views(resources@) =~= before + all.take(i as int));
    }
    assert(all.take(list@.len() as int) =~= all);
}

/// Where the resource groups of a subscription are listed.
pub open spec fn path_to_groups(subscription_id: Seq<char>) -> Seq<char> {
    "subscriptions/"@ + subscription_id + "/resourcegroups?api-version=2021-04-01"@
}

/// The walk once the resource groups of a subscription have come.
pub open spec fn with_groups(
    walk: ArmWalkView,
    subscription: ArmSubscription,
    groups: Seq<Result<Vec<ArmResourceGroup>, String>>,
) -> ArmWalkView {
    let id = subscription.subscription_id@;
    if walk.groups_used >= groups.len() {
        ArmWalkView { wanted: Some(ArmRequestView::Groups(path_to_groups(id))), ..walk }
    } else {
        match groups[walk.groups_used] {
            Ok(list) => ArmWalkView {
                resources: walk.resources + group_exposures(list@, id),
                groups_used: walk.groups_used + 1,
                ..walk
            },
            Err(error) => ArmWalkView {
                risk_notes: walk.risk_notes.push(
                    "Resource-group enumeration failed for subscription "@ + id + ": "@ + error@,
                ),
                groups_used: walk.groups_used + 1,
                ..walk
            },
        }
    }
}

fn take_groups(
    walk: &mut ArmWalk,
    subscription: &ArmSubscription,
    groups: &Vec<Result<Vec<ArmResourceGroup>, String>>,
)
    ensures
        final(walk)@ == with_groups(old(walk)@, *subscription, groups@),
{
    let id = subscription.subscription_id.as_str();
    if walk.groups_used >= groups.len() {
        walk.wanted = Some(
            ArmRequest::Groups(
                cat3("subscriptions/", id, "/resourcegroups?api-version=2021-04-01"),
            ),
        );
        return;
    }
    match &groups[walk.groups_used] {
        Ok(list) => expose_groups(&mut walk.resources, list, id),
        Err(error) => push_text(
            &mut walk.risk_notes,
            cat4(
                "Resource-group enumeration failed for subscription ",
                id,
                ": ",
                error.as_str(),
            ),
        ),
    }
    walk.groups_used = walk.groups_used + 1;
}

/// The place among the answers of a role definition that was resolved, at or after the `i`-th.
pub open spec fn known_at(known: Seq<(Seq<char>, int)>, id: Seq<char>, i: int) -> Option<int>
    decreases known.len() - i,
{
    if i < 0 || i >= known.len() {
        None
    } else if known[i].0 == id {
        Some(known[i].1)
    } else {
        known_at(known, id, i + 1)
    }
}

fn find_known(known: &Vec<(String, usize)>, id: &str) -> (place: Option<usize>)
    ensures
        match place {
            Some(k) => known_at(known_views(known@), id@, 0) == Some(k as int),
            None => known_at(known_views(known@), id@, 0) is None,
        },
{
    let mut i: usize = 0;
    while i < known.len()
        invariant
            i <= known@.len(),
            known_at(known_views(known@), id@, 0) == known_at(known_views(known@), id@, i as int),
        decreases known@.len() - i,
    {
        if str_eq(known[i].0.as_str(), id) {
            return Some(known[i].1);
        }
        i = i + 1;
    }
    None
}

/// Whether a role definition is still to be resolved.
pub open spec fn unresolved(walk: ArmWalkView, id: Seq<char>) -> bool {
    id.len() > 0 && known_at(walk.known, id, 0) is None && walk.known.len() < MAX_ROLE_DEFINITIONS
}

/// The walk once a role definition is resolved, as far as that is called for.
pub open spec fn resolved(
    walk: ArmWalkView,
    id: Seq<char>,
    definitions: Seq<Result<ArmRoleDefinition, String>>,
) -> ArmWalkView {
    if !unresolved(walk, id) {
        walk
    } else if walk.definitions_used >= definitions.len() {
        ArmWalkView {
            wanted: Some(ArmRequestView::Definition(id + "?api-version=2022-04-01"@)),
            ..walk
        }
    } else {
        match definitions[walk.definitions_used] {
            Ok(_) => ArmWalkView {
                known: walk.known.push((id, walk.definitions_used)),
                definitions_used: walk.definitions_used + 1,
                ..walk
            },
            Err(error) => ArmWalkView {
                risk_notes: walk.risk_notes.push(
                    "Azure role-definition lookup failed for "@ + id + ": "@ + error@,
                ),
                definitions_used: walk.definitions_used + 1,
                ..walk
            },
        }
    }
}

fn resolve(walk: &mut ArmWalk, id: &str, definitions: &Vec<Result<ArmRoleDefinition, String>>)
    ensures
        final(walk)@ == resolved(old(walk)@, id@, definitions@),
{
    if id.is_empty() || walk.known.len() >= MAX_ROLE_DEFINITIONS || find_known(
        &walk.known,
        id,
    ).is_some() {
        return;
    }
    if walk.definitions_used >= definitions.len() {
        walk.wanted = Some(ArmRequest::Definition(cat2(id, "?api-version=2022-04-01")));
        return;
    }
    let used: usize = walk.definitions_used;
    match &definitions[used] {
        Ok(_) => {
            let ghost before = known_views(walk.known@);
            walk.known.push((id.to_owned(), used));
            assert(known_views(walk.known@) =~= before.push((id@, used as int)));
        },
        Err(error) => push_text(
            &mut walk.risk_notes,
            cat4("Azure role-definition lookup failed for ", id, ": ", error.as_str()),
        ),
    }
    walk.definitions_used = used + 1;
}

/// The role definition with an ID, where it was resolved.
pub open spec fn definition_of(
    walk: ArmWalkView,
    id: Seq<char>,
    definitions: Seq<Result<ArmRoleDefinition, String>>,
) -> Option<ArmRoleDefinition> {
    match known_at(walk.known, id, 0) {
        Some(k) => if 0 <= k < definitions.len() {
            match definitions[k] {
                Ok(definition) => Some(definition),
                Err(_) => None,
            }
        } else {
            None
        },
        None => None,
    }
}

/// The name of the role behind a role definition: its own, or the last part of its ID.
pub open spec fn role_name_of(definition: Option<ArmRoleDefinition>, id: Seq<char>) -> Seq<char> {
    match definition {
        Some(found) => text_or(found.role_name, pieces(id, '/').last()),
        None => pieces(id, '/').last(),
    }
}

/// What the role behind a role definition permits.
pub open spec fn actions_of(definition: Option<ArmRoleDefinition>) -> Seq<Seq<char>> {
    match definition {
        Some(found) => definition_actions(found),
        None => Seq::empty(),
    }
}

/// The scope of a role assignment: the subscription where it names none.
pub open spec fn scope_of(assignment: ArmRoleAssignment, subscription_id: Seq<char>) -> Seq<char> {
    if assignment.scope@.len() == 0 {
        "/subscriptions/"@ + subscription_id
    } else {
        assignment.scope@
    }
}

/// What is told of a role assignment.
pub open spec fn assignment_facts(
    assignment: ArmRoleAssignment,
    role_name: Seq<char>,
    source: Seq<char>,
) -> Seq<Seq<char>> {
    let start = seq!["role:"@ + role_name, "assignment_source:"@ + source];
    let with_type = match assignment.principal_type {
        Some(kind) => start.push("principal_type:"@ + kind@),
        None => start,
    };
    let with_principal = match assignment.principal_id {
        Some(id) => with_type.push("principal_id:"@ + id@),
        None => with_type,
    };
    if assignment.id@.len() > 0 {
        with_principal.push("assignment_id:"@ + assignment.id@)
    } else {
        with_principal
    }
}

/// Why a role assignment counts.
pub open spec fn assignment_reason(source: Seq<char>) -> Seq<char> {
    if source == "direct principal"@ {
        "Direct Azure RBAC assignment for the authenticated principal"@
    } else {
        "Azure RBAC assignment inherited through "@ + source
    }
}

/// The walk with one more role assignment, whose role is known as far as it can be.
pub open spec fn with_role(
    walk: ArmWalkView,
    subscription_id: Seq<char>,
    source: Seq<char>,
    assignment: ArmRoleAssignment,
    role_name: Seq<char>,
    actions: Seq<Seq<char>>,
) -> ArmWalkView {
    let scope = scope_of(assignment, subscription_id);
    ArmWalkView {
        permissions: filed(
            walk.permissions,
            role_class(role_name, actions),
            role_permission(role_name, scope),
        ),
        roles: walk.roles.push(binding(role_name, scope + " via "@ + source, actions)),
        resources: walk.resources.push(
            exposure(
                "azure_rbac_assignment"@,
                scope,
                assignment_facts(assignment, role_name, source),
                role_severity(role_name, actions),
                assignment_reason(source),
            ),
        ),
        ..walk
    }
}

fn add_role(
    walk: &mut ArmWalk,
    subscription_id: &str,
    source: &str,
    assignment: &ArmRoleAssignment,
    role_name: &str,
    actions: Vec<String>,
)
    ensures
        final(walk)@ == with_role(
            old(walk)@,
            subscription_id@,
            source@,
            *assignment,
            role_name@,
            texts(actions@),
        ),
{
    let scope = if assignment.scope.as_str().is_empty() {
        cat2("/subscriptions/", subscription_id)
    } else {
        assignment.scope.clone()
    };
    classify_arm_role(role_name, scope.as_str(), &actions, &mut walk.permissions);
    let risk = arm_role_severity(role_name, &actions);
    push_view(
        &mut walk.roles,
        RoleBinding::new(role_name, cat3(scope.as_str(), " via ", source).as_str(), actions),
    );
    let mut facts = one_text(cat2("role:", role_name).as_str());
    push_text(&mut facts, cat2("assignment_source:", source));
    assert(texts(facts@) =~= seq!["role:"@ + role_name@, "assignment_source:"@ + source@]);
    match &assignment.principal_type {
        Some(kind) => push_text(&mut facts, cat2("principal_type:", kind.as_str())),
        None => {},
    }
    match &assignment.principal_id {
        Some(id) => push_text(&mut facts, cat2("principal_id:", id.as_str())),
        None => {},
    }
    if !assignment.id.as_str().is_empty() {
        push_text(&mut facts, cat2("assignment_id:", assignment.id.as_str()));
    }
    let reason = if str_eq(source, "direct principal") {
        "Direct Azure RBAC assignment for the authenticated principal".to_owned()
    } else {
        cat2("Azure RBAC assignment inherited through ", source)
    };
    push_view(
        &mut walk.resources,
        ResourceExposure::new("azure_rbac_assignment", scope.as_str(), facts, risk, reason.as_str()),
    );
}

/// The walk with one more role assignment: its role is resolved first, and nothing more is done
/// where that needs an answer that has not come.
pub open spec fn with_assignment(
    walk: ArmWalkView,
    subscription_id: Seq<char>,
    source: Seq<char>,
    assignment: ArmRoleAssignment,
    definitions: Seq<Result<ArmRoleDefinition, String>>,
) -> ArmWalkView {
    let id = assignment.role_definition_id@;
    let next = resolved(walk, id, definitions);
    let definition = definition_of(next, id, definitions);
    if walk.wanted is Some {
        walk
    } else if next.wanted is Some {
        next
    } else {
        with_role(
            next,
            subscription_id,
            source,
            assignment,
            role_name_of(definition, id),
            actions_of(definition),
        )
    }
}

/// The last part of a path.
fn last_part(id: &str) -> (part: String)
    ensures
        part@ == pieces(id@, '/').last(),
{
    let mut parts = split(id, '/');
    assert(texts(parts@).last() == parts@[parts@.len() - 1]@);
    let last: usize = parts.len() - 1;
    parts.remove(last)
}

fn take_assignment(
    walk: &mut ArmWalk,
    subscription_id: &str,
    source: &str,
    assignment: &ArmRoleAssignment,
    definitions: &Vec<Result<ArmRoleDefinition, String>>,
)
    ensures
        final(walk)@ == with_assignment(
            old(walk)@,
            subscription_id@,
            source@,
            *assignment,
            definitions@,
        ),
{
    if walk.wanted.is_some() {
        return;
    }
    let id = assignment.role_definition_id.as_str();
    resolve(walk, id, definitions);
    if walk.wanted.is_some() {
        return;
    }
    let mut role_name = last_part(id);
    let mut actions = no_texts();
    match find_known(&walk.known, id) {
        Some(k) => if k < definitions.len() {
            match &definitions[k] {
                Ok(definition) => {
                    role_name = unwrap_text(&definition.role_name, role_name.as_str());
                    actions = role_definition_permissions(definition);
                },
                Err(_) => {},
            }
        },
        None => {},
    }
    add_role(walk, subscription_id, source, assignment, role_name.as_str(), actions);
}

/// The walk with the first `n` role assignments of a list.
pub open spec fn with_assignments(
    walk: ArmWalkView,
    subscription_id: Seq<char>,
    source: Seq<char>,
    list: Seq<ArmRoleAssignment>,
    n: int,
    definitions: Seq<Result<ArmRoleDefinition, String>>,
) -> ArmWalkView
    decreases n,
{
    if n <= 0 {
        walk
    } else {
        with_assignment(
            with_assignments(walk, subscription_id, source, list, n - 1, definitions),
            subscription_id,
            source,
            list[n - 1],
            definitions,
        )
    }
}

/// Where the role assignments of a principal in a subscription are listed.
pub open spec fn path_to_assignments(subscription_id: Seq<char>, principal_id: Seq<char>) -> Seq<char> {
    "subscriptions/"@ + subscription_id
        + "/providers/Microsoft.Authorization/roleAssignments?api-version=2022-04-01&$filter=principalId%20eq%20"@
        + principal_id
}

/// The walk with the role assignments of one principal in one subscription.
pub open spec fn with_principal(
    walk: ArmWalkView,
    subscription_id: Seq<char>,
    principal: RbacPrincipalView,
    replies: ArmReplies,
) -> ArmWalkView {
    if walk.wanted is Some {
        walk
    } else if walk.assignments_used >= replies.assignments@.len() {
        ArmWalkView {
            wanted: Some(
                ArmRequestView::Assignments(path_to_assignments(subscription_id, principal.id)),
            ),
            ..walk
        }
    } else {
        let next = ArmWalkView { assignments_used: walk.assignments_used + 1, ..walk };
        match replies.assignments@[walk.assignments_used] {
            Ok(list) => with_assignments(
                next,
                subscription_id,
                principal.source,
                list@,
                list@.len() as int,
                replies.definitions@,
            ),
            Err(error) => ArmWalkView {
                risk_notes: next.risk_notes.push(
                    "Azure RBAC assignment enumeration failed for subscription "@ + subscription_id
                        + " via "@ + principal.source + ": "@ + error@,
                ),
                ..next
            },
        }
    }
}

fn take_principal(
    walk: &mut ArmWalk,
    subscription_id: &str,
    principal: &RbacPrincipal,
    replies: &ArmReplies,
)
    ensures
        final(walk)@ == with_principal(old(walk)@, subscription_id@, principal@, *replies),
{
    if walk.wanted.is_some() {
        return;
    }
    if walk.assignments_used >= replies.assignments.len() {
        walk.wanted = Some(
            ArmRequest::Assignments(
                cat4(
                    "subscriptions/",
                    subscription_id,
                    "/providers/Microsoft.Authorization/roleAssignments?api-version=2022-04-01&$filter=principalId%20eq%20",
                    principal.id.as_str(),
                ),
            ),
        );
        return;
    }
    let used: usize = walk.assignments_used;
    walk.assignments_used = used + 1;
    match &replies.assignments[used] {
        Ok(list) => {
            let ghost next = walk@;
            let mut i: usize = 0;
            while i < list.len()
                invariant
                    i <= list@.len(),
                    walk@ == with_assignments(
                        next,
                        subscription_id@,
                        principal.source@,
                        list@,
                        i as int,
                        replies.definitions@,
                    ),
                decreases list@.len() - i,
            {
                take_assignment(
                    walk,
                    subscription_id,
                    principal.source.as_str(),
                    &list[i],
                    &replies.definitions,
                );
                i = i + 1;
            }
        },
        Err(error) => {
            let head = cat5(
                "Azure RBAC assignment enumeration failed for subscription ",
                subscription_id,
                " via ",
                principal.source.as_str(),
                ": ",
            );
            push_text(&mut walk.risk_notes, cat2(head.as_str(), error.as_str()));
        },
    }
}

/// The walk with the role assignments of the first `n` principals in one subscription.
pub open spec fn with_principals(
    walk: ArmWalkView,
    subscription_id: Seq<char>,
    principals: Seq<RbacPrincipalView>,
    n: int,
    replies: ArmReplies,
) -> ArmWalkView
    decreases n,
{
    if n <= 0 {
        walk
    } else {
        with_principal(
            with_principals(walk, subscription_id, principals, n - 1, replies),
            subscription_id,
            principals[n - 1],
            replies,
        )
    }
}

/// The smaller of a count and a limit.
pub open spec fn at_most(count: nat, limit: usize) -> int {
    if count < limit {
        count as int
    } else {
        limit as int
    }
}

/// The walk through one subscription.
pub open spec fn with_subscription(
    walk: ArmWalkView,
    subscription: ArmSubscription,
    principals: Seq<RbacPrincipalView>,
    replies: ArmReplies,
) -> ArmWalkView {
    if walk.wanted is Some {
        walk
    } else {
        let grouped = with_groups(entered(walk, subscription), subscription, replies.groups@);
        with_principals(
            grouped,
            subscription.subscription_id@,
            principals,
            at_most(principals.len(), MAX_RBAC_PRINCIPALS),
            replies,
        )
    }
}

fn take_subscription(
    walk: &mut ArmWalk,
    subscription: &ArmSubscription,
    principals: &Vec<RbacPrincipal>,
    replies: &ArmReplies,
)
    ensures
        final(walk)@ == with_subscription(old(walk)@, *subscription, views(principals@), *replies),
{
    if walk.wanted.is_some() {
        return;
    }
    enter_subscription(walk, subscription);
    take_groups(walk, subscription, &replies.groups);
    let ghost grouped = walk@;
    let count: usize = if principals.len() < MAX_RBAC_PRINCIPALS {
        principals.len()
    } else {
        MAX_RBAC_PRINCIPALS
    };
    let mut i: usize = 0;
    while i < count
        invariant
            i <= count <= principals@.len(),
            walk@ == with_principals(
                grouped,
                subscription.subscription_id@,
                views(principals@),
                i as int,
                *replies,
            ),
        decreases count - i,
    {
        assert(views(principals@)[i as int] == principals@[i as int]@);
        take_principal(walk, subscription.subscription_id.as_str(), &principals[i], replies);
        i = i + 1;
    }
}

/// The walk through the first `n` subscriptions.
pub open spec fn with_subscriptions(
    walk: ArmWalkView,
    list: Seq<ArmSubscription>,
    n: int,
    principals: Seq<RbacPrincipalView>,
    replies: ArmReplies,
) -> ArmWalkView
    decreases n,
{
    if n <= 0 {
        walk
    } else {
        with_subscription(
            with_subscriptions(walk, list, n - 1, principals, replies),
            list[n - 1],
            principals,
            replies,
        )
    }
}

/// The notes on what is left out of the walk.
pub open spec fn limit_notes(
    notes: Seq<Seq<char>>,
    subscriptions: nat,
    principals: nat,
) -> Seq<Seq<char>> {
    let first = if subscriptions > MAX_SUBSCRIPTIONS {
        notes.push(
            "Azure subscription enumeration was capped at 25 of "@ + decimal(subscriptions)
                + " subscriptions"@,
        )
    } else {
        notes
    };
    if principals > MAX_RBAC_PRINCIPALS {
        first.push(
            "Azure RBAC lookup was capped at 10 of "@ + decimal(principals)
                + " direct or group-derived principals"@,
        )
    } else {
        first
    }
}

/// The walk before it has gone anywhere.
pub open spec fn fresh_walk(notes: Seq<Seq<char>>) -> ArmWalkView {
    ArmWalkView {
        subscriptions: Seq::empty(),
        roles: Seq::empty(),
        permissions: empty_permission_summary(),
        resources: Seq::empty(),
        risk_notes: notes,
        known: Seq::empty(),
        groups_used: 0,
        assignments_used: 0,
        definitions_used: 0,
        wanted: None,
    }
}

/// The whole walk.
pub open spec fn walked(
    notes: Seq<Seq<char>>,
    principals: Seq<RbacPrincipalView>,
    replies: ArmReplies,
) -> ArmWalkView {
    match replies.subscriptions {
        None => ArmWalkView {
            wanted: Some(
                ArmRequestView::Subscriptions("subscriptions?api-version=2022-12-01"@),
            ),
            ..fresh_walk(notes)
        },
        Some(Err(error)) => fresh_walk(
            notes.push("Azure subscription enumeration failed: "@ + error@),
        ),
        Some(Ok(list)) => {
            let end = with_subscriptions(
                ArmWalkView {
                    subscriptions: ids_upto(list@, at_most(list@.len(), MAX_SUBSCRIPTIONS)),
                    ..fresh_walk(limit_notes(notes, list@.len(), principals.len()))
                },
                list@,
                at_most(list@.len(), MAX_SUBSCRIPTIONS),
                principals,
                replies,
            );
            ArmWalkView {
                risk_notes: if end.known.len() == MAX_ROLE_DEFINITIONS {
                    end.risk_notes.push(
                        "Azure role-definition resolution was capped at 100 definitions"@,
                    )
                } else {
                    end.risk_notes
                },
                permissions: sorted_summary(end.permissions),
                ..end
            }
        },
    }
}

/// The IDs of the first `n` subscriptions.
pub open spec fn ids_upto(list: Seq<ArmSubscription>, n: int) -> Seq<Seq<char>>
    decreases n,
{
    if n <= 0 {
        Seq::empty()
    } else {
        ids_upto(list, n - 1).push(list[n - 1].subscription_id@)
    }
}

/// A walk that has not gone anywhere.
pub fn start_walk(risk_notes: Vec<String>) -> (walk: ArmWalk)
    ensures
        walk@ == fresh_walk(texts(risk_notes@)),
{
    let known: Vec<(String, usize)> = Vec::new();
    assert(known_views(known@) =~= Seq::<(Seq<char>, int)>::empty());
    ArmWalk {
        subscriptions: no_texts(),
        roles: no_views(),
        permissions: PermissionSummary::default(),
        resources: no_views(),
        risk_notes,
        known,
        groups_used: 0,
        assignments_used: 0,
        definitions_used: 0,
        wanted: None,
    }
}

/// Goes through what Resource Manager answered so far. Where an answer is wanting, `wanted` of the
/// walk says what to ask; the walk is then to be taken anew with that answer.
pub fn map_arm_access(
    risk_notes: Vec<String>,
    rbac_principals: &Vec<RbacPrincipal>,
    replies: &ArmReplies,
) -> (walk: ArmWalk)
    ensures
        walk@ == walked(texts(risk_notes@), views(rbac_principals@), *replies),
{
    let mut walk = start_walk(risk_notes);
    match &replies.subscriptions {
        None => {
            walk.wanted = Some(
                ArmRequest::Subscriptions("subscriptions?api-version=2022-12-01".to_owned()),
            );
        },
        Some(Err(error)) => {
            push_text(
                &mut walk.risk_notes,
                cat2("Azure subscription enumeration failed: ", error.as_str()),
            );
        },
        Some(Ok(list)) => {
            if list.len() > MAX_SUBSCRIPTIONS {
                push_text(
                    &mut walk.risk_notes,
                    cat3(
                        "Azure subscription enumeration was capped at 25 of ",
                        usize_text(list.len()).as_str(),
                        " subscriptions",
                    ),
                );
            }
            if rbac_principals.len() > MAX_RBAC_PRINCIPALS {
                push_text(
                    &mut walk.risk_notes,
                    cat3(
                        "Azure RBAC lookup was capped at 10 of ",
                        usize_text(rbac_principals.len()).as_str(),
                        " direct or group-derived principals",
                    ),
                );
            }
            let count: usize = if list.len() < MAX_SUBSCRIPTIONS {
                list.len()
            } else {
                MAX_SUBSCRIPTIONS
            };
            let mut ids = no_texts();
            let mut j: usize = 0;
            while j < count
                invariant
                    j <= count <= list@.len(),
                    texts(ids@) == ids_upto(list@, j as int),
                decreases count - j,
            {
                push_text(&mut ids, list[j].subscription_id.clone());
                j = j + 1;
            }
            walk.subscriptions = ids;
            let ghost start = walk@;
            let mut i: usize = 0;
            while i < count
                invariant
                    i <= count <= list@.len(),
                    walk@ == with_subscriptions(
                        start,
                        list@,
                        i as int,
                        views(rbac_principals@),
                        *replies,
                    ),
                decreases count - i,
            {
                take_subscription(&mut walk, &list[i], rbac_principals, replies);
                i = i + 1;
            }
            if walk.known.len() == MAX_ROLE_DEFINITIONS {
                push_text(
                    &mut walk.risk_notes,
                    "Azure role-definition resolution was capped at 100 definitions".to_owned(),
                );
            }
            sort_permission_summary(&mut walk.permissions);
        },
    }
    walk
}

/// No more than 25 subscriptions are gone through, no more than 10 principals are looked up in each,
/// and no more than 100 role definitions are resolved.
pub proof fn lemma_walk_is_bounded(
    notes: Seq<Seq<char>>,
    principals: Seq<RbacPrincipalView>,
    replies: ArmReplies,
)
    ensures
        walked(notes, principals, replies).groups_used <= MAX_SUBSCRIPTIONS,
        walked(notes, principals, replies).assignments_used <= MAX_SUBSCRIPTIONS
            * MAX_RBAC_PRINCIPALS,
        walked(notes, principals, replies).known.len() <= MAX_ROLE_DEFINITIONS,
{
    match replies.subscriptions {
        Some(Ok(list)) => {
            let count = at_most(list@.len(), MAX_SUBSCRIPTIONS);
            let start = ArmWalkView {
                subscriptions: ids_upto(list@, count),
                ..fresh_walk(limit_notes(notes, list@.len(), principals.len()))
            };
            lemma_subscriptions_bounded(start, list@, count, principals, replies);
        },
        _ => {},
    }
}

proof fn lemma_assignments_bounded(
    walk: ArmWalkView,
    subscription_id: Seq<char>,
    source: Seq<char>,
    list: Seq<ArmRoleAssignment>,
    n: int,
    definitions: Seq<Result<ArmRoleDefinition, String>>,
)
    requires
        walk.known.len() <= MAX_ROLE_DEFINITIONS,
    ensures
        ({
            let end = with_assignments(walk, subscription_id, source, list, n, definitions);
            &&& end.known.len() <= MAX_ROLE_DEFINITIONS
            &&& end.groups_used == walk.groups_used
            &&& end.assignments_used == walk.assignments_used
        }),
    decreases n,
{
    if n > 0 {
        lemma_assignments_bounded(walk, subscription_id, source, list, n - 1, definitions);
    }
}

proof fn lemma_principals_bounded(
    walk: ArmWalkView,
    subscription_id: Seq<char>,
    principals: Seq<RbacPrincipalView>,
    n: int,
    replies: ArmReplies,
)
    requires
        walk.known.len() <= MAX_ROLE_DEFINITIONS,
        n >= 0,
    ensures
        ({
            let end = with_principals(walk, subscription_id, principals, n, replies);
            &&& end.known.len() <= MAX_ROLE_DEFINITIONS
            &&& end.groups_used == walk.groups_used
            &&& end.assignments_used <= walk.assignments_used + n
        }),
    decreases n,
{
    if n > 0 {
        lemma_principals_bounded(walk, subscription_id, principals, n - 1, replies);
        let before = with_principals(walk, subscription_id, principals, n - 1, replies);
        if before.wanted is None && before.assignments_used < replies.assignments@.len() {
            match replies.assignments@[before.assignments_used] {
                Ok(list) => {
                    lemma_assignments_bounded(
                        ArmWalkView { assignments_used: before.assignments_used + 1, ..before },
                        subscription_id,
                        principals[n - 1].source,
                        list@,
                        list@.len() as int,
                        replies.definitions@,
                    );
                },
                Err(_) => {},
            }
        }
    }
}

proof fn lemma_subscriptions_bounded(
    walk: ArmWalkView,
    list: Seq<ArmSubscription>,
    n: int,
    principals: Seq<RbacPrincipalView>,
    replies: ArmReplies,
)
    requires
        walk.known.len() <= MAX_ROLE_DEFINITIONS,
        n >= 0,
    ensures
        ({
            let end = with_subscriptions(walk, list, n, principals, replies);
            &&& end.known.len() <= MAX_ROLE_DEFINITIONS
            &&& end.groups_used <= walk.groups_used + n
            &&& end.assignments_used <= walk.assignments_used + n * MAX_RBAC_PRINCIPALS
        }),
    decreases n,
{
    if n > 0 {
        lemma_subscriptions_bounded(walk, list, n - 1, principals, replies);
        let before = with_subscriptions(walk, list, n - 1, principals, replies);
        if before.wanted is None {
            lemma_principals_bounded(
                with_groups(entered(before, list[n - 1]), list[n - 1], replies.groups@),
                list[n - 1].subscription_id@,
                principals,
                at_most(principals.len(), MAX_RBAC_PRINCIPALS),
                replies,
            );
        }
    }
}

/// A role assignment is reported three times over: as a role on its scope, as a permission in the class
/// of what the role can do, and as a resource at the risk of holding it. An owner, or whoever can assign
/// roles, is at critical risk; nothing that was found before is lost.
pub proof fn lemma_assignments_are_reported(
    walk: ArmWalkView,
    subscription_id: Seq<char>,
    source: Seq<char>,
    assignment: ArmRoleAssignment,
    role_name: Seq<char>,
    actions: Seq<Seq<char>>,
    class: PermissionClass,
)
    ensures
        ({
            let now = with_role(walk, subscription_id, source, assignment, role_name, actions);
            let scope = if assignment.scope@.len() == 0 {
                "/subscriptions/"@ + subscription_id
            } else {
                assignment.scope@
            };
            &&& now.roles.len() == walk.roles.len() + 1
            &&& now.roles.last().name == role_name
            &&& now.roles.last().source == scope + " via "@ + source
            &&& now.roles.last().permissions == actions
            &&& now.resources.len() == walk.resources.len() + 1
            &&& now.resources.last().resource_type == "azure_rbac_assignment"@
            &&& now.resources.last().name == scope
            &&& rules_access(role_name) ==> now.resources.last().risk == "critical"@
            &&& (holds(ascii_lower(role_name), "contributor"@) || exists|k: int|
                0 <= k < actions.len() && (ascii_lower(#[trigger] actions[k]) == "*"@ || ends(
                    ascii_lower(actions[k]),
                    "/write"@,
                ) || ends(ascii_lower(actions[k]), "/delete"@) || begins(
                    ascii_lower(actions[k]),
                    "data:"@,
                ))) ==> now.resources.last().risk == "critical"@ || now.resources.last().risk
                == "high"@
            &&& class == role_class(role_name, actions) ==> class_list(
                now.permissions,
                class,
            ).contains("azure_rbac:"@ + role_name + "@"@ + scope)
            &&& rules_access(role_name) ==> now.permissions.admin.len() > 0
                || now.permissions.privilege_escalation.len() > 0
            &&& class_list(now.permissions, class).len() >= class_list(walk.permissions, class).len()
            &&& walk.roles.is_prefix_of(now.roles)
            &&& walk.resources.is_prefix_of(now.resources)
        }),
{
    let scope = scope_of(assignment, subscription_id);
    let now = with_role(walk, subscription_id, source, assignment, role_name, actions);
    lemma_filed(
        walk.permissions,
        role_class(role_name, actions),
        role_permission(role_name, scope),
    );
    lemma_roles_are_filed_by_their_power(role_name, actions, 0);
    assert(class_list(walk.permissions, class).len() <= class_list(now.permissions, class).len());
    if exists|k: int|
        0 <= k < actions.len() && (ascii_lower(#[trigger] actions[k]) == "*"@ || ends(
            ascii_lower(actions[k]),
            "/write"@,
        ) || ends(ascii_lower(actions[k]), "/delete"@) || begins(ascii_lower(actions[k]), "data:"@)) {
        let k = choose|k: int|
            0 <= k < actions.len() && (ascii_lower(#[trigger] actions[k]) == "*"@ || ends(
                ascii_lower(actions[k]),
                "/write"@,
            ) || ends(ascii_lower(actions[k]), "/delete"@) || begins(
                ascii_lower(actions[k]),
                "data:"@,
            ));
        lemma_roles_are_filed_by_their_power(role_name, actions, k);
    }
    assert(walk.roles =~= now.roles.subrange(0, walk.roles.len() as int));
    assert(walk.resources =~= now.resources.subrange(0, walk.resources.len() as int));
}

/// Nothing that a walk has found is lost as it goes on.
pub open spec fn grown_walk(before: ArmWalkView, after: ArmWalkView) -> bool {
    &&& before.roles.is_prefix_of(after.roles)
    &&& before.resources.is_prefix_of(after.resources)
    &&& before.permissions.admin.len() <= after.permissions.admin.len()
    &&& before.permissions.privilege_escalation.len() <= after.permissions.privilege_escalation.len()
    &&& before.permissions.risky.len() <= after.permissions.risky.len()
    &&& before.permissions.read_only.len() <= after.permissions.read_only.len()
}

proof fn lemma_grown_twice(a: ArmWalkView, b: ArmWalkView, c: ArmWalkView)
    requires
        grown_walk(a, b),
        grown_walk(b, c),
    ensures
        grown_walk(a, c),
{
    assert(a.roles =~= c.roles.subrange(0, a.roles.len() as int)) by {
        assert forall|i: int| 0 <= i < a.roles.len() implies a.roles[i] == c.roles[i] by {
            assert(a.roles[i] == b.roles.subrange(0, a.roles.len() as int)[i]);
            assert(b.roles[i] == c.roles.subrange(0, b.roles.len() as int)[i]);
        }
    }
    assert(a.resources =~= c.resources.subrange(0, a.resources.len() as int)) by {
        assert forall|i: int| 0 <= i < a.resources.len() implies a.resources[i] == c.resources[i] by {
            assert(a.resources[i] == b.resources.subrange(0, a.resources.len() as int)[i]);
            assert(b.resources[i] == c.resources.subrange(0, b.resources.len() as int)[i]);
        }
    }
}

proof fn lemma_grown_same(a: ArmWalkView, b: ArmWalkView)
    requires
        a.roles == b.roles,
        a.resources == b.resources,
        a.permissions == b.permissions,
    ensures
        grown_walk(a, b),
{
    assert(a.roles =~= b.roles.subrange(0, a.roles.len() as int));
    assert(a.resources =~= b.resources.subrange(0, a.resources.len() as int));
}

/// A role assignment that came in one of the answers is among the roles and resources of a walk.
pub open spec fn assignment_told(
    walk: ArmWalkView,
    subscription_id: Seq<char>,
    source: Seq<char>,
    assignment: ArmRoleAssignment,
) -> bool {
    let scope = if assignment.scope@.len() == 0 {
        "/subscriptions/"@ + subscription_id
    } else {
        assignment.scope@
    };
    &&& exists|i: int|
        0 <= i < walk.roles.len() && (#[trigger] walk.roles[i]).source == scope + " via "@ + source
    &&& exists|i: int|
        0 <= i < walk.resources.len() && (#[trigger] walk.resources[i]).name == scope
            && walk.resources[i].resource_type == "azure_rbac_assignment"@
}

proof fn lemma_told_stays(
    before: ArmWalkView,
    after: ArmWalkView,
    subscription_id: Seq<char>,
    source: Seq<char>,
    assignment: ArmRoleAssignment,
)
    requires
        grown_walk(before, after),
        assignment_told(before, subscription_id, source, assignment),
    ensures
        assignment_told(after, subscription_id, source, assignment),
{
    let scope = scope_of(assignment, subscription_id);
    let i = choose|i: int|
        0 <= i < before.roles.len() && (#[trigger] before.roles[i]).source == scope + " via "@ + source;
    assert(before.roles[i] == after.roles.subrange(0, before.roles.len() as int)[i]);
    assert(after.roles[i] == before.roles[i]);
    let j = choose|j: int|
        0 <= j < before.resources.len() && (#[trigger] before.resources[j]).name == scope
            && before.resources[j].resource_type == "azure_rbac_assignment"@;
    assert(before.resources[j] == after.resources.subrange(0, before.resources.len() as int)[j]);
    assert(after.resources[j] == before.resources[j]);
}

proof fn lemma_one_assignment(
    walk: ArmWalkView,
    subscription_id: Seq<char>,
    source: Seq<char>,
    assignment: ArmRoleAssignment,
    definitions: Seq<Result<ArmRoleDefinition, String>>,
)
    ensures
        ({
            let now = with_assignment(walk, subscription_id, source, assignment, definitions);
            &&& grown_walk(walk, now)
            &&& now.wanted is None ==> walk.wanted is None && assignment_told(
                now,
                subscription_id,
                source,
                assignment,
            )
        }),
{
    let id = assignment.role_definition_id@;
    let next = resolved(walk, id, definitions);
    let now = with_assignment(walk, subscription_id, source, assignment, definitions);
    lemma_grown_same(walk, next);
    lemma_grown_same(walk, walk);
    if walk.wanted is None && next.wanted is None {
        let definition = definition_of(next, id, definitions);
        let name = role_name_of(definition, id);
        let actions = actions_of(definition);
        lemma_assignments_are_reported(
            next,
            subscription_id,
            source,
            assignment,
            name,
            actions,
            PermissionClass::Admin,
        );
        lemma_assignments_are_reported(
            next,
            subscription_id,
            source,
            assignment,
            name,
            actions,
            PermissionClass::PrivilegeEscalation,
        );
        lemma_assignments_are_reported(
            next,
            subscription_id,
            source,
            assignment,
            name,
            actions,
            PermissionClass::Risky,
        );
        lemma_assignments_are_reported(
            next,
            subscription_id,
            source,
            assignment,
            name,
            actions,
            PermissionClass::ReadOnly,
        );
        assert(now.roles[now.roles.len() - 1] == now.roles.last());
        assert(now.resources[now.resources.len() - 1] == now.resources.last());
    }
}

proof fn lemma_all_assignments(
    walk: ArmWalkView,
    subscription_id: Seq<char>,
    source: Seq<char>,
    list: Seq<ArmRoleAssignment>,
    n: int,
    definitions: Seq<Result<ArmRoleDefinition, String>>,
)
    requires
        0 <= n <= list.len(),
    ensures
        ({
            let now = with_assignments(walk, subscription_id, source, list, n, definitions);
            &&& grown_walk(walk, now)
            &&& now.wanted is None ==> walk.wanted is None && forall|m: int|
                0 <= m < n ==> assignment_told(now, subscription_id, source, #[trigger] list[m])
        }),
    decreases n,
{
    let now = with_assignments(walk, subscription_id, source, list, n, definitions);
    lemma_grown_same(walk, walk);
    if n > 0 {
        lemma_all_assignments(walk, subscription_id, source, list, n - 1, definitions);
        let before = with_assignments(walk, subscription_id, source, list, n - 1, definitions);
        lemma_one_assignment(before, subscription_id, source, list[n - 1], definitions);
        lemma_grown_twice(walk, before, now);
        if now.wanted is None {
            assert forall|m: int| 0 <= m < n implies assignment_told(
                now,
                subscription_id,
                source,
                #[trigger] list[m],
            ) by {
                if m < n - 1 {
                    lemma_told_stays(before, now, subscription_id, source, list[m]);
                }
            }
        }
    }
}

/// Every role assignment that the answers for a principal hold is reported once the walk wants nothing
/// more: as a role of the principal and as a resource, each under the scope of the assignment; and a
/// listing that failed is noted.
pub proof fn lemma_every_assignment_is_reported(
    walk: ArmWalkView,
    subscription_id: Seq<char>,
    principal: RbacPrincipalView,
    replies: ArmReplies,
)
    ensures
        ({
            let now = with_principal(walk, subscription_id, principal, replies);
            &&& grown_walk(walk, now)
            &&& now.wanted is None ==> {
                &&& walk.wanted is None
                &&& 0 <= walk.assignments_used < replies.assignments@.len() ==> match replies.assignments@[walk.assignments_used] {
                    Ok(list) => forall|m: int|
                        0 <= m < list@.len() ==> assignment_told(
                            now,
                            subscription_id,
                            principal.source,
                            #[trigger] list@[m],
                        ),
                    Err(error) => now.risk_notes.len() == walk.risk_notes.len() + 1,
                }
            }
        }),
{
    let now = with_principal(walk, subscription_id, principal, replies);
    lemma_grown_same(walk, walk);
    if walk.wanted is None && walk.assignments_used < replies.assignments@.len() {
        let next = ArmWalkView { assignments_used: walk.assignments_used + 1, ..walk };
        lemma_grown_same(walk, next);
        match replies.assignments@[walk.assignments_used] {
            Ok(list) => {
                lemma_all_assignments(
                    next,
                    subscription_id,
                    principal.source,
                    list@,
                    list@.len() as int,
                    replies.definitions@,
                );
                lemma_grown_twice(walk, next, now);
            },
            Err(_) => {
                lemma_grown_same(walk, now);
            },
        }
    } else {
        lemma_grown_same(walk, now);
    }
}

/// Every subscription that is entered is reported as a resource under its name, or its ID where it has
/// none, and can be read.
pub proof fn lemma_subscriptions_are_reported(walk: ArmWalkView, subscription: ArmSubscription)
    ensures
        ({
            let now = entered(walk, subscription);
            &&& now.resources.len() == walk.resources.len() + 1
            &&& now.resources.last().resource_type == "azure_subscription"@
            &&& subscription.display_name is Some ==> now.resources.last().name
                == subscription.display_name->0@
            &&& subscription.display_name is None ==> now.resources.last().name
                == subscription.subscription_id@
            &&& now.permissions.read_only.len() > 0
            &&& now.roles == walk.roles
            &&& walk.resources.is_prefix_of(now.resources)
        }),
{
    let now = entered(walk, subscription);
    assert(walk.resources =~= now.resources.subrange(0, walk.resources.len() as int));
}

proof fn lemma_known_at(known: Seq<(Seq<char>, int)>, id: Seq<char>, i: int)
    requires
        0 <= i <= known.len(),
    ensures
        match known_at(known, id, i) {
            Some(place) => exists|j: int|
                i <= j < known.len() && #[trigger] known[j] == (id, place),
            None => forall|j: int| i <= j < known.len() ==> (#[trigger] known[j]).0 != id,
        },
    decreases known.len() - i,
{
    if i < known.len() {
        if known[i].0 == id {
            assert(known[i] == (id, known[i].1));
        } else {
            lemma_known_at(known, id, i + 1);
        }
    }
}

/// A role definition that was resolved is found again under its ID, and one that was not is not.
pub proof fn lemma_resolved_definitions_are_found(known: Seq<(Seq<char>, int)>, id: Seq<char>)
    ensures
        match known_at(known, id, 0) {
            Some(place) => known.contains((id, place)),
            None => forall|j: int| 0 <= j < known.len() ==> (#[trigger] known[j]).0 != id,
        },
{
    lemma_known_at(known, id, 0);
}

/// Every resource group of a subscription is reported by its name, or by its ID where it has none; a listing
/// that failed is noted, and one that has not come yet is asked for. Nothing that was found before is lost.
pub proof fn lemma_resource_groups_are_reported(
    walk: ArmWalkView,
    subscription: ArmSubscription,
    groups: Seq<Result<Vec<ArmResourceGroup>, String>>,
    k: int,
)
    requires
        0 <= walk.groups_used,
    ensures
        ({
            let after = with_groups(walk, subscription, groups);
            &&& walk.resources.len() <= after.resources.len()
            &&& forall|i: int|
                0 <= i < walk.resources.len() ==> #[trigger] after.resources[i] == walk.resources[i]
            &&& forall|i: int|
                0 <= i < walk.risk_notes.len() ==> #[trigger] after.risk_notes[i] == walk.risk_notes[i]
            &&& walk.groups_used >= groups.len() ==> after.wanted is Some && after.resources
                == walk.resources
            &&& walk.groups_used < groups.len() ==> match groups[walk.groups_used] {
                Ok(list) => 0 <= k < list@.len() ==> exists|i: int|
                    0 <= i < after.resources.len() && (#[trigger] after.resources[i]).resource_type
                        == "azure_resource_group"@ && after.resources[i].name == (
                    if list@[k].name@.len() == 0 {
                        list@[k].id@
                    } else {
                        list@[k].name@
                    }),
                Err(error) => after.risk_notes.contains(
                    "Resource-group enumeration failed for subscription "@
                        + subscription.subscription_id@ + ": "@ + error@,
                ),
            }
        }),
{
    let after = with_groups(walk, subscription, groups);
    let id = subscription.subscription_id@;
    if walk.groups_used < groups.len() {
        match groups[walk.groups_used] {
            Ok(list) => {
                if 0 <= k < list@.len() {
                    assert(group_exposures(list@, id)[k] == group_exposure(list@[k], id));
                    assert(after.resources[walk.resources.len() + k] == group_exposure(list@[k], id));
                }
            },
            Err(error) => {
                assert(after.risk_notes[walk.risk_notes.len() as int]
                    == "Resource-group enumeration failed for subscription "@ + id + ": "@ + error@);
            },
        }
    }
}

/// That subscriptions or principals were left out is noted, exactly where there are more than are looked at.
pub proof fn lemma_what_is_left_out_is_noted(notes: Seq<Seq<char>>, subscriptions: nat, principals: nat)
    ensures
        ({
            let after = limit_notes(notes, subscriptions, principals);
            &&& after.take(notes.len() as int) == notes
            &&& subscriptions > 25 ==> after.contains(
                "Azure subscription enumeration was capped at 25 of "@ + decimal(subscriptions)
                    + " subscriptions"@,
            )
            &&& principals > 10 ==> after.contains(
                "Azure RBAC lookup was capped at 10 of "@ + decimal(principals)
                    + " direct or group-derived principals"@,
            )
            &&& subscriptions <= 25 && principals <= 10 ==> after == notes
        }),
{
    let after = limit_notes(notes, subscriptions, principals);
    assert(after.take(notes.len() as int) =~= notes);
    if subscriptions > 25 {
        assert(after[notes.len() as int] == "Azure subscription enumeration was capped at 25 of "@
            + decimal(subscriptions) + " subscriptions"@);
    }
    if principals > 10 {
        assert(after[after.len() - 1] == "Azure RBAC lookup was capped at 10 of "@ + decimal(principals)
            + " direct or group-derived principals"@);
    }
}

} // verus!
