//! How dangerous AWS permissions are.

use vstd::prelude::*;
use crate::model::{PermissionSummary, PermissionSummaryView, Severity};
use crate::order::{ascending, lemma_placed, place, placed};
use crate::text::{
    begins, contains, ends, ends_with, holds, no_texts, push_text, stands_at, starts_with, str_eq,
    texts, to_lowercase, lowered,
};

verus! {

/// What kind of access an action gives.
#[derive(Debug, Clone, Copy, PartialEq, Eq, Structural)]
pub enum ActionRisk {
    Admin,
    PrivilegeEscalation,
    Risky,
    ReadOnly,
}

/// The kind of access that an action in lower case gives.
pub open spec fn risk_of(action: Seq<char>) -> ActionRisk {
    if action == "*"@ || ends(action, ".*"@) {
        ActionRisk::Admin
    } else if holds(action, "iam.passrole"@) || holds(action, "iam.create"@) || holds(
        action,
        "iam.putrolepolicy"@,
    ) || holds(action, "iam.updaterolepolicy"@) || holds(action, "iam.updaterole"@) || holds(
        action,
        "sts.assumerole"@,
    ) || holds(action, "organizations.attachpolicy"@) {
        ActionRisk::PrivilegeEscalation
    } else if holds(action, ".get"@) || holds(action, ".list"@) || holds(action, ".describe"@) {
        ActionRisk::ReadOnly
    } else {
        ActionRisk::Risky
    }
}

pub fn classify_action(action: &str) -> (risk: ActionRisk)
    ensures
        risk == risk_of(action@),
{
    if str_eq(action, "*") || ends_with(action, ".*") {
        ActionRisk::Admin
    } else if contains(action, "iam.passrole") || contains(action, "iam.create") || contains(
        action,
        "iam.putrolepolicy",
    ) || contains(action, "iam.updaterolepolicy") || contains(action, "iam.updaterole")
        || contains(action, "sts.assumerole") || contains(action, "organizations.attachpolicy") {
        ActionRisk::PrivilegeEscalation
    } else if contains(action, ".get") || contains(action, ".list") || contains(
        action,
        ".describe",
    ) {
        ActionRisk::ReadOnly
    } else {
        ActionRisk::Risky
    }
}

/// Those of the first `n` actions that give one kind of access, in order.
pub open spec fn actions_of_risk(actions: Seq<Seq<char>>, risk: ActionRisk, n: int) -> Seq<Seq<char>>
    decreases n,
{
    if n <= 0 {
        Seq::empty()
    } else if risk_of(lowered(actions[n - 1])) == risk {
        actions_of_risk(actions, risk, n - 1).push(actions[n - 1])
    } else {
        actions_of_risk(actions, risk, n - 1)
    }
}

/// The first `n` actions by the kind of access that they give.
pub open spec fn classified_upto(actions: Seq<Seq<char>>, n: int) -> PermissionSummaryView {
    PermissionSummaryView {
        admin: actions_of_risk(actions, ActionRisk::Admin, n),
        privilege_escalation: actions_of_risk(actions, ActionRisk::PrivilegeEscalation, n),
        risky: actions_of_risk(actions, ActionRisk::Risky, n),
        read_only: actions_of_risk(actions, ActionRisk::ReadOnly, n),
    }
}

/// The actions by the kind of access that they give.
pub open spec fn classified(actions: Seq<Seq<char>>) -> PermissionSummaryView {
    classified_upto(actions, actions.len() as int)
}

pub fn classify_permissions(actions: &Vec<String>) -> (summary: PermissionSummary)
    ensures
        summary@ == classified(texts(actions@)),
{
    let mut admin: Vec<String> = no_texts();
    let mut privilege_escalation: Vec<String> = no_texts();
    let mut risky: Vec<String> = no_texts();
    let mut read_only: Vec<String> = no_texts();
    let mut i: usize = 0;
    while i < actions.len()
        invariant
            i <= actions@.len(),
            texts(admin@) == actions_of_risk(texts(actions@), ActionRisk::Admin, i as int),
            texts(privilege_escalation@) == actions_of_risk(
                texts(actions@),
                ActionRisk::PrivilegeEscalation,
                i as int,
            ),
            texts(risky@) == actions_of_risk(texts(actions@), ActionRisk::Risky, i as int),
            texts(read_only@) == actions_of_risk(texts(actions@), ActionRisk::ReadOnly, i as int),
        decreases actions@.len() - i,
    {
        let lower = to_lowercase(actions[i].as_str());
        let action = actions[i].clone();
        match classify_action(lower.as_str()) {
            ActionRisk::Admin => push_text(&mut admin, action),
            ActionRisk::PrivilegeEscalation => push_text(&mut privilege_escalation, action),
            ActionRisk::ReadOnly => push_text(&mut read_only, action),
            ActionRisk::Risky => push_text(&mut risky, action),
        }
        i = i + 1;
    }
    PermissionSummary { admin, privilege_escalation, risky, read_only }
}

proof fn lemma_classified_upto(actions: Seq<Seq<char>>, n: int)
    requires
        0 <= n <= actions.len(),
    ensures
        permission_count(classified_upto(actions, n)) == n,
    decreases n,
{
    if n > 0 {
        lemma_classified_upto(actions, n - 1);
    }
}

/// How many permissions a summary holds.
pub open spec fn permission_count(summary: PermissionSummaryView) -> nat {
    summary.admin.len() + summary.privilege_escalation.len() + summary.risky.len()
        + summary.read_only.len()
}

/// Each action falls into exactly one class: the classes together hold as many actions as there
/// are.
pub proof fn lemma_classes_part_the_actions(actions: Seq<Seq<char>>)
    ensures
        permission_count(classified(actions)) == actions.len(),
{
    lemma_classified_upto(actions, actions.len() as int);
}

proof fn lemma_of_risk_upto(actions: Seq<Seq<char>>, risk: ActionRisk, n: int)
    requires
        0 <= n <= actions.len(),
    ensures
        forall|a: Seq<char>|
            #[trigger] actions_of_risk(actions, risk, n).contains(a) <==> (actions.take(n).contains(a)
                && risk_of(lowered(a)) == risk),
    decreases n,
{
    if n > 0 {
        lemma_of_risk_upto(actions, risk, n - 1);
        let last = actions[n - 1];
        let before = actions_of_risk(actions, risk, n - 1);
        let now = actions_of_risk(actions, risk, n);
        assert forall|a: Seq<char>| #[trigger] now.contains(a) <==> (actions.take(n).contains(a)
            && risk_of(lowered(a)) == risk) by {
            if now.contains(a) {
                let k = choose|k: int| 0 <= k < now.len() && now[k] == a;
                if k < before.len() {
                    assert(before[k] == a);
                    assert(before.contains(a));
                    let head = actions.take(n - 1);
                    assert(head.contains(a));
                    let m = choose|m: int| 0 <= m < head.len() && head[m] == a;
                    assert(actions.take(n)[m] == a);
                } else {
                    assert(actions.take(n)[n - 1] == a);
                }
            }
            if actions.take(n).contains(a) && risk_of(lowered(a)) == risk {
                let all = actions.take(n);
                let m = choose|m: int| 0 <= m < all.len() && all[m] == a;
                if m < n - 1 {
                    assert(actions.take(n - 1)[m] == a);
                    assert(before.contains(a));
                    let k = choose|k: int| 0 <= k < before.len() && before[k] == a;
                    assert(now[k] == a);
                } else {
                    assert(now[before.len() as int] == a);
                }
            }
        }
    }
}

/// A class holds the actions of its kind and no others.
pub proof fn lemma_class_holds_its_kind(actions: Seq<Seq<char>>, risk: ActionRisk)
    ensures
        forall|a: Seq<char>|
            #[trigger] actions_of_risk(actions, risk, actions.len() as int).contains(a) <==> (actions.contains(a)
                && risk_of(lowered(a)) == risk),
{
    lemma_of_risk_upto(actions, risk, actions.len() as int);
    assert(actions.take(actions.len() as int) =~= actions);
}

/// How severe the permissions of an identity are.
pub open spec fn identity_severity(
    access_type: Seq<char>,
    permissions: PermissionSummaryView,
    has_resources: bool,
) -> Severity {
    if access_type == "root"@ || permissions.admin.len() > 0
        || permissions.privilege_escalation.len() > 0 {
        Severity::Critical
    } else if permissions.risky.len() > 0 {
        Severity::High
    } else if permissions.read_only.len() > 0 || has_resources {
        Severity::Medium
    } else {
        Severity::Low
    }
}

pub fn derive_severity(access_type: &str, permissions: &PermissionSummary, has_resources: bool) -> (severity: Severity)
    ensures
        severity == identity_severity(access_type@, permissions@, has_resources),
{
    if str_eq(access_type, "root") || permissions.admin.len() > 0
        || permissions.privilege_escalation.len() > 0 {
        Severity::Critical
    } else if permissions.risky.len() > 0 {
        Severity::High
    } else if permissions.read_only.len() > 0 || has_resources {
        Severity::Medium
    } else {
        Severity::Low
    }
}

/// The account root is critical whatever permissions were found.
pub proof fn lemma_root_is_critical(permissions: PermissionSummaryView, has_resources: bool)
    ensures
        identity_severity("root"@, permissions, has_resources) == Severity::Critical,
{
}

/// How severe the permissions that roles add are.
pub open spec fn reachable_severity(permissions: PermissionSummaryView) -> Severity {
    if permissions.admin.len() > 0 || permissions.privilege_escalation.len() > 0 {
        Severity::Critical
    } else if permissions.risky.len() > 0 {
        Severity::High
    } else if permissions.read_only.len() > 0 {
        Severity::Medium
    } else {
        Severity::Low
    }
}

pub fn severity_for_reachable_permissions(permissions: &PermissionSummary) -> (severity: Severity)
    ensures
        severity == reachable_severity(permissions@),
{
    if permissions.admin.len() > 0 || permissions.privilege_escalation.len() > 0 {
        Severity::Critical
    } else if permissions.risky.len() > 0 {
        Severity::High
    } else if permissions.read_only.len() > 0 {
        Severity::Medium
    } else {
        Severity::Low
    }
}

/// The place of a severity among the others.
pub open spec fn rank(severity: Severity) -> int {
    match severity {
        Severity::Low => 0,
        Severity::Medium => 1,
        Severity::High => 2,
        Severity::Critical => 3,
    }
}

/// The higher of two severities.
pub open spec fn higher(left: Severity, right: Severity) -> Severity {
    if rank(left) >= rank(right) {
        left
    } else {
        right
    }
}

pub fn max_severity(left: Severity, right: Severity) -> (severity: Severity)
    ensures
        severity == higher(left, right),
{
    match (left, right) {
        (Severity::Critical, _) | (_, Severity::Critical) => Severity::Critical,
        (Severity::High, _) | (_, Severity::High) => Severity::High,
        (Severity::Medium, _) | (_, Severity::Medium) => Severity::Medium,
        (Severity::Low, Severity::Low) => Severity::Low,
    }
}

/// The higher of two severities is the least one that is not below either of them.
pub proof fn lemma_higher_is_the_join(left: Severity, right: Severity, bound: Severity)
    ensures
        higher(left, right) == higher(right, left),
        rank(left) <= rank(higher(left, right)),
        rank(right) <= rank(higher(left, right)),
        rank(left) <= rank(bound) && rank(right) <= rank(bound) ==> rank(higher(left, right)) <= rank(bound),
{
}

/// More permissions never lower the severity.
pub proof fn lemma_severity_is_monotone(
    access_type: Seq<char>,
    fewer: PermissionSummaryView,
    more: PermissionSummaryView,
    has_resources: bool,
)
    requires
        fewer.admin.len() <= more.admin.len(),
        fewer.privilege_escalation.len() <= more.privilege_escalation.len(),
        fewer.risky.len() <= more.risky.len(),
        fewer.read_only.len() <= more.read_only.len(),
    ensures
        rank(identity_severity(access_type, fewer, has_resources)) <= rank(
            identity_severity(access_type, more, has_resources),
        ),
        rank(reachable_severity(fewer)) <= rank(reachable_severity(more)),
{
}

/// All permissions of a summary, class after class.
pub open spec fn all_permissions(summary: PermissionSummaryView) -> Seq<Seq<char>> {
    summary.admin + summary.privilege_escalation + summary.risky + summary.read_only
}

/// All permissions of a summary that may change something, class after class.
pub open spec fn acting_permissions(summary: PermissionSummaryView) -> Seq<Seq<char>> {
    summary.admin + summary.privilege_escalation + summary.risky
}

pub fn collect_permissions(summary: &PermissionSummary) -> (list: Vec<String>)
    ensures
        texts(list@) == all_permissions(summary@),
{
    let mut list = collect_acting(summary);
    crate::text::extend_texts(&mut list, &summary.read_only);
    list
}

pub fn collect_acting(summary: &PermissionSummary) -> (list: Vec<String>)
    ensures
        texts(list@) == acting_permissions(summary@),
{
    let mut list = crate::text::copy_texts(&summary.admin);
    crate::text::extend_texts(&mut list, &summary.privilege_escalation);
    crate::text::extend_texts(&mut list, &summary.risky);
    list
}

/// Whether a permission is `*` or begins with `prefix`.
pub open spec fn covers(permission: Seq<char>, prefix: Seq<char>) -> bool {
    permission == "*"@ || begins(permission, prefix)
}

/// Those of the first `n` permissions that cover a prefix, in order and each once.
pub open spec fn covering(list: Seq<Seq<char>>, prefix: Seq<char>, n: int) -> Seq<Seq<char>>
    decreases n,
{
    if n <= 0 {
        Seq::empty()
    } else if covers(list[n - 1], prefix) {
        placed(covering(list, prefix, n - 1), list[n - 1])
    } else {
        covering(list, prefix, n - 1)
    }
}

/// The permissions of a summary that cover a service prefix, in order and each once.
pub open spec fn prefix_permissions(summary: PermissionSummaryView, prefix: Seq<char>) -> Seq<Seq<char>> {
    covering(all_permissions(summary), prefix, all_permissions(summary).len() as int)
}

pub fn permissions_for_prefix(summary: &PermissionSummary, prefix: &str) -> (list: Vec<String>)
    ensures
        texts(list@) == prefix_permissions(summary@, prefix@),
{
    let all = collect_permissions(summary);
    let mut list: Vec<String> = no_texts();
    let mut i: usize = 0;
    while i < all.len()
        invariant
            i <= all@.len(),
            texts(list@) == covering(texts(all@), prefix@, i as int),
        decreases all@.len() - i,
    {
        if str_eq(all[i].as_str(), "*") || starts_with(all[i].as_str(), prefix) {
            place(&mut list, all[i].clone());
        }
        i = i + 1;
    }
    list
}

/// Whether some permission covers a prefix.
pub open spec fn any_covers(list: Seq<Seq<char>>, prefix: Seq<char>) -> bool {
    exists|i: int| 0 <= i < list.len() && covers(#[trigger] list[i], prefix)
}

pub fn some_covers(list: &Vec<String>, prefix: &str) -> (yes: bool)
    ensures
        yes == any_covers(texts(list@), prefix@),
{
    let mut i: usize = 0;
    while i < list.len()
        invariant
            i <= list@.len(),
            forall|j: int| 0 <= j < i ==> !covers(#[trigger] texts(list@)[j], prefix@),
        decreases list@.len() - i,
    {
        if str_eq(list[i].as_str(), "*") || starts_with(list[i].as_str(), prefix) {
            assert(covers(texts(list@)[i as int], prefix@));
            return true;
        }
        i = i + 1;
    }
    false
}

/// Whether the permissions let a service be read, by its prefix in lower case.
pub open spec fn readable(summary: PermissionSummaryView, prefix: Seq<char>) -> bool {
    any_covers(all_permissions(summary), prefix)
}

pub fn can_read(permissions: &PermissionSummary, service_prefix: &str) -> (yes: bool)
    ensures
        yes == readable(permissions@, lowered(service_prefix@)),
{
    some_covers(&collect_permissions(permissions), to_lowercase(service_prefix).as_str())
}

/// One permission that administers or that lets its holder gain others makes an identity critical,
/// whatever it is and whatever else it may do; one that changes something makes it high at least,
/// one that reads, or a resource, medium at least. Without any of these an identity other than the
/// root is low.
pub proof fn lemma_gravest_permission_decides(
    access_type: Seq<char>,
    permissions: PermissionSummaryView,
    has_resources: bool,
)
    ensures
        permissions.admin.len() > 0 ==> identity_severity(access_type, permissions, has_resources)
            == Severity::Critical && reachable_severity(permissions) == Severity::Critical,
        permissions.privilege_escalation.len() > 0 ==> identity_severity(
            access_type,
            permissions,
            has_resources,
        ) == Severity::Critical && reachable_severity(permissions) == Severity::Critical,
        access_type == "root"@ ==> identity_severity(access_type, permissions, has_resources)
            == Severity::Critical,
        permissions.risky.len() > 0 ==> {
            &&& identity_severity(access_type, permissions, has_resources) == Severity::High
                || identity_severity(access_type, permissions, has_resources) == Severity::Critical
            &&& reachable_severity(permissions) == Severity::High || reachable_severity(permissions)
                == Severity::Critical
        },
        permissions.read_only.len() > 0 ==> identity_severity(
            access_type,
            permissions,
            has_resources,
        ) != Severity::Low && reachable_severity(permissions) != Severity::Low,
        has_resources ==> identity_severity(access_type, permissions, has_resources) != Severity::Low,
        access_type != "root"@ && permissions.admin.len() == 0
            && permissions.privilege_escalation.len() == 0 ==> {
            let severity = identity_severity(access_type, permissions, has_resources);
            &&& severity != Severity::Critical
            &&& permissions.risky.len() == 0 ==> severity != Severity::High && (severity
                == Severity::Low <==> permissions.read_only.len() == 0 && !has_resources)
        },
{
}

/// Whether an action is one with which a principal can gain further permissions.
pub open spec fn escalates(action: Seq<char>) -> bool {
    ||| holds(action, "iam.passrole"@)
    ||| holds(action, "iam.create"@)
    ||| holds(action, "iam.putrolepolicy"@)
    ||| holds(action, "iam.updaterole"@)
    ||| holds(action, "sts.assumerole"@)
    ||| holds(action, "organizations.attachpolicy"@)
}

/// An action that stands for every action, or for every action of a service, is filed as
/// administration. One with which a principal can gain permissions is filed as such, or as
/// administration. An action counts as reading only where it is named as one, and anything that is
/// not recognised counts as a change, never as reading.
pub proof fn lemma_actions_are_filed_by_their_danger(action: Seq<char>)
    ensures
        action == "*"@ || ends(action, ".*"@) ==> risk_of(action) == ActionRisk::Admin,
        escalates(action) ==> risk_of(action) == ActionRisk::PrivilegeEscalation || risk_of(action)
            == ActionRisk::Admin,
        risk_of(action) == ActionRisk::ReadOnly ==> {
            &&& !escalates(action)
            &&& action != "*"@ && !ends(action, ".*"@)
            &&& holds(action, ".get"@) || holds(action, ".list"@) || holds(action, ".describe"@)
        },
        action != "*"@ && !ends(action, ".*"@) && !escalates(action) && (holds(action, ".get"@)
            || holds(action, ".list"@) || holds(action, ".describe"@)) && !holds(
            action,
            "iam.updaterolepolicy"@,
        ) ==> risk_of(action) == ActionRisk::ReadOnly,
        action != "*"@ && !ends(action, ".*"@) && !escalates(action) && !holds(action, ".get"@)
            && !holds(action, ".list"@) && !holds(action, ".describe"@) ==> risk_of(action)
            == ActionRisk::Risky,
        action != "*"@ && !ends(action, ".*"@) ==> risk_of(action) != ActionRisk::Admin,
{
    if holds(action, "iam.updaterolepolicy"@) {
        let k = choose|k: int| #[trigger] stands_at(action, "iam.updaterolepolicy"@, k);
        reveal_strlit("iam.updaterolepolicy");
        reveal_strlit("iam.updaterole");
        assert(action.subrange(k, k + 14) =~= action.subrange(k, k + 20).subrange(0, 14));
        assert("iam.updaterolepolicy"@.subrange(0, 14) =~= "iam.updaterole"@);
        assert(stands_at(action, "iam.updaterole"@, k));
    }
}

/// The permission list that an identity holds is filed without loss, and the gravest action in it
/// decides: one for everything, or for everything in a service, or with which the identity can gain
/// permissions makes it critical, and one that is not named as reading makes it high at least.
pub proof fn lemma_gravest_action_decides(
    access_type: Seq<char>,
    actions: Seq<Seq<char>>,
    has_resources: bool,
    k: int,
)
    requires
        0 <= k < actions.len(),
    ensures
        ({
            let action = lowered(actions[k]);
            let severity = identity_severity(access_type, classified(actions), has_resources);
            let reached = reachable_severity(classified(actions));
            &&& action == "*"@ || ends(action, ".*"@) || escalates(action) ==> severity
                == Severity::Critical && reached == Severity::Critical
            &&& !holds(action, ".get"@) && !holds(action, ".list"@) && !holds(action, ".describe"@)
                ==> (severity == Severity::High || severity == Severity::Critical) && (reached
                == Severity::High || reached == Severity::Critical)
            &&& severity != Severity::Low && reached != Severity::Low
        }),
        ({
            let all = classified(actions);
            all.admin.contains(actions[k]) || all.privilege_escalation.contains(actions[k])
                || all.risky.contains(actions[k]) || all.read_only.contains(actions[k])
        }),
{
    let action = lowered(actions[k]);
    let risk = risk_of(action);
    lemma_actions_are_filed_by_their_danger(action);
    lemma_class_holds_its_kind(actions, risk);
    assert(actions.contains(actions[k]));
    assert(actions_of_risk(actions, risk, actions.len() as int).contains(actions[k]));
    lemma_gravest_permission_decides(access_type, classified(actions), has_resources);
}

proof fn lemma_covering(list: Seq<Seq<char>>, prefix: Seq<char>, n: int)
    requires
        0 <= n <= list.len(),
    ensures
        ascending(covering(list, prefix, n)),
        forall|permission: Seq<char>| #[trigger]
            covering(list, prefix, n).contains(permission) <==> exists|k: int|
                0 <= k < n && #[trigger] list[k] == permission && (permission == "*"@ || begins(
                    permission,
                    prefix,
                )),
    decreases n,
{
    if n > 0 {
        lemma_covering(list, prefix, n - 1);
        lemma_placed(covering(list, prefix, n - 1), list[n - 1]);
    }
}

/// The permissions on a service are those of the identity that name it, from whatever class, and the
/// one for everything; a service can be read where there is one of these.
pub proof fn lemma_service_permissions(
    summary: PermissionSummaryView,
    prefix: Seq<char>,
    permission: Seq<char>,
)
    ensures
        prefix_permissions(summary, prefix).contains(permission) <==> {
            &&& summary.admin.contains(permission) || summary.privilege_escalation.contains(permission)
                || summary.risky.contains(permission) || summary.read_only.contains(permission)
            &&& permission == "*"@ || begins(permission, prefix)
        },
        readable(summary, prefix) <==> exists|p: Seq<char>| #[trigger]
            prefix_permissions(summary, prefix).contains(p),
{
    let all = all_permissions(summary);
    let n = all.len() as int;
    lemma_covering(all, prefix, n);
    lemma_all_permissions(summary, permission);
    if prefix_permissions(summary, prefix).contains(permission) {
        let k = choose|k: int| 0 <= k < n && #[trigger] all[k] == permission;
        assert(all.contains(permission));
    }
    if all.contains(permission) {
        let k = choose|k: int| 0 <= k < n && all[k] == permission;
        assert(all[k] == permission);
    }
    if readable(summary, prefix) {
        let k = choose|k: int| 0 <= k < n && covers(#[trigger] all[k], prefix);
        assert(prefix_permissions(summary, prefix).contains(all[k]));
    }
    if exists|p: Seq<char>| #[trigger] prefix_permissions(summary, prefix).contains(p) {
        let p = choose|p: Seq<char>| #[trigger] prefix_permissions(summary, prefix).contains(p);
        let k = choose|k: int|
            0 <= k < n && #[trigger] all[k] == p && (p == "*"@ || begins(p, prefix));
        assert(covers(all[k], prefix));
    }
}

proof fn lemma_all_permissions(summary: PermissionSummaryView, permission: Seq<char>)
    ensures
        all_permissions(summary).contains(permission) <==> summary.admin.contains(permission)
            || summary.privilege_escalation.contains(permission) || summary.risky.contains(permission)
            || summary.read_only.contains(permission),
        acting_permissions(summary).contains(permission) <==> summary.admin.contains(permission)
            || summary.privilege_escalation.contains(permission) || summary.risky.contains(permission),
{
    broadcast use vstd::seq_lib::group_seq_properties;

    assert((summary.admin + summary.privilege_escalation).contains(permission)
        <==> summary.admin.contains(permission) || summary.privilege_escalation.contains(permission));
    assert(acting_permissions(summary).contains(permission) <==> (summary.admin
        + summary.privilege_escalation).contains(permission) || summary.risky.contains(permission));
    assert(all_permissions(summary) =~= acting_permissions(summary) + summary.read_only);
}

} // verus!
