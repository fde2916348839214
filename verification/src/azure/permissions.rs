//! What Microsoft Graph permissions and Azure roles amount to.

use vstd::prelude::*;
use crate::model::{PermissionSummary, PermissionSummaryView, Severity};
use crate::order::{in_order, lemma_in_order, sort_dedup};
use crate::permissions::{
    class_list, file_permission, filed, lemma_filed, sort_permission_summary, sorted_summary,
    PermissionClass,
};
use crate::text::{
    ascii_lower, begins, cat2, cat4, contains, ends, ends_with, extend_texts, holds, is_one_of,
    no_texts, prefix_all, prefixed, push_text, slices, stands_at, starts_with, str_eq, texts,
    to_ascii_lowercase,
};

verus! {

/// The Microsoft Graph permissions with which a principal can give itself others.
pub open spec fn escalating_permissions() -> Seq<Seq<char>> {
    seq![
        "rolemanagement.readwrite.directory"@,
        "approleassignment.readwrite.all"@,
        "delegatedpermissiongrant.readwrite.all"@,
        "directory.readwrite.all"@,
        "application.readwrite.all"@,
        "application.readwrite.ownedby"@,
    ]
}

/// The class of a Microsoft Graph permission, whatever its case.
pub open spec fn graph_class(permission: Seq<char>) -> PermissionClass {
    let name = ascii_lower(permission);
    if escalating_permissions().contains(name) {
        PermissionClass::PrivilegeEscalation
    } else if begins(name, "policy.readwrite."@) || begins(name, "privilegedaccess.readwrite."@) {
        PermissionClass::Admin
    } else if holds(name, ".readwrite"@) || ends(name, ".write"@) || ends(name, ".send"@) || holds(
        name,
        "fullcontrol"@,
    ) || begins(name, "devicemanagement"@) {
        PermissionClass::Risky
    } else if holds(name, ".read"@) || name == "openid"@ || name == "profile"@ || name == "email"@
        || name == "offline_access"@ {
        PermissionClass::ReadOnly
    } else {
        PermissionClass::Risky
    }
}

pub fn classify_graph_permission(permission: &str, summary: &mut PermissionSummary)
    ensures
        final(summary)@ == filed(old(summary)@, graph_class(permission@), permission@),
{
    let name = to_ascii_lowercase(permission);
    let name = name.as_str();
    let escalating: [&str; 6] = [
        "rolemanagement.readwrite.directory",
        "approleassignment.readwrite.all",
        "delegatedpermissiongrant.readwrite.all",
        "directory.readwrite.all",
        "application.readwrite.all",
        "application.readwrite.ownedby",
    ];
    assert(slices(escalating@) =~= escalating_permissions());
    let class = if is_one_of(&escalating, name) {
        PermissionClass::PrivilegeEscalation
    } else if starts_with(name, "policy.readwrite.") || starts_with(
        name,
        "privilegedaccess.readwrite.",
    ) {
        PermissionClass::Admin
    } else if contains(name, ".readwrite") || ends_with(name, ".write") || ends_with(name, ".send")
        || contains(name, "fullcontrol") || starts_with(name, "devicemanagement") {
        PermissionClass::Risky
    } else if contains(name, ".read") || str_eq(name, "openid") || str_eq(name, "profile")
        || str_eq(name, "email") || str_eq(name, "offline_access") {
        PermissionClass::ReadOnly
    } else {
        PermissionClass::Risky
    };
    file_permission(summary, class, permission.to_owned());
}

/// A Microsoft Graph permission to write is never taken for one to read.
pub proof fn lemma_write_permissions_are_not_read_only(permission: Seq<char>)
    ensures
        holds(ascii_lower(permission), ".readwrite"@) ==> graph_class(permission)
            != PermissionClass::ReadOnly,
        ends(ascii_lower(permission), ".write"@) ==> graph_class(permission)
            != PermissionClass::ReadOnly,
{
}

/// One set of actions that a role definition permits.
#[derive(Debug)]
pub struct ArmRolePermission {
    pub actions: Vec<String>,
    pub data_actions: Vec<String>,
}

/// A role definition of Azure Resource Manager.
#[derive(Debug)]
pub struct ArmRoleDefinition {
    pub id: String,
    pub role_name: Option<String>,
    pub permissions: Vec<ArmRolePermission>,
}

/// The actions in the first `n` sets of permissions, those on data marked as such.
pub open spec fn actions_upto(list: Seq<ArmRolePermission>, n: int) -> Seq<Seq<char>>
    decreases n,
{
    if n <= 0 {
        Seq::empty()
    } else {
        actions_upto(list, n - 1) + texts(list[n - 1].actions@) + prefixed(
            "data:"@,
            texts(list[n - 1].data_actions@),
        )
    }
}

/// What a role definition permits.
pub open spec fn definition_actions(definition: ArmRoleDefinition) -> Seq<Seq<char>> {
    let actions = actions_upto(definition.permissions@, definition.permissions@.len() as int);
    in_order(
        if definition.id@.len() > 0 {
            actions.push("role_definition:"@ + definition.id@)
        } else {
            actions
        },
    )
}

pub fn role_definition_permissions(definition: &ArmRoleDefinition) -> (actions: Vec<String>)
    ensures
        texts(actions@) == definition_actions(*definition),
{
    let mut actions = no_texts();
    let mut i: usize = 0;
    while i < definition.permissions.len()
        invariant
            i <= definition.permissions@.len(),
            texts(actions@) == actions_upto(definition.permissions@, i as int),
        decreases definition.permissions@.len() - i,
    {
        extend_texts(&mut actions, &definition.permissions[i].actions);
        let data = prefix_all("data:", &definition.permissions[i].data_actions);
        extend_texts(&mut actions, &data);
        i = i + 1;
    }
    if !definition.id.as_str().is_empty() {
        push_text(&mut actions, cat2("role_definition:", definition.id.as_str()));
    }
    sort_dedup(actions)
}

/// Whether an action lets its holder assign roles or define them.
pub open spec fn assigns_roles(action: Seq<char>) -> bool {
    ||| holds(ascii_lower(action), "microsoft.authorization/roleassignments/write"@)
    ||| holds(ascii_lower(action), "microsoft.authorization/roledefinitions/write"@)
}

/// Whether an action changes something or reaches data.
pub open spec fn changes_or_reads_data(action: Seq<char>) -> bool {
    let name = ascii_lower(action);
    ||| name == "*"@
    ||| ends(name, "/write"@)
    ||| ends(name, "/delete"@)
    ||| begins(name, "data:"@)
}

/// Whether one of the actions lets its holder assign roles or define them.
pub open spec fn some_assign_roles(actions: Seq<Seq<char>>) -> bool {
    exists|k: int| 0 <= k < actions.len() && assigns_roles(#[trigger] actions[k])
}

/// Whether one of the actions changes something or reaches data.
pub open spec fn some_change_or_read_data(actions: Seq<Seq<char>>) -> bool {
    exists|k: int| 0 <= k < actions.len() && changes_or_reads_data(#[trigger] actions[k])
}

/// The class of a role, by what it permits and by its name.
pub open spec fn role_class(role_name: Seq<char>, actions: Seq<Seq<char>>) -> PermissionClass {
    let name = ascii_lower(role_name);
    if some_assign_roles(actions) {
        PermissionClass::PrivilegeEscalation
    } else if name == "owner"@ || name == "user access administrator"@ || name
        == "role based access control administrator"@ {
        PermissionClass::Admin
    } else if holds(name, "contributor"@) || some_change_or_read_data(actions) {
        PermissionClass::Risky
    } else {
        PermissionClass::ReadOnly
    }
}

/// How a role on a scope is written among the permissions.
pub open spec fn role_permission(role_name: Seq<char>, scope: Seq<char>) -> Seq<char> {
    "azure_rbac:"@ + role_name + "@"@ + scope
}

fn find_class(role_name: &str, actions: &Vec<String>) -> (class: PermissionClass)
    ensures
        class == role_class(role_name@, texts(actions@)),
{
    let mut assigns: bool = false;
    let mut changes: bool = false;
    let mut i: usize = 0;
    while i < actions.len()
        invariant
            i <= actions@.len(),
            assigns == exists|k: int| 0 <= k < i && assigns_roles(#[trigger] texts(actions@)[k]),
            changes == exists|k: int|
                0 <= k < i && changes_or_reads_data(#[trigger] texts(actions@)[k]),
        decreases actions@.len() - i,
    {
        let action = to_ascii_lowercase(actions[i].as_str());
        let action = action.as_str();
        assert(texts(actions@)[i as int] == actions@[i as int]@);
        if contains(action, "microsoft.authorization/roleassignments/write") || contains(
            action,
            "microsoft.authorization/roledefinitions/write",
        ) {
            assigns = true;
        }
        if str_eq(action, "*") || ends_with(action, "/write") || ends_with(action, "/delete")
            || starts_with(action, "data:") {
            changes = true;
        }
        i = i + 1;
    }
    let name = to_ascii_lowercase(role_name);
    let name = name.as_str();
    if assigns {
        PermissionClass::PrivilegeEscalation
    } else if str_eq(name, "owner") || str_eq(name, "user access administrator") || str_eq(
        name,
        "role based access control administrator",
    ) {
        PermissionClass::Admin
    } else if contains(name, "contributor") || changes {
        PermissionClass::Risky
    } else {
        PermissionClass::ReadOnly
    }
}

pub fn classify_arm_role(
    role_name: &str,
    scope: &str,
    actions: &Vec<String>,
    summary: &mut PermissionSummary,
)
    ensures
        final(summary)@ == filed(
            old(summary)@,
            role_class(role_name@, texts(actions@)),
            role_permission(role_name@, scope@),
        ),
{
    let class = find_class(role_name, actions);
    file_permission(summary, class, cat4("azure_rbac:", role_name, "@", scope));
}

/// How grave it is to hold a role.
pub open spec fn role_severity(role_name: Seq<char>, actions: Seq<Seq<char>>) -> Severity {
    match role_class(role_name, actions) {
        PermissionClass::Admin | PermissionClass::PrivilegeEscalation => Severity::Critical,
        PermissionClass::Risky => Severity::High,
        PermissionClass::ReadOnly => Severity::Medium,
    }
}

pub fn arm_role_severity(role_name: &str, actions: &Vec<String>) -> (severity: Severity)
    ensures
        severity == role_severity(role_name@, texts(actions@)),
{
    match find_class(role_name, actions) {
        PermissionClass::Admin | PermissionClass::PrivilegeEscalation => Severity::Critical,
        PermissionClass::Risky => Severity::High,
        PermissionClass::ReadOnly => Severity::Medium,
    }
}

/// A role that permits more is never held to be less grave.
pub proof fn lemma_more_actions_are_no_less_grave(
    role_name: Seq<char>,
    actions: Seq<Seq<char>>,
    more: Seq<Seq<char>>,
)
    requires
        forall|action: Seq<char>| #[trigger] actions.contains(action) ==> more.contains(action),
    ensures
        role_severity(role_name, actions) == Severity::Critical ==> role_severity(role_name, more)
            == Severity::Critical,
        role_severity(role_name, actions) == Severity::High ==> role_severity(role_name, more)
            == Severity::High || role_severity(role_name, more) == Severity::Critical,
{
    if some_assign_roles(actions) {
        let k = choose|k: int| 0 <= k < actions.len() && assigns_roles(#[trigger] actions[k]);
        assert(actions.contains(actions[k]));
        let j = more.index_of(actions[k]);
        assert(more[j] == actions[k]);
        assert(some_assign_roles(more));
    }
    if some_change_or_read_data(actions) {
        let k = choose|k: int|
            0 <= k < actions.len() && changes_or_reads_data(#[trigger] actions[k]);
        assert(actions.contains(actions[k]));
        let j = more.index_of(actions[k]);
        assert(more[j] == actions[k]);
        assert(some_change_or_read_data(more));
    }
}

/// Two summaries as one, each class in order and nothing in it twice.
pub open spec fn united_summary(a: PermissionSummaryView, b: PermissionSummaryView) -> PermissionSummaryView {
    sorted_summary(
        PermissionSummaryView {
            admin: a.admin + b.admin,
            privilege_escalation: a.privilege_escalation + b.privilege_escalation,
            risky: a.risky + b.risky,
            read_only: a.read_only + b.read_only,
        },
    )
}

pub fn merge_permissions(target: &mut PermissionSummary, source: &PermissionSummary)
    ensures
        final(target)@ == united_summary(old(target)@, source@),
{
    extend_texts(&mut target.admin, &source.admin);
    extend_texts(&mut target.privilege_escalation, &source.privilege_escalation);
    extend_texts(&mut target.risky, &source.risky);
    extend_texts(&mut target.read_only, &source.read_only);
    sort_permission_summary(target);
}

/// The built-in roles that can assign every other, in whatever case they are written.
pub open spec fn rules_access(role_name: Seq<char>) -> bool {
    ||| ascii_lower(role_name) == "owner"@
    ||| ascii_lower(role_name) == "user access administrator"@
    ||| ascii_lower(role_name) == "role based access control administrator"@
}

/// A role that can assign roles, by its name or by one of its actions, is filed as administration or
/// as a way to gain permissions and is critical. A contributor, and a role with any action to do
/// everything, to write, to delete or to reach data, is never filed as read-only and is high at
/// least. A role is read-only exactly where none of this holds.
pub proof fn lemma_roles_are_filed_by_their_power(role_name: Seq<char>, actions: Seq<Seq<char>>, k: int)
    ensures
        rules_access(role_name) ==> {
            &&& role_class(role_name, actions) == PermissionClass::Admin || role_class(
                role_name,
                actions,
            ) == PermissionClass::PrivilegeEscalation
            &&& role_severity(role_name, actions) == Severity::Critical
        },
        0 <= k < actions.len() && (holds(
            ascii_lower(actions[k]),
            "microsoft.authorization/roleassignments/write"@,
        ) || holds(ascii_lower(actions[k]), "microsoft.authorization/roledefinitions/write"@)) ==> {
            &&& role_class(role_name, actions) == PermissionClass::PrivilegeEscalation
            &&& role_severity(role_name, actions) == Severity::Critical
        },
        holds(ascii_lower(role_name), "contributor"@) || (0 <= k < actions.len() && (ascii_lower(
            actions[k],
        ) == "*"@ || ends(ascii_lower(actions[k]), "/write"@) || ends(
            ascii_lower(actions[k]),
            "/delete"@,
        ) || begins(ascii_lower(actions[k]), "data:"@))) ==> {
            &&& role_class(role_name, actions) != PermissionClass::ReadOnly
            &&& role_severity(role_name, actions) == Severity::High || role_severity(
                role_name,
                actions,
            ) == Severity::Critical
        },
        !rules_access(role_name) && !holds(ascii_lower(role_name), "contributor"@) && (forall|j: int|
            0 <= j < actions.len() ==> {
                let action = ascii_lower(#[trigger] actions[j]);
                &&& !holds(action, "microsoft.authorization/roleassignments/write"@)
                &&& !holds(action, "microsoft.authorization/roledefinitions/write"@)
                &&& action != "*"@
                &&& !ends(action, "/write"@)
                &&& !ends(action, "/delete"@)
                &&& !begins(action, "data:"@)
            }) ==> role_class(role_name, actions) == PermissionClass::ReadOnly && role_severity(
            role_name,
            actions,
        ) == Severity::Medium,
        role_severity(role_name, actions) == Severity::Critical <==> role_class(role_name, actions)
            == PermissionClass::Admin || role_class(role_name, actions)
            == PermissionClass::PrivilegeEscalation,
{
    if 0 <= k < actions.len() {
        assert(assigns_roles(actions[k]) ==> some_assign_roles(actions));
        assert(changes_or_reads_data(actions[k]) ==> some_change_or_read_data(actions));
    }
}

/// A Microsoft Graph permission with which a principal can give itself others is filed as such; a
/// permission over policies or privileged access as administration; one that writes, sends or
/// controls fully never as read-only; and one that is not recognised as a risk. Nothing but reading
/// and signing in counts as read-only.
pub proof fn lemma_graph_permissions_are_filed_by_their_power(permission: Seq<char>)
    ensures
        ({
            let name = ascii_lower(permission);
            let class = graph_class(permission);
            &&& name == "rolemanagement.readwrite.directory"@ || name
                == "approleassignment.readwrite.all"@ || name
                == "delegatedpermissiongrant.readwrite.all"@ || name == "directory.readwrite.all"@
                || name == "application.readwrite.all"@ || name == "application.readwrite.ownedby"@
                ==> class == PermissionClass::PrivilegeEscalation
            &&& begins(name, "policy.readwrite."@) || begins(name, "privilegedaccess.readwrite."@)
                ==> class == PermissionClass::Admin || class == PermissionClass::PrivilegeEscalation
            &&& holds(name, ".readwrite"@) || ends(name, ".write"@) || ends(name, ".send"@) || holds(
                name,
                "fullcontrol"@,
            ) || begins(name, "devicemanagement"@) ==> class != PermissionClass::ReadOnly
            &&& class == PermissionClass::ReadOnly ==> holds(name, ".read"@) || name == "openid"@ || name
                == "profile"@ || name == "email"@ || name == "offline_access"@
            &&& !holds(name, ".read"@) && name != "openid"@ && name != "profile"@ && name != "email"@
                && name != "offline_access"@ ==> class != PermissionClass::ReadOnly
        }),
{
    let list = escalating_permissions();
    assert(list[0] == "rolemanagement.readwrite.directory"@);
    assert(list[1] == "approleassignment.readwrite.all"@);
    assert(list[2] == "delegatedpermissiongrant.readwrite.all"@);
    assert(list[3] == "directory.readwrite.all"@);
    assert(list[4] == "application.readwrite.all"@);
    assert(list[5] == "application.readwrite.ownedby"@);
}

/// A role on a scope is filed once, under both its name and the scope, and takes nothing out of the
/// summary.
pub proof fn lemma_roles_are_filed_on_their_scope(
    summary: PermissionSummaryView,
    role_name: Seq<char>,
    scope: Seq<char>,
    actions: Seq<Seq<char>>,
    class: PermissionClass,
    held: Seq<char>,
)
    ensures
        ({
            let now = filed(
                summary,
                role_class(role_name, actions),
                role_permission(role_name, scope),
            );
            &&& class == role_class(role_name, actions) ==> class_list(now, class).contains(
                "azure_rbac:"@ + role_name + "@"@ + scope,
            )
            &&& class != role_class(role_name, actions) ==> class_list(now, class) == class_list(
                summary,
                class,
            )
            &&& class_list(summary, class).contains(held) ==> class_list(now, class).contains(held)
        }),
{
    lemma_filed(summary, role_class(role_name, actions), role_permission(role_name, scope));
}

proof fn lemma_definition_upto(list: Seq<ArmRolePermission>, n: int, k: int, action: Seq<char>)
    requires
        0 <= k < n <= list.len(),
    ensures
        texts(list[k].actions@).contains(action) ==> actions_upto(list, n).contains(action),
        texts(list[k].data_actions@).contains(action) ==> actions_upto(list, n).contains(
            "data:"@ + action,
        ),
    decreases n,
{
    let before = actions_upto(list, n - 1);
    let own = texts(list[n - 1].actions@);
    let data = prefixed("data:"@, texts(list[n - 1].data_actions@));
    let now = actions_upto(list, n);
    assert(now == before + own + data);
    if k < n - 1 {
        lemma_definition_upto(list, n - 1, k, action);
        if before.contains(action) {
            let m = choose|m: int| 0 <= m < before.len() && before[m] == action;
            assert(now[m] == action);
        }
        if before.contains("data:"@ + action) {
            let m = choose|m: int| 0 <= m < before.len() && before[m] == "data:"@ + action;
            assert(now[m] == "data:"@ + action);
        }
    } else {
        if own.contains(action) {
            let m = choose|m: int| 0 <= m < own.len() && own[m] == action;
            assert(now[before.len() + m] == action);
        }
        if texts(list[k].data_actions@).contains(action) {
            let names = texts(list[k].data_actions@);
            let m = choose|m: int| 0 <= m < names.len() && names[m] == action;
            assert(data[m] == "data:"@ + action);
            assert(now[before.len() + own.len() + m] == data[m]);
        }
    }
}

/// Every action of every set of permissions in a role definition counts, and those on data are marked
/// as such. So a role that can write or reach data by any of them is never taken for read-only.
pub proof fn lemma_definitions_are_read_whole(
    definition: ArmRoleDefinition,
    role_name: Seq<char>,
    k: int,
    action: Seq<char>,
)
    requires
        0 <= k < definition.permissions@.len(),
    ensures
        texts(definition.permissions@[k].actions@).contains(action) ==> definition_actions(
            definition,
        ).contains(action),
        texts(definition.permissions@[k].data_actions@).contains(action) ==> definition_actions(
            definition,
        ).contains("data:"@ + action) && role_class(role_name, definition_actions(definition))
            != PermissionClass::ReadOnly,
{
    let list = definition.permissions@;
    let n = list.len() as int;
    let raw = actions_upto(list, n);
    let full = if definition.id@.len() > 0 {
        raw.push("role_definition:"@ + definition.id@)
    } else {
        raw
    };
    lemma_definition_upto(list, n, k, action);
    lemma_in_order(full);
    assert forall|held: Seq<char>| #[trigger] raw.contains(held) implies full.contains(held) by {
        let m = choose|m: int| 0 <= m < raw.len() && raw[m] == held;
        assert(full[m] == held);
    }
    if texts(list[k].data_actions@).contains(action) {
        let marked = "data:"@ + action;
        let all = definition_actions(definition);
        let m = choose|m: int| 0 <= m < all.len() && all[m] == marked;
        reveal_strlit("data:");
        let low = ascii_lower(marked);
        assert(low.subrange(0, 5) =~= "data:"@);
        assert(stands_at(low, "data:"@, 0));
        lemma_roles_are_filed_by_their_power(role_name, all, m);
    }
}

/// Two summaries as one hold, class by class, what either held and nothing else.
pub proof fn lemma_united_summary(
    a: PermissionSummaryView,
    b: PermissionSummaryView,
    class: PermissionClass,
    permission: Seq<char>,
)
    ensures
        class_list(united_summary(a, b), class).contains(permission) <==> class_list(
            a,
            class,
        ).contains(permission) || class_list(b, class).contains(permission),
        class_list(united_summary(a, b), class).len() > 0 <==> class_list(a, class).len() > 0
            || class_list(b, class).len() > 0,
{
    let left = class_list(a, class);
    let right = class_list(b, class);
    lemma_in_order(left + right);
    assert forall|p: Seq<char>| (left + right).contains(p) <==> left.contains(p) || right.contains(p) by {
        if left.contains(p) {
            let m = choose|m: int| 0 <= m < left.len() && left[m] == p;
            assert((left + right)[m] == p);
        }
        if right.contains(p) {
            let m = choose|m: int| 0 <= m < right.len() && right[m] == p;
            assert((left + right)[left.len() + m] == p);
        }
    }
    if (left + right).len() > 0 {
        assert((left + right).contains((left + right)[0]));
        assert(in_order(left + right).contains((left + right)[0]));
    }
}

} // verus!
