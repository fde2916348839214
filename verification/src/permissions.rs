//! Permissions in the classes of a summary.

use vstd::prelude::*;
use crate::model::{PermissionSummary, PermissionSummaryView};
use crate::order::{ascending, in_order, lemma_in_order, sort_dedup};
use crate::text::{push_text, texts};

verus! {

/// The classes of a `PermissionSummary`.
#[derive(Clone, Copy, Debug, PartialEq, Eq, Structural)]
pub enum PermissionClass {
    Admin,
    PrivilegeEscalation,
    Risky,
    ReadOnly,
}

/// A summary with one more permission in a class.
pub open spec fn filed(
    summary: PermissionSummaryView,
    class: PermissionClass,
    permission: Seq<char>,
) -> PermissionSummaryView {
    match class {
        PermissionClass::Admin => PermissionSummaryView {
            admin: summary.admin.push(permission),
            ..summary
        },
        PermissionClass::PrivilegeEscalation => PermissionSummaryView {
            privilege_escalation: summary.privilege_escalation.push(permission),
            ..summary
        },
        PermissionClass::Risky => PermissionSummaryView {
            risky: summary.risky.push(permission),
            ..summary
        },
        PermissionClass::ReadOnly => PermissionSummaryView {
            read_only: summary.read_only.push(permission),
            ..summary
        },
    }
}

/// Adds a permission to a class.
pub fn file_permission(summary: &mut PermissionSummary, class: PermissionClass, permission: String)
    ensures
        final(summary)@ == filed(old(summary)@, class, permission@),
{
    match class {
        PermissionClass::Admin => push_text(&mut summary.admin, permission),
        PermissionClass::PrivilegeEscalation => {
            push_text(&mut summary.privilege_escalation, permission)
        },
        PermissionClass::Risky => push_text(&mut summary.risky, permission),
        PermissionClass::ReadOnly => push_text(&mut summary.read_only, permission),
    }
}

/// A summary with each class in order and nothing in it twice.
pub open spec fn sorted_summary(summary: PermissionSummaryView) -> PermissionSummaryView {
    PermissionSummaryView {
        admin: in_order(summary.admin),
        privilege_escalation: in_order(summary.privilege_escalation),
        risky: in_order(summary.risky),
        read_only: in_order(summary.read_only),
    }
}

fn sort_list(list: &mut Vec<String>)
    ensures
        texts(final(list)@) == in_order(texts(old(list)@)),
{
    let mut taken: Vec<String> = Vec::new();
    std::mem::swap(&mut taken, list);
    let mut sorted = sort_dedup(taken);
    std::mem::swap(&mut sorted, list);
}

pub fn sort_permission_summary(summary: &mut PermissionSummary)
    ensures
        final(summary)@ == sorted_summary(old(summary)@),
{
    sort_list(&mut summary.admin);
    sort_list(&mut summary.privilege_escalation);
    sort_list(&mut summary.risky);
    sort_list(&mut summary.read_only);
}

/// The permissions of one class.
pub open spec fn class_list(summary: PermissionSummaryView, class: PermissionClass) -> Seq<Seq<char>> {
    match class {
        PermissionClass::Admin => summary.admin,
        PermissionClass::PrivilegeEscalation => summary.privilege_escalation,
        PermissionClass::Risky => summary.risky,
        PermissionClass::ReadOnly => summary.read_only,
    }
}

/// A permission that is added to a class is in it, and nothing else changes.
pub proof fn lemma_filed(summary: PermissionSummaryView, class: PermissionClass, permission: Seq<char>)
    ensures
        class_list(filed(summary, class, permission), class).contains(permission),
        forall|other: PermissionClass, held: Seq<char>| #[trigger]
            class_list(summary, other).contains(held) ==> class_list(
                filed(summary, class, permission),
                other,
            ).contains(held),
        forall|other: PermissionClass|
            other != class ==> class_list(filed(summary, class, permission), other)
                == #[trigger] class_list(summary, other),
{
    let before = class_list(summary, class);
    let after = class_list(filed(summary, class, permission), class);
    assert(after[before.len() as int] == permission);
    assert forall|other: PermissionClass, held: Seq<char>| #[trigger]
        class_list(summary, other).contains(held) implies class_list(
        filed(summary, class, permission),
        other,
    ).contains(held) by {
        if other == class {
            let k = choose|k: int| 0 <= k < before.len() && before[k] == held;
            assert(after[k] == held);
        }
    }
}

/// Sorting a summary puts each class in order, leaves nothing in it twice, and neither adds nor
/// drops a permission.
pub proof fn lemma_sorted_summary(summary: PermissionSummaryView, class: PermissionClass)
    ensures
        ascending(class_list(sorted_summary(summary), class)),
        forall|permission: Seq<char>| #[trigger]
            class_list(sorted_summary(summary), class).contains(permission) <==> class_list(
                summary,
                class,
            ).contains(permission),
{
    lemma_in_order(class_list(summary, class));
}

/// Sorting a summary leaves a class empty exactly where it was.
pub proof fn lemma_sorted_classes_stay_filled(summary: PermissionSummaryView, class: PermissionClass)
    ensures
        class_list(sorted_summary(summary), class).len() > 0 <==> class_list(summary, class).len() > 0,
{
    let list = class_list(summary, class);
    lemma_sorted_summary(summary, class);
    if list.len() > 0 {
        assert(list.contains(list[0]));
        assert(class_list(sorted_summary(summary), class).contains(list[0]));
    }
    if class_list(sorted_summary(summary), class).len() > 0 {
        let first = class_list(sorted_summary(summary), class)[0];
        assert(class_list(sorted_summary(summary), class).contains(first));
    }
}

} // verus!
