//! MySQL connections.

use vstd::prelude::*;
use crate::mapping::{build_result, plain_result};
use crate::model::{
    binding, empty_permission_summary, exposure, no_lower, no_views, opt_view, push_view, views,
    AccessMapResult, AccessMapResultView, AccessSummary, AccessSummaryView, PermissionSummary,
    PermissionSummaryView, ProviderMetadata, ProviderMetadataView, ResourceExposure,
    ResourceExposureView, RoleBinding, RoleBindingView, Severity,
};
use crate::order::{in_order, lemma_in_order, sort_dedup};
use crate::permissions::{class_list, file_permission, filed, lemma_filed, PermissionClass};
use crate::text::{
    all_ascii, at_byte, begins, byte_width, cat2, cat3, copy_texts, extend_texts, find, find_byte,
    first_at, is_among, is_one_of, join, joined, lemma_first_at, no_texts, opt_text, pieces, push_text, raised, slice,
    slice_from, slices, split, starts_with, str_eq, text_else, texts, to_uppercase, trim, trimmed,
    unwrap_text, width_upto,
};

verus! {

/// A grant: what it permits, and on what.
#[derive(Debug)]
pub struct ParsedGrant {
    pub privileges: Vec<String>,
    pub scope: String,
}

/// A grant, as views.
#[verifier::ext_equal]
pub ghost struct ParsedGrantView {
    pub privileges: Seq<Seq<char>>,
    pub scope: Seq<char>,
}

impl View for ParsedGrant {
    type V = ParsedGrantView;

    open spec fn view(&self) -> ParsedGrantView {
        ParsedGrantView { privileges: texts(self.privileges@), scope: self.scope@ }
    }
}

/// What a row of grants turns out to be. A row is read by the positions of words in its upper-case
/// form; where these do not fit the row itself, it cannot be read.
#[derive(Debug)]
pub enum RowReading {
    Skipped,
    Grant(ParsedGrant),
    Unreadable,
}

/// What a row of grants turns out to be, as views.
#[verifier::ext_equal]
pub ghost enum RowReadingView {
    Skipped,
    Grant(ParsedGrantView),
    Unreadable,
}

impl View for RowReading {
    type V = RowReadingView;

    open spec fn view(&self) -> RowReadingView {
        match self {
            RowReading::Skipped => RowReadingView::Skipped,
            RowReading::Grant(grant) => RowReadingView::Grant(grant@),
            RowReading::Unreadable => RowReadingView::Unreadable,
        }
    }
}

/// The first `n` of the privileges that stand between commas, in upper case.
pub open spec fn privileges_upto(list: Seq<Seq<char>>, n: int) -> Seq<Seq<char>>
    decreases n,
{
    if n <= 0 {
        Seq::empty()
    } else {
        let name = raised(trimmed(list[n - 1]));
        if name.len() > 0 {
            privileges_upto(list, n - 1).push(name)
        } else {
            privileges_upto(list, n - 1)
        }
    }
}

/// The privileges that stand between commas.
pub open spec fn privileges_in(text: Seq<char>) -> Seq<Seq<char>> {
    privileges_upto(pieces(text, ','), pieces(text, ',').len() as int)
}

fn read_privileges(text: &str) -> (privileges: Vec<String>)
    ensures
        texts(privileges@) == privileges_in(text@),
{
    let list = split(text, ',');
    let mut privileges = no_texts();
    let mut i: usize = 0;
    while i < list.len()
        invariant
            i <= list@.len(),
            texts(privileges@) == privileges_upto(texts(list@), i as int),
        decreases list@.len() - i,
    {
        assert(texts(list@)[i as int] == list@[i as int]@);
        let bare = trim(list[i].as_str());
        let name = to_uppercase(bare.as_str());
        if !name.as_str().is_empty() {
            push_text(&mut privileges, name);
        }
        i = i + 1;
    }
    privileges
}

/// What a grant is on: what stands before ` TO `, or all of it. Nothing where the position of that
/// word does not fit.
pub open spec fn scope_in(rest: Seq<char>) -> Option<Seq<char>> {
    let upper = raised(rest);
    match first_at(upper, " TO "@, 0) {
        None => Some(trimmed(rest)),
        Some(k) => match at_byte(rest, width_upto(upper, k), 0) {
            Some(j) => Some(trimmed(rest.take(j))),
            None => None,
        },
    }
}

fn read_scope(rest: &str) -> (scope: Option<String>)
    ensures
        opt_text(scope) == scope_in(rest@),
{
    let upper = to_uppercase(rest);
    match find(upper.as_str(), " TO ") {
        None => Some(trim(rest)),
        Some(k) => {
            let bytes: u128 = byte_width(upper.as_str(), k);
            match find_byte(rest, bytes) {
                Some(j) => {
                    let head = slice(rest, 0, j);
                    assert(head@ =~= rest@.take(j as int));
                    Some(trim(head.as_str()))
                },
                None => None,
            }
        },
    }
}

/// What a row of grants turns out to be: `GRANT`, privileges, `ON`, a scope and `TO`. A grant that
/// lets an account act as a proxy for another is skipped, since it gives no access to any data.
pub open spec fn row_reading(row: Seq<char>) -> RowReadingView {
    let upper = raised(row);
    if !begins(upper, "GRANT "@) {
        RowReadingView::Skipped
    } else {
        match first_at(upper, " ON "@, 0) {
            None => RowReadingView::Skipped,
            Some(k) => {
                let on = width_upto(upper, k);
                match (at_byte(row, 6, 0), at_byte(row, on, 0), at_byte(row, on + 4, 0)) {
                    (Some(from), Some(to), Some(after)) => if from > to {
                        RowReadingView::Unreadable
                    } else {
                        let privileges = privileges_in(row.subrange(from, to));
                        if privileges == seq!["PROXY"@] {
                            RowReadingView::Skipped
                        } else {
                            match scope_in(row.skip(after)) {
                                None => RowReadingView::Unreadable,
                                Some(scope) => if privileges.len() == 0 {
                                    RowReadingView::Skipped
                                } else {
                                    RowReadingView::Grant(ParsedGrantView { privileges, scope })
                                },
                            }
                        }
                    },
                    _ => RowReadingView::Unreadable,
                }
            },
        }
    }
}

/// Reads a row of grants.
pub fn read_row(row: &str) -> (reading: RowReading)
    ensures
        reading@ == row_reading(row@),
{
    let upper = to_uppercase(row);
    if !starts_with(upper.as_str(), "GRANT ") {
        return RowReading::Skipped;
    }
    match find(upper.as_str(), " ON ") {
        None => RowReading::Skipped,
        Some(k) => {
            let on: u128 = byte_width(upper.as_str(), k);
            match (find_byte(row, 6), find_byte(row, on), find_byte(row, on + 4)) {
                (Some(from), Some(to), Some(after)) => {
                    if from > to {
                        return RowReading::Unreadable;
                    }
                    let part = slice(row, from, to);
                    let privileges = read_privileges(part.as_str());
                    if privileges.len() == 1 && str_eq(privileges[0].as_str(), "PROXY") {
                        assert(texts(privileges@) =~= seq!["PROXY"@]);
                        return RowReading::Skipped;
                    }
                    assert(texts(privileges@) != seq!["PROXY"@]) by {
                        if privileges@.len() == 1 {
                            assert(texts(privileges@)[0] != seq!["PROXY"@][0]);
                        } else {
                            assert(texts(privileges@).len() != seq!["PROXY"@].len());
                        }
                    }
                    let rest = slice_from(row, after);
                    match read_scope(rest.as_str()) {
                        None => RowReading::Unreadable,
                        Some(scope) => if privileges.len() == 0 {
                            RowReading::Skipped
                        } else {
                            RowReading::Grant(ParsedGrant { privileges, scope })
                        },
                    }
                },
                _ => RowReading::Unreadable,
            }
        },
    }
}

/// Whether all rows can be read.
pub open spec fn all_readable(rows: Seq<Seq<char>>) -> bool {
    forall|k: int| 0 <= k < rows.len() ==> !(row_reading(#[trigger] rows[k]) is Unreadable)
}

/// The grants in the first `n` rows.
pub open spec fn grants_upto(rows: Seq<Seq<char>>, n: int) -> Seq<ParsedGrantView>
    decreases n,
{
    if n <= 0 {
        Seq::empty()
    } else {
        match row_reading(rows[n - 1]) {
            RowReadingView::Grant(grant) => grants_upto(rows, n - 1).push(grant),
            _ => grants_upto(rows, n - 1),
        }
    }
}

/// Reads the rows of grants, all of which can be read.
pub fn parse_grants(grant_rows: &Vec<String>) -> (grants: Vec<ParsedGrant>)
    requires
        all_readable(texts(grant_rows@)),
    ensures
        views(grants@) == grants_upto(texts(grant_rows@), grant_rows@.len() as int),
{
    let mut grants: Vec<ParsedGrant> = no_views();
    let mut i: usize = 0;
    while i < grant_rows.len()
        invariant
            i <= grant_rows@.len(),
            views(grants@) == grants_upto(texts(grant_rows@), i as int),
        decreases grant_rows@.len() - i,
    {
        assert(texts(grant_rows@)[i as int] == grant_rows@[i as int]@);
        match read_row(grant_rows[i].as_str()) {
            RowReading::Grant(grant) => push_view(&mut grants, grant),
            _ => {},
        }
        i = i + 1;
    }
    grants
}

/// Says whether all rows can be read.
pub fn can_read(grant_rows: &Vec<String>) -> (yes: bool)
    ensures
        yes == all_readable(texts(grant_rows@)),
{
    let mut i: usize = 0;
    while i < grant_rows.len()
        invariant
            i <= grant_rows@.len(),
            forall|k: int|
                0 <= k < i ==> !(row_reading(#[trigger] texts(grant_rows@)[k]) is Unreadable),
        decreases grant_rows@.len() - i,
    {
        assert(texts(grant_rows@)[i as int] == grant_rows@[i as int]@);
        match read_row(grant_rows[i].as_str()) {
            RowReading::Unreadable => {
                assert(row_reading(texts(grant_rows@)[i as int]) is Unreadable);
                return false;
            },
            _ => {},
        }
        i = i + 1;
    }
    true
}

/// The privileges that administer a server.
pub open spec fn admin_grants() -> Seq<Seq<char>> {
    seq!["ALL PRIVILEGES"@, "SUPER"@, "GRANT OPTION"@, "CREATE USER"@]
}

/// The privileges that change data.
pub open spec fn risky_grants() -> Seq<Seq<char>> {
    seq!["INSERT"@, "UPDATE"@, "DELETE"@, "DROP"@, "ALTER"@, "CREATE"@]
}

/// The privileges that read.
pub open spec fn read_grants() -> Seq<Seq<char>> {
    seq!["SELECT"@, "SHOW DATABASES"@, "SHOW VIEW"@]
}

fn is_admin_grant(name: &str) -> (yes: bool)
    ensures
        yes == admin_grants().contains(name@),
{
    let list: [&str; 4] = ["ALL PRIVILEGES", "SUPER", "GRANT OPTION", "CREATE USER"];
    assert(slices(list@) =~= admin_grants());
    is_one_of(&list, name)
}

fn is_risky_grant(name: &str) -> (yes: bool)
    ensures
        yes == risky_grants().contains(name@),
{
    let list: [&str; 6] = ["INSERT", "UPDATE", "DELETE", "DROP", "ALTER", "CREATE"];
    assert(slices(list@) =~= risky_grants());
    is_one_of(&list, name)
}

fn is_read_grant(name: &str) -> (yes: bool)
    ensures
        yes == read_grants().contains(name@),
{
    let list: [&str; 3] = ["SELECT", "SHOW DATABASES", "SHOW VIEW"];
    assert(slices(list@) =~= read_grants());
    is_one_of(&list, name)
}

/// The summary with one more privilege on a scope. What administers stands once, without the scope.
pub open spec fn with_privilege(
    summary: PermissionSummaryView,
    privilege: Seq<char>,
    scope: Seq<char>,
) -> PermissionSummaryView {
    let name = raised(privilege);
    if admin_grants().contains(name) {
        if summary.admin.contains(name) {
            summary
        } else {
            filed(summary, PermissionClass::Admin, name)
        }
    } else if risky_grants().contains(name) {
        filed(summary, PermissionClass::Risky, name + " ON "@ + scope)
    } else if read_grants().contains(name) {
        filed(summary, PermissionClass::ReadOnly, name + " ON "@ + scope)
    } else {
        summary
    }
}

fn file_privilege(summary: &mut PermissionSummary, privilege: &str, scope: &str)
    ensures
        final(summary)@ == with_privilege(old(summary)@, privilege@, scope@),
{
    let name = to_uppercase(privilege);
    if is_admin_grant(name.as_str()) {
        if !is_among(&summary.admin, name.as_str()) {
            file_permission(summary, PermissionClass::Admin, name);
        }
    } else if is_risky_grant(name.as_str()) {
        file_permission(summary, PermissionClass::Risky, cat3(name.as_str(), " ON ", scope));
    } else if is_read_grant(name.as_str()) {
        file_permission(summary, PermissionClass::ReadOnly, cat3(name.as_str(), " ON ", scope));
    }
}

/// The summary with the first `n` privileges of a grant.
pub open spec fn with_privileges(
    summary: PermissionSummaryView,
    grant: ParsedGrantView,
    n: int,
) -> PermissionSummaryView
    decreases n,
{
    if n <= 0 {
        summary
    } else {
        with_privilege(
            with_privileges(summary, grant, n - 1),
            grant.privileges[n - 1],
            grant.scope,
        )
    }
}

/// The summary with the first `n` grants.
pub open spec fn with_grants(
    summary: PermissionSummaryView,
    grants: Seq<ParsedGrantView>,
    n: int,
) -> PermissionSummaryView
    decreases n,
{
    if n <= 0 {
        summary
    } else {
        with_privileges(
            with_grants(summary, grants, n - 1),
            grants[n - 1],
            grants[n - 1].privileges.len() as int,
        )
    }
}

fn file_grant(summary: &mut PermissionSummary, grant: &ParsedGrant)
    ensures
        final(summary)@ == with_privileges(
            old(summary)@,
            grant@,
            grant@.privileges.len() as int,
        ),
{
    let ghost start = summary@;
    let mut i: usize = 0;
    while i < grant.privileges.len()
        invariant
            i <= grant.privileges@.len(),
            summary@ == with_privileges(start, grant@, i as int),
        decreases grant.privileges@.len() - i,
    {
        assert(grant@.privileges[i as int] == grant.privileges@[i as int]@);
        file_privilege(summary, grant.privileges[i].as_str(), grant.scope.as_str());
        i = i + 1;
    }
}

/// What the grants permit.
pub open spec fn grant_summary(grants: Seq<ParsedGrantView>) -> PermissionSummaryView {
    let summary = with_grants(empty_permission_summary(), grants, grants.len() as int);
    PermissionSummaryView {
        risky: in_order(summary.risky),
        read_only: in_order(summary.read_only),
        ..summary
    }
}

fn gather_permissions(grants: &Vec<ParsedGrant>) -> (permissions: PermissionSummary)
    ensures
        permissions@ == grant_summary(views(grants@)),
{
    let mut summary = PermissionSummary::default();
    let mut i: usize = 0;
    while i < grants.len()
        invariant
            i <= grants@.len(),
            summary@ == with_grants(empty_permission_summary(), views(grants@), i as int),
        decreases grants@.len() - i,
    {
        assert(views(grants@)[i as int] == grants@[i as int]@);
        file_grant(&mut summary, &grants[i]);
        i = i + 1;
    }
    PermissionSummary {
        admin: summary.admin,
        privilege_escalation: summary.privilege_escalation,
        risky: sort_dedup(summary.risky),
        read_only: sort_dedup(summary.read_only),
    }
}

/// The role that a grant stands for.
pub open spec fn grant_binding(grant: ParsedGrantView) -> RoleBindingView {
    binding("grant:"@ + grant.scope, "SHOW GRANTS"@, grant.privileges)
}

/// The roles that stand for the first `n` grants.
pub open spec fn roles_upto(grants: Seq<ParsedGrantView>, n: int) -> Seq<RoleBindingView>
    decreases n,
{
    if n <= 0 {
        Seq::empty()
    } else {
        roles_upto(grants, n - 1).push(grant_binding(grants[n - 1]))
    }
}

fn list_roles(grants: &Vec<ParsedGrant>) -> (roles: Vec<RoleBinding>)
    ensures
        views(roles@) == roles_upto(views(grants@), grants@.len() as int),
{
    let mut roles: Vec<RoleBinding> = no_views();
    let mut i: usize = 0;
    while i < grants.len()
        invariant
            i <= grants@.len(),
            views(roles@) == roles_upto(views(grants@), i as int),
        decreases grants@.len() - i,
    {
        assert(views(grants@)[i as int] == grants@[i as int]@);
        push_view(
            &mut roles,
            RoleBinding::new(
                cat2("grant:", grants[i].scope.as_str()).as_str(),
                "SHOW GRANTS",
                copy_texts(&grants[i].privileges),
            ),
        );
        i = i + 1;
    }
    roles
}

/// Whether a privilege changes something.
pub open spec fn is_write(privilege: Seq<char>) -> bool {
    admin_grants().contains(raised(privilege)) || risky_grants().contains(raised(privilege))
}

fn check_write(privilege: &str) -> (yes: bool)
    ensures
        yes == is_write(privilege@),
{
    let name = to_uppercase(privilege);
    is_admin_grant(name.as_str()) || is_risky_grant(name.as_str())
}

/// Whether one of the privileges changes something.
pub open spec fn some_write(list: Seq<Seq<char>>) -> bool {
    exists|k: int| 0 <= k < list.len() && is_write(#[trigger] list[k])
}

fn any_write(list: &Vec<String>) -> (yes: bool)
    ensures
        yes == some_write(texts(list@)),
{
    let mut i: usize = 0;
    while i < list.len()
        invariant
            i <= list@.len(),
            forall|k: int| 0 <= k < i ==> !is_write(#[trigger] texts(list@)[k]),
        decreases list@.len() - i,
    {
        assert(texts(list@)[i as int] == list@[i as int]@);
        if check_write(list[i].as_str()) {
            assert(is_write(texts(list@)[i as int]));
            return true;
        }
        i = i + 1;
    }
    false
}

/// Whether a privilege changes data.
pub open spec fn is_risky(privilege: Seq<char>) -> bool {
    risky_grants().contains(raised(privilege))
}

fn check_risky(privilege: &str) -> (yes: bool)
    ensures
        yes == is_risky(privilege@),
{
    let name = to_uppercase(privilege);
    is_risky_grant(name.as_str())
}

/// Whether one of the privileges changes data.
pub open spec fn some_risky(list: Seq<Seq<char>>) -> bool {
    exists|k: int| 0 <= k < list.len() && is_risky(#[trigger] list[k])
}

fn any_risky(list: &Vec<String>) -> (yes: bool)
    ensures
        yes == some_risky(texts(list@)),
{
    let mut i: usize = 0;
    while i < list.len()
        invariant
            i <= list@.len(),
            forall|k: int| 0 <= k < i ==> !is_risky(#[trigger] texts(list@)[k]),
        decreases list@.len() - i,
    {
        assert(texts(list@)[i as int] == list@[i as int]@);
        if check_risky(list[i].as_str()) {
            assert(is_risky(texts(list@)[i as int]));
            return true;
        }
        i = i + 1;
    }
    false
}

/// Whether a privilege is that to everything.
pub open spec fn is_all(privilege: Seq<char>) -> bool {
    raised(privilege) == "ALL PRIVILEGES"@
}

fn check_all(privilege: &str) -> (yes: bool)
    ensures
        yes == is_all(privilege@),
{
    let name = to_uppercase(privilege);
    str_eq(name.as_str(), "ALL PRIVILEGES")
}

/// Whether one of the privileges is that to everything.
pub open spec fn some_all(list: Seq<Seq<char>>) -> bool {
    exists|k: int| 0 <= k < list.len() && is_all(#[trigger] list[k])
}

fn any_all(list: &Vec<String>) -> (yes: bool)
    ensures
        yes == some_all(texts(list@)),
{
    let mut i: usize = 0;
    while i < list.len()
        invariant
            i <= list@.len(),
            forall|k: int| 0 <= k < i ==> !is_all(#[trigger] texts(list@)[k]),
        decreases list@.len() - i,
    {
        assert(texts(list@)[i as int] == list@[i as int]@);
        if check_all(list[i].as_str()) {
            assert(is_all(texts(list@)[i as int]));
            return true;
        }
        i = i + 1;
    }
    false
}

/// Whether a grant changes something on the whole server.
pub open spec fn writes_everywhere(grant: ParsedGrantView) -> bool {
    grant.scope == "*.*"@ && some_write(grant.privileges)
}

/// Whether one of the grants is such a one.
pub open spec fn some_write_everywhere(grants: Seq<ParsedGrantView>) -> bool {
    exists|k: int| 0 <= k < grants.len() && writes_everywhere(#[trigger] grants[k])
}

fn any_global_write(grants: &Vec<ParsedGrant>) -> (yes: bool)
    ensures
        yes == some_write_everywhere(views(grants@)),
{
    let mut i: usize = 0;
    while i < grants.len()
        invariant
            i <= grants@.len(),
            forall|k: int| 0 <= k < i ==> !writes_everywhere(#[trigger] views(grants@)[k]),
        decreases grants@.len() - i,
    {
        assert(views(grants@)[i as int] == grants@[i as int]@);
        if str_eq(grants[i].scope.as_str(), "*.*") && any_write(&grants[i].privileges) {
            assert(writes_everywhere(views(grants@)[i as int]));
            return true;
        }
        i = i + 1;
    }
    false
}

/// Whether a grant is that to everything on the whole server.
pub open spec fn rules_everywhere(grant: ParsedGrantView) -> bool {
    grant.scope == "*.*"@ && some_all(grant.privileges)
}

/// Whether one of the grants is such a one.
pub open spec fn some_rule_everywhere(grants: Seq<ParsedGrantView>) -> bool {
    exists|k: int| 0 <= k < grants.len() && rules_everywhere(#[trigger] grants[k])
}

fn any_global_all(grants: &Vec<ParsedGrant>) -> (yes: bool)
    ensures
        yes == some_rule_everywhere(views(grants@)),
{
    let mut i: usize = 0;
    while i < grants.len()
        invariant
            i <= grants@.len(),
            forall|k: int| 0 <= k < i ==> !rules_everywhere(#[trigger] views(grants@)[k]),
        decreases grants@.len() - i,
    {
        assert(views(grants@)[i as int] == grants@[i as int]@);
        if str_eq(grants[i].scope.as_str(), "*.*") && any_all(&grants[i].privileges) {
            assert(rules_everywhere(views(grants@)[i as int]));
            return true;
        }
        i = i + 1;
    }
    false
}

/// Whether a grant changes data somewhere.
pub open spec fn writes_somewhere(grant: ParsedGrantView) -> bool {
    grant.scope != "*.*"@ && some_risky(grant.privileges)
}

/// Whether one of the grants is such a one.
pub open spec fn some_write_somewhere(grants: Seq<ParsedGrantView>) -> bool {
    exists|k: int| 0 <= k < grants.len() && writes_somewhere(#[trigger] grants[k])
}

fn any_local_write(grants: &Vec<ParsedGrant>) -> (yes: bool)
    ensures
        yes == some_write_somewhere(views(grants@)),
{
    let mut i: usize = 0;
    while i < grants.len()
        invariant
            i <= grants@.len(),
            forall|k: int| 0 <= k < i ==> !writes_somewhere(#[trigger] views(grants@)[k]),
        decreases grants@.len() - i,
    {
        assert(views(grants@)[i as int] == grants@[i as int]@);
        if !str_eq(grants[i].scope.as_str(), "*.*") && any_risky(&grants[i].privileges) {
            assert(writes_somewhere(views(grants@)[i as int]));
            return true;
        }
        i = i + 1;
    }
    false
}

/// Whether a grant covers a database.
pub open spec fn covers(grant: ParsedGrantView, database: Seq<char>) -> bool {
    grant.scope == "*.*"@ || grant.scope == "`"@ + database + "`.*"@
}

fn check_covers(grant: &ParsedGrant, database: &str) -> (yes: bool)
    ensures
        yes == covers(grant@, database@),
{
    let own = cat3("`", database, "`.*");
    str_eq(grant.scope.as_str(), "*.*") || str_eq(grant.scope.as_str(), own.as_str())
}

/// What the first `n` grants permit on a database.
pub open spec fn database_privileges(
    grants: Seq<ParsedGrantView>,
    n: int,
    database: Seq<char>,
) -> Seq<Seq<char>>
    decreases n,
{
    if n <= 0 {
        Seq::empty()
    } else if covers(grants[n - 1], database) {
        database_privileges(grants, n - 1, database) + grants[n - 1].privileges
    } else {
        database_privileges(grants, n - 1, database)
    }
}

/// Whether one of the first `n` grants changes something on a database.
pub open spec fn database_write(grants: Seq<ParsedGrantView>, n: int, database: Seq<char>) -> bool
    decreases n,
{
    n > 0 && (database_write(grants, n - 1, database) || (covers(grants[n - 1], database)
        && some_write(grants[n - 1].privileges)))
}

/// The resource that stands for a database.
pub open spec fn database_exposure(
    database: Seq<char>,
    grants: Seq<ParsedGrantView>,
    user: Seq<char>,
) -> ResourceExposureView {
    exposure(
        "database"@,
        database,
        database_privileges(grants, grants.len() as int, database),
        if database_write(grants, grants.len() as int, database) {
            Severity::Medium
        } else {
            Severity::Low
        },
        "Database accessible by user '"@ + user + "'"@,
    )
}

fn expose_database(database: &str, grants: &Vec<ParsedGrant>, user: &str) -> (resource: ResourceExposure)
    ensures
        resource@ == database_exposure(database@, views(grants@), user@),
{
    let mut privileges = no_texts();
    let mut writes: bool = false;
    let mut i: usize = 0;
    while i < grants.len()
        invariant
            i <= grants@.len(),
            texts(privileges@) == database_privileges(views(grants@), i as int, database@),
            writes == database_write(views(grants@), i as int, database@),
        decreases grants@.len() - i,
    {
        assert(views(grants@)[i as int] == grants@[i as int]@);
        if check_covers(&grants[i], database) {
            extend_texts(&mut privileges, &grants[i].privileges);
            if any_write(&grants[i].privileges) {
                writes = true;
            }
        }
        i = i + 1;
    }
    let risk = if writes {
        Severity::Medium
    } else {
        Severity::Low
    };
    ResourceExposure::new(
        "database",
        database,
        privileges,
        risk,
        cat3("Database accessible by user '", user, "'").as_str(),
    )
}

/// The resources that stand for the first `n` databases.
pub open spec fn databases_upto(
    list: Seq<Seq<char>>,
    n: int,
    grants: Seq<ParsedGrantView>,
    user: Seq<char>,
) -> Seq<ResourceExposureView>
    decreases n,
{
    if n <= 0 {
        Seq::empty()
    } else {
        databases_upto(list, n - 1, grants, user).push(
            database_exposure(list[n - 1], grants, user),
        )
    }
}

fn list_databases(list: &Vec<String>, grants: &Vec<ParsedGrant>, user: &str) -> (resources: Vec<
    ResourceExposure,
>)
    ensures
        views(resources@) == databases_upto(
            texts(list@),
            list@.len() as int,
            views(grants@),
            user@,
        ),
{
    let mut resources: Vec<ResourceExposure> = no_views();
    let mut i: usize = 0;
    while i < list.len()
        invariant
            i <= list@.len(),
            views(resources@) == databases_upto(texts(list@), i as int, views(grants@), user@),
        decreases list@.len() - i,
    {
        assert(texts(list@)[i as int] == list@[i as int]@);
        push_view(&mut resources, expose_database(list[i].as_str(), grants, user));
        i = i + 1;
    }
    resources
}

/// How grave it is what the grants permit.
pub open spec fn mysql_severity(grants: Seq<ParsedGrantView>) -> Severity {
    if some_rule_everywhere(grants) {
        Severity::Critical
    } else if some_write_everywhere(grants) {
        Severity::High
    } else if some_write_somewhere(grants) {
        Severity::Medium
    } else {
        Severity::Low
    }
}

/// Says how grave it is what the grants permit.
pub fn derive_severity(grants: &Vec<ParsedGrant>) -> (severity: Severity)
    ensures
        severity == mysql_severity(views(grants@)),
{
    if any_global_all(grants) {
        Severity::Critical
    } else if any_global_write(grants) {
        Severity::High
    } else if any_local_write(grants) {
        Severity::Medium
    } else {
        Severity::Low
    }
}

/// The notes on the grants, after those on what failed.
pub open spec fn grant_notes(notes: Seq<Seq<char>>, grants: Seq<ParsedGrantView>) -> Seq<Seq<char>> {
    if some_rule_everywhere(grants) {
        notes.push(
            "User has ALL PRIVILEGES on *.* — full administrative access to all databases"@,
        )
    } else if grant_summary(grants).admin.len() > 0 {
        notes.push(
            "User has admin-level grants: "@ + joined(grant_summary(grants).admin, ", "@),
        )
    } else {
        notes
    }
}

/// What a user of a server may do, by its grants and the databases that it sees.
pub open spec fn grants_result(
    user: Seq<char>,
    version: Seq<char>,
    grants: Seq<ParsedGrantView>,
    databases: Seq<Seq<char>>,
    notes: Seq<Seq<char>>,
) -> AccessMapResultView {
    AccessMapResultView {
        provider_metadata: Some(
            ProviderMetadataView {
                version: Some(version),
                enterprise: None,
                authorization_evidence: None,
            },
        ),
        ..plain_result(
            "mysql"@,
            AccessSummaryView {
                id: user,
                access_type: if some_rule_everywhere(grants) {
                    "superuser"@
                } else {
                    "user"@
                },
                project: None,
                tenant: None,
                account_id: None,
            },
            roles_upto(grants, grants.len() as int),
            grant_summary(grants),
            databases_upto(databases, databases.len() as int, grants, user),
            mysql_severity(grants),
            grant_notes(notes, grants),
            None,
        )
    }
}

/// Maps the grants of a user.
pub fn map_grants(
    user: &str,
    version: &str,
    grants: &Vec<ParsedGrant>,
    databases: &Vec<String>,
    notes: Vec<String>,
) -> (result: AccessMapResult)
    ensures
        result@ == grants_result(
            user@,
            version@,
            views(grants@),
            texts(databases@),
            texts(notes@),
        ),
{
    let permissions = gather_permissions(grants);
    let roles = list_roles(grants);
    let resources = list_databases(databases, grants, user);
    let severity = derive_severity(grants);
    let rules = any_global_all(grants);
    let mut risk_notes = notes;
    if rules {
        push_text(
            &mut risk_notes,
            "User has ALL PRIVILEGES on *.* — full administrative access to all databases".to_owned(),
        );
    } else if permissions.admin.len() > 0 {
        let list = join(&permissions.admin, ", ");
        push_text(&mut risk_notes, cat2("User has admin-level grants: ", list.as_str()));
    }
    let kind: &str = if rules {
        "superuser"
    } else {
        "user"
    };
    let mut result = build_result(
        "mysql",
        AccessSummary {
            id: user.to_owned(),
            access_type: kind.to_owned(),
            project: None,
            tenant: None,
            account_id: None,
        },
        roles,
        permissions,
        resources,
        severity,
        risk_notes,
        None,
    );
    result.provider_metadata = Some(
        ProviderMetadata {
            version: Some(version.to_owned()),
            enterprise: None,
            authorization_evidence: None,
        },
    );
    result
}

/// What a listing gave.
pub open spec fn listed(listing: Result<Vec<String>, String>) -> Seq<Seq<char>> {
    match listing {
        Ok(list) => texts(list@),
        Err(_) => Seq::empty(),
    }
}

/// The notes on what failed.
pub open spec fn failure_notes(
    rows: Result<Vec<String>, String>,
    databases: Result<Vec<String>, String>,
) -> Seq<Seq<char>> {
    let first = match rows {
        Ok(_) => Seq::empty(),
        Err(error) => seq!["Grant enumeration failed: "@ + error@],
    };
    match databases {
        Ok(_) => first,
        Err(error) => first.push("Database enumeration failed: "@ + error@),
    }
}

/// What a connection gives access to.
pub open spec fn mysql_result(
    user: Option<Seq<char>>,
    version: Option<Seq<char>>,
    rows: Result<Vec<String>, String>,
    databases: Result<Vec<String>, String>,
) -> AccessMapResultView {
    grants_result(
        text_else(user, "unknown"@),
        text_else(version, "unknown"@),
        grants_upto(listed(rows), listed(rows).len() as int),
        listed(databases),
        failure_notes(rows, databases),
    )
}

/// Maps a connection from what the server answered on it, where all rows of grants can be read.
pub fn map_access_from_uri(
    user: &Option<String>,
    version: &Option<String>,
    rows: Result<Vec<String>, String>,
    databases: Result<Vec<String>, String>,
) -> (result: AccessMapResult)
    requires
        all_readable(listed(rows)),
    ensures
        result@ == mysql_result(opt_text(*user), opt_text(*version), rows, databases),
{
    let ghost given_rows = rows;
    let ghost given_databases = databases;
    let mut notes = no_texts();
    let rows: Vec<String> = match rows {
        Ok(list) => list,
        Err(error) => {
            push_text(&mut notes, cat2("Grant enumeration failed: ", error.as_str()));
            no_texts()
        },
    };
    assert(texts(rows@) =~= listed(given_rows));
    let databases: Vec<String> = match databases {
        Ok(list) => list,
        Err(error) => {
            push_text(&mut notes, cat2("Database enumeration failed: ", error.as_str()));
            no_texts()
        },
    };
    assert(texts(databases@) =~= listed(given_databases));
    assert(texts(notes@) =~= failure_notes(given_rows, given_databases));
    let grants = parse_grants(&rows);
    let name = unwrap_text(user, "unknown");
    let server = unwrap_text(version, "unknown");
    map_grants(name.as_str(), server.as_str(), &grants, &databases, notes)
}

/// Maps a connection from what the server answered on it; nothing where a row of grants cannot be
/// read.
pub fn try_map_access_from_uri(
    user: &Option<String>,
    version: &Option<String>,
    rows: Result<Vec<String>, String>,
    databases: Result<Vec<String>, String>,
) -> (result: Option<AccessMapResult>)
    ensures
        opt_view(result) == if all_readable(listed(rows)) {
            Some(mysql_result(opt_text(*user), opt_text(*version), rows, databases))
        } else {
            None
        },
{
    let readable = match &rows {
        Ok(list) => can_read(list),
        Err(_) => true,
    };
    if readable {
        Some(map_access_from_uri(user, version, rows, databases))
    } else {
        None
    }
}

/// Every privilege to everything on the whole server makes a result critical, whatever else is
/// granted.
pub proof fn lemma_all_privileges_are_critical(
    user: Seq<char>,
    version: Seq<char>,
    grants: Seq<ParsedGrantView>,
    databases: Seq<Seq<char>>,
    notes: Seq<Seq<char>>,
    k: int,
)
    requires
        0 <= k < grants.len(),
        rules_everywhere(grants[k]),
    ensures
        grants_result(user, version, grants, databases, notes).severity == Severity::Critical,
        grants_result(user, version, grants, databases, notes).identity.access_type == "superuser"@,
{
}

/// A grant on one database says nothing of another.
pub proof fn lemma_grants_stay_in_scope(
    grants: Seq<ParsedGrantView>,
    database: Seq<char>,
    user: Seq<char>,
)
    requires
        forall|k: int| 0 <= k < grants.len() ==> !covers(#[trigger] grants[k], database),
    ensures
        database_exposure(database, grants, user).permissions.len() == 0,
        database_exposure(database, grants, user).risk == "low"@,
{
    lemma_uncovered(grants, grants.len() as int, database);
}

proof fn lemma_uncovered(grants: Seq<ParsedGrantView>, n: int, database: Seq<char>)
    requires
        0 <= n <= grants.len(),
        forall|k: int| 0 <= k < grants.len() ==> !covers(#[trigger] grants[k], database),
    ensures
        database_privileges(grants, n, database).len() == 0,
        !database_write(grants, n, database),
    decreases n,
{
    if n > 0 {
        lemma_uncovered(grants, n - 1, database);
        assert(!covers(grants[n - 1], database));
    }
}

/// Privileges that change data, whatever the case they are written in.
pub open spec fn changes_data(privilege: Seq<char>) -> bool {
    let name = raised(privilege);
    name == "INSERT"@ || name == "UPDATE"@ || name == "DELETE"@ || name == "DROP"@ || name == "ALTER"@
        || name == "CREATE"@
}

/// Privileges that administer a server, whatever the case they are written in.
pub open spec fn administers(privilege: Seq<char>) -> bool {
    let name = raised(privilege);
    name == "ALL PRIVILEGES"@ || name == "SUPER"@ || name == "GRANT OPTION"@ || name == "CREATE USER"@
}

/// Privileges that read, whatever the case they are written in.
pub open spec fn reads_data(privilege: Seq<char>) -> bool {
    let name = raised(privilege);
    name == "SELECT"@ || name == "SHOW DATABASES"@ || name == "SHOW VIEW"@
}

proof fn lemma_privilege_kinds(privilege: Seq<char>)
    ensures
        changes_data(privilege) <==> risky_grants().contains(raised(privilege)),
        administers(privilege) <==> admin_grants().contains(raised(privilege)),
        reads_data(privilege) <==> read_grants().contains(raised(privilege)),
        changes_data(privilege) || administers(privilege) <==> is_write(privilege),
        changes_data(privilege) ==> is_risky(privilege) && !administers(privilege),
        reads_data(privilege) ==> !changes_data(privilege) && !administers(privilege),
{
    let risky = risky_grants();
    let admin = admin_grants();
    let read = read_grants();
    assert(risky[0] == "INSERT"@ && risky[1] == "UPDATE"@ && risky[2] == "DELETE"@ && risky[3] == "DROP"@
        && risky[4] == "ALTER"@ && risky[5] == "CREATE"@);
    assert(admin[0] == "ALL PRIVILEGES"@ && admin[1] == "SUPER"@ && admin[2] == "GRANT OPTION"@
        && admin[3] == "CREATE USER"@);
    assert(read[0] == "SELECT"@ && read[1] == "SHOW DATABASES"@ && read[2] == "SHOW VIEW"@);
    reveal_strlit("INSERT");
    reveal_strlit("UPDATE");
    reveal_strlit("DELETE");
    reveal_strlit("DROP");
    reveal_strlit("ALTER");
    reveal_strlit("CREATE");
    reveal_strlit("ALL PRIVILEGES");
    reveal_strlit("SUPER");
    reveal_strlit("GRANT OPTION");
    reveal_strlit("CREATE USER");
    reveal_strlit("SELECT");
    reveal_strlit("SHOW DATABASES");
    reveal_strlit("SHOW VIEW");
    assert("INSERT"@.len() == 6 && "UPDATE"@.len() == 6 && "DELETE"@.len() == 6 && "DROP"@.len() == 4
        && "ALTER"@.len() == 5 && "CREATE"@.len() == 6 && "SELECT"@.len() == 6);
    assert("ALL PRIVILEGES"@.len() == 14 && "SUPER"@.len() == 5 && "GRANT OPTION"@.len() == 12
        && "CREATE USER"@.len() == 11 && "SHOW DATABASES"@.len() == 14 && "SHOW VIEW"@.len() == 9);
    assert("ALTER"@[0] == 'A' && "SUPER"@[0] == 'S' && "SELECT"@[0] == 'S' && "INSERT"@[0] == 'I'
        && "UPDATE"@[0] == 'U' && "DELETE"@[0] == 'D' && "CREATE"@[0] == 'C' && "SHOW DATABASES"@[0]
        == 'S' && "ALL PRIVILEGES"@[0] == 'A');
}

/// The gravest grant decides. A privilege that changes data or administers, on the whole server, is
/// high at least; every privilege there is critical and makes a superuser; one that changes data on a
/// part of the server is medium at least. Nothing but every privilege on the whole server is critical,
/// and a server on which nothing can be changed is low.
pub proof fn lemma_gravest_grant_decides(
    user: Seq<char>,
    version: Seq<char>,
    grants: Seq<ParsedGrantView>,
    databases: Seq<Seq<char>>,
    notes: Seq<Seq<char>>,
    k: int,
    j: int,
)
    ensures
        ({
            let result = grants_result(user, version, grants, databases, notes);
            &&& 0 <= k < grants.len() && 0 <= j < grants[k].privileges.len() ==> {
                let privilege = grants[k].privileges[j];
                &&& grants[k].scope == "*.*"@ && (changes_data(privilege) || administers(privilege))
                    ==> result.severity == Severity::High || result.severity == Severity::Critical
                &&& grants[k].scope == "*.*"@ && raised(privilege) == "ALL PRIVILEGES"@
                    ==> result.severity == Severity::Critical && result.identity.access_type
                    == "superuser"@
                &&& changes_data(privilege) ==> result.severity != Severity::Low
            }
            &&& (forall|a: int, b: int|
                0 <= a < grants.len() && 0 <= b < grants[a].privileges.len() && grants[a].scope == "*.*"@
                    ==> raised(#[trigger] grants[a].privileges[b]) != "ALL PRIVILEGES"@)
                ==> result.severity != Severity::Critical && result.identity.access_type == "user"@
            &&& (forall|a: int, b: int|
                0 <= a < grants.len() && 0 <= b < grants[a].privileges.len() ==> !changes_data(
                    #[trigger] grants[a].privileges[b],
                ) && !administers(grants[a].privileges[b])) ==> result.severity == Severity::Low
        }),
{
    if 0 <= k < grants.len() && 0 <= j < grants[k].privileges.len() {
        let privilege = grants[k].privileges[j];
        lemma_privilege_kinds(privilege);
        assert(is_write(privilege) ==> some_write(grants[k].privileges));
        assert(is_risky(privilege) ==> some_risky(grants[k].privileges));
        assert(is_all(privilege) ==> some_all(grants[k].privileges));
        assert(writes_everywhere(grants[k]) ==> some_write_everywhere(grants));
        assert(rules_everywhere(grants[k]) ==> some_rule_everywhere(grants));
        assert(writes_somewhere(grants[k]) ==> some_write_somewhere(grants));
    }
    if some_rule_everywhere(grants) {
        let a = choose|a: int| 0 <= a < grants.len() && rules_everywhere(#[trigger] grants[a]);
        let b = choose|b: int|
            0 <= b < grants[a].privileges.len() && is_all(#[trigger] grants[a].privileges[b]);
        assert(raised(grants[a].privileges[b]) == "ALL PRIVILEGES"@);
        assert(administers(grants[a].privileges[b]));
    }
    if some_write_everywhere(grants) {
        let a = choose|a: int| 0 <= a < grants.len() && writes_everywhere(#[trigger] grants[a]);
        let b = choose|b: int|
            0 <= b < grants[a].privileges.len() && is_write(#[trigger] grants[a].privileges[b]);
        lemma_privilege_kinds(grants[a].privileges[b]);
        assert(changes_data(grants[a].privileges[b]) || administers(grants[a].privileges[b]));
    }
    if some_write_somewhere(grants) {
        let a = choose|a: int| 0 <= a < grants.len() && writes_somewhere(#[trigger] grants[a]);
        let b = choose|b: int|
            0 <= b < grants[a].privileges.len() && is_risky(#[trigger] grants[a].privileges[b]);
        lemma_privilege_kinds(grants[a].privileges[b]);
        assert(changes_data(grants[a].privileges[b]));
    }
}

/// The same privileges on the whole server are rated no lower than on a part of it, and more grants
/// are never rated lower than fewer.
pub proof fn lemma_wider_grants_are_no_less_grave(
    grants: Seq<ParsedGrantView>,
    wider: Seq<ParsedGrantView>,
)
    requires
        forall|a: int|
            0 <= a < grants.len() ==> exists|b: int|
                0 <= b < wider.len() && (#[trigger] wider[b]).privileges == (#[trigger] grants[a]).privileges
                    && (wider[b].scope == grants[a].scope || wider[b].scope == "*.*"@),
    ensures
        no_lower(mysql_severity(wider), mysql_severity(grants)),
{
    assert forall|p: Seq<char>| is_risky(p) implies #[trigger] is_write(p) by {}
    if some_rule_everywhere(grants) {
        let a = choose|a: int| 0 <= a < grants.len() && rules_everywhere(#[trigger] grants[a]);
        let b = choose|b: int|
            0 <= b < wider.len() && (#[trigger] wider[b]).privileges == grants[a].privileges && (
            wider[b].scope == grants[a].scope || wider[b].scope == "*.*"@);
        assert(rules_everywhere(wider[b]));
    } else if some_write_everywhere(grants) {
        let a = choose|a: int| 0 <= a < grants.len() && writes_everywhere(#[trigger] grants[a]);
        let b = choose|b: int|
            0 <= b < wider.len() && (#[trigger] wider[b]).privileges == grants[a].privileges && (
            wider[b].scope == grants[a].scope || wider[b].scope == "*.*"@);
        assert(writes_everywhere(wider[b]));
    } else if some_write_somewhere(grants) {
        let a = choose|a: int| 0 <= a < grants.len() && writes_somewhere(#[trigger] grants[a]);
        let b = choose|b: int|
            0 <= b < wider.len() && (#[trigger] wider[b]).privileges == grants[a].privileges && (
            wider[b].scope == grants[a].scope || wider[b].scope == "*.*"@);
        let j = choose|j: int|
            0 <= j < grants[a].privileges.len() && is_risky(#[trigger] grants[a].privileges[j]);
        assert(is_write(wider[b].privileges[j]));
        assert(writes_everywhere(wider[b]) || writes_somewhere(wider[b]));
    }
}

proof fn lemma_database_upto(grants: Seq<ParsedGrantView>, n: int, database: Seq<char>, k: int, j: int)
    requires
        0 <= k < n <= grants.len(),
        grants[k].scope == "*.*"@ || grants[k].scope == "`"@ + database + "`.*"@,
        0 <= j < grants[k].privileges.len(),
    ensures
        database_privileges(grants, n, database).contains(grants[k].privileges[j]),
        changes_data(grants[k].privileges[j]) || administers(grants[k].privileges[j])
            ==> database_write(grants, n, database),
    decreases n,
{
    let before = database_privileges(grants, n - 1, database);
    let now = database_privileges(grants, n, database);
    let privilege = grants[k].privileges[j];
    if k < n - 1 {
        lemma_database_upto(grants, n - 1, database, k, j);
        let m = choose|m: int| 0 <= m < before.len() && before[m] == privilege;
        assert(now[m] == privilege);
    } else {
        assert(now[before.len() + j] == privilege);
        lemma_privilege_kinds(privilege);
        assert(is_write(privilege) ==> some_write(grants[k].privileges));
    }
}

proof fn lemma_database_write(grants: Seq<ParsedGrantView>, n: int, database: Seq<char>)
    requires
        0 <= n <= grants.len(),
        database_write(grants, n, database),
    ensures
        exists|k: int, j: int|
            0 <= k < n && covers(grants[k], database) && 0 <= j < grants[k].privileges.len() && is_write(
                #[trigger] grants[k].privileges[j],
            ),
    decreases n,
{
    if database_write(grants, n - 1, database) {
        lemma_database_write(grants, n - 1, database);
    } else {
        let j = choose|j: int|
            0 <= j < grants[n - 1].privileges.len() && is_write(#[trigger] grants[n - 1].privileges[j]);
        assert(is_write(grants[n - 1].privileges[j]));
    }
}

proof fn lemma_databases_upto(
    list: Seq<Seq<char>>,
    n: int,
    grants: Seq<ParsedGrantView>,
    user: Seq<char>,
)
    requires
        0 <= n <= list.len(),
    ensures
        databases_upto(list, n, grants, user).len() == n,
        forall|d: int|
            0 <= d < n ==> #[trigger] databases_upto(list, n, grants, user)[d] == database_exposure(
                list[d],
                grants,
                user,
            ),
    decreases n,
{
    if n > 0 {
        lemma_databases_upto(list, n - 1, grants, user);
    }
}

/// Every database that is seen is reported under its name, with every privilege of every grant that
/// covers it: those on the whole server and those on the database itself. One on which something can
/// be changed is at medium risk, any other at low risk.
pub proof fn lemma_databases_are_exposed_as_granted(
    user: Seq<char>,
    version: Seq<char>,
    grants: Seq<ParsedGrantView>,
    databases: Seq<Seq<char>>,
    notes: Seq<Seq<char>>,
    d: int,
    k: int,
    j: int,
)
    requires
        0 <= d < databases.len(),
    ensures
        ({
            let resources = grants_result(user, version, grants, databases, notes).resources;
            &&& resources.len() == databases.len()
            &&& resources[d].name == databases[d]
            &&& resources[d].resource_type == "database"@
            &&& 0 <= k < grants.len() && 0 <= j < grants[k].privileges.len() && (grants[k].scope
                == "*.*"@ || grants[k].scope == "`"@ + databases[d] + "`.*"@) ==> {
                &&& resources[d].permissions.contains(grants[k].privileges[j])
                &&& changes_data(grants[k].privileges[j]) || administers(grants[k].privileges[j])
                    ==> resources[d].risk == "medium"@
            }
            &&& (forall|a: int, b: int|
                0 <= a < grants.len() && 0 <= b < grants[a].privileges.len() && (grants[a].scope == "*.*"@
                    || grants[a].scope == "`"@ + databases[d] + "`.*"@) ==> !changes_data(
                    #[trigger] grants[a].privileges[b],
                ) && !administers(grants[a].privileges[b])) ==> resources[d].risk == "low"@
        }),
{
    let n = grants.len() as int;
    lemma_databases_upto(databases, databases.len() as int, grants, user);
    if 0 <= k < n && 0 <= j < grants[k].privileges.len() && (grants[k].scope == "*.*"@
        || grants[k].scope == "`"@ + databases[d] + "`.*"@) {
        lemma_database_upto(grants, n, databases[d], k, j);
    }
    if database_write(grants, n, databases[d]) {
        lemma_database_write(grants, n, databases[d]);
        let (a, b) = choose|a: int, b: int|
            0 <= a < n && covers(grants[a], databases[d]) && 0 <= b < grants[a].privileges.len()
                && is_write(#[trigger] grants[a].privileges[b]);
        lemma_privilege_kinds(grants[a].privileges[b]);
    }
}

proof fn lemma_privilege_filed(
    summary: PermissionSummaryView,
    privilege: Seq<char>,
    scope: Seq<char>,
    held: Seq<char>,
)
    ensures
        ({
            let now = with_privilege(summary, privilege, scope);
            &&& summary.admin.contains(held) ==> now.admin.contains(held)
            &&& summary.risky.contains(held) ==> now.risky.contains(held)
            &&& summary.read_only.contains(held) ==> now.read_only.contains(held)
            &&& administers(privilege) ==> now.admin.contains(raised(privilege))
            &&& changes_data(privilege) ==> now.risky.contains(raised(privilege) + " ON "@ + scope)
            &&& reads_data(privilege) ==> now.read_only.contains(raised(privilege) + " ON "@ + scope)
        }),
{
    lemma_privilege_kinds(privilege);
    let name = raised(privilege);
    lemma_filed(summary, PermissionClass::Admin, name);
    lemma_filed(summary, PermissionClass::Risky, name + " ON "@ + scope);
    lemma_filed(summary, PermissionClass::ReadOnly, name + " ON "@ + scope);
    let admin = PermissionClass::Admin;
    let risky = PermissionClass::Risky;
    let read_only = PermissionClass::ReadOnly;
    assert(class_list(summary, admin) == summary.admin);
    assert(class_list(summary, risky) == summary.risky);
    assert(class_list(summary, read_only) == summary.read_only);
    assert(class_list(summary, admin).contains(held) || !class_list(summary, admin).contains(held));
    assert(class_list(summary, risky).contains(held) || !class_list(summary, risky).contains(held));
    assert(class_list(summary, read_only).contains(held) || !class_list(summary, read_only).contains(
        held,
    ));
}

/// The summary holds what a privilege on a scope is filed as.
spec fn holds_filed(summary: PermissionSummaryView, privilege: Seq<char>, scope: Seq<char>) -> bool {
    &&& administers(privilege) ==> summary.admin.contains(raised(privilege))
    &&& changes_data(privilege) ==> summary.risky.contains(raised(privilege) + " ON "@ + scope)
    &&& reads_data(privilege) ==> summary.read_only.contains(raised(privilege) + " ON "@ + scope)
}

proof fn lemma_stays_filed(
    summary: PermissionSummaryView,
    grant: ParsedGrantView,
    n: int,
    privilege: Seq<char>,
    scope: Seq<char>,
)
    requires
        0 <= n <= grant.privileges.len(),
        holds_filed(summary, privilege, scope),
    ensures
        holds_filed(with_privileges(summary, grant, n), privilege, scope),
    decreases n,
{
    if n > 0 {
        lemma_stays_filed(summary, grant, n - 1, privilege, scope);
        let before = with_privileges(summary, grant, n - 1);
        let next = grant.privileges[n - 1];
        lemma_privilege_filed(before, next, grant.scope, raised(privilege));
        lemma_privilege_filed(before, next, grant.scope, raised(privilege) + " ON "@ + scope);
    }
}

proof fn lemma_grant_filed(summary: PermissionSummaryView, grant: ParsedGrantView, n: int, j: int)
    requires
        0 <= j < n <= grant.privileges.len(),
    ensures
        holds_filed(with_privileges(summary, grant, n), grant.privileges[j], grant.scope),
    decreases n,
{
    let before = with_privileges(summary, grant, n - 1);
    let next = grant.privileges[n - 1];
    let privilege = grant.privileges[j];
    if j < n - 1 {
        lemma_grant_filed(summary, grant, n - 1, j);
        lemma_privilege_filed(before, next, grant.scope, raised(privilege));
        lemma_privilege_filed(before, next, grant.scope, raised(privilege) + " ON "@ + grant.scope);
    } else {
        lemma_privilege_filed(before, next, grant.scope, raised(privilege));
    }
}

proof fn lemma_grants_filed(summary: PermissionSummaryView, grants: Seq<ParsedGrantView>, n: int, k: int, j: int)
    requires
        0 <= k < n <= grants.len(),
        0 <= j < grants[k].privileges.len(),
    ensures
        holds_filed(with_grants(summary, grants, n), grants[k].privileges[j], grants[k].scope),
    decreases n,
{
    let before = with_grants(summary, grants, n - 1);
    let last = grants[n - 1];
    if k < n - 1 {
        lemma_grants_filed(summary, grants, n - 1, k, j);
        lemma_stays_filed(
            before,
            last,
            last.privileges.len() as int,
            grants[k].privileges[j],
            grants[k].scope,
        );
    } else {
        lemma_grant_filed(before, last, last.privileges.len() as int, j);
    }
}

/// Every privilege of every grant is reported where it belongs: what administers as such, what changes
/// data as a risk on its scope, what reads as read-only on its scope.
pub proof fn lemma_privileges_are_filed(
    user: Seq<char>,
    version: Seq<char>,
    grants: Seq<ParsedGrantView>,
    databases: Seq<Seq<char>>,
    notes: Seq<Seq<char>>,
    k: int,
    j: int,
)
    requires
        0 <= k < grants.len(),
        0 <= j < grants[k].privileges.len(),
    ensures
        ({
            let result = grants_result(user, version, grants, databases, notes);
            let privilege = grants[k].privileges[j];
            let name = raised(privilege);
            &&& administers(privilege) ==> result.permissions.admin.contains(name)
            &&& changes_data(privilege) ==> result.permissions.risky.contains(
                name + " ON "@ + grants[k].scope,
            )
            &&& reads_data(privilege) ==> result.permissions.read_only.contains(
                name + " ON "@ + grants[k].scope,
            )
            &&& result.roles.len() == grants.len()
            &&& result.roles[k].name == "grant:"@ + grants[k].scope
            &&& result.roles[k].permissions == grants[k].privileges
        }),
{
    let n = grants.len() as int;
    let summary = with_grants(empty_permission_summary(), grants, n);
    lemma_grants_filed(empty_permission_summary(), grants, n, k, j);
    lemma_in_order(summary.risky);
    lemma_in_order(summary.read_only);
    lemma_roles_upto(grants, n);
}

proof fn lemma_roles_upto(grants: Seq<ParsedGrantView>, n: int)
    requires
        0 <= n <= grants.len(),
    ensures
        roles_upto(grants, n).len() == n,
        forall|k: int|
            0 <= k < n ==> #[trigger] roles_upto(grants, n)[k] == grant_binding(grants[k]),
    decreases n,
{
    if n > 0 {
        lemma_roles_upto(grants, n - 1);
    }
}

proof fn lemma_privileges_upto(list: Seq<Seq<char>>, n: int, k: int)
    requires
        0 <= k < n <= list.len(),
        raised(trimmed(list[k])).len() > 0,
    ensures
        privileges_upto(list, n).contains(raised(trimmed(list[k]))),
    decreases n,
{
    let before = privileges_upto(list, n - 1);
    let now = privileges_upto(list, n);
    let name = raised(trimmed(list[k]));
    if k < n - 1 {
        lemma_privileges_upto(list, n - 1, k);
        let m = choose|m: int| 0 <= m < before.len() && before[m] == name;
        assert(now[m] == name);
    } else {
        assert(now[before.len() as int] == name);
    }
}

/// Each privilege between the commas of a grant is read, in upper case and without the white space
/// around it.
pub proof fn lemma_every_privilege_is_read(text: Seq<char>, k: int)
    requires
        0 <= k < pieces(text, ',').len(),
        raised(trimmed(pieces(text, ',')[k])).len() > 0,
    ensures
        privileges_in(text).contains(raised(trimmed(pieces(text, ',')[k]))),
{
    lemma_privileges_upto(pieces(text, ','), pieces(text, ',').len() as int, k);
}

proof fn lemma_ascii_width(s: Seq<char>, n: int)
    requires
        all_ascii(s),
        0 <= n <= s.len(),
    ensures
        width_upto(s, n) == n,
    decreases n,
{
    if n > 0 {
        lemma_ascii_width(s, n - 1);
    }
}

proof fn lemma_ascii_byte(s: Seq<char>, bytes: int, i: int)
    requires
        all_ascii(s),
        0 <= i,
        0 <= bytes,
        i + bytes <= s.len(),
    ensures
        at_byte(s, bytes, i) == Some(i + bytes),
    decreases bytes,
{
    if bytes > 0 {
        lemma_ascii_byte(s, bytes - 1, i + 1);
    }
}

/// A row of ASCII text that says `GRANT`, some privileges, `ON`, a scope and `TO`, in whatever case, is
/// a grant of these privileges on this scope, unless it names no privilege or only that to act as a
/// proxy. A row that does not begin with `GRANT` is none.
pub proof fn lemma_rows_of_grants_are_read(row: Seq<char>, on: int, to: int)
    requires
        all_ascii(row),
    ensures
        !begins(raised(row), "GRANT "@) ==> row_reading(row) == RowReadingView::Skipped,
        begins(raised(row), "GRANT "@) && first_at(raised(row), " ON "@, 0) == Some(on) && 6 <= on
            && first_at(raised(row.skip(on + 4)), " TO "@, 0) == Some(to) ==> {
            let privileges = privileges_in(row.subrange(6, on));
            row_reading(row) == if privileges.len() == 0 || privileges == seq!["PROXY"@] {
                RowReadingView::Skipped
            } else {
                RowReadingView::Grant(
                    ParsedGrantView {
                        privileges,
                        scope: trimmed(row.subrange(on + 4, on + 4 + to)),
                    },
                )
            }
        },
{
    let upper = raised(row);
    if begins(upper, "GRANT "@) && first_at(upper, " ON "@, 0) == Some(on) && 6 <= on && first_at(
        raised(row.skip(on + 4)),
        " TO "@,
        0,
    ) == Some(to) {
        reveal_strlit(" ON ");
        reveal_strlit(" TO ");
        lemma_first_at(upper, " ON "@, 0);
        let rest = row.skip(on + 4);
        assert(upper.len() == row.len());
        assert(on + 4 <= row.len());
        assert(all_ascii(rest));
        let high = raised(rest);
        lemma_first_at(high, " TO "@, 0);
        assert(high.len() == rest.len());
        assert forall|i: int| 0 <= i < upper.len() implies #[trigger] upper[i] < '\u{80}' by {
            assert(row[i] < '\u{80}');
        }
        assert forall|i: int| 0 <= i < high.len() implies #[trigger] high[i] < '\u{80}' by {
            assert(rest[i] < '\u{80}');
        }
        lemma_ascii_width(upper, on);
        lemma_ascii_byte(row, 6, 0);
        lemma_ascii_byte(row, on, 0);
        lemma_ascii_byte(row, on + 4, 0);
        lemma_ascii_width(high, to);
        lemma_ascii_byte(rest, to, 0);
        assert(rest.take(to) =~= row.subrange(on + 4, on + 4 + to));
    }
}

/// Grants that give administration are noted: all privileges everywhere as full access, any others by their
/// names; without any nothing is noted.
pub proof fn lemma_administration_is_noted(notes: Seq<Seq<char>>, grants: Seq<ParsedGrantView>)
    ensures
        ({
            let after = grant_notes(notes, grants);
            let admin = grant_summary(grants).admin;
            &&& after.take(notes.len() as int) == notes
            &&& some_rule_everywhere(grants) ==> after.len() == notes.len() + 1
            &&& !some_rule_everywhere(grants) && admin.len() > 0 ==> after.last()
                == "User has admin-level grants: "@ + joined(admin, ", "@)
            &&& !some_rule_everywhere(grants) && admin.len() == 0 ==> after == notes
        }),
{
    assert(grant_notes(notes, grants).take(notes.len() as int) =~= notes);
}

} // verus!
