//! Harness API keys.

use vstd::prelude::*;
use crate::json::{collect_texts, field, held, lemma_texts_among, text_of, texts_among, Json};
use crate::mapping::{build_result, plain_result};
use crate::model::{
    binding, empty_access_token_details, empty_permission_summary, exposure, no_views, push_view,
    views, AccessMapResult, AccessMapResultView, AccessSummary, AccessSummaryView,
    AccessTokenDetails, AccessTokenDetailsView, PermissionSummary, PermissionSummaryView,
    ResourceExposure, ResourceExposureView, RoleBinding, RoleBindingView, Severity,
};
use crate::order::{in_order, lemma_in_order, sort_dedup};
use crate::permissions::{
    class_list, file_permission, filed, lemma_filed, lemma_sorted_classes_stay_filled,
    lemma_sorted_summary, sort_permission_summary, sorted_summary, PermissionClass,
};
use crate::text::{
    ascii_lower, cat2, cat3, cat4, contains, either, first_text, holds, lemma_pieces_of_parts,
    no_texts, one_text, opt_text, or_text, pieces, push_text, slices, split, text_else, texts,
    to_ascii_lowercase, unwrap_text,
};

verus! {

/// An organization.
#[derive(Debug)]
pub struct HarnessOrg {
    pub identifier: Option<String>,
    pub name: Option<String>,
    pub account_identifier: Option<String>,
}

/// A project.
#[derive(Debug)]
pub struct HarnessProject {
    pub identifier: Option<String>,
    pub name: Option<String>,
}

/// An organization and what the listing of its projects came to.
#[derive(Debug)]
pub struct HarnessOrgListing {
    pub org: HarnessOrg,
    pub projects: Result<Vec<HarnessProject>, String>,
}

/// What to do with an answer to the lookup of a key.
#[derive(Clone, Copy, Debug, PartialEq, Eq, Structural)]
pub enum AggregateAction {
    Read,
    Reject,
    Ignore,
}

/// Says what to do with an answer to the lookup of a key, by its status.
pub fn aggregate_action(status: u16) -> (action: AggregateAction)
    ensures
        action == if status == 200 || status == 400 || status == 403 {
            AggregateAction::Read
        } else if status == 401 {
            AggregateAction::Reject
        } else {
            AggregateAction::Ignore
        },
{
    if status == 200 || status == 400 || status == 403 {
        AggregateAction::Read
    } else if status == 401 {
        AggregateAction::Reject
    } else {
        AggregateAction::Ignore
    }
}

/// What to do after one page of a listing.
#[derive(Clone, Copy, Debug, PartialEq, Eq, Structural)]
pub enum PageAction {
    Next,
    Stop,
    Reject,
}

/// Says what to do after one page of a listing: go on for as long as pages hold something.
pub fn page_action(status: u16, count: usize) -> (action: PageAction)
    ensures
        action == if status == 200 {
            if count == 0 {
                PageAction::Stop
            } else {
                PageAction::Next
            }
        } else if status == 401 {
            PageAction::Reject
        } else {
            PageAction::Stop
        },
{
    if status == 200 {
        if count == 0 {
            PageAction::Stop
        } else {
            PageAction::Next
        }
    } else if status == 401 {
        PageAction::Reject
    } else {
        PageAction::Stop
    }
}

/// The value that the parts of a path, from the `i`-th on, lead to.
pub open spec fn at_path(value: Json, parts: Seq<Seq<char>>, i: int) -> Option<Json>
    decreases parts.len() - i,
{
    if i < 0 || i >= parts.len() {
        Some(value)
    } else {
        match field(value, parts[i]) {
            Some(inner) => at_path(inner, parts, i + 1),
            None => None,
        }
    }
}

pub fn value_at_path<'a>(value: &'a Json, path: &str) -> (found: Option<&'a Json>)
    ensures
        held(found) == at_path(*value, pieces(path@, '.'), 0),
{
    let parts = split(path, '.');
    let mut current: &'a Json = value;
    let mut i: usize = 0;
    while i < parts.len()
        invariant
            i <= parts@.len(),
            texts(parts@) == pieces(path@, '.'),
            at_path(*value, texts(parts@), 0) == at_path(*current, texts(parts@), i as int),
        decreases parts@.len() - i,
    {
        assert(texts(parts@)[i as int] == parts@[i as int]@);
        match current.get(parts[i].as_str()) {
            Some(inner) => {
                current = inner;
            },
            None => {
                return None;
            },
        }
        i = i + 1;
    }
    Some(current)
}

/// The text that the paths, from the `i`-th on, lead to first.
pub open spec fn text_at_paths(value: Json, paths: Seq<Seq<char>>, i: int) -> Option<Seq<char>>
    decreases paths.len() - i,
{
    if i < 0 || i >= paths.len() {
        None
    } else {
        match text_of(at_path(value, pieces(paths[i], '.'), 0)) {
            Some(text) => if text.len() > 0 {
                Some(text)
            } else {
                text_at_paths(value, paths, i + 1)
            },
            None => text_at_paths(value, paths, i + 1),
        }
    }
}

/// The text that the paths lead to first in an optional value.
pub open spec fn first_string(value: Option<Json>, paths: Seq<Seq<char>>) -> Option<Seq<char>> {
    match value {
        Some(found) => text_at_paths(found, paths, 0),
        None => None,
    }
}

pub fn extract_first_string(value: &Option<Json>, paths: &[&str]) -> (text: Option<String>)
    ensures
        opt_text(text) == first_string(*value, slices(paths@)),
{
    match value {
        None => None,
        Some(found) => {
            let mut i: usize = 0;
            while i < paths.len()
                invariant
                    i <= paths@.len(),
                    text_at_paths(*found, slices(paths@), 0) == text_at_paths(
                        *found,
                        slices(paths@),
                        i as int,
                    ),
                    *value == Some(*found),
                decreases paths@.len() - i,
            {
                assert(slices(paths@)[i as int] == paths@[i as int]@);
                match value_at_path(found, paths[i]) {
                    Some(Json::Text(text)) => {
                        if !text.as_str().is_empty() {
                            return Some(text.clone());
                        }
                    },
                    _ => {},
                }
                i = i + 1;
            }
            None
        },
    }
}

/// Those of the first `n` texts that are not empty.
pub open spec fn nonempty_upto(list: Seq<Seq<char>>, n: int) -> Seq<Seq<char>>
    decreases n,
{
    if n <= 0 {
        Seq::empty()
    } else if list[n - 1].len() > 0 {
        nonempty_upto(list, n - 1).push(list[n - 1])
    } else {
        nonempty_upto(list, n - 1)
    }
}

/// The texts of an array that are not empty, in order.
pub open spec fn scopes_in(list: Seq<Json>) -> Seq<Seq<char>> {
    in_order(nonempty_upto(texts_among(list), texts_among(list).len() as int))
}

fn read_scopes(list: &Vec<Json>) -> (scopes: Vec<String>)
    ensures
        texts(scopes@) == scopes_in(list@),
{
    let all = collect_texts(list);
    let mut kept = no_texts();
    let mut i: usize = 0;
    while i < all.len()
        invariant
            i <= all@.len(),
            texts(kept@) == nonempty_upto(texts(all@), i as int),
        decreases all@.len() - i,
    {
        assert(texts(all@)[i as int] == all@[i as int]@);
        if !all[i].as_str().is_empty() {
            push_text(&mut kept, all[i].clone());
        }
        i = i + 1;
    }
    sort_dedup(kept)
}

/// The texts that the paths, from the `i`-th on, lead to first.
pub open spec fn texts_at_paths(value: Json, paths: Seq<Seq<char>>, i: int) -> Seq<Seq<char>>
    decreases paths.len() - i,
{
    if i < 0 || i >= paths.len() {
        Seq::empty()
    } else {
        match at_path(value, pieces(paths[i], '.'), 0) {
            Some(Json::Array(list)) => if scopes_in(list@).len() > 0 {
                scopes_in(list@)
            } else {
                texts_at_paths(value, paths, i + 1)
            },
            _ => texts_at_paths(value, paths, i + 1),
        }
    }
}

/// The texts that the paths lead to first in an optional value.
pub open spec fn first_strings(value: Option<Json>, paths: Seq<Seq<char>>) -> Seq<Seq<char>> {
    match value {
        Some(found) => texts_at_paths(found, paths, 0),
        None => Seq::empty(),
    }
}

pub fn extract_first_string_vec(value: &Option<Json>, paths: &[&str]) -> (list: Vec<String>)
    ensures
        texts(list@) == first_strings(*value, slices(paths@)),
{
    match value {
        None => no_texts(),
        Some(found) => {
            let mut i: usize = 0;
            while i < paths.len()
                invariant
                    i <= paths@.len(),
                    texts_at_paths(*found, slices(paths@), 0) == texts_at_paths(
                        *found,
                        slices(paths@),
                        i as int,
                    ),
                    *value == Some(*found),
                decreases paths@.len() - i,
            {
                assert(slices(paths@)[i as int] == paths@[i as int]@);
                match value_at_path(found, paths[i]) {
                    Some(Json::Array(list)) => {
                        let scopes = read_scopes(list);
                        if scopes.len() > 0 {
                            return scopes;
                        }
                    },
                    _ => {},
                }
                i = i + 1;
            }
            no_texts()
        },
    }
}

/// A text or nothing, as a record may hold it: `None` where the value is neither.
pub open spec fn text_or_null(value: Option<Json>) -> Option<Option<Seq<char>>> {
    match value {
        None => Some(None),
        Some(Json::Null) => Some(None),
        Some(Json::Text(text)) => Some(Some(text@)),
        _ => None,
    }
}

/// The value at a place of a record: by its key in an object, by its position in an array.
pub open spec fn record_value(value: Json, keys: Seq<Seq<char>>, k: int) -> Option<Json> {
    match value {
        Json::Array(list) => if k < list@.len() {
            Some(list@[k])
        } else {
            None
        },
        _ => field(value, keys[k]),
    }
}

/// Whether a value is a record with texts under its keys: an object, or an array that is not longer
/// than the keys.
pub open spec fn is_record(value: Json, keys: Seq<Seq<char>>) -> bool {
    &&& match value {
        Json::Object(_) => true,
        Json::Array(list) => list@.len() <= keys.len(),
        _ => false,
    }
    &&& forall|k: int|
        0 <= k < keys.len() ==> text_or_null(#[trigger] record_value(value, keys, k)) is Some
}

/// The texts of a record.
pub open spec fn record_texts(value: Json, keys: Seq<Seq<char>>) -> Seq<Option<Seq<char>>> {
    Seq::new(
        keys.len(),
        |k: int|
            match text_or_null(record_value(value, keys, k)) {
                Some(text) => text,
                None => None,
            },
    )
}

/// Optional texts, as views.
pub open spec fn opt_texts(list: Seq<Option<String>>) -> Seq<Option<Seq<char>>> {
    list.map_values(|value: Option<String>| opt_text(value))
}

fn read_text_or_null(value: Option<&Json>) -> (text: Option<Option<String>>)
    ensures
        match text {
            Some(found) => text_or_null(held(value)) == Some(opt_text(found)),
            None => text_or_null(held(value)) is None,
        },
{
    match value {
        None => Some(None),
        Some(Json::Null) => Some(None),
        Some(Json::Text(text)) => Some(Some(text.clone())),
        _ => None,
    }
}

fn read_record(value: &Json, keys: &[&str]) -> (record: Option<Vec<Option<String>>>)
    ensures
        match record {
            Some(list) => is_record(*value, slices(keys@)) && opt_texts(list@) == record_texts(
                *value,
                slices(keys@),
            ),
            None => !is_record(*value, slices(keys@)),
        },
{
    match value {
        Json::Object(_) => {},
        Json::Array(list) => if list.len() > keys.len() {
            return None;
        },
        _ => {
            return None;
        },
    }
    let mut record: Vec<Option<String>> = Vec::new();
    let mut k: usize = 0;
    while k < keys.len()
        invariant
            k <= keys@.len(),
            record@.len() == k,
            forall|j: int|
                0 <= j < k ==> text_or_null(#[trigger] record_value(*value, slices(keys@), j))
                    is Some && opt_text(record@[j]) == record_texts(*value, slices(keys@))[j],
        decreases keys@.len() - k,
    {
        assert(slices(keys@)[k as int] == keys@[k as int]@);
        let found: Option<&Json> = match value {
            Json::Array(list) => if k < list.len() {
                Some(&list[k])
            } else {
                None
            },
            _ => value.get(keys[k]),
        };
        assert(held(found) == record_value(*value, slices(keys@), k as int));
        match read_text_or_null(found) {
            Some(text) => record.push(text),
            None => {
                return None;
            },
        }
        k = k + 1;
    }
    assert(opt_texts(record@) =~= record_texts(*value, slices(keys@)));
    Some(record)
}

/// Whether a value is an array of records.
pub open spec fn is_table(value: Option<Json>, keys: Seq<Seq<char>>) -> bool {
    match value {
        Some(Json::Array(list)) => are_records(list@, keys),
        _ => false,
    }
}

/// Whether all values of a list are records.
pub open spec fn are_records(list: Seq<Json>, keys: Seq<Seq<char>>) -> bool {
    forall|k: int| 0 <= k < list.len() ==> is_record(#[trigger] list[k], keys)
}

/// The records of an array.
pub open spec fn table_rows(value: Option<Json>, keys: Seq<Seq<char>>) -> Seq<Seq<Option<Seq<char>>>> {
    match value {
        Some(Json::Array(list)) => list@.map_values(|item: Json| record_texts(item, keys)),
        _ => Seq::empty(),
    }
}

/// Rows of optional texts, as views.
pub open spec fn row_views(rows: Seq<Vec<Option<String>>>) -> Seq<Seq<Option<Seq<char>>>> {
    rows.map_values(|row: Vec<Option<String>>| opt_texts(row@))
}

fn read_table(value: Option<&Json>, keys: &[&str]) -> (table: Option<Vec<Vec<Option<String>>>>)
    ensures
        match table {
            Some(rows) => is_table(held(value), slices(keys@)) && row_views(rows@) == table_rows(
                held(value),
                slices(keys@),
            ),
            None => !is_table(held(value), slices(keys@)),
        },
{
    match value {
        Some(Json::Array(list)) => {
            let mut rows: Vec<Vec<Option<String>>> = Vec::new();
            let mut i: usize = 0;
            while i < list.len()
                invariant
                    i <= list@.len(),
                    rows@.len() == i,
                    forall|k: int|
                        0 <= k < i ==> is_record(#[trigger] list@[k], slices(keys@)) && opt_texts(
                            rows@[k]@,
                        ) == record_texts(list@[k], slices(keys@)),
                    held(value) == Some(Json::Array(*list)),
                decreases list@.len() - i,
            {
                match read_record(&list[i], keys) {
                    Some(row) => rows.push(row),
                    None => {
                        assert(!is_record(list@[i as int], slices(keys@)));
                        return None;
                    },
                }
                i = i + 1;
            }
            assert(row_views(rows@) =~= table_rows(held(value), slices(keys@)));
            Some(rows)
        },
        _ => None,
    }
}

/// An inner field of an optional value.
pub open spec fn inner(value: Option<Json>, key: Seq<char>) -> Option<Json> {
    match value {
        Some(found) => field(found, key),
        None => None,
    }
}

/// The records that an answer holds: the answer itself, or else what stands in one of the places
/// where the service puts lists.
pub open spec fn collection_rows(value: Json, keys: Seq<Seq<char>>) -> Seq<Seq<Option<Seq<char>>>> {
    let data = field(value, "data"@);
    if is_table(Some(value), keys) {
        table_rows(Some(value), keys)
    } else if is_table(data, keys) {
        table_rows(data, keys)
    } else if is_table(inner(data, "content"@), keys) {
        table_rows(inner(data, "content"@), keys)
    } else if is_table(inner(data, "items"@), keys) {
        table_rows(inner(data, "items"@), keys)
    } else if is_table(field(value, "content"@), keys) {
        table_rows(field(value, "content"@), keys)
    } else {
        Seq::empty()
    }
}

fn get_inner<'a>(value: Option<&'a Json>, key: &str) -> (found: Option<&'a Json>)
    ensures
        held(found) == inner(held(value), key@),
{
    match value {
        Some(outer) => outer.get(key),
        None => None,
    }
}

/// Finds the records that an answer holds.
pub fn parse_collection(value: &Json, keys: &[&str]) -> (rows: Vec<Vec<Option<String>>>)
    ensures
        row_views(rows@) == collection_rows(*value, slices(keys@)),
{
    match read_table(Some(value), keys) {
        Some(rows) => {
            return rows;
        },
        None => {},
    }
    let data = value.get("data");
    match read_table(data, keys) {
        Some(rows) => {
            return rows;
        },
        None => {},
    }
    match read_table(get_inner(data, "content"), keys) {
        Some(rows) => {
            return rows;
        },
        None => {},
    }
    match read_table(get_inner(data, "items"), keys) {
        Some(rows) => {
            return rows;
        },
        None => {},
    }
    match read_table(value.get("content"), keys) {
        Some(rows) => rows,
        None => {
            let none: Vec<Vec<Option<String>>> = Vec::new();
            assert(row_views(none@) =~= Seq::<Seq<Option<Seq<char>>>>::empty());
            none
        },
    }
}

/// Whether a scope administers something.
pub open spec fn scope_class(scope: Seq<char>) -> PermissionClass {
    let name = ascii_lower(scope);
    if holds(name, "admin"@) || holds(name, "manage"@) || holds(name, "owner"@) {
        PermissionClass::Admin
    } else if holds(name, "write"@) || holds(name, "create"@) || holds(name, "update"@) || holds(
        name,
        "delete"@,
    ) || holds(name, "execute"@) {
        PermissionClass::Risky
    } else {
        PermissionClass::ReadOnly
    }
}

/// The summary with one more scope.
pub open spec fn with_scope(summary: PermissionSummaryView, scope: Seq<char>) -> PermissionSummaryView {
    filed(summary, scope_class(scope), scope)
}

fn file_scope(summary: &mut PermissionSummary, scope: &str)
    ensures
        final(summary)@ == with_scope(old(summary)@, scope@),
{
    let name = to_ascii_lowercase(scope);
    let name = name.as_str();
    let class = if contains(name, "admin") || contains(name, "manage") || contains(name, "owner") {
        PermissionClass::Admin
    } else if contains(name, "write") || contains(name, "create") || contains(name, "update")
        || contains(name, "delete") || contains(name, "execute") {
        PermissionClass::Risky
    } else {
        PermissionClass::ReadOnly
    };
    file_permission(summary, class, scope.to_owned());
}

/// The summary with the first `n` scopes.
pub open spec fn with_scopes(summary: PermissionSummaryView, list: Seq<Seq<char>>, n: int) -> PermissionSummaryView
    decreases n,
{
    if n <= 0 {
        summary
    } else {
        with_scope(with_scopes(summary, list, n - 1), list[n - 1])
    }
}

fn file_scopes(summary: &mut PermissionSummary, list: &Vec<String>)
    ensures
        final(summary)@ == with_scopes(old(summary)@, texts(list@), list@.len() as int),
{
    let ghost start = summary@;
    let mut i: usize = 0;
    while i < list.len()
        invariant
            i <= list@.len(),
            summary@ == with_scopes(start, texts(list@), i as int),
        decreases list@.len() - i,
    {
        assert(texts(list@)[i as int] == list@[i as int]@);
        file_scope(summary, list[i].as_str());
        i = i + 1;
    }
}

/// The role that a scope stands for.
pub open spec fn scope_binding(scope: Seq<char>) -> RoleBindingView {
    binding("scope:"@ + scope, "harness"@, seq![scope])
}

fn bind_scope(scope: &str) -> (role: RoleBinding)
    ensures
        role@ == scope_binding(scope@),
{
    RoleBinding::new(cat2("scope:", scope).as_str(), "harness", one_text(scope))
}

/// The roles that stand for the first `n` scopes.
pub open spec fn scope_roles_upto(list: Seq<Seq<char>>, n: int) -> Seq<RoleBindingView>
    decreases n,
{
    if n <= 0 {
        Seq::empty()
    } else {
        scope_roles_upto(list, n - 1).push(scope_binding(list[n - 1]))
    }
}

fn add_scope_roles(roles: &mut Vec<RoleBinding>, list: &Vec<String>)
    ensures
        views(final(roles)@) == views(old(roles)@) + scope_roles_upto(
            texts(list@),
            list@.len() as int,
        ),
{
    let ghost before = views(roles@);
    let mut i: usize = 0;
    assert(before =~= before + scope_roles_upto(texts(list@), 0));
    while i < list.len()
        invariant
            i <= list@.len(),
            views(roles@) == before + scope_roles_upto(texts(list@), i as int),
        decreases list@.len() - i,
    {
        assert(texts(list@)[i as int] == list@[i as int]@);
        push_view(roles, bind_scope(list[i].as_str()));
        i = i + 1;
        assert(views(roles@) =~= before + scope_roles_upto(texts(list@), i as int));
    }
}

/// How an organization is called.
pub open spec fn org_label(org: HarnessOrg) -> Seq<char> {
    text_else(either(opt_text(org.identifier), opt_text(org.name)), "unknown_org"@)
}

/// Says how an organization is called.
pub fn org_name(org: &HarnessOrg) -> (name: String)
    ensures
        name@ == org_label(*org),
{
    first_text(&org.identifier, &org.name, "unknown_org")
}

/// The resource that stands for a project.
pub open spec fn project_exposure(project: HarnessProject, org: Seq<char>) -> ResourceExposureView {
    exposure(
        "project"@,
        org + "/"@ + text_else(
            either(opt_text(project.identifier), opt_text(project.name)),
            "unknown_project"@,
        ),
        seq!["project:read"@],
        Severity::Medium,
        "Project visible to this API key"@,
    )
}

fn expose_project(project: &HarnessProject, org: &str) -> (resource: ResourceExposure)
    ensures
        resource@ == project_exposure(*project, org@),
{
    let name = first_text(&project.identifier, &project.name, "unknown_project");
    ResourceExposure::new(
        "project",
        cat3(org, "/", name.as_str()).as_str(),
        one_text("project:read"),
        Severity::Medium,
        "Project visible to this API key",
    )
}

/// The resources that stand for the first `n` projects of an organization.
pub open spec fn projects_upto(list: Seq<HarnessProject>, n: int, org: Seq<char>) -> Seq<ResourceExposureView>
    decreases n,
{
    if n <= 0 {
        Seq::empty()
    } else {
        projects_upto(list, n - 1, org).push(project_exposure(list[n - 1], org))
    }
}

fn add_projects(resources: &mut Vec<ResourceExposure>, list: &Vec<HarnessProject>, org: &str)
    ensures
        views(final(resources)@) == views(old(resources)@) + projects_upto(
            list@,
            list@.len() as int,
            org@,
        ),
{
    let ghost before = views(resources@);
    let mut i: usize = 0;
    assert(before =~= before + projects_upto(list@, 0, org@));
    while i < list.len()
        invariant
            i <= list@.len(),
            views(resources@) == before + projects_upto(list@, i as int, org@),
        decreases list@.len() - i,
    {
        push_view(resources, expose_project(&list[i], org));
        i = i + 1;
        assert(views(resources@) =~= before + projects_upto(list@, i as int, org@));
    }
}

/// The resources of one organization: itself and its projects.
pub open spec fn org_resources(listing: HarnessOrgListing) -> Seq<ResourceExposureView> {
    seq![
        exposure(
            "organization"@,
            org_label(listing.org),
            seq!["organization:read"@],
            Severity::Low,
            "Organization visible to this API key"@,
        ),
    ] + (match listing.projects {
        Ok(list) => projects_upto(list@, list@.len() as int, org_label(listing.org)),
        Err(_) => Seq::empty(),
    })
}

/// The resources of the first `n` organizations.
pub open spec fn orgs_upto(list: Seq<HarnessOrgListing>, n: int) -> Seq<ResourceExposureView>
    decreases n,
{
    if n <= 0 {
        Seq::empty()
    } else {
        orgs_upto(list, n - 1) + org_resources(list[n - 1])
    }
}

/// The notes with those on the projects of the first `n` organizations.
pub open spec fn org_notes(notes: Seq<Seq<char>>, list: Seq<HarnessOrgListing>, n: int) -> Seq<Seq<char>>
    decreases n,
{
    if n <= 0 {
        notes
    } else {
        match list[n - 1].projects {
            Ok(_) => org_notes(notes, list, n - 1),
            Err(error) => org_notes(notes, list, n - 1).push(
                "Project enumeration for org "@ + org_label(list[n - 1].org) + " failed: "@
                    + error@,
            ),
        }
    }
}

/// Whether an organization shows projects.
pub open spec fn shows_projects(listing: HarnessOrgListing) -> bool {
    match listing.projects {
        Ok(list) => list@.len() > 0,
        Err(_) => false,
    }
}

fn has_projects(listing: &HarnessOrgListing) -> (yes: bool)
    ensures
        yes == shows_projects(*listing),
{
    match &listing.projects {
        Ok(list) => list.len() > 0,
        Err(_) => false,
    }
}

/// Whether one of the organizations shows projects.
pub open spec fn some_projects(list: Seq<HarnessOrgListing>) -> bool {
    exists|k: int| 0 <= k < list.len() && shows_projects(#[trigger] list[k])
}

fn any_projects(list: &Vec<HarnessOrgListing>) -> (yes: bool)
    ensures
        yes == some_projects(list@),
{
    let mut i: usize = 0;
    while i < list.len()
        invariant
            i <= list@.len(),
            forall|k: int| 0 <= k < i ==> !shows_projects(#[trigger] list@[k]),
        decreases list@.len() - i,
    {
        if has_projects(&list[i]) {
            assert(shows_projects(list@[i as int]));
            return true;
        }
        i = i + 1;
    }
    false
}

fn add_orgs(
    resources: &mut Vec<ResourceExposure>,
    risk_notes: &mut Vec<String>,
    list: &Vec<HarnessOrgListing>,
)
    ensures
        views(final(resources)@) == views(old(resources)@) + orgs_upto(list@, list@.len() as int),
        texts(final(risk_notes)@) == org_notes(
            texts(old(risk_notes)@),
            list@,
            list@.len() as int,
        ),
{
    let ghost before = views(resources@);
    let ghost notes = texts(risk_notes@);
    let mut i: usize = 0;
    assert(before =~= before + orgs_upto(list@, 0));
    while i < list.len()
        invariant
            i <= list@.len(),
            views(resources@) == before + orgs_upto(list@, i as int),
            texts(risk_notes@) == org_notes(notes, list@, i as int),
        decreases list@.len() - i,
    {
        let name = org_name(&list[i].org);
        push_view(
            resources,
            ResourceExposure::new(
                "organization",
                name.as_str(),
                one_text("organization:read"),
                Severity::Low,
                "Organization visible to this API key",
            ),
        );
        match &list[i].projects {
            Ok(projects) => add_projects(resources, projects, name.as_str()),
            Err(error) => push_text(
                risk_notes,
                cat4(
                    "Project enumeration for org ",
                    name.as_str(),
                    " failed: ",
                    error.as_str(),
                ),
            ),
        }
        i = i + 1;
        assert(views(resources@) =~= before + orgs_upto(list@, i as int));
    }
}

/// How grave it is what a key may do.
pub open spec fn harness_severity(permissions: PermissionSummaryView, projects: bool) -> Severity {
    if permissions.admin.len() > 0 {
        Severity::High
    } else if permissions.risky.len() > 0 || projects {
        Severity::Medium
    } else {
        Severity::Low
    }
}

pub fn derive_severity(permissions: &PermissionSummary, has_projects: bool) -> (severity: Severity)
    ensures
        severity == harness_severity(permissions@, has_projects),
{
    if permissions.admin.len() > 0 {
        Severity::High
    } else if permissions.risky.len() > 0 || has_projects {
        Severity::Medium
    } else {
        Severity::Low
    }
}

/// The account that the organizations, from the `i`-th on, name first.
pub open spec fn account_from(list: Seq<HarnessOrgListing>, i: int) -> Option<Seq<char>>
    decreases list.len() - i,
{
    if i < 0 || i >= list.len() {
        None
    } else {
        match list[i].org.account_identifier {
            Some(account) => Some(account@),
            None => account_from(list, i + 1),
        }
    }
}

fn find_account(list: &Vec<HarnessOrgListing>) -> (account: Option<String>)
    ensures
        opt_text(account) == account_from(list@, 0),
{
    let mut i: usize = 0;
    while i < list.len()
        invariant
            i <= list@.len(),
            account_from(list@, 0) == account_from(list@, i as int),
        decreases list@.len() - i,
    {
        match &list[i].org.account_identifier {
            Some(account) => {
                return Some(account.clone());
            },
            None => {},
        }
        i = i + 1;
    }
    None
}

/// The organizations that were listed.
pub open spec fn listed_orgs(orgs: Result<Vec<HarnessOrgListing>, String>) -> Seq<HarnessOrgListing> {
    match orgs {
        Ok(list) => list@,
        Err(_) => Seq::empty(),
    }
}

/// The account that the answer about a key names.
pub open spec fn key_account(aggregate: Option<Json>) -> Option<Seq<char>> {
    first_string(
        aggregate,
        seq!["data.accountIdentifier"@, "accountIdentifier"@, "data.accountId"@, "accountId"@],
    )
}

/// The scopes that the answer about a key names.
pub open spec fn key_scopes(aggregate: Option<Json>) -> Seq<Seq<char>> {
    first_strings(
        aggregate,
        seq!["data.scopes"@, "scopes"@, "data.permissions"@, "permissions"@],
    )
}

/// The resources that a key shows, or its account where it shows none.
pub open spec fn harness_resources(aggregate: Option<Json>, list: Seq<HarnessOrgListing>) -> Seq<
    ResourceExposureView,
> {
    let found = orgs_upto(list, list.len() as int);
    if found.len() == 0 {
        seq![
            exposure(
                "account"@,
                text_else(key_account(aggregate), "harness_account"@),
                Seq::empty(),
                Severity::Low,
                "Harness account associated with this API key"@,
            ),
        ]
    } else {
        found
    }
}

/// The notes on a key.
pub open spec fn harness_notes(orgs: Result<Vec<HarnessOrgListing>, String>) -> Seq<Seq<char>> {
    let first = match orgs {
        Ok(_) => Seq::empty(),
        Err(error) => seq!["Organization enumeration failed: "@ + error@],
    };
    let list = listed_orgs(orgs);
    let second = org_notes(first, list, list.len() as int);
    if orgs_upto(list, list.len() as int).len() == 0 {
        second.push(
            "No organizations/projects were enumerable with this key (scope-limited or API access restricted)"@,
        )
    } else {
        second
    }
}

/// What a Harness key gives access to.
pub open spec fn harness_result(
    aggregate: Option<Json>,
    orgs: Result<Vec<HarnessOrgListing>, String>,
) -> AccessMapResultView {
    let list = listed_orgs(orgs);
    let scopes = key_scopes(aggregate);
    let permissions = sorted_summary(
        with_scopes(empty_permission_summary(), scopes, scopes.len() as int),
    );
    plain_result(
        "harness"@,
        AccessSummaryView {
            id: text_else(
                first_string(
                    aggregate,
                    seq!["data.name"@, "name"@, "data.identifier"@, "identifier"@],
                ),
                "harness_api_key"@,
            ),
            access_type: "token"@,
            project: None,
            tenant: None,
            account_id: either(key_account(aggregate), account_from(list, 0)),
        },
        scope_roles_upto(scopes, scopes.len() as int),
        permissions,
        harness_resources(aggregate, list),
        harness_severity(permissions, some_projects(list)),
        harness_notes(orgs),
        Some(
            AccessTokenDetailsView {
                account_type: Some("api_key"@),
                url: Some("https://app.harness.io/"@),
                token_type: Some("pat"@),
                user_id: first_string(
                    aggregate,
                    seq!["data.id"@, "id"@, "data.uuid"@, "uuid"@],
                ),
                scopes,
                ..empty_access_token_details()
            },
        ),
    )
}

/// Maps a Harness key from what Harness answered to it: what the key is and, for each organization
/// that it sees, the projects.
pub fn map_access_from_token(
    aggregate: &Option<Json>,
    orgs: Result<Vec<HarnessOrgListing>, String>,
) -> (result: AccessMapResult)
    ensures
        result@ == harness_result(*aggregate, orgs),
{
    let ghost given = orgs;
    let scope_paths: [&str; 4] = ["data.scopes", "scopes", "data.permissions", "permissions"];
    assert(slices(scope_paths@) =~= seq![
        "data.scopes"@,
        "scopes"@,
        "data.permissions"@,
        "permissions"@,
    ]);
    let name_paths: [&str; 4] = ["data.name", "name", "data.identifier", "identifier"];
    assert(slices(name_paths@) =~= seq![
        "data.name"@,
        "name"@,
        "data.identifier"@,
        "identifier"@,
    ]);
    let id_paths: [&str; 4] = ["data.id", "id", "data.uuid", "uuid"];
    assert(slices(id_paths@) =~= seq!["data.id"@, "id"@, "data.uuid"@, "uuid"@]);
    let account_paths: [&str; 4] = [
        "data.accountIdentifier",
        "accountIdentifier",
        "data.accountId",
        "accountId",
    ];
    assert(slices(account_paths@) =~= seq![
        "data.accountIdentifier"@,
        "accountIdentifier"@,
        "data.accountId"@,
        "accountId"@,
    ]);
    let scopes = extract_first_string_vec(aggregate, &scope_paths);
    let token_name = extract_first_string(aggregate, &name_paths);
    let token_id = extract_first_string(aggregate, &id_paths);
    let account_id = extract_first_string(aggregate, &account_paths);
    let mut risk_notes = no_texts();
    let list: Vec<HarnessOrgListing> = match orgs {
        Ok(list) => list,
        Err(error) => {
            push_text(&mut risk_notes, cat2("Organization enumeration failed: ", error.as_str()));
            Vec::new()
        },
    };
    assert(list@ =~= listed_orgs(given));
    assert(texts(risk_notes@) =~= match given {
        Ok(_) => Seq::empty(),
        Err(error) => seq!["Organization enumeration failed: "@ + error@],
    });
    let mut roles: Vec<RoleBinding> = no_views();
    add_scope_roles(&mut roles, &scopes);
    let mut permissions = PermissionSummary::default();
    file_scopes(&mut permissions, &scopes);
    sort_permission_summary(&mut permissions);
    let mut resources: Vec<ResourceExposure> = no_views();
    add_orgs(&mut resources, &mut risk_notes, &list);
    assert(views(resources@) =~= orgs_upto(list@, list@.len() as int));
    if resources.len() == 0 {
        push_view(
            &mut resources,
            ResourceExposure::new(
                "account",
                unwrap_text(&account_id, "harness_account").as_str(),
                no_texts(),
                Severity::Low,
                "Harness account associated with this API key",
            ),
        );
        push_text(
            &mut risk_notes,
            "No organizations/projects were enumerable with this key (scope-limited or API access restricted)".to_owned(),
        );
    }
    assert(views(resources@) =~= harness_resources(*aggregate, list@));
    let severity = derive_severity(&permissions, any_projects(&list));
    let identity = AccessSummary {
        id: unwrap_text(&token_name, "harness_api_key"),
        access_type: "token".to_owned(),
        project: None,
        tenant: None,
        account_id: or_text(&account_id, &find_account(&list)),
    };
    let mut details = AccessTokenDetails::default();
    details.account_type = Some("api_key".to_owned());
    details.url = Some("https://app.harness.io/".to_owned());
    details.token_type = Some("pat".to_owned());
    details.user_id = token_id;
    details.scopes = scopes;
    assert(views(roles@) =~= scope_roles_upto(key_scopes(*aggregate), key_scopes(*aggregate).len() as int));
    build_result(
        "harness",
        identity,
        roles,
        permissions,
        resources,
        severity,
        risk_notes,
        Some(details),
    )
}

proof fn lemma_scopes_are_filed(summary: PermissionSummaryView, scopes: Seq<Seq<char>>, n: int, k: int)
    requires
        0 <= k < n <= scopes.len(),
    ensures
        class_list(with_scopes(summary, scopes, n), scope_class(scopes[k])).contains(scopes[k]),
    decreases n,
{
    let before = with_scopes(summary, scopes, n - 1);
    lemma_filed(before, scope_class(scopes[n - 1]), scopes[n - 1]);
    if k < n - 1 {
        lemma_scopes_are_filed(summary, scopes, n - 1, k);
    }
}

/// No scope of a key is left out: each stands in the class that it belongs to.
pub proof fn lemma_every_scope_is_reported(aggregate: Option<Json>, orgs: Result<Vec<HarnessOrgListing>, String>, k: int)
    requires
        0 <= k < key_scopes(aggregate).len(),
    ensures
        class_list(harness_result(aggregate, orgs).permissions, scope_class(key_scopes(aggregate)[k])).contains(key_scopes(aggregate)[k]),
{
    let scopes = key_scopes(aggregate);
    lemma_scopes_are_filed(empty_permission_summary(), scopes, scopes.len() as int, k);
    lemma_sorted_summary(
        with_scopes(empty_permission_summary(), scopes, scopes.len() as int),
        scope_class(scopes[k]),
    );
}

/// The result of a key always names a resource, if only its account.
pub proof fn lemma_some_resource_is_named(aggregate: Option<Json>, orgs: Result<Vec<HarnessOrgListing>, String>)
    ensures
        harness_result(aggregate, orgs).resources.len() > 0,
{
}

proof fn lemma_scopes_come_from(list: Seq<Seq<char>>, n: int, class: PermissionClass)
    requires
        0 <= n <= list.len(),
        class_list(with_scopes(empty_permission_summary(), list, n), class).len() > 0,
    ensures
        exists|k: int| 0 <= k < n && scope_class(#[trigger] list[k]) == class,
    decreases n,
{
    if n > 0 {
        let before = with_scopes(empty_permission_summary(), list, n - 1);
        lemma_filed(before, scope_class(list[n - 1]), list[n - 1]);
        if scope_class(list[n - 1]) != class {
            assert(class_list(before, class) == class_list(
                with_scopes(empty_permission_summary(), list, n),
                class,
            ));
            lemma_scopes_come_from(list, n - 1, class);
        }
    }
}

proof fn lemma_projects_listed(list: Seq<HarnessProject>, n: int, org: Seq<char>)
    requires
        0 <= n <= list.len(),
    ensures
        projects_upto(list, n, org).len() == n,
        forall|k: int| 0 <= k < n ==> #[trigger] projects_upto(list, n, org)[k] == project_exposure(list[k], org),
    decreases n,
{
    if n > 0 {
        lemma_projects_listed(list, n - 1, org);
    }
}

proof fn lemma_orgs_listed(list: Seq<HarnessOrgListing>, n: int, k: int, found: ResourceExposureView)
    requires
        0 <= k < n <= list.len(),
        org_resources(list[k]).contains(found),
    ensures
        orgs_upto(list, n).contains(found),
    decreases n,
{
    let before = orgs_upto(list, n - 1);
    let now = orgs_upto(list, n);
    if k < n - 1 {
        lemma_orgs_listed(list, n - 1, k, found);
        let i = choose|i: int| 0 <= i < before.len() && before[i] == found;
        assert(now[i] == found);
    } else {
        let own = org_resources(list[k]);
        let i = choose|i: int| 0 <= i < own.len() && own[i] == found;
        assert(now[before.len() + i] == found);
    }
}

/// The strongest scope decides: one that administers, manages or owns makes a key high, one that writes,
/// creates, updates, deletes or executes medium at least, and so does any project in sight; a key with
/// neither is low.
pub proof fn lemma_strongest_scope_decides(
    aggregate: Option<Json>,
    orgs: Result<Vec<HarnessOrgListing>, String>,
    k: int,
)
    ensures
        ({
            let result = harness_result(aggregate, orgs);
            let scopes = key_scopes(aggregate);
            &&& 0 <= k < scopes.len() ==> {
                let name = ascii_lower(scopes[k]);
                &&& holds(name, "admin"@) || holds(name, "manage"@) || holds(name, "owner"@)
                    ==> result.severity == Severity::High && result.permissions.admin.contains(scopes[k])
                &&& holds(name, "write"@) || holds(name, "create"@) || holds(name, "update"@) || holds(
                    name,
                    "delete"@,
                ) || holds(name, "execute"@) ==> result.severity != Severity::Low
            }
            &&& match orgs {
                Ok(list) => 0 <= k < list@.len() && list@[k].projects is Ok
                    && list@[k].projects->Ok_0@.len() > 0 ==> result.severity != Severity::Low,
                Err(_) => true,
            }
            &&& result.severity == Severity::High ==> exists|j: int|
                0 <= j < scopes.len() && {
                    let name = ascii_lower(#[trigger] scopes[j]);
                    holds(name, "admin"@) || holds(name, "manage"@) || holds(name, "owner"@)
                }
            &&& result.severity != Severity::Critical
        }),
{
    let result = harness_result(aggregate, orgs);
    let scopes = key_scopes(aggregate);
    let n = scopes.len() as int;
    let raw = with_scopes(empty_permission_summary(), scopes, n);
    lemma_sorted_classes_stay_filled(raw, PermissionClass::Admin);
    lemma_sorted_classes_stay_filled(raw, PermissionClass::Risky);
    assert(class_list(raw, PermissionClass::Admin) == raw.admin);
    assert(class_list(result.permissions, PermissionClass::Admin) == result.permissions.admin);
    assert(class_list(result.permissions, PermissionClass::Risky) == result.permissions.risky);
    if 0 <= k < n {
        lemma_every_scope_is_reported(aggregate, orgs, k);
    }
    if result.severity == Severity::High {
        lemma_scopes_come_from(scopes, n, PermissionClass::Admin);
        let j = choose|j: int|
            0 <= j < scopes.len() && scope_class(#[trigger] scopes[j]) == PermissionClass::Admin;
        assert(scope_class(scopes[j]) == PermissionClass::Admin);
    }
    match orgs {
        Ok(list) => {
            if 0 <= k < list@.len() && list@[k].projects is Ok && list@[k].projects->Ok_0@.len() > 0 {
                assert(shows_projects(list@[k]));
                assert(some_projects(list@));
            }
        },
        Err(_) => {},
    }
}

/// Every organization in sight is reported, and every project of it, by the names of both.
pub proof fn lemma_everything_in_sight_is_reported(
    aggregate: Option<Json>,
    orgs: Vec<HarnessOrgListing>,
    k: int,
    p: int,
)
    requires
        0 <= k < orgs@.len(),
        orgs@[k].org.identifier is Some,
    ensures
        ({
            let resources = harness_result(aggregate, Ok(orgs)).resources;
            let org = orgs@[k].org.identifier->0@;
            &&& exists|i: int|
                0 <= i < resources.len() && (#[trigger] resources[i]).resource_type == "organization"@
                    && resources[i].name == org
            &&& match orgs@[k].projects {
                Ok(list) => 0 <= p < list@.len() && list@[p].identifier is Some ==> exists|i: int|
                    0 <= i < resources.len() && (#[trigger] resources[i]).resource_type == "project"@
                        && resources[i].name == org + "/"@ + list@[p].identifier->0@
                        && resources[i].risk == "medium"@,
                Err(_) => true,
            }
        }),
{
    let resources = harness_result(aggregate, Ok(orgs)).resources;
    let n = orgs@.len() as int;
    let own = org_resources(orgs@[k]);
    assert(own.contains(own[0]));
    lemma_orgs_listed(orgs@, n, k, own[0]);
    let found = orgs_upto(orgs@, n);
    let i = choose|i: int| 0 <= i < found.len() && found[i] == own[0];
    assert(resources[i] == own[0]);
    match orgs@[k].projects {
        Ok(list) => {
            if 0 <= p < list@.len() && list@[p].identifier is Some {
                lemma_projects_listed(list@, list@.len() as int, org_label(orgs@[k].org));
                let project = project_exposure(list@[p], org_label(orgs@[k].org));
                assert(own[1 + p] == project);
                assert(own.contains(project));
                lemma_orgs_listed(orgs@, n, k, project);
                let j = choose|j: int| 0 <= j < found.len() && found[j] == project;
                assert(resources[j] == project);
            }
        },
        Err(_) => {},
    }
}

proof fn lemma_nonempty_holds(list: Seq<Seq<char>>, n: int, k: int)
    requires
        0 <= k < n <= list.len(),
        list[k].len() > 0,
    ensures
        nonempty_upto(list, n).contains(list[k]),
    decreases n,
{
    let before = nonempty_upto(list, n - 1);
    let now = nonempty_upto(list, n);
    if k < n - 1 {
        lemma_nonempty_holds(list, n - 1, k);
        let i = choose|i: int| 0 <= i < before.len() && before[i] == list[k];
        assert(now[i] == list[k]);
    } else {
        assert(now[before.len() as int] == list[k]);
    }
}

/// Every scope that an answer lists under its data is read.
pub proof fn lemma_listed_scopes_are_read(value: Json, data: Json, list: Vec<Json>, k: int, scope: Seq<char>)
    requires
        field(value, "data"@) == Some(data),
        field(data, "scopes"@) == Some(Json::Array(list)),
        0 <= k < list@.len(),
        text_of(Some(list@[k])) == Some(scope),
        scope.len() > 0,
    ensures
        key_scopes(Some(value)).contains(scope),
{
    let paths = seq!["data.scopes"@, "scopes"@, "data.permissions"@, "permissions"@];
    reveal_strlit("data.scopes");
    reveal_strlit("data");
    reveal_strlit("scopes");
    assert forall|i: int| 0 <= i < 4 implies "data"@[i] != '.' by {
        assert(i == 0 || i == 1 || i == 2 || i == 3);
    }
    assert(!"data"@.contains('.'));
    assert forall|i: int| 0 <= i < 6 implies "scopes"@[i] != '.' by {
        assert(i == 0 || i == 1 || i == 2 || i == 3 || i == 4 || i == 5);
    }
    assert(!"scopes"@.contains('.'));
    assert("data.scopes"@ =~= "data"@ + seq!['.'] + "scopes"@);
    lemma_pieces_of_parts("data"@, "scopes"@, '.');
    lemma_pieces_of_parts("scopes"@, Seq::empty(), '.');
    let parts = pieces(paths[0], '.');
    assert(parts =~= seq!["data"@, "scopes"@]);
    reveal_with_fuel(at_path, 3);
    assert(at_path(value, parts, 0) == Some(Json::Array(list)));
    let among = texts_among(list@);
    lemma_texts_among(list@, scope);
    assert(among.contains(scope));
    let m = choose|m: int| 0 <= m < among.len() && among[m] == scope;
    lemma_nonempty_holds(among, among.len() as int, m);
    lemma_in_order(nonempty_upto(among, among.len() as int));
    assert(scopes_in(list@).contains(scope));
    assert(texts_at_paths(value, paths, 0) == scopes_in(list@));
}

} // verus!
