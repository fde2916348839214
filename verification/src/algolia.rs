//! Algolia API keys.

use vstd::prelude::*;
use crate::json::{field, parse_json, parsed_json, text_of, Json};
use crate::mapping::{build_result, plain_result};
use crate::model::{
    binding, empty_access_token_details, empty_permission_summary, exposure, one_view, push_view,
    result_view, views, AccessMapResult, AccessMapResultView, AccessSummary, AccessSummaryView,
    AccessTokenDetails, AccessTokenDetailsView, PermissionSummary, PermissionSummaryView,
    ResourceExposure, ResourceExposureView, RoleBinding, Severity,
};
use crate::permissions::{
    class_list, file_permission, filed, lemma_filed, lemma_sorted_classes_stay_filled,
    lemma_sorted_summary, sort_permission_summary, sorted_summary, PermissionClass,
};
use crate::text::{
    all_ascii, at_byte, by_text, byte_width, cat2, cat3, chars_of, copy_texts, find_byte, is_among,
    no_texts, one_text, opt_text, prefix_all, prefixed, push_text, slice, str_eq, texts, width_upto,
};

verus! {

/// What the service says of a key.
#[derive(Debug)]
pub struct AlgoliaKeyInfo {
    pub acl: Vec<String>,
    pub indexes: Vec<String>,
    pub validity: i64,
    pub description: String,
}

/// An application and a key of it.
#[derive(Debug)]
pub struct AlgoliaCredentials {
    pub app_id: String,
    pub api_key: String,
}

/// An application and a key, as views.
#[verifier::ext_equal]
pub ghost struct AlgoliaCredentialsView {
    pub app_id: Seq<char>,
    pub api_key: Seq<char>,
}

impl View for AlgoliaCredentials {
    type V = AlgoliaCredentialsView;

    open spec fn view(&self) -> AlgoliaCredentialsView {
        AlgoliaCredentialsView { app_id: self.app_id@, api_key: self.api_key@ }
    }
}

/// The credentials in a file, by what the file is as JSON.
pub open spec fn file_credentials(json: Result<Json, Seq<char>>) -> Result<
    AlgoliaCredentialsView,
    Seq<char>,
> {
    match json {
        Err(_) => Err("Algolia credential file must be valid JSON with app_id and api_key"@),
        Ok(value) => match (
            text_of(field(value, "app_id"@)),
            text_of(field(value, "api_key"@)),
        ) {
            (None, _) => Err("Algolia credential JSON missing 'app_id'"@),
            (_, None) => Err("Algolia credential JSON missing 'api_key'"@),
            (Some(app_id), Some(api_key)) => Ok(AlgoliaCredentialsView { app_id, api_key }),
        },
    }
}

/// Reads credentials out of a file of which it is known what it is as JSON.
pub fn read_credentials(json: &Result<Json, String>) -> (credentials: Result<
    AlgoliaCredentials,
    String,
>)
    ensures
        result_view(credentials) == file_credentials(by_text(*json)),
{
    match json {
        Err(_) => Err(
            "Algolia credential file must be valid JSON with app_id and api_key".to_owned(),
        ),
        Ok(value) => {
            let app_id = match value.text_at("app_id") {
                Some(text) => text,
                None => {
                    return Err("Algolia credential JSON missing 'app_id'".to_owned());
                },
            };
            match value.text_at("api_key") {
                Some(api_key) => Ok(AlgoliaCredentials { app_id, api_key }),
                None => Err("Algolia credential JSON missing 'api_key'".to_owned()),
            }
        },
    }
}

/// Reads credentials out of a file.
pub fn parse_algolia_credentials(raw: &str) -> (credentials: Result<AlgoliaCredentials, String>)
    ensures
        result_view(credentials) == file_credentials(parsed_json(raw@)),
{
    let json = parse_json(raw);
    read_credentials(&json)
}

/// The class of what an access-control entry permits.
pub open spec fn acl_class(acl: Seq<char>) -> PermissionClass {
    if acl == "admin"@ || acl == "editSettings"@ || acl == "listIndexes"@ || acl == "deleteIndex"@ {
        PermissionClass::Admin
    } else if acl == "addObject"@ || acl == "deleteObject"@ || acl == "browse"@ {
        PermissionClass::Risky
    } else {
        PermissionClass::ReadOnly
    }
}

pub fn classify_acl(acl: &str) -> (class: PermissionClass)
    ensures
        class == acl_class(acl@),
{
    if str_eq(acl, "admin") || str_eq(acl, "editSettings") || str_eq(acl, "listIndexes") || str_eq(
        acl,
        "deleteIndex",
    ) {
        PermissionClass::Admin
    } else if str_eq(acl, "addObject") || str_eq(acl, "deleteObject") || str_eq(acl, "browse") {
        PermissionClass::Risky
    } else {
        PermissionClass::ReadOnly
    }
}

/// The summary with one more access-control entry.
pub open spec fn with_acl(summary: PermissionSummaryView, acl: Seq<char>) -> PermissionSummaryView {
    filed(summary, acl_class(acl), "acl:"@ + acl)
}

fn file_acl(summary: &mut PermissionSummary, acl: &str)
    ensures
        final(summary)@ == with_acl(old(summary)@, acl@),
{
    file_permission(summary, classify_acl(acl), cat2("acl:", acl));
}

/// The summary with the first `n` access-control entries.
pub open spec fn with_acls(summary: PermissionSummaryView, list: Seq<Seq<char>>, n: int) -> PermissionSummaryView
    decreases n,
{
    if n <= 0 {
        summary
    } else {
        with_acl(with_acls(summary, list, n - 1), list[n - 1])
    }
}

fn file_acls(summary: &mut PermissionSummary, list: &Vec<String>)
    ensures
        final(summary)@ == with_acls(old(summary)@, texts(list@), list@.len() as int),
{
    let ghost start = summary@;
    let mut i: usize = 0;
    while i < list.len()
        invariant
            i <= list@.len(),
            summary@ == with_acls(start, texts(list@), i as int),
        decreases list@.len() - i,
    {
        assert(texts(list@)[i as int] == list@[i as int]@);
        file_acl(summary, list[i].as_str());
        i = i + 1;
    }
}

/// The names of the indexes that have one.
pub open spec fn named_upto(list: Seq<Seq<char>>, n: int) -> Seq<Seq<char>>
    decreases n,
{
    if n <= 0 {
        Seq::empty()
    } else if list[n - 1].len() > 0 {
        named_upto(list, n - 1).push(list[n - 1])
    } else {
        named_upto(list, n - 1)
    }
}

/// Keeps the names of the indexes that have one.
pub fn named_indexes(names: &Vec<String>) -> (kept: Vec<String>)
    ensures
        texts(kept@) == named_upto(texts(names@), names@.len() as int),
{
    let mut kept = no_texts();
    let mut i: usize = 0;
    while i < names.len()
        invariant
            i <= names@.len(),
            texts(kept@) == named_upto(texts(names@), i as int),
        decreases names@.len() - i,
    {
        assert(texts(names@)[i as int] == names@[i as int]@);
        if !names[i].as_str().is_empty() {
            push_text(&mut kept, names[i].clone());
        }
        i = i + 1;
    }
    kept
}

/// The resource that stands for an index.
pub open spec fn index_exposure(index: Seq<char>) -> ResourceExposureView {
    exposure(
        "algolia_index"@,
        index,
        seq!["index:accessible"@],
        Severity::Medium,
        "Index accessible via this API key"@,
    )
}

/// The resources that stand for the first `n` indexes.
pub open spec fn indexes_upto(list: Seq<Seq<char>>, n: int) -> Seq<ResourceExposureView>
    decreases n,
{
    if n <= 0 {
        Seq::empty()
    } else {
        indexes_upto(list, n - 1).push(index_exposure(list[n - 1]))
    }
}

fn add_indexes(resources: &mut Vec<ResourceExposure>, list: &Vec<String>)
    ensures
        views(final(resources)@) == views(old(resources)@) + indexes_upto(
            texts(list@),
            list@.len() as int,
        ),
{
    let ghost before = views(resources@);
    let mut i: usize = 0;
    assert(before =~= before + indexes_upto(texts(list@), 0));
    while i < list.len()
        invariant
            i <= list@.len(),
            views(resources@) == before + indexes_upto(texts(list@), i as int),
        decreases list@.len() - i,
    {
        assert(texts(list@)[i as int] == list@[i as int]@);
        push_view(
            resources,
            ResourceExposure::new(
                "algolia_index",
                list[i].as_str(),
                one_text("index:accessible"),
                Severity::Medium,
                "Index accessible via this API key",
            ),
        );
        i = i + 1;
        assert(views(resources@) =~= before + indexes_upto(texts(list@), i as int));
    }
}

/// The first eight bytes of a key, or the whole of a shorter one; nothing where a character lies
/// across the cut.
pub open spec fn key_start(api_key: Seq<char>) -> Option<Seq<char>> {
    if width_upto(api_key, api_key.len() as int) <= 8 {
        Some(api_key)
    } else {
        match at_byte(api_key, 8, 0) {
            Some(k) => Some(api_key.take(k)),
            None => None,
        }
    }
}

/// Takes the first eight bytes of a key.
pub fn key_head(api_key: &str) -> (head: Option<String>)
    ensures
        opt_text(head) == key_start(api_key@),
{
    let n: usize = chars_of(api_key).len();
    if byte_width(api_key, n) <= 8 {
        Some(api_key.to_owned())
    } else {
        match find_byte(api_key, 8) {
            Some(k) => {
                let head = slice(api_key, 0, k);
                assert(head@ =~= api_key@.take(k as int));
                Some(head)
            },
            None => None,
        }
    }
}

/// How grave it is what a key permits.
pub open spec fn algolia_severity(permissions: PermissionSummaryView) -> Severity {
    if permissions.admin.len() > 0 {
        Severity::Critical
    } else if permissions.risky.len() > 0 {
        Severity::High
    } else {
        Severity::Medium
    }
}

/// The notes on a key.
pub open spec fn algolia_notes(
    info: AlgoliaKeyInfo,
    indexes: Result<Vec<String>, String>,
) -> Seq<Seq<char>> {
    let first = match indexes {
        Ok(_) => Seq::empty(),
        Err(error) => seq!["Index listing failed: "@ + error@],
    };
    let second = if texts(info.indexes@).contains("*"@) {
        first.push("API key has wildcard index access (all indexes)"@)
    } else {
        first
    };
    if info.validity == 0 {
        second.push("API key has no validity limit (does not expire)"@)
    } else {
        second
    }
}

/// The indexes that were listed.
pub open spec fn found_indexes(indexes: Result<Vec<String>, String>) -> Seq<Seq<char>> {
    match indexes {
        Ok(list) => texts(list@),
        Err(_) => Seq::empty(),
    }
}

/// What an Algolia key gives access to.
pub open spec fn algolia_result(
    app_id: Seq<char>,
    head: Seq<char>,
    info: AlgoliaKeyInfo,
    indexes: Result<Vec<String>, String>,
) -> AccessMapResultView {
    let acl = texts(info.acl@);
    let permissions = with_acls(empty_permission_summary(), acl, acl.len() as int);
    let severity = algolia_severity(permissions);
    let found = found_indexes(indexes);
    plain_result(
        "algolia"@,
        AccessSummaryView {
            id: app_id + ":"@ + head,
            access_type: "api_key"@,
            project: Some(app_id),
            tenant: None,
            account_id: Some(app_id),
        },
        seq![binding("algolia_api_key"@, "algolia"@, prefixed("acl:"@, acl))],
        sorted_summary(permissions),
        seq![
            exposure(
                "algolia_application"@,
                app_id,
                prefixed("acl:"@, acl),
                severity,
                "Algolia application reachable with this API key"@,
            ),
        ] + indexes_upto(found, found.len() as int),
        severity,
        algolia_notes(info, indexes),
        Some(
            AccessTokenDetailsView {
                name: if info.description@.len() == 0 {
                    None
                } else {
                    Some(info.description@)
                },
                token_type: Some("api_key"@),
                scopes: acl,
                ..empty_access_token_details()
            },
        ),
    )
}

/// Maps an Algolia key from what the service answered to it. The names of the indexes are those
/// that are not empty.
pub fn map_access_from_credentials(
    app_id: &str,
    api_key: &str,
    info: &AlgoliaKeyInfo,
    indexes: Result<Vec<String>, String>,
) -> (result: AccessMapResult)
    requires
        key_start(api_key@) is Some,
    ensures
        result@ == algolia_result(app_id@, key_start(api_key@)->0, *info, indexes),
{
    let ghost given = indexes;
    let head = match key_head(api_key) {
        Some(head) => head,
        None => String::new(),
    };
    let mut permissions = PermissionSummary::default();
    file_acls(&mut permissions, &info.acl);
    let mut risk_notes = no_texts();
    let list: Vec<String> = match indexes {
        Ok(list) => list,
        Err(error) => {
            push_text(&mut risk_notes, cat2("Index listing failed: ", error.as_str()));
            no_texts()
        },
    };
    assert(texts(list@) =~= found_indexes(given));
    let severity = if permissions.admin.len() > 0 {
        Severity::Critical
    } else if permissions.risky.len() > 0 {
        Severity::High
    } else {
        Severity::Medium
    };
    if is_among(&info.indexes, "*") {
        push_text(
            &mut risk_notes,
            "API key has wildcard index access (all indexes)".to_owned(),
        );
    }
    if info.validity == 0 {
        push_text(
            &mut risk_notes,
            "API key has no validity limit (does not expire)".to_owned(),
        );
    }
    assert(texts(risk_notes@) =~= algolia_notes(*info, given));
    let roles = one_view(
        RoleBinding::new("algolia_api_key", "algolia", prefix_all("acl:", &info.acl)),
    );
    let mut resources = one_view(
        ResourceExposure::new(
            "algolia_application",
            app_id,
            prefix_all("acl:", &info.acl),
            severity,
            "Algolia application reachable with this API key",
        ),
    );
    add_indexes(&mut resources, &list);
    sort_permission_summary(&mut permissions);
    let mut details = AccessTokenDetails::default();
    if !info.description.as_str().is_empty() {
        details.name = Some(info.description.clone());
    }
    details.token_type = Some("api_key".to_owned());
    details.scopes = copy_texts(&info.acl);
    build_result(
        "algolia",
        AccessSummary {
            id: cat3(app_id, ":", head.as_str()),
            access_type: "api_key".to_owned(),
            project: Some(app_id.to_owned()),
            tenant: None,
            account_id: Some(app_id.to_owned()),
        },
        roles,
        permissions,
        resources,
        severity,
        risk_notes,
        Some(details),
    )
}

/// Every ASCII key can be mapped.
pub proof fn lemma_ascii_keys_have_a_start(api_key: Seq<char>)
    requires
        all_ascii(api_key),
    ensures
        key_start(api_key) == Some(
            api_key.take(
                if api_key.len() < 8 {
                    api_key.len() as int
                } else {
                    8
                },
            ),
        ),
{
    lemma_ascii_width(api_key, api_key.len() as int);
    if api_key.len() >= 8 {
        lemma_ascii_position(api_key, 8, 0);
    }
    if api_key.len() <= 8 {
        assert(api_key.take(api_key.len() as int) =~= api_key);
    }
}

proof fn lemma_ascii_width(s: Seq<char>, n: int)
    requires
        all_ascii(s),
        0 <= n <= s.len(),
    ensures
        width_upto(s, n) == n,
    decreases n,
{
    if n > 0 {
        lemma_ascii_width(s, n - 1);
        assert(s[n - 1] < '\u{80}');
    }
}

proof fn lemma_ascii_position(s: Seq<char>, bytes: int, i: int)
    requires
        all_ascii(s),
        0 <= bytes,
        0 <= i,
        i + bytes <= s.len(),
    ensures
        at_byte(s, bytes, i) == Some(i + bytes),
    decreases bytes,
{
    if bytes > 0 {
        assert(s[i] < '\u{80}');
        lemma_ascii_position(s, bytes - 1, i + 1);
    }
}

proof fn lemma_acls_are_filed(summary: PermissionSummaryView, acls: Seq<Seq<char>>, n: int, k: int)
    requires
        0 <= k < n <= acls.len(),
    ensures
        class_list(with_acls(summary, acls, n), acl_class(acls[k])).contains("acl:"@ + acls[k]),
    decreases n,
{
    let before = with_acls(summary, acls, n - 1);
    lemma_filed(before, acl_class(acls[n - 1]), "acl:"@ + acls[n - 1]);
    if k < n - 1 {
        lemma_acls_are_filed(summary, acls, n - 1, k);
    }
}

/// No access-control entry of a key is left out: each stands in the class that it belongs to.
pub proof fn lemma_every_acl_is_reported(app_id: Seq<char>, head: Seq<char>, info: AlgoliaKeyInfo, indexes: Result<Vec<String>, String>, k: int)
    requires
        0 <= k < texts(info.acl@).len(),
    ensures
        class_list(algolia_result(app_id, head, info, indexes).permissions, acl_class(texts(info.acl@)[k])).contains("acl:"@ + texts(info.acl@)[k]),
{
    let acls = texts(info.acl@);
    lemma_acls_are_filed(empty_permission_summary(), acls, acls.len() as int, k);
    lemma_sorted_summary(
        with_acls(empty_permission_summary(), acls, acls.len() as int),
        acl_class(acls[k]),
    );
}

proof fn lemma_acls_filed(summary: PermissionSummaryView, list: Seq<Seq<char>>, n: int, k: int)
    requires
        0 <= k < n <= list.len(),
    ensures
        class_list(with_acls(summary, list, n), acl_class(list[k])).contains("acl:"@ + list[k]),
    decreases n,
{
    let before = with_acls(summary, list, n - 1);
    lemma_filed(before, acl_class(list[n - 1]), "acl:"@ + list[n - 1]);
    if k < n - 1 {
        lemma_acls_filed(summary, list, n - 1, k);
        assert(class_list(before, acl_class(list[k])).contains("acl:"@ + list[k]));
    }
}

proof fn lemma_acls_source(list: Seq<Seq<char>>, n: int, class: PermissionClass)
    requires
        0 <= n <= list.len(),
        class_list(with_acls(empty_permission_summary(), list, n), class).len() > 0,
    ensures
        exists|k: int| 0 <= k < n && acl_class(#[trigger] list[k]) == class,
    decreases n,
{
    if n > 0 {
        let before = with_acls(empty_permission_summary(), list, n - 1);
        lemma_filed(before, acl_class(list[n - 1]), "acl:"@ + list[n - 1]);
        if acl_class(list[n - 1]) != class {
            assert(class_list(before, class) == class_list(
                with_acls(empty_permission_summary(), list, n),
                class,
            ));
            lemma_acls_source(list, n - 1, class);
        }
    }
}

proof fn lemma_indexes_listed(list: Seq<Seq<char>>, n: int)
    requires
        0 <= n <= list.len(),
    ensures
        indexes_upto(list, n).len() == n,
        forall|k: int| 0 <= k < n ==> #[trigger] indexes_upto(list, n)[k] == index_exposure(list[k]),
    decreases n,
{
    if n > 0 {
        lemma_indexes_listed(list, n - 1);
    }
}

/// The gravest entry decides: one to administer, to change settings, to delete or to list indexes makes a
/// key critical, one to add, delete or browse objects high at least. Each is reported in its class, and
/// the indexes that were listed are reported, each under its name. A key without such entries is medium.
pub proof fn lemma_gravest_acl_decides(
    app_id: Seq<char>,
    head: Seq<char>,
    info: AlgoliaKeyInfo,
    indexes: Result<Vec<String>, String>,
    k: int,
)
    ensures
        ({
            let result = algolia_result(app_id, head, info, indexes);
            let acl = texts(info.acl@);
            let found = found_indexes(indexes);
            &&& 0 <= k < acl.len() ==> {
                let entry = acl[k];
                &&& entry == "admin"@ || entry == "editSettings"@ || entry == "deleteIndex"@ || entry
                    == "listIndexes"@ ==> result.severity == Severity::Critical
                    && result.permissions.admin.contains("acl:"@ + entry)
                &&& entry == "addObject"@ || entry == "deleteObject"@ || entry == "browse"@ ==> (
                result.severity == Severity::High || result.severity == Severity::Critical) && (
                result.permissions.risky.contains("acl:"@ + entry) || result.permissions.admin.contains(
                    "acl:"@ + entry,
                ))
            }
            &&& (forall|j: int|
                0 <= j < acl.len() ==> acl_class(#[trigger] acl[j]) == PermissionClass::ReadOnly)
                ==> result.severity == Severity::Medium
            &&& result.severity != Severity::Low
            &&& result.resources.len() == found.len() + 1
            &&& result.resources[0].name == app_id
            &&& 0 <= k < found.len() ==> result.resources[k + 1].name == found[k]
            &&& texts(info.indexes@).contains("*"@) ==> result.risk_notes.contains(
                "API key has wildcard index access (all indexes)"@,
            )
            &&& info.validity == 0 ==> result.risk_notes.contains(
                "API key has no validity limit (does not expire)"@,
            )
        }),
{
    let acl = texts(info.acl@);
    let found = found_indexes(indexes);
    let raw = with_acls(empty_permission_summary(), acl, acl.len() as int);
    lemma_indexes_listed(found, found.len() as int);
    if 0 <= k < acl.len() {
        lemma_acls_filed(empty_permission_summary(), acl, acl.len() as int, k);
        lemma_sorted_summary(raw, acl_class(acl[k]));
        assert(class_list(raw, acl_class(acl[k])).contains("acl:"@ + acl[k]));
        assert(class_list(sorted_summary(raw), acl_class(acl[k])).contains("acl:"@ + acl[k]));
    }
    if raw.admin.len() > 0 {
        assert(class_list(raw, PermissionClass::Admin) == raw.admin);
        lemma_acls_source(acl, acl.len() as int, PermissionClass::Admin);
    }
    if raw.risky.len() > 0 {
        assert(class_list(raw, PermissionClass::Risky) == raw.risky);
        lemma_acls_source(acl, acl.len() as int, PermissionClass::Risky);
    }
    let notes = algolia_notes(info, indexes);
    if info.validity == 0 {
        assert(notes[notes.len() - 1] == "API key has no validity limit (does not expire)"@);
    }
    if texts(info.indexes@).contains("*"@) {
        let at: int = match indexes {
            Ok(_) => 0,
            Err(_) => 1,
        };
        assert(notes[at] == "API key has wildcard index access (all indexes)"@);
    }
}

} // verus!
