//! Storage account keys.

use vstd::prelude::*;
use crate::encoding::{
    base64_bytes, base64_text, decode_base64, encode_base64, hmac_sha256, hmac_sha256_of,
};
use crate::mapping::{build_recommendations, recommendations};
use crate::model::{
    binding, empty_permission_summary, exposure, one_view, pairs, push_view, result_view, views,
    AccessMapResult, AccessMapResultView, AccessSummary, AccessSummaryView, PermissionSummary,
    PermissionSummaryView, ResourceExposure, ResourceExposureView, RoleBinding, Severity,
};
use crate::order::{ascending, lemma_placed, place, placed};
use crate::text::{
    ascii_lower, cat2, cat3, cat4, cat5, chars_of, copy_texts, eq_ignore_ascii_case, no_texts,
    one_text, opt_text, push_text, texts, trim, trimmed,
};
use crate::url::{parse_url_with_params, url_with_params};
use crate::xml::{
    open_xml, read_event, read_text, xml_event, xml_past, xml_text, XmlCall, XmlEvent, XmlEventView,
};

verus! {

/// The services of a storage account whose items can be listed.
#[derive(Clone, Copy, Debug, PartialEq, Eq, Structural)]
pub enum StorageService {
    Blob,
    File,
    Queue,
}

/// Where a service of a storage account is found, behind the name of the account.
pub open spec fn host_suffix(service: StorageService) -> Seq<char> {
    match service {
        StorageService::Blob => "blob.core.windows.net"@,
        StorageService::File => "file.core.windows.net"@,
        StorageService::Queue => "queue.core.windows.net"@,
    }
}

/// The kind of resource that a service holds.
pub open spec fn item_type(service: StorageService) -> Seq<char> {
    match service {
        StorageService::Blob => "storage_container"@,
        StorageService::File => "storage_file_share"@,
        StorageService::Queue => "storage_queue"@,
    }
}

/// How the items of a service are called in messages.
pub open spec fn item_name(service: StorageService) -> Seq<char> {
    match service {
        StorageService::Blob => "blob containers"@,
        StorageService::File => "file shares"@,
        StorageService::Queue => "queues"@,
    }
}

impl StorageService {
    pub fn endpoint_suffix(self) -> (s: &'static str)
        ensures
            s@ == host_suffix(self),
    {
        match self {
            StorageService::Blob => "blob.core.windows.net",
            StorageService::File => "file.core.windows.net",
            StorageService::Queue => "queue.core.windows.net",
        }
    }

    pub fn resource_type(self) -> (s: &'static str)
        ensures
            s@ == item_type(self),
    {
        match self {
            StorageService::Blob => "storage_container",
            StorageService::File => "storage_file_share",
            StorageService::Queue => "storage_queue",
        }
    }

    pub fn display_name(self) -> (s: &'static str)
        ensures
            s@ == item_name(self),
    {
        match self {
            StorageService::Blob => "blob containers",
            StorageService::File => "file shares",
            StorageService::Queue => "queues",
        }
    }
}

/// A signed request for one page of a listing.
#[derive(Debug)]
pub struct ListRequest {
    pub url: String,
    pub date: String,
    pub version: String,
    pub authorization: String,
}

/// What a `ListRequest` says.
#[verifier::ext_equal]
pub struct ListRequestView {
    pub url: Seq<char>,
    pub date: Seq<char>,
    pub version: Seq<char>,
    pub authorization: Seq<char>,
}

impl View for ListRequest {
    type V = ListRequestView;

    open spec fn view(&self) -> ListRequestView {
        ListRequestView {
            url: self.url@,
            date: self.date@,
            version: self.version@,
            authorization: self.authorization@,
        }
    }
}

/// The text that is signed for one page of a listing.
pub open spec fn string_to_sign(account: Seq<char>, date: Seq<char>, marker: Option<Seq<char>>) -> Seq<
    char,
> {
    let head = "GET\n\n\n\n\n\n\n\n\n\n\n\nx-ms-date:"@ + date
        + "\nx-ms-version:2023-11-03\n/"@ + account + "/\ncomp:list"@;
    match marker {
        Some(text) => head + "\nmarker:"@ + text,
        None => head,
    }
}

/// The parameters of a request for one page of a listing.
pub open spec fn list_params(marker: Option<Seq<char>>) -> Seq<(Seq<char>, Seq<char>)> {
    match marker {
        Some(text) => seq![("comp"@, "list"@), ("marker"@, text)],
        None => seq![("comp"@, "list"@)],
    }
}

/// The request for the page of a listing that begins at a marker, signed with the key of the
/// account.
pub open spec fn signed_request(
    account: Seq<char>,
    key: Seq<char>,
    service: StorageService,
    date: Seq<char>,
    marker: Option<Seq<char>>,
) -> Result<ListRequestView, Seq<char>> {
    match url_with_params(
        "https://"@ + account + "."@ + host_suffix(service) + "/"@,
        list_params(marker),
    ) {
        Err(error) => Err(error),
        Ok(url) => match base64_bytes(key) {
            Err(error) => Err(error),
            Ok(bytes) => match hmac_sha256_of(bytes, string_to_sign(account, date, marker)) {
                None => Err("invalid key length"@),
                Some(code) => Ok(
                    ListRequestView {
                        url,
                        date,
                        version: "2023-11-03"@,
                        authorization: "SharedKey "@ + account + ":"@ + base64_text(code),
                    },
                ),
            },
        },
    }
}

fn text_to_sign(account: &str, date: &str, marker: &Option<String>) -> (s: String)
    ensures
        s@ == string_to_sign(account@, date@, opt_text(*marker)),
{
    let head = cat5(
        "GET\n\n\n\n\n\n\n\n\n\n\n\nx-ms-date:",
        date,
        "\nx-ms-version:2023-11-03\n/",
        account,
        "/\ncomp:list",
    );
    match marker {
        Some(text) => cat3(head.as_str(), "\nmarker:", text.as_str()),
        None => head,
    }
}

/// The parameters of a request for one page of a listing.
fn params_for(marker: &Option<String>) -> (params: Vec<(String, String)>)
    ensures
        pairs(params@) == list_params(opt_text(*marker)),
{
    let mut params: Vec<(String, String)> = Vec::new();
    params.push(("comp".to_owned(), "list".to_owned()));
    match marker {
        Some(text) => {
            params.push(("marker".to_owned(), text.clone()));
        },
        None => {},
    }
    assert(pairs(params@) =~= list_params(opt_text(*marker)));
    params
}

/// Makes and signs the request for one page of a listing.
pub fn sign_list_request(
    account: &str,
    key: &str,
    service: StorageService,
    date: &str,
    marker: &Option<String>,
) -> (request: Result<ListRequest, String>)
    ensures
        result_view(request) == signed_request(account@, key@, service, date@, opt_text(*marker)),
{
    let endpoint = cat5("https://", account, ".", service.endpoint_suffix(), "/");
    let url = match parse_url_with_params(endpoint.as_str(), &params_for(marker)) {
        Ok(url) => url,
        Err(error) => {
            return Err(error);
        },
    };
    let bytes = match decode_base64(key) {
        Ok(bytes) => bytes,
        Err(error) => {
            return Err(error);
        },
    };
    let message = text_to_sign(account, date, marker);
    match hmac_sha256(bytes.as_slice(), message.as_str()) {
        None => Err("invalid key length".to_owned()),
        Some(code) => {
            let signature = encode_base64(code.as_slice());
            Ok(
                ListRequest {
                    url,
                    date: date.to_owned(),
                    version: "2023-11-03".to_owned(),
                    authorization: cat4("SharedKey ", account, ":", signature.as_str()),
                },
            )
        },
    }
}

/// The items that a document names and the marker of the page after it, read from where the reader
/// stands with at most `fuel` events to come. Each event takes up some of the document, so a
/// document has no more events than characters, but for its end.
pub open spec fn items_from(
    document: Seq<char>,
    past: Seq<XmlCall>,
    items: Seq<Seq<char>>,
    marker: Option<Seq<char>>,
    fuel: int,
) -> Result<(Seq<Seq<char>>, Option<Seq<char>>), Seq<char>>
    decreases fuel,
{
    if fuel <= 0 {
        Ok((items, marker))
    } else {
        match xml_event(document, past) {
            Err(error) => Err("XML parse error: "@ + error),
            Ok(XmlEventView::Eof) => Ok((items, marker)),
            Ok(XmlEventView::Other) => items_from(
                document,
                past.push(XmlCall::Event),
                items,
                marker,
                fuel - 1,
            ),
            Ok(XmlEventView::Start(name)) => {
                let begun = past.push(XmlCall::Event);
                let ended = begun.push(XmlCall::Text(name));
                if ascii_lower(name) == ascii_lower("name"@) {
                    match xml_text(document, begun, name) {
                        Err(error) => Err(error),
                        Ok(text) => items_from(
                            document,
                            ended,
                            if text.len() > 0 {
                                placed(items, text)
                            } else {
                                items
                            },
                            marker,
                            fuel - 1,
                        ),
                    }
                } else if ascii_lower(name) == ascii_lower("nextmarker"@) {
                    match xml_text(document, begun, name) {
                        Err(error) => Err(error),
                        Ok(text) => items_from(
                            document,
                            ended,
                            items,
                            if trimmed(text).len() > 0 {
                                Some(text)
                            } else {
                                marker
                            },
                            fuel - 1,
                        ),
                    }
                } else {
                    items_from(document, begun, items, marker, fuel - 1)
                }
            },
        }
    }
}

/// The items of a listing after one more page, and the marker of the page after that.
pub open spec fn page_items(document: Seq<char>, items: Seq<Seq<char>>) -> Result<
    (Seq<Seq<char>>, Option<Seq<char>>),
    Seq<char>,
> {
    items_from(document, Seq::empty(), items, None, document.len() as int + 1)
}

/// Adds the items that a page names and gives the marker of the page after it.
pub fn read_page(document: &str, items: &mut Vec<String>) -> (marker: Result<Option<String>, String>)
    ensures
        match marker {
            Ok(next) => page_items(document@, texts(old(items)@)) == Ok::<
                (Seq<Seq<char>>, Option<Seq<char>>),
                Seq<char>,
            >((texts(final(items)@), opt_text(next))),
            Err(error) => page_items(document@, texts(old(items)@)) == Err::<
                (Seq<Seq<char>>, Option<Seq<char>>),
                Seq<char>,
            >(error@),
        },
{
    let size: usize = chars_of(document).len();
    let mut reader = open_xml(document);
    let mut marker: Option<String> = None;
    let mut read: usize = 0;
    while read <= size
        invariant
            size == document@.len(),
            read <= size + 1,
            xml_past(reader).0 == document@,
            page_items(document@, texts(old(items)@)) == items_from(
                document@,
                xml_past(reader).1,
                texts(items@),
                opt_text(marker),
                size + 1 - read,
            ),
        decreases size + 1 - read,
    {
        match read_event(&mut reader) {
            Err(error) => {
                return Err(cat2("XML parse error: ", error.as_str()));
            },
            Ok(XmlEvent::Eof) => {
                return Ok(marker);
            },
            Ok(XmlEvent::Other) => {},
            Ok(XmlEvent::Start(name)) => {
                if eq_ignore_ascii_case(name.as_str(), "name") {
                    match read_text(&mut reader, name.as_str()) {
                        Err(error) => {
                            return Err(error);
                        },
                        Ok(text) => {
                            if !text.as_str().is_empty() {
                                place(items, text);
                            }
                        },
                    }
                } else if eq_ignore_ascii_case(name.as_str(), "nextmarker") {
                    match read_text(&mut reader, name.as_str()) {
                        Err(error) => {
                            return Err(error);
                        },
                        Ok(text) => {
                            if !trim(text.as_str()).as_str().is_empty() {
                                marker = Some(text);
                            }
                        },
                    }
                }
            },
        }
        if read == size {
            proof {
                reveal_with_fuel(items_from, 2);
            }
            return Ok(marker);
        }
        read = read + 1;
    }
    Ok(marker)
}

/// One answer to a request for a page of a listing.
#[derive(Debug)]
pub struct StoragePage {
    pub success: bool,
    /// The status of the answer, as it is written in messages.
    pub status: String,
    pub body: String,
}

/// How far a listing has come: another page is wanted, from a marker on, or all items are there.
#[derive(Debug)]
pub enum Listing {
    NeedsPage(Option<String>),
    Done(Vec<String>),
}

/// What a `Listing` says.
#[verifier::ext_equal]
pub enum ListingView {
    NeedsPage(Option<Seq<char>>),
    Done(Seq<Seq<char>>),
}

impl View for Listing {
    type V = ListingView;

    open spec fn view(&self) -> ListingView {
        match self {
            Listing::NeedsPage(marker) => ListingView::NeedsPage(opt_text(*marker)),
            Listing::Done(items) => ListingView::Done(texts(items@)),
        }
    }
}

/// What is said of a page that was refused.
pub open spec fn refused_page(service: StorageService, page: StoragePage) -> Seq<char> {
    "Azure Storage list "@ + item_name(service) + " failed (HTTP "@ + page.status@ + "): "@
        + page.body@
}

/// What a listing comes to from the `i`-th page on: the items of all pages in order, each once, as
/// soon as a page names no other.
pub open spec fn listed_from(
    service: StorageService,
    pages: Seq<StoragePage>,
    i: int,
    items: Seq<Seq<char>>,
    marker: Option<Seq<char>>,
) -> Result<ListingView, Seq<char>>
    decreases pages.len() - i,
{
    if i < 0 || i >= pages.len() {
        Ok(ListingView::NeedsPage(marker))
    } else if !pages[i].success {
        Err(refused_page(service, pages[i]))
    } else {
        match page_items(pages[i].body@, items) {
            Err(error) => Err(error),
            Ok((more, None)) => Ok(ListingView::Done(more)),
            Ok((more, Some(next))) => listed_from(service, pages, i + 1, more, Some(next)),
        }
    }
}

/// Puts a listing together from the pages that have come.
pub fn list_service_items(service: StorageService, pages: &Vec<StoragePage>) -> (listing: Result<
    Listing,
    String,
>)
    ensures
        result_view(listing) == listed_from(service, pages@, 0, Seq::empty(), None),
{
    let mut items = no_texts();
    let mut marker: Option<String> = None;
    let mut i: usize = 0;
    while i < pages.len()
        invariant
            i <= pages@.len(),
            listed_from(service, pages@, 0, Seq::empty(), None) == listed_from(
                service,
                pages@,
                i as int,
                texts(items@),
                opt_text(marker),
            ),
        decreases pages@.len() - i,
    {
        if !pages[i].success {
            let head = cat5(
                "Azure Storage list ",
                service.display_name(),
                " failed (HTTP ",
                pages[i].status.as_str(),
                "): ",
            );
            return Err(cat2(head.as_str(), pages[i].body.as_str()));
        }
        match read_page(pages[i].body.as_str(), &mut items) {
            Err(error) => {
                return Err(error);
            },
            Ok(None) => {
                return Ok(Listing::Done(items));
            },
            Ok(Some(next)) => {
                marker = Some(next);
            },
        }
        i = i + 1;
    }
    Ok(Listing::NeedsPage(marker))
}

/// The resources that the items of one service make, or the one that stands for them where none
/// could be listed.
pub open spec fn item_exposures(
    items: Seq<Seq<char>>,
    service: StorageService,
    reason: Seq<char>,
    fallback: Seq<char>,
) -> Seq<ResourceExposureView> {
    if items.len() == 0 {
        seq![
            exposure(
                item_type(service),
                Seq::empty(),
                seq!["storage:*"@],
                Severity::Critical,
                fallback,
            ),
        ]
    } else {
        items.map_values(
            |item: Seq<char>|
                exposure(item_type(service), item, seq!["storage:*"@], Severity::Critical, reason),
        )
    }
}

pub fn push_storage_resources(
    resources: &mut Vec<ResourceExposure>,
    items: &Vec<String>,
    service: StorageService,
    success_reason: &str,
    fallback_reason: &str,
)
    ensures
        views(final(resources)@) == views(old(resources)@) + item_exposures(
            texts(items@),
            service,
            success_reason@,
            fallback_reason@,
        ),
{
    let ghost before = views(resources@);
    let ghost all = item_exposures(texts(items@), service, success_reason@, fallback_reason@);
    if items.len() == 0 {
        let name: String = String::new();
        assert(name@ =~= Seq::<char>::empty());
        push_view(
            resources,
            ResourceExposure::new(
                service.resource_type(),
                name.as_str(),
                one_text("storage:*"),
                Severity::Critical,
                fallback_reason,
            ),
        );
        assert(views(resources@) =~= before + all);
        return;
    }
    let mut i: usize = 0;
    assert(views(resources@) =~= before + all.take(0));
    while i < items.len()
        invariant
            i <= items@.len(),
            items@.len() > 0,
            all == item_exposures(texts(items@), service, success_reason@, fallback_reason@),
            views(resources@) == before + all.take(i as int),
        decreases items@.len() - i,
    {
        push_view(
            resources,
            ResourceExposure::new(
                service.resource_type(),
                items[i].as_str(),
                one_text("storage:*"),
                Severity::Critical,
                success_reason,
            ),
        );
        i = i + 1;
        assert(texts(items@)[i - 1] == items@[i - 1]@);
        assert(views(resources@) =~= before + all.take(i as int));
    }
    assert(all.take(items@.len() as int) =~= all);
}

/// The items of a listing, or none where it failed.
pub open spec fn items_or_none(listing: Result<Vec<String>, String>) -> Seq<Seq<char>> {
    match listing {
        Ok(list) => texts(list@),
        Err(_) => Seq::empty(),
    }
}

/// The notes, with one more where a listing failed.
pub open spec fn noting_failure(
    notes: Seq<Seq<char>>,
    listing: Result<Vec<String>, String>,
    what: Seq<char>,
) -> Seq<Seq<char>> {
    match listing {
        Ok(_) => notes,
        Err(error) => notes.push(what + error@),
    }
}

fn take_items(listing: &Result<Vec<String>, String>, what: &str, notes: &mut Vec<String>) -> (items:
    Vec<String>)
    ensures
        texts(items@) == items_or_none(*listing),
        texts(final(notes)@) == noting_failure(texts(old(notes)@), *listing, what@),
{
    match listing {
        Ok(list) => copy_texts(list),
        Err(error) => {
            push_text(notes, cat2(what, error.as_str()));
            no_texts()
        },
    }
}

/// Whether the containers are known beforehand.
pub open spec fn hinted(hint: Option<Vec<String>>) -> bool {
    match hint {
        Some(list) => list@.len() > 0,
        None => false,
    }
}

/// Whether the containers of an account have to be listed: not where they are known beforehand.
pub fn needs_container_listing(hint: &Option<Vec<String>>) -> (yes: bool)
    ensures
        yes == !hinted(*hint),
{
    match hint {
        Some(list) => list.len() == 0,
        None => true,
    }
}

/// What the key of a storage account gives access to. `blobs` is looked at only where the
/// containers are not known beforehand.
pub open spec fn storage_result(
    account: Seq<char>,
    hint: Option<Vec<String>>,
    blobs: Result<Vec<String>, String>,
    shares: Result<Vec<String>, String>,
    queues: Result<Vec<String>, String>,
) -> AccessMapResultView {
    let start = seq!["Storage account keys grant full control over the storage account"@];
    let containers = if hinted(hint) {
        texts(hint->0@)
    } else {
        items_or_none(blobs)
    };
    let with_blobs = if hinted(hint) {
        start
    } else {
        noting_failure(start, blobs, "Container enumeration failed: "@)
    };
    let with_shares = noting_failure(with_blobs, shares, "File share enumeration failed: "@);
    AccessMapResultView {
        cloud: "azure"@,
        fingerprint: None,
        identity: AccessSummaryView {
            id: account,
            access_type: "storage_account_key"@,
            project: None,
            tenant: None,
            account_id: None,
        },
        roles: seq![binding("storage_account_key"@, "shared_key"@, seq!["storage:*"@])],
        permissions: PermissionSummaryView {
            admin: seq!["storage:*"@],
            ..empty_permission_summary()
        },
        resources: seq![
            exposure(
                "storage_account"@,
                account,
                seq!["storage:*"@],
                Severity::Critical,
                "Storage account accessible with shared key"@,
            ),
        ] + item_exposures(
            containers,
            StorageService::Blob,
            "Blob container accessible with shared key"@,
            "Blob container list unavailable; storage account key still grants full access"@,
        ) + item_exposures(
            items_or_none(shares),
            StorageService::File,
            "File share accessible with shared key"@,
            "File share list unavailable; storage account key still grants full access"@,
        ) + item_exposures(
            items_or_none(queues),
            StorageService::Queue,
            "Queue accessible with shared key"@,
            "Queue list unavailable; storage account key still grants full access"@,
        ),
        severity: Severity::Critical,
        recommendations: recommendations(Severity::Critical),
        risk_notes: noting_failure(with_shares, queues, "Queue enumeration failed: "@),
        token_details: None,
        provider_metadata: None,
        mapping_error: None,
    }
}

pub fn map_storage_access(
    storage_account: String,
    containers_hint: &Option<Vec<String>>,
    blobs: &Result<Vec<String>, String>,
    shares: &Result<Vec<String>, String>,
    queues: &Result<Vec<String>, String>,
) -> (result: AccessMapResult)
    ensures
        result@ == storage_result(storage_account@, *containers_hint, *blobs, *shares, *queues),
{
    let mut risk_notes = one_text(
        "Storage account keys grant full control over the storage account",
    );
    let containers = match containers_hint {
        Some(list) if list.len() > 0 => copy_texts(list),
        _ => take_items(blobs, "Container enumeration failed: ", &mut risk_notes),
    };
    let file_shares = take_items(shares, "File share enumeration failed: ", &mut risk_notes);
    let queue_list = take_items(queues, "Queue enumeration failed: ", &mut risk_notes);
    let mut resources = one_view(
        ResourceExposure::new(
            "storage_account",
            storage_account.as_str(),
            one_text("storage:*"),
            Severity::Critical,
            "Storage account accessible with shared key",
        ),
    );
    push_storage_resources(
        &mut resources,
        &containers,
        StorageService::Blob,
        "Blob container accessible with shared key",
        "Blob container list unavailable; storage account key still grants full access",
    );
    push_storage_resources(
        &mut resources,
        &file_shares,
        StorageService::File,
        "File share accessible with shared key",
        "File share list unavailable; storage account key still grants full access",
    );
    push_storage_resources(
        &mut resources,
        &queue_list,
        StorageService::Queue,
        "Queue accessible with shared key",
        "Queue list unavailable; storage account key still grants full access",
    );
    AccessMapResult {
        cloud: "azure".to_owned(),
        fingerprint: None,
        identity: AccessSummary {
            id: storage_account,
            access_type: "storage_account_key".to_owned(),
            project: None,
            tenant: None,
            account_id: None,
        },
        roles: one_view(RoleBinding::new("storage_account_key", "shared_key", one_text("storage:*"))),
        permissions: PermissionSummary {
            admin: one_text("storage:*"),
            privilege_escalation: no_texts(),
            risky: no_texts(),
            read_only: no_texts(),
        },
        resources,
        severity: Severity::Critical,
        recommendations: build_recommendations(Severity::Critical),
        risk_notes,
        token_details: None,
        provider_metadata: None,
        mapping_error: None,
    }
}

/// Every container, file share and queue that the key of a storage account opens is reported by its name
/// at critical risk, with full control, and the account itself is too. Where a listing failed, a resource of
/// that kind stands in and the failure is noted.
pub proof fn lemma_everything_in_the_account_is_reported(
    account: Seq<char>,
    hint: Option<Vec<String>>,
    blobs: Result<Vec<String>, String>,
    shares: Result<Vec<String>, String>,
    queues: Result<Vec<String>, String>,
    k: int,
)
    ensures
        ({
            let result = storage_result(account, hint, blobs, shares, queues);
            &&& result.severity == Severity::Critical
            &&& result.permissions.admin.contains("storage:*"@)
            &&& result.resources[0].name == account && result.resources[0].risk == "critical"@
            &&& match hint {
                Some(list) => 0 <= k < list@.len() ==> opens(result, "storage_container"@, list@[k]@),
                None => true,
            }
            &&& match blobs {
                Ok(list) => hint is None && 0 <= k < list@.len() ==> opens(
                    result,
                    "storage_container"@,
                    list@[k]@,
                ),
                Err(error) => hint is None ==> opens(result, "storage_container"@, Seq::empty())
                    && result.risk_notes.contains("Container enumeration failed: "@ + error@),
            }
            &&& match shares {
                Ok(list) => 0 <= k < list@.len() ==> opens(result, "storage_file_share"@, list@[k]@),
                Err(error) => opens(result, "storage_file_share"@, Seq::empty())
                    && result.risk_notes.contains("File share enumeration failed: "@ + error@),
            }
            &&& match queues {
                Ok(list) => 0 <= k < list@.len() ==> opens(result, "storage_queue"@, list@[k]@),
                Err(error) => opens(result, "storage_queue"@, Seq::empty()) && result.risk_notes.contains(
                    "Queue enumeration failed: "@ + error@,
                ),
            }
        }),
{
    let result = storage_result(account, hint, blobs, shares, queues);
    let containers = if hinted(hint) {
        texts(hint->0@)
    } else {
        items_or_none(blobs)
    };
    let first = item_exposures(
        containers,
        StorageService::Blob,
        "Blob container accessible with shared key"@,
        "Blob container list unavailable; storage account key still grants full access"@,
    );
    let second = item_exposures(
        items_or_none(shares),
        StorageService::File,
        "File share accessible with shared key"@,
        "File share list unavailable; storage account key still grants full access"@,
    );
    let third = item_exposures(
        items_or_none(queues),
        StorageService::Queue,
        "Queue accessible with shared key"@,
        "Queue list unavailable; storage account key still grants full access"@,
    );
    assert(result.permissions.admin[0] == "storage:*"@);
    assert forall|i: int| 0 <= i < first.len() implies result.resources[1 + i] == #[trigger] first[i] by {}
    assert forall|i: int| 0 <= i < second.len() implies result.resources[1 + first.len() + i]
        == #[trigger] second[i] by {}
    assert forall|i: int| 0 <= i < third.len() implies result.resources[1 + first.len() + second.len() + i]
        == #[trigger] third[i] by {}
    assert(seq!["storage:*"@][0] == "storage:*"@);
    assert(first.len() > 0 && second.len() > 0 && third.len() > 0);
    let a: int = if 0 <= k < first.len() { k } else { 0 };
    let b: int = if 0 <= k < second.len() { k } else { 0 };
    let c: int = if 0 <= k < third.len() { k } else { 0 };
    assert(result.resources[1 + a] == first[a]);
    assert(result.resources[1 + first.len() + b] == second[b]);
    assert(result.resources[1 + first.len() + second.len() + c] == third[c]);
    let start = seq!["Storage account keys grant full control over the storage account"@];
    let with_blobs = if hinted(hint) {
        start
    } else {
        noting_failure(start, blobs, "Container enumeration failed: "@)
    };
    let with_shares = noting_failure(with_blobs, shares, "File share enumeration failed: "@);
    match blobs {
        Err(error) => {
            if hint is None {
                assert(result.risk_notes[1] == "Container enumeration failed: "@ + error@);
            }
        },
        Ok(_) => {},
    }
    match shares {
        Err(error) => {
            assert(result.risk_notes[with_blobs.len() as int] == "File share enumeration failed: "@
                + error@);
        },
        Ok(_) => {},
    }
    match queues {
        Err(error) => {
            assert(result.risk_notes[with_shares.len() as int] == "Queue enumeration failed: "@ + error@);
        },
        Ok(_) => {},
    }
}

/// Whether a result shows a resource of some type and name under full control and at critical risk.
pub open spec fn opens(result: AccessMapResultView, resource_type: Seq<char>, name: Seq<char>) -> bool {
    exists|i: int|
        0 <= i < result.resources.len() && (#[trigger] result.resources[i]).resource_type
            == resource_type && result.resources[i].name == name && result.resources[i].risk
            == "critical"@ && result.resources[i].permissions.contains("storage:*"@)
}

proof fn lemma_items_stay(
    document: Seq<char>,
    past: Seq<XmlCall>,
    items: Seq<Seq<char>>,
    marker: Option<Seq<char>>,
    fuel: int,
    item: Seq<char>,
)
    requires
        ascending(items),
        items.contains(item),
        items_from(document, past, items, marker, fuel) is Ok,
    ensures
        ascending(items_from(document, past, items, marker, fuel)->Ok_0 .0),
        items_from(document, past, items, marker, fuel)->Ok_0 .0.contains(item),
    decreases fuel,
{
    if fuel > 0 {
        match xml_event(document, past) {
            Ok(XmlEventView::Other) => {
                lemma_items_stay(document, past.push(XmlCall::Event), items, marker, fuel - 1, item);
            },
            Ok(XmlEventView::Start(name)) => {
                let begun = past.push(XmlCall::Event);
                let ended = begun.push(XmlCall::Text(name));
                if ascii_lower(name) == ascii_lower("name"@) {
                    match xml_text(document, begun, name) {
                        Ok(text) => {
                            lemma_placed(items, text);
                            let more = if text.len() > 0 {
                                placed(items, text)
                            } else {
                                items
                            };
                            assert(more.contains(item));
                            lemma_items_stay(document, ended, more, marker, fuel - 1, item);
                        },
                        Err(_) => {},
                    }
                } else if ascii_lower(name) == ascii_lower("nextmarker"@) {
                    match xml_text(document, begun, name) {
                        Ok(text) => {
                            lemma_items_stay(
                                document,
                                ended,
                                items,
                                if trimmed(text).len() > 0 {
                                    Some(text)
                                } else {
                                    marker
                                },
                                fuel - 1,
                                item,
                            );
                        },
                        Err(_) => {},
                    }
                } else {
                    lemma_items_stay(document, begun, items, marker, fuel - 1, item);
                }
            },
            _ => {},
        }
    }
}

/// No item of an earlier page is lost as later pages come, and a page that was refused ends a listing with
/// an error.
pub proof fn lemma_pages_add_up(
    service: StorageService,
    pages: Seq<StoragePage>,
    i: int,
    items: Seq<Seq<char>>,
    marker: Option<Seq<char>>,
    item: Seq<char>,
)
    requires
        0 <= i <= pages.len(),
        ascending(items),
        items.contains(item),
    ensures
        match listed_from(service, pages, i, items, marker) {
            Ok(ListingView::Done(all)) => all.contains(item),
            _ => true,
        },
        i < pages.len() && !pages[i].success ==> listed_from(service, pages, i, items, marker) is Err,
    decreases pages.len() - i,
{
    if i < pages.len() && pages[i].success {
        match page_items(pages[i].body@, items) {
            Ok((more, next)) => {
                lemma_items_stay(
                    pages[i].body@,
                    Seq::empty(),
                    items,
                    None,
                    pages[i].body@.len() as int + 1,
                    item,
                );
                match next {
                    Some(text) => {
                        lemma_pages_add_up(service, pages, i + 1, more, Some(text), item);
                    },
                    None => {},
                }
            },
            Err(_) => {},
        }
    }
}

} // verus!
