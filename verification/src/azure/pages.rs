//! Paged answers of Microsoft Graph and Azure Resource Manager.

use vstd::prelude::*;
use crate::model::result_view;
use crate::text::{
    cat2, cat5, shorten, shortened, trim_end_char, trim_start_char, without_leading,
    without_trailing,
};
use crate::url::{
    is_same_origin, join_url, joined_url, parse_url, parsed_url, same_origin, UrlParts,
    UrlPartsView,
};

verus! {

pub const MAX_PAGES: usize = 10;

pub const MAX_ERROR_BODY: usize = 300;

/// The two services whose answers come in pages.
#[derive(Clone, Copy, Debug, PartialEq, Eq, Structural)]
pub enum AzureApi {
    Graph,
    ResourceManager,
}

/// How a service is called in messages.
pub open spec fn service_name(api: AzureApi) -> Seq<char> {
    match api {
        AzureApi::Graph => "Microsoft Graph"@,
        AzureApi::ResourceManager => "Azure Resource Manager"@,
    }
}

fn name_of(api: AzureApi) -> (name: &'static str)
    ensures
        name@ == service_name(api),
{
    match api {
        AzureApi::Graph => "Microsoft Graph",
        AzureApi::ResourceManager => "Azure Resource Manager",
    }
}

/// What is said of a base URL that is no URL.
pub open spec fn bad_base(api: AzureApi) -> Seq<char> {
    match api {
        AzureApi::Graph => "Invalid Microsoft Graph base URL"@,
        AzureApi::ResourceManager => "Invalid Azure management base URL"@,
    }
}

/// The URL of a path under a base URL.
pub open spec fn appended(base_url: Seq<char>, path: Seq<char>) -> Result<UrlPartsView, Seq<char>> {
    match parsed_url(without_trailing(base_url, '/') + "/"@) {
        Err(_) => Err("Invalid Azure API URL: "@ + base_url),
        Ok(base) => match joined_url(base.text, without_leading(path, '/')) {
            Err(_) => Err("Invalid Azure API path: "@ + path),
            Ok(url) => Ok(url),
        },
    }
}

pub fn append_url(base_url: &str, path: &str) -> (url: Result<UrlParts, String>)
    ensures
        result_view(url) == appended(base_url@, path@),
{
    let base = cat2(trim_end_char(base_url, '/').as_str(), "/");
    match parse_url(base.as_str()) {
        Err(_) => Err(cat2("Invalid Azure API URL: ", base_url)),
        Ok(base) => match join_url(base.text.as_str(), trim_start_char(path, '/').as_str()) {
            Err(_) => Err(cat2("Invalid Azure API path: ", path)),
            Ok(url) => Ok(url),
        },
    }
}

/// What is said of a page on another origin.
pub open spec fn origin_error(api: AzureApi) -> Seq<char> {
    service_name(api) + " pagination"@ + " returned a pagination URL on a different origin"@
}

pub fn ensure_same_origin(base: &UrlParts, next: &UrlParts, api: AzureApi) -> (outcome: Result<
    (),
    String,
>)
    ensures
        match outcome {
            Ok(_) => same_origin(base@, next@),
            Err(error) => !same_origin(base@, next@) && error@ == origin_error(api),
        },
{
    if is_same_origin(base, next) {
        Ok(())
    } else {
        let operation = cat2(name_of(api), " pagination");
        Err(cat2(operation.as_str(), " returned a pagination URL on a different origin"))
    }
}

/// The URL that follows a page: where its link leads, if it has one. A link that is no URL by
/// itself is a path under the base URL.
pub open spec fn linked(api: AzureApi, base_url: Seq<char>, link: Option<Seq<char>>) -> Result<
    Option<UrlPartsView>,
    Seq<char>,
> {
    match link {
        None => Ok(None),
        Some(text) => match parsed_url(text) {
            Ok(url) => Ok(Some(url)),
            Err(_) => match appended(base_url, text) {
                Ok(url) => Ok(Some(url)),
                Err(_) => Err(service_name(api) + " returned an invalid pagination URL"@),
            },
        },
    }
}

/// Where the next page is to be had: the first under `path`, each later one where the page before
/// it links to.
pub open spec fn page_url(
    api: AzureApi,
    base_url: Seq<char>,
    path: Seq<char>,
    links: Seq<Option<Seq<char>>>,
) -> Result<Option<UrlPartsView>, Seq<char>> {
    if links.len() == 0 {
        match appended(base_url, path) {
            Ok(url) => Ok(Some(url)),
            Err(error) => Err(error),
        }
    } else {
        linked(api, base_url, links.last())
    }
}

/// The page to ask for after those whose links are given: none after the last or after ten, and an
/// error where it is not on the origin of the base URL.
pub open spec fn page_after(
    api: AzureApi,
    base_url: Seq<char>,
    path: Seq<char>,
    links: Seq<Option<Seq<char>>>,
) -> Result<Option<Seq<char>>, Seq<char>> {
    match parsed_url(base_url) {
        Err(_) => Err(bad_base(api)),
        Ok(base) => match page_url(api, base_url, path, links) {
            Err(error) => Err(error),
            Ok(None) => Ok(None),
            Ok(Some(url)) => if links.len() >= MAX_PAGES {
                Ok(None)
            } else if same_origin(base, url) {
                Ok(Some(url.text))
            } else {
                Err(origin_error(api))
            },
        },
    }
}

/// Optional links, as texts.
pub open spec fn link_texts(links: Seq<Option<String>>) -> Seq<Option<Seq<char>>> {
    links.map_values(|link: Option<String>| crate::text::opt_text(link))
}

fn follow_link(api: AzureApi, base_url: &str, link: &Option<String>) -> (url: Result<
    Option<UrlParts>,
    String,
>)
    ensures
        match url {
            Ok(Some(parts)) => linked(api, base_url@, crate::text::opt_text(*link)) == Ok::<
                Option<UrlPartsView>,
                Seq<char>,
            >(Some(parts@)),
            Ok(None) => linked(api, base_url@, crate::text::opt_text(*link)) == Ok::<
                Option<UrlPartsView>,
                Seq<char>,
            >(None),
            Err(error) => linked(api, base_url@, crate::text::opt_text(*link)) == Err::<
                Option<UrlPartsView>,
                Seq<char>,
            >(error@),
        },
{
    match link {
        None => Ok(None),
        Some(text) => match parse_url(text.as_str()) {
            Ok(url) => Ok(Some(url)),
            Err(_) => match append_url(base_url, text.as_str()) {
                Ok(url) => Ok(Some(url)),
                Err(_) => Err(cat2(name_of(api), " returned an invalid pagination URL")),
            },
        },
    }
}

/// Says which page to ask for, once the pages with `links` have come.
pub fn next_page(api: AzureApi, base_url: &str, path: &str, links: &Vec<Option<String>>) -> (url:
    Result<Option<String>, String>)
    ensures
        match url {
            Ok(Some(text)) => page_after(api, base_url@, path@, link_texts(links@)) == Ok::<
                Option<Seq<char>>,
                Seq<char>,
            >(Some(text@)),
            Ok(None) => page_after(api, base_url@, path@, link_texts(links@)) == Ok::<
                Option<Seq<char>>,
                Seq<char>,
            >(None),
            Err(error) => page_after(api, base_url@, path@, link_texts(links@)) == Err::<
                Option<Seq<char>>,
                Seq<char>,
            >(error@),
        },
{
    let base = match parse_url(base_url) {
        Ok(base) => base,
        Err(_) => {
            return match api {
                AzureApi::Graph => Err("Invalid Microsoft Graph base URL".to_owned()),
                AzureApi::ResourceManager => Err("Invalid Azure management base URL".to_owned()),
            };
        },
    };
    let next: Option<UrlParts> = if links.len() == 0 {
        match append_url(base_url, path) {
            Ok(url) => Some(url),
            Err(error) => {
                return Err(error);
            },
        }
    } else {
        assert(link_texts(links@).last() == crate::text::opt_text(links@[links@.len() - 1]));
        match follow_link(api, base_url, &links[links.len() - 1]) {
            Ok(url) => url,
            Err(error) => {
                return Err(error);
            },
        }
    };
    match next {
        None => Ok(None),
        Some(url) => if links.len() >= MAX_PAGES {
            Ok(None)
        } else {
            match ensure_same_origin(&base, &url, api) {
                Ok(_) => Ok(Some(url.text)),
                Err(error) => Err(error),
            }
        },
    }
}

/// What is said of a request that was answered with an error: the status and the start of the body.
pub open spec fn response_error(operation: Seq<char>, status: Seq<char>, body: Seq<char>) -> Seq<
    char,
> {
    operation + " failed with HTTP "@ + status + ": "@ + shortened(body, MAX_ERROR_BODY as int)
}

pub fn failed_response(operation: &str, status: &str, body: &str) -> (error: String)
    ensures
        error@ == response_error(operation@, status@, body@),
{
    cat5(operation, " failed with HTTP ", status, ": ", shorten(body, MAX_ERROR_BODY).as_str())
}

/// A token is sent to the origin of the base URL alone: every page that is asked for is there, and
/// no more than ten are.
pub proof fn lemma_pages_stay_on_origin(
    api: AzureApi,
    base_url: Seq<char>,
    path: Seq<char>,
    links: Seq<Option<Seq<char>>>,
)
    ensures
        page_after(api, base_url, path, links) matches Ok(Some(text)) ==> links.len() < MAX_PAGES
            && exists|base: UrlPartsView, url: UrlPartsView|
            {
                &&& parsed_url(base_url) == Ok::<UrlPartsView, Seq<char>>(base)
                &&& page_url(api, base_url, path, links) == Ok::<Option<UrlPartsView>, Seq<char>>(
                    Some(url),
                )
                &&& text == url.text
                &&& #[trigger] same_origin(base, url)
            },
{
    match page_after(api, base_url, path, links) {
        Ok(Some(text)) => {
            let base = parsed_url(base_url)->Ok_0;
            let url = page_url(api, base_url, path, links)->Ok_0->Some_0;
            assert(same_origin(base, url));
        },
        _ => {},
    }
}

} // verus!
