//! URLs as plain data.

use reqwest::Url;
use vstd::prelude::*;
use crate::model::{pairs, result_view};
use crate::text::{opt_text, str_eq};

verus! {

/// A URL: its text, and what decides its origin. The port is the one that the scheme implies where
/// the URL names none.
#[derive(Clone, Debug)]
pub struct UrlParts {
    pub text: String,
    pub scheme: String,
    pub host: Option<String>,
    pub port: Option<u16>,
}

/// What a `UrlParts` says.
#[verifier::ext_equal]
pub struct UrlPartsView {
    pub text: Seq<char>,
    pub scheme: Seq<char>,
    pub host: Option<Seq<char>>,
    pub port: Option<u16>,
}

impl View for UrlParts {
    type V = UrlPartsView;

    open spec fn view(&self) -> UrlPartsView {
        UrlPartsView {
            text: self.text@,
            scheme: self.scheme@,
            host: opt_text(self.host),
            port: self.port,
        }
    }
}

/// The URL that a text writes, or the text of the error.
pub uninterp spec fn parsed_url(text: Seq<char>) -> Result<UrlPartsView, Seq<char>>;

/// `Url::parse`: what a text parses to, and the error where it is no absolute URL, depend on the
/// text alone.
#[verifier::external_body]
pub(crate) fn parse_url(text: &str) -> (url: Result<UrlParts, String>)
    ensures
        result_view(url) == parsed_url(text@),
{
    let url = Url::parse(text).map_err(|error| error.to_string())?;
    Ok(UrlParts {
        text: url.as_str().to_owned(),
        scheme: url.scheme().to_owned(),
        host: url.host_str().map(str::to_owned),
        port: url.port_or_known_default(),
    })
}

/// The URL that a reference leads to from the URL that `base` writes, or the text of the error.
pub uninterp spec fn joined_url(base: Seq<char>, reference: Seq<char>) -> Result<
    UrlPartsView,
    Seq<char>,
>;

/// `Url::join` on the URL that `base` writes: where a reference leads, and the error where it leads
/// nowhere, depend on the two texts alone.
#[verifier::external_body]
pub(crate) fn join_url(base: &str, reference: &str) -> (url: Result<UrlParts, String>)
    ensures
        result_view(url) == joined_url(base@, reference@),
{
    let base = Url::parse(base).map_err(|error| error.to_string())?;
    let url = base.join(reference).map_err(|error| error.to_string())?;
    Ok(UrlParts {
        text: url.as_str().to_owned(),
        scheme: url.scheme().to_owned(),
        host: url.host_str().map(str::to_owned),
        port: url.port_or_known_default(),
    })
}

/// Whether two URLs have one origin: scheme, host and port.
pub open spec fn same_origin(a: UrlPartsView, b: UrlPartsView) -> bool {
    a.scheme == b.scheme && a.host == b.host && a.port == b.port
}

pub fn is_same_origin(a: &UrlParts, b: &UrlParts) -> (same: bool)
    ensures
        same == same_origin(a@, b@),
{
    let hosts: bool = match (&a.host, &b.host) {
        (Some(x), Some(y)) => str_eq(x.as_str(), y.as_str()),
        (None, None) => true,
        _ => false,
    };
    let ports: bool = match (a.port, b.port) {
        (Some(x), Some(y)) => x == y,
        (None, None) => true,
        _ => false,
    };
    str_eq(a.scheme.as_str(), b.scheme.as_str()) && hosts && ports
}

/// The text of a URL with parameters added to its query, or the text of the error.
pub uninterp spec fn url_with_params(text: Seq<char>, params: Seq<(Seq<char>, Seq<char>)>) -> Result<
    Seq<char>,
    Seq<char>,
>;

/// `Url::parse_with_params`: the URL depends on the text and on the names and values of the
/// parameters alone.
#[verifier::external_body]
pub(crate) fn parse_url_with_params(text: &str, params: &Vec<(String, String)>) -> (url: Result<
    String,
    String,
>)
    ensures
        result_view(url) == url_with_params(text@, pairs(params@)),
{
    match Url::parse_with_params(text, params) {
        Ok(url) => Ok(String::from(url)),
        Err(error) => Err(error.to_string()),
    }
}

/// The text of a URL with one more segment at the end of its path.
pub uninterp spec fn url_with_segment(text: Seq<char>, segment: Seq<char>) -> Option<Seq<char>>;

/// `PathSegmentsMut::push` on the URL that a text writes: the URL depends on the text and on the
/// segment alone, and there is none where the text is no URL or the URL has no path to extend.
#[verifier::external_body]
pub(crate) fn push_segment(text: &str, segment: &str) -> (url: Option<String>)
    ensures
        opt_text(url) == url_with_segment(text@, segment@),
{
    let mut url = Url::parse(text).ok()?;
    url.path_segments_mut().ok()?.push(segment);
    Some(String::from(url))
}

} // verus!
