//! Azure DevOps personal access tokens.

use vstd::prelude::*;
use crate::encoding::{base64_text, encode_base64};
use crate::mapping::{build_recommendations, recommendations};
use crate::model::{
    binding, empty_access_token_details, empty_permission_summary, exposure, no_views, one_view,
    pairs, push_view, views, AccessMapResult, AccessMapResultView, AccessSummary, AccessSummaryView,
    AccessTokenDetails, AccessTokenDetailsView, PermissionSummary, PermissionSummaryView,
    ResourceExposure, ResourceExposureView, RoleBinding, Severity,
};
use crate::order::{
    in_order, is_less, lemma_in_order, lemma_less_irreflexive, lemma_less_total,
    lemma_less_transitive, sort_dedup, text_less,
};
use crate::text::{
    ascii_lower, bare_text, cat2, cat3, cat4, cat5, comma_items, copy_opt, copy_texts, cut, either,
    eq_ignore_ascii_case, filled_text, is_among, keep_bare, keep_filled, lemma_parts_are_cut,
    no_texts, one_text, opt_text, or_text, pieces, push_text, split, split_commas, split_once,
    split_whitespace, str_eq, text_or, texts, trim, trim_end_char, trim_start_char, trimmed,
    unwrap_text, without_leading, without_trailing, words,
};
use crate::url::{parse_url_with_params, push_segment, url_with_params, url_with_segment};

verus! {

pub const AZURE_DEVOPS_API_VERSION: &'static str = "7.1-preview.1";

pub const AZURE_DEVOPS_TOKEN_ADMIN_VERSION: &'static str = "7.1";

/// The profile of a user.
#[derive(Debug)]
pub struct AzureDevopsProfile {
    pub display_name: Option<String>,
    pub public_alias: Option<String>,
    pub email_address: Option<String>,
    pub id: Option<String>,
}

/// The profile of a user with the headers that came with it.
#[derive(Debug)]
pub struct ProfileReply {
    pub profile: AzureDevopsProfile,
    /// The `x-vss-token-scopes` header.
    pub scopes: Option<String>,
    /// The `x-vss-userdata` header.
    pub user_data: Option<String>,
}

/// A project.
#[derive(Debug)]
pub struct AzureDevopsProject {
    pub name: String,
    pub visibility: Option<String>,
}

/// A repository and the name of its project.
#[derive(Debug)]
pub struct AzureDevopsRepo {
    pub name: String,
    pub is_disabled: bool,
    pub project: Option<String>,
}

/// A personal access token as its administration lists it.
#[derive(Debug)]
pub struct AzureDevopsPat {
    pub display_name: Option<String>,
    pub valid_from: Option<String>,
    pub valid_to: Option<String>,
    pub user_id: Option<String>,
    pub scope: Option<String>,
}

/// What the headers say of a user.
#[derive(Debug)]
pub struct AzureDevopsUserData {
    pub user_id: Option<String>,
    pub email: Option<String>,
}

/// The name of an organization: the last part of what is given, without slashes around it.
pub open spec fn org_name(raw: Seq<char>) -> Seq<char> {
    trimmed(
        pieces(without_trailing(without_leading(trimmed(raw), '/'), '/'), '/').last(),
    )
}

pub fn normalize_org(raw: &str) -> (org: String)
    ensures
        org@ == org_name(raw@),
{
    let begun = trim_start_char(trim(raw).as_str(), '/');
    let bare = trim_end_char(begun.as_str(), '/');
    let parts = split(bare.as_str(), '/');
    assert(texts(parts@).last() == parts@[parts@.len() - 1]@);
    trim(parts[parts.len() - 1].as_str())
}

/// Gives the name of an organization, or an error where nothing is left of it.
pub fn check_organization(raw: &str) -> (org: Result<String, String>)
    ensures
        match org {
            Ok(name) => org_name(raw@).len() > 0 && name@ == org_name(raw@),
            Err(error) => org_name(raw@).len() == 0 && error@
                == "Azure DevOps access-map requires a valid organization name"@,
        },
{
    let name = normalize_org(raw);
    if name.as_str().is_empty() {
        Err("Azure DevOps access-map requires a valid organization name".to_owned())
    } else {
        Ok(name)
    }
}

/// The header that carries a token.
pub open spec fn auth_header(token: Seq<char>) -> Seq<char> {
    "Basic "@ + base64_text(vstd::utf8::encode_utf8(":"@ + token))
}

pub fn build_auth_header(token: &str) -> (header: String)
    ensures
        header@ == auth_header(token@),
{
    let pair = cat2(":", token);
    cat2("Basic ", encode_base64(pair.as_str().as_bytes()).as_str())
}

/// What the `x-vss-userdata` header says of a user: an ID and, after a colon, an address.
pub open spec fn user_data_in(value: Option<Seq<char>>) -> (Option<Seq<char>>, Option<Seq<char>>) {
    match value {
        None => (None, None),
        Some(text) => match cut(text, ":"@) {
            Some((id, email)) => (bare_text(Some(id)), bare_text(Some(email))),
            None => (bare_text(Some(text)), None),
        },
    }
}

pub fn parse_user_data(value: &Option<String>) -> (data: AzureDevopsUserData)
    ensures
        (opt_text(data.user_id), opt_text(data.email)) == user_data_in(opt_text(*value)),
{
    match value {
        None => AzureDevopsUserData { user_id: None, email: None },
        Some(text) => match split_once(text.as_str(), ":") {
            Some((id, email)) => AzureDevopsUserData {
                user_id: keep_bare(&Some(id)),
                email: keep_bare(&Some(email)),
            },
            None => AzureDevopsUserData { user_id: keep_bare(&Some(text.clone())), email: None },
        },
    }
}

/// Where the identity behind a profile can be looked up: by its ID, its address, its alias or its
/// name, as far as there is one.
pub open spec fn identity_attempts(profile: AzureDevopsProfile) -> Seq<(bool, Seq<char>)> {
    (match filled_text(opt_text(profile.id)) {
        Some(id) => seq![(true, id)],
        None => Seq::empty(),
    }) + (match filled_text(opt_text(profile.email_address)) {
        Some(email) => seq![(false, email)],
        None => Seq::empty(),
    }) + (match filled_text(opt_text(profile.public_alias)) {
        Some(alias) => seq![(false, alias)],
        None => Seq::empty(),
    }) + (match filled_text(opt_text(profile.display_name)) {
        Some(name) => seq![(false, name)],
        None => Seq::empty(),
    })
}

/// Attempts, as views.
pub open spec fn attempt_views(list: Seq<(bool, String)>) -> Seq<(bool, Seq<char>)> {
    list.map_values(|entry: (bool, String)| (entry.0, entry.1@))
}

fn list_attempts(profile: &AzureDevopsProfile) -> (list: Vec<(bool, String)>)
    ensures
        attempt_views(list@) == identity_attempts(*profile),
{
    let mut list: Vec<(bool, String)> = Vec::new();
    match keep_filled(&profile.id) {
        Some(id) => list.push((true, id)),
        None => {},
    }
    match keep_filled(&profile.email_address) {
        Some(email) => list.push((false, email)),
        None => {},
    }
    match keep_filled(&profile.public_alias) {
        Some(alias) => list.push((false, alias)),
        None => {},
    }
    match keep_filled(&profile.display_name) {
        Some(name) => list.push((false, name)),
        None => {},
    }
    assert(attempt_views(list@) =~= identity_attempts(*profile));
    list
}

/// The URL of a lookup.
pub open spec fn attempt_url(organization: Seq<char>, attempt: (bool, Seq<char>)) -> Result<
    Seq<char>,
    Seq<char>,
> {
    let start = seq![
        ("api-version"@, AZURE_DEVOPS_TOKEN_ADMIN_VERSION@),
        ("queryMembership"@, "None"@),
    ];
    url_with_params(
        "https://vssps.dev.azure.com/"@ + organization + "/_apis/identities"@,
        if attempt.0 {
            start.push(("identityIds"@, attempt.1))
        } else {
            start.push(("searchFilter"@, "General"@)).push(("filterValue"@, attempt.1))
        },
    )
}

fn make_attempt_url(organization: &str, by_id: bool, value: &str) -> (url: Result<String, String>)
    ensures
        crate::model::result_view(url) == attempt_url(organization@, (by_id, value@)),
{
    let mut params: Vec<(String, String)> = Vec::new();
    params.push(("api-version".to_owned(), AZURE_DEVOPS_TOKEN_ADMIN_VERSION.to_owned()));
    params.push(("queryMembership".to_owned(), "None".to_owned()));
    if by_id {
        params.push(("identityIds".to_owned(), value.to_owned()));
        assert(pairs(params@) =~= seq![
            ("api-version"@, AZURE_DEVOPS_TOKEN_ADMIN_VERSION@),
            ("queryMembership"@, "None"@),
        ].push(("identityIds"@, value@)));
    } else {
        params.push(("searchFilter".to_owned(), "General".to_owned()));
        params.push(("filterValue".to_owned(), value.to_owned()));
        assert(pairs(params@) =~= seq![
            ("api-version"@, AZURE_DEVOPS_TOKEN_ADMIN_VERSION@),
            ("queryMembership"@, "None"@),
        ].push(("searchFilter"@, "General"@)).push(("filterValue"@, value@)));
    }
    let base = cat3("https://vssps.dev.azure.com/", organization, "/_apis/identities");
    parse_url_with_params(base.as_str(), &params)
}

/// What came of a lookup: nothing that can be used, a refusal, or identities, each with its
/// descriptor if it has one.
#[derive(Debug)]
pub enum IdentityReply {
    Failed,
    Refused,
    Identities(Vec<Option<String>>),
}

/// How far the search for a descriptor has come.
#[derive(Debug)]
pub enum DescriptorSearch {
    Ask(String),
    Found(String),
    NotFound,
}

/// What a `DescriptorSearch` says.
#[verifier::ext_equal]
pub enum DescriptorSearchView {
    Ask(Seq<char>),
    Found(Seq<char>),
    NotFound,
}

impl View for DescriptorSearch {
    type V = DescriptorSearchView;

    open spec fn view(&self) -> DescriptorSearchView {
        match self {
            DescriptorSearch::Ask(url) => DescriptorSearchView::Ask(url@),
            DescriptorSearch::Found(descriptor) => DescriptorSearchView::Found(descriptor@),
            DescriptorSearch::NotFound => DescriptorSearchView::NotFound,
        }
    }
}

/// The first descriptor at or after the `i`-th identity that is more than white space.
pub open spec fn first_descriptor(list: Seq<Option<String>>, i: int) -> Option<Seq<char>>
    decreases list.len() - i,
{
    if i < 0 || i >= list.len() {
        None
    } else {
        match filled_text(opt_text(list[i])) {
            Some(descriptor) => Some(descriptor),
            None => first_descriptor(list, i + 1),
        }
    }
}

fn find_descriptor(list: &Vec<Option<String>>) -> (descriptor: Option<String>)
    ensures
        opt_text(descriptor) == first_descriptor(list@, 0),
{
    let mut i: usize = 0;
    while i < list.len()
        invariant
            i <= list@.len(),
            first_descriptor(list@, 0) == first_descriptor(list@, i as int),
        decreases list@.len() - i,
    {
        match keep_filled(&list[i]) {
            Some(descriptor) => {
                return Some(descriptor);
            },
            None => {},
        }
        i = i + 1;
    }
    None
}

/// What the search comes to from the `i`-th attempt on: the first descriptor that an attempt
/// brings. A refusal leads to the next attempt; anything else that fails ends the search.
pub open spec fn searched_from(
    organization: Seq<char>,
    attempts: Seq<(bool, Seq<char>)>,
    replies: Seq<IdentityReply>,
    i: int,
) -> DescriptorSearchView
    decreases attempts.len() - i,
{
    if i < 0 || i >= attempts.len() {
        DescriptorSearchView::NotFound
    } else {
        match attempt_url(organization, attempts[i]) {
            Err(_) => DescriptorSearchView::NotFound,
            Ok(url) => if i >= replies.len() {
                DescriptorSearchView::Ask(url)
            } else {
                match replies[i] {
                    IdentityReply::Failed => DescriptorSearchView::NotFound,
                    IdentityReply::Refused => searched_from(organization, attempts, replies, i + 1),
                    IdentityReply::Identities(list) => match first_descriptor(list@, 0) {
                        Some(descriptor) => DescriptorSearchView::Found(descriptor),
                        None => searched_from(organization, attempts, replies, i + 1),
                    },
                }
            },
        }
    }
}

/// Looks for the descriptor of the identity behind a profile in what was answered so far, and says
/// what to ask next.
pub fn fetch_subject_descriptor(
    organization: &str,
    profile: &AzureDevopsProfile,
    replies: &Vec<IdentityReply>,
) -> (search: DescriptorSearch)
    ensures
        search@ == searched_from(organization@, identity_attempts(*profile), replies@, 0),
{
    let attempts = list_attempts(profile);
    let ghost all = identity_attempts(*profile);
    let mut i: usize = 0;
    while i < attempts.len()
        invariant
            i <= attempts@.len(),
            attempt_views(attempts@) == all,
            all == identity_attempts(*profile),
            searched_from(organization@, all, replies@, 0) == searched_from(
                organization@,
                all,
                replies@,
                i as int,
            ),
        decreases attempts@.len() - i,
    {
        assert(all[i as int] == (attempts@[i as int].0, attempts@[i as int].1@));
        match make_attempt_url(organization, attempts[i].0, attempts[i].1.as_str()) {
            Err(_) => {
                return DescriptorSearch::NotFound;
            },
            Ok(url) => {
                if i >= replies.len() {
                    return DescriptorSearch::Ask(url);
                }
            },
        }
        match &replies[i] {
            IdentityReply::Failed => {
                return DescriptorSearch::NotFound;
            },
            IdentityReply::Refused => {},
            IdentityReply::Identities(list) => match find_descriptor(list) {
                Some(descriptor) => {
                    return DescriptorSearch::Found(descriptor);
                },
                None => {},
            },
        }
        i = i + 1;
    }
    DescriptorSearch::NotFound
}

/// Where the tokens of an identity are listed.
pub open spec fn pats_url(organization: Seq<char>, descriptor: Seq<char>) -> Option<Seq<char>> {
    match url_with_segment(
        "https://vssps.dev.azure.com/"@ + organization
            + "/_apis/tokenadmin/personalaccesstokens/"@,
        descriptor,
    ) {
        None => None,
        Some(url) => match url_with_params(
            url,
            seq![("api-version"@, AZURE_DEVOPS_TOKEN_ADMIN_VERSION@)],
        ) {
            Ok(full) => Some(full),
            Err(_) => None,
        },
    }
}

/// Says where the tokens of an identity are listed.
pub fn pat_list_url(organization: &str, descriptor: &str) -> (url: Option<String>)
    ensures
        opt_text(url) == pats_url(organization@, descriptor@),
{
    let base = cat3(
        "https://vssps.dev.azure.com/",
        organization,
        "/_apis/tokenadmin/personalaccesstokens/",
    );
    match push_segment(base.as_str(), descriptor) {
        None => None,
        Some(url) => {
            let mut params: Vec<(String, String)> = Vec::new();
            params.push(("api-version".to_owned(), AZURE_DEVOPS_TOKEN_ADMIN_VERSION.to_owned()));
            assert(pairs(params@) =~= seq![
                ("api-version"@, AZURE_DEVOPS_TOKEN_ADMIN_VERSION@),
            ]);
            match parse_url_with_params(url.as_str(), &params) {
                Ok(full) => Some(full),
                Err(_) => None,
            }
        },
    }
}

/// The scopes that a token lists with white space between them.
pub open spec fn pat_scopes(scope: Option<Seq<char>>) -> Seq<Seq<char>> {
    match scope {
        Some(text) => words(text),
        None => Seq::empty(),
    }
}

pub fn parse_pat_scopes(scope: &Option<String>) -> (scopes: Vec<String>)
    ensures
        texts(scopes@) == pat_scopes(opt_text(*scope)),
{
    match scope {
        Some(text) => split_whitespace(text.as_str()),
        None => no_texts(),
    }
}

/// Whether a token may belong to a user: where either is not known, it may.
pub open spec fn may_belong(pat: AzureDevopsPat, user_id: Option<Seq<char>>) -> bool {
    match (user_id, pat.user_id) {
        (Some(user), Some(owner)) => owner@ == user,
        _ => true,
    }
}

/// The places of those of the first `n` tokens that may belong to a user.
pub open spec fn candidates_upto(pats: Seq<AzureDevopsPat>, user_id: Option<Seq<char>>, n: int) -> Seq<
    int,
>
    decreases n,
{
    if n <= 0 {
        Seq::empty()
    } else if may_belong(pats[n - 1], user_id) {
        candidates_upto(pats, user_id, n - 1).push(n - 1)
    } else {
        candidates_upto(pats, user_id, n - 1)
    }
}

/// Whether a token has all of the scopes.
pub open spec fn has_scopes(pat: AzureDevopsPat, desired: Seq<Seq<char>>) -> bool {
    let scopes = in_order(pat_scopes(opt_text(pat.scope)));
    scopes.len() > 0 && forall|k: int|
        0 <= k < desired.len() ==> scopes.contains(#[trigger] desired[k])
}

/// Those of the first `n` candidates that have all of the scopes.
pub open spec fn matching_upto(
    pats: Seq<AzureDevopsPat>,
    candidates: Seq<int>,
    desired: Seq<Seq<char>>,
    n: int,
) -> Seq<int>
    decreases n,
{
    if n <= 0 {
        Seq::empty()
    } else if has_scopes(pats[candidates[n - 1]], desired) {
        matching_upto(pats, candidates, desired, n - 1).push(candidates[n - 1])
    } else {
        matching_upto(pats, candidates, desired, n - 1)
    }
}

/// Since when a token is valid.
pub open spec fn since(pat: AzureDevopsPat) -> Seq<char> {
    text_or(pat.valid_from, ""@)
}

/// The latest of the first `n` candidates: of several that are valid since one time, the last.
pub open spec fn latest_upto(pats: Seq<AzureDevopsPat>, candidates: Seq<int>, n: int) -> Option<int>
    decreases n,
{
    if n <= 0 {
        None
    } else {
        match latest_upto(pats, candidates, n - 1) {
            None => Some(candidates[n - 1]),
            Some(best) => if text_less(since(pats[candidates[n - 1]]), since(pats[best])) {
                Some(best)
            } else {
                Some(candidates[n - 1])
            },
        }
    }
}

/// The place of the token that is most likely the one in use: among those that may belong to the
/// user, and among those with the scopes if there is one, the latest.
pub open spec fn chosen_pat(
    pats: Seq<AzureDevopsPat>,
    scopes: Seq<Seq<char>>,
    user_id: Option<Seq<char>>,
) -> Option<int> {
    let candidates = candidates_upto(pats, user_id, pats.len() as int);
    let desired = in_order(scopes);
    let matching = matching_upto(pats, candidates, desired, candidates.len() as int);
    if desired.len() > 0 && matching.len() > 0 {
        latest_upto(pats, matching, matching.len() as int)
    } else {
        latest_upto(pats, candidates, candidates.len() as int)
    }
}

/// Places, as integers.
pub open spec fn places(list: Seq<usize>) -> Seq<int> {
    list.map_values(|k: usize| k as int)
}

fn list_candidates(pats: &Vec<AzureDevopsPat>, user_id: &Option<String>) -> (list: Vec<usize>)
    ensures
        places(list@) == candidates_upto(pats@, opt_text(*user_id), pats@.len() as int),
        forall|k: int| 0 <= k < list@.len() ==> #[trigger] list@[k] < pats@.len(),
{
    let mut list: Vec<usize> = Vec::new();
    let mut i: usize = 0;
    assert(places(list@) =~= Seq::<int>::empty());
    while i < pats.len()
        invariant
            i <= pats@.len(),
            places(list@) == candidates_upto(pats@, opt_text(*user_id), i as int),
            forall|k: int| 0 <= k < list@.len() ==> #[trigger] list@[k] < pats@.len(),
        decreases pats@.len() - i,
    {
        let belongs: bool = match (user_id, &pats[i].user_id) {
            (Some(user), Some(owner)) => str_eq(owner.as_str(), user.as_str()),
            _ => true,
        };
        if belongs {
            let ghost before = places(list@);
            list.push(i);
            assert(places(list@) =~= before.push(i as int));
        }
        i = i + 1;
    }
    list
}

fn covers(pat: &AzureDevopsPat, desired: &Vec<String>) -> (yes: bool)
    ensures
        yes == has_scopes(*pat, texts(desired@)),
{
    let scopes = sort_dedup(parse_pat_scopes(&pat.scope));
    if scopes.len() == 0 {
        return false;
    }
    let mut i: usize = 0;
    while i < desired.len()
        invariant
            i <= desired@.len(),
            texts(scopes@) == in_order(pat_scopes(opt_text(pat.scope))),
            forall|k: int|
                0 <= k < i ==> texts(scopes@).contains(#[trigger] texts(desired@)[k]),
        decreases desired@.len() - i,
    {
        if !is_among(&scopes, desired[i].as_str()) {
            assert(!texts(scopes@).contains(texts(desired@)[i as int]));
            return false;
        }
        i = i + 1;
    }
    true
}

fn list_matching(pats: &Vec<AzureDevopsPat>, candidates: &Vec<usize>, desired: &Vec<String>) -> (list:
    Vec<usize>)
    requires
        forall|k: int| 0 <= k < candidates@.len() ==> #[trigger] candidates@[k] < pats@.len(),
    ensures
        places(list@) == matching_upto(
            pats@,
            places(candidates@),
            texts(desired@),
            candidates@.len() as int,
        ),
        forall|k: int| 0 <= k < list@.len() ==> #[trigger] list@[k] < pats@.len(),
{
    let mut list: Vec<usize> = Vec::new();
    let mut i: usize = 0;
    assert(places(list@) =~= Seq::<int>::empty());
    while i < candidates.len()
        invariant
            i <= candidates@.len(),
            forall|k: int| 0 <= k < candidates@.len() ==> #[trigger] candidates@[k] < pats@.len(),
            places(list@) == matching_upto(
                pats@,
                places(candidates@),
                texts(desired@),
                i as int,
            ),
            forall|k: int| 0 <= k < list@.len() ==> #[trigger] list@[k] < pats@.len(),
        decreases candidates@.len() - i,
    {
        let place: usize = candidates[i];
        assert(places(candidates@)[i as int] == place as int);
        if covers(&pats[place], desired) {
            let ghost before = places(list@);
            list.push(place);
            assert(places(list@) =~= before.push(place as int));
        }
        i = i + 1;
    }
    list
}

fn find_latest(pats: &Vec<AzureDevopsPat>, candidates: &Vec<usize>) -> (best: Option<usize>)
    requires
        forall|k: int| 0 <= k < candidates@.len() ==> #[trigger] candidates@[k] < pats@.len(),
    ensures
        match best {
            Some(k) => k < pats@.len() && latest_upto(
                pats@,
                places(candidates@),
                candidates@.len() as int,
            ) == Some(k as int),
            None => latest_upto(pats@, places(candidates@), candidates@.len() as int) is None,
        },
{
    let mut best: Option<usize> = None;
    let mut i: usize = 0;
    while i < candidates.len()
        invariant
            i <= candidates@.len(),
            forall|k: int| 0 <= k < candidates@.len() ==> #[trigger] candidates@[k] < pats@.len(),
            match best {
                Some(k) => k < pats@.len() && latest_upto(
                    pats@,
                    places(candidates@),
                    i as int,
                ) == Some(k as int),
                None => latest_upto(pats@, places(candidates@), i as int) is None,
            },
        decreases candidates@.len() - i,
    {
        let place: usize = candidates[i];
        assert(places(candidates@)[i as int] == place as int);
        match best {
            None => {
                best = Some(place);
            },
            Some(k) => {
                let here = unwrap_text(&pats[place].valid_from, "");
                let there = unwrap_text(&pats[k].valid_from, "");
                if !is_less(here.as_str(), there.as_str()) {
                    best = Some(place);
                }
            },
        }
        i = i + 1;
    }
    best
}

pub fn select_matching_pat<'a>(
    pats: &'a Vec<AzureDevopsPat>,
    scopes: &Vec<String>,
    user_id: &Option<String>,
) -> (pat: Option<&'a AzureDevopsPat>)
    ensures
        match pat {
            Some(found) => match chosen_pat(pats@, texts(scopes@), opt_text(*user_id)) {
                Some(k) => 0 <= k < pats@.len() && *found == pats@[k],
                None => false,
            },
            None => chosen_pat(pats@, texts(scopes@), opt_text(*user_id)) is None,
        },
{
    let candidates = list_candidates(pats, user_id);
    let desired = sort_dedup(copy_texts(scopes));
    let matching = list_matching(pats, &candidates, &desired);
    let best = if desired.len() > 0 && matching.len() > 0 {
        find_latest(pats, &matching)
    } else {
        find_latest(pats, &candidates)
    };
    match best {
        Some(k) => Some(&pats[k]),
        None => None,
    }
}

/// Where the repositories of an organization are listed.
pub fn repositories_url(organization: &str) -> (url: String)
    ensures
        url@ == "https://dev.azure.com/"@ + organization@ + "/_apis/git/repositories?api-version="@
            + AZURE_DEVOPS_API_VERSION@,
{
    cat4(
        "https://dev.azure.com/",
        organization,
        "/_apis/git/repositories?api-version=",
        AZURE_DEVOPS_API_VERSION,
    )
}

/// Where the projects of an organization are listed.
pub fn projects_url(organization: &str) -> (url: String)
    ensures
        url@ == "https://dev.azure.com/"@ + organization@ + "/_apis/projects?api-version="@
            + AZURE_DEVOPS_API_VERSION@,
{
    cat4(
        "https://dev.azure.com/",
        organization,
        "/_apis/projects?api-version=",
        AZURE_DEVOPS_API_VERSION,
    )
}

/// Where the repositories of a project are listed.
pub open spec fn project_url(organization: Seq<char>, project: Seq<char>) -> Seq<char> {
    "https://dev.azure.com/"@ + organization + "/"@ + project
        + "/_apis/git/repositories?api-version="@ + AZURE_DEVOPS_API_VERSION@
}

/// Where the repositories of the first `n` projects that have a name are listed.
pub open spec fn project_urls_upto(organization: Seq<char>, projects: Seq<AzureDevopsProject>, n: int) -> Seq<
    Seq<char>,
>
    decreases n,
{
    if n <= 0 {
        Seq::empty()
    } else if trimmed(projects[n - 1].name@).len() > 0 {
        project_urls_upto(organization, projects, n - 1).push(
            project_url(organization, trimmed(projects[n - 1].name@)),
        )
    } else {
        project_urls_upto(organization, projects, n - 1)
    }
}

/// Says which listings are still to be asked for once `repos` were found: those of the single
/// projects, where the organization showed no repository.
pub fn list_repositories(
    organization: &str,
    projects: &Vec<AzureDevopsProject>,
    repos: &Vec<AzureDevopsRepo>,
) -> (urls: Vec<String>)
    ensures
        texts(urls@) == if repos@.len() > 0 {
            Seq::<Seq<char>>::empty()
        } else {
            project_urls_upto(organization@, projects@, projects@.len() as int)
        },
{
    let mut urls = no_texts();
    if repos.len() > 0 {
        return urls;
    }
    let mut i: usize = 0;
    while i < projects.len()
        invariant
            i <= projects@.len(),
            texts(urls@) == project_urls_upto(organization@, projects@, i as int),
        decreases projects@.len() - i,
    {
        let name = trim(projects[i].name.as_str());
        if !name.as_str().is_empty() {
            let head = cat5(
                "https://dev.azure.com/",
                organization,
                "/",
                name.as_str(),
                "/_apis/git/repositories?api-version=",
            );
            push_text(&mut urls, cat2(head.as_str(), AZURE_DEVOPS_API_VERSION));
        }
        i = i + 1;
    }
    urls
}

/// Whether a project is private.
pub open spec fn is_private(project: AzureDevopsProject) -> bool {
    match project.visibility {
        Some(visibility) => ascii_lower(visibility@) == ascii_lower("private"@),
        None => false,
    }
}

fn check_private(project: &AzureDevopsProject) -> (yes: bool)
    ensures
        yes == is_private(*project),
{
    match &project.visibility {
        Some(visibility) => eq_ignore_ascii_case(visibility.as_str(), "private"),
        None => false,
    }
}

/// How grave it is what a token shows.
pub open spec fn devops_severity(projects: Seq<AzureDevopsProject>, repos: nat) -> Severity {
    if repos > 0 || exists|k: int| 0 <= k < projects.len() && is_private(#[trigger] projects[k]) {
        Severity::Medium
    } else {
        Severity::Low
    }
}

pub fn derive_severity(projects: &Vec<AzureDevopsProject>, repos: &Vec<AzureDevopsRepo>) -> (severity:
    Severity)
    ensures
        severity == devops_severity(projects@, repos@.len()),
{
    if repos.len() > 0 {
        return Severity::Medium;
    }
    let mut i: usize = 0;
    while i < projects.len()
        invariant
            i <= projects@.len(),
            forall|k: int| 0 <= k < i ==> !is_private(#[trigger] projects@[k]),
        decreases projects@.len() - i,
    {
        if check_private(&projects[i]) {
            assert(is_private(projects@[i as int]));
            return Severity::Medium;
        }
        i = i + 1;
    }
    Severity::Low
}

/// How a repository is called: with its project where that is known.
pub open spec fn repo_name(repo: AzureDevopsRepo) -> Seq<char> {
    match repo.project {
        Some(project) => if project@.len() > 0 {
            project@ + "/"@ + repo.name@
        } else {
            repo.name@
        },
        None => repo.name@,
    }
}

/// The resource that stands for a repository.
pub open spec fn repo_exposure(repo: AzureDevopsRepo) -> ResourceExposureView {
    exposure(
        "repository"@,
        repo_name(repo),
        seq!["repo:read"@],
        if repo.is_disabled {
            Severity::Low
        } else {
            Severity::Medium
        },
        if repo.is_disabled {
            "Repository is disabled but visible to the token"@
        } else {
            "Accessible Azure DevOps repository"@
        },
    )
}

/// Whether a resource of a name is among a list.
pub open spec fn has_name(list: Seq<ResourceExposureView>, name: Seq<char>) -> bool {
    exists|k: int| 0 <= k < list.len() && (#[trigger] list[k]).name == name
}

/// The resources that stand for the first `n` repositories, each name once.
pub open spec fn repos_upto(repos: Seq<AzureDevopsRepo>, n: int) -> Seq<ResourceExposureView>
    decreases n,
{
    if n <= 0 {
        Seq::empty()
    } else {
        let before = repos_upto(repos, n - 1);
        if has_name(before, repo_name(repos[n - 1])) {
            before
        } else {
            before.push(repo_exposure(repos[n - 1]))
        }
    }
}

/// The resource that stands for a project.
pub open spec fn project_exposure(project: AzureDevopsProject) -> ResourceExposureView {
    exposure(
        "project"@,
        project.name@,
        seq!["project:read"@],
        if is_private(project) {
            Severity::Medium
        } else {
            Severity::Low
        },
        if is_private(project) {
            "Accessible private Azure DevOps project"@
        } else {
            "Accessible public Azure DevOps project"@
        },
    )
}

/// The resources that stand for the first `n` projects.
pub open spec fn projects_upto(projects: Seq<AzureDevopsProject>, n: int) -> Seq<ResourceExposureView>
    decreases n,
{
    if n <= 0 {
        Seq::empty()
    } else {
        projects_upto(projects, n - 1).push(project_exposure(projects[n - 1]))
    }
}

/// The resources that a token shows: repositories, or else projects, or else the organization.
pub open spec fn devops_resources(
    org: Seq<char>,
    projects: Seq<AzureDevopsProject>,
    repos: Seq<AzureDevopsRepo>,
) -> Seq<ResourceExposureView> {
    if repos.len() > 0 {
        repos_upto(repos, repos.len() as int)
    } else if projects.len() > 0 {
        projects_upto(projects, projects.len() as int)
    } else {
        seq![
            exposure(
                "organization"@,
                org,
                Seq::empty(),
                Severity::Low,
                "Azure DevOps organization associated with the token"@,
            ),
        ]
    }
}

fn is_named(list: &Vec<ResourceExposure>, name: &str) -> (yes: bool)
    ensures
        yes == has_name(views(list@), name@),
{
    let mut i: usize = 0;
    while i < list.len()
        invariant
            i <= list@.len(),
            forall|k: int| 0 <= k < i ==> (#[trigger] views(list@)[k]).name != name@,
        decreases list@.len() - i,
    {
        assert(views(list@)[i as int] == list@[i as int]@);
        if str_eq(list[i].name.as_str(), name) {
            return true;
        }
        i = i + 1;
    }
    false
}

fn expose_repos(repos: &Vec<AzureDevopsRepo>) -> (resources: Vec<ResourceExposure>)
    ensures
        views(resources@) == repos_upto(repos@, repos@.len() as int),
{
    let mut resources: Vec<ResourceExposure> = no_views();
    let mut i: usize = 0;
    while i < repos.len()
        invariant
            i <= repos@.len(),
            views(resources@) == repos_upto(repos@, i as int),
        decreases repos@.len() - i,
    {
        let repo = &repos[i];
        let name = match &repo.project {
            Some(project) if !project.as_str().is_empty() => {
                cat3(project.as_str(), "/", repo.name.as_str())
            },
            _ => repo.name.clone(),
        };
        assert(name@ == repo_name(*repo));
        if !is_named(&resources, name.as_str()) {
            let (risk, reason) = if repo.is_disabled {
                (Severity::Low, "Repository is disabled but visible to the token")
            } else {
                (Severity::Medium, "Accessible Azure DevOps repository")
            };
            push_view(
                &mut resources,
                ResourceExposure::new(
                    "repository",
                    name.as_str(),
                    one_text("repo:read"),
                    risk,
                    reason,
                ),
            );
        }
        i = i + 1;
    }
    resources
}

fn expose_projects(projects: &Vec<AzureDevopsProject>) -> (resources: Vec<ResourceExposure>)
    ensures
        views(resources@) == projects_upto(projects@, projects@.len() as int),
{
    let mut resources: Vec<ResourceExposure> = no_views();
    let mut i: usize = 0;
    while i < projects.len()
        invariant
            i <= projects@.len(),
            views(resources@) == projects_upto(projects@, i as int),
        decreases projects@.len() - i,
    {
        let (risk, reason) = if check_private(&projects[i]) {
            (Severity::Medium, "Accessible private Azure DevOps project")
        } else {
            (Severity::Low, "Accessible public Azure DevOps project")
        };
        push_view(
            &mut resources,
            ResourceExposure::new(
                "project",
                projects[i].name.as_str(),
                one_text("project:read"),
                risk,
                reason,
            ),
        );
        i = i + 1;
    }
    resources
}

/// The profile that came, or one that says nothing.
pub open spec fn profile_fields(reply: Option<ProfileReply>) -> (
    Option<Seq<char>>,
    Option<Seq<char>>,
    Option<Seq<char>>,
    Option<Seq<char>>,
) {
    match reply {
        Some(came) => (
            opt_text(came.profile.display_name),
            opt_text(came.profile.public_alias),
            opt_text(came.profile.email_address),
            opt_text(came.profile.id),
        ),
        None => (None, None, None, None),
    }
}

/// The scopes that came with a profile.
pub open spec fn profile_scopes(reply: Option<ProfileReply>) -> Seq<Seq<char>> {
    match reply {
        Some(came) => match came.scopes {
            Some(text) => comma_items(text@),
            None => Seq::empty(),
        },
        None => Seq::empty(),
    }
}

/// What the headers of a profile say of its user.
pub open spec fn profile_user_data(reply: Option<ProfileReply>) -> (
    Option<Seq<char>>,
    Option<Seq<char>>,
) {
    match reply {
        Some(came) => user_data_in(opt_text(came.user_data)),
        None => (None, None),
    }
}

/// The notes on a token.
pub open spec fn devops_notes(repos: nat, scopes: nat) -> Seq<Seq<char>> {
    let first = if repos == 0 {
        seq!["Token did not enumerate any repositories"@]
    } else {
        Seq::empty()
    };
    if scopes == 0 {
        first.push("Azure DevOps did not report PAT scopes; review the token permissions"@)
    } else {
        first
    }
}

/// What is told of a token and its user.
pub open spec fn devops_details(
    reply: Option<ProfileReply>,
    pat: Option<AzureDevopsPat>,
) -> AccessTokenDetailsView {
    let (display_name, alias, email, id) = profile_fields(reply);
    let scopes = profile_scopes(reply);
    let user_data = profile_user_data(reply);
    let (pat_name, pat_from, pat_to, pat_user, pat_scope) = match pat {
        Some(found) => (
            opt_text(found.display_name),
            opt_text(found.valid_from),
            opt_text(found.valid_to),
            opt_text(found.user_id),
            opt_text(found.scope),
        ),
        None => (None, None, None, None, None),
    };
    AccessTokenDetailsView {
        name: either(filled_text(pat_name), filled_text(either(display_name, alias))),
        username: filled_text(alias),
        email: filled_text(email),
        token_type: Some("pat"@),
        created_at: pat_from,
        expires_at: pat_to,
        user_id: either(pat_user, either(id, either(user_data.0, either(email, alias)))),
        scopes: if scopes.len() == 0 {
            pat_scopes(pat_scope)
        } else {
            scopes
        },
        ..empty_access_token_details()
    }
}

/// The token among a list that is most likely the one in use.
pub open spec fn pat_in_use(pats: Seq<AzureDevopsPat>, reply: Option<ProfileReply>) -> Option<
    AzureDevopsPat,
> {
    match chosen_pat(pats, profile_scopes(reply), profile_fields(reply).3) {
        Some(k) => Some(pats[k]),
        None => None,
    }
}

/// What an Azure DevOps token gives access to.
pub open spec fn devops_result(
    org: Seq<char>,
    reply: Option<ProfileReply>,
    pats: Seq<AzureDevopsPat>,
    projects: Seq<AzureDevopsProject>,
    repos: Seq<AzureDevopsRepo>,
) -> AccessMapResultView {
    let (display_name, alias, email, id) = profile_fields(reply);
    let scopes = profile_scopes(reply);
    let user_data = profile_user_data(reply);
    let severity = devops_severity(projects, repos.len());
    AccessMapResultView {
        cloud: "azure_devops"@,
        fingerprint: None,
        identity: AccessSummaryView {
            id: match either(
                email,
                either(user_data.1, either(alias, either(display_name, either(id, user_data.0)))),
            ) {
                Some(name) => name,
                None => "azure_devops_user"@,
            },
            access_type: "pat"@,
            project: Some(org),
            tenant: None,
            account_id: None,
        },
        roles: if scopes.len() > 0 {
            seq![binding("token_scopes"@, "azure_devops"@, scopes)]
        } else {
            Seq::empty()
        },
        permissions: PermissionSummaryView {
            read_only: if repos.len() > 0 {
                seq!["repo:read"@]
            } else {
                Seq::empty()
            },
            ..empty_permission_summary()
        },
        resources: devops_resources(org, projects, repos),
        severity,
        recommendations: recommendations(severity),
        risk_notes: devops_notes(repos.len(), scopes.len()),
        token_details: Some(devops_details(reply, pat_in_use(pats, reply))),
        provider_metadata: None,
        mapping_error: None,
    }
}

fn no_profile() -> (profile: AzureDevopsProfile)
    ensures
        profile.display_name is None,
        profile.public_alias is None,
        profile.email_address is None,
        profile.id is None,
{
    AzureDevopsProfile { display_name: None, public_alias: None, email_address: None, id: None }
}

/// Maps an Azure DevOps token from what the service answered to it. A profile or a list of tokens
/// that could not be had is left out.
pub fn map_access_from_token(
    org: &str,
    reply: Option<ProfileReply>,
    pats: &Vec<AzureDevopsPat>,
    projects: &Vec<AzureDevopsProject>,
    repos: &Vec<AzureDevopsRepo>,
) -> (result: AccessMapResult)
    ensures
        result@ == devops_result(org@, reply, pats@, projects@, repos@),
{
    let ghost given = reply;
    let (profile, scopes, user_data) = match reply {
        Some(came) => {
            let scopes = match &came.scopes {
                Some(text) => split_commas(text.as_str()),
                None => no_texts(),
            };
            let user_data = parse_user_data(&came.user_data);
            (came.profile, scopes, user_data)
        },
        None => (no_profile(), no_texts(), AzureDevopsUserData { user_id: None, email: None }),
    };
    assert(texts(scopes@) == profile_scopes(given));
    assert((opt_text(user_data.user_id), opt_text(user_data.email)) == profile_user_data(given));
    let found = select_matching_pat(pats, &scopes, &profile.id);
    let mut details = AccessTokenDetails::default();
    let shown = keep_filled(&or_text(&profile.display_name, &profile.public_alias));
    let last = or_text(&profile.email_address, &profile.public_alias);
    let later = or_text(&user_data.user_id, &last);
    let own_id = or_text(&profile.id, &later);
    details.username = keep_filled(&profile.public_alias);
    details.email = keep_filled(&profile.email_address);
    details.token_type = Some("pat".to_owned());
    details.scopes = copy_texts(&scopes);
    match found {
        Some(pat) => {
            details.name = or_text(&keep_filled(&pat.display_name), &shown);
            details.created_at = copy_opt(&pat.valid_from);
            details.expires_at = copy_opt(&pat.valid_to);
            details.user_id = or_text(&pat.user_id, &own_id);
            if scopes.len() == 0 {
                details.scopes = parse_pat_scopes(&pat.scope);
            }
        },
        None => {
            details.name = shown;
            details.user_id = own_id;
        },
    }
    assert(details@ =~= devops_details(given, pat_in_use(pats@, given)));
    let by_id = or_text(&profile.id, &user_data.user_id);
    let by_name = or_text(&profile.display_name, &by_id);
    let by_alias = or_text(&profile.public_alias, &by_name);
    let by_mail = or_text(&user_data.email, &by_alias);
    let id = unwrap_text(&or_text(&profile.email_address, &by_mail), "azure_devops_user");
    let severity = derive_severity(projects, repos);
    let mut risk_notes = no_texts();
    if repos.len() == 0 {
        push_text(&mut risk_notes, "Token did not enumerate any repositories".to_owned());
    }
    if scopes.len() == 0 {
        push_text(
            &mut risk_notes,
            "Azure DevOps did not report PAT scopes; review the token permissions".to_owned(),
        );
    }
    assert(texts(risk_notes@) =~= devops_notes(repos@.len(), scopes@.len()));
    let resources = if repos.len() > 0 {
        expose_repos(repos)
    } else if projects.len() > 0 {
        expose_projects(projects)
    } else {
        one_view(
            ResourceExposure::new(
                "organization",
                org,
                no_texts(),
                Severity::Low,
                "Azure DevOps organization associated with the token",
            ),
        )
    };
    let read_only = if repos.len() > 0 {
        one_text("repo:read")
    } else {
        no_texts()
    };
    let roles: Vec<RoleBinding> = if scopes.len() > 0 {
        one_view(RoleBinding::new("token_scopes", "azure_devops", scopes))
    } else {
        no_views()
    };
    AccessMapResult {
        cloud: "azure_devops".to_owned(),
        fingerprint: None,
        identity: AccessSummary {
            id,
            access_type: "pat".to_owned(),
            project: Some(org.to_owned()),
            tenant: None,
            account_id: None,
        },
        roles,
        permissions: PermissionSummary {
            admin: no_texts(),
            privilege_escalation: no_texts(),
            risky: no_texts(),
            read_only,
        },
        resources,
        severity,
        recommendations: build_recommendations(severity),
        risk_notes,
        token_details: Some(details),
        provider_metadata: None,
        mapping_error: None,
    }
}

proof fn lemma_projects_listed(list: Seq<AzureDevopsProject>, n: int)
    requires
        0 <= n <= list.len(),
    ensures
        projects_upto(list, n).len() == n,
        forall|k: int| 0 <= k < n ==> #[trigger] projects_upto(list, n)[k] == project_exposure(list[k]),
    decreases n,
{
    if n > 0 {
        lemma_projects_listed(list, n - 1);
    }
}

proof fn lemma_repos_listed(repos: Seq<AzureDevopsRepo>, n: int, k: int)
    requires
        0 <= k < n <= repos.len(),
    ensures
        has_name(repos_upto(repos, n), repo_name(repos[k])),
    decreases n,
{
    let before = repos_upto(repos, n - 1);
    let now = repos_upto(repos, n);
    if k < n - 1 {
        lemma_repos_listed(repos, n - 1, k);
        let i = choose|i: int| 0 <= i < before.len() && (#[trigger] before[i]).name == repo_name(repos[k]);
        assert(now[i] == before[i]);
    } else if !has_name(before, repo_name(repos[k])) {
        assert(now[before.len() as int].name == repo_name(repos[k]));
    }
}

/// A token that shows any repository or any private project is medium, any other low. Every repository is
/// reported by its name, after that of its project; where there are none, every project is, a private one
/// at medium risk.
pub proof fn lemma_reach_decides(
    org: Seq<char>,
    reply: Option<ProfileReply>,
    pats: Seq<AzureDevopsPat>,
    projects: Seq<AzureDevopsProject>,
    repos: Seq<AzureDevopsRepo>,
    k: int,
)
    ensures
        ({
            let result = devops_result(org, reply, pats, projects, repos);
            &&& repos.len() > 0 ==> result.severity == Severity::Medium
                && result.permissions.read_only.contains("repo:read"@)
            &&& 0 <= k < projects.len() && projects[k].visibility is Some && ascii_lower(
                projects[k].visibility->0@,
            ) == "private"@ ==> result.severity == Severity::Medium
            &&& repos.len() == 0 && (forall|j: int|
                0 <= j < projects.len() ==> (#[trigger] projects[j]).visibility is None || ascii_lower(
                    projects[j].visibility->0@,
                ) != "private"@) ==> result.severity == Severity::Low
            &&& 0 <= k < repos.len() ==> exists|i: int|
                0 <= i < result.resources.len() && (#[trigger] result.resources[i]).name == (
                match repos[k].project {
                    Some(project) => if project@.len() > 0 {
                        project@ + "/"@ + repos[k].name@
                    } else {
                        repos[k].name@
                    },
                    None => repos[k].name@,
                })
            &&& repos.len() == 0 && 0 <= k < projects.len() ==> result.resources[k].name
                == projects[k].name@ && (projects[k].visibility is Some && ascii_lower(
                projects[k].visibility->0@,
            ) == "private"@ <==> result.resources[k].risk == "medium"@)
            &&& result.identity.project == Some(org)
        }),
{
    let result = devops_result(org, reply, pats, projects, repos);
    reveal_strlit("private");
    assert(ascii_lower("private"@) =~= "private"@);
    reveal_strlit("low");
    reveal_strlit("medium");
    assert("low"@.len() != "medium"@.len());
    if repos.len() > 0 {
        assert(result.permissions.read_only[0] == "repo:read"@);
    }
    if 0 <= k < projects.len() {
        if projects[k].visibility is Some && ascii_lower(projects[k].visibility->0@) == "private"@ {
            assert(is_private(projects[k]));
        }
        lemma_projects_listed(projects, projects.len() as int);
    }
    if 0 <= k < repos.len() {
        lemma_repos_listed(repos, repos.len() as int, k);
        let i = choose|i: int|
            0 <= i < result.resources.len() && (#[trigger] result.resources[i]).name == repo_name(
                repos[k],
            );
        assert(result.resources[i].name == repo_name(repos[k]));
    }
    if result.severity != Severity::Low && repos.len() == 0 {
        let j = choose|j: int| 0 <= j < projects.len() && is_private(#[trigger] projects[j]);
        assert(projects[j].visibility is Some);
    }
}

proof fn lemma_candidates(pats: Seq<AzureDevopsPat>, user_id: Option<Seq<char>>, n: int)
    requires
        0 <= n <= pats.len(),
    ensures
        forall|m: int|
            0 <= m < candidates_upto(pats, user_id, n).len() ==> 0 <= #[trigger] candidates_upto(
                pats,
                user_id,
                n,
            )[m] < n && may_belong(pats[candidates_upto(pats, user_id, n)[m]], user_id),
        forall|j: int|
            0 <= j < n && may_belong(#[trigger] pats[j], user_id) ==> candidates_upto(
                pats,
                user_id,
                n,
            ).contains(j),
    decreases n,
{
    if n > 0 {
        let before = candidates_upto(pats, user_id, n - 1);
        let now = candidates_upto(pats, user_id, n);
        lemma_candidates(pats, user_id, n - 1);
        assert forall|j: int| 0 <= j < n && may_belong(#[trigger] pats[j], user_id) implies now.contains(
            j,
        ) by {
            if j < n - 1 {
                let m = choose|m: int| 0 <= m < before.len() && before[m] == j;
                assert(now[m] == j);
            } else {
                assert(now[before.len() as int] == j);
            }
        }
    }
}

proof fn lemma_matching(
    pats: Seq<AzureDevopsPat>,
    candidates: Seq<int>,
    desired: Seq<Seq<char>>,
    n: int,
)
    requires
        0 <= n <= candidates.len(),
    ensures
        forall|m: int|
            0 <= m < matching_upto(pats, candidates, desired, n).len() ==> candidates.contains(
                #[trigger] matching_upto(pats, candidates, desired, n)[m],
            ) && has_scopes(pats[matching_upto(pats, candidates, desired, n)[m]], desired),
        forall|j: int|
            0 <= j < n && has_scopes(pats[#[trigger] candidates[j]], desired) ==> matching_upto(
                pats,
                candidates,
                desired,
                n,
            ).contains(candidates[j]),
    decreases n,
{
    if n > 0 {
        let before = matching_upto(pats, candidates, desired, n - 1);
        let now = matching_upto(pats, candidates, desired, n);
        lemma_matching(pats, candidates, desired, n - 1);
        assert forall|m: int| 0 <= m < now.len() implies candidates.contains(#[trigger] now[m])
            && has_scopes(pats[now[m]], desired) by {
            if m < before.len() {
                assert(now[m] == before[m]);
            } else {
                assert(now[m] == candidates[n - 1]);
            }
        }
        assert forall|j: int|
            0 <= j < n && has_scopes(pats[#[trigger] candidates[j]], desired) implies now.contains(
            candidates[j],
        ) by {
            if j < n - 1 {
                let m = choose|m: int| 0 <= m < before.len() && before[m] == candidates[j];
                assert(now[m] == candidates[j]);
            } else {
                assert(now[before.len() as int] == candidates[j]);
            }
        }
    }
}

proof fn lemma_latest(pats: Seq<AzureDevopsPat>, candidates: Seq<int>, n: int)
    requires
        0 <= n <= candidates.len(),
    ensures
        match latest_upto(pats, candidates, n) {
            None => n == 0,
            Some(best) => (exists|m: int| 0 <= m < n && #[trigger] candidates[m] == best) && forall|m: int|
                0 <= m < n ==> !text_less(since(pats[best]), since(pats[#[trigger] candidates[m]])),
        },
    decreases n,
{
    if n > 0 {
        lemma_latest(pats, candidates, n - 1);
        let last = candidates[n - 1];
        lemma_less_irreflexive(since(pats[last]));
        match latest_upto(pats, candidates, n - 1) {
            None => {},
            Some(best) => {
                if text_less(since(pats[last]), since(pats[best])) {
                    lemma_less_irreflexive(since(pats[best]));
                    if text_less(since(pats[best]), since(pats[last])) {
                        lemma_less_transitive(
                            since(pats[best]),
                            since(pats[last]),
                            since(pats[best]),
                        );
                    }
                } else {
                    assert forall|m: int| 0 <= m < n implies !text_less(
                        since(pats[last]),
                        since(pats[#[trigger] candidates[m]]),
                    ) by {
                        let other = since(pats[candidates[m]]);
                        if m < n - 1 && text_less(since(pats[last]), other) {
                            lemma_less_total(other, since(pats[best]));
                            if text_less(other, since(pats[best])) {
                                lemma_less_transitive(since(pats[last]), other, since(pats[best]));
                            }
                        }
                    }
                }
            },
        }
    }
}

/// Whether a token lists every one of the scopes.
pub open spec fn lists_all(pat: AzureDevopsPat, scopes: Seq<Seq<char>>) -> bool {
    pat.scope is Some && words(pat.scope->0@).len() > 0 && forall|m: int|
        0 <= m < scopes.len() ==> words(pat.scope->0@).contains(#[trigger] scopes[m])
}

proof fn lemma_lists_all(pat: AzureDevopsPat, scopes: Seq<Seq<char>>)
    ensures
        lists_all(pat, scopes) <==> has_scopes(pat, in_order(scopes)),
{
    let own = pat_scopes(opt_text(pat.scope));
    let desired = in_order(scopes);
    lemma_in_order(own);
    lemma_in_order(scopes);
    if own.len() > 0 {
        assert(own.contains(own[0]));
        assert(in_order(own).contains(own[0]));
    }
    if in_order(own).len() > 0 {
        assert(in_order(own).contains(in_order(own)[0]));
        assert(own.contains(in_order(own)[0]));
    }
    if lists_all(pat, scopes) {
        assert forall|k: int| 0 <= k < desired.len() implies in_order(own).contains(
            #[trigger] desired[k],
        ) by {
            assert(desired.contains(desired[k]));
            assert(scopes.contains(desired[k]));
            let m = choose|m: int| 0 <= m < scopes.len() && scopes[m] == desired[k];
            assert(own.contains(scopes[m]));
        }
    }
    if has_scopes(pat, desired) {
        assert forall|m: int| 0 <= m < scopes.len() implies own.contains(#[trigger] scopes[m]) by {
            assert(scopes.contains(scopes[m]));
            assert(desired.contains(scopes[m]));
            let k = choose|k: int| 0 <= k < desired.len() && desired[k] == scopes[m];
            assert(in_order(own).contains(desired[k]));
        }
    }
}

/// The token that is taken for the one in use may belong to the user. Where a token that may belong to
/// the user lists every scope that is known, the one that is taken lists them too; and of all that come
/// into question it is one that is valid since the latest time. Where any may belong to the user, one is
/// taken.
pub proof fn lemma_token_in_use(
    pats: Seq<AzureDevopsPat>,
    scopes: Seq<Seq<char>>,
    user_id: Option<Seq<char>>,
    j: int,
)
    requires
        0 <= j < pats.len(),
        match (user_id, pats[j].user_id) {
            (Some(user), Some(owner)) => owner@ == user,
            _ => true,
        },
    ensures
        chosen_pat(pats, scopes, user_id) is Some,
        ({
            let i = chosen_pat(pats, scopes, user_id)->0;
            &&& 0 <= i < pats.len()
            &&& match (user_id, pats[i].user_id) {
                (Some(user), Some(owner)) => owner@ == user,
                _ => true,
            }
            &&& scopes.len() > 0 && lists_all(pats[j], scopes) ==> lists_all(pats[i], scopes) && !text_less(
                text_or(pats[i].valid_from, ""@),
                text_or(pats[j].valid_from, ""@),
            )
            &&& scopes.len() == 0 ==> !text_less(
                text_or(pats[i].valid_from, ""@),
                text_or(pats[j].valid_from, ""@),
            )
        }),
{
    let candidates = candidates_upto(pats, user_id, pats.len() as int);
    let desired = in_order(scopes);
    let matching = matching_upto(pats, candidates, desired, candidates.len() as int);
    lemma_candidates(pats, user_id, pats.len() as int);
    lemma_matching(pats, candidates, desired, candidates.len() as int);
    lemma_latest(pats, candidates, candidates.len() as int);
    lemma_latest(pats, matching, matching.len() as int);
    lemma_in_order(scopes);
    assert(may_belong(pats[j], user_id));
    assert(candidates.contains(j));
    let c = choose|c: int| 0 <= c < candidates.len() && candidates[c] == j;
    let i = chosen_pat(pats, scopes, user_id)->0;
    lemma_lists_all(pats[j], scopes);
    lemma_lists_all(pats[i], scopes);
    if scopes.len() > 0 {
        assert(scopes.contains(scopes[0]));
        assert(desired.contains(scopes[0]));
    }
    if desired.len() > 0 {
        assert(desired.contains(desired[0]));
        assert(scopes.contains(desired[0]));
    }
    if desired.len() > 0 && matching.len() > 0 {
        let m = choose|m: int| 0 <= m < matching.len() && #[trigger] matching[m] == i;
        assert(candidates.contains(matching[m]));
        let d = choose|d: int| 0 <= d < candidates.len() && candidates[d] == i;
        assert(may_belong(pats[candidates[d]], user_id));
        if has_scopes(pats[j], desired) {
            assert(matching.contains(candidates[c]));
            let e = choose|e: int| 0 <= e < matching.len() && matching[e] == j;
            assert(!text_less(since(pats[i]), since(pats[matching[e]])));
        }
    } else {
        let d = choose|d: int| 0 <= d < candidates.len() && #[trigger] candidates[d] == i;
        assert(may_belong(pats[candidates[d]], user_id));
        assert(!text_less(since(pats[i]), since(pats[candidates[c]])));
        if desired.len() > 0 && has_scopes(pats[j], desired) {
            assert(matching.contains(candidates[c]));
        }
    }
}

/// The header about a user gives the ID before the colon and the address after it.
pub proof fn lemma_user_data_is_read(id: Seq<char>, email: Seq<char>)
    requires
        !id.contains(':'),
        trimmed(id).len() > 0,
        trimmed(email).len() > 0,
    ensures
        user_data_in(Some(id + ":"@ + email)) == (Some(trimmed(id)), Some(trimmed(email))),
{
    reveal_strlit(":");
    assert(":"@ =~= seq![':']);
    lemma_parts_are_cut(id, ':', email);
}

/// Every repository that is reported stands for one that the token shows, at low risk where that one is
/// disabled and at medium risk otherwise.
pub proof fn lemma_disabled_repositories_are_low(repos: Seq<AzureDevopsRepo>, n: int, i: int)
    requires
        0 <= n <= repos.len(),
        0 <= i < repos_upto(repos, n).len(),
    ensures
        exists|k: int|
            0 <= k < n && repos_upto(repos, n)[i].name == repo_name(#[trigger] repos[k]) && (repos[k].is_disabled
                ==> repos_upto(repos, n)[i].risk == "low"@) && (!repos[k].is_disabled ==> repos_upto(
                repos,
                n,
            )[i].risk == "medium"@),
    decreases n,
{
    if n > 0 {
        let before = repos_upto(repos, n - 1);
        if i < before.len() {
            lemma_disabled_repositories_are_low(repos, n - 1, i);
            assert(repos_upto(repos, n)[i] == before[i]);
        } else {
            assert(repos_upto(repos, n)[i] == repo_exposure(repos[n - 1]));
        }
    }
}

} // verus!
