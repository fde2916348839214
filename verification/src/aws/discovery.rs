//! Discovery of the roles that a principal reaches, directly or through another role.

use vstd::prelude::*;
use crate::aws::collect::{
    collect_role_actions, listing_after, notes_after_failure, record_iam_error, role_owner,
    AwsFailure, PolicyCollection, PolicyCollectionView, PolicyListing,
};
use crate::aws::evidence::{
    add_policy_evidence, capped, document_error, paths_full, push_authorization_path,
    record_path_cap, trust_source, with_document, with_path, PolicySource, MAX_AUTHORIZATION_PATHS,
};
use crate::aws::identity::{account_of, arn_account, PrincipalContext, PrincipalContextView};
use crate::aws::paths::{
    assume_hop, build_role_path, combine_path_status, combined_status,
    lemma_hops_are_as_sure_as_the_weaker, lemma_trusted_roles_are_reached, no_own_statement_reads,
    own_statement, role_path,
};
use crate::aws::policy::{
    final_actions, final_notes, finalize_policy_actions, PolicyDocumentFlags,
};
use crate::aws::principal::{nothing_collected, IamRole};
use crate::aws::severity::{classified, classify_permissions, permission_count};
use crate::aws::trust::{document_trusts, trust_matches};
use crate::aws::identity::authorizing_arn;
use crate::keyed::{keyed, keyed_pairs};
use crate::model::{
    pairs, views, AuthorizationEvidence, AuthorizationEvidenceView, AuthorizationHop,
    AuthorizationPath, AuthorizationPathView, PermissionSummary,
};
use crate::notes::{note_if, noted, noted_if, push_unique_note};
use crate::order::{in_order, sort_dedup};
use crate::text::{
    ascii_lower, cat4, copy_opt, copy_texts, extend_texts, is_among, no_texts, str_eq, texts,
};

verus! {

pub const MAX_DISCOVERED_ROLES: usize = 2_000;

pub const MAX_EXPANDED_PATH_ROLES: usize = 32;

pub const MAX_PATH_ROLE_POLICY_EXPANSIONS: usize = 64;

/// The path from the principal to one role.
pub struct DirectRolePath {
    pub role: usize,
    pub path: AuthorizationPath,
}

/// What a `DirectRolePath` says.
#[verifier::ext_equal]
pub struct DirectRolePathView {
    pub role: int,
    pub path: AuthorizationPathView,
}

impl View for DirectRolePath {
    type V = DirectRolePathView;

    open spec fn view(&self) -> DirectRolePathView {
        DirectRolePathView { role: self.role as int, path: self.path@ }
    }
}

/// Where the discovery stands.
pub struct Search {
    pub evidence: AuthorizationEvidence,
    pub risk_notes: Vec<String>,
    /// Edges between a principal and a role that were looked at.
    pub edges: Vec<(String, String)>,
    /// Roles whose policies were collected.
    pub inspected: Vec<String>,
    /// Actions that reachable roles add.
    pub reachable: Vec<String>,
    /// Paths from the principal itself.
    pub direct: Vec<DirectRolePath>,
    /// How many of the fetched listings were used.
    pub used: usize,
    /// The role whose listing is needed before the discovery can go on.
    pub needed: Option<usize>,
    /// Nothing more is looked at in the round that is under way.
    pub stopped: bool,
}

/// What a `Search` says.
#[verifier::ext_equal]
pub struct SearchView {
    pub evidence: AuthorizationEvidenceView,
    pub risk_notes: Seq<Seq<char>>,
    pub edges: Seq<(Seq<char>, Seq<char>)>,
    pub inspected: Seq<Seq<char>>,
    pub reachable: Seq<Seq<char>>,
    pub direct: Seq<DirectRolePathView>,
    pub used: int,
    pub needed: Option<int>,
    pub stopped: bool,
}

/// A position that may be there.
pub open spec fn opt_int(value: Option<usize>) -> Option<int> {
    match value {
        Some(n) => Some(n as int),
        None => None,
    }
}

impl View for Search {
    type V = SearchView;

    open spec fn view(&self) -> SearchView {
        SearchView {
            evidence: self.evidence@,
            risk_notes: texts(self.risk_notes@),
            edges: pairs(self.edges@),
            inspected: texts(self.inspected@),
            reachable: texts(self.reachable@),
            direct: views(self.direct@),
            used: self.used as int,
            needed: opt_int(self.needed),
            stopped: self.stopped,
        }
    }
}

/// What is known once a trust policy was found to match: the policy as evidence, and a note where
/// it could not be retained.
pub open spec fn with_trust(search: SearchView, role: IamRole, document: Seq<char>) -> SearchView {
    SearchView {
        evidence: with_document(search.evidence, document, trust_source(role.arn@)),
        risk_notes: match document_error(search.evidence, document, trust_source(role.arn@)) {
            Some(error) => noted(
                search.risk_notes,
                "Failed to retain trust policy for role "@ + role.role_name@ + ": "@ + error,
            ),
            None => search.risk_notes,
        },
        ..search
    }
}

fn retain_trust(search: Search, role: &IamRole, document: &str) -> (next: Search)
    ensures
        next@ == with_trust(search@, *role, document@),
{
    let mut next = search;
    match add_policy_evidence(document, PolicySource::trust(role.arn.as_str()), &mut next.evidence) {
        Err(error) => push_unique_note(
            &mut next.risk_notes,
            cat4(
                "Failed to retain trust policy for role ",
                role.role_name.as_str(),
                ": ",
                error.as_str(),
            ),
        ),
        Ok(_) => {},
    }
    next
}

/// The discovery after one role was held against the principal itself.
pub open spec fn after_direct(search: SearchView, roles: Seq<IamRole>, i: int, principal: PrincipalContextView) -> SearchView {
    let role = roles[i];
    let source = authorizing_arn(principal);
    if search.stopped {
        search
    } else if paths_full(search.evidence) {
        SearchView { evidence: capped(search.evidence), stopped: true, ..search }
    } else if role.arn@ == source {
        search
    } else {
        match role.assume_role_policy_document {
            None => search,
            Some(document) => {
                let matches = document_trusts(document@, role.arn@, principal);
                if matches.len() == 0 {
                    search
                } else {
                    let trusted = with_trust(search, role, document@);
                    match role_path(source, role.arn@, matches, trusted.evidence) {
                        None => trusted,
                        Some(path) => SearchView {
                            edges: trusted.edges.push((source, role.arn@)),
                            evidence: with_path(trusted.evidence, path),
                            direct: trusted.direct.push(DirectRolePathView { role: i, path }),
                            ..trusted
                        },
                    }
                }
            },
        }
    }
}

/// A copy of a path.
pub fn copy_path(path: &AuthorizationPath) -> (copy: AuthorizationPath)
    ensures
        copy@ == path@,
{
    let mut hops: Vec<AuthorizationHop> = Vec::new();
    let mut i: usize = 0;
    while i < path.hops.len()
        invariant
            i <= path.hops@.len(),
            hops@.len() == i,
            forall|j: int| 0 <= j < i ==> (#[trigger] hops@[j])@ == path.hops@[j]@,
        decreases path.hops@.len() - i,
    {
        hops.push(
            AuthorizationHop {
                from: path.hops[i].from.clone(),
                to: path.hops[i].to.clone(),
                relationship: path.hops[i].relationship.clone(),
            },
        );
        i = i + 1;
    }
    assert(views(hops@) =~= views(path.hops@));
    AuthorizationPath {
        direction: copy_opt(&path.direction),
        status: path.status.clone(),
        hops,
        evidence: copy_texts(&path.evidence),
        conditions: copy_texts(&path.conditions),
    }
}

fn push_edge(edges: &mut Vec<(String, String)>, from: &str, to: &str)
    ensures
        pairs(final(edges)@) == pairs(old(edges)@).push((from@, to@)),
{
    let ghost before = pairs(edges@);
    edges.push((from.to_owned(), to.to_owned()));
    assert(pairs(edges@) =~= before.push((from@, to@)));
}

fn try_direct(search: Search, roles: &Vec<IamRole>, i: usize, principal: &PrincipalContext) -> (next: Search)
    requires
        i < roles@.len(),
    ensures
        next@ == after_direct(search@, roles@, i as int, principal@),
{
    let mut next = search;
    if next.stopped {
        return next;
    }
    if next.evidence.paths.len() >= MAX_AUTHORIZATION_PATHS {
        record_path_cap(&mut next.evidence);
        next.stopped = true;
        return next;
    }
    let role = &roles[i];
    let source = principal.authorization_arn();
    if str_eq(role.arn.as_str(), source) {
        return next;
    }
    match &role.assume_role_policy_document {
        None => next,
        Some(document) => {
            let matches = trust_matches(document.as_str(), role.arn.as_str(), principal);
            assert(views(matches@).len() == matches@.len());
            if matches.len() == 0 {
                return next;
            }
            next = retain_trust(next, role, document.as_str());
            match build_role_path(source, role.arn.as_str(), &matches, &next.evidence) {
                None => next,
                Some(path) => {
                    push_edge(&mut next.edges, source, role.arn.as_str());
                    let copy = copy_path(&path);
                    let _ = push_authorization_path(&mut next.evidence, path);
                    crate::model::push_view(
                        &mut next.direct,
                        DirectRolePath { role: i, path: copy },
                    );
                    next
                },
            }
        },
    }
}

/// The discovery after the first `n` roles were held against the principal itself.
pub open spec fn direct_upto(search: SearchView, roles: Seq<IamRole>, n: int, principal: PrincipalContextView) -> SearchView
    decreases n,
{
    if n <= 0 {
        search
    } else {
        after_direct(direct_upto(search, roles, n - 1, principal), roles, n - 1, principal)
    }
}

/// The discovery after the policies of a role were collected, or with the need for them where
/// they were not fetched yet.
pub open spec fn with_role_policies(search: SearchView, roles: Seq<IamRole>, i: int, fetched: Seq<PolicyListing>) -> SearchView {
    if search.used >= fetched.len() {
        SearchView { needed: Some(i), ..search }
    } else {
        let found = listing_after(
            nothing_collected(search.evidence, search.risk_notes),
            fetched[search.used],
            role_owner(roles[i].role_name@, roles[i].arn@),
        );
        SearchView {
            evidence: found.evidence,
            risk_notes: final_notes(found.risk_notes, found.flags),
            reachable: search.reachable + final_actions(found.actions, found.flags),
            used: search.used + 1,
            ..search
        }
    }
}

fn collect_policies_of(search: Search, roles: &Vec<IamRole>, i: usize, fetched: &Vec<PolicyListing>) -> (next: Search)
    requires
        i < roles@.len(),
    ensures
        next@ == with_role_policies(search@, roles@, i as int, fetched@),
{
    if search.used >= fetched.len() {
        let mut next = search;
        next.needed = Some(i);
        return next;
    }
    let start = PolicyCollection {
        actions: no_texts(),
        flags: PolicyDocumentFlags::default(),
        evidence: search.evidence,
        risk_notes: search.risk_notes,
    };
    let found = collect_role_actions(
        start,
        roles[i].role_name.as_str(),
        roles[i].arn.as_str(),
        &fetched[search.used],
    );
    let mut risk_notes = found.risk_notes;
    let actions = finalize_policy_actions(found.actions, &found.flags, &mut risk_notes);
    let mut reachable = search.reachable;
    extend_texts(&mut reachable, &actions);
    Search {
        evidence: found.evidence,
        risk_notes,
        edges: search.edges,
        inspected: search.inspected,
        reachable,
        direct: search.direct,
        used: search.used + 1,
        needed: search.needed,
        stopped: search.stopped,
    }
}

/// A role as the principal of the next hop. The name, the user ID and the tags of its session are
/// not known before it is assumed.
pub open spec fn role_principal(role: IamRole) -> PrincipalContextView {
    PrincipalContextView {
        raw_arn: role.arn@,
        canonical_arn: Some(role.arn@),
        account_id: account_of(role.arn@),
        user_id: None,
        kind: "assumed_role"@,
        name: None,
        tags: keyed(pairs(role.tags@)),
        tags_complete: false,
    }
}

fn principal_of_role(role: &IamRole) -> (principal: PrincipalContext)
    ensures
        principal@ == role_principal(*role),
{
    PrincipalContext {
        raw_arn: role.arn.clone(),
        canonical_arn: Some(role.arn.clone()),
        account_id: arn_account(role.arn.as_str()),
        user_id: None,
        kind: "assumed_role".to_owned(),
        name: None,
        tags: keyed_pairs(&role.tags),
        tags_complete: false,
    }
}

/// A path that goes on from a direct one.
pub open spec fn extended_path(first: AuthorizationPathView, second: AuthorizationPathView, source: Seq<char>, through: Seq<char>) -> AuthorizationPathView {
    AuthorizationPathView {
        direction: second.direction,
        status: combined_status(first.status, second.status),
        hops: second.hops.insert(0, assume_hop(source, through)),
        evidence: in_order(second.evidence + first.evidence),
        conditions: in_order(second.conditions + first.conditions),
    }
}

fn extend_path(first: &AuthorizationPath, second: AuthorizationPath, source: &str, through: &str) -> (path: AuthorizationPath)
    ensures
        path@ == extended_path(first@, second@, source@, through@),
{
    let ghost before = views(second.hops@);
    let mut hops = second.hops;
    hops.insert(
        0,
        AuthorizationHop {
            from: source.to_owned(),
            to: through.to_owned(),
            relationship: "can_assume_role".to_owned(),
        },
    );
    assert(views(hops@) =~= before.insert(0, assume_hop(source@, through@)));
    let mut evidence = second.evidence;
    extend_texts(&mut evidence, &first.evidence);
    let mut conditions = second.conditions;
    extend_texts(&mut conditions, &first.conditions);
    AuthorizationPath {
        direction: second.direction,
        status: combine_path_status(first.status.as_str(), second.status.as_str()).to_owned(),
        hops,
        evidence: sort_dedup(evidence),
        conditions: sort_dedup(conditions),
    }
}

/// The discovery after the policies of a role at the end of a path were collected, where the
/// limit on that is not reached and it was not done before.
pub open spec fn after_reached(search: SearchView, roles: Seq<IamRole>, i: int, fetched: Seq<PolicyListing>) -> SearchView {
    if search.inspected.len() < MAX_PATH_ROLE_POLICY_EXPANSIONS && !search.inspected.contains(roles[i].arn@) {
        with_role_policies(
            SearchView { inspected: search.inspected.push(roles[i].arn@), ..search },
            roles,
            i,
            fetched,
        )
    } else {
        search
    }
}

/// The discovery after one role was held against a directly reachable one.
pub open spec fn after_target(
    search: SearchView,
    roles: Seq<IamRole>,
    i: int,
    direct: DirectRolePathView,
    principal: PrincipalContextView,
    fetched: Seq<PolicyListing>,
) -> SearchView {
    let target = roles[i];
    let through = roles[direct.role].arn@;
    let source = authorizing_arn(principal);
    if search.stopped || search.needed is Some {
        search
    } else if paths_full(search.evidence) {
        SearchView { evidence: capped(search.evidence), stopped: true, ..search }
    } else if target.arn@ == through || target.arn@ == source || search.edges.contains((through, target.arn@)) {
        search
    } else {
        let seen = SearchView { edges: search.edges.push((through, target.arn@)), ..search };
        match target.assume_role_policy_document {
            None => seen,
            Some(document) => {
                let matches = document_trusts(
                    document@,
                    target.arn@,
                    role_principal(roles[direct.role]),
                );
                if matches.len() == 0 {
                    seen
                } else {
                    let trusted = with_trust(seen, target, document@);
                    match role_path(through, target.arn@, matches, trusted.evidence) {
                        None => trusted,
                        Some(second) => after_reached(
                            SearchView {
                                evidence: with_path(
                                    trusted.evidence,
                                    extended_path(direct.path, second, source, through),
                                ),
                                ..trusted
                            },
                            roles,
                            i,
                            fetched,
                        ),
                    }
                }
            },
        }
    }
}

fn has_edge(edges: &Vec<(String, String)>, from: &str, to: &str) -> (yes: bool)
    ensures
        yes == pairs(edges@).contains((from@, to@)),
{
    let mut i: usize = 0;
    while i < edges.len()
        invariant
            i <= edges@.len(),
            forall|j: int| 0 <= j < i ==> #[trigger] pairs(edges@)[j] != (from@, to@),
        decreases edges@.len() - i,
    {
        assert(pairs(edges@)[i as int] == (edges@[i as int].0@, edges@[i as int].1@));
        if str_eq(edges[i].0.as_str(), from) && str_eq(edges[i].1.as_str(), to) {
            assert(pairs(edges@)[i as int] == (from@, to@));
            return true;
        }
        i = i + 1;
    }
    false
}

fn try_target(
    search: Search,
    roles: &Vec<IamRole>,
    i: usize,
    direct: &DirectRolePath,
    source: &PrincipalContext,
    principal: &PrincipalContext,
    fetched: &Vec<PolicyListing>,
) -> (next: Search)
    requires
        i < roles@.len(),
        direct.role < roles@.len(),
        source@ == role_principal(roles@[direct.role as int]),
    ensures
        next@ == after_target(search@, roles@, i as int, direct@, principal@, fetched@),
{
    let mut next = search;
    if next.stopped || next.needed.is_some() {
        return next;
    }
    if next.evidence.paths.len() >= MAX_AUTHORIZATION_PATHS {
        record_path_cap(&mut next.evidence);
        next.stopped = true;
        return next;
    }
    let target = &roles[i];
    let through = roles[direct.role].arn.as_str();
    let origin = principal.authorization_arn();
    if str_eq(target.arn.as_str(), through) || str_eq(target.arn.as_str(), origin) || has_edge(
        &next.edges,
        through,
        target.arn.as_str(),
    ) {
        return next;
    }
    push_edge(&mut next.edges, through, target.arn.as_str());
    match &target.assume_role_policy_document {
        None => next,
        Some(document) => {
            let matches = trust_matches(document.as_str(), target.arn.as_str(), source);
            assert(views(matches@).len() == matches@.len());
            if matches.len() == 0 {
                return next;
            }
            next = retain_trust(next, target, document.as_str());
            match build_role_path(through, target.arn.as_str(), &matches, &next.evidence) {
                None => next,
                Some(second) => {
                    let path = extend_path(&direct.path, second, origin, through);
                    let _ = push_authorization_path(&mut next.evidence, path);
                    if next.inspected.len() < MAX_PATH_ROLE_POLICY_EXPANSIONS && !is_among(
                        &next.inspected,
                        target.arn.as_str(),
                    ) {
                        crate::text::push_text(&mut next.inspected, target.arn.clone());
                        collect_policies_of(next, roles, i, fetched)
                    } else {
                        next
                    }
                },
            }
        },
    }
}

/// The discovery after the first `n` roles were held against a directly reachable one.
pub open spec fn targets_upto(
    search: SearchView,
    roles: Seq<IamRole>,
    n: int,
    direct: DirectRolePathView,
    principal: PrincipalContextView,
    fetched: Seq<PolicyListing>,
) -> SearchView
    decreases n,
{
    if n <= 0 {
        search
    } else {
        after_target(
            targets_upto(search, roles, n - 1, direct, principal, fetched),
            roles,
            n - 1,
            direct,
            principal,
            fetched,
        )
    }
}

/// The discovery after one directly reachable role was followed. A role that only trusts the
/// principal is not.
pub open spec fn after_followed(
    search: SearchView,
    roles: Seq<IamRole>,
    direct: DirectRolePathView,
    principal: PrincipalContextView,
    fetched: Seq<PolicyListing>,
) -> SearchView {
    if search.needed is Some || direct.path.status == "trust_only"@ {
        search
    } else {
        let own = with_role_policies(
            SearchView { inspected: noted(search.inspected, roles[direct.role].arn@), ..search },
            roles,
            direct.role,
            fetched,
        );
        if own.needed is Some {
            own
        } else {
            targets_upto(
                SearchView { stopped: false, ..own },
                roles,
                seen_count(roles),
                direct,
                principal,
                fetched,
            )
        }
    }
}

fn follow(
    search: Search,
    roles: &Vec<IamRole>,
    direct: &DirectRolePath,
    principal: &PrincipalContext,
    fetched: &Vec<PolicyListing>,
) -> (next: Search)
    requires
        direct.role < roles@.len(),
    ensures
        next@ == after_followed(search@, roles@, direct@, principal@, fetched@),
{
    let mut next = search;
    if next.needed.is_some() || str_eq(direct.path.status.as_str(), "trust_only") {
        return next;
    }
    push_unique_note(&mut next.inspected, roles[direct.role].arn.clone());
    next = collect_policies_of(next, roles, direct.role, fetched);
    if next.needed.is_some() {
        return next;
    }
    next.stopped = false;
    let ghost start = next@;
    let source = principal_of_role(&roles[direct.role]);
    let count = count_seen(roles);
    let mut i: usize = 0;
    while i < count
        invariant
            i <= count,
            count == seen_count(roles@),
            direct.role < roles@.len(),
            source@ == role_principal(roles@[direct.role as int]),
            next@ == targets_upto(start, roles@, i as int, direct@, principal@, fetched@),
        decreases count - i,
    {
        next = try_target(next, roles, i, direct, &source, principal, fetched);
        i = i + 1;
    }
    next
}

/// The discovery after the first `n` of the directly reachable roles were followed.
pub open spec fn followed_upto(
    search: SearchView,
    roles: Seq<IamRole>,
    direct: Seq<DirectRolePathView>,
    principal: PrincipalContextView,
    fetched: Seq<PolicyListing>,
    n: int,
) -> SearchView
    decreases n,
{
    if n <= 0 {
        search
    } else {
        after_followed(
            followed_upto(search, roles, direct, principal, fetched, n - 1),
            roles,
            direct[n - 1],
            principal,
            fetched,
        )
    }
}

/// The limitations of every discovery.
pub open spec fn with_standing_limits(limitations: Seq<Seq<char>>) -> Seq<Seq<char>> {
    noted(
        noted(
            noted(
                limitations,
                "Role paths are inferred from visible IAM policies; Kingfisher does not assume discovered roles."@,
            ),
            "Organization policies, resource control policies, permissions boundaries, session policies, and request context can reduce effective access."@,
        ),
        "Role trust discovery is limited to roles visible in the caller's current account; cross-account target roles cannot be confirmed from this inventory."@,
    )
}

/// Whether as many roles were listed as are looked at.
pub open spec fn listing_full(roles: Seq<IamRole>) -> bool {
    roles.len() >= MAX_DISCOVERED_ROLES
}

/// How many roles are looked at.
pub open spec fn seen_count(roles: Seq<IamRole>) -> int {
    if listing_full(roles) {
        MAX_DISCOVERED_ROLES as int
    } else {
        roles.len() as int
    }
}

/// Whether the listing of roles is to be stopped.
pub fn role_listing_is_full(count: usize) -> (full: bool)
    ensures
        full == (count >= MAX_DISCOVERED_ROLES),
{
    count >= MAX_DISCOVERED_ROLES
}

fn count_seen(roles: &Vec<IamRole>) -> (count: usize)
    ensures
        count == seen_count(roles@),
        count <= roles@.len(),
{
    if roles.len() >= MAX_DISCOVERED_ROLES {
        MAX_DISCOVERED_ROLES
    } else {
        roles.len()
    }
}

/// The discovery before any role is looked at.
pub open spec fn search_start(
    evidence: AuthorizationEvidenceView,
    notes: Seq<Seq<char>>,
    roles: Seq<IamRole>,
    failure: Option<AwsFailure>,
) -> SearchView {
    let limited = with_standing_limits(evidence.limitations);
    SearchView {
        evidence: AuthorizationEvidenceView {
            limitations: if listing_full(roles) {
                noted(limited, "IAM role discovery stopped after 2000 roles."@)
            } else {
                noted_if(
                    limited,
                    failure is Some,
                    "IAM role inventory could not be completely enumerated."@,
                )
            },
            ..evidence
        },
        risk_notes: match failure {
            Some(found) => if listing_full(roles) {
                notes
            } else {
                notes_after_failure(notes, found)
            },
            None => notes,
        },
        edges: Seq::empty(),
        inspected: Seq::empty(),
        reachable: Seq::empty(),
        direct: Seq::empty(),
        used: 0,
        needed: None,
        stopped: false,
    }
}

fn start_search(
    evidence: AuthorizationEvidence,
    risk_notes: Vec<String>,
    roles: &Vec<IamRole>,
    failure: &Option<AwsFailure>,
) -> (search: Search)
    ensures
        search@ == search_start(evidence@, texts(risk_notes@), roles@, *failure),
{
    let mut evidence = evidence;
    let mut risk_notes = risk_notes;
    push_unique_note(
        &mut evidence.limitations,
        "Role paths are inferred from visible IAM policies; Kingfisher does not assume discovered roles.".to_owned(),
    );
    push_unique_note(
        &mut evidence.limitations,
        "Organization policies, resource control policies, permissions boundaries, session policies, and request context can reduce effective access.".to_owned(),
    );
    push_unique_note(
        &mut evidence.limitations,
        "Role trust discovery is limited to roles visible in the caller's current account; cross-account target roles cannot be confirmed from this inventory.".to_owned(),
    );
    if roles.len() >= MAX_DISCOVERED_ROLES {
        push_unique_note(
            &mut evidence.limitations,
            "IAM role discovery stopped after 2000 roles.".to_owned(),
        );
    } else {
        match failure {
            Some(found) => {
                record_iam_error(found, &mut risk_notes);
                push_unique_note(
                    &mut evidence.limitations,
                    "IAM role inventory could not be completely enumerated.".to_owned(),
                );
            },
            None => {},
        }
    }
    Search {
        evidence,
        risk_notes,
        edges: crate::keyed::no_pairs(),
        inspected: no_texts(),
        reachable: no_texts(),
        direct: crate::model::no_views(),
        used: 0,
        needed: None,
        stopped: false,
    }
}

/// The smaller of a length and the number of roles that are followed.
pub open spec fn followed_count(direct: Seq<DirectRolePathView>) -> int {
    if direct.len() > MAX_EXPANDED_PATH_ROLES {
        MAX_EXPANDED_PATH_ROLES as int
    } else {
        direct.len() as int
    }
}

/// The discovery once every role was held against the principal and those directly reachable were
/// followed as far as the fetched listings go.
pub open spec fn searched(
    evidence: AuthorizationEvidenceView,
    notes: Seq<Seq<char>>,
    roles: Seq<IamRole>,
    failure: Option<AwsFailure>,
    principal: PrincipalContextView,
    fetched: Seq<PolicyListing>,
) -> SearchView {
    let first = direct_upto(
        search_start(evidence, notes, roles, failure),
        roles,
        seen_count(roles),
        principal,
    );
    followed_upto(first, roles, first.direct, principal, fetched, followed_count(first.direct))
}

/// What the discovery comes to.
pub enum Discovery {
    /// The policies of the role at this position are needed before it can go on: they are fetched,
    /// put behind those fetched before, and the discovery is run again.
    NeedsPolicies(usize),
    /// It is done.
    Done(RolePathDiscovery),
}

/// What a discovery that is done found.
pub struct RolePathDiscovery {
    pub evidence: AuthorizationEvidence,
    pub risk_notes: Vec<String>,
    pub reachable_permissions: PermissionSummary,
}

/// The evidence with the limitations that the discovery ran into.
pub open spec fn with_search_limits(search: SearchView) -> AuthorizationEvidenceView {
    AuthorizationEvidenceView {
        limitations: noted_if(
            noted_if(
                search.evidence.limitations,
                search.direct.len() > MAX_EXPANDED_PATH_ROLES,
                "Second-hop policy expansion was limited to 32 directly reachable roles."@,
            ),
            search.inspected.len() >= MAX_PATH_ROLE_POLICY_EXPANSIONS,
            "Attached-policy collection was limited to 64 reachable roles."@,
        ),
        ..search.evidence
    }
}

proof fn lemma_direct_in_range(search: SearchView, roles: Seq<IamRole>, n: int, principal: PrincipalContextView)
    requires
        0 <= n <= roles.len(),
        search.direct.len() == 0,
    ensures
        forall|k: int|
            0 <= k < direct_upto(search, roles, n, principal).direct.len() ==> 0 <= (
            #[trigger] direct_upto(search, roles, n, principal).direct[k]).role < n,
    decreases n,
{
    if n > 0 {
        lemma_direct_in_range(search, roles, n - 1, principal);
        let before = direct_upto(search, roles, n - 1, principal).direct;
        let now = direct_upto(search, roles, n, principal).direct;
        assert forall|k: int| 0 <= k < now.len() implies 0 <= (#[trigger] now[k]).role < n by {
            if k < before.len() {
                assert(now[k] == before[k]);
            }
        }
    }
}

pub fn discover_role_paths(
    principal: &PrincipalContext,
    evidence: AuthorizationEvidence,
    risk_notes: Vec<String>,
    roles: &Vec<IamRole>,
    failure: &Option<AwsFailure>,
    fetched: &Vec<PolicyListing>,
) -> (found: Discovery)
    ensures
        ({
            let end = searched(
                evidence@,
                texts(risk_notes@),
                roles@,
                *failure,
                principal@,
                fetched@,
            );
            match found {
                Discovery::NeedsPolicies(role) => end.needed == Some(role as int),
                Discovery::Done(done) => {
                    &&& end.needed is None
                    &&& done.evidence@ == with_search_limits(end)
                    &&& texts(done.risk_notes@) == end.risk_notes
                    &&& done.reachable_permissions@ == classified(in_order(end.reachable))
                    &&& permission_count(done.reachable_permissions@) <= usize::MAX
                },
            }
        }),
{
    let mut search = start_search(evidence, risk_notes, roles, failure);
    let ghost start = search@;
    let seen = count_seen(roles);
    let mut i: usize = 0;
    while i < seen
        invariant
            i <= seen,
            seen == seen_count(roles@),
            search@ == direct_upto(start, roles@, i as int, principal@),
        decreases seen - i,
    {
        search = try_direct(search, roles, i, principal);
        i = i + 1;
    }
    let ghost first = search@;
    proof {
        lemma_direct_in_range(start, roles@, seen_count(roles@), principal@);
    }
    let mut direct: Vec<DirectRolePath> = Vec::new();
    let mut k: usize = 0;
    while k < search.direct.len()
        invariant
            k <= search.direct@.len(),
            direct@.len() == k,
            forall|j: int| 0 <= j < k ==> (#[trigger] direct@[j])@ == search.direct@[j]@,
        decreases search.direct@.len() - k,
    {
        direct.push(
            DirectRolePath {
                role: search.direct[k].role,
                path: copy_path(&search.direct[k].path),
            },
        );
        k = k + 1;
    }
    assert(views(direct@) =~= first.direct);
    assert forall|j: int| 0 <= j < direct@.len() implies (#[trigger] direct@[j]).role < roles@.len() by {
        assert(first.direct[j] == direct@[j]@);
    }
    let count: usize = if direct.len() > MAX_EXPANDED_PATH_ROLES {
        MAX_EXPANDED_PATH_ROLES
    } else {
        direct.len()
    };
    let mut j: usize = 0;
    while j < count
        invariant
            j <= count <= direct@.len(),
            views(direct@) == first.direct,
            forall|m: int| 0 <= m < direct@.len() ==> (#[trigger] direct@[m]).role < roles@.len(),
            search@ == followed_upto(first, roles@, first.direct, principal@, fetched@, j as int),
        decreases count - j,
    {
        assert(first.direct[j as int] == direct@[j as int]@);
        search = follow(search, roles, &direct[j], principal, fetched);
        j = j + 1;
    }
    match search.needed {
        Some(role) => Discovery::NeedsPolicies(role),
        None => {
            let mut evidence = search.evidence;
            note_if(
                &mut evidence.limitations,
                search.direct.len() > MAX_EXPANDED_PATH_ROLES,
                "Second-hop policy expansion was limited to 32 directly reachable roles.",
            );
            note_if(
                &mut evidence.limitations,
                search.inspected.len() >= MAX_PATH_ROLE_POLICY_EXPANSIONS,
                "Attached-policy collection was limited to 64 reachable roles.",
            );
            let reachable = sort_dedup(search.reachable);
            let total: usize = reachable.len();
            proof {
                crate::aws::severity::lemma_classes_part_the_actions(texts(reachable@));
                assert(texts(reachable@).len() == total);
            }
            Discovery::Done(
                RolePathDiscovery {
                    evidence,
                    risk_notes: search.risk_notes,
                    reachable_permissions: classify_permissions(&reachable),
                },
            )
        },
    }
}

/// Collecting policies leaves the paths as they are.
proof fn lemma_attached_keeps_paths(
    collection: PolicyCollectionView,
    list: Seq<crate::aws::collect::ManagedPolicyFetch>,
    owner: crate::aws::collect::PolicyOwnerView,
    n: int,
)
    ensures
        crate::aws::collect::attached_upto(collection, list, owner, n).evidence.paths == collection.evidence.paths,
    decreases n,
{
    if n > 0 {
        lemma_attached_keeps_paths(collection, list, owner, n - 1);
    }
}

proof fn lemma_inline_keeps_paths(
    collection: PolicyCollectionView,
    list: Seq<crate::aws::collect::InlinePolicyFetch>,
    owner: crate::aws::collect::PolicyOwnerView,
    n: int,
)
    ensures
        crate::aws::collect::inline_upto(collection, list, owner, n).evidence.paths == collection.evidence.paths,
    decreases n,
{
    if n > 0 {
        lemma_inline_keeps_paths(collection, list, owner, n - 1);
    }
}

proof fn lemma_listing_keeps_paths(
    collection: PolicyCollectionView,
    listing: PolicyListing,
    owner: crate::aws::collect::PolicyOwnerView,
)
    ensures
        listing_after(collection, listing, owner).evidence.paths == collection.evidence.paths,
{
    lemma_attached_keeps_paths(collection, listing.attached@, owner, listing.attached@.len() as int);
    let middle = crate::aws::collect::after_listing(
        crate::aws::collect::attached_upto(
            collection,
            listing.attached@,
            owner,
            listing.attached@.len() as int,
        ),
        listing.attached_failure,
    );
    lemma_inline_keeps_paths(middle, listing.inline@, owner, listing.inline@.len() as int);
}

/// A role of the inventory other than the one that `source` is.
pub open spec fn other_role(roles: Seq<IamRole>, source: Seq<char>, arn: Seq<char>) -> bool {
    arn != source && exists|k: int| 0 <= k < roles.len() && (#[trigger] roles[k]).arn@ == arn
}

/// A path of one hop or two that starts at `source`, goes on where its first hop ended, and leads
/// to another role of the inventory with each hop.
pub open spec fn leads_from(path: AuthorizationPathView, roles: Seq<IamRole>, source: Seq<char>) -> bool {
    &&& 1 <= path.hops.len() <= 2
    &&& path.hops[0].from == source
    &&& forall|k: int| 0 <= k < path.hops.len() ==> other_role(roles, source, (#[trigger] path.hops[k]).to)
    &&& path.hops.len() == 2 ==> path.hops[1].from == path.hops[0].to && path.hops[1].to
        != path.hops[0].to
}

/// The paths `after` are the paths `before` and then, as far as the limit allows, further ones
/// that lead from `source` to roles of the inventory.
pub open spec fn only_found_paths(
    before: Seq<AuthorizationPathView>,
    after: Seq<AuthorizationPathView>,
    roles: Seq<IamRole>,
    source: Seq<char>,
) -> bool {
    &&& before.is_prefix_of(after)
    &&& after.len() == before.len() || after.len() <= MAX_AUTHORIZATION_PATHS
    &&& forall|i: int| before.len() <= i < after.len() ==> leads_from(#[trigger] after[i], roles, source)
}

/// Every direct path leads to another role of the inventory.
spec fn direct_within(direct: Seq<DirectRolePathView>, roles: Seq<IamRole>, source: Seq<char>) -> bool {
    forall|k: int|
        0 <= k < direct.len() ==> 0 <= (#[trigger] direct[k]).role < roles.len()
            && roles[direct[k].role].arn@ != source
}

proof fn lemma_with_path_found(
    start: Seq<AuthorizationPathView>,
    evidence: AuthorizationEvidenceView,
    path: AuthorizationPathView,
    roles: Seq<IamRole>,
    source: Seq<char>,
)
    requires
        only_found_paths(start, evidence.paths, roles, source),
        leads_from(path, roles, source),
    ensures
        only_found_paths(start, with_path(evidence, path).paths, roles, source),
{
    let next = with_path(evidence, path);
    if !paths_full(evidence) {
        assert(next.paths.subrange(0, start.len() as int) =~= evidence.paths.subrange(
            0,
            start.len() as int,
        ));
        assert forall|i: int| start.len() <= i < next.paths.len() implies leads_from(
            #[trigger] next.paths[i],
            roles,
            source,
        ) by {
            if i < evidence.paths.len() {
                assert(next.paths[i] == evidence.paths[i]);
            }
        }
    }
}

proof fn lemma_direct_found(
    start: Seq<AuthorizationPathView>,
    search: SearchView,
    roles: Seq<IamRole>,
    n: int,
    principal: PrincipalContextView,
)
    requires
        n <= roles.len(),
        only_found_paths(start, search.evidence.paths, roles, authorizing_arn(principal)),
        direct_within(search.direct, roles, authorizing_arn(principal)),
    ensures
        only_found_paths(
            start,
            direct_upto(search, roles, n, principal).evidence.paths,
            roles,
            authorizing_arn(principal),
        ),
        direct_within(
            direct_upto(search, roles, n, principal).direct,
            roles,
            authorizing_arn(principal),
        ),
    decreases n,
{
    if n > 0 {
        lemma_direct_found(start, search, roles, n - 1, principal);
        let before = direct_upto(search, roles, n - 1, principal);
        let role = roles[n - 1];
        let source = authorizing_arn(principal);
        match role.assume_role_policy_document {
            Some(document) => {
                let matches = document_trusts(document@, role.arn@, principal);
                let trusted = with_trust(before, role, document@);
                assert(trusted.evidence.paths == before.evidence.paths);
                match role_path(source, role.arn@, matches, trusted.evidence) {
                    Some(path) => if role.arn@ != source {
                        assert(path.hops[0] == assume_hop(source, role.arn@));
                        assert(leads_from(path, roles, source));
                        lemma_with_path_found(start, trusted.evidence, path, roles, source);
                    },
                    None => {},
                }
            },
            None => {},
        }
    }
}

proof fn lemma_role_policies_keep_paths(
    search: SearchView,
    roles: Seq<IamRole>,
    i: int,
    fetched: Seq<PolicyListing>,
)
    ensures
        with_role_policies(search, roles, i, fetched).evidence.paths == search.evidence.paths,
{
    if search.used < fetched.len() {
        lemma_listing_keeps_paths(
            nothing_collected(search.evidence, search.risk_notes),
            fetched[search.used],
            role_owner(roles[i].role_name@, roles[i].arn@),
        );
    }
}

proof fn lemma_targets_found(
    start: Seq<AuthorizationPathView>,
    search: SearchView,
    roles: Seq<IamRole>,
    n: int,
    direct: DirectRolePathView,
    principal: PrincipalContextView,
    fetched: Seq<PolicyListing>,
)
    requires
        n <= roles.len(),
        0 <= direct.role < roles.len(),
        roles[direct.role].arn@ != authorizing_arn(principal),
        only_found_paths(start, search.evidence.paths, roles, authorizing_arn(principal)),
    ensures
        only_found_paths(
            start,
            targets_upto(search, roles, n, direct, principal, fetched).evidence.paths,
            roles,
            authorizing_arn(principal),
        ),
    decreases n,
{
    if n > 0 {
        lemma_targets_found(start, search, roles, n - 1, direct, principal, fetched);
        let before = targets_upto(search, roles, n - 1, direct, principal, fetched);
        let target = roles[n - 1];
        let through = roles[direct.role].arn@;
        let source = authorizing_arn(principal);
        let seen = SearchView { edges: before.edges.push((through, target.arn@)), ..before };
        match target.assume_role_policy_document {
            Some(document) => {
                let matches = document_trusts(
                    document@,
                    target.arn@,
                    role_principal(roles[direct.role]),
                );
                let trusted = with_trust(seen, target, document@);
                assert(trusted.evidence.paths == before.evidence.paths);
                match role_path(through, target.arn@, matches, trusted.evidence) {
                    Some(second) => if target.arn@ != through && target.arn@ != source {
                        let path = extended_path(direct.path, second, source, through);
                        assert(path.hops[0] == assume_hop(source, through));
                        assert(path.hops[1] == assume_hop(through, target.arn@));
                        assert(leads_from(path, roles, source));
                        lemma_with_path_found(start, trusted.evidence, path, roles, source);
                        let reached = SearchView {
                            evidence: with_path(trusted.evidence, path),
                            ..trusted
                        };
                        lemma_role_policies_keep_paths(
                            SearchView {
                                inspected: reached.inspected.push(target.arn@),
                                ..reached
                            },
                            roles,
                            n - 1,
                            fetched,
                        );
                    },
                    None => {},
                }
            },
            None => {},
        }
    }
}

proof fn lemma_followed_found(
    start: Seq<AuthorizationPathView>,
    search: SearchView,
    roles: Seq<IamRole>,
    direct: Seq<DirectRolePathView>,
    principal: PrincipalContextView,
    fetched: Seq<PolicyListing>,
    n: int,
)
    requires
        n <= direct.len(),
        only_found_paths(start, search.evidence.paths, roles, authorizing_arn(principal)),
        direct_within(direct, roles, authorizing_arn(principal)),
    ensures
        only_found_paths(
            start,
            followed_upto(search, roles, direct, principal, fetched, n).evidence.paths,
            roles,
            authorizing_arn(principal),
        ),
    decreases n,
{
    if n > 0 {
        lemma_followed_found(start, search, roles, direct, principal, fetched, n - 1);
        let before = followed_upto(search, roles, direct, principal, fetched, n - 1);
        let step = direct[n - 1];
        let marked = SearchView {
            inspected: noted(before.inspected, roles[step.role].arn@),
            ..before
        };
        lemma_role_policies_keep_paths(marked, roles, step.role, fetched);
        let own = with_role_policies(marked, roles, step.role, fetched);
        lemma_targets_found(
            start,
            SearchView { stopped: false, ..own },
            roles,
            seen_count(roles),
            step,
            principal,
            fetched,
        );
    }
}

/// However many roles are visible, the discovery keeps the paths that were there and adds only as
/// many as the limit on paths allows. Each path that it adds starts at the credential's own
/// identity, has one hop or two, the second of which starts where the first ends, and leads with
/// each hop to another role of the inventory.
pub proof fn lemma_discovery_is_bounded(
    evidence: AuthorizationEvidenceView,
    notes: Seq<Seq<char>>,
    roles: Seq<IamRole>,
    failure: Option<AwsFailure>,
    principal: PrincipalContextView,
    fetched: Seq<PolicyListing>,
)
    ensures
        only_found_paths(
            evidence.paths,
            with_search_limits(searched(evidence, notes, roles, failure, principal, fetched)).paths,
            roles,
            authorizing_arn(principal),
        ),
{
    let before = search_start(evidence, notes, roles, failure);
    assert(before.evidence.paths == evidence.paths);
    lemma_direct_found(evidence.paths, before, roles, seen_count(roles), principal);
    let first = direct_upto(before, roles, seen_count(roles), principal);
    lemma_followed_found(
        evidence.paths,
        first,
        roles,
        first.direct,
        principal,
        fetched,
        followed_count(first.direct),
    );
}

proof fn lemma_trust_documents_are_not_own(
    evidence: AuthorizationEvidenceView,
    document: Seq<char>,
    role_arn: Seq<char>,
    source: Seq<char>,
)
    requires
        no_own_statement_reads(evidence, source, "deny"@),
    ensures
        no_own_statement_reads(
            with_document(evidence, document, trust_source(role_arn)),
            source,
            "deny"@,
        ),
{
    let next = with_document(evidence, document, trust_source(role_arn));
    assert forall|i: int, j: int| #[trigger] own_statement(next, source, i, j) implies ascii_lower(
        next.policies[i].statements[j].effect,
    ) != "deny"@ by {
        if i < evidence.policies.len() {
            assert(next.policies[i] == evidence.policies[i]);
            assert(own_statement(evidence, source, i, j));
        }
    }
}

proof fn lemma_same_policies(
    a: AuthorizationEvidenceView,
    b: AuthorizationEvidenceView,
    source: Seq<char>,
)
    requires
        a.policies == b.policies,
        no_own_statement_reads(a, source, "deny"@),
    ensures
        no_own_statement_reads(b, source, "deny"@),
{
    assert forall|i: int, j: int| #[trigger] own_statement(b, source, i, j) implies ascii_lower(
        b.policies[i].statements[j].effect,
    ) != "deny"@ by {
        assert(own_statement(a, source, i, j));
    }
}

/// The path of one hop from `source` to `target` is among the paths.
pub open spec fn has_direct_path(paths: Seq<AuthorizationPathView>, source: Seq<char>, target: Seq<char>) -> bool {
    exists|i: int|
        0 <= i < paths.len() && (#[trigger] paths[i]).hops.len() == 1 && paths[i].hops[0].from == source
            && paths[i].hops[0].to == target
}

/// The trust policy of a role trusts the principal.
pub open spec fn role_trusts(role: IamRole, principal: PrincipalContextView) -> bool {
    &&& role.arn@ != authorizing_arn(principal)
    &&& role.assume_role_policy_document is Some
    &&& document_trusts(
        role.assume_role_policy_document->0@,
        role.arn@,
        principal,
    ).len() > 0
}

proof fn lemma_direct_complete(
    search: SearchView,
    roles: Seq<IamRole>,
    n: int,
    principal: PrincipalContextView,
)
    requires
        0 <= n <= roles.len(),
        no_own_statement_reads(search.evidence, authorizing_arn(principal), "deny"@),
        !search.stopped,
    ensures
        ({
            let now = direct_upto(search, roles, n, principal);
            &&& no_own_statement_reads(now.evidence, authorizing_arn(principal), "deny"@)
            &&& now.stopped ==> paths_full(now.evidence)
            &&& forall|k: int|
                0 <= k < n && role_trusts(#[trigger] roles[k], principal) ==> paths_full(now.evidence)
                    || has_direct_path(
                    now.evidence.paths,
                    authorizing_arn(principal),
                    roles[k].arn@,
                )
        }),
    decreases n,
{
    if n > 0 {
        lemma_direct_complete(search, roles, n - 1, principal);
        let before = direct_upto(search, roles, n - 1, principal);
        let now = direct_upto(search, roles, n, principal);
        let role = roles[n - 1];
        let source = authorizing_arn(principal);
        match role.assume_role_policy_document {
            Some(document) => {
                let matches = document_trusts(document@, role.arn@, principal);
                let trusted = with_trust(before, role, document@);
                lemma_trust_documents_are_not_own(before.evidence, document@, role.arn@, source);
                assert(trusted.evidence.paths == before.evidence.paths);
                if now.evidence.policies == before.evidence.policies {
                    lemma_same_policies(before.evidence, now.evidence, source);
                } else {
                    lemma_same_policies(trusted.evidence, now.evidence, source);
                }
                if matches.len() > 0 {
                    lemma_trusted_roles_are_reached(source, role.arn@, matches, trusted.evidence);
                    if now.evidence.paths.len() > before.evidence.paths.len() {
                        assert(now.evidence.paths[before.evidence.paths.len() as int].hops.len() == 1);
                    }
                }
            },
            None => {
                lemma_same_policies(before.evidence, now.evidence, source);
            },
        }
        assert forall|target: Seq<char>| #[trigger] has_direct_path(before.evidence.paths, source, target) implies has_direct_path(
        now.evidence.paths, source, target) by {
            let i = choose|i: int|
                0 <= i < before.evidence.paths.len() && (#[trigger] before.evidence.paths[i]).hops.len()
                    == 1 && before.evidence.paths[i].hops[0].from == source
                    && before.evidence.paths[i].hops[0].to == target;
            assert(now.evidence.paths[i] == before.evidence.paths[i]);
        }
    }
}

/// Every role that trusts the credential's identity is reported: where none of the identity's own
/// policies denies anything, the discovery ends with a path of one hop to each visible role whose
/// trust policy trusts the identity, or with as many paths as there may be.
pub proof fn lemma_trusting_roles_are_discovered(
    evidence: AuthorizationEvidenceView,
    notes: Seq<Seq<char>>,
    roles: Seq<IamRole>,
    failure: Option<AwsFailure>,
    principal: PrincipalContextView,
    fetched: Seq<PolicyListing>,
    k: int,
)
    requires
        0 <= k < roles.len(),
        k < MAX_DISCOVERED_ROLES,
        role_trusts(roles[k], principal),
        no_own_statement_reads(evidence, authorizing_arn(principal), "deny"@),
    ensures
        ({
            let found = with_search_limits(
                searched(evidence, notes, roles, failure, principal, fetched),
            ).paths;
            found.len() >= MAX_AUTHORIZATION_PATHS || has_direct_path(
                found,
                authorizing_arn(principal),
                roles[k].arn@,
            )
        }),
{
    let source = authorizing_arn(principal);
    let before = search_start(evidence, notes, roles, failure);
    assert(before.evidence.policies == evidence.policies);
    lemma_same_policies(evidence, before.evidence, source);
    lemma_direct_complete(before, roles, seen_count(roles), principal);
    lemma_direct_found(before.evidence.paths, before, roles, seen_count(roles), principal);
    let first = direct_upto(before, roles, seen_count(roles), principal);
    lemma_followed_found(
        first.evidence.paths,
        first,
        roles,
        first.direct,
        principal,
        fetched,
        followed_count(first.direct),
    );
    let last = searched(evidence, notes, roles, failure, principal, fetched).evidence.paths;
    assert(first.evidence.paths =~= last.subrange(0, first.evidence.paths.len() as int));
    if has_direct_path(first.evidence.paths, source, roles[k].arn@) {
        let i = choose|i: int|
            0 <= i < first.evidence.paths.len() && (#[trigger] first.evidence.paths[i]).hops.len() == 1
                && first.evidence.paths[i].hops[0].from == source
                && first.evidence.paths[i].hops[0].to == roles[k].arn@;
        assert(last[i] == first.evidence.paths[i]);
    }
}

/// A role that trusts a role already reached is reported as a path of two hops, as sure as the less
/// sure of the two, where neither hop was followed before, there is room for the path, and none of
/// the reached role's own policies denies anything.
pub proof fn lemma_second_hops_are_discovered(
    search: SearchView,
    roles: Seq<IamRole>,
    i: int,
    direct: DirectRolePathView,
    principal: PrincipalContextView,
    fetched: Seq<PolicyListing>,
)
    requires
        0 <= i < roles.len(),
        0 <= direct.role < roles.len(),
        !search.stopped,
        search.needed is None,
        search.evidence.paths.len() < MAX_AUTHORIZATION_PATHS,
        roles[i].arn@ != authorizing_arn(principal),
        !search.edges.contains((roles[direct.role].arn@, roles[i].arn@)),
        role_trusts(roles[i], role_principal(roles[direct.role])),
        no_own_statement_reads(search.evidence, roles[direct.role].arn@, "deny"@),
    ensures
        ({
            let paths = after_target(search, roles, i, direct, principal, fetched).evidence.paths;
            let path = paths.last();
            &&& paths.len() == search.evidence.paths.len() + 1
            &&& path.hops.len() == 2
            &&& path.hops[0].from == authorizing_arn(principal)
            &&& path.hops[0].to == roles[direct.role].arn@
            &&& path.hops[1].from == roles[direct.role].arn@
            &&& path.hops[1].to == roles[i].arn@
            &&& direct.path.status == "conditional"@ ==> path.status == "conditional"@
        }),
{
    let target = roles[i];
    let through = roles[direct.role].arn@;
    let source = authorizing_arn(principal);
    let document = target.assume_role_policy_document->0@;
    let matches = document_trusts(document, target.arn@, role_principal(roles[direct.role]));
    let seen = SearchView { edges: search.edges.push((through, target.arn@)), ..search };
    let trusted = with_trust(seen, target, document);
    lemma_trust_documents_are_not_own(seen.evidence, document, target.arn@, through);
    lemma_trusted_roles_are_reached(through, target.arn@, matches, trusted.evidence);
    let second = role_path(through, target.arn@, matches, trusted.evidence)->0;
    let path = extended_path(direct.path, second, source, through);
    let reached = SearchView { evidence: with_path(trusted.evidence, path), ..trusted };
    assert(reached.evidence.paths == search.evidence.paths.push(path));
    lemma_role_policies_keep_paths(
        SearchView { inspected: reached.inspected.push(target.arn@), ..reached },
        roles,
        i,
        fetched,
    );
    lemma_hops_are_as_sure_as_the_weaker(direct.path.status, second.status);
}

} // verus!
