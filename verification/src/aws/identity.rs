//! AWS principals: what an ARN says of them.

use vstd::prelude::*;
use crate::model::{binding, no_views, one_view, pairs, views, RoleBinding, RoleBindingView};
use crate::text::{
    contains, cut, holds, is_one_of, lemma_pieces_of_parts, lemma_pieces_some, no_texts, opt_text,
    pieces, slices, split, split_once, stands_at, str_eq, texts,
};

verus! {

/// A principal and what is known of it.
#[derive(Clone, Debug)]
pub struct PrincipalContext {
    pub raw_arn: String,
    pub canonical_arn: Option<String>,
    pub account_id: Option<String>,
    pub user_id: Option<String>,
    pub kind: String,
    pub name: Option<String>,
    /// Tag keys and values, in the order of the keys.
    pub tags: Vec<(String, String)>,
    pub tags_complete: bool,
}

/// What a `PrincipalContext` says.
#[verifier::ext_equal]
pub struct PrincipalContextView {
    pub raw_arn: Seq<char>,
    pub canonical_arn: Option<Seq<char>>,
    pub account_id: Option<Seq<char>>,
    pub user_id: Option<Seq<char>>,
    pub kind: Seq<char>,
    pub name: Option<Seq<char>>,
    pub tags: Seq<(Seq<char>, Seq<char>)>,
    pub tags_complete: bool,
}

impl View for PrincipalContext {
    type V = PrincipalContextView;

    open spec fn view(&self) -> PrincipalContextView {
        PrincipalContextView {
            raw_arn: self.raw_arn@,
            canonical_arn: opt_text(self.canonical_arn),
            account_id: opt_text(self.account_id),
            user_id: opt_text(self.user_id),
            kind: self.kind@,
            name: opt_text(self.name),
            tags: pairs(self.tags@),
            tags_complete: self.tags_complete,
        }
    }
}

/// The kind of identity that an ARN stands for.
pub open spec fn identity_kind(arn: Seq<char>) -> Seq<char> {
    if holds(arn, ":assumed-role/"@) {
        "assumed_role"@
    } else if holds(arn, ":role/"@) {
        "role"@
    } else if holds(arn, ":user/"@) {
        "user"@
    } else if holds(arn, ":root"@) {
        "root"@
    } else {
        "unknown"@
    }
}

pub fn classify_identity(arn: &str) -> (kind: &'static str)
    ensures
        kind@ == identity_kind(arn@),
{
    if contains(arn, ":assumed-role/") {
        "assumed_role"
    } else if contains(arn, ":role/") {
        "role"
    } else if contains(arn, ":user/") {
        "user"
    } else if contains(arn, ":root") {
        "root"
    } else {
        "unknown"
    }
}

/// The name in the resource part of an ARN: for a session of a role the name of the role, else
/// what follows the path.
pub open spec fn resource_name(resource: Seq<char>, kinds: Seq<Seq<char>>) -> Option<Seq<char>> {
    match cut(resource, "/"@) {
        None => None,
        Some(parts) => if !kinds.contains(parts.0) {
            None
        } else {
            let names = pieces(parts.1, '/');
            let name = if parts.0 == "assumed-role"@ {
                names[0]
            } else {
                names.last()
            };
            if name.len() == 0 {
                None
            } else {
                Some(name)
            }
        },
    }
}

pub fn principal_name_from_resource(resource: &str, kinds: &[&str]) -> (name: Option<String>)
    ensures
        opt_text(name) == resource_name(resource@, slices(kinds@)),
{
    match split_once(resource, "/") {
        None => None,
        Some((kind, rest)) => {
            if !is_one_of(kinds, kind.as_str()) {
                return None;
            }
            let names = split(rest.as_str(), '/');
            let at: usize = if str_eq(kind.as_str(), "assumed-role") {
                0
            } else {
                names.len() - 1
            };
            assert(texts(names@)[at as int] == names@[at as int]@);
            if names[at].as_str().is_empty() {
                None
            } else {
                Some(names[at].clone())
            }
        },
    }
}

/// The resource part of an ARN: what stands between its fifth and its sixth colon.
pub open spec fn arn_resource(arn: Seq<char>) -> Seq<char> {
    let fields = pieces(arn, ':');
    if fields.len() > 5 {
        fields[5]
    } else {
        Seq::empty()
    }
}

pub fn resource_of_arn(arn: &str) -> (resource: String)
    ensures
        resource@ == arn_resource(arn@),
{
    let fields = split(arn, ':');
    if fields.len() > 5 {
        assert(texts(fields@)[5] == fields@[5]@);
        fields[5].clone()
    } else {
        String::new()
    }
}

/// The account that an ARN belongs to.
pub open spec fn account_of(arn: Seq<char>) -> Option<Seq<char>> {
    let fields = pieces(arn, ':');
    if fields.len() >= 5 && fields[0] == "arn"@ && fields[4].len() > 0 {
        Some(fields[4])
    } else {
        None
    }
}

pub fn arn_account(arn: &str) -> (account: Option<String>)
    ensures
        opt_text(account) == account_of(arn@),
{
    let fields = split(arn, ':');
    assert(forall|i: int| 0 <= i < fields@.len() ==> #[trigger] texts(fields@)[i] == fields@[i]@);
    if fields.len() >= 5 && str_eq(fields[0].as_str(), "arn") && !fields[4].as_str().is_empty() {
        Some(fields[4].clone())
    } else {
        None
    }
}

/// Whether an ARN is that of an account as a whole.
pub open spec fn is_root_arn(arn: Seq<char>) -> bool {
    let fields = pieces(arn, ':');
    fields.len() == 6 && fields[0] == "arn"@ && fields[2] == "iam"@ && fields[3].len() == 0
        && fields[4].len() > 0 && fields[5] == "root"@
}

pub fn is_account_root_arn(arn: &str) -> (yes: bool)
    ensures
        yes == is_root_arn(arn@),
{
    let fields = split(arn, ':');
    assert(forall|i: int| 0 <= i < fields@.len() ==> #[trigger] texts(fields@)[i] == fields@[i]@);
    fields.len() == 6 && str_eq(fields[0].as_str(), "arn") && str_eq(fields[2].as_str(), "iam")
        && fields[3].as_str().is_empty() && !fields[4].as_str().is_empty() && str_eq(
        fields[5].as_str(),
        "root",
    )
}

/// The roles that an ARN stands for.
pub open spec fn arn_roles(arn: Seq<char>) -> Seq<RoleBindingView> {
    match resource_name(arn_resource(arn), seq!["assumed-role"@, "role"@]) {
        Some(name) => seq![binding(name, "iam"@, Seq::empty())],
        None => Seq::empty(),
    }
}

pub fn derive_roles_from_arn(arn: &str) -> (roles: Vec<RoleBinding>)
    ensures
        views(roles@) == arn_roles(arn@),
{
    let resource = resource_of_arn(arn);
    let kinds: [&str; 2] = ["assumed-role", "role"];
    assert(slices(kinds@) =~= seq!["assumed-role"@, "role"@]);
    match principal_name_from_resource(resource.as_str(), &kinds) {
        Some(name) => one_view(RoleBinding::new(name.as_str(), "iam", no_texts())),
        None => no_views(),
    }
}

/// The name that an ARN gives its principal.
pub open spec fn arn_name(arn: Seq<char>) -> Option<Seq<char>> {
    resource_name(arn_resource(arn), seq!["assumed-role"@, "role"@, "user"@])
}

/// The ARN that policies speak of: the resolved one where there is one.
pub open spec fn authorizing_arn(principal: PrincipalContextView) -> Seq<char> {
    match principal.canonical_arn {
        Some(arn) => arn,
        None => principal.raw_arn,
    }
}

/// A principal of which nothing but its ARN and its IDs is known.
pub open spec fn bare_principal(
    raw_arn: Seq<char>,
    account_id: Option<Seq<char>>,
    user_id: Option<Seq<char>>,
    kind: Seq<char>,
) -> PrincipalContextView {
    PrincipalContextView {
        raw_arn,
        canonical_arn: None,
        account_id,
        user_id,
        kind,
        name: arn_name(raw_arn),
        tags: Seq::empty(),
        tags_complete: false,
    }
}

impl PrincipalContext {
    pub fn new(
        raw_arn: String,
        account_id: Option<String>,
        user_id: Option<String>,
        kind: &str,
    ) -> (principal: Self)
        ensures
            principal@ == bare_principal(raw_arn@, opt_text(account_id), opt_text(user_id), kind@),
    {
        let resource = resource_of_arn(raw_arn.as_str());
        let kinds: [&str; 3] = ["assumed-role", "role", "user"];
        assert(slices(kinds@) =~= seq!["assumed-role"@, "role"@, "user"@]);
        let name = principal_name_from_resource(resource.as_str(), &kinds);
        PrincipalContext {
            raw_arn,
            canonical_arn: None,
            account_id,
            user_id,
            kind: kind.to_owned(),
            name,
            tags: crate::keyed::no_pairs(),
            tags_complete: false,
        }
    }

    pub fn authorization_arn(&self) -> (arn: &str)
        ensures
            arn@ == authorizing_arn(self@),
    {
        match &self.canonical_arn {
            Some(arn) => arn.as_str(),
            None => self.raw_arn.as_str(),
        }
    }
}

/// The ARN of a resource, part by part.
pub open spec fn arn_text(
    partition: Seq<char>,
    service: Seq<char>,
    region: Seq<char>,
    account: Seq<char>,
    resource: Seq<char>,
) -> Seq<char> {
    seq!['a', 'r', 'n'] + seq![':'] + (partition + seq![':'] + (service + seq![':'] + (region + seq![':']
        + (account + seq![':'] + resource))))
}

/// An ARN belongs to the account that it names, whatever partition, service, region and resource it
/// speaks of. It is the root of that account exactly where it is the resource `root` of IAM.
pub proof fn lemma_arns_belong_to_their_account(
    partition: Seq<char>,
    service: Seq<char>,
    region: Seq<char>,
    account: Seq<char>,
    resource: Seq<char>,
)
    requires
        !partition.contains(':'),
        !service.contains(':'),
        !region.contains(':'),
        !account.contains(':'),
        account.len() > 0,
    ensures
        account_of(arn_text(partition, service, region, account, resource)) == Some(account),
        !resource.contains(':') ==> is_root_arn(
            arn_text(partition, service, region, account, resource),
        ) == (service == "iam"@ && region.len() == 0 && resource == "root"@),
        !resource.contains(':') ==> arn_resource(
            arn_text(partition, service, region, account, resource),
        ) == resource,
{
    reveal_strlit("arn");
    let head = seq!['a', 'r', 'n'];
    assert("arn"@ =~= head);
    let last = account + seq![':'] + resource;
    let third = region + seq![':'] + last;
    let second = service + seq![':'] + third;
    let first = partition + seq![':'] + second;
    assert(!head.contains(':'));
    lemma_pieces_of_parts(head, first, ':');
    lemma_pieces_of_parts(partition, second, ':');
    lemma_pieces_of_parts(service, third, ':');
    lemma_pieces_of_parts(region, last, ':');
    lemma_pieces_of_parts(account, resource, ':');
    lemma_pieces_of_parts(resource, resource, ':');
    lemma_pieces_some(resource, ':');
    let fields = pieces(arn_text(partition, service, region, account, resource), ':');
    assert(fields[0] == head);
    assert(fields[1] == partition);
    assert(fields[2] == service);
    assert(fields[3] == region);
    assert(fields[4] == account);
    if !resource.contains(':') {
        assert(fields[5] == resource);
        assert(fields.len() == 6);
    }
}

/// An identity is what its ARN says: the session of a role, a role, a user or the root of an account;
/// and a session of a role is never taken for the role or a user.
pub proof fn lemma_identity_kinds(arn: Seq<char>)
    ensures
        holds(arn, ":assumed-role/"@) ==> identity_kind(arn) == "assumed_role"@,
        holds(arn, ":role/"@) && !holds(arn, ":assumed-role/"@) ==> identity_kind(arn) == "role"@,
        holds(arn, ":user/"@) && !holds(arn, ":assumed-role/"@) && !holds(arn, ":role/"@)
            ==> identity_kind(arn) == "user"@,
        holds(arn, ":root"@) && !holds(arn, "/"@) ==> identity_kind(arn) == "root"@,
{
    if !holds(arn, "/"@) {
        reveal_strlit(":assumed-role/");
        reveal_strlit(":role/");
        reveal_strlit(":user/");
        lemma_slashes(arn, ":assumed-role/"@);
        lemma_slashes(arn, ":role/"@);
        lemma_slashes(arn, ":user/"@);
    }
}

proof fn lemma_slashes(arn: Seq<char>, mark: Seq<char>)
    requires
        !holds(arn, "/"@),
        mark.len() > 0 && mark.last() == '/',
    ensures
        !holds(arn, mark),
{
    reveal_strlit("/");
    if holds(arn, mark) {
        let k = choose|k: int| #[trigger] stands_at(arn, mark, k);
        let at = k + mark.len() - 1;
        assert(arn.subrange(k, k + mark.len())[mark.len() - 1] == '/');
        assert(arn.subrange(at, at + 1) =~= "/"@);
        assert(stands_at(arn, "/"@, at));
    }
}

} // verus!
