//! DigitalOcean tokens.

use vstd::prelude::*;
use crate::mapping::{build_recommendations, recommendations};
use crate::model::{
    binding, empty_access_token_details, empty_permission_summary, exposure, no_views, push_view,
    views, AccessMapResult, AccessMapResultView, AccessSummary, AccessSummaryView,
    AccessTokenDetails, AccessTokenDetailsView, PermissionSummary, PermissionSummaryView,
    ResourceExposure, ResourceExposureView, RoleBinding, RoleBindingView, Severity,
};
use crate::permissions::{
    class_list, file_permission, filed, lemma_filed, lemma_sorted_classes_stay_filled,
    lemma_sorted_summary, sort_permission_summary, sorted_summary, PermissionClass,
};
use crate::text::{
    cat2, cat3, copy_opt, decimal, either, first_text, flag_set, is_set, no_texts, one_text,
    opt_text, push_text, text_else, text_or, texts, two_texts, u64_text, unwrap_text,
};

verus! {

/// A DigitalOcean account and the name of its team.
#[derive(Debug)]
pub struct DigitalOceanAccount {
    pub email: Option<String>,
    pub uuid: Option<String>,
    pub team_name: Option<String>,
}

/// A project.
#[derive(Debug)]
pub struct DigitalOceanProject {
    pub id: Option<String>,
    pub name: Option<String>,
    pub is_default: Option<bool>,
}

/// A droplet.
#[derive(Debug)]
pub struct DigitalOceanDroplet {
    pub id: Option<u64>,
    pub name: Option<String>,
    pub status: Option<String>,
}

/// A managed database.
#[derive(Debug)]
pub struct DigitalOceanDatabase {
    pub id: Option<String>,
    pub name: Option<String>,
    pub engine: Option<String>,
}

/// A Kubernetes cluster.
#[derive(Debug)]
pub struct DigitalOceanKubernetesCluster {
    pub id: Option<String>,
    pub name: Option<String>,
    pub region: Option<String>,
}

/// What DigitalOcean answered. A listing that failed holds nothing.
#[derive(Debug)]
pub struct DigitalOceanReplies {
    pub account: DigitalOceanAccount,
    pub projects: Vec<DigitalOceanProject>,
    pub droplets: Vec<DigitalOceanDroplet>,
    pub databases: Vec<DigitalOceanDatabase>,
    pub clusters: Vec<DigitalOceanKubernetesCluster>,
}

/// Says what is wrong with an answer to the lookup of the account, if something is.
pub fn account_error(success: bool, status: &str, has_account: bool) -> (error: Option<String>)
    ensures
        opt_text(error) == if !success {
            Some("DigitalOcean access-map: account lookup failed with HTTP "@ + status@)
        } else if !has_account {
            Some("DigitalOcean access-map: account field missing from response"@)
        } else {
            None
        },
{
    if !success {
        Some(cat2("DigitalOcean access-map: account lookup failed with HTTP ", status))
    } else if !has_account {
        Some("DigitalOcean access-map: account field missing from response".to_owned())
    } else {
        None
    }
}

/// The resource that stands for a project.
pub open spec fn project_exposure(project: DigitalOceanProject) -> ResourceExposureView {
    exposure(
        "project"@,
        text_else(either(opt_text(project.name), opt_text(project.id)), "unknown_project"@),
        seq!["project:read"@],
        Severity::Low,
        if is_set(project.is_default) {
            "Default DigitalOcean project"@
        } else {
            "DigitalOcean project accessible with this token"@
        },
    )
}

fn expose_project(project: &DigitalOceanProject) -> (resource: ResourceExposure)
    ensures
        resource@ == project_exposure(*project),
{
    let reason: &str = if flag_set(project.is_default) {
        "Default DigitalOcean project"
    } else {
        "DigitalOcean project accessible with this token"
    };
    ResourceExposure::new(
        "project",
        first_text(&project.name, &project.id, "unknown_project").as_str(),
        one_text("project:read"),
        Severity::Low,
        reason,
    )
}

/// The resources that stand for the first `n` projects.
pub open spec fn projects_upto(list: Seq<DigitalOceanProject>, n: int) -> Seq<ResourceExposureView>
    decreases n,
{
    if n <= 0 {
        Seq::empty()
    } else {
        projects_upto(list, n - 1).push(project_exposure(list[n - 1]))
    }
}

fn add_projects(resources: &mut Vec<ResourceExposure>, list: &Vec<DigitalOceanProject>)
    ensures
        views(final(resources)@) == views(old(resources)@) + projects_upto(
            list@,
            list@.len() as int,
        ),
{
    let ghost before = views(resources@);
    let mut i: usize = 0;
    assert(before =~= before + projects_upto(list@, 0));
    while i < list.len()
        invariant
            i <= list@.len(),
            views(resources@) == before + projects_upto(list@, i as int),
        decreases list@.len() - i,
    {
        push_view(resources, expose_project(&list[i]));
        i = i + 1;
        assert(views(resources@) =~= before + projects_upto(list@, i as int));
    }
}

/// The resource that stands for a droplet.
pub open spec fn droplet_exposure(droplet: DigitalOceanDroplet) -> ResourceExposureView {
    exposure(
        "droplet"@,
        match droplet.name {
            Some(name) => name@,
            None => match droplet.id {
                Some(id) => decimal(id as nat),
                None => "unknown_droplet"@,
            },
        },
        seq!["droplet:read"@],
        Severity::High,
        "Compute droplet (status: "@ + text_or(droplet.status, "unknown"@)
            + ") accessible with this token"@,
    )
}

fn expose_droplet(droplet: &DigitalOceanDroplet) -> (resource: ResourceExposure)
    ensures
        resource@ == droplet_exposure(*droplet),
{
    let name = match &droplet.name {
        Some(name) => name.clone(),
        None => match droplet.id {
            Some(id) => u64_text(id),
            None => "unknown_droplet".to_owned(),
        },
    };
    let status = unwrap_text(&droplet.status, "unknown");
    ResourceExposure::new(
        "droplet",
        name.as_str(),
        one_text("droplet:read"),
        Severity::High,
        cat3(
            "Compute droplet (status: ",
            status.as_str(),
            ") accessible with this token",
        ).as_str(),
    )
}

/// The resources that stand for the first `n` droplets.
pub open spec fn droplets_upto(list: Seq<DigitalOceanDroplet>, n: int) -> Seq<ResourceExposureView>
    decreases n,
{
    if n <= 0 {
        Seq::empty()
    } else {
        droplets_upto(list, n - 1).push(droplet_exposure(list[n - 1]))
    }
}

fn add_droplets(resources: &mut Vec<ResourceExposure>, list: &Vec<DigitalOceanDroplet>)
    ensures
        views(final(resources)@) == views(old(resources)@) + droplets_upto(
            list@,
            list@.len() as int,
        ),
{
    let ghost before = views(resources@);
    let mut i: usize = 0;
    assert(before =~= before + droplets_upto(list@, 0));
    while i < list.len()
        invariant
            i <= list@.len(),
            views(resources@) == before + droplets_upto(list@, i as int),
        decreases list@.len() - i,
    {
        push_view(resources, expose_droplet(&list[i]));
        i = i + 1;
        assert(views(resources@) =~= before + droplets_upto(list@, i as int));
    }
}

/// The resource that stands for a database.
pub open spec fn database_exposure(database: DigitalOceanDatabase) -> ResourceExposureView {
    exposure(
        "database"@,
        text_else(either(opt_text(database.name), opt_text(database.id)), "unknown_database"@),
        seq!["database:read"@],
        Severity::Critical,
        "Managed database ("@ + text_or(database.engine, "unknown"@)
            + ") accessible with this token"@,
    )
}

fn expose_database(database: &DigitalOceanDatabase) -> (resource: ResourceExposure)
    ensures
        resource@ == database_exposure(*database),
{
    let engine = unwrap_text(&database.engine, "unknown");
    ResourceExposure::new(
        "database",
        first_text(&database.name, &database.id, "unknown_database").as_str(),
        one_text("database:read"),
        Severity::Critical,
        cat3("Managed database (", engine.as_str(), ") accessible with this token").as_str(),
    )
}

/// The resources that stand for the first `n` databases.
pub open spec fn databases_upto(list: Seq<DigitalOceanDatabase>, n: int) -> Seq<ResourceExposureView>
    decreases n,
{
    if n <= 0 {
        Seq::empty()
    } else {
        databases_upto(list, n - 1).push(database_exposure(list[n - 1]))
    }
}

fn add_databases(resources: &mut Vec<ResourceExposure>, list: &Vec<DigitalOceanDatabase>)
    ensures
        views(final(resources)@) == views(old(resources)@) + databases_upto(
            list@,
            list@.len() as int,
        ),
{
    let ghost before = views(resources@);
    let mut i: usize = 0;
    assert(before =~= before + databases_upto(list@, 0));
    while i < list.len()
        invariant
            i <= list@.len(),
            views(resources@) == before + databases_upto(list@, i as int),
        decreases list@.len() - i,
    {
        push_view(resources, expose_database(&list[i]));
        i = i + 1;
        assert(views(resources@) =~= before + databases_upto(list@, i as int));
    }
}

/// The resource that stands for a Kubernetes cluster.
pub open spec fn cluster_exposure(cluster: DigitalOceanKubernetesCluster) -> ResourceExposureView {
    exposure(
        "kubernetes_cluster"@,
        text_else(either(opt_text(cluster.name), opt_text(cluster.id)), "unknown_cluster"@),
        seq!["kubernetes:read"@],
        Severity::High,
        "Kubernetes cluster in "@ + text_or(cluster.region, "unknown"@)
            + " accessible with this token"@,
    )
}

fn expose_cluster(cluster: &DigitalOceanKubernetesCluster) -> (resource: ResourceExposure)
    ensures
        resource@ == cluster_exposure(*cluster),
{
    let region = unwrap_text(&cluster.region, "unknown");
    ResourceExposure::new(
        "kubernetes_cluster",
        first_text(&cluster.name, &cluster.id, "unknown_cluster").as_str(),
        one_text("kubernetes:read"),
        Severity::High,
        cat3("Kubernetes cluster in ", region.as_str(), " accessible with this token").as_str(),
    )
}

/// The resources that stand for the first `n` clusters.
pub open spec fn clusters_upto(list: Seq<DigitalOceanKubernetesCluster>, n: int) -> Seq<ResourceExposureView>
    decreases n,
{
    if n <= 0 {
        Seq::empty()
    } else {
        clusters_upto(list, n - 1).push(cluster_exposure(list[n - 1]))
    }
}

fn add_clusters(resources: &mut Vec<ResourceExposure>, list: &Vec<DigitalOceanKubernetesCluster>)
    ensures
        views(final(resources)@) == views(old(resources)@) + clusters_upto(
            list@,
            list@.len() as int,
        ),
{
    let ghost before = views(resources@);
    let mut i: usize = 0;
    assert(before =~= before + clusters_upto(list@, 0));
    while i < list.len()
        invariant
            i <= list@.len(),
            views(resources@) == before + clusters_upto(list@, i as int),
        decreases list@.len() - i,
    {
        push_view(resources, expose_cluster(&list[i]));
        i = i + 1;
        assert(views(resources@) =~= before + clusters_upto(list@, i as int));
    }
}

/// How grave it is what a token shows.
pub open spec fn do_severity(droplets: bool, databases: bool, projects: nat) -> Severity {
    if databases {
        Severity::Critical
    } else if droplets {
        Severity::High
    } else if projects > 0 {
        Severity::Medium
    } else {
        Severity::Low
    }
}

pub fn derive_severity(
    has_droplets: bool,
    has_databases: bool,
    has_kubernetes: bool,
    projects: &Vec<DigitalOceanProject>,
) -> (severity: Severity)
    ensures
        severity == do_severity(has_droplets, has_databases, projects@.len()),
{
    if has_databases {
        Severity::Critical
    } else if has_droplets {
        Severity::High
    } else if projects.len() > 0 {
        Severity::Medium
    } else {
        Severity::Low
    }
}

/// The role that access to a kind of resource stands for.
pub open spec fn access_role(kind: Seq<char>) -> RoleBindingView {
    binding(kind + ":access"@, "digitalocean"@, seq![kind + ":read"@, kind + ":write"@])
}

fn bind_access(kind: &str) -> (role: RoleBinding)
    ensures
        role@ == access_role(kind@),
{
    let read = cat2(kind, ":read");
    let write = cat2(kind, ":write");
    RoleBinding::new(
        cat2(kind, ":access").as_str(),
        "digitalocean",
        two_texts(read.as_str(), write.as_str()),
    )
}

/// The roles that a token has.
pub open spec fn do_roles(replies: DigitalOceanReplies) -> Seq<RoleBindingView> {
    (if replies.droplets@.len() > 0 {
        seq![access_role("droplet"@)]
    } else {
        Seq::empty()
    }) + (if replies.databases@.len() > 0 {
        seq![access_role("database"@)]
    } else {
        Seq::empty()
    }) + (if replies.clusters@.len() > 0 {
        seq![access_role("kubernetes"@)]
    } else {
        Seq::empty()
    })
}

/// The summary of what a token may do.
pub open spec fn do_permissions(replies: DigitalOceanReplies) -> PermissionSummaryView {
    let start = filed(empty_permission_summary(), PermissionClass::ReadOnly, "project:list"@);
    let with_droplets = if replies.droplets@.len() > 0 {
        filed(start, PermissionClass::Risky, "droplet:list"@)
    } else {
        start
    };
    let with_databases = if replies.databases@.len() > 0 {
        filed(with_droplets, PermissionClass::Admin, "database:list"@)
    } else {
        with_droplets
    };
    let with_clusters = if replies.clusters@.len() > 0 {
        filed(with_databases, PermissionClass::Risky, "kubernetes:list"@)
    } else {
        with_databases
    };
    sorted_summary(
        if replies.account.team_name is Some {
            filed(with_clusters, PermissionClass::Risky, "team:member"@)
        } else {
            with_clusters
        },
    )
}

/// How the user of a token is called.
pub open spec fn do_user(account: DigitalOceanAccount) -> Seq<char> {
    text_else(either(opt_text(account.email), opt_text(account.uuid)), "do_user"@)
}

/// The resources that a token shows.
pub open spec fn listed(replies: DigitalOceanReplies) -> Seq<ResourceExposureView> {
    projects_upto(replies.projects@, replies.projects@.len() as int) + droplets_upto(
        replies.droplets@,
        replies.droplets@.len() as int,
    ) + databases_upto(replies.databases@, replies.databases@.len() as int) + clusters_upto(
        replies.clusters@,
        replies.clusters@.len() as int,
    )
}

/// The resources that a token shows, or its account where it shows none.
pub open spec fn do_resources(replies: DigitalOceanReplies) -> Seq<ResourceExposureView> {
    if listed(replies).len() == 0 {
        seq![
            exposure(
                "account"@,
                do_user(replies.account),
                Seq::empty(),
                Severity::Low,
                "DigitalOcean account associated with the token"@,
            ),
        ]
    } else {
        listed(replies)
    }
}

/// The notes on a token.
pub open spec fn do_notes(replies: DigitalOceanReplies) -> Seq<Seq<char>> {
    let first = if replies.account.team_name is Some {
        seq!["Token has team-level access"@]
    } else {
        Seq::empty()
    };
    if listed(replies).len() == 0 {
        first.push("Token did not enumerate any resources"@)
    } else {
        first
    }
}

/// What a DigitalOcean token gives access to.
pub open spec fn do_result(replies: DigitalOceanReplies) -> AccessMapResultView {
    let account = replies.account;
    let severity = do_severity(
        replies.droplets@.len() > 0,
        replies.databases@.len() > 0,
        replies.projects@.len(),
    );
    AccessMapResultView {
        cloud: "digitalocean"@,
        fingerprint: None,
        identity: AccessSummaryView {
            id: do_user(account),
            access_type: "user"@,
            project: None,
            tenant: opt_text(account.team_name),
            account_id: opt_text(account.uuid),
        },
        roles: do_roles(replies),
        permissions: do_permissions(replies),
        resources: do_resources(replies),
        severity,
        recommendations: recommendations(severity),
        risk_notes: do_notes(replies),
        token_details: Some(
            AccessTokenDetailsView {
                username: opt_text(account.email),
                company: opt_text(account.team_name),
                email: opt_text(account.email),
                user_id: opt_text(account.uuid),
                ..empty_access_token_details()
            },
        ),
        provider_metadata: None,
        mapping_error: None,
    }
}

/// Maps a DigitalOcean token from what DigitalOcean answered to it.
pub fn map_access_from_token(replies: &DigitalOceanReplies) -> (result: AccessMapResult)
    ensures
        result@ == do_result(*replies),
{
    let account = &replies.account;
    let username = first_text(&account.email, &account.uuid, "do_user");
    let mut resources: Vec<ResourceExposure> = no_views();
    add_projects(&mut resources, &replies.projects);
    add_droplets(&mut resources, &replies.droplets);
    add_databases(&mut resources, &replies.databases);
    add_clusters(&mut resources, &replies.clusters);
    assert(views(resources@) =~= listed(*replies));
    let mut roles: Vec<RoleBinding> = no_views();
    let mut permissions = PermissionSummary::default();
    let mut risk_notes = no_texts();
    file_permission(&mut permissions, PermissionClass::ReadOnly, "project:list".to_owned());
    if replies.droplets.len() > 0 {
        file_permission(&mut permissions, PermissionClass::Risky, "droplet:list".to_owned());
        push_view(&mut roles, bind_access("droplet"));
    }
    if replies.databases.len() > 0 {
        file_permission(&mut permissions, PermissionClass::Admin, "database:list".to_owned());
        push_view(&mut roles, bind_access("database"));
    }
    if replies.clusters.len() > 0 {
        file_permission(&mut permissions, PermissionClass::Risky, "kubernetes:list".to_owned());
        push_view(&mut roles, bind_access("kubernetes"));
    }
    assert(views(roles@) =~= do_roles(*replies));
    if account.team_name.is_some() {
        file_permission(&mut permissions, PermissionClass::Risky, "team:member".to_owned());
        push_text(&mut risk_notes, "Token has team-level access".to_owned());
    }
    sort_permission_summary(&mut permissions);
    let severity = derive_severity(
        replies.droplets.len() > 0,
        replies.databases.len() > 0,
        replies.clusters.len() > 0,
        &replies.projects,
    );
    if resources.len() == 0 {
        push_view(
            &mut resources,
            ResourceExposure::new(
                "account",
                username.as_str(),
                no_texts(),
                Severity::Low,
                "DigitalOcean account associated with the token",
            ),
        );
        push_text(&mut risk_notes, "Token did not enumerate any resources".to_owned());
    }
    assert(views(resources@) =~= do_resources(*replies));
    assert(texts(risk_notes@) =~= do_notes(*replies));
    let mut details = AccessTokenDetails::default();
    details.username = copy_opt(&account.email);
    details.company = copy_opt(&account.team_name);
    details.email = copy_opt(&account.email);
    details.user_id = copy_opt(&account.uuid);
    AccessMapResult {
        cloud: "digitalocean".to_owned(),
        fingerprint: None,
        identity: AccessSummary {
            id: username,
            access_type: "user".to_owned(),
            project: None,
            tenant: copy_opt(&account.team_name),
            account_id: copy_opt(&account.uuid),
        },
        roles,
        permissions,
        resources,
        severity,
        recommendations: build_recommendations(severity),
        risk_notes,
        token_details: Some(details),
        provider_metadata: None,
        mapping_error: None,
    }
}

proof fn lemma_projects_listed(list: Seq<DigitalOceanProject>, n: int)
    requires
        0 <= n <= list.len(),
    ensures
        projects_upto(list, n).len() == n,
        forall|k: int| 0 <= k < n ==> #[trigger] projects_upto(list, n)[k] == project_exposure(list[k]),
    decreases n,
{
    if n > 0 {
        lemma_projects_listed(list, n - 1);
    }
}

proof fn lemma_droplets_listed(list: Seq<DigitalOceanDroplet>, n: int)
    requires
        0 <= n <= list.len(),
    ensures
        droplets_upto(list, n).len() == n,
        forall|k: int| 0 <= k < n ==> #[trigger] droplets_upto(list, n)[k] == droplet_exposure(list[k]),
    decreases n,
{
    if n > 0 {
        lemma_droplets_listed(list, n - 1);
    }
}

proof fn lemma_databases_listed(list: Seq<DigitalOceanDatabase>, n: int)
    requires
        0 <= n <= list.len(),
    ensures
        databases_upto(list, n).len() == n,
        forall|k: int| 0 <= k < n ==> #[trigger] databases_upto(list, n)[k] == database_exposure(list[k]),
    decreases n,
{
    if n > 0 {
        lemma_databases_listed(list, n - 1);
    }
}

proof fn lemma_clusters_listed(list: Seq<DigitalOceanKubernetesCluster>, n: int)
    requires
        0 <= n <= list.len(),
    ensures
        clusters_upto(list, n).len() == n,
        forall|k: int| 0 <= k < n ==> #[trigger] clusters_upto(list, n)[k] == cluster_exposure(list[k]),
    decreases n,
{
    if n > 0 {
        lemma_clusters_listed(list, n - 1);
    }
}

/// The gravest thing that a token reaches decides: a database is critical, a droplet high at least, a
/// project medium at least, and without any of these a token is low. Everything that was listed is
/// reported under its name, a database at critical risk, a droplet and a cluster at high risk.
pub proof fn lemma_gravest_resource_decides(replies: DigitalOceanReplies, k: int)
    ensures
        ({
            let result = do_result(replies);
            let p = replies.projects@.len();
            let d = replies.droplets@.len();
            let b = replies.databases@.len();
            let c = replies.clusters@.len();
            &&& b > 0 <==> result.severity == Severity::Critical
            &&& b == 0 && d > 0 <==> result.severity == Severity::High
            &&& b == 0 && d == 0 && p > 0 <==> result.severity == Severity::Medium
            &&& b > 0 ==> result.permissions.admin.len() > 0
            &&& d > 0 || c > 0 || replies.account.team_name is Some ==> result.permissions.risky.len() > 0
            &&& result.permissions.read_only.len() > 0
            &&& p + d + b + c > 0 ==> result.resources.len() == p + d + b + c
            &&& 0 <= k < p && replies.projects@[k].name is Some ==> result.resources[k].name
                == replies.projects@[k].name->0@
            &&& 0 <= k < d && replies.droplets@[k].name is Some ==> result.resources[p + k].name
                == replies.droplets@[k].name->0@ && result.resources[p + k].risk == "high"@
            &&& 0 <= k < b && replies.databases@[k].name is Some ==> result.resources[p + d + k].name
                == replies.databases@[k].name->0@ && result.resources[p + d + k].risk == "critical"@
            &&& 0 <= k < c && replies.clusters@[k].name is Some ==> result.resources[p + d + b + k].name
                == replies.clusters@[k].name->0@ && result.resources[p + d + b + k].risk == "high"@
            &&& replies.account.email is Some ==> result.identity.id == replies.account.email->0@
        }),
{
    lemma_projects_listed(replies.projects@, replies.projects@.len() as int);
    lemma_droplets_listed(replies.droplets@, replies.droplets@.len() as int);
    lemma_databases_listed(replies.databases@, replies.databases@.len() as int);
    lemma_clusters_listed(replies.clusters@, replies.clusters@.len() as int);
    let start = filed(empty_permission_summary(), PermissionClass::ReadOnly, "project:list"@);
    let with_droplets = if replies.droplets@.len() > 0 {
        filed(start, PermissionClass::Risky, "droplet:list"@)
    } else {
        start
    };
    let with_databases = if replies.databases@.len() > 0 {
        filed(with_droplets, PermissionClass::Admin, "database:list"@)
    } else {
        with_droplets
    };
    let with_clusters = if replies.clusters@.len() > 0 {
        filed(with_databases, PermissionClass::Risky, "kubernetes:list"@)
    } else {
        with_databases
    };
    let all = if replies.account.team_name is Some {
        filed(with_clusters, PermissionClass::Risky, "team:member"@)
    } else {
        with_clusters
    };
    lemma_sorted_classes_stay_filled(all, PermissionClass::Admin);
    lemma_sorted_classes_stay_filled(all, PermissionClass::Risky);
    lemma_sorted_classes_stay_filled(all, PermissionClass::ReadOnly);
}

} // verus!
