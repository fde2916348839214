//! CircleCI tokens.

use vstd::prelude::*;
use crate::mapping::{build_result, plain_result};
use crate::model::{
    binding, empty_access_token_details, empty_permission_summary, exposure, no_views, push_view,
    views, AccessMapResult, AccessMapResultView, AccessSummary, AccessSummaryView,
    AccessTokenDetails, AccessTokenDetailsView, PermissionSummary, PermissionSummaryView,
    ResourceExposure, ResourceExposureView, RoleBinding, RoleBindingView, Severity,
};
use crate::permissions::{
    class_list, file_permission, filed, lemma_filed, lemma_sorted_classes_stay_filled,
    lemma_sorted_summary, sort_permission_summary, sorted_summary, PermissionClass,
};
use crate::text::{
    cat2, copy_opt, either, first_text, no_texts, one_text, opt_text, or_text, push_text, text_else,
    text_or, texts, two_texts, unwrap_text,
};

verus! {

/// A user.
#[derive(Debug)]
pub struct CircleCiUser {
    pub id: Option<String>,
    pub login: Option<String>,
    pub name: Option<String>,
    pub email: Option<String>,
}

/// An organization that a user collaborates in.
#[derive(Debug)]
pub struct CircleCiCollaboration {
    pub vcs_type: Option<String>,
    pub name: Option<String>,
    pub slug: Option<String>,
}

/// A pipeline.
#[derive(Debug)]
pub struct CircleCiPipeline {
    pub id: Option<String>,
    pub project_slug: Option<String>,
}

/// How the organization of a collaboration is called.
pub open spec fn collaboration_name(collaboration: CircleCiCollaboration) -> Seq<char> {
    text_else(
        either(opt_text(collaboration.slug), opt_text(collaboration.name)),
        "unknown_org"@,
    )
}

/// What a collaboration permits.
pub open spec fn collaboration_permissions(collaboration: CircleCiCollaboration) -> Seq<Seq<char>> {
    seq!["vcs:"@ + text_or(collaboration.vcs_type, "unknown"@), "collaboration:member"@]
}

fn list_permissions(collaboration: &CircleCiCollaboration) -> (list: Vec<String>)
    ensures
        texts(list@) == collaboration_permissions(*collaboration),
{
    let vcs = unwrap_text(&collaboration.vcs_type, "unknown");
    two_texts(cat2("vcs:", vcs.as_str()).as_str(), "collaboration:member")
}

/// The role that a collaboration stands for.
pub open spec fn collaboration_binding(collaboration: CircleCiCollaboration) -> RoleBindingView {
    binding(
        "collaborator:"@ + collaboration_name(collaboration),
        "circleci"@,
        collaboration_permissions(collaboration),
    )
}

fn bind_collaboration(collaboration: &CircleCiCollaboration) -> (role: RoleBinding)
    ensures
        role@ == collaboration_binding(*collaboration),
{
    let name = first_text(&collaboration.slug, &collaboration.name, "unknown_org");
    RoleBinding::new(
        cat2("collaborator:", name.as_str()).as_str(),
        "circleci",
        list_permissions(collaboration),
    )
}

/// The roles that stand for the first `n` collaborations.
pub open spec fn collaboration_roles_upto(list: Seq<CircleCiCollaboration>, n: int) -> Seq<RoleBindingView>
    decreases n,
{
    if n <= 0 {
        Seq::empty()
    } else {
        collaboration_roles_upto(list, n - 1).push(collaboration_binding(list[n - 1]))
    }
}

fn add_collaboration_roles(roles: &mut Vec<RoleBinding>, list: &Vec<CircleCiCollaboration>)
    ensures
        views(final(roles)@) == views(old(roles)@) + collaboration_roles_upto(
            list@,
            list@.len() as int,
        ),
{
    let ghost before = views(roles@);
    let mut i: usize = 0;
    assert(before =~= before + collaboration_roles_upto(list@, 0));
    while i < list.len()
        invariant
            i <= list@.len(),
            views(roles@) == before + collaboration_roles_upto(list@, i as int),
        decreases list@.len() - i,
    {
        push_view(roles, bind_collaboration(&list[i]));
        i = i + 1;
        assert(views(roles@) =~= before + collaboration_roles_upto(list@, i as int));
    }
}

/// The resource that stands for a collaboration, one of `count`.
pub open spec fn collaboration_exposure(
    collaboration: CircleCiCollaboration,
    count: nat,
) -> ResourceExposureView {
    exposure(
        "organization"@,
        collaboration_name(collaboration),
        collaboration_permissions(collaboration),
        if count > 3 {
            Severity::High
        } else {
            Severity::Medium
        },
        "CircleCI organization collaboration via "@ + text_or(
            collaboration.vcs_type,
            "unknown"@,
        ),
    )
}

fn expose_collaboration(collaboration: &CircleCiCollaboration, count: usize) -> (resource: ResourceExposure)
    ensures
        resource@ == collaboration_exposure(*collaboration, count as nat),
{
    let name = first_text(&collaboration.slug, &collaboration.name, "unknown_org");
    let vcs = unwrap_text(&collaboration.vcs_type, "unknown");
    let risk = if count > 3 {
        Severity::High
    } else {
        Severity::Medium
    };
    ResourceExposure::new(
        "organization",
        name.as_str(),
        list_permissions(collaboration),
        risk,
        cat2("CircleCI organization collaboration via ", vcs.as_str()).as_str(),
    )
}

/// The resources that stand for the first `n` collaborations.
pub open spec fn collaborations_upto(list: Seq<CircleCiCollaboration>, n: int) -> Seq<
    ResourceExposureView,
>
    decreases n,
{
    if n <= 0 {
        Seq::empty()
    } else {
        collaborations_upto(list, n - 1).push(collaboration_exposure(list[n - 1], list.len()))
    }
}

fn add_collaborations(resources: &mut Vec<ResourceExposure>, list: &Vec<CircleCiCollaboration>)
    ensures
        views(final(resources)@) == views(old(resources)@) + collaborations_upto(
            list@,
            list@.len() as int,
        ),
{
    let ghost before = views(resources@);
    let mut i: usize = 0;
    assert(before =~= before + collaborations_upto(list@, 0));
    while i < list.len()
        invariant
            i <= list@.len(),
            views(resources@) == before + collaborations_upto(list@, i as int),
        decreases list@.len() - i,
    {
        push_view(resources, expose_collaboration(&list[i], list.len()));
        i = i + 1;
        assert(views(resources@) =~= before + collaborations_upto(list@, i as int));
    }
}

/// The summary with one more collaboration.
pub open spec fn with_collaboration(
    summary: PermissionSummaryView,
    collaboration: CircleCiCollaboration,
) -> PermissionSummaryView {
    filed(
        summary,
        PermissionClass::Risky,
        "collaboration:"@ + collaboration_name(collaboration),
    )
}

fn file_collaboration(summary: &mut PermissionSummary, collaboration: &CircleCiCollaboration)
    ensures
        final(summary)@ == with_collaboration(old(summary)@, *collaboration),
{
    let name = first_text(&collaboration.slug, &collaboration.name, "unknown_org");
    file_permission(summary, PermissionClass::Risky, cat2("collaboration:", name.as_str()));
}

/// The summary with the first `n` collaborations.
pub open spec fn with_collaborations(summary: PermissionSummaryView, list: Seq<CircleCiCollaboration>, n: int) -> PermissionSummaryView
    decreases n,
{
    if n <= 0 {
        summary
    } else {
        with_collaboration(with_collaborations(summary, list, n - 1), list[n - 1])
    }
}

fn file_collaborations(summary: &mut PermissionSummary, list: &Vec<CircleCiCollaboration>)
    ensures
        final(summary)@ == with_collaborations(old(summary)@, list@, list@.len() as int),
{
    let ghost start = summary@;
    let mut i: usize = 0;
    while i < list.len()
        invariant
            i <= list@.len(),
            summary@ == with_collaborations(start, list@, i as int),
        decreases list@.len() - i,
    {
        file_collaboration(summary, &list[i]);
        i = i + 1;
    }
}

/// The resource that stands for a pipeline.
pub open spec fn pipeline_exposure(pipeline: CircleCiPipeline) -> ResourceExposureView {
    exposure(
        "pipeline"@,
        text_else(
            either(opt_text(pipeline.project_slug), opt_text(pipeline.id)),
            "unknown_pipeline"@,
        ),
        seq!["pipeline:read"@],
        Severity::Low,
        "Recent pipeline accessible with this token"@,
    )
}

fn expose_pipeline(pipeline: &CircleCiPipeline) -> (resource: ResourceExposure)
    ensures
        resource@ == pipeline_exposure(*pipeline),
{
    ResourceExposure::new(
        "pipeline",
        first_text(&pipeline.project_slug, &pipeline.id, "unknown_pipeline").as_str(),
        one_text("pipeline:read"),
        Severity::Low,
        "Recent pipeline accessible with this token",
    )
}

/// The resources that stand for the first `n` pipelines.
pub open spec fn pipelines_upto(list: Seq<CircleCiPipeline>, n: int) -> Seq<ResourceExposureView>
    decreases n,
{
    if n <= 0 {
        Seq::empty()
    } else {
        pipelines_upto(list, n - 1).push(pipeline_exposure(list[n - 1]))
    }
}

fn add_pipelines(resources: &mut Vec<ResourceExposure>, list: &Vec<CircleCiPipeline>)
    ensures
        views(final(resources)@) == views(old(resources)@) + pipelines_upto(
            list@,
            list@.len() as int,
        ),
{
    let ghost before = views(resources@);
    let mut i: usize = 0;
    assert(before =~= before + pipelines_upto(list@, 0));
    while i < list.len()
        invariant
            i <= list@.len(),
            views(resources@) == before + pipelines_upto(list@, i as int),
        decreases list@.len() - i,
    {
        push_view(resources, expose_pipeline(&list[i]));
        i = i + 1;
        assert(views(resources@) =~= before + pipelines_upto(list@, i as int));
    }
}

/// How grave it is what a token shows.
pub open spec fn circleci_severity(collaborations: nat) -> Severity {
    if collaborations > 5 {
        Severity::High
    } else if collaborations > 0 {
        Severity::Medium
    } else {
        Severity::Low
    }
}

pub fn derive_severity(collaborations: &Vec<CircleCiCollaboration>) -> (severity: Severity)
    ensures
        severity == circleci_severity(collaborations@.len()),
{
    if collaborations.len() > 5 {
        Severity::High
    } else if collaborations.len() > 0 {
        Severity::Medium
    } else {
        Severity::Low
    }
}

/// How a user is called.
pub open spec fn circleci_user(user: CircleCiUser) -> Seq<char> {
    text_else(
        either(either(opt_text(user.login), opt_text(user.name)), opt_text(user.email)),
        "circleci_user"@,
    )
}

/// What a CircleCI token gives access to.
pub open spec fn circleci_result(
    user: CircleCiUser,
    collaborations: Seq<CircleCiCollaboration>,
    pipelines: Seq<CircleCiPipeline>,
) -> AccessMapResultView {
    let nothing = collaborations.len() == 0 && pipelines.len() == 0;
    plain_result(
        "circleci"@,
        AccessSummaryView {
            id: circleci_user(user),
            access_type: "user"@,
            project: None,
            tenant: None,
            account_id: opt_text(user.id),
        },
        collaboration_roles_upto(collaborations, collaborations.len() as int),
        sorted_summary(
            with_collaborations(
                empty_permission_summary(),
                collaborations,
                collaborations.len() as int,
            ),
        ),
        if nothing {
            seq![
                exposure(
                    "account"@,
                    circleci_user(user),
                    Seq::empty(),
                    Severity::Low,
                    "CircleCI account associated with the token"@,
                ),
            ]
        } else {
            collaborations_upto(collaborations, collaborations.len() as int) + pipelines_upto(
                pipelines,
                pipelines.len() as int,
            )
        },
        circleci_severity(collaborations.len()),
        if nothing {
            seq!["Token did not enumerate any collaborations or pipelines"@]
        } else {
            Seq::empty()
        },
        Some(
            AccessTokenDetailsView {
                name: opt_text(user.name),
                username: opt_text(user.login),
                email: opt_text(user.email),
                user_id: opt_text(user.id),
                ..empty_access_token_details()
            },
        ),
    )
}

/// Maps a CircleCI token from what the service answered to it. A listing that failed is empty.
pub fn map_access_from_token(
    user: &CircleCiUser,
    collaborations: &Vec<CircleCiCollaboration>,
    pipelines: &Vec<CircleCiPipeline>,
) -> (result: AccessMapResult)
    ensures
        result@ == circleci_result(*user, collaborations@, pipelines@),
{
    let username = first_text(&or_text(&user.login, &user.name), &user.email, "circleci_user");
    let mut roles: Vec<RoleBinding> = no_views();
    add_collaboration_roles(&mut roles, collaborations);
    assert(views(roles@) =~= collaboration_roles_upto(
        collaborations@,
        collaborations@.len() as int,
    ));
    let mut permissions = PermissionSummary::default();
    file_collaborations(&mut permissions, collaborations);
    sort_permission_summary(&mut permissions);
    let mut resources: Vec<ResourceExposure> = no_views();
    add_collaborations(&mut resources, collaborations);
    add_pipelines(&mut resources, pipelines);
    let severity = derive_severity(collaborations);
    let mut risk_notes = no_texts();
    if collaborations.len() == 0 && pipelines.len() == 0 {
        push_view(
            &mut resources,
            ResourceExposure::new(
                "account",
                username.as_str(),
                no_texts(),
                Severity::Low,
                "CircleCI account associated with the token",
            ),
        );
        push_text(
            &mut risk_notes,
            "Token did not enumerate any collaborations or pipelines".to_owned(),
        );
    }
    assert(views(resources@) =~= circleci_result(*user, collaborations@, pipelines@).resources);
    assert(texts(risk_notes@) =~= circleci_result(*user, collaborations@, pipelines@).risk_notes);
    let mut details = AccessTokenDetails::default();
    details.name = copy_opt(&user.name);
    details.username = copy_opt(&user.login);
    details.email = copy_opt(&user.email);
    details.user_id = copy_opt(&user.id);
    build_result(
        "circleci",
        AccessSummary {
            id: username,
            access_type: "user".to_owned(),
            project: None,
            tenant: None,
            account_id: copy_opt(&user.id),
        },
        roles,
        permissions,
        resources,
        severity,
        risk_notes,
        Some(details),
    )
}

proof fn lemma_collaborations_len(list: Seq<CircleCiCollaboration>, n: int)
    requires
        0 <= n,
    ensures
        collaborations_upto(list, n).len() == n,
    decreases n,
{
    if n > 0 {
        lemma_collaborations_len(list, n - 1);
    }
}

proof fn lemma_pipelines_len(list: Seq<CircleCiPipeline>, n: int)
    requires
        0 <= n,
    ensures
        pipelines_upto(list, n).len() == n,
    decreases n,
{
    if n > 0 {
        lemma_pipelines_len(list, n - 1);
    }
}

/// The result of a token always names a resource, if only its account.
pub proof fn lemma_some_resource_is_named(user: CircleCiUser, collaborations: Seq<CircleCiCollaboration>, pipelines: Seq<CircleCiPipeline>)
    ensures
        circleci_result(user, collaborations, pipelines).resources.len() > 0,
{
    lemma_collaborations_len(collaborations, collaborations.len() as int);
    lemma_pipelines_len(pipelines, pipelines.len() as int);
}

proof fn lemma_collaborations_listed(list: Seq<CircleCiCollaboration>, n: int)
    requires
        0 <= n <= list.len(),
    ensures
        collaborations_upto(list, n).len() == n,
        forall|k: int| 0 <= k < n ==> #[trigger] collaborations_upto(list, n)[k] == collaboration_exposure(list[k], list.len()),
    decreases n,
{
    if n > 0 {
        lemma_collaborations_listed(list, n - 1);
    }
}

proof fn lemma_pipelines_listed(list: Seq<CircleCiPipeline>, n: int)
    requires
        0 <= n <= list.len(),
    ensures
        pipelines_upto(list, n).len() == n,
        forall|k: int| 0 <= k < n ==> #[trigger] pipelines_upto(list, n)[k] == pipeline_exposure(list[k]),
    decreases n,
{
    if n > 0 {
        lemma_pipelines_listed(list, n - 1);
    }
}

proof fn lemma_roles_listed(list: Seq<CircleCiCollaboration>, n: int)
    requires
        0 <= n <= list.len(),
    ensures
        collaboration_roles_upto(list, n).len() == n,
        forall|k: int| 0 <= k < n ==> #[trigger] collaboration_roles_upto(list, n)[k] == collaboration_binding(list[k]),
    decreases n,
{
    if n > 0 {
        lemma_roles_listed(list, n - 1);
    }
}

proof fn lemma_collaborations_filed(summary: PermissionSummaryView, list: Seq<CircleCiCollaboration>, n: int, k: int)
    requires
        0 <= k < n <= list.len(),
    ensures
        class_list(with_collaborations(summary, list, n), PermissionClass::Risky).contains("collaboration:"@ + collaboration_name(list[k])),
    decreases n,
{
    let before = with_collaborations(summary, list, n - 1);
    lemma_filed(before, PermissionClass::Risky, "collaboration:"@ + collaboration_name(list[n - 1]));
    if k < n - 1 {
        lemma_collaborations_filed(summary, list, n - 1, k);
        assert(class_list(before, PermissionClass::Risky).contains("collaboration:"@ + collaboration_name(list[k])));
    }
}

/// More organizations are never rated lower: none is low, any medium at least, and more than five high.
/// Each organization is reported as a role, a risk and a resource under its name, and each pipeline as a
/// resource.
pub proof fn lemma_collaborations_are_reported(
    user: CircleCiUser,
    collaborations: Seq<CircleCiCollaboration>,
    pipelines: Seq<CircleCiPipeline>,
    k: int,
)
    ensures
        ({
            let result = circleci_result(user, collaborations, pipelines);
            &&& collaborations.len() == 0 <==> result.severity == Severity::Low
            &&& collaborations.len() > 5 <==> result.severity == Severity::High
            &&& result.severity != Severity::Critical
            &&& 0 <= k < collaborations.len() && collaborations[k].slug is Some ==> {
                let name = collaborations[k].slug->0@;
                &&& result.resources[k].name == name
                &&& result.resources[k].resource_type == "organization"@
                &&& collaborations.len() > 3 ==> result.resources[k].risk == "high"@
                &&& collaborations.len() <= 3 ==> result.resources[k].risk == "medium"@
                &&& result.roles[k].name == "collaborator:"@ + name
                &&& result.permissions.risky.contains("collaboration:"@ + name)
            }
            &&& 0 <= k < pipelines.len() && pipelines[k].project_slug is Some
                ==> result.resources[collaborations.len() + k].name == pipelines[k].project_slug->0@
            &&& user.login is Some ==> result.identity.id == user.login->0@
        }),
{
    let n = collaborations.len() as int;
    let raw = with_collaborations(empty_permission_summary(), collaborations, n);
    lemma_collaborations_listed(collaborations, n);
    lemma_pipelines_listed(pipelines, pipelines.len() as int);
    lemma_roles_listed(collaborations, n);
    if 0 <= k < n {
        lemma_collaborations_filed(empty_permission_summary(), collaborations, n, k);
        lemma_sorted_summary(raw, PermissionClass::Risky);
        assert(class_list(sorted_summary(raw), PermissionClass::Risky).contains(
            "collaboration:"@ + collaboration_name(collaborations[k]),
        ));
    }
}

} // verus!
