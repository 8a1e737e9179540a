//! What is told of a project.
use std::sync::Arc;

use axum::http::{HeaderMap, StatusCode};
use vstd::prelude::*;
use vstd::string::*;

use crate::data::ReleaseData;
use crate::outside::{self, share, status_code};
use crate::provider::agent::Agent;
use crate::provider::store::{Project, Walk};
use crate::routes::request::{self, requested_project, Resolution, BAD_REQUEST};

verus! {

/// A project, its release and the tokens that give access to it.
#[derive(Debug)]
pub struct ProjectInfo {
    pub project: ProjectInfoProject,
    pub release: ProjectInfoRelease,
    pub access_tokens: Vec<Arc<str>>,
}

#[derive(Debug)]
pub struct ProjectInfoProject {
    pub id: Arc<str>,
    pub key: Arc<str>,
}

#[derive(Debug)]
pub struct ProjectInfoRelease {
    pub id: Arc<str>,
    pub version: Arc<str>,
}

/// Whether `info` tells what the release says.
pub open spec fn describes(info: ProjectInfo, release: ReleaseData) -> bool {
    &&& info.project.id == release.project.id
    &&& info.project.key == release.project.key
    &&& info.release.id == release.release.id
    &&& info.release.version == release.release.version
    &&& info.access_tokens@ == release.access_tokens@
}

/// What is told of a project. Without its release nothing can be.
pub fn describe_project(project: &Project) -> (r: Result<ProjectInfo, (StatusCode, String)>)
    ensures
        match r {
            Ok(info) => project.release_data matches Some(release) && describes(info, release),
            Err((status, message)) => {
                &&& project.release_data is None
                &&& outside::status_number(status) == BAD_REQUEST
                &&& message@ == "Project data not available"@
            },
        },
{
    let release: &ReleaseData = match &project.release_data {
        Some(release) => release,
        None => return Err(
            (status_code(BAD_REQUEST), "Project data not available".to_owned()),
        ),
    };
    let mut access_tokens: Vec<Arc<str>> = Vec::new();
    let n: usize = release.access_tokens.len();
    for i in 0..n
        invariant
            n == release.access_tokens@.len(),
            access_tokens@ == release.access_tokens@.take(i as int),
    {
        access_tokens.push(share(&release.access_tokens[i]));
        assert(access_tokens@ =~= release.access_tokens@.take(i + 1));
    }
    assert(access_tokens@ =~= release.access_tokens@);
    Ok(
        ProjectInfo {
            project: ProjectInfoProject {
                id: share(&release.project.id),
                key: share(&release.project.key),
            },
            release: ProjectInfoRelease {
                id: share(&release.release.id),
                version: share(&release.release.version),
            },
            access_tokens,
        },
    )
}

/// The release that is told of, or the refusal: the number of its status and its message.
pub type Told = Result<ReleaseData, (u16, Seq<char>)>;

/// What is told where a request is led to `outcome`.
pub open spec fn told_of(outcome: Resolution) -> Told {
    match outcome {
        Ok(found) => match found.release_data {
            Some(release) => Ok(release),
            None => Err((BAD_REQUEST, "Project data not available"@)),
        },
        Err(refusal) => Err(refusal),
    }
}

/// Whether an answer tells that.
pub open spec fn tells(r: Result<ProjectInfo, (StatusCode, String)>, told: Told) -> bool {
    match (r, told) {
        (Ok(info), Ok(release)) => describes(info, release),
        (Err((status, message)), Err(refusal)) => (outside::status_number(status), message@)
            == refusal,
        _ => false,
    }
}

/// What is told of the project that a request is about.
pub fn project_info(agent: &Agent, headers: &HeaderMap, project: &str) -> (r: Result<
    ProjectInfo,
    (StatusCode, String),
>)
    ensures
        exists|outcome: Resolution| #[trigger]
            request::resolves(*agent, *headers, project@, outcome) && tells(r, told_of(outcome)),
        exists|walk: Walk|
            request::is_answered_on(*agent, walk, *headers, project@) && tells(
                r,
                told_of(#[trigger] request::resolution(*agent, walk, *headers, project@)),
            ),
{
    let found: Result<Arc<Project>, (StatusCode, String)> = requested_project(
        agent,
        headers,
        project,
    );
    assert(request::resolves(*agent, *headers, project@, request::resolution_view(found)));
    match found {
        Ok(found) => describe_project(&found),
        Err(refusal) => Err(refusal),
    }
}

/// Whether two answers are the same.
pub open spec fn same_answer(
    r: Result<ProjectInfo, (StatusCode, String)>,
    other: Result<ProjectInfo, (StatusCode, String)>,
) -> bool {
    match (r, other) {
        (Ok(a), Ok(b)) => a.project == b.project && a.release == b.release && a.access_tokens@
            == b.access_tokens@,
        (Err((a, b)), Err((c, d))) => outside::status_number(a) == outside::status_number(c) && b@
            == d@,
        _ => false,
    }
}

/// On the same walk over the projects the same is told of a project, whatever the headers of the
/// request; where the projects belong to tenants, if they name the same tenant.
pub proof fn law_info_depends_on_tenant_only(
    agent: Agent,
    walk: Walk,
    headers: HeaderMap,
    other_headers: HeaderMap,
    project: Seq<char>,
    r: Result<ProjectInfo, (StatusCode, String)>,
    other: Result<ProjectInfo, (StatusCode, String)>,
)
    requires
        request::same_tenant(agent, headers, other_headers),
        tells(r, told_of(request::resolution(agent, walk, headers, project))),
        tells(other, told_of(request::resolution(agent, walk, other_headers, project))),
    ensures
        same_answer(r, other),
{
}

/// An unambiguous request for a project is told one thing only, whatever its headers and in whatever
/// order the projects are walked over; where the projects belong to tenants, as long as it names the
/// same tenant.
pub proof fn law_unambiguous_info(
    agent: Agent,
    headers: HeaderMap,
    other_headers: HeaderMap,
    project: Seq<char>,
    r: Result<ProjectInfo, (StatusCode, String)>,
    other: Result<ProjectInfo, (StatusCode, String)>,
)
    requires
        request::same_tenant(agent, headers, other_headers),
        request::is_unambiguous(agent, headers, project),
        exists|outcome: Resolution| #[trigger]
            request::resolves(agent, headers, project, outcome) && tells(r, told_of(outcome)),
        exists|outcome: Resolution| #[trigger]
            request::resolves(agent, other_headers, project, outcome) && tells(
                other,
                told_of(outcome),
            ),
    ensures
        same_answer(r, other),
{
    let a = choose|outcome: Resolution| #[trigger]
        request::resolves(agent, headers, project, outcome) && tells(r, told_of(outcome));
    let b = choose|outcome: Resolution| #[trigger]
        request::resolves(agent, other_headers, project, outcome) && tells(other, told_of(outcome));
    request::law_unambiguous_request(agent, headers, other_headers, project, a, b);
}

} // verus!
