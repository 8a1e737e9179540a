//! What requests are answered, down to the bytes of their headers and the characters of the answers.
use std::sync::Arc;

use axum::http::{HeaderMap, StatusCode};
use vstd::prelude::*;

use crate::data;
use crate::outside;
use crate::provider::agent::Agent;
use crate::provider::lookup_laws;
use crate::provider::store::{self, Project, Walk};
use crate::routes::engine::{
    self, AccessCheck, ErrorBody, ErrorResponse, EvaluateError, EvaluateRequest, EvaluateResponse,
    Evaluation, EvaluationOutcome,
};
use crate::routes::project_info::{self, ProjectInfo};
use crate::routes::request::{self, Resolution};

verus! {

/// A header stands for a text exactly if it holds nothing but visible ASCII, blanks and tabs. The
/// text then has one character for each byte, the byte in its place.
pub proof fn law_header_text_is_the_header(bytes: Seq<u8>)
    ensures
        outside::header_text(bytes) is Some <==> forall|i: int|
            0 <= i < bytes.len() ==> (32 <= #[trigger] bytes[i] < 127 || bytes[i] == 9),
        outside::header_text(bytes) matches Some(text) ==> text.len() == bytes.len() && forall|
            i: int,
        |
            0 <= i < bytes.len() ==> #[trigger] text[i] == bytes[i] as char,
{
}

/// A request names a tenant exactly if its header `x-tenant-id` was sent, is not empty and is plain
/// text. The tenant then has one character for each byte of the header, the byte in its place.
pub proof fn law_tenant_is_the_whole_header(headers: HeaderMap)
    ensures
        ({
            let fields = outside::header_fields(headers);
            let bytes = fields["x-tenant-id"@];
            &&& request::tenant_of(headers) is Some <==> {
                &&& fields.contains_key("x-tenant-id"@)
                &&& bytes.len() > 0
                &&& forall|i: int|
                    0 <= i < bytes.len() ==> (32 <= #[trigger] bytes[i] < 127 || bytes[i] == 9)
            }
            &&& request::tenant_of(headers) matches Some(tenant) ==> tenant.len() == bytes.len()
                && forall|i: int| 0 <= i < bytes.len() ==> #[trigger] tenant[i] == bytes[i] as char
        }),
{
    law_header_text_is_the_header(outside::header_fields(headers)["x-tenant-id"@]);
}

/// The access token of a request has one character for each byte of its header `x-access-token`, the
/// byte in its place. It is empty where the header was not sent or is no plain text.
pub proof fn law_token_is_the_whole_header(headers: HeaderMap)
    ensures
        ({
            let fields = outside::header_fields(headers);
            let bytes = fields["x-access-token"@];
            let is_plain = forall|i: int|
                0 <= i < bytes.len() ==> (32 <= #[trigger] bytes[i] < 127 || bytes[i] == 9);
            let token = request::token_of(headers);
            &&& fields.contains_key("x-access-token"@) && is_plain ==> token.len() == bytes.len()
                && forall|i: int| 0 <= i < bytes.len() ==> #[trigger] token[i] == bytes[i] as char
            &&& !(fields.contains_key("x-access-token"@) && is_plain) ==> token.len() == 0
        }),
{
    law_header_text_is_the_header(outside::header_fields(headers)["x-access-token"@]);
}

/// Where the projects belong to no tenants, a request is led to the project that is held under the
/// asked key; where there is none, to one whose release says that the project has the asked id; and
/// is refused with 404 exactly where there is none either.
pub proof fn law_request_without_tenants(
    agent: Agent,
    headers: HeaderMap,
    project: Seq<char>,
    outcome: Resolution,
)
    requires
        !(agent.provider is Postgres),
        request::resolves(agent, headers, project, outcome),
    ensures
        agent.data@.contains_key(project) ==> outcome == Ok::<Arc<Project>, (u16, Seq<char>)>(
            agent.data@[project],
        ),
        !agent.data@.contains_key(project) ==> match outcome {
            Ok(found) => exists|key: Seq<char>|
                {
                    &&& #[trigger] agent.data@.contains_key(key)
                    &&& agent.data@[key] == found
                    &&& found.release_data is Some
                    &&& found.release_data->0.project.id@ == project
                },
            Err(refusal) => {
                &&& refusal.0 == 404
                &&& refusal.1 == "Project not found"@
                &&& forall|key: Seq<char>| #[trigger]
                    agent.data@.contains_key(key) ==> !(agent.data@[key].release_data is Some
                        && agent.data@[key].release_data->0.project.id@ == project)
            },
        },
{
    let found: Option<Arc<Project>> = match outcome {
        Ok(found) => Some(found),
        Err(_) => None,
    };
    lookup_laws::law_project_by_key_or_id(agent, project, found);
}

/// Where the projects belong to tenants, a request that names none is refused with 400. One that
/// names a tenant is led to the project that is held under the tenant, a colon and the asked key;
/// where there is none, to one whose key begins with the tenant and a colon and whose release says
/// that the project has the asked id; and is refused with 404 exactly where there is none either.
pub proof fn law_request_of_a_tenant(
    agent: Agent,
    headers: HeaderMap,
    project: Seq<char>,
    outcome: Resolution,
)
    requires
        agent.provider is Postgres,
        request::resolves(agent, headers, project, outcome),
    ensures
        request::tenant_of(headers) is None ==> (outcome matches Err(refusal) && refusal.0 == 400
            && refusal.1 == "Missing or invalid X-Tenant-ID header"@),
        request::tenant_of(headers) matches Some(tenant) ==> {
            let direct = tenant + seq![':'] + project;
            &&& agent.data@.contains_key(direct) ==> outcome == Ok::<
                Arc<Project>,
                (u16, Seq<char>),
            >(agent.data@[direct])
            &&& !agent.data@.contains_key(direct) ==> match outcome {
                Ok(found) => exists|key: Seq<char>|
                    {
                        &&& #[trigger] agent.data@.contains_key(key)
                        &&& key.len() > tenant.len()
                        &&& key.take(tenant.len() as int) == tenant
                        &&& key[tenant.len() as int] == ':'
                        &&& agent.data@[key] == found
                        &&& found.release_data is Some
                        &&& found.release_data->0.project.id@ == project
                    },
                Err(refusal) => {
                    &&& refusal.0 == 404
                    &&& refusal.1 == "Project not found"@
                    &&& forall|key: Seq<char>|
                        {
                            &&& #[trigger] agent.data@.contains_key(key)
                            &&& key.len() > tenant.len()
                            &&& key.take(tenant.len() as int) == tenant
                            &&& key[tenant.len() as int] == ':'
                        } ==> !(agent.data@[key].release_data is Some
                            && agent.data@[key].release_data->0.project.id@ == project)
                },
            }
        },
{
    if let Some(tenant) = request::tenant_of(headers) {
        let found: Option<Arc<Project>> = match outcome {
            Ok(found) => Some(found),
            Err(_) => None,
        };
        lookup_laws::law_tenant_project_by_key_or_id(agent, tenant, project, found);
    }
}

/// On a walk over the projects a request is led to what the agent finds on it, in the tenant's name
/// where the projects belong to tenants. It is refused with 404 where nothing is found, and with 400
/// where a tenant is missing.
pub proof fn law_resolution_is_what_is_found(
    agent: Agent,
    walk: Walk,
    headers: HeaderMap,
    project: Seq<char>,
)
    ensures
        ({
            let found = match request::tenant_of(headers) {
                Some(tenant) => if agent.provider is Postgres {
                    agent.found_for_tenant_on(walk, tenant, project)
                } else {
                    agent.found_on(walk, project)
                },
                None => agent.found_on(walk, project),
            };
            match request::resolution(agent, walk, headers, project) {
                Ok(given) => !(agent.provider is Postgres && request::tenant_of(headers) is None)
                    && found == Some(given),
                Err((status, message)) => if agent.provider is Postgres && request::tenant_of(
                    headers,
                ) is None {
                    status == 400 && message == "Missing or invalid X-Tenant-ID header"@
                } else {
                    found is None && status == 404 && message == "Project not found"@
                },
            }
        }),
{
}

/// A request is answered on a walk over the agent's own projects, unless no walk has a say in what
/// it is led to.
pub proof fn law_walk_is_over_the_projects(
    agent: Agent,
    walk: Walk,
    other: Walk,
    headers: HeaderMap,
    project: Seq<char>,
)
    requires
        request::is_answered_on(agent, walk, headers, project),
    ensures
        store::is_walk(walk, agent.data@) || request::resolution(agent, walk, headers, project)
            == request::resolution(agent, other, headers, project),
{
}

/// What a resolution says is what was returned: the project, or the number of the status and the
/// characters of the message.
pub proof fn law_resolution_is_what_was_returned(r: Result<Arc<Project>, (StatusCode, String)>)
    ensures
        match (r, request::resolution_view(r)) {
            (Ok(project), Ok(given)) => given == project,
            (Err((status, message)), Err((number, text))) => number == outside::status_number(
                status,
            ) && text == message@,
            _ => false,
        },
{
}

/// What is told of a project is what its release says, character for character and token for token.
/// A project without a release is answered with 400.
pub proof fn law_info_is_what_the_release_says(
    found: Arc<Project>,
    r: Result<ProjectInfo, (StatusCode, String)>,
)
    requires
        project_info::tells(r, project_info::told_of(Ok(found))),
    ensures
        found.release_data matches Some(release) ==> (r matches Ok(info) && {
            &&& info.project.id@ == release.project.id@
            &&& info.project.key@ == release.project.key@
            &&& info.release.id@ == release.release.id@
            &&& info.release.version@ == release.release.version@
            &&& info.access_tokens@.len() == release.access_tokens@.len()
            &&& forall|i: int|
                0 <= i < info.access_tokens@.len() ==> (#[trigger] info.access_tokens@[i])@
                    == release.access_tokens@[i]@
        }),
        found.release_data is None ==> (r matches Err((status, message)) && outside::status_number(
            status,
        ) == 400 && message@ == "Project data not available"@),
{
}

/// A request that is refused is told the refusal that it was led to.
pub proof fn law_info_passes_refusals_on(
    refusal: (u16, Seq<char>),
    r: Result<ProjectInfo, (StatusCode, String)>,
)
    requires
        project_info::tells(r, project_info::told_of(Err(refusal))),
    ensures
        r matches Err((status, message)) && outside::status_number(status) == refusal.0 && message@
            == refusal.1,
{
}

/// What the release of a described project says is told of it.
pub proof fn law_description_is_what_the_release_says(
    info: ProjectInfo,
    release: data::ReleaseData,
)
    requires
        project_info::describes(info, release),
    ensures
        info.project.id@ == release.project.id@,
        info.project.key@ == release.project.key@,
        info.release.id@ == release.release.id@,
        info.release.version@ == release.release.version@,
        info.access_tokens@.len() == release.access_tokens@.len(),
        forall|i: int|
            0 <= i < info.access_tokens@.len() ==> (#[trigger] info.access_tokens@[i])@
                == release.access_tokens@[i]@,
{
}

/// A request for a decision is taken in with the project that it was led to, the key and the payload
/// that it came with, and the access token of its headers; or it is refused as it was led to be.
pub proof fn law_evaluation_is_taken_in_as_asked(
    r: Result<AccessCheck, EvaluateError>,
    outcome: Resolution,
    headers: HeaderMap,
    key: Arc<str>,
    payload: EvaluateRequest,
)
    requires
        engine::is_taken_in(r, outcome, headers, key, payload),
    ensures
        outcome matches Ok(found) ==> (r matches Ok(check) && {
            &&& check.project == found
            &&& check.key@ == key@
            &&& check.access_token@ == request::token_of(headers)
            &&& check.payload.context == payload.context
            &&& check.payload.trace == payload.trace
        }),
        outcome matches Err(refusal) ==> (r matches Err(EvaluateError::Anyhow((status, message)))
            && outside::status_number(status) == refusal.0 && message@ == refusal.1),
{
}

/// The release that an answer names is the one of the project, character for character, and none
/// where the project has none.
pub proof fn law_answer_names_the_release(project: Project, release_id: Option<Arc<str>>)
    requires
        data::text_view(release_id) == engine::release_id_of(project),
    ensures
        release_id is Some <==> project.release_data is Some,
        release_id is Some ==> release_id->0@ == project.release_data->0.release.id@,
{
}

/// A request goes on to its evaluation exactly if its token gives access, and is refused with 401
/// otherwise. What is evaluated is what was asked: the same project, key and context, with a trace
/// exactly if one was asked for, and to a depth of ten.
pub proof fn law_access_decides(
    check: AccessCheck,
    can_access: bool,
    r: Result<Evaluation, EvaluateError>,
)
    requires
        engine::is_authorized(check, can_access, r),
    ensures
        r is Ok <==> can_access,
        r matches Ok(evaluation) ==> {
            &&& evaluation.project == check.project
            &&& evaluation.key@ == check.key@
            &&& evaluation.context == check.payload.context
            &&& evaluation.options.trace <==> check.payload.trace == Some(true)
            &&& evaluation.options.max_depth == 10
        },
        !can_access ==> (r matches Err(EvaluateError::Anyhow((status, message)))
            && outside::status_number(status) == 401 && message@
            == "Invalid X-Access-Token Header"@),
{
}

/// A decision is answered with itself, the version that was given and the id of the project's
/// release; a failure with 400 and its words; a decision that cannot be written in JSON with 400.
pub proof fn law_every_outcome_is_answered(
    project: Project,
    version_id: Option<Arc<str>>,
    outcome: EvaluationOutcome,
    r: Result<EvaluateResponse, EvaluateError>,
)
    requires
        engine::is_response(project, version_id, outcome, r),
    ensures
        r is Ok <==> outcome is Evaluated,
        outcome matches EvaluationOutcome::Evaluated(value) ==> (r matches Ok(response) && {
            &&& response.graph_response == value
            &&& response.details.version_id == version_id
            &&& response.details.release_id is Some <==> project.release_data is Some
            &&& project.release_data is Some ==> response.details.release_id->0@
                == project.release_data->0.release.id@
        }),
        outcome matches EvaluationOutcome::Failed(error) ==> (r matches Err(
            EvaluateError::Anyhow((status, message)),
        ) && outside::status_number(status) == 400 && message@ == error@),
        outcome is NotSerializable ==> (r matches Err(EvaluateError::Anyhow((status, message)))
            && outside::status_number(status) == 400 && message@ == "Failed to serialize value"@),
{
}

/// A refusal is sent with its own status and message; the engine's account of a failure with 400, as
/// it is, or as null where there is none.
pub proof fn law_refusals_are_sent_as_they_are(error: EvaluateError, r: ErrorResponse)
    requires
        engine::is_sent_as(error, r),
    ensures
        error matches EvaluateError::Anyhow((status, text)) ==> r.status == status && (
        r.body matches ErrorBody::Message { message } && message@ == text@),
        error matches EvaluateError::EngineError(account) ==> outside::status_number(r.status)
            == 400 && (match account {
            Some(value) => r.body matches ErrorBody::Engine(body) && body == value,
            None => r.body is Null,
        }),
{
}

} // verus!
