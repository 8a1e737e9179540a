//! How a decision is asked for and answered.
use std::sync::Arc;

use axum::http::{HeaderMap, StatusCode};
use serde_json::Value;
use vstd::prelude::*;
use vstd::string::*;

use crate::data;
use crate::outside::{self, share, status_code};
use crate::provider::agent::Agent;
use crate::provider::store::{Project, Walk};
use crate::routes::request::{
    self, access_token, requested_project, Resolution, BAD_REQUEST, UNAUTHORIZED,
};

verus! {

/// What a decision is to be made on.
#[derive(Debug)]
pub struct EvaluateRequest {
    pub context: Value,
    pub trace: Option<bool>,
}

/// A decision, and the release and model that it was made by.
#[derive(Debug)]
pub struct EvaluateResponse {
    pub details: EvaluateDetailsResponse,
    pub graph_response: Value,
}

#[derive(Debug)]
pub struct EvaluateDetailsResponse {
    pub release_id: Option<Arc<str>>,
    pub version_id: Option<Arc<str>>,
}

/// Why there is no decision.
#[derive(Debug)]
pub enum EvaluateError {
    /// The engine's own account of its failure, where it can be written in JSON.
    EngineError(Option<Value>),
    Anyhow((StatusCode, String)),
}

/// The body of a refusal.
#[derive(Debug)]
pub enum ErrorBody {
    /// The engine's own account of its failure.
    Engine(Value),
    /// The JSON null.
    Null,
    /// An object whose only field is `message`.
    Message { message: String },
}

/// A refusal as it is sent.
#[derive(Debug)]
pub struct ErrorResponse {
    pub status: StatusCode,
    pub body: ErrorBody,
}

impl EvaluateError {
    /// The refusal as it is sent. The engine's failures are the sender's; one that cannot be written
    /// in JSON is sent as null.
    pub fn into_response(self) -> (r: ErrorResponse)
        ensures
            match self {
                EvaluateError::EngineError(error) => {
                    &&& outside::status_number(r.status) == BAD_REQUEST
                    &&& match error {
                        Some(account) => r.body matches ErrorBody::Engine(body) && body == account,
                        None => r.body is Null,
                    }
                },
                EvaluateError::Anyhow((status, error)) => {
                    &&& r.status == status
                    &&& r.body matches ErrorBody::Message { message } && message == error
                },
            },
            is_sent_as(self, r),
    {
        match self {
            EvaluateError::EngineError(error) => ErrorResponse {
                status: status_code(BAD_REQUEST),
                body: match error {
                    Some(account) => ErrorBody::Engine(account),
                    None => ErrorBody::Null,
                },
            },
            EvaluateError::Anyhow((status, error)) => ErrorResponse {
                status,
                body: ErrorBody::Message { message: error },
            },
        }
    }
}

/// The engine's own account of its failure becomes an engine error.
impl From<Option<Value>> for EvaluateError {
    fn from(value: Option<Value>) -> (r: Self) {
        EvaluateError::EngineError(value)
    }
}

impl vstd::std_specs::convert::FromSpecImpl<Option<Value>> for EvaluateError {
    open spec fn obeys_from_spec() -> bool {
        true
    }

    open spec fn from_spec(value: Option<Value>) -> Self {
        EvaluateError::EngineError(value)
    }
}

/// An error of which nothing but its message is known is the sender's.
impl From<String> for EvaluateError {
    fn from(value: String) -> (r: Self)
        ensures
            r matches EvaluateError::Anyhow((status, message)) && outside::status_number(status)
                == BAD_REQUEST && message == value,
    {
        EvaluateError::Anyhow((status_code(BAD_REQUEST), value))
    }
}

impl vstd::std_specs::convert::FromSpecImpl<String> for EvaluateError {
    open spec fn obeys_from_spec() -> bool {
        true
    }

    open spec fn from_spec(value: String) -> Self {
        EvaluateError::Anyhow(
            (choose|status: StatusCode| outside::status_number(status) == BAD_REQUEST, value),
        )
    }
}

/// An error that has a status keeps it.
impl From<(StatusCode, String)> for EvaluateError {
    fn from(value: (StatusCode, String)) -> (r: Self) {
        EvaluateError::Anyhow(value)
    }
}

impl vstd::std_specs::convert::FromSpecImpl<(StatusCode, String)> for EvaluateError {
    open spec fn obeys_from_spec() -> bool {
        true
    }

    open spec fn from_spec(value: (StatusCode, String)) -> Self {
        EvaluateError::Anyhow(value)
    }
}

/// How a decision is made: whether with a trace, and how deep decisions may call each other.
#[derive(Debug, Clone, Copy, PartialEq, Eq, Structural)]
pub struct EvaluationOptions {
    pub trace: bool,
    pub max_depth: u8,
}

/// How deep decisions may call each other.
pub const MAX_DEPTH: u8 = 10;

/// A request whose project is known and whose access has to be looked at.
#[derive(Debug)]
pub struct AccessCheck {
    pub project: Arc<Project>,
    pub key: Arc<str>,
    pub access_token: String,
    pub payload: EvaluateRequest,
}

/// A request that the engine is to decide.
#[derive(Debug)]
pub struct Evaluation {
    pub project: Arc<Project>,
    pub key: Arc<str>,
    pub context: Value,
    pub options: EvaluationOptions,
}

/// What came of an evaluation.
#[derive(Debug)]
pub enum EvaluationOutcome {
    /// The decision in JSON.
    Evaluated(Value),
    /// The decision cannot be written in JSON.
    NotSerializable,
    /// The engine failed and says why.
    Failed(String),
}

/// Whether a request is taken in as `r` where it is led to `outcome`.
pub open spec fn is_taken_in(
    r: Result<AccessCheck, EvaluateError>,
    outcome: Resolution,
    headers: HeaderMap,
    key: Arc<str>,
    payload: EvaluateRequest,
) -> bool {
    match (r, outcome) {
        (Ok(check), Ok(found)) => {
            &&& check.project == found
            &&& check.key == key
            &&& check.access_token@ == request::token_of(headers)
            &&& check.payload == payload
        },
        (Err(EvaluateError::Anyhow((status, message))), Err(refusal)) => (
            outside::status_number(status),
            message@,
        ) == refusal,
        _ => false,
    }
}

/// Takes a request in: finds its project and its access token. What has to be asked next is whether
/// the token gives access to the project.
pub fn evaluate(
    agent: &Agent,
    headers: &HeaderMap,
    project: &str,
    key: Arc<str>,
    payload: EvaluateRequest,
) -> (r: Result<AccessCheck, EvaluateError>)
    ensures
        exists|outcome: Resolution| #[trigger]
            request::resolves(*agent, *headers, project@, outcome) && is_taken_in(
                r,
                outcome,
                *headers,
                key,
                payload,
            ),
        exists|walk: Walk|
            request::is_answered_on(*agent, walk, *headers, project@) && is_taken_in(
                r,
                #[trigger] request::resolution(*agent, walk, *headers, project@),
                *headers,
                key,
                payload,
            ),
{
    let found: Result<Arc<Project>, (StatusCode, String)> = requested_project(
        agent,
        headers,
        project,
    );
    assert(request::resolves(*agent, *headers, project@, request::resolution_view(found)));
    match found {
        Ok(found) => Ok(
            AccessCheck { project: found, key, access_token: access_token(headers), payload },
        ),
        Err(refusal) => Err(EvaluateError::from(refusal)),
    }
}

/// Whether two requests are taken in alike.
pub open spec fn same_check(
    r: Result<AccessCheck, EvaluateError>,
    other: Result<AccessCheck, EvaluateError>,
) -> bool {
    match (r, other) {
        (Ok(a), Ok(b)) => {
            &&& a.project == b.project
            &&& a.key == b.key
            &&& a.access_token@ == b.access_token@
            &&& a.payload == b.payload
        },
        (Err(EvaluateError::Anyhow((a, b))), Err(EvaluateError::Anyhow((c, d)))) => {
            outside::status_number(a) == outside::status_number(c) && b@ == d@
        },
        _ => false,
    }
}

/// On the same walk over the projects, requests that carry the same access token are taken in
/// alike, whatever their other headers; where the projects belong to tenants, if they name the same
/// tenant. Where the projects belong to no tenants, none is refused for want of one.
pub proof fn law_evaluation_depends_on_tenant_and_token(
    agent: Agent,
    walk: Walk,
    headers: HeaderMap,
    other_headers: HeaderMap,
    project: Seq<char>,
    key: Arc<str>,
    payload: EvaluateRequest,
    r: Result<AccessCheck, EvaluateError>,
    other: Result<AccessCheck, EvaluateError>,
)
    requires
        request::same_tenant(agent, headers, other_headers),
        request::token_of(headers) == request::token_of(other_headers),
        is_taken_in(
            r,
            request::resolution(agent, walk, headers, project),
            headers,
            key,
            payload,
        ),
        is_taken_in(
            other,
            request::resolution(agent, walk, other_headers, project),
            other_headers,
            key,
            payload,
        ),
    ensures
        same_check(r, other),
        !(agent.provider is Postgres) ==> !(r matches Err(EvaluateError::Anyhow((status, _)))
            && outside::status_number(status) == BAD_REQUEST),
{
}

/// Unambiguous requests that carry the same access token are taken in alike, whatever their other
/// headers and in whatever order the projects are walked over; where the projects belong to tenants,
/// as long as they name the same tenant.
pub proof fn law_unambiguous_evaluation(
    agent: Agent,
    headers: HeaderMap,
    other_headers: HeaderMap,
    project: Seq<char>,
    key: Arc<str>,
    payload: EvaluateRequest,
    r: Result<AccessCheck, EvaluateError>,
    other: Result<AccessCheck, EvaluateError>,
)
    requires
        request::same_tenant(agent, headers, other_headers),
        request::is_unambiguous(agent, headers, project),
        request::token_of(headers) == request::token_of(other_headers),
        exists|outcome: Resolution| #[trigger]
            request::resolves(agent, headers, project, outcome) && is_taken_in(
                r,
                outcome,
                headers,
                key,
                payload,
            ),
        exists|outcome: Resolution| #[trigger]
            request::resolves(agent, other_headers, project, outcome) && is_taken_in(
                other,
                outcome,
                other_headers,
                key,
                payload,
            ),
    ensures
        same_check(r, other),
{
    let a = choose|outcome: Resolution| #[trigger]
        request::resolves(agent, headers, project, outcome) && is_taken_in(
            r,
            outcome,
            headers,
            key,
            payload,
        );
    let b = choose|outcome: Resolution| #[trigger]
        request::resolves(agent, other_headers, project, outcome) && is_taken_in(
            other,
            outcome,
            other_headers,
            key,
            payload,
        );
    request::law_unambiguous_request(agent, headers, other_headers, project, a, b);
}

impl AccessCheck {
    /// Goes on to the evaluation if the token gives access to the project, and refuses the request
    /// otherwise.
    pub fn authorize(self, can_access: bool) -> (r: Result<Evaluation, EvaluateError>)
        ensures
            match r {
                Ok(evaluation) => {
                    &&& can_access
                    &&& evaluation.project == self.project
                    &&& evaluation.key == self.key
                    &&& evaluation.context == self.payload.context
                    &&& evaluation.options.trace == (self.payload.trace == Some(true))
                    &&& evaluation.options.max_depth == MAX_DEPTH
                    &&& evaluation.options.max_depth == 10
                },
                Err(error) => {
                    &&& !can_access
                    &&& error matches EvaluateError::Anyhow((status, message)) && outside::status_number(
                        status,
                    ) == UNAUTHORIZED && message@
                        == "Invalid X-Access-Token Header"@
                },
            },
            is_authorized(self, can_access, r),
    {
        if !can_access {
            return Err(
                EvaluateError::from(
                    (status_code(UNAUTHORIZED), "Invalid X-Access-Token Header".to_owned()),
                ),
            );
        }
        let options: EvaluationOptions = EvaluationOptions {
            trace: self.payload.trace.unwrap_or(false),
            max_depth: MAX_DEPTH,
        };
        Ok(
            Evaluation {
                project: self.project,
                key: self.key,
                context: self.payload.context,
                options,
            },
        )
    }
}

/// Whether a request for which the access was looked at goes on as `r`.
pub open spec fn is_authorized(
    check: AccessCheck,
    can_access: bool,
    r: Result<Evaluation, EvaluateError>,
) -> bool {
    match r {
        Ok(evaluation) => {
            &&& can_access
            &&& evaluation.project == check.project
            &&& evaluation.key == check.key
            &&& evaluation.context == check.payload.context
            &&& evaluation.options == (EvaluationOptions {
                trace: check.payload.trace == Some(true),
                max_depth: MAX_DEPTH,
            })
        },
        Err(EvaluateError::Anyhow((status, message))) => !can_access && outside::status_number(
            status,
        ) == UNAUTHORIZED && message@ == "Invalid X-Access-Token Header"@,
        Err(EvaluateError::EngineError(_)) => false,
    }
}

/// Whether a request whose evaluation came to `outcome` is answered with `r`.
pub open spec fn is_response(
    project: Project,
    version_id: Option<Arc<str>>,
    outcome: EvaluationOutcome,
    r: Result<EvaluateResponse, EvaluateError>,
) -> bool {
    match (outcome, r) {
        (EvaluationOutcome::Evaluated(value), Ok(response)) => {
            &&& response.graph_response == value
            &&& response.details.version_id == version_id
            &&& data::text_view(response.details.release_id) == release_id_of(project)
        },
        (
            EvaluationOutcome::NotSerializable,
            Err(EvaluateError::Anyhow((status, message))),
        ) => outside::status_number(status) == BAD_REQUEST && message@
            == "Failed to serialize value"@,
        (
            EvaluationOutcome::Failed(error),
            Err(EvaluateError::Anyhow((status, message))),
        ) => outside::status_number(status) == BAD_REQUEST && message@ == error@,
        _ => false,
    }
}

/// Whether a refusal is sent as `r`.
pub open spec fn is_sent_as(error: EvaluateError, r: ErrorResponse) -> bool {
    match (error, r.body) {
        (EvaluateError::EngineError(Some(account)), ErrorBody::Engine(body)) => body == account
            && outside::status_number(r.status) == BAD_REQUEST,
        (EvaluateError::EngineError(None), ErrorBody::Null) => outside::status_number(r.status)
            == BAD_REQUEST,
        (EvaluateError::Anyhow((status, error)), ErrorBody::Message { message }) => r.status
            == status && message == error,
        _ => false,
    }
}

/// The id of a project's release, where the release is known.
pub open spec fn release_id_of(project: Project) -> Option<Seq<char>> {
    match project.release_data {
        Some(release) => Some(release.release.id@),
        None => None,
    }
}

/// Answers a request with what came of its evaluation. `version_id` is the version of the model
/// that was asked for.
pub fn respond(
    project: &Project,
    version_id: Option<Arc<str>>,
    outcome: EvaluationOutcome,
) -> (r: Result<EvaluateResponse, EvaluateError>)
    ensures
        match outcome {
            EvaluationOutcome::Evaluated(value) => r matches Ok(response) && {
                &&& response.graph_response == value
                &&& response.details.version_id == version_id
                &&& data::text_view(response.details.release_id) == release_id_of(*project)
            },
            EvaluationOutcome::NotSerializable => r matches Err(
                EvaluateError::Anyhow((status, message)),
            ) && outside::status_number(status) == BAD_REQUEST && message@
                == "Failed to serialize value"@,
            EvaluationOutcome::Failed(error) => r matches Err(
                EvaluateError::Anyhow((status, message)),
            ) && outside::status_number(status) == BAD_REQUEST && message == error,
        },
        is_response(*project, version_id, outcome, r),
{
    let graph_response: Value = match outcome {
        EvaluationOutcome::Evaluated(value) => value,
        EvaluationOutcome::NotSerializable => return Err(
            EvaluateError::from("Failed to serialize value".to_owned()),
        ),
        EvaluationOutcome::Failed(error) => return Err(EvaluateError::from(error)),
    };
    let release_id: Option<Arc<str>> = match &project.release_data {
        Some(release) => Some(share(&release.release.id)),
        None => None,
    };
    Ok(
        EvaluateResponse {
            details: EvaluateDetailsResponse { release_id, version_id },
            graph_response,
        },
    )
}

} // verus!
