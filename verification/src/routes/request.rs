//! What the headers of a request say, and the project that the request is about.
use std::sync::Arc;

use axum::http::{HeaderMap, HeaderValue, StatusCode};
use vstd::prelude::*;
use vstd::string::*;

use crate::outside::{self, get_header, status_code, text_of_header};
use crate::provider::agent::{self, Agent};
use crate::provider::composite_key;
use crate::provider::store::{self, Project, Walk};

verus! {

/// The number of the status of a request that is not as it has to be.
pub const BAD_REQUEST: u16 = 400;

/// The number of the status of a request that may not be made.
pub const UNAUTHORIZED: u16 = 401;

/// The number of the status of a request for something that is not there.
pub const NOT_FOUND: u16 = 404;

/// The text of a header, where the header was sent and is plain text.
pub open spec fn field_text(headers: HeaderMap, name: Seq<char>) -> Option<Seq<char>> {
    if outside::header_fields(headers).contains_key(name) {
        outside::header_text(outside::header_fields(headers)[name])
    } else {
        None
    }
}

/// The tenant that a request names.
pub open spec fn tenant_of(headers: HeaderMap) -> Option<Seq<char>> {
    match field_text(headers, "x-tenant-id"@) {
        Some(tenant) => if tenant.len() > 0 {
            Some(tenant)
        } else {
            None
        },
        None => None,
    }
}

/// The access token that a request carries: empty where it carries none.
pub open spec fn token_of(headers: HeaderMap) -> Seq<char> {
    match field_text(headers, "x-access-token"@) {
        Some(token) => token,
        None => Seq::empty(),
    }
}

/// The text of a header, where the header was sent and is plain text.
fn header_string<'a>(headers: &'a HeaderMap, name: &str) -> (r: Option<&'a str>)
    ensures
        match r {
            Some(text) => field_text(
                *headers,
                name@.map_values(|c: char| outside::ascii_lower(c)),
            ) == Some(text@),
            None => field_text(
                *headers,
                name@.map_values(|c: char| outside::ascii_lower(c)),
            ) is None,
        },
{
    let value: &HeaderValue = match get_header(headers, name) {
        Some(value) => value,
        None => return None,
    };
    match text_of_header(value) {
        Ok(text) => Some(text),
        Err(_) => None,
    }
}

/// The tenant that a request names. A request that names none is refused.
pub fn extract_tenant(headers: &HeaderMap) -> (r: Result<&str, (StatusCode, String)>)
    ensures
        match r {
            Ok(tenant) => {
                let fields = outside::header_fields(*headers);
                let bytes = fields["x-tenant-id"@];
                &&& tenant_of(*headers) == Some(tenant@)
                &&& fields.contains_key("x-tenant-id"@)
                &&& tenant@.len() == bytes.len()
                &&& tenant@.len() > 0
                &&& forall|i: int|
                    0 <= i < bytes.len() ==> #[trigger] tenant@[i] == bytes[i] as char
            },
            Err((status, message)) => {
                &&& tenant_of(*headers) is None
                &&& outside::status_number(status) == BAD_REQUEST
                &&& message@ == "Missing or invalid X-Tenant-ID header"@
            },
        },
{
    proof {
        reveal_strlit("X-Tenant-ID");
        reveal_strlit("x-tenant-id");
        assert("X-Tenant-ID"@.map_values(|c: char| outside::ascii_lower(c)) =~= "x-tenant-id"@);
    }
    match header_string(headers, "X-Tenant-ID") {
        Some(tenant) => if !tenant.is_empty() {
            return Ok(tenant);
        },
        None => {},
    }
    Err((status_code(BAD_REQUEST), "Missing or invalid X-Tenant-ID header".to_owned()))
}

/// The access token that a request carries: empty where it carries none.
pub fn access_token(headers: &HeaderMap) -> (r: String)
    ensures
        r@ == token_of(*headers),
{
    proof {
        reveal_strlit("X-Access-Token");
        reveal_strlit("x-access-token");
        assert("X-Access-Token"@.map_values(|c: char| outside::ascii_lower(c))
            =~= "x-access-token"@);
    }
    match header_string(headers, "X-Access-Token") {
        Some(token) => token.to_owned(),
        None => String::new(),
    }
}

/// The project that a request is about, or the refusal that it gets: the number of its status and
/// its message.
pub type Resolution = Result<Arc<Project>, (u16, Seq<char>)>;

/// Whether a request may be led to `outcome`. Where the projects belong to tenants the request has
/// to name one, and only the tenant's projects count.
pub open spec fn resolves(
    agent: Agent,
    headers: HeaderMap,
    project: Seq<char>,
    outcome: Resolution,
) -> bool {
    if agent.provider is Postgres {
        match tenant_of(headers) {
            Some(tenant) => match outcome {
                Ok(found) => agent.finds_for_tenant(tenant, project, Some(found)),
                Err(refusal) => agent.finds_for_tenant(tenant, project, None) && refusal == (
                    NOT_FOUND,
                    "Project not found"@,
                ),
            },
            None => outcome == Err::<Arc<Project>, _>(
                (BAD_REQUEST, "Missing or invalid X-Tenant-ID header"@),
            ),
        }
    } else {
        match outcome {
            Ok(found) => agent.finds(project, Some(found)),
            Err(refusal) => agent.finds(project, None) && refusal == (
                NOT_FOUND,
                "Project not found"@,
            ),
        }
    }
}

/// What a request is led to by what was found for it.
pub open spec fn resolved(found: Option<Arc<Project>>) -> Resolution {
    match found {
        Some(project) => Ok(project),
        None => Err((NOT_FOUND, "Project not found"@)),
    }
}

/// What a request is led to, where a search by id walks over the projects in the order of `walk`.
pub open spec fn resolution(
    agent: Agent,
    walk: Walk,
    headers: HeaderMap,
    project: Seq<char>,
) -> Resolution {
    if agent.provider is Postgres {
        match tenant_of(headers) {
            Some(tenant) => resolved(agent.found_for_tenant_on(walk, tenant, project)),
            None => Err((BAD_REQUEST, "Missing or invalid X-Tenant-ID header"@)),
        }
    } else {
        resolved(agent.found_on(walk, project))
    }
}

/// Whether a request leads to a search by id.
pub open spec fn searches(agent: Agent, headers: HeaderMap, project: Seq<char>) -> bool {
    if agent.provider is Postgres {
        tenant_of(headers) matches Some(tenant) && !agent.data@.contains_key(
            agent::tenant_prefix(tenant) + project,
        )
    } else {
        !agent.data@.contains_key(project)
    }
}

/// Whether a request can be answered on a walk: it is one over the agent's projects, unless the
/// request needs none.
pub open spec fn is_answered_on(
    agent: Agent,
    walk: Walk,
    headers: HeaderMap,
    project: Seq<char>,
) -> bool {
    searches(agent, headers, project) ==> store::is_walk(walk, agent.data@)
}

/// Whether a request asks for a key that is held, or for an id that no two of the projects that
/// count have.
pub open spec fn is_unambiguous(agent: Agent, headers: HeaderMap, project: Seq<char>) -> bool {
    if agent.provider is Postgres {
        tenant_of(headers) matches Some(tenant) ==> agent::is_unambiguous(
            agent.data@,
            agent::tenant_prefix(tenant) + project,
            agent::tenant_prefix(tenant),
            project,
        )
    } else {
        agent::is_unambiguous(agent.data@, project, Seq::empty(), project)
    }
}

/// Whether two requests name the same tenant, where the projects belong to tenants.
pub open spec fn same_tenant(agent: Agent, headers: HeaderMap, other_headers: HeaderMap) -> bool {
    agent.provider is Postgres ==> tenant_of(headers) == tenant_of(other_headers)
}

/// What a resolution holds.
pub open spec fn resolution_view(r: Result<Arc<Project>, (StatusCode, String)>) -> Resolution {
    match r {
        Ok(project) => Ok(project),
        Err((status, message)) => Err((outside::status_number(status), message@)),
    }
}

/// The project that a request is about.
pub fn requested_project(agent: &Agent, headers: &HeaderMap, project: &str) -> (r: Result<
    Arc<Project>,
    (StatusCode, String),
>)
    ensures
        resolves(*agent, *headers, project@, resolution_view(r)),
        exists|walk: Walk|
            is_answered_on(*agent, walk, *headers, project@) && resolution_view(r)
                == #[trigger] resolution(*agent, walk, *headers, project@),
{
    let found: Option<Arc<Project>> = if agent.is_saas_mode() {
        match extract_tenant(headers) {
            Ok(tenant) => {
                let found: Option<Arc<Project>> = agent.project_for_tenant(tenant, project);
                proof {
                    let walk = choose|walk: Walk|
                        (agent.data@.contains_key(agent::tenant_prefix(tenant@) + project@)
                            || store::is_walk(walk, agent.data@)) && found
                            == #[trigger] agent.found_for_tenant_on(walk, tenant@, project@);
                    assert(is_answered_on(*agent, walk, *headers, project@));
                    assert(resolved(found) == resolution(*agent, walk, *headers, project@));
                }
                found
            },
            Err(refusal) => {
                assert(resolution_view(Err(refusal)) == resolution(
                    *agent,
                    Seq::empty(),
                    *headers,
                    project@,
                ));
                return Err(refusal);
            },
        }
    } else {
        let found: Option<Arc<Project>> = agent.project(project);
        proof {
            let walk = choose|walk: Walk|
                (agent.data@.contains_key(project@) || store::is_walk(walk, agent.data@)) && found
                    == #[trigger] agent.found_on(walk, project@);
            assert(is_answered_on(*agent, walk, *headers, project@));
            assert(resolved(found) == resolution(*agent, walk, *headers, project@));
        }
        found
    };
    match found {
        Some(found) => Ok(found),
        None => Err((status_code(NOT_FOUND), "Project not found".to_owned())),
    }
}

/// A request is either given a project or refused: no request may be led to both.
pub proof fn law_request_is_decided(
    agent: Agent,
    headers: HeaderMap,
    project: Seq<char>,
    found: Arc<Project>,
    refusal: (u16, Seq<char>),
)
    ensures
        !(resolves(agent, headers, project, Ok(found)) && resolves(
            agent,
            headers,
            project,
            Err(refusal),
        )),
{
}

/// A request that is refused for want of a tenant names none, where the projects belong to tenants;
/// one that is refused for want of a project asks for one that is not held. There is no third way
/// to be refused before the access is looked at.
pub proof fn law_refusals(
    agent: Agent,
    headers: HeaderMap,
    project: Seq<char>,
    refusal: (u16, Seq<char>),
)
    requires
        resolves(agent, headers, project, Err(refusal)),
    ensures
        refusal.0 == BAD_REQUEST <==> agent.provider is Postgres && tenant_of(
            headers,
        ) is None,
        refusal.0 == BAD_REQUEST ==> refusal.1
            == "Missing or invalid X-Tenant-ID header"@,
        refusal.0 == NOT_FOUND <==> !(agent.provider is Postgres && tenant_of(
            headers,
        ) is None),
        refusal.0 == NOT_FOUND ==> refusal.1 == "Project not found"@,
{
}

/// Where the projects belong to no tenants, the headers have no part in which project is found.
pub proof fn law_headers_matter_to_tenants_only(
    agent: Agent,
    headers: HeaderMap,
    other_headers: HeaderMap,
    project: Seq<char>,
    outcome: Resolution,
)
    requires
        !(agent.provider is Postgres),
    ensures
        resolves(agent, headers, project, outcome) == resolves(
            agent,
            other_headers,
            project,
            outcome,
        ),
{
}

/// What a request is led to on some walk over the projects is something that it may be led to.
pub proof fn law_walk_resolves(agent: Agent, walk: Walk, headers: HeaderMap, project: Seq<char>)
    requires
        is_answered_on(agent, walk, headers, project),
    ensures
        resolves(agent, headers, project, resolution(agent, walk, headers, project)),
{
    if agent.provider is Postgres {
        match tenant_of(headers) {
            Some(tenant) => {
                let prefix = agent::tenant_prefix(tenant);
                agent::law_walk_gives_what_may_be_found(
                    agent.data@,
                    walk,
                    prefix + project,
                    prefix,
                    project,
                );
            },
            None => {},
        }
    } else {
        agent::law_walk_gives_what_may_be_found(
            agent.data@,
            walk,
            project,
            Seq::empty(),
            project,
        );
    }
}

/// On the same walk over the projects, requests for the same project are led to the same outcome,
/// whatever their headers; where the projects belong to tenants, if they name the same tenant.
/// Where the projects belong to no tenants, none is refused for want of one.
pub proof fn law_other_headers_do_not_matter(
    agent: Agent,
    walk: Walk,
    headers: HeaderMap,
    other_headers: HeaderMap,
    project: Seq<char>,
)
    requires
        same_tenant(agent, headers, other_headers),
    ensures
        resolution(agent, walk, headers, project) == resolution(
            agent,
            walk,
            other_headers,
            project,
        ),
        !(agent.provider is Postgres) ==> !(resolution(agent, walk, headers, project) matches Err(
            refusal,
        ) && refusal.0 == BAD_REQUEST),
{
}

/// An unambiguous request can be led to one outcome only, whatever the order of the walk and
/// whatever its headers; where the projects belong to tenants, as long as it names the same tenant.
pub proof fn law_unambiguous_request(
    agent: Agent,
    headers: HeaderMap,
    other_headers: HeaderMap,
    project: Seq<char>,
    outcome: Resolution,
    other: Resolution,
)
    requires
        same_tenant(agent, headers, other_headers),
        is_unambiguous(agent, headers, project),
        resolves(agent, headers, project, outcome),
        resolves(agent, other_headers, project, other),
    ensures
        outcome == other,
{
}

/// Where the projects belong to tenants, a request that names a tenant without a colon is only ever
/// given a project whose key names that tenant.
pub proof fn law_request_stays_with_tenant(
    agent: Agent,
    headers: HeaderMap,
    project: Seq<char>,
    found: Arc<Project>,
)
    requires
        agent.provider is Postgres,
        resolves(agent, headers, project, Ok(found)),
        tenant_of(headers) matches Some(tenant) ==> !tenant.contains(':'),
    ensures
        exists|key: Seq<char>| #[trigger]
            agent.data@.contains_key(key) && agent.data@[key] == found
                && Some(composite_key::tenant_part(key)) == tenant_of(headers),
{
    let tenant = tenant_of(headers)->0;
    composite_key::law_tenants_are_apart(agent, tenant, project, Some(found));
}

} // verus!
