use std::sync::Arc;

use axum::http::{HeaderMap, HeaderValue, StatusCode};
use dashmap::DashMap;
use decision_agent::config::{EnvironmentConfig, PostgresProviderConfig, ProviderConfig};
use decision_agent::data::{ReleaseData, ReleaseDataProject, ReleaseDataRelease};
use decision_agent::provider::agent::Agent;
use decision_agent::provider::diff::ProjectDiff;
use decision_agent::provider::store::Project;
use decision_agent::routes::engine::{
    evaluate, respond, AccessCheck, ErrorBody, EvaluateError, EvaluateRequest, EvaluationOptions,
    EvaluationOutcome,
};
use decision_agent::routes::project_info::{describe_project, project_info};
use decision_agent::routes::request::{access_token, extract_tenant, requested_project};
use serde_json::Value;
use zen_engine::DecisionEngine;

fn project(release: bool) -> Arc<Project> {
    let release_data = ReleaseData {
        version: None,
        project: ReleaseDataProject { id: Arc::from("id"), key: Arc::from("key") },
        access_tokens: vec![Arc::from("one"), Arc::from("two")],
        release: ReleaseDataRelease { id: Arc::from("release"), version: Arc::from("v1") },
    };
    Arc::new(Project {
        engine: DecisionEngine::default(),
        release_data: if release { Some(release_data) } else { None },
        content_hash: None,
    })
}

fn agent(saas: bool, key: &str, project: Arc<Project>) -> Agent {
    let mut config = EnvironmentConfig::default();
    if saas {
        config.provider = ProviderConfig::Postgres(PostgresProviderConfig {
            database_url: "postgres://".to_string(),
        });
    }
    let mut agent = Agent::new(config);
    let refreshed = DashMap::new();
    refreshed.insert(key.to_string(), project);
    let created = vec![ProjectDiff::Created(key.to_string())];
    Agent::get_diff_result(&mut agent.data, created, refreshed);
    agent
}

fn headers(fields: &[(&'static str, &[u8])]) -> HeaderMap {
    let mut headers = HeaderMap::new();
    for (name, value) in fields {
        headers.append(*name, HeaderValue::from_bytes(value).unwrap());
    }
    headers
}

fn payload(trace: Option<bool>) -> EvaluateRequest {
    EvaluateRequest { context: Value::String("context".to_string()), trace }
}

fn refusal(error: EvaluateError) -> (StatusCode, String) {
    match error {
        EvaluateError::Anyhow(refusal) => refusal,
        other => panic!("unexpected error {:?}", other),
    }
}

fn missing_tenant() -> (StatusCode, String) {
    (StatusCode::BAD_REQUEST, "Missing or invalid X-Tenant-ID header".to_string())
}

fn not_found() -> (StatusCode, String) {
    (StatusCode::NOT_FOUND, "Project not found".to_string())
}

#[test]
fn tenant_is_the_first_plain_header() {
    assert_eq!(extract_tenant(&headers(&[("x-tenant-id", b"me")])), Ok("me"));
    assert_eq!(extract_tenant(&headers(&[("X-Tenant-ID", b"me")])), Ok("me"));
    assert_eq!(extract_tenant(&headers(&[("x-tenant-id", b"a"), ("x-tenant-id", b"b")])), Ok("a"));
    assert_eq!(extract_tenant(&headers(&[("x-tenant-id", b"a\tb c")])), Ok("a\tb c"));
}

#[test]
fn unusable_tenant_is_refused() {
    assert_eq!(extract_tenant(&headers(&[])), Err(missing_tenant()));
    assert_eq!(extract_tenant(&headers(&[("x-tenant-id", b"")])), Err(missing_tenant()));
    assert_eq!(extract_tenant(&headers(&[("x-tenant-id", b"\xff")])), Err(missing_tenant()));
    assert_eq!(extract_tenant(&headers(&[("x-tenant", b"me")])), Err(missing_tenant()));
}

#[test]
fn missing_token_is_empty() {
    assert_eq!(access_token(&headers(&[("X-Access-Token", b"secret")])), "secret");
    assert_eq!(access_token(&headers(&[("x-access-token", b"\x80")])), "");
    assert_eq!(access_token(&headers(&[])), "");
}

#[test]
fn tenant_is_asked_for_in_saas_mode_only() {
    let shared = agent(true, "me:p", project(true));
    assert_eq!(requested_project(&shared, &headers(&[]), "p").unwrap_err(), missing_tenant());
    let me = headers(&[("x-tenant-id", b"me")]);
    assert!(requested_project(&shared, &me, "p").is_ok());
    assert!(requested_project(&shared, &me, "id").is_ok());
    assert_eq!(requested_project(&shared, &me, "me:p").unwrap_err(), not_found());
    let you = headers(&[("x-tenant-id", b"you")]);
    assert_eq!(requested_project(&shared, &you, "p").unwrap_err(), not_found());
    assert_eq!(requested_project(&shared, &you, "id").unwrap_err(), not_found());

    let own = agent(false, "p", project(true));
    assert!(requested_project(&own, &headers(&[]), "p").is_ok());
    assert!(requested_project(&own, &you, "id").is_ok());
    assert_eq!(requested_project(&own, &headers(&[]), "q").unwrap_err(), not_found());
}

#[test]
fn project_info_tells_the_release() {
    let own = agent(false, "p", project(true));
    let info = project_info(&own, &headers(&[]), "p").unwrap();
    assert_eq!(&*info.project.id, "id");
    assert_eq!(&*info.project.key, "key");
    assert_eq!(&*info.release.id, "release");
    assert_eq!(&*info.release.version, "v1");
    let tokens: Vec<&str> = info.access_tokens.iter().map(|token| &**token).collect();
    assert_eq!(tokens, ["one", "two"]);
}

#[test]
fn project_info_is_refused_without_a_release() {
    let unavailable = (StatusCode::BAD_REQUEST, "Project data not available".to_string());
    assert_eq!(describe_project(&project(false)).unwrap_err(), unavailable);
    let own = agent(false, "p", project(false));
    assert_eq!(project_info(&own, &headers(&[]), "p").unwrap_err(), unavailable);
    assert_eq!(project_info(&own, &headers(&[]), "q").unwrap_err(), not_found());
    let shared = agent(true, "me:p", project(true));
    assert_eq!(project_info(&shared, &headers(&[]), "p").unwrap_err(), missing_tenant());
}

#[test]
fn evaluation_is_refused_like_project_info() {
    let shared = agent(true, "me:p", project(true));
    let key: Arc<str> = Arc::from("model");
    let missing = evaluate(&shared, &headers(&[]), "p", key.clone(), payload(None));
    assert_eq!(refusal(missing.unwrap_err()), missing_tenant());
    let you = headers(&[("x-tenant-id", b"you")]);
    let unknown = evaluate(&shared, &you, "p", key, payload(None));
    assert_eq!(refusal(unknown.unwrap_err()), not_found());
}

fn checked(trace: Option<bool>) -> AccessCheck {
    let own = agent(false, "p", project(true));
    let request = headers(&[("x-access-token", b"one")]);
    evaluate(&own, &request, "p", Arc::from("model"), payload(trace)).unwrap()
}

#[test]
fn evaluation_waits_for_access() {
    let check = checked(Some(true));
    assert_eq!(check.access_token, "one");
    assert_eq!(&*check.key, "model");
    let evaluation = check.authorize(true).unwrap();
    assert_eq!(&*evaluation.key, "model");
    assert_eq!(evaluation.context, Value::String("context".to_string()));
    assert_eq!(evaluation.options, EvaluationOptions { trace: true, max_depth: 10 });
    assert!(!checked(None).authorize(true).unwrap().options.trace);
    assert!(!checked(Some(false)).authorize(true).unwrap().options.trace);
    assert_eq!(
        refusal(checked(None).authorize(false).unwrap_err()),
        (StatusCode::UNAUTHORIZED, "Invalid X-Access-Token Header".to_string())
    );
}

#[test]
fn decision_is_answered_with_release_and_version() {
    let outcome = EvaluationOutcome::Evaluated(Value::Bool(true));
    let response = respond(&project(true), Some(Arc::from("v7")), outcome).unwrap();
    assert_eq!(response.graph_response, Value::Bool(true));
    assert_eq!(response.details.release_id.as_deref(), Some("release"));
    assert_eq!(response.details.version_id.as_deref(), Some("v7"));

    let outcome = EvaluationOutcome::Evaluated(Value::Null);
    let response = respond(&project(false), None, outcome).unwrap();
    assert!(response.details.release_id.is_none());
    assert!(response.details.version_id.is_none());
}

#[test]
fn failed_evaluation_is_the_senders() {
    let failed = respond(&project(true), None, EvaluationOutcome::Failed("depth".to_string()));
    assert_eq!(refusal(failed.unwrap_err()), (StatusCode::BAD_REQUEST, "depth".to_string()));
    let lost = respond(&project(true), None, EvaluationOutcome::NotSerializable);
    assert_eq!(
        refusal(lost.unwrap_err()),
        (StatusCode::BAD_REQUEST, "Failed to serialize value".to_string())
    );
}

#[test]
fn refusals_are_sent_with_their_bodies() {
    let response =
        EvaluateError::from((StatusCode::NOT_FOUND, "Project not found".to_string())).into_response();
    assert_eq!(response.status, StatusCode::NOT_FOUND);
    assert!(matches!(response.body, ErrorBody::Message { message } if message == "Project not found"));
    let teapot = EvaluateError::from((StatusCode::IM_A_TEAPOT, "tea".to_string()));
    assert_eq!(teapot.into_response().status, StatusCode::IM_A_TEAPOT);
    let response = EvaluateError::from("why".to_string()).into_response();
    assert_eq!(response.status, StatusCode::BAD_REQUEST);
    assert!(matches!(response.body, ErrorBody::Message { message } if message == "why"));
    let response = EvaluateError::from(Some(Value::Bool(false))).into_response();
    assert_eq!(response.status, StatusCode::BAD_REQUEST);
    assert!(matches!(response.body, ErrorBody::Engine(Value::Bool(false))));
    let response = EvaluateError::from(None::<Value>).into_response();
    assert_eq!(response.status, StatusCode::BAD_REQUEST);
    assert!(matches!(response.body, ErrorBody::Null));
}

#[test]
fn other_headers_do_not_matter() {
    let local = agent(false, "p", project(true));
    let requests = [
        headers(&[("x-access-token", b"one")]),
        headers(&[("x-access-token", b"one"), ("x-tenant-id", b"someone")]),
        headers(&[("x-access-token", b"one"), ("x-tenant-id", b"")]),
        headers(&[("x-access-token", b"one"), ("x-tenant-id", b"\xff"), ("accept", b"x")]),
    ];
    for request in &requests {
        for name in ["p", "id"] {
            let check = evaluate(&local, request, name, Arc::from("m"), payload(None)).unwrap();
            assert!(Arc::ptr_eq(&check.project, &local.data.get("p").unwrap()));
            assert_eq!(check.access_token, "one");
            assert_eq!(&*project_info(&local, request, name).unwrap().release.id, "release");
        }
        let absent = evaluate(&local, request, "q", Arc::from("m"), payload(None)).unwrap_err();
        assert_eq!(refusal(absent), (StatusCode::NOT_FOUND, "Project not found".to_string()));
    }

    let shared = agent(true, "t:p", project(true));
    for request in [
        headers(&[("x-tenant-id", b"t")]),
        headers(&[("x-tenant-id", b"t"), ("x-access-token", b"wrong"), ("accept", b"x")]),
    ] {
        assert_eq!(&*project_info(&shared, &request, "id").unwrap().project.key, "key");
    }
}
