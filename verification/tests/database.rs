use std::sync::Arc;

use decision_agent::data::{DecisionContentMeta, FileDecisionGraph};
use decision_agent::provider::agent::{plan_refresh, Agent};
use decision_agent::provider::composite_key::split_composite_key;
use decision_agent::provider::diff::AgentData;
use decision_agent::provider::pg::{
    collect_graphs, generate_projects, into_project, list_project_data, load_project,
    DecisionModelRow, LoadAction, LoadEvent, LoadState, ProjectDetailRow, ProjectSummaryRow,
    TokenRow,
};
use decision_agent::provider::store::Project;
use uuid::Uuid;
use zen_engine::DecisionEngine;

fn release() -> Uuid {
    Uuid::from_u128(0x00112233_4455_6677_8899_aabbccddeeff)
}

const RELEASE_BYTES: [u8; 16] =
    [0x00, 0x11, 0x22, 0x33, 0x44, 0x55, 0x66, 0x77, 0x88, 0x99, 0xaa, 0xbb, 0xcc, 0xdd, 0xee, 0xff];

fn graph(content: u32, version: Option<&str>) -> FileDecisionGraph<u32> {
    FileDecisionGraph {
        content,
        meta: DecisionContentMeta { version_id: version.map(Arc::from) },
    }
}

fn model(
    key: &str,
    content: Option<FileDecisionGraph<u32>>,
    version: Option<&str>,
) -> DecisionModelRow<u32> {
    DecisionModelRow {
        model_key: key.to_string(),
        content,
        version_id: version.map(|v| v.to_string()),
    }
}

fn shown(content: &[(String, FileDecisionGraph<u32>)]) -> Vec<(String, u32, Option<String>)> {
    let mut shown: Vec<(String, u32, Option<String>)> = content
        .iter()
        .map(|(key, graph)| {
            (key.clone(), graph.content, graph.meta.version_id.as_ref().map(|v| v.to_string()))
        })
        .collect();
    shown.sort();
    shown
}

fn detail() -> ProjectDetailRow {
    ProjectDetailRow {
        project_pk: Uuid::from_u128(7),
        project_id: "project-id".to_string(),
        project_key: "project-key".to_string(),
        release_pk: release(),
        release_id: "release-id".to_string(),
        version: "1.2.3".to_string(),
    }
}

fn project() -> Arc<Project> {
    Arc::new(Project {
        engine: DecisionEngine::default(),
        release_data: None,
        content_hash: None,
    })
}

#[test]
fn composite_key_is_split_at_the_first_colon() {
    assert_eq!(split_composite_key("tenant:project"), Ok(("tenant", "project")));
    assert_eq!(split_composite_key("a:b:c"), Ok(("a", "b:c")));
    assert_eq!(split_composite_key("größe:ü"), Ok(("größe", "ü")));
    assert_eq!(split_composite_key("a::"), Ok(("a", ":")));
}

#[test]
fn composite_key_needs_both_parts() {
    assert_eq!(
        split_composite_key(":project"),
        Err("composite key missing tenant part: ':project'".to_string())
    );
    assert_eq!(split_composite_key(""), Err("composite key missing tenant part: ''".to_string()));
    assert_eq!(split_composite_key(":"), Err("composite key missing tenant part: ':'".to_string()));
    assert_eq!(
        split_composite_key("tenant:"),
        Err("composite key missing project part: 'tenant:'".to_string())
    );
    assert_eq!(
        split_composite_key("tenant"),
        Err("composite key missing project part: 'tenant'".to_string())
    );
}

#[test]
fn rows_are_listed_with_their_releases() {
    let rows = vec![ProjectSummaryRow { composite_key: "t:p".to_string(), release_pk: release() }];
    let data = list_project_data(rows);
    assert_eq!(data.len(), 1);
    assert_eq!(data[0].key, "t:p");
    assert_eq!(data[0].content_hash, Some(RELEASE_BYTES.to_vec()));
}

#[test]
fn plan_loads_what_changed() {
    let rows = vec![
        ProjectSummaryRow { composite_key: "t:p".to_string(), release_pk: release() },
        ProjectSummaryRow { composite_key: "t:q".to_string(), release_pk: release() },
    ];
    let plan = plan_refresh(&AgentData::default(), list_project_data(rows));
    assert_eq!(format!("{:?}", plan.diff), "[Created(\"t:p\"), Created(\"t:q\")]");
    assert_eq!(plan.to_refresh, ["t:p", "t:q"]);
}

fn project_at(release: Uuid) -> Arc<Project> {
    Arc::new(Project {
        engine: DecisionEngine::default(),
        release_data: None,
        content_hash: Some(release.as_bytes().to_vec()),
    })
}

fn rows(releases: &[(&str, u128)]) -> Vec<ProjectSummaryRow> {
    releases
        .iter()
        .map(|(key, release)| ProjectSummaryRow {
            composite_key: key.to_string(),
            release_pk: Uuid::from_u128(*release),
        })
        .collect()
}

#[test]
fn new_releases_are_loaded_until_the_listing_is_held() {
    let mut data = AgentData::default();
    for listing in [&[("t:p", 1), ("t:q", 2)], &[("t:p", 1), ("t:q", 3)]] {
        let plan = plan_refresh(&data, list_project_data(rows(listing)));
        let loaded = plan
            .to_refresh
            .iter()
            .map(|key| {
                let release = listing.iter().find(|row| row.0 == key).unwrap().1;
                (key.clone(), Some(project_at(Uuid::from_u128(release))))
            })
            .collect();
        Agent::get_diff_result(&mut data, plan.diff, generate_projects(loaded));
        let next = plan_refresh(&data, list_project_data(rows(listing)));
        assert!(next.diff.is_empty());
        assert!(next.to_refresh.is_empty());
    }
    let plan = plan_refresh(&data, list_project_data(rows(&[("t:p", 1), ("t:q", 2)])));
    assert_eq!(format!("{:?}", plan.diff), "[Updated(\"t:q\")]");
}

#[test]
fn projects_that_cannot_be_loaded_are_skipped() {
    let last = project();
    let projects = generate_projects(vec![
        ("a".to_string(), Some(project())),
        ("b".to_string(), None),
        ("a".to_string(), Some(last.clone())),
    ]);
    assert_eq!(projects.len(), 1);
    assert!(Arc::ptr_eq(projects.get("a").unwrap().value(), &last));
}

#[test]
fn graphs_are_kept_under_lower_case_keys() {
    let content = collect_graphs(vec![
        model("Pricing/Base", Some(graph(1, Some("inner"))), None),
        model("broken", None, Some("v")),
        model("ÄRGER", Some(graph(2, Some("inner"))), Some("outer")),
        model("pricing/base", Some(graph(3, None)), None),
    ]);
    assert_eq!(
        shown(&content),
        [
            ("pricing/base".to_string(), 3, None),
            ("ärger".to_string(), 2, Some("outer".to_string())),
        ]
    );
}

#[test]
fn project_is_read_in_three_questions() {
    let (state, action) = load_project::<u32>("tenant:project-key");
    match action {
        LoadAction::FetchProject { tenant_slug, project_key } => {
            assert_eq!((tenant_slug.as_str(), project_key.as_str()), ("tenant", "project-key"));
        }
        other => panic!("unexpected action {:?}", other),
    }
    let (state, action) = state.step(LoadEvent::Project(detail()));
    assert!(matches!(action, LoadAction::FetchModels { release_pk } if release_pk == release()));
    let models = vec![model("M", Some(graph(5, None)), Some("v5"))];
    let (state, action) = state.step(LoadEvent::Models(models));
    assert!(
        matches!(action, LoadAction::FetchTokens { project_pk } if project_pk == Uuid::from_u128(7))
    );
    let tokens = vec![
        TokenRow { token: "one".to_string() },
        TokenRow { token: "two".to_string() },
    ];
    let (state, action) = state.step(LoadEvent::Tokens(tokens));
    assert!(matches!(state, LoadState::Ended));
    let loaded = match action {
        LoadAction::Finish(loaded) => loaded,
        other => panic!("unexpected action {:?}", other),
    };
    assert_eq!(shown(&loaded.content), [("m".to_string(), 5, Some("v5".to_string()))]);
    assert_eq!(loaded.content_hash, RELEASE_BYTES.to_vec());
    let release = loaded.release_data;
    assert_eq!(release.version.as_deref(), Some("1.2.3"));
    assert_eq!(&*release.project.id, "project-id");
    assert_eq!(&*release.project.key, "project-key");
    assert_eq!(&*release.release.id, "release-id");
    assert_eq!(&*release.release.version, "1.2.3");
    let tokens: Vec<&str> = release.access_tokens.iter().map(|t| &**t).collect();
    assert_eq!(tokens, ["one", "two"]);
}

#[test]
fn project_keeps_what_was_read() {
    let state = LoadState::Tokens(detail(), Vec::<DecisionModelRow<u32>>::new());
    let (_, action) = state.step(LoadEvent::Tokens(Vec::new()));
    let loaded = match action {
        LoadAction::Finish(loaded) => loaded,
        other => panic!("unexpected action {:?}", other),
    };
    let project =
        into_project(loaded.release_data, loaded.content_hash, DecisionEngine::default());
    assert_eq!(project.content_hash, Some(RELEASE_BYTES.to_vec()));
    assert_eq!(&*project.release_data.as_ref().unwrap().project.id, "project-id");

    let mut data = AgentData::default();
    let listing =
        || vec![ProjectSummaryRow { composite_key: "t:p".to_string(), release_pk: release() }];
    let plan = plan_refresh(&data, list_project_data(listing()));
    let loaded = generate_projects(vec![("t:p".to_string(), Some(Arc::new(project)))]);
    Agent::get_diff_result(&mut data, plan.diff, loaded);
    assert!(plan_refresh(&data, list_project_data(listing())).diff.is_empty());
}

#[test]
fn broken_key_asks_the_database_nothing() {
    let (state, action) = load_project::<u32>("project");
    assert!(matches!(state, LoadState::Ended));
    match action {
        LoadAction::Fail(message) => {
            assert_eq!(message, "composite key missing project part: 'project'");
        }
        other => panic!("unexpected action {:?}", other),
    }
}

#[test]
fn failed_question_ends_the_reading() {
    let (state, _) = load_project::<u32>("tenant:project");
    let (state, _) = state.step(LoadEvent::Project(detail()));
    let (state, action) = state.step(LoadEvent::Failed("gone".to_string()));
    assert!(matches!(state, LoadState::Ended));
    assert!(matches!(action, LoadAction::Fail(message) if message == "gone"));
}
