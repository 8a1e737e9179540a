use std::sync::Arc;
use std::time::Duration;

use dashmap::DashMap;
use decision_agent::config::{
    AzureStorageProviderConfig, EnvironmentConfig, FilesystemProviderConfig, GcsProviderConfig,
    PostgresProviderConfig, ProviderConfig, S3ProviderConfig, ZipProviderConfig,
};
use decision_agent::data::{ReleaseData, ReleaseDataProject, ReleaseDataRelease};
use decision_agent::provider::agent::{find_by_id, Agent, AgentProvider};
use decision_agent::provider::diff::{find_removals, AgentData, ProjectData, ProjectDiff};
use decision_agent::provider::refresh::{RefreshAction, RefreshEvent, RefreshState};
use decision_agent::provider::registry::FailedProjectsRegistry;
use decision_agent::provider::schedule::{format_system_time, rounded_instant, RefreshJob};
use decision_agent::provider::startup::{start, StartupAction, StartupEvent, StartupState};
use decision_agent::provider::store::Project;
use zen_engine::DecisionEngine;

fn project(id: Option<&str>, hash: &[u8]) -> Arc<Project> {
    Arc::new(Project {
        engine: DecisionEngine::default(),
        release_data: id.map(|id| ReleaseData {
            version: None,
            project: ReleaseDataProject { id: Arc::from(id), key: Arc::from("key") },
            access_tokens: Vec::new(),
            release: ReleaseDataRelease { id: Arc::from("r"), version: Arc::from("1") },
        }),
        content_hash: Some(hash.to_vec()),
    })
}

fn listed(key: &str, hash: &[u8]) -> ProjectData {
    ProjectData { key: key.to_string(), content_hash: Some(hash.to_vec()) }
}

fn loaded(projects: &[(&str, Arc<Project>)]) -> DashMap<String, Arc<Project>> {
    let map = DashMap::new();
    for (key, project) in projects {
        map.insert(key.to_string(), project.clone());
    }
    map
}

fn fill(data: &mut AgentData, projects: &[(&str, Arc<Project>)]) {
    let diff = projects.iter().map(|(key, _)| ProjectDiff::Created(key.to_string())).collect();
    Agent::get_diff_result(data, diff, loaded(projects));
}

fn agent(provider: ProviderConfig, projects: &[(&str, Arc<Project>)]) -> Agent {
    let mut config = EnvironmentConfig::default();
    config.provider = provider;
    let mut agent = Agent::new(config);
    fill(&mut agent.data, projects);
    agent
}

fn postgres() -> ProviderConfig {
    ProviderConfig::Postgres(PostgresProviderConfig { database_url: "postgres://".to_string() })
}

fn shown(diff: &[ProjectDiff]) -> Vec<String> {
    diff.iter().map(|change| format!("{:?}", change)).collect()
}

fn keys(data: &AgentData) -> Vec<String> {
    let mut keys: Vec<String> = data.entries().into_iter().map(|entry| entry.0).collect();
    keys.sort();
    keys
}

#[test]
fn diff_holds_removals_then_updates_in_listed_order() {
    let mut data = AgentData::default();
    fill(
        &mut data,
        &[("gone", project(None, b"1")), ("same", project(None, b"2")), ("old", project(None, b"3"))],
    );
    let diff = data.calculate_diff(vec![
        listed("new", b"9"),
        listed("same", b"2"),
        listed("old", b"4"),
    ]);
    assert_eq!(shown(&diff), ["Removed(\"gone\")", "Created(\"new\")", "Updated(\"old\")"]);
    assert_eq!(Agent::get_refresh_list(&diff), ["new", "old"]);
}

#[test]
fn every_unlisted_project_is_removed() {
    let mut data = AgentData::default();
    fill(&mut data, &[("a", project(None, b"1")), ("b", project(None, b"1"))]);
    let mut diff = shown(&data.calculate_diff(Vec::new()));
    diff.sort();
    assert_eq!(diff, ["Removed(\"a\")", "Removed(\"b\")"]);
}

#[test]
fn removals_follow_the_walk() {
    let entries = vec![
        ("b".to_string(), project(None, b"1")),
        ("a".to_string(), project(None, b"1")),
        ("c".to_string(), project(None, b"1")),
    ];
    let removed = find_removals(&entries, &vec![listed("a", b"7")]);
    assert_eq!(shown(&removed), ["Removed(\"b\")", "Removed(\"c\")"]);
}

#[test]
fn missing_hash_differs_from_any_hash() {
    let mut data = AgentData::default();
    fill(&mut data, &[("a", project(None, b""))]);
    let unhashed = ProjectData { key: "a".to_string(), content_hash: None };
    assert_eq!(shown(&data.calculate_diff(vec![unhashed])), ["Updated(\"a\")"]);
    assert!(data.calculate_diff(vec![listed("a", b"")]).is_empty());
}

#[test]
fn full_refresh_settles() {
    let mut data = AgentData::default();
    fill(&mut data, &[("a", project(None, b"1")), ("b", project(None, b"1"))]);
    let listing = || vec![listed("b", b"2"), listed("c", b"3")];
    let diff = data.calculate_diff(listing());
    let refreshed = loaded(&[("b", project(None, b"2")), ("c", project(None, b"3"))]);
    let reported = Agent::get_diff_result(&mut data, diff, refreshed);
    assert_eq!(shown(&reported), ["Removed(\"a\")", "Updated(\"b\")", "Created(\"c\")"]);
    assert_eq!(keys(&data), ["b", "c"]);
    assert!(data.calculate_diff(listing()).is_empty());
}

#[test]
fn failed_load_is_dropped_and_tried_again() {
    let mut data = AgentData::default();
    fill(&mut data, &[("a", project(None, b"1"))]);
    let diff = data.calculate_diff(vec![listed("a", b"2")]);
    let reported = Agent::get_diff_result(&mut data, diff, DashMap::new());
    assert!(reported.is_empty());
    assert!(keys(&data).is_empty());
    assert_eq!(shown(&data.calculate_diff(vec![listed("a", b"2")])), ["Created(\"a\")"]);
}

#[test]
fn untouched_projects_stay_the_same() {
    let kept = project(Some("kept"), b"1");
    let mut data = AgentData::default();
    fill(&mut data, &[("kept", kept.clone()), ("gone", project(None, b"1"))]);
    let diff = data.calculate_diff(vec![listed("kept", b"1")]);
    Agent::get_diff_result(&mut data, diff, loaded(&[("kept", project(None, b"8"))]));
    assert!(Arc::ptr_eq(&data.get("kept").unwrap(), &kept));
    assert!(data.get("gone").is_none());
}

#[test]
fn refresh_lists_then_loads_what_changed() {
    let mut agent = agent(
        postgres(),
        &[("t:gone", project(None, b"1")), ("t:old", project(None, b"1"))],
    );
    let (state, action) = RefreshState::start();
    assert!(matches!(action, RefreshAction::List));
    let listing = vec![listed("t:old", b"2"), listed("t:new", b"3"), listed("t:lost", b"4")];
    let (state, action) = agent.refresh_data(state, RefreshEvent::Listed(listing));
    match action {
        RefreshAction::Load(keys) => assert_eq!(keys, ["t:old", "t:new", "t:lost"]),
        other => panic!("unexpected action {:?}", other),
    }
    assert_eq!(keys(&agent.data), ["t:gone", "t:old"]);
    let newer = project(None, b"2");
    let loaded = vec![
        ("t:old".to_string(), Some(newer.clone())),
        ("t:new".to_string(), Some(project(None, b"3"))),
        ("t:lost".to_string(), None),
        ("t:unasked".to_string(), Some(project(None, b"9"))),
    ];
    let (state, action) = agent.refresh_data(state, RefreshEvent::Loaded(loaded));
    assert!(matches!(state, RefreshState::Ended));
    match action {
        RefreshAction::Finish(changed) => assert_eq!(
            shown(&changed),
            ["Removed(\"t:gone\")", "Updated(\"t:old\")", "Created(\"t:new\")"]
        ),
        other => panic!("unexpected action {:?}", other),
    }
    assert_eq!(keys(&agent.data), ["t:new", "t:old"]);
    assert!(Arc::ptr_eq(&agent.data.get("t:old").unwrap(), &newer));
}

#[test]
fn failed_refresh_keeps_the_projects() {
    let mut agent = agent(postgres(), &[("t:a", project(None, b"1"))]);
    let failed = || RefreshEvent::Failed("no connection".to_string());
    let (state, action) = agent.refresh_data(RefreshState::Listing, failed());
    assert!(matches!(state, RefreshState::Ended));
    assert!(matches!(action, RefreshAction::Fail(message) if message == "no connection"));
    assert_eq!(keys(&agent.data), ["t:a"]);

    let mut data = agent.data;
    let (state, _) = RefreshState::Listing.step(&mut data, RefreshEvent::Listed(Vec::new()));
    assert!(matches!(&state, RefreshState::Loading(diff) if shown(diff) == ["Removed(\"t:a\")"]));
    let (_, action) = state.step(&mut data, failed());
    assert!(matches!(action, RefreshAction::Fail(message) if message == "no connection"));
    assert_eq!(keys(&data), ["t:a"]);
}

#[test]
fn project_is_found_by_key_before_id() {
    let by_key = project(Some("other"), b"1");
    let by_id = project(Some("wanted"), b"2");
    let agent = agent(
        ProviderConfig::default(),
        &[("wanted", by_key.clone()), ("elsewhere", by_id.clone()), ("bare", project(None, b"3"))],
    );
    assert!(Arc::ptr_eq(&agent.project("wanted").unwrap(), &by_key));
    assert!(Arc::ptr_eq(&agent.project("elsewhere").unwrap(), &by_id));
    assert!(Arc::ptr_eq(&agent.project("other").unwrap(), &by_key));
    assert!(agent.project("absent").is_none());
}

#[test]
fn tenant_sees_own_projects_only() {
    let mine = project(Some("id"), b"1");
    let theirs = project(Some("their-id"), b"2");
    let agent = agent(postgres(), &[("me:p", mine.clone()), ("you:q", theirs.clone())]);
    assert!(Arc::ptr_eq(&agent.project_for_tenant("me", "p").unwrap(), &mine));
    assert!(Arc::ptr_eq(&agent.project_for_tenant("me", "id").unwrap(), &mine));
    assert!(agent.project_for_tenant("me", "q").is_none());
    assert!(agent.project_for_tenant("me", "their-id").is_none());
    assert!(agent.project_for_tenant("m", "id").is_none());
    assert!(Arc::ptr_eq(&agent.project_for_tenant("you", "their-id").unwrap(), &theirs));
}

#[test]
fn first_match_of_a_walk_is_found() {
    let first = project(Some("id"), b"1");
    let entries = vec![
        ("x:a".to_string(), project(Some("id"), b"0")),
        ("t:a".to_string(), first.clone()),
        ("t:b".to_string(), project(Some("id"), b"2")),
    ];
    assert!(Arc::ptr_eq(&find_by_id(&entries, "t:", "id").unwrap(), &first));
    assert!(find_by_id(&entries, "t:", "no").is_none());
    assert!(find_by_id(&entries, "u:", "id").is_none());
}

#[test]
fn provider_kinds_follow_the_configuration() {
    let configs = [
        ProviderConfig::Zip(ZipProviderConfig::default()),
        ProviderConfig::Filesystem(FilesystemProviderConfig::default()),
        ProviderConfig::S3(S3ProviderConfig {
            bucket: "b".to_string(),
            force_path_style: false,
            endpoint: None,
            prefix: None,
        }),
        ProviderConfig::AzureStorage(AzureStorageProviderConfig {
            connection_string: "c".to_string(),
            container: "c".to_string(),
            prefix: None,
        }),
        ProviderConfig::GCS(GcsProviderConfig {
            base64_contents: None,
            bucket: "b".to_string(),
            prefix: None,
        }),
        postgres(),
    ];
    let kinds: Vec<AgentProvider> = configs.iter().map(AgentProvider::of_config).collect();
    assert_eq!(
        kinds,
        [
            AgentProvider::Zip,
            AgentProvider::Filesystem,
            AgentProvider::S3,
            AgentProvider::AzureStorage,
            AgentProvider::GCS,
            AgentProvider::Postgres,
        ]
    );
    let refreshed: Vec<bool> = kinds.iter().map(|kind| kind.should_refresh()).collect();
    assert_eq!(refreshed, [false, false, true, true, true, true]);
    let tenants: Vec<bool> = kinds.iter().map(|kind| kind.is_saas_mode()).collect();
    assert_eq!(tenants, [false, false, false, false, false, true]);
    assert!(agent(postgres(), &[]).is_saas_mode());
    assert!(!agent(ProviderConfig::default(), &[]).is_saas_mode());
}

#[test]
fn failures_are_remembered() {
    let mut registry = FailedProjectsRegistry::new();
    assert!(!registry.has_failed(Some(b"a")));
    registry.insert(b"a".to_vec());
    registry.insert(b"b".to_vec());
    assert!(registry.has_failed(Some(b"a")));
    assert!(registry.has_failed(Some(b"b")));
    assert!(!registry.has_failed(Some(b"c")));
    assert!(!registry.has_failed(None));
}

#[test]
fn ticks_fall_on_multiples_of_the_interval() {
    assert_eq!(rounded_instant(12_345_678_900, Duration::from_millis(5_000)), (15_000, 2_654_321_100));
    assert_eq!(rounded_instant(15_000_000_000, Duration::from_millis(5_000)), (15_000, 0));
    assert_eq!(rounded_instant(15_000_000_001, Duration::from_millis(5_000)), (15_000, 0));
    assert_eq!(rounded_instant(15_001_000_000, Duration::from_millis(5_000)), (20_000, 4_999_000_000));
    assert_eq!(rounded_instant(0, Duration::from_millis(1_000)), (0, 0));
}

#[test]
fn late_moments_are_kept_in_sixty_four_bits() {
    let now: u128 = (u64::MAX as u128) * 1_000_000;
    assert_eq!(rounded_instant(now, Duration::from_millis(2)), (0, 0));
}

#[test]
fn moments_are_written_to_the_microsecond() {
    assert_eq!(
        format_system_time(1_516_991_409, 453_829_000).unwrap(),
        "2018-01-26T18:30:09.453829Z"
    );
    assert_eq!(format_system_time(0, 0).unwrap(), "1970-01-01T00:00:00.000000Z");
    assert!(format_system_time(i64::MAX, 0).is_none());
}

#[test]
fn only_remote_projects_are_refreshed() {
    let remote = agent(postgres(), &[]);
    let schedule = remote.register_refresh_data(12_345_678_900).unwrap();
    assert_eq!(schedule.first_tick, 15_000);
    assert_eq!(schedule.delay_nanos, 2_654_321_100);
    assert_eq!(schedule.interval, Duration::from_secs(5));
    assert_eq!(schedule.started.unwrap(), "1970-01-01T00:00:20.000000Z");
    assert!(agent(ProviderConfig::default(), &[]).register_refresh_data(0).is_none());
}

#[test]
fn ticks_go_by_whole_milliseconds() {
    let mut remote = agent(postgres(), &[]);
    remote.config.poll_interval = Duration::from_micros(2_500_300);
    let schedule = remote.register_refresh_data(12_345_678_900).unwrap();
    assert_eq!(schedule.first_tick, 12_500);
    assert_eq!(schedule.interval, Duration::from_micros(2_500_300));
    assert_eq!(schedule.started.unwrap(), "1970-01-01T00:00:15.000300Z");
}

#[test]
fn moments_beyond_the_calendar_are_not_written() {
    let mut remote = agent(postgres(), &[]);
    remote.config.poll_interval = Duration::MAX;
    let schedule = remote.register_refresh_data(0).unwrap();
    assert_eq!((schedule.first_tick, schedule.delay_nanos), (0, 0));
    assert!(schedule.started.is_none());
}

#[test]
fn nothing_is_read_at_the_first_tick() {
    let mut job = RefreshJob::new();
    assert!(!job.tick());
    assert!(job.tick());
    assert!(job.tick());
}

#[test]
fn agent_runs_once_its_projects_are_loaded() {
    let mut config = EnvironmentConfig::default();
    config.provider = postgres();
    let (state, action) = start(config);
    assert!(matches!(action, StartupAction::CreateProvider(AgentProvider::Postgres)));
    let (state, action) = state.step(StartupEvent::ProviderCreated);
    assert!(matches!(action, StartupAction::ListProjects));
    let listing = RefreshEvent::Listed(vec![listed("t:a", b"1"), listed("t:b", b"1")]);
    let (state, action) = state.step(StartupEvent::Answered(listing));
    match action {
        StartupAction::LoadProjects(keys) => assert_eq!(keys, ["t:a", "t:b"]),
        other => panic!("unexpected action {:?}", other),
    }
    let loaded = RefreshEvent::Loaded(vec![
        ("t:a".to_string(), Some(project(None, b"1"))),
        ("t:b".to_string(), None),
    ]);
    let (state, action) = state.step(StartupEvent::Answered(loaded));
    assert!(matches!(state, StartupState::Ended));
    match action {
        StartupAction::Run(agent, refreshes) => {
            assert_eq!(keys(&agent.data), ["t:a"]);
            assert!(refreshes);
        }
        other => panic!("unexpected action {:?}", other),
    }
}

#[test]
fn agent_on_local_projects_is_not_refreshed() {
    let mut config = EnvironmentConfig::default();
    config.poll_interval = Duration::ZERO;
    let (state, _) = start(config);
    let (state, _) = state.step(StartupEvent::ProviderCreated);
    let (state, _) = state.step(StartupEvent::Answered(RefreshEvent::Listed(Vec::new())));
    let (_, action) = state.step(StartupEvent::Answered(RefreshEvent::Loaded(Vec::new())));
    assert!(matches!(action, StartupAction::Run(_, false)));
}

#[test]
fn failed_start_is_given_up() {
    let (state, _) = start(EnvironmentConfig::default());
    let (state, action) = state.step(StartupEvent::Failed("no provider".to_string()));
    assert!(matches!(state, StartupState::Ended));
    assert!(matches!(action, StartupAction::Abort(message) if message == "no provider"));

    let (state, _) = start(EnvironmentConfig::default());
    let (state, _) = state.step(StartupEvent::ProviderCreated);
    let failed = RefreshEvent::Failed("no data".to_string());
    let (_, action) = state.step(StartupEvent::Answered(failed));
    assert!(matches!(action, StartupAction::Abort(message) if message == "no data"));
}
