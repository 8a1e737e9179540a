//! How an agent comes up: its provider is created, its projects are loaded, then it runs.
use std::sync::Arc;

use vstd::prelude::*;

use crate::config::{EnvironmentConfig, ProviderConfig};
use crate::provider::agent::{self, Agent, AgentProvider};
use crate::provider::diff::{self, ProjectData, ProjectDiff};
use crate::provider::diff_laws;
use crate::provider::laws;
use crate::provider::pg;
use crate::provider::refresh::{RefreshAction, RefreshEvent, RefreshState};
use crate::provider::schedule::{self, RefreshSchedule};
use crate::provider::store::{Project, ProjectMap};

verus! {

/// How far an agent has come up.
#[derive(Debug)]
pub enum StartupState {
    /// Its provider is being created.
    CreatingProvider(Agent),
    /// Its projects are being loaded for the first time.
    LoadingData(Agent, RefreshState),
    /// It runs, or it never will.
    Ended,
}

/// What became of the last action.
#[derive(Debug)]
pub enum StartupEvent {
    ProviderCreated,
    /// The provider could not be created.
    Failed(String),
    /// The provider answered.
    Answered(RefreshEvent),
}

/// What is to be done next.
#[derive(Debug)]
pub enum StartupAction {
    /// Create the provider of this kind.
    CreateProvider(AgentProvider),
    /// Ask which projects there are.
    ListProjects,
    /// Ask for the projects of these keys.
    LoadProjects(Vec<String>),
    /// Let the agent run, and read its projects again from time to time where it says so.
    Run(Agent, bool),
    /// Give up.
    Abort(String),
}

/// Whether a start begins in `state`, with this action to be done.
pub open spec fn begins(
    config: EnvironmentConfig,
    state: StartupState,
    action: StartupAction,
) -> bool {
    state matches StartupState::CreatingProvider(agent) && {
        &&& agent.data@ == ProjectMap::empty()
        &&& agent.provider == agent::configured_provider(config.provider)
        &&& agent.config == config
        &&& action == StartupAction::CreateProvider(agent.provider)
    }
}

/// Begins to bring up an agent.
pub fn start(config: EnvironmentConfig) -> (r: (StartupState, StartupAction))
    ensures
        r.0 matches StartupState::CreatingProvider(agent) && {
            &&& agent.data@ == ProjectMap::empty()
            &&& agent.provider == agent::configured_provider(config.provider)
            &&& agent.config == config
        },
        r.1 == StartupAction::CreateProvider(agent::configured_provider(config.provider)),
        begins(config, r.0, r.1),
{
    let agent: Agent = Agent::new(config);
    let provider: AgentProvider = agent.provider;
    (StartupState::CreatingProvider(agent), StartupAction::CreateProvider(provider))
}

/// Whether a first refresh goes on as it has to on an answer of the provider.
pub open spec fn loads_on(
    agent: Agent,
    refresh: RefreshState,
    event: RefreshEvent,
    next: StartupState,
    action: StartupAction,
) -> bool {
    match (refresh, event) {
        (RefreshState::Listing, RefreshEvent::Listed(listed)) => {
            &&& next matches StartupState::LoadingData(same, RefreshState::Loading(diff))
                && action matches StartupAction::LoadProjects(keys) && same == agent
                && diff::is_diff(agent.data@, diff::listings(listed@), diff::changes(diff@))
                && agent::texts(keys@) == agent::refresh_keys(diff::changes(diff@))
        },
        (RefreshState::Loading(diff), RefreshEvent::Loaded(loaded)) => {
            &&& next is Ended
            &&& action matches StartupAction::Run(running, refreshes) && {
                &&& running.provider == agent.provider
                &&& running.config == agent.config
                &&& running.data@ == diff::apply_changes(
                    agent.data@,
                    diff::changes(diff@),
                    pg::loaded_projects(loaded@),
                )
                &&& refreshes == !(agent.provider is Zip || agent.provider is Filesystem)
            }
        },
        (_, RefreshEvent::Failed(error)) => {
            &&& next is Ended
            &&& action matches StartupAction::Abort(message) && message == error
        },
        _ => false,
    }
}

/// Whether the coming up of an agent goes from `state` to `next` on what happened, with this action
/// to be done.
pub open spec fn comes_up(
    state: StartupState,
    event: StartupEvent,
    next: StartupState,
    action: StartupAction,
) -> bool {
    match (state, event) {
        (StartupState::CreatingProvider(agent), StartupEvent::ProviderCreated) => next
            == StartupState::LoadingData(agent, RefreshState::Listing) && action is ListProjects,
        (StartupState::CreatingProvider(_), StartupEvent::Failed(error)) => next is Ended && action
            == StartupAction::Abort(error),
        (StartupState::LoadingData(agent, refresh), StartupEvent::Answered(answer)) => loads_on(
            agent,
            refresh,
            answer,
            next,
            action,
        ),
        _ => false,
    }
}

impl StartupState {
    /// Whether what happened can have happened.
    pub open spec fn expects(self, event: StartupEvent) -> bool {
        match event {
            StartupEvent::ProviderCreated => self is CreatingProvider,
            StartupEvent::Failed(_) => self is CreatingProvider,
            StartupEvent::Answered(answer) => self matches StartupState::LoadingData(_, refresh)
                && refresh.expects(answer),
        }
    }

    /// Goes on after an action.
    pub fn step(self, event: StartupEvent) -> (r: (StartupState, StartupAction))
        requires
            self.expects(event),
        ensures
            match (self, event) {
                (StartupState::CreatingProvider(agent), StartupEvent::ProviderCreated) => {
                    &&& r.0 == StartupState::LoadingData(agent, RefreshState::Listing)
                    &&& r.1 is ListProjects
                },
                (StartupState::CreatingProvider(_), StartupEvent::Failed(error)) => {
                    &&& r.0 is Ended
                    &&& r.1 matches StartupAction::Abort(message) && message == error
                },
                (
                    StartupState::LoadingData(agent, refresh),
                    StartupEvent::Answered(answer),
                ) => loads_on(agent, refresh, answer, r.0, r.1),
                _ => false,
            },
            comes_up(self, event, r.0, r.1),
    {
        match (self, event) {
            (StartupState::CreatingProvider(agent), StartupEvent::ProviderCreated) => {
                let (refresh, _): (RefreshState, RefreshAction) = RefreshState::start();
                (StartupState::LoadingData(agent, refresh), StartupAction::ListProjects)
            },
            (StartupState::CreatingProvider(_), StartupEvent::Failed(error)) => (
                StartupState::Ended,
                StartupAction::Abort(error),
            ),
            (StartupState::LoadingData(agent, refresh), StartupEvent::Answered(answer)) => {
                let mut agent: Agent = agent;
                let (next, action): (RefreshState, RefreshAction) = agent.refresh_data(
                    refresh,
                    answer,
                );
                match action {
                    RefreshAction::Load(keys) => (
                        StartupState::LoadingData(agent, next),
                        StartupAction::LoadProjects(keys),
                    ),
                    RefreshAction::Finish(_) => {
                        let refreshes: bool = agent.provider.should_refresh();
                        (StartupState::Ended, StartupAction::Run(agent, refreshes))
                    },
                    RefreshAction::Fail(error) => (
                        StartupState::Ended,
                        StartupAction::Abort(error),
                    ),
                    RefreshAction::List => vstd::pervasive::unreached(),
                }
            },
            _ => vstd::pervasive::unreached(),
        }
    }
}

/// An agent that has come up holds a project exactly if it was listed and could be loaded, and holds
/// it as it was loaded.
pub proof fn law_agent_comes_up_with_what_was_loaded(
    agent: Agent,
    listed: Vec<ProjectData>,
    loading: StartupState,
    load: StartupAction,
    refresh: RefreshState,
    loaded: Vec<(String, Option<Arc<Project>>)>,
    end: StartupState,
    running: Agent,
    refreshes: bool,
    key: Seq<char>,
)
    requires
        agent.data@ == ProjectMap::empty(),
        loads_on(agent, RefreshState::Listing, RefreshEvent::Listed(listed), loading, load),
        loading == StartupState::LoadingData(agent, refresh),
        loads_on(
            agent,
            refresh,
            RefreshEvent::Loaded(loaded),
            end,
            StartupAction::Run(running, refreshes),
        ),
    ensures
        running.data@.contains_key(key) == (diff::is_listed(diff::listings(listed@), key)
            && pg::loaded_projects(loaded@).contains_key(key)),
        running.data@.contains_key(key) ==> running.data@[key] == pg::loaded_projects(loaded@)[key],
{
    let listing = diff::listings(listed@);
    let changes = diff::changes(refresh->Loading_0@);
    laws::law_refresh_outcome(agent.data@, listing, changes, pg::loaded_projects(loaded@), key);
    if diff::is_listed(listing, key) {
        let i = choose|i: int| 0 <= i < listing.len() && (#[trigger] listing[i]).key == key;
        assert(diff::update_of(agent.data@, listing[i]) is Some);
        assert(laws::must_load(agent.data@, listing, key));
    }
}

/// An agent that has come up is told to read its projects again exactly if it is configured to have
/// them from S3, Azure, GCS or a database, and then, and only then, has it a schedule. It keeps the
/// configuration that it came up with.
pub proof fn law_remote_projects_are_read_again(
    agent: Agent,
    refresh: RefreshState,
    loaded: Vec<(String, Option<Arc<Project>>)>,
    end: StartupState,
    running: Agent,
    refreshes: bool,
    now_nanos: u128,
    schedule: Option<RefreshSchedule>,
)
    requires
        agent.provider == agent::configured_provider(agent.config.provider),
        loads_on(
            agent,
            refresh,
            RefreshEvent::Loaded(loaded),
            end,
            StartupAction::Run(running, refreshes),
        ),
        schedule::is_refresh_schedule(running, now_nanos, schedule),
    ensures
        running.config == agent.config,
        running.provider == agent.provider,
        refreshes == (match agent.config.provider {
            ProviderConfig::Zip(_) => false,
            ProviderConfig::Filesystem(_) => false,
            ProviderConfig::S3(_) => true,
            ProviderConfig::AzureStorage(_) => true,
            ProviderConfig::GCS(_) => true,
            ProviderConfig::Postgres(_) => true,
        }),
        refreshes <==> schedule is Some,
{
    schedule::law_schedule_of_every_agent(running, now_nanos, schedule);
}

/// The kind of provider is the one that the configuration names.
pub proof fn law_provider_is_the_configured_one(config: ProviderConfig)
    ensures
        config is Zip <==> agent::configured_provider(config) is Zip,
        config is Filesystem <==> agent::configured_provider(config) is Filesystem,
        config is S3 <==> agent::configured_provider(config) is S3,
        config is AzureStorage <==> agent::configured_provider(config) is AzureStorage,
        config is GCS <==> agent::configured_provider(config) is GCS,
        config is Postgres <==> agent::configured_provider(config) is Postgres,
{
}

/// While an agent comes up, its provider is asked for exactly one project for each listed item, in
/// the order of the listing, since it holds none yet; then it runs with the projects that could be
/// loaded of those that were listed, each as it was loaded last.
pub proof fn law_agent_comes_up_with_each_project(
    agent: Agent,
    listed: Vec<ProjectData>,
    loading: StartupState,
    load: StartupAction,
    refresh: RefreshState,
    loaded: Vec<(String, Option<Arc<Project>>)>,
    end: StartupState,
    running: Agent,
    refreshes: bool,
    key: Seq<char>,
)
    requires
        agent.data@ == ProjectMap::empty(),
        loads_on(agent, RefreshState::Listing, RefreshEvent::Listed(listed), loading, load),
        loading == StartupState::LoadingData(agent, refresh),
        loads_on(
            agent,
            refresh,
            RefreshEvent::Loaded(loaded),
            end,
            StartupAction::Run(running, refreshes),
        ),
    ensures
        load matches StartupAction::LoadProjects(keys) && keys@.len() == listed@.len() && forall|
            k: int,
        |
            0 <= k < keys@.len() ==> (#[trigger] keys@[k])@ == listed@[k].key@,
        running.data@.contains_key(key) <==> (exists|j: int|
            0 <= j < listed@.len() && (#[trigger] listed@[j]).key@ == key) && (exists|i: int|
            0 <= i < loaded@.len() && (#[trigger] loaded@[i]).0@ == key && loaded@[i].1 is Some),
        running.data@.contains_key(key) ==> forall|i: int|
            {
                &&& 0 <= i < loaded@.len()
                &&& (#[trigger] loaded@[i]).0@ == key
                &&& loaded@[i].1 is Some
                &&& forall|j: int|
                    i < j < loaded@.len() && (#[trigger] loaded@[j]).0@ == key
                        ==> loaded@[j].1 is None
            } ==> running.data@[key] == loaded@[i].1->0,
        end is Ended,
{
    let keys = load->LoadProjects_0;
    let diff = refresh->Loading_0;
    law_agent_comes_up_with_what_was_loaded(
        agent,
        listed,
        loading,
        load,
        refresh,
        loaded,
        end,
        running,
        refreshes,
        key,
    );
    let at = diff_laws::law_listing_leads_to_loading(
        agent.data@,
        listed,
        refresh,
        RefreshAction::Load(keys),
        agent.data@,
    );
    assert forall|j: int| 0 <= j < listed@.len() implies at.contains(j) by {
        assert(!agent.data@.contains_key(listed@[j].key@));
    }
    lemma_all_positions(at, listed@.len() as int);
    assert forall|k: int| 0 <= k < keys@.len() implies (#[trigger] keys@[k])@
        == listed@[k].key@ by {
        assert(at[k] == k);
    }
    let listing = diff::listings(listed@);
    if diff::is_listed(listing, key) {
        let j = choose|j: int| 0 <= j < listing.len() && (#[trigger] listing[j]).key == key;
        assert(listed@[j].key@ == key);
    }
    if exists|j: int| 0 <= j < listed@.len() && (#[trigger] listed@[j]).key@ == key {
        let j = choose|j: int| 0 <= j < listed@.len() && (#[trigger] listed@[j]).key@ == key;
        assert(listing[j].key == key);
    }
    pg::lemma_loaded_projects(loaded@, key);
    if pg::loaded_projects(loaded@).contains_key(key) {
        let i = choose|i: int|
            0 <= i < loaded@.len() && (#[trigger] loaded@[i]).0@ == key && loaded@[i].1 == Some(
                pg::loaded_projects(loaded@)[key],
            );
        assert(loaded@[i].1 is Some);
    }
    assert forall|i: int|
        {
            &&& 0 <= i < loaded@.len()
            &&& (#[trigger] loaded@[i]).0@ == key
            &&& loaded@[i].1 is Some
            &&& forall|j: int|
                i < j < loaded@.len() && (#[trigger] loaded@[j]).0@ == key ==> loaded@[j].1 is None
        } implies pg::loaded_projects(loaded@)[key] == loaded@[i].1->0 by {
        diff_laws::law_last_loaded_counts(loaded@, key, i);
    }
}

/// An increasing list of all the numbers below another is those numbers in order.
proof fn lemma_all_positions(at: Seq<int>, n: int)
    requires
        n >= 0,
        forall|k: int| 0 <= k < at.len() ==> 0 <= #[trigger] at[k] < n,
        forall|a: int, b: int| 0 <= a < b < at.len() ==> #[trigger] at[a] < #[trigger] at[b],
        forall|j: int| 0 <= j < n ==> at.contains(j),
    ensures
        at.len() == n,
        forall|k: int| 0 <= k < n ==> #[trigger] at[k] == k,
    decreases n,
{
    if n > 0 {
        let last = at.len() - 1;
        assert(at.contains(n - 1));
        let i = choose|i: int| 0 <= i < at.len() && at[i] == n - 1;
        assert(i == last) by {
            if i < last {
                assert(at[i] < at[last]);
            }
        }
        let init = at.drop_last();
        assert forall|k: int| 0 <= k < init.len() implies 0 <= #[trigger] init[k] < n - 1 by {
            assert(init[k] == at[k]);
            assert(at[k] < at[last]);
        }
        assert forall|j: int| 0 <= j < n - 1 implies init.contains(j) by {
            assert(at.contains(j));
            let k = choose|k: int| 0 <= k < at.len() && at[k] == j;
            assert(k != last);
            assert(init[k] == j);
        }
        lemma_all_positions(init, n - 1);
        assert forall|k: int| 0 <= k < n implies #[trigger] at[k] == k by {
            if k < n - 1 {
                assert(init[k] == at[k]);
            }
        }
    } else {
        if at.len() > 0 {
            assert(0 <= at[0] < n);
        }
    }
}

/// A provider that fails while an agent comes up ends it, with the words that it failed with.
pub proof fn law_failed_loading_ends_the_start(
    agent: Agent,
    refresh: RefreshState,
    error: String,
    next: StartupState,
    action: StartupAction,
)
    requires
        loads_on(agent, refresh, RefreshEvent::Failed(error), next, action),
    ensures
        next is Ended,
        action == StartupAction::Abort(error),
{
}

/// An agent comes up only with a provider: one that was created leads to the same agent asking for
/// its projects, one that was not ends the start in the words that it failed with. Nothing runs
/// before the projects were loaded.
pub proof fn law_provider_comes_first(
    state: StartupState,
    event: StartupEvent,
    next: StartupState,
    action: StartupAction,
)
    requires
        comes_up(state, event, next, action),
    ensures
        event is ProviderCreated ==> (state matches StartupState::CreatingProvider(agent) && (
        next matches StartupState::LoadingData(same, refresh) && same == agent
            && refresh is Listing) && action is ListProjects),
        event matches StartupEvent::Failed(error) ==> next is Ended && action
            == StartupAction::Abort(error),
        action is Run ==> (event matches StartupEvent::Answered(answer) && answer is Loaded)
            && state is LoadingData,
        event matches StartupEvent::Answered(RefreshEvent::Failed(error)) ==> next is Ended
            && action == StartupAction::Abort(error),
{
}

/// From the created provider to the running agent: what was configured is kept, and the projects are
/// read again exactly if they are remote.
pub proof fn law_started_agent_is_the_configured_one(
    agent: Agent,
    loading: StartupState,
    list: StartupAction,
    listed: Vec<ProjectData>,
    waiting: StartupState,
    load: StartupAction,
    loaded: Vec<(String, Option<Arc<Project>>)>,
    end: StartupState,
    run: StartupAction,
)
    requires
        agent.provider == agent::configured_provider(agent.config.provider),
        comes_up(
            StartupState::CreatingProvider(agent),
            StartupEvent::ProviderCreated,
            loading,
            list,
        ),
        comes_up(loading, StartupEvent::Answered(RefreshEvent::Listed(listed)), waiting, load),
        comes_up(waiting, StartupEvent::Answered(RefreshEvent::Loaded(loaded)), end, run),
    ensures
        run matches StartupAction::Run(running, refreshes) && {
            &&& running.config == agent.config
            &&& running.provider == agent.provider
            &&& refreshes == (agent.config.provider is S3 || agent.config.provider is AzureStorage
                || agent.config.provider is GCS || agent.config.provider is Postgres)
        },
        end is Ended,
{
    match agent.config.provider {
        ProviderConfig::Zip(_) => {},
        ProviderConfig::Filesystem(_) => {},
        ProviderConfig::S3(_) => {},
        ProviderConfig::AzureStorage(_) => {},
        ProviderConfig::GCS(_) => {},
        ProviderConfig::Postgres(_) => {},
    }
}

/// While an agent comes up no answer is turned away for what it holds.
pub proof fn law_every_answer_is_expected(
    agent: Agent,
    listed: Vec<ProjectData>,
    diff: Vec<ProjectDiff>,
    loaded: Vec<(String, Option<Arc<Project>>)>,
    error: String,
)
    ensures
        StartupState::CreatingProvider(agent).expects(StartupEvent::ProviderCreated),
        StartupState::CreatingProvider(agent).expects(StartupEvent::Failed(error)),
        StartupState::LoadingData(agent, RefreshState::Listing).expects(
            StartupEvent::Answered(RefreshEvent::Listed(listed)),
        ),
        StartupState::LoadingData(agent, RefreshState::Loading(diff)).expects(
            StartupEvent::Answered(RefreshEvent::Loaded(loaded)),
        ),
        StartupState::LoadingData(agent, RefreshState::Listing).expects(
            StartupEvent::Answered(RefreshEvent::Failed(error)),
        ),
        StartupState::LoadingData(agent, RefreshState::Loading(diff)).expects(
            StartupEvent::Answered(RefreshEvent::Failed(error)),
        ),
{
}

/// What is brought up is what was configured: an agent without projects, whose provider is of the
/// kind that the configuration names, is what a start begins with.
pub proof fn law_start_is_the_configured_one(
    config: EnvironmentConfig,
    state: StartupState,
    action: StartupAction,
)
    requires
        begins(config, state, action),
    ensures
        state matches StartupState::CreatingProvider(agent) && {
            &&& agent.config == config
            &&& forall|key: Seq<char>| !agent.data@.contains_key(key)
            &&& action == StartupAction::CreateProvider(agent.provider)
            &&& match config.provider {
                ProviderConfig::Zip(_) => agent.provider is Zip,
                ProviderConfig::Filesystem(_) => agent.provider is Filesystem,
                ProviderConfig::S3(_) => agent.provider is S3,
                ProviderConfig::AzureStorage(_) => agent.provider is AzureStorage,
                ProviderConfig::GCS(_) => agent.provider is GCS,
                ProviderConfig::Postgres(_) => agent.provider is Postgres,
            }
        },
{
}

} // verus!
