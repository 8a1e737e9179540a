//! How a refresh goes: the projects are listed, what changed is loaded, then the diff is carried out.
use std::sync::Arc;

use vstd::prelude::*;

use crate::provider::agent::{self, plan_refresh, Agent, RefreshPlan};
use crate::provider::diff::{self, AgentData, ProjectData, ProjectDiff};
use crate::provider::laws;
use crate::provider::pg::{self, generate_projects};
use crate::provider::store::{Project, ProjectMap};

verus! {

/// How far a refresh has come.
#[derive(Debug)]
pub enum RefreshState {
    /// The provider has been asked which projects there are.
    Listing,
    /// The provider has been asked for the projects that this diff creates or updates.
    Loading(Vec<ProjectDiff>),
    /// There is nothing left to ask.
    Ended,
}

/// What the provider answered.
#[derive(Debug)]
pub enum RefreshEvent {
    /// The projects that there are.
    Listed(Vec<ProjectData>),
    /// The projects that were asked for, each where it could be loaded.
    Loaded(Vec<(String, Option<Arc<Project>>)>),
    /// The provider failed altogether.
    Failed(String),
}

/// What is to be done next.
#[derive(Debug)]
pub enum RefreshAction {
    /// Ask which projects there are.
    List,
    /// Ask for the projects of these keys.
    Load(Vec<String>),
    /// The refresh is done, and these changes took place.
    Finish(Vec<ProjectDiff>),
    /// The refresh failed.
    Fail(String),
}

/// Whether a refresh goes from `state` to `next` on an answer of the provider, with this action to
/// be done, while the held projects go from `before` to `after`. A listing leads to its diff, and
/// what the diff creates or updates is asked for; what could be loaded of it is what the diff is
/// carried out with; a failure changes nothing.
pub open spec fn goes_on(
    state: RefreshState,
    before: ProjectMap,
    event: RefreshEvent,
    next: RefreshState,
    action: RefreshAction,
    after: ProjectMap,
) -> bool {
    match (state, event) {
        (RefreshState::Listing, RefreshEvent::Listed(listed)) => {
            &&& after == before
            &&& next matches RefreshState::Loading(diff) && action matches RefreshAction::Load(keys)
                && diff::is_diff(before, diff::listings(listed@), diff::changes(diff@))
                && agent::texts(keys@) == agent::refresh_keys(diff::changes(diff@))
        },
        (RefreshState::Loading(diff), RefreshEvent::Loaded(loaded)) => {
            &&& after == diff::apply_changes(
                before,
                diff::changes(diff@),
                pg::loaded_projects(loaded@),
            )
            &&& next is Ended
            &&& action matches RefreshAction::Finish(changed) && diff::changes(changed@)
                == agent::reported(diff::changes(diff@), pg::loaded_projects(loaded@))
        },
        (RefreshState::Listing | RefreshState::Loading(_), RefreshEvent::Failed(error)) => {
            &&& after == before
            &&& next is Ended
            &&& action matches RefreshAction::Fail(message) && message == error
        },
        _ => false,
    }
}

impl RefreshState {
    /// Begins a refresh.
    pub fn start() -> (r: (RefreshState, RefreshAction))
        ensures
            r.0 is Listing,
            r.1 is List,
    {
        (RefreshState::Listing, RefreshAction::List)
    }

    /// Whether the provider was asked for what it answered. It may always answer that it failed, as
    /// long as there is something asked.
    pub open spec fn expects(self, event: RefreshEvent) -> bool {
        match event {
            RefreshEvent::Listed(_) => self is Listing,
            RefreshEvent::Loaded(_) => self is Loading,
            RefreshEvent::Failed(_) => !(self is Ended),
        }
    }

    /// Takes in an answer of the provider. The held projects are touched when the projects that were
    /// asked for have come, and not before.
    pub fn step(self, data: &mut AgentData, event: RefreshEvent) -> (r: (
        RefreshState,
        RefreshAction,
    ))
        requires
            self.expects(event),
        ensures
            goes_on(self, old(data)@, event, r.0, r.1, final(data)@),
            !(event is Loaded) ==> *final(data) == *old(data),
    {
        match (self, event) {
            (RefreshState::Listing, RefreshEvent::Listed(listed)) => {
                let plan: RefreshPlan = plan_refresh(data, listed);
                (RefreshState::Loading(plan.diff), RefreshAction::Load(plan.to_refresh))
            },
            (RefreshState::Loading(diff), RefreshEvent::Loaded(loaded)) => {
                let changed: Vec<ProjectDiff> = Agent::get_diff_result(
                    data,
                    diff,
                    generate_projects(loaded),
                );
                (RefreshState::Ended, RefreshAction::Finish(changed))
            },
            (_, RefreshEvent::Failed(error)) => (RefreshState::Ended, RefreshAction::Fail(error)),
            _ => vstd::pervasive::unreached(),
        }
    }
}

impl Agent {
    /// Takes in an answer of the provider during a refresh. Nothing of the agent changes but its
    /// projects.
    pub fn refresh_data(&mut self, state: RefreshState, event: RefreshEvent) -> (r: (
        RefreshState,
        RefreshAction,
    ))
        requires
            state.expects(event),
        ensures
            goes_on(state, old(self).data@, event, r.0, r.1, final(self).data@),
            !(event is Loaded) ==> *final(self) == *old(self),
            final(self).provider == old(self).provider,
            final(self).config == old(self).config,
    {
        state.step(&mut self.data, event)
    }
}

/// From a listing to the end of a refresh, where nothing else touches the projects meanwhile: the
/// projects that are asked for are those that the listing asks to be loaded, and afterwards a key
/// has a project exactly if it is listed and either was held with the listed content already, and is
/// then untouched, or could be loaded, and then has what was loaded.
pub proof fn law_refresh_run(
    before: ProjectMap,
    listed: Vec<ProjectData>,
    loading: RefreshState,
    load: RefreshAction,
    loaded: Vec<(String, Option<Arc<Project>>)>,
    end: RefreshState,
    finish: RefreshAction,
    after: ProjectMap,
    key: Seq<char>,
)
    requires
        goes_on(
            RefreshState::Listing,
            before,
            RefreshEvent::Listed(listed),
            loading,
            load,
            before,
        ),
        goes_on(loading, before, RefreshEvent::Loaded(loaded), end, finish, after),
    ensures
        load matches RefreshAction::Load(keys) && agent::texts(keys@).contains(key)
            == laws::must_load(before, diff::listings(listed@), key),
        after.contains_key(key) == (diff::is_listed(diff::listings(listed@), key) && (
        laws::must_load(before, diff::listings(listed@), key) ==> pg::loaded_projects(
            loaded@,
        ).contains_key(key))),
        after.contains_key(key) ==> after[key] == (if laws::must_load(
            before,
            diff::listings(listed@),
            key,
        ) {
            pg::loaded_projects(loaded@)[key]
        } else {
            before[key]
        }),
{
    let listing = diff::listings(listed@);
    let changes = diff::changes(loading->Loading_0@);
    laws::law_refresh_list_is_what_must_load(before, listing, changes, key);
    laws::law_refresh_outcome(before, listing, changes, pg::loaded_projects(loaded@), key);
}

/// A refresh that fails at any point changes nothing and says why.
pub proof fn law_failed_refresh_changes_nothing(
    state: RefreshState,
    before: ProjectMap,
    error: String,
    next: RefreshState,
    action: RefreshAction,
    after: ProjectMap,
)
    requires
        goes_on(state, before, RefreshEvent::Failed(error), next, action, after),
    ensures
        after == before,
        action == RefreshAction::Fail(error),
{
}

/// Any listing is expected while the provider is asked for one, anything loaded while it is asked to
/// load, and a failure as long as something is asked: no answer is turned away for what it holds.
pub proof fn law_every_answer_is_expected(
    listed: Vec<ProjectData>,
    loaded: Vec<(String, Option<Arc<Project>>)>,
    diff: Vec<ProjectDiff>,
    error: String,
)
    ensures
        RefreshState::Listing.expects(RefreshEvent::Listed(listed)),
        RefreshState::Loading(diff).expects(RefreshEvent::Loaded(loaded)),
        RefreshState::Listing.expects(RefreshEvent::Failed(error)),
        RefreshState::Loading(diff).expects(RefreshEvent::Failed(error)),
{
}

} // verus!
