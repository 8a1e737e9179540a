//! The agent: its projects, where they come from, and how a request finds one.
use std::sync::Arc;

use dashmap::DashMap;
use vstd::prelude::*;
use vstd::string::*;

use crate::config::{EnvironmentConfig, ProviderConfig};
use crate::outside::share;
use crate::provider::diff::{self, AgentData, Change, ProjectData, ProjectDiff};
use crate::provider::store::{self, Project, ProjectMap, Walk};
use crate::text::{begins_with, joined, text_equal};

verus! {

/// The kind of provider that an agent reads its projects from.
#[derive(Debug, Clone, Copy, PartialEq, Eq, Structural)]
pub enum AgentProvider {
    Zip,
    Filesystem,
    S3,
    AzureStorage,
    GCS,
    Postgres,
}

/// The kind of provider that a configuration names.
pub open spec fn configured_provider(config: ProviderConfig) -> AgentProvider {
    match config {
        ProviderConfig::Zip(_) => AgentProvider::Zip,
        ProviderConfig::Filesystem(_) => AgentProvider::Filesystem,
        ProviderConfig::S3(_) => AgentProvider::S3,
        ProviderConfig::AzureStorage(_) => AgentProvider::AzureStorage,
        ProviderConfig::GCS(_) => AgentProvider::GCS,
        ProviderConfig::Postgres(_) => AgentProvider::Postgres,
    }
}

impl AgentProvider {
    /// The kind of provider that a configuration names.
    pub fn of_config(config: &ProviderConfig) -> (r: AgentProvider)
        ensures
            r == configured_provider(*config),
    {
        match config {
            ProviderConfig::Zip(_) => AgentProvider::Zip,
            ProviderConfig::Filesystem(_) => AgentProvider::Filesystem,
            ProviderConfig::S3(_) => AgentProvider::S3,
            ProviderConfig::AzureStorage(_) => AgentProvider::AzureStorage,
            ProviderConfig::GCS(_) => AgentProvider::GCS,
            ProviderConfig::Postgres(_) => AgentProvider::Postgres,
        }
    }

    /// Whether the projects are read again from time to time. Those on the local disk are not.
    pub fn should_refresh(&self) -> (r: bool)
        ensures
            r == !(self is Zip || self is Filesystem),
    {
        match self {
            AgentProvider::Zip => false,
            AgentProvider::Filesystem => false,
            AgentProvider::S3 => true,
            AgentProvider::AzureStorage => true,
            AgentProvider::GCS => true,
            AgentProvider::Postgres => true,
        }
    }

    /// Whether the projects belong to tenants.
    pub fn is_saas_mode(&self) -> (r: bool)
        ensures
            r == (self is Postgres),
    {
        matches!(self, AgentProvider::Postgres)
    }
}

/// The characters of each text.
pub open spec fn texts(list: Seq<String>) -> Seq<Seq<char>> {
    list.map_values(|text: String| text@)
}

/// The keys of the projects that a diff creates or updates, in its order.
pub open spec fn refresh_keys(changes: Seq<Change>) -> Seq<Seq<char>>
    decreases changes.len(),
{
    if changes.len() == 0 {
        Seq::empty()
    } else {
        let before = refresh_keys(changes.drop_last());
        if changes.last() is Removed {
            before
        } else {
            before.push(changes.last().key())
        }
    }
}

/// The changes that took place, where `refreshed` holds the projects that could be loaded.
pub open spec fn reported(changes: Seq<Change>, refreshed: ProjectMap) -> Seq<Change> {
    changes.filter(|change: Change| diff::took_place(change, refreshed))
}

/// Adding a change to a list adds it to what is reported exactly if it took place.
proof fn lemma_reported_step(changes: Seq<Change>, refreshed: ProjectMap, i: int)
    requires
        0 <= i < changes.len(),
    ensures
        reported(changes.take(i + 1), refreshed) == (if diff::took_place(changes[i], refreshed) {
            reported(changes.take(i), refreshed).push(changes[i])
        } else {
            reported(changes.take(i), refreshed)
        }),
{
    reveal(Seq::filter);
    assert(changes.take(i + 1).drop_last() =~= changes.take(i));
    assert(changes.take(i + 1).last() == changes[i]);
}

/// Applying one more change of a list.
proof fn lemma_apply_step(projects: ProjectMap, changes: Seq<Change>, refreshed: ProjectMap, i: int)
    requires
        0 <= i < changes.len(),
    ensures
        diff::apply_changes(projects, changes.take(i + 1), refreshed) == diff::apply_change(
            diff::apply_changes(projects, changes.take(i), refreshed),
            changes[i],
            refreshed,
        ),
{
    assert(changes.take(i + 1).drop_last() =~= changes.take(i));
    assert(changes.take(i + 1).last() == changes[i]);
}

/// Whether a project is the one with this id among the projects whose keys begin with a prefix.
pub open spec fn answers(
    key: Seq<char>,
    project: Arc<Project>,
    prefix: Seq<char>,
    id: Seq<char>,
) -> bool {
    prefix.is_prefix_of(key) && project.has_id(id)
}

/// Whether `found` is what a search by id may return: some project that has the id, or nothing
/// where there is none.
pub open spec fn found_by_id(
    projects: ProjectMap,
    prefix: Seq<char>,
    id: Seq<char>,
    found: Option<Arc<Project>>,
) -> bool {
    match found {
        Some(project) => exists|key: Seq<char>| #[trigger]
            projects.contains_key(key) && answers(key, projects[key], prefix, id) && projects[key]
                == project,
        None => forall|key: Seq<char>| #[trigger]
            projects.contains_key(key) ==> !answers(key, projects[key], prefix, id),
    }
}

/// Whether `found` is what a request for a key or an id may be given: the project of the key, or
/// else a project that has the id.
pub open spec fn found_by_key_or_id(
    projects: ProjectMap,
    key: Seq<char>,
    prefix: Seq<char>,
    id: Seq<char>,
    found: Option<Arc<Project>>,
) -> bool {
    if projects.contains_key(key) {
        found == Some(projects[key])
    } else {
        found_by_id(projects, prefix, id, found)
    }
}

/// What the keys of a tenant's projects begin with.
pub open spec fn tenant_prefix(tenant: Seq<char>) -> Seq<char> {
    tenant.push(':')
}

/// The first project of a walk that has the id and whose key begins with the prefix.
pub open spec fn first_answer(walk: Walk, prefix: Seq<char>, id: Seq<char>) -> Option<Arc<Project>>
    decreases walk.len(),
{
    if walk.len() == 0 {
        None
    } else if answers(walk[0].0@, walk[0].1, prefix, id) {
        Some(walk[0].1)
    } else {
        first_answer(walk.skip(1), prefix, id)
    }
}

/// What a request for a key or an id is given, where a search by id walks over the projects in the
/// order of `walk`.
pub open spec fn looked_up(
    projects: ProjectMap,
    walk: Walk,
    key: Seq<char>,
    prefix: Seq<char>,
    id: Seq<char>,
) -> Option<Arc<Project>> {
    if projects.contains_key(key) {
        Some(projects[key])
    } else {
        first_answer(walk, prefix, id)
    }
}

/// The first project of a walk that has the id and whose key begins with the prefix.
pub fn find_by_id(entries: &Vec<(String, Arc<Project>)>, prefix: &str, id: &str) -> (r: Option<
    Arc<Project>,
>)
    ensures
        r == first_answer(entries@, prefix@, id@),
        match r {
            Some(project) => exists|i: int|
                {
                    &&& 0 <= i < entries@.len()
                    &&& (#[trigger] entries@[i]).1 == project
                    &&& prefix@.is_prefix_of(entries@[i].0@)
                    &&& project.release_data is Some
                    &&& project.release_data->0.project.id@ == id@
                },
            None => forall|i: int|
                0 <= i < entries@.len() && prefix@.is_prefix_of((#[trigger] entries@[i]).0@)
                    && entries@[i].1.release_data is Some
                    ==> entries@[i].1.release_data->0.project.id@ != id@,
        },
{
    let n: usize = entries.len();
    assert(entries@.skip(0) =~= entries@);
    for i in 0..n
        invariant
            n == entries@.len(),
            first_answer(entries@, prefix@, id@) == first_answer(
                entries@.skip(i as int),
                prefix@,
                id@,
            ),
            forall|j: int|
                0 <= j < i && prefix@.is_prefix_of((#[trigger] entries@[j]).0@)
                    && entries@[j].1.release_data is Some
                    ==> entries@[j].1.release_data->0.project.id@ != id@,
    {
        assert(entries@.skip(i as int).skip(1) =~= entries@.skip(i + 1));
        let project: &Arc<Project> = &entries[i].1;
        if begins_with(entries[i].0.as_str(), prefix) {
            match &project.release_data {
                Some(release) => {
                    if text_equal(&*release.project.id, id) {
                        return Some(share(project));
                    }
                },
                None => {},
            }
        }
    }
    None
}

/// The first answer of a walk is an entry that answers; without one no entry does.
proof fn lemma_first_answer(walk: Walk, prefix: Seq<char>, id: Seq<char>)
    ensures
        match first_answer(walk, prefix, id) {
            Some(project) => exists|i: int|
                0 <= i < walk.len() && answers(
                    (#[trigger] walk[i]).0@,
                    walk[i].1,
                    prefix,
                    id,
                ) && walk[i].1 == project,
            None => forall|i: int|
                0 <= i < walk.len() ==> !answers((#[trigger] walk[i]).0@, walk[i].1, prefix, id),
        },
    decreases walk.len(),
{
    if walk.len() > 0 && !answers(walk[0].0@, walk[0].1, prefix, id) {
        let rest = walk.skip(1);
        lemma_first_answer(rest, prefix, id);
        match first_answer(rest, prefix, id) {
            Some(project) => {
                let i = choose|i: int|
                    0 <= i < rest.len() && answers(
                        (#[trigger] rest[i]).0@,
                        rest[i].1,
                        prefix,
                        id,
                    ) && rest[i].1 == project;
                assert(walk[i + 1] == rest[i]);
            },
            None => {
                assert forall|i: int| 0 <= i < walk.len() implies !answers(
                    (#[trigger] walk[i]).0@,
                    walk[i].1,
                    prefix,
                    id,
                ) by {
                    if i > 0 {
                        assert(rest[i - 1] == walk[i]);
                    }
                }
            },
        }
    }
}

/// What a request is given on some walk over the projects is something that it may be given.
pub proof fn law_walk_gives_what_may_be_found(
    projects: ProjectMap,
    walk: Walk,
    key: Seq<char>,
    prefix: Seq<char>,
    id: Seq<char>,
)
    requires
        projects.contains_key(key) || store::is_walk(walk, projects),
    ensures
        found_by_key_or_id(projects, key, prefix, id, looked_up(projects, walk, key, prefix, id)),
{
    if !projects.contains_key(key) {
        lemma_first_answer(walk, prefix, id);
        match first_answer(walk, prefix, id) {
            Some(project) => {
                let i = choose|i: int|
                    0 <= i < walk.len() && answers(
                        (#[trigger] walk[i]).0@,
                        walk[i].1,
                        prefix,
                        id,
                    ) && walk[i].1 == project;
                assert(projects.contains_key(walk[i].0@));
            },
            None => {
                assert forall|k: Seq<char>| #[trigger] projects.contains_key(k) implies !answers(
                    k,
                    projects[k],
                    prefix,
                    id,
                ) by {
                    let i = choose|i: int| 0 <= i < walk.len() && (#[trigger] walk[i]).0@ == k;
                    assert(projects[walk[i].0@] == walk[i].1);
                }
            },
        }
    }
}

/// Whether no two projects whose keys begin with a prefix have this id.
pub open spec fn is_unambiguous(
    projects: ProjectMap,
    key: Seq<char>,
    prefix: Seq<char>,
    id: Seq<char>,
) -> bool {
    projects.contains_key(key) || forall|a: Seq<char>, b: Seq<char>|
        #[trigger] projects.contains_key(a) && #[trigger] projects.contains_key(b) && answers(
            a,
            projects[a],
            prefix,
            id,
        ) && answers(b, projects[b], prefix, id) ==> a == b
}

/// A request for a key that is held, or for an id that no two projects have, can be given one thing
/// only, whatever the order of the walk.
pub proof fn law_unambiguous_lookup(
    projects: ProjectMap,
    key: Seq<char>,
    prefix: Seq<char>,
    id: Seq<char>,
    found: Option<Arc<Project>>,
    other: Option<Arc<Project>>,
)
    requires
        is_unambiguous(projects, key, prefix, id),
        found_by_key_or_id(projects, key, prefix, id, found),
        found_by_key_or_id(projects, key, prefix, id, other),
    ensures
        found == other,
{
}

/// What a refresh is going to do.
#[derive(Debug)]
pub struct RefreshPlan {
    pub diff: Vec<ProjectDiff>,
    pub to_refresh: Vec<String>,
}

/// What leads from the held projects to the listed ones, and which projects have to be loaded for
/// it.
pub fn plan_refresh(data: &AgentData, listed: Vec<ProjectData>) -> (r: RefreshPlan)
    ensures
        diff::is_diff(data@, diff::listings(listed@), diff::changes(r.diff@)),
        texts(r.to_refresh@) == refresh_keys(diff::changes(r.diff@)),
{
    let diff: Vec<ProjectDiff> = data.calculate_diff(listed);
    let to_refresh: Vec<String> = Agent::get_refresh_list(&diff);
    RefreshPlan { diff, to_refresh }
}

/// An agent.
#[derive(Debug)]
pub struct Agent {
    pub data: AgentData,
    pub provider: AgentProvider,
    pub config: EnvironmentConfig,
}

impl Agent {
    /// Whether `found` is what a request for a project may be given.
    pub open spec fn finds(self, project: Seq<char>, found: Option<Arc<Project>>) -> bool {
        found_by_key_or_id(self.data@, project, Seq::empty(), project, found)
    }

    /// What a request for a project is given on a walk over the projects.
    pub open spec fn found_on(self, walk: Walk, project: Seq<char>) -> Option<Arc<Project>> {
        looked_up(self.data@, walk, project, Seq::empty(), project)
    }

    /// What a request for a project of a tenant is given on a walk over the projects.
    pub open spec fn found_for_tenant_on(
        self,
        walk: Walk,
        tenant: Seq<char>,
        project: Seq<char>,
    ) -> Option<Arc<Project>> {
        looked_up(
            self.data@,
            walk,
            tenant_prefix(tenant) + project,
            tenant_prefix(tenant),
            project,
        )
    }

    /// Whether `found` is what a request for a project of a tenant may be given.
    pub open spec fn finds_for_tenant(
        self,
        tenant: Seq<char>,
        project: Seq<char>,
        found: Option<Arc<Project>>,
    ) -> bool {
        found_by_key_or_id(
            self.data@,
            tenant_prefix(tenant) + project,
            tenant_prefix(tenant),
            project,
            found,
        )
    }

    /// An agent that has not loaded anything yet.
    pub fn new(config: EnvironmentConfig) -> (r: Agent)
        ensures
            r.data@ == ProjectMap::empty(),
            r.provider == configured_provider(config.provider),
            r.config == config,
    {
        let provider: AgentProvider = AgentProvider::of_config(&config.provider);
        Agent { data: AgentData::default(), provider, config }
    }

    /// The keys of the projects that a diff creates or updates, in its order: those to be loaded.
    pub fn get_refresh_list(diff: &Vec<ProjectDiff>) -> (r: Vec<String>)
        ensures
            texts(r@) == refresh_keys(diff::changes(diff@)),
    {
        let mut r: Vec<String> = Vec::new();
        let n: usize = diff.len();
        let ghost changes = diff::changes(diff@);
        for i in 0..n
            invariant
                n == diff@.len(),
                changes == diff::changes(diff@),
                texts(r@) == refresh_keys(changes.take(i as int)),
        {
            let ghost before = r@;
            proof {
                assert(changes.take(i + 1).drop_last() =~= changes.take(i as int));
                assert(changes.take(i + 1).last() == diff@[i as int]@);
            }
            match &diff[i] {
                ProjectDiff::Created(key) | ProjectDiff::Updated(key) => {
                    r.push(key.clone());
                    assert(texts(r@) =~= texts(before).push(key@));
                },
                ProjectDiff::Removed(_) => {},
            }
        }
        assert(changes.take(n as int) =~= changes);
        r
    }

    /// Carries a diff out, where `refreshed_projects` holds the projects that could be loaded, and
    /// returns the changes that took place. A created or updated project that could not be loaded
    /// is dropped.
    pub fn get_diff_result(
        data: &mut AgentData,
        diff: Vec<ProjectDiff>,
        refreshed_projects: DashMap<String, Arc<Project>>,
    ) -> (r: Vec<ProjectDiff>)
        ensures
            final(data)@ == diff::apply_changes(
                old(data)@,
                diff::changes(diff@),
                store::project_map(refreshed_projects),
            ),
            diff::changes(r@) == reported(
                diff::changes(diff@),
                store::project_map(refreshed_projects),
            ),
    {
        let ghost changes = diff::changes(diff@);
        let ghost refreshed = store::project_map(refreshed_projects);
        let ghost n = diff@.len();
        let mut r: Vec<ProjectDiff> = Vec::new();
        proof {
            assert(changes.take(0) =~= Seq::empty());
            reveal(Seq::filter);
        }
        for change in it: diff
            invariant
                refreshed == store::project_map(refreshed_projects),
                changes == diff::changes(it.seq()),
                n == it.seq().len(),
                data@ == diff::apply_changes(old(data)@, changes.take(it.index() as int), refreshed),
                diff::changes(r@) == reported(changes.take(it.index() as int), refreshed),
        {
            let ghost before = r@;
            proof {
                let i = it.index() as int;
                assert(changes[i] == change@);
                lemma_reported_step(changes, refreshed, i);
                lemma_apply_step(old(data)@, changes, refreshed, i);
            }
            if data.apply(&change, &refreshed_projects) {
                r.push(change);
                assert(diff::changes(r@) =~= diff::changes(before).push(change@));
            }
        }
        assert(changes.take(n as int) =~= changes);
        r
    }

    /// The project of this key, or else the first project with this id on a walk over the projects.
    pub fn project(&self, project: &str) -> (r: Option<Arc<Project>>)
        ensures
            self.finds(project@, r),
            exists|walk: Walk|
                (self.data@.contains_key(project@) || store::is_walk(walk, self.data@)) && r
                    == #[trigger] self.found_on(walk, project@),
    {
        match self.data.get(project) {
            Some(p) => {
                assert(self.found_on(Seq::empty(), project@) == Some(p));
                return Some(p);
            },
            None => {},
        }
        let entries: Vec<(String, Arc<Project>)> = self.data.entries();
        let r: Option<Arc<Project>> = find_by_id(&entries, "", project);
        proof {
            reveal_strlit("");
            assert(""@ =~= Seq::<char>::empty());
            law_walk_gives_what_may_be_found(
                self.data@,
                entries@,
                project@,
                Seq::empty(),
                project@,
            );
            assert(r == self.found_on(entries@, project@));
        }
        r
    }

    /// The project of this key among the tenant's, or else the first project with this id among
    /// them on a walk over the projects. The keys of a tenant's projects begin with the tenant and
    /// a colon.
    pub fn project_for_tenant(&self, tenant: &str, project: &str) -> (r: Option<Arc<Project>>)
        ensures
            self.finds_for_tenant(tenant@, project@, r),
            exists|walk: Walk|
                (self.data@.contains_key(tenant_prefix(tenant@) + project@) || store::is_walk(
                    walk,
                    self.data@,
                )) && r == #[trigger] self.found_for_tenant_on(walk, tenant@, project@),
    {
        let direct_key: String = joined(tenant, ":", project);
        let prefix: String = joined(tenant, ":", "");
        proof {
            reveal_strlit(":");
            reveal_strlit("");
            assert(direct_key@ =~= tenant_prefix(tenant@) + project@);
            assert(prefix@ =~= tenant_prefix(tenant@));
        }
        match self.data.get(direct_key.as_str()) {
            Some(p) => {
                assert(self.found_for_tenant_on(Seq::empty(), tenant@, project@) == Some(p));
                return Some(p);
            },
            None => {},
        }
        let entries: Vec<(String, Arc<Project>)> = self.data.entries();
        let r: Option<Arc<Project>> = find_by_id(&entries, prefix.as_str(), project);
        proof {
            law_walk_gives_what_may_be_found(
                self.data@,
                entries@,
                direct_key@,
                prefix@,
                project@,
            );
            assert(r == self.found_for_tenant_on(entries@, tenant@, project@));
        }
        r
    }

    /// Whether the projects belong to tenants.
    pub fn is_saas_mode(&self) -> (r: bool)
        ensures
            r == (self.provider is Postgres),
    {
        self.provider.is_saas_mode()
    }
}

} // verus!
