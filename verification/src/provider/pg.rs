//! The projects of a database: what is asked of it and what is made of its answers.
use std::sync::Arc;

use dashmap::DashMap;
use uuid::Uuid;
use vstd::prelude::*;
use vstd::string::*;
use zen_engine::DecisionEngine;

use crate::data::{
    self, DecisionContentMeta, FileDecisionGraph, ReleaseData, ReleaseDataProject,
    ReleaseDataRelease,
};
use crate::outside::{self, bytes_of_uuid, shared_text, to_lower_case};
use crate::provider::agent;
use crate::provider::composite_key::{self, split_composite_key};
use crate::provider::diff::{self, Change, Listing, ProjectData};
use crate::provider::laws;
use crate::provider::store::{self, insert_project, new_projects, Project, ProjectMap};
use crate::text::text_equal;

verus! {

/// A project and its latest release, as the database lists them.
#[derive(Debug)]
pub struct ProjectSummaryRow {
    pub composite_key: String,
    pub release_pk: Uuid,
}

/// A project and its latest release in full.
#[derive(Debug)]
pub struct ProjectDetailRow {
    pub project_pk: Uuid,
    pub project_id: String,
    pub project_key: String,
    pub release_pk: Uuid,
    pub release_id: String,
    pub version: String,
}

/// A decision model of a release. It has no graph where the stored content is not one.
#[derive(Debug)]
pub struct DecisionModelRow<C> {
    pub model_key: String,
    pub content: Option<FileDecisionGraph<C>>,
    pub version_id: Option<String>,
}

/// A token that gives access to a project.
#[derive(Debug)]
pub struct TokenRow {
    pub token: String,
}

/// The listed projects that the rows stand for. The release tells one content from another.
pub open spec fn row_listings(rows: Seq<ProjectSummaryRow>) -> Seq<Listing> {
    rows.map_values(
        |row: ProjectSummaryRow|
            Listing {
                key: row.composite_key@,
                content_hash: Some(outside::uuid_bytes(row.release_pk)),
            },
    )
}

/// Whether no other release has the content hash of this one.
pub open spec fn is_told_apart(release: Uuid) -> bool {
    forall|other: Uuid| #[trigger]
        outside::uuid_bytes(other) == outside::uuid_bytes(release) ==> other == release
}

/// The listed projects that the rows stand for. The listed hash of a project is that of its latest
/// release and of no other.
pub fn list_project_data(rows: Vec<ProjectSummaryRow>) -> (r: Vec<ProjectData>)
    ensures
        diff::listings(r@) == row_listings(rows@),
        forall|i: int| 0 <= i < rows@.len() ==> is_told_apart((#[trigger] rows@[i]).release_pk),
        forall|i: int|
            0 <= i < rows@.len() ==> outside::uuid_bytes((#[trigger] rows@[i]).release_pk).len()
                == 16,
{
    let mut r: Vec<ProjectData> = Vec::new();
    let ghost expected = row_listings(rows@);
    let ghost all = rows@;
    for row in it: rows
        invariant
            all == it.seq(),
            expected == row_listings(all),
            forall|i: int|
                0 <= i < it.index() ==> is_told_apart((#[trigger] all[i]).release_pk),
            forall|i: int|
                0 <= i < it.index() ==> outside::uuid_bytes((#[trigger] all[i]).release_pk).len()
                    == 16,
            diff::listings(r@) == expected.take(it.index() as int),
    {
        let ghost before = r@;
        let item: ProjectData = ProjectData {
            key: row.composite_key,
            content_hash: Some(bytes_of_uuid(&row.release_pk)),
        };
        proof {
            let i = it.index() as int;
            assert(all[i] == row);
            assert(expected[i] == item@);
            assert(expected.take(i + 1) =~= expected.take(i).push(item@));
        }
        r.push(item);
        assert(diff::listings(r@) =~= diff::listings(before).push(item@));
    }
    assert(expected.take(expected.len() as int) =~= expected);
    r
}

/// The projects that could be loaded, by key. A key that was loaded twice has what came last.
pub open spec fn loaded_projects(loaded: Seq<(String, Option<Arc<Project>>)>) -> ProjectMap
    decreases loaded.len(),
{
    if loaded.len() == 0 {
        Map::empty()
    } else {
        let before = loaded_projects(loaded.drop_last());
        match loaded.last().1 {
            Some(project) => before.insert(loaded.last().0@, project),
            None => before,
        }
    }
}

/// Collects the projects that could be loaded. A project that could not is skipped.
pub fn generate_projects(loaded: Vec<(String, Option<Arc<Project>>)>) -> (r: DashMap<
    String,
    Arc<Project>,
>)
    ensures
        store::project_map(r) == loaded_projects(loaded@),
{
    let mut r: DashMap<String, Arc<Project>> = new_projects();
    let ghost all = loaded@;
    proof {
        assert(all.take(0) =~= Seq::empty());
    }
    for item in it: loaded
        invariant
            all == it.seq(),
            store::project_map(r) == loaded_projects(all.take(it.index() as int)),
    {
        proof {
            let i = it.index() as int;
            assert(all.take(i + 1).drop_last() =~= all.take(i));
            assert(all.take(i + 1).last() == item);
        }
        let (key, project): (String, Option<Arc<Project>>) = item;
        match project {
            Some(project) => insert_project(&mut r, key, project),
            None => {},
        }
    }
    assert(all.take(all.len() as int) =~= all);
    r
}

/// A graph as its content and its version.
pub open spec fn graph_view<C>(graph: FileDecisionGraph<C>) -> (C, Option<Seq<char>>) {
    (graph.content, data::text_view(graph.meta.version_id))
}

/// The graph of a model: the version beside the content, where there is one, replaces the one
/// inside it.
pub open spec fn model_graph<C>(row: DecisionModelRow<C>) -> Option<(C, Option<Seq<char>>)> {
    match (row.content, row.version_id) {
        (Some(graph), Some(version)) => Some((graph.content, Some(version@))),
        (Some(graph), None) => Some(graph_view(graph)),
        (None, _) => None,
    }
}

/// The graphs of the models by the models' keys in lower case. Of two models whose keys differ in
/// case only the later one is kept; a model without a graph is skipped.
pub open spec fn model_graphs<C>(models: Seq<DecisionModelRow<C>>) -> Map<
    Seq<char>,
    (C, Option<Seq<char>>),
>
    decreases models.len(),
{
    if models.len() == 0 {
        Map::empty()
    } else {
        let before = model_graphs(models.drop_last());
        match model_graph(models.last()) {
            Some(graph) => before.insert(outside::lower_case(models.last().model_key@), graph),
            None => before,
        }
    }
}

/// Whether a list holds the graphs of a map, each key once.
pub open spec fn holds_graphs<C>(
    content: Seq<(String, FileDecisionGraph<C>)>,
    graphs: Map<Seq<char>, (C, Option<Seq<char>>)>,
) -> bool {
    &&& forall|i: int|
        0 <= i < content.len() ==> graphs.contains_key((#[trigger] content[i]).0@)
            && graphs[content[i].0@] == graph_view(content[i].1)
    &&& forall|key: Seq<char>| #[trigger]
        graphs.contains_key(key) ==> exists|i: int|
            0 <= i < content.len() && (#[trigger] content[i]).0@ == key
    &&& forall|i: int, j: int|
        0 <= i < j < content.len() ==> (#[trigger] content[i]).0@ != (#[trigger] content[j]).0@
}

/// Puts a graph into the list under a key. A graph that the key had is replaced.
fn store_graph<C>(
    content: Vec<(String, FileDecisionGraph<C>)>,
    key: String,
    graph: FileDecisionGraph<C>,
) -> (r: Vec<(String, FileDecisionGraph<C>)>)
    ensures
        forall|graphs: Map<Seq<char>, (C, Option<Seq<char>>)>| #[trigger]
            holds_graphs(content@, graphs) ==> holds_graphs(
                r@,
                graphs.insert(key@, graph_view(graph)),
            ),
{
    let mut r: Vec<(String, FileDecisionGraph<C>)> = content;
    let n: usize = r.len();
    let mut at: usize = n;
    for i in 0..n
        invariant
            r@ == content@,
            n == r@.len(),
            at == n || (at < n && r@[at as int].0@ == key@),
            at == n ==> forall|j: int| 0 <= j < i ==> (#[trigger] r@[j]).0@ != key@,
    {
        if at == n && text_equal(r[i].0.as_str(), key.as_str()) {
            at = i;
        }
    }
    if at < n {
        r[at] = (key, graph);
    } else {
        r.push((key, graph));
    }
    proof {
        assert forall|graphs: Map<Seq<char>, (C, Option<Seq<char>>)>| #[trigger]
            holds_graphs(content@, graphs) implies holds_graphs(
            r@,
            graphs.insert(key@, graph_view(graph)),
        ) by {
            let after = graphs.insert(key@, graph_view(graph));
            assert forall|i: int| 0 <= i < r@.len() implies after.contains_key(
                (#[trigger] r@[i]).0@,
            ) && after[r@[i].0@] == graph_view(r@[i].1) by {
                if i != at {
                    assert(r@[i] == content@[i]);
                    if at < n {
                        assert(content@[at as int].0@ == key@);
                    }
                }
            }
            assert forall|k: Seq<char>| #[trigger] after.contains_key(k) implies exists|i: int|
                0 <= i < r@.len() && (#[trigger] r@[i]).0@ == k by {
                if k == key@ {
                    assert(r@[at as int].0@ == k);
                } else {
                    assert(graphs.contains_key(k));
                    let i = choose|i: int|
                        0 <= i < content@.len() && (#[trigger] content@[i]).0@ == k;
                    assert(r@[i] == content@[i]);
                }
            }
            assert forall|i: int, j: int| 0 <= i < j < r@.len() implies (
            #[trigger] r@[i]).0@ != (#[trigger] r@[j]).0@ by {
                if i != at {
                    assert(r@[i] == content@[i]);
                }
                if j != at {
                    assert(r@[j] == content@[j]);
                }
            }
        }
    }
    r
}

/// A project that was read from the database and has no engine yet.
#[derive(Debug)]
pub struct LoadedProject<C> {
    pub content: Vec<(String, FileDecisionGraph<C>)>,
    pub release_data: ReleaseData,
    pub content_hash: Vec<u8>,
}

/// The tokens of the rows.
pub open spec fn row_tokens(tokens: Seq<TokenRow>) -> Seq<Seq<char>> {
    tokens.map_values(|row: TokenRow| row.token@)
}

/// The characters of each shared text.
pub open spec fn shared_texts(list: Seq<Arc<str>>) -> Seq<Seq<char>> {
    list.map_values(|text: Arc<str>| text@)
}

/// Whether a loaded project is what the rows say.
pub open spec fn is_loaded_from<C>(
    loaded: LoadedProject<C>,
    row: ProjectDetailRow,
    models: Seq<DecisionModelRow<C>>,
    tokens: Seq<TokenRow>,
) -> bool {
    let release = loaded.release_data;
    &&& holds_graphs(loaded.content@, model_graphs(models))
    &&& data::text_view(release.version) == Some(row.version@)
    &&& release.project.id@ == row.project_id@
    &&& release.project.key@ == row.project_key@
    &&& shared_texts(release.access_tokens@) == row_tokens(tokens)
    &&& release.release.id@ == row.release_id@
    &&& release.release.version@ == row.version@
    &&& loaded.content_hash@ == outside::uuid_bytes(row.release_pk)
    &&& loaded.content_hash@.len() == 16
}

/// The graph of a model, where it has one.
fn graph_of_model<C>(content: Option<FileDecisionGraph<C>>, version_id: Option<String>) -> (r:
    Option<FileDecisionGraph<C>>)
    ensures
        match (content, version_id) {
            (Some(graph), Some(version)) => r matches Some(g) && g.content == graph.content
                && data::text_view(g.meta.version_id) == Some(version@),
            (Some(graph), None) => r == Some(graph),
            (None, _) => r is None,
        },
{
    match content {
        Some(graph) => match version_id {
            Some(version) => Some(
                FileDecisionGraph {
                    content: graph.content,
                    meta: DecisionContentMeta { version_id: Some(shared_text(version.as_str())) },
                },
            ),
            None => Some(graph),
        },
        None => None,
    }
}

/// The graphs of the models by the models' keys in lower case.
pub fn collect_graphs<C>(models: Vec<DecisionModelRow<C>>) -> (r: Vec<
    (String, FileDecisionGraph<C>),
>)
    ensures
        holds_graphs(r@, model_graphs(models@)),
{
    let mut r: Vec<(String, FileDecisionGraph<C>)> = Vec::new();
    let ghost all = models@;
    proof {
        assert(all.take(0) =~= Seq::empty());
    }
    for row in it: models
        invariant
            all == it.seq(),
            holds_graphs(r@, model_graphs(all.take(it.index() as int))),
    {
        proof {
            let i = it.index() as int;
            assert(all.take(i + 1).drop_last() =~= all.take(i));
            assert(all.take(i + 1).last() == row);
        }
        match graph_of_model(row.content, row.version_id) {
            Some(graph) => {
                assert(model_graph(row) == Some(graph_view(graph)));
                r = store_graph(r, to_lower_case(row.model_key.as_str()), graph);
            },
            None => {},
        }
    }
    assert(all.take(all.len() as int) =~= all);
    r
}

/// The tokens of the rows.
pub fn collect_tokens(tokens: Vec<TokenRow>) -> (r: Vec<Arc<str>>)
    ensures
        shared_texts(r@) == row_tokens(tokens@),
        r@.len() == tokens@.len(),
        forall|i: int| 0 <= i < r@.len() ==> (#[trigger] r@[i])@ == tokens@[i].token@,
{
    let mut r: Vec<Arc<str>> = Vec::new();
    let n: usize = tokens.len();
    for i in 0..n
        invariant
            n == tokens@.len(),
            shared_texts(r@) == row_tokens(tokens@.take(i as int)),
            r@.len() == i,
            forall|j: int| 0 <= j < i ==> (#[trigger] r@[j])@ == tokens@[j].token@,
    {
        let ghost before = r@;
        let token: Arc<str> = shared_text(tokens[i].token.as_str());
        r.push(token);
        assert(shared_texts(r@) =~= shared_texts(before).push(token@));
        assert(row_tokens(tokens@.take(i + 1)) =~= row_tokens(tokens@.take(i as int)).push(token@));
    }
    assert(tokens@.take(n as int) =~= tokens@);
    r
}

/// The project that the rows describe.
pub fn assemble_project<C>(
    row: ProjectDetailRow,
    models: Vec<DecisionModelRow<C>>,
    tokens: Vec<TokenRow>,
) -> (r: LoadedProject<C>)
    ensures
        is_loaded_from(r, row, models@, tokens@),
{
    let content: Vec<(String, FileDecisionGraph<C>)> = collect_graphs(models);
    let release_data: ReleaseData = ReleaseData {
        version: Some(shared_text(row.version.as_str())),
        project: ReleaseDataProject {
            id: shared_text(row.project_id.as_str()),
            key: shared_text(row.project_key.as_str()),
        },
        access_tokens: collect_tokens(tokens),
        release: ReleaseDataRelease {
            id: shared_text(row.release_id.as_str()),
            version: shared_text(row.version.as_str()),
        },
    };
    LoadedProject { content, release_data, content_hash: bytes_of_uuid(&row.release_pk) }
}

/// The project of an engine that was made from what was read: with the release and the content hash
/// that were read.
pub fn into_project(
    release_data: ReleaseData,
    content_hash: Vec<u8>,
    engine: DecisionEngine,
) -> (r: Project)
    ensures
        r.engine == engine,
        r.release_data == Some(release_data),
        store::hash_view(r.content_hash) == Some(content_hash@),
        r.content_hash == Some(content_hash),
{
    Project { engine, release_data: Some(release_data), content_hash: Some(content_hash) }
}

/// Whether a project has the release and the content hash that were read.
pub open spec fn is_made_from<C>(project: Project, loaded: LoadedProject<C>) -> bool {
    &&& project.release_data == Some(loaded.release_data)
    &&& store::hash_view(project.content_hash) == Some(loaded.content_hash@)
}

/// Whether a project was read at a release.
pub open spec fn is_read_at<C>(project: Project, release: Uuid) -> bool {
    exists|
        loaded: LoadedProject<C>,
        row: ProjectDetailRow,
        models: Seq<DecisionModelRow<C>>,
        tokens: Seq<TokenRow>,
    |
        #![trigger is_made_from(project, loaded), is_loaded_from(loaded, row, models, tokens)]
        is_made_from(project, loaded) && is_loaded_from(loaded, row, models, tokens)
            && row.release_pk == release
}

/// How far the reading of a project has come.
#[derive(Debug)]
pub enum LoadState<C> {
    /// The project and its latest release have been asked for.
    Project,
    /// The models of the release have been asked for.
    Models(ProjectDetailRow),
    /// The tokens of the project have been asked for.
    Tokens(ProjectDetailRow, Vec<DecisionModelRow<C>>),
    /// There is nothing left to ask.
    Ended,
}

/// What the database answered.
#[derive(Debug)]
pub enum LoadEvent<C> {
    Project(ProjectDetailRow),
    Models(Vec<DecisionModelRow<C>>),
    Tokens(Vec<TokenRow>),
    Failed(String),
}

/// What is to be done next.
#[derive(Debug)]
pub enum LoadAction<C> {
    /// Ask for the project of this key among the tenant's, with its latest release.
    FetchProject { tenant_slug: String, project_key: String },
    /// Ask for the models of this release.
    FetchModels { release_pk: Uuid },
    /// Ask for the tokens of this project.
    FetchTokens { project_pk: Uuid },
    /// The project is read.
    Finish(LoadedProject<C>),
    /// The project cannot be read.
    Fail(String),
}

/// Whether the reading of a project goes from `state` to `next` on an answer of the database, with
/// this action to be done.
pub open spec fn reads_on<C>(
    state: LoadState<C>,
    event: LoadEvent<C>,
    next: LoadState<C>,
    action: LoadAction<C>,
) -> bool {
    match (state, event, action) {
        (
            LoadState::Project,
            LoadEvent::Project(row),
            LoadAction::FetchModels { release_pk },
        ) => next == LoadState::<C>::Models(row) && release_pk == row.release_pk,
        (
            LoadState::Models(row),
            LoadEvent::Models(models),
            LoadAction::FetchTokens { project_pk },
        ) => next == LoadState::Tokens(row, models) && project_pk == row.project_pk,
        (
            LoadState::Tokens(row, models),
            LoadEvent::Tokens(tokens),
            LoadAction::Finish(loaded),
        ) => next is Ended && is_loaded_from(loaded, row, models@, tokens@),
        (_, LoadEvent::Failed(error), LoadAction::Fail(message)) => next is Ended && message
            == error,
        _ => false,
    }
}

impl<C> LoadState<C> {
    /// Whether the database was asked for what it answered. It may always answer that it failed,
    /// as long as there is something asked.
    pub open spec fn expects(self, event: LoadEvent<C>) -> bool {
        match event {
            LoadEvent::Project(_) => self is Project,
            LoadEvent::Models(_) => self is Models,
            LoadEvent::Tokens(_) => self is Tokens,
            LoadEvent::Failed(_) => !(self is Ended),
        }
    }

    /// Takes in an answer of the database. What is asked next belongs to the release and the project
    /// of the row that came first.
    pub fn step(self, event: LoadEvent<C>) -> (r: (LoadState<C>, LoadAction<C>))
        requires
            self.expects(event),
        ensures
            match (self, event) {
                (LoadState::Project, LoadEvent::Project(row)) => {
                    &&& r.0 == LoadState::<C>::Models(row)
                    &&& r.1 matches LoadAction::FetchModels { release_pk } && release_pk
                        == row.release_pk
                },
                (LoadState::Models(row), LoadEvent::Models(models)) => {
                    &&& r.0 == LoadState::Tokens(row, models)
                    &&& r.1 matches LoadAction::FetchTokens { project_pk } && project_pk
                        == row.project_pk
                },
                (LoadState::Tokens(row, models), LoadEvent::Tokens(tokens)) => {
                    &&& r.0 is Ended
                    &&& r.1 matches LoadAction::Finish(loaded) && is_loaded_from(
                        loaded,
                        row,
                        models@,
                        tokens@,
                    )
                },
                (_, LoadEvent::Failed(error)) => {
                    &&& r.0 is Ended
                    &&& r.1 matches LoadAction::Fail(message) && message == error
                },
                _ => false,
            },
            reads_on(self, event, r.0, r.1),
    {
        match (self, event) {
            (LoadState::Project, LoadEvent::Project(row)) => {
                let release_pk: Uuid = row.release_pk;
                (LoadState::Models(row), LoadAction::FetchModels { release_pk })
            },
            (LoadState::Models(row), LoadEvent::Models(models)) => {
                let project_pk: Uuid = row.project_pk;
                (LoadState::Tokens(row, models), LoadAction::FetchTokens { project_pk })
            },
            (LoadState::Tokens(row, models), LoadEvent::Tokens(tokens)) => {
                let loaded: LoadedProject<C> = assemble_project(row, models, tokens);
                (LoadState::Ended, LoadAction::Finish(loaded))
            },
            (_, LoadEvent::Failed(error)) => (LoadState::Ended, LoadAction::Fail(error)),
            _ => vstd::pervasive::unreached(),
        }
    }
}

/// Whether the reading of a project begins in `state`, with this action to be done.
pub open spec fn begins_to_read<C>(
    key: Seq<char>,
    state: LoadState<C>,
    action: LoadAction<C>,
) -> bool {
    match (composite_key::split_outcome(key), action) {
        (
            Ok((tenant, project)),
            LoadAction::FetchProject { tenant_slug, project_key },
        ) => state is Project && tenant_slug@ == tenant && project_key@ == project,
        (Err(error), LoadAction::Fail(message)) => state is Ended && message@ == error,
        _ => false,
    }
}

/// Begins to read the project of a composite key. A key that lacks a part cannot be read.
pub fn load_project<C>(composite_key: &str) -> (r: (LoadState<C>, LoadAction<C>))
    ensures
        match composite_key::split_outcome(composite_key@) {
            Ok((tenant, project)) => {
                &&& r.0 is Project
                &&& r.1 matches LoadAction::FetchProject { tenant_slug, project_key }
                    && tenant_slug@ == tenant && project_key@ == project
            },
            Err(error) => {
                &&& r.0 is Ended
                &&& r.1 matches LoadAction::Fail(message) && message@ == error
            },
        },
        begins_to_read(composite_key@, r.0, r.1),
{
    match split_composite_key(composite_key) {
        Ok((tenant, project)) => (
            LoadState::Project,
            LoadAction::FetchProject {
                tenant_slug: tenant.to_owned(),
                project_key: project.to_owned(),
            },
        ),
        Err(message) => (LoadState::Ended, LoadAction::Fail(message)),
    }
}

/// A project that was read at a release has that release's content hash.
proof fn lemma_read_project_has_hash<C>(project: Arc<Project>, release: Uuid)
    requires
        is_read_at::<C>(*project, release),
    ensures
        store::hash_view(project.content_hash) == Some(outside::uuid_bytes(release)),
{
}

/// A project that was just read at its listed release, and is held under its listed key, is not
/// reported as changed.
pub proof fn law_loaded_project_is_up_to_date<C>(
    projects: ProjectMap,
    rows: Seq<ProjectSummaryRow>,
    i: int,
)
    requires
        0 <= i < rows.len(),
        projects.contains_key(rows[i].composite_key@),
        is_read_at::<C>(*projects[rows[i].composite_key@], rows[i].release_pk),
    ensures
        diff::update_of(projects, row_listings(rows)[i]) is None,
{
    lemma_read_project_has_hash::<C>(projects[rows[i].composite_key@], rows[i].release_pk);
}

/// A held project that was read at some release is read again exactly if another release is listed
/// for it.
pub proof fn law_new_release_is_noticed<C>(
    projects: ProjectMap,
    rows: Seq<ProjectSummaryRow>,
    i: int,
    held_release: Uuid,
)
    requires
        0 <= i < rows.len(),
        is_told_apart(rows[i].release_pk),
        projects.contains_key(rows[i].composite_key@),
        is_read_at::<C>(*projects[rows[i].composite_key@], held_release),
    ensures
        diff::update_of(projects, row_listings(rows)[i]) == (if held_release == rows[i].release_pk {
            None
        } else {
            Some(Change::Updated(rows[i].composite_key@))
        }),
{
    lemma_read_project_has_hash::<C>(projects[rows[i].composite_key@], held_release);
}

/// What is collected under a key was loaded for it, and a key for which everything was loaded is
/// there.
pub proof fn lemma_loaded_projects(loaded: Seq<(String, Option<Arc<Project>>)>, key: Seq<char>)
    ensures
        loaded_projects(loaded).contains_key(key) ==> exists|i: int|
            0 <= i < loaded.len() && (#[trigger] loaded[i]).0@ == key && loaded[i].1 == Some(
                loaded_projects(loaded)[key],
            ),
        (exists|i: int|
            0 <= i < loaded.len() && (#[trigger] loaded[i]).0@ == key && loaded[i].1 is Some)
            ==> loaded_projects(loaded).contains_key(key),
    decreases loaded.len(),
{
    if loaded.len() > 0 {
        let init = loaded.drop_last();
        let last = loaded[loaded.len() - 1];
        lemma_loaded_projects(init, key);
        if loaded_projects(loaded).contains_key(key) && !(last.0@ == key && last.1 is Some) {
            let i = choose|i: int|
                0 <= i < init.len() && (#[trigger] init[i]).0@ == key && init[i].1 == Some(
                    loaded_projects(init)[key],
                );
            assert(loaded[i] == init[i]);
        }
        if exists|i: int|
            0 <= i < loaded.len() && (#[trigger] loaded[i]).0@ == key && loaded[i].1 is Some {
            let i = choose|i: int|
                0 <= i < loaded.len() && (#[trigger] loaded[i]).0@ == key && loaded[i].1 is Some;
            if i < init.len() {
                assert(init[i] == loaded[i]);
            }
        }
    }
}

/// Whether every project of a refresh was read, each at the release that is listed for it.
pub open spec fn is_fully_loaded<C>(
    loaded: Seq<(String, Option<Arc<Project>>)>,
    rows: Seq<ProjectSummaryRow>,
) -> bool {
    forall|i: int, j: int|
        0 <= i < loaded.len() && 0 <= j < rows.len() && (#[trigger] loaded[i]).0@ == (
        #[trigger] rows[j]).composite_key@ ==> (loaded[i].1 matches Some(project)
            && is_read_at::<C>(*project, rows[j].release_pk))
}

/// Where the database lists each project once, and each project that a refresh asks for could be
/// read at its listed release, the refresh leaves exactly the listed projects, each at its listed
/// release.
pub proof fn law_database_refresh_settles<C>(
    projects: ProjectMap,
    rows: Seq<ProjectSummaryRow>,
    diff: Seq<Change>,
    loaded: Seq<(String, Option<Arc<Project>>)>,
)
    requires
        forall|i: int, j: int|
            0 <= i < j < rows.len() ==> (#[trigger] rows[i]).composite_key@ != (
            #[trigger] rows[j]).composite_key@,
        diff::is_diff(projects, row_listings(rows), diff),
        loaded.map_values(|item: (String, Option<Arc<Project>>)| item.0@) == agent::refresh_keys(
            diff,
        ),
        is_fully_loaded::<C>(loaded, rows),
    ensures
        laws::in_sync(
            diff::apply_changes(projects, diff, loaded_projects(loaded)),
            row_listings(rows),
        ),
{
    let listed = row_listings(rows);
    let refreshed = loaded_projects(loaded);
    let keys = loaded.map_values(|item: (String, Option<Arc<Project>>)| item.0@);
    assert forall|i: int, j: int|
        0 <= i < listed.len() && 0 <= j < listed.len() && (#[trigger] listed[i]).key == (
        #[trigger] listed[j]).key implies listed[i].content_hash == listed[j].content_hash by {
        assert(rows[i].composite_key@ == rows[j].composite_key@);
        assert(i == j);
    }
    assert forall|i: int|
        0 <= i < listed.len() && diff::update_of(
            projects,
            #[trigger] listed[i],
        ) is Some implies refreshed.contains_key(listed[i].key) && store::hash_view(
        refreshed[listed[i].key].content_hash,
    ) == listed[i].content_hash by {
        let key = listed[i].key;
        assert(rows[i].composite_key@ == key);
        assert(laws::must_load(projects, listed, key));
        laws::law_refresh_list_is_what_must_load(projects, listed, diff, key);
        let k = choose|k: int| 0 <= k < keys.len() && keys[k] == key;
        assert(loaded[k].0@ == key);
        lemma_loaded_projects(loaded, key);
        let m = choose|m: int|
            0 <= m < loaded.len() && (#[trigger] loaded[m]).0@ == key && loaded[m].1 == Some(
                refreshed[key],
            );
        assert(loaded[m].0@ == rows[i].composite_key@);
        lemma_read_project_has_hash::<C>(refreshed[key], rows[i].release_pk);
    }
    laws::law_full_refresh_settles(projects, listed, diff, refreshed);
}

} // verus!
