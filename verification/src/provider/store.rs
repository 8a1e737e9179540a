//! The concurrent collections that the agent keeps its projects and its failures in.
use std::sync::Arc;

use dashmap::{DashMap, DashSet};
use vstd::prelude::*;
use zen_engine::DecisionEngine;

use crate::data::ReleaseData;

verus! {

/// `dashmap::DashMap`, a map that is split into locked shards.
#[verifier::external_type_specification]
#[verifier::external_body]
#[verifier::reject_recursive_types(K)]
#[verifier::reject_recursive_types(V)]
#[verifier::reject_recursive_types(S)]
pub struct ExDashMap<K, V, S>(DashMap<K, V, S>);

/// `dashmap::DashSet`, a set on top of `DashMap`.
#[verifier::external_type_specification]
#[verifier::external_body]
#[verifier::reject_recursive_types(K)]
#[verifier::reject_recursive_types(S)]
pub struct ExDashSet<K, S>(DashSet<K, S>);

/// `zen_engine::DecisionEngine`, which evaluates decisions. It is carried, never looked into.
#[verifier::external_type_specification]
#[verifier::external_body]
pub struct ExDecisionEngine(DecisionEngine);

/// A project that requests can be answered from.
#[derive(Debug)]
pub struct Project {
    pub engine: DecisionEngine,
    /// The release that the engine was loaded from, where it is known.
    pub release_data: Option<ReleaseData>,
    /// What tells this content of the project from another.
    pub content_hash: Option<Vec<u8>>,
}

/// The bytes of an optional content hash.
pub open spec fn hash_view(hash: Option<Vec<u8>>) -> Option<Seq<u8>> {
    match hash {
        Some(bytes) => Some(bytes@),
        None => None,
    }
}

impl Project {
    /// Whether the project's release says that the project has this id.
    pub open spec fn has_id(self, id: Seq<char>) -> bool {
        self.release_data matches Some(release) && release.project.id@ == id
    }
}

/// Projects by the characters of their keys.
pub type ProjectMap = Map<Seq<char>, Arc<Project>>;

/// Projects with their keys, one after the other.
pub type Walk = Seq<(String, Arc<Project>)>;

/// What a map of projects holds.
pub uninterp spec fn project_map(projects: DashMap<String, Arc<Project>>) -> Map<
    Seq<char>,
    Arc<Project>,
>;

/// `DashMap::new`: a map without an entry.
#[verifier::external_body]
pub(crate) fn new_projects() -> (r: DashMap<String, Arc<Project>>)
    ensures
        project_map(r) == ProjectMap::empty(),
{
    DashMap::new()
}

/// `DashMap::insert`: the key has the new value, every other key the value that it had. The map is
/// borrowed for writing, so nobody else reads or writes it meanwhile.
#[verifier::external_body]
pub(crate) fn insert_project(
    projects: &mut DashMap<String, Arc<Project>>,
    key: String,
    project: Arc<Project>,
)
    ensures
        project_map(*final(projects)) == project_map(*old(projects)).insert(key@, project),
{
    projects.insert(key, project);
}

/// `DashMap::remove`: the key has no value, every other key the value that it had. The map is
/// borrowed for writing, so nobody else reads or writes it meanwhile.
#[verifier::external_body]
pub(crate) fn remove_project(projects: &mut DashMap<String, Arc<Project>>, key: &str)
    ensures
        project_map(*final(projects)) == project_map(*old(projects)).remove(key@),
{
    projects.remove(key);
}

/// `DashMap::get`: the value of the key, if it has one.
#[verifier::external_body]
pub(crate) fn get_project(projects: &DashMap<String, Arc<Project>>, key: &str) -> (r: Option<
    Arc<Project>,
>)
    ensures
        r == (if project_map(*projects).contains_key(key@) {
            Some(project_map(*projects)[key@])
        } else {
            None
        }),
{
    projects.get(key).map(|entry| Arc::clone(entry.value()))
}

/// Whether `entries` is a walk over `projects` that meets each key once, in any order.
pub open spec fn is_walk(entries: Walk, projects: ProjectMap) -> bool {
    &&& forall|i: int|
        0 <= i < entries.len() ==> projects.contains_key((#[trigger] entries[i]).0@)
            && projects[entries[i].0@] == entries[i].1
    &&& forall|key: Seq<char>| #[trigger]
        projects.contains_key(key) ==> exists|i: int|
            0 <= i < entries.len() && (#[trigger] entries[i]).0@ == key
    &&& forall|i: int, j: int|
        0 <= i < j < entries.len() ==> (#[trigger] entries[i]).0@ != (#[trigger] entries[j]).0@
}

/// `DashMap::iter`: every entry once. In which order is not said: it depends on a hasher that each
/// map seeds for itself.
#[verifier::external_body]
pub(crate) fn project_entries(projects: &DashMap<String, Arc<Project>>) -> (r: Vec<
    (String, Arc<Project>),
>)
    ensures
        is_walk(r@, project_map(*projects)),
{
    projects.iter().map(|entry| (entry.key().clone(), Arc::clone(entry.value()))).collect()
}

/// What a set of content hashes holds.
pub uninterp spec fn hash_set(hashes: DashSet<Vec<u8>>) -> Set<Seq<u8>>;

/// `DashSet::new`: a set without an element.
#[verifier::external_body]
pub(crate) fn new_hashes() -> (r: DashSet<Vec<u8>>)
    ensures
        hash_set(r) == Set::<Seq<u8>>::empty(),
{
    DashSet::new()
}

/// `DashSet::insert`: the set holds the element and what it held before. The set is borrowed for
/// writing, so nobody else reads or writes it meanwhile.
#[verifier::external_body]
pub(crate) fn insert_hash(hashes: &mut DashSet<Vec<u8>>, hash: Vec<u8>)
    ensures
        hash_set(*final(hashes)) == hash_set(*old(hashes)).insert(hash@),
{
    hashes.insert(hash);
}

/// `DashSet::contains`: whether the set holds the element.
#[verifier::external_body]
pub(crate) fn contains_hash(hashes: &DashSet<Vec<u8>>, hash: &[u8]) -> (r: bool)
    ensures
        r == hash_set(*hashes).contains(hash@),
{
    hashes.contains(hash)
}

} // verus!
