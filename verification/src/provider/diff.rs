//! What changed between the projects that the agent holds and those that the provider lists.
use std::sync::Arc;

use dashmap::DashMap;
use vstd::prelude::*;
use vstd::string::*;

use crate::provider::store::{
    self, get_project, insert_project, new_projects, project_entries, remove_project, Project,
    ProjectMap, Walk,
};
use crate::text::{bytes_equal, text_equal};

verus! {

/// One change to the projects, by key.
#[derive(Debug)]
pub enum ProjectDiff {
    Created(String),
    Removed(String),
    Updated(String),
}

/// A project as the provider lists it.
#[derive(Debug)]
pub struct ProjectData {
    pub key: String,
    pub content_hash: Option<Vec<u8>>,
}

/// A change, with its key as characters.
pub enum Change {
    Created(Seq<char>),
    Removed(Seq<char>),
    Updated(Seq<char>),
}

/// A listed project, with its key as characters and its hash as bytes.
pub struct Listing {
    pub key: Seq<char>,
    pub content_hash: Option<Seq<u8>>,
}

impl View for ProjectDiff {
    type V = Change;

    open spec fn view(&self) -> Change {
        match self {
            ProjectDiff::Created(key) => Change::Created(key@),
            ProjectDiff::Removed(key) => Change::Removed(key@),
            ProjectDiff::Updated(key) => Change::Updated(key@),
        }
    }
}

impl View for ProjectData {
    type V = Listing;

    open spec fn view(&self) -> Listing {
        Listing {
            key: self.key@,
            content_hash: store::hash_view(self.content_hash),
        }
    }
}

/// The changes of a list.
pub open spec fn changes(diff: Seq<ProjectDiff>) -> Seq<Change> {
    diff.map_values(|change: ProjectDiff| change@)
}

/// The listed projects of a list.
pub open spec fn listings(data: Seq<ProjectData>) -> Seq<Listing> {
    data.map_values(|item: ProjectData| item@)
}

impl Change {
    /// The key of the project that changed.
    pub open spec fn key(self) -> Seq<char> {
        match self {
            Change::Created(key) => key,
            Change::Removed(key) => key,
            Change::Updated(key) => key,
        }
    }
}

/// Whether a project of this key is listed.
pub open spec fn is_listed(listed: Seq<Listing>, key: Seq<char>) -> bool {
    exists|i: int| 0 <= i < listed.len() && (#[trigger] listed[i]).key == key
}

/// What a listed project means for the projects that are held: a new project, a new content, or
/// nothing.
pub open spec fn update_of(
    projects: ProjectMap,
    item: Listing,
) -> Option<Change> {
    if !projects.contains_key(item.key) {
        Some(Change::Created(item.key))
    } else if store::hash_view(projects[item.key].content_hash)
        != item.content_hash {
        Some(Change::Updated(item.key))
    } else {
        None
    }
}

/// The creations and updates that a listing asks for, in the order of the listing.
pub open spec fn updates(
    projects: ProjectMap,
    listed: Seq<Listing>,
) -> Seq<Change>
    decreases listed.len(),
{
    if listed.len() == 0 {
        Seq::empty()
    } else {
        let before = updates(projects, listed.drop_last());
        match update_of(projects, listed.last()) {
            Some(change) => before.push(change),
            None => before,
        }
    }
}

/// The removals that a walk over the projects' keys finds: one for each key that is not listed, in
/// the order of the walk.
pub open spec fn removals(keys: Seq<Seq<char>>, listed: Seq<Listing>) -> Seq<Change>
    decreases keys.len(),
{
    if keys.len() == 0 {
        Seq::empty()
    } else {
        let before = removals(keys.drop_last(), listed);
        if is_listed(listed, keys.last()) {
            before
        } else {
            before.push(Change::Removed(keys.last()))
        }
    }
}

/// The keys of a walk over the projects.
pub open spec fn walk_keys(entries: Walk) -> Seq<Seq<char>> {
    entries.map_values(|entry: (String, Arc<Project>)| entry.0@)
}

/// Whether `removed` holds one removal for each project that is no longer listed, in any order, and
/// nothing else.
pub open spec fn removes_unlisted(
    projects: ProjectMap,
    listed: Seq<Listing>,
    removed: Seq<Change>,
) -> bool {
    &&& forall|i: int|
        0 <= i < removed.len() ==> {
            &&& #[trigger] removed[i] is Removed
            &&& projects.contains_key(removed[i].key())
            &&& !is_listed(listed, removed[i].key())
        }
    &&& forall|key: Seq<char>| #[trigger]
        projects.contains_key(key) && !is_listed(listed, key) ==> exists|i: int|
            0 <= i < removed.len() && (#[trigger] removed[i]).key() == key
    &&& forall|i: int, j: int|
        0 <= i < j < removed.len() ==> (#[trigger] removed[i]).key() != (
        #[trigger] removed[j]).key()
}

/// Whether `diff` is what leads from the projects to the listing: first the removals, then the
/// creations and updates in the order of the listing.
pub open spec fn is_diff(
    projects: ProjectMap,
    listed: Seq<Listing>,
    diff: Seq<Change>,
) -> bool {
    let refreshed = updates(projects, listed);
    let n = diff.len() - refreshed.len();
    &&& n >= 0
    &&& diff.skip(n) == refreshed
    &&& removes_unlisted(projects, listed, diff.take(n))
}

/// The projects that the agent holds, by key.
#[derive(Debug)]
pub struct AgentData {
    projects: DashMap<String, Arc<Project>>,
}

impl View for AgentData {
    type V = ProjectMap;

    closed spec fn view(&self) -> ProjectMap {
        store::project_map(self.projects)
    }
}

impl Default for AgentData {
    fn default() -> (r: Self)
        ensures
            r@ == ProjectMap::empty(),
    {
        AgentData { projects: new_projects() }
    }
}

/// Whether a project of this key is in the list.
fn lists(data: &Vec<ProjectData>, key: &str) -> (r: bool)
    ensures
        r == is_listed(listings(data@), key@),
{
    let n: usize = data.len();
    for i in 0..n
        invariant
            n == data@.len(),
            forall|j: int| 0 <= j < i ==> (#[trigger] data@[j]).key@ != key@,
    {
        if text_equal(data[i].key.as_str(), key) {
            assert(listings(data@)[i as int].key == key@);
            return true;
        }
    }
    assert(!is_listed(listings(data@), key@)) by {
        assert forall|j: int| 0 <= j < listings(data@).len() implies (
        #[trigger] listings(data@)[j]).key != key@ by {
            assert(data@[j].key@ != key@);
        }
    }
    false
}

/// The removals that a walk over the projects finds.
pub fn find_removals(entries: &Vec<(String, Arc<Project>)>, data: &Vec<ProjectData>) -> (r: Vec<
    ProjectDiff,
>)
    ensures
        changes(r@) == removals(walk_keys(entries@), listings(data@)),
{
    let mut r: Vec<ProjectDiff> = Vec::new();
    let n: usize = entries.len();
    for i in 0..n
        invariant
            n == entries@.len(),
            changes(r@) == removals(walk_keys(entries@.take(i as int)), listings(data@)),
    {
        proof {
            assert(walk_keys(entries@.take(i + 1)).drop_last() =~= walk_keys(
                entries@.take(i as int),
            ));
            assert(walk_keys(entries@.take(i + 1)).last() == entries@[i as int].0@);
        }
        let key: &String = &entries[i].0;
        if !lists(data, key.as_str()) {
            let ghost before = r@;
            r.push(ProjectDiff::Removed(key.clone()));
            assert(changes(r@) =~= changes(before).push(Change::Removed(key@)));
        }
    }
    assert(entries@.take(n as int) =~= entries@);
    r
}

/// Whether two content hashes are the same.
fn same_hash(a: &Option<Vec<u8>>, b: &Option<Vec<u8>>) -> (r: bool)
    ensures
        r == (store::hash_view(*a) == store::hash_view(*b)),
{
    match (a, b) {
        (Some(x), Some(y)) => bytes_equal(x.as_slice(), y.as_slice()),
        (None, None) => true,
        _ => false,
    }
}

/// What `removals` finds among distinct keys: each key that is not listed, once.
proof fn lemma_removals(keys: Seq<Seq<char>>, listed: Seq<Listing>)
    requires
        forall|i: int, j: int| 0 <= i < j < keys.len() ==> keys[i] != keys[j],
    ensures
        forall|i: int|
            0 <= i < removals(keys, listed).len() ==> {
                let change = #[trigger] removals(keys, listed)[i];
                change is Removed && keys.contains(change.key()) && !is_listed(
                    listed,
                    change.key(),
                )
            },
        forall|k: int|
            0 <= k < keys.len() && !is_listed(listed, #[trigger] keys[k]) ==> exists|i: int|
                0 <= i < removals(keys, listed).len() && (#[trigger] removals(
                    keys,
                    listed,
                )[i]).key() == keys[k],
        forall|i: int, j: int|
            0 <= i < j < removals(keys, listed).len() ==> (#[trigger] removals(
                keys,
                listed,
            )[i]).key() != (#[trigger] removals(keys, listed)[j]).key(),
    decreases keys.len(),
{
    if keys.len() > 0 {
        let init = keys.drop_last();
        lemma_removals(init, listed);
        let before = removals(init, listed);
        let found = removals(keys, listed);
        assert forall|i: int| 0 <= i < found.len() implies {
            let change = #[trigger] found[i];
            change is Removed && keys.contains(change.key()) && !is_listed(listed, change.key())
        } by {
            if i < before.len() {
                assert(found[i] == before[i]);
                let k = choose|k: int| 0 <= k < init.len() && init[k] == before[i].key();
                assert(keys[k] == before[i].key());
            } else {
                assert(keys[keys.len() - 1] == found[i].key());
            }
        }
        assert forall|k: int|
            0 <= k < keys.len() && !is_listed(listed, #[trigger] keys[k]) implies exists|i: int|
            0 <= i < found.len() && (#[trigger] found[i]).key() == keys[k] by {
            if k < init.len() {
                assert(init[k] == keys[k]);
                let i = choose|i: int|
                    0 <= i < before.len() && (#[trigger] before[i]).key() == init[k];
                assert(found[i] == before[i]);
            } else {
                assert(found[before.len() as int].key() == keys[k]);
            }
        }
        assert forall|i: int, j: int| 0 <= i < j < found.len() implies (
        #[trigger] found[i]).key() != (#[trigger] found[j]).key() by {
            assert(found[i] == before[i]);
            if j < before.len() {
                assert(found[j] == before[j]);
            } else {
                let k = choose|k: int| 0 <= k < init.len() && init[k] == before[i].key();
                assert(keys[k] == found[i].key());
                assert(keys[keys.len() - 1] == found[j].key());
            }
        }
    }
}

/// A walk over the projects finds exactly the projects that are no longer listed.
proof fn lemma_walk_finds_unlisted(
    entries: Walk,
    projects: ProjectMap,
    listed: Seq<Listing>,
)
    requires
        store::is_walk(entries, projects),
    ensures
        removes_unlisted(projects, listed, removals(walk_keys(entries), listed)),
{
    let keys = walk_keys(entries);
    let removed = removals(keys, listed);
    assert forall|i: int, j: int| 0 <= i < j < keys.len() implies keys[i] != keys[j] by {
        assert(entries[i].0@ != entries[j].0@);
    }
    lemma_removals(keys, listed);
    assert forall|i: int| 0 <= i < removed.len() implies projects.contains_key(
        (#[trigger] removed[i]).key(),
    ) by {
        let k = choose|k: int| 0 <= k < keys.len() && keys[k] == removed[i].key();
        assert(entries[k].0@ == keys[k]);
    }
    assert forall|key: Seq<char>| #[trigger]
        projects.contains_key(key) && !is_listed(listed, key) implies exists|i: int|
        0 <= i < removed.len() && (#[trigger] removed[i]).key() == key by {
        let k = choose|k: int| 0 <= k < entries.len() && (#[trigger] entries[k]).0@ == key;
        assert(keys[k] == key);
    }
}

/// The creations and updates that a longer listing asks for begin with those of a shorter one.
proof fn lemma_updates_step(projects: ProjectMap, listed: Seq<Listing>, i: int)
    requires
        0 <= i < listed.len(),
    ensures
        updates(projects, listed.take(i + 1)) == match update_of(projects, listed[i]) {
            Some(change) => updates(projects, listed.take(i)).push(change),
            None => updates(projects, listed.take(i)),
        },
{
    assert(listed.take(i + 1).drop_last() =~= listed.take(i));
    assert(listed.take(i + 1).last() == listed[i]);
}

/// What a change does to the projects, where `refreshed` holds the projects that could be loaded.
/// A created or updated project that could not be loaded is dropped.
pub open spec fn apply_change(
    projects: ProjectMap,
    change: Change,
    refreshed: ProjectMap,
) -> ProjectMap {
    match change {
        Change::Removed(key) => projects.remove(key),
        Change::Created(key) | Change::Updated(key) => if refreshed.contains_key(key) {
            projects.insert(key, refreshed[key])
        } else {
            projects.remove(key)
        },
    }
}

/// What the changes do to the projects, one after the other.
pub open spec fn apply_changes(
    projects: ProjectMap,
    diff: Seq<Change>,
    refreshed: ProjectMap,
) -> ProjectMap
    decreases diff.len(),
{
    if diff.len() == 0 {
        projects
    } else {
        apply_change(
            apply_changes(projects, diff.drop_last(), refreshed),
            diff.last(),
            refreshed,
        )
    }
}

/// Whether a change took place: every removal does, a creation or an update only where the project
/// could be loaded.
pub open spec fn took_place(change: Change, refreshed: ProjectMap) -> bool {
    change is Removed || refreshed.contains_key(change.key())
}

impl AgentData {
    /// What a listed project means for the held projects.
    fn held_update(&self, item: &ProjectData) -> (r: Option<ProjectDiff>)
        ensures
            match r {
                Some(change) => update_of(self@, item@) == Some(change@),
                None => update_of(self@, item@) is None,
            },
            r is None <==> {
                let held = self@[item.key@].content_hash;
                let listed = item.content_hash;
                &&& self@.contains_key(item.key@)
                &&& held is Some <==> listed is Some
                &&& held is Some ==> held->0@ == listed->0@
            },
    {
        match get_project(&self.projects, item.key.as_str()) {
            None => Some(ProjectDiff::Created(item.key.clone())),
            Some(project) => {
                if same_hash(&project.content_hash, &item.content_hash) {
                    None
                } else {
                    Some(ProjectDiff::Updated(item.key.clone()))
                }
            },
        }
    }

    /// The creations and updates that a listing asks for.
    pub fn find_updates(&self, data: &Vec<ProjectData>) -> (r: Vec<ProjectDiff>)
        ensures
            changes(r@) == updates(self@, listings(data@)),
    {
        let mut r: Vec<ProjectDiff> = Vec::new();
        let n: usize = data.len();
        for i in 0..n
            invariant
                n == data@.len(),
                changes(r@) == updates(self@, listings(data@).take(i as int)),
        {
            let ghost before = r@;
            proof {
                lemma_updates_step(self@, listings(data@), i as int);
            }
            match self.held_update(&data[i]) {
                Some(change) => {
                    r.push(change);
                    assert(changes(r@) =~= changes(before).push(change@));
                },
                None => {},
            }
        }
        assert(listings(data@).take(n as int) =~= listings(data@));
        r
    }

    /// What leads from the held projects to the listed ones: the removal of each project that is no
    /// longer listed, in no particular order, then the creations and updates in the order of the
    /// listing.
    pub fn calculate_diff(&self, data: Vec<ProjectData>) -> (r: Vec<ProjectDiff>)
        ensures
            is_diff(self@, listings(data@), changes(r@)),
    {
        let entries: Vec<(String, Arc<Project>)> = project_entries(&self.projects);
        let mut r: Vec<ProjectDiff> = find_removals(&entries, &data);
        let mut refreshed: Vec<ProjectDiff> = self.find_updates(&data);
        let ghost removed_changes = changes(r@);
        let ghost refreshed_changes = changes(refreshed@);
        r.append(&mut refreshed);
        proof {
            assert(changes(r@) =~= removed_changes + refreshed_changes);
            let n = removed_changes.len() as int;
            assert(changes(r@).take(n) =~= removed_changes);
            assert(changes(r@).skip(n) =~= refreshed_changes);
            lemma_walk_finds_unlisted(entries@, self@, listings(data@));
        }
        r
    }

    /// The project of this key, if it is held.
    pub fn get(&self, key: &str) -> (r: Option<Arc<Project>>)
        ensures
            r == (if self@.contains_key(key@) {
                Some(self@[key@])
            } else {
                None
            }),
    {
        get_project(&self.projects, key)
    }

    /// The held projects with their keys, in no particular order.
    pub fn entries(&self) -> (r: Vec<(String, Arc<Project>)>)
        ensures
            store::is_walk(r@, self@),
    {
        project_entries(&self.projects)
    }

    /// Carries one change out and says whether it took place.
    pub fn apply(
        &mut self,
        change: &ProjectDiff,
        refreshed: &DashMap<String, Arc<Project>>,
    ) -> (r: bool)
        ensures
            final(self)@ == apply_change(
                old(self)@,
                change@,
                store::project_map(*refreshed),
            ),
            r == took_place(change@, store::project_map(*refreshed)),
    {
        match change {
            ProjectDiff::Created(key) | ProjectDiff::Updated(key) => {
                match get_project(refreshed, key.as_str()) {
                    Some(project) => {
                        insert_project(&mut self.projects, key.clone(), project);
                        true
                    },
                    None => {
                        remove_project(&mut self.projects, key.as_str());
                        false
                    },
                }
            },
            ProjectDiff::Removed(key) => {
                remove_project(&mut self.projects, key.as_str());
                true
            },
        }
    }
}

} // verus!
