//! What a diff and a refresh mean for each project, down to the characters of its key and the bytes
//! of its hash.
use std::sync::Arc;

use vstd::prelude::*;

use crate::provider::agent;
use crate::provider::diff::{self, Change, Listing, ProjectData, ProjectDiff};
use crate::provider::laws;
use crate::provider::pg;
use crate::provider::refresh::{self, RefreshAction, RefreshEvent, RefreshState};
use crate::provider::store::{Project, ProjectMap, Walk};

verus! {

/// Where in a listing the creations and updates that it asks for stand.
proof fn lemma_update_positions(projects: ProjectMap, listed: Seq<Listing>) -> (at: Seq<int>)
    ensures
        at.len() == diff::updates(projects, listed).len(),
        forall|k: int|
            0 <= k < at.len() ==> 0 <= #[trigger] at[k] < listed.len() && diff::update_of(
                projects,
                listed[at[k]],
            ) == Some(diff::updates(projects, listed)[k]),
        forall|a: int, b: int| 0 <= a < b < at.len() ==> #[trigger] at[a] < #[trigger] at[b],
        forall|i: int|
            0 <= i < listed.len() && diff::update_of(projects, #[trigger] listed[i]) is Some
                ==> at.contains(i),
    decreases listed.len(),
{
    if listed.len() == 0 {
        Seq::empty()
    } else {
        let init = listed.drop_last();
        let before = lemma_update_positions(projects, init);
        assert forall|k: int| 0 <= k < before.len() implies 0 <= #[trigger] before[k]
            < listed.len() && listed[before[k]] == init[before[k]] by {}
        let last = listed.len() - 1;
        match diff::update_of(projects, listed.last()) {
            Some(change) => {
                let at = before.push(last);
                assert forall|i: int|
                    0 <= i < listed.len() && diff::update_of(
                        projects,
                        #[trigger] listed[i],
                    ) is Some implies at.contains(i) by {
                    if i < last {
                        assert(init[i] == listed[i]);
                        let k = choose|k: int| 0 <= k < before.len() && before[k] == i;
                        assert(at[k] == i);
                    } else {
                        assert(at[before.len() as int] == i);
                    }
                }
                at
            },
            None => {
                assert forall|i: int|
                    0 <= i < listed.len() && diff::update_of(
                        projects,
                        #[trigger] listed[i],
                    ) is Some implies before.contains(i) by {
                    assert(init[i] == listed[i]);
                }
                before
            },
        }
    }
}

/// A diff holds first the removals, each of another project, then the creations and updates in the
/// order of the listing: `at` says for each of them which item of the listing it comes from. An item
/// gives rise to one exactly if no project of its key is held, or one is held whose hash and the
/// listed one differ: only one of them is missing, or their bytes are not the same.
pub proof fn law_diff_follows_listing(
    projects: ProjectMap,
    data: Seq<ProjectData>,
    diff: Seq<ProjectDiff>,
) -> (at: Seq<int>)
    requires
        diff::is_diff(projects, diff::listings(data), diff::changes(diff)),
    ensures
        at.len() <= diff.len(),
        forall|i: int|
            0 <= i < diff.len() - at.len() ==> (#[trigger] diff[i] matches ProjectDiff::Removed(k)
                && projects.contains_key(k@)),
        forall|i: int, j: int|
            0 <= i < j < diff.len() - at.len() ==> (#[trigger] diff[i])->Removed_0@ != (
            #[trigger] diff[j])->Removed_0@,
        forall|k: int|
            0 <= k < at.len() ==> 0 <= #[trigger] at[k] < data.len() && (match diff[diff.len()
                - at.len() + k] {
                ProjectDiff::Created(key) => key@ == data[at[k]].key@ && !projects.contains_key(
                    key@,
                ),
                ProjectDiff::Updated(key) => key@ == data[at[k]].key@ && projects.contains_key(
                    key@,
                ),
                ProjectDiff::Removed(_) => false,
            }),
        forall|a: int, b: int| 0 <= a < b < at.len() ==> #[trigger] at[a] < #[trigger] at[b],
        forall|j: int|
            0 <= j < data.len() ==> (at.contains(j) <==> {
                let key = (#[trigger] data[j]).key@;
                let held = projects[key].content_hash;
                let listed = data[j].content_hash;
                ||| !projects.contains_key(key)
                ||| held is Some && listed is None
                ||| held is None && listed is Some
                ||| held is Some && listed is Some && held->0@ != listed->0@
            }),
{
    let listed = diff::listings(data);
    let changes = diff::changes(diff);
    let at = lemma_update_positions(projects, listed);
    let found = diff::updates(projects, listed);
    let n = changes.len() - found.len();
    let removed = changes.take(n);
    assert forall|i: int| 0 <= i < n implies (#[trigger] diff[i] matches ProjectDiff::Removed(k)
        && projects.contains_key(k@) && removed[i] == Change::Removed(k@)) by {
        assert(removed[i] == diff[i]@);
    }
    assert forall|i: int, j: int| 0 <= i < j < n implies (#[trigger] diff[i])->Removed_0@ != (
    #[trigger] diff[j])->Removed_0@ by {
        assert(removed[i].key() != removed[j].key());
    }
    assert forall|k: int| 0 <= k < at.len() implies 0 <= #[trigger] at[k] < data.len() && (
    match diff[n + k] {
        ProjectDiff::Created(key) => key@ == data[at[k]].key@ && !projects.contains_key(key@),
        ProjectDiff::Updated(key) => key@ == data[at[k]].key@ && projects.contains_key(key@),
        ProjectDiff::Removed(_) => false,
    }) by {
        assert(changes.skip(n)[k] == diff[n + k]@);
        assert(found[k] == diff[n + k]@);
        assert(listed[at[k]] == data[at[k]]@);
    }
    assert forall|j: int| 0 <= j < data.len() implies (at.contains(j) <==> {
        let key = (#[trigger] data[j]).key@;
        let held = projects[key].content_hash;
        let other = data[j].content_hash;
        ||| !projects.contains_key(key)
        ||| held is Some && other is None
        ||| held is None && other is Some
        ||| held is Some && other is Some && held->0@ != other->0@
    }) by {
        assert(listed[j] == data[j]@);
        if at.contains(j) {
            let k = choose|k: int| 0 <= k < at.len() && at[k] == j;
            assert(diff::update_of(projects, listed[at[k]]) is Some);
        }
    }
    at
}

/// A diff says of each key what changed: it is removed exactly if it is held and not listed, created
/// exactly if it is listed and not held, and updated exactly if it is held and listed with a hash
/// that differs from the held one, where a missing hash differs from every other and two hashes are
/// the same exactly if their bytes are.
pub proof fn law_diff_of_each_key(
    projects: ProjectMap,
    data: Seq<ProjectData>,
    diff: Seq<ProjectDiff>,
    key: Seq<char>,
)
    requires
        diff::is_diff(projects, diff::listings(data), diff::changes(diff)),
    ensures
        (exists|i: int|
            0 <= i < diff.len() && (#[trigger] diff[i] matches ProjectDiff::Removed(k) && k@
                == key)) <==> projects.contains_key(key) && (forall|j: int|
            0 <= j < data.len() ==> (#[trigger] data[j]).key@ != key),
        (exists|i: int|
            0 <= i < diff.len() && (#[trigger] diff[i] matches ProjectDiff::Created(k) && k@
                == key)) <==> !projects.contains_key(key) && (exists|j: int|
            0 <= j < data.len() && (#[trigger] data[j]).key@ == key),
        (exists|i: int|
            0 <= i < diff.len() && (#[trigger] diff[i] matches ProjectDiff::Updated(k) && k@
                == key)) <==> projects.contains_key(key) && (exists|j: int|
            0 <= j < data.len() && (#[trigger] data[j]).key@ == key && {
                let held = projects[key].content_hash;
                let listed = data[j].content_hash;
                ||| held is Some && listed is None
                ||| held is None && listed is Some
                ||| held is Some && listed is Some && held->0@ != listed->0@
            }),
{
    let at = law_diff_follows_listing(projects, data, diff);
    let listed = diff::listings(data);
    let changes = diff::changes(diff);
    let n = diff.len() - at.len();
    laws::lemma_diff_by_key(projects, listed, changes);
    assert forall|i: int| 0 <= i < diff.len() implies changes[i] == (#[trigger] diff[i])@ by {}
    assert(diff::is_listed(listed, key) <==> exists|j: int|
        0 <= j < data.len() && (#[trigger] data[j]).key@ == key) by {
        if diff::is_listed(listed, key) {
            let j = choose|j: int| 0 <= j < listed.len() && (#[trigger] listed[j]).key == key;
            assert(data[j].key@ == key);
        }
        if exists|j: int| 0 <= j < data.len() && (#[trigger] data[j]).key@ == key {
            let j = choose|j: int| 0 <= j < data.len() && (#[trigger] data[j]).key@ == key;
            assert(listed[j].key == key);
        }
    }
    if projects.contains_key(key) && !diff::is_listed(listed, key) {
        let i = choose|i: int| 0 <= i < changes.len() && (#[trigger] changes[i]).key() == key;
        if i >= n {
            assert(0 <= at[i - n] < data.len());
        }
        assert(diff[i] matches ProjectDiff::Removed(k) && k@ == key);
    }
    assert forall|i: int| n <= i < diff.len() implies at.contains(at[i - n]) && 0 <= at[i - n]
        < data.len() && !(#[trigger] diff[i] is Removed) by {
        assert(0 <= at[i - n] < data.len());
    }
    assert forall|j: int| 0 <= j < data.len() && at.contains(j) implies exists|i: int|
        n <= i < diff.len() && at[i - n] == j && (#[trigger] diff[i])@.key() == (
        #[trigger] data[j]).key@ by {
        let k = choose|k: int| 0 <= k < at.len() && at[k] == j;
        assert(0 <= at[k] < data.len());
        assert(diff[n + k]@.key() == data[j].key@);
    }
}

/// The keys to be loaded are those of the creations and updates of a diff, in its order: `at` says
/// for each of them which change it is the key of.
pub proof fn law_refresh_list_follows_diff(diff: Seq<ProjectDiff>, keys: Seq<String>) -> (at: Seq<
    int,
>)
    requires
        agent::texts(keys) == agent::refresh_keys(diff::changes(diff)),
    ensures
        at.len() == keys.len(),
        forall|k: int|
            0 <= k < at.len() ==> 0 <= #[trigger] at[k] < diff.len() && (match diff[at[k]] {
                ProjectDiff::Created(key) => keys[k]@ == key@,
                ProjectDiff::Updated(key) => keys[k]@ == key@,
                ProjectDiff::Removed(_) => false,
            }),
        forall|a: int, b: int| 0 <= a < b < at.len() ==> #[trigger] at[a] < #[trigger] at[b],
        forall|i: int|
            0 <= i < diff.len() ==> (at.contains(i) <==> !(#[trigger] diff[i] is Removed)),
{
    let at = lemma_refresh_positions(diff);
    assert(agent::texts(keys).len() == keys.len());
    assert forall|k: int| 0 <= k < at.len() implies 0 <= #[trigger] at[k] < diff.len() && (
    match diff[at[k]] {
        ProjectDiff::Created(key) => keys[k]@ == key@,
        ProjectDiff::Updated(key) => keys[k]@ == key@,
        ProjectDiff::Removed(_) => false,
    }) by {
        assert(agent::texts(keys)[k] == keys[k]@);
    }
    at
}

/// Where in a diff the changes stand whose keys are to be loaded.
proof fn lemma_refresh_positions(diff: Seq<ProjectDiff>) -> (at: Seq<int>)
    ensures
        at.len() == agent::refresh_keys(diff::changes(diff)).len(),
        forall|k: int|
            0 <= k < at.len() ==> 0 <= #[trigger] at[k] < diff.len() && (match diff[at[k]] {
                ProjectDiff::Created(key) => agent::refresh_keys(diff::changes(diff))[k] == key@,
                ProjectDiff::Updated(key) => agent::refresh_keys(diff::changes(diff))[k] == key@,
                ProjectDiff::Removed(_) => false,
            }),
        forall|a: int, b: int| 0 <= a < b < at.len() ==> #[trigger] at[a] < #[trigger] at[b],
        forall|i: int|
            0 <= i < diff.len() ==> (at.contains(i) <==> !(#[trigger] diff[i] is Removed)),
    decreases diff.len(),
{
    if diff.len() == 0 {
        Seq::empty()
    } else {
        let init = diff.drop_last();
        let last = diff.len() - 1;
        let before = lemma_refresh_positions(init);
        assert(diff::changes(diff).drop_last() =~= diff::changes(init));
        assert(diff::changes(diff).last() == diff[last]@);
        assert forall|k: int| 0 <= k < before.len() implies 0 <= #[trigger] before[k] < last
            && diff[before[k]] == init[before[k]] by {}
        assert forall|i: int| 0 <= i < last implies (before.contains(i) <==> !(
        #[trigger] diff[i] is Removed)) by {
            assert(init[i] == diff[i]);
        }
        if diff[last] is Removed {
            before
        } else {
            let at = before.push(last);
            assert forall|i: int| 0 <= i < diff.len() implies (at.contains(i) <==> !(
            #[trigger] diff[i] is Removed)) by {
                if i < last {
                    if before.contains(i) {
                        let k = choose|k: int| 0 <= k < before.len() && before[k] == i;
                        assert(at[k] == i);
                    }
                    if at.contains(i) {
                        let k = choose|k: int| 0 <= k < at.len() && at[k] == i;
                        assert(before[k] == i);
                    }
                } else {
                    assert(at[before.len() as int] == i);
                }
            }
            at
        }
    }
}

/// The removals that a walk finds are those of the keys that are not listed, in the order of the
/// walk: `at` says for each of them which entry it comes from. The key of every other entry is
/// listed.
pub proof fn law_removals_follow_walk(
    entries: Walk,
    data: Seq<ProjectData>,
    removed: Seq<ProjectDiff>,
) -> (at: Seq<int>)
    requires
        diff::changes(removed) == diff::removals(diff::walk_keys(entries), diff::listings(data)),
    ensures
        at.len() == removed.len(),
        forall|k: int|
            0 <= k < at.len() ==> 0 <= #[trigger] at[k] < entries.len() && (
            removed[k] matches ProjectDiff::Removed(key) && key@ == entries[at[k]].0@),
        forall|a: int, b: int| 0 <= a < b < at.len() ==> #[trigger] at[a] < #[trigger] at[b],
        forall|k: int, j: int|
            0 <= k < at.len() && 0 <= j < data.len() ==> (#[trigger] data[j]).key@
                != entries[#[trigger] at[k]].0@,
        forall|i: int|
            0 <= i < entries.len() && !#[trigger] at.contains(i) ==> exists|j: int|
                0 <= j < data.len() && (#[trigger] data[j]).key@ == entries[i].0@,
{
    let at = lemma_removal_positions(entries, data);
    assert(diff::changes(removed).len() == removed.len());
    assert forall|k: int| 0 <= k < at.len() implies 0 <= #[trigger] at[k] < entries.len() && (
    removed[k] matches ProjectDiff::Removed(key) && key@ == entries[at[k]].0@) by {
        assert(diff::changes(removed)[k] == removed[k]@);
    }
    at
}

/// Where in a walk the entries stand whose keys are not listed.
proof fn lemma_removal_positions(entries: Walk, data: Seq<ProjectData>) -> (at: Seq<int>)
    ensures
        at.len() == diff::removals(diff::walk_keys(entries), diff::listings(data)).len(),
        forall|k: int|
            0 <= k < at.len() ==> 0 <= #[trigger] at[k] < entries.len() && diff::removals(
                diff::walk_keys(entries),
                diff::listings(data),
            )[k] == Change::Removed(entries[at[k]].0@),
        forall|a: int, b: int| 0 <= a < b < at.len() ==> #[trigger] at[a] < #[trigger] at[b],
        forall|k: int, j: int|
            0 <= k < at.len() && 0 <= j < data.len() ==> (#[trigger] data[j]).key@
                != entries[#[trigger] at[k]].0@,
        forall|i: int|
            0 <= i < entries.len() && !#[trigger] at.contains(i) ==> exists|j: int|
                0 <= j < data.len() && (#[trigger] data[j]).key@ == entries[i].0@,
    decreases entries.len(),
{
    if entries.len() == 0 {
        Seq::empty()
    } else {
        let init = entries.drop_last();
        let last = entries.len() - 1;
        let before = lemma_removal_positions(init, data);
        let key = entries[last].0@;
        assert(diff::walk_keys(entries).drop_last() =~= diff::walk_keys(init));
        assert(diff::walk_keys(entries).last() == key);
        assert(diff::is_listed(diff::listings(data), key) <==> !(forall|j: int|
            0 <= j < data.len() ==> (#[trigger] data[j]).key@ != key)) by {
            if diff::is_listed(diff::listings(data), key) {
                let j = choose|j: int|
                    0 <= j < data.len() && (#[trigger] diff::listings(data)[j]).key == key;
                assert(data[j].key@ == key);
            }
            if exists|j: int| 0 <= j < data.len() && (#[trigger] data[j]).key@ == key {
                let j = choose|j: int| 0 <= j < data.len() && (#[trigger] data[j]).key@ == key;
                assert(diff::listings(data)[j].key == key);
            }
        }
        assert forall|k: int| 0 <= k < before.len() implies 0 <= #[trigger] before[k] < last
            && entries[before[k]] == init[before[k]] by {}
        assert forall|i: int| 0 <= i < last && !#[trigger] before.contains(i) implies exists|
            j: int,
        |
            0 <= j < data.len() && (#[trigger] data[j]).key@ == entries[i].0@ by {
            assert(init[i] == entries[i]);
        }
        if diff::is_listed(diff::listings(data), key) {
            before
        } else {
            let at = before.push(last);
            assert forall|k: int, j: int| 0 <= k < at.len() && 0 <= j < data.len() implies (
            #[trigger] data[j]).key@ != entries[#[trigger] at[k]].0@ by {
                if k < before.len() {
                    assert(at[k] == before[k]);
                }
            }
            assert forall|i: int|
                0 <= i < entries.len() && !#[trigger] at.contains(i) implies exists|j: int|
                0 <= j < data.len() && (#[trigger] data[j]).key@ == entries[i].0@ by {
                assert(at[before.len() as int] == last);
                if before.contains(i) {
                    let k = choose|k: int| 0 <= k < before.len() && before[k] == i;
                    assert(at[k] == i);
                }
            }
            at
        }
    }
}

/// Of the changes to a key the last one counts: afterwards the key has what was loaded for it, if
/// that change is no removal and something was loaded, and has no project otherwise.
pub proof fn law_last_change_counts(
    before: ProjectMap,
    diff: Seq<ProjectDiff>,
    refreshed: ProjectMap,
    key: Seq<char>,
    i: int,
)
    requires
        0 <= i < diff.len(),
        match diff[i] {
            ProjectDiff::Created(k) => k@ == key,
            ProjectDiff::Removed(k) => k@ == key,
            ProjectDiff::Updated(k) => k@ == key,
        },
        forall|j: int|
            i < j < diff.len() ==> (match #[trigger] diff[j] {
                ProjectDiff::Created(k) => k@ != key,
                ProjectDiff::Removed(k) => k@ != key,
                ProjectDiff::Updated(k) => k@ != key,
            }),
    ensures
        diff::apply_changes(before, diff::changes(diff), refreshed).contains_key(key) == (!(
        diff[i] is Removed) && refreshed.contains_key(key)),
        !(diff[i] is Removed) && refreshed.contains_key(key) ==> diff::apply_changes(
            before,
            diff::changes(diff),
            refreshed,
        )[key] == refreshed[key],
    decreases diff.len(),
{
    let init = diff.drop_last();
    let last = diff.len() - 1;
    assert(diff::changes(diff).drop_last() =~= diff::changes(init));
    assert(diff::changes(diff).last() == diff[last]@);
    if i < last {
        assert forall|j: int| i < j < init.len() implies (match #[trigger] init[j] {
            ProjectDiff::Created(k) => k@ != key,
            ProjectDiff::Removed(k) => k@ != key,
            ProjectDiff::Updated(k) => k@ != key,
        }) by {
            assert(init[j] == diff[j]);
        }
        assert(init[i] == diff[i]);
        law_last_change_counts(before, init, refreshed, key, i);
        assert(diff[last]@.key() != key);
    }
}

/// A key without a change keeps what it has.
pub proof fn law_other_keys_stay(
    before: ProjectMap,
    diff: Seq<ProjectDiff>,
    refreshed: ProjectMap,
    key: Seq<char>,
)
    requires
        forall|j: int|
            0 <= j < diff.len() ==> (match #[trigger] diff[j] {
                ProjectDiff::Created(k) => k@ != key,
                ProjectDiff::Removed(k) => k@ != key,
                ProjectDiff::Updated(k) => k@ != key,
            }),
    ensures
        diff::apply_changes(before, diff::changes(diff), refreshed).contains_key(key)
            == before.contains_key(key),
        diff::apply_changes(before, diff::changes(diff), refreshed)[key] == before[key],
{
    let changes = diff::changes(diff);
    assert forall|i: int| 0 <= i < changes.len() implies (#[trigger] changes[i]).key() != key by {
        assert(changes[i] == diff[i]@);
    }
    laws::lemma_apply_other_keys(before, changes, refreshed, key);
}

/// Where in a sequence the elements stand that a filter keeps.
proof fn lemma_filter_positions<A>(s: Seq<A>, pred: spec_fn(A) -> bool) -> (at: Seq<int>)
    ensures
        at.len() == s.filter(pred).len(),
        forall|k: int|
            0 <= k < at.len() ==> 0 <= #[trigger] at[k] < s.len() && s.filter(pred)[k] == s[at[k]],
        forall|a: int, b: int| 0 <= a < b < at.len() ==> #[trigger] at[a] < #[trigger] at[b],
        forall|i: int| 0 <= i < s.len() ==> (at.contains(i) <==> pred(#[trigger] s[i])),
    decreases s.len(),
{
    reveal(Seq::filter);
    if s.len() == 0 {
        Seq::empty()
    } else {
        let init = s.drop_last();
        let last = s.len() - 1;
        let before = lemma_filter_positions(init, pred);
        assert forall|k: int| 0 <= k < before.len() implies 0 <= #[trigger] before[k] < last
            && s[before[k]] == init[before[k]] by {}
        assert forall|i: int| 0 <= i < last implies (before.contains(i) <==> pred(
            #[trigger] s[i],
        )) by {
            assert(init[i] == s[i]);
        }
        if pred(s[last]) {
            let at = before.push(last);
            assert forall|i: int| 0 <= i < s.len() implies (at.contains(i) <==> pred(
                #[trigger] s[i],
            )) by {
                if i < last {
                    if before.contains(i) {
                        let k = choose|k: int| 0 <= k < before.len() && before[k] == i;
                        assert(at[k] == i);
                    }
                    if at.contains(i) {
                        let k = choose|k: int| 0 <= k < at.len() && at[k] == i;
                        assert(before[k] == i);
                    }
                } else {
                    assert(at[before.len() as int] == i);
                }
            }
            at
        } else {
            before
        }
    }
}

/// What is reported are the changes of the diff that took place, as they are and in its order: `at`
/// says for each of them which change it is. Every removal is reported, and a creation or an update
/// exactly if something was loaded for its key.
pub proof fn law_reported_follows_diff(
    diff: Seq<ProjectDiff>,
    refreshed: ProjectMap,
    reported: Seq<ProjectDiff>,
) -> (at: Seq<int>)
    requires
        diff::changes(reported) == agent::reported(diff::changes(diff), refreshed),
    ensures
        at.len() == reported.len(),
        forall|k: int|
            0 <= k < at.len() ==> 0 <= #[trigger] at[k] < diff.len() && (match (
                reported[k],
                diff[at[k]],
            ) {
                (ProjectDiff::Created(a), ProjectDiff::Created(b)) => a@ == b@,
                (ProjectDiff::Removed(a), ProjectDiff::Removed(b)) => a@ == b@,
                (ProjectDiff::Updated(a), ProjectDiff::Updated(b)) => a@ == b@,
                _ => false,
            }),
        forall|a: int, b: int| 0 <= a < b < at.len() ==> #[trigger] at[a] < #[trigger] at[b],
        forall|i: int|
            0 <= i < diff.len() ==> (at.contains(i) <==> (match #[trigger] diff[i] {
                ProjectDiff::Removed(_) => true,
                ProjectDiff::Created(key) => refreshed.contains_key(key@),
                ProjectDiff::Updated(key) => refreshed.contains_key(key@),
            })),
{
    let changes = diff::changes(diff);
    let pred = |change: Change| diff::took_place(change, refreshed);
    let at = lemma_filter_positions(changes, pred);
    assert(diff::changes(reported).len() == reported.len());
    assert forall|k: int| 0 <= k < at.len() implies 0 <= #[trigger] at[k] < diff.len() && (match (
        reported[k],
        diff[at[k]],
    ) {
        (ProjectDiff::Created(a), ProjectDiff::Created(b)) => a@ == b@,
        (ProjectDiff::Removed(a), ProjectDiff::Removed(b)) => a@ == b@,
        (ProjectDiff::Updated(a), ProjectDiff::Updated(b)) => a@ == b@,
        _ => false,
    }) by {
        assert(diff::changes(reported)[k] == reported[k]@);
        assert(changes[at[k]] == diff[at[k]]@);
    }
    assert forall|i: int| 0 <= i < diff.len() implies (at.contains(i) <==> (
    match #[trigger] diff[i] {
        ProjectDiff::Removed(_) => true,
        ProjectDiff::Created(key) => refreshed.contains_key(key@),
        ProjectDiff::Updated(key) => refreshed.contains_key(key@),
    })) by {
        assert(changes[i] == diff[i]@);
        assert(pred(changes[i]) == diff::took_place(changes[i], refreshed));
    }
    at
}

/// Of what was loaded for a key the last counts.
pub proof fn law_last_loaded_counts(
    loaded: Seq<(String, Option<Arc<Project>>)>,
    key: Seq<char>,
    i: int,
)
    requires
        0 <= i < loaded.len(),
        loaded[i].0@ == key,
        loaded[i].1 is Some,
        forall|j: int|
            i < j < loaded.len() && (#[trigger] loaded[j]).0@ == key ==> loaded[j].1 is None,
    ensures
        pg::loaded_projects(loaded).contains_key(key),
        pg::loaded_projects(loaded)[key] == loaded[i].1->0,
    decreases loaded.len(),
{
    let init = loaded.drop_last();
    let last = loaded.len() - 1;
    if i < last {
        assert(init[i] == loaded[i]);
        assert forall|j: int|
            i < j < init.len() && (#[trigger] init[j]).0@ == key implies init[j].1 is None by {
            assert(init[j] == loaded[j]);
        }
        law_last_loaded_counts(init, key, i);
        assert(loaded[last].0@ == key ==> loaded[last].1 is None);
    }
}

/// A key for which nothing could be loaded has nothing.
pub proof fn law_nothing_loaded(loaded: Seq<(String, Option<Arc<Project>>)>, key: Seq<char>)
    requires
        forall|j: int|
            0 <= j < loaded.len() && (#[trigger] loaded[j]).0@ == key ==> loaded[j].1 is None,
    ensures
        !pg::loaded_projects(loaded).contains_key(key),
    decreases loaded.len(),
{
    if loaded.len() > 0 {
        let init = loaded.drop_last();
        let last = loaded.len() - 1;
        assert forall|j: int|
            0 <= j < init.len() && (#[trigger] init[j]).0@ == key implies init[j].1 is None by {
            assert(init[j] == loaded[j]);
        }
        law_nothing_loaded(init, key);
        assert(loaded[last].0@ == key ==> loaded[last].1 is None);
    }
}

/// A listing asks for a key to be loaded exactly if it lists the key and no project of the key is
/// held, or one whose hash and a listed one differ.
proof fn lemma_must_load(projects: ProjectMap, data: Seq<ProjectData>, key: Seq<char>)
    ensures
        laws::must_load(projects, diff::listings(data), key) <==> exists|j: int|
            0 <= j < data.len() && (#[trigger] data[j]).key@ == key && {
                let held = projects[key].content_hash;
                let listed = data[j].content_hash;
                ||| !projects.contains_key(key)
                ||| held is Some && listed is None
                ||| held is None && listed is Some
                ||| held is Some && listed is Some && held->0@ != listed->0@
            },
        diff::is_listed(diff::listings(data), key) <==> exists|j: int|
            0 <= j < data.len() && (#[trigger] data[j]).key@ == key,
{
    let listed = diff::listings(data);
    assert forall|j: int| 0 <= j < data.len() implies listed[j] == (#[trigger] data[j])@ by {}
    if laws::must_load(projects, listed, key) {
        let j = choose|j: int|
            0 <= j < listed.len() && (#[trigger] listed[j]).key == key && diff::update_of(
                projects,
                listed[j],
            ) is Some;
        assert(data[j].key@ == key);
    }
    if diff::is_listed(listed, key) {
        let j = choose|j: int| 0 <= j < listed.len() && (#[trigger] listed[j]).key == key;
        assert(data[j].key@ == key);
    }
    assert forall|j: int| 0 <= j < data.len() && (#[trigger] data[j]).key@ == key implies listed[j].key
        == key && diff::is_listed(listed, key) by {
        assert(listed[j].key == key);
    }
    assert forall|j: int|
        0 <= j < data.len() && (#[trigger] data[j]).key@ == key && diff::update_of(
            projects,
            listed[j],
        ) is Some implies laws::must_load(projects, listed, key) by {
        assert(listed[j].key == key);
    }
}

/// From a listing to the end of a refresh, where nothing else touches the projects meanwhile, for
/// each key. A key has to be loaded where it is listed and no project of it is held, or one whose
/// hash and a listed one differ. Exactly such keys are asked for. A key that is not listed has no
/// project afterwards. A listed key that has not to be loaded keeps its project. One that has to be
/// loaded has what was loaded for it last, and nothing where nothing could be loaded.
pub proof fn law_refresh_of_each_key(
    before: ProjectMap,
    listed: Vec<ProjectData>,
    loading: RefreshState,
    load: RefreshAction,
    loaded: Vec<(String, Option<Arc<Project>>)>,
    end: RefreshState,
    finish: RefreshAction,
    after: ProjectMap,
    key: Seq<char>,
)
    requires
        refresh::goes_on(
            RefreshState::Listing,
            before,
            RefreshEvent::Listed(listed),
            loading,
            load,
            before,
        ),
        refresh::goes_on(loading, before, RefreshEvent::Loaded(loaded), end, finish, after),
    ensures
        ({
            let is_listed = exists|j: int|
                0 <= j < listed@.len() && (#[trigger] listed@[j]).key@ == key;
            let has_to_be_loaded = exists|j: int|
                0 <= j < listed@.len() && (#[trigger] listed@[j]).key@ == key && {
                    let held = before[key].content_hash;
                    let other = listed@[j].content_hash;
                    ||| !before.contains_key(key)
                    ||| held is Some && other is None
                    ||| held is None && other is Some
                    ||| held is Some && other is Some && held->0@ != other->0@
                };
            &&& load matches RefreshAction::Load(keys) && ((exists|k: int|
                0 <= k < keys@.len() && (#[trigger] keys@[k])@ == key) <==> has_to_be_loaded)
            &&& !is_listed ==> !after.contains_key(key)
            &&& is_listed && !has_to_be_loaded ==> after.contains_key(key) && after[key]
                == before[key]
            &&& has_to_be_loaded && (forall|i: int|
                0 <= i < loaded@.len() && (#[trigger] loaded@[i]).0@ == key
                    ==> loaded@[i].1 is None) ==> !after.contains_key(key)
            &&& has_to_be_loaded ==> forall|i: int|
                {
                    &&& 0 <= i < loaded@.len()
                    &&& (#[trigger] loaded@[i]).0@ == key
                    &&& loaded@[i].1 is Some
                    &&& forall|j: int|
                        i < j < loaded@.len() && (#[trigger] loaded@[j]).0@ == key
                            ==> loaded@[j].1 is None
                } ==> after.contains_key(key) && after[key] == loaded@[i].1->0
            &&& finish is Finish
        }),
{
    lemma_must_load(before, listed@, key);
    refresh::law_refresh_run(before, listed, loading, load, loaded, end, finish, after, key);
    let keys = load->Load_0;
    if agent::texts(keys@).contains(key) {
        let k = choose|k: int|
            0 <= k < agent::texts(keys@).len() && agent::texts(keys@)[k] == key;
        assert(keys@[k]@ == key);
    }
    assert forall|k: int| 0 <= k < keys@.len() && (#[trigger] keys@[k])@ == key implies agent::texts(
        keys@,
    ).contains(key) by {
        assert(agent::texts(keys@)[k] == key);
    }
    if forall|i: int|
        0 <= i < loaded@.len() && (#[trigger] loaded@[i]).0@ == key ==> loaded@[i].1 is None {
        law_nothing_loaded(loaded@, key);
    }
    assert forall|i: int|
        {
            &&& 0 <= i < loaded@.len()
            &&& (#[trigger] loaded@[i]).0@ == key
            &&& loaded@[i].1 is Some
            &&& forall|j: int|
                i < j < loaded@.len() && (#[trigger] loaded@[j]).0@ == key ==> loaded@[j].1 is None
        } implies pg::loaded_projects(loaded@).contains_key(key) && pg::loaded_projects(
        loaded@,
    )[key] == loaded@[i].1->0 by {
        law_last_loaded_counts(loaded@, key, i);
    }
}

/// A listing leads to one key to be loaded for each of its items that has no held project, or one
/// whose hash and the listed one differ, in the order of the listing: `at` says for each key which
/// item it comes from.
pub proof fn law_listing_leads_to_loading(
    before: ProjectMap,
    listed: Vec<ProjectData>,
    loading: RefreshState,
    load: RefreshAction,
    after: ProjectMap,
) -> (at: Seq<int>)
    requires
        refresh::goes_on(
            RefreshState::Listing,
            before,
            RefreshEvent::Listed(listed),
            loading,
            load,
            after,
        ),
    ensures
        after == before,
        loading is Loading,
        load matches RefreshAction::Load(keys) && keys@.len() == at.len() && forall|k: int|
            0 <= k < at.len() ==> 0 <= #[trigger] at[k] < listed@.len() && keys@[k]@
                == listed@[at[k]].key@,
        forall|a: int, b: int| 0 <= a < b < at.len() ==> #[trigger] at[a] < #[trigger] at[b],
        forall|j: int|
            0 <= j < listed@.len() ==> (at.contains(j) <==> {
                let key = (#[trigger] listed@[j]).key@;
                let held = before[key].content_hash;
                let other = listed@[j].content_hash;
                ||| !before.contains_key(key)
                ||| held is Some && other is None
                ||| held is None && other is Some
                ||| held is Some && other is Some && held->0@ != other->0@
            }),
{
    let diff = loading->Loading_0@;
    let keys = load->Load_0@;
    let listing = diff::listings(listed@);
    let found = diff::updates(before, listing);
    let at = law_diff_follows_listing(before, listed@, diff);
    let n = diff.len() - at.len();
    laws::law_refresh_list_is_what_must_load(
        before,
        listing,
        diff::changes(diff),
        Seq::empty(),
    );
    assert(agent::texts(keys).len() == keys.len());
    assert(found.len() == at.len()) by {
        let other = lemma_update_positions(before, listing);
        assert forall|x: int| at.contains(x) <==> other.contains(x) by {
            if at.contains(x) {
                let k = choose|k: int| 0 <= k < at.len() && at[k] == x;
                assert(0 <= at[k] < listed@.len());
                assert(listing[x] == listed@[x]@);
                assert(diff::update_of(before, listing[x]) is Some);
            }
            if other.contains(x) {
                let k = choose|k: int| 0 <= k < other.len() && other[k] == x;
                assert(0 <= other[k] < listing.len());
                assert(listing[x] == listed@[x]@);
            }
        }
        lemma_same_positions(at, other);
    }
    assert forall|k: int| 0 <= k < at.len() implies 0 <= #[trigger] at[k] < listed@.len()
        && keys[k]@ == listed@[at[k]].key@ by {
        assert(agent::texts(keys)[k] == keys[k]@);
        assert(diff::changes(diff).skip(n)[k] == diff[n + k]@);
        assert(found[k] == diff[n + k]@);
    }
    at
}

/// Two increasing lists of the same numbers are as long as each other.
proof fn lemma_same_positions(a: Seq<int>, b: Seq<int>)
    requires
        forall|i: int, j: int| 0 <= i < j < a.len() ==> #[trigger] a[i] < #[trigger] a[j],
        forall|i: int, j: int| 0 <= i < j < b.len() ==> #[trigger] b[i] < #[trigger] b[j],
        forall|x: int| a.contains(x) <==> b.contains(x),
    ensures
        a.len() == b.len(),
{
    assert(a.no_duplicates());
    assert(b.no_duplicates());
    a.unique_seq_to_set();
    b.unique_seq_to_set();
    assert(a.to_set() =~= b.to_set());
}

/// A refresh ends with the report of what took place, in the order of its diff: `at` says for each
/// reported change which change of the diff it is. Every removal is reported, and a creation or an
/// update exactly if something was loaded for its key.
pub proof fn law_refresh_reports_what_took_place(
    diff: Vec<ProjectDiff>,
    before: ProjectMap,
    loaded: Vec<(String, Option<Arc<Project>>)>,
    end: RefreshState,
    finish: RefreshAction,
    after: ProjectMap,
) -> (at: Seq<int>)
    requires
        refresh::goes_on(
            RefreshState::Loading(diff),
            before,
            RefreshEvent::Loaded(loaded),
            end,
            finish,
            after,
        ),
    ensures
        end is Ended,
        finish matches RefreshAction::Finish(changed) && changed@.len() == at.len() && forall|
            k: int,
        |
            0 <= k < at.len() ==> 0 <= #[trigger] at[k] < diff@.len() && (match (
                changed@[k],
                diff@[at[k]],
            ) {
                (ProjectDiff::Created(a), ProjectDiff::Created(b)) => a@ == b@,
                (ProjectDiff::Removed(a), ProjectDiff::Removed(b)) => a@ == b@,
                (ProjectDiff::Updated(a), ProjectDiff::Updated(b)) => a@ == b@,
                _ => false,
            }),
        forall|a: int, b: int| 0 <= a < b < at.len() ==> #[trigger] at[a] < #[trigger] at[b],
        forall|i: int|
            0 <= i < diff@.len() ==> (at.contains(i) <==> (match #[trigger] diff@[i] {
                ProjectDiff::Removed(_) => true,
                ProjectDiff::Created(key) => exists|j: int|
                    0 <= j < loaded@.len() && (#[trigger] loaded@[j]).0@ == key@
                        && loaded@[j].1 is Some,
                ProjectDiff::Updated(key) => exists|j: int|
                    0 <= j < loaded@.len() && (#[trigger] loaded@[j]).0@ == key@
                        && loaded@[j].1 is Some,
            })),
{
    let refreshed = pg::loaded_projects(loaded@);
    let changed = finish->Finish_0@;
    let at = law_reported_follows_diff(diff@, refreshed, changed);
    assert forall|key: Seq<char>| #[trigger] refreshed.contains_key(key) <==> (exists|j: int|
        0 <= j < loaded@.len() && (#[trigger] loaded@[j]).0@ == key && loaded@[j].1 is Some) by {
        pg::lemma_loaded_projects(loaded@, key);
        if refreshed.contains_key(key) {
            let j = choose|j: int|
                0 <= j < loaded@.len() && (#[trigger] loaded@[j]).0@ == key && loaded@[j].1
                    == Some(refreshed[key]);
            assert(loaded@[j].1 is Some);
        }
    }
    at
}

/// While nothing has been loaded the held projects stay as they are, and a refresh that fails says
/// why in the words that it was given.
pub proof fn law_projects_change_at_the_end_only(
    state: RefreshState,
    before: ProjectMap,
    event: RefreshEvent,
    next: RefreshState,
    action: RefreshAction,
    after: ProjectMap,
)
    requires
        refresh::goes_on(state, before, event, next, action, after),
    ensures
        !(event is Loaded) ==> after == before,
        event matches RefreshEvent::Failed(error) ==> action == RefreshAction::Fail(error)
            && next is Ended,
{
}

} // verus!
