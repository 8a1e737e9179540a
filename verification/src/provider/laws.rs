//! What a refresh achieves, whatever could be loaded.
use vstd::prelude::*;

use crate::provider::agent;
use crate::provider::diff::{self, Change, Listing};
use crate::provider::store::{self, ProjectMap};

verus! {

/// Whether the held projects are exactly the listed ones, each with the listed content.
pub open spec fn in_sync(projects: ProjectMap, listed: Seq<Listing>) -> bool {
    &&& forall|key: Seq<char>| #[trigger]
        projects.contains_key(key) ==> diff::is_listed(listed, key)
    &&& forall|i: int|
        0 <= i < listed.len() ==> diff::update_of(
            projects,
            #[trigger] listed[i],
        ) is None
}

/// Whether the listing asks for the project of this key to be loaded.
pub open spec fn must_load(projects: ProjectMap, listed: Seq<Listing>, key: Seq<char>) -> bool {
    exists|i: int|
        0 <= i < listed.len() && (#[trigger] listed[i]).key == key
            && diff::update_of(projects, listed[i]) is Some
}

/// Whether no key is listed with two contents.
pub open spec fn is_consistent(listed: Seq<Listing>) -> bool {
    forall|i: int, j: int|
        0 <= i < listed.len() && 0 <= j < listed.len() && (#[trigger] listed[i]).key == (
        #[trigger] listed[j]).key ==> listed[i].content_hash == listed[j].content_hash
}

/// Whether each project that the listing asks for was loaded with the listed content.
pub open spec fn all_loaded(
    projects: ProjectMap,
    listed: Seq<Listing>,
    refreshed: ProjectMap,
) -> bool {
    forall|i: int|
        0 <= i < listed.len() && diff::update_of(
            projects,
            #[trigger] listed[i],
        ) is Some ==> refreshed.contains_key(listed[i].key)
            && store::hash_view(refreshed[listed[i].key].content_hash)
            == listed[i].content_hash
}

/// Changes to other keys leave a key alone.
pub proof fn lemma_apply_other_keys(
    projects: ProjectMap,
    diff: Seq<Change>,
    refreshed: ProjectMap,
    key: Seq<char>,
)
    requires
        forall|i: int| 0 <= i < diff.len() ==> (#[trigger] diff[i]).key() != key,
    ensures
        diff::apply_changes(projects, diff, refreshed).contains_key(key)
            == projects.contains_key(key),
        diff::apply_changes(projects, diff, refreshed)[key] == projects[key],
    decreases diff.len(),
{
    if diff.len() > 0 {
        let init = diff.drop_last();
        assert forall|i: int| 0 <= i < init.len() implies (#[trigger] init[i]).key() != key by {
            assert(init[i] == diff[i]);
        }
        lemma_apply_other_keys(projects, init, refreshed, key);
        assert(diff[diff.len() - 1].key() != key);
    }
}

/// A key that is removed, and neither created nor updated, is gone.
proof fn lemma_apply_removed(
    projects: ProjectMap,
    diff: Seq<Change>,
    refreshed: ProjectMap,
    key: Seq<char>,
)
    requires
        exists|i: int| 0 <= i < diff.len() && (#[trigger] diff[i]).key() == key,
        forall|i: int|
            0 <= i < diff.len() && (#[trigger] diff[i]).key() == key ==> diff[i] is Removed,
    ensures
        !diff::apply_changes(projects, diff, refreshed).contains_key(key),
    decreases diff.len(),
{
    let init = diff.drop_last();
    let last = diff[diff.len() - 1];
    if last.key() != key {
        let i = choose|i: int| 0 <= i < diff.len() && (#[trigger] diff[i]).key() == key;
        assert(init[i] == diff[i]);
        assert forall|j: int|
            0 <= j < init.len() && (#[trigger] init[j]).key() == key implies init[j] is Removed by {
            assert(init[j] == diff[j]);
        }
        lemma_apply_removed(projects, init, refreshed, key);
    }
}

/// A key that is created or updated, and not removed, has what was loaded for it.
proof fn lemma_apply_refreshed(
    projects: ProjectMap,
    diff: Seq<Change>,
    refreshed: ProjectMap,
    key: Seq<char>,
)
    requires
        exists|i: int| 0 <= i < diff.len() && (#[trigger] diff[i]).key() == key,
        forall|i: int|
            0 <= i < diff.len() && (#[trigger] diff[i]).key() == key ==> !(diff[i] is Removed),
    ensures
        diff::apply_changes(projects, diff, refreshed).contains_key(key)
            == refreshed.contains_key(key),
        refreshed.contains_key(key) ==> diff::apply_changes(
            projects,
            diff,
            refreshed,
        )[key] == refreshed[key],
    decreases diff.len(),
{
    let init = diff.drop_last();
    let last = diff[diff.len() - 1];
    if last.key() != key {
        let i = choose|i: int| 0 <= i < diff.len() && (#[trigger] diff[i]).key() == key;
        assert(init[i] == diff[i]);
        assert forall|j: int|
            0 <= j < init.len() && (#[trigger] init[j]).key() == key implies !(
        init[j] is Removed) by {
            assert(init[j] == diff[j]);
        }
        lemma_apply_refreshed(projects, init, refreshed, key);
    }
}

/// The creations and updates of a listing are those of its projects.
proof fn lemma_updates_are_of_listed(projects: ProjectMap, listed: Seq<Listing>)
    ensures
        forall|j: int|
            0 <= j < diff::updates(projects, listed).len() ==> {
                let change = #[trigger] diff::updates(projects, listed)[j];
                &&& !(change is Removed)
                &&& must_load(projects, listed, change.key())
            },
        forall|i: int|
            0 <= i < listed.len() && diff::update_of(
                projects,
                #[trigger] listed[i],
            ) is Some ==> exists|j: int|
                0 <= j < diff::updates(projects, listed).len() && (
                #[trigger] diff::updates(projects, listed)[j]).key()
                    == listed[i].key,
    decreases listed.len(),
{
    if listed.len() > 0 {
        let init = listed.drop_last();
        lemma_updates_are_of_listed(projects, init);
        let before = diff::updates(projects, init);
        let found = diff::updates(projects, listed);
        assert forall|j: int| 0 <= j < found.len() implies {
            let change = #[trigger] found[j];
            &&& !(change is Removed)
            &&& must_load(projects, listed, change.key())
        } by {
            if j < before.len() {
                assert(found[j] == before[j]);
                let i = choose|i: int|
                    0 <= i < init.len() && (#[trigger] init[i]).key == before[j].key()
                        && diff::update_of(projects, init[i]) is Some;
                assert(listed[i] == init[i]);
            } else {
                assert(listed[listed.len() - 1].key == found[j].key());
            }
        }
        assert forall|i: int|
            0 <= i < listed.len() && diff::update_of(
                projects,
                #[trigger] listed[i],
            ) is Some implies exists|j: int|
            0 <= j < found.len() && (#[trigger] found[j]).key() == listed[i].key by {
            if i < init.len() {
                assert(init[i] == listed[i]);
                let j = choose|j: int|
                    0 <= j < before.len() && (#[trigger] before[j]).key() == init[i].key;
                assert(found[j] == before[j]);
            } else {
                assert(found[before.len() as int].key() == listed[i].key);
            }
        }
    }
}

/// The changes of a diff by key: a key with a removal is held and not listed, a key with a creation
/// or an update is listed and must be loaded, and each such key has a change.
pub proof fn lemma_diff_by_key(projects: ProjectMap, listed: Seq<Listing>, diff: Seq<Change>)
    requires
        diff::is_diff(projects, listed, diff),
    ensures
        forall|i: int|
            0 <= i < diff.len() && #[trigger] diff[i] is Removed ==> projects.contains_key(
                diff[i].key(),
            ) && !diff::is_listed(listed, diff[i].key()),
        forall|i: int|
            0 <= i < diff.len() && !(#[trigger] diff[i] is Removed) ==> must_load(
                projects,
                listed,
                diff[i].key(),
            ),
        forall|key: Seq<char>|
            projects.contains_key(key) && !#[trigger] diff::is_listed(listed, key)
                ==> exists|i: int| 0 <= i < diff.len() && (#[trigger] diff[i]).key() == key,
        forall|key: Seq<char>| #[trigger]
            must_load(projects, listed, key) ==> exists|i: int|
                0 <= i < diff.len() && (#[trigger] diff[i]).key() == key,
{
    let refreshed = diff::updates(projects, listed);
    let n = diff.len() - refreshed.len();
    let removed = diff.take(n);
    lemma_updates_are_of_listed(projects, listed);
    assert forall|i: int| 0 <= i < diff.len() implies (if i < n {
        diff[i] == removed[i]
    } else {
        #[trigger] diff[i] == refreshed[i - n]
    }) by {
        if i >= n {
            assert(diff.skip(n)[i - n] == diff[i]);
        }
    }
    assert forall|key: Seq<char>|
        projects.contains_key(key) && !#[trigger] diff::is_listed(
            listed,
            key,
        ) implies exists|i: int| 0 <= i < diff.len() && (#[trigger] diff[i]).key() == key by {
        let i = choose|i: int| 0 <= i < removed.len() && (#[trigger] removed[i]).key() == key;
        assert(diff[i].key() == key);
    }
    assert forall|key: Seq<char>| #[trigger] must_load(projects, listed, key) implies exists|i: int|
        0 <= i < diff.len() && (#[trigger] diff[i]).key() == key by {
        let k = choose|k: int|
            0 <= k < listed.len() && (#[trigger] listed[k]).key == key
                && diff::update_of(projects, listed[k]) is Some;
        let j = choose|j: int| 0 <= j < refreshed.len() && (#[trigger] refreshed[j]).key() == key;
        assert(diff[n + j] == refreshed[j]);
    }
}

/// After a refresh a key has a project exactly if it is listed and either was held with the listed
/// content already, and is then untouched, or could be loaded, and then has what was loaded.
pub proof fn law_refresh_outcome(
    projects: ProjectMap,
    listed: Seq<Listing>,
    diff: Seq<Change>,
    refreshed: ProjectMap,
    key: Seq<char>,
)
    requires
        diff::is_diff(projects, listed, diff),
    ensures
        ({
            let after = diff::apply_changes(projects, diff, refreshed);
            &&& after.contains_key(key) == (diff::is_listed(listed, key) && (
            must_load(projects, listed, key) ==> refreshed.contains_key(key)))
            &&& after.contains_key(key) ==> after[key] == (if must_load(projects, listed, key) {
                refreshed[key]
            } else {
                projects[key]
            })
        }),
{
    lemma_diff_by_key(projects, listed, diff);
    if must_load(projects, listed, key) {
        assert forall|i: int| 0 <= i < diff.len() && (#[trigger] diff[i]).key() == key implies !(
        diff[i] is Removed) by {
            if diff[i] is Removed {
                assert(!diff::is_listed(listed, key));
            }
        }
        lemma_apply_refreshed(projects, diff, refreshed, key);
    } else if projects.contains_key(key) && !diff::is_listed(listed, key) {
        lemma_apply_removed(projects, diff, refreshed, key);
    } else {
        assert forall|i: int| 0 <= i < diff.len() implies (#[trigger] diff[i]).key() != key by {
        }
        lemma_apply_other_keys(projects, diff, refreshed, key);
        if diff::is_listed(listed, key) {
            let i = choose|i: int| 0 <= i < listed.len() && (#[trigger] listed[i]).key == key;
            assert(diff::update_of(projects, listed[i]) is None);
        }
    }
}

/// A diff is empty exactly if the held projects are the listed ones already.
pub proof fn law_empty_diff_means_in_sync(
    projects: ProjectMap,
    listed: Seq<Listing>,
    diff: Seq<Change>,
)
    requires
        diff::is_diff(projects, listed, diff),
    ensures
        diff.len() == 0 <==> in_sync(projects, listed),
{
    lemma_diff_by_key(projects, listed, diff);
    if diff.len() == 0 {
        assert forall|key: Seq<char>| #[trigger]
            projects.contains_key(key) implies diff::is_listed(listed, key) by {}
        assert forall|i: int| 0 <= i < listed.len() implies diff::update_of(
            projects,
            #[trigger] listed[i],
        ) is None by {
            if diff::update_of(projects, listed[i]) is Some {
                assert(must_load(projects, listed, listed[i].key));
            }
        }
    }
    if in_sync(projects, listed) && diff.len() > 0 {
        if diff[0] is Removed {
            assert(diff::is_listed(listed, diff[0].key()));
        } else {
            assert(must_load(projects, listed, diff[0].key()));
        }
    }
}

/// A refresh that could load everything it was asked for leaves the agent in sync with a consistent
/// listing: the next diff against the same listing is empty.
pub proof fn law_full_refresh_settles(
    projects: ProjectMap,
    listed: Seq<Listing>,
    diff: Seq<Change>,
    refreshed: ProjectMap,
)
    requires
        diff::is_diff(projects, listed, diff),
        is_consistent(listed),
        all_loaded(projects, listed, refreshed),
    ensures
        in_sync(diff::apply_changes(projects, diff, refreshed), listed),
        forall|next: Seq<Change>| #[trigger]
            diff::is_diff(diff::apply_changes(projects, diff, refreshed), listed, next)
                ==> next.len() == 0,
{
    let after = diff::apply_changes(projects, diff, refreshed);
    assert forall|key: Seq<char>| #[trigger]
        after.contains_key(key) implies diff::is_listed(listed, key) by {
        law_refresh_outcome(projects, listed, diff, refreshed, key);
    }
    assert forall|i: int| 0 <= i < listed.len() implies diff::update_of(
        after,
        #[trigger] listed[i],
    ) is None by {
        let key = listed[i].key;
        law_refresh_outcome(projects, listed, diff, refreshed, key);
        assert(diff::is_listed(listed, key));
        if must_load(projects, listed, key) {
            let k = choose|k: int|
                0 <= k < listed.len() && (#[trigger] listed[k]).key == key
                    && diff::update_of(projects, listed[k]) is Some;
            assert(refreshed.contains_key(listed[k].key));
            assert(listed[k].content_hash == listed[i].content_hash);
        } else {
            assert(diff::update_of(projects, listed[i]) is None);
        }
    }
    assert forall|next: Seq<Change>| #[trigger] diff::is_diff(after, listed, next) implies next.len()
        == 0 by {
        law_empty_diff_means_in_sync(after, listed, next);
    }
}

/// A project that could not be loaded is not held after the refresh, and the next diff against the
/// same listing creates it again.
pub proof fn law_failed_load_is_tried_again(
    projects: ProjectMap,
    listed: Seq<Listing>,
    diff: Seq<Change>,
    refreshed: ProjectMap,
    next: Seq<Change>,
    key: Seq<char>,
)
    requires
        diff::is_diff(projects, listed, diff),
        must_load(projects, listed, key),
        !refreshed.contains_key(key),
        diff::is_diff(
            diff::apply_changes(projects, diff, refreshed),
            listed,
            next,
        ),
    ensures
        !diff::apply_changes(projects, diff, refreshed).contains_key(key),
        next.contains(Change::Created(key)),
{
    let after = diff::apply_changes(projects, diff, refreshed);
    law_refresh_outcome(projects, listed, diff, refreshed, key);
    let k = choose|k: int|
        0 <= k < listed.len() && (#[trigger] listed[k]).key == key
            && diff::update_of(projects, listed[k]) is Some;
    lemma_created_if_absent(after, listed, k);
    let refreshed_changes = diff::updates(after, listed);
    let j = choose|j: int|
        0 <= j < refreshed_changes.len() && refreshed_changes[j] == Change::Created(key);
    let n = next.len() - refreshed_changes.len();
    assert(next.skip(n)[j] == next[n + j]);
}

/// A listed project that is not held is created.
proof fn lemma_created_if_absent(projects: ProjectMap, listed: Seq<Listing>, k: int)
    requires
        0 <= k < listed.len(),
        !projects.contains_key(listed[k].key),
    ensures
        diff::updates(projects, listed).contains(Change::Created(listed[k].key)),
    decreases listed.len(),
{
    let init = listed.drop_last();
    let before = diff::updates(projects, init);
    let found = diff::updates(projects, listed);
    if k < init.len() {
        assert(init[k] == listed[k]);
        lemma_created_if_absent(projects, init, k);
        let j = choose|j: int|
            0 <= j < before.len() && before[j] == Change::Created(listed[k].key);
        assert(found[j] == before[j]);
    } else {
        assert(found[before.len() as int] == Change::Created(listed[k].key));
    }
}

/// The keys to be loaded of two lists of changes, one behind the other.
proof fn lemma_refresh_keys_of_sum(first: Seq<Change>, second: Seq<Change>)
    ensures
        agent::refresh_keys(first + second) == agent::refresh_keys(first) + agent::refresh_keys(
            second,
        ),
    decreases second.len(),
{
    if second.len() == 0 {
        assert(first + second =~= first);
        assert(agent::refresh_keys(first) + agent::refresh_keys(second) =~= agent::refresh_keys(
            first,
        ));
    } else {
        assert((first + second).drop_last() =~= first + second.drop_last());
        assert((first + second).last() == second.last());
        lemma_refresh_keys_of_sum(first, second.drop_last());
        assert(agent::refresh_keys(first + second) =~= agent::refresh_keys(first)
            + agent::refresh_keys(second));
    }
}

/// Removals ask for nothing to be loaded.
proof fn lemma_refresh_keys_of_removals(changes: Seq<Change>)
    requires
        forall|i: int| 0 <= i < changes.len() ==> #[trigger] changes[i] is Removed,
    ensures
        agent::refresh_keys(changes) == Seq::<Seq<char>>::empty(),
    decreases changes.len(),
{
    if changes.len() > 0 {
        let init = changes.drop_last();
        assert forall|i: int| 0 <= i < init.len() implies #[trigger] init[i] is Removed by {
            assert(init[i] == changes[i]);
        }
        lemma_refresh_keys_of_removals(init);
        assert(changes[changes.len() - 1] is Removed);
    }
}

/// Changes without a removal ask for each of their keys to be loaded.
proof fn lemma_refresh_keys_of_updates(changes: Seq<Change>)
    requires
        forall|i: int| 0 <= i < changes.len() ==> !(#[trigger] changes[i] is Removed),
    ensures
        agent::refresh_keys(changes) == changes.map_values(|change: Change| change.key()),
    decreases changes.len(),
{
    let keys = changes.map_values(|change: Change| change.key());
    if changes.len() > 0 {
        let init = changes.drop_last();
        assert forall|i: int| 0 <= i < init.len() implies !(#[trigger] init[i] is Removed) by {
            assert(init[i] == changes[i]);
        }
        lemma_refresh_keys_of_updates(init);
        assert(!(changes[changes.len() - 1] is Removed));
        assert(keys =~= init.map_values(|change: Change| change.key()).push(changes.last().key()));
    } else {
        assert(keys =~= Seq::empty());
    }
}

/// The keys to be loaded for a diff are those of the creations and updates that the listing asks
/// for, in the order of the listing; a key is among them exactly if it must be loaded.
pub proof fn law_refresh_list_is_what_must_load(
    projects: ProjectMap,
    listed: Seq<Listing>,
    diff: Seq<Change>,
    key: Seq<char>,
)
    requires
        diff::is_diff(projects, listed, diff),
    ensures
        agent::refresh_keys(diff) == diff::updates(projects, listed).map_values(
            |change: Change| change.key(),
        ),
        agent::refresh_keys(diff).contains(key) == must_load(projects, listed, key),
{
    let refreshed = diff::updates(projects, listed);
    let n = diff.len() - refreshed.len();
    lemma_updates_are_of_listed(projects, listed);
    assert(diff =~= diff.take(n) + diff.skip(n));
    lemma_refresh_keys_of_sum(diff.take(n), refreshed);
    lemma_refresh_keys_of_removals(diff.take(n));
    lemma_refresh_keys_of_updates(refreshed);
    let keys = refreshed.map_values(|change: Change| change.key());
    assert(agent::refresh_keys(diff) =~= keys);
    if keys.contains(key) {
        let j = choose|j: int| 0 <= j < keys.len() && keys[j] == key;
        assert(must_load(projects, listed, refreshed[j].key()));
    }
    if must_load(projects, listed, key) {
        let i = choose|i: int|
            0 <= i < listed.len() && (#[trigger] listed[i]).key == key && diff::update_of(
                projects,
                listed[i],
            ) is Some;
        let j = choose|j: int| 0 <= j < refreshed.len() && (#[trigger] refreshed[j]).key() == key;
        assert(keys[j] == key);
    }
}

/// What a refresh reports is so: a project that is reported removed is not held any more, one that
/// is reported created or updated is held as it was loaded.
pub proof fn law_reported_changes_are_so(
    projects: ProjectMap,
    listed: Seq<Listing>,
    diff: Seq<Change>,
    refreshed: ProjectMap,
    change: Change,
)
    requires
        diff::is_diff(projects, listed, diff),
        agent::reported(diff, refreshed).contains(change),
    ensures
        ({
            let after = diff::apply_changes(projects, diff, refreshed);
            if change is Removed {
                !after.contains_key(change.key())
            } else {
                after.contains_key(change.key()) && after[change.key()] == refreshed[change.key()]
            }
        }),
{
    let reported = agent::reported(diff, refreshed);
    let pred = |c: Change| diff::took_place(c, refreshed);
    diff.lemma_filter_contains_rev(pred, change);
    let j = choose|j: int| 0 <= j < reported.len() && reported[j] == change;
    diff.lemma_filter_pred(pred, j);
    let i = choose|i: int| 0 <= i < diff.len() && diff[i] == change;
    lemma_diff_by_key(projects, listed, diff);
    assert(diff[i] == change);
    law_refresh_outcome(projects, listed, diff, refreshed, change.key());
}

} // verus!
