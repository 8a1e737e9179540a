//! The contents that could not be loaded.
use dashmap::DashSet;
use vstd::prelude::*;

use crate::provider::store::{self, contains_hash, insert_hash, new_hashes};

verus! {

/// The content hashes of the projects that failed to load.
#[derive(Debug)]
pub struct FailedProjectsRegistry {
    hashes: DashSet<Vec<u8>>,
}

impl View for FailedProjectsRegistry {
    type V = Set<Seq<u8>>;

    closed spec fn view(&self) -> Set<Seq<u8>> {
        store::hash_set(self.hashes)
    }
}

/// Whether the content of this hash is among the failed ones.
pub open spec fn is_failed(failed: Set<Seq<u8>>, hash: Option<&[u8]>) -> bool {
    match hash {
        Some(bytes) => failed.contains(bytes@),
        None => false,
    }
}

impl FailedProjectsRegistry {
    /// A registry without a failure.
    pub fn new() -> (r: Self)
        ensures
            r@ == Set::<Seq<u8>>::empty(),
    {
        FailedProjectsRegistry { hashes: new_hashes() }
    }

    /// Notes that the content of this hash failed to load.
    pub fn insert(&mut self, project_hash: Vec<u8>)
        ensures
            final(self)@ == old(self)@.insert(project_hash@),
    {
        insert_hash(&mut self.hashes, project_hash)
    }

    /// Whether the content of this hash failed to load. A content without a hash never did.
    pub fn has_failed(&self, project_hash: Option<&[u8]>) -> (r: bool)
        ensures
            r == (project_hash matches Some(hash) && self@.contains(hash@)),
            r == is_failed(self@, project_hash),
    {
        match project_hash {
            Some(hash) => contains_hash(&self.hashes, hash),
            None => false,
        }
    }
}

/// After a failure is noted, a content failed exactly if it is the noted one or had failed before.
pub proof fn law_noted_failures_stay(failed: Set<Seq<u8>>, noted: Seq<u8>, hash: Seq<u8>)
    ensures
        failed.insert(noted).contains(hash) == (hash == noted || failed.contains(hash)),
{
}

/// Nothing has failed in a new registry. After a failure is noted, a content has failed exactly if
/// its hash has the bytes of the noted one or it had failed before. A content without a hash never
/// has.
pub proof fn law_failures_are_known_by_their_bytes(
    failed: Set<Seq<u8>>,
    noted: Seq<u8>,
    hash: Option<&[u8]>,
)
    ensures
        !is_failed(Set::empty(), hash),
        hash matches Some(bytes) ==> (is_failed(failed.insert(noted), hash) <==> bytes@ == noted
            || is_failed(failed, hash)),
        hash is None ==> !is_failed(failed, hash),
{
}

} // verus!
