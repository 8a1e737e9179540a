//! What a release holds: its identity, who may use it, and its decision graphs.
use std::sync::Arc;

use vstd::prelude::*;

verus! {

/// The identity of a release and of the project it belongs to.
#[derive(Debug, Clone)]
pub struct ReleaseData {
    pub version: Option<Arc<str>>,
    pub project: ReleaseDataProject,
    pub access_tokens: Vec<Arc<str>>,
    pub release: ReleaseDataRelease,
}

#[derive(Debug, Clone)]
pub struct ReleaseDataProject {
    pub id: Arc<str>,
    pub key: Arc<str>,
}

#[derive(Debug, Clone)]
pub struct ReleaseDataRelease {
    pub id: Arc<str>,
    pub version: Arc<str>,
}

/// What is known of a decision graph besides its content.
#[derive(Debug, Clone)]
pub struct DecisionContentMeta {
    pub version_id: Option<Arc<str>>,
}

/// A decision graph as it is stored. `C` is the content that the decision engine reads.
#[derive(Debug, Clone)]
pub struct FileDecisionGraph<C> {
    pub content: C,
    pub meta: DecisionContentMeta,
}

/// The characters of an optional text.
pub open spec fn text_view(text: Option<Arc<str>>) -> Option<Seq<char>> {
    match text {
        Some(t) => Some(t@),
        None => None,
    }
}

} // verus!
