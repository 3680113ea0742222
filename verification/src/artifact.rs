//! Artifacts produced by a run: reports, patches, data extracts and the like.

use vstd::prelude::*;

use crate::ids::{ArtifactId, RunId};
use crate::json::{Json, JsonView};
use crate::time::Timestamp;

verus! {

/// A durable, addressable output of a run.
#[derive(Debug)]
pub struct Artifact {
    /// Unique id.
    pub id: ArtifactId,
    /// The run that produced it.
    pub run_id: RunId,
    /// Type tag chosen by the application, such as `report` or `patch`.
    pub kind: String,
    /// Where the bytes live.
    pub uri: String,
    /// Any metadata.
    pub metadata: Json,
    /// When it was created.
    pub created_at: Timestamp,
}

/// The model of an [`Artifact`].
pub struct ArtifactView {
    /// Unique id.
    pub id: ArtifactId,
    /// The run that produced it.
    pub run_id: RunId,
    /// Type tag chosen by the application, such as `report` or `patch`.
    pub kind: Seq<char>,
    /// Where the bytes live.
    pub uri: Seq<char>,
    /// Any metadata.
    pub metadata: JsonView,
    /// When it was created.
    pub created_at: Timestamp,
}

impl View for Artifact {
    type V = ArtifactView;

    open spec fn view(&self) -> ArtifactView {
        ArtifactView {
            id: self.id,
            run_id: self.run_id,
            kind: self.kind@,
            uri: self.uri@,
            metadata: self.metadata@,
            created_at: self.created_at,
        }
    }
}

impl Clone for Artifact {
    fn clone(&self) -> (r: Self)
        ensures
            r@ == self@,
    {
        Artifact {
            id: self.id,
            run_id: self.run_id,
            kind: self.kind.clone(),
            uri: self.uri.clone(),
            metadata: self.metadata.clone(),
            created_at: self.created_at,
        }
    }
}

} // verus!
