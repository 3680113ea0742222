//! The append-only log of orchestration events.
//!
//! These are the runtime's own events, not the chat transcript: that lives in
//! the agent framework's session, to which a run's `session_ref` points.

use vstd::prelude::*;

use crate::ids::RunId;
use crate::json::{Json, JsonView};
use crate::time::Timestamp;

verus! {

/// The kind of an orchestration event.
#[derive(Clone, Copy, Debug, PartialEq, Eq, Structural)]
pub enum EventKind {
    /// A run was created.
    RunCreated,
    /// A durable step began to execute.
    StepStarted,
    /// A durable step completed and its result was journaled.
    StepCompleted,
    /// A durable step used up its attempts.
    StepFailed,
    /// A tool call was recorded.
    ToolCallRecorded,
    /// The run parked until a human approves.
    ApprovalRequested,
    /// A decision on an approval arrived.
    ApprovalResolved,
    /// A signal was delivered to the run.
    SignalReceived,
    /// A timer was set.
    TimerSet,
    /// A timer fired.
    TimerFired,
    /// A resource was leased.
    ResourceLeased,
    /// A resource lease was released.
    ResourceReleased,
    /// Child runs were spawned.
    ChildRunSpawned,
    /// A child run reached a final state (reported to the parent).
    ChildRunFinished,
    /// An artifact was produced.
    ArtifactCreated,
    /// The run completed.
    RunCompleted,
    /// The run failed.
    RunFailed,
    /// The run was cancelled.
    RunCancelled,
}

/// One entry of a run's event log.
#[derive(Debug)]
pub struct Event {
    /// The run this event belongs to.
    pub run_id: RunId,
    /// Sequence number within the run, counted from 1.
    pub seq: u64,
    /// The event kind.
    pub kind: EventKind,
    /// Payload; its shape goes with the kind.
    pub payload: Json,
    /// When the event was recorded.
    pub at: Timestamp,
}

/// The model of an [`Event`].
pub struct EventView {
    /// The run this event belongs to.
    pub run_id: RunId,
    /// Sequence number within the run, counted from 1.
    pub seq: nat,
    /// The event kind.
    pub kind: EventKind,
    /// Payload; its shape goes with the kind.
    pub payload: JsonView,
    /// When the event was recorded.
    pub at: Timestamp,
}

impl View for Event {
    type V = EventView;

    open spec fn view(&self) -> EventView {
        EventView {
            run_id: self.run_id,
            seq: self.seq as nat,
            kind: self.kind,
            payload: self.payload@,
            at: self.at,
        }
    }
}

impl Clone for Event {
    fn clone(&self) -> (r: Self)
        ensures
            r@ == self@,
    {
        Event {
            run_id: self.run_id,
            seq: self.seq,
            kind: self.kind,
            payload: self.payload.clone(),
            at: self.at,
        }
    }
}

} // verus!
