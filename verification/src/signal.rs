//! Durable signals and decisions on approvals.
//!
//! A signal is a named message with a payload, delivered to a run; it is how the
//! outside world wakes a parked run. A decision on an approval is delivered as a
//! signal with a reserved name.

use vstd::prelude::*;

use crate::error::Error;
use crate::ids::RunId;
use crate::json::{Json, JsonView};
use crate::text::same_text;
use crate::time::Timestamp;

verus! {

/// The reserved name of the signal that carries a decision on an approval.
pub const APPROVAL_SIGNAL: &'static str = "__suxel_approval";

/// A durable signal delivered to a run.
#[derive(Debug)]
pub struct Signal {
    /// Target run.
    pub run_id: RunId,
    /// The name, matched against what the run waits for.
    pub name: String,
    /// Any payload.
    pub payload: Json,
    /// When it was delivered.
    pub created_at: Timestamp,
    /// Whether a driver has consumed it.
    pub consumed: bool,
}

/// The model of a [`Signal`].
pub struct SignalView {
    /// Target run.
    pub run_id: RunId,
    /// The name, matched against what the run waits for.
    pub name: Seq<char>,
    /// Any payload.
    pub payload: JsonView,
    /// When it was delivered.
    pub created_at: Timestamp,
    /// Whether a driver has consumed it.
    pub consumed: bool,
}

impl View for Signal {
    type V = SignalView;

    open spec fn view(&self) -> SignalView {
        SignalView {
            run_id: self.run_id,
            name: self.name@,
            payload: self.payload@,
            created_at: self.created_at,
            consumed: self.consumed,
        }
    }
}

impl Clone for Signal {
    fn clone(&self) -> (r: Self)
        ensures
            r@ == self@,
    {
        Signal {
            run_id: self.run_id,
            name: self.name.clone(),
            payload: self.payload.clone(),
            created_at: self.created_at,
            consumed: self.consumed,
        }
    }
}

/// A decision on an approval of one tool call.
#[derive(Clone, Copy, Debug, PartialEq, Eq, Structural)]
pub enum ApprovalDecision {
    /// Allow this one call.
    Allow,
    /// Allow this call and remember it for the rest of the run.
    AllowAlways,
    /// Deny this call.
    Deny,
}

impl ApprovalDecision {
    /// How the decision is written in a payload.
    pub open spec fn tag(self) -> Seq<char> {
        match self {
            ApprovalDecision::Allow => "allow"@,
            ApprovalDecision::AllowAlways => "allow_always"@,
            ApprovalDecision::Deny => "deny"@,
        }
    }

    /// The decision that a text stands for.
    pub open spec fn of_tag(tag: Seq<char>) -> Option<ApprovalDecision> {
        if tag == "allow"@ {
            Some(ApprovalDecision::Allow)
        } else if tag == "allow_always"@ {
            Some(ApprovalDecision::AllowAlways)
        } else if tag == "deny"@ {
            Some(ApprovalDecision::Deny)
        } else {
            None
        }
    }

    /// How the decision is written in a payload.
    pub fn to_tag(self) -> (r: &'static str)
        ensures
            r@ == self.tag(),
    {
        match self {
            ApprovalDecision::Allow => "allow",
            ApprovalDecision::AllowAlways => "allow_always",
            ApprovalDecision::Deny => "deny",
        }
    }

    /// The decision that `tag` stands for.
    pub fn from_tag(tag: &str) -> (r: Option<ApprovalDecision>)
        ensures
            r == ApprovalDecision::of_tag(tag@),
    {
        if same_text(tag, "allow") {
            Some(ApprovalDecision::Allow)
        } else if same_text(tag, "allow_always") {
            Some(ApprovalDecision::AllowAlways)
        } else if same_text(tag, "deny") {
            Some(ApprovalDecision::Deny)
        } else {
            None
        }
    }
}

impl ApprovalDecision {
    /// The decision that a document stands for.
    pub open spec fn of_doc(doc: JsonView) -> Option<ApprovalDecision> {
        match doc.unit_variant() {
            Some(tag) => ApprovalDecision::of_tag(tag),
            None => None,
        }
    }

    /// The decision that `doc` stands for.
    pub fn from_doc(doc: &Json) -> (r: Option<ApprovalDecision>)
        ensures
            r == ApprovalDecision::of_doc(doc@),
    {
        match doc.unit_variant() {
            Some(tag) => ApprovalDecision::from_tag(tag),
            None => None,
        }
    }
}

/// The answer to an approval request.
#[derive(Debug, PartialEq, Eq)]
pub struct ApprovalResolution {
    /// The tool call that the decision is on.
    pub tool_call_id: String,
    /// The decision.
    pub decision: ApprovalDecision,
}

/// The model of an [`ApprovalResolution`].
pub struct ApprovalResolutionView {
    /// The tool call that the decision is on.
    pub tool_call_id: Seq<char>,
    /// The decision.
    pub decision: ApprovalDecision,
}

impl View for ApprovalResolution {
    type V = ApprovalResolutionView;

    open spec fn view(&self) -> ApprovalResolutionView {
        ApprovalResolutionView { tool_call_id: self.tool_call_id@, decision: self.decision }
    }
}

impl ApprovalResolutionView {
    /// The payload that carries this answer:
    /// `{ "tool_call_id": .., "decision": .. }`.
    pub open spec fn payload(self) -> JsonView {
        JsonView::empty_object().with(
            "tool_call_id"@,
            JsonView::String(self.tool_call_id),
        ).with("decision"@, JsonView::String(self.decision.tag()))
    }

    /// The answer that a payload carries: an object whose member `tool_call_id` is a
    /// text and whose member `decision` is the tag of a decision. Other members do not
    /// matter.
    pub open spec fn of_payload(payload: JsonView) -> Option<ApprovalResolutionView> {
        match (payload.member_text("tool_call_id"@), payload.member("decision"@)) {
            (Some(tool_call_id), Some(value)) => match ApprovalDecision::of_doc(value) {
                Some(decision) => Some(ApprovalResolutionView { tool_call_id, decision }),
                None => None,
            },
            _ => None,
        }
    }
}

impl ApprovalResolution {
    /// The payload that carries this answer.
    pub fn to_payload(&self) -> (r: Json)
        ensures
            r@ == self@.payload(),
    {
        Json::object().with("tool_call_id", Json::String(self.tool_call_id.clone())).with(
            "decision",
            Json::string(self.decision.to_tag()),
        )
    }

    /// The answer that a payload carries; `Err` where it carries none.
    pub fn from_payload(payload: &Json) -> (r: Result<ApprovalResolution, Error>)
        ensures
            match r {
                Ok(resolution) => ApprovalResolutionView::of_payload(payload@) == Some(
                    resolution@,
                ),
                Err(e) => ApprovalResolutionView::of_payload(payload@) is None && e is Serde,
            },
    {
        match (payload.get_str("tool_call_id"), payload.get("decision")) {
            (Some(tool_call_id), Some(value)) => match ApprovalDecision::from_doc(value) {
                Some(decision) => Ok(
                    ApprovalResolution { tool_call_id: tool_call_id.to_owned(), decision },
                ),
                None => Err(Error::Serde("unknown approval decision".to_owned())),
            },
            _ => Err(Error::Serde("not an approval resolution".to_owned())),
        }
    }
}

/// An answer survives its payload: what `from_payload` reads back from what
/// `to_payload` wrote is the answer.
pub proof fn resolution_payload_round_trip(resolution: ApprovalResolutionView)
    ensures
        ApprovalResolutionView::of_payload(resolution.payload()) == Some(resolution),
{
    reveal_strlit("tool_call_id");
    reveal_strlit("decision");
    reveal_strlit("allow");
    reveal_strlit("allow_always");
    reveal_strlit("deny");
    assert("tool_call_id"@.len() != "decision"@.len());
    assert("allow"@.len() != "allow_always"@.len());
    assert("allow"@.len() != "deny"@.len());
    assert("allow_always"@.len() != "deny"@.len());
}

} // verus!
