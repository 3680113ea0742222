//! Leased resources: what a run owns while it executes, such as a cloud sandbox
//! or a browser session.
//!
//! The runtime owns the lifecycle (provision, heartbeat, re-attach, reap); the
//! agent framework owns the interface that the agent uses.

use vstd::prelude::*;

use crate::ids::{ResourceId, RunId};
use crate::json::{Json, JsonView};
use crate::time::Timestamp;

verus! {

/// The class of a leased resource.
#[derive(Clone, Copy, Debug, PartialEq, Eq, Structural)]
pub enum ResourceKind {
    /// A cloud sandbox that executes code.
    CodeSandbox,
    /// A shell session.
    ShellSession,
    /// A remote browser session.
    BrowserSession,
    /// A working directory.
    FileWorkspace,
    /// A database connection.
    DatabaseConnection,
    /// A session of an external API.
    ExternalApi,
    /// A pending gate for human approval.
    HumanApproval,
    /// Anything else.
    Other,
}

impl ResourceKind {
    /// How the class is written in a payload.
    pub open spec fn tag(self) -> Seq<char> {
        match self {
            ResourceKind::CodeSandbox => "code_sandbox"@,
            ResourceKind::ShellSession => "shell_session"@,
            ResourceKind::BrowserSession => "browser_session"@,
            ResourceKind::FileWorkspace => "file_workspace"@,
            ResourceKind::DatabaseConnection => "database_connection"@,
            ResourceKind::ExternalApi => "external_api"@,
            ResourceKind::HumanApproval => "human_approval"@,
            ResourceKind::Other => "other"@,
        }
    }

    /// How the class is written in a payload.
    pub fn to_tag(self) -> (r: &'static str)
        ensures
            r@ == self.tag(),
    {
        match self {
            ResourceKind::CodeSandbox => "code_sandbox",
            ResourceKind::ShellSession => "shell_session",
            ResourceKind::BrowserSession => "browser_session",
            ResourceKind::FileWorkspace => "file_workspace",
            ResourceKind::DatabaseConnection => "database_connection",
            ResourceKind::ExternalApi => "external_api",
            ResourceKind::HumanApproval => "human_approval",
            ResourceKind::Other => "other",
        }
    }
}

/// Lease state of a resource.
#[derive(Clone, Copy, Debug, PartialEq, Eq, Structural)]
pub enum ResourceStatus {
    /// Held by the run.
    Active,
    /// Released cleanly.
    Released,
    /// The lease expired.
    Expired,
}

/// A resource leased to a run.
#[derive(Debug)]
pub struct Resource {
    /// Unique id.
    pub id: ResourceId,
    /// Owning run.
    pub run_id: RunId,
    /// Resource class.
    pub kind: ResourceKind,
    /// Lease state.
    pub status: ResourceStatus,
    /// The provider's handle, such as `{ "sandbox_id": "..." }`.
    pub metadata: Json,
    /// When the lease expires; `None` for never.
    pub lease_expires_at: Option<Timestamp>,
    /// When it was leased.
    pub created_at: Timestamp,
}

/// The model of a [`Resource`].
pub struct ResourceView {
    /// Unique id.
    pub id: ResourceId,
    /// Owning run.
    pub run_id: RunId,
    /// Resource class.
    pub kind: ResourceKind,
    /// Lease state.
    pub status: ResourceStatus,
    /// The provider's handle, such as `{ "sandbox_id": "..." }`.
    pub metadata: JsonView,
    /// When the lease expires; `None` for never.
    pub lease_expires_at: Option<Timestamp>,
    /// When it was leased.
    pub created_at: Timestamp,
}

impl View for Resource {
    type V = ResourceView;

    open spec fn view(&self) -> ResourceView {
        ResourceView {
            id: self.id,
            run_id: self.run_id,
            kind: self.kind,
            status: self.status,
            metadata: self.metadata@,
            lease_expires_at: self.lease_expires_at,
            created_at: self.created_at,
        }
    }
}

impl Clone for Resource {
    fn clone(&self) -> (r: Self)
        ensures
            r@ == self@,
    {
        Resource {
            id: self.id,
            run_id: self.run_id,
            kind: self.kind,
            status: self.status,
            metadata: self.metadata.clone(),
            lease_expires_at: self.lease_expires_at,
            created_at: self.created_at,
        }
    }
}

} // verus!
