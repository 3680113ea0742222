//! The durable sandbox lifecycle: provision once, attach again on resume, reap.

use std::cell::Cell;
use std::rc::Rc;

use suxel::driver::{Advance, AgentDriver, RunContext};
use suxel::engine::Engine;
use suxel::error::Error;
use suxel::event::EventKind;
use suxel::ids::RunId;
use suxel::json::Json;
use suxel::mem::InMemoryBackend;
use suxel::resource::{ResourceKind, ResourceStatus};
use suxel::run::{Run, RunSpec, RunStatus};
use suxel::sandbox::{
    provision_sandbox, reap_sandboxes, sandbox_resource, sandbox_resource_of, SandboxHandle,
    SandboxProvider, PROVISION_STEP,
};
use suxel::store::{EventLog, ResourceStore, StepStore};
use suxel::time::{Duration, Timestamp};

fn no_pause(_delay: Duration) {}

/// Counts what it creates and destroys.
struct MockProvider {
    created: Cell<usize>,
    destroyed: Cell<usize>,
}

impl MockProvider {
    fn new() -> Rc<Self> {
        Rc::new(MockProvider {
            created: Cell::new(0),
            destroyed: Cell::new(0),
        })
    }
}

impl SandboxProvider for MockProvider {
    fn create(&self) -> Result<SandboxHandle, String> {
        let n = self.created.get();
        self.created.set(n + 1);
        Ok(SandboxHandle::with_metadata(
            &format!("sb-{n}"),
            Json::object().with("domain", Json::string("mock.dev")),
        ))
    }
    fn destroy(&self, _sandbox_id: &str) -> Result<(), String> {
        self.destroyed.set(self.destroyed.get() + 1);
        Ok(())
    }
}

/// Provisions a sandbox, parks for a signal, then attaches again and reaps.
struct SandboxDriver {
    provider: Rc<MockProvider>,
}

impl AgentDriver<InMemoryBackend> for SandboxDriver {
    fn advance(&self, ctx: &mut RunContext<InMemoryBackend>) -> Result<Advance, Error> {
        let id = provision_sandbox(ctx, &*self.provider, no_pause)?;
        if ctx.take_signal("resume")?.is_some() {
            let held = sandbox_resource(ctx)?;
            let domain = match held.as_ref().and_then(|r| r.metadata.get("domain")) {
                Some(domain) => domain.clone(),
                None => Json::Null,
            };
            reap_sandboxes(ctx, &*self.provider)?;
            Ok(Advance::Complete {
                output: Json::object()
                    .with("sandbox", Json::string(&id))
                    .with("domain", domain),
            })
        } else {
            Ok(Advance::WaitForSignal {
                name: "resume".to_string(),
                timeout: None,
            })
        }
    }
}

fn spec(agent_type: &str) -> RunSpec {
    RunSpec {
        agent_type: agent_type.to_string(),
        ..RunSpec::default()
    }
}

#[test]
fn provisions_once_reattaches_then_reaps() {
    let provider = MockProvider::new();
    let mut engine = Engine::new(InMemoryBackend::new()).with_driver(
        "sandboxed",
        SandboxDriver {
            provider: provider.clone(),
        },
    );
    let id = engine.create_run(spec("sandboxed")).unwrap();

    assert!(engine.run_until_idle("w", 1000).unwrap());
    assert_eq!(provider.created.get(), 1);

    engine.signal(id, "resume", Json::object()).unwrap();
    assert!(engine.run_until_idle("w", 1000).unwrap());

    let run = engine.get_run(id).unwrap();
    assert_eq!(run.status, RunStatus::Completed);
    let output = run.output.unwrap();
    assert_eq!(output.get_str("sandbox"), Some("sb-0"));
    assert_eq!(output.get_str("domain"), Some("mock.dev"));
    assert_eq!(
        provider.created.get(),
        1,
        "sandbox was created more than once"
    );
    assert_eq!(provider.destroyed.get(), 1, "sandbox was not reaped");
    let resources = engine.backend().list_resources(id).unwrap();
    assert_eq!(resources.len(), 1);
    assert_eq!(resources[0].status, ResourceStatus::Released);
}

/// Cannot destroy anything.
struct FailingDestroyProvider {
    destroy_attempts: Cell<usize>,
}

impl SandboxProvider for FailingDestroyProvider {
    fn create(&self) -> Result<SandboxHandle, String> {
        Ok(SandboxHandle::with_metadata(
            "sb-x",
            Json::object().with("domain", Json::string("mock.dev")),
        ))
    }
    fn destroy(&self, _sandbox_id: &str) -> Result<(), String> {
        self.destroy_attempts.set(self.destroy_attempts.get() + 1);
        Err("destroy failed".to_string())
    }
}

struct ReapDriver {
    provider: Rc<FailingDestroyProvider>,
}

impl AgentDriver<InMemoryBackend> for ReapDriver {
    fn advance(&self, ctx: &mut RunContext<InMemoryBackend>) -> Result<Advance, Error> {
        provision_sandbox(ctx, &*self.provider, no_pause)?;
        reap_sandboxes(ctx, &*self.provider)?;
        Ok(Advance::Complete {
            output: Json::object(),
        })
    }
}

#[test]
fn reap_keeps_lease_when_destroy_fails() {
    let provider = Rc::new(FailingDestroyProvider {
        destroy_attempts: Cell::new(0),
    });
    let mut engine = Engine::new(InMemoryBackend::new()).with_driver(
        "reap",
        ReapDriver {
            provider: provider.clone(),
        },
    );
    let id = engine.create_run(spec("reap")).unwrap();
    assert!(engine.run_until_idle("w", 1000).unwrap());

    assert_eq!(
        provider.destroy_attempts.get(),
        1,
        "reap must attempt destroy"
    );
    let resources = engine.backend().list_resources(id).unwrap();
    assert_eq!(resources.len(), 1);
    assert_eq!(resources[0].status, ResourceStatus::Active);
    assert_eq!(resources[0].metadata.get_str("sandbox_id"), Some("sb-x"));
}

#[test]
fn sandbox_resource_of_reads_a_runs_lease() {
    let provider = MockProvider::new();
    let mut engine = Engine::new(InMemoryBackend::new()).with_driver(
        "sandboxed",
        SandboxDriver {
            provider: provider.clone(),
        },
    );
    let id = engine.create_run(spec("sandboxed")).unwrap();
    assert!(engine.run_until_idle("w", 1000).unwrap());

    let res = sandbox_resource_of(engine.backend(), id)
        .unwrap()
        .expect("a code sandbox is leased to the run");
    assert_eq!(res.metadata.get_str("sandbox_id"), Some("sb-0"));
    assert_eq!(res.metadata.get_str("domain"), Some("mock.dev"));

    let other = RunId { value: 5 };
    assert!(sandbox_resource_of(engine.backend(), other).unwrap().is_none());
}

fn context() -> RunContext<InMemoryBackend> {
    let run = Run::from_spec_with_id(spec("s"), RunId { value: 9 }, Timestamp { nanos: 0 });
    RunContext::new(InMemoryBackend::new(), run, false)
}

#[test]
fn a_journaled_sandbox_is_not_created_again() {
    let provider = MockProvider::new();
    let mut ctx = context();
    assert_eq!(
        provision_sandbox(&mut ctx, &*provider, no_pause).unwrap(),
        "sb-0"
    );
    reap_sandboxes(&mut ctx, &*provider).unwrap();
    assert!(sandbox_resource(&ctx).unwrap().is_none());
    // The creation is memoized, so the id is that of the sandbox that was destroyed.
    assert_eq!(
        provision_sandbox(&mut ctx, &*provider, no_pause).unwrap(),
        "sb-0"
    );
    assert_eq!(provider.created.get(), 1);
}

#[test]
fn a_sandbox_without_an_id_is_neither_attached_to_nor_reaped() {
    let provider = MockProvider::new();
    let mut ctx = context();
    ctx.lease_resource(ResourceKind::CodeSandbox, Json::object(), None)
        .unwrap();
    ctx.lease_resource(
        ResourceKind::BrowserSession,
        Json::object().with("sandbox_id", Json::string("sb-9")),
        None,
    )
    .unwrap();
    reap_sandboxes(&mut ctx, &*provider).unwrap();
    assert_eq!(provider.destroyed.get(), 0);
    assert_eq!(
        provision_sandbox(&mut ctx, &*provider, no_pause).unwrap(),
        "sb-0"
    );
    assert_eq!(ctx.resources().unwrap().len(), 3);
}

/// Never gets a sandbox.
struct EmptyProvider {
    asked: Cell<usize>,
}

impl SandboxProvider for EmptyProvider {
    fn create(&self) -> Result<SandboxHandle, String> {
        self.asked.set(self.asked.get() + 1);
        Err("quota".to_string())
    }
    fn destroy(&self, _sandbox_id: &str) -> Result<(), String> {
        Ok(())
    }
}

#[test]
fn a_creation_that_fails_is_tried_three_times_and_leases_nothing() {
    let provider = EmptyProvider {
        asked: Cell::new(0),
    };
    let mut ctx = context();
    let error = provision_sandbox(&mut ctx, &provider, no_pause).unwrap_err();
    assert_eq!(
        error.message(),
        "step \"provision_sandbox\" exhausted after 3 attempts: quota"
    );
    assert_eq!(provider.asked.get(), 3);
    assert!(ctx.resources().unwrap().is_empty());
    assert!(provider.keepalive("sb").is_ok());
    assert!(ctx
        .backend()
        .lookup_step(ctx.run_id(), PROVISION_STEP)
        .unwrap()
        .unwrap()
        .output
        .is_none());
}

#[test]
fn a_handle_is_journaled_and_read_back() {
    let handle = SandboxHandle::with_metadata(
        "sb-1",
        Json::object().with("domain", Json::string("d")),
    );
    let again = SandboxHandle::from_journal(&handle.to_journal()).unwrap();
    assert_eq!(again.id, "sb-1");
    assert_eq!(again.metadata.get_str("domain"), Some("d"));
    let bare = SandboxHandle::from_journal(&Json::object().with("id", Json::string("x"))).unwrap();
    assert!(matches!(bare.metadata, Json::Null));
    assert!(matches!(SandboxHandle::new("y").metadata, Json::Null));
    assert!(matches!(
        SandboxHandle::from_journal(&Json::object()),
        Err(Error::Serde(_))
    ));
}

/// Creates nothing, and destroys only the sandboxes in its list.
struct Stubborn {
    tried: Cell<usize>,
    lets_go: Vec<String>,
}

impl SandboxProvider for Stubborn {
    fn create(&self) -> Result<SandboxHandle, String> {
        self.tried.set(self.tried.get() + 1);
        Err(format!("no room {}", self.tried.get()))
    }
    fn destroy(&self, sandbox_id: &str) -> Result<(), String> {
        if self.lets_go.iter().any(|id| id == sandbox_id) {
            Ok(())
        } else {
            Err("busy".to_string())
        }
    }
}

#[test]
fn a_creation_that_keeps_failing_leases_nothing() {
    let mut ctx = context();
    let provider = Stubborn {
        tried: Cell::new(0),
        lets_go: vec![],
    };
    let error = provision_sandbox(&mut ctx, &provider, no_pause).unwrap_err();
    assert!(matches!(
        error,
        Error::StepExhausted { key, attempts: 3, message }
            if key == PROVISION_STEP && message == "no room 3"
    ));
    assert_eq!(provider.tried.get(), 3);
    assert!(ctx.resources().unwrap().is_empty());
}

#[test]
fn reaping_logs_what_it_releases_and_nothing_else() {
    let mut ctx = context();
    for name in ["a", "b", "c"] {
        let metadata = Json::object().with("sandbox_id", Json::string(name));
        ctx.lease_resource(ResourceKind::CodeSandbox, metadata, None)
            .unwrap();
    }
    let shell = ctx
        .lease_resource(ResourceKind::ShellSession, Json::object(), None)
        .unwrap();
    let before = ctx.backend().read(ctx.run_id(), 0).unwrap().len();
    let provider = Stubborn {
        tried: Cell::new(0),
        lets_go: vec!["a".to_string(), "c".to_string()],
    };
    reap_sandboxes(&mut ctx, &provider).unwrap();
    for held in ctx.resources().unwrap() {
        let gone = matches!(held.metadata.get_str("sandbox_id"), Some("a") | Some("c"));
        let wanted = if gone {
            ResourceStatus::Released
        } else {
            ResourceStatus::Active
        };
        assert_eq!(held.status, wanted);
        assert!(!(held.id == shell && gone));
    }
    let log = ctx.backend().read(ctx.run_id(), 0).unwrap();
    assert_eq!(log.len(), before + 2);
    for event in &log[before..] {
        assert_eq!(event.kind, EventKind::ResourceReleased);
    }
}
