//! Workers that fail, race or are late.
//!
//! The backend is shared: what one worker does while the turn of another is under way
//! is done through a second engine on the same store.

use std::cell::{Cell, RefCell};
use std::rc::Rc;

use suxel::artifact::Artifact;
use suxel::driver::{Advance, AgentDriver, ChildSpec, RunContext};
use suxel::engine::Engine;
use suxel::error::Error;
use suxel::event::{Event, EventKind};
use suxel::ids::{ResourceId, RunId};
use suxel::json::Json;
use suxel::mem::InMemoryBackend;
use suxel::resource::Resource;
use suxel::run::{JoinMode, Run, RunSpec, RunStatus};
use suxel::signal::Signal;
use suxel::step::StepRecord;
use suxel::store::{
    ArtifactStore, Clock, EventLog, Lease, Queue, ResourceStore, RunStore, SignalStore, StepStore,
    Store, StoreModel,
};
use suxel::time::{Duration, Timestamp};

/// A backend in memory that several engines share, with a clock that stands still until
/// it is moved, and an `update_run` that can be made to fail.
#[derive(Clone)]
struct Shared {
    inner: Rc<RefCell<InMemoryBackend>>,
    clock: Rc<Cell<i128>>,
    fail_update: Rc<Cell<bool>>,
}

impl Shared {
    fn new() -> Self {
        Shared {
            inner: Rc::new(RefCell::new(InMemoryBackend::new())),
            clock: Rc::new(Cell::new(1_750_000_000_000_000_000)),
            fail_update: Rc::new(Cell::new(false)),
        }
    }

    fn sleep_millis(&self, millis: i128) {
        self.clock.set(self.clock.get() + millis * 1_000_000);
    }

    fn status(&self, id: RunId) -> RunStatus {
        self.get_run(id).unwrap().status
    }
}

impl StoreModel for Shared {
    fn store(&self) -> Store {
        unreachable!()
    }
    fn reliable(&self) -> bool {
        unreachable!()
    }
    fn inv(&self) -> bool {
        unreachable!()
    }
    fn inv_gives_wf(&self) {}
}

impl RunStore for Shared {
    fn create_run(&mut self, run: &Run) -> Result<(), Error> {
        self.inner.borrow_mut().create_run(run)
    }
    fn get_run(&self, id: RunId) -> Result<Run, Error> {
        self.inner.borrow().get_run(id)
    }
    fn update_run(&mut self, run: &Run) -> Result<(), Error> {
        if self.fail_update.get() {
            return Err(Error::storage("injected update_run failure".to_string()));
        }
        self.inner.borrow_mut().update_run(run)
    }
    fn list_children(&self, parent: RunId) -> Result<Vec<Run>, Error> {
        self.inner.borrow().list_children(parent)
    }
    fn try_acquire_run(
        &mut self,
        id: RunId,
        lease_ttl: Duration,
        now: Timestamp,
    ) -> Result<bool, Error> {
        self.inner.borrow_mut().try_acquire_run(id, lease_ttl, now)
    }
    fn release_run(&mut self, id: RunId) -> Result<(), Error> {
        self.inner.borrow_mut().release_run(id)
    }
}

impl EventLog for Shared {
    fn append(
        &mut self,
        run_id: RunId,
        kind: EventKind,
        payload: Json,
        at: Timestamp,
    ) -> Result<u64, Error> {
        self.inner.borrow_mut().append(run_id, kind, payload, at)
    }
    fn read(&self, run_id: RunId, from_seq: u64) -> Result<Vec<Event>, Error> {
        self.inner.borrow().read(run_id, from_seq)
    }
}

impl StepStore for Shared {
    fn lookup_step(&self, run_id: RunId, key: &str) -> Result<Option<StepRecord>, Error> {
        self.inner.borrow().lookup_step(run_id, key)
    }
    fn record_step(&mut self, record: &StepRecord) -> Result<(), Error> {
        self.inner.borrow_mut().record_step(record)
    }
}

impl Queue for Shared {
    fn enqueue(&mut self, entry_id: u128, run_id: RunId, ready_at: Timestamp) -> Result<(), Error> {
        self.inner.borrow_mut().enqueue(entry_id, run_id, ready_at)
    }
    fn claim(
        &mut self,
        worker_id: &str,
        lease_ttl: Duration,
        now: Timestamp,
    ) -> Result<Option<Lease<RunId>>, Error> {
        self.inner.borrow_mut().claim(worker_id, lease_ttl, now)
    }
    fn ack(&mut self, lease: &Lease<RunId>) -> Result<(), Error> {
        self.inner.borrow_mut().ack(lease)
    }
}

impl SignalStore for Shared {
    fn deliver(
        &mut self,
        run_id: RunId,
        name: &str,
        payload: Json,
        at: Timestamp,
    ) -> Result<(), Error> {
        self.inner.borrow_mut().deliver(run_id, name, payload, at)
    }
    fn take_signal(&mut self, run_id: RunId, name: &str) -> Result<Option<Signal>, Error> {
        self.inner.borrow_mut().take_signal(run_id, name)
    }
    fn has_unconsumed(&self, run_id: RunId, name: &str) -> Result<bool, Error> {
        self.inner.borrow().has_unconsumed(run_id, name)
    }
}

impl ResourceStore for Shared {
    fn lease_resource(&mut self, resource: &Resource) -> Result<(), Error> {
        self.inner.borrow_mut().lease_resource(resource)
    }
    fn heartbeat(&mut self, id: ResourceId, expires_at: Timestamp) -> Result<(), Error> {
        self.inner.borrow_mut().heartbeat(id, expires_at)
    }
    fn release_resource(&mut self, id: ResourceId) -> Result<(), Error> {
        self.inner.borrow_mut().release_resource(id)
    }
    fn list_resources(&self, run_id: RunId) -> Result<Vec<Resource>, Error> {
        self.inner.borrow().list_resources(run_id)
    }
}

impl ArtifactStore for Shared {
    fn put_artifact(&mut self, artifact: &Artifact) -> Result<(), Error> {
        self.inner.borrow_mut().put_artifact(artifact)
    }
    fn list_artifacts(&self, run_id: RunId) -> Result<Vec<Artifact>, Error> {
        self.inner.borrow().list_artifacts(run_id)
    }
}

impl Clock for Shared {
    fn now(&self) -> Timestamp {
        Timestamp {
            nanos: self.clock.get(),
        }
    }
}

struct Boxed(Box<dyn AgentDriver<Shared>>);

impl AgentDriver<Shared> for Boxed {
    fn advance(&self, ctx: &mut RunContext<Shared>) -> Result<Advance, Error> {
        self.0.advance(ctx)
    }
}

fn boxed(driver: impl AgentDriver<Shared> + 'static) -> Boxed {
    Boxed(Box::new(driver))
}

fn spec(agent_type: &str) -> RunSpec {
    RunSpec {
        agent_type: agent_type.to_string(),
        ..RunSpec::default()
    }
}

fn millis(n: u128) -> Duration {
    Duration {
        nanos: n * 1_000_000,
    }
}

/// Completes immediately.
struct DoneDriver;

impl AgentDriver<Shared> for DoneDriver {
    fn advance(&self, _ctx: &mut RunContext<Shared>) -> Result<Advance, Error> {
        Ok(Advance::Complete {
            output: Json::object(),
        })
    }
}

#[test]
fn process_error_surfaces_and_run_redelivers() {
    let backend = Shared::new();
    let mut engine = Engine::new(backend.clone())
        .with_driver("done", boxed(DoneDriver))
        .with_lease_ttl(millis(80));
    let id = engine.create_run(spec("done")).unwrap();

    backend.fail_update.set(true);
    assert!(
        engine.run_until_idle("w", 1000).is_err(),
        "a processing error must surface, not report idle"
    );
    assert_ne!(backend.status(id), RunStatus::Completed);

    // The claim is still leased: once it expires the run is delivered again.
    backend.fail_update.set(false);
    assert!(!engine.tick("w").unwrap());
    backend.sleep_millis(130);
    assert!(engine.run_until_idle("w", 1000).unwrap());
    assert_eq!(backend.status(id), RunStatus::Completed);
}

/// Counts its entries and, within the turn, lets a second worker tick.
struct SlowCountingDriver {
    entered: Rc<Cell<usize>>,
    rival: Shared,
}

impl AgentDriver<Shared> for SlowCountingDriver {
    fn advance(&self, _ctx: &mut RunContext<Shared>) -> Result<Advance, Error> {
        self.entered.set(self.entered.get() + 1);
        self.rival.sleep_millis(30);
        let mut second = Engine::new(self.rival.clone()).with_driver(
            "slow",
            boxed(Overlap {
                entered: self.entered.clone(),
            }),
        );
        second.tick("B").unwrap();
        self.rival.sleep_millis(30);
        Ok(Advance::Complete {
            output: Json::object(),
        })
    }
}

/// What the second worker would run, were it let in.
struct Overlap {
    entered: Rc<Cell<usize>>,
}

impl AgentDriver<Shared> for Overlap {
    fn advance(&self, _ctx: &mut RunContext<Shared>) -> Result<Advance, Error> {
        self.entered.set(self.entered.get() + 1);
        Ok(Advance::Complete {
            output: Json::object(),
        })
    }
}

#[test]
fn fence_prevents_concurrent_double_advance() {
    let mut backend = Shared::new();
    let entered = Rc::new(Cell::new(0));
    let mut engine = Engine::new(backend.clone()).with_driver(
        "slow",
        boxed(SlowCountingDriver {
            entered: entered.clone(),
            rival: backend.clone(),
        }),
    );
    let id = engine.create_run(spec("slow")).unwrap();
    // A second ready entry for the same run.
    let now = backend.now();
    backend.enqueue(7, id, now).unwrap();

    assert!(engine.tick("A").unwrap());

    assert_eq!(
        entered.get(),
        1,
        "the run was advanced by two workers concurrently"
    );
    assert_eq!(backend.status(id), RunStatus::Completed);
}

/// Waits on a signal; while its turn is under way, the signal is delivered.
struct SlowSignalWaitDriver {
    rival: Shared,
    delivered: Cell<bool>,
}

impl AgentDriver<Shared> for SlowSignalWaitDriver {
    fn advance(&self, ctx: &mut RunContext<Shared>) -> Result<Advance, Error> {
        if ctx.take_signal("go")?.is_some() {
            return Ok(Advance::Complete {
                output: Json::object(),
            });
        }
        assert!(!self.delivered.replace(true));
        let mut sender: Engine<Shared, Boxed> = Engine::new(self.rival.clone());
        assert_eq!(self.rival.status(ctx.run_id()), RunStatus::Running);
        sender.signal(ctx.run_id(), "go", Json::object()).unwrap();
        assert_eq!(self.rival.status(ctx.run_id()), RunStatus::Running);
        Ok(Advance::WaitForSignal {
            name: "go".to_string(),
            timeout: None,
        })
    }
}

#[test]
fn signal_delivered_during_running_is_not_lost() {
    let backend = Shared::new();
    let mut engine = Engine::new(backend.clone()).with_driver(
        "wait",
        boxed(SlowSignalWaitDriver {
            rival: backend.clone(),
            delivered: Cell::new(false),
        }),
    );
    let id = engine.create_run(spec("wait")).unwrap();
    assert!(engine.run_until_idle("w", 1000).unwrap());
    assert_eq!(backend.status(id), RunStatus::Completed);
}

/// Waits on a signal with a timeout; fails distinctly when the timeout fires.
struct TimeoutDriver;

impl AgentDriver<Shared> for TimeoutDriver {
    fn advance(&self, ctx: &mut RunContext<Shared>) -> Result<Advance, Error> {
        if ctx.take_signal("go")?.is_some() {
            return Ok(Advance::Complete {
                output: Json::object().with("got", Json::string("signal")),
            });
        }
        if ctx.timed_out() {
            return Ok(Advance::Fail {
                error: "signal timed out".to_string(),
                retry: false,
            });
        }
        Ok(Advance::WaitForSignal {
            name: "go".to_string(),
            timeout: Some(millis(40)),
        })
    }
}

#[test]
fn wait_for_signal_timeout_resumes_as_timed_out() {
    let backend = Shared::new();
    let mut engine = Engine::new(backend.clone()).with_driver("t", boxed(TimeoutDriver));
    let id = engine.create_run(spec("t")).unwrap();

    assert!(engine.run_until_idle("w", 1000).unwrap());
    assert_eq!(backend.status(id), RunStatus::WaitingSignal);

    backend.sleep_millis(60);
    assert!(engine.run_until_idle("w", 1000).unwrap());
    let run = backend.get_run(id).unwrap();
    assert_eq!(run.status, RunStatus::Failed);
    assert_eq!(run.error.as_deref(), Some("signal timed out"));
}

#[test]
fn a_signal_before_the_timeout_is_received() {
    let backend = Shared::new();
    let mut engine = Engine::new(backend.clone()).with_driver("t", boxed(TimeoutDriver));
    let id = engine.create_run(spec("t")).unwrap();
    assert!(engine.run_until_idle("w", 1000).unwrap());
    backend.sleep_millis(39);
    engine.signal(id, "go", Json::object()).unwrap();
    assert!(engine.run_until_idle("w", 1000).unwrap());
    let run = backend.get_run(id).unwrap();
    assert_eq!(run.status, RunStatus::Completed);
    assert_eq!(run.output.unwrap().get_str("got"), Some("signal"));
}

/// Spawns one child of `child`, joins all, then completes.
struct Spawner {
    child: String,
}

impl AgentDriver<Shared> for Spawner {
    fn advance(&self, ctx: &mut RunContext<Shared>) -> Result<Advance, Error> {
        if ctx.children()?.is_empty() {
            Ok(Advance::SpawnChildren {
                specs: vec![ChildSpec {
                    agent_type: self.child.clone(),
                    ..ChildSpec::default()
                }],
                join: JoinMode::All,
            })
        } else {
            Ok(Advance::Complete {
                output: Json::object(),
            })
        }
    }
}

/// Parks forever on a signal that never arrives.
struct Parker;

impl AgentDriver<Shared> for Parker {
    fn advance(&self, _ctx: &mut RunContext<Shared>) -> Result<Advance, Error> {
        Ok(Advance::WaitForSignal {
            name: "never".to_string(),
            timeout: None,
        })
    }
}

#[test]
fn cancel_propagates_up_a_deep_tree() {
    let backend = Shared::new();
    let mut engine = Engine::new(backend.clone())
        .with_driver(
            "top",
            boxed(Spawner {
                child: "mid".to_string(),
            }),
        )
        .with_driver(
            "mid",
            boxed(Spawner {
                child: "leaf".to_string(),
            }),
        )
        .with_driver("leaf", boxed(Parker));
    let top = engine.create_run(spec("top")).unwrap();
    assert!(engine.run_until_idle("w", 1000).unwrap());

    let mid = backend.list_children(top).unwrap()[0].id;
    let leaf = backend.list_children(mid).unwrap()[0].id;
    assert_eq!(backend.status(leaf), RunStatus::WaitingSignal);

    engine.cancel(leaf).unwrap();
    assert!(engine.run_until_idle("w", 1000).unwrap());

    assert_eq!(backend.status(leaf), RunStatus::Cancelled);
    assert_eq!(backend.status(mid), RunStatus::Completed);
    assert_eq!(backend.status(top), RunStatus::Completed);
}

#[test]
fn a_worker_works_rests_or_backs_off() {
    let backend = Shared::new();
    let mut engine = Engine::new(backend.clone())
        .with_driver("done", boxed(DoneDriver))
        .with_poll_interval(millis(25));
    assert_eq!(engine.poll_interval(), millis(25));
    let rest = engine.worker_round("w");
    assert_eq!(rest.pause, Some(millis(25)));
    assert!(rest.error.is_none());
    let id = engine.create_run(spec("done")).unwrap();
    let work = engine.worker_round("w");
    assert!(work.pause.is_none());
    assert!(work.error.is_none());
    assert_eq!(backend.status(id), RunStatus::Completed);

    engine.create_run(spec("done")).unwrap();
    backend.fail_update.set(true);
    let failure = engine.worker_round("w");
    assert_eq!(failure.pause, Some(millis(25)));
    assert_eq!(
        failure.error.unwrap().message(),
        "storage: injected update_run failure"
    );
}
