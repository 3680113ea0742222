//! What holds of the store and the engine as a whole, on concrete values.

use std::cell::{Cell, RefCell};
use std::rc::Rc;

use suxel::budget::{Budget, BudgetUsage, Usd};
use suxel::decide::FreshIds;
use suxel::driver::{Advance, AgentDriver, ApprovalRequest, ChildSpec, RunContext};
use suxel::engine::{settle_turn, Engine};
use suxel::error::Error;
use suxel::event::EventKind;
use suxel::ids::RunId;
use suxel::json::Json;
use suxel::look::look_again;
use suxel::mem::InMemoryBackend;
use suxel::resource::{ResourceKind, ResourceStatus};
use suxel::run::{JoinMode, Run, RunSpec, RunStatus, Wait};
use suxel::signal::{ApprovalDecision, ApprovalResolution};
use suxel::step::{RetryPolicy, StepStatus};
use suxel::store::{EventLog, Queue, ResourceStore, RunStore, SignalStore, StepStore};
use suxel::time::{Duration, Timestamp};

const T: Timestamp = Timestamp {
    nanos: 1_000_000_000,
};

fn at(nanos: i128) -> Timestamp {
    Timestamp { nanos }
}

fn span(nanos: u128) -> Duration {
    Duration { nanos }
}

fn spec(agent_type: &str) -> RunSpec {
    RunSpec {
        agent_type: agent_type.to_string(),
        ..RunSpec::default()
    }
}

fn id(value: u128) -> RunId {
    RunId { value }
}

/// Does what the script says, turn by turn, and notes each turn.
#[derive(Clone)]
struct Script {
    turns: Rc<RefCell<Vec<Advance>>>,
    taken: Rc<Cell<u32>>,
}

impl Script {
    fn new(turns: Vec<Advance>) -> Self {
        Script {
            turns: Rc::new(RefCell::new(turns)),
            taken: Rc::new(Cell::new(0)),
        }
    }
}

impl AgentDriver<InMemoryBackend> for Script {
    fn advance(&self, _ctx: &mut RunContext<InMemoryBackend>) -> Result<Advance, Error> {
        self.taken.set(self.taken.get() + 1);
        Ok(self.turns.borrow_mut().remove(0))
    }
}

fn complete() -> Advance {
    Advance::Complete {
        output: Json::object(),
    }
}

fn wait_for(name: &str) -> Advance {
    Advance::WaitForSignal {
        name: name.to_string(),
        timeout: None,
    }
}

type TestEngine = Engine<InMemoryBackend, Script>;

fn engine(agent_type: &str, turns: Vec<Advance>) -> TestEngine {
    Engine::new(InMemoryBackend::new()).with_driver(agent_type, Script::new(turns))
}

fn kinds(engine: &TestEngine, run: RunId) -> Vec<EventKind> {
    let events = engine.backend().read(run, 0).unwrap();
    events.iter().map(|e| e.kind).collect()
}

// ---- the log -------------------------------------------------------------------

#[test]
fn reading_resumes_anywhere() {
    let mut backend = InMemoryBackend::new();
    for kind in [
        EventKind::RunCreated,
        EventKind::TimerSet,
        EventKind::RunFailed,
    ] {
        backend.append(id(1), kind, Json::Null, T).unwrap();
    }
    let seqs = |from: u64| -> Vec<u64> {
        let events = backend.read(id(1), from).unwrap();
        events.iter().map(|e| e.seq).collect()
    };
    assert_eq!(seqs(0), vec![1, 2, 3]);
    assert_eq!(seqs(1), vec![2, 3]);
    assert_eq!(seqs(3), Vec::<u64>::new());
    assert_eq!(seqs(u64::MAX), Vec::<u64>::new());
    assert!(backend.read(id(2), 0).unwrap().is_empty());
}

#[test]
fn the_log_is_append_only() {
    let mut engine = engine("s", vec![wait_for("go"), complete()]);
    let run = engine.create_run(spec("s")).unwrap();
    let mut seen = kinds(&engine, run);
    assert_eq!(seen, vec![EventKind::RunCreated]);
    assert!(engine.run_until_idle("w", 10).unwrap());
    engine.signal(run, "go", Json::Null).unwrap();
    assert!(engine.run_until_idle("w", 10).unwrap());
    let now = kinds(&engine, run);
    assert!(now.starts_with(&seen));
    seen = now;
    engine.cancel(run).unwrap();
    assert_eq!(kinds(&engine, run), seen);
    assert_eq!(*seen.last().unwrap(), EventKind::RunCompleted);
}

// ---- runs ----------------------------------------------------------------------

#[test]
fn a_run_is_found_once_it_is_created() {
    let mut backend = InMemoryBackend::new();
    let run = Run::from_spec_with_id(spec("a"), id(1), T);
    assert!(matches!(backend.get_run(id(1)), Err(Error::RunNotFound(_))));
    assert!(matches!(
        backend.update_run(&run),
        Err(Error::RunNotFound(_))
    ));
    backend.create_run(&run).unwrap();
    assert_eq!(backend.get_run(id(1)).unwrap().agent_type, "a");
    let mut changed = run.clone();
    changed.status = RunStatus::Failed;
    backend.update_run(&changed).unwrap();
    assert_eq!(backend.get_run(id(1)).unwrap().status, RunStatus::Failed);
}

#[test]
fn children_are_listed_by_creation() {
    let mut backend = InMemoryBackend::new();
    for (value, nanos) in [(5u128, 30), (6, 10), (7, 20)] {
        let mut run = Run::from_spec_with_id(spec("a"), id(value), at(nanos));
        run.parent_id = Some(id(1));
        backend.create_run(&run).unwrap();
    }
    let kids = backend.list_children(id(1)).unwrap();
    let order: Vec<u128> = kids.iter().map(|k| k.id.value).collect();
    assert_eq!(order, vec![6, 7, 5]);
    assert!(backend.list_children(id(2)).unwrap().is_empty());
}

#[test]
fn a_run_is_processed_by_one_worker() {
    let mut backend = InMemoryBackend::new();
    assert!(backend.try_acquire_run(id(1), span(10), at(0)).unwrap());
    assert!(!backend.try_acquire_run(id(1), span(10), at(5)).unwrap());
    assert!(backend.try_acquire_run(id(2), span(10), at(5)).unwrap());
    // The lease expires, or is given back.
    assert!(backend.try_acquire_run(id(1), span(10), at(10)).unwrap());
    backend.release_run(id(1)).unwrap();
    assert!(backend.try_acquire_run(id(1), span(10), at(11)).unwrap());
}

// ---- steps ---------------------------------------------------------------------

#[test]
fn a_completed_step_is_not_run_again() {
    let run = Run::from_spec_with_id(spec("a"), id(1), T);
    let mut ctx = RunContext::new(InMemoryBackend::new(), run, false);
    let ran = Cell::new(0);
    let step = || -> Result<Json, String> {
        ran.set(ran.get() + 1);
        Ok(Json::number(ran.get()))
    };
    let no_pause = |_d: Duration| {};
    let first = ctx
        .durable_step("k", RetryPolicy::none(), step, no_pause)
        .unwrap();
    let other = ctx
        .durable_step("l", RetryPolicy::none(), step, no_pause)
        .unwrap();
    let again = ctx
        .durable_step("k", RetryPolicy::none(), step, no_pause)
        .unwrap();
    assert_eq!(first.count(), Some(1));
    assert_eq!(other.count(), Some(2));
    assert_eq!(again.count(), Some(1));
    let record = ctx.backend().lookup_step(id(1), "k").unwrap().unwrap();
    assert_eq!(record.status, StepStatus::Completed);
    assert!(ctx.backend().lookup_step(id(2), "k").unwrap().is_none());
}

#[test]
fn a_step_pauses_between_attempts() {
    let run = Run::from_spec_with_id(spec("a"), id(1), T);
    let mut ctx = RunContext::new(InMemoryBackend::new(), run, false);
    let pauses = RefCell::new(Vec::new());
    let error = ctx
        .durable_step(
            "k",
            RetryPolicy::default(),
            || Err("no".to_string()),
            |d: Duration| pauses.borrow_mut().push(d.nanos / 1_000_000),
        )
        .unwrap_err();
    assert!(matches!(
        error,
        Error::StepExhausted { attempts: 3, .. }
    ));
    assert_eq!(*pauses.borrow(), vec![100, 200]);
    let log = ctx.backend().read(id(1), 0).unwrap();
    assert_eq!(log.last().unwrap().kind, EventKind::StepFailed);
}

// ---- signals -------------------------------------------------------------------

#[test]
fn signals_are_taken_in_order() {
    let mut backend = InMemoryBackend::new();
    for n in 1..=3 {
        backend.deliver(id(1), "a", Json::number(n), T).unwrap();
    }
    for n in 1..=3 {
        let signal = backend.take_signal(id(1), "a").unwrap().unwrap();
        assert_eq!(signal.payload.count(), Some(n));
    }
    assert!(!backend.has_unconsumed(id(1), "a").unwrap());
    assert!(!backend.has_unconsumed(id(2), "a").unwrap());
}

#[test]
fn a_signal_that_is_there_keeps_the_run_going() {
    let mut engine = engine("s", vec![wait_for("go"), complete()]);
    let run = engine.create_run(spec("s")).unwrap();
    engine.signal(run, "go", Json::Null).unwrap();
    assert!(engine.run_until_idle("w", 10).unwrap());
    assert_eq!(engine.get_run(run).unwrap().status, RunStatus::Completed);
}

#[test]
fn a_signal_that_came_meanwhile_wakes_the_run() {
    let mut backend = InMemoryBackend::new();
    let mut run = Run::from_spec_with_id(spec("s"), id(1), T);
    run.status = RunStatus::WaitingSignal;
    run.waiting = Some(Wait::Signal {
        name: "go".to_string(),
        deadline: None,
    });
    backend.create_run(&run).unwrap();
    look_again(&mut backend, id(1), "go", at(5), 9).unwrap();
    assert_eq!(
        backend.get_run(id(1)).unwrap().status,
        RunStatus::WaitingSignal
    );
    backend.deliver(id(1), "go", Json::Null, T).unwrap();
    look_again(&mut backend, id(1), "go", at(5), 9).unwrap();
    assert_eq!(backend.get_run(id(1)).unwrap().status, RunStatus::Pending);
    let lease = backend.claim("w", span(10), at(5)).unwrap().unwrap();
    assert_eq!((lease.item, lease.lease_id), (id(1), 9));
    // A run that is not there cannot be woken.
    backend.deliver(id(2), "go", Json::Null, T).unwrap();
    assert!(look_again(&mut backend, id(2), "go", at(5), 9).is_err());
}

#[test]
fn the_inbox_is_looked_at_again_where_a_run_is_parked() {
    let fresh = FreshIds {
        entry: 2,
        second_entry: 3,
        children: vec![],
    };
    let settle = |backend: &mut InMemoryBackend, advance: Advance| {
        let run = backend.get_run(id(1)).unwrap();
        settle_turn(backend, run, BudgetUsage::default(), Ok(advance), at(5), &fresh).unwrap()
    };
    let mut backend = InMemoryBackend::new();
    let run = Run::from_spec_with_id(spec("s"), id(1), T);
    backend.create_run(&run).unwrap();
    assert!(settle(&mut backend, wait_for("go")).is_some());
    assert_eq!(
        backend.get_run(id(1)).unwrap().status,
        RunStatus::WaitingSignal
    );
    // A signal that is there is found by the first look, and the run is not parked.
    backend.deliver(id(1), "go", Json::Null, T).unwrap();
    assert!(settle(&mut backend, wait_for("go")).is_none());
    assert_eq!(backend.get_run(id(1)).unwrap().status, RunStatus::Pending);
    assert!(settle(&mut backend, complete()).is_none());
}

#[test]
fn a_signal_of_another_name_wakes_nobody() {
    let mut engine = engine("s", vec![wait_for("go")]);
    let run = engine.create_run(spec("s")).unwrap();
    assert!(engine.run_until_idle("w", 10).unwrap());
    engine.signal(run, "stop", Json::Null).unwrap();
    assert!(!engine.tick("w").unwrap());
    let parked = engine.get_run(run).unwrap();
    assert_eq!(parked.status, RunStatus::WaitingSignal);
    assert!(matches!(
        parked.waiting,
        Some(Wait::Signal { name, deadline: None }) if name == "go"
    ));
}

#[test]
fn an_answer_reaches_the_parked_run() {
    let ask = Advance::WaitForApproval {
        request: ApprovalRequest {
            tool_call_id: "c".to_string(),
            summary: "s".to_string(),
            risk: "r".to_string(),
        },
    };
    let mut engine = engine("s", vec![ask, complete()]);
    let run = engine.create_run(spec("s")).unwrap();
    assert!(engine.run_until_idle("w", 10).unwrap());
    assert!(matches!(
        engine.get_run(run).unwrap().waiting,
        Some(Wait::Approval)
    ));
    engine
        .approve(
            run,
            ApprovalResolution {
                tool_call_id: "c".to_string(),
                decision: ApprovalDecision::Deny,
            },
        )
        .unwrap();
    let log = kinds(&engine, run);
    assert!(log.contains(&EventKind::ApprovalRequested));
    assert!(log.contains(&EventKind::ApprovalResolved));
    assert!(engine.run_until_idle("w", 10).unwrap());
    assert_eq!(engine.get_run(run).unwrap().status, RunStatus::Completed);
}

// ---- the queue -----------------------------------------------------------------

#[test]
fn a_claim_takes_the_first_that_is_ready() {
    let mut backend = InMemoryBackend::new();
    backend.enqueue(1, id(10), at(50)).unwrap();
    backend.enqueue(2, id(20), at(5)).unwrap();
    backend.enqueue(3, id(30), at(0)).unwrap();
    assert!(backend.claim("w", span(10), at(-1)).unwrap().is_none());
    let first = backend.claim("w", span(10), at(5)).unwrap().unwrap();
    assert_eq!(first.item, id(30));
    assert_eq!(first.expires_at, at(15));
    let second = backend.claim("w", span(10), at(5)).unwrap().unwrap();
    assert_eq!(second.item, id(20));
    assert!(backend.claim("w", span(10), at(5)).unwrap().is_none());
}

#[test]
fn a_claim_is_exclusive_until_it_expires() {
    let mut backend = InMemoryBackend::new();
    backend.enqueue(1, id(10), at(0)).unwrap();
    backend.enqueue(2, id(20), at(100)).unwrap();
    let lease = backend.claim("w", span(10), at(0)).unwrap().unwrap();
    assert!(backend.claim("v", span(10), at(9)).unwrap().is_none());
    let again = backend.claim("v", span(10), at(11)).unwrap().unwrap();
    assert_eq!(again.item, id(10));
    backend.ack(&lease).unwrap();
    assert!(backend.claim("v", span(10), at(50)).unwrap().is_none());
    // Acknowledging removes only its own entry.
    assert_eq!(
        backend.claim("v", span(10), at(100)).unwrap().unwrap().item,
        id(20)
    );
}

#[test]
fn of_equal_entries_the_first_made_is_claimed() {
    let mut backend = InMemoryBackend::new();
    backend.enqueue(1, id(10), at(5)).unwrap();
    backend.enqueue(2, id(20), at(5)).unwrap();
    backend.enqueue(3, id(30), at(5)).unwrap();
    for wanted in [10, 20, 30] {
        let lease = backend.claim("w", span(10), at(5)).unwrap().unwrap();
        assert_eq!(lease.item, id(wanted));
    }
}

#[test]
fn the_longest_claim_lasts() {
    let mut backend = InMemoryBackend::new();
    backend.enqueue(1, id(10), at(0)).unwrap();
    let lease = backend.claim("w", span(u128::MAX), at(0)).unwrap().unwrap();
    assert_eq!(lease.expires_at, at(i128::MAX));
    assert!(backend.claim("v", span(1), at(1 << 100)).unwrap().is_none());
}

// ---- turns ---------------------------------------------------------------------

#[test]
fn a_tick_goes_by_the_time_it_is_given() {
    let mut engine = engine("s", vec![complete()]);
    let run = engine.create_run_at(spec("s"), id(1), 2, at(100)).unwrap();
    assert!(!engine.tick_at("w", at(99)).unwrap());
    assert!(engine.run_until_idle_at("w", 10, at(99)).unwrap());
    assert!(engine.worker_round_at("w", at(99)).pause.is_some());
    assert_eq!(engine.get_run(run).unwrap().status, RunStatus::Pending);
    let round = engine.worker_round_at("w", at(100));
    assert!(round.pause.is_none() && round.error.is_none());
    assert_eq!(engine.get_run(run).unwrap().status, RunStatus::Completed);
    assert!(!engine.tick_at("w", at(i128::MAX)).unwrap());
}

#[test]
fn the_longest_timeout_does_not_fire_early() {
    let wait = Advance::WaitForSignal {
        name: "go".to_string(),
        timeout: Some(span(u128::MAX)),
    };
    let mut engine = engine("s", vec![wait, complete()]);
    let run = engine.create_run(spec("s")).unwrap();
    assert!(engine.run_until_idle("w", 10).unwrap());
    let parked = engine.get_run(run).unwrap();
    assert_eq!(parked.status, RunStatus::WaitingSignal);
    assert!(matches!(
        parked.waiting,
        Some(Wait::Signal { deadline: Some(due), .. }) if due == at(i128::MAX)
    ));
    let soon = at(parked.updated_at.nanos + 2_000_000_000);
    assert!(!engine.tick_at("w", soon).unwrap());
    assert!(engine.tick_at("w", at(i128::MAX)).unwrap());
}

#[test]
fn a_run_older_than_its_budget_fails() {
    let budget = Budget {
        max_wall_clock_secs: Some(5),
        ..Budget::default()
    };
    assert!(budget.check_age(at(0), at(5_000_000_000)).is_ok());
    assert_eq!(
        budget.check_age(at(0), at(5_000_000_001)).unwrap_err(),
        "wall_clock_secs 6 > 5"
    );
    assert_eq!(
        budget.check_age(at(i128::MIN), at(i128::MAX)).unwrap_err(),
        "wall_clock_secs 340282366920938463463374607432 > 5"
    );
    assert!(Budget::default().check_age(at(0), at(i128::MAX)).is_ok());

    let mut backend = InMemoryBackend::new();
    let run = Run::from_spec_with_id(RunSpec { budget, ..spec("s") }, id(1), at(0));
    backend.create_run(&run).unwrap();
    let fresh = FreshIds {
        entry: 2,
        second_entry: 3,
        children: vec![],
    };
    settle_turn(
        &mut backend,
        run,
        BudgetUsage::default(),
        Ok(complete()),
        at(7_500_000_000),
        &fresh,
    )
    .unwrap();
    let failed = backend.get_run(id(1)).unwrap();
    assert_eq!(failed.status, RunStatus::Failed);
    assert_eq!(
        failed.error.as_deref(),
        Some("budget exceeded: wall_clock_secs 8 > 5")
    );
}

#[test]
fn cancelling_passes_through_final_runs() {
    let mut backend = InMemoryBackend::new();
    let family = [
        (1, None, RunStatus::Completed),
        (2, Some(id(1)), RunStatus::WaitingSignal),
        (3, Some(id(2)), RunStatus::Failed),
        (4, Some(id(3)), RunStatus::Running),
        (5, Some(id(4)), RunStatus::Pending),
        (6, None, RunStatus::Pending),
    ];
    for (value, parent_id, status) in family {
        let run = Run::from_spec_with_id(spec("s"), id(value), at(value as i128));
        backend
            .create_run(&Run {
                parent_id,
                status,
                ..run
            })
            .unwrap();
    }
    let mut engine: TestEngine = Engine::new(backend);
    engine.cancel(id(1)).unwrap();
    let status = |value: u128| engine.get_run(id(value)).unwrap().status;
    assert_eq!(status(1), RunStatus::Completed);
    assert_eq!(status(2), RunStatus::Cancelled);
    assert_eq!(status(3), RunStatus::Failed);
    assert_eq!(status(4), RunStatus::Cancelled);
    assert_eq!(status(5), RunStatus::Cancelled);
    assert_eq!(status(6), RunStatus::Pending);
    for value in [1, 3, 6] {
        assert!(kinds(&engine, id(value)).is_empty());
    }
    for value in [2, 4, 5] {
        assert_eq!(kinds(&engine, id(value)), vec![EventKind::RunCancelled]);
    }
}

#[test]
fn cancelling_ends_where_runs_are_their_own_ancestors() {
    let mut backend = InMemoryBackend::new();
    for (value, parent) in [(1, 2), (2, 1)] {
        let run = Run::from_spec_with_id(spec("s"), id(value), T);
        backend
            .create_run(&Run {
                parent_id: Some(id(parent)),
                ..run
            })
            .unwrap();
    }
    let mut engine: TestEngine = Engine::new(backend);
    engine.cancel(id(1)).unwrap();
    for value in [1, 2] {
        assert_eq!(
            engine.get_run(id(value)).unwrap().status,
            RunStatus::Cancelled
        );
    }
}

#[test]
fn a_final_run_is_not_advanced() {
    let driver = Script::new(vec![complete()]);
    let taken = driver.taken.clone();
    let mut engine = Engine::new(InMemoryBackend::new()).with_driver("s", driver);
    let run = engine.create_run(spec("s")).unwrap();
    assert!(engine.run_until_idle("w", 10).unwrap());
    engine.process(run, T).unwrap();
    assert_eq!(taken.get(), 1);
    assert_eq!(engine.get_run(run).unwrap().status, RunStatus::Completed);
}

#[test]
fn a_run_that_goes_on_is_advanced_again() {
    let mut engine = engine(
        "s",
        vec![
            Advance::Continue,
            Advance::Fail {
                error: "later".to_string(),
                retry: true,
            },
            Advance::Fail {
                error: "never".to_string(),
                retry: false,
            },
        ],
    );
    let run = engine.create_run(spec("s")).unwrap();
    assert!(engine.run_until_idle("w", 10).unwrap());
    let failed = engine.get_run(run).unwrap();
    assert_eq!(failed.status, RunStatus::Failed);
    assert_eq!(failed.error.as_deref(), Some("never"));
}

#[test]
fn a_sleeping_run_wakes_in_time() {
    let mut engine = engine(
        "s",
        vec![
            Advance::Sleep {
                until: at(i128::MAX),
            },
            Advance::Sleep { until: at(0) },
            complete(),
        ],
    );
    let late = engine.create_run(spec("s")).unwrap();
    assert!(engine.run_until_idle("w", 10).unwrap());
    let sleeping = engine.get_run(late).unwrap();
    assert_eq!(sleeping.status, RunStatus::WaitingTimer);
    assert!(matches!(sleeping.waiting, Some(Wait::Timer)));
    let soon = engine.create_run(spec("s")).unwrap();
    assert!(engine.run_until_idle("w", 10).unwrap());
    assert_eq!(engine.get_run(soon).unwrap().status, RunStatus::Completed);
    assert!(kinds(&engine, soon).contains(&EventKind::TimerSet));
}

#[test]
fn a_run_without_a_driver_fails() {
    let mut engine = engine("s", vec![]);
    let run = engine.create_run(spec("nobody")).unwrap();
    assert!(engine.run_until_idle("w", 10).unwrap());
    let failed = engine.get_run(run).unwrap();
    assert_eq!(failed.status, RunStatus::Failed);
    assert_eq!(
        failed.error.as_deref(),
        Some("no driver for agent_type \"nobody\"")
    );
}

#[test]
fn working_stops_after_the_given_number_of_ticks() {
    let mut engine = engine(
        "s",
        vec![Advance::Continue, Advance::Continue, complete()],
    );
    let run = engine.create_run(spec("s")).unwrap();
    assert!(!engine.run_until_idle("w", 2).unwrap());
    assert_ne!(engine.get_run(run).unwrap().status, RunStatus::Completed);
    assert!(engine.run_until_idle("w", 10).unwrap());
    assert_eq!(engine.get_run(run).unwrap().status, RunStatus::Completed);
}

#[test]
fn no_work_is_done_without_runs_or_ticks() {
    let mut engine = engine("s", vec![complete()]);
    assert!(engine.run_until_idle("w", 1).unwrap());
    assert!(!engine.run_until_idle("w", 0).unwrap());
    let run = engine.create_run(spec("s")).unwrap();
    assert!(!engine.run_until_idle("w", 0).unwrap());
    assert_eq!(engine.get_run(run).unwrap().status, RunStatus::Pending);
}

#[test]
fn a_queued_run_that_is_not_there_stops_the_work() {
    let mut backend = InMemoryBackend::new();
    backend.enqueue(1, id(7), T).unwrap();
    let mut engine: TestEngine =
        Engine::new(backend).with_driver("s", Script::new(vec![complete()]));
    let run = engine.create_run(spec("s")).unwrap();
    let error = engine.run_until_idle("w", 10).unwrap_err();
    assert!(matches!(error, Error::RunNotFound(lost) if lost == id(7)));
    // The lost entry is leased by now; the work goes on with the next.
    assert!(engine.run_until_idle("w", 10).unwrap());
    assert_eq!(engine.get_run(run).unwrap().status, RunStatus::Completed);
}

/// Fails as a driver.
struct Broken;

impl AgentDriver<InMemoryBackend> for Broken {
    fn advance(&self, _ctx: &mut RunContext<InMemoryBackend>) -> Result<Advance, Error> {
        Err(Error::driver("no model".to_string()))
    }
}

#[test]
fn a_driver_error_fails_the_run() {
    let mut engine = Engine::new(InMemoryBackend::new()).with_driver("b", Broken);
    let run = engine.create_run(spec("b")).unwrap();
    assert!(engine.run_until_idle("w", 10).unwrap());
    let failed = engine.get_run(run).unwrap();
    assert_eq!(failed.status, RunStatus::Failed);
    assert_eq!(failed.error.as_deref(), Some("driver: no model"));
}

/// Spends, then goes on.
struct Spender;

impl AgentDriver<InMemoryBackend> for Spender {
    fn advance(&self, ctx: &mut RunContext<InMemoryBackend>) -> Result<Advance, Error> {
        ctx.charge_tokens(4);
        ctx.charge_cost(Usd { nanos: 600_000_000 });
        Ok(Advance::Continue)
    }
}

#[test]
fn a_breached_budget_fails_the_run() {
    let run_with = |budget: Budget| {
        let mut engine = Engine::new(InMemoryBackend::new()).with_driver("b", Spender);
        let run = engine
            .create_run(RunSpec {
                budget,
                ..spec("b")
            })
            .unwrap();
        assert!(engine.run_until_idle("w", 10).unwrap());
        engine.get_run(run).unwrap()
    };
    let failed = run_with(Budget {
        max_cost_usd: Some(Usd {
            nanos: 1_000_000_000,
        }),
        ..Budget::default()
    });
    assert_eq!(failed.status, RunStatus::Failed);
    assert_eq!(
        failed.error.as_deref(),
        Some("budget exceeded: cost_usd 1.2000 > 1.0000")
    );
    assert_eq!(failed.usage.tokens, 8);
    let failed = run_with(Budget {
        max_tokens: Some(11),
        ..Budget::default()
    });
    assert_eq!(
        failed.error.as_deref(),
        Some("budget exceeded: tokens 12 > 11")
    );
}

// ---- trees ---------------------------------------------------------------------

fn family(join: JoinMode, goals: &[&str], turns: Vec<Advance>) -> (TestEngine, RunId) {
    let specs = goals
        .iter()
        .map(|goal| ChildSpec {
            agent_type: "kid".to_string(),
            goal: goal.to_string(),
            ..ChildSpec::default()
        })
        .collect();
    let mut engine = Engine::new(InMemoryBackend::new())
        .with_driver(
            "top",
            Script::new(vec![Advance::SpawnChildren { specs, join }, complete()]),
        )
        .with_driver("kid", Script::new(turns));
    let top = engine.create_run(spec("top")).unwrap();
    assert!(engine.run_until_idle("w", 50).unwrap());
    (engine, top)
}

fn statuses(engine: &TestEngine, top: RunId) -> Vec<RunStatus> {
    let kids = engine.backend().list_children(top).unwrap();
    kids.iter().map(|k| k.status).collect()
}

#[test]
fn every_child_is_born() {
    let (engine, top) = family(
        JoinMode::All,
        &["a", "b"],
        vec![wait_for("x"), wait_for("x")],
    );
    let kids = engine.backend().list_children(top).unwrap();
    assert_eq!(kids.len(), 2);
    assert!(kids.iter().all(|k| k.parent_id == Some(top)));
    assert_eq!(engine.get_run(top).unwrap().usage.children, 2);
    assert!(matches!(
        engine.get_run(top).unwrap().waiting,
        Some(Wait::ChildJoin {
            mode: JoinMode::All
        })
    ));
}

#[test]
fn a_quorum_wakes_the_parent_and_leaves_the_rest() {
    let (mut engine, top) = family(
        JoinMode::Quorum(2),
        &["a", "b", "c"],
        vec![complete(), wait_for("x"), wait_for("y"), complete()],
    );
    assert!(!engine.get_run(top).unwrap().status.is_terminal());
    let kids = engine.backend().list_children(top).unwrap();
    let waiting = kids
        .iter()
        .find(|k| matches!(&k.waiting, Some(Wait::Signal { name, .. }) if name == "x"))
        .unwrap()
        .id;
    engine.signal(waiting, "x", Json::Null).unwrap();
    assert!(engine.run_until_idle("w", 50).unwrap());
    assert_eq!(engine.get_run(top).unwrap().status, RunStatus::Completed);
    assert_eq!(
        statuses(&engine, top)
            .iter()
            .filter(|s| **s == RunStatus::Completed)
            .count(),
        2
    );
}

#[test]
fn all_final_children_satisfy_every_join() {
    for join in [JoinMode::All, JoinMode::Any, JoinMode::Quorum(9)] {
        let fail = || Advance::Fail {
            error: "e".to_string(),
            retry: false,
        };
        let (engine, top) = family(join, &["a", "b"], vec![fail(), fail()]);
        assert_eq!(engine.get_run(top).unwrap().status, RunStatus::Completed);
        assert!(kinds(&engine, top).contains(&EventKind::ChildRunFinished));
    }
}

#[test]
fn cancelling_reaches_every_descendant() {
    let (mut engine, top) = family(
        JoinMode::All,
        &["a", "b"],
        vec![complete(), wait_for("x")],
    );
    let bystander = engine.create_run(spec("kid")).unwrap();
    engine.cancel(top).unwrap();
    assert_eq!(engine.get_run(top).unwrap().status, RunStatus::Cancelled);
    let mut after = statuses(&engine, top);
    after.sort_by_key(|s| format!("{s:?}"));
    assert_eq!(after, vec![RunStatus::Cancelled, RunStatus::Completed]);
    assert_eq!(
        engine.get_run(bystander).unwrap().status,
        RunStatus::Pending
    );
    // Cancelling again changes nothing.
    let log = kinds(&engine, top);
    engine.cancel(top).unwrap();
    assert_eq!(kinds(&engine, top), log);
}

// ---- resources -----------------------------------------------------------------

#[test]
fn a_lease_is_held_extended_and_released() {
    let run = Run::from_spec_with_id(spec("a"), id(1), T);
    let mut ctx = RunContext::new(InMemoryBackend::new(), run, false);
    let lease = ctx
        .lease_resource(ResourceKind::ShellSession, Json::object(), Some(at(5)))
        .unwrap();
    ctx.heartbeat_resource(lease, at(9)).unwrap();
    let held = ctx.resources().unwrap();
    assert_eq!(held[0].lease_expires_at, Some(at(9)));
    assert_eq!(held[0].status, ResourceStatus::Active);
    ctx.release_resource(lease).unwrap();
    assert_eq!(ctx.resources().unwrap()[0].status, ResourceStatus::Released);
    let log = ctx.backend().read(id(1), 0).unwrap();
    let seen: Vec<EventKind> = log.iter().map(|e| e.kind).collect();
    assert_eq!(
        seen,
        vec![EventKind::ResourceLeased, EventKind::ResourceReleased]
    );
    assert_eq!(
        log[0].payload.get_str("resource_id"),
        Some(lease.text().as_str())
    );
    assert!(ctx.backend().list_resources(id(2)).unwrap().is_empty());
}

// ---- progress ------------------------------------------------------------------

#[test]
fn a_turn_left_behind_is_taken_up_again() {
    let mut backend = InMemoryBackend::new();
    backend.enqueue(1, id(10), at(0)).unwrap();
    let lease = backend.claim("w", span(10), at(0)).unwrap().unwrap();
    assert!(backend
        .try_acquire_run(lease.item, span(10), at(0))
        .unwrap());
    // The worker crashes. Until both leases end, nobody gets the run.
    assert!(backend.claim("v", span(10), at(9)).unwrap().is_none());
    assert!(!backend.try_acquire_run(id(10), span(10), at(9)).unwrap());
    let again = backend.claim("v", span(10), at(10)).unwrap().unwrap();
    assert_eq!(again.item, id(10));
    assert!(backend.try_acquire_run(id(10), span(10), at(10)).unwrap());
}

#[test]
fn no_pending_run_is_forgotten() {
    let (mut engine, top) = family(
        JoinMode::Any,
        &["a", "b", "c"],
        vec![
            Advance::Continue,
            wait_for("x"),
            Advance::Continue,
            complete(),
            complete(),
            complete(),
        ],
    );
    let other = engine.create_run(spec("nobody")).unwrap();
    engine.signal(other, "x", Json::Null).unwrap();
    assert!(engine.run_until_idle("w", 50).unwrap());
    let mut runs = engine.backend().list_children(top).unwrap();
    runs.push(engine.get_run(top).unwrap());
    runs.push(engine.get_run(other).unwrap());
    assert!(runs.iter().all(|r| r.status != RunStatus::Pending));
    assert!(!engine.tick("w").unwrap());
}

#[test]
fn a_final_run_stays_as_it_is() {
    let mut engine = engine("s", vec![complete()]);
    let run = engine.create_run(spec("s")).unwrap();
    assert_eq!(engine.get_run(run).unwrap().status, RunStatus::Pending);
    assert!(engine.run_until_idle("w", 10).unwrap());
    let done = engine.get_run(run).unwrap();
    assert!(done.output.is_some());
    engine.signal(run, "x", Json::Null).unwrap();
    engine
        .approve(
            run,
            ApprovalResolution {
                tool_call_id: "c".to_string(),
                decision: ApprovalDecision::Allow,
            },
        )
        .unwrap();
    engine.cancel(run).unwrap();
    assert!(!engine.tick("w").unwrap());
    let still = engine.get_run(run).unwrap();
    assert_eq!(still.status, RunStatus::Completed);
    assert_eq!(still.updated_at, done.updated_at);
}
