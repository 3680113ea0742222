//! The engine on the backend in memory, driven by the mock drivers.

use std::cell::Cell;
use std::rc::Rc;

use suxel::budget::Budget;
use suxel::driver::{Advance, AgentDriver, ChildSpec, RunContext};
use suxel::engine::Engine;
use suxel::error::Error;
use suxel::event::EventKind;
use suxel::json::{Json, Number};
use suxel::mem::InMemoryBackend;
use suxel::run::{JoinMode, RunSpec, RunStatus};
use suxel::signal::{ApprovalDecision, ApprovalResolution, APPROVAL_SIGNAL};
use suxel::store::{ArtifactStore, EventLog, ResourceStore, RunStore, SignalStore};
use suxel::testkit::{
    after_effect, flaky_attempt, ApprovalDriver, BudgetBurnDriver, EchoDriver, ParentDriver,
    ResourceArtifactDriver, RetryDriver, SideEffectDriver, SignalDriver, Tally, WorkerDriver,
};
use suxel::time::Timestamp;

const W: &str = "testkit-worker";

struct Boxed(Box<dyn AgentDriver<InMemoryBackend>>);

impl AgentDriver<InMemoryBackend> for Boxed {
    fn advance(&self, ctx: &mut RunContext<InMemoryBackend>) -> Result<Advance, Error> {
        self.0.advance(ctx)
    }
}

type TestEngine = Engine<InMemoryBackend, Boxed>;

fn engine() -> TestEngine {
    Engine::new(InMemoryBackend::new())
}

fn boxed(driver: impl AgentDriver<InMemoryBackend> + 'static) -> Boxed {
    Boxed(Box::new(driver))
}

fn spec(agent_type: &str) -> RunSpec {
    RunSpec {
        agent_type: agent_type.to_string(),
        ..RunSpec::default()
    }
}

fn drain(engine: &mut TestEngine) {
    assert!(engine.run_until_idle(W, 1000).unwrap());
}

#[derive(Clone)]
struct Counter(Rc<Cell<u64>>);

impl Counter {
    fn new() -> Self {
        Counter(Rc::new(Cell::new(0)))
    }
}

impl Tally for Counter {
    fn count(&self) -> u64 {
        self.0.set(self.0.get() + 1);
        self.0.get()
    }
}

fn number(doc: &Json, name: &str) -> u64 {
    match doc.get(name) {
        Some(Json::Number(Number::Unsigned(n))) => *n,
        _ => panic!("no number {name}"),
    }
}

#[test]
fn completes_a_simple_run() {
    let mut engine = engine().with_driver("echo", boxed(EchoDriver));
    let id = engine
        .create_run(RunSpec {
            goal: "hi".to_string(),
            ..spec("echo")
        })
        .unwrap();
    drain(&mut engine);

    let run = engine.get_run(id).unwrap();
    assert_eq!(run.status, RunStatus::Completed);
    assert_eq!(run.output.unwrap().get_str("echo"), Some("hi"));
    let kinds: Vec<EventKind> = engine
        .backend()
        .read(id, 0)
        .unwrap()
        .into_iter()
        .map(|e| e.kind)
        .collect();
    assert!(kinds.contains(&EventKind::RunCreated));
    assert!(kinds.contains(&EventKind::RunCompleted));
}

#[test]
fn durable_step_runs_side_effect_exactly_once() {
    let effect = Counter::new();
    let mut engine = engine().with_driver(
        "fx",
        boxed(SideEffectDriver {
            advances: Counter::new(),
            effect: effect.clone(),
        }),
    );
    let id = engine.create_run(spec("fx")).unwrap();
    drain(&mut engine);

    let run = engine.get_run(id).unwrap();
    assert_eq!(run.status, RunStatus::Completed);
    assert_eq!(effect.0.get(), 1, "side effect ran more than once");
    assert_eq!(number(&run.output.unwrap(), "value"), 1);
}

#[test]
fn durable_step_retries_until_success() {
    let attempts = Counter::new();
    let mut engine = engine().with_driver(
        "retry",
        boxed(RetryDriver {
            attempts: attempts.clone(),
        }),
    );
    let id = engine.create_run(spec("retry")).unwrap();
    drain(&mut engine);

    assert_eq!(engine.get_run(id).unwrap().status, RunStatus::Completed);
    assert_eq!(attempts.0.get(), 3);
}

/// A counter that stands at one.
struct Stuck;

impl Tally for Stuck {
    fn count(&self) -> u64 {
        1
    }
}

#[test]
fn a_step_that_keeps_failing_is_exhausted() {
    let mut engine = engine().with_driver("retry", boxed(RetryDriver { attempts: Stuck }));
    let id = engine.create_run(spec("retry")).unwrap();
    drain(&mut engine);

    let run = engine.get_run(id).unwrap();
    assert_eq!(run.status, RunStatus::Failed);
    assert_eq!(
        run.error.unwrap(),
        Error::StepExhausted {
            key: "flaky".to_string(),
            attempts: 3,
            message: "transient 1".to_string(),
        }
        .message()
    );
}

#[test]
fn the_mock_drivers_go_by_their_counts() {
    assert_eq!(flaky_attempt(1).unwrap_err(), "transient 1");
    assert_eq!(flaky_attempt(2).unwrap_err(), "transient 2");
    assert!(matches!(
        flaky_attempt(3),
        Ok(Json::Number(Number::Unsigned(3)))
    ));
    assert!(matches!(
        after_effect(1, Json::number(5)),
        Advance::Continue
    ));
    match after_effect(2, Json::number(5)) {
        Advance::Complete { output } => assert_eq!(number(&output, "value"), 5),
        _ => panic!("not complete"),
    }
}

#[test]
fn parks_for_signal_then_resumes() {
    let mut engine = engine().with_driver("sig", boxed(SignalDriver));
    let id = engine.create_run(spec("sig")).unwrap();
    drain(&mut engine);
    assert_eq!(engine.get_run(id).unwrap().status, RunStatus::WaitingSignal);

    engine
        .signal(id, "go", Json::object().with("from", Json::string("test")))
        .unwrap();
    drain(&mut engine);
    let run = engine.get_run(id).unwrap();
    assert_eq!(run.status, RunStatus::Completed);
    assert_eq!(run.output.unwrap().get_str("from"), Some("test"));
}

#[test]
fn parks_for_approval_then_resumes() {
    let mut engine = engine().with_driver("appr", boxed(ApprovalDriver));
    let id = engine.create_run(spec("appr")).unwrap();
    drain(&mut engine);
    assert_eq!(
        engine.get_run(id).unwrap().status,
        RunStatus::WaitingApproval
    );

    engine
        .approve(
            id,
            ApprovalResolution {
                tool_call_id: "call-1".to_string(),
                decision: ApprovalDecision::Allow,
            },
        )
        .unwrap();
    drain(&mut engine);
    assert_eq!(engine.get_run(id).unwrap().status, RunStatus::Completed);
}

#[test]
fn denied_approval_fails_the_run() {
    let mut engine = engine().with_driver("appr", boxed(ApprovalDriver));
    let id = engine.create_run(spec("appr")).unwrap();
    drain(&mut engine);
    engine
        .approve(
            id,
            ApprovalResolution {
                tool_call_id: "call-1".to_string(),
                decision: ApprovalDecision::Deny,
            },
        )
        .unwrap();
    drain(&mut engine);
    assert_eq!(engine.get_run(id).unwrap().status, RunStatus::Failed);
}

#[test]
fn an_unreadable_answer_fails_the_run_and_keeps_the_later_ones() {
    let mut engine = engine().with_driver("appr", boxed(ApprovalDriver));
    let id = engine.create_run(spec("appr")).unwrap();
    drain(&mut engine);
    engine
        .signal(id, APPROVAL_SIGNAL, Json::string("yes"))
        .unwrap();
    engine
        .approve(
            id,
            ApprovalResolution {
                tool_call_id: "call-1".to_string(),
                decision: ApprovalDecision::Allow,
            },
        )
        .unwrap();
    drain(&mut engine);
    assert_eq!(engine.get_run(id).unwrap().status, RunStatus::Failed);
    assert!(engine.backend().has_unconsumed(id, APPROVAL_SIGNAL).unwrap());
}

#[test]
fn spawns_children_and_joins_all() {
    let specs: Vec<ChildSpec> = (0..3)
        .map(|i| ChildSpec {
            agent_type: "child".to_string(),
            goal: format!("task {i}"),
            ..ChildSpec::default()
        })
        .collect();
    let mut engine = engine()
        .with_driver(
            "parent",
            boxed(ParentDriver {
                join: JoinMode::All,
                specs,
            }),
        )
        .with_driver("child", boxed(EchoDriver));
    let id = engine.create_run(spec("parent")).unwrap();
    drain(&mut engine);

    let run = engine.get_run(id).unwrap();
    assert_eq!(run.status, RunStatus::Completed);
    assert_eq!(number(&run.output.unwrap(), "children"), 3);
    let kids = engine.backend().list_children(id).unwrap();
    assert_eq!(kids.len(), 3);
    assert!(kids.iter().all(|k| k.status == RunStatus::Completed));
}

#[test]
fn any_join_cancels_the_losers() {
    let child = |mode: &str| ChildSpec {
        agent_type: "worker".to_string(),
        goal: mode.to_string(),
        input: Some(Json::object().with("mode", Json::string(mode))),
        ..ChildSpec::default()
    };
    let mut engine = engine()
        .with_driver(
            "parent",
            boxed(ParentDriver {
                join: JoinMode::Any,
                specs: vec![child("fast"), child("slow")],
            }),
        )
        .with_driver("worker", boxed(WorkerDriver));
    let id = engine.create_run(spec("parent")).unwrap();
    drain(&mut engine);

    assert_eq!(engine.get_run(id).unwrap().status, RunStatus::Completed);
    let kids = engine.backend().list_children(id).unwrap();
    let fast = kids.iter().find(|k| k.goal == "fast").unwrap();
    let slow = kids.iter().find(|k| k.goal == "slow").unwrap();
    assert_eq!(fast.status, RunStatus::Completed);
    assert_eq!(slow.status, RunStatus::Cancelled);
}

#[test]
fn budget_breach_fails_the_run() {
    let mut engine = engine().with_driver("burn", boxed(BudgetBurnDriver));
    let id = engine
        .create_run(RunSpec {
            budget: Budget {
                max_tool_calls: Some(0),
                ..Budget::default()
            },
            ..spec("burn")
        })
        .unwrap();
    drain(&mut engine);
    let run = engine.get_run(id).unwrap();
    assert_eq!(run.status, RunStatus::Failed);
    assert!(run.error.as_deref().unwrap().contains("budget"));
    assert_eq!(
        run.error.as_deref(),
        Some("budget exceeded: tool_calls 1 > 0")
    );
}

#[test]
fn leases_resources_and_produces_artifacts() {
    let mut engine = engine().with_driver("ra", boxed(ResourceArtifactDriver));
    let id = engine.create_run(spec("ra")).unwrap();
    drain(&mut engine);

    assert_eq!(engine.get_run(id).unwrap().status, RunStatus::Completed);
    let resources = engine.backend().list_resources(id).unwrap();
    assert_eq!(resources.len(), 1);
    assert_eq!(resources[0].metadata.get_str("sandbox_id"), Some("sb-1"));
    let artifacts = engine.backend().list_artifacts(id).unwrap();
    assert_eq!(artifacts.len(), 1);
    assert_eq!(artifacts[0].kind, "report");
}

#[test]
fn selective_signal_consume() {
    let mut backend = InMemoryBackend::new();
    let id = suxel::ids::RunId::new();
    let now = Timestamp::now();
    backend.deliver(id, "a", Json::number(1), now).unwrap();
    backend.deliver(id, "b", Json::number(2), now).unwrap();
    backend.deliver(id, "a", Json::number(3), now).unwrap();

    let first = backend.take_signal(id, "a").unwrap().expect("first a");
    assert_eq!(first.payload, Json::number(1));
    assert!(
        backend.has_unconsumed(id, "b").unwrap(),
        "an untaken signal must not be consumed"
    );
    let second = backend.take_signal(id, "a").unwrap().expect("second a");
    assert_eq!(second.payload, Json::number(3));
    assert!(backend.take_signal(id, "a").unwrap().is_none());
    let b = backend.take_signal(id, "b").unwrap().expect("b");
    assert_eq!(b.payload, Json::number(2));
}

#[test]
fn concurrent_appends_get_distinct_seqs() {
    let mut backend = InMemoryBackend::new();
    let id = suxel::ids::RunId::new();
    let mut seqs: Vec<u64> = (0..16)
        .map(|_| {
            backend
                .append(id, EventKind::ToolCallRecorded, Json::object(), Timestamp::now())
                .unwrap()
        })
        .collect();
    seqs.sort();
    assert_eq!(seqs, (1..=16).collect::<Vec<u64>>());
    let read: Vec<u64> = backend.read(id, 0).unwrap().iter().map(|e| e.seq).collect();
    assert_eq!(read, seqs);
}
