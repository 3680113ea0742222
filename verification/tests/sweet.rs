//! Agents of a framework, run durably: the framework here is a small mock.

use std::cell::{Cell, RefCell};
use std::collections::HashMap;
use std::rc::Rc;

use suxel::driver::{Advance, AgentDriver, ChildSpec, RunContext};
use suxel::engine::Engine;
use suxel::error::Error;
use suxel::event::EventKind;
use suxel::ids::RunId;
use suxel::json::{Json, Number};
use suxel::mem::InMemoryBackend;
use suxel::run::{JoinMode, Run, RunSpec, RunStatus};
use suxel::signal::{ApprovalDecision, ApprovalResolution};
use suxel::step::RetryPolicy;
use suxel::store::{ArtifactStore, Clock, EventLog, RunStore, StepStore};
use suxel::sweet::{
    choose_turn, prepare_turn, turn_result, wrap_tool, BuildContext, DurableIo, PendingCall,
    ToolApproval, Turn, TurnOutcome, PREVIEW_CHARS,
};
use suxel::time::{Duration, Timestamp};
use suxel::wire::RAW_VALUE;

/// An agent as its framework offers it.
trait Agent {
    fn has_pending_approvals(&self) -> bool;
    fn step(&mut self, message: String, io: &DurableIo) -> Result<TurnOutcome, String>;
    fn resume(&mut self, io: &DurableIo) -> Result<TurnOutcome, String>;
}

type Factory = Box<dyn Fn(&BuildContext) -> Result<Box<dyn Agent>, String>>;

/// Runs one turn of an agent on each advance.
struct SweetDriver(Factory);

impl AgentDriver<InMemoryBackend> for SweetDriver {
    fn advance(&self, ctx: &mut RunContext<InMemoryBackend>) -> Result<Advance, Error> {
        let built = (self.0)(&BuildContext::of(ctx));
        let waits = match &built {
            Ok(agent) => Ok(agent.has_pending_approvals()),
            Err(message) => Err(message.clone()),
        };
        let (io, turn) = prepare_turn(ctx, waits)?;
        let mut agent = built.ok().unwrap();
        turn_result(match turn {
            Turn::Resume => agent.resume(&io),
            Turn::Begin(message) => agent.step(message, &io),
        })
    }
}

enum AnyDriver {
    Sweet(SweetDriver),
    Review(ReviewDriver),
}

impl AgentDriver<InMemoryBackend> for AnyDriver {
    fn advance(&self, ctx: &mut RunContext<InMemoryBackend>) -> Result<Advance, Error> {
        match self {
            AnyDriver::Sweet(driver) => driver.advance(ctx),
            AnyDriver::Review(driver) => driver.advance(ctx),
        }
    }
}

/// Answers every message with a fixed or a derived text.
struct Replier(fn(&str) -> String);

impl Agent for Replier {
    fn has_pending_approvals(&self) -> bool {
        false
    }
    fn step(&mut self, message: String, _io: &DurableIo) -> Result<TurnOutcome, String> {
        Ok(TurnOutcome::Message {
            text: (self.0)(&message),
        })
    }
    fn resume(&mut self, _io: &DurableIo) -> Result<TurnOutcome, String> {
        Err("nothing to resume".to_string())
    }
}

/// A session: whether the tool call waits, and what the model and the tool did.
#[derive(Default)]
struct Session {
    waiting: bool,
    asked: u32,
    echoed: u32,
}

/// Asks for one call of `echo`, then says `done` once it sees a result.
struct OneToolThenDone {
    session: Rc<RefCell<Session>>,
}

impl OneToolThenDone {
    fn turn(&mut self, io: &DurableIo) -> Result<TurnOutcome, String> {
        let mut session = self.session.borrow_mut();
        match io.on_tool_approval("call_1") {
            ToolApproval::Defer => {
                session.waiting = true;
                Ok(TurnOutcome::Paused {
                    pending: vec![PendingCall {
                        id: "call_1".to_string(),
                        name: "echo".to_string(),
                        risk: "Dangerous".to_string(),
                    }],
                })
            }
            ToolApproval::Deny => {
                session.waiting = false;
                Ok(TurnOutcome::Message {
                    text: "done".to_string(),
                })
            }
            ToolApproval::Allow | ToolApproval::AllowSession => {
                session.waiting = false;
                session.echoed += 1;
                Ok(TurnOutcome::Message {
                    text: "done".to_string(),
                })
            }
        }
    }
}

impl Agent for OneToolThenDone {
    fn has_pending_approvals(&self) -> bool {
        self.session.borrow().waiting
    }
    fn step(&mut self, _message: String, io: &DurableIo) -> Result<TurnOutcome, String> {
        self.session.borrow_mut().asked += 1;
        self.turn(io)
    }
    fn resume(&mut self, io: &DurableIo) -> Result<TurnOutcome, String> {
        self.turn(io)
    }
}

type Sessions = Rc<RefCell<HashMap<String, Rc<RefCell<Session>>>>>;

fn hitl(sessions: &Sessions) -> AnyDriver {
    let sessions = sessions.clone();
    AnyDriver::Sweet(SweetDriver(Box::new(move |build: &BuildContext| {
        let path = build.session_ref.clone().ok_or("missing session_ref")?;
        let session = sessions.borrow_mut().entry(path).or_default().clone();
        Ok(Box::new(OneToolThenDone { session }) as Box<dyn Agent>)
    })))
}

fn hitl_run(goal: &str) -> RunSpec {
    RunSpec {
        agent_type: "hitl".to_string(),
        goal: goal.to_string(),
        session_ref: Some("sess.db".to_string()),
        ..RunSpec::default()
    }
}

fn answer(decision: ApprovalDecision) -> ApprovalResolution {
    ApprovalResolution {
        tool_call_id: "call_1".to_string(),
        decision,
    }
}

#[test]
fn run_parks_for_approval_then_resumes_to_completion() {
    let sessions = Sessions::default();
    let mut engine = Engine::new(InMemoryBackend::new()).with_driver("hitl", hitl(&sessions));
    let id = engine.create_run(hitl_run("do the dangerous thing")).unwrap();

    assert!(engine.run_until_idle("w", 1000).unwrap());
    assert_eq!(
        engine.get_run(id).unwrap().status,
        RunStatus::WaitingApproval
    );

    engine.approve(id, answer(ApprovalDecision::Allow)).unwrap();
    assert!(engine.run_until_idle("w", 1000).unwrap());

    let run = engine.get_run(id).unwrap();
    assert_eq!(run.status, RunStatus::Completed);
    assert_eq!(run.output.unwrap().get_str("text"), Some("done"));
    // The first turn was finished, not taken again.
    let session = sessions.borrow()["sess.db"].clone();
    assert_eq!(session.borrow().asked, 1);
    assert_eq!(session.borrow().echoed, 1);
}

#[test]
fn denied_approval_completes_with_denial() {
    let sessions = Sessions::default();
    let mut engine = Engine::new(InMemoryBackend::new()).with_driver("hitl", hitl(&sessions));
    let id = engine.create_run(hitl_run("do it")).unwrap();
    assert!(engine.run_until_idle("w", 1000).unwrap());
    assert_eq!(
        engine.get_run(id).unwrap().status,
        RunStatus::WaitingApproval
    );

    engine.approve(id, answer(ApprovalDecision::Deny)).unwrap();
    assert!(engine.run_until_idle("w", 1000).unwrap());

    let run = engine.get_run(id).unwrap();
    assert_eq!(run.status, RunStatus::Completed);
    assert_eq!(run.output.unwrap().get_str("text"), Some("done"));
    let session = sessions.borrow()["sess.db"].clone();
    assert_eq!(session.borrow().echoed, 0);
}

#[test]
fn an_agent_that_cannot_be_built_fails_the_run() {
    let sessions = Sessions::default();
    let mut engine = Engine::new(InMemoryBackend::new()).with_driver("hitl", hitl(&sessions));
    let id = engine
        .create_run(RunSpec {
            session_ref: None,
            ..hitl_run("x")
        })
        .unwrap();
    assert!(engine.run_until_idle("w", 1000).unwrap());
    let run = engine.get_run(id).unwrap();
    assert_eq!(run.status, RunStatus::Failed);
    assert_eq!(run.error.as_deref(), Some("driver: missing session_ref"));
}

#[test]
fn answers_wait_for_an_agent() {
    let mut ctx = RunContext::new(
        InMemoryBackend::new(),
        Run::from_spec_with_id(hitl_run("g"), RunId { value: 2 }, at()),
        false,
    );
    assert!(matches!(
        prepare_turn(&mut ctx, Err("no model".to_string())),
        Err(Error::Driver(_))
    ));
    let (io, turn) = prepare_turn(&mut ctx, Ok(false)).unwrap();
    assert_eq!(io.run_id, RunId { value: 2 });
    assert!(io.approvals.is_empty());
    assert_eq!(turn, Turn::Begin("g".to_string()));
    assert_eq!(prepare_turn(&mut ctx, Ok(true)).unwrap().1, Turn::Resume);
}

#[test]
fn runs_a_sweet_agent_to_completion_durably() {
    let driver = SweetDriver(Box::new(|_build: &BuildContext| {
        Ok(Box::new(Replier(|_m| "hello from sweet".to_string())) as Box<dyn Agent>)
    }));
    let mut engine = Engine::new(InMemoryBackend::new()).with_driver("sweet", driver);
    let id = engine
        .create_run(RunSpec {
            agent_type: "sweet".to_string(),
            goal: "hi".to_string(),
            ..RunSpec::default()
        })
        .unwrap();
    assert!(engine.run_until_idle("w", 1000).unwrap());

    let run = engine.get_run(id).unwrap();
    assert_eq!(run.status, RunStatus::Completed);
    assert_eq!(run.output.unwrap().get_str("text"), Some("hello from sweet"));

    let kinds: Vec<EventKind> = engine
        .backend()
        .read(id, 0)
        .unwrap()
        .into_iter()
        .map(|e| e.kind)
        .collect();
    assert!(kinds.contains(&EventKind::RunCreated));
    assert!(kinds.contains(&EventKind::RunCompleted));
}

fn at() -> Timestamp {
    Timestamp { nanos: 5 }
}

fn accept(_doc: &Json) -> bool {
    true
}

#[test]
fn wrap_tool_memoizes_side_effects() {
    let calls = Cell::new(0);
    let mut backend = InMemoryBackend::new();
    let wrapped = wrap_tool("count", RunId::new());
    let inner = |_args: &Json| -> Result<Json, String> {
        calls.set(calls.get() + 1);
        Ok(Json::string("side-effect-done"))
    };
    let one = Json::object().with("x", Json::number(1));
    let two = Json::object().with("x", Json::number(2));

    let a = wrapped
        .call_rich(&mut backend, &one, accept, inner, at())
        .unwrap();
    let b = wrapped
        .call_rich(&mut backend, &one, accept, inner, at())
        .unwrap();
    assert_eq!(calls.get(), 1, "memoized result re-ran the side effect");
    assert_eq!(a.as_str(), Some("side-effect-done"));
    assert_eq!(b.as_str(), Some("side-effect-done"));

    wrapped
        .call_rich(&mut backend, &two, accept, inner, at())
        .unwrap();
    assert_eq!(calls.get(), 2);
}

#[test]
fn only_a_readable_success_is_given_back() {
    let mut backend = InMemoryBackend::new();
    let tool = wrap_tool("t", RunId { value: 1 });
    let args = Json::object();
    let fail = |_a: &Json| -> Result<Json, String> { Err("no".to_string()) };
    let good = |_a: &Json| -> Result<Json, String> { Ok(Json::string("yes")) };
    assert_eq!(
        tool.call_rich(&mut backend, &args, accept, fail, at())
            .unwrap_err(),
        "no"
    );
    let key = tool.step_key(&args);
    assert!(tool.saved(&backend, &key).is_none());
    tool.call_rich(&mut backend, &args, accept, good, at())
        .unwrap();
    assert_eq!(tool.saved(&backend, &key).unwrap().as_str(), Some("yes"));
    // What cannot be read is computed again.
    let unreadable = |_doc: &Json| false;
    assert!(tool
        .call_rich(&mut backend, &args, unreadable, fail, at())
        .is_err());
    let record = backend
        .lookup_step(RunId { value: 1 }, &key)
        .unwrap()
        .unwrap();
    assert_eq!(record.attempts, 1);
    assert_eq!(record.updated_at, at());
}

#[test]
fn a_call_is_keyed_by_tool_and_arguments() {
    let tool = wrap_tool("t", RunId { value: 1 });
    let one = tool.step_key(&Json::object().with("x", Json::number(1)));
    let two = tool.step_key(&Json::object().with("x", Json::number(2)));
    assert!(one.starts_with("tool:t:"));
    assert_ne!(one, two);
    assert_eq!(
        one,
        tool.step_key(&Json::parse(br#"{ "x" : 1 }"#).unwrap())
    );
    let other = wrap_tool("u", RunId { value: 1 });
    assert_ne!(one, other.step_key(&Json::object().with("x", Json::number(1))));
    assert_eq!(one, r#"tool:t:{"x":1}:1"#);
    let colon = wrap_tool("t:1", RunId { value: 1 });
    assert_ne!(
        colon.step_key(&Json::number(2)),
        tool.step_key(&Json::string("1:2"))
    );
}

#[test]
fn calls_with_different_fractions_have_different_keys() {
    let tool = wrap_tool("t", RunId { value: 1 });
    let key = |text: &str| tool.step_key(&Json::parse(text.as_bytes()).unwrap());
    assert_ne!(key(r#"{"x":0.5}"#), key(r#"{"x":0.25}"#));
    assert_eq!(key(r#"{"x":0.5}"#), key(r#"{ "x" : 0.5 }"#));
    assert_eq!(key(r#"{"x":0.5}"#), r#"tool:t:{"=x":{"fraction":"0.5"}}:1s"#);
    // Neither an object that looks like a fraction nor marked names are mistaken for one.
    assert_ne!(key("0.5"), key(r#"{"fraction":"0.5"}"#));
    assert_ne!(key(r#"{"x":0.5}"#), key(r#"{"=x":{"fraction":"0.5"}}"#));
    assert_ne!(key("5"), key("5.0"));
    // Fractions that one floating-point number holds are still told apart as written.
    let written = |text: &str| Json::Number(Number::Fraction(text.to_owned()));
    assert_ne!(
        tool.step_key(&written("0.1")),
        tool.step_key(&written("0.10000000000000000001"))
    );
    // The last member of a name counts.
    let twice = Json::object().with("x", written("0.5")).with("x", Json::number(1));
    assert!(twice.is_plain());
    assert_eq!(tool.step_key(&twice), r#"tool:t:{"x":1}:1"#);
}

#[test]
fn a_document_is_spelled_without_fractions() {
    let doc = Json::parse(br#"{"a":[1,-2,0.5,"s",null,true],"$serde_json::private::RawValues":{}}"#)
        .unwrap();
    assert!(!doc.is_plain());
    assert_eq!(
        doc.spell().print(),
        r#"{"=$serde_json::private::RawValues":{},"=a":[1,-2,{"fraction":"0.5"},"s",null,true]}"#
    );
    assert_eq!(doc.tell().print(), doc.spell().print());
    let signed = Json::Number(Number::Signed(3));
    assert!(!signed.is_plain());
    assert_eq!(signed.spell().print(), r#"{"signed":3}"#);
    let raw = Json::object().with(RAW_VALUE, Json::Null);
    assert!(!raw.is_plain());
    assert_eq!(raw.tell().print(), r#"{"=$serde_json::private::RawValue":null}"#);
    let plain = Json::parse(br#"[{"a":[1,-2,"s"]}]"#).unwrap();
    assert!(plain.is_plain());
    assert_eq!(plain.tell().print(), r#"[{"a":[1,-2,"s"]}]"#);
    assert_eq!(plain.spell().print(), r#"[{"=a":[1,-2,"s"]}]"#);
}

#[test]
fn the_last_answer_counts() {
    let io = DurableIo::with_approvals(
        RunId { value: 1 },
        vec![
            answer(ApprovalDecision::Deny),
            answer(ApprovalDecision::AllowAlways),
            ApprovalResolution {
                tool_call_id: "other".to_string(),
                decision: ApprovalDecision::Allow,
            },
        ],
    );
    assert_eq!(io.on_tool_approval("call_1"), ToolApproval::AllowSession);
    assert_eq!(io.on_tool_approval("other"), ToolApproval::Allow);
    assert_eq!(io.on_tool_approval("none"), ToolApproval::Defer);
    assert_eq!(
        DurableIo::new(RunId { value: 1 }).on_tool_approval("call_1"),
        ToolApproval::Defer
    );
    let no = vec![answer(ApprovalDecision::Deny)];
    let denied = DurableIo::with_approvals(RunId { value: 1 }, no);
    assert_eq!(denied.on_tool_approval("call_1"), ToolApproval::Deny);
}

#[test]
fn tool_calls_are_journaled_with_a_preview() {
    let mut backend = InMemoryBackend::new();
    let run = Run::from_spec_with_id(RunSpec::default(), RunId { value: 8 }, at());
    backend.create_run(&run).unwrap();
    let io = DurableIo::new(run.id);
    io.on_tool_call(&mut backend, "c", "echo", at());
    let long = "\u{e9}".repeat(PREVIEW_CHARS + 1);
    io.on_tool_result(&mut backend, "c", "echo", &long, at());
    io.on_tool_result(&mut backend, "c", "echo", "short", at());
    let events = backend.read(run.id, 0).unwrap();
    assert_eq!(events.len(), 3);
    assert!(events.iter().all(|e| e.kind == EventKind::ToolCallRecorded));
    assert_eq!(events[0].payload.get_str("name"), Some("echo"));
    assert!(events[0].payload.get("result_preview").is_none());
    let preview = events[1].payload.get_str("result_preview").unwrap();
    assert_eq!(preview.chars().count(), 500);
    assert_eq!(events[2].payload.get_str("result_preview"), Some("short"));
}

#[test]
fn an_outcome_advances_the_run() {
    match (TurnOutcome::Handoff {
        target: "b".to_string(),
        payload: Json::Bool(true),
    })
    .into_advance()
    {
        Advance::Complete { output } => {
            let handoff = output.get("handoff").unwrap();
            assert_eq!(handoff.get_str("target"), Some("b"));
            assert!(matches!(handoff.get("payload"), Some(Json::Bool(true))));
        }
        _ => panic!("a handoff completes"),
    }
    match (TurnOutcome::Paused { pending: vec![] }).into_advance() {
        Advance::WaitForApproval { request } => {
            assert_eq!(request.tool_call_id, "");
            assert_eq!(request.summary, "approval required");
            assert_eq!(request.risk, "unknown");
        }
        _ => panic!("a pause waits"),
    }
    assert!(matches!(turn_result(Err("x".to_string())), Err(Error::Driver(_))));
    assert_eq!(choose_turn(true, "g"), Turn::Resume);
    assert_eq!(choose_turn(false, "g"), Turn::Begin("g".to_string()));
}

// ---- a pipeline ----------------------------------------------------------------

const N_CHECKERS: usize = 6;

fn run_one_turn(model: fn(&str) -> String, input: &str) -> Result<Json, String> {
    let io = DurableIo::new(RunId { value: 0 });
    match Replier(model).step(input.to_string(), &io)? {
        TurnOutcome::Message { text } => Ok(Json::string(&text)),
        _ => Err("unexpected handoff".to_string()),
    }
}

/// Fans out checkers, then coordinates and writes.
struct ReviewDriver;

impl AgentDriver<InMemoryBackend> for ReviewDriver {
    fn advance(&self, ctx: &mut RunContext<InMemoryBackend>) -> Result<Advance, Error> {
        let children = ctx.children()?;
        if children.is_empty() {
            let specs = (0..N_CHECKERS)
                .map(|i| ChildSpec {
                    agent_type: "checker".to_string(),
                    goal: format!("checker-{i}"),
                    ..ChildSpec::default()
                })
                .collect();
            return Ok(Advance::SpawnChildren {
                specs,
                join: JoinMode::All,
            });
        }
        let summary = children
            .iter()
            .filter_map(|c| c.output.as_ref().and_then(|o| o.get_str("text")))
            .collect::<Vec<&str>>()
            .join("; ");
        let synthesis = ctx.durable_step(
            "coordinate",
            RetryPolicy::none(),
            || run_one_turn(|m| format!("synthesis: {m}"), &summary),
            |_d: Duration| {},
        )?;
        let input = synthesis.as_str().unwrap().to_string();
        let report = ctx.durable_step(
            "write",
            RetryPolicy::none(),
            || run_one_turn(|m| format!("report: {m}"), &input),
            |_d: Duration| {},
        )?;
        let checkers = Json::number(children.len() as u64);
        ctx.put_artifact(
            "review_report",
            "mem://report.md",
            Json::object().with("checkers", checkers.clone()),
        )?;
        Ok(Advance::Complete {
            output: Json::object()
                .with("report", report)
                .with("checkers", checkers),
        })
    }
}

#[test]
fn durable_review_pipeline_fans_out_and_reduces() {
    let checker = SweetDriver(Box::new(|_build: &BuildContext| {
        Ok(Box::new(Replier(|m| format!("verdict({m})"))) as Box<dyn Agent>)
    }));
    let mut engine = Engine::new(InMemoryBackend::new())
        .with_driver("review", AnyDriver::Review(ReviewDriver))
        .with_driver("checker", AnyDriver::Sweet(checker));
    let id = engine
        .create_run(RunSpec {
            agent_type: "review".to_string(),
            goal: "review the paper".to_string(),
            ..RunSpec::default()
        })
        .unwrap();
    assert!(engine.run_until_idle("w", 1000).unwrap());

    let run = engine.get_run(id).unwrap();
    assert_eq!(run.status, RunStatus::Completed);
    let out = run.output.unwrap();
    assert!(matches!(
        out.get("checkers"),
        Some(Json::Number(Number::Unsigned(n))) if *n == N_CHECKERS as u64
    ));
    let report = out.get_str("report").unwrap();
    assert!(
        report.starts_with("report: synthesis: verdict(checker-"),
        "report was: {report}"
    );

    let kids = engine.backend().list_children(id).unwrap();
    assert_eq!(kids.len(), N_CHECKERS);
    assert!(kids.iter().all(|k| k.status == RunStatus::Completed));

    let artifacts = engine.backend().list_artifacts(id).unwrap();
    assert_eq!(artifacts.len(), 1);
    assert_eq!(artifacts[0].kind, "review_report");
    assert!(engine.backend().now().nanos > 0);
}
