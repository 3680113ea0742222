//! The HTTP API on the backend in memory: what each request is answered.

use suxel::api::{
    approve, cancel, create_run, get_events, get_run, list_artifacts, list_children, parse_id,
    signal, ApiError, CreateRunRequest, EventStream, SignalRequest, StreamStep,
    MAX_CONSECUTIVE_ERRORS, STREAM_PAUSE_MILLIS,
};
use suxel::driver::{Advance, AgentDriver, RunContext};
use suxel::engine::Engine;
use suxel::error::Error;
use suxel::event::{Event, EventKind};
use suxel::ids::RunId;
use suxel::json::Json;
use suxel::mem::InMemoryBackend;
use suxel::run::{RunSpec, RunStatus};
use suxel::signal::{ApprovalDecision, ApprovalResolution};
use suxel::time::Timestamp;

/// Completes once the signal `go` is there; leaves an artifact.
struct Waiter;

impl AgentDriver<InMemoryBackend> for Waiter {
    fn advance(&self, ctx: &mut RunContext<InMemoryBackend>) -> Result<Advance, Error> {
        match ctx.take_signal("go")? {
            Some(payload) => {
                ctx.put_artifact("note", "mem://n", Json::object())?;
                Ok(Advance::Complete { output: payload })
            }
            None => Ok(Advance::WaitForSignal {
                name: "go".to_string(),
                timeout: None,
            }),
        }
    }
}

fn engine() -> Engine<InMemoryBackend, Waiter> {
    Engine::new(InMemoryBackend::new())
}

fn request(text: &str) -> CreateRunRequest {
    CreateRunRequest::from_doc(&Json::parse(text.as_bytes()).unwrap()).unwrap()
}

fn items(doc: &Json) -> &Vec<Json> {
    match doc {
        Json::Array(items) => items,
        _ => panic!("no list"),
    }
}

#[test]
fn create_then_fetch_a_run() {
    let mut engine = engine();
    let body = create_run(
        &mut engine,
        request(r#"{"agent_type":"demo","goal":"do a thing"}"#),
    )
    .unwrap();
    let run_id = body.get_str("run_id").unwrap().to_string();

    let run = get_run(&engine, &run_id).unwrap();
    assert_eq!(run.get_str("agent_type"), Some("demo"));
    assert_eq!(run.get_str("goal"), Some("do a thing"));
    assert_eq!(run.get_str("status"), Some("pending"));

    let events = get_events(&engine, &run_id, None).unwrap();
    assert_eq!(items(&events)[0].get_str("kind"), Some("run_created"));
}

#[test]
fn unknown_run_is_404_and_bad_id_is_400() {
    let engine = engine();
    let missing = get_run(&engine, "0192f000-0000-7000-8000-000000000000").unwrap_err();
    assert_eq!(missing.status(), 404);
    assert_eq!(
        missing.body().get_str("error"),
        Some("run not found: 0192f000-0000-7000-8000-000000000000")
    );
    let bad = get_run(&engine, "not-a-uuid").unwrap_err();
    assert_eq!(bad.status(), 400);
}

#[test]
fn streams_events_as_sse_until_terminal() {
    // Without a driver the run fails when it is processed.
    let mut engine = engine();
    let id = engine
        .create_run(RunSpec {
            agent_type: "x".to_string(),
            goal: "g".to_string(),
            ..RunSpec::default()
        })
        .unwrap();
    assert!(engine.run_until_idle("w", 1000).unwrap());

    let mut stream = EventStream::open(&engine, &id.text(), None).unwrap();
    let (events, step) = stream.round(engine.backend());
    let kinds: Vec<EventKind> = events.iter().map(|e| e.kind).collect();
    assert!(kinds.contains(&EventKind::RunCreated));
    assert!(events[0].to_doc().print().contains("run_created"));
    assert_eq!(step, StreamStep::Finish);
    assert_eq!(engine.get_run(id).unwrap().status, RunStatus::Failed);
}

#[test]
fn a_run_is_signalled_and_its_artifacts_listed() {
    let mut engine = engine().with_driver("w", Waiter);
    let body = create_run(&mut engine, request(r#"{"agent_type":"w","goal":""}"#)).unwrap();
    let id = body.get_str("run_id").unwrap().to_string();
    assert!(engine.run_until_idle("k", 1000).unwrap());
    assert_eq!(
        get_run(&engine, &id).unwrap().get_str("status"),
        Some("waiting_signal")
    );
    let send = SignalRequest::from_doc(
        &Json::parse(br#"{"name":"go","payload":{"n":"v"}}"#).unwrap(),
    )
    .unwrap();
    assert!(matches!(
        signal(&mut engine, &id, send).unwrap().get_str("status"),
        Some("ok")
    ));
    assert!(engine.run_until_idle("k", 1000).unwrap());
    let run = get_run(&engine, &id).unwrap();
    assert_eq!(run.get_str("status"), Some("completed"));
    assert_eq!(run.get("output").unwrap().get_str("n"), Some("v"));
    let artifacts = list_artifacts(&engine, &id).unwrap();
    assert_eq!(items(&artifacts)[0].get_str("kind"), Some("note"));
    assert!(items(&list_children(&engine, &id).unwrap()).is_empty());
    // From a place within the log.
    let all = items(&get_events(&engine, &id, None).unwrap()).len();
    let late = items(&get_events(&engine, &id, Some(2)).unwrap()).len();
    assert_eq!(late, all - 2);
}

#[test]
fn a_cancelled_run_is_final() {
    let mut engine = engine().with_driver("w", Waiter);
    let parent = engine
        .create_run(RunSpec {
            agent_type: "w".to_string(),
            ..RunSpec::default()
        })
        .unwrap();
    let child = request(&format!(
        r#"{{"agent_type":"w","goal":"","parent_id":"{}"}}"#,
        parent.text()
    ));
    create_run(&mut engine, child).unwrap();
    let kids = list_children(&engine, &parent.text()).unwrap();
    assert_eq!(items(&kids).len(), 1);
    assert!(cancel(&mut engine, &parent.text()).is_ok());
    let kids = list_children(&engine, &parent.text()).unwrap();
    assert_eq!(items(&kids)[0].get_str("status"), Some("cancelled"));
    assert_eq!(
        get_run(&engine, &parent.text()).unwrap().get_str("status"),
        Some("cancelled")
    );
}

#[test]
fn calls_on_a_run_that_is_not_there_are_answered_so() {
    let mut engine = engine();
    let nobody = RunId { value: 1 }.text();
    let yes = ApprovalResolution {
        tool_call_id: "c".to_string(),
        decision: ApprovalDecision::Allow,
    };
    assert_eq!(approve(&mut engine, &nobody, yes).unwrap_err().status(), 404);
    let go = SignalRequest {
        name: "go".to_string(),
        payload: Json::Null,
    };
    assert_eq!(signal(&mut engine, &nobody, go).unwrap_err().status(), 404);
    // There is nothing to cancel.
    assert_eq!(
        cancel(&mut engine, &nobody).unwrap().get_str("status"),
        Some("ok")
    );
    assert_eq!(cancel(&mut engine, "?").unwrap_err().status(), 400);
    assert_eq!(list_children(&engine, "?").unwrap_err().status(), 400);
    assert_eq!(list_artifacts(&engine, "?").unwrap_err().status(), 400);
    assert_eq!(get_events(&engine, "?", None).unwrap_err().status(), 400);
    assert_eq!(EventStream::open(&engine, "?", None).unwrap_err().status(), 400);
}

#[test]
fn an_approval_resumes_a_run() {
    let mut engine = Engine::new(InMemoryBackend::new())
        .with_driver("a", suxel::testkit::ApprovalDriver);
    let id = engine
        .create_run(RunSpec {
            agent_type: "a".to_string(),
            ..RunSpec::default()
        })
        .unwrap();
    assert!(engine.run_until_idle("k", 1000).unwrap());
    assert_eq!(engine.get_run(id).unwrap().status, RunStatus::WaitingApproval);
    let yes = ApprovalResolution {
        tool_call_id: "call-1".to_string(),
        decision: ApprovalDecision::Allow,
    };
    assert!(approve(&mut engine, &id.text(), yes).is_ok());
    assert_eq!(engine.get_run(id).unwrap().status, RunStatus::Pending);
}

#[test]
fn errors_have_their_status() {
    let status = |e: Error| ApiError::from_error(e).status();
    assert_eq!(status(Error::RunNotFound(RunId { value: 2 })), 404);
    assert_eq!(status(Error::NoDriver("x".to_string())), 500);
    assert_eq!(status(Error::Serde("x".to_string())), 500);
    assert_eq!(status(Error::storage("x".to_string())), 500);
    assert_eq!(
        ApiError::from_error(Error::driver("x".to_string()))
            .body()
            .get_str("error"),
        Some("driver: x")
    );
}

#[test]
fn ids_are_read_from_their_texts() {
    let id = parse_id("0192f000-0000-7000-8000-000000000001").unwrap();
    assert_eq!(id.text(), "0192f000-0000-7000-8000-000000000001");
    let e = parse_id("zz").unwrap_err();
    assert_eq!(e.status(), 400);
}

#[test]
fn a_request_for_a_run_needs_its_agent() {
    let read = |text: &str| CreateRunRequest::from_doc(&Json::parse(text.as_bytes()).unwrap());
    assert!(read("{}").is_none());
    assert!(read(r#"{"agent_type":"a"}"#).is_none());
    assert!(read(r#"{"agent_type":5,"goal":"g"}"#).is_none());
    let full = read(
        r#"{"agent_type":"a","goal":"g","input":{"k":"v"},"session_ref":"s",
            "budget":{"max_tokens":5},"parent_id":"zz"}"#,
    )
    .unwrap();
    assert_eq!(full.into_spec().unwrap_err().status(), 400);
    let spec = request(
        r#"{"agent_type":"a","goal":"g","session_ref":"s","budget":{"max_tokens":5}}"#,
    )
    .into_spec()
    .unwrap();
    assert_eq!(spec.goal, "g");
    assert_eq!(spec.session_ref.as_deref(), Some("s"));
    assert_eq!(spec.budget.max_tokens, Some(5));
    assert!(SignalRequest::from_doc(&Json::object()).is_none());
}

fn event(seq: u64) -> Event {
    Event {
        run_id: RunId { value: 4 },
        seq,
        kind: EventKind::StepStarted,
        payload: Json::Null,
        at: Timestamp { nanos: 0 },
    }
}

#[test]
fn a_stream_gives_up_after_too_many_failures() {
    assert_eq!(MAX_CONSECUTIVE_ERRORS, 20);
    assert_eq!(STREAM_PAUSE_MILLIS, 250);
    let mut engine = engine();
    let id = engine.create_run(RunSpec::default()).unwrap();
    let mut stream = EventStream::open(&engine, &id.text(), Some(3)).unwrap();
    for _ in 0..19 {
        assert_eq!(stream.judge(true, None), StreamStep::Wait);
    }
    // A round that goes well starts the count again.
    assert_eq!(stream.judge(false, Some(false)), StreamStep::Wait);
    for _ in 0..19 {
        assert_eq!(stream.judge(false, None), StreamStep::Wait);
    }
    assert_eq!(stream.judge(true, None), StreamStep::GiveUp);
}

#[test]
fn a_stream_of_a_run_that_is_gone_never_says_done() {
    let backend = InMemoryBackend::new();
    let mut stream = EventStream {
        run_id: RunId { value: 4 },
        cursor: 7,
        errors: 0,
    };
    for _ in 0..19 {
        let (events, step) = stream.round(&backend);
        assert!(events.is_empty());
        assert_eq!(step, StreamStep::Wait);
    }
    assert_eq!(stream.round(&backend).1, StreamStep::GiveUp);
    assert_eq!(stream.cursor, 7);
}

#[test]
fn a_stream_resumes_where_it_was() {
    let mut engine = engine();
    let id = engine
        .create_run(RunSpec {
            agent_type: "none".to_string(),
            ..RunSpec::default()
        })
        .unwrap();
    let mut stream = EventStream::open(&engine, &id.text(), None).unwrap();
    let (first, step) = stream.round(engine.backend());
    assert_eq!(step, StreamStep::Wait);
    let (again, _) = stream.round(engine.backend());
    assert!(again.is_empty());
    assert!(engine.run_until_idle("w", 1000).unwrap());
    let (rest, step) = stream.round(engine.backend());
    assert_eq!(step, StreamStep::Finish);
    assert_eq!(rest[0].seq, first[first.len() - 1].seq + 1);
    let mut other = EventStream::open(&engine, &id.text(), None).unwrap();
    other.advance(&vec![event(0), event(6)]);
    assert!(other.round(engine.backend()).0.is_empty());
}
