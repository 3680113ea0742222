//! Runs, events and the rest as rows of a table.

use suxel::artifact::Artifact;
use suxel::budget::{Budget, BudgetUsage, Usd};
use suxel::engine::Engine;
use suxel::error::Error;
use suxel::event::{Event, EventKind};
use suxel::ids::{ArtifactId, ResourceId, RunId};
use suxel::json::{Json, Number};
use suxel::mem::InMemoryBackend;
use suxel::resource::{Resource, ResourceKind, ResourceStatus};
use suxel::run::{JoinMode, Run, RunSpec, RunStatus, Wait};
use suxel::sql_encoding::{
    artifact_from_row, dt, event_from_row, lease_until, ms, opt_value_to_json, parse_run_id,
    ready_ms, resource_from_row, row_from_artifact, row_from_event, row_from_resource, row_from_run,
    row_from_signal, row_from_step, run_from_row, signal_from_row, step_from_row, to_json,
    EventRow, RUN_COLUMNS,
};
use suxel::step::{StepKey, StepRecord, StepStatus};
use suxel::store::{EventLog, RunStore};
use suxel::testkit::SignalDriver;
use suxel::time::{Duration, Timestamp};

fn millis(n: i128) -> Timestamp {
    Timestamp {
        nanos: n * 1_000_000,
    }
}

fn full_run() -> Run {
    let mut run = Run::from_spec_with_id(
        RunSpec {
            agent_type: "a".to_string(),
            goal: "g \"quoted\"".to_string(),
            input: Some(Json::object().with("k", Json::number(7))),
            parent_id: Some(RunId { value: 11 }),
            session_ref: Some("s".to_string()),
            budget: Budget {
                max_tokens: Some(10),
                max_cost_usd: Some(Usd {
                    nanos: 3_000_000_000,
                }),
                max_wall_clock_secs: None,
                max_tool_calls: Some(2),
                max_children: None,
            },
            ..RunSpec::default()
        },
        RunId { value: 0xabc },
        millis(1_750_000_000_123),
    );
    run.status = RunStatus::WaitingSignal;
    run.waiting = Some(Wait::Signal {
        name: "go".to_string(),
        deadline: Some(millis(1_750_000_000_500)),
    });
    run.usage = BudgetUsage {
        tokens: 4,
        cost_usd: Usd {
            nanos: 1_000_000_000,
        },
        tool_calls: 1,
        children: 0,
    };
    run.updated_at = millis(1_750_000_000_200);
    run
}

#[test]
fn a_run_is_read_back_from_its_row() {
    let run = full_run();
    let row = row_from_run(&run);
    assert_eq!(row.id, "00000000-0000-0000-0000-000000000abc");
    assert_eq!(row.status, "\"waiting_signal\"");
    assert_eq!(row.created_at, 1_750_000_000_123);
    let again = run_from_row(row).unwrap();
    assert_eq!(again.id, run.id);
    assert_eq!(again.parent_id, run.parent_id);
    assert_eq!(again.agent_type, run.agent_type);
    assert_eq!(again.goal, run.goal);
    assert_eq!(again.status, run.status);
    assert_eq!(again.session_ref, run.session_ref);
    assert_eq!(again.budget, run.budget);
    assert_eq!(again.usage, run.usage);
    assert_eq!(again.created_at, run.created_at);
    assert_eq!(again.updated_at, run.updated_at);
    assert!(again.output.is_none());
    assert!(again.error.is_none());
    assert!(matches!(
        again.input.unwrap().get("k"),
        Some(Json::Number(Number::Unsigned(7)))
    ));
    match again.waiting.unwrap() {
        Wait::Signal { name, deadline } => {
            assert_eq!(name, "go");
            assert_eq!(deadline, Some(millis(1_750_000_000_500)));
        }
        _ => panic!("another wait"),
    }
}

#[test]
fn every_wait_is_read_back() {
    for wait in [
        Wait::Approval,
        Wait::Timer,
        Wait::ChildJoin {
            mode: JoinMode::All,
        },
        Wait::ChildJoin {
            mode: JoinMode::Any,
        },
        Wait::ChildJoin {
            mode: JoinMode::Quorum(2),
        },
        Wait::Signal {
            name: "x".to_string(),
            deadline: None,
        },
    ] {
        let text = format!("{wait:?}");
        let mut run = full_run();
        run.waiting = Some(wait);
        let again = run_from_row(row_from_run(&run)).unwrap();
        assert_eq!(format!("{:?}", again.waiting.unwrap()), text);
    }
}

#[test]
fn a_row_that_makes_no_sense_is_an_error() {
    let broken = |change: fn(&mut suxel::sql_encoding::RunRow)| {
        let mut row = row_from_run(&full_run());
        change(&mut row);
        run_from_row(row).is_err()
    };
    assert!(!broken(|_row| {}));
    assert!(broken(|row| row.id = "x".to_string()));
    assert!(broken(|row| row.parent_id = Some("x".to_string())));
    assert!(broken(|row| row.input = Some("{".to_string())));
    assert!(broken(|row| row.status = "\"sleepy\"".to_string()));
    assert!(broken(|row| row.status = "pending".to_string()));
    assert!(broken(|row| row.waiting = Some("\"nap\"".to_string())));
    assert!(broken(|row| row.budget = "7".to_string()));
    assert!(broken(|row| row.usage = "[".to_string()));
    assert!(broken(|row| row.output = Some("?".to_string())));
}

#[test]
fn an_event_is_read_back_from_its_row() {
    let event = Event {
        run_id: RunId { value: 3 },
        seq: 12,
        kind: EventKind::StepCompleted,
        payload: Json::object().with("key", Json::string("s")),
        at: millis(-5),
    };
    let row = row_from_event(&event);
    assert_eq!(row.kind, "\"step_completed\"");
    assert_eq!(row.payload, r#"{"key":"s"}"#);
    let again = event_from_row(event.run_id, row).unwrap();
    assert_eq!(again.seq, 12);
    assert_eq!(again.kind, EventKind::StepCompleted);
    assert_eq!(again.at, millis(-5));
    assert_eq!(again.payload.get_str("key"), Some("s"));
    let odd = EventRow {
        seq: 1,
        kind: "\"step_dreamt\"".to_string(),
        payload: "{}".to_string(),
        at: 0,
    };
    assert!(matches!(
        event_from_row(RunId { value: 3 }, odd),
        Err(Error::Serde(_))
    ));
}

#[test]
fn a_step_is_read_back_from_its_row() {
    let record = StepRecord {
        run_id: RunId { value: 3 },
        key: StepKey("k".to_string()),
        status: StepStatus::Failed,
        output: None,
        error: Some("e".to_string()),
        attempts: 2,
        updated_at: millis(9),
    };
    let again = step_from_row(record.run_id, "k", row_from_step(&record)).unwrap();
    assert_eq!(again.status, StepStatus::Failed);
    assert!(again.output.is_none());
    assert_eq!(again.error.as_deref(), Some("e"));
    assert_eq!(again.attempts, 2);
    assert_eq!(again.updated_at, millis(9));
}

#[test]
fn a_signal_is_read_back_from_its_row() {
    let row = row_from_signal("go", &Json::Bool(true), millis(7));
    let again = signal_from_row(RunId { value: 3 }, row).unwrap();
    assert_eq!(again.name, "go");
    assert!(matches!(again.payload, Json::Bool(true)));
    assert_eq!(again.created_at, millis(7));
}

#[test]
fn a_resource_is_read_back_from_its_row() {
    let resource = Resource {
        id: ResourceId { value: 5 },
        run_id: RunId { value: 3 },
        kind: ResourceKind::CodeSandbox,
        status: ResourceStatus::Active,
        metadata: Json::object().with("sandbox_id", Json::string("sb")),
        lease_expires_at: Some(millis(88)),
        created_at: millis(7),
    };
    let again = resource_from_row(resource.run_id, row_from_resource(&resource)).unwrap();
    assert_eq!(again.id, resource.id);
    assert_eq!(again.kind, resource.kind);
    assert_eq!(again.status, resource.status);
    assert_eq!(again.metadata.get_str("sandbox_id"), Some("sb"));
    assert_eq!(again.lease_expires_at, Some(millis(88)));
}

#[test]
fn an_artifact_is_read_back_from_its_row() {
    let artifact = Artifact {
        id: ArtifactId { value: 6 },
        run_id: RunId { value: 3 },
        kind: "report".to_string(),
        uri: "mem://r".to_string(),
        metadata: Json::Null,
        created_at: millis(7),
    };
    let again = artifact_from_row(artifact.run_id, row_from_artifact(&artifact)).unwrap();
    assert_eq!(again.id, artifact.id);
    assert_eq!(again.kind, "report");
    assert_eq!(again.uri, "mem://r");
    assert!(matches!(again.metadata, Json::Null));
}

#[test]
fn instants_are_kept_in_milliseconds() {
    assert_eq!(ms(Timestamp { nanos: 1_999_999 }), 1);
    assert_eq!(ms(Timestamp { nanos: -1 }), -1);
    assert_eq!(dt(1_500).nanos, 1_500_000_000);
    assert_eq!(dt(ms(millis(1_750_000_000_123))), millis(1_750_000_000_123));
    // The ends of the calendar, and what lies beyond them.
    assert_eq!(
        dt(8_210_266_876_799_999).nanos,
        8_210_266_876_799_999_000_000
    );
    assert_eq!(
        dt(-8_334_601_228_800_000).nanos,
        -8_334_601_228_800_000_000_000
    );
    assert_eq!(dt(8_210_266_876_800_000).nanos, 0);
    assert_eq!(dt(-8_334_601_228_800_001).nanos, 0);
    assert_eq!(dt(i64::MAX).nanos, 0);
}

#[test]
fn a_lease_ends_after_its_span() {
    assert_eq!(lease_until(1_000, Duration::from_secs(30)), 31_000);
    assert_eq!(lease_until(0, Duration { nanos: 1_999_999 }), 1);
}

#[test]
fn documents_are_kept_as_texts() {
    assert_eq!(to_json(&Json::object().with("a", Json::number(1))), r#"{"a":1}"#);
    assert_eq!(opt_value_to_json(&None), None);
    assert_eq!(opt_value_to_json(&Some(Json::Null)).as_deref(), Some("null"));
    assert_eq!(
        parse_run_id("00000000-0000-0000-0000-00000000000f").unwrap(),
        RunId { value: 15 }
    );
    assert!(matches!(parse_run_id("f"), Err(Error::Storage(_))));
    assert_eq!(RUN_COLUMNS.split(", ").count(), 14);
}

#[test]
fn reopening_a_db_recovers_state() {
    // Park a run that waits on a signal, and keep its rows.
    let (id, run_row, event_rows) = {
        let mut engine = Engine::new(InMemoryBackend::new()).with_driver("sig", SignalDriver);
        let id = engine
            .create_run(RunSpec {
                agent_type: "sig".to_string(),
                goal: "wait".to_string(),
                ..RunSpec::default()
            })
            .unwrap();
        assert!(engine.run_until_idle("w", 1000).unwrap());
        let run = engine.get_run(id).unwrap();
        assert_eq!(run.status, RunStatus::WaitingSignal);
        let events = engine.backend().read(id, 0).unwrap();
        let event_rows: Vec<EventRow> = events.iter().map(row_from_event).collect();
        (id, row_from_run(&run), event_rows)
    };

    // Fill another store from the rows, and resume.
    let mut backend = InMemoryBackend::new();
    backend.create_run(&run_from_row(run_row).unwrap()).unwrap();
    for row in event_rows {
        let event = event_from_row(id, row).unwrap();
        let seq = backend
            .append(id, event.kind, event.payload, event.at)
            .unwrap();
        assert_eq!(seq, event.seq);
    }
    let mut engine = Engine::new(backend).with_driver("sig", SignalDriver);
    engine
        .signal(id, "go", Json::object().with("ok", Json::Bool(true)))
        .unwrap();
    assert!(engine.run_until_idle("w", 1000).unwrap());
    assert_eq!(engine.get_run(id).unwrap().status, RunStatus::Completed);
}

#[test]
fn a_queue_entry_is_not_claimed_before_it_is_due() {
    let now = Timestamp { nanos: 5_000_000 };
    // Due when it is put in: claimable at once, in the same millisecond.
    assert_eq!(ready_ms(now, now), 5);
    assert_eq!(ready_ms(Timestamp { nanos: 4_999_999 }, now), 4);
    let within = Timestamp { nanos: 5_000_700 };
    assert_eq!(ready_ms(within, within), 5);
    // Due later: from the first millisecond that is not before it.
    assert_eq!(ready_ms(within, now), 6);
    assert_eq!(ready_ms(Timestamp { nanos: 6_000_000 }, now), 6);
    let before = Timestamp { nanos: -9_000_000 };
    assert_eq!(ready_ms(Timestamp { nanos: -1 }, before), 0);
    assert_eq!(ready_ms(Timestamp { nanos: i128::MAX }, now), i64::MAX);
    assert_eq!(ready_ms(Timestamp { nanos: i128::MIN }, now), i64::MIN);
}
