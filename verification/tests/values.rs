//! The plain values of the library: ids, times, amounts, documents, policies, errors.

use suxel::budget::{Budget, BudgetUsage, Usd};
use suxel::digits::parse_integer;
use suxel::error::Error;
use suxel::event::EventKind;
use suxel::ids::{ArtifactId, ResourceId, RunId};
use suxel::json::{Json, Member, Number};
use suxel::mem::InMemoryBackend;
use suxel::resource::{ResourceKind, ResourceStatus};
use suxel::run::{JoinMode, Run, RunSpec, RunStatus, Wait};
use suxel::signal::{ApprovalDecision, ApprovalResolution};
use suxel::step::{RetryPolicy, StepStatus};
use suxel::store::{Clock, SystemClock};
use suxel::time::{Duration, Timestamp};
use suxel::wire::RAW_VALUE;

fn usd(nanos: i128) -> Usd {
    Usd { nanos }
}

fn parse(text: &str) -> Json {
    Json::parse(text.as_bytes()).unwrap()
}

// ---- ids -----------------------------------------------------------------------

#[test]
fn ids_have_texts() {
    let id = RunId {
        value: 0x0192f000_0000_7000_8000_0000000000ff,
    };
    assert_eq!(id.text(), "0192f000-0000-7000-8000-0000000000ff");
    assert_eq!(RunId::parse(&id.text()).unwrap(), id);
    assert!(RunId::parse("0192f000").is_err());
    assert_eq!(
        ResourceId { value: 1 }.text(),
        "00000000-0000-0000-0000-000000000001"
    );
    assert_eq!(
        ArtifactId { value: 16 }.text(),
        "00000000-0000-0000-0000-000000000010"
    );
    assert_ne!(RunId::new(), RunId::new());
    assert_ne!(ResourceId::new(), ResourceId::new());
    assert_ne!(ArtifactId::new(), ArtifactId::new());
}

#[test]
fn fresh_ids_are_time_ordered_uuids() {
    for text in [
        RunId::new().text(),
        ResourceId::new().text(),
        ArtifactId::new().text(),
    ] {
        assert_eq!(&text[14..15], "7", "{text}");
        assert!("89ab".contains(&text[19..20]), "{text}");
    }
}

#[test]
fn whole_amounts_are_printed_with_a_point() {
    let budget = Budget {
        max_cost_usd: Some(usd(5_000_000_000)),
        ..Budget::default()
    };
    let text = budget.to_doc().print();
    assert!(text.contains(r#""max_cost_usd":5.0"#), "{text}");
    assert_eq!(Budget::from_doc(&parse(&text)), Some(budget));
    let usage = BudgetUsage {
        cost_usd: usd(-899_999_999_999_999_000_000_000),
        ..BudgetUsage::default()
    };
    let text = usage.to_doc().print();
    assert!(text.contains(r#""cost_usd":-899999999999999.0"#), "{text}");
    assert_eq!(BudgetUsage::from_doc(&parse(&text)), Some(usage));
    let half = usd(500_000_000);
    let text = Json::Number(half.to_number()).print();
    assert_eq!(text, "0.5");
}

#[test]
fn one_name_of_a_member_is_read_otherwise() {
    let doc = Json::object().with(RAW_VALUE, Json::string("1"));
    assert!(matches!(
        parse(&doc.print()),
        Json::Number(Number::Unsigned(1))
    ));
}

// ---- time ----------------------------------------------------------------------

#[test]
fn the_current_time_has_a_text() {
    for now in [
        Timestamp::now(),
        SystemClock.now(),
        InMemoryBackend::new().now(),
    ] {
        let text = now.to_rfc3339().unwrap();
        assert_eq!(Timestamp::from_text(&text), Some(now));
    }
}

#[test]
fn instants_have_texts() {
    let at = Timestamp::from_parts(1_782_640_800, 250_000_000);
    assert_eq!(at.to_rfc3339().unwrap(), "2026-06-28T10:00:00.250Z");
    assert_eq!(Timestamp::from_text("2026-06-28T10:00:00.250Z"), Some(at));
    assert_eq!(
        Timestamp::from_text("2026-06-28T12:00:00.250+02:00"),
        Some(at)
    );
    assert_eq!(Timestamp::from_text("soon"), None);
    assert_eq!(
        Timestamp::epoch().to_rfc3339().unwrap(),
        "1970-01-01T00:00:00Z"
    );
    assert_eq!(
        Timestamp { nanos: -1 }.to_rfc3339().unwrap(),
        "1969-12-31T23:59:59.999999999Z"
    );
}

#[test]
fn the_calendar_has_ends() {
    let last = Timestamp::from_parts(8_210_266_876_799, 999_999_999);
    assert!(last.to_rfc3339().is_some());
    assert!(last.after(Duration { nanos: 1 }).to_rfc3339().is_none());
    let first = Timestamp::from_parts(-8_334_601_228_800, 0);
    assert!(first.to_rfc3339().is_some());
    assert!(Timestamp {
        nanos: first.nanos - 1
    }
    .to_rfc3339()
    .is_none());
    assert!(Timestamp { nanos: i128::MAX }.to_rfc3339().is_none());
}

#[test]
fn years_of_four_digits_are_read_back() {
    for secs in [-62_167_219_200, -1, 0, 253_402_300_799] {
        for nanos in [0, 1, 120_000_000, 999_999_999] {
            let at = Timestamp::from_parts(secs, nanos);
            let text = at.to_rfc3339().unwrap();
            assert_eq!(Timestamp::from_text(&text), Some(at), "{text}");
        }
    }
}

#[test]
fn instants_and_spans_are_counted_in_nanoseconds() {
    assert_eq!(Duration::from_secs(2).nanos, 2_000_000_000);
    assert_eq!(Duration::from_millis(3).nanos, 3_000_000);
    assert!(Duration::zero().is_zero());
    assert!(!Duration::from_millis(1).is_zero());
    let at = Timestamp { nanos: -1 };
    assert_eq!(at.to_parts(), Some((-1, 999_999_999)));
    assert_eq!(at.after(Duration { nanos: 2 }).nanos, 1);
    assert_eq!(
        Timestamp { nanos: i128::MAX }
            .after(Duration { nanos: 1 })
            .nanos,
        i128::MAX
    );
    assert!(Timestamp { nanos: i128::MAX }.to_parts().is_none());
    assert!(SystemClock.now().nanos > 1_700_000_000_000_000_000);
}

// ---- amounts -------------------------------------------------------------------

#[test]
fn amounts_are_shown_with_four_decimals() {
    assert_eq!(usd(0).to_fixed4(), "0.0000");
    assert_eq!(usd(1_234_500_000).to_fixed4(), "1.2345");
    assert_eq!(usd(-20_000_000_000).to_fixed4(), "-20.0000");
    // Half way goes to the even digit.
    assert_eq!(usd(50_000).to_fixed4(), "0.0000");
    assert_eq!(usd(150_000).to_fixed4(), "0.0002");
    assert_eq!(usd(150_001).to_fixed4(), "0.0002");
    assert_eq!(usd(7).to_written(), "0.000000007");
    assert_eq!(usd(5_000_000_000).to_written(), "5.0");
    assert_eq!(usd(-12_000_000_000).to_written(), "-12.0");
    assert_eq!(usd(0).to_written(), "0.0");
}

#[test]
fn amounts_are_read_from_decimals() {
    assert_eq!(Usd::from_decimal("1.5"), Some(usd(1_500_000_000)));
    assert_eq!(Usd::from_decimal("-0.25"), Some(usd(-250_000_000)));
    assert_eq!(Usd::from_decimal("2e3"), Some(usd(2_000_000_000_000)));
    assert_eq!(Usd::from_decimal("1E-9"), Some(usd(1)));
    assert_eq!(Usd::from_decimal("abc"), None);
    assert_eq!(Usd::from_decimal(""), None);
    assert_eq!(
        Usd::from_number(&Number::Unsigned(3)),
        Some(usd(3_000_000_000))
    );
    assert_eq!(
        Usd::from_number(&Number::Signed(-3)),
        Some(usd(-3_000_000_000))
    );
    for nanos in [0, 1, -1, 1_000_000_000, 123_456_789_012, -5_000_000_001] {
        assert_eq!(Usd::from_number(&usd(nanos).to_number()), Some(usd(nanos)));
    }
}

#[test]
fn amounts_add_up_to_the_ends_of_their_range() {
    assert_eq!(usd(1).plus(usd(2)), usd(3));
    assert_eq!(usd(i128::MAX).plus(usd(1)), usd(i128::MAX));
    assert_eq!(usd(i128::MIN).plus(usd(-1)), usd(i128::MIN));
}

#[test]
fn integers_are_read_from_their_texts() {
    assert_eq!(parse_integer("1234"), Some(1234));
    assert_eq!(parse_integer("-7"), Some(-7));
    assert_eq!(parse_integer("+7"), Some(7));
    assert_eq!(parse_integer("9223372036854775807"), Some(i64::MAX));
    assert_eq!(parse_integer("-9223372036854775808"), Some(i64::MIN));
    assert_eq!(parse_integer("9223372036854775808"), None);
    assert_eq!(parse_integer(""), None);
    assert_eq!(parse_integer("-"), None);
    assert_eq!(parse_integer("1 "), None);
}

// ---- budgets -------------------------------------------------------------------

#[test]
fn a_budget_reports_the_first_breach() {
    let budget = Budget {
        max_tokens: Some(10),
        max_cost_usd: Some(usd(1_000_000_000)),
        max_wall_clock_secs: Some(1),
        max_tool_calls: Some(2),
        max_children: Some(3),
    };
    let mut usage = BudgetUsage {
        tokens: 10,
        cost_usd: usd(1_000_000_000),
        tool_calls: 2,
        children: 3,
    };
    assert!(budget.check(&usage).is_ok());
    usage.add(&BudgetUsage {
        children: 1,
        ..BudgetUsage::default()
    });
    assert_eq!(budget.check(&usage).unwrap_err(), "children 4 > 3");
    usage.tool_calls = 5;
    assert_eq!(budget.check(&usage).unwrap_err(), "tool_calls 5 > 2");
    usage.cost_usd = usd(1_000_100_000);
    assert_eq!(
        budget.check(&usage).unwrap_err(),
        "cost_usd 1.0001 > 1.0000"
    );
    usage.tokens = 11;
    assert_eq!(budget.check(&usage).unwrap_err(), "tokens 11 > 10");
    assert!(Budget::default().check(&usage).is_ok());
}

#[test]
fn usage_stays_at_its_largest_value() {
    let mut usage = BudgetUsage {
        tokens: u64::MAX,
        ..BudgetUsage::default()
    };
    usage.add(&BudgetUsage {
        tokens: 1,
        tool_calls: 2,
        ..BudgetUsage::default()
    });
    assert_eq!(usage.tokens, u64::MAX);
    assert_eq!(usage.tool_calls, 2);
}

// ---- retrying ------------------------------------------------------------------

#[test]
fn pauses_double_up_to_the_cap() {
    let policy = RetryPolicy::default();
    assert_eq!(policy.max_attempts, 3);
    let pauses: Vec<u128> = (1..=9)
        .map(|n| policy.backoff_for(n).nanos / 1_000_000)
        .collect();
    assert_eq!(
        pauses,
        vec![100, 200, 400, 800, 1_600, 3_200, 6_400, 10_000, 10_000]
    );
    assert_eq!(policy.backoff_for(0).nanos, 100_000_000);
    assert_eq!(policy.backoff_for(u32::MAX).nanos, 10_000_000_000);
    assert!(RetryPolicy::none().backoff_for(5).is_zero());
}

// ---- documents -----------------------------------------------------------------

#[test]
fn documents_are_printed_and_read_back() {
    let doc = Json::object()
        .with("b", Json::Bool(true))
        .with("a", Json::Array(vec![Json::Null, Json::number(7)]))
        .with("s", Json::string("\u{e9}\n\""));
    let text = doc.print();
    assert_eq!(text, "{\"a\":[null,7],\"b\":true,\"s\":\"\u{e9}\\n\\\"\"}");
    let again = parse(&text);
    assert_eq!(again.print(), text);
    assert_eq!(again.get_str("s"), Some("\u{e9}\n\""));
    assert!(Json::parse(b"{").is_err());
    assert!(matches!(
        parse("-5"),
        Json::Number(Number::Signed(-5))
    ));
    match parse("1.5") {
        Json::Number(Number::Fraction(text)) => assert_eq!(text, "1.5"),
        _ => panic!("no fraction"),
    }
    let value = doc.to_serde();
    assert_eq!(value["a"][1], 7);
    assert_eq!(Json::from_serde(value).print(), text);
}

#[test]
fn the_last_of_two_members_counts() {
    let doc = Json::object()
        .with("k", Json::number(1))
        .with("k", Json::number(2));
    assert!(matches!(
        doc.get("k"),
        Some(Json::Number(Number::Unsigned(2)))
    ));
    let twice = Json::Object(vec![
        Member {
            name: "k".to_string(),
            value: Json::number(1),
        },
        Member {
            name: "k".to_string(),
            value: Json::number(2),
        },
    ]);
    assert_eq!(twice.print(), r#"{"k":2}"#);
    assert!(twice.get("x").is_none());
    // A member of something that is no object makes it one.
    assert_eq!(
        Json::Null.with("k", Json::number(1)).print(),
        r#"{"k":1}"#
    );
}

#[test]
fn variants_are_tagged() {
    let doc = parse(r#"{"quorum":2}"#);
    let (name, content) = doc.variant().unwrap();
    assert_eq!(name, "quorum");
    assert_eq!(content.unwrap().count(), Some(2));
    assert_eq!(parse("\"all\"").unit_variant(), Some("all"));
    assert_eq!(parse(r#"{"all":null}"#).unit_variant(), Some("all"));
    assert!(parse(r#"{"a":1,"b":2}"#).variant().is_none());
    assert!(parse("3").variant().is_none());
    assert!(parse(r#"{"k":null}"#).given("k").is_none());
    assert!(parse("{}").is_object());
    assert_eq!(parse("-1").count(), None);
}

#[test]
fn values_survive_their_documents() {
    for status in [
        RunStatus::Pending,
        RunStatus::Running,
        RunStatus::WaitingSignal,
        RunStatus::WaitingApproval,
        RunStatus::WaitingTimer,
        RunStatus::Completed,
        RunStatus::Failed,
        RunStatus::Cancelled,
    ] {
        assert_eq!(RunStatus::from_doc(&status.to_doc()), Some(status));
        assert_eq!(RunStatus::from_tag(status.to_tag()), Some(status));
    }
    assert_eq!(RunStatus::WaitingApproval.to_tag(), "waiting_approval");
    assert_eq!(RunStatus::from_tag("Pending"), None);
    for kind in [
        EventKind::RunCreated,
        EventKind::StepStarted,
        EventKind::StepCompleted,
        EventKind::StepFailed,
        EventKind::ToolCallRecorded,
        EventKind::ApprovalRequested,
        EventKind::ApprovalResolved,
        EventKind::SignalReceived,
        EventKind::TimerSet,
        EventKind::TimerFired,
        EventKind::ResourceLeased,
        EventKind::ResourceReleased,
        EventKind::ChildRunSpawned,
        EventKind::ChildRunFinished,
        EventKind::ArtifactCreated,
        EventKind::RunCompleted,
        EventKind::RunFailed,
        EventKind::RunCancelled,
    ] {
        assert_eq!(EventKind::from_doc(&kind.to_doc()), Some(kind));
    }
    for status in [StepStatus::Completed, StepStatus::Failed] {
        assert_eq!(StepStatus::from_doc(&status.to_doc()), Some(status));
    }
    for status in [
        ResourceStatus::Active,
        ResourceStatus::Released,
        ResourceStatus::Expired,
    ] {
        assert_eq!(ResourceStatus::from_doc(&status.to_doc()), Some(status));
    }
    for kind in [
        ResourceKind::CodeSandbox,
        ResourceKind::ShellSession,
        ResourceKind::BrowserSession,
        ResourceKind::FileWorkspace,
        ResourceKind::DatabaseConnection,
        ResourceKind::ExternalApi,
        ResourceKind::HumanApproval,
        ResourceKind::Other,
    ] {
        assert_eq!(ResourceKind::from_doc(&kind.to_doc()), Some(kind));
    }
    for mode in [JoinMode::All, JoinMode::Any, JoinMode::Quorum(3)] {
        assert_eq!(JoinMode::from_doc(&mode.to_doc()), Some(mode));
    }
    assert_eq!(JoinMode::Quorum(3).to_doc().print(), r#"{"quorum":3}"#);
    assert_eq!(JoinMode::from_doc(&parse(r#"{"quorum":-1}"#)), None);
    let usage = BudgetUsage {
        tokens: 1,
        cost_usd: usd(2_000_000_000),
        tool_calls: 3,
        children: 4,
    };
    assert_eq!(BudgetUsage::from_doc(&usage.to_doc()), Some(usage));
    let budget = Budget {
        max_tokens: Some(1),
        max_cost_usd: Some(usd(500_000_000)),
        ..Budget::default()
    };
    assert_eq!(Budget::from_doc(&budget.to_doc()), Some(budget));
    assert_eq!(Budget::from_doc(&parse("{}")), Some(Budget::default()));
    assert_eq!(Budget::from_doc(&parse(r#"{"max_tokens":"x"}"#)), None);
    let at = Timestamp::from_parts(1_700_000_000, 5);
    assert_eq!(Timestamp::from_doc(&at.to_doc()), Some(at));
}

#[test]
fn a_run_is_shown_as_a_document() {
    let mut run = Run::from_spec_with_id(
        RunSpec {
            agent_type: "a".to_string(),
            goal: "g".to_string(),
            ..RunSpec::default()
        },
        RunId { value: 1 },
        Timestamp::epoch(),
    );
    run.waiting = Some(Wait::ChildJoin {
        mode: JoinMode::Any,
    });
    let doc = run.to_doc();
    assert_eq!(
        doc.get_str("id"),
        Some("00000000-0000-0000-0000-000000000001")
    );
    assert_eq!(doc.get_str("status"), Some("pending"));
    assert_eq!(doc.get_str("created_at"), Some("1970-01-01T00:00:00Z"));
    assert!(matches!(doc.get("parent_id"), Some(Json::Null)));
    assert_eq!(
        doc.get("waiting").unwrap().print(),
        r#"{"child_join":{"mode":"any"}}"#
    );
    assert!(!RunStatus::Pending.is_terminal());
    assert!(RunStatus::Failed.is_terminal());
}

#[test]
fn an_answer_survives_its_payload() {
    for decision in [
        ApprovalDecision::Allow,
        ApprovalDecision::AllowAlways,
        ApprovalDecision::Deny,
    ] {
        let answer = ApprovalResolution {
            tool_call_id: "c".to_string(),
            decision,
        };
        let again = ApprovalResolution::from_payload(&answer.to_payload()).unwrap();
        assert_eq!(again.tool_call_id, "c");
        assert_eq!(again.decision, decision);
    }
    assert!(matches!(
        ApprovalResolution::from_payload(&parse(r#"{"tool_call_id":"c","decision":"perhaps"}"#)),
        Err(Error::Serde(_))
    ));
    assert!(ApprovalResolution::from_payload(&parse("{}")).is_err());
}

// ---- errors --------------------------------------------------------------------

#[test]
fn every_error_has_its_message() {
    let id = RunId { value: 1 };
    assert_eq!(
        Error::RunNotFound(id).message(),
        "run not found: 00000000-0000-0000-0000-000000000001"
    );
    assert_eq!(
        Error::NoDriver("a\"b".to_string()).message(),
        "no driver registered for agent_type \"a\\\"b\""
    );
    assert_eq!(Error::Serde("x".to_string()).message(), "serialization: x");
    assert_eq!(Error::storage("x".to_string()).message(), "storage: x");
    assert_eq!(
        Error::StepExhausted {
            key: "k".to_string(),
            attempts: 3,
            message: "m".to_string(),
        }
        .message(),
        "step \"k\" exhausted after 3 attempts: m"
    );
    assert_eq!(
        Error::BudgetExceeded("x".to_string()).message(),
        "budget exceeded: x"
    );
    assert_eq!(Error::driver("x".to_string()).message(), "driver: x");
    assert_eq!(Error::Message("x".to_string()).message(), "x");
}
