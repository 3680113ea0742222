//! What the mock drivers do with a run.

use vstd::prelude::*;

use crate::driver::{memo, pending_payloads, Advance, AdvanceView, AgentDriver, RunContext};
use crate::error::{Error, ErrorView};
use crate::json::{JsonView, NumberView};
use crate::laws::calls::step_done;
use crate::resource::ResourceStatus;
use crate::signal::{ApprovalDecision, ApprovalResolutionView, APPROVAL_SIGNAL};
use crate::store::{views, Backend};
use crate::testkit;
use crate::testkit::{
    ApprovalDriver, BudgetBurnDriver, EchoDriver, ParentDriver, ResourceArtifactDriver,
    RetryDriver, SideEffectDriver, SignalDriver, Tally, WorkerDriver,
};

verus! {

/// The echo driver completes at once; its output echoes the goal, and nothing else happens.
pub proof fn an_echo_gives_back_the_goal<B: Backend>(
    driver: &EchoDriver,
    ctx: &mut RunContext<B>,
    r: Result<Advance, Error>,
)
    requires
        call_ensures(<EchoDriver as AgentDriver<B>>::advance, (driver, ctx), r),
    ensures
        r matches Ok(advance) && advance@ matches AdvanceView::Complete { output }
            && output.member("echo"@) == Some(JsonView::String(old(ctx).snapshot().goal)),
        final(ctx).store() == old(ctx).store(),
        final(ctx).charged() == old(ctx).charged(),
{
    assert(final(ctx).turn() == old(ctx).turn());
}

/// The side effect of a run happens once: where its step has completed, the driver goes by the
/// journaled value and changes nothing; otherwise it leaves a completed step.
pub proof fn a_side_effect_happens_once<B: Backend, T: Tally>(
    driver: &SideEffectDriver<T>,
    ctx: &mut RunContext<B>,
    r: Result<Advance, Error>,
)
    requires
        call_ensures(<SideEffectDriver<T> as AgentDriver<B>>::advance, (driver, ctx), r),
        old(ctx).reliable(),
    ensures
        r is Ok,
        r->Ok_0@ is Continue || r->Ok_0@ is Complete,
        step_done(old(ctx).store(), old(ctx).id(), "side_effect"@) ==> final(ctx).store()
            == old(ctx).store(),
        step_done(final(ctx).store(), old(ctx).id(), "side_effect"@),
        r->Ok_0@ matches AdvanceView::Complete { output } ==> {
            let record = final(ctx).store().steps[(old(ctx).id().value, "side_effect"@)];
            record.output is Some ==> output.member("value"@) == record.output
        },
{
    let before = old(ctx).turn().store;
    let after = final(ctx).turn().store;
    let advance = r->Ok_0@;
    let (n, value) = choose|n: u64, value: JsonView|
        {
            &&& advance == #[trigger] testkit::effect_advance(n, value)
            &&& crate::driver::stepped(before, old(ctx).id(), "side_effect"@, value, after)
            &&& memo(before, old(ctx).id(), "side_effect"@) is None ==> testkit::counted(value)
        };
}

/// The first advance is followed by another, and every later one completes with the value of
/// the side effect.
pub proof fn the_second_advance_completes(
    n: u64,
    value: crate::json::Json,
    advance: Advance,
)
    requires
        call_ensures(testkit::after_effect, (n, value), advance),
    ensures
        advance@ is Continue <==> n == 1,
        n != 1 ==> (advance@ matches AdvanceView::Complete { output }
            && output.member("value"@) == Some(value@)),
{
}

/// The flaky step fails on its first two attempts, with their numbers, and succeeds from the
/// third on.
pub proof fn a_flaky_step_fails_twice(a: u64, r: Result<crate::json::Json, String>)
    requires
        call_ensures(testkit::flaky_attempt, (a,), r),
    ensures
        r is Err <==> a < 3,
        r matches Err(message) ==> message@ == "transient "@ + crate::text::decimal(a as nat),
        r matches Ok(doc) ==> doc@ == JsonView::Number(NumberView::Unsigned(a)),
{
}

/// The retrying driver makes up to three attempts: it completes with a count from three on, or
/// its step is exhausted after three.
pub proof fn a_flaky_step_is_tried_three_times<B: Backend, T: Tally>(
    driver: &RetryDriver<T>,
    ctx: &mut RunContext<B>,
    r: Result<Advance, Error>,
)
    requires
        call_ensures(<RetryDriver<T> as AgentDriver<B>>::advance, (driver, ctx), r),
        old(ctx).reliable(),
    ensures
        step_done(old(ctx).store(), old(ctx).id(), "flaky"@) ==> r is Ok && final(ctx).store()
            == old(ctx).store(),
        !step_done(old(ctx).store(), old(ctx).id(), "flaky"@) ==> match r {
            Ok(advance) => {
                &&& step_done(final(ctx).store(), old(ctx).id(), "flaky"@)
                &&& advance@ matches AdvanceView::Complete { output }
                &&& output.member("attempts"@) matches Some(
                    JsonView::Number(NumberView::Unsigned(a)),
                )
                &&& a >= 3
            },
            Err(e) => {
                &&& !step_done(final(ctx).store(), old(ctx).id(), "flaky"@)
                &&& e@ matches ErrorView::StepExhausted { key, attempts, .. }
                &&& key == "flaky"@
                &&& attempts == 3
            },
        },
{
    let before = old(ctx).store();
    let id = old(ctx).id();
    super::steps::only_a_completed_record_answers_a_step(before, id, "flaky"@);
    if memo(before, id, "flaky"@) is None {
        let (counts, start, end) = choose|
            counts: Seq<u64>,
            start: crate::time::Timestamp,
            end: crate::time::Timestamp,
        | #[trigger]
            testkit::flaky_ran(
                before,
                id,
                counts,
                start,
                end,
                final(ctx).store(),
                crate::driver::advanced_view(r),
            );
        let attempts = testkit::flaky_outcomes(counts);
        assert(attempts.last() == testkit::flaky_outcome(counts.last()));
    }
}

/// The signal driver takes the first signal of its name and completes with its payload; where
/// none is there it waits for one, and changes nothing.
pub proof fn a_go_lets_the_run_complete<B: Backend>(
    driver: &SignalDriver,
    ctx: &mut RunContext<B>,
    r: Result<Advance, Error>,
)
    requires
        call_ensures(<SignalDriver as AgentDriver<B>>::advance, (driver, ctx), r),
        old(ctx).reliable(),
    ensures
        r is Ok,
        ({
            let waiting = pending_payloads(old(ctx).store().inbox(old(ctx).id()), "go"@);
            if waiting.len() == 0 {
                &&& r->Ok_0@ matches AdvanceView::WaitForSignal { name, timeout }
                &&& name == "go"@
                &&& timeout is None
                &&& final(ctx).store() == old(ctx).store()
            } else {
                &&& r->Ok_0@ matches AdvanceView::Complete { output }
                &&& output == waiting[0]
            }
        }),
{
    let store = old(ctx).turn().store;
    let id = old(ctx).turn().run.id;
    let after = final(ctx).turn().store;
    let waiting = pending_payloads(store.inbox(id), "go"@);
    if exists|i: int| #[trigger] store.earliest(id, "go"@, i) {
        let i = choose|i: int| #[trigger] store.earliest(id, "go"@, i);
        assert forall|j: int| 0 <= j < i implies (#[trigger] store.inbox(id)[j]).consumed
            || store.inbox(id)[j].name != "go"@ by {
            assert(!store.waits(id, "go"@, j));
        }
        lemma_first_payload(store.inbox(id), "go"@, i);
    }
    if waiting.len() > 0 {
        let i = lemma_some_payload(store.inbox(id), "go"@);
        assert(store.waits(id, "go"@, i));
    }
}

/// The payload of the first signal of a name that nobody took comes first.
proof fn lemma_first_payload(inbox: Seq<crate::signal::SignalView>, name: Seq<char>, i: int)
    requires
        0 <= i < inbox.len(),
        !inbox[i].consumed,
        inbox[i].name == name,
        forall|j: int|
            0 <= j < i ==> (#[trigger] inbox[j]).consumed || inbox[j].name != name,
    ensures
        pending_payloads(inbox, name).len() > 0,
        pending_payloads(inbox, name)[0] == inbox[i].payload,
    decreases inbox.len(),
{
    if i > 0 {
        assert(inbox[0].consumed || inbox[0].name != name);
        assert forall|j: int| 0 <= j < i - 1 implies (#[trigger] inbox.skip(1)[j]).consumed
            || inbox.skip(1)[j].name != name by {
            assert(inbox.skip(1)[j] == inbox[j + 1]);
        }
        lemma_first_payload(inbox.skip(1), name, i - 1);
    }
}

/// Where a payload waits, so does a signal.
pub(crate) proof fn lemma_some_payload(
    inbox: Seq<crate::signal::SignalView>,
    name: Seq<char>,
) -> (i: int)
    requires
        pending_payloads(inbox, name).len() > 0,
    ensures
        0 <= i < inbox.len(),
        !inbox[i].consumed,
        inbox[i].name == name,
    decreases inbox.len(),
{
    if !inbox[0].consumed && inbox[0].name == name {
        0
    } else {
        let i = lemma_some_payload(inbox.skip(1), name);
        i + 1
    }
}

/// The approval driver asks where nobody answered, completes where the first answer allows,
/// and fails for good where it denies.
pub proof fn an_approval_is_obeyed<B: Backend>(
    driver: &ApprovalDriver,
    ctx: &mut RunContext<B>,
    r: Result<Advance, Error>,
    first: ApprovalDecision,
    call: Seq<char>,
)
    requires
        call_ensures(<ApprovalDriver as AgentDriver<B>>::advance, (driver, ctx), r),
        r is Ok,
    ensures
        ({
            let waiting = pending_payloads(
                old(ctx).store().inbox(old(ctx).id()),
                APPROVAL_SIGNAL@,
            );
            let answer = ApprovalResolutionView { tool_call_id: call, decision: first };
            &&& waiting.len() == 0 ==> (r->Ok_0@ matches AdvanceView::WaitForApproval { request }
                && request.tool_call_id == "call-1"@ && request.risk == "dangerous"@)
            &&& waiting.len() > 0 && waiting[0] == answer.payload() ==> {
                &&& first is Deny ==> (r->Ok_0@ matches AdvanceView::Fail { error, retry } && error
                    == "denied"@ && !retry)
                &&& !(first is Deny) ==> (r->Ok_0@ matches AdvanceView::Complete { output }
                    && output.member("approved"@) == Some(JsonView::Bool(true)))
            }
        }),
{
    let answer = ApprovalResolutionView { tool_call_id: call, decision: first };
    crate::signal::resolution_payload_round_trip(answer);
    assert(old(ctx).turn().store == old(ctx).store());
    assert(old(ctx).turn().run.id == old(ctx).id());
}

/// A parent without children spawns what it was made with; one with children completes and
/// says how many it has.
pub proof fn a_parent_spawns_and_then_counts<B: Backend>(
    driver: &ParentDriver,
    ctx: &mut RunContext<B>,
    r: Result<Advance, Error>,
)
    requires
        call_ensures(<ParentDriver as AgentDriver<B>>::advance, (driver, ctx), r),
        old(ctx).reliable(),
    ensures
        r is Ok,
        final(ctx).store() == old(ctx).store(),
        (exists|k: u128| #[trigger]
            old(ctx).store().runs.contains_key(k) && old(ctx).store().runs[k].parent_id == Some(
                old(ctx).id(),
            )) ==> (r->Ok_0@ matches AdvanceView::Complete { output } && output.member(
            "children"@,
        ) is Some),
        !(exists|k: u128| #[trigger]
            old(ctx).store().runs.contains_key(k) && old(ctx).store().runs[k].parent_id == Some(
                old(ctx).id(),
            )) ==> (r->Ok_0@ matches AdvanceView::SpawnChildren { specs, join } && specs == views(
            driver.specs@,
        ) && join == driver.join),
{
    let store = old(ctx).store();
    let id = old(ctx).id();
    assert(old(ctx).turn().store == store && old(ctx).turn().run.id == id);
    assert(final(ctx).turn() == old(ctx).turn());
    let advance = r->Ok_0@;
    let kids = choose|kids: Seq<crate::run::RunView>|
        {
            &&& #[trigger] store.lists_children(id, kids)
            &&& advance == (if kids.len() > 0 {
                AdvanceView::Complete {
                    output: JsonView::empty_object().with(
                        "children"@,
                        JsonView::Number(NumberView::Unsigned(kids.len() as u64)),
                    ),
                }
            } else {
                AdvanceView::SpawnChildren { specs: views(driver.specs@), join: driver.join }
            })
        };
    if kids.len() > 0 {
        assert(kids[0].parent_id == Some(id));
        assert(store.runs.contains_key(kids[0].id.value));
    }
    assert forall|k: u128| #[trigger]
        store.runs.contains_key(k) && store.runs[k].parent_id == Some(id) implies kids.len()
        > 0 by {
        assert(kids.contains(store.runs[k]));
    }
}

/// A slow worker parks for a signal that never comes; every other one completes with its mode.
pub proof fn a_slow_worker_parks<B: Backend>(
    driver: &WorkerDriver,
    ctx: &mut RunContext<B>,
    r: Result<Advance, Error>,
    input: JsonView,
    mode: Seq<char>,
)
    requires
        call_ensures(<WorkerDriver as AgentDriver<B>>::advance, (driver, ctx), r),
        old(ctx).snapshot().input == Some(input),
        input.member("mode"@) == Some(JsonView::String(mode)),
    ensures
        r is Ok,
        mode == "slow"@ ==> (r->Ok_0@ matches AdvanceView::WaitForSignal { name, timeout } && name
            == "never"@ && timeout is None),
        mode != "slow"@ ==> (r->Ok_0@ matches AdvanceView::Complete { output } && output.member(
            "mode"@,
        ) == Some(JsonView::String(mode))),
        final(ctx).store() == old(ctx).store(),
{
    assert(old(ctx).turn().run == old(ctx).snapshot());
    assert(final(ctx).turn() == old(ctx).turn());
}

/// A burning run charges one tool call each turn and goes on.
pub proof fn burning_charges_a_call_each_turn<B: Backend>(
    driver: &BudgetBurnDriver,
    ctx: &mut RunContext<B>,
    r: Result<Advance, Error>,
)
    requires
        call_ensures(<BudgetBurnDriver as AgentDriver<B>>::advance, (driver, ctx), r),
        old(ctx).charged().tool_calls < u64::MAX,
    ensures
        r matches Ok(advance) && advance@ is Continue,
        final(ctx).charged().tool_calls == old(ctx).charged().tool_calls + 1,
        final(ctx).charged().tokens == old(ctx).charged().tokens,
        final(ctx).charged().cost_usd == old(ctx).charged().cost_usd,
        final(ctx).charged().children == old(ctx).charged().children,
        final(ctx).store() == old(ctx).store(),
{
    assert(old(ctx).turn().charged == old(ctx).charged());
    assert(final(ctx).turn().charged == final(ctx).charged());
    assert(final(ctx).turn().store == final(ctx).store());
}

/// A run that reports leaves one active lease and one artifact of its own, and completes.
pub proof fn a_report_is_left<B: Backend>(
    driver: &ResourceArtifactDriver,
    ctx: &mut RunContext<B>,
    r: Result<Advance, Error>,
)
    requires
        call_ensures(<ResourceArtifactDriver as AgentDriver<B>>::advance, (driver, ctx), r),
        old(ctx).reliable(),
    ensures
        r is Ok,
        r->Ok_0@ matches AdvanceView::Complete { output } && output.member("done"@) == Some(
            JsonView::Bool(true),
        ),
        exists|k: u128|
            {
                &&& #[trigger] final(ctx).store().resources.contains_key(k)
                &&& final(ctx).store().resources[k].run_id == old(ctx).id()
                &&& final(ctx).store().resources[k].kind is CodeSandbox
                &&& final(ctx).store().resources[k].status == ResourceStatus::Active
            },
        final(ctx).store().shelf(old(ctx).id()).len() == old(ctx).store().shelf(
            old(ctx).id(),
        ).len() + 1,
        final(ctx).store().shelf(old(ctx).id()).last().kind == "report"@,
        final(ctx).store().shelf(old(ctx).id()).last().uri == "mem://report.md"@,
{
    let before = old(ctx).store();
    let id = old(ctx).id();
    let after = final(ctx).store();
    assert(old(ctx).turn().store == before && old(ctx).turn().run.id == id);
    assert(final(ctx).turn().store == after);
    assert(testkit::leaves_a_report(before, id, after));
    let metadata = JsonView::empty_object().with("sandbox_id"@, JsonView::String("sb-1"@));
    let details = JsonView::empty_object().with(
        "bytes"@,
        JsonView::Number(NumberView::Unsigned(12)),
    );
    let (resource, start, artifact, end) = choose|
        resource: crate::ids::ResourceId,
        start: crate::time::Timestamp,
        artifact: crate::ids::ArtifactId,
        end: crate::time::Timestamp,
    |
        #![trigger crate::driver::leased(resource, id, crate::resource::ResourceKind::CodeSandbox,
            metadata, None, start), crate::driver::produced(artifact, id, "report"@,
            "mem://report.md"@, details, end)]
        after == crate::driver::artifact_recorded(
            crate::driver::resource_leased(
                before,
                crate::driver::leased(
                    resource,
                    id,
                    crate::resource::ResourceKind::CodeSandbox,
                    metadata,
                    None,
                    start,
                ),
                start,
            ),
            crate::driver::produced(
                artifact,
                id,
                "report"@,
                "mem://report.md"@,
                details,
                end,
            ),
            end,
        );
    assert(after.resources.contains_key(resource.value));
}

} // verus!
