//! Mock drivers for conformance scenarios: every storage backend should carry the
//! same runs to the same ends with them.

use vstd::prelude::*;

use crate::budget::BudgetUsage;
use crate::driver::{
    advanced_view, all_decode, approvals_drained, approvals_stopped, artifact_recorded, leased,
    memo, outcome, outcomes, pending_payloads, produced, resource_leased, step_ran, step_result,
    stepped, tried, Advance, AdvanceView, AgentDriver, ApprovalRequest, ApprovalRequestView,
    ChildOutcome, ChildOutcomeView, ChildSpec, RunContext, TurnView,
};
use crate::error::{Error, ErrorView};
use crate::ids::{ArtifactId, ResourceId, RunId};
use crate::json::{Json, JsonView, Number, NumberView};
use crate::resource::ResourceKind;
use crate::run::{JoinMode, RunView};
use crate::signal::{
    ApprovalDecision, ApprovalResolution, ApprovalResolutionView, SignalView, APPROVAL_SIGNAL,
};
use crate::step::RetryPolicy;
use crate::store::{signal_taken, views, Backend, Store};
use crate::text::{concat2, decimal, decimal_text, same_text};
use crate::time::{Duration, Timestamp};

verus! {

/// A counter that several owners share.
pub trait Tally {
    /// Counts one more and returns the new count.
    fn count(&self) -> u64;
}

/// Completes at once and echoes its goal.
pub struct EchoDriver;

impl<B: Backend> AgentDriver<B> for EchoDriver {
    open spec fn may(
        &self,
        given: TurnView,
        left: TurnView,
        advanced: Result<AdvanceView, ErrorView>,
    ) -> bool {
        &&& left == given
        &&& advanced == Ok::<AdvanceView, ErrorView>(
            AdvanceView::Complete {
                output: JsonView::empty_object().with("echo"@, JsonView::String(given.run.goal)),
            },
        )
    }

    fn advance(&self, ctx: &mut RunContext<B>) -> (r: Result<Advance, Error>)
    {
        Ok(Advance::Complete { output: Json::object().with("echo", Json::string(ctx.goal())) })
    }
}

/// Runs one durable side effect over two advances; it must happen exactly once.
pub struct SideEffectDriver<T: Tally> {
    /// Counts the advances.
    pub advances: T,
    /// Counts the side effects.
    pub effect: T,
}

/// What [`SideEffectDriver`] does next when its advance is the one with the number `n` and
/// its side effect gave `value`.
pub open spec fn effect_advance(n: u64, value: JsonView) -> AdvanceView {
    if n == 1 {
        AdvanceView::Continue
    } else {
        AdvanceView::Complete { output: JsonView::empty_object().with("value"@, value) }
    }
}

/// What [`SideEffectDriver`] does next: the first advance is followed by another, any later
/// one completes with the value of the side effect.
pub fn after_effect(n: u64, value: Json) -> (r: Advance)
    ensures
        r@ == effect_advance(n, value@),
{
    if n == 1 {
        Advance::Continue
    } else {
        Advance::Complete { output: Json::object().with("value", value) }
    }
}

/// Whether a document is a count.
pub open spec fn counted(doc: JsonView) -> bool {
    doc matches JsonView::Number(NumberView::Unsigned(_))
}

impl<B: Backend, T: Tally> AgentDriver<B> for SideEffectDriver<T> {
    open spec fn may(
        &self,
        given: TurnView,
        left: TurnView,
        advanced: Result<AdvanceView, ErrorView>,
    ) -> bool {
        advanced matches Ok(advance) ==> exists|n: u64, value: JsonView|
            {
                &&& advance == #[trigger] effect_advance(n, value)
                &&& stepped(given.store, given.run.id, "side_effect"@, value, left.store)
                &&& memo(given.store, given.run.id, "side_effect"@) is None ==> counted(value)
            }
    }

    fn advance(&self, ctx: &mut RunContext<B>) -> (r: Result<Advance, Error>)
        ensures
            final(ctx).same_turn(old(ctx)),
            old(ctx).reliable() ==> r is Ok,
    {
        let n: u64 = self.advances.count();
        let effect = || -> (r: Result<Json, String>)
            ensures
                r matches Ok(doc) && counted(doc@),
            { Ok(Json::number(self.effect.count())) };
        let pause = |delay: Duration| {};
        let value: Json = match ctx.durable_step(
            "side_effect",
            RetryPolicy::none(),
            effect,
            pause,
        ) {
            Ok(value) => value,
            Err(e) => return Err(e),
        };
        proof {
            assert(stepped(
                old(ctx).turn().store,
                old(ctx).turn().run.id,
                "side_effect"@,
                value@,
                ctx.turn().store,
            ));
        }
        Ok(after_effect(n, value))
    }
}

/// A flaky step: it fails twice and then succeeds.
pub struct RetryDriver<T: Tally> {
    /// Counts the attempts.
    pub attempts: T,
}

/// What the flaky step gives on the attempt with the number `a`.
pub open spec fn flaky_outcome(a: u64) -> Result<JsonView, Seq<char>> {
    if a < 3 {
        Err("transient "@ + decimal(a as nat))
    } else {
        Ok(JsonView::Number(NumberView::Unsigned(a)))
    }
}

/// What the flaky step gives on the attempts with the numbers `counts`.
pub open spec fn flaky_outcomes(counts: Seq<u64>) -> Seq<Result<JsonView, Seq<char>>> {
    counts.map_values(|a: u64| flaky_outcome(a))
}

/// The flaky step on the attempt with the number `a`: it fails before the third.
pub fn flaky_attempt(a: u64) -> (r: Result<Json, String>)
    ensures
        outcome(r) == flaky_outcome(a),
{
    if a < 3 {
        Err(concat2("transient ", decimal_text(a as u128).as_str()))
    } else {
        Ok(Json::number(a))
    }
}

/// What [`RetryDriver`] returns after `attempts`: it completes with what the last one gave,
/// or the step is exhausted.
pub open spec fn flaky_advance(attempts: Seq<Result<JsonView, Seq<char>>>) -> Result<
    AdvanceView,
    ErrorView,
> {
    match attempts.last() {
        Ok(value) => Ok(
            AdvanceView::Complete { output: JsonView::empty_object().with("attempts"@, value) },
        ),
        Err(message) => Err(
            ErrorView::StepExhausted {
                key: "flaky"@,
                attempts: attempts.len() as u32,
                message,
            },
        ),
    }
}

/// Whether the flaky step of the run `id`, not completed before, runs with attempts numbered
/// `counts`, ends as three attempts allow, turns `before` into `after` and gives `advanced`.
pub open spec fn flaky_ran(
    before: Store,
    id: RunId,
    counts: Seq<u64>,
    start: Timestamp,
    end: Timestamp,
    after: Store,
    advanced: Result<AdvanceView, ErrorView>,
) -> bool {
    let attempts = flaky_outcomes(counts);
    &&& tried(attempts, 3)
    &&& after == step_ran(before, id, "flaky"@, attempts, start, end)
    &&& advanced == flaky_advance(attempts)
}

impl<B: Backend, T: Tally> AgentDriver<B> for RetryDriver<T> {
    open spec fn may(
        &self,
        given: TurnView,
        left: TurnView,
        advanced: Result<AdvanceView, ErrorView>,
    ) -> bool {
        advanced matches Ok(advance) ==> exists|value: JsonView|
            {
                &&& #[trigger] stepped(given.store, given.run.id, "flaky"@, value, left.store)
                &&& advance == (AdvanceView::Complete {
                    output: JsonView::empty_object().with("attempts"@, value),
                })
            }
    }

    fn advance(&self, ctx: &mut RunContext<B>) -> (r: Result<Advance, Error>)
        ensures
            final(ctx).same_turn(old(ctx)),
            old(ctx).reliable() ==> match memo(old(ctx).store(), old(ctx).id(), "flaky"@) {
                Some(_) => r is Ok,
                None => exists|counts: Seq<u64>, start: Timestamp, end: Timestamp| #[trigger]
                    flaky_ran(
                        old(ctx).store(),
                        old(ctx).id(),
                        counts,
                        start,
                        end,
                        final(ctx).store(),
                        advanced_view(r),
                    ),
            },
    {
        let policy = RetryPolicy {
            max_attempts: 3,
            base_delay: Duration::from_millis(1),
            max_delay: Duration::from_millis(1),
        };
        let flaky = || -> (r: Result<Json, String>)
            ensures
                exists|a: u64| outcome(r) == #[trigger] flaky_outcome(a),
            {
                let a: u64 = self.attempts.count();
                flaky_attempt(a)
            };
        let pause = |delay: Duration| {};
        let done: Result<Json, Error> = ctx.durable_step("flaky", policy, flaky, pause);
        let ghost given = done;
        let r: Result<Advance, Error> = match done {
            Ok(value) => {
                proof {
                    assert(stepped(
                        old(ctx).turn().store,
                        old(ctx).turn().run.id,
                        "flaky"@,
                        value@,
                        ctx.turn().store,
                    ));
                }
                Ok(Advance::Complete { output: Json::object().with("attempts", value) })
            },
            Err(e) => Err(e),
        };
        proof {
            let before = old(ctx).store();
            let id = old(ctx).id();
            if old(ctx).reliable() && memo(before, id, "flaky"@) is None {
                let (results, start, end) = choose|
                    results: Seq<Result<Json, String>>,
                    start: Timestamp,
                    end: Timestamp,
                |
                    {
                        let attempts = outcomes(results);
                        &&& forall|i: int|
                            0 <= i < results.len() ==> call_ensures(
                                flaky,
                                (),
                                #[trigger] results[i],
                            )
                        &&& tried(attempts, policy.max_attempts)
                        &&& ctx.store() == #[trigger] step_ran(
                            before,
                            id,
                            "flaky"@,
                            outcomes(results),
                            start,
                            end,
                        )
                        &&& step_result(given, "flaky"@, attempts)
                    };
                let counts = Seq::new(
                    results.len(),
                    |i: int| choose|a: u64| outcome(results[i]) == #[trigger] flaky_outcome(a),
                );
                assert forall|i: int| 0 <= i < results.len() implies flaky_outcomes(counts)[i]
                    == #[trigger] outcomes(results)[i] by {
                    assert(call_ensures(flaky, (), results[i]));
                }
                assert(flaky_outcomes(counts) =~= outcomes(results));
                assert(flaky_ran(
                    before,
                    id,
                    counts,
                    start,
                    end,
                    ctx.store(),
                    advanced_view(r),
                ));
            }
        }
        r
    }
}

/// Parks until a `go` signal and completes with its payload.
pub struct SignalDriver;

impl<B: Backend> AgentDriver<B> for SignalDriver {
    open spec fn may(
        &self,
        given: TurnView,
        left: TurnView,
        advanced: Result<AdvanceView, ErrorView>,
    ) -> bool {
        advanced matches Ok(advance) ==> {
            ||| {
                &&& signal_taken(given.store, given.run.id, "go"@, None, left.store)
                &&& advance == (AdvanceView::WaitForSignal { name: "go"@, timeout: None })
            }
            ||| exists|signal: SignalView|
                {
                    &&& #[trigger] signal_taken(
                        given.store,
                        given.run.id,
                        "go"@,
                        Some(signal),
                        left.store,
                    )
                    &&& advance == (AdvanceView::Complete { output: signal.payload })
                }
        }
    }

    fn advance(&self, ctx: &mut RunContext<B>) -> (r: Result<Advance, Error>)
        ensures
            final(ctx).same_turn(old(ctx)),
            old(ctx).reliable() ==> r is Ok,
    {
        match ctx.take_signal("go") {
            Err(e) => Err(e),
            Ok(Some(payload)) => Ok(Advance::Complete { output: payload }),
            Ok(None) => Ok(Advance::WaitForSignal { name: "go".to_owned(), timeout: None }),
        }
    }
}

/// Parks for approval, then completes or fails as it was decided.
pub struct ApprovalDriver;

impl<B: Backend> AgentDriver<B> for ApprovalDriver {
    open spec fn may(
        &self,
        given: TurnView,
        left: TurnView,
        advanced: Result<AdvanceView, ErrorView>,
    ) -> bool {
        let payloads = pending_payloads(given.store.inbox(given.run.id), APPROVAL_SIGNAL@);
        advanced matches Ok(advance) ==> {
            &&& left.store == approvals_drained(given.store, given.run.id)
            &&& if payloads.len() == 0 {
                advance == (AdvanceView::WaitForApproval {
                    request: ApprovalRequestView {
                        tool_call_id: "call-1"@,
                        summary: "send the email"@,
                        risk: "dangerous"@,
                    },
                })
            } else {
                match ApprovalResolutionView::of_payload(payloads[0]) {
                    Some(answer) => if answer.decision is Deny {
                        advance == (AdvanceView::Fail { error: "denied"@, retry: false })
                    } else {
                        advance == (AdvanceView::Complete {
                            output: JsonView::empty_object().with(
                                "approved"@,
                                JsonView::Bool(true),
                            ),
                        })
                    },
                    None => false,
                }
            }
        }
    }

    fn advance(&self, ctx: &mut RunContext<B>) -> (r: Result<Advance, Error>)
        ensures
            final(ctx).same_turn(old(ctx)),
            r is Ok ==> all_decode(
                pending_payloads(old(ctx).store().inbox(old(ctx).id()), APPROVAL_SIGNAL@),
            ),
            old(ctx).reliable() ==> (r matches Err(e) ==> e is Serde && approvals_stopped(
                old(ctx).store(),
                old(ctx).id(),
                final(ctx).store(),
            )),
    {
        let answers: Vec<ApprovalResolution> = match ctx.take_approvals() {
            Ok(answers) => answers,
            Err(e) => return Err(e),
        };
        proof {
            let payloads = pending_payloads(
                old(ctx).store().inbox(old(ctx).id()),
                APPROVAL_SIGNAL@,
            );
            assert(views(answers@).len() == payloads.len());
            if payloads.len() > 0 {
                assert(ApprovalResolutionView::of_payload(payloads[0]) == Some(
                    views(answers@)[0],
                ));
            }
        }
        if answers.len() == 0 {
            return Ok(
                Advance::WaitForApproval {
                    request: ApprovalRequest {
                        tool_call_id: "call-1".to_owned(),
                        summary: "send the email".to_owned(),
                        risk: "dangerous".to_owned(),
                    },
                },
            );
        }
        match answers[0].decision {
            ApprovalDecision::Deny => Ok(
                Advance::Fail { error: "denied".to_owned(), retry: false },
            ),
            _ => Ok(
                Advance::Complete { output: Json::object().with("approved", Json::Bool(true)) },
            ),
        }
    }
}

/// Spawns children with a join mode and then counts them.
pub struct ParentDriver {
    /// How to join the children.
    pub join: JoinMode,
    /// The children.
    pub specs: Vec<ChildSpec>,
}

impl<B: Backend> AgentDriver<B> for ParentDriver {
    open spec fn may(
        &self,
        given: TurnView,
        left: TurnView,
        advanced: Result<AdvanceView, ErrorView>,
    ) -> bool {
        &&& left == given
        &&& advanced matches Ok(advance) ==> exists|kids: Seq<RunView>|
            {
                &&& #[trigger] given.store.lists_children(given.run.id, kids)
                &&& advance == (if kids.len() > 0 {
                    AdvanceView::Complete {
                        output: JsonView::empty_object().with(
                            "children"@,
                            JsonView::Number(NumberView::Unsigned(kids.len() as u64)),
                        ),
                    }
                } else {
                    AdvanceView::SpawnChildren { specs: views(self.specs@), join: self.join }
                })
            }
    }

    fn advance(&self, ctx: &mut RunContext<B>) -> (r: Result<Advance, Error>)
        ensures
            old(ctx).reliable() ==> r is Ok,
    {
        let kids: Vec<ChildOutcome> = match ctx.children() {
            Ok(kids) => kids,
            Err(e) => return Err(e),
        };
        proof {
            let listed = choose|listed: Seq<RunView>|
                {
                    &&& #[trigger] ctx.store().lists_children(ctx.id(), listed)
                    &&& views(kids@) == ChildOutcomeView::of_runs(listed)
                };
            assert(views(kids@).len() == listed.len());
            assert(ctx.turn().store.lists_children(ctx.turn().run.id, listed));
        }
        if kids.len() > 0 {
            return Ok(
                Advance::Complete {
                    output: Json::object().with("children", Json::number(kids.len() as u64)),
                },
            );
        }
        let mut specs: Vec<ChildSpec> = Vec::new();
        let mut i: usize = 0;
        while i < self.specs.len()
            invariant
                i <= self.specs@.len(),
                specs@.len() == i,
                forall|j: int| 0 <= j < i ==> (#[trigger] specs@[j])@ == self.specs@[j]@,
            decreases self.specs@.len() - i,
        {
            specs.push(self.specs[i].clone());
            i = i + 1;
        }
        proof {
            assert(views(specs@) =~= views(self.specs@));
        }
        Ok(Advance::SpawnChildren { specs, join: self.join })
    }
}

/// Completes, or parks for ever where the input says `{ "mode": "slow" }`.
pub struct WorkerDriver;

impl<B: Backend> AgentDriver<B> for WorkerDriver {
    open spec fn may(
        &self,
        given: TurnView,
        left: TurnView,
        advanced: Result<AdvanceView, ErrorView>,
    ) -> bool {
        let mode = match given.run.input {
            Some(input) => input.member_text("mode"@),
            None => None,
        };
        &&& left == given
        &&& advanced == Ok::<AdvanceView, ErrorView>(
            if mode == Some("slow"@) {
                AdvanceView::WaitForSignal { name: "never"@, timeout: None }
            } else {
                AdvanceView::Complete {
                    output: JsonView::empty_object().with(
                        "mode"@,
                        JsonView::String(
                            match mode {
                                Some(mode) => mode,
                                None => "fast"@,
                            },
                        ),
                    ),
                }
            },
        )
    }

    fn advance(&self, ctx: &mut RunContext<B>) -> (r: Result<Advance, Error>)
    {
        let mode: String = match ctx.input() {
            Some(input) => match input.get_str("mode") {
                Some(mode) => mode.to_owned(),
                None => "fast".to_owned(),
            },
            None => "fast".to_owned(),
        };
        proof {
            reveal_strlit("fast");
            reveal_strlit("slow");
            assert("fast"@[0] != "slow"@[0]);
        }
        if same_text(mode.as_str(), "slow") {
            Ok(Advance::WaitForSignal { name: "never".to_owned(), timeout: None })
        } else {
            Ok(Advance::Complete { output: Json::object().with("mode", Json::String(mode)) })
        }
    }
}

/// Charges a tool call on every advance and goes on; only a budget stops it.
pub struct BudgetBurnDriver;

impl<B: Backend> AgentDriver<B> for BudgetBurnDriver {
    open spec fn may(
        &self,
        given: TurnView,
        left: TurnView,
        advanced: Result<AdvanceView, ErrorView>,
    ) -> bool {
        &&& left == (TurnView {
            charged: BudgetUsage {
                tool_calls: crate::budget::counter_sum(given.charged.tool_calls, 1),
                ..given.charged
            },
            ..given
        })
        &&& advanced == Ok::<AdvanceView, ErrorView>(AdvanceView::Continue)
    }

    fn advance(&self, ctx: &mut RunContext<B>) -> (r: Result<Advance, Error>)
    {
        ctx.charge_tool_call();
        Ok(Advance::Continue)
    }
}

/// Whether `after` is `before` with a sandbox leased to the run `id` and a report of its.
pub open spec fn leaves_a_report(before: Store, id: RunId, after: Store) -> bool {
    let metadata = JsonView::empty_object().with("sandbox_id"@, JsonView::String("sb-1"@));
    let details = JsonView::empty_object().with(
        "bytes"@,
        JsonView::Number(NumberView::Unsigned(12)),
    );
    exists|resource: ResourceId, start: Timestamp, artifact: ArtifactId, end: Timestamp|
        #![trigger leased(resource, id, ResourceKind::CodeSandbox, metadata, None, start),
            produced(artifact, id, "report"@, "mem://report.md"@, details, end)]
        after == artifact_recorded(
            resource_leased(
                before,
                leased(resource, id, ResourceKind::CodeSandbox, metadata, None, start),
                start,
            ),
            produced(artifact, id, "report"@, "mem://report.md"@, details, end),
            end,
        )
}

/// Leases a resource and produces an artifact, then completes.
pub struct ResourceArtifactDriver;

impl<B: Backend> AgentDriver<B> for ResourceArtifactDriver {
    open spec fn may(
        &self,
        given: TurnView,
        left: TurnView,
        advanced: Result<AdvanceView, ErrorView>,
    ) -> bool {
        advanced matches Ok(advance) ==> {
            &&& leaves_a_report(given.store, given.run.id, left.store)
            &&& advance == (AdvanceView::Complete {
                output: JsonView::empty_object().with("done"@, JsonView::Bool(true)),
            })
        }
    }

    fn advance(&self, ctx: &mut RunContext<B>) -> (r: Result<Advance, Error>)
        ensures
            final(ctx).same_turn(old(ctx)),
            old(ctx).reliable() ==> r is Ok,
    {
        let metadata: Json = Json::object().with("sandbox_id", Json::string("sb-1"));
        match ctx.lease_resource(ResourceKind::CodeSandbox, metadata, None) {
            Ok(_) => {},
            Err(e) => return Err(e),
        }
        let details: Json = Json::object().with("bytes", Json::Number(Number::Unsigned(12)));
        match ctx.put_artifact("report", "mem://report.md", details) {
            Ok(_) => {},
            Err(e) => return Err(e),
        }
        Ok(Advance::Complete { output: Json::object().with("done", Json::Bool(true)) })
    }
}

} // verus!
