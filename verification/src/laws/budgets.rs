//! What budgets and the usage charged against them promise.

use vstd::prelude::*;

use crate::budget::{Budget, BudgetUsage, Usd};
use crate::decide::FreshIds;
use crate::digits::digits_value;
use crate::driver::AdvanceView;
use crate::error::ErrorView;
use crate::json::JsonView;
use crate::run::RunView;
use crate::store::Store;
use crate::text::decimal;
use crate::time::Timestamp;

verus! {

/// Charging adds up: short of the largest value of a counter, it holds what it held and what
/// was charged together; past it, the counter stays at its largest value.
pub proof fn charging_adds_up(used: BudgetUsage, delta: BudgetUsage)
    ensures
        used.tokens + delta.tokens <= u64::MAX ==> used.sum(delta).tokens as int == used.tokens
            + delta.tokens,
        used.tokens + delta.tokens > u64::MAX ==> used.sum(delta).tokens == u64::MAX,
        used.tool_calls + delta.tool_calls <= u64::MAX ==> used.sum(delta).tool_calls as int
            == used.tool_calls + delta.tool_calls,
        used.tool_calls + delta.tool_calls > u64::MAX ==> used.sum(delta).tool_calls == u64::MAX,
        used.children + delta.children <= u64::MAX ==> used.sum(delta).children as int
            == used.children + delta.children,
        used.children + delta.children > u64::MAX ==> used.sum(delta).children == u64::MAX,
        i128::MIN <= used.cost_usd.nanos + delta.cost_usd.nanos <= i128::MAX ==> used.sum(
            delta,
        ).cost_usd.nanos as int == used.cost_usd.nanos + delta.cost_usd.nanos,
        used.cost_usd.nanos + delta.cost_usd.nanos > i128::MAX ==> used.sum(delta).cost_usd.nanos
            == i128::MAX,
        used.cost_usd.nanos + delta.cost_usd.nanos < i128::MIN ==> used.sum(delta).cost_usd.nanos
            == i128::MIN,
{
}

/// A usage charged in two parts is the same in whatever order the parts come, and charging
/// nothing changes nothing.
pub proof fn the_order_of_charges_does_not_matter(
    used: BudgetUsage,
    first: BudgetUsage,
    second: BudgetUsage,
)
    requires
        used.cost_usd.nanos >= 0,
        first.cost_usd.nanos >= 0,
        second.cost_usd.nanos >= 0,
    ensures
        used.sum(first).sum(second) == used.sum(second).sum(first),
        used.sum(BudgetUsage { tokens: 0, cost_usd: Usd { nanos: 0 }, tool_calls: 0, children: 0 })
            == used,
{
}

/// The tool calls that some turns charged, together.
pub open spec fn calls_charged(deltas: Seq<BudgetUsage>) -> nat
    decreases deltas.len(),
{
    if deltas.len() == 0 {
        0
    } else {
        calls_charged(deltas.drop_last()) + deltas.last().tool_calls as nat
    }
}

/// The tokens that some turns charged, together.
pub open spec fn tokens_charged(deltas: Seq<BudgetUsage>) -> nat
    decreases deltas.len(),
{
    if deltas.len() == 0 {
        0
    } else {
        tokens_charged(deltas.drop_last()) + deltas.last().tokens as nat
    }
}

/// A run after some turns have charged it.
pub open spec fn after_charges(run: RunView, deltas: Seq<BudgetUsage>) -> RunView
    decreases deltas.len(),
{
    if deltas.len() == 0 {
        run
    } else {
        after_charges(run, deltas.drop_last()).charged(deltas.last())
    }
}

/// The turns of a run are counted together: after any number of turns the usage is what they
/// charged in all, added to what it was, and nothing else of the run is touched.
pub proof fn turns_are_charged_together(run: RunView, deltas: Seq<BudgetUsage>)
    requires
        run.usage.tool_calls + calls_charged(deltas) <= u64::MAX,
        run.usage.tokens + tokens_charged(deltas) <= u64::MAX,
    ensures
        after_charges(run, deltas).usage.tool_calls as nat == run.usage.tool_calls
            + calls_charged(deltas),
        after_charges(run, deltas).usage.tokens as nat == run.usage.tokens + tokens_charged(
            deltas,
        ),
        after_charges(run, deltas) == (RunView {
            usage: after_charges(run, deltas).usage,
            ..run
        }),
    decreases deltas.len(),
{
    if deltas.len() > 0 {
        turns_are_charged_together(run, deltas.drop_last());
    }
}

/// A budget is breached exactly by a usage that passes one of its limits: as much as a limit
/// allows is no breach, one more is, and what has no limit is never breached.
pub proof fn a_budget_is_breached_by_more_than_it_allows(budget: Budget, used: BudgetUsage)
    ensures
        budget.breach(used) is Some <==> {
            ||| budget.max_tokens is Some && used.tokens > budget.max_tokens->0
            ||| budget.max_cost_usd is Some && used.cost_usd.nanos > budget.max_cost_usd->0.nanos
            ||| budget.max_tool_calls is Some && used.tool_calls > budget.max_tool_calls->0
            ||| budget.max_children is Some && used.children > budget.max_children->0
        },
{
}

/// The report of a breach names the limit, what was used and what is allowed; of several the
/// first counts, in the order tokens, cost, tool calls, children.
pub proof fn a_report_names_the_first_breach(budget: Budget, used: BudgetUsage)
    ensures
        ({
            let tokens = budget.max_tokens is Some && used.tokens > budget.max_tokens->0;
            let cost = budget.max_cost_usd is Some && used.cost_usd.nanos
                > budget.max_cost_usd->0.nanos;
            let calls = budget.max_tool_calls is Some && used.tool_calls
                > budget.max_tool_calls->0;
            let children = budget.max_children is Some && used.children > budget.max_children->0;
            &&& tokens ==> budget.breach(used) == Some(
                "tokens "@ + decimal(used.tokens as nat) + " > "@ + decimal(
                    budget.max_tokens->0 as nat,
                ),
            )
            &&& !tokens && cost ==> budget.breach(used) == Some(
                "cost_usd "@ + used.cost_usd.fixed4() + " > "@ + budget.max_cost_usd->0.fixed4(),
            )
            &&& !tokens && !cost && calls ==> budget.breach(used) == Some(
                "tool_calls "@ + decimal(used.tool_calls as nat) + " > "@ + decimal(
                    budget.max_tool_calls->0 as nat,
                ),
            )
            &&& !tokens && !cost && !calls && children ==> budget.breach(used) == Some(
                "children "@ + decimal(used.children as nat) + " > "@ + decimal(
                    budget.max_children->0 as nat,
                ),
            )
        }),
{
}

/// A run is too old exactly when more time has passed since its creation than its limit on
/// wall-clock seconds; without a limit it never is.
pub proof fn a_run_is_overdue_when_its_time_is_up(
    budget: Budget,
    created: Timestamp,
    now: Timestamp,
)
    ensures
        budget.overdue(created, now) is Some <==> budget.max_wall_clock_secs is Some && now.nanos
            - created.nanos > budget.max_wall_clock_secs->0 * 1_000_000_000,
{
}

/// What a run is checked for after a turn: what it used against every limit, and its age.
pub proof fn a_run_is_checked_for_usage_and_age(run: RunView, now: Timestamp)
    ensures
        run.breach(now) is Some <==> run.budget.breach(run.usage) is Some || (
        run.budget.max_wall_clock_secs is Some && now.nanos - run.created_at.nanos
            > run.budget.max_wall_clock_secs->0 * 1_000_000_000),
        run.budget.breach(run.usage) is Some ==> run.breach(now) == run.budget.breach(run.usage),
{
}

/// A turn counts what it charged, whatever the driver answered, and whether it breaches the
/// budget or not. A driver that spawns children is charged for these besides.
pub proof fn a_turn_counts_what_it_charged(
    store: Store,
    run: RunView,
    delta: BudgetUsage,
    advanced: Result<AdvanceView, ErrorView>,
    now: Timestamp,
    fresh: FreshIds,
)
    requires
        store.wf(),
        store.has_run(run.id),
        run.parent_id is None,
        !(advanced matches Ok(advance) && advance is SpawnChildren),
        run.usage.tokens + delta.tokens <= u64::MAX,
        run.usage.tool_calls + delta.tool_calls <= u64::MAX,
        run.usage.children + delta.children <= u64::MAX,
        i128::MIN <= run.usage.cost_usd.nanos + delta.cost_usd.nanos <= i128::MAX,
    ensures
        ({
            let used = store.turn_settled(run, delta, advanced, now, fresh).run(run.id).usage;
            &&& used.tokens as int == run.usage.tokens + delta.tokens
            &&& used.tool_calls as int == run.usage.tool_calls + delta.tool_calls
            &&& used.children as int == run.usage.children + delta.children
            &&& used.cost_usd.nanos as int == run.usage.cost_usd.nanos + delta.cost_usd.nanos
        }),
{
    super::turns::lemma_settled_record(store, run, delta, advanced, now, fresh);
}

/// A run that has charged more tool calls than its limit over all its turns together is failed
/// by the turn that passes it, whatever the driver answers, and its error says so.
pub proof fn too_many_tool_calls_fail_the_run(
    store: Store,
    run: RunView,
    delta: BudgetUsage,
    advance: AdvanceView,
    now: Timestamp,
    fresh: FreshIds,
    max: u64,
)
    requires
        store.wf(),
        store.has_run(run.id),
        run.budget.max_tool_calls == Some(max),
        run.usage.tool_calls + delta.tool_calls <= u64::MAX,
        run.usage.tool_calls + delta.tool_calls > max,
        run.budget.max_tokens is None,
        run.budget.max_cost_usd is None,
    ensures
        ({
            let after = store.turn_settled(
                run,
                delta,
                Ok::<AdvanceView, ErrorView>(advance),
                now,
                fresh,
            );
            let total = (run.usage.tool_calls + delta.tool_calls) as nat;
            &&& after.run(run.id).status is Failed
            &&& after.run(run.id).error == Some(
                "budget exceeded: "@ + ("tool_calls "@ + decimal(total) + " > "@ + decimal(
                    max as nat,
                )),
            )
        }),
{
    super::a_breached_budget_fails_the_run(store, run, delta, advance, now, fresh);
    a_report_names_the_first_breach(run.budget, run.charged(delta).usage);
}

/// A run that has used more than any of its limits, or is too old, is failed by the turn in
/// which it does; one that has not is not failed by its budget: it completes where its driver
/// says so.
pub proof fn a_run_fails_by_its_budget_exactly_when_it_passes_a_limit(
    store: Store,
    run: RunView,
    delta: BudgetUsage,
    output: JsonView,
    now: Timestamp,
    fresh: FreshIds,
)
    requires
        store.wf(),
        store.has_run(run.id),
        run.usage.tokens + delta.tokens <= u64::MAX,
        run.usage.tool_calls + delta.tool_calls <= u64::MAX,
        run.usage.children + delta.children <= u64::MAX,
        i128::MIN <= run.usage.cost_usd.nanos + delta.cost_usd.nanos <= i128::MAX,
    ensures
        ({
            let after = store.turn_settled(
                run,
                delta,
                Ok::<AdvanceView, ErrorView>(AdvanceView::Complete { output }),
                now,
                fresh,
            );
            let limits = run.budget;
            let passed = {
                ||| limits.max_tokens is Some && run.usage.tokens + delta.tokens
                    > limits.max_tokens->0
                ||| limits.max_cost_usd is Some && run.usage.cost_usd.nanos
                    + delta.cost_usd.nanos > limits.max_cost_usd->0.nanos
                ||| limits.max_tool_calls is Some && run.usage.tool_calls + delta.tool_calls
                    > limits.max_tool_calls->0
                ||| limits.max_children is Some && run.usage.children + delta.children
                    > limits.max_children->0
                ||| limits.max_wall_clock_secs is Some && now.nanos - run.created_at.nanos
                    > limits.max_wall_clock_secs->0 * 1_000_000_000
            };
            &&& passed ==> after.run(run.id).status is Failed
            &&& !passed ==> after.run(run.id).status is Completed && after.run(run.id).output
                == Some(output)
        }),
{
    charging_adds_up(run.usage, delta);
    a_budget_is_breached_by_more_than_it_allows(run.budget, run.charged(delta).usage);
    a_run_is_checked_for_usage_and_age(run.charged(delta), now);
    if run.charged(delta).breach(now) is Some {
        super::a_breached_budget_fails_the_run(
            store,
            run,
            delta,
            AdvanceView::Complete { output },
            now,
            fresh,
        );
    } else {
        super::a_completed_run_has_its_output(store, run, delta, output, now, fresh);
    }
}

/// An amount is written with the four decimals that are nearest to it, the even one half way:
/// the ten-thousandths that are written are at most half of one away from the amount.
pub proof fn an_amount_is_written_to_the_nearest_ten_thousandth(amount: Usd)
    ensures
        ({
            let size: int = if amount.nanos < 0 {
                -amount.nanos
            } else {
                amount.nanos as int
            };
            let off: int = size - amount.rounded() * 100_000;
            &&& -50_000 <= off <= 50_000
            &&& off == 50_000 || off == -50_000 ==> amount.rounded() % 2 == 0
        }),
{
}

/// The text of an amount: a minus sign where it is negative, the dollars, a point, and four
/// digits; read as a number without its sign and its point it is the amount in
/// ten-thousandths.
pub proof fn the_text_of_an_amount_tells_it(amount: Usd)
    ensures
        ({
            let text = amount.fixed4();
            let from: int = if amount.nanos < 0 {
                1
            } else {
                0
            };
            let point = text.len() - 5;
            &&& amount.nanos < 0 ==> text[0] == '-'
            &&& point > from
            &&& text[point] == '.'
            &&& digits_value(text.subrange(from, point)) == amount.rounded() / 10_000
            &&& digits_value(text.skip(point + 1)) == amount.rounded() % 10_000
        }),
{
    reveal_strlit("-");
    reveal_strlit("");
    reveal_strlit(".");
    let q = amount.rounded();
    let text = amount.fixed4();
    let from: int = if amount.nanos < 0 {
        1
    } else {
        0
    };
    let whole = decimal(q / 10_000);
    let rest = crate::text::four_digits(q % 10_000);
    crate::digits::lemma_decimal(q / 10_000);
    let point = text.len() - 5;
    assert(text.subrange(from, point) =~= whole);
    assert(text.skip(point + 1) =~= rest);
    lemma_four_digits(q % 10_000);
}

proof fn lemma_four_digits(n: nat)
    requires
        n < 10_000,
    ensures
        digits_value(crate::text::four_digits(n)) == n,
        crate::text::four_digits(n).len() == 4,
{
    let s = crate::text::four_digits(n);
    crate::digits::lemma_digit(n / 1000 % 10);
    crate::digits::lemma_digit(n / 100 % 10);
    crate::digits::lemma_digit(n / 10 % 10);
    crate::digits::lemma_digit(n % 10);
    let three = s.drop_last();
    let two = three.drop_last();
    let one = two.drop_last();
    assert(one.drop_last() =~= Seq::<char>::empty());
    assert(digits_value(one.drop_last()) == 0);
    assert(digits_value(one) == n / 1000 % 10);
    assert(digits_value(two) == 10 * (n / 1000 % 10) + n / 100 % 10);
    assert(digits_value(three) == 10 * (10 * (n / 1000 % 10) + n / 100 % 10) + n / 10 % 10);
}

} // verus!
