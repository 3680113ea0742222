//! What durable steps and their retries promise.

use vstd::prelude::*;

use crate::driver::{
    memo, outcomes, step_completed, step_failed, step_ran, step_result, step_started, stepped,
    tried,
};
use crate::error::{Error, ErrorView};
use crate::ids::RunId;
use crate::json::{Json, JsonView, NumberView};
use crate::step::{RetryPolicy, StepStatus};
use crate::store::Store;
use crate::time::{Duration, Timestamp};

verus! {

/// A step is answered from the journal exactly where the record under its key has the status
/// `Completed`, and then with the output of that record, `null` where it has none. So a step
/// that failed, and one that was never tried, runs.
pub proof fn only_a_completed_record_answers_a_step(store: Store, id: RunId, key: Seq<char>)
    ensures
        memo(store, id, key) is Some <==> store.steps.contains_key((id.value, key))
            && store.steps[(id.value, key)].status == StepStatus::Completed,
        memo(store, id, key) matches Some(output) ==> {
            let record = store.steps[(id.value, key)];
            record.output == Some(output) || (record.output is None && output
                == JsonView::Null)
        },
{
}

/// A failed step is not memoized: whatever was journaled under its key before, the step runs
/// again the next time.
pub proof fn a_failed_step_is_not_memoized(
    store: Store,
    id: RunId,
    key: Seq<char>,
    message: Seq<char>,
    attempts: u32,
    at: Timestamp,
)
    ensures
        memo(step_failed(store, id, key, message, attempts, at), id, key) is None,
{
}

/// A step that fails and then succeeds: the second time it is run again, its success is
/// journaled, and it is what every later call is given.
pub proof fn a_failed_step_can_succeed_later(
    store: Store,
    id: RunId,
    key: Seq<char>,
    failed: Seq<Result<JsonView, Seq<char>>>,
    then: Seq<Result<JsonView, Seq<char>>>,
    output: JsonView,
    times: Seq<Timestamp>,
)
    requires
        failed.len() > 0,
        failed.last() is Err,
        then.len() > 0,
        then.last() == Ok::<JsonView, Seq<char>>(output),
    ensures
        ({
            let after_failure = step_ran(store, id, key, failed, times[0], times[1]);
            let after_success = step_ran(after_failure, id, key, then, times[2], times[3]);
            &&& memo(after_failure, id, key) is None
            &&& memo(after_success, id, key) == Some(output)
            &&& after_success.log(id).len() == store.log(id).len() + 4
        }),
{
}

/// What is left of a step that was run: one record under its key, which tells how it ended
/// and how many attempts it took, and two events in the log of its run, the first when it
/// began and the second when it ended. No other step, run, signal, lease, artifact or queue
/// entry is touched.
pub proof fn a_step_leaves_its_record_and_two_events(
    store: Store,
    id: RunId,
    key: Seq<char>,
    attempts: Seq<Result<JsonView, Seq<char>>>,
    start: Timestamp,
    end: Timestamp,
)
    requires
        0 < attempts.len() <= u32::MAX,
    ensures
        ({
            let after = step_ran(store, id, key, attempts, start, end);
            let n = store.log(id).len() as int;
            let log = after.log(id);
            let record = after.steps[(id.value, key)];
            &&& after.steps.contains_key((id.value, key))
            &&& record.run_id == id
            &&& record.key == key
            &&& record.attempts as nat == attempts.len()
            &&& record.updated_at == end
            &&& match attempts.last() {
                Ok(output) => record.status is Completed && record.output == Some(output)
                    && record.error is None,
                Err(message) => record.status is Failed && record.error == Some(message)
                    && record.output is None,
            }
            &&& log.len() == n + 2
            &&& log.take(n) == store.log(id)
            &&& log[n].kind is StepStarted
            &&& log[n].at == start
            &&& log[n].payload.member("key"@) == Some(JsonView::String(key))
            &&& log[n + 1].at == end
            &&& log[n + 1].payload.member("key"@) == Some(JsonView::String(key))
            &&& log[n + 1].payload.member("attempts"@) == Some(
                JsonView::Number(NumberView::Unsigned(attempts.len() as u64)),
            )
            &&& match attempts.last() {
                Ok(_) => log[n + 1].kind is StepCompleted && log[n + 1].payload.member(
                    "error"@,
                ) is None,
                Err(message) => log[n + 1].kind is StepFailed && log[n + 1].payload.member(
                    "error"@,
                ) == Some(JsonView::String(message)),
            }
            &&& forall|other: (u128, Seq<char>)|
                other != (id.value, key) ==> #[trigger] after.steps.contains_key(other)
                    == store.steps.contains_key(other) && after.steps[other]
                    == store.steps[other]
            &&& forall|other: RunId| other != id ==> #[trigger] after.log(other) == store.log(other)
            &&& after.runs == store.runs
            &&& after.queue == store.queue
            &&& after.signals == store.signals
            &&& after.resources == store.resources
            &&& after.artifacts == store.artifacts
            &&& after.fences == store.fences
        }),
{
    reveal_strlit("key");
    reveal_strlit("attempts");
    reveal_strlit("error");
    let after = step_ran(store, id, key, attempts, start, end);
    assert("key"@.len() == 3 && "attempts"@.len() == 8 && "error"@.len() == 5);
    assert(after.log(id).take(store.log(id).len() as int) =~= store.log(id));
}

/// Beginning a step says so in the log and journals nothing yet: a crash before the step ends
/// leaves it to be run again.
pub proof fn a_step_that_only_began_is_run_again(
    store: Store,
    id: RunId,
    key: Seq<char>,
    at: Timestamp,
    other: Seq<char>,
)
    ensures
        step_started(store, id, key, at).steps == store.steps,
        memo(step_started(store, id, key, at), id, other) == memo(store, id, other),
        step_started(store, id, key, at).log(id).last().kind is StepStarted,
        step_started(store, id, key, at).log(id).len() == store.log(id).len() + 1,
{
}

/// A step is tried until it succeeds or its attempts are used up, and at least once: every
/// attempt but the last failed; where the last failed too, there were as many as the policy
/// allows, and one where it allows none.
pub proof fn a_step_is_tried_until_it_succeeds(
    attempts: Seq<Result<JsonView, Seq<char>>>,
    max_attempts: u32,
)
    requires
        tried(attempts, max_attempts),
    ensures
        attempts.len() >= 1,
        attempts.len() <= max_attempts || attempts.len() == 1,
        forall|i: int| 0 <= i < attempts.len() && (#[trigger] attempts[i]) is Ok ==> i
            == attempts.len() - 1,
        attempts[attempts.len() - 1] is Err && max_attempts >= 1 ==> attempts.len()
            == max_attempts,
        attempts[attempts.len() - 1] is Err && max_attempts == 0 ==> attempts.len() == 1,
{
}

/// What a step that was tried returns: the value of its last attempt, where that succeeded;
/// else that it is exhausted, with its key, the number of the attempts and the message of the
/// last one.
pub proof fn a_step_returns_what_its_last_attempt_gave(
    r: Result<Json, Error>,
    key: Seq<char>,
    results: Seq<Result<Json, String>>,
    max_attempts: u32,
)
    requires
        results.len() <= u32::MAX,
        tried(outcomes(results), max_attempts),
        step_result(r, key, outcomes(results)),
    ensures
        results.len() > 0,
        results.last() matches Ok(value) ==> r is Ok && r->Ok_0@ == value@,
        results.last() matches Err(message) ==> r is Err && r->Err_0@ == (
        ErrorView::StepExhausted {
            key,
            attempts: results.len() as u32,
            message: message@,
        }),
        r is Err ==> max_attempts <= 1 || results.len() == max_attempts,
{
    assert(outcomes(results).last() == crate::driver::outcome(results.last()));
}

/// Whoever is given an output by a step under a key finds it there: the output is memoized
/// afterwards, and where it was memoized before, nothing was written.
pub proof fn what_a_step_gives_is_memoized(
    before: Store,
    id: RunId,
    key: Seq<char>,
    output: JsonView,
    after: Store,
)
    requires
        stepped(before, id, key, output, after),
    ensures
        memo(after, id, key) == Some(output),
        before.steps.contains_key((id.value, key)) && before.steps[(id.value, key)].status
            is Completed ==> after == before,
        !(before.steps.contains_key((id.value, key)) && before.steps[(id.value, key)].status
            is Completed) ==> after.log(id).len() == before.log(id).len() + 2,
{
    if memo(before, id, key) is None {
        let (attempts, start, end) = choose|
            attempts: Seq<Result<JsonView, Seq<char>>>,
            start: Timestamp,
            end: Timestamp,
        |
            {
                &&& attempts.len() > 0
                &&& attempts.last() == Ok::<JsonView, Seq<char>>(output)
                &&& after == #[trigger] step_ran(before, id, key, attempts, start, end)
            };
        assert(after.log(id).len() == before.log(id).len() + 2);
    }
}

/// Completing a step under a key replaces whatever its record said.
pub proof fn a_completed_step_answers_with_its_output(
    store: Store,
    id: RunId,
    key: Seq<char>,
    output: JsonView,
    attempts: u32,
    at: Timestamp,
)
    ensures
        ({
            let after = step_completed(store, id, key, output, attempts, at);
            &&& after.steps[(id.value, key)].status is Completed
            &&& after.steps[(id.value, key)].output == Some(output)
            &&& after.steps[(id.value, key)].attempts == attempts
            &&& memo(after, id, key) == Some(output)
        }),
{
}

/// The pauses between attempts: the first is the base delay, each further one is twice the
/// one before, and none is longer than the longest one allowed. Up to the 32nd failure this
/// tells each of them.
pub proof fn pauses_double_up_to_the_cap(policy: RetryPolicy, failed: nat)
    requires
        1 <= failed < 32,
    ensures
        policy.base_delay.nanos <= policy.max_delay.nanos ==> policy.backoff(1)
            == policy.base_delay.nanos,
        policy.base_delay.nanos > policy.max_delay.nanos ==> policy.backoff(1)
            == policy.max_delay.nanos,
        2 * policy.backoff(failed) <= policy.max_delay.nanos ==> policy.backoff(failed + 1) == 2
            * policy.backoff(failed),
        2 * policy.backoff(failed) > policy.max_delay.nanos ==> policy.backoff(failed + 1)
            == policy.max_delay.nanos,
        policy.backoff(failed) <= policy.max_delay.nanos,
{
    let base = policy.base_delay.nanos as nat;
    let factor = crate::step::backoff_factor(failed);
    reveal_with_fuel(crate::step::two_to, 2);
    assert(crate::step::backoff_factor(failed + 1) == 2 * factor);
    assert(base * (2 * factor) == 2 * (base * factor)) by (nonlinear_arith);
    assert(base * crate::step::backoff_factor(1) == base) by (nonlinear_arith)
        requires
            crate::step::backoff_factor(1) == 1,
    ;
}

/// Between two attempts there is a pause for the delay that belongs to the number of the
/// failed ones, and for no other: no pause without a base delay, none that is longer than the
/// longest one, none shorter than the base delay where the longest allows it, and none at all
/// under a policy that allows one attempt.
pub proof fn pauses_are_those_of_the_policy(policy: RetryPolicy, delay: Duration)
    requires
        policy.pauses_for(delay),
    ensures
        policy.max_attempts >= 2,
        0 < delay.nanos <= policy.max_delay.nanos,
        policy.base_delay.nanos > 0,
        policy.base_delay.nanos <= delay.nanos || delay.nanos == policy.max_delay.nanos,
        policy.max_attempts == 2 ==> delay.nanos == policy.backoff(1),
{
    let failed = choose|failed: nat|
        1 <= failed < policy.max_attempts && delay.nanos == #[trigger] policy.backoff(failed);
    crate::step::backoff_grows_to_the_cap(policy, 1, failed);
    let factor = crate::step::backoff_factor(failed);
    if policy.base_delay.nanos == 0 {
        assert(policy.base_delay.nanos as nat * factor == 0) by (nonlinear_arith)
            requires
                policy.base_delay.nanos == 0,
        ;
    }
}

/// After every failed attempt but the last, a pause for the policy's delay is one that is
/// allowed.
pub proof fn every_delay_of_the_policy_is_a_pause(policy: RetryPolicy, failed: nat, delay: Duration)
    requires
        1 <= failed < policy.max_attempts,
        delay.nanos == policy.backoff(failed),
        delay.nanos > 0,
    ensures
        policy.pauses_for(delay),
{
}

/// Without further words a step is tried three times, with a tenth of a second before the
/// second attempt and two tenths before the third.
pub proof fn the_standard_policy_tries_three_times()
    ensures
        RetryPolicy::standard().max_attempts == 3,
        RetryPolicy::standard().backoff(1) == 100_000_000,
        RetryPolicy::standard().backoff(2) == 200_000_000,
        forall|failed: nat| #[trigger] RetryPolicy::standard().backoff(failed) <= 10_000_000_000,
        forall|failed: nat|
            failed >= 8 ==> #[trigger] RetryPolicy::standard().backoff(failed) == 10_000_000_000,
{
    reveal_with_fuel(crate::step::two_to, 9);
    assert forall|failed: nat| failed >= 8 implies #[trigger] RetryPolicy::standard().backoff(
        failed,
    ) == 10_000_000_000 by {
        lemma_factor_at_least(failed);
    }
}

/// From the eighth failure on the factor is at least 128.
proof fn lemma_factor_at_least(failed: nat)
    requires
        failed >= 8,
    ensures
        crate::step::backoff_factor(failed) >= 128,
    decreases failed,
{
    reveal_with_fuel(crate::step::two_to, 9);
    if 8 < failed <= 32 {
        lemma_factor_at_least((failed - 1) as nat);
    }
}

/// A policy of none tries once and never pauses.
pub proof fn a_policy_of_none_tries_once(none: RetryPolicy, standard: RetryPolicy, failed: nat)
    requires
        call_ensures(RetryPolicy::none, (), none),
        call_ensures(<RetryPolicy as Default>::default, (), standard),
    ensures
        none.max_attempts == 1,
        none.backoff(failed) == 0,
        standard == RetryPolicy::standard(),
{
}

} // verus!
