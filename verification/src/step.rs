//! Durable steps: idempotent, crash-safe units of work.
//!
//! The result of a step is journaled under its key. On replay a completed step
//! gives its saved output instead of running its side effect again.

use vstd::prelude::*;

use crate::ids::RunId;
use crate::json::{clone_opt_json, opt_json, Json, JsonView};
use crate::text::{clone_opt_text, opt_text};
use crate::time::{Duration, Timestamp};

verus! {

/// The idempotency key of a durable step, unique within a run.
#[derive(Debug, PartialEq, Eq)]
pub struct StepKey(pub String);

impl View for StepKey {
    type V = Seq<char>;

    open spec fn view(&self) -> Seq<char> {
        self.0@
    }
}

impl Clone for StepKey {
    fn clone(&self) -> (r: Self)
        ensures
            r@ == self@,
    {
        StepKey(self.0.clone())
    }
}

/// Final status of a journaled step.
#[derive(Clone, Copy, Debug, PartialEq, Eq, Structural)]
pub enum StepStatus {
    /// Succeeded; the record holds its output.
    Completed,
    /// Failed after all its attempts.
    Failed,
}

/// A journaled step result.
#[derive(Debug)]
pub struct StepRecord {
    /// The owning run.
    pub run_id: RunId,
    /// The step key.
    pub key: StepKey,
    /// Final status.
    pub status: StepStatus,
    /// The output of a completed step.
    pub output: Option<Json>,
    /// The message of a failed step.
    pub error: Option<String>,
    /// How many attempts were made.
    pub attempts: u32,
    /// When the record was written.
    pub updated_at: Timestamp,
}

/// The model of a [`StepRecord`].
pub struct StepRecordView {
    /// The owning run.
    pub run_id: RunId,
    /// The step key.
    pub key: Seq<char>,
    /// Final status.
    pub status: StepStatus,
    /// The output of a completed step.
    pub output: Option<JsonView>,
    /// The message of a failed step.
    pub error: Option<Seq<char>>,
    /// How many attempts were made.
    pub attempts: u32,
    /// When the record was written.
    pub updated_at: Timestamp,
}

impl View for StepRecord {
    type V = StepRecordView;

    open spec fn view(&self) -> StepRecordView {
        StepRecordView {
            run_id: self.run_id,
            key: self.key@,
            status: self.status,
            output: opt_json(self.output),
            error: opt_text(self.error),
            attempts: self.attempts,
            updated_at: self.updated_at,
        }
    }
}

impl Clone for StepRecord {
    fn clone(&self) -> (r: Self)
        ensures
            r@ == self@,
    {
        StepRecord {
            run_id: self.run_id,
            key: self.key.clone(),
            status: self.status,
            output: clone_opt_json(&self.output),
            error: clone_opt_text(&self.error),
            attempts: self.attempts,
            updated_at: self.updated_at,
        }
    }
}

/// How often a durable step is tried, and the pauses between the attempts.
#[derive(Clone, Copy, Debug, PartialEq, Eq, Structural)]
pub struct RetryPolicy {
    /// Most attempts, the first one counted. `1` means no retry.
    pub max_attempts: u32,
    /// The pause before the first retry.
    pub base_delay: Duration,
    /// The longest pause.
    pub max_delay: Duration,
}

impl Default for RetryPolicy {
    fn default() -> (r: RetryPolicy)
        ensures
            r == RetryPolicy::standard(),
    {
        RetryPolicy {
            max_attempts: 3,
            base_delay: Duration::from_millis(100),
            max_delay: Duration::from_secs(10),
        }
    }
}

/// Two to the power of `n`.
pub open spec fn two_to(n: nat) -> nat
    decreases n,
{
    if n == 0 {
        1
    } else {
        2 * two_to((n - 1) as nat)
    }
}

/// The factor on the base delay after `failed` failed attempts: it doubles with
/// each failure after the first and stays at `u32::MAX` from the 33rd on.
pub open spec fn backoff_factor(failed: nat) -> nat {
    if failed <= 1 {
        1
    } else if failed <= 32 {
        two_to((failed - 1) as nat)
    } else {
        u32::MAX as nat
    }
}

impl RetryPolicy {
    /// The policy that is used where none is given: three attempts, with pauses from a tenth
    /// of a second to ten seconds.
    pub open spec fn standard() -> RetryPolicy {
        RetryPolicy {
            max_attempts: 3,
            base_delay: Duration { nanos: 100_000_000 },
            max_delay: Duration { nanos: 10_000_000_000 },
        }
    }

    /// The pause after `failed` failed attempts: the base delay times the factor,
    /// cut off at `max_delay`.
    pub open spec fn backoff(self, failed: nat) -> nat {
        let grown: nat = self.base_delay.nanos as nat * backoff_factor(failed);
        if grown <= self.max_delay.nanos {
            grown
        } else {
            self.max_delay.nanos as nat
        }
    }

    /// Whether `delay` is a pause that this policy asks for: that after some failed attempt
    /// but the last one it allows, and not an empty one.
    pub open spec fn pauses_for(self, delay: Duration) -> bool {
        &&& delay.nanos > 0
        &&& exists|failed: nat|
            1 <= failed < self.max_attempts && delay.nanos == #[trigger] self.backoff(failed)
    }

    /// A policy that never retries.
    pub fn none() -> (r: RetryPolicy)
        ensures
            r.max_attempts == 1,
            r.base_delay.nanos == 0,
            r.max_delay.nanos == 0,
    {
        RetryPolicy { max_attempts: 1, base_delay: Duration::zero(), max_delay: Duration::zero() }
    }

    /// The pause after attempt `failed_attempt` (counted from 1) has failed and
    /// before the next one.
    pub fn backoff_for(&self, failed_attempt: u32) -> (r: Duration)
        ensures
            r.nanos == self.backoff(failed_attempt as nat),
    {
        if self.base_delay.is_zero() {
            return Duration::zero();
        }
        let mut factor: u64 = 1;
        let mut n: u32 = 1;
        while n < failed_attempt && n < 33
            invariant
                1 <= n <= 33,
                n <= failed_attempt || n == 1,
                factor == two_to((n - 1) as nat),
                factor <= 0x1_0000_0000,
                n <= 32 ==> factor <= 0x8000_0000,
            decreases 33 - n,
        {
            factor = factor * 2;
            n = n + 1;
            proof {
                lemma_two_to_bound((n - 1) as nat);
            }
        }
        if factor > 0xFFFF_FFFF {
            factor = 0xFFFF_FFFF;
        }
        proof {
            lemma_two_to_bound((n - 1) as nat);
            assert(factor == backoff_factor(failed_attempt as nat));
        }
        match self.base_delay.nanos.checked_mul(factor as u128) {
            Some(grown) => if grown <= self.max_delay.nanos {
                Duration { nanos: grown }
            } else {
                self.max_delay
            },
            None => self.max_delay,
        }
    }
}

proof fn lemma_two_to_bound(n: nat)
    requires
        n <= 32,
    ensures
        two_to(n) <= 0x1_0000_0000,
        n <= 31 ==> two_to(n) <= 0x8000_0000,
        n == 32 ==> two_to(n) == 0x1_0000_0000,
{
    reveal_with_fuel(two_to, 33);
    lemma_two_to_monotone(n, 32);
    if n <= 31 {
        lemma_two_to_monotone(n, 31);
    }
}

proof fn lemma_two_to_monotone(a: nat, b: nat)
    requires
        a <= b,
    ensures
        two_to(a) <= two_to(b),
    decreases b,
{
    if a < b {
        lemma_two_to_monotone(a, (b - 1) as nat);
    }
}

proof fn lemma_factor_monotone(a: nat, b: nat)
    requires
        a <= b,
    ensures
        1 <= backoff_factor(a) <= backoff_factor(b) <= u32::MAX,
{
    lemma_two_to_monotone(0, if a <= 1 { 0 } else { (a - 1) as nat });
    if 1 < a <= 32 {
        lemma_two_to_bound((a - 1) as nat);
    }
    if 1 < b <= 32 {
        lemma_two_to_bound((b - 1) as nat);
        lemma_two_to_monotone(0, (b - 1) as nat);
        if 1 < a {
            lemma_two_to_monotone((a - 1) as nat, (b - 1) as nat);
        }
    }
}

/// The pauses never shrink from one failure to the next and never pass `max_delay`; the
/// first is the base delay, where `max_delay` allows it.
pub proof fn backoff_grows_to_the_cap(policy: RetryPolicy, a: nat, b: nat)
    requires
        a <= b,
    ensures
        policy.backoff(a) <= policy.backoff(b) <= policy.max_delay.nanos,
        policy.backoff(1) == if policy.base_delay.nanos <= policy.max_delay.nanos {
            policy.base_delay.nanos
        } else {
            policy.max_delay.nanos
        },
{
    lemma_factor_monotone(a, b);
    let base: nat = policy.base_delay.nanos as nat;
    assert(base * backoff_factor(a) <= base * backoff_factor(b)) by (nonlinear_arith)
        requires
            backoff_factor(a) <= backoff_factor(b),
    ;
}

} // verus!
