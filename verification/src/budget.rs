//! Per-run budgets and the usage charged against them.
//!
//! A [`Budget`] caps what a run may consume. A child inherits a copy of its
//! parent's budget unless it is given its own. The engine checks the usage after
//! every advance and fails the run where a limit is breached.

use vstd::prelude::*;

use crate::text::{concat2, concat4, decimal_text};
use crate::time::Timestamp;

verus! {

/// An amount of money in billionths of a US dollar.
#[derive(Clone, Copy, Debug, PartialEq, Eq, Structural)]
pub struct Usd {
    /// Billionths of a dollar.
    pub nanos: i128,
}

/// Ceilings for a single run. `None` leaves a dimension without a limit.
#[derive(Clone, Copy, Debug, PartialEq, Eq, Structural)]
pub struct Budget {
    /// Most LLM tokens in all.
    pub max_tokens: Option<u64>,
    /// Most cost in all.
    pub max_cost_usd: Option<Usd>,
    /// Most wall-clock seconds from the run's creation on. It is no matter of usage:
    /// [`Budget::check`] leaves it alone, and the engine compares it after every turn.
    pub max_wall_clock_secs: Option<u64>,
    /// Most tool calls.
    pub max_tool_calls: Option<u64>,
    /// Most child runs that the run may spawn.
    pub max_children: Option<u64>,
}

/// Usage charged against a [`Budget`] so far.
#[derive(Clone, Copy, Debug, PartialEq, Eq, Structural)]
pub struct BudgetUsage {
    /// Tokens consumed.
    pub tokens: u64,
    /// Cost consumed.
    pub cost_usd: Usd,
    /// Tool calls made.
    pub tool_calls: u64,
    /// Children spawned.
    pub children: u64,
}

/// The sum of two counters, held at `u64::MAX` where it is larger.
pub open spec fn counter_sum(a: u64, b: u64) -> u64 {
    if a + b <= u64::MAX {
        (a + b) as u64
    } else {
        u64::MAX
    }
}

impl Usd {
    /// No money.
    pub open spec fn none() -> Usd {
        Usd { nanos: 0 }
    }

    /// The sum of two amounts, held at the ends of the range.
    pub open spec fn sum(self, other: Usd) -> Usd {
        let total: int = self.nanos + other.nanos;
        if total > i128::MAX {
            Usd { nanos: i128::MAX }
        } else if total < i128::MIN {
            Usd { nanos: i128::MIN }
        } else {
            Usd { nanos: total as i128 }
        }
    }

    /// The sum of two amounts, held at the ends of the range.
    pub fn plus(self, other: Usd) -> (r: Usd)
        ensures
            r == self.sum(other),
    {
        match self.nanos.checked_add(other.nanos) {
            Some(nanos) => Usd { nanos },
            None => if other.nanos > 0 {
                Usd { nanos: i128::MAX }
            } else {
                Usd { nanos: i128::MIN }
            },
        }
    }

    /// The size of this amount in ten-thousandths of a dollar, rounded to the
    /// nearest and, half way between two, to the even one.
    pub open spec fn rounded(self) -> nat {
        let size: nat = if self.nanos < 0 {
            (-self.nanos) as nat
        } else {
            self.nanos as nat
        };
        let whole: nat = size / 100_000;
        let rest: nat = size % 100_000;
        if rest > 50_000 || (rest == 50_000 && whole % 2 == 1) {
            whole + 1
        } else {
            whole
        }
    }

    /// This amount in dollars with four decimals.
    pub open spec fn fixed4(self) -> Seq<char> {
        let sign: Seq<char> = if self.nanos < 0 {
            "-"@
        } else {
            ""@
        };
        let q: nat = self.rounded();
        sign + crate::text::decimal(q / 10_000) + "."@ + crate::text::four_digits(q % 10_000)
    }

    /// This amount in dollars with four decimals.
    pub fn to_fixed4(self) -> (r: String)
        ensures
            r@ == self.fixed4(),
    {
        let size: u128 = if self.nanos >= 0 {
            self.nanos as u128
        } else {
            (-(self.nanos + 1)) as u128 + 1
        };
        let whole: u128 = size / 100_000;
        let rest: u128 = size % 100_000;
        let q: u128 = if rest > 50_000 || (rest == 50_000 && whole % 2 == 1) {
            whole + 1
        } else {
            whole
        };
        concat4(
            if self.nanos < 0 {
                "-"
            } else {
                ""
            },
            decimal_text(q / 10_000).as_str(),
            ".",
            crate::text::four_digits_text(q % 10_000).as_str(),
        )
    }
}

impl Default for Budget {
    fn default() -> (r: Budget)
        ensures
            r == Budget::unlimited(),
    {
        Budget {
            max_tokens: None,
            max_cost_usd: None,
            max_wall_clock_secs: None,
            max_tool_calls: None,
            max_children: None,
        }
    }
}

impl Default for BudgetUsage {
    fn default() -> (r: BudgetUsage)
        ensures
            r == BudgetUsage::none(),
    {
        BudgetUsage { tokens: 0, cost_usd: Usd { nanos: 0 }, tool_calls: 0, children: 0 }
    }
}

impl BudgetUsage {
    /// Nothing used.
    pub open spec fn none() -> BudgetUsage {
        BudgetUsage { tokens: 0, cost_usd: Usd::none(), tool_calls: 0, children: 0 }
    }

    /// This usage and `delta` together. A counter that would pass its largest
    /// value stays there.
    pub open spec fn sum(self, delta: BudgetUsage) -> BudgetUsage {
        BudgetUsage {
            tokens: counter_sum(self.tokens, delta.tokens),
            cost_usd: self.cost_usd.sum(delta.cost_usd),
            tool_calls: counter_sum(self.tool_calls, delta.tool_calls),
            children: counter_sum(self.children, delta.children),
        }
    }

    /// Folds another usage into this one.
    pub fn add(&mut self, delta: &BudgetUsage)
        ensures
            *final(self) == old(self).sum(*delta),
    {
        self.tokens = self.tokens.saturating_add(delta.tokens);
        self.cost_usd = self.cost_usd.plus(delta.cost_usd);
        self.tool_calls = self.tool_calls.saturating_add(delta.tool_calls);
        self.children = self.children.saturating_add(delta.children);
    }
}

/// The report of a breached counter: `<name> <used> > <max>`.
pub open spec fn counter_report(name: Seq<char>, used: u64, max: u64) -> Seq<char> {
    name + crate::text::decimal(used as nat) + " > "@ + crate::text::decimal(max as nat)
}

fn counter_report_text(name: &str, used: u64, max: u64) -> (r: String)
    ensures
        r@ == counter_report(name@, used, max),
{
    concat4(
        name,
        decimal_text(used as u128).as_str(),
        " > ",
        decimal_text(max as u128).as_str(),
    )
}

/// The seconds from `start` to `end`, a begun one in full; none where `end` is not later.
pub open spec fn seconds_between(start: Timestamp, end: Timestamp) -> nat {
    if end.nanos <= start.nanos {
        0
    } else {
        ((end.nanos - start.nanos + 999_999_999) / 1_000_000_000) as nat
    }
}

fn whole_seconds(start: Timestamp, end: Timestamp) -> (r: u128)
    ensures
        r == seconds_between(start, end),
{
    if end.nanos <= start.nanos {
        return 0;
    }
    let span: u128 = if start.nanos >= 0 || end.nanos < 0 {
        (end.nanos - start.nanos) as u128
    } else {
        end.nanos as u128 + (-(start.nanos + 1)) as u128 + 1
    };
    assert(span == end.nanos - start.nanos);
    let secs: u128 = span / 1_000_000_000;
    if span % 1_000_000_000 > 0 {
        secs + 1
    } else {
        secs
    }
}

impl Budget {
    /// The budget without limits.
    pub open spec fn unlimited() -> Budget {
        Budget {
            max_tokens: None,
            max_cost_usd: None,
            max_wall_clock_secs: None,
            max_tool_calls: None,
            max_children: None,
        }
    }

    /// The report of the first limit that `usage` breaches, in the order tokens,
    /// cost, tool calls, children; `None` where it keeps all of them. A limit is
    /// breached by more than it, not by as much.
    pub open spec fn breach(self, usage: BudgetUsage) -> Option<Seq<char>> {
        if self.max_tokens matches Some(max) && usage.tokens > max {
            Some(counter_report("tokens "@, usage.tokens, self.max_tokens->0))
        } else if self.max_cost_usd matches Some(max) && usage.cost_usd.nanos > max.nanos {
            Some(
                "cost_usd "@ + usage.cost_usd.fixed4() + " > "@
                    + self.max_cost_usd->0.fixed4(),
            )
        } else if self.max_tool_calls matches Some(max) && usage.tool_calls > max {
            Some(counter_report("tool_calls "@, usage.tool_calls, self.max_tool_calls->0))
        } else if self.max_children matches Some(max) && usage.children > max {
            Some(counter_report("children "@, usage.children, self.max_children->0))
        } else {
            None
        }
    }

    /// `Err` with a report where `usage` breaches a limit.
    pub fn check(&self, usage: &BudgetUsage) -> (r: Result<(), String>)
        ensures
            match r {
                Ok(_) => self.breach(*usage) is None,
                Err(report) => self.breach(*usage) == Some(report@),
            },
    {
        if let Some(max) = self.max_tokens {
            if usage.tokens > max {
                return Err(counter_report_text("tokens ", usage.tokens, max));
            }
        }
        if let Some(max) = self.max_cost_usd {
            if usage.cost_usd.nanos > max.nanos {
                let report: String = concat4(
                    "cost_usd ",
                    usage.cost_usd.to_fixed4().as_str(),
                    " > ",
                    max.to_fixed4().as_str(),
                );
                return Err(report);
            }
        }
        if let Some(max) = self.max_tool_calls {
            if usage.tool_calls > max {
                return Err(counter_report_text("tool_calls ", usage.tool_calls, max));
            }
        }
        if let Some(max) = self.max_children {
            if usage.children > max {
                return Err(counter_report_text("children ", usage.children, max));
            }
        }
        Ok(())
    }

    /// The report of a run that was created at `created` and is older at `now` than the limit
    /// on wall-clock seconds allows; `None` where it is not. Its age is counted in seconds,
    /// a begun one in full.
    pub open spec fn overdue(self, created: Timestamp, now: Timestamp) -> Option<Seq<char>> {
        let age = seconds_between(created, now);
        match self.max_wall_clock_secs {
            Some(max) => if age > max {
                Some(
                    "wall_clock_secs "@ + crate::text::decimal(age) + " > "@
                        + crate::text::decimal(max as nat),
                )
            } else {
                None
            },
            None => None,
        }
    }

    /// `Err` with a report where a run that was created at `created` is older at `now` than
    /// the limit on wall-clock seconds allows.
    pub fn check_age(&self, created: Timestamp, now: Timestamp) -> (r: Result<(), String>)
        ensures
            match r {
                Ok(_) => self.overdue(created, now) is None,
                Err(report) => self.overdue(created, now) == Some(report@),
            },
    {
        if let Some(max) = self.max_wall_clock_secs {
            let age: u128 = whole_seconds(created, now);
            if age > max as u128 {
                let report: String = concat4(
                    "wall_clock_secs ",
                    decimal_text(age).as_str(),
                    " > ",
                    decimal_text(max as u128).as_str(),
                );
                return Err(report);
            }
        }
        Ok(())
    }

    /// What a breached budget is reported as: `budget exceeded: <report>`.
    pub open spec fn exceeded(report: Seq<char>) -> Seq<char> {
        "budget exceeded: "@ + report
    }

    /// The failure message of a run that breached its budget.
    pub(crate) fn exceeded_text(report: &str) -> (r: String)
        ensures
            r@ == Budget::exceeded(report@),
    {
        concat2("budget exceeded: ", report)
    }
}

} // verus!
