//! What the rounds of workers promise.

use vstd::prelude::*;

use crate::driver::AgentDriver;
use crate::engine::{
    last_tick, tick_outcome, tick_taken, ticked, turn_taken, worked_through, clock_of,
    ClockRelation, Engine, WorkerRound,
};
use crate::error::ErrorView;
use crate::ids::RunId;
use crate::laws::storage::to_be_had;
use crate::store::{claimed, Backend, Lease, Store};
use crate::time::Timestamp;

verus! {

/// A tick that finds nothing to do has changed nothing, and nothing could be had; one that found
/// something claimed what was ready first, took a turn of that run, and removed the entry.
pub proof fn a_tick_takes_one_turn<B: Backend, D: AgentDriver<B>>(
    engine: Engine<B, D>,
    before: Store,
    now: Timestamp,
    worked: bool,
    after: Store,
)
    requires
        tick_outcome(engine, before, now, Ok::<bool, ErrorView>(worked), after),
    ensures
        !worked ==> after == before && forall|i: int|
            0 <= i < before.queue.len() ==> !to_be_had(#[trigger] before.queue[i], now),
        worked ==> exists|lease: Lease<RunId>, leased: Store, turned: Store|
            {
                &&& #[trigger] tick_taken(engine, before, now, lease, leased, turned, after)
                &&& claimed(before, engine.ttl(), now, Some(lease), leased)
                &&& leased.runs.contains_key(lease.item.value)
                &&& turn_taken(
                    engine.reliable(),
                    clock_of::<B>(),
                    leased,
                    lease.item,
                    now,
                    engine.ttl(),
                    engine.driver_for(leased.runs[lease.item.value].agent_type),
                    turned,
                )
                &&& forall|i: int|
                    0 <= i < after.queue.len() ==> (#[trigger] after.queue[i]).entry_id
                        != lease.lease_id
            },
{
    if worked {
        assert(ticked(engine, before, now, after));
        let (lease, leased, turned) = choose|lease: Lease<RunId>, leased: Store, turned: Store|
            #[trigger]
            tick_taken(engine, before, now, lease, leased, turned, after);
        assert forall|i: int| 0 <= i < after.queue.len() implies (
        #[trigger] after.queue[i]).entry_id != lease.lease_id by {
            assert(after.queue.contains(after.queue[i]));
            super::an_acknowledgement_removes_only_its_entry(
                turned,
                lease.lease_id,
                after.queue[i],
            );
        }
    } else {
        assert forall|i: int| 0 <= i < before.queue.len() implies !to_be_had(
            #[trigger] before.queue[i],
            now,
        ) by {
            assert(!before.claimable(i, now));
        }
    }
}

/// Where nothing can be had, a tick finds nothing to do; where something can, it does not
/// report that there was nothing.
pub proof fn a_tick_does_not_overlook_what_is_ready<B: Backend, D: AgentDriver<B>>(
    engine: Engine<B, D>,
    before: Store,
    now: Timestamp,
    worked: bool,
    after: Store,
    i: int,
)
    requires
        tick_outcome(engine, before, now, Ok::<bool, ErrorView>(worked), after),
        0 <= i < before.queue.len(),
        to_be_had(before.queue[i], now),
    ensures
        worked,
{
    a_tick_takes_one_turn(engine, before, now, worked, after);
}

/// Working until idle ends with nothing left to be had at its last look, or after as many ticks
/// as were allowed.
pub proof fn working_until_idle_leaves_nothing_ready<B: Backend, D: AgentDriver<B>>(
    engine: Engine<B, D>,
    before: Store,
    most: nat,
    at: ClockRelation,
    after: Store,
)
    requires
        worked_through(engine, before, most, at, Ok::<bool, ErrorView>(true), after),
    ensures
        exists|now: Timestamp| #[trigger]
            at(now) && forall|i: int|
                0 <= i < after.queue.len() ==> !to_be_had(#[trigger] after.queue[i], now),
{
    let (times, trail) = choose|times: Seq<Timestamp>, trail: Seq<Store>|
        {
            &&& #[trigger] crate::engine::tick_trail(engine, times, trail)
            &&& forall|i: int| 0 <= i < times.len() ==> at(#[trigger] times[i])
            &&& trail.first() == before
            &&& times.len() < most
            &&& exists|now: Timestamp|
                {
                    &&& at(now)
                    &&& #[trigger] tick_outcome(
                        engine,
                        trail.last(),
                        now,
                        last_tick(Ok::<bool, ErrorView>(true)),
                        after,
                    )
                }
        };
    let now = choose|now: Timestamp|
        {
            &&& at(now)
            &&& #[trigger] tick_outcome(
                engine,
                trail.last(),
                now,
                last_tick(Ok::<bool, ErrorView>(true)),
                after,
            )
        };
    a_tick_takes_one_turn(engine, trail.last(), now, false, after);
    assert(at(now));
}

/// Working until idle is one tick after the other: where it stops for its bound, there were as
/// many ticks as the bound says, each from where the one before left off.
pub proof fn working_stops_at_its_bound<B: Backend, D: AgentDriver<B>>(
    engine: Engine<B, D>,
    before: Store,
    most: nat,
    at: ClockRelation,
    after: Store,
)
    requires
        worked_through(engine, before, most, at, Ok::<bool, ErrorView>(false), after),
    ensures
        exists|trail: Seq<Store>|
            {
                &&& (#[trigger] trail.len()) == most + 1
                &&& trail[0] == before
                &&& trail[most as int] == after
                &&& forall|i: int|
                    0 <= i < most ==> exists|now: Timestamp|
                        at(now) && #[trigger] ticked(engine, #[trigger] trail[i], now, trail[i + 1])
            },
{
    let (times, trail) = choose|times: Seq<Timestamp>, trail: Seq<Store>|
        {
            &&& #[trigger] crate::engine::tick_trail(engine, times, trail)
            &&& forall|i: int| 0 <= i < times.len() ==> at(#[trigger] times[i])
            &&& trail.first() == before
            &&& times.len() == most && after == trail.last()
        };
    assert forall|i: int| 0 <= i < most implies exists|now: Timestamp|
        at(now) && #[trigger] ticked(engine, #[trigger] trail[i], now, trail[i + 1]) by {
        let j = i + 1;
        assert(ticked(engine, trail[i], times[i], trail[j]));
        assert(at(times[i]));
    }
    assert(trail.len() == most + 1);
}

/// A worker goes on at once after a turn, and rests after a round that found nothing or failed.
pub proof fn a_worker_rests_when_it_is_idle(round: WorkerRound)
    ensures
        round.error is None ==> (round.tick() == Ok::<bool, ErrorView>(true) <==> round.pause
            is None),
        round.error is None ==> (round.tick() == Ok::<bool, ErrorView>(false) <==> round.pause
            is Some),
        round.error matches Some(e) ==> round.tick() == Err::<bool, ErrorView>(e@),
{
}

} // verus!
