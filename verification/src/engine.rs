//! The durable execution engine: it holds the drivers, creates runs, and claims
//! and advances them, making every transition durable.
//!
//! An operation whose outcome depends on the time or on a fresh id comes twice:
//! under its plain name it asks the clock and draws the id; under the name that
//! ends in `_at` it is told them, and its contract says exactly what it does.

use vstd::prelude::*;

use crate::budget::{Budget, BudgetUsage};
use crate::cancel::cancel_tree;
use crate::change::{commit, written, Change, ChangeView};
use crate::decide::{
    approving, awaited, child_ids_needed, creation, failing, finishes, plan_approving,
    plan_creation, plan_failing, plan_settling, plan_signalling, plan_waking, settling,
    signalling, waking, FreshIds,
};
use crate::driver::{advanced_view, Advance, AdvanceView, AgentDriver, RunContext, TurnView};
use crate::error::{Error, ErrorView};
use crate::ids::{fresh_uuid, time_ordered, RunId};
use crate::join::report_child;
use crate::json::{Json, JsonView};
use crate::look::{look_again, Look};
use crate::run::{Run, RunSpec, RunStatus, RunView, Wait, WaitView};
use crate::signal::{ApprovalResolution, ApprovalResolutionView, APPROVAL_SIGNAL};
use crate::store::{claim_made, nothing_ready, views, Backend, Lease, Store};
use crate::text::{concat2, debug_text, same_text};
use crate::time::{Duration, Timestamp};

verus! {

/// The engine over a backend, with drivers of one type.
pub struct Engine<B: Backend, D: AgentDriver<B>> {
    ctx: RunContext<B>,
    drivers: Vec<(String, D)>,
    lease_ttl: Duration,
    poll_interval: Duration,
}

/// Whether a run is parked on the signal `name`.
pub open spec fn parked_on(run: RunView, name: Seq<char>) -> bool {
    &&& run.status is WaitingSignal
    &&& run.waiting matches Some(WaitView::Signal { name: own, .. })
    &&& own == name
}

impl Store {
    /// The store after a signal has been delivered to the run `id`: a run that is
    /// parked on it is runnable again.
    pub open spec fn signalled(
        self,
        id: RunId,
        name: Seq<char>,
        payload: JsonView,
        now: Timestamp,
        entry_id: u128,
    ) -> Store {
        let told = self.apply_all(signalling(id, name, payload, now));
        if self.has_run(id) && parked_on(self.run(id), name) {
            told.apply_all(waking(self.run(id), entry_id, now))
        } else {
            told
        }
    }

    /// The store after the answer to an approval request has been delivered to the
    /// run `id`: a run that is parked on approval is runnable again.
    pub open spec fn approved(
        self,
        id: RunId,
        resolution: ApprovalResolutionView,
        now: Timestamp,
        entry_id: u128,
    ) -> Store {
        let told = self.apply_all(approving(id, resolution, now));
        if self.has_run(id) && self.run(id).status is WaitingApproval {
            told.apply_all(waking(self.run(id), entry_id, now))
        } else {
            told
        }
    }

    /// The store after the parent of a final run, if it has one, has been told.
    pub open spec fn parent_told(
        self,
        parent_id: Option<RunId>,
        now: Timestamp,
        entry_id: u128,
    ) -> Store {
        match parent_id {
            Some(p) => self.child_reported(p, now, entry_id),
            None => self,
        }
    }

    /// The store after the run `id` has been cancelled: it and everything below it
    /// are, and its parent is told. A run that is not there changes nothing.
    pub open spec fn run_cancelled(self, id: RunId, now: Timestamp, entry_id: u128) -> Store {
        if self.has_run(id) {
            self.cancel_tree(id.value, now).parent_told(self.run(id).parent_id, now, entry_id)
        } else {
            self
        }
    }

    /// The store after `run` has failed with `error` and its parent has been told.
    pub open spec fn run_failed(
        self,
        run: RunView,
        error: Seq<char>,
        now: Timestamp,
        parent_entry: u128,
    ) -> Store {
        self.apply_all(failing(run, error, now)).parent_told(run.parent_id, now, parent_entry)
    }

    /// Whether the signal that an advance would park the run `id` on is there.
    pub open spec fn arrived(self, id: RunId, advance: AdvanceView) -> bool {
        match awaited(advance) {
            Some(name) => self.has_signal(id, name),
            None => false,
        }
    }

    /// The store after the inbox of the parked run `id` has been looked at again: where the
    /// signal `name` is there, the run is runnable, unless it is final by now.
    pub open spec fn looked_again(
        self,
        id: RunId,
        name: Seq<char>,
        now: Timestamp,
        entry_id: u128,
    ) -> Store {
        if self.has_signal(id, name) && self.has_run(id) && !self.run(id).status.terminal() {
            self.apply_all(waking(self.run(id), entry_id, now))
        } else {
            self
        }
    }

    /// The store after an advance of `run` has been settled. Where it finishes the
    /// run, the parent is told.
    pub open spec fn settled(
        self,
        run: RunView,
        advance: AdvanceView,
        now: Timestamp,
        fresh: FreshIds,
    ) -> Store {
        let written = self.apply_all(
            settling(
                run,
                advance,
                self.arrived(run.id, advance),
                now,
                fresh.entry,
                fresh.children@,
            ),
        );
        if finishes(run, advance) {
            written.parent_told(run.parent_id, now, fresh.second_entry)
        } else {
            written
        }
    }

    /// The store after a turn of `run` has been settled: what the driver charged
    /// is added to the usage; a driver error or a breached budget, its limit on the age
    /// included, fails the run; else the advance counts.
    pub open spec fn turn_settled(
        self,
        run: RunView,
        delta: BudgetUsage,
        advanced: Result<AdvanceView, ErrorView>,
        now: Timestamp,
        fresh: FreshIds,
    ) -> Store {
        let counted = run.charged(delta);
        match advanced {
            Err(e) => self.run_failed(counted, e.text(), now, fresh.second_entry),
            Ok(advance) => match counted.breach(now) {
                Some(report) => self.run_failed(
                    counted,
                    Budget::exceeded(report),
                    now,
                    fresh.second_entry,
                ),
                None => self.settled(counted, advance, now, fresh),
            },
        }
    }

    /// Whether `after` is this store with the run `id` cancelled at `now`. Where calls on the
    /// backend may fail, `reliable` being false, the report to the parent may be missing.
    pub open spec fn cancelled_at(
        self,
        reliable: bool,
        id: RunId,
        now: Timestamp,
        entry_id: u128,
        after: Store,
    ) -> bool {
        ||| after == self.run_cancelled(id, now, entry_id)
        ||| !reliable && after == self.cancel_tree(id.value, now)
    }

    /// Whether `after` is this store with the run `id` cancelled at some time that the clock
    /// shows.
    pub open spec fn got_cancelled(
        self,
        reliable: bool,
        clock: ClockRelation,
        id: RunId,
        after: Store,
    ) -> bool {
        exists|now: Timestamp, entry_id: u128|
            clock(now) && time_ordered(entry_id) && #[trigger] self.cancelled_at(
                reliable,
                id,
                now,
                entry_id,
                after,
            )
    }

    /// The store after a turn of `run` has been settled without its parent having been
    /// told.
    pub open spec fn turn_unreported(
        self,
        run: RunView,
        delta: BudgetUsage,
        advanced: Result<AdvanceView, ErrorView>,
        now: Timestamp,
        fresh: FreshIds,
    ) -> Store {
        let counted = run.charged(delta);
        match advanced {
            Err(e) => self.apply_all(failing(counted, e.text(), now)),
            Ok(advance) => match counted.breach(now) {
                Some(report) => self.apply_all(failing(counted, Budget::exceeded(report), now)),
                None => self.apply_all(
                    settling(
                        counted,
                        advance,
                        self.arrived(counted.id, advance),
                        now,
                        fresh.entry,
                        fresh.children@,
                    ),
                ),
            },
        }
    }
}

/// What an operation that should turn `before` into `changed` leaves in `after`.
/// With `Ok` that is done; on a backend on which calls may fail, the report to a
/// parent that could not be read may be missing, which leaves `unreported`. With
/// `Err` the store has only grown. `owed` tells when a backend on which no call
/// fails owes success.
pub open spec fn done<T>(
    r: Result<T, Error>,
    reliable: bool,
    owed: bool,
    before: Store,
    unreported: Store,
    changed: Store,
    after: Store,
) -> bool {
    &&& after.extends(before)
    &&& reliable && owed ==> r is Ok
    &&& r is Ok ==> after == changed || (!reliable && after == unreported)
}

/// The message of a run for whose agent type there is no driver.
pub open spec fn no_driver_text(agent_type: Seq<char>) -> Seq<char> {
    "no driver for agent_type "@ + crate::text::debug_quoted(agent_type)
}

/// Tells the parent of a final run.
fn tell_parent<B: Backend>(
    backend: &mut B,
    parent_id: Option<RunId>,
    now: Timestamp,
    entry_id: u128,
) -> (r: Result<(), Error>)
    requires
        old(backend).inv(),
    ensures
        final(backend).inv(),
        final(backend).reliable() == old(backend).reliable(),
        done(
            r,
            old(backend).reliable(),
            true,
            old(backend).store(),
            old(backend).store(),
            old(backend).store().parent_told(parent_id, now, entry_id),
            final(backend).store(),
        ),
{
    proof {
        crate::store::lemma_extends_reflexive(backend.store());
        lemma_report_extends(backend.store(), parent_id, now, entry_id);
    }
    match parent_id {
        Some(p) => report_child(backend, p, now, entry_id),
        None => Ok(()),
    }
}

/// Telling a parent adds to a store and loses nothing.
proof fn lemma_report_extends(
    store: Store,
    parent_id: Option<RunId>,
    now: Timestamp,
    entry_id: u128,
)
    ensures
        parent_id matches Some(p) ==> store.child_reported(p, now, entry_id).extends(store),
{
    crate::store::lemma_extends_reflexive(store);
    if let Some(p) = parent_id {
        if store.has_run(p) {
            if let Some(WaitView::ChildJoin { mode }) = store.run(p).waiting {
                let payload = JsonView::empty_object().with(
                    "satisfied"@,
                    JsonView::Bool(store.joined(p.value, mode)),
                );
                let told = store.append(
                    p,
                    crate::event::EventKind::ChildRunFinished,
                    payload,
                    now,
                );
                crate::store::lemma_append_extends(
                    store,
                    store,
                    p,
                    crate::event::EventKind::ChildRunFinished,
                    payload,
                    now,
                );
                let list = waking(store.run(p), entry_id, now);
                crate::change::lemma_apply_all_extends(store, told, list);
                let woken = told.apply_all(list);
                crate::cancel::lemma_cancel_extends(woken, woken.brood(store, p.value), now);
                crate::store::lemma_extends_transitive(
                    store,
                    woken,
                    woken.cancel_where(woken.brood(store, p.value), now),
                );
            }
        }
    }
}

/// Writes changes that finish a run, and tells its parent.
fn finish<B: Backend>(
    backend: &mut B,
    changes: &Vec<Change>,
    parent_id: Option<RunId>,
    now: Timestamp,
    entry_id: u128,
) -> (r: Result<(), Error>)
    requires
        old(backend).inv(),
    ensures
        final(backend).inv(),
        final(backend).reliable() == old(backend).reliable(),
        done(
            r,
            old(backend).reliable(),
            old(backend).store().accepts_all(views(changes@)),
            old(backend).store(),
            old(backend).store().apply_all(views(changes@)),
            old(backend).store().apply_all(views(changes@)).parent_told(parent_id, now, entry_id),
            final(backend).store(),
        ),
{
    let ghost before = backend.store();
    match write_all(backend, changes) {
        Ok(_) => {
            let ghost here = backend.store();
            let r: Result<(), Error> = tell_parent(backend, parent_id, now, entry_id);
            proof {
                crate::store::lemma_extends_transitive(before, here, backend.store());
            }
            r
        },
        Err(e) => Err(e),
    }
}

/// Writes changes.
pub(crate) fn write_all<B: Backend>(backend: &mut B, changes: &Vec<Change>) -> (r: Result<
    (),
    Error,
>)
    requires
        old(backend).inv(),
    ensures
        final(backend).inv(),
        final(backend).reliable() == old(backend).reliable(),
        done(
            r,
            old(backend).reliable(),
            old(backend).store().accepts_all(views(changes@)),
            old(backend).store(),
            old(backend).store().apply_all(views(changes@)),
            old(backend).store().apply_all(views(changes@)),
            final(backend).store(),
        ),
{
    let ghost before = backend.store();
    let ghost list = views(changes@);
    let r: Result<(), Error> = commit(backend, changes);
    proof {
        crate::store::lemma_extends_reflexive(before);
        crate::change::lemma_apply_all_extends(before, before, list);
        if r is Err {
            let k = choose|k: int|
                0 <= k <= list.len() && backend.store() == #[trigger] before.apply_all(
                    list.take(k),
                );
            crate::change::lemma_apply_all_extends(before, before, list.take(k));
        }
    }
    r
}

/// Fails a run with `error` and tells its parent.
fn fail_run<B: Backend>(
    backend: &mut B,
    run: Run,
    error: String,
    now: Timestamp,
    parent_entry: u128,
) -> (r: Result<(), Error>)
    requires
        old(backend).inv(),
    ensures
        final(backend).inv(),
        final(backend).reliable() == old(backend).reliable(),
        done(
            r,
            old(backend).reliable(),
            old(backend).store().has_run(run.id),
            old(backend).store(),
            old(backend).store().apply_all(failing(run@, error@, now)),
            old(backend).store().run_failed(run@, error@, now, parent_entry),
            final(backend).store(),
        ),
{
    let parent_id: Option<RunId> = run.parent_id;
    proof {
        if backend.store().has_run(run.id) {
            lemma_failing_accepted(backend.store(), run@, error@, now);
        }
    }
    let changes: Vec<Change> = plan_failing(run, error, now);
    finish(backend, &changes, parent_id, now, parent_entry)
}

pub(crate) proof fn lemma_accepts_two(store: Store, a: ChangeView, b: ChangeView)
    requires
        store.accepts(a),
        store.apply(a).accepts(b),
    ensures
        store.accepts_all(seq![a, b]),
{
    let list = seq![a, b];
    reveal_with_fuel(Store::accepts_all, 3);
    reveal_with_fuel(Store::apply_all, 3);
    assert(list.drop_last().drop_last() =~= Seq::empty());
    assert(list.drop_last().last() == a);
}

proof fn lemma_failing_accepted(store: Store, run: RunView, error: Seq<char>, now: Timestamp)
    requires
        store.has_run(run.id),
    ensures
        store.accepts_all(failing(run, error, now)),
{
    let list = failing(run, error, now);
    lemma_accepts_two(store, list[0], list[1]);
    assert(list =~= seq![list[0], list[1]]);
}

/// A list of changes that overwrites only the run `id`, if that run is there, can
/// be written.
proof fn lemma_accepts_updates_of(store: Store, changes: Seq<ChangeView>, id: RunId)
    requires
        store.has_run(id),
        forall|i: int|
            0 <= i < changes.len() ==> ((#[trigger] changes[i]) matches ChangeView::UpdateRun(run)
                ==> run.id == id),
    ensures
        store.accepts_all(changes),
        store.apply_all(changes).has_run(id),
    decreases changes.len(),
{
    if changes.len() > 0 {
        let front = changes.drop_last();
        assert forall|i: int| 0 <= i < front.len() implies ((
        #[trigger] front[i]) matches ChangeView::UpdateRun(run) ==> run.id == id) by {
            assert(front[i] == changes[i]);
        }
        lemma_accepts_updates_of(store, front, id);
        assert(changes.last() == changes[changes.len() - 1]);
    }
}

proof fn lemma_births_create(
    parent: RunView,
    specs: Seq<crate::driver::ChildSpecView>,
    ids: Seq<u128>,
    now: Timestamp,
)
    ensures
        forall|i: int|
            0 <= i < crate::decide::births(parent, specs, ids, now).len() ==> !((
            #[trigger] crate::decide::births(parent, specs, ids, now)[i]) is UpdateRun),
        forall|i: int|
            0 <= i < crate::decide::births(parent, specs, ids, now).len() ==> !((
            #[trigger] crate::decide::births(parent, specs, ids, now)[i]) is Deliver),
    decreases specs.len(),
{
    if specs.len() > 0 {
        lemma_births_create(parent, specs.drop_last(), ids, now);
    }
}

/// What settles an advance overwrites only the run itself and delivers nothing.
proof fn lemma_settling_shape(
    run: RunView,
    advance: AdvanceView,
    arrived: bool,
    now: Timestamp,
    entry: u128,
    ids: Seq<u128>,
)
    ensures
        forall|i: int|
            0 <= i < settling(run, advance, arrived, now, entry, ids).len() ==> ((
            #[trigger] settling(
                run,
                advance,
                arrived,
                now,
                entry,
                ids,
            )[i]) matches ChangeView::UpdateRun(own) ==> own.id == run.id),
        forall|i: int|
            0 <= i < settling(run, advance, arrived, now, entry, ids).len() ==> !((
            #[trigger] settling(run, advance, arrived, now, entry, ids)[i]) is Deliver),
{
    if let AdvanceView::SpawnChildren { specs, .. } = advance {
        lemma_births_create(crate::decide::settled_run(run, advance), specs, ids, now);
    }
}

/// Changes that deliver nothing leave the inboxes alone.
proof fn lemma_no_delivery(store: Store, changes: Seq<ChangeView>)
    requires
        forall|i: int| 0 <= i < changes.len() ==> !((#[trigger] changes[i]) is Deliver),
    ensures
        store.apply_all(changes).signals == store.signals,
    decreases changes.len(),
{
    if changes.len() > 0 {
        let front = changes.drop_last();
        assert forall|i: int| 0 <= i < front.len() implies !((#[trigger] front[i]) is Deliver) by {
            assert(front[i] == changes[i]);
        }
        lemma_no_delivery(store, front);
        assert(!(changes[changes.len() - 1] is Deliver));
    }
}

/// Whether `look` is owed by the settling of an advance of `run`: where it parks the run on a
/// signal, a look at the inbox that was taken when the run was parked; else none.
pub open spec fn looked(
    before: Store,
    run: RunView,
    advance: AdvanceView,
    now: Timestamp,
    fresh: FreshIds,
    look: Option<Look>,
) -> bool {
    match awaited(advance) {
        Some(name) => if before.has_signal(run.id, name) {
            look is None
        } else {
            let parked = before.apply_all(
                settling(run, advance, false, now, fresh.entry, fresh.children@),
            );
            look matches Some(look) && look.shows(parked, run.id, name)
        },
        None => look is None,
    }
}

/// Whether `look` is owed by the settling of a turn of `run`: by that of the advance, where
/// it counts.
pub open spec fn turn_looked(
    before: Store,
    run: RunView,
    delta: BudgetUsage,
    advanced: Result<AdvanceView, ErrorView>,
    now: Timestamp,
    fresh: FreshIds,
    look: Option<Look>,
) -> bool {
    match advanced {
        Ok(advance) => if run.charged(delta).breach(now) is None {
            looked(before, run.charged(delta), advance, now, fresh, look)
        } else {
            look is None
        },
        Err(_) => look is None,
    }
}

/// Settles an advance of `run`. Where the run would park on a signal, the inbox is
/// looked at before and again after the parking is written: whatever arrives
/// before the run is parked makes it runnable. The second look is given back.
fn apply_advance<B: Backend>(
    backend: &mut B,
    run: Run,
    advance: Advance,
    now: Timestamp,
    fresh: &FreshIds,
) -> (r: Result<Option<Look>, Error>)
    requires
        old(backend).inv(),
        fresh.children@.len() == child_ids_needed(advance@),
    ensures
        final(backend).inv(),
        final(backend).reliable() == old(backend).reliable(),
        r matches Ok(look) ==> looked(old(backend).store(), run@, advance@, now, *fresh, look),
        done(
            r,
            old(backend).reliable(),
            old(backend).store().has_run(run.id),
            old(backend).store(),
            old(backend).store().apply_all(
                settling(
                    run@,
                    advance@,
                    old(backend).store().arrived(run.id, advance@),
                    now,
                    fresh.entry,
                    fresh.children@,
                ),
            ),
            old(backend).store().settled(run@, advance@, now, *fresh),
            final(backend).store(),
        ),
{
    let ghost before = backend.store();
    let ghost wanted = advance@;
    let ghost own = run@;
    let id: RunId = run.id;
    let parent_id: Option<RunId> = run.parent_id;
    let name: Option<String> = match &advance {
        Advance::WaitForApproval { .. } => Some(APPROVAL_SIGNAL.to_owned()),
        Advance::WaitForSignal { name, .. } => Some(name.clone()),
        _ => None,
    };
    proof {
        crate::store::lemma_extends_reflexive(before);
    }
    let arrived: bool = match &name {
        Some(name) => match backend.has_unconsumed(id, name.as_str()) {
            Ok(arrived) => arrived,
            Err(e) => return Err(e),
        },
        None => false,
    };
    let ghost list = settling(own, wanted, arrived, now, fresh.entry, fresh.children@);
    proof {
        lemma_settling_shape(own, wanted, arrived, now, fresh.entry, fresh.children@);
        lemma_no_delivery(before, list);
        if before.has_run(id) {
            lemma_accepts_updates_of(before, list, id);
        }
    }
    let (changes, ends) = plan_settling(run, advance, arrived, now, fresh);
    if ends {
        return match finish(backend, &changes, parent_id, now, fresh.second_entry) {
            Ok(_) => Ok(None),
            Err(e) => Err(e),
        };
    }
    match write_all(backend, &changes) {
        Ok(_) => {},
        Err(e) => return Err(e),
    }
    let ghost here = backend.store();
    if let Some(name) = &name {
        if !arrived {
            proof {
                assert(here.inbox(id) == before.inbox(id));
                if here.has_signal(id, name@) {
                    let i = choose|i: int| #[trigger] here.waits(id, name@, i);
                    assert(before.waits(id, name@, i));
                }
                crate::store::lemma_extends_reflexive(here);
            }
            return match look_again(backend, id, name.as_str(), now, fresh.second_entry) {
                Ok(look) => Ok(Some(look)),
                Err(e) => Err(e),
            };
        }
    }
    Ok(None)
}

/// The fresh ids that the settling of an advance takes.
fn draw_ids(advanced: &Result<Advance, Error>) -> (r: FreshIds)
    ensures
        advanced matches Ok(advance) ==> r.children@.len() == child_ids_needed(advance@),
        r.drawn(),
{
    let mut children: Vec<u128> = Vec::new();
    if let Ok(Advance::SpawnChildren { specs, .. }) = advanced {
        let mut i: usize = 0;
        while i < specs.len()
            invariant
                i <= specs@.len(),
                children@.len() == 2 * i,
                forall|j: int| 0 <= j < children@.len() ==> time_ordered(#[trigger] children@[j]),
            decreases specs@.len() - i,
        {
            children.push(fresh_uuid());
            children.push(fresh_uuid());
            i = i + 1;
        }
    }
    FreshIds { entry: fresh_uuid(), second_entry: fresh_uuid(), children }
}

/// Settles a turn of `run`: `delta` is what the driver charged, `advanced` what it
/// returned. Where the turn parks the run on a signal, the look at its inbox that follows is
/// given back.
pub fn settle_turn<B: Backend>(
    backend: &mut B,
    run: Run,
    delta: BudgetUsage,
    advanced: Result<Advance, Error>,
    now: Timestamp,
    fresh: &FreshIds,
) -> (r: Result<Option<Look>, Error>)
    requires
        old(backend).inv(),
        advanced matches Ok(advance) ==> fresh.children@.len() == child_ids_needed(advance@),
    ensures
        final(backend).inv(),
        final(backend).reliable() == old(backend).reliable(),
        final(backend).store().extends(old(backend).store()),
        old(backend).reliable() && old(backend).store().has_run(run.id) ==> r is Ok,
        r is Ok ==> ({
            let before = old(backend).store();
            let after = final(backend).store();
            let result = advanced_view(advanced);
            ||| after == before.turn_settled(run@, delta, result, now, *fresh)
            ||| !old(backend).reliable() && after == before.turn_unreported(
                run@,
                delta,
                result,
                now,
                *fresh,
            )
        }),
        r matches Ok(look) ==> turn_looked(
            old(backend).store(),
            run@,
            delta,
            advanced_view(advanced),
            now,
            *fresh,
            look,
        ),
{
    let mut usage: BudgetUsage = run.usage;
    usage.add(&delta);
    let counted = Run { usage, ..run };
    match advanced {
        Err(e) => {
            let message: String = e.message();
            match fail_run(backend, counted, message, now, fresh.second_entry) {
                Ok(_) => Ok(None),
                Err(e) => Err(e),
            }
        },
        Ok(advance) => match counted.check(now) {
            Err(report) => {
                let message: String = Budget::exceeded_text(report.as_str());
                match fail_run(backend, counted, message, now, fresh.second_entry) {
                    Ok(_) => Ok(None),
                    Err(e) => Err(e),
                }
            },
            Ok(_) => apply_advance(backend, counted, advance, now, fresh),
        },
    }
}

/// Whether a run that is picked up at `now` resumes because its wait for a signal
/// timed out: its deadline has passed and the signal is not there.
pub open spec fn timed_out(store: Store, run: RunView, now: Timestamp) -> bool {
    match run.waiting {
        Some(WaitView::Signal { name, deadline: Some(deadline) }) => deadline.nanos <= now.nanos
            && !store.has_signal(run.id, name),
        _ => false,
    }
}

/// Whether a driver may end a turn that began as the first as the second, with what it
/// returned.
pub type DriverRelation = spec_fn(TurnView, TurnView, Result<AdvanceView, ErrorView>) -> bool;

/// Whether a clock may show a time.
pub type ClockRelation = spec_fn(Timestamp) -> bool;

/// What the clock of a backend may show.
pub open spec fn clock_of<B: Backend>() -> ClockRelation {
    |now: Timestamp| B::may_show(now)
}

/// The turn that a driver is handed at `now`: the run is marked as running, nothing is
/// charged yet, and whether a wait timed out is told.
pub open spec fn handed(store: Store, run: RunView, now: Timestamp) -> TurnView {
    TurnView {
        store: store.put_run(run.running(now)),
        run: run.running(now),
        charged: BudgetUsage::none(),
        late: timed_out(store, run, now),
    }
}

/// Whether `after` is what a turn of `run` at `now` makes of `store`: the driver is handed
/// the turn; of what it leaves, the store, what it charged and what it returned are
/// settled at a later time that the clock shows. Where calls on the backend may fail,
/// `reliable` being false, the report to the parent may be missing.
pub open spec fn driven(
    reliable: bool,
    clock: ClockRelation,
    store: Store,
    run: RunView,
    now: Timestamp,
    driver: DriverRelation,
    after: Store,
) -> bool {
    exists|
        left: TurnView,
        advanced: Result<AdvanceView, ErrorView>,
        later: Timestamp,
        fresh: FreshIds,
    |
        driven_by(
            reliable,
            clock,
            store,
            run,
            now,
            driver,
            left,
            advanced,
            later,
            fresh,
            after,
        )
}

/// Whether `after` is what a turn of `run` at `now` makes of `store` where the driver leaves
/// `left` and returns `advanced`, which is settled at `later` with the ids of `fresh`.
pub open spec fn driven_by(
    reliable: bool,
    clock: ClockRelation,
    store: Store,
    run: RunView,
    now: Timestamp,
    driver: DriverRelation,
    left: TurnView,
    advanced: Result<AdvanceView, ErrorView>,
    later: Timestamp,
    fresh: FreshIds,
    after: Store,
) -> bool {
    let started = run.running(now);
    &&& driver(handed(store, run, now), left, advanced)
    &&& left.store.queue == store.queue
    &&& clock(later)
    &&& fresh.drawn()
    &&& {
        ||| after == left.store.turn_settled(started, left.charged, advanced, later, fresh)
        ||| !reliable && after == left.store.turn_unreported(
            started,
            left.charged,
            advanced,
            later,
            fresh,
        )
    }
}

/// Whether `after` is what a turn of `run`, for whose agent type there is no driver, makes
/// of `store`: the run fails. Where calls on the backend may fail, the report to the parent
/// may be missing.
pub open spec fn undriven(
    reliable: bool,
    store: Store,
    run: RunView,
    now: Timestamp,
    after: Store,
) -> bool {
    let message = no_driver_text(run.agent_type);
    ||| exists|entry_id: u128|
        time_ordered(entry_id) && after == #[trigger] store.run_failed(
            run,
            message,
            now,
            entry_id,
        )
    ||| !reliable && after == store.apply_all(failing(run, message, now))
}

/// Whether `after` is what a turn of the run `id` that began at `now` leaves of
/// `before`, the processing lease lasting `lease_ttl`. A final run, and one whose
/// processing lease is held, is left alone. Else the lease is taken for the turn.
/// A run without a driver fails; one with a driver is handed to it. Where calls on the
/// backend may fail, `reliable` being false, the lease may be left to expire.
pub open spec fn turn_taken(
    reliable: bool,
    clock: ClockRelation,
    before: Store,
    id: RunId,
    now: Timestamp,
    lease_ttl: Duration,
    driver: Option<DriverRelation>,
    after: Store,
) -> bool {
    let run = before.run(id);
    let fenced = before.fence(id, now.later(lease_ttl));
    if run.status.terminal() || before.fenced(id, now) {
        after == before
    } else {
        exists|turned: Store|
            {
                &&& #[trigger] turn_made(reliable, clock, fenced, run, now, driver, turned)
                &&& after == turned.unfence(id) || (!reliable && after == turned)
            }
    }
}

/// Whether `turned` is what a turn of `run` at `now` makes of `store`.
pub open spec fn turn_made(
    reliable: bool,
    clock: ClockRelation,
    store: Store,
    run: RunView,
    now: Timestamp,
    driver: Option<DriverRelation>,
    turned: Store,
) -> bool {
    match driver {
        Some(driver) => driven(reliable, clock, store, run, now, driver, turned),
        None => undriven(reliable, store, run, now, turned),
    }
}

/// Whether the driver at `i` counts for an agent type: the last one under it.
pub open spec fn counts<D>(drivers: Seq<(String, D)>, agent_type: Seq<char>, i: int) -> bool {
    &&& 0 <= i < drivers.len()
    &&& drivers[i].0@ == agent_type
    &&& forall|j: int| i < j < drivers.len() ==> (#[trigger] drivers[j]).0@ != agent_type
}

/// What the driver for an agent type may do, where there is one.
pub open spec fn driver_in<B: Backend, D: AgentDriver<B>>(
    drivers: Seq<(String, D)>,
    agent_type: Seq<char>,
) -> Option<DriverRelation> {
    if exists|i: int| #[trigger] counts(drivers, agent_type, i) {
        let i = choose|i: int| #[trigger] counts(drivers, agent_type, i);
        Some(
            |given: TurnView, left: TurnView, advanced: Result<AdvanceView, ErrorView>|
                drivers[i].1.may(given, left, advanced),
        )
    } else {
        None
    }
}

impl<B: Backend, D: AgentDriver<B>> Engine<B, D> {
    /// The store behind the engine.
    pub closed spec fn store(&self) -> Store {
        self.ctx.backend.store()
    }

    /// Whether no call on the backend fails for a reason of its own.
    pub closed spec fn reliable(&self) -> bool {
        self.ctx.backend.reliable()
    }

    /// Whether the backend is in a state that its own operations lead to.
    pub closed spec fn inv(&self) -> bool {
        self.ctx.backend.inv()
    }

    /// How long a claim lasts.
    pub closed spec fn ttl(&self) -> Duration {
        self.lease_ttl
    }

    /// How long a worker sleeps when it is idle.
    pub closed spec fn idle_span(&self) -> Duration {
        self.poll_interval
    }

    /// The registered drivers under their agent types; of two under one agent type
    /// the later one counts.
    pub closed spec fn registered(&self) -> Seq<(String, D)> {
        self.drivers@
    }

    /// What the driver for an agent type may do, where there is one.
    pub open spec fn driver_for(&self, agent_type: Seq<char>) -> Option<DriverRelation> {
        driver_in::<B, D>(self.registered(), agent_type)
    }

    /// Whether `self` and `other` have the same drivers and settings and backends
    /// of the same reliability.
    pub open spec fn same_setup(&self, other: &Engine<B, D>) -> bool {
        &&& self.inv()
        &&& self.reliable() == other.reliable()
        &&& self.ttl() == other.ttl()
        &&& self.idle_span() == other.idle_span()
        &&& self.registered() == other.registered()
    }

    /// An engine over `backend` without drivers: claims last 30 seconds, an idle
    /// worker sleeps for 50 milliseconds.
    pub fn new(backend: B) -> (r: Engine<B, D>)
        ensures
            r.store() == backend.store(),
            r.inv() == backend.inv(),
            r.reliable() == backend.reliable(),
            r.registered() == Seq::<(String, D)>::empty(),
            r.ttl().nanos == 30_000_000_000,
            r.idle_span().nanos == 50_000_000,
    {
        let idle: Run = Run::from_spec_with_id(
            RunSpec::default(),
            RunId { value: 0 },
            Timestamp::epoch(),
        );
        let ctx: RunContext<B> = RunContext::new(backend, idle, false);
        proof {
            ctx.model();
        }
        Engine {
            ctx,
            drivers: Vec::new(),
            lease_ttl: Duration::from_secs(30),
            poll_interval: Duration::from_millis(50),
        }
    }

    /// Registers a driver for an agent type, in place of one registered before.
    pub fn with_driver(self, agent_type: &str, driver: D) -> (r: Engine<B, D>)
        ensures
            r.store() == self.store(),
            r.inv() == self.inv(),
            r.reliable() == self.reliable(),
            r.ttl() == self.ttl(),
            r.idle_span() == self.idle_span(),
            exists|name: String|
                name@ == agent_type@ && r.registered() == #[trigger] self.registered().push(
                    (name, driver),
                ),
    {
        let mut drivers: Vec<(String, D)> = self.drivers;
        let name: String = agent_type.to_owned();
        drivers.push((name, driver));
        proof {
            assert(drivers@ == self.registered().push((name, driver)));
        }
        Engine {
            ctx: self.ctx,
            drivers,
            lease_ttl: self.lease_ttl,
            poll_interval: self.poll_interval,
        }
    }

    /// Sets how long a claim lasts.
    pub fn with_lease_ttl(self, ttl: Duration) -> (r: Engine<B, D>)
        ensures
            r.store() == self.store(),
            r.inv() == self.inv(),
            r.reliable() == self.reliable(),
            r.ttl() == ttl,
            r.idle_span() == self.idle_span(),
            r.registered() == self.registered(),
    {
        Engine {
            ctx: self.ctx,
            drivers: self.drivers,
            lease_ttl: ttl,
            poll_interval: self.poll_interval,
        }
    }

    /// Sets how long an idle worker sleeps.
    pub fn with_poll_interval(self, interval: Duration) -> (r: Engine<B, D>)
        ensures
            r.store() == self.store(),
            r.inv() == self.inv(),
            r.reliable() == self.reliable(),
            r.ttl() == self.ttl(),
            r.idle_span() == interval,
            r.registered() == self.registered(),
    {
        Engine {
            ctx: self.ctx,
            drivers: self.drivers,
            lease_ttl: self.lease_ttl,
            poll_interval: interval,
        }
    }

    /// How long an idle worker sleeps.
    pub fn poll_interval(&self) -> (r: Duration)
        ensures
            r == self.idle_span(),
    {
        self.poll_interval
    }

    /// The backend, for reads outside the engine.
    pub fn backend(&self) -> (r: &B)
        ensures
            r.store() == self.store(),
            r.inv() == self.inv(),
            r.reliable() == self.reliable(),
    {
        &self.ctx.backend
    }

    /// Creates a run and makes it runnable.
    pub fn create_run(&mut self, spec: RunSpec) -> (r: Result<RunId, Error>)
        requires
            old(self).inv(),
        ensures
            final(self).same_setup(old(self)),
            old(self).reliable() ==> r is Ok,
            exists|id: RunId, entry_id: u128, now: Timestamp|
                {
                    &&& B::may_show(now)
                    &&& time_ordered(id.value)
                    &&& time_ordered(entry_id)
                    &&& r matches Ok(new) ==> new == id
                    &&& r is Ok ==> final(self).store().has_run(id) && final(self).store().run(id)
                        == spec@.fresh(id, now)
                    &&& #[trigger] written(
                        r,
                        old(self).reliable(),
                        old(self).store(),
                        creation(spec@.fresh(id, now), entry_id, now),
                        final(self).store(),
                    )
                },
    {
        let now: Timestamp = self.ctx.backend.now();
        self.create_run_at(spec, RunId::new(), fresh_uuid(), now)
    }

    /// Creates the run `id` at `now` and makes it runnable by the queue entry
    /// `entry_id`.
    pub fn create_run_at(
        &mut self,
        spec: RunSpec,
        id: RunId,
        entry_id: u128,
        now: Timestamp,
    ) -> (r: Result<RunId, Error>)
        requires
            old(self).inv(),
        ensures
            final(self).same_setup(old(self)),
            old(self).reliable() ==> r is Ok,
            r matches Ok(new) ==> new == id,
            r is Ok ==> final(self).store().has_run(id) && final(self).store().run(id)
                == spec@.fresh(id, now),
            written(
                r,
                old(self).reliable(),
                old(self).store(),
                creation(spec@.fresh(id, now), entry_id, now),
                final(self).store(),
            ),
    {
        let run: Run = Run::from_spec_with_id(spec, id, now);
        let ghost list = creation(run@, entry_id, now);
        proof {
            reveal_with_fuel(Store::accepts_all, 4);
            reveal_with_fuel(Store::apply_all, 4);
            assert(list.drop_last().drop_last().last() == list[0]);
            assert(list.drop_last().last() == list[1]);
        }
        let changes: Vec<Change> = plan_creation(run, entry_id, now);
        match commit(&mut self.ctx.backend, &changes) {
            Ok(_) => Ok(id),
            Err(e) => Err(e),
        }
    }

    /// Fetches a run.
    pub fn get_run(&self, id: RunId) -> (r: Result<Run, Error>)
        requires
            self.inv(),
        ensures
            match r {
                Ok(run) => self.store().has_run(id) && run@ == self.store().run(id),
                Err(e) => (e is RunNotFound ==> !self.store().has_run(id) && e@
                    == ErrorView::RunNotFound(id)) && (self.reliable() ==> e is RunNotFound),
            },
    {
        self.ctx.backend.get_run(id)
    }

    /// Delivers a named signal; a run parked on that name is runnable again.
    pub fn signal(&mut self, run_id: RunId, name: &str, payload: Json) -> (r: Result<(), Error>)
        requires
            old(self).inv(),
        ensures
            final(self).same_setup(old(self)),
            final(self).store().extends(old(self).store()),
            old(self).reliable() ==> r is Ok == old(self).store().has_run(run_id),
            old(self).reliable() ==> (r matches Err(e) ==> e@ == ErrorView::RunNotFound(run_id)
                && exists|now: Timestamp|
                B::may_show(now) && final(self).store() == old(self).store().apply_all(
                    #[trigger] signalling(run_id, name@, payload@, now),
                )),
            r is Ok ==> exists|now: Timestamp, entry_id: u128|
                {
                    &&& B::may_show(now)
                    &&& time_ordered(entry_id)
                    &&& final(self).store() == #[trigger] old(self).store().signalled(
                        run_id,
                        name@,
                        payload@,
                        now,
                        entry_id,
                    )
                },
    {
        let now: Timestamp = self.ctx.backend.now();
        self.signal_at(run_id, name, payload, now, fresh_uuid())
    }

    /// Delivers a named signal at `now`; a run parked on that name is runnable
    /// again by the queue entry `entry_id`. A signal for a run that is not there is
    /// delivered and logged all the same, and the answer is `RunNotFound`.
    pub fn signal_at(
        &mut self,
        run_id: RunId,
        name: &str,
        payload: Json,
        now: Timestamp,
        entry_id: u128,
    ) -> (r: Result<(), Error>)
        requires
            old(self).inv(),
        ensures
            final(self).same_setup(old(self)),
            final(self).store().extends(old(self).store()),
            match r {
                Ok(_) => {
                    &&& old(self).store().has_run(run_id)
                    &&& final(self).store() == old(self).store().signalled(
                        run_id,
                        name@,
                        payload@,
                        now,
                        entry_id,
                    )
                },
                Err(e) => old(self).reliable() ==> {
                    &&& !old(self).store().has_run(run_id)
                    &&& e@ == ErrorView::RunNotFound(run_id)
                    &&& final(self).store() == old(self).store().apply_all(
                        signalling(run_id, name@, payload@, now),
                    )
                },
            },
    {
        let ghost before = self.store();
        let ghost list = signalling(run_id, name@, payload@, now);
        let changes: Vec<Change> = plan_signalling(run_id, name, payload, now);
        proof {
            lemma_accepts_two(before, list[0], list[1]);
            assert(list =~= seq![list[0], list[1]]);
            lemma_told(before, list);
        }
        match write_all(&mut self.ctx.backend, &changes) {
            Ok(_) => {},
            Err(e) => return Err(e),
        }
        let ghost told = self.store();
        let run: Run = match self.ctx.backend.get_run(run_id) {
            Ok(run) => run,
            Err(e) => return Err(e),
        };
        let parked: bool = run.status == RunStatus::WaitingSignal && match &run.waiting {
            Some(Wait::Signal { name: own, .. }) => same_text(own.as_str(), name),
            _ => false,
        };
        if parked {
            proof {
                self.ctx.backend.inv_gives_wf();
                assert(told.runs.contains_key(run_id.value));
                crate::join::lemma_waking_accepted(told, run@, entry_id, now);
            }
            let r: Result<(), Error> = write_all(
                &mut self.ctx.backend,
                &plan_waking(run, entry_id, now),
            );
            proof {
                crate::store::lemma_extends_transitive(before, told, self.store());
            }
            r
        } else {
            Ok(())
        }
    }

    /// Delivers the answer to an approval request; a run parked on approval is
    /// runnable again.
    pub fn approve(&mut self, run_id: RunId, resolution: ApprovalResolution) -> (r: Result<
        (),
        Error,
    >)
        requires
            old(self).inv(),
        ensures
            final(self).same_setup(old(self)),
            final(self).store().extends(old(self).store()),
            old(self).reliable() ==> r is Ok == old(self).store().has_run(run_id),
            old(self).reliable() ==> (r matches Err(e) ==> e@ == ErrorView::RunNotFound(run_id)
                && exists|now: Timestamp|
                B::may_show(now) && final(self).store() == old(self).store().apply_all(
                    #[trigger] approving(run_id, resolution@, now),
                )),
            r is Ok ==> exists|now: Timestamp, entry_id: u128|
                {
                    &&& B::may_show(now)
                    &&& time_ordered(entry_id)
                    &&& final(self).store() == #[trigger] old(self).store().approved(
                        run_id,
                        resolution@,
                        now,
                        entry_id,
                    )
                },
    {
        let now: Timestamp = self.ctx.backend.now();
        self.approve_at(run_id, resolution, now, fresh_uuid())
    }

    /// Delivers the answer to an approval request at `now`; a run parked on
    /// approval is runnable again by the queue entry `entry_id`.
    pub fn approve_at(
        &mut self,
        run_id: RunId,
        resolution: ApprovalResolution,
        now: Timestamp,
        entry_id: u128,
    ) -> (r: Result<(), Error>)
        requires
            old(self).inv(),
        ensures
            final(self).same_setup(old(self)),
            final(self).store().extends(old(self).store()),
            match r {
                Ok(_) => {
                    &&& old(self).store().has_run(run_id)
                    &&& final(self).store() == old(self).store().approved(
                        run_id,
                        resolution@,
                        now,
                        entry_id,
                    )
                },
                Err(e) => old(self).reliable() ==> {
                    &&& !old(self).store().has_run(run_id)
                    &&& e@ == ErrorView::RunNotFound(run_id)
                    &&& final(self).store() == old(self).store().apply_all(
                        approving(run_id, resolution@, now),
                    )
                },
            },
    {
        let ghost before = self.store();
        let ghost list = approving(run_id, resolution@, now);
        let changes: Vec<Change> = plan_approving(run_id, &resolution, now);
        proof {
            lemma_accepts_two(before, list[0], list[1]);
            assert(list =~= seq![list[0], list[1]]);
            lemma_told(before, list);
        }
        match write_all(&mut self.ctx.backend, &changes) {
            Ok(_) => {},
            Err(e) => return Err(e),
        }
        let ghost told = self.store();
        let run: Run = match self.ctx.backend.get_run(run_id) {
            Ok(run) => run,
            Err(e) => return Err(e),
        };
        if run.status == RunStatus::WaitingApproval {
            proof {
                self.ctx.backend.inv_gives_wf();
                assert(told.runs.contains_key(run_id.value));
                crate::join::lemma_waking_accepted(told, run@, entry_id, now);
            }
            let r: Result<(), Error> = write_all(
                &mut self.ctx.backend,
                &plan_waking(run, entry_id, now),
            );
            proof {
                crate::store::lemma_extends_transitive(before, told, self.store());
            }
            r
        } else {
            Ok(())
        }
    }

    /// Cancels a run and its descendants that are not final, and tells its parent.
    /// A run that is not there is nothing to cancel.
    pub fn cancel(&mut self, run_id: RunId) -> (r: Result<(), Error>)
        requires
            old(self).inv(),
        ensures
            final(self).same_setup(old(self)),
            final(self).store().extends(old(self).store()),
            old(self).reliable() ==> r is Ok,
            r is Ok ==> old(self).store().got_cancelled(
                old(self).reliable(),
                clock_of::<B>(),
                run_id,
                final(self).store(),
            ),
    {
        let now: Timestamp = self.ctx.backend.now();
        let entry_id: u128 = fresh_uuid();
        let r: Result<(), Error> = self.cancel_at(run_id, now, entry_id);
        proof {
            if r is Ok {
                assert(old(self).store().cancelled_at(
                    old(self).reliable(),
                    run_id,
                    now,
                    entry_id,
                    self.store(),
                ));
            }
        }
        r
    }

    /// Cancels a run at `now` with its descendants that are not final, and tells
    /// its parent, which `entry_id` makes runnable where its join is satisfied.
    pub fn cancel_at(&mut self, run_id: RunId, now: Timestamp, entry_id: u128) -> (r: Result<
        (),
        Error,
    >)
        requires
            old(self).inv(),
        ensures
            final(self).same_setup(old(self)),
            done(
                r,
                old(self).reliable(),
                true,
                old(self).store(),
                old(self).store().cancel_tree(run_id.value, now),
                old(self).store().run_cancelled(run_id, now, entry_id),
                final(self).store(),
            ),
    {
        let ghost before = self.store();
        proof {
            crate::store::lemma_extends_reflexive(before);
        }
        let top: Run = match self.ctx.backend.get_run(run_id) {
            Ok(top) => top,
            Err(Error::RunNotFound(_)) => return Ok(()),
            Err(e) => return Err(e),
        };
        match cancel_tree(&mut self.ctx.backend, run_id, now) {
            Ok(_) => {},
            Err(e) => return Err(e),
        }
        let ghost here = self.store();
        let r: Result<(), Error> = tell_parent(
            &mut self.ctx.backend,
            top.parent_id,
            now,
            entry_id,
        );
        proof {
            crate::cancel::lemma_cancel_extends(before, before.subtree(run_id.value), now);
            crate::store::lemma_extends_transitive(before, here, self.store());
        }
        r
    }
}

// ---- turns ---------------------------------------------------------------------

/// Whether `after` is what a claim and a turn at `now` leave of `before`: the run
/// that was ready first is claimed, its turn is taken, and the claimed entry is
/// removed.
pub open spec fn tick_taken<B: Backend, D: AgentDriver<B>>(
    engine: Engine<B, D>,
    before: Store,
    now: Timestamp,
    lease: Lease<RunId>,
    leased: Store,
    turned: Store,
    after: Store,
) -> bool {
    &&& claim_made(before, engine.ttl(), now, lease, leased)
    &&& leased.has_run(lease.item)
    &&& turn_taken(
        engine.reliable(),
        clock_of::<B>(),
        leased,
        lease.item,
        now,
        engine.ttl(),
        engine.driver_for(leased.run(lease.item).agent_type),
        turned,
    )
    &&& after == turned.ack(lease.lease_id)
}

/// Whether `after` is `before` with a run claimed at `now` that is not there, of which
/// `error` tells.
pub open spec fn lost(
    before: Store,
    lease_ttl: Duration,
    now: Timestamp,
    error: ErrorView,
    after: Store,
) -> bool {
    exists|lease: Lease<RunId>|
        {
            &&& #[trigger] claim_made(before, lease_ttl, now, lease, after)
            &&& !after.has_run(lease.item)
            &&& error == ErrorView::RunNotFound(lease.item)
        }
}

/// Whether a tick at `now` of an engine with the setup of `engine` may turn `before` into
/// `after`.
pub open spec fn ticked<B: Backend, D: AgentDriver<B>>(
    engine: Engine<B, D>,
    before: Store,
    now: Timestamp,
    after: Store,
) -> bool {
    exists|lease: Lease<RunId>, leased: Store, turned: Store| #[trigger]
        tick_taken(engine, before, now, lease, leased, turned, after)
}

/// Whether a tick at `now` that failed may turn `before` into `after`: nothing was claimed;
/// or what was claimed is still in the queue, leased, and comes back when its lease ends; or
/// the turn was taken and it was only not told that the claimed entry is removed.
pub open spec fn unfinished<B: Backend, D: AgentDriver<B>>(
    engine: Engine<B, D>,
    before: Store,
    now: Timestamp,
    after: Store,
) -> bool {
    ||| after == before
    ||| exists|lease: Lease<RunId>, leased: Store|
        {
            &&& #[trigger] claim_made(before, engine.ttl(), now, lease, leased)
            &&& leased.queue.is_prefix_of(after.queue)
        }
    ||| ticked(engine, before, now, after)
}

/// Whether a tick at `now` of an engine with the setup of `engine` may turn `before` into
/// `after` and give `r`.
pub open spec fn tick_outcome<B: Backend, D: AgentDriver<B>>(
    engine: Engine<B, D>,
    before: Store,
    now: Timestamp,
    r: Result<bool, ErrorView>,
    after: Store,
) -> bool {
    match r {
        Ok(true) => ticked(engine, before, now, after),
        Ok(false) => nothing_ready(before, now) && after == before,
        Err(e) => {
            &&& engine.reliable() ==> lost(before, engine.ttl(), now, e, after)
            &&& unfinished(engine, before, now, after)
        },
    }
}

/// The model of what a tick gave.
pub open spec fn tick_view(r: Result<bool, Error>) -> Result<bool, ErrorView> {
    match r {
        Ok(worked) => Ok(worked),
        Err(e) => Err(e@),
    }
}

/// Whether `trail` is what ticks at `times`, one after the other, make of a store.
pub open spec fn tick_trail<B: Backend, D: AgentDriver<B>>(
    engine: Engine<B, D>,
    times: Seq<Timestamp>,
    trail: Seq<Store>,
) -> bool {
    &&& trail.len() == times.len() + 1
    &&& forall|i: int, j: int|
        0 <= i && j == i + 1 && j < trail.len() ==> ticked(
            engine,
            #[trigger] trail[i],
            times[i],
            #[trigger] trail[j],
        )
}

/// What the last tick gave where ticking until none is ready gave `r`.
pub open spec fn last_tick(r: Result<bool, ErrorView>) -> Result<bool, ErrorView> {
    match r {
        Ok(_) => Ok(false),
        Err(e) => Err(e),
    }
}

/// Whether at most `most` ticks, each at one of the times that `at` allows, turn `before`
/// into `after` and give `r`: all but the last processed a run; the last found none, or
/// failed, or was the last one allowed.
pub open spec fn worked_through<B: Backend, D: AgentDriver<B>>(
    engine: Engine<B, D>,
    before: Store,
    most: nat,
    at: ClockRelation,
    r: Result<bool, ErrorView>,
    after: Store,
) -> bool {
    exists|times: Seq<Timestamp>, trail: Seq<Store>|
        {
            &&& #[trigger] tick_trail(engine, times, trail)
            &&& forall|i: int| 0 <= i < times.len() ==> at(#[trigger] times[i])
            &&& trail.first() == before
            &&& if r == Ok::<bool, ErrorView>(false) {
                times.len() == most && after == trail.last()
            } else {
                &&& times.len() < most
                &&& exists|now: Timestamp|
                    {
                        &&& at(now)
                        &&& #[trigger] tick_outcome(
                            engine,
                            trail.last(),
                            now,
                            last_tick(r),
                            after,
                        )
                    }
            }
        }
}

impl<B: Backend, D: AgentDriver<B>> Engine<B, D> {
    /// The place of the driver for an agent type.
    fn find_driver(&self, agent_type: &str) -> (r: Option<usize>)
        ensures
            match r {
                Some(i) => counts(self.registered(), agent_type@, i as int),
                None => self.driver_for(agent_type@) is None,
            },
    {
        let wanted: String = agent_type.to_owned();
        let mut i: usize = self.drivers.len();
        while i > 0
            invariant
                i <= self.drivers@.len(),
                wanted@ == agent_type@,
                forall|j: int|
                    i <= j < self.drivers@.len() ==> (#[trigger] self.drivers@[j]).0@
                        != agent_type@,
            decreases i,
        {
            i = i - 1;
            if self.drivers[i].0 == wanted {
                return Some(i);
            }
        }
        None
    }

    /// Whether `run`, picked up at `now`, resumes by a timeout.
    fn is_late(&self, run: &Run, now: Timestamp) -> (r: Result<bool, Error>)
        requires
            self.inv(),
        ensures
            match r {
                Ok(late) => late == timed_out(self.store(), run@, now),
                Err(_) => !self.reliable(),
            },
    {
        match &run.waiting {
            Some(Wait::Signal { name, deadline: Some(deadline) }) => {
                if deadline.nanos <= now.nanos {
                    match self.ctx.backend.has_unconsumed(run.id, name.as_str()) {
                        Ok(there) => Ok(!there),
                        Err(e) => Err(e),
                    }
                } else {
                    Ok(false)
                }
            },
            _ => Ok(false),
        }
    }

    /// Advances the run `id`, whose processing lease is held, by one unit.
    fn advance_once(&mut self, id: RunId, now: Timestamp) -> (r: Result<(), Error>)
        requires
            old(self).inv(),
        ensures
            final(self).same_setup(old(self)),
            old(self).reliable() && old(self).store().has_run(id) ==> r is Ok,
            old(self).reliable() && !old(self).store().has_run(id) ==> {
                &&& r matches Err(e)
                &&& e@ == ErrorView::RunNotFound(id)
                &&& final(self).store() == old(self).store()
            },
            old(self).store().queue.is_prefix_of(final(self).store().queue),
            r is Ok ==> old(self).store().has_run(id),
            r is Ok ==> ({
                let before = old(self).store();
                let run = before.run(id);
                let after = final(self).store();
                if run.status.terminal() {
                    after == before
                } else {
                    turn_made(
                        old(self).reliable(),
                        clock_of::<B>(),
                        before,
                        run,
                        now,
                        old(self).driver_for(run.agent_type),
                        after,
                    )
                }
            }),
    {
        proof {
            crate::store::lemma_extends_reflexive(self.store());
        }
        let run: Run = match self.ctx.backend.get_run(id) {
            Ok(run) => run,
            Err(e) => return Err(e),
        };
        proof {
            self.ctx.backend.inv_gives_wf();
            assert(self.store().runs.contains_key(id.value));
        }
        if run.status.is_terminal() {
            return Ok(());
        }
        let place: usize = match self.find_driver(run.agent_type.as_str()) {
            Some(place) => place,
            None => {
                let message: String = concat2(
                    "no driver for agent_type ",
                    debug_text(run.agent_type.as_str()).as_str(),
                );
                let entry_id: u128 = fresh_uuid();
                let ghost before = self.store();
                let r: Result<(), Error> = fail_run(
                    &mut self.ctx.backend,
                    run,
                    message,
                    now,
                    entry_id,
                );
                proof {
                    assert(message@ == no_driver_text(run@.agent_type));
                    let failed = before.run_failed(
                        run@,
                        no_driver_text(run@.agent_type),
                        now,
                        entry_id,
                    );
                    assert(r is Ok && old(self).reliable() ==> self.store() == failed);
                    assert(r is Ok ==> undriven(
                        old(self).reliable(),
                        before,
                        run@,
                        now,
                        self.store(),
                    ));
                }
                return r;
            },
        };
        let late: bool = match self.is_late(&run, now) {
            Ok(late) => late,
            Err(e) => return Err(e),
        };
        let ghost waiting = run@;
        let ghost before = self.store();
        let run: Run = run.into_running(now);
        match self.ctx.backend.update_run(&run) {
            Ok(_) => {},
            Err(e) => return Err(e),
        }
        self.ctx.run = run.clone();
        self.ctx.usage_delta = BudgetUsage::default();
        self.ctx.timed_out = late;
        proof {
            self.ctx.model();
        }
        let ghost given = self.ctx.turn();
        let advanced: Result<Advance, Error> = self.drivers[place].1.advance(&mut self.ctx);
        proof {
            self.ctx.model();
        }
        let later: Timestamp = self.ctx.backend.now();
        let fresh: FreshIds = draw_ids(&advanced);
        let delta: BudgetUsage = self.ctx.usage_delta;
        let ghost left = self.ctx.turn();
        let ghost result = advanced_view(advanced);
        proof {
            assert(left.store.runs.dom().contains(id.value));
        }
        let settled: Result<Option<Look>, Error> = settle_turn(
            &mut self.ctx.backend,
            run,
            delta,
            advanced,
            later,
            &fresh,
        );
        let r: Result<(), Error> = match settled {
            Ok(_) => Ok(()),
            Err(e) => Err(e),
        };
        proof {
            if r is Ok {
                let t = waiting.agent_type;
                assert(given == handed(before, waiting, now));
                let drivers = old(self).registered();
                assert(counts(drivers, t, place as int));
                let i = choose|i: int| #[trigger] counts(drivers, t, i);
                assert(i == place);
                let driver = old(self).driver_for(t)->0;
                assert(driver(given, left, result));
                assert(driven_by(
                    old(self).reliable(),
                    clock_of::<B>(),
                    before,
                    waiting,
                    now,
                    driver,
                    left,
                    result,
                    later,
                    fresh,
                    self.store(),
                ));
            }
        }
        r
    }

    /// Takes a turn of the run `id` at `now`. A final run is skipped. The queue
    /// lease guards an entry, not the run: where another entry for the same run is
    /// being processed, the processing lease is held and this turn is dropped.
    pub fn process(&mut self, id: RunId, now: Timestamp) -> (r: Result<(), Error>)
        requires
            old(self).inv(),
        ensures
            final(self).same_setup(old(self)),
            old(self).reliable() ==> r is Ok == old(self).store().has_run(id),
            old(self).reliable() ==> (r matches Err(e) ==> e@ == ErrorView::RunNotFound(id)
                && final(self).store() == old(self).store()),
            old(self).store().queue.is_prefix_of(final(self).store().queue),
            r is Ok ==> old(self).store().has_run(id),
            r is Ok ==> turn_taken(
                old(self).reliable(),
                clock_of::<B>(),
                old(self).store(),
                id,
                now,
                old(self).ttl(),
                old(self).driver_for(old(self).store().run(id).agent_type),
                final(self).store(),
            ),
    {
        let ghost before = self.store();
        proof {
            crate::store::lemma_extends_reflexive(before);
        }
        let run: Run = match self.ctx.backend.get_run(id) {
            Ok(run) => run,
            Err(e) => return Err(e),
        };
        if run.status.is_terminal() {
            return Ok(());
        }
        match self.ctx.backend.try_acquire_run(id, self.lease_ttl, now) {
            Ok(taken) => {
                if !taken {
                    return Ok(());
                }
            },
            Err(e) => return Err(e),
        }
        let ghost fenced = self.store();
        proof {
            assert(self.registered() == old(self).registered());
        }
        let r: Result<(), Error> = self.advance_once(id, now);
        let ghost turned = self.store();
        // A lease that cannot be given back expires.
        let _ = self.ctx.backend.release_run(id);
        proof {
            if r is Ok {
                assert(fenced.run(id) == before.run(id));
                assert(turn_made(
                    old(self).reliable(),
                    clock_of::<B>(),
                    fenced,
                    before.run(id),
                    now,
                    old(self).driver_for(before.run(id).agent_type),
                    turned,
                ));
            }
        }
        r
    }

    /// Claims and processes one run that is ready now. `Ok(false)` where none was,
    /// `Ok(true)` after one was processed. Where processing fails, the claim stays
    /// leased, so that the run comes back when the lease expires, and the error is
    /// returned: a failure never reads as done.
    pub fn tick(&mut self, worker_id: &str) -> (r: Result<bool, Error>)
        requires
            old(self).inv(),
        ensures
            final(self).same_setup(old(self)),
            exists|now: Timestamp|
                {
                    &&& B::may_show(now)
                    &&& #[trigger] tick_outcome(
                        *old(self),
                        old(self).store(),
                        now,
                        tick_view(r),
                        final(self).store(),
                    )
                },
    {
        let now: Timestamp = self.ctx.backend.now();
        self.tick_at(worker_id, now)
    }

    /// Claims and processes one run that is ready at `now`, as [`Engine::tick`] does.
    pub fn tick_at(&mut self, worker_id: &str, now: Timestamp) -> (r: Result<bool, Error>)
        requires
            old(self).inv(),
        ensures
            final(self).same_setup(old(self)),
            tick_outcome(
                *old(self),
                old(self).store(),
                now,
                tick_view(r),
                final(self).store(),
            ),
            old(self).reliable() ==> (r matches Ok(false) <==> nothing_ready(
                old(self).store(),
                now,
            )),
    {
        let ghost before = self.store();
        let claimed: Result<Option<Lease<RunId>>, Error> = self.ctx.backend.claim(
            worker_id,
            self.lease_ttl,
            now,
        );
        let ghost leased = self.store();
        proof {
            crate::store::lemma_extends_reflexive(leased);
            assert(self.registered() == old(self).registered());
        }
        let lease: Lease<RunId> = match claimed {
            Ok(Some(lease)) => lease,
            Ok(None) => return Ok(false),
            Err(e) => {
                proof {
                    if leased != before {
                        let lost = choose|lost: Lease<RunId>| #[trigger]
                            claim_made(before, self.lease_ttl, now, lost, leased);
                        assert(claim_made(before, old(self).ttl(), now, lost, leased));
                        assert(leased.queue.is_prefix_of(self.store().queue));
                    }
                }
                return Err(e);
            },
        };
        proof {
            assert(claim_made(before, old(self).ttl(), now, lease, leased));
        }
        match self.process(lease.item, now) {
            Ok(_) => {},
            Err(e) => return Err(e),
        }
        let ghost turned = self.store();
        let acked: Result<(), Error> = self.ctx.backend.ack(&lease);
        proof {
            assert(tick_taken(
                *old(self),
                before,
                now,
                lease,
                leased,
                turned,
                turned.ack(lease.lease_id),
            ));
        }
        match acked {
            Ok(_) => Ok(true),
            Err(e) => Err(e),
        }
    }
}

impl<B: Backend, D: AgentDriver<B>> Engine<B, D> {
    /// Processes the runs that are ready, one after the other, until none is left or
    /// `most` of them have been processed. Tells whether none was left. Where the
    /// processing of a run fails, its error is returned: that run stays leased and
    /// comes back when the lease expires. Where no call on the backend fails for a reason of
    /// its own, that is only so of a queued run that is not there.
    pub fn run_until_idle(&mut self, worker_id: &str, most: u64) -> (r: Result<bool, Error>)
        requires
            old(self).inv(),
        ensures
            final(self).same_setup(old(self)),
            worked_through(
                *old(self),
                old(self).store(),
                most as nat,
                clock_of::<B>(),
                tick_view(r),
                final(self).store(),
            ),
            most > 0 && old(self).reliable() && old(self).store().queue.len() == 0 ==> {
                &&& r matches Ok(true)
                &&& final(self).store() == old(self).store()
            },
    {
        let mut left: u64 = most;
        let ghost at = clock_of::<B>();
        let ghost mut times: Seq<Timestamp> = Seq::empty();
        let ghost mut trail: Seq<Store> = seq![self.store()];
        while left > 0
            invariant
                self.same_setup(old(self)),
                left <= most,
                at == clock_of::<B>(),
                tick_trail(*old(self), times, trail),
                forall|i: int| 0 <= i < times.len() ==> at(#[trigger] times[i]),
                times.len() == most - left,
                trail.first() == old(self).store(),
                trail.last() == self.store(),
                old(self).store().queue.len() == 0 ==> left == most,
            decreases left,
        {
            let ghost here = *self;
            let now: Timestamp = self.ctx.backend.now();
            proof {
                assert(at(now));
            }
            let r: Result<bool, Error> = self.tick_at(worker_id, now);
            proof {
                lemma_outcome_by_setup(
                    here,
                    *old(self),
                    here.store(),
                    now,
                    tick_view(r),
                    self.store(),
                );
            }
            match r {
                Ok(worked) => {
                    if !worked {
                        return Ok(true);
                    }
                },
                Err(e) => return Err(e),
            }
            proof {
                lemma_trail_grows(*old(self), times, trail, now, self.store());
                times = times.push(now);
                trail = trail.push(self.store());
            }
            left = left - 1;
        }
        Ok(false)
    }

    /// Processes the runs that are ready at `now`, as [`Engine::run_until_idle`] does.
    pub fn run_until_idle_at(&mut self, worker_id: &str, most: u64, now: Timestamp) -> (r: Result<
        bool,
        Error,
    >)
        requires
            old(self).inv(),
        ensures
            final(self).same_setup(old(self)),
            worked_through(
                *old(self),
                old(self).store(),
                most as nat,
                |then: Timestamp| then == now,
                tick_view(r),
                final(self).store(),
            ),
            r matches Ok(true) ==> nothing_ready(final(self).store(), now),
            old(self).reliable() && most > 0 && nothing_ready(old(self).store(), now) ==> {
                &&& r matches Ok(true)
                &&& final(self).store() == old(self).store()
            },
    {
        let mut left: u64 = most;
        let ghost at = |then: Timestamp| then == now;
        let ghost mut times: Seq<Timestamp> = Seq::empty();
        let ghost mut trail: Seq<Store> = seq![self.store()];
        while left > 0
            invariant
                self.same_setup(old(self)),
                left <= most,
                at == (|then: Timestamp| then == now),
                tick_trail(*old(self), times, trail),
                forall|i: int| 0 <= i < times.len() ==> at(#[trigger] times[i]),
                times.len() == most - left,
                trail.first() == old(self).store(),
                trail.last() == self.store(),
                nothing_ready(old(self).store(), now) ==> left == most,
            decreases left,
        {
            let ghost here = *self;
            proof {
                assert(at(now));
            }
            let r: Result<bool, Error> = self.tick_at(worker_id, now);
            proof {
                lemma_outcome_by_setup(
                    here,
                    *old(self),
                    here.store(),
                    now,
                    tick_view(r),
                    self.store(),
                );
            }
            match r {
                Ok(worked) => {
                    if !worked {
                        return Ok(true);
                    }
                },
                Err(e) => return Err(e),
            }
            proof {
                lemma_trail_grows(*old(self), times, trail, now, self.store());
                times = times.push(now);
                trail = trail.push(self.store());
            }
            left = left - 1;
        }
        Ok(false)
    }
}

/// What a worker does after a round.
#[derive(Debug)]
pub struct WorkerRound {
    /// How long to sleep before the next round; `None` to go on at once.
    pub pause: Option<Duration>,
    /// The error of the round, to be reported.
    pub error: Option<Error>,
}

impl WorkerRound {
    /// What the tick of the round gave.
    pub open spec fn tick(self) -> Result<bool, ErrorView> {
        match self.error {
            Some(e) => Err(e@),
            None => Ok(self.pause is None),
        }
    }
}

impl<B: Backend, D: AgentDriver<B>> Engine<B, D> {
    /// One round of a worker, which makes rounds for ever: it processes a run that is ready.
    /// After one that was, it goes on at once; where none was, or where the processing
    /// failed, it sleeps for the poll interval, and a failure is reported.
    pub fn worker_round(&mut self, worker_id: &str) -> (r: WorkerRound)
        requires
            old(self).inv(),
        ensures
            final(self).same_setup(old(self)),
            r.pause matches Some(pause) ==> pause == old(self).idle_span(),
            r.error is Some ==> r.pause is Some,
            exists|now: Timestamp|
                {
                    &&& B::may_show(now)
                    &&& #[trigger] tick_outcome(
                        *old(self),
                        old(self).store(),
                        now,
                        r.tick(),
                        final(self).store(),
                    )
                },
    {
        let now: Timestamp = self.ctx.backend.now();
        self.worker_round_at(worker_id, now)
    }

    /// One round of a worker at `now`, as [`Engine::worker_round`] makes it.
    pub fn worker_round_at(&mut self, worker_id: &str, now: Timestamp) -> (r: WorkerRound)
        requires
            old(self).inv(),
        ensures
            final(self).same_setup(old(self)),
            r.pause matches Some(pause) ==> pause == old(self).idle_span(),
            r.error is Some ==> r.pause is Some,
            tick_outcome(*old(self), old(self).store(), now, r.tick(), final(self).store()),
            old(self).reliable() ==> (r.pause is Some && r.error is None <==> nothing_ready(
                old(self).store(),
                now,
            )),
    {
        match self.tick_at(worker_id, now) {
            Ok(true) => WorkerRound { pause: None, error: None },
            Ok(false) => WorkerRound { pause: Some(self.poll_interval), error: None },
            Err(e) => WorkerRound { pause: Some(self.poll_interval), error: Some(e) },
        }
    }
}

/// What a tick does depends on the engine's setup alone.
proof fn lemma_outcome_by_setup<B: Backend, D: AgentDriver<B>>(
    a: Engine<B, D>,
    b: Engine<B, D>,
    before: Store,
    now: Timestamp,
    r: Result<bool, ErrorView>,
    after: Store,
)
    requires
        a.same_setup(&b),
        tick_outcome(a, before, now, r, after),
    ensures
        tick_outcome(b, before, now, r, after),
{
    assert(a.registered() == b.registered());
    if ticked(a, before, now, after) {
        let (lease, leased, turned) = choose|lease: Lease<RunId>, leased: Store, turned: Store|
            #[trigger]
            tick_taken(a, before, now, lease, leased, turned, after);
        assert(tick_taken(b, before, now, lease, leased, turned, after));
    }
}

/// One more tick makes the trail longer.
proof fn lemma_trail_grows<B: Backend, D: AgentDriver<B>>(
    engine: Engine<B, D>,
    times: Seq<Timestamp>,
    trail: Seq<Store>,
    now: Timestamp,
    after: Store,
)
    requires
        tick_trail(engine, times, trail),
        ticked(engine, trail.last(), now, after),
    ensures
        tick_trail(engine, times.push(now), trail.push(after)),
{
    let longer = trail.push(after);
    let later = times.push(now);
    assert forall|i: int, j: int|
        0 <= i && j == i + 1 && j < longer.len() implies ticked(
        engine,
        #[trigger] longer[i],
        later[i],
        #[trigger] longer[j],
    ) by {
        if j < trail.len() {
            assert(ticked(engine, trail[i], times[i], trail[j]));
            assert(later[i] == times[i]);
        } else {
            assert(later[i] == now);
        }
    }
}

/// Writing a list of deliveries and events leaves the runs alone.
proof fn lemma_told(store: Store, list: Seq<ChangeView>)
    requires
        list.len() == 2,
        list[0] is Deliver,
        list[1] is Append,
    ensures
        store.apply_all(list).runs == store.runs,
{
    reveal_with_fuel(Store::apply_all, 3);
    assert(list.drop_last().drop_last() =~= Seq::empty());
    assert(list.drop_last().last() == list[0]);
}

} // verus!
