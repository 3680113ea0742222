//! Storage: the mathematical store, and the traits of a backend that keeps it.
//!
//! A backend implements every trait here, and [`Backend`] bundles them. The
//! contracts speak of the [`Store`] that a backend shows through
//! [`StoreModel::store`]: they describe a handle whose store nobody else changes
//! between two calls made through it.
//!
//! A call that changes the store is told the time and the fresh id that it
//! records, so that what it does is a function of its arguments. A call that
//! fails leaves the store as it was or as it would be after a success: a lost
//! answer does not tell which.

use vstd::prelude::*;

use crate::artifact::{Artifact, ArtifactView};
use crate::error::{Error, ErrorView};
use crate::event::{Event, EventKind, EventView};
use crate::ids::{ResourceId, RunId};
use crate::json::{Json, JsonView};
use crate::resource::{Resource, ResourceStatus, ResourceView};
use crate::run::{Run, RunView};
use crate::signal::{Signal, SignalView};
use crate::step::{StepRecord, StepRecordView};
use crate::time::{Duration, Timestamp};

verus! {

/// A queue entry. Its id is also the handle of the lease on it: a claim leases
/// the entry in place, an acknowledgement removes it by id. What is enqueued
/// while an entry is processed makes entries of its own.
#[derive(Clone, Copy, Debug, PartialEq, Eq, Structural)]
pub struct QueueEntry {
    /// The entry's id.
    pub entry_id: u128,
    /// The run to process.
    pub run_id: RunId,
    /// Not before this instant.
    pub ready_at: Timestamp,
    /// Until when the entry is leased, if it is.
    pub leased_until: Option<Timestamp>,
}

/// A claimed item and the lease on it.
#[derive(Debug)]
pub struct Lease<T> {
    /// The leased item.
    pub item: T,
    /// The lease handle, handed back to [`Queue::ack`].
    pub lease_id: u128,
    /// After this instant another worker may claim the item.
    pub expires_at: Timestamp,
}

/// The values that a list of values stands for.
pub open spec fn views<T: View>(items: Seq<T>) -> Seq<T::V> {
    items.map_values(|item: T| item@)
}

/// Everything a backend keeps. Runs and resources are filed under the number of
/// their id, the rest under the number of the id of their run.
#[verifier::ext_equal]
pub struct Store {
    /// The runs.
    pub runs: Map<u128, RunView>,
    /// The event log of each run that has one.
    pub events: Map<u128, Seq<EventView>>,
    /// The journal of durable steps.
    pub steps: Map<(u128, Seq<char>), StepRecordView>,
    /// The signals delivered to each run, in the order of delivery.
    pub signals: Map<u128, Seq<SignalView>>,
    /// The leased resources.
    pub resources: Map<u128, ResourceView>,
    /// The artifacts of each run, in the order of recording.
    pub artifacts: Map<u128, Seq<ArtifactView>>,
    /// The work queue, in the order of enqueueing.
    pub queue: Seq<QueueEntry>,
    /// Until when a worker holds the processing lease on a run.
    pub fences: Map<u128, Timestamp>,
}

/// Whether a log is numbered 1, 2, 3 and so on and belongs to one run.
pub open spec fn numbered(run: u128, log: Seq<EventView>) -> bool {
    forall|i: int|
        0 <= i < log.len() ==> (#[trigger] log[i]).seq == i + 1 && log[i].run_id.value == run
}

impl Store {
    /// The store of a new backend.
    pub open spec fn empty() -> Store {
        Store {
            runs: Map::empty(),
            events: Map::empty(),
            steps: Map::empty(),
            signals: Map::empty(),
            resources: Map::empty(),
            artifacts: Map::empty(),
            queue: Seq::empty(),
            fences: Map::empty(),
        }
    }

    /// What every store satisfies: there are finitely many runs; runs and
    /// resources are filed under their own id; every log is numbered.
    pub open spec fn wf(self) -> bool {
        &&& self.runs.dom().finite()
        &&& forall|k: u128| #[trigger]
            self.runs.contains_key(k) ==> self.runs[k].id.value == k
        &&& forall|k: u128| #[trigger]
            self.resources.contains_key(k) ==> self.resources[k].id.value == k
        &&& forall|k: u128| #[trigger]
            self.events.contains_key(k) ==> numbered(k, self.events[k])
    }

    /// Whether this store is `before` with things added and nothing lost: every
    /// run, log entry, signal and queue entry of `before` is still there, logs,
    /// inboxes and the queue in their old order, and the journal, the resources,
    /// the artifacts and the processing leases are the same.
    pub open spec fn extends(self, before: Store) -> bool {
        &&& before.runs.dom().subset_of(self.runs.dom())
        &&& forall|id: RunId| #[trigger] before.log(id).is_prefix_of(self.log(id))
        &&& forall|id: RunId| #[trigger] before.inbox(id).is_prefix_of(self.inbox(id))
        &&& before.queue.is_prefix_of(self.queue)
        &&& self.steps == before.steps
        &&& self.resources == before.resources
        &&& self.artifacts == before.artifacts
        &&& self.fences == before.fences
    }

    // ---- runs ----------------------------------------------------------------

    /// Whether there is a run `id`.
    pub open spec fn has_run(self, id: RunId) -> bool {
        self.runs.contains_key(id.value)
    }

    /// The run `id`.
    pub open spec fn run(self, id: RunId) -> RunView {
        self.runs[id.value]
    }

    /// The store with `run` filed under its id.
    pub open spec fn put_run(self, run: RunView) -> Store {
        Store { runs: self.runs.insert(run.id.value, run), ..self }
    }

    /// Whether `kids` are the direct children of `parent`, each once, the earlier
    /// created ones first.
    pub open spec fn lists_children(self, parent: RunId, kids: Seq<RunView>) -> bool {
        &&& forall|i: int|
            0 <= i < kids.len() ==> (#[trigger] kids[i]).parent_id == Some(parent)
                && self.runs.contains_key(kids[i].id.value)
                && self.runs[kids[i].id.value] == kids[i]
        &&& forall|k: u128| #[trigger]
            self.runs.contains_key(k) && self.runs[k].parent_id == Some(parent)
                ==> kids.contains(self.runs[k])
        &&& forall|i: int, j: int|
            0 <= i < j < kids.len() ==> (#[trigger] kids[i]).id != (#[trigger] kids[j]).id
                && kids[i].created_at.nanos <= kids[j].created_at.nanos
    }

    /// Whether a worker holds the processing lease on the run `id` at `now`.
    pub open spec fn fenced(self, id: RunId, now: Timestamp) -> bool {
        self.fences.contains_key(id.value) && self.fences[id.value].nanos > now.nanos
    }

    /// The store with the processing lease on the run `id` held until `until`.
    pub open spec fn fence(self, id: RunId, until: Timestamp) -> Store {
        Store { fences: self.fences.insert(id.value, until), ..self }
    }

    /// The store with the processing lease on the run `id` given back.
    pub open spec fn unfence(self, id: RunId) -> Store {
        Store { fences: self.fences.remove(id.value), ..self }
    }

    // ---- events --------------------------------------------------------------

    /// The event log of the run `id`.
    pub open spec fn log(self, id: RunId) -> Seq<EventView> {
        if self.events.contains_key(id.value) {
            self.events[id.value]
        } else {
            Seq::empty()
        }
    }

    /// The event that comes next in the log of the run `id`.
    pub open spec fn next_event(
        self,
        id: RunId,
        kind: EventKind,
        payload: JsonView,
        at: Timestamp,
    ) -> EventView {
        EventView { run_id: id, seq: self.log(id).len() + 1, kind, payload, at }
    }

    /// The store with one more event in the log of the run `id`.
    pub open spec fn append(
        self,
        id: RunId,
        kind: EventKind,
        payload: JsonView,
        at: Timestamp,
    ) -> Store {
        Store {
            events: self.events.insert(
                id.value,
                self.log(id).push(self.next_event(id, kind, payload, at)),
            ),
            ..self
        }
    }

    /// The events of the run `id` with a number above `from_seq`, in order.
    pub open spec fn events_after(self, id: RunId, from_seq: nat) -> Seq<EventView> {
        if from_seq <= self.log(id).len() {
            self.log(id).skip(from_seq as int)
        } else {
            Seq::empty()
        }
    }

    // ---- steps ---------------------------------------------------------------

    /// The journaled result of a step.
    pub open spec fn step(self, id: RunId, key: Seq<char>) -> Option<StepRecordView> {
        if self.steps.contains_key((id.value, key)) {
            Some(self.steps[(id.value, key)])
        } else {
            None
        }
    }

    /// The store with `record` journaled under its run and key.
    pub open spec fn put_step(self, record: StepRecordView) -> Store {
        Store { steps: self.steps.insert((record.run_id.value, record.key), record), ..self }
    }

    // ---- queue ---------------------------------------------------------------

    /// The store with one more queue entry.
    pub open spec fn enqueue(self, entry_id: u128, run_id: RunId, ready_at: Timestamp) -> Store {
        Store {
            queue: self.queue.push(QueueEntry { entry_id, run_id, ready_at, leased_until: None }),
            ..self
        }
    }

    /// Whether entry `i` may be claimed at `now`: it is ready, and not leased or
    /// its lease has expired.
    pub open spec fn claimable(self, i: int, now: Timestamp) -> bool {
        &&& 0 <= i < self.queue.len()
        &&& self.queue[i].ready_at.nanos <= now.nanos
        &&& match self.queue[i].leased_until {
            Some(until) => until.nanos <= now.nanos,
            None => true,
        }
    }

    /// Whether entry `i` is the next to claim at `now`: claimable, and no
    /// claimable entry was ready before it.
    pub open spec fn next_claim(self, i: int, now: Timestamp) -> bool {
        &&& self.claimable(i, now)
        &&& forall|j: int| #[trigger]
            self.claimable(j, now) ==> self.queue[i].ready_at.nanos
                <= self.queue[j].ready_at.nanos
    }

    /// The store with entry `i` leased until `until`.
    pub open spec fn lease_entry(self, i: int, until: Timestamp) -> Store {
        Store {
            queue: self.queue.update(
                i,
                QueueEntry { leased_until: Some(until), ..self.queue[i] },
            ),
            ..self
        }
    }

    /// The store without the entries whose id is `lease_id`.
    pub open spec fn ack(self, lease_id: u128) -> Store {
        Store { queue: self.queue.filter(|e: QueueEntry| e.entry_id != lease_id), ..self }
    }

    // ---- signals -------------------------------------------------------------

    /// The signals delivered to the run `id`.
    pub open spec fn inbox(self, id: RunId) -> Seq<SignalView> {
        if self.signals.contains_key(id.value) {
            self.signals[id.value]
        } else {
            Seq::empty()
        }
    }

    /// The store with one more signal for the run `id`.
    pub open spec fn deliver(
        self,
        id: RunId,
        name: Seq<char>,
        payload: JsonView,
        at: Timestamp,
    ) -> Store {
        Store {
            signals: self.signals.insert(
                id.value,
                self.inbox(id).push(
                    SignalView { run_id: id, name, payload, created_at: at, consumed: false },
                ),
            ),
            ..self
        }
    }

    /// Whether signal `i` of the run `id` waits to be consumed under `name`.
    pub open spec fn waits(self, id: RunId, name: Seq<char>, i: int) -> bool {
        0 <= i < self.inbox(id).len() && !self.inbox(id)[i].consumed && self.inbox(id)[i].name
            == name
    }

    /// Whether signal `i` of the run `id` is the earliest that waits to be
    /// consumed under `name`.
    pub open spec fn earliest(self, id: RunId, name: Seq<char>, i: int) -> bool {
        self.waits(id, name, i) && forall|j: int| #[trigger] self.waits(id, name, j) ==> i <= j
    }

    /// Whether the run `id` has a signal that waits to be consumed under `name`.
    pub open spec fn has_signal(self, id: RunId, name: Seq<char>) -> bool {
        exists|i: int| #[trigger] self.waits(id, name, i)
    }

    /// The store with signal `i` of the run `id` consumed.
    pub open spec fn consume(self, id: RunId, i: int) -> Store {
        Store {
            signals: self.signals.insert(
                id.value,
                self.inbox(id).update(i, SignalView { consumed: true, ..self.inbox(id)[i] }),
            ),
            ..self
        }
    }

    // ---- resources -----------------------------------------------------------

    /// The store with `resource` filed under its id.
    pub open spec fn put_resource(self, resource: ResourceView) -> Store {
        Store { resources: self.resources.insert(resource.id.value, resource), ..self }
    }

    /// The store with the lease on the resource `id`, if there is one, extended
    /// to `until`.
    pub open spec fn extend_lease(self, id: ResourceId, until: Timestamp) -> Store {
        if self.resources.contains_key(id.value) {
            Store {
                resources: self.resources.insert(
                    id.value,
                    ResourceView {
                        lease_expires_at: Some(until),
                        ..self.resources[id.value]
                    },
                ),
                ..self
            }
        } else {
            self
        }
    }

    /// The store with the resource `id`, if there is one, marked released.
    pub open spec fn release(self, id: ResourceId) -> Store {
        if self.resources.contains_key(id.value) {
            Store {
                resources: self.resources.insert(
                    id.value,
                    ResourceView {
                        status: ResourceStatus::Released,
                        ..self.resources[id.value]
                    },
                ),
                ..self
            }
        } else {
            self
        }
    }

    /// Whether `list` are the resources of the run `run_id`, each once.
    pub open spec fn lists_resources(self, run_id: RunId, list: Seq<ResourceView>) -> bool {
        &&& forall|i: int|
            0 <= i < list.len() ==> (#[trigger] list[i]).run_id == run_id
                && self.resources.contains_key(list[i].id.value)
                && self.resources[list[i].id.value] == list[i]
        &&& forall|k: u128| #[trigger]
            self.resources.contains_key(k) && self.resources[k].run_id == run_id
                ==> list.contains(self.resources[k])
        &&& forall|i: int, j: int|
            0 <= i < j < list.len() ==> (#[trigger] list[i]).id != (#[trigger] list[j]).id
    }

    // ---- artifacts -----------------------------------------------------------

    /// The artifacts of the run `id`.
    pub open spec fn shelf(self, id: RunId) -> Seq<ArtifactView> {
        if self.artifacts.contains_key(id.value) {
            self.artifacts[id.value]
        } else {
            Seq::empty()
        }
    }

    /// The store with one more artifact.
    pub open spec fn put_artifact(self, artifact: ArtifactView) -> Store {
        Store {
            artifacts: self.artifacts.insert(
                artifact.run_id.value,
                self.shelf(artifact.run_id).push(artifact),
            ),
            ..self
        }
    }
}

pub(crate) proof fn lemma_extends_reflexive(store: Store)
    ensures
        store.extends(store),
{
    assert forall|id: RunId| #[trigger] store.log(id).is_prefix_of(store.log(id)) by {
        assert(store.log(id).take(store.log(id).len() as int) =~= store.log(id));
    }
    assert forall|id: RunId| #[trigger] store.inbox(id).is_prefix_of(store.inbox(id)) by {
        assert(store.inbox(id).take(store.inbox(id).len() as int) =~= store.inbox(id));
    }
    assert(store.queue.take(store.queue.len() as int) =~= store.queue);
}

proof fn lemma_prefix_transitive<T>(a: Seq<T>, b: Seq<T>, c: Seq<T>)
    requires
        a.is_prefix_of(b),
        b.is_prefix_of(c),
    ensures
        a.is_prefix_of(c),
{
    assert(c.take(a.len() as int) =~= b.take(a.len() as int));
}

pub(crate) proof fn lemma_extends_transitive(a: Store, b: Store, c: Store)
    requires
        b.extends(a),
        c.extends(b),
    ensures
        c.extends(a),
{
    assert forall|id: RunId| #[trigger] a.log(id).is_prefix_of(c.log(id)) by {
        assert(a.log(id).is_prefix_of(b.log(id)));
        assert(b.log(id).is_prefix_of(c.log(id)));
        lemma_prefix_transitive(a.log(id), b.log(id), c.log(id));
    }
    assert forall|id: RunId| #[trigger] a.inbox(id).is_prefix_of(c.inbox(id)) by {
        assert(a.inbox(id).is_prefix_of(b.inbox(id)));
        assert(b.inbox(id).is_prefix_of(c.inbox(id)));
        lemma_prefix_transitive(a.inbox(id), b.inbox(id), c.inbox(id));
    }
    lemma_prefix_transitive(a.queue, b.queue, c.queue);
}

pub(crate) proof fn lemma_put_extends(before: Store, here: Store, run: RunView)
    requires
        here.extends(before),
    ensures
        here.put_run(run).extends(before),
{
    let after = here.put_run(run);
    assert forall|id: RunId| #[trigger] before.log(id).is_prefix_of(after.log(id)) by {
        assert(after.log(id) == here.log(id));
        assert(before.log(id).is_prefix_of(here.log(id)));
    }
    assert forall|id: RunId| #[trigger] before.inbox(id).is_prefix_of(after.inbox(id)) by {
        assert(after.inbox(id) == here.inbox(id));
        assert(before.inbox(id).is_prefix_of(here.inbox(id)));
    }
}

pub(crate) proof fn lemma_append_extends(
    before: Store,
    here: Store,
    run_id: RunId,
    kind: EventKind,
    payload: JsonView,
    at: Timestamp,
)
    requires
        here.extends(before),
    ensures
        here.append(run_id, kind, payload, at).extends(before),
{
    let after = here.append(run_id, kind, payload, at);
    assert forall|id: RunId| #[trigger] before.log(id).is_prefix_of(after.log(id)) by {
        assert(before.log(id).is_prefix_of(here.log(id)));
        if id == run_id {
            assert(after.log(id).take(before.log(id).len() as int) =~= here.log(id).take(
                before.log(id).len() as int,
            ));
        } else {
            assert(after.log(id) == here.log(id));
        }
    }
    assert forall|id: RunId| #[trigger] before.inbox(id).is_prefix_of(after.inbox(id)) by {
        assert(after.inbox(id) == here.inbox(id));
        assert(before.inbox(id).is_prefix_of(here.inbox(id)));
    }
}

pub(crate) proof fn lemma_enqueue_extends(
    before: Store,
    here: Store,
    entry_id: u128,
    run_id: RunId,
    ready_at: Timestamp,
)
    requires
        here.extends(before),
    ensures
        here.enqueue(entry_id, run_id, ready_at).extends(before),
{
    let after = here.enqueue(entry_id, run_id, ready_at);
    assert forall|id: RunId| #[trigger] before.log(id).is_prefix_of(after.log(id)) by {
        assert(after.log(id) == here.log(id));
        assert(before.log(id).is_prefix_of(here.log(id)));
    }
    assert forall|id: RunId| #[trigger] before.inbox(id).is_prefix_of(after.inbox(id)) by {
        assert(after.inbox(id) == here.inbox(id));
        assert(before.inbox(id).is_prefix_of(here.inbox(id)));
    }
    assert(after.queue.take(before.queue.len() as int) =~= here.queue.take(
        before.queue.len() as int,
    ));
}

pub(crate) proof fn lemma_deliver_extends(
    before: Store,
    here: Store,
    run_id: RunId,
    name: Seq<char>,
    payload: JsonView,
    at: Timestamp,
)
    requires
        here.extends(before),
    ensures
        here.deliver(run_id, name, payload, at).extends(before),
{
    let after = here.deliver(run_id, name, payload, at);
    assert forall|id: RunId| #[trigger] before.log(id).is_prefix_of(after.log(id)) by {
        assert(after.log(id) == here.log(id));
        assert(before.log(id).is_prefix_of(here.log(id)));
    }
    assert forall|id: RunId| #[trigger] before.inbox(id).is_prefix_of(after.inbox(id)) by {
        assert(before.inbox(id).is_prefix_of(here.inbox(id)));
        if id == run_id {
            assert(after.inbox(id).take(before.inbox(id).len() as int) =~= here.inbox(id).take(
                before.inbox(id).len() as int,
            ));
        } else {
            assert(after.inbox(id) == here.inbox(id));
        }
    }
}

/// What a call that should turn `before` into `changed` leaves in `after`: with
/// `Ok` the changed store; with `Err`, from a backend on which calls may fail,
/// the old store or the changed one.
pub open spec fn committed<T>(
    r: Result<T, Error>,
    reliable: bool,
    before: Store,
    changed: Store,
    after: Store,
) -> bool {
    match r {
        Ok(_) => after == changed,
        Err(_) => !reliable && (after == before || after == changed),
    }
}

/// The store behind a backend.
pub trait StoreModel {
    /// The store as this handle shows it.
    spec fn store(&self) -> Store;

    /// Whether no call on this backend fails for a reason of its own, such as a
    /// lost connection.
    spec fn reliable(&self) -> bool;

    /// Whether the backend is in a state that its own operations lead to.
    spec fn inv(&self) -> bool;

    /// A backend in such a state shows a well-formed store.
    proof fn inv_gives_wf(&self)
        requires
            self.inv(),
        ensures
            self.store().wf(),
    ;
}

/// The wall clock, given as a trait so that tests can set the time.
pub trait Clock {
    /// Whether a clock of this kind may show `now`. A clock of which nothing is to be said
    /// may show every time.
    open spec fn may_show(now: Timestamp) -> bool {
        true
    }

    /// The current time.
    fn now(&self) -> (r: Timestamp)
        ensures
            Self::may_show(r),
    ;
}

/// The clock of the system.
#[derive(Clone, Copy, Debug)]
pub struct SystemClock;

impl Clock for SystemClock {
    open spec fn may_show(now: Timestamp) -> bool {
        now.in_calendar()
    }

    fn now(&self) -> (r: Timestamp)
        ensures
            r.in_calendar(),
    {
        Timestamp::now()
    }
}

/// Run records.
pub trait RunStore: StoreModel {
    /// Files a run under its id.
    fn create_run(&mut self, run: &Run) -> (r: Result<(), Error>)
        requires
            old(self).inv(),
        ensures
            final(self).inv(),
            final(self).reliable() == old(self).reliable(),
            committed(
                r,
                old(self).reliable(),
                old(self).store(),
                old(self).store().put_run(run@),
                final(self).store(),
            ),
    ;

    /// Fetches a run; `RunNotFound` where there is none.
    fn get_run(&self, id: RunId) -> (r: Result<Run, Error>)
        requires
            self.inv(),
        ensures
            match r {
                Ok(run) => self.store().has_run(id) && run@ == self.store().run(id),
                Err(e) => (e is RunNotFound ==> !self.store().has_run(id) && e@
                    == ErrorView::RunNotFound(id)) && (self.reliable() ==> e is RunNotFound),
            },
    ;

    /// Overwrites a run; `RunNotFound` where there is none.
    fn update_run(&mut self, run: &Run) -> (r: Result<(), Error>)
        requires
            old(self).inv(),
        ensures
            final(self).inv(),
            final(self).reliable() == old(self).reliable(),
            match r {
                Ok(_) => old(self).store().has_run(run.id) && final(self).store() == old(
                    self,
                ).store().put_run(run@),
                Err(e) => {
                    &&& e is RunNotFound ==> !old(self).store().has_run(run.id) && e@
                        == ErrorView::RunNotFound(run.id)
                    &&& old(self).reliable() ==> e is RunNotFound
                    &&& !old(self).store().has_run(run.id) ==> final(self).store() == old(
                        self,
                    ).store()
                    &&& final(self).store() == old(self).store() || final(self).store() == old(
                        self,
                    ).store().put_run(run@)
                },
            },
    ;

    /// Lists the direct children of a run.
    fn list_children(&self, parent: RunId) -> (r: Result<Vec<Run>, Error>)
        requires
            self.inv(),
        ensures
            match r {
                Ok(kids) => self.store().lists_children(parent, views(kids@)),
                Err(_) => !self.reliable(),
            },
    ;

    /// Takes the processing lease on the run `id`, which a second queue entry for
    /// the same run does not get while it is held. `false` where a live lease is
    /// held; one that nobody gave back expires `lease_ttl` after it was taken.
    fn try_acquire_run(&mut self, id: RunId, lease_ttl: Duration, now: Timestamp) -> (r: Result<
        bool,
        Error,
    >)
        requires
            old(self).inv(),
        ensures
            final(self).inv(),
            final(self).reliable() == old(self).reliable(),
            r matches Ok(taken) ==> taken == !old(self).store().fenced(id, now),
            committed(
                r,
                old(self).reliable(),
                old(self).store(),
                if old(self).store().fenced(id, now) {
                    old(self).store()
                } else {
                    old(self).store().fence(id, now.later(lease_ttl))
                },
                final(self).store(),
            ),
    ;

    /// Gives back the processing lease on the run `id`.
    fn release_run(&mut self, id: RunId) -> (r: Result<(), Error>)
        requires
            old(self).inv(),
        ensures
            final(self).inv(),
            final(self).reliable() == old(self).reliable(),
            committed(
                r,
                old(self).reliable(),
                old(self).store(),
                old(self).store().unfence(id),
                final(self).store(),
            ),
    ;
}

/// The append-only event log.
pub trait EventLog: StoreModel {
    /// Appends an event recorded at `at` and returns its number.
    fn append(&mut self, run_id: RunId, kind: EventKind, payload: Json, at: Timestamp) -> (r:
        Result<u64, Error>)
        requires
            old(self).inv(),
        ensures
            final(self).inv(),
            final(self).reliable() == old(self).reliable(),
            r matches Ok(seq) ==> seq == old(self).store().log(run_id).len() + 1,
            committed(
                r,
                old(self).reliable(),
                old(self).store(),
                old(self).store().append(run_id, kind, payload@, at),
                final(self).store(),
            ),
    ;

    /// Reads the events of a run with a number above `from_seq`, in order.
    fn read(&self, run_id: RunId, from_seq: u64) -> (r: Result<Vec<Event>, Error>)
        requires
            self.inv(),
        ensures
            match r {
                Ok(events) => views(events@) == self.store().events_after(
                    run_id,
                    from_seq as nat,
                ),
                Err(_) => !self.reliable(),
            },
    ;
}

/// The model of an optional journal record.
pub open spec fn opt_record(record: Option<StepRecord>) -> Option<StepRecordView> {
    match record {
        Some(record) => Some(record@),
        None => None,
    }
}

/// The journal of durable steps.
pub trait StepStore: StoreModel {
    /// Looks up a journaled result.
    fn lookup_step(&self, run_id: RunId, key: &str) -> (r: Result<Option<StepRecord>, Error>)
        requires
            self.inv(),
        ensures
            match r {
                Ok(record) => opt_record(record) == self.store().step(run_id, key@),
                Err(_) => !self.reliable(),
            },
    ;

    /// Journals a result, overwriting one under the same run and key.
    fn record_step(&mut self, record: &StepRecord) -> (r: Result<(), Error>)
        requires
            old(self).inv(),
        ensures
            final(self).inv(),
            final(self).reliable() == old(self).reliable(),
            committed(
                r,
                old(self).reliable(),
                old(self).store(),
                old(self).store().put_step(record@),
                final(self).store(),
            ),
    ;
}

/// What a claim at `now` turns `before` into, and the lease that it hands out.
pub open spec fn claimed(
    before: Store,
    lease_ttl: Duration,
    now: Timestamp,
    lease: Option<Lease<RunId>>,
    after: Store,
) -> bool {
    match lease {
        Some(lease) => claim_made(before, lease_ttl, now, lease, after),
        None => nothing_ready(before, now) && after == before,
    }
}

/// Whether no entry may be claimed at `now`.
pub open spec fn nothing_ready(store: Store, now: Timestamp) -> bool {
    forall|i: int| !(#[trigger] store.claimable(i, now))
}

/// Whether a claim at `now` turns `before` into `after` and hands out `lease`.
pub open spec fn claim_made(
    before: Store,
    lease_ttl: Duration,
    now: Timestamp,
    lease: Lease<RunId>,
    after: Store,
) -> bool {
    exists|i: int| #[trigger] claimed_at(before, i, lease_ttl, now, lease, after)
}

/// Whether a claim at `now` that took entry `i` turns `before` into `after` and
/// hands out `lease`.
pub open spec fn claimed_at(
    before: Store,
    i: int,
    lease_ttl: Duration,
    now: Timestamp,
    lease: Lease<RunId>,
    after: Store,
) -> bool {
    &&& before.next_claim(i, now)
    &&& lease.item == before.queue[i].run_id
    &&& lease.lease_id == before.queue[i].entry_id
    &&& lease.expires_at == now.later(lease_ttl)
    &&& after == before.lease_entry(i, lease.expires_at)
}

/// Whether some claim at `now` turns `before` into `after`.
pub open spec fn some_claim_made(
    before: Store,
    lease_ttl: Duration,
    now: Timestamp,
    after: Store,
) -> bool {
    exists|lease: Lease<RunId>| #[trigger] claim_made(before, lease_ttl, now, lease, after)
}

/// The work queue, whose claims are leases.
pub trait Queue: StoreModel {
    /// Makes a run runnable from `ready_at` on, under a fresh entry id.
    fn enqueue(&mut self, entry_id: u128, run_id: RunId, ready_at: Timestamp) -> (r: Result<
        (),
        Error,
    >)
        requires
            old(self).inv(),
        ensures
            final(self).inv(),
            final(self).reliable() == old(self).reliable(),
            committed(
                r,
                old(self).reliable(),
                old(self).store(),
                old(self).store().enqueue(entry_id, run_id, ready_at),
                final(self).store(),
            ),
    ;

    /// Claims the run that was ready first; `None` where nothing is ready.
    fn claim(&mut self, worker_id: &str, lease_ttl: Duration, now: Timestamp) -> (r: Result<
        Option<Lease<RunId>>,
        Error,
    >)
        requires
            old(self).inv(),
        ensures
            final(self).inv(),
            final(self).reliable() == old(self).reliable(),
            match r {
                Ok(lease) => claimed(
                    old(self).store(),
                    lease_ttl,
                    now,
                    lease,
                    final(self).store(),
                ),
                Err(_) => !old(self).reliable() && (final(self).store() == old(self).store()
                    || some_claim_made(old(self).store(), lease_ttl, now, final(self).store())),
            },
    ;

    /// Removes the entry that a claim leased.
    fn ack(&mut self, lease: &Lease<RunId>) -> (r: Result<(), Error>)
        requires
            old(self).inv(),
        ensures
            final(self).inv(),
            final(self).reliable() == old(self).reliable(),
            committed(
                r,
                old(self).reliable(),
                old(self).store(),
                old(self).store().ack(lease.lease_id),
                final(self).store(),
            ),
    ;
}

/// Whether taking a signal named `name` from `before` gives `taken` and leaves
/// `after`: the earliest signal that waits under that name is consumed, and no
/// other one is touched.
pub open spec fn signal_taken(
    before: Store,
    run_id: RunId,
    name: Seq<char>,
    taken: Option<SignalView>,
    after: Store,
) -> bool {
    match taken {
        Some(signal) => exists|i: int|
            {
                &&& #[trigger] before.earliest(run_id, name, i)
                &&& after == before.consume(run_id, i)
                &&& signal == after.inbox(run_id)[i]
            },
        None => !before.has_signal(run_id, name) && after == before,
    }
}

/// Whether taking some signal named `name` turns `before` into `after`.
pub open spec fn some_signal_taken(
    before: Store,
    run_id: RunId,
    name: Seq<char>,
    after: Store,
) -> bool {
    exists|signal: SignalView| #[trigger]
        signal_taken(before, run_id, name, Some(signal), after)
}

/// The model of an optional signal.
pub open spec fn opt_signal(signal: Option<Signal>) -> Option<SignalView> {
    match signal {
        Some(signal) => Some(signal@),
        None => None,
    }
}

/// Durable signals.
pub trait SignalStore: StoreModel {
    /// Delivers a signal to a run.
    fn deliver(&mut self, run_id: RunId, name: &str, payload: Json, at: Timestamp) -> (r: Result<
        (),
        Error,
    >)
        requires
            old(self).inv(),
        ensures
            final(self).inv(),
            final(self).reliable() == old(self).reliable(),
            committed(
                r,
                old(self).reliable(),
                old(self).store(),
                old(self).store().deliver(run_id, name@, payload@, at),
                final(self).store(),
            ),
    ;

    /// Consumes and returns the earliest unconsumed signal named `name`.
    fn take_signal(&mut self, run_id: RunId, name: &str) -> (r: Result<Option<Signal>, Error>)
        requires
            old(self).inv(),
        ensures
            final(self).inv(),
            final(self).reliable() == old(self).reliable(),
            match r {
                Ok(signal) => signal_taken(
                    old(self).store(),
                    run_id,
                    name@,
                    opt_signal(signal),
                    final(self).store(),
                ),
                Err(_) => !old(self).reliable() && (final(self).store() == old(self).store()
                    || some_signal_taken(old(self).store(), run_id, name@, final(self).store())),
            },
    ;

    /// Whether the run has an unconsumed signal named `name`; consumes nothing.
    fn has_unconsumed(&self, run_id: RunId, name: &str) -> (r: Result<bool, Error>)
        requires
            self.inv(),
        ensures
            match r {
                Ok(waits) => waits == self.store().has_signal(run_id, name@),
                Err(_) => !self.reliable(),
            },
    ;
}

/// Records of leased resources.
pub trait ResourceStore: StoreModel {
    /// Records a leased resource.
    fn lease_resource(&mut self, resource: &Resource) -> (r: Result<(), Error>)
        requires
            old(self).inv(),
        ensures
            final(self).inv(),
            final(self).reliable() == old(self).reliable(),
            committed(
                r,
                old(self).reliable(),
                old(self).store(),
                old(self).store().put_resource(resource@),
                final(self).store(),
            ),
    ;

    /// Extends a lease.
    fn heartbeat(&mut self, id: ResourceId, expires_at: Timestamp) -> (r: Result<(), Error>)
        requires
            old(self).inv(),
        ensures
            final(self).inv(),
            final(self).reliable() == old(self).reliable(),
            committed(
                r,
                old(self).reliable(),
                old(self).store(),
                old(self).store().extend_lease(id, expires_at),
                final(self).store(),
            ),
    ;

    /// Marks a resource released.
    fn release_resource(&mut self, id: ResourceId) -> (r: Result<(), Error>)
        requires
            old(self).inv(),
        ensures
            final(self).inv(),
            final(self).reliable() == old(self).reliable(),
            committed(
                r,
                old(self).reliable(),
                old(self).store(),
                old(self).store().release(id),
                final(self).store(),
            ),
    ;

    /// Lists the resources of a run.
    fn list_resources(&self, run_id: RunId) -> (r: Result<Vec<Resource>, Error>)
        requires
            self.inv(),
        ensures
            match r {
                Ok(list) => self.store().lists_resources(run_id, views(list@)),
                Err(_) => !self.reliable(),
            },
    ;
}

/// Records of artifacts.
pub trait ArtifactStore: StoreModel {
    /// Records an artifact.
    fn put_artifact(&mut self, artifact: &Artifact) -> (r: Result<(), Error>)
        requires
            old(self).inv(),
        ensures
            final(self).inv(),
            final(self).reliable() == old(self).reliable(),
            committed(
                r,
                old(self).reliable(),
                old(self).store(),
                old(self).store().put_artifact(artifact@),
                final(self).store(),
            ),
    ;

    /// Lists the artifacts of a run.
    fn list_artifacts(&self, run_id: RunId) -> (r: Result<Vec<Artifact>, Error>)
        requires
            self.inv(),
        ensures
            match r {
                Ok(list) => views(list@) == self.store().shelf(run_id),
                Err(_) => !self.reliable(),
            },
    ;
}

/// Everything the engine needs of storage. Whatever implements the parts
/// implements it.
pub trait Backend: RunStore + EventLog + StepStore + Queue + SignalStore + ResourceStore
    + ArtifactStore + Clock {

}

impl<
    T: RunStore + EventLog + StepStore + Queue + SignalStore + ResourceStore + ArtifactStore
        + Clock,
> Backend for T {

}

} // verus!
