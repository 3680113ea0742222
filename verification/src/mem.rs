//! A backend in memory, for tests, examples and embedded single-process use.
//!
//! It has the whole storage surface, with a queue whose entries can be delayed,
//! are leased by a claim and come back when the lease expires.

use std::collections::HashMap;
use vstd::prelude::*;

use crate::artifact::{Artifact, ArtifactView};
use crate::error::Error;
use crate::event::{Event, EventKind, EventView};
use crate::ids::{ResourceId, RunId};
use crate::json::Json;
use crate::resource::{Resource, ResourceStatus, ResourceView};
use crate::run::{Run, RunView};
use crate::signal::{Signal, SignalView};
use crate::step::{StepRecord, StepRecordView};
use crate::store::{
    ArtifactStore, Clock, EventLog, Lease, Queue, QueueEntry, ResourceStore, RunStore, SignalStore,
    StepStore, StoreModel,
};
use crate::time::{Duration, Timestamp};

verus! {

broadcast use vstd::std_specs::hash::group_hash_axioms;

/// The backend in memory.
pub struct InMemoryBackend {
    runs: HashMap<u128, Run>,
    events: HashMap<u128, Vec<Event>>,
    /// In the order of recording; of two records under one run and key the later
    /// one counts.
    steps: Vec<StepRecord>,
    signals: HashMap<u128, Vec<Signal>>,
    resources: HashMap<u128, Resource>,
    artifacts: HashMap<u128, Vec<Artifact>>,
    queue: Vec<QueueEntry>,
    fences: HashMap<u128, Timestamp>,
}

/// The journal that a list of records stands for.
spec fn journal(records: Seq<StepRecord>) -> Map<(u128, Seq<char>), StepRecordView>
    decreases records.len(),
{
    if records.len() == 0 {
        Map::empty()
    } else {
        journal(records.drop_last()).insert(
            (records.last().run_id.value, records.last().key@),
            records.last()@,
        )
    }
}

spec fn run_table(m: Map<u128, Run>) -> Map<u128, RunView> {
    m.map_values(|run: Run| run@)
}

spec fn resource_table(m: Map<u128, Resource>) -> Map<u128, ResourceView> {
    m.map_values(|resource: Resource| resource@)
}

spec fn event_logs(m: Map<u128, Vec<Event>>) -> Map<u128, Seq<EventView>> {
    m.map_values(|log: Vec<Event>| crate::store::views(log@))
}

spec fn inboxes(m: Map<u128, Vec<Signal>>) -> Map<u128, Seq<SignalView>> {
    m.map_values(|inbox: Vec<Signal>| crate::store::views(inbox@))
}

spec fn shelves(m: Map<u128, Vec<Artifact>>) -> Map<u128, Seq<ArtifactView>> {
    m.map_values(|shelf: Vec<Artifact>| crate::store::views(shelf@))
}

impl StoreModel for InMemoryBackend {
    closed spec fn store(&self) -> crate::store::Store {
        crate::store::Store {
            runs: run_table(self.runs@),
            events: event_logs(self.events@),
            steps: journal(self.steps@),
            signals: inboxes(self.signals@),
            resources: resource_table(self.resources@),
            artifacts: shelves(self.artifacts@),
            queue: self.queue@,
            fences: self.fences@,
        }
    }

    open spec fn reliable(&self) -> bool {
        true
    }

    open spec fn inv(&self) -> bool {
        self.store().wf()
    }

    proof fn inv_gives_wf(&self) {
    }
}

impl InMemoryBackend {
    /// An empty backend.
    pub fn new() -> (r: InMemoryBackend)
        ensures
            r.store() == crate::store::Store::empty(),
            r.inv(),
    {
        let r = InMemoryBackend {
            runs: HashMap::new(),
            events: HashMap::new(),
            steps: Vec::new(),
            signals: HashMap::new(),
            resources: HashMap::new(),
            artifacts: HashMap::new(),
            queue: Vec::new(),
            fences: HashMap::new(),
        };
        proof {
            assert(r.store() =~= crate::store::Store::empty());
        }
        r
    }
}

impl Clock for InMemoryBackend {
    open spec fn may_show(now: Timestamp) -> bool {
        now.in_calendar()
    }

    fn now(&self) -> (r: Timestamp)
        ensures
            r.in_calendar(),
    {
        Timestamp::now()
    }
}

/// Puts `run` into a list that is in the order of creation, behind those created
/// at the same instant.
fn insert_by_creation(kids: &mut Vec<Run>, run: Run) -> (at: usize)
    requires
        forall|i: int, j: int|
            0 <= i < j < old(kids)@.len() ==> (#[trigger] old(kids)@[i]).created_at.nanos <= (
            #[trigger] old(kids)@[j]).created_at.nanos,
    ensures
        at <= old(kids)@.len(),
        final(kids)@ == old(kids)@.insert(at as int, run),
        forall|i: int, j: int|
            0 <= i < j < final(kids)@.len() ==> (#[trigger] final(kids)@[i]).created_at.nanos <= (
            #[trigger] final(kids)@[j]).created_at.nanos,
{
    let mut at: usize = 0;
    while at < kids.len() && kids[at].created_at.nanos <= run.created_at.nanos
        invariant
            at <= kids@.len(),
            forall|i: int|
                0 <= i < at ==> (#[trigger] kids@[i]).created_at.nanos <= run.created_at.nanos,
        decreases kids@.len() - at,
    {
        at = at + 1;
    }
    kids.insert(at, run);
    at
}

impl RunStore for InMemoryBackend {
    fn create_run(&mut self, run: &Run) -> (r: Result<(), Error>) {
        self.runs.insert(run.id.value, run.clone());
        proof {
            assert(self.store() =~= old(self).store().put_run(run@));
        }
        Ok(())
    }

    fn get_run(&self, id: RunId) -> (r: Result<Run, Error>) {
        match self.runs.get(&id.value) {
            Some(run) => Ok(run.clone()),
            None => Err(Error::RunNotFound(id)),
        }
    }

    fn update_run(&mut self, run: &Run) -> (r: Result<(), Error>) {
        if !self.runs.contains_key(&run.id.value) {
            return Err(Error::RunNotFound(run.id));
        }
        self.runs.insert(run.id.value, run.clone());
        proof {
            assert(self.store() =~= old(self).store().put_run(run@));
        }
        Ok(())
    }

    fn list_children(&self, parent: RunId) -> (r: Result<Vec<Run>, Error>) {
        let mut kids: Vec<Run> = Vec::new();
        for pair in it: self.runs.iter()
            invariant
                self.inv(),
                it.seq().no_duplicates(),
                forall|j: int|
                    0 <= j < it.seq().len() ==> self.runs@.contains_key(
                        *(#[trigger] it.seq()[j]).0,
                    ) && self.runs@[*it.seq()[j].0] == *it.seq()[j].1,
                forall|k: u128| #[trigger]
                    self.runs@.contains_key(k) ==> it.seq().contains((&k, &self.runs@[k])),
                forall|i: int, j: int|
                    0 <= i < j < kids@.len() ==> (#[trigger] kids@[i]).created_at.nanos <= (
                    #[trigger] kids@[j]).created_at.nanos,
                forall|i: int, j: int|
                    0 <= i < j < kids@.len() ==> (#[trigger] kids@[i]).id != (
                    #[trigger] kids@[j]).id,
                forall|i: int|
                    0 <= i < kids@.len() ==> (#[trigger] kids@[i]).parent_id == Some(parent)
                        && self.runs@.contains_key(kids@[i].id.value)
                        && self.runs@[kids@[i].id.value]@ == kids@[i]@,
                forall|i: int, j: int|
                    0 <= i < kids@.len() && it.index() <= j < it.seq().len() ==> *(
                    #[trigger] it.seq()[j]).0 != (#[trigger] kids@[i]).id.value,
                forall|j: int|
                    0 <= j < it.index() && (#[trigger] it.seq()[j]).1.parent_id == Some(parent)
                        ==> crate::store::views(kids@).contains(it.seq()[j].1@),
        {
            let run: &Run = pair.1;
            let ghost before = kids@;
            let ghost at = it.index();
            proof {
                assert(self.store().runs.contains_key(*pair.0));
                assert(run.id.value == *pair.0);
            }
            if let Some(id) = run.parent_id {
                if id == parent {
                    let place: usize = insert_by_creation(&mut kids, run.clone());
                    proof {
                        assert(*it.seq()[at].0 == run.id.value);
                        assert forall|j: int| at < j < it.seq().len() implies *(
                        #[trigger] it.seq()[j]).0 != run.id.value by {
                            if *it.seq()[j].0 == run.id.value {
                                assert(it.seq()[j] == it.seq()[at]);
                            }
                        }
                        assert forall|v: RunView|
                            crate::store::views(before).contains(v) implies crate::store::views(
                            kids@,
                        ).contains(v) by {
                            let i = choose|i: int|
                                0 <= i < before.len() && crate::store::views(before)[i] == v;
                            let k = if i < place {
                                i
                            } else {
                                i + 1
                            };
                            assert(crate::store::views(kids@)[k] == v);
                        }
                        assert(crate::store::views(kids@)[place as int] == run@);
                    }
                }
            }
        }
        proof {
            let list = crate::store::views(kids@);
            assert forall|k: u128| #[trigger]
                self.store().runs.contains_key(k) && self.store().runs[k].parent_id == Some(
                    parent,
                ) implies list.contains(self.store().runs[k]) by {
                assert(self.runs@.contains_key(k));
            }
        }
        Ok(kids)
    }

    fn try_acquire_run(&mut self, id: RunId, lease_ttl: Duration, now: Timestamp) -> (r: Result<
        bool,
        Error,
    >) {
        if let Some(until) = self.fences.get(&id.value) {
            if until.nanos > now.nanos {
                return Ok(false);
            }
        }
        let until: Timestamp = now.after(lease_ttl);
        self.fences.insert(id.value, until);
        proof {
            assert(self.store() =~= old(self).store().fence(id, until));
        }
        Ok(true)
    }

    fn release_run(&mut self, id: RunId) -> (r: Result<(), Error>) {
        self.fences.remove(&id.value);
        proof {
            assert(self.store() =~= old(self).store().unfence(id));
        }
        Ok(())
    }
}

impl EventLog for InMemoryBackend {
    fn append(&mut self, run_id: RunId, kind: EventKind, payload: Json, at: Timestamp) -> (r:
        Result<u64, Error>) {
        let ghost ev = self.store().next_event(run_id, kind, payload@, at);
        let mut log: Vec<Event> = match self.events.remove(&run_id.value) {
            Some(log) => log,
            None => Vec::new(),
        };
        let ghost before = log@;
        proof {
            assert(crate::store::views(before) =~= old(self).store().log(run_id));
        }
        log.push(Event { run_id, seq: 0, kind, payload, at });
        let seq: u64 = log.len() as u64;
        let last: usize = log.len() - 1;
        log[last].seq = seq;
        proof {
            assert(crate::store::views(log@) =~= crate::store::views(before).push(ev));
        }
        self.events.insert(run_id.value, log);
        proof {
            assert(self.store() =~= old(self).store().append(run_id, kind, payload@, at));
            assert(numbered_after_append(old(self).store(), run_id, ev));
        }
        Ok(seq)
    }

    fn read(&self, run_id: RunId, from_seq: u64) -> (r: Result<Vec<Event>, Error>) {
        let mut out: Vec<Event> = Vec::new();
        if let Some(log) = self.events.get(&run_id.value) {
            let mut i: usize = 0;
            proof {
                assert(self.store().events.contains_key(run_id.value));
            }
            while i < log.len()
                invariant
                    i <= log@.len(),
                    self.store().log(run_id) == crate::store::views(log@),
                    crate::store::numbered(run_id.value, crate::store::views(log@)),
                    crate::store::views(out@) == crate::store::views(log@).subrange(
                        if from_seq <= i {
                            from_seq as int
                        } else {
                            i as int
                        },
                        i as int,
                    ),
                decreases log@.len() - i,
            {
                let ghost before = out@;
                proof {
                    assert(crate::store::views(log@)[i as int].seq == i + 1);
                }
                if log[i].seq > from_seq {
                    out.push(log[i].clone());
                    proof {
                        assert(crate::store::views(out@) =~= crate::store::views(before).push(
                            log@[i as int]@,
                        ));
                    }
                }
                i = i + 1;
            }
        }
        Ok(out)
    }
}

/// The log of a run stays numbered when its next event is added.
spec fn numbered_after_append(store: crate::store::Store, id: RunId, ev: EventView) -> bool {
    store.wf() ==> crate::store::numbered(id.value, store.log(id).push(ev))
}

impl StepStore for InMemoryBackend {
    fn lookup_step(&self, run_id: RunId, key: &str) -> (r: Result<Option<StepRecord>, Error>) {
        let wanted: String = key.to_owned();
        let mut i: usize = self.steps.len();
        proof {
            assert(self.steps@.take(self.steps@.len() as int) =~= self.steps@);
        }
        while i > 0
            invariant
                i <= self.steps@.len(),
                wanted@ == key@,
                journal(self.steps@.take(i as int)).contains_key((run_id.value, key@))
                    == self.store().steps.contains_key((run_id.value, key@)),
                self.store().steps.contains_key((run_id.value, key@)) ==> journal(
                    self.steps@.take(i as int),
                )[(run_id.value, key@)] == self.store().steps[(run_id.value, key@)],
            decreases i,
        {
            proof {
                assert(self.steps@.take(i as int).drop_last() =~= self.steps@.take(i - 1));
            }
            i = i - 1;
            if self.steps[i].run_id == run_id && self.steps[i].key.0 == wanted {
                return Ok(Some(self.steps[i].clone()));
            }
        }
        Ok(None)
    }

    fn record_step(&mut self, record: &StepRecord) -> (r: Result<(), Error>) {
        self.steps.push(record.clone());
        proof {
            assert(self.steps@.drop_last() =~= old(self).steps@);
            assert(self.store() =~= old(self).store().put_step(record@));
        }
        Ok(())
    }
}

impl Queue for InMemoryBackend {
    fn enqueue(&mut self, entry_id: u128, run_id: RunId, ready_at: Timestamp) -> (r: Result<
        (),
        Error,
    >) {
        self.queue.push(QueueEntry { entry_id, run_id, ready_at, leased_until: None });
        proof {
            assert(self.store() =~= old(self).store().enqueue(entry_id, run_id, ready_at));
        }
        Ok(())
    }

    /// Of the entries that were ready first, the one that was made first is claimed.
    fn claim(&mut self, worker_id: &str, lease_ttl: Duration, now: Timestamp) -> (r: Result<
        Option<Lease<RunId>>,
        Error,
    >)
        ensures
            r matches Ok(Some(lease)) ==> exists|i: int|
                {
                    &&& #[trigger] crate::store::claimed_at(
                        old(self).store(),
                        i,
                        lease_ttl,
                        now,
                        lease,
                        final(self).store(),
                    )
                    &&& forall|j: int|
                        0 <= j < i && #[trigger] old(self).store().claimable(j, now)
                            ==> old(self).store().queue[i].ready_at.nanos < old(
                            self,
                        ).store().queue[j].ready_at.nanos
                },
    {
        let mut best: Option<usize> = None;
        let mut i: usize = 0;
        while i < self.queue.len()
            invariant
                i <= self.queue@.len(),
                *self == *old(self),
                match best {
                    Some(b) => {
                        &&& b < i
                        &&& self.store().claimable(b as int, now)
                        &&& forall|j: int|
                            0 <= j < i && #[trigger] self.store().claimable(j, now)
                                ==> self.queue@[b as int].ready_at.nanos
                                <= self.queue@[j].ready_at.nanos
                        &&& forall|j: int|
                            0 <= j < b && #[trigger] self.store().claimable(j, now)
                                ==> self.queue@[b as int].ready_at.nanos
                                < self.queue@[j].ready_at.nanos
                    },
                    None => forall|j: int|
                        0 <= j < i ==> !(#[trigger] self.store().claimable(j, now)),
                },
            decreases self.queue@.len() - i,
        {
            let entry: QueueEntry = self.queue[i];
            let free: bool = match entry.leased_until {
                Some(until) => until.nanos <= now.nanos,
                None => true,
            };
            let claimable: bool = entry.ready_at.nanos <= now.nanos && free;
            assert(claimable == self.store().claimable(i as int, now));
            if claimable {
                let earlier: bool = match best {
                    Some(b) => self.queue[b].ready_at.nanos <= entry.ready_at.nanos,
                    None => false,
                };
                if !earlier {
                    best = Some(i);
                }
            }
            i = i + 1;
        }
        match best {
            None => {
                proof {
                    assert forall|j: int| !(#[trigger] old(self).store().claimable(j, now)) by {
                        assert(self.store().claimable(j, now) ==> 0 <= j < i);
                    }
                }
                Ok(None)
            },
            Some(idx) => {
                let expires_at: Timestamp = now.after(lease_ttl);
                let entry: QueueEntry = self.queue[idx];
                self.queue.set(idx, QueueEntry { leased_until: Some(expires_at), ..entry });
                let lease: Option<Lease<RunId>> = Some(
                    Lease { item: entry.run_id, lease_id: entry.entry_id, expires_at },
                );
                proof {
                    assert(old(self).store().next_claim(idx as int, now));
                    assert(self.store() =~= old(self).store().lease_entry(
                        idx as int,
                        expires_at,
                    ));
                    assert(crate::store::claimed_at(
                        old(self).store(),
                        idx as int,
                        lease_ttl,
                        now,
                        lease->0,
                        self.store(),
                    ));
                }
                Ok(lease)
            },
        }
    }

    fn ack(&mut self, lease: &Lease<RunId>) -> (r: Result<(), Error>) {
        let mut kept: Vec<QueueEntry> = Vec::new();
        let mut i: usize = 0;
        let ghost keep = |e: QueueEntry| e.entry_id != lease.lease_id;
        proof {
            assert(self.queue@.take(0).filter(keep) =~= Seq::<QueueEntry>::empty()) by {
                reveal(Seq::filter);
            }
        }
        while i < self.queue.len()
            invariant
                i <= self.queue@.len(),
                keep == (|e: QueueEntry| e.entry_id != lease.lease_id),
                kept@ == self.queue@.take(i as int).filter(keep),
                *self == *old(self),
            decreases self.queue@.len() - i,
        {
            let entry: QueueEntry = self.queue[i];
            proof {
                assert(self.queue@.take(i + 1).drop_last() =~= self.queue@.take(i as int));
                reveal(Seq::filter);
            }
            if entry.entry_id != lease.lease_id {
                kept.push(entry);
            }
            i = i + 1;
        }
        proof {
            assert(self.queue@.take(self.queue@.len() as int) =~= self.queue@);
        }
        self.queue = kept;
        proof {
            assert(self.store() =~= old(self).store().ack(lease.lease_id));
        }
        Ok(())
    }
}

impl SignalStore for InMemoryBackend {
    fn deliver(&mut self, run_id: RunId, name: &str, payload: Json, at: Timestamp) -> (r: Result<
        (),
        Error,
    >) {
        let mut inbox: Vec<Signal> = match self.signals.remove(&run_id.value) {
            Some(inbox) => inbox,
            None => Vec::new(),
        };
        let ghost before = inbox@;
        proof {
            assert(crate::store::views(before) =~= old(self).store().inbox(run_id));
        }
        let signal = Signal {
            run_id,
            name: name.to_owned(),
            payload,
            created_at: at,
            consumed: false,
        };
        let ghost added = signal@;
        inbox.push(signal);
        proof {
            assert(crate::store::views(inbox@) =~= crate::store::views(before).push(added));
        }
        self.signals.insert(run_id.value, inbox);
        proof {
            assert(self.store() =~= old(self).store().deliver(run_id, name@, payload@, at));
        }
        Ok(())
    }

    fn take_signal(&mut self, run_id: RunId, name: &str) -> (r: Result<Option<Signal>, Error>) {
        let wanted: String = name.to_owned();
        let mut inbox: Vec<Signal> = match self.signals.remove(&run_id.value) {
            Some(inbox) => inbox,
            None => {
                proof {
                    assert(self.store() =~= old(self).store());
                }
                return Ok(None);
            },
        };
        let mut i: usize = 0;
        let ghost before = old(self).store();
        proof {
            assert(before.inbox(run_id) == crate::store::views(inbox@));
        }
        while i < inbox.len()
            invariant
                i <= inbox@.len(),
                wanted@ == name@,
                before == old(self).store(),
                before.inbox(run_id) == crate::store::views(inbox@),
                self.signals@ == old(self).signals@.remove(run_id.value),
                old(self).signals@.contains_key(run_id.value),
                old(self).signals@[run_id.value] == inbox,
                *self == (InMemoryBackend { signals: self.signals, ..*old(self) }),
                old(self).inv(),
                forall|j: int| 0 <= j < i ==> !(#[trigger] before.waits(run_id, name@, j)),
            decreases inbox@.len() - i,
        {
            if !inbox[i].consumed && inbox[i].name == wanted {
                let ghost all = inbox@;
                inbox[i].consumed = true;
                let taken: Signal = inbox[i].clone();
                proof {
                    assert(before.earliest(run_id, name@, i as int)) by {
                        assert(before.waits(run_id, name@, i as int));
                    }
                    assert(crate::store::views(inbox@) =~= crate::store::views(all).update(
                        i as int,
                        SignalView { consumed: true, ..crate::store::views(all)[i as int] },
                    ));
                }
                self.signals.insert(run_id.value, inbox);
                proof {
                    assert(self.store() =~= before.consume(run_id, i as int));
                }
                return Ok(Some(taken));
            }
            i = i + 1;
        }
        self.signals.insert(run_id.value, inbox);
        proof {
            assert(self.store() =~= before);
        }
        Ok(None)
    }

    fn has_unconsumed(&self, run_id: RunId, name: &str) -> (r: Result<bool, Error>) {
        let wanted: String = name.to_owned();
        if let Some(inbox) = self.signals.get(&run_id.value) {
            let mut i: usize = 0;
            while i < inbox.len()
                invariant
                    i <= inbox@.len(),
                    wanted@ == name@,
                    self.store().inbox(run_id) == crate::store::views(inbox@),
                    forall|j: int|
                        0 <= j < i ==> !(#[trigger] self.store().waits(run_id, name@, j)),
                decreases inbox@.len() - i,
            {
                if !inbox[i].consumed && inbox[i].name == wanted {
                    assert(self.store().waits(run_id, name@, i as int));
                    return Ok(true);
                }
                i = i + 1;
            }
        }
        Ok(false)
    }
}

impl ResourceStore for InMemoryBackend {
    fn lease_resource(&mut self, resource: &Resource) -> (r: Result<(), Error>) {
        self.resources.insert(resource.id.value, resource.clone());
        proof {
            assert(self.store() =~= old(self).store().put_resource(resource@));
        }
        Ok(())
    }

    fn heartbeat(&mut self, id: ResourceId, expires_at: Timestamp) -> (r: Result<(), Error>) {
        if let Some(resource) = self.resources.remove(&id.value) {
            let extended = Resource { lease_expires_at: Some(expires_at), ..resource };
            self.resources.insert(id.value, extended);
        }
        proof {
            assert(self.store() =~= old(self).store().extend_lease(id, expires_at));
        }
        Ok(())
    }

    fn release_resource(&mut self, id: ResourceId) -> (r: Result<(), Error>) {
        if let Some(resource) = self.resources.remove(&id.value) {
            let released = Resource { status: ResourceStatus::Released, ..resource };
            self.resources.insert(id.value, released);
        }
        proof {
            assert(self.store() =~= old(self).store().release(id));
        }
        Ok(())
    }

    fn list_resources(&self, run_id: RunId) -> (r: Result<Vec<Resource>, Error>) {
        let mut list: Vec<Resource> = Vec::new();
        for pair in it: self.resources.iter()
            invariant
                self.inv(),
                it.seq().no_duplicates(),
                forall|j: int|
                    0 <= j < it.seq().len() ==> self.resources@.contains_key(
                        *(#[trigger] it.seq()[j]).0,
                    ) && self.resources@[*it.seq()[j].0] == *it.seq()[j].1,
                forall|k: u128| #[trigger]
                    self.resources@.contains_key(k) ==> it.seq().contains(
                        (&k, &self.resources@[k]),
                    ),
                forall|i: int, j: int|
                    0 <= i < j < list@.len() ==> (#[trigger] list@[i]).id != (
                    #[trigger] list@[j]).id,
                forall|i: int|
                    0 <= i < list@.len() ==> (#[trigger] list@[i]).run_id == run_id
                        && self.resources@.contains_key(list@[i].id.value)
                        && self.resources@[list@[i].id.value]@ == list@[i]@,
                forall|i: int, j: int|
                    0 <= i < list@.len() && it.index() <= j < it.seq().len() ==> *(
                    #[trigger] it.seq()[j]).0 != (#[trigger] list@[i]).id.value,
                forall|j: int|
                    0 <= j < it.index() && (#[trigger] it.seq()[j]).1.run_id == run_id
                        ==> crate::store::views(list@).contains(it.seq()[j].1@),
        {
            let resource: &Resource = pair.1;
            let ghost before = list@;
            let ghost at = it.index();
            proof {
                assert(self.store().resources.contains_key(*pair.0));
                assert(resource.id.value == *pair.0);
            }
            if resource.run_id == run_id {
                list.push(resource.clone());
                proof {
                    assert(*it.seq()[at].0 == resource.id.value);
                    assert forall|j: int| at < j < it.seq().len() implies *(
                    #[trigger] it.seq()[j]).0 != resource.id.value by {
                        if *it.seq()[j].0 == resource.id.value {
                            assert(it.seq()[j] == it.seq()[at]);
                        }
                    }
                    assert forall|v: ResourceView|
                        crate::store::views(before).contains(v) implies crate::store::views(
                        list@,
                    ).contains(v) by {
                        let i = choose|i: int|
                            0 <= i < before.len() && crate::store::views(before)[i] == v;
                        assert(crate::store::views(list@)[i] == v);
                    }
                    assert(crate::store::views(list@)[before.len() as int] == resource@);
                }
            }
        }
        proof {
            let all = crate::store::views(list@);
            assert forall|k: u128| #[trigger]
                self.store().resources.contains_key(k) && self.store().resources[k].run_id
                    == run_id implies all.contains(self.store().resources[k]) by {
                assert(self.resources@.contains_key(k));
            }
        }
        Ok(list)
    }
}

impl ArtifactStore for InMemoryBackend {
    fn put_artifact(&mut self, artifact: &Artifact) -> (r: Result<(), Error>) {
        let mut shelf: Vec<Artifact> = match self.artifacts.remove(&artifact.run_id.value) {
            Some(shelf) => shelf,
            None => Vec::new(),
        };
        let ghost before = shelf@;
        proof {
            assert(crate::store::views(before) =~= old(self).store().shelf(artifact.run_id));
        }
        shelf.push(artifact.clone());
        proof {
            assert(crate::store::views(shelf@) =~= crate::store::views(before).push(artifact@));
        }
        self.artifacts.insert(artifact.run_id.value, shelf);
        proof {
            assert(self.store() =~= old(self).store().put_artifact(artifact@));
        }
        Ok(())
    }

    fn list_artifacts(&self, run_id: RunId) -> (r: Result<Vec<Artifact>, Error>) {
        let mut out: Vec<Artifact> = Vec::new();
        if let Some(shelf) = self.artifacts.get(&run_id.value) {
            let mut i: usize = 0;
            while i < shelf.len()
                invariant
                    i <= shelf@.len(),
                    crate::store::views(out@) == crate::store::views(shelf@).take(i as int),
                decreases shelf@.len() - i,
            {
                let ghost before = out@;
                out.push(shelf[i].clone());
                proof {
                    assert(crate::store::views(out@) =~= crate::store::views(before).push(
                        shelf@[i as int]@,
                    ));
                }
                i = i + 1;
            }
        }
        Ok(out)
    }
}

} // verus!
