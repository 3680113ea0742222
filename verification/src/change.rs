//! Changes of the store as data: what an engine operation decides to write, and
//! the writing of it.
//!
//! Deciding and writing are apart. A decision is a list of [`Change`]s computed
//! from values that were read; [`commit`] writes such a list in order and stops
//! at the first write that fails.

use vstd::prelude::*;

use crate::error::Error;
use crate::event::EventKind;
use crate::ids::RunId;
use crate::json::{Json, JsonView};
use crate::run::{Run, RunView};
use crate::store::{Backend, Store};
use crate::time::Timestamp;

verus! {

/// One change of the store.
#[derive(Debug)]
pub enum Change {
    /// File a new run.
    CreateRun(Run),
    /// Overwrite a run.
    UpdateRun(Run),
    /// Append an event.
    Append {
        /// The run whose log it is.
        run_id: RunId,
        /// The event kind.
        kind: EventKind,
        /// The event's payload.
        payload: Json,
        /// When it is recorded.
        at: Timestamp,
    },
    /// Make a run runnable.
    Enqueue {
        /// The fresh id of the queue entry.
        entry_id: u128,
        /// The run.
        run_id: RunId,
        /// Not before this instant.
        ready_at: Timestamp,
    },
    /// Deliver a signal.
    Deliver {
        /// The target run.
        run_id: RunId,
        /// The signal's name.
        name: String,
        /// The signal's payload.
        payload: Json,
        /// When it is delivered.
        at: Timestamp,
    },
}

/// The model of a [`Change`].
pub enum ChangeView {
    /// File a new run.
    CreateRun(RunView),
    /// Overwrite a run.
    UpdateRun(RunView),
    /// Append an event.
    Append {
        /// The run whose log it is.
        run_id: RunId,
        /// The event kind.
        kind: EventKind,
        /// The event's payload.
        payload: JsonView,
        /// When it is recorded.
        at: Timestamp,
    },
    /// Make a run runnable.
    Enqueue {
        /// The fresh id of the queue entry.
        entry_id: u128,
        /// The run.
        run_id: RunId,
        /// Not before this instant.
        ready_at: Timestamp,
    },
    /// Deliver a signal.
    Deliver {
        /// The target run.
        run_id: RunId,
        /// The signal's name.
        name: Seq<char>,
        /// The signal's payload.
        payload: JsonView,
        /// When it is delivered.
        at: Timestamp,
    },
}

impl View for Change {
    type V = ChangeView;

    open spec fn view(&self) -> ChangeView {
        match *self {
            Change::CreateRun(run) => ChangeView::CreateRun(run@),
            Change::UpdateRun(run) => ChangeView::UpdateRun(run@),
            Change::Append { run_id, kind, payload, at } => ChangeView::Append {
                run_id,
                kind,
                payload: payload@,
                at,
            },
            Change::Enqueue { entry_id, run_id, ready_at } => ChangeView::Enqueue {
                entry_id,
                run_id,
                ready_at,
            },
            Change::Deliver { run_id, name, payload, at } => ChangeView::Deliver {
                run_id,
                name: name@,
                payload: payload@,
                at,
            },
        }
    }
}

impl Store {
    /// Whether `change` can be made: only a run that is there is overwritten.
    pub open spec fn accepts(self, change: ChangeView) -> bool {
        change matches ChangeView::UpdateRun(run) ==> self.has_run(run.id)
    }

    /// The store after `change`; a change that cannot be made changes nothing.
    pub open spec fn apply(self, change: ChangeView) -> Store {
        match change {
            ChangeView::CreateRun(run) => self.put_run(run),
            ChangeView::UpdateRun(run) => if self.has_run(run.id) {
                self.put_run(run)
            } else {
                self
            },
            ChangeView::Append { run_id, kind, payload, at } => self.append(
                run_id,
                kind,
                payload,
                at,
            ),
            ChangeView::Enqueue { entry_id, run_id, ready_at } => self.enqueue(
                entry_id,
                run_id,
                ready_at,
            ),
            ChangeView::Deliver { run_id, name, payload, at } => self.deliver(
                run_id,
                name,
                payload,
                at,
            ),
        }
    }

    /// The store after all of `changes`, in order.
    pub open spec fn apply_all(self, changes: Seq<ChangeView>) -> Store
        decreases changes.len(),
    {
        if changes.len() == 0 {
            self
        } else {
            self.apply_all(changes.drop_last()).apply(changes.last())
        }
    }

    /// Whether each of `changes` can be made when its turn comes.
    pub open spec fn accepts_all(self, changes: Seq<ChangeView>) -> bool
        decreases changes.len(),
    {
        changes.len() > 0 ==> self.accepts_all(changes.drop_last()) && self.apply_all(
            changes.drop_last(),
        ).accepts(changes.last())
    }
}

/// What writing `changes` leaves of `before` in `after`: with `Ok` all of them
/// are made; with `Err` the first few of them. A backend on which no call fails
/// makes all of them where each can be made.
pub open spec fn written<T>(
    r: Result<T, Error>,
    reliable: bool,
    before: Store,
    changes: Seq<ChangeView>,
    after: Store,
) -> bool {
    &&& match r {
        Ok(_) => before.accepts_all(changes) && after == before.apply_all(changes),
        Err(_) => exists|k: int|
            0 <= k <= changes.len() && after == #[trigger] before.apply_all(changes.take(k)),
    }
    &&& reliable && before.accepts_all(changes) ==> r is Ok
}

/// Changes add to a store and lose nothing.
pub(crate) proof fn lemma_apply_all_extends(before: Store, here: Store, changes: Seq<ChangeView>)
    requires
        here.extends(before),
    ensures
        here.apply_all(changes).extends(before),
    decreases changes.len(),
{
    if changes.len() > 0 {
        lemma_apply_all_extends(before, here, changes.drop_last());
        let s = here.apply_all(changes.drop_last());
        match changes.last() {
            ChangeView::CreateRun(run) => crate::store::lemma_put_extends(before, s, run),
            ChangeView::UpdateRun(run) => crate::store::lemma_put_extends(before, s, run),
            ChangeView::Append { run_id, kind, payload, at } => {
                crate::store::lemma_append_extends(before, s, run_id, kind, payload, at)
            },
            ChangeView::Enqueue { entry_id, run_id, ready_at } => {
                crate::store::lemma_enqueue_extends(before, s, entry_id, run_id, ready_at)
            },
            ChangeView::Deliver { run_id, name, payload, at } => {
                crate::store::lemma_deliver_extends(before, s, run_id, name, payload, at)
            },
        }
    }
}

proof fn lemma_accepts_prefix(store: Store, changes: Seq<ChangeView>, k: int)
    requires
        store.accepts_all(changes),
        0 <= k < changes.len(),
    ensures
        store.apply_all(changes.take(k)).accepts(changes[k]),
    decreases changes.len(),
{
    if k == changes.len() - 1 {
        assert(changes.drop_last() =~= changes.take(k));
    } else {
        lemma_accepts_prefix(store, changes.drop_last(), k);
        assert(changes.drop_last().take(k) =~= changes.take(k));
    }
}

proof fn lemma_step(store: Store, changes: Seq<ChangeView>, k: int)
    requires
        0 <= k < changes.len(),
    ensures
        store.apply_all(changes.take(k + 1)) == store.apply_all(changes.take(k)).apply(changes[k]),
        store.accepts_all(changes.take(k + 1)) == (store.accepts_all(changes.take(k))
            && store.apply_all(changes.take(k)).accepts(changes[k])),
{
    assert(changes.take(k + 1).drop_last() =~= changes.take(k));
}

/// Writes one change.
fn commit_one<B: Backend>(backend: &mut B, change: &Change) -> (r: Result<(), Error>)
    requires
        old(backend).inv(),
    ensures
        final(backend).inv(),
        final(backend).reliable() == old(backend).reliable(),
        match r {
            Ok(_) => old(backend).store().accepts(change@) && final(backend).store() == old(
                backend,
            ).store().apply(change@),
            Err(_) => final(backend).store() == old(backend).store() || final(backend).store()
                == old(backend).store().apply(change@),
        },
        old(backend).reliable() && old(backend).store().accepts(change@) ==> r is Ok,
{
    match change {
        Change::CreateRun(run) => backend.create_run(run),
        Change::UpdateRun(run) => backend.update_run(run),
        Change::Append { run_id, kind, payload, at } => {
            match backend.append(*run_id, *kind, payload.clone(), *at) {
                Ok(_) => Ok(()),
                Err(e) => Err(e),
            }
        },
        Change::Enqueue { entry_id, run_id, ready_at } => backend.enqueue(
            *entry_id,
            *run_id,
            *ready_at,
        ),
        Change::Deliver { run_id, name, payload, at } => backend.deliver(
            *run_id,
            name.as_str(),
            payload.clone(),
            *at,
        ),
    }
}

/// Writes `changes` in order and stops at the first write that fails.
pub fn commit<B: Backend>(backend: &mut B, changes: &Vec<Change>) -> (r: Result<(), Error>)
    requires
        old(backend).inv(),
    ensures
        final(backend).inv(),
        final(backend).reliable() == old(backend).reliable(),
        written(
            r,
            old(backend).reliable(),
            old(backend).store(),
            crate::store::views(changes@),
            final(backend).store(),
        ),
{
    let mut i: usize = 0;
    let ghost before = backend.store();
    let ghost all = crate::store::views(changes@);
    proof {
        assert(all.take(0) =~= Seq::<ChangeView>::empty());
    }
    while i < changes.len()
        invariant
            i <= changes@.len(),
            all == crate::store::views(changes@),
            before == old(backend).store(),
            backend.inv(),
            backend.reliable() == old(backend).reliable(),
            backend.store() == before.apply_all(all.take(i as int)),
            before.accepts_all(all.take(i as int)),
        decreases changes@.len() - i,
    {
        proof {
            lemma_step(before, all, i as int);
        }
        match commit_one(backend, &changes[i]) {
            Ok(_) => {},
            Err(e) => {
                proof {
                    if before.accepts_all(all) {
                        lemma_accepts_prefix(before, all, i as int);
                    }
                }
                return Err(e);
            },
        }
        i = i + 1;
    }
    proof {
        assert(all.take(all.len() as int) =~= all);
    }
    Ok(())
}

} // verus!
