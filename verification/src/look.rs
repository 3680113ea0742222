//! The second look at the inbox of a run that is being parked.
//!
//! Whoever delivers a signal while its run is being parked may find the run not parked yet,
//! and so does not wake it. Therefore the inbox is looked at once more when the run is parked.

use vstd::prelude::*;

use crate::decide::{plan_waking, waking};
use crate::engine::{lemma_accepts_two, write_all};
use crate::error::Error;
use crate::ids::RunId;
use crate::run::Run;
use crate::store::{Backend, Store};
use crate::time::Timestamp;

verus! {

/// That an inbox was looked at, and when. There is no other way to one than
/// [`look_again`], so whoever has to show one has looked.
pub struct Look {
    store: Ghost<Store>,
    id: Ghost<RunId>,
    name: Ghost<Seq<char>>,
}

impl Look {
    /// Whether this look at the inbox of the run `id`, for the signal `name`, was taken when
    /// the store was `store`.
    pub closed spec fn shows(&self, store: Store, id: RunId, name: Seq<char>) -> bool {
        self.store@ == store && self.id@ == id && self.name@ == name
    }
}

/// Looks at the inbox of a run that has been parked on the signal `name`: where the signal
/// has arrived meanwhile, from whoever else writes to the store, the run is runnable again.
pub fn look_again<B: Backend>(
    backend: &mut B,
    id: RunId,
    name: &str,
    now: Timestamp,
    entry_id: u128,
) -> (r: Result<Look, Error>)
    requires
        old(backend).inv(),
    ensures
        final(backend).inv(),
        final(backend).reliable() == old(backend).reliable(),
        final(backend).store().extends(old(backend).store()),
        old(backend).reliable() ==> (r is Err <==> old(backend).store().has_signal(id, name@)
            && !old(backend).store().has_run(id)),
        r matches Ok(look) ==> look.shows(old(backend).store(), id, name@) && final(backend).store()
            == old(backend).store().looked_again(id, name@, now, entry_id),
        !old(backend).store().has_signal(id, name@) ==> final(backend).store() == old(
            backend,
        ).store(),
{
    let ghost before = backend.store();
    proof {
        crate::store::lemma_extends_reflexive(before);
        backend.inv_gives_wf();
    }
    let late: bool = match backend.has_unconsumed(id, name) {
        Ok(late) => late,
        Err(e) => return Err(e),
    };
    let look = Look { store: Ghost(before), id: Ghost(id), name: Ghost(name@) };
    if !late {
        return Ok(look);
    }
    let parked: Run = match backend.get_run(id) {
        Ok(parked) => parked,
        Err(e) => return Err(e),
    };
    if parked.status.is_terminal() {
        return Ok(look);
    }
    let ghost list = waking(parked@, entry_id, now);
    proof {
        assert(before.runs.contains_key(id.value));
        lemma_accepts_two(before, list[0], list[1]);
        assert(list =~= seq![list[0], list[1]]);
    }
    match write_all(backend, &plan_waking(parked, entry_id, now)) {
        Ok(_) => Ok(look),
        Err(e) => Err(e),
    }
}

} // verus!
