//! Joining children: what a parent does when one of its children is final.

use vstd::prelude::*;

use crate::cancel::cancel_tree;
use crate::change::{commit, Change};
use crate::decide::{plan_waking, waking};
use crate::error::Error;
use crate::event::EventKind;
use crate::ids::RunId;
use crate::json::{Json, JsonView};
use crate::run::{JoinMode, Run, RunStatus, RunView, Wait, WaitView};
use crate::store::{views, Backend, Store};
use crate::time::Timestamp;

verus! {

impl Store {
    /// Whether every child of the run `p` is final.
    pub open spec fn all_children_final(self, p: u128) -> bool {
        forall|k: u128| #[trigger] self.child_of(k, p) ==> self.runs[k].status.terminal()
    }

    /// Whether some child of the run `p` is final.
    pub open spec fn some_child_final(self, p: u128) -> bool {
        exists|k: u128| #[trigger] self.child_of(k, p) && self.runs[k].status.terminal()
    }

    /// The children of the run `p` that completed.
    pub open spec fn completed_children(self, p: u128) -> Set<u128> {
        Set::new(|k: u128| self.child_of(k, p) && self.runs[k].status is Completed)
    }

    /// Whether the children of the run `p` satisfy a join.
    pub open spec fn joined(self, p: u128, mode: JoinMode) -> bool {
        match mode {
            JoinMode::All => self.all_children_final(p),
            JoinMode::Any => self.some_child_final(p),
            JoinMode::Quorum(n) => self.completed_children(p).len() >= n
                || self.all_children_final(p),
        }
    }

    /// The runs that cancelling the children of the run `p` cancels, where the
    /// children that are not final are those of `listed`.
    pub open spec fn brood(self, listed: Store, p: u128) -> Set<u128> {
        Set::new(
            |x: u128|
                exists|c: u128| #[trigger]
                    listed.child_of(c, p) && listed.live(c) && self.doomed(c, x),
        )
    }

    /// The store after the run `p` has been told that a child of it is final. A
    /// run that does not wait for its children is left alone. Else the report is
    /// logged, and where the join is satisfied the run is runnable again; a join
    /// of the kind `Any` then cancels the children that are not final.
    pub open spec fn child_reported(self, p: RunId, now: Timestamp, entry_id: u128) -> Store {
        if !self.has_run(p) {
            self
        } else {
            match self.run(p).waiting {
                Some(WaitView::ChildJoin { mode }) => {
                    let satisfied = self.joined(p.value, mode);
                    let told = self.append(
                        p,
                        EventKind::ChildRunFinished,
                        JsonView::empty_object().with("satisfied"@, JsonView::Bool(satisfied)),
                        now,
                    );
                    if satisfied {
                        let woken = told.apply_all(waking(self.run(p), entry_id, now));
                        if mode is Any {
                            woken.cancel_where(woken.brood(self, p.value), now)
                        } else {
                            woken
                        }
                    } else {
                        told
                    }
                },
                _ => self,
            }
        }
    }
}

/// What a list of children says of a join: whether all are final, whether one is,
/// and how many completed.
fn survey(Ghost(store): Ghost<Store>, p: RunId, kids: &Vec<Run>) -> (r: (bool, bool, usize))
    requires
        store.wf(),
        store.lists_children(p, views(kids@)),
    ensures
        r.0 == store.all_children_final(p.value),
        r.1 == store.some_child_final(p.value),
        r.2 == store.completed_children(p.value).len(),
{
    let mut all: bool = true;
    let mut any: bool = false;
    let mut done: usize = 0;
    let mut i: usize = 0;
    let ghost list = views(kids@);
    let ghost mut won: Set<u128> = Set::empty();
    while i < kids.len()
        invariant
            i <= kids@.len(),
            list == views(kids@),
            store.lists_children(p, list),
            all == forall|j: int| 0 <= j < i ==> (#[trigger] list[j]).status.terminal(),
            any == exists|j: int| 0 <= j < i && (#[trigger] list[j]).status.terminal(),
            won.finite(),
            won.len() == done,
            done <= i,
            forall|k: u128| #[trigger]
                won.contains(k) ==> exists|j: int|
                    0 <= j < i && (#[trigger] list[j]).id.value == k && list[j].status
                        is Completed,
            forall|j: int|
                0 <= j < i && (#[trigger] list[j]).status is Completed ==> won.contains(
                    list[j].id.value,
                ),
        decreases kids@.len() - i,
    {
        let status: RunStatus = kids[i].status;
        proof {
            assert(list[i as int] == kids@[i as int]@);
        }
        if status.is_terminal() {
            any = true;
        } else {
            all = false;
        }
        if status == RunStatus::Completed {
            done = done + 1;
            proof {
                let k = list[i as int].id.value;
                if won.contains(k) {
                    let j = choose|j: int|
                        0 <= j < i && (#[trigger] list[j]).id.value == k && list[j].status
                            is Completed;
                    assert(list[j].id != list[i as int].id);
                }
                won = won.insert(k);
            }
        }
        i = i + 1;
    }
    proof {
        assert forall|k: u128| #[trigger] store.child_of(k, p.value) implies exists|j: int|
            0 <= j < list.len() && #[trigger] list[j] == store.runs[k] by {
            assert(list.contains(store.runs[k]));
        }
        assert(all == store.all_children_final(p.value)) by {
            if all {
            } else {
                let j = choose|j: int|
                    0 <= j < list.len() && !(#[trigger] list[j]).status.terminal();
                assert(store.child_of(list[j].id.value, p.value));
            }
        }
        assert(any == store.some_child_final(p.value)) by {
            if any {
                let j = choose|j: int|
                    0 <= j < list.len() && (#[trigger] list[j]).status.terminal();
                assert(store.child_of(list[j].id.value, p.value));
            }
        }
        assert(won =~= store.completed_children(p.value)) by {
            assert forall|k: u128| won.contains(k) implies store.completed_children(
                p.value,
            ).contains(k) by {
                let j = choose|j: int|
                    0 <= j < list.len() && (#[trigger] list[j]).id.value == k && list[j].status
                        is Completed;
                assert(store.child_of(list[j].id.value, p.value));
            }
            assert forall|k: u128|
                store.completed_children(p.value).contains(k) implies won.contains(k) by {
                assert(store.child_of(k, p.value));
                let j = choose|j: int|
                    0 <= j < list.len() && #[trigger] list[j] == store.runs[k];
                assert(list[j].id.value == k);
            }
        }
    }
    (all, any, done)
}

/// Cancelling a second subtree after a first is cancelling both.
proof fn lemma_cancel_both(store: Store, dead: Set<u128>, c: u128, now: Timestamp)
    requires
        forall|k: u128| #[trigger] dead.contains(k) ==> store.live(k),
    ensures
        store.cancel_where(dead, now).cancel_tree(c, now) == store.cancel_where(
            dead.union(store.subtree(c)),
            now,
        ),
        forall|k: u128| #[trigger]
            dead.union(store.subtree(c)).contains(k) ==> store.live(k),
{
    let here = store.cancel_where(dead, now);
    let both = dead.union(store.subtree(c));
    crate::cancel::lemma_same_family(here, store);
    assert forall|x: u128| here.doomed(c, x) == (store.doomed(c, x) && !dead.contains(x)) by {
        assert(here.descends(c, x) == store.descends(c, x));
        assert(here.live(x) == (store.live(x) && !dead.contains(x)));
    }
    let after = here.cancel_tree(c, now);
    let goal = store.cancel_where(both, now);
    assert forall|k: u128| here.subtree(c).contains(k) implies #[trigger] here.log(
        RunId { value: k },
    ) == store.log(RunId { value: k }) by {}
    assert(after.runs =~= goal.runs);
    assert(after.events =~= goal.events);
    assert(after =~= goal);
}

/// Cancels the children among `kids` that are not final, each with everything
/// below it.
fn cancel_brood<B: Backend>(
    backend: &mut B,
    Ghost(listed): Ghost<Store>,
    p: RunId,
    kids: &Vec<Run>,
    now: Timestamp,
) -> (r: Result<(), Error>)
    requires
        old(backend).inv(),
        listed.wf(),
        listed.lists_children(p, views(kids@)),
    ensures
        final(backend).inv(),
        final(backend).reliable() == old(backend).reliable(),
        r is Ok ==> final(backend).store() == old(backend).store().cancel_where(
            old(backend).store().brood(listed, p.value),
            now,
        ),
        r is Err ==> !old(backend).reliable() && final(backend).store().extends(
            old(backend).store(),
        ),
{
    let mut i: usize = 0;
    let ghost before = backend.store();
    let ghost mut dead: Set<u128> = Set::empty();
    let ghost list = views(kids@);
    proof {
        crate::cancel::lemma_cancel_none(before, now);
    }
    while i < kids.len()
        invariant
            i <= kids@.len(),
            list == views(kids@),
            before == old(backend).store(),
            backend.inv(),
            backend.reliable() == old(backend).reliable(),
            backend.store() == before.cancel_where(dead, now),
            forall|k: u128| #[trigger] dead.contains(k) ==> before.live(k),
            forall|x: u128| #[trigger]
                dead.contains(x) == exists|j: int|
                    0 <= j < i && !(#[trigger] list[j]).status.terminal() && before.doomed(
                        list[j].id.value,
                        x,
                    ),
        decreases kids@.len() - i,
    {
        proof {
            assert(list[i as int] == kids@[i as int]@);
        }
        if !kids[i].status.is_terminal() {
            proof {
                lemma_cancel_both(before, dead, list[i as int].id.value, now);
                crate::cancel::lemma_cancel_extends(before, dead, now);
            }
            let ghost here = backend.store();
            match cancel_tree(backend, kids[i].id, now) {
                Ok(_) => {},
                Err(e) => {
                    proof {
                        crate::store::lemma_extends_transitive(before, here, backend.store());
                    }
                    return Err(e);
                },
            }
            proof {
                let both = dead.union(before.subtree(list[i as int].id.value));
                assert forall|x: u128| #[trigger] both.contains(x) == exists|j: int|
                    0 <= j < i + 1 && !(#[trigger] list[j]).status.terminal() && before.doomed(
                        list[j].id.value,
                        x,
                    ) by {
                    if dead.contains(x) {
                        let j = choose|j: int|
                            0 <= j < i && !(#[trigger] list[j]).status.terminal()
                                && before.doomed(list[j].id.value, x);
                        assert(0 <= j < i + 1);
                    }
                }
                dead = both;
            }
        }
        i = i + 1;
    }
    proof {
        assert(dead =~= before.brood(listed, p.value)) by {
            assert forall|x: u128| dead.contains(x) implies before.brood(listed, p.value).contains(
                x,
            ) by {
                let j = choose|j: int|
                    0 <= j < list.len() && !(#[trigger] list[j]).status.terminal()
                        && before.doomed(list[j].id.value, x);
                assert(listed.child_of(list[j].id.value, p.value));
            }
            assert forall|x: u128|
                before.brood(listed, p.value).contains(x) implies dead.contains(x) by {
                let c = choose|c: u128| #[trigger]
                    listed.child_of(c, p.value) && listed.live(c) && before.doomed(c, x);
                assert(list.contains(listed.runs[c]));
                let j = choose|j: int| 0 <= j < list.len() && list[j] == listed.runs[c];
                assert(list[j].id.value == c);
            }
        }
    }
    Ok(())
}

/// Tells the run `p` at `now` that a child of it is final.
pub fn report_child<B: Backend>(backend: &mut B, p: RunId, now: Timestamp, entry_id: u128) -> (r:
    Result<(), Error>)
    requires
        old(backend).inv(),
    ensures
        final(backend).inv(),
        final(backend).reliable() == old(backend).reliable(),
        r is Ok ==> final(backend).store() == old(backend).store().child_reported(p, now, entry_id)
            || (!old(backend).reliable() && final(backend).store() == old(backend).store()),
        r is Err ==> !old(backend).reliable() && final(backend).store().extends(
            old(backend).store(),
        ),
{
    let ghost before = backend.store();
    proof {
        backend.inv_gives_wf();
        crate::store::lemma_extends_reflexive(before);
    }
    let parent: Run = match backend.get_run(p) {
        Ok(parent) => parent,
        Err(_) => return Ok(()),
    };
    let mode: JoinMode = match &parent.waiting {
        Some(Wait::ChildJoin { mode }) => *mode,
        _ => return Ok(()),
    };
    let kids: Vec<Run> = match backend.list_children(p) {
        Ok(kids) => kids,
        Err(e) => return Err(e),
    };
    let (all, any, done) = survey(Ghost(before), p, &kids);
    let satisfied: bool = match mode {
        JoinMode::All => all,
        JoinMode::Any => any,
        JoinMode::Quorum(n) => done >= n as usize || all,
    };
    let payload: Json = Json::object().with("satisfied", Json::Bool(satisfied));
    let ghost told = before.append(p, EventKind::ChildRunFinished, payload@, now);
    proof {
        crate::store::lemma_append_extends(
            before,
            before,
            p,
            EventKind::ChildRunFinished,
            payload@,
            now,
        );
    }
    match backend.append(p, EventKind::ChildRunFinished, payload, now) {
        Ok(_) => {},
        Err(e) => return Err(e),
    }
    if !satisfied {
        return Ok(());
    }
    let changes: Vec<Change> = plan_waking(parent, entry_id, now);
    let ghost list = views(changes@);
    proof {
        crate::change::lemma_apply_all_extends(before, told, list);
        lemma_waking_accepted(told, parent@, entry_id, now);
    }
    match commit(backend, &changes) {
        Ok(_) => {},
        Err(e) => {
            proof {
                let k = choose|k: int|
                    0 <= k <= list.len() && backend.store() == #[trigger] told.apply_all(
                        list.take(k),
                    );
                crate::change::lemma_apply_all_extends(before, told, list.take(k));
            }
            return Err(e);
        },
    }
    let ghost woken = backend.store();
    match mode {
        JoinMode::Any => {
            match cancel_brood(backend, Ghost(before), p, &kids, now) {
                Ok(_) => Ok(()),
                Err(e) => {
                    proof {
                        crate::store::lemma_extends_transitive(before, woken, backend.store());
                    }
                    Err(e)
                },
            }
        },
        _ => Ok(()),
    }
}

/// A run that is there can be woken.
pub(crate) proof fn lemma_waking_accepted(
    store: Store,
    run: RunView,
    entry_id: u128,
    now: Timestamp,
)
    requires
        store.has_run(run.id),
    ensures
        store.accepts_all(waking(run, entry_id, now)),
{
    let list = waking(run, entry_id, now);
    reveal_with_fuel(Store::accepts_all, 3);
    reveal_with_fuel(Store::apply_all, 3);
    assert(list.drop_last().drop_last() =~= Seq::empty());
    assert(list.drop_last().last() == list[0]);
}

} // verus!
