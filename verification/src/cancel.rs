//! Cancelling a run together with everything below it.

use std::collections::HashSet;

use vstd::prelude::*;

use crate::error::Error;
use crate::event::EventKind;
use crate::ids::RunId;
use crate::json::{Json, JsonView};
use crate::run::{Run, RunView};
use crate::store::{views, Backend, Store};
use crate::time::Timestamp;

verus! {

broadcast use vstd::std_specs::hash::group_hash_axioms;

impl Store {
    /// Whether there is a run `k` that has not reached a final state.
    pub open spec fn live(self, k: u128) -> bool {
        self.runs.contains_key(k) && !self.runs[k].status.terminal()
    }

    /// Whether the run `k` is a direct child of the run `p`.
    pub open spec fn child_of(self, k: u128, p: u128) -> bool {
        self.runs.contains_key(k) && self.runs[k].parent_id == Some(RunId { value: p })
    }

    /// Whether `path` leads from a run down to one of its descendants.
    pub open spec fn chain(self, path: Seq<u128>) -> bool {
        &&& path.len() > 0
        &&& self.runs.contains_key(path[0])
        &&& forall|i: int, j: int|
            0 <= i && j == i + 1 && j < path.len() ==> self.child_of(
                #[trigger] path[j],
                #[trigger] path[i],
            )
    }

    /// Whether the run `x` is the run `root` or a descendant of it.
    pub open spec fn descends(self, root: u128, x: u128) -> bool {
        exists|path: Seq<u128>| #[trigger] self.chain(path) && path[0] == root && path.last() == x
    }

    /// Whether cancelling the run `root` cancels the run `x`: it is `root` or a
    /// descendant of it, and it is not final.
    pub open spec fn doomed(self, root: u128, x: u128) -> bool {
        self.live(x) && self.descends(root, x)
    }

    /// The runs that cancelling the run `root` cancels.
    pub open spec fn subtree(self, root: u128) -> Set<u128> {
        Set::new(|x: u128| self.doomed(root, x))
    }

    /// The store in which exactly the runs in `dead` are cancelled, each with an
    /// event in its log.
    pub open spec fn cancel_where(self, dead: Set<u128>, now: Timestamp) -> Store {
        Store {
            runs: Map::new(
                |k: u128| self.runs.contains_key(k),
                |k: u128|
                    if dead.contains(k) {
                        self.runs[k].cancelled(now)
                    } else {
                        self.runs[k]
                    },
            ),
            events: Map::new(
                |k: u128| self.events.contains_key(k) || dead.contains(k),
                |k: u128|
                    if dead.contains(k) {
                        let id = RunId { value: k };
                        self.log(id).push(
                            self.next_event(
                                id,
                                EventKind::RunCancelled,
                                JsonView::empty_object(),
                                now,
                            ),
                        )
                    } else {
                        self.events[k]
                    },
            ),
            ..self
        }
    }

    /// The store after the run `root` has been cancelled at `now` with everything
    /// below it.
    pub open spec fn cancel_tree(self, root: u128, now: Timestamp) -> Store {
        self.cancel_where(self.subtree(root), now)
    }
}

/// A run is above itself.
pub(crate) proof fn lemma_descends_self(store: Store, root: u128)
    requires
        store.runs.contains_key(root),
    ensures
        store.descends(root, root),
{
    let path = seq![root];
    assert(store.chain(path) && path[0] == root && path.last() == root);
}

/// A child of a descendant is a descendant.
pub(crate) proof fn lemma_descends_child(store: Store, root: u128, p: u128, k: u128)
    requires
        store.descends(root, p),
        store.child_of(k, p),
    ensures
        store.descends(root, k),
{
    let path = choose|path: Seq<u128>| #[trigger]
        store.chain(path) && path[0] == root && path.last() == p;
    let longer = path.push(k);
    assert forall|i: int, j: int|
        0 <= i && j == i + 1 && j < longer.len() implies store.child_of(
        #[trigger] longer[j],
        #[trigger] longer[i],
    ) by {
        if j < path.len() {
            assert(store.child_of(path[j], path[i]));
        }
    }
    assert(store.chain(longer));
    assert(longer[0] == root && longer.last() == k);
}

/// Who descends from whom rests on the parents of the runs alone.
pub(crate) proof fn lemma_same_family(a: Store, b: Store)
    requires
        forall|k: u128| #[trigger] a.runs.contains_key(k) == b.runs.contains_key(k),
        forall|k: u128| #[trigger]
            a.runs.contains_key(k) ==> a.runs[k].parent_id == b.runs[k].parent_id,
    ensures
        forall|root: u128, x: u128| #[trigger] a.descends(root, x) == b.descends(root, x),
{
    assert forall|root: u128, x: u128| #[trigger] a.descends(root, x) == b.descends(root, x) by {
        if a.descends(root, x) {
            let path = choose|path: Seq<u128>| #[trigger]
                a.chain(path) && path[0] == root && path.last() == x;
            assert forall|i: int, j: int|
                0 <= i && j == i + 1 && j < path.len() implies b.child_of(
                #[trigger] path[j],
                #[trigger] path[i],
            ) by {
                assert(a.child_of(path[j], path[i]));
            }
            assert(b.chain(path));
        }
        if b.descends(root, x) {
            let path = choose|path: Seq<u128>| #[trigger]
                b.chain(path) && path[0] == root && path.last() == x;
            assert forall|i: int, j: int|
                0 <= i && j == i + 1 && j < path.len() implies a.child_of(
                #[trigger] path[j],
                #[trigger] path[i],
            ) by {
                assert(b.child_of(path[j], path[i]));
                assert(a.runs.contains_key(path[j]));
            }
            assert(a.chain(path));
        }
    }
}

/// Cancelling one more run.
proof fn lemma_cancel_one_more(before: Store, dead: Set<u128>, id: RunId, now: Timestamp)
    requires
        before.wf(),
        before.runs.contains_key(id.value),
        !dead.contains(id.value),
    ensures
        ({
            let here = before.cancel_where(dead, now);
            here.put_run(here.runs[id.value].cancelled(now)).append(
                id,
                EventKind::RunCancelled,
                JsonView::empty_object(),
                now,
            ) == before.cancel_where(dead.insert(id.value), now)
        }),
{
    let here = before.cancel_where(dead, now);
    let next = here.put_run(here.runs[id.value].cancelled(now)).append(
        id,
        EventKind::RunCancelled,
        JsonView::empty_object(),
        now,
    );
    let goal = before.cancel_where(dead.insert(id.value), now);
    assert(here.runs[id.value] == before.runs[id.value]);
    assert(here.log(id) == before.log(id));
    assert(next.runs =~= goal.runs);
    assert(next.events =~= goal.events);
    assert(next =~= goal);
}

pub(crate) proof fn lemma_cancel_none(store: Store, now: Timestamp)
    ensures
        store.cancel_where(Set::empty(), now) == store,
{
    let none = store.cancel_where(Set::empty(), now);
    assert(none.runs =~= store.runs);
    assert(none.events =~= store.events);
    assert(none =~= store);
}

/// Cancelling runs adds to a store and loses nothing.
pub(crate) proof fn lemma_cancel_extends(store: Store, dead: Set<u128>, now: Timestamp)
    ensures
        store.cancel_where(dead, now).extends(store),
{
    let after = store.cancel_where(dead, now);
    assert forall|id: RunId| #[trigger] store.log(id).is_prefix_of(after.log(id)) by {
        if dead.contains(id.value) {
            assert(after.log(id).take(store.log(id).len() as int) =~= store.log(id));
        } else {
            assert(after.log(id) =~= store.log(id));
        }
    }
    assert forall|id: RunId| #[trigger] store.inbox(id).is_prefix_of(after.inbox(id)) by {
        assert(after.inbox(id) == store.inbox(id));
    }
}

/// Whether the search for the runs below another has come to the run `x`: it has looked at
/// it, or has it in `pile` to look at.
spec fn reached(seen: Set<u128>, pile: Seq<RunId>, x: u128) -> bool {
    seen.contains(x) || pile.contains(RunId { value: x })
}

/// What the search for the runs below `root` knows when it has looked at `seen` and has the
/// runs in `pile` to look at.
spec fn searching(before: Store, root: RunId, seen: Set<u128>, pile: Seq<RunId>) -> bool {
    &&& reached(seen, pile, root.value)
    &&& forall|x: u128| #[trigger]
        reached(seen, pile, x) && before.runs.contains_key(x) ==> before.descends(root.value, x)
    &&& forall|k: u128, p: u128|
        seen.contains(p) && before.runs.contains_key(p) && #[trigger] before.child_of(k, p)
            ==> reached(seen, pile, k)
}

/// The runs in `seen` that are not final.
spec fn to_cancel(before: Store, seen: Set<u128>) -> Set<u128> {
    Set::new(|x: u128| seen.contains(x) && before.live(x))
}

/// A search that has nothing left to look at has come to every descendant.
proof fn lemma_all_reached(before: Store, root: RunId, seen: Set<u128>, path: Seq<u128>)
    requires
        searching(before, root, seen, Seq::empty()),
        before.chain(path),
        path[0] == root.value,
    ensures
        seen.contains(path.last()),
    decreases path.len(),
{
    let none = Seq::<RunId>::empty();
    if path.len() == 1 {
        assert(reached(seen, none, root.value));
    } else {
        let front = path.drop_last();
        let last = path.len() - 1;
        assert forall|i: int, j: int|
            0 <= i && j == i + 1 && j < front.len() implies before.child_of(
            #[trigger] front[j],
            #[trigger] front[i],
        ) by {
            assert(before.child_of(path[j], path[i]));
        }
        lemma_all_reached(before, root, seen, front);
        assert(before.child_of(path[last], path[last - 1]));
        if last > 1 {
            assert(before.child_of(path[last - 1], path[last - 2]));
        }
        assert(reached(seen, none, path[last]));
    }
}

/// The search goes on without a run that it has looked at.
proof fn lemma_search_skip(before: Store, root: RunId, seen: Set<u128>, pile: Seq<RunId>)
    requires
        searching(before, root, seen, pile),
        pile.len() > 0,
        seen.contains(pile.last().value),
    ensures
        searching(before, root, seen, pile.drop_last()),
{
    let rest = pile.drop_last();
    assert forall|x: u128| #[trigger] reached(seen, rest, x) == reached(seen, pile, x) by {
        let id = RunId { value: x };
        if pile.contains(id) {
            let i = choose|i: int| 0 <= i < pile.len() && pile[i] == id;
            if i < rest.len() {
                assert(rest[i] == id);
            }
        }
        if rest.contains(id) {
            let i = choose|i: int| 0 <= i < rest.len() && rest[i] == id;
            assert(pile[i] == id);
        }
    }
    assert forall|k: u128, p: u128|
        seen.contains(p) && before.runs.contains_key(p) && #[trigger] before.child_of(
            k,
            p,
        ) implies reached(seen, rest, k) by {
        assert(reached(seen, pile, k));
    }
}

/// Whether `id` is one of `kids`.
spec fn from_kids(kids: Seq<RunView>, id: RunId) -> bool {
    exists|i: int| 0 <= i < kids.len() && (#[trigger] kids[i]).id == id
}

/// Whether `grown` is `rest` followed by `kids`.
spec fn grown_by(rest: Seq<RunId>, kids: Seq<RunView>, grown: Seq<RunId>) -> bool {
    forall|id: RunId| #[trigger]
        grown.contains(id) == (rest.contains(id) || from_kids(kids, id))
}

/// The search goes on after the last run of the pile has been looked at and its children
/// have taken its place.
proof fn lemma_search_step(
    before: Store,
    root: RunId,
    seen: Set<u128>,
    pile: Seq<RunId>,
    kids: Seq<RunView>,
    grown: Seq<RunId>,
)
    requires
        before.wf(),
        searching(before, root, seen, pile),
        pile.len() > 0,
        !seen.contains(pile.last().value),
        before.runs.contains_key(pile.last().value) ==> forall|k: u128| #[trigger]
            before.child_of(k, pile.last().value) ==> from_kids(kids, RunId { value: k }),
        forall|id: RunId| #[trigger]
            from_kids(kids, id) ==> before.child_of(id.value, pile.last().value),
        kids.len() == 0 || before.runs.contains_key(pile.last().value),
        grown_by(pile.drop_last(), kids, grown),
    ensures
        searching(before, root, seen.insert(pile.last().value), grown),
{
    let id = pile.last();
    let rest = pile.drop_last();
    let next = seen.insert(id.value);
    assert(pile[pile.len() - 1] == id);
    assert(pile.contains(id));
    assert(reached(seen, pile, id.value));
    assert forall|x: u128| reached(seen, pile, x) implies #[trigger] reached(next, grown, x) by {
        let wanted = RunId { value: x };
        if pile.contains(wanted) && x != id.value {
            let i = choose|i: int| 0 <= i < pile.len() && pile[i] == wanted;
            assert(rest[i] == wanted);
            assert(rest.contains(wanted));
            assert(grown.contains(wanted));
        }
    }
    assert forall|x: u128| #[trigger]
        reached(next, grown, x) && before.runs.contains_key(x) implies before.descends(
        root.value,
        x,
    ) by {
        let wanted = RunId { value: x };
        if next.contains(x) {
            assert(reached(seen, pile, x));
        } else if rest.contains(wanted) {
            let i = choose|i: int| 0 <= i < rest.len() && rest[i] == wanted;
            assert(pile[i] == wanted);
            assert(reached(seen, pile, x));
        } else {
            assert(grown.contains(wanted));
            assert(from_kids(kids, wanted));
            lemma_descends_child(before, root.value, id.value, x);
        }
    }
    assert forall|k: u128, p: u128|
        next.contains(p) && before.runs.contains_key(p) && #[trigger] before.child_of(
            k,
            p,
        ) implies reached(next, grown, k) by {
        if p == id.value {
            assert(from_kids(kids, RunId { value: k }));
            assert(grown.contains(RunId { value: k }));
        } else {
            assert(reached(seen, pile, k));
        }
    }
    assert(reached(seen, pile, root.value));
}

/// Puts `kids` on top of the stack.
fn push_kids(stack: &mut Vec<RunId>, kids: &Vec<Run>)
    ensures
        grown_by(old(stack)@, views(kids@), final(stack)@),
{
    let ghost first = stack@;
    let mut i: usize = 0;
    while i < kids.len()
        invariant
            i <= kids@.len(),
            first == old(stack)@,
            grown_by(first, views(kids@).take(i as int), stack@),
        decreases kids@.len() - i,
    {
        let ghost prior = stack@;
        let ghost some = views(kids@).take(i as int);
        let ghost more = views(kids@).take(i + 1);
        stack.push(kids[i].id);
        proof {
            assert(views(kids@)[i as int] == kids@[i as int]@);
            assert forall|id: RunId| #[trigger] stack@.contains(id) == (first.contains(id)
                || from_kids(more, id)) by {
                assert(prior.contains(id) == (first.contains(id) || from_kids(some, id)));
                if from_kids(some, id) {
                    let j = choose|j: int| 0 <= j < some.len() && (#[trigger] some[j]).id == id;
                    assert(more[j].id == id);
                }
                if from_kids(more, id) {
                    let j = choose|j: int| 0 <= j < more.len() && (#[trigger] more[j]).id == id;
                    if j < i {
                        assert(some[j].id == id);
                    } else {
                        assert(stack@[prior.len() as int] == id);
                    }
                }
                if prior.contains(id) {
                    let j = choose|j: int| 0 <= j < prior.len() && prior[j] == id;
                    assert(stack@[j] == id);
                }
                if stack@.contains(id) {
                    let j = choose|j: int| 0 <= j < stack@.len() && stack@[j] == id;
                    if j < prior.len() {
                        assert(prior[j] == id);
                    } else {
                        assert(more[i as int].id == id);
                    }
                }
            }
        }
        i = i + 1;
    }
    proof {
        assert(views(kids@).take(i as int) =~= views(kids@));
    }
}

/// Cancels the run `root` at `now` together with every run below it, except those that
/// are final. The way down leads through final runs too. A run that is not there is left
/// alone.
pub fn cancel_tree<B: Backend>(backend: &mut B, root: RunId, now: Timestamp) -> (r: Result<
    (),
    Error,
>)
    requires
        old(backend).inv(),
    ensures
        final(backend).inv(),
        final(backend).reliable() == old(backend).reliable(),
        r is Ok ==> final(backend).store() == old(backend).store().cancel_tree(root.value, now),
        r is Err ==> !old(backend).reliable() && final(backend).store().extends(
            old(backend).store(),
        ),
{
    let mut stack: Vec<RunId> = Vec::new();
    stack.push(root);
    let mut seen: HashSet<u128> = HashSet::new();
    let ghost before = backend.store();
    proof {
        backend.inv_gives_wf();
        lemma_cancel_none(before, now);
        assert(to_cancel(before, seen@) =~= Set::empty());
        assert(stack@[0] == root);
        if before.runs.contains_key(root.value) {
            lemma_descends_self(before, root.value);
        }
        assert(searching(before, root, seen@, stack@));
    }
    while stack.len() > 0
        invariant
            before == old(backend).store(),
            before.wf(),
            backend.inv(),
            backend.reliable() == old(backend).reliable(),
            backend.store() == before.cancel_where(to_cancel(before, seen@), now),
            searching(before, root, seen@, stack@),
        decreases before.runs.dom().difference(seen@).len(), stack@.len(),
    {
        let ghost here = backend.store();
        let ghost pile = stack@;
        let ghost prior = seen@;
        let ghost dead = to_cancel(before, prior);
        proof {
            backend.inv_gives_wf();
            lemma_cancel_extends(before, dead, now);
        }
        let id: RunId = match stack.pop() {
            Some(id) => id,
            None => RunId { value: 0 },
        };
        proof {
            assert(stack@ =~= pile.drop_last());
            assert(id == pile.last());
        }
        if seen.contains(&id.value) {
            proof {
                lemma_search_skip(before, root, prior, pile);
            }
            continue;
        }
        seen.insert(id.value);
        let run: Run = match backend.get_run(id) {
            Ok(run) => run,
            Err(Error::RunNotFound(_)) => {
                proof {
                    assert(!before.runs.contains_key(id.value));
                    let none = Seq::<RunView>::empty();
                    lemma_search_step(before, root, prior, pile, none, stack@);
                    assert(to_cancel(before, seen@) =~= dead);
                    assert(before.runs.dom().difference(seen@) =~= before.runs.dom().difference(
                        prior,
                    ));
                }
                continue;
            },
            Err(e) => {
                return Err(e);
            },
        };
        if !run.status.is_terminal() {
            proof {
                assert(before.live(id.value));
                lemma_cancel_one_more(before, dead, id, now);
                assert(to_cancel(before, seen@) =~= dead.insert(id.value));
            }
            let run: Run = run.into_cancelled(now);
            match backend.update_run(&run) {
                Ok(_) => {},
                Err(e) => {
                    proof {
                        crate::store::lemma_put_extends(before, here, run@);
                    }
                    return Err(e);
                },
            }
            proof {
                crate::store::lemma_put_extends(before, here, run@);
                crate::store::lemma_append_extends(
                    before,
                    here.put_run(run@),
                    id,
                    EventKind::RunCancelled,
                    JsonView::empty_object(),
                    now,
                );
            }
            match backend.append(id, EventKind::RunCancelled, Json::object(), now) {
                Ok(_) => {},
                Err(e) => return Err(e),
            }
        } else {
            proof {
                assert(to_cancel(before, seen@) =~= dead);
            }
        }
        let ghost after = backend.store();
        proof {
            lemma_cancel_extends(before, to_cancel(before, seen@), now);
        }
        let kids: Vec<Run> = match backend.list_children(id) {
            Ok(kids) => kids,
            Err(e) => return Err(e),
        };
        push_kids(&mut stack, &kids);
        proof {
            let list = views(kids@);
            assert forall|k: u128| #[trigger] before.child_of(k, id.value) implies from_kids(
                list,
                RunId { value: k },
            ) by {
                assert(after.child_of(k, id.value));
                assert(list.contains(after.runs[k]));
                let j = choose|j: int| 0 <= j < list.len() && list[j] == after.runs[k];
                assert(list[j].id == (RunId { value: k }));
            }
            assert forall|kid: RunId| #[trigger] from_kids(list, kid) implies before.child_of(
                kid.value,
                id.value,
            ) by {
                let j = choose|j: int| 0 <= j < list.len() && (#[trigger] list[j]).id == kid;
                assert(after.child_of(list[j].id.value, id.value));
            }
            lemma_search_step(before, root, prior, pile, list, stack@);
            let left = before.runs.dom().difference(prior);
            assert(before.runs.dom().difference(seen@) =~= left.remove(id.value));
            assert(left.contains(id.value));
            vstd::set_lib::lemma_len_subset(left, before.runs.dom());
        }
    }
    proof {
        assert(stack@ =~= Seq::<RunId>::empty());
        assert forall|x: u128| before.doomed(root.value, x) implies to_cancel(
            before,
            seen@,
        ).contains(x) by {
            let path = choose|path: Seq<u128>| #[trigger]
                before.chain(path) && path[0] == root.value && path.last() == x;
            lemma_all_reached(before, root, seen@, path);
        }
        assert forall|x: u128| to_cancel(before, seen@).contains(x) implies before.doomed(
            root.value,
            x,
        ) by {
            assert(reached(seen@, stack@, x));
        }
        assert(to_cancel(before, seen@) =~= before.subtree(root.value));
    }
    Ok(())
}

} // verus!
