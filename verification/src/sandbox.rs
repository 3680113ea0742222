//! The durable lifecycle of a remote sandbox.
//!
//! The runtime owns the lifecycle, the agent framework the interface. A sandbox is
//! provisioned once, memoized by a durable step, and leased as a
//! [`ResourceKind::CodeSandbox`], so that a worker that recovers attaches to the
//! same sandbox by its id. It is reaped on teardown, so that a crashed or cancelled
//! run leaves no paid machine behind.

use vstd::prelude::*;

use crate::driver::{
    leased, memo, outcome, outcomes, resource_leased, resource_released, step_ran, step_result,
    stepped, tried, RunContext,
};
use crate::error::{Error, ErrorView};
use crate::ids::{time_ordered, ResourceId, RunId};
use crate::json::{Json, JsonView};
use crate::resource::{Resource, ResourceKind, ResourceStatus, ResourceView};
use crate::step::RetryPolicy;
use crate::store::{views, Backend, Store};
use crate::time::{Duration, Timestamp};

verus! {

/// A sandbox as its provider created it: the id, and what a recovering worker needs
/// to connect again. The runtime keeps the connection details as they are and never
/// reads them.
#[derive(Debug)]
pub struct SandboxHandle {
    /// The id that the provider gave.
    pub id: String,
    /// The provider's connection details; `null` where there are none.
    pub metadata: Json,
}

/// The model of a [`SandboxHandle`].
pub struct SandboxHandleView {
    /// The id that the provider gave.
    pub id: Seq<char>,
    /// The provider's connection details; `null` where there are none.
    pub metadata: JsonView,
}

impl View for SandboxHandle {
    type V = SandboxHandleView;

    open spec fn view(&self) -> SandboxHandleView {
        SandboxHandleView { id: self.id@, metadata: self.metadata@ }
    }
}

impl SandboxHandleView {
    /// How a handle is journaled: `{ "id": .., "metadata": .. }`.
    pub open spec fn journaled(self) -> JsonView {
        JsonView::empty_object().with("id"@, JsonView::String(self.id)).with(
            "metadata"@,
            self.metadata,
        )
    }

    /// The handle that a journaled document stands for: an object whose member `id`
    /// is a text; a missing `metadata` stands for `null`.
    pub open spec fn of_journal(doc: JsonView) -> Option<SandboxHandleView> {
        match doc.member_text("id"@) {
            Some(id) => Some(
                SandboxHandleView {
                    id,
                    metadata: match doc.member("metadata"@) {
                        Some(metadata) => metadata,
                        None => JsonView::Null,
                    },
                },
            ),
            None => None,
        }
    }

    /// What the lease on the sandbox keeps: the connection details with the id as
    /// the member `sandbox_id`. Details that are no object are dropped.
    pub open spec fn lease_metadata(self) -> JsonView {
        self.metadata.with("sandbox_id"@, JsonView::String(self.id))
    }
}

impl SandboxHandle {
    /// A handle without connection details.
    pub fn new(id: &str) -> (r: SandboxHandle)
        ensures
            r@ == (SandboxHandleView { id: id@, metadata: JsonView::Null }),
    {
        SandboxHandle { id: id.to_owned(), metadata: Json::Null }
    }

    /// A handle with connection details.
    pub fn with_metadata(id: &str, metadata: Json) -> (r: SandboxHandle)
        ensures
            r@ == (SandboxHandleView { id: id@, metadata: metadata@ }),
    {
        SandboxHandle { id: id.to_owned(), metadata }
    }

    /// How this handle is journaled.
    pub fn to_journal(&self) -> (r: Json)
        ensures
            r@ == self@.journaled(),
    {
        Json::object().with("id", Json::String(self.id.clone())).with(
            "metadata",
            self.metadata.clone(),
        )
    }

    /// The handle that a journaled document stands for.
    pub fn from_journal(doc: &Json) -> (r: Result<SandboxHandle, Error>)
        ensures
            match r {
                Ok(handle) => SandboxHandleView::of_journal(doc@) == Some(handle@),
                Err(e) => SandboxHandleView::of_journal(doc@) is None && e is Serde,
            },
    {
        match doc.get_str("id") {
            Some(id) => Ok(
                SandboxHandle {
                    id: id.to_owned(),
                    metadata: match doc.get("metadata") {
                        Some(metadata) => metadata.clone(),
                        None => Json::Null,
                    },
                },
            ),
            None => Err(Error::Serde("not a sandbox handle".to_owned())),
        }
    }
}

/// A journaled handle is read back as it was.
pub proof fn handle_journal_round_trip(handle: SandboxHandleView)
    ensures
        SandboxHandleView::of_journal(handle.journaled()) == Some(handle),
{
    reveal_strlit("id");
    reveal_strlit("metadata");
    assert("id"@.len() != "metadata"@.len());
}

/// The model of what creating a sandbox gave: its handle, or the message of the error.
pub open spec fn creation_view(r: Result<SandboxHandle, String>) -> Result<
    SandboxHandleView,
    Seq<char>,
> {
    match r {
        Ok(handle) => Ok(handle@),
        Err(message) => Err(message@),
    }
}

/// A provider of remote sandboxes. Errors are texts.
pub trait SandboxProvider {
    /// Whether the provider may be asked for a sandbox. One of which nothing is to be said may
    /// always be.
    open spec fn may_be_asked(&self) -> bool {
        true
    }

    /// Whether the provider may be told to destroy a sandbox. One of which nothing is to be
    /// said may always be.
    open spec fn may_be_told_to_destroy(&self, sandbox_id: Seq<char>) -> bool {
        true
    }

    /// Whether creating a sandbox may give `r`. A provider of which nothing is to be said
    /// may give anything.
    open spec fn may_create(&self, r: Result<SandboxHandleView, Seq<char>>) -> bool {
        true
    }

    /// Whether destroying a sandbox may succeed (`gone`) or fail. A provider of which
    /// nothing is to be said may do either.
    open spec fn may_destroy(&self, sandbox_id: Seq<char>, gone: bool) -> bool {
        true
    }

    /// Creates a sandbox.
    fn create(&self) -> (r: Result<SandboxHandle, String>)
        requires
            self.may_be_asked(),
        ensures
            self.may_create(creation_view(r)),
    ;

    /// Extends the life of a sandbox; a provider may have nothing to do.
    fn keepalive(&self, sandbox_id: &str) -> (r: Result<(), String>)
        default_ensures
            r is Ok,
    {
        Ok(())
    }

    /// Destroys a sandbox.
    fn destroy(&self, sandbox_id: &str) -> (r: Result<(), String>)
        requires
            self.may_be_told_to_destroy(sandbox_id@),
        ensures
            self.may_destroy(sandbox_id@, r is Ok),
    ;
}

/// Whether a provider always succeeds in creating a sandbox.
pub open spec fn always_creates<S: SandboxProvider>(provider: &S) -> bool {
    forall|r: Result<SandboxHandleView, Seq<char>>| #[trigger] provider.may_create(r) ==> r is Ok
}

/// The key of the step that creates the sandbox.
pub const PROVISION_STEP: &'static str = "provision_sandbox";

/// Whether a resource is a sandbox in use.
pub open spec fn sandbox_in_use(resource: ResourceView) -> bool {
    resource.kind is CodeSandbox && resource.status is Active
}

/// The id of the sandbox that a resource leases, where it is a sandbox in use and
/// its metadata names one.
pub open spec fn sandbox_id_of(resource: ResourceView) -> Option<Seq<char>> {
    if sandbox_in_use(resource) {
        resource.metadata.member_text("sandbox_id"@)
    } else {
        None
    }
}

/// Whether the run `id` holds a lease on the sandbox `sandbox`.
pub open spec fn holds_sandbox(store: Store, id: RunId, sandbox: Seq<char>) -> bool {
    exists|k: u128| #[trigger]
        store.resources.contains_key(k) && store.resources[k].run_id == id && sandbox_id_of(
            store.resources[k],
        ) == Some(sandbox)
}

/// Whether the run `id` holds a lease on some sandbox that it can attach to.
pub open spec fn attached(store: Store, id: RunId) -> bool {
    exists|sandbox: Seq<char>| #[trigger] holds_sandbox(store, id, sandbox)
}

/// Whether provisioning a sandbox for the run `id` asks the provider for one: the run holds
/// none, and the creation of none is journaled.
pub open spec fn to_be_created(store: Store, id: RunId) -> bool {
    !attached(store, id) && memo(store, id, PROVISION_STEP@) is None
}

/// Whether `delay` is a pause between two attempts to create a sandbox.
pub open spec fn creation_pauses_for(delay: Duration) -> bool {
    RetryPolicy::standard().pauses_for(delay)
}

/// The store after the sandbox that the journaled document `doc` stands for has
/// been leased to the run `id`, with its connection details.
pub open spec fn sandbox_leased(
    store: Store,
    id: RunId,
    doc: JsonView,
    resource_id: ResourceId,
    at: Timestamp,
) -> Store {
    resource_leased(
        store,
        leased(
            resource_id,
            id,
            ResourceKind::CodeSandbox,
            SandboxHandleView::of_journal(doc)->0.lease_metadata(),
            None,
            at,
        ),
        at,
    )
}

/// Whether provisioning a sandbox for the run `id`, which holds none, turns `before`
/// into `after` and gives the id `sandbox`: the step that creates it gives its
/// handle, and its lease is recorded with the connection details.
pub open spec fn provisioned(
    before: Store,
    id: RunId,
    sandbox: Seq<char>,
    after: Store,
) -> bool {
    exists|doc: JsonView| #[trigger] provisioned_as(before, id, doc, sandbox, after)
}

/// Whether provisioning a sandbox for the run `id` turns `before` into `after` and gives the
/// id `sandbox`, where the step that creates it gives its handle as the journaled document
/// `doc`.
pub open spec fn provisioned_as(
    before: Store,
    id: RunId,
    doc: JsonView,
    sandbox: Seq<char>,
    after: Store,
) -> bool {
    exists|mid: Store, resource_id: ResourceId, at: Timestamp|
        {
            &&& #[trigger] stepped(before, id, PROVISION_STEP@, doc, mid)
            &&& time_ordered(resource_id.value)
            &&& SandboxHandleView::of_journal(doc) is Some
            &&& SandboxHandleView::of_journal(doc)->0.id == sandbox
            &&& after == #[trigger] sandbox_leased(mid, id, doc, resource_id, at)
        }
}

/// Whether `doc` is the journaled handle of a sandbox that a provider may create.
pub open spec fn handle_of<S: SandboxProvider>(provider: &S, doc: JsonView) -> bool {
    exists|handle: SandboxHandleView|
        #[trigger] provider.may_create(Ok::<SandboxHandleView, Seq<char>>(handle)) && doc
            == handle.journaled()
}

/// Whether provisioning a sandbox for the run `id`, whose creation is not journaled, turns
/// `before` into `after` and gives the id `sandbox`: a handle that the provider may give is
/// journaled as it is, and leased with its connection details.
pub open spec fn provisioned_by<S: SandboxProvider>(
    provider: &S,
    before: Store,
    id: RunId,
    sandbox: Seq<char>,
    after: Store,
) -> bool {
    exists|doc: JsonView|
        {
            &&& #[trigger] provisioned_as(before, id, doc, sandbox, after)
            &&& handle_of(provider, doc)
        }
}

/// The attempts that failed with `messages`.
pub open spec fn failures(messages: Seq<Seq<char>>) -> Seq<Result<JsonView, Seq<char>>> {
    messages.map_values(|message: Seq<char>| Err::<JsonView, Seq<char>>(message))
}

/// Whether the attempts to create a sandbox for the run `id` may all fail with `messages`
/// and leave `after`: the step failed.
pub open spec fn creation_failed<S: SandboxProvider>(
    provider: &S,
    before: Store,
    id: RunId,
    messages: Seq<Seq<char>>,
    start: Timestamp,
    end: Timestamp,
    after: Store,
) -> bool {
    &&& messages.len() == 3
    &&& forall|i: int|
        0 <= i < messages.len() ==> provider.may_create(
            Err::<SandboxHandleView, Seq<char>>(#[trigger] messages[i]),
        )
    &&& after == step_ran(before, id, PROVISION_STEP@, failures(messages), start, end)
}

/// Whether no sandbox could be created for the run `id`, of which `error` tells: the
/// provider failed three times.
pub open spec fn not_created<S: SandboxProvider>(
    provider: &S,
    before: Store,
    id: RunId,
    error: ErrorView,
    after: Store,
) -> bool {
    exists|messages: Seq<Seq<char>>, start: Timestamp, end: Timestamp|
        {
            &&& #[trigger] creation_failed(provider, before, id, messages, start, end, after)
            &&& error == (ErrorView::StepExhausted {
                key: PROVISION_STEP@,
                attempts: 3,
                message: messages.last(),
            })
        }
}

/// The place of the first resource that leases a sandbox to attach to.
fn find_attached(list: &Vec<Resource>) -> (r: Option<usize>)
    ensures
        match r {
            Some(i) => i < list@.len() && sandbox_id_of(list@[i as int]@) is Some,
            None => forall|i: int|
                0 <= i < list@.len() ==> sandbox_id_of((#[trigger] list@[i])@) is None,
        },
{
    let mut i: usize = 0;
    while i < list.len()
        invariant
            i <= list@.len(),
            forall|j: int| 0 <= j < i ==> sandbox_id_of((#[trigger] list@[j])@) is None,
        decreases list@.len() - i,
    {
        if list[i].kind == ResourceKind::CodeSandbox && list[i].status == ResourceStatus::Active {
            if let Some(_) = list[i].metadata.get_str("sandbox_id") {
                return Some(i);
            }
        }
        i = i + 1;
    }
    None
}

/// Whether a creation by a provider may give `r`, the handle journaled.
pub open spec fn created_by<S: SandboxProvider>(provider: &S, r: Result<Json, String>) -> bool {
    match r {
        Ok(doc) => handle_of(provider, doc@),
        Err(message) => provider.may_create(Err::<SandboxHandleView, Seq<char>>(message@)),
    }
}

/// Provisions a sandbox for the run of `ctx`, durably. A run that holds a lease on a
/// sandbox attaches to it again and gets its id. Else the provider creates one
/// inside a memoized step, and it is leased. Across crashes and retries a sandbox
/// whose creation was journaled is never created again: the provider and `pause` are then
/// left alone, and nothing is asked of them.
pub fn provision_sandbox<B: Backend, S: SandboxProvider, P: Fn(Duration)>(
    ctx: &mut RunContext<B>,
    provider: &S,
    pause: P,
) -> (r: Result<String, Error>)
    requires
        old(ctx).inv(),
        to_be_created(old(ctx).store(), old(ctx).id()) ==> provider.may_be_asked(),
        to_be_created(old(ctx).store(), old(ctx).id()) ==> forall|delay: Duration|
            creation_pauses_for(delay) ==> #[trigger] call_requires(pause, (delay,)),
    ensures
        final(ctx).same_turn(old(ctx)),
        attached(old(ctx).store(), old(ctx).id()) ==> {
            &&& final(ctx).store() == old(ctx).store()
            &&& old(ctx).reliable() ==> r is Ok
            &&& r matches Ok(sandbox) ==> holds_sandbox(
                old(ctx).store(),
                old(ctx).id(),
                sandbox@,
            )
        },
        !attached(old(ctx).store(), old(ctx).id()) ==> (r matches Ok(sandbox) ==> provisioned(
            old(ctx).store(),
            old(ctx).id(),
            sandbox@,
            final(ctx).store(),
        )),
        !attached(old(ctx).store(), old(ctx).id()) ==> match memo(
            old(ctx).store(),
            old(ctx).id(),
            PROVISION_STEP@,
        ) {
            Some(doc) => old(ctx).reliable() ==> match r {
                Ok(_) => SandboxHandleView::of_journal(doc) is Some,
                Err(e) => {
                    &&& SandboxHandleView::of_journal(doc) is None
                    &&& e is Serde
                    &&& final(ctx).store() == old(ctx).store()
                },
            },
            None => match r {
                Ok(sandbox) => provisioned_by(
                    provider,
                    old(ctx).store(),
                    old(ctx).id(),
                    sandbox@,
                    final(ctx).store(),
                ),
                Err(e) => old(ctx).reliable() ==> not_created(
                    provider,
                    old(ctx).store(),
                    old(ctx).id(),
                    e@,
                    final(ctx).store(),
                ),
            },
        },
        memo(old(ctx).store(), old(ctx).id(), PROVISION_STEP@) is None && old(ctx).reliable()
            && always_creates(provider) ==> r is Ok,
{
    let ghost before = ctx.store();
    let ghost id = ctx.id();
    let list: Vec<Resource> = match ctx.resources() {
        Ok(list) => list,
        Err(e) => return Err(e),
    };
    if let Some(i) = find_attached(&list) {
        proof {
            assert(views(list@)[i as int] == list@[i as int]@);
            assert(before.resources.contains_key(list@[i as int].id.value));
            let sandbox = sandbox_id_of(list@[i as int]@)->0;
            assert(holds_sandbox(before, id, sandbox));
        }
        if let Some(text) = list[i].metadata.get_str("sandbox_id") {
            return Ok(text.to_owned());
        }
    }
    proof {
        if attached(before, id) {
            let sandbox = choose|sandbox: Seq<char>| #[trigger] holds_sandbox(before, id, sandbox);
            let k = choose|k: u128| #[trigger]
                before.resources.contains_key(k) && before.resources[k].run_id == id
                    && sandbox_id_of(before.resources[k]) == Some(sandbox);
            assert(views(list@).contains(before.resources[k]));
            let i = choose|i: int|
                0 <= i < views(list@).len() && views(list@)[i] == before.resources[k];
            assert(list@[i]@ == before.resources[k]);
        }
    }
    let create = || -> (r: Result<Json, String>)
        requires
            provider.may_be_asked(),
        ensures
            created_by(provider, r),
        {
            match provider.create() {
                Ok(handle) => {
                    proof {
                        assert(provider.may_create(Ok::<SandboxHandleView, Seq<char>>(handle@)));
                        assert(handle_of(provider, handle@.journaled()));
                    }
                    Ok(handle.to_journal())
                },
                Err(message) => {
                    proof {
                        assert(provider.may_create(
                            Err::<SandboxHandleView, Seq<char>>(message@),
                        ));
                    }
                    Err(message)
                },
            }
        };
    let step: Result<Json, Error> = ctx.durable_step(
        PROVISION_STEP,
        RetryPolicy::default(),
        create,
        pause,
    );
    let ghost mid = ctx.store();
    proof {
        if memo(before, id, PROVISION_STEP@) is None && (step is Ok || ctx.reliable()) {
            let (results, start, end) = choose|
                results: Seq<Result<Json, String>>,
                start: Timestamp,
                end: Timestamp,
            |
                {
                    &&& forall|i: int|
                        0 <= i < results.len() ==> call_ensures(
                            create,
                            (),
                            #[trigger] results[i],
                        )
                    &&& tried(outcomes(results), 3)
                    &&& mid == #[trigger] step_ran(
                        before,
                        id,
                        PROVISION_STEP@,
                        outcomes(results),
                        start,
                        end,
                    )
                    &&& step_result(step, PROVISION_STEP@, outcomes(results))
                };
            let last = results[results.len() - 1];
            assert(outcomes(results).last() == outcome(last));
            assert(call_ensures(create, (), last));
            assert(created_by(provider, last));
            if step is Ok {
                let doc = step->Ok_0@;
                assert(outcomes(results).last() == Ok::<JsonView, Seq<char>>(doc));
                assert(last is Ok && last->Ok_0@ == doc);
                assert(handle_of(provider, doc));
                let handle = choose|handle: SandboxHandleView|
                    #[trigger] provider.may_create(Ok::<SandboxHandleView, Seq<char>>(handle))
                        && doc == handle.journaled();
                handle_journal_round_trip(handle);
            } else {
                let messages = Seq::new(results.len(), |i: int| results[i]->Err_0@);
                assert(results.len() == 3);
                assert forall|i: int| 0 <= i < results.len() implies (#[trigger] results[i]) is Err
                    && provider.may_create(
                    Err::<SandboxHandleView, Seq<char>>(messages[i]),
                ) by {
                    assert(outcomes(results)[i] is Err);
                    assert(call_ensures(create, (), results[i]));
                    assert(created_by(provider, results[i]));
                }
                assert forall|i: int| 0 <= i < messages.len() implies provider.may_create(
                    Err::<SandboxHandleView, Seq<char>>(#[trigger] messages[i]),
                ) by {
                    assert(results[i] is Err);
                }
                assert(failures(messages) =~= outcomes(results)) by {
                    assert forall|i: int| 0 <= i < results.len() implies #[trigger] failures(
                        messages,
                    )[i] == outcomes(results)[i] by {
                        assert(results[i] is Err);
                    }
                }
                assert(creation_failed(provider, before, id, messages, start, end, mid));
                assert(messages.last() == last->Err_0@);
            }
        }
    }
    let doc: Json = match step {
        Ok(doc) => doc,
        Err(e) => return Err(e),
    };
    let handle: SandboxHandle = match SandboxHandle::from_journal(&doc) {
        Ok(handle) => handle,
        Err(e) => return Err(e),
    };
    let sandbox: String = handle.id;
    let metadata: Json = handle.metadata.with("sandbox_id", Json::String(sandbox.clone()));
    let ghost details = metadata@;
    match ctx.lease_resource(ResourceKind::CodeSandbox, metadata, None) {
        Ok(new) => {
            proof {
                let at = choose|at: Timestamp|
                    #![trigger leased(new, id, ResourceKind::CodeSandbox, details, None, at)]
                    time_ordered(new.value) && ctx.store() == resource_leased(
                        mid,
                        leased(new, id, ResourceKind::CodeSandbox, details, None, at),
                        at,
                    );
                assert(ctx.store() == sandbox_leased(mid, id, doc@, new, at));
                assert(provisioned_as(before, id, doc@, sandbox@, ctx.store()));
            }
            Ok(sandbox)
        },
        Err(e) => Err(e),
    }
}

/// The sandbox in use that is leased to the run of `ctx`, if there is one.
pub fn sandbox_resource<B: Backend>(ctx: &RunContext<B>) -> (r: Result<Option<Resource>, Error>)
    requires
        ctx.inv(),
    ensures
        match r {
            Ok(found) => found_sandbox(ctx.store(), ctx.id(), found),
            Err(_) => !ctx.reliable(),
        },
{
    sandbox_resource_of(ctx.backend(), ctx.run_id())
}

/// Whether `found` is a sandbox in use that is leased to the run `id`, or there is
/// none.
pub open spec fn found_sandbox(store: Store, id: RunId, found: Option<Resource>) -> bool {
    match found {
        Some(resource) => {
            &&& store.resources.contains_key(resource.id.value)
            &&& store.resources[resource.id.value] == resource@
            &&& resource.run_id == id
            &&& sandbox_in_use(resource@)
        },
        None => forall|k: u128| #[trigger]
            store.resources.contains_key(k) && store.resources[k].run_id == id
                ==> !sandbox_in_use(store.resources[k]),
    }
}

/// The sandbox in use that is leased to the run `run_id`, read from the backend. It
/// lets a child run use a sandbox that its parent holds the lease on.
pub fn sandbox_resource_of<B: Backend>(backend: &B, run_id: RunId) -> (r: Result<
    Option<Resource>,
    Error,
>)
    requires
        backend.inv(),
    ensures
        match r {
            Ok(found) => found_sandbox(backend.store(), run_id, found),
            Err(_) => !backend.reliable(),
        },
{
    let list: Vec<Resource> = match backend.list_resources(run_id) {
        Ok(list) => list,
        Err(e) => return Err(e),
    };
    let mut i: usize = 0;
    while i < list.len()
        invariant
            i <= list@.len(),
            backend.store().lists_resources(run_id, views(list@)),
            forall|j: int| 0 <= j < i ==> !sandbox_in_use((#[trigger] list@[j])@),
        decreases list@.len() - i,
    {
        if list[i].kind == ResourceKind::CodeSandbox && list[i].status == ResourceStatus::Active {
            proof {
                assert(views(list@)[i as int] == list@[i as int]@);
            }
            return Ok(Some(list[i].clone()));
        }
        i = i + 1;
    }
    proof {
        let store = backend.store();
        assert forall|k: u128| #[trigger]
            store.resources.contains_key(k) && store.resources[k].run_id
                == run_id implies !sandbox_in_use(store.resources[k]) by {
            assert(views(list@).contains(store.resources[k]));
            let j = choose|j: int|
                0 <= j < views(list@).len() && views(list@)[j] == store.resources[k];
            assert(list@[j]@ == store.resources[k]);
        }
    }
    Ok(None)
}

/// Whether `before` and `after` differ in the resources and the log alone.
pub open spec fn only_leases_and_log(before: Store, after: Store) -> bool {
    after == (Store { resources: after.resources, events: after.events, ..before })
}

/// The store after the run `id` has reaped the resources in `list`, in this order: of those
/// that are sandboxes in use with an id, the leases whose destruction succeeded, as `gone`
/// tells, are released, each with an event at its time in `times`.
pub open spec fn after_reaping(
    store: Store,
    id: RunId,
    list: Seq<ResourceView>,
    gone: Seq<bool>,
    times: Seq<Timestamp>,
) -> Store
    decreases list.len(),
{
    if list.len() == 0 {
        store
    } else {
        let so_far = after_reaping(
            store,
            id,
            list.drop_last(),
            gone.drop_last(),
            times.drop_last(),
        );
        if sandbox_id_of(list.last()) is Some && gone.last() {
            resource_released(so_far, id, list.last().id, times.last())
        } else {
            so_far
        }
    }
}

/// Whether a provider may make of the destruction of the sandboxes in `list` what `gone`
/// tells.
pub open spec fn may_reap<S: SandboxProvider>(
    provider: &S,
    list: Seq<ResourceView>,
    gone: Seq<bool>,
) -> bool {
    &&& gone.len() == list.len()
    &&& forall|i: int|
        0 <= i < list.len() ==> (sandbox_id_of(#[trigger] list[i]) matches Some(sandbox)
            ==> provider.may_destroy(sandbox, gone[i]))
}

/// Whether reaping for the run `id`, with nothing failing but destructions, turns `before`
/// into `after`: its resources, each once, are gone through in some order.
pub open spec fn reaped_by<S: SandboxProvider>(
    provider: &S,
    before: Store,
    id: RunId,
    after: Store,
) -> bool {
    exists|list: Seq<ResourceView>, gone: Seq<bool>, times: Seq<Timestamp>|
        {
            &&& before.lists_resources(id, list)
            &&& may_reap(provider, list, gone)
            &&& times.len() == list.len()
            &&& after == #[trigger] after_reaping(before, id, list, gone, times)
        }
}

/// Settles one reaping: where the sandbox is gone the lease on it is released; where
/// destroying it failed the lease stays, so that a later reaping tries again. To
/// release it then would lose the only handle to a machine that still costs.
pub fn settle_reap<B: Backend>(
    ctx: &mut RunContext<B>,
    id: ResourceId,
    destroyed: &Result<(), String>,
) -> (r: Result<(), Error>)
    requires
        old(ctx).inv(),
    ensures
        final(ctx).same_turn(old(ctx)),
        old(ctx).reliable() ==> r is Ok,
        destroyed is Err ==> r is Ok && final(ctx).store() == old(ctx).store(),
        destroyed is Ok && r is Ok ==> exists|at: Timestamp|
            final(ctx).store() == #[trigger] resource_released(
                old(ctx).store(),
                old(ctx).id(),
                id,
                at,
            ),
        ({
            ||| final(ctx).store().resources == old(ctx).store().resources
            ||| final(ctx).store().resources == old(ctx).store().release(id).resources
        }),
        only_leases_and_log(old(ctx).store(), final(ctx).store()),
{
    match destroyed {
        Ok(_) => ctx.release_resource(id),
        Err(_) => Ok(()),
    }
}

/// Whether reaping for the run `id` may turn the resources of `before` into those of
/// `after`: each is as it was, or it was a sandbox in use with an id, leased to the
/// run, and is now released.
pub open spec fn reaped(before: Store, id: RunId, after: Store) -> bool {
    &&& after.resources.dom() == before.resources.dom()
    &&& forall|k: u128| #[trigger]
        before.resources.contains_key(k) ==> after.resources[k] == before.resources[k] || (
        before.resources[k].run_id == id && sandbox_id_of(before.resources[k]) is Some
            && after.resources[k] == (ResourceView {
            status: ResourceStatus::Released,
            ..before.resources[k]
        }))
}

/// Whether reaping turns a resource of the run into `after`: a sandbox in use is destroyed,
/// and its lease released where that succeeds; anything else is left alone.
pub open spec fn settled_lease<S: SandboxProvider>(
    provider: &S,
    before: ResourceView,
    after: ResourceView,
) -> bool {
    match sandbox_id_of(before) {
        Some(sandbox) => {
            ||| provider.may_destroy(sandbox, true) && after == (ResourceView {
                status: ResourceStatus::Released,
                ..before
            })
            ||| provider.may_destroy(sandbox, false) && after == before
        },
        None => after == before,
    }
}

/// Destroys the sandboxes leased to the run of `ctx` and releases their leases. Call
/// it on teardown only: the creation stays memoized, so provisioning again within
/// the same run would give the id of the destroyed sandbox. No sandbox that the run does
/// not hold is destroyed: the provider need not allow it.
pub fn reap_sandboxes<B: Backend, S: SandboxProvider>(
    ctx: &mut RunContext<B>,
    provider: &S,
) -> (r: Result<(), Error>)
    requires
        old(ctx).inv(),
        forall|sandbox: Seq<char>| #[trigger]
            holds_sandbox(old(ctx).store(), old(ctx).id(), sandbox)
                ==> provider.may_be_told_to_destroy(sandbox),
    ensures
        final(ctx).same_turn(old(ctx)),
        old(ctx).reliable() ==> r is Ok,
        reaped(old(ctx).store(), old(ctx).id(), final(ctx).store()),
        only_leases_and_log(old(ctx).store(), final(ctx).store()),
        r is Ok ==> reaped_by(provider, old(ctx).store(), old(ctx).id(), final(ctx).store()),
        r is Ok ==> forall|k: u128| #[trigger]
            old(ctx).store().resources.contains_key(k) && old(ctx).store().resources[k].run_id
                == old(ctx).id() ==> settled_lease(
                provider,
                old(ctx).store().resources[k],
                final(ctx).store().resources[k],
            ),
{
    let ghost before = ctx.store();
    let ghost id = ctx.id();
    let list: Vec<Resource> = match ctx.resources() {
        Ok(list) => list,
        Err(e) => return Err(e),
    };
    proof {
        ctx.model();
        ctx.backend.inv_gives_wf();
        assert forall|j: int| 0 <= j < list@.len() implies before.resources[(
        #[trigger] list@[j]).id.value] == list@[j]@ by {
            assert(views(list@)[j] == list@[j]@);
        }
    }
    let ghost mut gone: Seq<bool> = Seq::empty();
    let ghost mut times: Seq<Timestamp> = Seq::empty();
    proof {
        assert(views(list@).take(0) =~= Seq::<ResourceView>::empty());
    }
    let mut i: usize = 0;
    while i < list.len()
        invariant
            i <= list@.len(),
            before == old(ctx).store(),
            id == old(ctx).id(),
            before.wf(),
            forall|sandbox: Seq<char>| #[trigger]
                holds_sandbox(before, id, sandbox) ==> provider.may_be_told_to_destroy(sandbox),
            times.len() == i,
            may_reap(provider, views(list@).take(i as int), gone),
            ctx.store() == after_reaping(before, id, views(list@).take(i as int), gone, times),
            only_leases_and_log(before, ctx.store()),
            before.lists_resources(id, views(list@)),
            ctx.same_turn(old(ctx)),
            reaped(before, id, ctx.store()),
            forall|j: int|
                0 <= j < i ==> settled_lease(
                    provider,
                    (#[trigger] list@[j])@,
                    ctx.store().resources[list@[j].id.value],
                ),
            forall|j: int|
                i <= j < list@.len() ==> ctx.store().resources[(#[trigger] list@[j]).id.value]
                    == list@[j]@,
        decreases list@.len() - i,
    {
        let ghost here = ctx.store();
        let ghost mut fate: bool = false;
        let ghost mut time: Timestamp = Timestamp { nanos: 0 };
        proof {
            assert(views(list@)[i as int] == list@[i as int]@);
            assert forall|j: int| 0 <= j < list@.len() && j != i implies (
            #[trigger] list@[j]).id != list@[i as int].id by {
                assert(views(list@)[j] == list@[j]@);
                assert(views(list@)[i as int] == list@[i as int]@);
            }
        }
        if list[i].kind == ResourceKind::CodeSandbox && list[i].status == ResourceStatus::Active {
            if let Some(sandbox) = list[i].metadata.get_str("sandbox_id") {
                proof {
                    assert(before.resources.contains_key(list@[i as int].id.value));
                    assert(holds_sandbox(before, id, sandbox@));
                }
                let destroyed: Result<(), String> = provider.destroy(sandbox);
                let r: Result<(), Error> = settle_reap(ctx, list[i].id, &destroyed);
                proof {
                    let k = list@[i as int].id.value;
                    assert(before.resources.contains_key(k));
                    assert(ctx.store().resources.dom() =~= before.resources.dom());
                    assert(sandbox_id_of(list@[i as int]@) == Some(sandbox@));
                    if r is Ok {
                        if destroyed is Ok {
                            let at = choose|at: Timestamp|
                                ctx.store() == #[trigger] resource_released(
                                    here,
                                    id,
                                    list@[i as int].id,
                                    at,
                                );
                            assert(ctx.store().resources == here.release(
                                list@[i as int].id,
                            ).resources);
                            assert(provider.may_destroy(sandbox@, true));
                            fate = true;
                            time = at;
                        } else {
                            assert(provider.may_destroy(sandbox@, false));
                        }
                        assert(settled_lease(
                            provider,
                            list@[i as int]@,
                            ctx.store().resources[k],
                        ));
                    }
                }
                match r {
                    Ok(_) => {},
                    Err(e) => return Err(e),
                }
            }
        }
        proof {
            let all = views(list@);
            let more = all.take(i + 1);
            let later = gone.push(fate);
            assert(more.drop_last() =~= all.take(i as int));
            assert(later.drop_last() =~= gone);
            assert(times.push(time).drop_last() =~= times);
            assert forall|j: int| 0 <= j < more.len() implies (sandbox_id_of(
                #[trigger] more[j],
            ) matches Some(sandbox) ==> provider.may_destroy(sandbox, later[j])) by {
                if j < i {
                    assert(all.take(i as int)[j] == more[j]);
                    assert(later[j] == gone[j]);
                }
            }
            assert(more.last() == list@[i as int]@);
            gone = later;
            times = times.push(time);
        }
        i = i + 1;
    }
    proof {
        assert(views(list@).take(i as int) =~= views(list@));
        assert(reaped_by(provider, before, id, ctx.store()));
        let after = ctx.store();
        assert forall|k: u128| #[trigger]
            before.resources.contains_key(k) && before.resources[k].run_id
                == id implies settled_lease(provider, before.resources[k], after.resources[k]) by {
            assert(views(list@).contains(before.resources[k]));
            let j = choose|j: int|
                0 <= j < views(list@).len() && views(list@)[j] == before.resources[k];
            assert(list@[j]@ == before.resources[k]);
            assert(before.resources.contains_key(list@[j].id.value));
            assert(list@[j].id.value == k);
        }
    }
    Ok(())
}

/// A provisioned sandbox is held: provisioning again attaches to it and creates
/// nothing.
pub proof fn a_provisioned_sandbox_is_held(
    before: Store,
    id: RunId,
    sandbox: Seq<char>,
    after: Store,
)
    requires
        provisioned(before, id, sandbox, after),
    ensures
        holds_sandbox(after, id, sandbox),
        attached(after, id),
{
    let doc = choose|doc: JsonView| #[trigger] provisioned_as(before, id, doc, sandbox, after);
    let (mid, resource_id, at) = choose|mid: Store, resource_id: ResourceId, at: Timestamp|
        {
            &&& #[trigger] stepped(before, id, PROVISION_STEP@, doc, mid)
            &&& time_ordered(resource_id.value)
            &&& SandboxHandleView::of_journal(doc) is Some
            &&& SandboxHandleView::of_journal(doc)->0.id == sandbox
            &&& after == #[trigger] sandbox_leased(mid, id, doc, resource_id, at)
        };
    assert(after.resources.contains_key(resource_id.value));
    assert(sandbox_id_of(after.resources[resource_id.value]) == Some(sandbox));
    assert(holds_sandbox(after, id, sandbox));
}

/// A new lease keeps what a recovering worker needs: the provider's connection details as
/// they are, with the id. It is the only resource that provisioning adds, and it does not
/// expire.
pub proof fn a_new_lease_keeps_the_connection_details<S: SandboxProvider>(
    provider: &S,
    before: Store,
    id: RunId,
    sandbox: Seq<char>,
    after: Store,
)
    requires
        memo(before, id, PROVISION_STEP@) is None,
        provisioned_by(provider, before, id, sandbox, after),
    ensures
        exists|handle: SandboxHandleView, k: u128|
            {
                &&& #[trigger] provider.may_create(Ok::<SandboxHandleView, Seq<char>>(handle))
                &&& handle.id == sandbox
                &&& #[trigger] after.resources.contains_key(k)
                &&& after.resources == before.resources.insert(k, after.resources[k])
                &&& after.resources[k].run_id == id
                &&& after.resources[k].kind is CodeSandbox
                &&& after.resources[k].status is Active
                &&& after.resources[k].lease_expires_at is None
                &&& after.resources[k].metadata == handle.metadata.with(
                    "sandbox_id"@,
                    JsonView::String(handle.id),
                )
            },
{
    let doc = choose|doc: JsonView|
        {
            &&& #[trigger] provisioned_as(before, id, doc, sandbox, after)
            &&& handle_of(provider, doc)
        };
    let handle = choose|handle: SandboxHandleView|
        #[trigger] provider.may_create(Ok::<SandboxHandleView, Seq<char>>(handle)) && doc
            == handle.journaled();
    handle_journal_round_trip(handle);
    let (mid, resource_id, at) = choose|mid: Store, resource_id: ResourceId, at: Timestamp|
        {
            &&& #[trigger] stepped(before, id, PROVISION_STEP@, doc, mid)
            &&& time_ordered(resource_id.value)
            &&& SandboxHandleView::of_journal(doc) is Some
            &&& SandboxHandleView::of_journal(doc)->0.id == sandbox
            &&& after == #[trigger] sandbox_leased(mid, id, doc, resource_id, at)
        };
    assert(mid.resources == before.resources);
    let k = resource_id.value;
    assert(after.resources.contains_key(k));
    assert(after.resources =~= before.resources.insert(k, after.resources[k]));
    assert(provider.may_create(Ok::<SandboxHandleView, Seq<char>>(handle)));
}

/// A sandbox whose creation is journaled is never created again: provisioning gives
/// the journaled id, also after the lease is gone.
pub proof fn a_journaled_sandbox_is_not_created_again(
    before: Store,
    id: RunId,
    doc: JsonView,
    sandbox: Seq<char>,
    after: Store,
)
    requires
        memo(before, id, PROVISION_STEP@) == Some(doc),
        provisioned(before, id, sandbox, after),
    ensures
        SandboxHandleView::of_journal(doc) is Some,
        SandboxHandleView::of_journal(doc)->0.id == sandbox,
        after.steps == before.steps,
{
}

} // verus!
