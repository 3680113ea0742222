//! What sandboxes, the commands in them and their files promise.

use vstd::prelude::*;

use crate::bridge::{
    attach, call_error, call_outcome, collect_event, collect_from, collected, command_outcome,
    data_in, doc_in, end_in, env_doc, frame_event, int32_in, opt_piece, piece, refusal, size_in,
    start_doc, stream_error, Collected, E2bSandboxView, EntryInfo, ProcessEventView,
};
use crate::codec::{base64_padded, base64_unpadded, utf8_lossy};
use crate::digits::integer_of;
use crate::driver::{memo, stepped};
use crate::e2b::{creation_outcome, CreatedSandboxView};
use crate::envelope::{enveloped, frames, FrameView};
use crate::error::ErrorView;
use crate::ids::{ResourceId, RunId};
use crate::json::{JsonView, NumberView};
use crate::resource::{ResourceStatus, ResourceView};
use crate::sandbox::{
    after_reaping, holds_sandbox, provisioned, sandbox_id_of, sandbox_in_use, settled_lease,
    to_be_created, SandboxHandleView, SandboxProvider, PROVISION_STEP,
};
use crate::store::Store;
use crate::text::decimal;
use crate::time::Timestamp;
use crate::wire::json_parsed;

verus! {

// ---- provisioning and reaping --------------------------------------------------

/// Whether a resource is an active sandbox with the id `sandbox`.
pub open spec fn active_sandbox(resource: ResourceView, sandbox: Seq<char>) -> bool {
    &&& resource.kind is CodeSandbox
    &&& resource.status is Active
    &&& resource.metadata.member("sandbox_id"@) == Some(JsonView::String(sandbox))
}

/// A run holds a sandbox exactly where an active lease of it has that sandbox's id in its
/// metadata.
pub proof fn a_run_holds_what_it_leases(store: Store, id: RunId, sandbox: Seq<char>)
    ensures
        holds_sandbox(store, id, sandbox) <==> exists|k: u128|
            {
                &&& #[trigger] store.resources.contains_key(k)
                &&& store.resources[k].run_id == id
                &&& active_sandbox(store.resources[k], sandbox)
            },
        forall|k: u128| #[trigger]
            store.resources.contains_key(k) ==> (sandbox_in_use(store.resources[k]) <==>
                store.resources[k].kind is CodeSandbox && store.resources[k].status is Active),
{
    if holds_sandbox(store, id, sandbox) {
        let k = choose|k: u128| #[trigger]
            store.resources.contains_key(k) && store.resources[k].run_id == id && sandbox_id_of(
                store.resources[k],
            ) == Some(sandbox);
        assert(active_sandbox(store.resources[k], sandbox));
    }
    if exists|k: u128|
        {
            &&& #[trigger] store.resources.contains_key(k)
            &&& store.resources[k].run_id == id
            &&& active_sandbox(store.resources[k], sandbox)
        } {
        let k = choose|k: u128|
            {
                &&& #[trigger] store.resources.contains_key(k)
                &&& store.resources[k].run_id == id
                &&& active_sandbox(store.resources[k], sandbox)
            };
        assert(sandbox_id_of(store.resources[k]) == Some(sandbox));
    }
}

/// A provider is asked for a sandbox only where the run holds none and no creation is
/// journaled: not for a run that has one, and not again after a crash.
pub proof fn a_sandbox_is_created_once(store: Store, id: RunId, sandbox: Seq<char>)
    ensures
        holds_sandbox(store, id, sandbox) ==> !to_be_created(store, id),
        store.steps.contains_key((id.value, PROVISION_STEP@)) && store.steps[(
            id.value,
            PROVISION_STEP@,
        )].status is Completed ==> !to_be_created(store, id),
        (forall|other: Seq<char>| !(#[trigger] holds_sandbox(store, id, other)))
            && !store.steps.contains_key((id.value, PROVISION_STEP@)) ==> to_be_created(store, id),
{
}

/// A run that is given a sandbox has it journaled and leased: the journal's document gives the
/// sandbox's id, and one new lease that is active and does not expire holds the id.
pub proof fn a_provisioned_sandbox_is_journaled_and_leased(
    before: Store,
    id: RunId,
    sandbox: Seq<char>,
    after: Store,
)
    requires
        provisioned(before, id, sandbox, after),
    ensures
        memo(after, id, PROVISION_STEP@) is Some,
        memo(after, id, PROVISION_STEP@)->0.member("id"@) == Some(JsonView::String(sandbox)),
        exists|k: u128|
            {
                &&& #[trigger] after.resources.contains_key(k)
                &&& after.resources[k].run_id == id
                &&& active_sandbox(after.resources[k], sandbox)
                &&& after.resources[k].lease_expires_at is None
                &&& after.resources == before.resources.insert(k, after.resources[k])
            },
{
    let doc = choose|doc: JsonView| #[trigger]
        crate::sandbox::provisioned_as(before, id, doc, sandbox, after);
    let (mid, resource_id, at) = choose|mid: Store, resource_id: ResourceId, at: Timestamp|
        {
            &&& #[trigger] stepped(before, id, PROVISION_STEP@, doc, mid)
            &&& crate::ids::time_ordered(resource_id.value)
            &&& SandboxHandleView::of_journal(doc) is Some
            &&& SandboxHandleView::of_journal(doc)->0.id == sandbox
            &&& after == #[trigger] crate::sandbox::sandbox_leased(mid, id, doc, resource_id, at)
        };
    super::steps::what_a_step_gives_is_memoized(before, id, PROVISION_STEP@, doc, mid);
    assert(mid.resources == before.resources);
    let k = resource_id.value;
    assert(after.resources.contains_key(k));
    assert(after.resources =~= before.resources.insert(k, after.resources[k]));
    assert(active_sandbox(after.resources[k], sandbox));
}

/// A sandbox that is destroyed has its lease released; one that cannot be destroyed keeps its
/// lease, so that it is tried again; what is no active sandbox is left alone.
pub proof fn a_lease_is_released_when_its_sandbox_is_destroyed<S: SandboxProvider>(
    provider: &S,
    before: ResourceView,
    sandbox: Seq<char>,
    after: ResourceView,
)
    requires
        settled_lease(provider, before, after),
    ensures
        after == before || after == (ResourceView { status: ResourceStatus::Released, ..before }),
        active_sandbox(before, sandbox) && !provider.may_destroy(sandbox, false) ==> after.status
            is Released,
        active_sandbox(before, sandbox) && !provider.may_destroy(sandbox, true) ==> after
            == before,
        !(before.kind is CodeSandbox && before.status is Active) ==> after == before,
        before.metadata.member_text("sandbox_id"@) is None ==> after == before,
{
}

/// Reaping goes through the leases of a run: each whose sandbox is destroyed is released and
/// logged, and each other one is left as it is. The leases must be different ones.
pub proof fn reaping_releases_what_was_destroyed(
    store: Store,
    id: RunId,
    list: Seq<ResourceView>,
    gone: Seq<bool>,
    times: Seq<Timestamp>,
    i: int,
)
    requires
        gone.len() == list.len(),
        times.len() == list.len(),
        store.lists_resources(id, list),
        0 <= i < list.len(),
    ensures
        ({
            let after = after_reaping(store, id, list, gone, times).resources[list[i].id.value];
            let sandbox = list[i].metadata.member_text("sandbox_id"@);
            let destroyed = list[i].kind is CodeSandbox && list[i].status is Active && sandbox
                is Some && gone[i];
            &&& destroyed ==> after == (ResourceView {
                status: ResourceStatus::Released,
                ..list[i]
            })
            &&& !destroyed ==> after == list[i]
        }),
{
    lemma_reaped_prefix(store, id, list, gone, times, list.len() as int, i);
    assert(list.take(list.len() as int) =~= list);
    assert(gone.take(list.len() as int) =~= gone);
    assert(times.take(list.len() as int) =~= times);
}

proof fn lemma_reaped_prefix(
    store: Store,
    id: RunId,
    list: Seq<ResourceView>,
    gone: Seq<bool>,
    times: Seq<Timestamp>,
    n: int,
    i: int,
)
    requires
        gone.len() == list.len(),
        times.len() == list.len(),
        store.lists_resources(id, list),
        0 <= i < list.len(),
        0 <= n <= list.len(),
    ensures
        ({
            let after = after_reaping(store, id, list.take(n), gone.take(n), times.take(n));
            &&& after.resources.dom() == store.resources.dom()
            &&& after.resources[list[i].id.value] == (if i < n && sandbox_id_of(list[i]) is Some
                && gone[i] {
                ResourceView { status: ResourceStatus::Released, ..list[i] }
            } else {
                list[i]
            })
        }),
    decreases n,
{
    assert(store.resources[list[i].id.value] == list[i]);
    if n > 0 {
        lemma_reaped_prefix(store, id, list, gone, times, n - 1, i);
        assert(list.take(n).drop_last() =~= list.take(n - 1));
        assert(gone.take(n).drop_last() =~= gone.take(n - 1));
        assert(times.take(n).drop_last() =~= times.take(n - 1));
        let last = list[n - 1];
        assert(store.resources.contains_key(last.id.value));
        if n - 1 != i {
            if n - 1 < i {
                assert(list[n - 1].id != list[i].id);
            } else {
                assert(list[i].id != list[n - 1].id);
            }
        }
        let so_far = after_reaping(
            store,
            id,
            list.take(n - 1),
            gone.take(n - 1),
            times.take(n - 1),
        );
        let after = after_reaping(store, id, list.take(n), gone.take(n), times.take(n));
        assert(after.resources.dom() =~= so_far.resources.dom());
    }
}

/// A handle's lease has the provider's details as they were, with the sandbox's id among them.
pub proof fn a_lease_has_the_details_and_the_id(handle: SandboxHandleView, name: Seq<char>)
    requires
        handle.metadata is Object,
    ensures
        handle.lease_metadata().member("sandbox_id"@) == Some(JsonView::String(handle.id)),
        name != "sandbox_id"@ ==> handle.lease_metadata().member(name) == handle.metadata.member(
            name,
        ),
{
}

// ---- the E2B service -----------------------------------------------------------

/// The reply to a creation: a refusal is an error that tells the status; else the sandbox that
/// the body describes, with its id, its domain and its token.
pub proof fn a_created_sandbox_is_what_the_reply_says(
    success: bool,
    status: Seq<char>,
    body: Seq<u8>,
)
    ensures
        ({
            let made = creation_outcome(success, status, Ok::<Seq<u8>, Seq<char>>(body));
            &&& !success ==> made == Err::<CreatedSandboxView, Seq<char>>(
                "e2b create failed: HTTP "@ + status,
            )
            &&& made matches Ok(created) ==> success && (json_parsed(body) matches Ok(doc) && {
                &&& doc.member("sandboxID"@) == Some(JsonView::String(created.sandbox_id))
                &&& created.domain matches Some(domain) ==> doc.member("domain"@) == Some(
                    JsonView::String(domain),
                )
                &&& created.domain is None ==> doc.given("domain"@) is None
                &&& created.envd_access_token matches Some(token) ==> doc.member(
                    "envdAccessToken"@,
                ) == Some(JsonView::String(token))
                &&& created.envd_access_token is None ==> doc.given("envdAccessToken"@) is None
            })
            &&& success && json_parsed(body) is Err ==> made is Err
        }),
{
}

/// A sandbox is reached at its own host, which its id and its domain give; its token, if it has
/// one, goes with every request.
pub proof fn a_sandbox_is_reached_at_its_host(metadata: JsonView, id: Seq<char>)
    requires
        metadata.member("sandbox_id"@) == Some(JsonView::String(id)),
    ensures
        attach(metadata) is Some,
        ({
            let sandbox = attach(metadata)->0;
            &&& metadata.member("domain"@) matches Some(JsonView::String(domain))
                ==> sandbox.host_base == "https://"@ + decimal(49983) + "-"@ + id + "."@ + domain
            &&& metadata.member("domain"@) is None ==> sandbox.host_base == "https://"@ + decimal(
                49983,
            ) + "-"@ + id + "."@ + "e2b.app"@
            &&& sandbox.user == "user"@
            &&& sandbox.access_token == metadata.member_text("access_token"@)
        }),
{
}

/// Metadata without a sandbox's id names no sandbox.
pub proof fn nothing_is_reached_without_an_id(metadata: JsonView)
    requires
        metadata.member_text("sandbox_id"@) is None,
    ensures
        attach(metadata) is None,
{
}

/// Headers keep their order, and the token is added at their end where there is one.
pub proof fn the_token_goes_with_every_request(
    sandbox: E2bSandboxView,
    headers: Seq<(Seq<char>, Seq<char>)>,
)
    ensures
        sandbox.access_token is None ==> sandbox.authed(headers) == headers,
        sandbox.access_token matches Some(token) ==> {
            let sent = sandbox.authed(headers);
            &&& sent.len() == headers.len() + 1
            &&& sent.take(headers.len() as int) == headers
            &&& sent.last().0 == "X-Access-Token"@
            &&& sent.last().1 == token
        },
{
    if let Some(token) = sandbox.access_token {
        assert(sandbox.authed(headers).take(headers.len() as int) =~= headers);
    }
}

// ---- frames --------------------------------------------------------------------

/// A frame is a byte of flags, the length of its payload in four bytes, the most significant
/// first, and the payload.
pub proof fn a_frame_tells_its_length(payload: Seq<u8>)
    requires
        payload.len() < 0x1_0000_0000,
    ensures
        ({
            let frame = enveloped(payload);
            &&& frame.len() == 5 + payload.len()
            &&& frame[0] == 0
            &&& frame[1] as nat * 0x100_0000 + frame[2] as nat * 0x1_0000 + frame[3] as nat * 0x100
                + frame[4] as nat == payload.len()
            &&& frame.skip(5) == payload
        }),
{
    let frame = enveloped(payload);
    assert(frame.skip(5) =~= payload);
}

/// Frames are read one after the other: each with the flags and the payload that its header
/// tells. A body that ends within a frame's payload is refused; fewer bytes than a header has
/// are no frame.
pub proof fn frames_are_read_one_after_the_other(body: Seq<u8>)
    ensures
        body.len() < 5 ==> frames(body) == Some(Seq::<FrameView>::empty()),
        body.len() >= 5 ==> {
            let n = body[1] as int * 0x100_0000 + body[2] as int * 0x1_0000 + body[3] as int
                * 0x100 + body[4] as int;
            &&& 5 + n > body.len() ==> frames(body) is None
            &&& 5 + n <= body.len() ==> (frames(body) is Some <==> frames(body.skip(5 + n))
                is Some)
            &&& 5 + n <= body.len() && frames(body) is Some ==> {
                let list = frames(body)->0;
                &&& list.len() == frames(body.skip(5 + n))->0.len() + 1
                &&& list[0].flags == body[0]
                &&& list[0].payload == body.subrange(5, 5 + n)
                &&& list.skip(1) == frames(body.skip(5 + n))->0
            }
        },
{
    if body.len() >= 5 {
        let n = body[1] as int * 0x100_0000 + body[2] as int * 0x1_0000 + body[3] as int * 0x100
            + body[4] as int;
        if 5 + n <= body.len() && frames(body) is Some {
            assert(frames(body)->0.skip(1) =~= frames(body.skip(5 + n))->0);
        }
    }
}

// ---- commands ------------------------------------------------------------------

/// A command is run by a login shell, with its text as it is, in the directory and with the
/// variables that were asked for.
pub proof fn a_command_is_run_by_a_shell(
    command: Seq<char>,
    cwd: Option<Seq<char>>,
    env: Seq<(String, String)>,
)
    ensures
        ({
            let doc = start_doc(command, cwd, env);
            let process = doc.member("process"@);
            &&& process is Some
            &&& process->0.member("cmd"@) == Some(JsonView::String("/bin/bash"@))
            &&& process->0.member("args"@) matches Some(JsonView::Array(args)) && args.len() == 3
                && args[0] == JsonView::String("-l"@) && args[1] == JsonView::String("-c"@)
                && args[2] == JsonView::String(command)
            &&& process->0.member("envs"@) == Some(env_doc(env))
            &&& cwd matches Some(dir) ==> process->0.member("cwd"@) == Some(
                JsonView::String(dir),
            )
            &&& cwd is None ==> process->0.member("cwd"@) is None
            &&& doc.member("stdin"@) == Some(JsonView::Bool(false))
        }),
{
    reveal_strlit("cmd");
    reveal_strlit("args");
    reveal_strlit("envs");
    reveal_strlit("cwd");
    reveal_strlit("process");
    reveal_strlit("stdin");
    assert("cmd"@.len() == 3 && "args"@.len() == 4 && "envs"@.len() == 4 && "cwd"@.len() == 3
        && "args"@[0] == 'a' && "envs"@[0] == 'e' && "cmd"@[1] == 'm' && "cwd"@[1] == 'w');
    assert("process"@.len() == 7 && "stdin"@.len() == 5);
}

/// A command sees every variable that it was given, with its value; of two of one name the
/// last one.
pub proof fn a_command_sees_its_variables(env: Seq<(String, String)>, i: int)
    requires
        0 <= i < env.len(),
        forall|j: int| i < j < env.len() ==> (#[trigger] env[j]).0@ != env[i].0@,
    ensures
        env_doc(env).member(env[i].0@) == Some(JsonView::String(env[i].1@)),
    decreases env.len(),
{
    lemma_env_object(env.drop_last());
    if i < env.len() - 1 {
        assert(env[env.len() - 1].0@ != env[i].0@);
        a_command_sees_its_variables(env.drop_last(), i);
    }
}

proof fn lemma_env_object(env: Seq<(String, String)>)
    ensures
        env_doc(env) is Object,
    decreases env.len(),
{
    if env.len() > 0 {
        lemma_env_object(env.drop_last());
    }
}

/// A piece of output is what its base64 stands for, with padding or without.
pub proof fn a_piece_of_output_is_decoded(text: Seq<char>)
    ensures
        base64_padded(text) matches Ok(bytes) ==> piece(text) == Ok::<Seq<u8>, Seq<char>>(bytes),
        base64_padded(text) is Err ==> (base64_unpadded(text) matches Ok(bytes) ==> piece(text)
            == Ok::<Seq<u8>, Seq<char>>(bytes)),
        base64_padded(text) is Err && base64_unpadded(text) is Err ==> piece(text) is Err,
        opt_piece(None) == Ok::<Seq<u8>, Seq<char>>(Seq::empty()),
        opt_piece(Some(text)) == piece(text),
{
}

/// Output is put together in the order in which it comes: what an event brings is added behind
/// what there is, standard output and standard error each for itself; the end tells the exit
/// code, and an error of the process is an error.
pub proof fn output_is_put_together_in_order(got: Collected, event: ProcessEventView)
    ensures
        ({
            let out = opt_piece(event.stdout);
            let err = opt_piece(event.stderr);
            let after = collect_event(got, event);
            &&& out is Err || err is Err ==> after is Err
            &&& out is Ok && err is Ok ==> match event.end {
                Some((_, Some(message))) => after == Err::<Collected, Seq<char>>(
                    "process error: "@ + message,
                ),
                Some((code, None)) => after == Ok::<Collected, Seq<char>>(
                    Collected {
                        stdout: got.stdout + out->Ok_0,
                        stderr: got.stderr + err->Ok_0,
                        exit_code: code,
                    },
                ),
                None => after == Ok::<Collected, Seq<char>>(
                    Collected {
                        stdout: got.stdout + out->Ok_0,
                        stderr: got.stderr + err->Ok_0,
                        exit_code: got.exit_code,
                    },
                ),
            }
        }),
{
}

/// A stream is gone through frame by frame. A frame with the flag of the end of the stream ends
/// it: with the error that it tells, if any, and with what was put together otherwise. A frame
/// that is no event of a process is an error.
pub proof fn a_stream_is_gone_through_frame_by_frame(
    stream: Seq<FrameView>,
    i: nat,
    got: Collected,
)
    ensures
        i >= stream.len() ==> collect_from(stream, i, got) == Ok::<Collected, Seq<char>>(got),
        i < stream.len() ==> {
            let frame = stream[i as int];
            let after = collect_from(stream, i, got);
            let ends = frame.flags & 2 != 0;
            &&& ends ==> match doc_in(frame.payload) {
                Some(doc) => match doc.member("error"@) {
                    Some(_) => after is Err,
                    None => after == Ok::<Collected, Seq<char>>(got),
                },
                None => after == Ok::<Collected, Seq<char>>(got),
            }
            &&& !ends ==> match frame_event(frame.payload) {
                Err(message) => after == Err::<Collected, Seq<char>>(
                    "decode process event: "@ + message,
                ),
                Ok(None) => after == collect_from(stream, i + 1, got),
                Ok(Some(event)) => match collect_event(got, event) {
                    Err(message) => after == Err::<Collected, Seq<char>>(message),
                    Ok(more) => after == collect_from(stream, i + 1, more),
                },
            }
        },
{
}

/// A command's output is what its stream brought, from nothing on, as text; without an end its
/// exit code is -1.
pub proof fn a_command_gives_its_output(stream: Seq<FrameView>)
    ensures
        ({
            let nothing = Collected { stdout: Seq::empty(), stderr: Seq::empty(), exit_code: None };
            match collect_from(stream, 0, nothing) {
                Ok(got) => collected(stream) matches Ok(output) && {
                    &&& output.stdout == utf8_lossy(got.stdout)
                    &&& output.stderr == utf8_lossy(got.stderr)
                    &&& got.exit_code matches Some(code) ==> output.exit_code == code
                    &&& got.exit_code is None ==> output.exit_code == -1
                },
                Err(message) => collected(stream) == Err::<
                    crate::bridge::CommandOutputView,
                    Seq<char>,
                >(message),
            }
        }),
{
}

/// The reply to a command: a refusal is an error; else the stream of its body counts, and a
/// body that is cut off is an error.
pub proof fn a_reply_to_a_command_is_its_stream(success: bool, status: Seq<char>, body: Seq<u8>)
    ensures
        !success ==> command_outcome(success, status, body) is Err,
        success && frames(body) is None ==> command_outcome(success, status, body) is Err,
        success ==> (frames(body) matches Some(stream) ==> command_outcome(success, status, body)
            == collected(stream)),
{
}

/// A refusal tells the service's message, with its code where there is one, and the status
/// where there is no message.
pub proof fn a_refusal_tells_what_the_service_said(doc: JsonView, status: Seq<char>)
    ensures
        doc.member("message"@) matches Some(JsonView::String(message)) ==> {
            &&& doc.member("code"@) matches Some(JsonView::String(code)) ==> refusal(
                Some(doc),
                status,
            ) == "envd error ["@ + code + "]: "@ + message
            &&& doc.member_text("code"@) is None ==> refusal(Some(doc), status) == message
        },
        doc.member_text("message"@) is None ==> refusal(Some(doc), status) == "HTTP "@ + status,
        refusal(None, status) == "HTTP "@ + status,
        call_error(doc) is Some <==> doc.member_text("message"@) is Some,
{
}

/// The end of a stream tells an error by its code and its message.
pub proof fn the_end_of_a_stream_tells_its_error(doc: JsonView)
    ensures
        doc.member("error"@) is None <==> stream_error(doc) is None,
        doc.member("error"@) matches Some(error) ==> (error.member_text("code"@) is Some
            && error.member_text("message"@) is Some ==> stream_error(doc) == Some(
            "process stream error ["@ + error.member_text("code"@)->0 + "]: "@
                + error.member_text("message"@)->0,
        )),
        doc.member("error"@) matches Some(error) ==> (error.member_text("code"@) is None
            && error.member_text("message"@) is None ==> stream_error(doc) == Some(
            "process stream error ["@ + "error"@ + "]: "@ + ""@,
        )),
{
}

/// A frame of a process is read by its member `event`: without one it tells nothing; one that is
/// no event, and a frame that is no object, is an error.
pub proof fn a_frame_tells_its_event(payload: Seq<u8>, doc: JsonView)
    requires
        json_parsed(payload) == Ok::<JsonView, Seq<char>>(doc),
    ensures
        !(doc is Object) ==> frame_event(payload) is Err,
        doc is Object && doc.given("event"@) is None ==> frame_event(payload) == Ok::<
            Option<ProcessEventView>,
            Seq<char>,
        >(None),
        doc is Object ==> (doc.given("event"@) matches Some(event) ==> {
            &&& ProcessEventView::of_doc(event) is Some ==> frame_event(payload) == Ok::<
                Option<ProcessEventView>,
                Seq<char>,
            >(ProcessEventView::of_doc(event))
            &&& ProcessEventView::of_doc(event) is None ==> frame_event(payload) is Err
        }),
{
}

/// A sandbox that cannot be created is given up after three attempts: the step is exhausted with
/// the last message, its record says so, and nothing is leased.
pub proof fn a_creation_is_given_up_after_three_attempts<S: SandboxProvider>(
    provider: &S,
    before: Store,
    id: RunId,
    error: ErrorView,
    after: Store,
)
    requires
        crate::sandbox::not_created(provider, before, id, error, after),
    ensures
        error matches ErrorView::StepExhausted { key, attempts, .. } && attempts == 3 && key
            == PROVISION_STEP@,
        after.resources == before.resources,
        after.steps.contains_key((id.value, PROVISION_STEP@)),
        after.steps[(id.value, PROVISION_STEP@)].status is Failed,
        after.steps[(id.value, PROVISION_STEP@)].attempts == 3,
        error matches ErrorView::StepExhausted { message, .. } && after.steps[(
            id.value,
            PROVISION_STEP@,
        )].error == Some(message) && provider.may_create(
            Err::<SandboxHandleView, Seq<char>>(message),
        ),
{
    let (messages, start, end) = choose|
        messages: Seq<Seq<char>>,
        start: Timestamp,
        end: Timestamp,
    |
        {
            &&& #[trigger] crate::sandbox::creation_failed(
                provider,
                before,
                id,
                messages,
                start,
                end,
                after,
            )
            &&& error == (ErrorView::StepExhausted {
                key: PROVISION_STEP@,
                attempts: 3,
                message: messages.last(),
            })
        };
    assert(crate::sandbox::failures(messages).last() == Err::<JsonView, Seq<char>>(
        messages.last(),
    ));
    assert(messages.last() == messages[messages.len() - 1]);
}

/// A call on the file system gives the document of its reply; a refusal, and a body that is no
/// document, is an error.
pub proof fn a_call_gives_the_document_of_its_reply(
    method: Seq<char>,
    success: bool,
    status: Seq<char>,
    body: Seq<u8>,
)
    ensures
        call_outcome(method, success, status, body) is Ok <==> success && json_parsed(body) is Ok,
        call_outcome(method, success, status, body) matches Ok(doc) ==> json_parsed(body) == Ok::<
            JsonView,
            Seq<char>,
        >(doc),
        success ==> (json_parsed(body) matches Err(message) ==> call_outcome(
            method,
            success,
            status,
            body,
        ) == Err::<JsonView, Seq<char>>(method + ": decode: "@ + message)),
{
}

/// An event of a process tells its output and its end as its members have them.
pub proof fn an_event_tells_output_and_end(doc: JsonView, event: ProcessEventView)
    requires
        ProcessEventView::of_doc(doc) == Some(event),
    ensures
        event.stdout matches Some(text) ==> (doc.member("data"@) matches Some(data) && data.member(
            "stdout"@,
        ) == Some(JsonView::String(text))),
        event.stderr matches Some(text) ==> (doc.member("data"@) matches Some(data) && data.member(
            "stderr"@,
        ) == Some(JsonView::String(text))),
        event.end is Some <==> doc.given("end"@) is Some,
        event.end matches Some((code, error)) ==> {
            let end = doc.given("end"@)->0;
            &&& code matches Some(code) ==> end.given("exitCode"@) is Some && int32_in(
                end.given("exitCode"@)->0,
            ) == Some(code)
            &&& code is None ==> end.given("exitCode"@) is None
            &&& error matches Some(text) ==> end.member("error"@) == Some(JsonView::String(text))
            &&& error is None ==> end.given("error"@) is None
        },
        doc.given("data"@) is None ==> event.stdout is None && event.stderr is None,
        (doc.given("data"@) matches Some(data) && (data.member("stdout"@) matches Some(
            JsonView::String(text),
        ))) ==> event.stdout is Some,
        (doc.given("data"@) matches Some(data) && (data.member("stderr"@) matches Some(
            JsonView::String(text),
        ))) ==> event.stderr is Some,
{
    assert(data_in(doc) is Some);
    if let Some(end) = doc.given("end"@) {
        assert(end_in(end) is Some);
    }
}

/// A document is an event of a process where it is an object whose data is missing or an object
/// of texts, and whose end is missing or an object with a number and a text.
pub proof fn a_document_is_an_event_where_its_members_fit(doc: JsonView)
    requires
        doc is Object,
        doc.member("data"@) matches Some(data) ==> data is Object && text_if_any(data, "stdout"@)
            && text_if_any(data, "stderr"@),
        doc.member("end"@) matches Some(end) ==> end is Object && text_if_any(end, "error"@) && (
        end.member("exitCode"@) matches Some(code) ==> code matches JsonView::Number(
            NumberView::Unsigned(n),
        ) && n <= i32::MAX),
    ensures
        ProcessEventView::of_doc(doc) is Some,
{
}

/// Whether a member is missing or a text.
pub open spec fn text_if_any(doc: JsonView, name: Seq<char>) -> bool {
    doc.member(name) matches Some(value) ==> value is String
}

/// An exit code is the number that stands there, where it is one of 32 bits.
pub proof fn an_exit_code_is_its_number(n: u64, m: i64)
    ensures
        n <= i32::MAX ==> (int32_in(JsonView::Number(NumberView::Unsigned(n))) matches Some(code)
            && code == n),
        n > i32::MAX ==> int32_in(JsonView::Number(NumberView::Unsigned(n))) is None,
        i32::MIN <= m <= i32::MAX ==> (int32_in(JsonView::Number(NumberView::Signed(m)))
            matches Some(code) && code == m),
{
}

// ---- files ---------------------------------------------------------------------

/// A file's metadata is what its entry says: its size, none below zero, whether it is a
/// directory or a link, and the last twelve bits of its mode.
pub proof fn metadata_is_what_the_entry_says(entry: EntryInfo)
    ensures
        ({
            let metadata = entry.metadata();
            &&& entry.size >= 0 ==> metadata.size == entry.size
            &&& entry.size < 0 ==> metadata.size == 0
            &&& metadata.is_dir <==> entry.kind@ == "FILE_TYPE_DIRECTORY"@
            &&& metadata.is_symlink <==> entry.kind@ == "FILE_TYPE_SYMLINK"@
            &&& metadata.unix_permissions as int == entry.mode as int % 4096
            &&& entry.modified_time is None ==> metadata.modified is None
            &&& entry.modified_time matches Some(text) ==> match crate::codec::instant_of(text@) {
                Some((secs, nanos)) => {
                    &&& secs < 0 ==> metadata.modified is None
                    &&& secs >= 0 ==> (metadata.modified matches Some((s, n)) && s == secs && n
                        == nanos)
                },
                None => metadata.modified is None,
            }
        }),
{
    let mode = entry.mode;
    assert(mode & 0xFFF == mode % 4096) by (bit_vector);
}

/// The size of a file is the number that stands there, as a number or as a text of digits.
pub proof fn a_size_is_its_number(doc: JsonView, n: nat)
    requires
        n <= i64::MAX,
    ensures
        doc.member("size"@) == Some(JsonView::Number(NumberView::Unsigned(n as u64))) ==> size_in(
            doc,
        ) == Some(n as i64),
        doc.member("size"@) == Some(JsonView::String(decimal(n))) ==> size_in(doc) == Some(
            n as i64,
        ),
        doc.member("size"@) is None ==> size_in(doc) == Some(0i64),
{
    a_number_is_read_from_its_digits(n);
}

/// A number is read from its own digits, and with a minus sign before them it is negative.
pub proof fn a_number_is_read_from_its_digits(n: nat)
    requires
        n <= i64::MAX,
    ensures
        integer_of(decimal(n)) == Some(n as i64),
        integer_of("-"@ + decimal(n)) == Some((-(n as int)) as i64),
{
    reveal_strlit("-");
    let s = decimal(n);
    crate::digits::lemma_decimal(n);
    assert(s.skip(0) =~= s);
    assert(crate::digits::is_digit(s[0]));
    crate::digits::lemma_digits_end_is(s, 0, s.len() as int);
    let t = "-"@ + s;
    assert(t.skip(1) =~= s);
    assert forall|k: int| 1 <= k < t.len() implies crate::digits::is_digit(#[trigger] t[k]) by {
        assert(t[k] == s[k - 1]);
    }
    crate::digits::lemma_digits_end_is(t, 1, t.len() as int);
}

} // verus!
