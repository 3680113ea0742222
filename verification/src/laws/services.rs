//! What calls around sandboxes, tools, browsers and rows come to.

use vstd::prelude::*;

use crate::bridge;
use crate::bridge::{ConnectOptions, DirEntry, E2bSandbox, EntryInfo, SandboxError};
use crate::computer;
use crate::computer::{
    ComputerAction, ComputerUseError, E2bComputerUse, NO_ACCESSIBILITY, NO_OBSERVATION,
};
use crate::driver::RunContext;
use crate::e2b;
use crate::e2b::{CreatedSandbox, E2bError, E2bProvider};
use crate::error::Error;
use crate::json::{Json, JsonView, NumberView};
use crate::laws::calls::step_done;
use crate::laws::sandboxes::active_sandbox;
use crate::resource::{ResourceStatus, ResourceView};
use crate::sandbox::{
    always_creates, holds_sandbox, provision_sandbox, reap_sandboxes, SandboxHandle,
    SandboxProvider, PROVISION_STEP,
};
use crate::sql_encoding;
use crate::store::Backend;
use crate::sweet::DurableTool;
use crate::text::opt_text;
use crate::time::{Duration, Timestamp};

verus! {

// ---- sandboxes -----------------------------------------------------------------

/// A run that holds a sandbox is given that sandbox, and nothing changes.
pub proof fn a_held_sandbox_is_attached_to<B: Backend, S: SandboxProvider, P: Fn(Duration)>(
    ctx: &mut RunContext<B>,
    provider: &S,
    pause: P,
    r: Result<String, Error>,
    k: u128,
    held: Seq<char>,
)
    requires
        call_ensures(provision_sandbox::<B, S, P>, (ctx, provider, pause), r),
        old(ctx).reliable(),
        old(ctx).store().resources.contains_key(k),
        old(ctx).store().resources[k].run_id == old(ctx).id(),
        active_sandbox(old(ctx).store().resources[k], held),
    ensures
        r is Ok,
        final(ctx).store() == old(ctx).store(),
        exists|j: u128|
            {
                &&& #[trigger] old(ctx).store().resources.contains_key(j)
                &&& old(ctx).store().resources[j].run_id == old(ctx).id()
                &&& active_sandbox(old(ctx).store().resources[j], r->Ok_0@)
            },
{
    super::sandboxes::a_run_holds_what_it_leases(old(ctx).store(), old(ctx).id(), held);
    assert(holds_sandbox(old(ctx).store(), old(ctx).id(), held));
    super::sandboxes::a_run_holds_what_it_leases(old(ctx).store(), old(ctx).id(), r->Ok_0@);
}

/// A run whose sandbox was created and journaled, and which holds none, is given the journaled
/// one again, under a new lease; the journal stays as it is.
pub proof fn a_journaled_sandbox_is_leased_again<B: Backend, S: SandboxProvider, P: Fn(Duration)>(
    ctx: &mut RunContext<B>,
    provider: &S,
    pause: P,
    r: Result<String, Error>,
    journaled: Seq<char>,
)
    requires
        call_ensures(provision_sandbox::<B, S, P>, (ctx, provider, pause), r),
        old(ctx).reliable(),
        forall|sandbox: Seq<char>| !(#[trigger]
            holds_sandbox(old(ctx).store(), old(ctx).id(), sandbox)),
        step_done(old(ctx).store(), old(ctx).id(), PROVISION_STEP@),
        old(ctx).store().steps[(old(ctx).id().value, PROVISION_STEP@)].output is Some,
        old(ctx).store().steps[(old(ctx).id().value, PROVISION_STEP@)].output->0.member("id"@)
            == Some(JsonView::String(journaled)),
    ensures
        r is Ok,
        r->Ok_0@ == journaled,
        final(ctx).store().steps == old(ctx).store().steps,
        exists|k: u128|
            {
                &&& #[trigger] final(ctx).store().resources.contains_key(k)
                &&& final(ctx).store().resources[k].run_id == old(ctx).id()
                &&& active_sandbox(final(ctx).store().resources[k], journaled)
            },
{
    let doc = old(ctx).store().steps[(old(ctx).id().value, PROVISION_STEP@)].output->0;
    assert(crate::driver::memo(old(ctx).store(), old(ctx).id(), PROVISION_STEP@) == Some(doc));
    assert(crate::sandbox::SandboxHandleView::of_journal(doc) is Some);
    crate::sandbox::a_journaled_sandbox_is_not_created_again(
        old(ctx).store(),
        old(ctx).id(),
        doc,
        r->Ok_0@,
        final(ctx).store(),
    );
    super::sandboxes::a_provisioned_sandbox_is_journaled_and_leased(
        old(ctx).store(),
        old(ctx).id(),
        r->Ok_0@,
        final(ctx).store(),
    );
}

/// A run that has none is given a sandbox that the provider created; it is journaled and
/// leased.
pub proof fn a_new_sandbox_is_journaled_and_leased<
    B: Backend,
    S: SandboxProvider,
    P: Fn(Duration),
>(ctx: &mut RunContext<B>, provider: &S, pause: P, r: Result<String, Error>)
    requires
        call_ensures(provision_sandbox::<B, S, P>, (ctx, provider, pause), r),
        old(ctx).reliable(),
        forall|sandbox: Seq<char>| !(#[trigger]
            holds_sandbox(old(ctx).store(), old(ctx).id(), sandbox)),
        !step_done(old(ctx).store(), old(ctx).id(), PROVISION_STEP@),
        always_creates(provider),
    ensures
        r is Ok,
        step_done(final(ctx).store(), old(ctx).id(), PROVISION_STEP@),
        final(ctx).store().steps[(old(ctx).id().value, PROVISION_STEP@)].output is Some,
        final(ctx).store().steps[(old(ctx).id().value, PROVISION_STEP@)].output->0.member("id"@)
            == Some(JsonView::String(r->Ok_0@)),
        exists|k: u128|
            {
                &&& #[trigger] final(ctx).store().resources.contains_key(k)
                &&& final(ctx).store().resources[k].run_id == old(ctx).id()
                &&& active_sandbox(final(ctx).store().resources[k], r->Ok_0@)
                &&& final(ctx).store().resources == old(ctx).store().resources.insert(
                    k,
                    final(ctx).store().resources[k],
                )
            },
{
    let id = old(ctx).id();
    super::sandboxes::a_provisioned_sandbox_is_journaled_and_leased(
        old(ctx).store(),
        id,
        r->Ok_0@,
        final(ctx).store(),
    );
    let memoized = crate::driver::memo(final(ctx).store(), id, PROVISION_STEP@)->0;
    super::steps::only_a_completed_record_answers_a_step(
        final(ctx).store(),
        id,
        PROVISION_STEP@,
    );
    if final(ctx).store().steps[(id.value, PROVISION_STEP@)].output is None {
        assert(memoized == JsonView::Null);
        assert(memoized.member("id"@) is None);
    }
}

/// Reaping releases the lease of every sandbox of the run that the provider destroyed, keeps
/// that of every one it did not, and touches no lease of another run and none that is no active
/// sandbox.
pub proof fn reaping_releases_the_leases_of_destroyed_sandboxes<B: Backend, S: SandboxProvider>(
    ctx: &mut RunContext<B>,
    provider: &S,
    r: Result<(), Error>,
    k: u128,
    sandbox: Seq<char>,
)
    requires
        call_ensures(reap_sandboxes::<B, S>, (ctx, provider), r),
        old(ctx).reliable(),
        old(ctx).store().resources.contains_key(k),
    ensures
        r is Ok,
        ({
            let before = old(ctx).store().resources[k];
            let after = final(ctx).store().resources[k];
            let own = before.run_id == old(ctx).id() && active_sandbox(before, sandbox);
            &&& own && !provider.may_destroy(sandbox, false) ==> after == (ResourceView {
                status: ResourceStatus::Released,
                ..before
            })
            &&& own && !provider.may_destroy(sandbox, true) ==> after == before
            &&& before.run_id != old(ctx).id() ==> after == before
            &&& !(before.kind is CodeSandbox && before.status is Active) ==> after == before
        }),
        final(ctx).store().runs == old(ctx).store().runs,
        final(ctx).store().steps == old(ctx).store().steps,
{
    let before = old(ctx).store().resources[k];
    let after = final(ctx).store().resources[k];
    if before.run_id == old(ctx).id() {
        super::sandboxes::a_lease_is_released_when_its_sandbox_is_destroyed(
            provider,
            before,
            sandbox,
            after,
        );
    }
}

// ---- tools ---------------------------------------------------------------------

/// A tool whose call is saved gives the saved output, where it is accepted, and nothing
/// changes; a tool whose call is not saved gives what it gave when it was called, and a success
/// is saved.
pub proof fn a_tool_is_called_once<
    B: Backend,
    R: Fn(&Json) -> bool,
    F: Fn(&Json) -> Result<Json, String>,
>(
    tool: &DurableTool,
    backend: &mut B,
    args: &Json,
    reads: R,
    inner: F,
    at: Timestamp,
    r: Result<Json, String>,
    key: Seq<char>,
)
    requires
        call_ensures(
            DurableTool::call_rich::<B, R, F>,
            (tool, backend, args, reads, inner, at),
            r,
        ),
        old(backend).reliable(),
        key == crate::sweet::call_key(tool.tool_name@, args@),
        forall|doc: Json, taken: bool| #[trigger]
            call_ensures(reads, (&doc,), taken) ==> taken,
    ensures
        step_done(old(backend).store(), tool.run_id, key) && old(backend).store().steps[(
            tool.run_id.value,
            key,
        )].output is Some ==> {
            &&& r is Ok
            &&& old(backend).store().steps[(tool.run_id.value, key)].output == Some(r->Ok_0@)
            &&& final(backend).store() == old(backend).store()
        },
        !step_done(old(backend).store(), tool.run_id, key) ==> {
            &&& call_ensures(inner, (args,), r)
            &&& r matches Ok(output) ==> step_done(final(backend).store(), tool.run_id, key)
                && final(backend).store().steps[(tool.run_id.value, key)].output == Some(output@)
            &&& r is Err ==> final(backend).store() == old(backend).store()
        },
{
}

// ---- the E2B service -----------------------------------------------------------

/// A provider asks for its template and for the life that it was told, at the address that it
/// was given.
pub proof fn a_provider_asks_for_what_it_was_told(
    provider: &E2bProvider,
    sandbox_id: &str,
    create_url: String,
    timeout_url: String,
    sandbox_url: String,
    asked: Json,
    extended: Json,
)
    requires
        call_ensures(E2bProvider::create_url, (provider,), create_url),
        call_ensures(E2bProvider::timeout_url, (provider, sandbox_id), timeout_url),
        call_ensures(E2bProvider::sandbox_url, (provider, sandbox_id), sandbox_url),
        call_ensures(E2bProvider::create_request, (provider,), asked),
        call_ensures(E2bProvider::timeout_request, (provider,), extended),
    ensures
        create_url@ == provider.base_url@ + "/sandboxes"@,
        sandbox_url@ == provider.base_url@ + "/sandboxes/"@ + sandbox_id@,
        timeout_url@ == sandbox_url@ + "/timeout"@,
        asked@.member("templateID"@) == Some(JsonView::String(provider.template_id@)),
        asked@.member("timeout"@) == Some(
            JsonView::Number(NumberView::Unsigned(provider.timeout_secs)),
        ),
        extended@.member("timeout"@) == Some(
            JsonView::Number(NumberView::Unsigned(provider.timeout_secs)),
        ),
{
    reveal_strlit("templateID");
    reveal_strlit("timeout");
    assert("templateID"@.len() == 10 && "timeout"@.len() == 7);
}

/// A provider is what it was made as: with its key and the standard address, template and life,
/// until it is told otherwise, one thing at a time.
pub proof fn a_provider_is_what_it_was_made_as(
    key: String,
    made: E2bProvider,
    url: &str,
    moved: E2bProvider,
    template: &str,
    other: E2bProvider,
    secs: u64,
    longer: E2bProvider,
)
    requires
        call_ensures(E2bProvider::new, (key,), made),
        call_ensures(E2bProvider::with_base_url, (made, url), moved),
        call_ensures(E2bProvider::with_template, (made, template), other),
        call_ensures(E2bProvider::with_timeout_secs, (made, secs), longer),
    ensures
        made.api_key == key,
        made.base_url@ == "https://api.e2b.app"@,
        made.template_id@ == "base"@,
        made.timeout_secs == 300,
        moved.base_url@ == url@ && moved.api_key == key && moved.timeout_secs == 300,
        other.template_id@ == template@ && other.api_key == key && other.timeout_secs == 300,
        longer.timeout_secs == secs && longer.api_key == key && longer.base_url@
            == made.base_url@,
{
}

/// Without a key in the environment there is no provider, and the error names the variable.
pub proof fn a_provider_needs_a_key(key: Option<String>, r: Result<E2bProvider, E2bError>)
    requires
        call_ensures(E2bProvider::from_env, (key,), r),
    ensures
        r is Ok <==> key is Some,
        r matches Ok(provider) ==> Some(provider.api_key) == key,
        r matches Err(E2bError::MissingApiKey(name)) ==> name@ == "E2B_API_KEY"@,
{
}

/// A sandbox that was created is handed on with its id, its domain and its token; keeping it
/// alive fails where the service refuses, and destroying it also succeeds where it is gone.
pub proof fn a_created_sandbox_is_handed_on(
    created: CreatedSandbox,
    handle: SandboxHandle,
    success: bool,
    missing: bool,
    status: &str,
    kept: Result<(), String>,
    destroyed: Result<(), String>,
)
    requires
        call_ensures(CreatedSandbox::into_handle, (created,), handle),
        call_ensures(e2b::keepalive_reply, (success, status), kept),
        call_ensures(e2b::destroy_reply, (success, missing, status), destroyed),
    ensures
        handle.id@ == created.sandbox_id@,
        created.domain matches Some(domain) ==> handle.metadata@.member("domain"@) == Some(
            JsonView::String(domain@),
        ),
        created.envd_access_token matches Some(token) ==> handle.metadata@.member("access_token"@)
            == Some(JsonView::String(token@)),
        kept is Ok <==> success,
        destroyed is Ok <==> success || missing,
{
    reveal_strlit("domain");
    reveal_strlit("access_token");
    assert("domain"@.len() == 6 && "access_token"@.len() == 12);
    assert(handle@.id == handle.id@);
    assert(handle@.metadata == handle.metadata@);
}

/// A sandbox is connected to at the host that its id and its domain give, as its user and with
/// its token; calls go to the services of that host.
pub proof fn a_sandbox_is_connected_to(
    id: &str,
    opts: ConnectOptions,
    sandbox: E2bSandbox,
    method: &str,
    rpc: String,
    start: String,
)
    requires
        call_ensures(E2bSandbox::connect, (id, opts), sandbox),
        call_ensures(E2bSandbox::rpc_url, (&sandbox, method), rpc),
        call_ensures(E2bSandbox::start_url, (&sandbox,), start),
    ensures
        sandbox@.user == opts.user@,
        sandbox@.access_token == opt_text(opts.access_token),
        rpc@ == "https://"@ + crate::text::decimal(49983) + "-"@ + id@ + "."@ + opts.domain@
            + "/filesystem.Filesystem/"@ + method@,
        start@ == "https://"@ + crate::text::decimal(49983) + "-"@ + id@ + "."@ + opts.domain@
            + "/process.Process/Start"@,
{
}

/// Requests on files name the path, the depth, and the source and the destination of a move.
pub proof fn requests_on_files_name_their_paths(
    path: &str,
    depth: u32,
    source: &str,
    destination: &str,
    asked: Json,
    listed: Json,
    moved: Json,
)
    requires
        call_ensures(bridge::path_request, (path,), asked),
        call_ensures(bridge::list_request, (path, depth), listed),
        call_ensures(bridge::move_request, (source, destination), moved),
    ensures
        asked@.member("path"@) == Some(JsonView::String(path@)),
        listed@.member("path"@) == Some(JsonView::String(path@)),
        listed@.member("depth"@) == Some(JsonView::Number(NumberView::Unsigned(depth as u64))),
        moved@.member("source"@) == Some(JsonView::String(source@)),
        moved@.member("destination"@) == Some(JsonView::String(destination@)),
{
    reveal_strlit("path");
    reveal_strlit("depth");
    reveal_strlit("source");
    reveal_strlit("destination");
    assert("path"@.len() == 4 && "depth"@.len() == 5 && "source"@.len() == 6
        && "destination"@.len() == 11);
}

/// A file that was read or written is told by the reply: a missing file is an error of its own,
/// and so is any refusal.
pub proof fn a_reply_tells_whether_a_file_was_had(
    path: &str,
    success: bool,
    missing: bool,
    status: &str,
    read: Result<(), SandboxError>,
    wrote: Result<(), SandboxError>,
)
    requires
        call_ensures(bridge::read_reply, (path, success, missing, status), read),
        call_ensures(bridge::write_reply, (path, success, status), wrote),
    ensures
        read is Ok <==> success && !missing,
        wrote is Ok <==> success,
        missing ==> (read matches Err(e) && e@ == "no such file: "@ + path@),
        !success ==> (wrote matches Err(e) && e@ == "write "@ + path@ + ": HTTP "@ + status@),
{
}

/// A listed file is told by its name, its path and its metadata.
pub proof fn a_listed_file_is_its_entry(entry: EntryInfo, listed: DirEntry)
    requires
        call_ensures(EntryInfo::into_dir_entry, (entry,), listed),
    ensures
        listed.name@ == entry.name@,
        listed.path@ == entry.path@,
        listed.metadata.is_dir <==> entry.kind@ == "FILE_TYPE_DIRECTORY"@,
        entry.size >= 0 ==> listed.metadata.size == entry.size,
{
}

/// An entry is read from its document: its name, its kind and its path from the members of
/// those names.
pub proof fn an_entry_is_read_from_its_document(doc: &Json, r: Option<EntryInfo>)
    requires
        call_ensures(EntryInfo::from_doc, (doc,), r),
    ensures
        r matches Some(entry) ==> {
            &&& doc@.member("name"@) matches Some(JsonView::String(text)) ==> entry.name@ == text
            &&& doc@.member("type"@) matches Some(JsonView::String(text)) ==> entry.kind@ == text
            &&& doc@.member("path"@) matches Some(JsonView::String(text)) ==> entry.path@ == text
            &&& doc@.member("mode"@) matches Some(JsonView::Number(NumberView::Unsigned(n)))
                ==> entry.mode == n
            &&& doc@.member("modifiedTime"@) matches Some(JsonView::String(text)) ==> opt_text(
                entry.modified_time,
            ) == Some(text)
        },
{
}

// ---- browsers ------------------------------------------------------------------

/// A browser is told its action by one command line: the command, a blank and the action.
pub proof fn a_browser_is_told_by_a_command_line(
    used: &E2bComputerUse,
    args: &str,
    line: String,
    shot: bool,
    looked: &'static str,
)
    requires
        call_ensures(E2bComputerUse::command_line, (used, args), line),
        call_ensures(computer::observe_args, (shot,), looked),
    ensures
        line@ == used.cmd@ + " "@ + args@,
        shot ==> looked@ == "observe --screenshot"@,
        !shot ==> looked@ == "observe"@,
{
}

/// An action becomes its command, and one that a browser cannot do is refused.
pub proof fn an_action_becomes_its_command(
    action: &ComputerAction,
    r: Result<String, ComputerUseError>,
)
    requires
        call_ensures(computer::action_args, (action,), r),
    ensures
        *action is AxPress || *action is AxSetValue || *action is Observe || *action is Screenshot
            ==> r is Err,
        *action is AxPress || *action is AxSetValue ==> (r matches Err(
            ComputerUseError::InvalidAction(message),
        ) && message@ == NO_ACCESSIBILITY@),
        *action is Observe || *action is Screenshot ==> (r matches Err(
            ComputerUseError::InvalidAction(message),
        ) && message@ == NO_OBSERVATION@),
        *action matches ComputerAction::TypeText { text } ==> (r matches Ok(args)
            && computer::shell_word(args@.skip(5), false) == Some(text@)),
        *action matches ComputerAction::MoveCursor { x, y } ==> (r matches Ok(args) && args@
            == "move"@ + " "@ + crate::text::signed_decimal(x as int) + " "@
            + crate::text::signed_decimal(y as int)),
        *action matches ComputerAction::Wait { millis } ==> (r matches Ok(args) && args@
            == "wait "@ + crate::text::decimal(millis as nat)),
{
    if let ComputerAction::TypeText { text } = action {
        super::browsers::a_text_is_typed_as_it_is(*text, arbitrary());
    }
}

// ---- rows ----------------------------------------------------------------------

/// A claim on a SQL store lasts for the whole milliseconds of its lease.
pub proof fn a_claim_lasts_for_its_lease(now: i64, lease_ttl: Duration, until: i64)
    requires
        call_ensures(sql_encoding::lease_until, (now, lease_ttl), until),
        now + lease_ttl.nanos / 1_000_000 <= i64::MAX,
    ensures
        until - now <= lease_ttl.nanos / 1_000_000,
        (until - now) * 1_000_000 <= lease_ttl.nanos < (until - now + 1) * 1_000_000,
{
}

/// An instant goes through its column and back, but for what is below a millisecond.
pub proof fn an_instant_goes_through_its_column(at: Timestamp, millis: i64, back: Timestamp)
    requires
        call_ensures(sql_encoding::ms, (at,), millis),
        call_ensures(sql_encoding::dt, (millis,), back),
        sql_encoding::in_range(at),
    ensures
        back.nanos <= at.nanos < back.nanos + 1_000_000,
        back.nanos as int == millis * 1_000_000,
{
    super::rows::an_instant_is_kept_to_the_millisecond(at);
}

// ---- documents -----------------------------------------------------------------

/// A member that is set is the one that is read.
pub proof fn what_is_set_is_read(
    doc: Json,
    name: &str,
    value: Json,
    set: Json,
    read: Option<&Json>,
)
    requires
        call_ensures(Json::with, (doc, name, value), set),
        call_ensures(Json::get, (&set, name), read),
    ensures
        read matches Some(own) && own@ == value@,
{
}

} // verus!
