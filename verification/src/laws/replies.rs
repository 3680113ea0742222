//! What requests to the services hold, and what their replies come to.

use vstd::prelude::*;

use crate::api::{ApiError, EventStream, StreamStep};
use crate::bridge;
use crate::bridge::{CommandOutput, DirEntry, E2bSandbox, EntryInfo, FileMetadata, SandboxError};
use crate::codec::{trimmed, url_with_query, utf8_error};
use crate::computer;
use crate::computer::{ComputerUseError, Observation};
use crate::driver::RunContext;
use crate::e2b;
use crate::e2b::CreatedSandbox;
use crate::envelope;
use crate::error::{Error, ErrorView};
use crate::ids::{uuid_hyphenated, uuid_parsed, RunId};
use crate::json::{Json, JsonView, NumberView};
use crate::sandbox::sandbox_resource;
use crate::store::Backend;
use crate::sweet::{prepare_turn, DurableIo, Turn};
use crate::text::opt_text;
use crate::time::Timestamp;
use crate::wire::json_parsed;

verus! {

// ---- the HTTP surface ----------------------------------------------------------

/// A missing run is answered with 404, a bad request with 400 and every other error with 500,
/// and the body has the message under `error`.
pub proof fn an_error_is_answered_with_its_status(
    e: Error,
    made: ApiError,
    code: u16,
    body: Json,
)
    requires
        call_ensures(ApiError::from_error, (e,), made),
        call_ensures(ApiError::status, (&made,), code),
        call_ensures(ApiError::body, (&made,), body),
    ensures
        e is RunNotFound ==> code == 404,
        !(e is RunNotFound) ==> code == 500,
        e matches Error::RunNotFound(id) ==> body@.member("error"@) == Some(
            JsonView::String("run not found: "@ + uuid_hyphenated(id.value)),
        ),
        e matches Error::Message(text) ==> body@.member("error"@) == Some(JsonView::String(text@)),
{
}

/// A bad request has the status 400.
pub proof fn a_bad_request_has_its_status(message: String, code: u16)
    requires
        call_ensures(ApiError::status, (&ApiError::BadRequest(message),), code),
    ensures
        code == 400,
{
}

/// An id in a path is the one that it spells; a text that is no id is a bad request.
pub proof fn an_id_is_the_one_that_is_spelled(text: &str, r: Result<RunId, ApiError>)
    requires
        call_ensures(crate::api::parse_id, (text,), r),
    ensures
        uuid_parsed(text@) matches Ok(value) ==> (r matches Ok(id) && id.value == value),
        uuid_parsed(text@) is Err ==> (r matches Err(e) && e is BadRequest),
{
}

/// A stream ends where its run has ended, goes on and forgets its failures after a good round,
/// and gives up at the twentieth failure in a row.
pub proof fn a_stream_is_judged_by_its_rounds(
    stream: &mut EventStream,
    read_failed: bool,
    found: Option<bool>,
    step: StreamStep,
)
    requires
        call_ensures(EventStream::judge, (stream, read_failed, found), step),
        old(stream).errors < 20,
    ensures
        final(stream).cursor == old(stream).cursor,
        final(stream).run_id == old(stream).run_id,
        step is Finish <==> found == Some(true),
        found != Some(true) && (read_failed || found is None) ==> {
            &&& final(stream).errors == old(stream).errors + 1
            &&& step is GiveUp <==> old(stream).errors == 19
        },
        !read_failed && found == Some(false) ==> step is Wait && final(stream).errors == 0,
{
}

// ---- requests to a sandbox -----------------------------------------------------

/// The headers of a request: those of its protocol, and the token where there is one.
pub proof fn requests_carry_their_headers(
    sandbox: &E2bSandbox,
    files: Vec<(String, String)>,
    rpc: Vec<(String, String)>,
    start: Vec<(String, String)>,
)
    requires
        call_ensures(E2bSandbox::files_headers, (sandbox,), files),
        call_ensures(E2bSandbox::rpc_headers, (sandbox,), rpc),
        call_ensures(E2bSandbox::start_headers, (sandbox,), start),
    ensures
        ({
            let more: int = if sandbox.access_token is Some {
                1
            } else {
                0
            };
            &&& files@.len() == more
            &&& rpc@.len() == 1 + more
            &&& rpc@[0].0@ == "Connect-Protocol-Version"@ && rpc@[0].1@ == "1"@
            &&& start@.len() == 2 + more
            &&& start@[0].0@ == "Content-Type"@ && start@[0].1@ == "application/connect+json"@
            &&& start@[1].0@ == "Connect-Protocol-Version"@ && start@[1].1@ == "1"@
            &&& sandbox.access_token matches Some(token) ==> {
                &&& files@[0].0@ == "X-Access-Token"@ && files@[0].1@ == token@
                &&& rpc@[1].0@ == "X-Access-Token"@ && rpc@[1].1@ == token@
                &&& start@[2].0@ == "X-Access-Token"@ && start@[2].1@ == token@
            }
        }),
{
    assert(files@.len() == bridge::headers_view(files@).len());
    assert(rpc@.len() == bridge::headers_view(rpc@).len());
    assert(start@.len() == bridge::headers_view(start@).len());
    assert(bridge::headers_view(rpc@)[0] == (rpc@[0].0@, rpc@[0].1@));
    assert(bridge::headers_view(start@)[0] == (start@[0].0@, start@[0].1@));
    assert(bridge::headers_view(start@)[1] == (start@[1].0@, start@[1].1@));
    if sandbox.access_token is Some {
        assert(bridge::headers_view(files@)[0] == (files@[0].0@, files@[0].1@));
        assert(bridge::headers_view(rpc@)[1] == (rpc@[1].0@, rpc@[1].1@));
        assert(bridge::headers_view(start@)[2] == (start@[2].0@, start@[2].1@));
    }
}

/// The address of a file has its path and the user.
pub proof fn a_file_is_addressed_by_path_and_user(
    sandbox: &E2bSandbox,
    path: &str,
    r: Result<String, SandboxError>,
)
    requires
        call_ensures(E2bSandbox::files_url, (sandbox, path), r),
    ensures
        match url_with_query(
            sandbox.host_base@ + "/files"@,
            ("path"@, path@),
            ("username"@, sandbox.user@),
        ) {
            Ok(url) => r matches Ok(text) && text@ == url,
            Err(message) => r matches Err(e) && e@ == "building files url: "@ + message,
        },
{
    assert(sandbox@.host_base == sandbox.host_base@ && sandbox@.user == sandbox.user@);
}

/// A sandbox is attached to by its lease: its id names the host, and its token goes with it.
pub proof fn a_sandbox_is_attached_to_by_its_lease(metadata: &Json, r: Option<E2bSandbox>)
    requires
        call_ensures(E2bSandbox::from_resource_metadata, (metadata,), r),
    ensures
        r is Some <==> (metadata@.member("sandbox_id"@) matches Some(JsonView::String(_))),
        r matches Some(sandbox) ==> {
            let id = metadata@.member_text("sandbox_id"@)->0;
            &&& opt_text(sandbox.access_token) == metadata@.member_text("access_token"@)
            &&& sandbox.user@ == "user"@
            &&& metadata@.member("domain"@) matches Some(JsonView::String(domain))
                ==> sandbox.host_base@ == "https://"@ + crate::text::decimal(49983) + "-"@ + id
                + "."@ + domain
            &&& metadata@.member("domain"@) is None ==> sandbox.host_base@ == "https://"@
                + crate::text::decimal(49983) + "-"@ + id + "."@ + "e2b.app"@
        },
{
    if let Some(sandbox) = r {
        assert(sandbox@.host_base == sandbox.host_base@ && sandbox@.user == sandbox.user@);
        assert(sandbox@.access_token == opt_text(sandbox.access_token));
    }
}

/// A command is started by a login shell, in its directory and with its variables, and its
/// request is one frame that holds the document.
pub proof fn a_command_is_started_by_a_shell(
    command: &str,
    cwd: Option<&str>,
    env: &Vec<(String, String)>,
    doc: Json,
    body: Vec<u8>,
)
    requires
        call_ensures(bridge::start_request, (command, cwd, env), doc),
        call_ensures(bridge::start_body, (command, cwd, env), body),
    ensures
        doc@.member("stdin"@) == Some(JsonView::Bool(false)),
        doc@.member("process"@) matches Some(process) && {
            &&& process.member("cmd"@) == Some(JsonView::String("/bin/bash"@))
            &&& process.member("args"@) == Some(
                JsonView::Array(
                    seq![
                        JsonView::String("-l"@),
                        JsonView::String("-c"@),
                        JsonView::String(command@),
                    ],
                ),
            )
            &&& cwd matches Some(dir) ==> process.member("cwd"@) == Some(JsonView::String(dir@))
            &&& cwd is None ==> process.member("cwd"@) is None
        },
        body@.len() >= 5,
        body@[0] == 0,
        body@.skip(5) == bridge::doc_bytes(doc@),
{
    super::sandboxes::a_command_is_run_by_a_shell(command@, bridge::opt_str(cwd), env@);
    reveal_strlit("process");
    reveal_strlit("stdin");
    reveal_strlit("cmd");
    reveal_strlit("args");
    reveal_strlit("envs");
    reveal_strlit("cwd");
    assert("process"@.len() == 7 && "stdin"@.len() == 5 && "cmd"@.len() == 3 && "args"@.len() == 4
        && "envs"@.len() == 4 && "cwd"@.len() == 3);
    assert("args"@[0] == 'a' && "envs"@[0] == 'e');
    assert("cmd"@[1] == 'm' && "cwd"@[1] == 'w');
    assert(body@.skip(5) =~= bridge::doc_bytes(doc@));
}

// ---- replies of a sandbox ------------------------------------------------------

/// A call that was refused fails; one that was not gives the document of its body.
pub proof fn a_reply_gives_its_document(
    method: &str,
    success: bool,
    status: &str,
    body: &[u8],
    r: Result<Json, SandboxError>,
)
    requires
        call_ensures(bridge::fs_reply, (method, success, status, body), r),
    ensures
        r is Ok <==> success && json_parsed(body@) is Ok,
        r matches Ok(doc) ==> json_parsed(body@) == Ok::<JsonView, Seq<char>>(doc@),
{
}

/// A command that was refused fails; one that was not gives what its frames brought.
pub proof fn a_command_reply_is_what_its_frames_brought(
    success: bool,
    status: &str,
    body: &[u8],
    r: Result<CommandOutput, SandboxError>,
)
    requires
        call_ensures(bridge::command_reply, (success, status, body), r),
    ensures
        !success ==> r is Err,
        success && envelope::frames(body@) is None ==> r is Err,
        success && envelope::frames(body@) == Some(Seq::<envelope::FrameView>::empty()) ==> (
        r matches Ok(output) && output.exit_code == -1),
{
    if success && envelope::frames(body@) == Some(Seq::<envelope::FrameView>::empty()) {
        super::sandboxes::a_command_gives_its_output(Seq::<envelope::FrameView>::empty());
        assert(r->Ok_0@.exit_code == r->Ok_0.exit_code);
    }
}

/// The reply to a question about a file is its entry, and the reply to a listing has one entry
/// for each document, in their order; without a list there is none.
pub proof fn replies_about_files_tell_their_entries(
    path: &str,
    doc: &Json,
    stat: Result<FileMetadata, SandboxError>,
    list: Result<Vec<DirEntry>, SandboxError>,
)
    requires
        call_ensures(bridge::stat_reply, (path, doc), stat),
        call_ensures(bridge::list_reply, (path, doc), list),
    ensures
        doc@.member("entry"@) is None ==> stat is Err,
        stat matches Err(e) ==> e@ == "stat "@ + path@ + ": not an entry"@,
        doc@.member("entries"@) is None ==> (list matches Ok(entries) && entries@.len() == 0),
        doc@.member("entries"@) matches Some(JsonView::Array(items)) ==> (list matches Ok(entries)
            ==> entries@.len() == items.len() && forall|i: int|
            #![trigger entries@[i]]
            0 <= i < items.len() ==> (items[i].member("name"@) matches Some(JsonView::String(name))
                ==> entries@[i].name@ == name) && (items[i].member("path"@) matches Some(
                JsonView::String(path),
            ) ==> entries@[i].path@ == path)),
        (stat matches Ok(metadata) && (doc@.member("entry"@) matches Some(entry) && (entry.member(
            "size"@,
        ) matches Some(JsonView::Number(NumberView::Unsigned(n))) && n <= i64::MAX
            && metadata.size != n))) ==> false,
{
    if let Ok(metadata) = stat {
        let entry = choose|entry: EntryInfo| #[trigger]
            bridge::describes(bridge::stat_part(doc@), entry) && metadata == entry.metadata();
        assert(bridge::describes(bridge::stat_part(doc@), entry));
    }
    if let Ok(entries) = list {
        assert forall|i: int| 0 <= i < entries@.len() implies bridge::lists_entry(
            bridge::list_part(doc@)->Array_0[i],
            #[trigger] entries@[i],
        ) by {}
    }
}

/// A file is read as text exactly where its bytes are the encoding of one.
pub proof fn a_file_is_text_where_its_bytes_are(
    path: &str,
    bytes: Vec<u8>,
    r: Result<String, SandboxError>,
    text: Seq<char>,
)
    requires
        call_ensures(bridge::file_text, (path, bytes), r),
    ensures
        r matches Ok(read) ==> bytes@ == vstd::utf8::encode_utf8(read@),
        bytes@ == vstd::utf8::encode_utf8(text) ==> r is Ok,
        r matches Err(e) ==> e@ == path@ + " is not utf-8: "@ + utf8_error(bytes@),
{
    assert(crate::codec::utf8_of(bytes@, text) == (bytes@ == vstd::utf8::encode_utf8(text)));
}

/// A sandbox was created where the service said so and told its id.
pub proof fn a_creation_succeeds_where_the_reply_has_an_id(
    success: bool,
    status: &str,
    body: Result<Vec<u8>, String>,
    r: Result<CreatedSandbox, String>,
)
    requires
        call_ensures(e2b::create_reply, (success, status, body), r),
    ensures
        !success ==> (r matches Err(message) && message@ == "e2b create failed: HTTP "@ + status@),
        body is Err ==> r is Err,
        r matches Ok(created) ==> (body matches Ok(bytes) && (json_parsed(bytes@) matches Ok(doc)
            && doc.member("sandboxID"@) == Some(JsonView::String(created.sandbox_id@)))),
        success && (body matches Ok(bytes) && (json_parsed(bytes@) matches Ok(doc) && (doc.member(
            "sandboxID"@,
        ) matches Some(JsonView::String(_))) && doc.member("domain"@) is None && doc.member(
            "envdAccessToken"@,
        ) is None)) ==> r is Ok,
{
    if let Ok(created) = r {
        assert(created@.sandbox_id == created.sandbox_id@);
    }
}

// ---- replies of a browser ------------------------------------------------------

/// What a browser said is given without white space at its ends; a command that failed is an
/// error that tells its exit code.
pub proof fn a_browser_gives_what_it_said(
    args: &str,
    run: Result<CommandOutput, String>,
    r: Result<String, ComputerUseError>,
)
    requires
        call_ensures(computer::act_reply, (args, run), r),
    ensures
        run matches Ok(output) ==> (r is Ok <==> output.exit_code == 0),
        run matches Ok(output) ==> (r matches Ok(said) ==> said@ == trimmed(output.stdout@)),
        run matches Err(message) ==> (r matches Err(ComputerUseError::Platform(told)) && told@
            == message@),
        run matches Ok(output) ==> (r matches Err(e) ==> (e matches ComputerUseError::Platform(
            told,
        ) && told@ == "browserctl "@ + args@ + " (exit "@ + crate::text::signed_decimal(
            output.exit_code as int,
        ) + "): "@ + output.stderr@)),
{
}

/// An observation has the size of the screen that the output tells; a tree only where it was
/// asked for; and none where the command failed.
pub proof fn an_observation_is_what_the_browser_said(
    shot: bool,
    tree: bool,
    run: Result<CommandOutput, String>,
    r: Result<Observation, ComputerUseError>,
)
    requires
        call_ensures(computer::observe_reply, (shot, tree, run), r),
    ensures
        run is Err ==> r is Err,
        run matches Ok(output) ==> (output.exit_code != 0 ==> r is Err),
        r matches Ok(seen) ==> {
            &&& !tree ==> seen.accessibility_tree is None
            &&& run matches Ok(output) && (json_parsed(
                vstd::utf8::encode_utf8(trimmed(output.stdout@)),
            ) matches Ok(doc) && {
                &&& doc.member("width"@) matches Some(JsonView::Number(NumberView::Unsigned(n)))
                    ==> seen.width == n
                &&& doc.member("height"@) matches Some(JsonView::Number(NumberView::Unsigned(n)))
                    ==> seen.height == n
                &&& doc.member("title"@) matches Some(JsonView::String(title)) ==> opt_text(
                    seen.active_window_title,
                ) == Some(title)
                &&& doc.member("outline"@) matches Some(JsonView::String(outline)) ==> (tree ==> (
                seen.accessibility_tree matches Some(node) && node.value@ == outline))
            })
        },
{
}

/// A browser command is the one that it was told, and texts are quoted for the shell.
pub proof fn a_text_is_quoted_for_the_shell(text: &str, quoted: String)
    requires
        call_ensures(computer::shell_quote, (text,), quoted),
    ensures
        computer::shell_word(quoted@, false) == Some(text@),
{
    computer::a_shell_reads_a_quoted_text_as_the_text(text@);
}

// ---- agents --------------------------------------------------------------------

/// A tool call and its result are logged with the id and the name, and the result with what it
/// begins with.
pub proof fn tool_calls_are_logged<B: Backend>(
    io: &DurableIo,
    called: &mut B,
    answered: &mut B,
    id: &str,
    name: &str,
    result: &str,
    at: Timestamp,
)
    requires
        call_ensures(DurableIo::on_tool_call::<B>, (io, called, id, name, at), ()),
        call_ensures(DurableIo::on_tool_result::<B>, (io, answered, id, name, result, at), ()),
        old(called).reliable(),
        old(answered).reliable(),
    ensures
        ({
            let log = final(called).store().log(io.run_id);
            &&& log.len() == old(called).store().log(io.run_id).len() + 1
            &&& log.last().kind is ToolCallRecorded
            &&& log.last().payload.member("id"@) == Some(JsonView::String(id@))
            &&& log.last().payload.member("name"@) == Some(JsonView::String(name@))
        }),
        ({
            let log = final(answered).store().log(io.run_id);
            &&& log.len() == old(answered).store().log(io.run_id).len() + 1
            &&& log.last().kind is ToolCallRecorded
            &&& log.last().payload.member("id"@) == Some(JsonView::String(id@))
            &&& log.last().payload.member("name"@) == Some(JsonView::String(name@))
            &&& log.last().payload.member("result_preview"@) matches Some(JsonView::String(shown))
            &&& result@.len() <= 500 ==> shown == result@
            &&& result@.len() > 500 ==> shown == result@.take(500)
        }),
{
    reveal_strlit("id");
    reveal_strlit("name");
    reveal_strlit("result_preview");
    assert("id"@.len() == 2 && "name"@.len() == 4 && "result_preview"@.len() == 14);
}

/// A turn is prepared with the answers that wait: it resumes where calls wait for them and
/// begins with the goal where none do; an agent that could not be built is a driver's error.
pub proof fn a_turn_is_prepared_with_the_answers<B: Backend>(
    ctx: &mut RunContext<B>,
    built: Result<bool, String>,
    r: Result<(DurableIo, Turn), Error>,
)
    requires
        call_ensures(prepare_turn::<B>, (ctx, built), r),
    ensures
        built matches Err(message) ==> (r matches Err(e) && e@ == ErrorView::Driver(message@))
            && final(ctx).store() == old(ctx).store(),
        (built matches Ok(waits) && r is Ok) ==> {
            &&& r->Ok_0.0.run_id == old(ctx).id()
            &&& built->Ok_0 ==> r->Ok_0.1 is Resume
            &&& !built->Ok_0 ==> (r->Ok_0.1 matches Turn::Begin(goal) && goal@
                == old(ctx).snapshot().goal)
        },
{
}

/// The sandbox of a run is one that it leases and that is active; there is none only where no
/// such lease is there.
pub proof fn the_sandbox_of_a_run_is_leased_to_it<B: Backend>(
    ctx: &RunContext<B>,
    r: Result<Option<crate::resource::Resource>, Error>,
    k: u128,
)
    requires
        call_ensures(sandbox_resource::<B>, (ctx,), r),
        ctx.reliable(),
        ctx.store().resources.contains_key(k),
    ensures
        r is Ok,
        r->Ok_0 matches Some(found) ==> found.run_id == ctx.id() && found.kind is CodeSandbox
            && found.status is Active,
        (r->Ok_0 is None && ctx.store().resources[k].run_id == ctx.id()) ==> !(
        ctx.store().resources[k].kind is CodeSandbox && ctx.store().resources[k].status is Active),
{
}

} // verus!
