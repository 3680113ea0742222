//! Commands and files inside a leased sandbox.
//!
//! The sandbox runs a daemon, `envd`, that is reached at
//! `https://{ENVD_PORT}-{sandbox_id}.{domain}`. Here stand what is sent to it and what
//! its answers mean; the sending is the caller's.
//!
//! - The run-as user is the user name of the basic authentication; a secured daemon
//!   also wants an access token.
//! - File metadata goes by unary calls with JSON bodies at
//!   `/filesystem.Filesystem/{Method}`.
//! - File contents go by `GET` and `POST` at `/files?path=&username=`.
//! - A command goes by a stream of frames at `/process.Process/Start`.

use vstd::prelude::*;

use crate::codec::{
    base64_padded, base64_unpadded, decode_padded, decode_unpadded, lossy_text, parse_instant,
    strict_text, url_with_params, utf8_error, utf8_lossy, utf8_of,
};
use crate::digits::{integer_of, parse_integer};
use crate::document::{opt_text_from, opt_text_in};
use crate::driver::{memo, stepped, RunContext};
use crate::envelope::{decode_frames, encode_frame, frames, Frame, FrameView, FLAG_END_STREAM};
use crate::error::Error;
use crate::ids::{time_ordered, ResourceId, RunId};
use crate::json::{items_view, Json, JsonView, Number, NumberView};
use crate::sandbox::{
    always_creates, attached, creation_pauses_for, handle_of, holds_sandbox, not_created, provision_sandbox,
    provisioned, provisioned_as, provisioned_by, sandbox_id_of, sandbox_in_use, sandbox_leased,
    sandbox_resource, to_be_created, SandboxHandleView, SandboxProvider, PROVISION_STEP,
};
use crate::store::{views, Backend, Store};
use crate::text::{concat2, concat3, concat4, decimal_text, opt_text};
use crate::time::{Duration, Timestamp};
use crate::wire::{as_kept, json_parsed, json_printed};

verus! {

/// The port of the daemon in every sandbox.
pub const ENVD_PORT: u16 = 49983;

/// The domain that serves sandboxes unless another is given.
pub const DEFAULT_DOMAIN: &'static str = "e2b.app";

/// The user that commands run as and that owns written files unless another is given.
pub const DEFAULT_USER: &'static str = "user";

/// An error of the sandbox, with its message.
#[derive(Debug, PartialEq, Eq)]
pub enum SandboxError {
    /// The backend of the sandbox failed.
    Backend(String),
}

impl View for SandboxError {
    type V = Seq<char>;

    open spec fn view(&self) -> Seq<char> {
        match *self {
            SandboxError::Backend(message) => message@,
        }
    }
}

/// The model of a result: the value's model, or the message of the error.
pub open spec fn reply<T: View>(r: Result<T, SandboxError>) -> Result<T::V, Seq<char>> {
    match r {
        Ok(value) => Ok(value@),
        Err(e) => Err(e@),
    }
}

// ---- connecting ----------------------------------------------------------------

/// How to reach the daemon of a sandbox.
#[derive(Debug)]
pub struct ConnectOptions {
    /// The domain that serves the sandbox.
    pub domain: String,
    /// The run-as user.
    pub user: String,
    /// The access token of a secured daemon.
    pub access_token: Option<String>,
}

impl Default for ConnectOptions {
    fn default() -> (r: ConnectOptions)
        ensures
            r.domain@ == DEFAULT_DOMAIN@,
            r.user@ == DEFAULT_USER@,
            r.access_token is None,
    {
        ConnectOptions {
            domain: DEFAULT_DOMAIN.to_owned(),
            user: DEFAULT_USER.to_owned(),
            access_token: None,
        }
    }
}

/// The daemon of one sandbox: where it is and as whom to talk to it.
#[derive(Debug)]
pub struct E2bSandbox {
    /// `https://{port}-{id}.{domain}`, without a closing slash.
    pub host_base: String,
    /// The run-as user.
    pub user: String,
    /// The access token of a secured daemon.
    pub access_token: Option<String>,
}

/// The model of an [`E2bSandbox`].
pub struct E2bSandboxView {
    /// `https://{port}-{id}.{domain}`, without a closing slash.
    pub host_base: Seq<char>,
    /// The run-as user.
    pub user: Seq<char>,
    /// The access token of a secured daemon.
    pub access_token: Option<Seq<char>>,
}

impl View for E2bSandbox {
    type V = E2bSandboxView;

    open spec fn view(&self) -> E2bSandboxView {
        E2bSandboxView {
            host_base: self.host_base@,
            user: self.user@,
            access_token: opt_text(self.access_token),
        }
    }
}

/// The model of a list of request headers, each a name and a value.
pub open spec fn headers_view(headers: Seq<(String, String)>) -> Seq<(Seq<char>, Seq<char>)> {
    headers.map_values(|header: (String, String)| (header.0@, header.1@))
}

impl E2bSandboxView {
    /// The headers of a request, with the access token where the daemon is secured.
    pub open spec fn authed(self, headers: Seq<(Seq<char>, Seq<char>)>) -> Seq<
        (Seq<char>, Seq<char>),
    > {
        match self.access_token {
            Some(token) => headers.push(("X-Access-Token"@, token)),
            None => headers,
        }
    }
}

/// Where the daemon of the sandbox `id` is reached.
pub open spec fn host_of(id: Seq<char>, domain: Seq<char>) -> Seq<char> {
    "https://"@ + crate::text::decimal(ENVD_PORT as nat) + "-"@ + id + "."@ + domain
}

/// The daemon that the metadata of a leased sandbox leads to; `None` without the
/// member `sandbox_id`.
pub open spec fn attach(metadata: JsonView) -> Option<E2bSandboxView> {
    match metadata.member_text("sandbox_id"@) {
        Some(id) => Some(
            E2bSandboxView {
                host_base: host_of(
                    id,
                    match metadata.member_text("domain"@) {
                        Some(domain) => domain,
                        None => DEFAULT_DOMAIN@,
                    },
                ),
                user: DEFAULT_USER@,
                access_token: metadata.member_text("access_token"@),
            },
        ),
        None => None,
    }
}

impl E2bSandbox {
    /// The daemon of the sandbox `sandbox_id`.
    pub fn connect(sandbox_id: &str, opts: ConnectOptions) -> (r: E2bSandbox)
        ensures
            r@ == (E2bSandboxView {
                host_base: host_of(sandbox_id@, opts.domain@),
                user: opts.user@,
                access_token: opt_text(opts.access_token),
            }),
    {
        let head: String = concat4(
            "https://",
            decimal_text(ENVD_PORT as u128).as_str(),
            "-",
            sandbox_id,
        );
        let host_base: String = concat3(head.as_str(), ".", opts.domain.as_str());
        E2bSandbox::with_host_base(host_base, opts)
    }

    /// The daemon at an explicit address.
    pub fn with_host_base(host_base: String, opts: ConnectOptions) -> (r: E2bSandbox)
        ensures
            r@ == (E2bSandboxView {
                host_base: host_base@,
                user: opts.user@,
                access_token: opt_text(opts.access_token),
            }),
    {
        E2bSandbox { host_base, user: opts.user, access_token: opts.access_token }
    }

    /// The daemon that the metadata of a leased sandbox leads to: the way back after a
    /// crash. `None` where the metadata names no sandbox.
    pub fn from_resource_metadata(metadata: &Json) -> (r: Option<E2bSandbox>)
        ensures
            match r {
                Some(sandbox) => attach(metadata@) == Some(sandbox@),
                None => attach(metadata@) is None,
            },
    {
        match metadata.get_str("sandbox_id") {
            Some(id) => {
                let domain: String = match metadata.get_str("domain") {
                    Some(domain) => domain.to_owned(),
                    None => DEFAULT_DOMAIN.to_owned(),
                };
                let access_token: Option<String> = match metadata.get_str("access_token") {
                    Some(token) => Some(token.to_owned()),
                    None => None,
                };
                let opts = ConnectOptions { domain, user: DEFAULT_USER.to_owned(), access_token };
                Some(E2bSandbox::connect(id, opts))
            },
            None => None,
        }
    }

    /// The URL of the contents of the file at `path`.
    pub fn files_url(&self, path: &str) -> (r: Result<String, SandboxError>)
        ensures
            reply(r) == (match crate::codec::url_with_query(
                self@.host_base + "/files"@,
                ("path"@, path@),
                ("username"@, self@.user),
            ) {
                Ok(url) => Ok::<Seq<char>, Seq<char>>(url),
                Err(message) => Err("building files url: "@ + message),
            }),
    {
        let base: String = concat2(self.host_base.as_str(), "/files");
        match url_with_params(base.as_str(), ("path", path), ("username", self.user.as_str())) {
            Ok(url) => Ok(url),
            Err(message) => Err(
                SandboxError::Backend(concat2("building files url: ", message.as_str())),
            ),
        }
    }

    /// The URL of a unary call on files.
    pub fn rpc_url(&self, method: &str) -> (r: String)
        ensures
            r@ == self@.host_base + "/filesystem.Filesystem/"@ + method@,
    {
        concat3(self.host_base.as_str(), "/filesystem.Filesystem/", method)
    }

    /// The URL of the call that starts a command.
    pub fn start_url(&self) -> (r: String)
        ensures
            r@ == self@.host_base + "/process.Process/Start"@,
    {
        concat2(self.host_base.as_str(), "/process.Process/Start")
    }

    /// The headers of a request, with the access token where the daemon is secured.
    /// The basic authentication of [`E2bSandbox::user`], with an empty password, is the
    /// sender's.
    pub fn authed(&self, headers: Vec<(String, String)>) -> (r: Vec<(String, String)>)
        ensures
            headers_view(r@) == self@.authed(headers_view(headers@)),
    {
        let mut r: Vec<(String, String)> = headers;
        if let Some(token) = &self.access_token {
            r.push(("X-Access-Token".to_owned(), token.clone()));
        }
        r
    }

    /// The headers of a request for the contents of a file.
    pub fn files_headers(&self) -> (r: Vec<(String, String)>)
        ensures
            headers_view(r@) == self@.authed(Seq::empty()),
    {
        let headers: Vec<(String, String)> = Vec::new();
        proof {
            assert(headers_view(headers@) =~= Seq::empty());
        }
        self.authed(headers)
    }

    /// The headers of a unary call on files.
    pub fn rpc_headers(&self) -> (r: Vec<(String, String)>)
        ensures
            headers_view(r@) == self@.authed(seq![("Connect-Protocol-Version"@, "1"@)]),
    {
        let mut headers: Vec<(String, String)> = Vec::new();
        headers.push(("Connect-Protocol-Version".to_owned(), "1".to_owned()));
        proof {
            assert(headers_view(headers@) =~= seq![("Connect-Protocol-Version"@, "1"@)]);
        }
        self.authed(headers)
    }

    /// The headers of the call that starts a command.
    pub fn start_headers(&self) -> (r: Vec<(String, String)>)
        ensures
            headers_view(r@) == self@.authed(
                seq![
                    ("Content-Type"@, "application/connect+json"@),
                    ("Connect-Protocol-Version"@, "1"@),
                ],
            ),
    {
        let mut headers: Vec<(String, String)> = Vec::new();
        headers.push(("Content-Type".to_owned(), "application/connect+json".to_owned()));
        headers.push(("Connect-Protocol-Version".to_owned(), "1".to_owned()));
        proof {
            assert(headers_view(headers@) =~= seq![
                ("Content-Type"@, "application/connect+json"@),
                ("Connect-Protocol-Version"@, "1"@),
            ]);
        }
        self.authed(headers)
    }
}

/// Whether the lease on every sandbox that the run `id` uses names it.
pub open spec fn all_named(store: Store, id: RunId) -> bool {
    forall|k: u128| #[trigger]
        store.resources.contains_key(k) && store.resources[k].run_id == id && sandbox_in_use(
            store.resources[k],
        ) ==> sandbox_id_of(store.resources[k]) is Some
}

/// Whether provisioning for the run `id`, which holds no sandbox, turns `before` into
/// `after` and gives the daemon `sandbox`: a sandbox is provisioned, and the daemon is the
/// one that the connection details in its lease lead to. A creation that was not journaled
/// is the provider's.
pub open spec fn daemon_provisioned<S: SandboxProvider>(
    provider: &S,
    before: Store,
    id: RunId,
    sandbox: E2bSandboxView,
    after: Store,
) -> bool {
    exists|doc: JsonView|
        {
            &&& #[trigger] provisioned_as(
                before,
                id,
                doc,
                SandboxHandleView::of_journal(doc)->0.id,
                after,
            )
            &&& attach(SandboxHandleView::of_journal(doc)->0.lease_metadata()) == Some(sandbox)
            &&& memo(before, id, PROVISION_STEP@) is None ==> handle_of(provider, doc)
        }
}

/// Provisions a sandbox for the run of `ctx`, or attaches to the one it holds, and
/// gives its daemon, read from the lease.
pub fn provision_e2b_sandbox<B: Backend, S: SandboxProvider, P: Fn(Duration)>(
    ctx: &mut RunContext<B>,
    provider: &S,
    pause: P,
) -> (r: Result<E2bSandbox, Error>)
    requires
        old(ctx).inv(),
        to_be_created(old(ctx).store(), old(ctx).id()) ==> provider.may_be_asked(),
        to_be_created(old(ctx).store(), old(ctx).id()) ==> forall|delay: Duration|
            creation_pauses_for(delay) ==> #[trigger] call_requires(pause, (delay,)),
    ensures
        final(ctx).same_turn(old(ctx)),
        r matches Ok(sandbox) ==> exists|k: u128|
            {
                &&& #[trigger] final(ctx).store().resources.contains_key(k)
                &&& final(ctx).store().resources[k].run_id == old(ctx).id()
                &&& sandbox_in_use(final(ctx).store().resources[k])
                &&& attach(final(ctx).store().resources[k].metadata) == Some(sandbox@)
            },
        attached(old(ctx).store(), old(ctx).id()) ==> final(ctx).store() == old(ctx).store(),
        old(ctx).reliable() && attached(old(ctx).store(), old(ctx).id()) && all_named(
            old(ctx).store(),
            old(ctx).id(),
        ) ==> r is Ok,
        !attached(old(ctx).store(), old(ctx).id()) ==> (r matches Ok(sandbox)
            ==> daemon_provisioned(
            provider,
            old(ctx).store(),
            old(ctx).id(),
            sandbox@,
            final(ctx).store(),
        )),
        old(ctx).reliable() && !attached(old(ctx).store(), old(ctx).id()) && all_named(
            old(ctx).store(),
            old(ctx).id(),
        ) ==> match memo(old(ctx).store(), old(ctx).id(), PROVISION_STEP@) {
            Some(doc) => r is Ok == SandboxHandleView::of_journal(doc) is Some,
            None => r matches Err(e) ==> not_created(
                provider,
                old(ctx).store(),
                old(ctx).id(),
                e@,
                final(ctx).store(),
            ),
        },
        old(ctx).reliable() && all_named(old(ctx).store(), old(ctx).id()) && memo(
            old(ctx).store(),
            old(ctx).id(),
            PROVISION_STEP@,
        ) is None && always_creates(provider) ==> r is Ok,
{
    let ghost before = ctx.store();
    let ghost id = ctx.id();
    match provision_sandbox(ctx, provider, pause) {
        Ok(name) => {
            proof {
                if !attached(before, id) {
                    lemma_provisioned_alone(provider, before, id, name@, ctx.store());
                }
            }
        },
        Err(e) => return Err(e),
    }
    let found = match sandbox_resource(ctx) {
        Ok(found) => found,
        Err(e) => return Err(e),
    };
    match found {
        Some(resource) => {
            proof {
                let k = resource.id.value;
                assert(ctx.store().resources.contains_key(k));
                assert(ctx.store().resources[k] == resource@);
            }
            match E2bSandbox::from_resource_metadata(&resource.metadata) {
                Some(sandbox) => Ok(sandbox),
                None => Err(
                    Error::Driver("leased sandbox metadata has no sandbox_id".to_owned()),
                ),
            }
        },
        None => {
            proof {
                if attached(before, id) {
                    let sandbox = choose|sandbox: Seq<char>| #[trigger]
                        holds_sandbox(before, ctx.id(), sandbox);
                    assert(holds_sandbox(before, ctx.id(), sandbox));
                }
            }
            Err(Error::Driver("sandbox lease missing after provision".to_owned()))
        },
    }
}

/// The journaled handle of a sandbox that was provisioned.
spec fn new_handle<S: SandboxProvider>(
    provider: &S,
    before: Store,
    id: RunId,
    name: Seq<char>,
    after: Store,
) -> JsonView {
    choose|doc: JsonView|
        {
            &&& #[trigger] provisioned_as(before, id, doc, name, after)
            &&& memo(before, id, PROVISION_STEP@) is None ==> handle_of(provider, doc)
        }
}

/// A run that held no sandbox holds, once one is provisioned, the lease on that one alone,
/// among those whose metadata name a sandbox.
proof fn lemma_provisioned_alone<S: SandboxProvider>(
    provider: &S,
    before: Store,
    id: RunId,
    name: Seq<char>,
    after: Store,
)
    requires
        !attached(before, id),
        provisioned(before, id, name, after),
        memo(before, id, PROVISION_STEP@) is None ==> provisioned_by(
            provider,
            before,
            id,
            name,
            after,
        ),
    ensures
        ({
            let doc = new_handle(provider, before, id, name, after);
            let handle = SandboxHandleView::of_journal(doc)->0;
            &&& provisioned_as(before, id, doc, handle.id, after)
            &&& memo(before, id, PROVISION_STEP@) is None ==> handle_of(provider, doc)
            &&& attach(handle.lease_metadata()) is Some
            &&& forall|k: u128| #[trigger]
                after.resources.contains_key(k) && after.resources[k].run_id == id
                    && sandbox_id_of(after.resources[k]) is Some ==> after.resources[k].metadata
                    == handle.lease_metadata()
            &&& all_named(before, id) ==> all_named(after, id)
            &&& exists|k: u128| #[trigger]
                after.resources.contains_key(k) && after.resources[k].run_id == id
                    && sandbox_in_use(after.resources[k])
        }),
{
    if memo(before, id, PROVISION_STEP@) is None {
        let doc = choose|doc: JsonView|
            {
                &&& #[trigger] provisioned_as(before, id, doc, name, after)
                &&& handle_of(provider, doc)
            };
        assert(provisioned_as(before, id, doc, name, after) && handle_of(provider, doc));
    } else {
        let doc = choose|doc: JsonView| #[trigger] provisioned_as(before, id, doc, name, after);
        assert(provisioned_as(before, id, doc, name, after));
    }
    let doc = new_handle(provider, before, id, name, after);
    let handle = SandboxHandleView::of_journal(doc)->0;
    let (mid, resource_id, at) = choose|mid: Store, resource_id: ResourceId, at: Timestamp|
        {
            &&& #[trigger] stepped(before, id, PROVISION_STEP@, doc, mid)
            &&& time_ordered(resource_id.value)
            &&& SandboxHandleView::of_journal(doc) is Some
            &&& SandboxHandleView::of_journal(doc)->0.id == name
            &&& after == #[trigger] sandbox_leased(mid, id, doc, resource_id, at)
        };
    assert(mid.resources == before.resources);
    let new = resource_id.value;
    assert(after.resources == before.resources.insert(new, after.resources[new]));
    assert(after.resources.contains_key(new));
    assert forall|k: u128| #[trigger]
        after.resources.contains_key(k) && after.resources[k].run_id == id && sandbox_id_of(
            after.resources[k],
        ) is Some implies after.resources[k].metadata == handle.lease_metadata() by {
        if k != new {
            assert(before.resources.contains_key(k));
            let sandbox = sandbox_id_of(before.resources[k])->0;
            assert(holds_sandbox(before, id, sandbox));
        }
    }
    if all_named(before, id) {
        assert forall|k: u128| #[trigger]
            after.resources.contains_key(k) && after.resources[k].run_id == id
                && sandbox_in_use(after.resources[k]) implies sandbox_id_of(
            after.resources[k],
        ) is Some by {
            if k != new {
                assert(before.resources.contains_key(k));
            }
        }
    }
}

// ---- errors of the daemon ------------------------------------------------------

/// The document that bytes hold, if they hold one.
pub open spec fn doc_in(bytes: Seq<u8>) -> Option<JsonView> {
    match json_parsed(bytes) {
        Ok(doc) => Some(doc),
        Err(_) => None,
    }
}

/// The error in the document that ends a stream: of an object with the member `error`,
/// the code, or `error` where it has none, and the message, or nothing.
pub open spec fn stream_error(doc: JsonView) -> Option<Seq<char>> {
    match doc.member("error"@) {
        Some(error) => Some(
            "process stream error ["@ + (match error.member_text("code"@) {
                Some(code) => code,
                None => "error"@,
            }) + "]: "@ + (match error.member_text("message"@) {
                Some(message) => message,
                None => ""@,
            }),
        ),
        None => None,
    }
}

/// The error in a document that ends a stream.
pub fn stream_error_in(doc: &Json) -> (r: Option<String>)
    ensures
        opt_text(r) == stream_error(doc@),
{
    match doc.get("error") {
        Some(error) => {
            let code: &str = match error.get_str("code") {
                Some(code) => code,
                None => "error",
            };
            let message: &str = match error.get_str("message") {
                Some(message) => message,
                None => "",
            };
            Some(concat4("process stream error [", code, "]: ", message))
        },
        None => None,
    }
}

/// The error in the payload that ends a stream. A payload that is no JSON, or has no
/// member `error`, is no error.
pub fn end_stream_error(payload: &[u8]) -> (r: Option<String>)
    ensures
        opt_text(r) == (match doc_in(payload@) {
            Some(doc) => stream_error(doc),
            None => None,
        }),
{
    match Json::parse(payload) {
        Ok(doc) => stream_error_in(&doc),
        Err(_) => None,
    }
}

/// The error in the document that answers a refused call: its message, with its code
/// where it has one.
pub open spec fn call_error(doc: JsonView) -> Option<Seq<char>> {
    match (doc.member_text("code"@), doc.member_text("message"@)) {
        (Some(code), Some(message)) => Some("envd error ["@ + code + "]: "@ + message),
        (None, Some(message)) => Some(message),
        _ => None,
    }
}

/// The error in a document that answers a refused call.
pub fn call_error_in(doc: &Json) -> (r: Option<String>)
    ensures
        opt_text(r) == call_error(doc@),
{
    match (doc.get_str("code"), doc.get_str("message")) {
        (Some(code), Some(message)) => Some(concat4("envd error [", code, "]: ", message)),
        (None, Some(message)) => Some(message.to_owned()),
        _ => None,
    }
}

/// What a refused call is reported as: the error in its body, or else its status.
pub open spec fn refusal(body: Option<JsonView>, status: Seq<char>) -> Seq<char> {
    let told = match body {
        Some(doc) => call_error(doc),
        None => None,
    };
    match told {
        Some(message) => message,
        None => "HTTP "@ + status,
    }
}

/// What a refused call is reported as. `status` is the text of its status.
pub fn connect_error_message(bytes: &[u8], status: &str) -> (r: String)
    ensures
        r@ == refusal(doc_in(bytes@), status@),
{
    if let Ok(doc) = Json::parse(bytes) {
        if let Some(message) = call_error_in(&doc) {
            return message;
        }
    }
    concat2("HTTP ", status)
}

/// What the answer to a unary call means: the document in its body, or an error where
/// the call was refused or the body is no JSON.
pub open spec fn call_outcome(
    method: Seq<char>,
    success: bool,
    status: Seq<char>,
    body: Seq<u8>,
) -> Result<JsonView, Seq<char>> {
    if !success {
        Err(refusal(doc_in(body), status))
    } else {
        match json_parsed(body) {
            Ok(doc) => Ok(doc),
            Err(message) => Err(method + ": decode: "@ + message),
        }
    }
}

/// What the answer to a unary call means.
pub fn fs_reply(method: &str, success: bool, status: &str, body: &[u8]) -> (r: Result<
    Json,
    SandboxError,
>)
    ensures
        reply(r) == call_outcome(method@, success, status@, body@),
{
    if !success {
        return Err(SandboxError::Backend(connect_error_message(body, status)));
    }
    match Json::parse(body) {
        Ok(doc) => Ok(doc),
        Err(message) => Err(
            SandboxError::Backend(concat3(method, ": decode: ", message.as_str())),
        ),
    }
}

// ---- running a command ---------------------------------------------------------

/// What a command left behind.
#[derive(Debug, PartialEq, Eq)]
pub struct CommandOutput {
    /// What it wrote to standard output.
    pub stdout: String,
    /// What it wrote to standard error.
    pub stderr: String,
    /// Its exit code; -1 where none was captured.
    pub exit_code: i32,
}

/// The model of a [`CommandOutput`].
pub struct CommandOutputView {
    /// What it wrote to standard output.
    pub stdout: Seq<char>,
    /// What it wrote to standard error.
    pub stderr: Seq<char>,
    /// Its exit code; -1 where none was captured.
    pub exit_code: i32,
}

impl View for CommandOutput {
    type V = CommandOutputView;

    open spec fn view(&self) -> CommandOutputView {
        CommandOutputView {
            stdout: self.stdout@,
            stderr: self.stderr@,
            exit_code: self.exit_code,
        }
    }
}

/// The end of a process.
#[derive(Debug)]
pub struct EndEvent {
    /// The exit code, if it was captured.
    pub exit_code: Option<i32>,
    /// Why the process could not be run, if it could not.
    pub error: Option<String>,
}

/// What one frame of a running command tells: a piece of output in base64, the end, or
/// both, or nothing of interest.
#[derive(Debug)]
pub struct ProcessEvent {
    /// A piece of standard output, in base64.
    pub stdout: Option<String>,
    /// A piece of standard error, in base64.
    pub stderr: Option<String>,
    /// The end of the process.
    pub end: Option<EndEvent>,
}

/// The model of a [`ProcessEvent`].
pub struct ProcessEventView {
    /// A piece of standard output, in base64.
    pub stdout: Option<Seq<char>>,
    /// A piece of standard error, in base64.
    pub stderr: Option<Seq<char>>,
    /// The end of the process: the exit code, and why it could not be run.
    pub end: Option<(Option<i32>, Option<Seq<char>>)>,
}

impl View for ProcessEvent {
    type V = ProcessEventView;

    open spec fn view(&self) -> ProcessEventView {
        ProcessEventView {
            stdout: opt_text(self.stdout),
            stderr: opt_text(self.stderr),
            end: match self.end {
                Some(end) => Some((end.exit_code, opt_text(end.error))),
                None => None,
            },
        }
    }
}

/// What was collected of a running command.
pub struct Collected {
    /// Bytes of standard output.
    pub stdout: Seq<u8>,
    /// Bytes of standard error.
    pub stderr: Seq<u8>,
    /// The exit code, if it was captured.
    pub exit_code: Option<i32>,
}

impl Collected {
    /// Nothing collected.
    pub open spec fn nothing() -> Collected {
        Collected { stdout: Seq::empty(), stderr: Seq::empty(), exit_code: None }
    }

    /// What the caller gets of it.
    pub open spec fn output(self) -> CommandOutputView {
        CommandOutputView {
            stdout: utf8_lossy(self.stdout),
            stderr: utf8_lossy(self.stderr),
            exit_code: match self.exit_code {
                Some(code) => code,
                None => (-1) as i32,
            },
        }
    }
}

/// The bytes that a piece of output stands for: base64 with padding or without.
pub open spec fn piece(s: Seq<char>) -> Result<Seq<u8>, Seq<char>> {
    match base64_padded(s) {
        Ok(bytes) => Ok(bytes),
        Err(_) => match base64_unpadded(s) {
            Ok(bytes) => Ok(bytes),
            Err(message) => Err("invalid base64 in process output: "@ + message),
        },
    }
}

/// The bytes that an optional piece of output stands for.
pub open spec fn opt_piece(s: Option<Seq<char>>) -> Result<Seq<u8>, Seq<char>> {
    match s {
        Some(s) => piece(s),
        None => Ok(Seq::empty()),
    }
}

/// What is collected after one more event, or the error that ends the collecting.
pub open spec fn collect_event(got: Collected, event: ProcessEventView) -> Result<
    Collected,
    Seq<char>,
> {
    match opt_piece(event.stdout) {
        Err(message) => Err(message),
        Ok(out) => match opt_piece(event.stderr) {
            Err(message) => Err(message),
            Ok(err) => {
                let more = Collected {
                    stdout: got.stdout + out,
                    stderr: got.stderr + err,
                    exit_code: got.exit_code,
                };
                match event.end {
                    Some((_, Some(error))) => Err("process error: "@ + error),
                    Some((code, None)) => Ok(Collected { exit_code: code, ..more }),
                    None => Ok(more),
                }
            },
        },
    }
}

/// The 32-bit integer that a document is.
pub open spec fn int32_in(doc: JsonView) -> Option<i32> {
    match doc {
        JsonView::Number(NumberView::Unsigned(n)) => if n <= i32::MAX {
            Some(n as i32)
        } else {
            None
        },
        JsonView::Number(NumberView::Signed(n)) => if i32::MIN <= n <= i32::MAX {
            Some(n as i32)
        } else {
            None
        },
        _ => None,
    }
}

/// The optional exit code in the document of an end.
pub open spec fn exit_code_in(doc: JsonView) -> Option<Option<i32>> {
    match doc.given("exitCode"@) {
        Some(value) => match int32_in(value) {
            Some(code) => Some(Some(code)),
            None => None,
        },
        None => Some(None),
    }
}

/// The end of a process that a document stands for.
pub open spec fn end_in(doc: JsonView) -> Option<(Option<i32>, Option<Seq<char>>)> {
    if doc is Object && exit_code_in(doc) is Some && opt_text_in(doc, "error"@) is Some {
        Some((exit_code_in(doc)->0, opt_text_in(doc, "error"@)->0))
    } else {
        None
    }
}

/// The optional pieces of output in a document.
pub open spec fn data_in(doc: JsonView) -> Option<(Option<Seq<char>>, Option<Seq<char>>)> {
    match doc.given("data"@) {
        Some(data) => if data is Object && opt_text_in(data, "stdout"@) is Some && opt_text_in(
            data,
            "stderr"@,
        ) is Some {
            Some((opt_text_in(data, "stdout"@)->0, opt_text_in(data, "stderr"@)->0))
        } else {
            None
        },
        None => Some((None, None)),
    }
}

/// The optional end of a process in a document.
pub open spec fn opt_end_in(doc: JsonView) -> Option<
    Option<(Option<i32>, Option<Seq<char>>)>,
> {
    match doc.given("end"@) {
        Some(end) => match end_in(end) {
            Some(end) => Some(Some(end)),
            None => None,
        },
        None => Some(None),
    }
}

impl ProcessEventView {
    /// The event that a document stands for.
    pub open spec fn of_doc(doc: JsonView) -> Option<ProcessEventView> {
        match (data_in(doc), opt_end_in(doc)) {
            (Some((stdout, stderr)), Some(end)) => if doc is Object {
                Some(ProcessEventView { stdout, stderr, end })
            } else {
                None
            },
            _ => None,
        }
    }
}

/// What the payload of a frame that does not end the stream is read as: an object whose
/// optional member `event` is an event, or the message of the error.
pub open spec fn frame_event(payload: Seq<u8>) -> Result<Option<ProcessEventView>, Seq<char>> {
    match json_parsed(payload) {
        Ok(doc) => if doc is Object {
            match doc.given("event"@) {
                Some(event) => match ProcessEventView::of_doc(event) {
                    Some(event) => Ok(Some(event)),
                    None => Err("not a process event"@),
                },
                None => Ok(None),
            }
        } else {
            Err("not a process event"@)
        },
        Err(message) => Err(message),
    }
}

fn read_int32(doc: &Json) -> (r: Option<i32>)
    ensures
        r == int32_in(doc@),
{
    match doc {
        Json::Number(Number::Unsigned(n)) => if *n <= 0x7FFF_FFFF {
            Some(*n as i32)
        } else {
            None
        },
        Json::Number(Number::Signed(n)) => if *n >= -0x8000_0000 && *n <= 0x7FFF_FFFF {
            Some(*n as i32)
        } else {
            None
        },
        _ => None,
    }
}

/// The model of an end that was read.
pub open spec fn end_view(end: Option<EndEvent>) -> Option<(Option<i32>, Option<Seq<char>>)> {
    match end {
        Some(end) => Some((end.exit_code, opt_text(end.error))),
        None => None,
    }
}

fn read_end(doc: &Json) -> (r: Option<EndEvent>)
    ensures
        end_view(r) == end_in(doc@),
{
    if !doc.is_object() {
        return None;
    }
    let exit_code: Option<Option<i32>> = match doc.given("exitCode") {
        Some(value) => match read_int32(value) {
            Some(code) => Some(Some(code)),
            None => None,
        },
        None => Some(None),
    };
    match (exit_code, opt_text_from(doc, "error")) {
        (Some(exit_code), Some(error)) => Some(EndEvent { exit_code, error }),
        _ => None,
    }
}

/// The model of an event that was read.
pub open spec fn opt_event(event: Option<ProcessEvent>) -> Option<ProcessEventView> {
    match event {
        Some(event) => Some(event@),
        None => None,
    }
}

impl ProcessEvent {
    /// The event that `doc` stands for.
    pub fn from_doc(doc: &Json) -> (r: Option<ProcessEvent>)
        ensures
            opt_event(r) == ProcessEventView::of_doc(doc@),
    {
        if !doc.is_object() {
            return None;
        }
        let (stdout, stderr) = match doc.given("data") {
            Some(data) => {
                if !data.is_object() {
                    return None;
                }
                match (opt_text_from(data, "stdout"), opt_text_from(data, "stderr")) {
                    (Some(stdout), Some(stderr)) => (stdout, stderr),
                    _ => return None,
                }
            },
            None => (None, None),
        };
        let end: Option<EndEvent> = match doc.given("end") {
            Some(end) => match read_end(end) {
                Some(end) => Some(end),
                None => return None,
            },
            None => None,
        };
        Some(ProcessEvent { stdout, stderr, end })
    }
}

/// The model of what a frame was read as.
pub open spec fn event_view(event: Result<Option<ProcessEvent>, String>) -> Result<
    Option<ProcessEventView>,
    Seq<char>,
> {
    match event {
        Ok(event) => Ok(opt_event(event)),
        Err(message) => Err(message@),
    }
}

/// What the payload of a frame that does not end the stream is read as.
pub fn read_frame(payload: &[u8]) -> (r: Result<Option<ProcessEvent>, String>)
    ensures
        event_view(r) == frame_event(payload@),
{
    let doc: Json = match Json::parse(payload) {
        Ok(doc) => doc,
        Err(message) => return Err(message),
    };
    if !doc.is_object() {
        return Err("not a process event".to_owned());
    }
    match doc.given("event") {
        Some(event) => match ProcessEvent::from_doc(event) {
            Some(event) => Ok(Some(event)),
            None => Err("not a process event".to_owned()),
        },
        None => Ok(None),
    }
}

/// What is collected from frame `i` of a stream on. The frame with the end flag ends the
/// stream: with its error, if it carries one, or with what was collected. A stream may also
/// just stop.
pub open spec fn collect_from(stream: Seq<FrameView>, i: nat, got: Collected) -> Result<
    Collected,
    Seq<char>,
>
    decreases stream.len() - i,
{
    if i >= stream.len() {
        Ok(got)
    } else if stream[i as int].flags & FLAG_END_STREAM != 0 {
        let told = match doc_in(stream[i as int].payload) {
            Some(doc) => stream_error(doc),
            None => None,
        };
        match told {
            Some(message) => Err(message),
            None => Ok(got),
        }
    } else {
        match frame_event(stream[i as int].payload) {
            Err(message) => Err("decode process event: "@ + message),
            Ok(None) => collect_from(stream, i + 1, got),
            Ok(Some(event)) => match collect_event(got, event) {
                Err(message) => Err(message),
                Ok(more) => collect_from(stream, i + 1, more),
            },
        }
    }
}

/// What a command left behind, by the frames of its stream.
pub open spec fn collected(stream: Seq<FrameView>) -> Result<CommandOutputView, Seq<char>> {
    match collect_from(stream, 0, Collected::nothing()) {
        Ok(got) => Ok(got.output()),
        Err(message) => Err(message),
    }
}

/// The bytes of a piece of output.
fn decode_piece(s: &str) -> (r: Result<Vec<u8>, SandboxError>)
    ensures
        reply(r) == piece(s@),
{
    match decode_padded(s) {
        Ok(bytes) => Ok(bytes),
        Err(_) => match decode_unpadded(s) {
            Ok(bytes) => Ok(bytes),
            Err(message) => Err(
                SandboxError::Backend(
                    concat2("invalid base64 in process output: ", message.as_str()),
                ),
            ),
        },
    }
}

/// The bytes of an optional piece of output.
fn decode_opt_piece(s: &Option<String>) -> (r: Result<Vec<u8>, SandboxError>)
    ensures
        reply(r) == opt_piece(opt_text(*s)),
{
    match s {
        Some(s) => decode_piece(s.as_str()),
        None => Ok(Vec::new()),
    }
}

/// What a command left behind, from the frames of its stream.
pub fn collect_output(stream: &Vec<Frame>) -> (r: Result<CommandOutput, SandboxError>)
    ensures
        reply(r) == collected(views(stream@)),
{
    let ghost all = views(stream@);
    let mut stdout: Vec<u8> = Vec::new();
    let mut stderr: Vec<u8> = Vec::new();
    let mut exit_code: Option<i32> = None;
    let mut i: usize = 0;
    let mut open: bool = true;
    while open && i < stream.len()
        invariant
            i <= stream@.len(),
            all == views(stream@),
            open ==> collect_from(all, 0, Collected::nothing()) == collect_from(
                all,
                i as nat,
                (Collected { stdout: stdout@, stderr: stderr@, exit_code }),
            ),
            !open ==> collect_from(all, 0, Collected::nothing()) == Ok::<Collected, Seq<char>>(
                (Collected { stdout: stdout@, stderr: stderr@, exit_code }),
            ),
        decreases stream@.len() - i,
    {
        let ghost got = Collected { stdout: stdout@, stderr: stderr@, exit_code };
        proof {
            assert(all[i as int] == stream@[i as int]@);
        }
        if stream[i].flags & FLAG_END_STREAM != 0 {
            match end_stream_error(stream[i].payload.as_slice()) {
                Some(message) => return Err(SandboxError::Backend(message)),
                None => {
                    open = false;
                },
            }
        } else {
            match read_frame(stream[i].payload.as_slice()) {
                Err(message) => {
                    return Err(
                        SandboxError::Backend(
                            concat2("decode process event: ", message.as_str()),
                        ),
                    );
                },
                Ok(None) => {},
                Ok(Some(event)) => {
                    let mut out: Vec<u8> = match decode_opt_piece(&event.stdout) {
                        Ok(out) => out,
                        Err(e) => return Err(e),
                    };
                    let mut err: Vec<u8> = match decode_opt_piece(&event.stderr) {
                        Ok(err) => err,
                        Err(e) => return Err(e),
                    };
                    stdout.append(&mut out);
                    stderr.append(&mut err);
                    if let Some(end) = &event.end {
                        if let Some(error) = &end.error {
                            return Err(
                                SandboxError::Backend(concat2("process error: ", error.as_str())),
                            );
                        }
                        exit_code = end.exit_code;
                    }
                },
            }
        }
        i = i + 1;
    }
    Ok(
        CommandOutput {
            stdout: lossy_text(stdout.as_slice()),
            stderr: lossy_text(stderr.as_slice()),
            exit_code: match exit_code {
                Some(code) => code,
                None => -1,
            },
        },
    )
}

/// The frames in the answer to the call that starts a command, or an error where the
/// call was refused or the body ends within a frame.
pub open spec fn stream_outcome(success: bool, status: Seq<char>, body: Seq<u8>) -> Result<
    Seq<FrameView>,
    Seq<char>,
> {
    if !success {
        Err(refusal(doc_in(body), status))
    } else {
        match frames(body) {
            Some(list) => Ok(list),
            None => Err("truncated Connect envelope"@),
        }
    }
}

/// The frames in the answer to the call that starts a command.
pub fn stream_reply(success: bool, status: &str, body: &[u8]) -> (r: Result<
    Vec<Frame>,
    SandboxError,
>)
    ensures
        match stream_outcome(success, status@, body@) {
            Ok(list) => r matches Ok(stream) && views(stream@) == list,
            Err(message) => r matches Err(e) && e@ == message,
        },
{
    if !success {
        return Err(SandboxError::Backend(connect_error_message(body, status)));
    }
    match decode_frames(body) {
        Some(list) => Ok(list),
        None => Err(SandboxError::Backend("truncated Connect envelope".to_owned())),
    }
}

/// What the answer to the call that starts a command means: what the command left behind,
/// or an error.
pub open spec fn command_outcome(success: bool, status: Seq<char>, body: Seq<u8>) -> Result<
    CommandOutputView,
    Seq<char>,
> {
    match stream_outcome(success, status, body) {
        Ok(stream) => collected(stream),
        Err(message) => Err(message),
    }
}

/// What the answer to the call that starts a command means.
pub fn command_reply(success: bool, status: &str, body: &[u8]) -> (r: Result<
    CommandOutput,
    SandboxError,
>)
    ensures
        reply(r) == command_outcome(success, status@, body@),
{
    match stream_reply(success, status, body) {
        Ok(stream) => collect_output(&stream),
        Err(e) => Err(e),
    }
}

/// The environment of a command as a document: of two values for one name the later
/// one counts.
pub open spec fn env_doc(env: Seq<(String, String)>) -> JsonView
    decreases env.len(),
{
    if env.len() == 0 {
        JsonView::empty_object()
    } else {
        env_doc(env.drop_last()).with(env.last().0@, JsonView::String(env.last().1@))
    }
}

/// The document that starts a command: it runs in a login shell, so that its path and
/// profile are as a user would expect, and gets no standard input.
pub open spec fn start_doc(
    command: Seq<char>,
    cwd: Option<Seq<char>>,
    env: Seq<(String, String)>,
) -> JsonView {
    let process = JsonView::empty_object().with("cmd"@, JsonView::String("/bin/bash"@)).with(
        "args"@,
        JsonView::Array(
            seq![
                JsonView::String("-l"@),
                JsonView::String("-c"@),
                JsonView::String(command),
            ],
        ),
    ).with("envs"@, env_doc(env));
    let placed = match cwd {
        Some(cwd) => process.with("cwd"@, JsonView::String(cwd)),
        None => process,
    };
    JsonView::empty_object().with("process"@, placed).with("stdin"@, JsonView::Bool(false))
}

/// The model of an optional borrowed text.
pub open spec fn opt_str(s: Option<&str>) -> Option<Seq<char>> {
    match s {
        Some(s) => Some(s@),
        None => None,
    }
}

/// The document that starts a command.
pub fn start_request(command: &str, cwd: Option<&str>, env: &Vec<(String, String)>) -> (r: Json)
    ensures
        r@ == start_doc(command@, opt_str(cwd), env@),
{
    let mut args: Vec<Json> = Vec::new();
    args.push(Json::string("-l"));
    args.push(Json::string("-c"));
    args.push(Json::string(command));
    proof {
        reveal_with_fuel(items_view, 4);
        assert(args@.drop_last().drop_last().drop_last() =~= Seq::empty());
        assert(items_view(args@) =~= seq![
            JsonView::String("-l"@),
            JsonView::String("-c"@),
            JsonView::String(command@),
        ]);
    }
    let mut envs: Json = Json::object();
    let mut i: usize = 0;
    proof {
        assert(env@.take(0) =~= Seq::<(String, String)>::empty());
    }
    while i < env.len()
        invariant
            i <= env@.len(),
            envs@ == env_doc(env@.take(i as int)),
        decreases env@.len() - i,
    {
        envs = envs.with(env[i].0.as_str(), Json::String(env[i].1.clone()));
        proof {
            assert(env@.take(i + 1).drop_last() =~= env@.take(i as int));
        }
        i = i + 1;
    }
    proof {
        assert(env@.take(env@.len() as int) =~= env@);
    }
    let process: Json = Json::object().with("cmd", Json::string("/bin/bash")).with(
        "args",
        Json::Array(args),
    ).with("envs", envs);
    let placed: Json = match cwd {
        Some(cwd) => process.with("cwd", Json::string(cwd)),
        None => process,
    };
    Json::object().with("process", placed).with("stdin", Json::Bool(false))
}

/// The bytes of a document's text.
pub open spec fn doc_bytes(doc: JsonView) -> Seq<u8> {
    vstd::utf8::encode_utf8(json_printed(as_kept(doc)))
}

/// The body that starts a command: its document in one frame.
pub fn start_body(command: &str, cwd: Option<&str>, env: &Vec<(String, String)>) -> (r: Vec<u8>)
    ensures
        r@ == crate::envelope::enveloped(
            doc_bytes(start_doc(command@, opt_str(cwd), env@)),
        ),
{
    let text: String = start_request(command, cwd, env).print();
    encode_frame(text.as_str().as_bytes())
}

// ---- files ---------------------------------------------------------------------

/// The document of a call on one path.
pub fn path_request(path: &str) -> (r: Json)
    ensures
        r@ == JsonView::empty_object().with("path"@, JsonView::String(path@)),
{
    Json::object().with("path", Json::string(path))
}

/// The document of the call that lists a directory to a depth.
pub fn list_request(path: &str, depth: u32) -> (r: Json)
    ensures
        r@ == JsonView::empty_object().with("path"@, JsonView::String(path@)).with(
            "depth"@,
            JsonView::Number(NumberView::Unsigned(depth as u64)),
        ),
{
    Json::object().with("path", Json::string(path)).with("depth", Json::number(depth as u64))
}

/// The document of the call that moves a path.
pub fn move_request(source: &str, destination: &str) -> (r: Json)
    ensures
        r@ == JsonView::empty_object().with("source"@, JsonView::String(source@)).with(
            "destination"@,
            JsonView::String(destination@),
        ),
{
    Json::object().with("source", Json::string(source)).with(
        "destination",
        Json::string(destination),
    )
}

/// One file as the daemon describes it.
#[derive(Debug)]
pub struct EntryInfo {
    /// The name.
    pub name: String,
    /// The file type by its name.
    pub kind: String,
    /// The path.
    pub path: String,
    /// The size in bytes.
    pub size: i64,
    /// The mode bits.
    pub mode: u32,
    /// When the file was last modified, in RFC 3339.
    pub modified_time: Option<String>,
}

/// What is told of one file.
#[derive(Clone, Copy, Debug, PartialEq, Eq)]
pub struct FileMetadata {
    /// The size in bytes.
    pub size: u64,
    /// Whether it is a directory.
    pub is_dir: bool,
    /// Whether it is a symbolic link.
    pub is_symlink: bool,
    /// When it was last modified: seconds since the Unix epoch and nanoseconds.
    pub modified: Option<(u64, u32)>,
    /// The permission bits.
    pub unix_permissions: u32,
}

/// One entry of a directory.
#[derive(Debug)]
pub struct DirEntry {
    /// The name.
    pub name: String,
    /// The path.
    pub path: String,
    /// What is told of it.
    pub metadata: FileMetadata,
}

/// The instant of an RFC 3339 text as a time after the Unix epoch; `None` for one
/// before it and for any other text.
pub open spec fn epoch_time(s: Option<Seq<char>>) -> Option<(u64, u32)> {
    match s {
        Some(s) => match crate::codec::instant_of(s) {
            Some((secs, nanos)) => if secs < 0 {
                None
            } else {
                Some((secs as u64, nanos))
            },
            None => None,
        },
        None => None,
    }
}

/// The instant of an RFC 3339 text as a time after the Unix epoch.
pub fn parse_rfc3339(s: &Option<String>) -> (r: Option<(u64, u32)>)
    ensures
        r == epoch_time(opt_text(*s)),
{
    match s {
        Some(s) => match parse_instant(s.as_str()) {
            Some((secs, nanos)) => if secs < 0 {
                None
            } else {
                Some((secs as u64, nanos))
            },
            None => None,
        },
        None => None,
    }
}

impl EntryInfo {
    /// What is told of this file.
    pub open spec fn metadata(self) -> FileMetadata {
        FileMetadata {
            size: if self.size < 0 {
                0
            } else {
                self.size as u64
            },
            is_dir: self.kind@ == "FILE_TYPE_DIRECTORY"@,
            is_symlink: self.kind@ == "FILE_TYPE_SYMLINK"@,
            modified: epoch_time(opt_text(self.modified_time)),
            unix_permissions: self.mode & 0xFFF,
        }
    }

    /// What is told of this file: a negative size counts as zero, and of the mode only
    /// the last twelve bits.
    pub fn into_metadata(&self) -> (r: FileMetadata)
        ensures
            r == self.metadata(),
    {
        FileMetadata {
            size: if self.size < 0 {
                0
            } else {
                self.size as u64
            },
            is_dir: crate::text::same_text(self.kind.as_str(), "FILE_TYPE_DIRECTORY"),
            is_symlink: crate::text::same_text(self.kind.as_str(), "FILE_TYPE_SYMLINK"),
            modified: parse_rfc3339(&self.modified_time),
            unix_permissions: self.mode & 0xFFF,
        }
    }

    /// This file as an entry of a directory.
    pub fn into_dir_entry(self) -> (r: DirEntry)
        ensures
            r.name@ == self.name@,
            r.path@ == self.path@,
            r.metadata == self.metadata(),
    {
        let metadata: FileMetadata = self.into_metadata();
        DirEntry { name: self.name, path: self.path, metadata }
    }
}

/// The text in the member `name`, nothing where it is missing; `None` where it is something
/// else.
pub open spec fn text_or_nothing(doc: JsonView, name: Seq<char>) -> Option<Seq<char>> {
    match doc.member(name) {
        Some(value) => value.text(),
        None => Some(Seq::empty()),
    }
}

/// The size that a document stands for: an integer, as a number or as its text; zero where
/// it is missing.
pub open spec fn size_in(doc: JsonView) -> Option<i64> {
    match doc.member("size"@) {
        Some(JsonView::Number(NumberView::Unsigned(n))) => Some(n as i64),
        Some(JsonView::Number(NumberView::Signed(n))) => Some(n),
        Some(JsonView::String(text)) => integer_of(text),
        Some(_) => None,
        None => Some(0),
    }
}

/// The mode that a document stands for; zero where it is missing.
pub open spec fn mode_in(doc: JsonView) -> Option<u32> {
    match doc.member("mode"@) {
        Some(value) => match value.count() {
            Some(n) => if n <= u32::MAX {
                Some(n as u32)
            } else {
                None
            },
            None => None,
        },
        None => Some(0),
    }
}

/// Whether `entry` is the file that a document describes: an object whose members, where
/// they are there, are of the right kind.
pub open spec fn describes(doc: JsonView, entry: EntryInfo) -> bool {
    &&& doc is Object
    &&& text_or_nothing(doc, "name"@) == Some(entry.name@)
    &&& text_or_nothing(doc, "type"@) == Some(entry.kind@)
    &&& text_or_nothing(doc, "path"@) == Some(entry.path@)
    &&& size_in(doc) == Some(entry.size)
    &&& mode_in(doc) == Some(entry.mode)
    &&& opt_text_in(doc, "modifiedTime"@) == Some(opt_text(entry.modified_time))
}

/// Whether a document describes a file.
pub open spec fn is_entry(doc: JsonView) -> bool {
    &&& doc is Object
    &&& text_or_nothing(doc, "name"@) is Some
    &&& text_or_nothing(doc, "type"@) is Some
    &&& text_or_nothing(doc, "path"@) is Some
    &&& size_in(doc) is Some
    &&& mode_in(doc) is Some
    &&& opt_text_in(doc, "modifiedTime"@) is Some
}

fn read_text_or_nothing(doc: &Json, name: &str) -> (r: Option<String>)
    ensures
        opt_text(r) == text_or_nothing(doc@, name@),
{
    match doc.get(name) {
        Some(value) => match value.as_str() {
            Some(text) => Some(text.to_owned()),
            None => None,
        },
        None => Some(String::new()),
    }
}

fn read_size(doc: &Json) -> (r: Option<i64>)
    ensures
        r == size_in(doc@),
{
    match doc.get("size") {
        Some(Json::Number(Number::Unsigned(n))) => Some(*n as i64),
        Some(Json::Number(Number::Signed(n))) => Some(*n),
        Some(Json::String(text)) => parse_integer(text.as_str()),
        Some(_) => None,
        None => Some(0),
    }
}

fn read_mode(doc: &Json) -> (r: Option<u32>)
    ensures
        r == mode_in(doc@),
{
    match doc.get("mode") {
        Some(value) => match value.count() {
            Some(n) => if n <= 0xFFFF_FFFF {
                Some(n as u32)
            } else {
                None
            },
            None => None,
        },
        None => Some(0),
    }
}

impl EntryInfo {
    /// The file that `doc` describes; `None` where it describes none.
    pub fn from_doc(doc: &Json) -> (r: Option<EntryInfo>)
        ensures
            match r {
                Some(entry) => describes(doc@, entry),
                None => !is_entry(doc@),
            },
    {
        if !doc.is_object() {
            return None;
        }
        match (
            read_text_or_nothing(doc, "name"),
            read_text_or_nothing(doc, "type"),
            read_text_or_nothing(doc, "path"),
            read_size(doc),
            read_mode(doc),
            opt_text_from(doc, "modifiedTime"),
        ) {
            (
                Some(name),
                Some(kind),
                Some(path),
                Some(size),
                Some(mode),
                Some(modified_time),
            ) => Some(EntryInfo { name, kind, path, size, mode, modified_time }),
            _ => None,
        }
    }
}

/// The part of an answer that describes one file: its member `entry`, or `null`.
pub open spec fn stat_part(doc: JsonView) -> JsonView {
    match doc.member("entry"@) {
        Some(entry) => entry,
        None => JsonView::Null,
    }
}

/// The part of an answer that lists a directory: its member `entries`, or an empty list.
pub open spec fn list_part(doc: JsonView) -> JsonView {
    match doc.member("entries"@) {
        Some(entries) => entries,
        None => JsonView::Array(Seq::empty()),
    }
}

/// What the answer to the call `Stat` on `path` tells of the file.
pub fn stat_reply(path: &str, doc: &Json) -> (r: Result<FileMetadata, SandboxError>)
    ensures
        match r {
            Ok(metadata) => exists|entry: EntryInfo| #[trigger]
                describes(stat_part(doc@), entry) && metadata == entry.metadata(),
            Err(e) => !is_entry(stat_part(doc@)) && e@ == "stat "@ + path@ + ": not an entry"@,
        },
{
    let null: Json = Json::Null;
    let part: &Json = match doc.get("entry") {
        Some(entry) => entry,
        None => &null,
    };
    match EntryInfo::from_doc(part) {
        Some(entry) => {
            let metadata: FileMetadata = entry.into_metadata();
            proof {
                assert(describes(stat_part(doc@), entry));
            }
            Ok(metadata)
        },
        None => Err(SandboxError::Backend(concat3("stat ", path, ": not an entry"))),
    }
}

/// Whether a directory entry is what a document describes.
pub open spec fn lists_entry(doc: JsonView, listed: DirEntry) -> bool {
    exists|entry: EntryInfo|
        {
            &&& #[trigger] describes(doc, entry)
            &&& listed.name@ == entry.name@
            &&& listed.path@ == entry.path@
            &&& listed.metadata == entry.metadata()
        }
}

/// Whether a document is a list of descriptions of files.
pub open spec fn is_listing(doc: JsonView) -> bool {
    match doc {
        JsonView::Array(items) => forall|i: int|
            0 <= i < items.len() ==> is_entry(#[trigger] items[i]),
        _ => false,
    }
}

/// What the answer to the call `ListDir` on `path` lists: an entry for each description, in
/// order.
pub fn list_reply(path: &str, doc: &Json) -> (r: Result<Vec<DirEntry>, SandboxError>)
    ensures
        match r {
            Ok(listed) => list_part(doc@) matches JsonView::Array(items) && listed@.len()
                == items.len() && forall|i: int|
                0 <= i < items.len() ==> lists_entry(items[i], #[trigger] listed@[i]),
            Err(e) => !is_listing(list_part(doc@)) && e@ == "list_dir "@ + path@
                + ": not a list of entries"@,
        },
{
    let mut listed: Vec<DirEntry> = Vec::new();
    let items: &Vec<Json> = match doc.get("entries") {
        Some(Json::Array(items)) => items,
        Some(_) => return Err(
            SandboxError::Backend(concat3("list_dir ", path, ": not a list of entries")),
        ),
        None => return Ok(listed),
    };
    let ghost docs = items_view(items@);
    let mut i: usize = 0;
    while i < items.len()
        invariant
            i <= items@.len(),
            docs == items_view(items@),
            list_part(doc@) == JsonView::Array(docs),
            listed@.len() == i,
            forall|j: int| 0 <= j < i ==> lists_entry(docs[j], #[trigger] listed@[j]),
        decreases items@.len() - i,
    {
        proof {
            crate::json::lemma_items_view(items@, i as int);
        }
        match EntryInfo::from_doc(&items[i]) {
            Some(entry) => {
                let ghost found = entry;
                let one: DirEntry = entry.into_dir_entry();
                proof {
                    assert(describes(docs[i as int], found));
                    assert(lists_entry(docs[i as int], one));
                }
                listed.push(one);
            },
            None => {
                proof {
                    assert(0 <= i < docs.len() && !is_entry(docs[i as int]));
                    let there = JsonView::Array(docs);
                    if is_listing(there) {
                        assert(there->Array_0[i as int] == docs[i as int]);
                        assert(is_entry(there->Array_0[i as int]));
                    }
                }
                return Err(
                    SandboxError::Backend(concat3("list_dir ", path, ": not a list of entries")),
                );
            },
        }
        i = i + 1;
    }
    proof {
        if items@.len() > 0 {
            crate::json::lemma_items_view(items@, 0);
        }
    }
    Ok(listed)
}

/// What the answer to the reading of a file means: nothing is wrong, the file is not
/// there, or the reading was refused. `missing` is the status 404.
pub fn read_reply(path: &str, success: bool, missing: bool, status: &str) -> (r: Result<
    (),
    SandboxError,
>)
    ensures
        r is Ok <==> success && !missing,
        r matches Err(e) ==> e@ == (if missing {
            "no such file: "@ + path@
        } else {
            "read "@ + path@ + ": HTTP "@ + status@
        }),
{
    if missing {
        return Err(SandboxError::Backend(concat2("no such file: ", path)));
    }
    if !success {
        return Err(SandboxError::Backend(concat4("read ", path, ": HTTP ", status)));
    }
    Ok(())
}

/// What the answer to the writing of a file means.
pub fn write_reply(path: &str, success: bool, status: &str) -> (r: Result<(), SandboxError>)
    ensures
        r is Ok <==> success,
        r matches Err(e) ==> e@ == "write "@ + path@ + ": HTTP "@ + status@,
{
    if !success {
        return Err(SandboxError::Backend(concat4("write ", path, ": HTTP ", status)));
    }
    Ok(())
}

/// Whether the bytes are the encoding of no text.
pub open spec fn no_text(bytes: Seq<u8>) -> bool {
    forall|text: Seq<char>| !(#[trigger] utf8_of(bytes, text))
}

/// The text of a file.
pub fn file_text(path: &str, bytes: Vec<u8>) -> (r: Result<String, SandboxError>)
    ensures
        match r {
            Ok(text) => utf8_of(bytes@, text@),
            Err(e) => e@ == path@ + " is not utf-8: "@ + utf8_error(bytes@) && no_text(bytes@),
        },
{
    match strict_text(bytes) {
        Ok(text) => Ok(text),
        Err(message) => Err(
            SandboxError::Backend(concat3(path, " is not utf-8: ", message.as_str())),
        ),
    }
}

} // verus!
