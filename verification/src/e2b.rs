//! A provider of cloud sandboxes at E2B: what is sent to its control plane, and what
//! the answers mean. The sending is the caller's.

use vstd::prelude::*;

use crate::document::{opt_text_from, opt_text_in};
use crate::json::{Json, JsonView, NumberView};
use crate::sandbox::{SandboxHandle, SandboxHandleView};
use crate::text::{concat2, concat3, concat4, opt_text};
use crate::wire::json_parsed;

verus! {

/// The control plane unless another is given.
pub const DEFAULT_BASE_URL: &'static str = "https://api.e2b.app";

/// The environment variable that holds the API key.
pub const DEFAULT_API_KEY_ENV: &'static str = "E2B_API_KEY";

/// The sandbox template unless another is given.
pub const DEFAULT_TEMPLATE: &'static str = "base";

/// How many seconds a sandbox lives unless another span is given.
pub const DEFAULT_TIMEOUT_SECS: u64 = 300;

/// Why an [`E2bProvider`] cannot be made.
#[derive(Debug, PartialEq, Eq)]
pub enum E2bError {
    /// The environment variable of this name is not set.
    MissingApiKey(&'static str),
}

impl E2bError {
    /// The message of this error.
    pub fn message(&self) -> (r: String)
        ensures
            match self {
                E2bError::MissingApiKey(name) => r@ == "missing "@ + name@
                    + " environment variable"@,
            },
    {
        match self {
            E2bError::MissingApiKey(name) => concat3("missing ", name, " environment variable"),
        }
    }
}

/// How sandboxes are made.
#[derive(Debug)]
pub struct E2bProvider {
    /// The control plane, without a closing slash.
    pub base_url: String,
    /// The API key.
    pub api_key: String,
    /// The sandbox template.
    pub template_id: String,
    /// How many seconds a sandbox lives, from its creation and from each keepalive.
    pub timeout_secs: u64,
}

/// A created sandbox and what is needed to reach it.
#[derive(Debug)]
pub struct CreatedSandbox {
    /// The sandbox id.
    pub sandbox_id: String,
    /// The domain that serves it, if one was given.
    pub domain: Option<String>,
    /// The access token of a secured sandbox.
    pub envd_access_token: Option<String>,
}

/// An optional text as a document: the text, or `null`.
pub open spec fn text_or_null(text: Option<Seq<char>>) -> JsonView {
    match text {
        Some(text) => JsonView::String(text),
        None => JsonView::Null,
    }
}

fn text_or_null_doc(text: &Option<String>) -> (r: Json)
    ensures
        r@ == text_or_null(opt_text(*text)),
{
    match text {
        Some(text) => Json::String(text.clone()),
        None => Json::Null,
    }
}

impl CreatedSandbox {
    /// The handle of this sandbox, with what a recovering worker needs to reach it:
    /// `{ "domain": .., "access_token": .. }`, each of them `null` where it is not
    /// given.
    pub fn into_handle(self) -> (r: SandboxHandle)
        ensures
            r@ == (SandboxHandleView {
                id: self.sandbox_id@,
                metadata: JsonView::empty_object().with(
                    "domain"@,
                    text_or_null(opt_text(self.domain)),
                ).with("access_token"@, text_or_null(opt_text(self.envd_access_token))),
            }),
    {
        let metadata: Json = Json::object().with("domain", text_or_null_doc(&self.domain)).with(
            "access_token",
            text_or_null_doc(&self.envd_access_token),
        );
        SandboxHandle { id: self.sandbox_id, metadata }
    }
}

impl E2bProvider {
    /// A provider with an API key and the defaults for everything else.
    pub fn new(api_key: String) -> (r: E2bProvider)
        ensures
            r.api_key == api_key,
            r.base_url@ == DEFAULT_BASE_URL@,
            r.template_id@ == DEFAULT_TEMPLATE@,
            r.timeout_secs == DEFAULT_TIMEOUT_SECS,
    {
        E2bProvider {
            base_url: DEFAULT_BASE_URL.to_owned(),
            api_key,
            template_id: DEFAULT_TEMPLATE.to_owned(),
            timeout_secs: DEFAULT_TIMEOUT_SECS,
        }
    }

    /// A provider with the API key that the environment variable
    /// [`DEFAULT_API_KEY_ENV`] holds, given as `key`.
    pub fn from_env(key: Option<String>) -> (r: Result<E2bProvider, E2bError>)
        ensures
            match key {
                Some(key) => r matches Ok(provider) && provider.api_key == key
                    && provider.base_url@ == DEFAULT_BASE_URL@ && provider.template_id@
                    == DEFAULT_TEMPLATE@ && provider.timeout_secs == DEFAULT_TIMEOUT_SECS,
                None => r matches Err(E2bError::MissingApiKey(name)) && name
                    == DEFAULT_API_KEY_ENV,
            },
    {
        match key {
            Some(key) => Ok(E2bProvider::new(key)),
            None => Err(E2bError::MissingApiKey(DEFAULT_API_KEY_ENV)),
        }
    }

    /// Sets the control plane.
    pub fn with_base_url(self, url: &str) -> (r: E2bProvider)
        ensures
            r.base_url@ == url@,
            r.api_key == self.api_key,
            r.template_id == self.template_id,
            r.timeout_secs == self.timeout_secs,
    {
        E2bProvider { base_url: url.to_owned(), ..self }
    }

    /// Sets the sandbox template.
    pub fn with_template(self, template_id: &str) -> (r: E2bProvider)
        ensures
            r.template_id@ == template_id@,
            r.base_url == self.base_url,
            r.api_key == self.api_key,
            r.timeout_secs == self.timeout_secs,
    {
        E2bProvider { template_id: template_id.to_owned(), ..self }
    }

    /// Sets how many seconds a sandbox lives.
    pub fn with_timeout_secs(self, secs: u64) -> (r: E2bProvider)
        ensures
            r.timeout_secs == secs,
            r.base_url == self.base_url,
            r.api_key == self.api_key,
            r.template_id == self.template_id,
    {
        E2bProvider { timeout_secs: secs, ..self }
    }

    /// Where sandboxes are created.
    pub fn create_url(&self) -> (r: String)
        ensures
            r@ == self.base_url@ + "/sandboxes"@,
    {
        concat2(self.base_url.as_str(), "/sandboxes")
    }

    /// Where the life of a sandbox is extended.
    pub fn timeout_url(&self, sandbox_id: &str) -> (r: String)
        ensures
            r@ == self.base_url@ + "/sandboxes/"@ + sandbox_id@ + "/timeout"@,
    {
        concat4(self.base_url.as_str(), "/sandboxes/", sandbox_id, "/timeout")
    }

    /// Where a sandbox is destroyed.
    pub fn sandbox_url(&self, sandbox_id: &str) -> (r: String)
        ensures
            r@ == self.base_url@ + "/sandboxes/"@ + sandbox_id@,
    {
        concat3(self.base_url.as_str(), "/sandboxes/", sandbox_id)
    }

    /// The document that asks for a sandbox.
    pub fn create_request(&self) -> (r: Json)
        ensures
            r@ == JsonView::empty_object().with(
                "templateID"@,
                JsonView::String(self.template_id@),
            ).with("timeout"@, JsonView::Number(NumberView::Unsigned(self.timeout_secs))),
    {
        Json::object().with("templateID", Json::String(self.template_id.clone())).with(
            "timeout",
            Json::number(self.timeout_secs),
        )
    }

    /// The document that extends the life of a sandbox.
    pub fn timeout_request(&self) -> (r: Json)
        ensures
            r@ == JsonView::empty_object().with(
                "timeout"@,
                JsonView::Number(NumberView::Unsigned(self.timeout_secs)),
            ),
    {
        Json::object().with("timeout", Json::number(self.timeout_secs))
    }
}

/// The model of a [`CreatedSandbox`].
pub struct CreatedSandboxView {
    /// The sandbox id.
    pub sandbox_id: Seq<char>,
    /// The domain that serves it, if one was given.
    pub domain: Option<Seq<char>>,
    /// The access token of a secured sandbox.
    pub envd_access_token: Option<Seq<char>>,
}

impl View for CreatedSandbox {
    type V = CreatedSandboxView;

    open spec fn view(&self) -> CreatedSandboxView {
        CreatedSandboxView {
            sandbox_id: self.sandbox_id@,
            domain: opt_text(self.domain),
            envd_access_token: opt_text(self.envd_access_token),
        }
    }
}

impl CreatedSandboxView {
    /// The sandbox that a document stands for: an object with the text `sandboxID` and
    /// optionally the texts `domain` and `envdAccessToken`.
    pub open spec fn of_doc(doc: JsonView) -> Option<CreatedSandboxView> {
        match (
            doc.member_text("sandboxID"@),
            opt_text_in(doc, "domain"@),
            opt_text_in(doc, "envdAccessToken"@),
        ) {
            (Some(sandbox_id), Some(domain), Some(envd_access_token)) => Some(
                CreatedSandboxView { sandbox_id, domain, envd_access_token },
            ),
            _ => None,
        }
    }
}

/// What the answer to the creation of a sandbox means: `status` is its status, `body` its
/// body, or the error of its reading.
pub open spec fn creation_outcome(
    success: bool,
    status: Seq<char>,
    body: Result<Seq<u8>, Seq<char>>,
) -> Result<CreatedSandboxView, Seq<char>> {
    let unreadable = "e2b create response: error decoding response body"@;
    if !success {
        Err("e2b create failed: HTTP "@ + status)
    } else {
        match body {
            Err(e) => Err("e2b create response: "@ + e),
            Ok(bytes) => match json_parsed(bytes) {
                Err(_) => Err(unreadable),
                Ok(doc) => match CreatedSandboxView::of_doc(doc) {
                    Some(created) => Ok(created),
                    None => Err(unreadable),
                },
            },
        }
    }
}

/// The model of an answer: the sandbox, or the message of the error.
pub open spec fn creation_view(r: Result<CreatedSandbox, String>) -> Result<
    CreatedSandboxView,
    Seq<char>,
> {
    match r {
        Ok(created) => Ok(created@),
        Err(message) => Err(message@),
    }
}

/// What the answer to the creation of a sandbox means.
pub fn create_reply(success: bool, status: &str, body: Result<Vec<u8>, String>) -> (r: Result<
    CreatedSandbox,
    String,
>)
    ensures
        creation_view(r) == creation_outcome(
            success,
            status@,
            crate::codec::decoded_bytes(body),
        ),
{
    if !success {
        return Err(concat2("e2b create failed: HTTP ", status));
    }
    let bytes: Vec<u8> = match body {
        Ok(bytes) => bytes,
        Err(e) => return Err(concat2("e2b create response: ", e.as_str())),
    };
    if let Ok(doc) = Json::parse(bytes.as_slice()) {
        if let (Some(sandbox_id), Some(domain), Some(envd_access_token)) = (
            doc.get_str("sandboxID"),
            opt_text_from(&doc, "domain"),
            opt_text_from(&doc, "envdAccessToken"),
        ) {
            return Ok(
                CreatedSandbox { sandbox_id: sandbox_id.to_owned(), domain, envd_access_token },
            );
        }
    }
    Err("e2b create response: error decoding response body".to_owned())
}

/// What the answer to a keepalive means.
pub fn keepalive_reply(success: bool, status: &str) -> (r: Result<(), String>)
    ensures
        r is Ok <==> success,
        r matches Err(message) ==> message@ == "e2b timeout failed: HTTP "@ + status@,
{
    if success {
        Ok(())
    } else {
        Err(concat2("e2b timeout failed: HTTP ", status))
    }
}

/// What the answer to the destruction of a sandbox means. One that is gone already is
/// fine: `missing` is the status 404.
pub fn destroy_reply(success: bool, missing: bool, status: &str) -> (r: Result<(), String>)
    ensures
        r is Ok <==> success || missing,
        r matches Err(message) ==> message@ == "e2b kill failed: HTTP "@ + status@,
{
    if success || missing {
        Ok(())
    } else {
        Err(concat2("e2b kill failed: HTTP ", status))
    }
}

/// A created sandbox can be attached to again: the metadata that its lease keeps leads
/// back to it, with the domain and the access token it was created with.
pub proof fn a_created_sandbox_can_be_attached_to(
    id: Seq<char>,
    domain: Option<Seq<char>>,
    access_token: Option<Seq<char>>,
)
    ensures
        ({
            let handle = SandboxHandleView {
                id,
                metadata: JsonView::empty_object().with("domain"@, text_or_null(domain)).with(
                    "access_token"@,
                    text_or_null(access_token),
                ),
            };
            crate::bridge::attach(handle.lease_metadata()) == Some(
                crate::bridge::E2bSandboxView {
                    host_base: crate::bridge::host_of(
                        id,
                        match domain {
                            Some(domain) => domain,
                            None => crate::bridge::DEFAULT_DOMAIN@,
                        },
                    ),
                    user: crate::bridge::DEFAULT_USER@,
                    access_token,
                },
            )
        }),
{
    reveal_strlit("domain");
    reveal_strlit("access_token");
    reveal_strlit("sandbox_id");
    assert("domain"@.len() != "access_token"@.len());
    assert("domain"@.len() != "sandbox_id"@.len());
    assert("access_token"@.len() != "sandbox_id"@.len());
}

} // verus!
