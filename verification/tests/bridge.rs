//! What is sent to the daemon of a sandbox and what its answers mean.

use std::cell::Cell;

use suxel::bridge::{
    collect_output, command_reply, connect_error_message, end_stream_error, file_text, fs_reply,
    list_reply, list_request, move_request, parse_rfc3339, path_request, provision_e2b_sandbox,
    read_frame, read_reply, start_body, start_request, stat_reply, stream_reply, write_reply,
    ConnectOptions, E2bSandbox, EntryInfo, SandboxError, DEFAULT_DOMAIN, DEFAULT_USER, ENVD_PORT,
};
use suxel::driver::RunContext;
use suxel::envelope::{decode_frames, encode_frame, Frame, FLAG_END_STREAM};
use suxel::ids::RunId;
use suxel::json::{Json, Number};
use suxel::mem::InMemoryBackend;
use suxel::run::{Run, RunSpec};
use suxel::sandbox::{SandboxHandle, SandboxProvider};
use suxel::time::{Duration, Timestamp};

const SERVER: &str = "http://127.0.0.1:9";

fn sandbox() -> E2bSandbox {
    E2bSandbox::with_host_base(SERVER.to_string(), ConnectOptions::default())
}

/// An envelope frame: flags, the length in four bytes, the payload.
fn frame(flags: u8, payload: &[u8]) -> Vec<u8> {
    let mut out = vec![flags];
    out.extend_from_slice(&(payload.len() as u32).to_be_bytes());
    out.extend_from_slice(payload);
    out
}

fn json(text: &str) -> Json {
    Json::parse(text.as_bytes()).unwrap()
}

fn message(e: SandboxError) -> String {
    match e {
        SandboxError::Backend(message) => message,
    }
}

#[test]
fn stat_maps_entry_to_metadata() {
    let sb = sandbox();
    assert_eq!(
        sb.rpc_url("Stat"),
        "http://127.0.0.1:9/filesystem.Filesystem/Stat"
    );
    assert_eq!(
        sb.rpc_headers(),
        vec![("Connect-Protocol-Version".to_string(), "1".to_string())]
    );
    let body = br#"{"entry":{"name":"main.rs","type":"FILE_TYPE_FILE",
        "path":"/home/user/main.rs","size":"1234","mode":420,"permissions":"-rw-r--r--",
        "modifiedTime":"2026-06-28T10:00:00Z"}}"#;
    let doc = fs_reply("Stat", true, "200 OK", body).unwrap();
    let meta = stat_reply("/home/user/main.rs", &doc).unwrap();
    assert_eq!(meta.size, 1234);
    assert!(!meta.is_dir);
    assert!(!meta.is_symlink);
    assert!(meta.modified.is_some());
    assert_eq!(meta.modified, Some((1_782_640_800, 0)));
    assert_eq!(meta.unix_permissions, 0o644);
}

#[test]
fn list_dir_returns_entries() {
    let body = br#"{"entries":[
        {"name":"src","type":"FILE_TYPE_DIRECTORY","path":"/app/src","size":"0"},
        {"name":"README.md","type":"FILE_TYPE_FILE","path":"/app/README.md","size":"42"}]}"#;
    let doc = fs_reply("ListDir", true, "200 OK", body).unwrap();
    let entries = list_reply("/app", &doc).unwrap();
    assert_eq!(entries.len(), 2);
    assert_eq!(entries[0].name, "src");
    assert!(entries[0].metadata.is_dir);
    assert_eq!(entries[1].name, "README.md");
    assert_eq!(entries[1].metadata.size, 42);
    let request = list_request("/app", 1);
    assert_eq!(request.get_str("path"), Some("/app"));
    assert!(matches!(
        request.get("depth"),
        Some(Json::Number(Number::Unsigned(1)))
    ));
}

#[test]
fn make_dir_move_remove_are_unit_calls() {
    for method in ["MakeDir", "Move", "Remove"] {
        assert_eq!(
            sandbox().rpc_url(method),
            format!("{SERVER}/filesystem.Filesystem/{method}")
        );
        assert!(fs_reply(method, true, "200 OK", b"{}").is_ok());
    }
    assert_eq!(path_request("/app/new").get_str("path"), Some("/app/new"));
    let request = move_request("/app/a", "/app/b");
    assert_eq!(request.get_str("source"), Some("/app/a"));
    assert_eq!(request.get_str("destination"), Some("/app/b"));
    assert_eq!(path_request("/app/b").get_str("path"), Some("/app/b"));
}

#[test]
fn fs_rpc_surfaces_connect_errors() {
    let err = message(
        fs_reply(
            "Stat",
            false,
            "404 Not Found",
            br#"{"code":"not_found","message":"path does not exist"}"#,
        )
        .unwrap_err(),
    );
    assert!(err.contains("path does not exist"), "got: {err}");
}

#[test]
fn read_downloads_from_files_endpoint() {
    let sb = sandbox();
    assert_eq!(
        sb.files_url("/home/user/data.txt").unwrap(),
        "http://127.0.0.1:9/files?path=%2Fhome%2Fuser%2Fdata.txt&username=user"
    );
    assert!(read_reply("/home/user/data.txt", true, false, "200 OK").is_ok());
    let bytes = b"hello sandbox".to_vec();
    assert_eq!(
        file_text("/home/user/data.txt", bytes).unwrap(),
        "hello sandbox"
    );
}

#[test]
fn read_missing_is_an_error() {
    let err = message(read_reply("/missing", false, true, "404 Not Found").unwrap_err());
    assert!(err.contains("no such file"), "got: {err}");
}

#[test]
fn write_uploads_multipart_to_files_endpoint() {
    assert_eq!(
        sandbox().files_url("/home/user/out.txt").unwrap(),
        "http://127.0.0.1:9/files?path=%2Fhome%2Fuser%2Fout.txt&username=user"
    );
    assert!(write_reply("/home/user/out.txt", true, "200 OK").is_ok());
    assert!(write_reply("/home/user/out.txt", false, "500").is_err());
}

#[test]
fn run_collects_streamed_stdout_stderr_and_exit_code() {
    let mut body = Vec::new();
    body.extend(frame(0, br#"{"event":{"start":{"pid":42}}}"#));
    body.extend(frame(0, br#"{"event":{"data":{"stdout":"aGk="}}}"#));
    body.extend(frame(0, br#"{"event":{"data":{"stderr":"ZXJy"}}}"#));
    body.extend(frame(
        0,
        br#"{"event":{"end":{"exitCode":0,"exited":true,"status":"done"}}}"#,
    ));
    body.extend(frame(2, b"{}"));

    let sb = sandbox();
    assert_eq!(sb.start_url(), "http://127.0.0.1:9/process.Process/Start");
    assert_eq!(
        sb.start_headers()[0],
        (
            "Content-Type".to_string(),
            "application/connect+json".to_string()
        )
    );
    let out = command_reply(true, "200 OK", &body).unwrap();
    assert_eq!(out.stdout, "hi");
    assert_eq!(out.stderr, "err");
    assert_eq!(out.exit_code, 0);
}

#[test]
fn run_sends_command_through_login_bash() {
    let sent = start_body("ls -la", None, &Vec::new());
    let text = String::from_utf8_lossy(&sent).to_string();
    assert!(text.contains("/bin/bash"));
    assert!(text.contains("ls -la"));

    let mut body = Vec::new();
    body.extend(frame(
        0,
        br#"{"event":{"end":{"exitCode":7,"exited":true}}}"#,
    ));
    body.extend(frame(2, b"{}"));
    let out = command_reply(true, "200 OK", &body).unwrap();
    assert_eq!(out.exit_code, 7);
}

#[test]
fn run_surfaces_end_of_stream_error() {
    let body = frame(2, br#"{"error":{"code":"internal","message":"boom"}}"#);
    let err = message(command_reply(true, "200 OK", &body).unwrap_err());
    assert!(err.contains("boom"), "got: {err}");
}

#[test]
fn from_resource_metadata_requires_a_sandbox_id() {
    assert!(E2bSandbox::from_resource_metadata(&json("{}")).is_none());
    let sb = E2bSandbox::from_resource_metadata(&json(
        r#"{"sandbox_id":"sb-1","domain":"e2b.app","access_token":null}"#,
    ));
    assert!(sb.is_some());
    let sb = sb.unwrap();
    assert_eq!(sb.host_base, "https://49983-sb-1.e2b.app");
    assert_eq!(sb.user, "user");
    assert!(sb.access_token.is_none());
}

#[test]
fn secured_sandbox_sends_access_token_and_run_as_user() {
    let sb = E2bSandbox::with_host_base(
        SERVER.to_string(),
        ConnectOptions {
            access_token: Some("secret".to_string()),
            ..ConnectOptions::default()
        },
    );
    assert_eq!(sb.user, "user");
    assert!(sb
        .rpc_headers()
        .contains(&("X-Access-Token".to_string(), "secret".to_string())));
    assert_eq!(
        sb.files_headers(),
        vec![("X-Access-Token".to_string(), "secret".to_string())]
    );
    assert_eq!(sb.start_headers().len(), 3);
    assert!(sandbox().files_headers().is_empty());
    let doc = fs_reply(
        "Stat",
        true,
        "200 OK",
        br#"{"entry":{"name":"x","type":"FILE_TYPE_FILE","path":"/x","size":"0"}}"#,
    )
    .unwrap();
    assert!(stat_reply("/x", &doc).is_ok());
}

// ---- frames --------------------------------------------------------------------

#[test]
fn a_frame_is_decoded_as_it_was_encoded() {
    let payload = vec![7u8; 300];
    let body = encode_frame(&payload);
    assert_eq!(&body[..5], &[0, 0, 0, 1, 44]);
    let frames = decode_frames(&body).unwrap();
    assert_eq!(frames.len(), 1);
    assert_eq!(frames[0].flags, 0);
    assert_eq!(frames[0].payload, payload);
    assert_eq!(decode_frames(&[]).unwrap().len(), 0);
}

#[test]
fn a_truncated_body_is_no_list_of_frames() {
    let body = encode_frame(b"abc");
    assert!(decode_frames(&body[..7]).is_none());
    // Fewer bytes than a head of a frame are left out.
    assert_eq!(decode_frames(&body[..4]).unwrap().len(), 0);
    assert_eq!(
        message(stream_reply(true, "200 OK", &body[..7]).unwrap_err()),
        "truncated Connect envelope"
    );
}

// ---- commands ------------------------------------------------------------------

fn end_frame() -> Frame {
    Frame {
        flags: FLAG_END_STREAM,
        payload: b"{}".to_vec(),
    }
}

fn event(payload: &str) -> Frame {
    Frame {
        flags: 0,
        payload: payload.as_bytes().to_vec(),
    }
}

#[test]
fn a_stream_without_an_end_has_no_exit_status() {
    let hi = r#"{"event":{"data":{"stdout":"aGk="}}}"#;
    let out = collect_output(&vec![event(hi)]).unwrap();
    assert_eq!(out.stdout, "hi");
    assert_eq!(out.exit_code, -1);
    assert_eq!(collect_output(&vec![end_frame()]).unwrap().exit_code, -1);
    assert_eq!(collect_output(&Vec::new()).unwrap().stdout, "");
}

#[test]
fn nothing_is_collected_after_the_end_of_the_stream() {
    let stream = vec![
        event(r#"{"event":{"end":{"exitCode":4}}}"#),
        end_frame(),
        event(r#"{"event":{"data":{"stdout":"aGk="}}}"#),
    ];
    let out = collect_output(&stream).unwrap();
    assert_eq!(out.stdout, "");
    assert_eq!(out.exit_code, 4);
}

#[test]
fn output_is_gathered_in_order_and_decoded_at_the_end() {
    // One character of two bytes, cut between two pieces, the second without padding.
    let stream = vec![
        event(r#"{"event":{"data":{"stdout":"aMM="}}}"#),
        event(r#"{"event":{"data":{"stdout":"qQ"}}}"#),
        event(r#"{"event":{"end":{"exitCode":0}}}"#),
        end_frame(),
    ];
    let out = collect_output(&stream).unwrap();
    assert_eq!(out.stdout, "h\u{e9}");
    assert_eq!(out.exit_code, 0);
    // A byte that is no text is replaced.
    let out = collect_output(&vec![event(r#"{"event":{"data":{"stderr":"/w=="}}}"#)]).unwrap();
    assert_eq!(out.stderr, "\u{fffd}");
}

#[test]
fn a_command_that_cannot_be_collected_is_an_error() {
    let bad = message(
        collect_output(&vec![event(r#"{"event":{"data":{"stdout":"!"}}}"#)]).unwrap_err(),
    );
    assert!(bad.starts_with("invalid base64 in process output: "));
    let bad = message(collect_output(&vec![event("?")]).unwrap_err());
    assert!(bad.starts_with("decode process event: "));
    let bad = message(
        collect_output(&vec![event(r#"{"event":{"end":{"error":"no such user"}}}"#)]).unwrap_err(),
    );
    assert_eq!(bad, "process error: no such user");
}

#[test]
fn an_event_is_read_from_its_payload() {
    let read = read_frame(br#"{"event":{"end":{"exitCode":3,"error":"killed"}}}"#)
        .unwrap()
        .unwrap();
    let end = read.end.unwrap();
    assert_eq!(end.exit_code, Some(3));
    assert_eq!(end.error.as_deref(), Some("killed"));
    assert!(read.stdout.is_none());
    assert!(read_frame(b"{}").unwrap().is_none());
    assert!(read_frame(b"no json").is_err());
    assert!(read_frame(br#"{"event":5}"#).is_err());
}

#[test]
fn a_refused_command_gives_the_message_of_the_daemon() {
    let err = message(
        command_reply(
            false,
            "401 Unauthorized",
            br#"{"code":"unauthenticated","message":"who are you"}"#,
        )
        .unwrap_err(),
    );
    assert_eq!(err, "envd error [unauthenticated]: who are you");
    assert_eq!(
        connect_error_message(b"nothing to read", "502 Bad Gateway"),
        "HTTP 502 Bad Gateway"
    );
}

#[test]
fn the_end_of_a_stream_may_carry_an_error() {
    assert_eq!(end_stream_error(b"{}"), None);
    assert_eq!(end_stream_error(b""), None);
    assert_eq!(
        end_stream_error(br#"{"error":{"code":"internal","message":"boom"}}"#).as_deref(),
        Some("process stream error [internal]: boom")
    );
    assert_eq!(
        end_stream_error(br#"{"error":{}}"#).as_deref(),
        Some("process stream error [error]: ")
    );
}

#[test]
fn a_command_is_started_with_directory_and_environment() {
    let request = start_request(
        "make",
        Some("/work"),
        &vec![("A".to_string(), "1".to_string()), ("B".to_string(), "2".to_string())],
    );
    let process = request.get("process").unwrap();
    assert_eq!(process.get_str("cmd"), Some("/bin/bash"));
    assert_eq!(process.get_str("cwd"), Some("/work"));
    assert_eq!(process.get("envs").unwrap().get_str("B"), Some("2"));
    match process.get("args") {
        Some(Json::Array(args)) => {
            let texts: Vec<Option<&str>> = args.iter().map(|a| a.as_str()).collect();
            assert_eq!(texts, vec![Some("-l"), Some("-c"), Some("make")]);
        }
        _ => panic!("no arguments"),
    }
    let sent = decode_frames(&start_body("make", None, &Vec::new())).unwrap();
    assert_eq!(sent.len(), 1);
    let doc = Json::parse(&sent[0].payload).unwrap();
    assert_eq!(
        doc.get("process").unwrap().get_str("cmd"),
        Some("/bin/bash")
    );
}

// ---- files ---------------------------------------------------------------------

#[test]
fn an_entry_is_read_from_its_document() {
    let entry = EntryInfo::from_doc(&json(
        r#"{"name":"l","type":"FILE_TYPE_SYMLINK","path":"/l","size":-3,"mode":511}"#,
    ))
    .unwrap();
    assert_eq!(entry.size, -3);
    let meta = entry.into_metadata();
    assert_eq!(meta.size, 0);
    assert!(meta.is_symlink);
    assert!(!meta.is_dir);
    assert_eq!(meta.unix_permissions, 511);
    assert!(meta.modified.is_none());
    let bare = EntryInfo::from_doc(&json("{}")).unwrap();
    assert_eq!(bare.name, "");
    assert_eq!(bare.size, 0);
    assert!(EntryInfo::from_doc(&json(r#"{"size":"many"}"#)).is_none());
    assert!(EntryInfo::from_doc(&json("[]")).is_none());
}

#[test]
fn answers_without_the_expected_content_are_errors() {
    assert_eq!(
        message(stat_reply("/x", &json("{}")).unwrap_err()),
        "stat /x: not an entry"
    );
    assert!(stat_reply("/x", &json(r#"{"entry":7}"#)).is_err());
    assert_eq!(list_reply("/x", &json("{}")).unwrap().len(), 0);
    assert!(list_reply("/x", &json(r#"{"entries":7}"#)).is_err());
    assert!(file_text("/x", vec![0xff, 0xfe]).is_err());
    assert!(fs_reply("Stat", true, "200 OK", b"<html>").is_err());
}

#[test]
fn instants_before_the_epoch_are_not_kept() {
    assert_eq!(parse_rfc3339(&None), None);
    assert_eq!(
        parse_rfc3339(&Some("1970-01-01T00:00:01.5Z".to_string())),
        Some((1, 500_000_000))
    );
    assert_eq!(
        parse_rfc3339(&Some("1970-01-01T01:00:00+01:00".to_string())),
        Some((0, 0))
    );
    assert_eq!(parse_rfc3339(&Some("1969-12-31T23:59:59Z".to_string())), None);
    assert_eq!(parse_rfc3339(&Some("yesterday".to_string())), None);
}

// ---- attaching -----------------------------------------------------------------

#[test]
fn a_daemon_is_reached_at_its_port_and_domain() {
    assert_eq!(ENVD_PORT, 49983);
    assert_eq!(DEFAULT_DOMAIN, "e2b.app");
    assert_eq!(DEFAULT_USER, "user");
    let sb = E2bSandbox::connect(
        "sb-2",
        ConnectOptions {
            domain: "example.org".to_string(),
            user: "root".to_string(),
            access_token: Some("t".to_string()),
        },
    );
    assert_eq!(sb.host_base, "https://49983-sb-2.example.org");
    assert_eq!(sb.user, "root");
    assert_eq!(sb.access_token.as_deref(), Some("t"));
    let odd = E2bSandbox::with_host_base("no url".to_string(), ConnectOptions::default());
    assert!(message(odd.files_url("/x").unwrap_err()).starts_with("building files url: "));
}

struct OneSandbox {
    created: Cell<u32>,
}

impl SandboxProvider for OneSandbox {
    fn create(&self) -> Result<SandboxHandle, String> {
        self.created.set(self.created.get() + 1);
        Ok(SandboxHandle::with_metadata(
            "sb-7",
            json(r#"{"domain":"example.org","access_token":"t"}"#),
        ))
    }
    fn destroy(&self, _sandbox_id: &str) -> Result<(), String> {
        Ok(())
    }
}

#[test]
fn a_provisioned_sandbox_is_attached_to() {
    let run = Run::from_spec_with_id(
        RunSpec::default(),
        RunId { value: 3 },
        Timestamp { nanos: 0 },
    );
    let mut ctx = RunContext::new(InMemoryBackend::new(), run, false);
    let provider = OneSandbox {
        created: Cell::new(0),
    };
    let first = provision_e2b_sandbox(&mut ctx, &provider, |_d: Duration| {}).unwrap();
    let second = provision_e2b_sandbox(&mut ctx, &provider, |_d: Duration| {}).unwrap();
    assert_eq!(first.host_base, "https://49983-sb-7.example.org");
    assert_eq!(first.access_token.as_deref(), Some("t"));
    assert_eq!(second.host_base, first.host_base);
    assert_eq!(provider.created.get(), 1);
}
