//! The requests of the sandbox provider and the meaning of its answers.

use suxel::bridge::E2bSandbox;
use suxel::e2b::{
    create_reply, destroy_reply, keepalive_reply, E2bError, E2bProvider, DEFAULT_API_KEY_ENV,
    DEFAULT_BASE_URL, DEFAULT_TEMPLATE, DEFAULT_TIMEOUT_SECS,
};
use suxel::json::{Json, Number};

fn number(doc: &Json, name: &str) -> u64 {
    match doc.get(name) {
        Some(Json::Number(Number::Unsigned(n))) => *n,
        _ => panic!("no number {name}"),
    }
}

#[test]
fn create_keepalive_destroy_hit_the_right_endpoints() {
    let provider = E2bProvider::new("test-key".to_string())
        .with_base_url("http://127.0.0.1:9")
        .with_timeout_secs(600);
    assert_eq!(provider.api_key, "test-key");
    assert_eq!(provider.create_url(), "http://127.0.0.1:9/sandboxes");
    let request = provider.create_request();
    assert_eq!(request.get_str("templateID"), Some("base"));
    assert_eq!(number(&request, "timeout"), 600);

    let body = br#"{"sandboxID":"sb-abc123","templateID":"base","envdVersion":"0.1.0"}"#;
    let handle = create_reply(true, "200 OK", Ok(body.to_vec()))
        .unwrap()
        .into_handle();
    assert_eq!(handle.id, "sb-abc123");

    assert_eq!(
        provider.timeout_url(&handle.id),
        "http://127.0.0.1:9/sandboxes/sb-abc123/timeout"
    );
    assert_eq!(number(&provider.timeout_request(), "timeout"), 600);
    assert!(keepalive_reply(true, "204 No Content").is_ok());
    assert_eq!(
        provider.sandbox_url(&handle.id),
        "http://127.0.0.1:9/sandboxes/sb-abc123"
    );
    assert!(destroy_reply(true, false, "204 No Content").is_ok());
}

#[test]
fn destroy_tolerates_already_gone() {
    let provider = E2bProvider::new("k".to_string()).with_base_url("http://127.0.0.1:9");
    assert_eq!(
        provider.sandbox_url("missing"),
        "http://127.0.0.1:9/sandboxes/missing"
    );
    assert!(destroy_reply(false, true, "404 Not Found").is_ok());
}

#[test]
fn create_surfaces_http_errors() {
    let err = create_reply(false, "401 Unauthorized", Ok(Vec::new())).unwrap_err();
    assert!(err.contains("401"), "error was: {err}");
    assert_eq!(err, "e2b create failed: HTTP 401 Unauthorized");
}

#[test]
fn refused_calls_are_errors() {
    assert_eq!(
        keepalive_reply(false, "500 Internal Server Error").unwrap_err(),
        "e2b timeout failed: HTTP 500 Internal Server Error"
    );
    assert_eq!(
        destroy_reply(false, false, "403 Forbidden").unwrap_err(),
        "e2b kill failed: HTTP 403 Forbidden"
    );
    assert_eq!(
        create_reply(true, "200 OK", Err("reset".to_string())).unwrap_err(),
        "e2b create response: reset"
    );
    assert!(create_reply(true, "200 OK", Ok(b"{}".to_vec())).is_err());
    assert!(create_reply(true, "200 OK", Ok(b"?".to_vec())).is_err());
}

#[test]
fn a_created_sandbox_can_be_attached_to() {
    let body = br#"{"sandboxID":"sb-1","domain":"d.dev","envdAccessToken":"t"}"#;
    let created = create_reply(true, "200 OK", Ok(body.to_vec())).unwrap();
    let handle = created.into_handle();
    let lease = handle.metadata.with("sandbox_id", Json::string(&handle.id));
    let sb = E2bSandbox::from_resource_metadata(&lease).unwrap();
    assert_eq!(sb.host_base, "https://49983-sb-1.d.dev");
    assert_eq!(sb.access_token.as_deref(), Some("t"));
}

#[test]
fn a_provider_has_defaults() {
    let provider = E2bProvider::new("k".to_string());
    assert_eq!(provider.base_url, DEFAULT_BASE_URL);
    assert_eq!(provider.base_url, "https://api.e2b.app");
    assert_eq!(provider.template_id, DEFAULT_TEMPLATE);
    assert_eq!(provider.timeout_secs, DEFAULT_TIMEOUT_SECS);
    assert_eq!(provider.timeout_secs, 300);
    assert_eq!(provider.with_template("browser").template_id, "browser");
}

#[test]
fn a_provider_needs_its_key() {
    assert_eq!(DEFAULT_API_KEY_ENV, "E2B_API_KEY");
    let missing = E2bProvider::from_env(None).unwrap_err();
    assert!(matches!(missing, E2bError::MissingApiKey("E2B_API_KEY")));
    assert_eq!(missing.message(), "missing E2B_API_KEY environment variable");
    assert_eq!(
        E2bProvider::from_env(Some("key".to_string())).unwrap().api_key,
        "key"
    );
}
