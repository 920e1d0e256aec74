use bugsink::client::{
    extract_cursor, percent_decode, read_json, read_text, seg, status_error, transport_error, Client,
};
use bugsink::error::ErrorCode;
use bugsink::json::Json;

fn json_of(v: Json) -> String {
    bugsink::output::render(&bugsink::commands::Output::Data(v), true).trim_end_matches('\n').to_string()
}

#[test]
fn seg_escapes_reserved() {
    assert_eq!(seg("project-1"), "project-1");
    assert_eq!(seg("A B/C"), "A%20B%2FC");
}

#[test]
fn cursor_extraction() {
    let next = "http://example.com/api/canonical/0/projects/?cursor=cD0yMDI2LTA5LTI0";
    assert_eq!(extract_cursor(Some(next)), Some("cD0yMDI2LTA5LTI0".into()));
    assert_eq!(extract_cursor(None), None);
}

#[test]
fn status_error_formatting() {
    let err = status_error(401, "Unauthorized", r#"{"detail":"Malformed Bearer token"}"#);
    assert_eq!(err.code, ErrorCode::AuthRequired);
    assert!(err.message.contains("Malformed Bearer token"));

    let err = status_error(404, "Not Found", "");
    assert_eq!(err.code, ErrorCode::NotFound);
}

#[test]
fn seg_encodes_every_reserved_byte_in_upper_hex() {
    assert_eq!(seg("a~b.c_d-e"), "a~b.c_d-e");
    assert_eq!(seg("?&=+#%"), "%3F%26%3D%2B%23%25");
    assert_eq!(seg("é"), "%C3%A9");
    assert_eq!(seg(""), "");
}

#[test]
fn percent_decode_inverts_seg() {
    for s in ["", "plain", "A B/C", "x=1&y=2", "naïve ☃", "%41", "a+b"] {
        assert_eq!(percent_decode(&seg(s)), Some(s.to_string()));
    }
}

#[test]
fn percent_decode_reads_escapes_and_plus() {
    assert_eq!(percent_decode("%41%20b+c"), Some("A b c".to_string()));
    assert_eq!(percent_decode("%c3%a9"), Some("é".to_string()));
    assert_eq!(percent_decode("%4"), None);
    assert_eq!(percent_decode("%zz"), None);
    assert_eq!(percent_decode("%FF"), None);
    assert_eq!(percent_decode("%+5"), Some("\u{5}".to_string()));
    assert_eq!(percent_decode("abc%"), None);
}

#[test]
fn cursor_extraction_finds_the_cursor_pair() {
    assert_eq!(extract_cursor(Some("https://h/x/?a=1&cursor=x%3D&b=2")), Some("x=".to_string()));
    assert_eq!(extract_cursor(Some("  https://h/x/?cursor=abc  ")), Some("abc".to_string()));
    assert_eq!(extract_cursor(Some("cursor=raw")), Some("raw".to_string()));
    assert_eq!(extract_cursor(Some("https://h/x/?page=2")), None);
    assert_eq!(extract_cursor(Some("   ")), None);
    assert_eq!(extract_cursor(Some("https://h/x/?cursor=%4")), None);
}

#[test]
fn status_errors_map_each_status_to_a_class() {
    let e = status_error(403, "Forbidden", "");
    assert_eq!(e.code, ErrorCode::AuthRequired);
    assert_eq!(e.remediation.as_deref(), Some("Check that your token has permission for this operation."));

    let e = status_error(401, "Unauthorized", "");
    assert_eq!(
        e.remediation.as_deref(),
        Some("Check your API token (--api-token or BUGSINK_API_TOKEN), or: bugsink accounts add <name> --api-token <token> --force")
    );

    let e = status_error(429, "Too Many Requests", "");
    assert_eq!(e.code, ErrorCode::RateLimited);
    assert_eq!(e.remediation.as_deref(), Some("Back off before retrying."));

    assert_eq!(status_error(400, "Bad Request", "").code, ErrorCode::InvalidInput);
    assert_eq!(status_error(422, "Unprocessable Entity", "").code, ErrorCode::InvalidInput);

    let e = status_error(503, "Service Unavailable", "");
    assert_eq!(e.code, ErrorCode::Network);
    assert_eq!(
        e.remediation.as_deref(),
        Some("Retry once; if it persists the Bugsink server is having trouble.")
    );

    let e = status_error(418, "I'm a teapot", "");
    assert_eq!(e.code, ErrorCode::Error);
    assert_eq!(e.remediation, None);
}

#[test]
fn status_error_messages_and_details() {
    let e = status_error(404, "Not Found", "");
    assert_eq!(e.message, "404 Not Found");
    assert_eq!(e.detail, None);

    let body = r#"{"detail":"Not found."}"#;
    let e = status_error(404, "Not Found", body);
    assert_eq!(e.message, "404 Not Found: Not found.");
    assert_eq!(e.detail.as_deref(), Some(r#"HTTP 404: {"detail":"Not found."}"#));

    let body = r#"{"name":["This field is required.","Too short."],"team":"bad"}"#;
    let e = status_error(400, "Bad Request", body);
    assert_eq!(e.message, "400 Bad Request: name: This field is required. Too short.; team: bad");

    let e = status_error(400, "Bad Request", r#"{"count":3,"ok":true}"#);
    assert_eq!(e.message, "400 Bad Request: count: 3; ok: true");

    let e = status_error(400, "Bad Request", "{}");
    assert_eq!(e.message, "400 Bad Request");

    let e = status_error(500, "Internal Server Error", "oops");
    assert_eq!(e.message, "500 Internal Server Error: oops");
    assert_eq!(e.detail.as_deref(), Some("HTTP 500: oops"));

    let e = status_error(500, "Internal Server Error", "[1,2]");
    assert_eq!(e.message, "500 Internal Server Error");
}

#[test]
fn read_json_success_bodies() {
    let j = read_json(200, "OK", b"").unwrap();
    assert_eq!(json_of(j), "{}");
    let j = read_json(204, "No Content", b" \n\t").unwrap();
    assert_eq!(json_of(j), "{}");
    let j = read_json(200, "OK", br#"{"a": [1, "x"]}"#).unwrap();
    assert_eq!(json_of(j), r#"{"a":[1,"x"]}"#);
    let j = read_json(201, "Created", b"not json").unwrap();
    assert_eq!(json_of(j), r#""not json""#);
}

#[test]
fn read_json_error_statuses() {
    let e = read_json(404, "Not Found", b"  {\"detail\":\"Not found.\"}\n").unwrap_err();
    assert_eq!(e.code, ErrorCode::NotFound);
    assert_eq!(e.message, "404 Not Found: Not found.");
    assert_eq!(e.detail.as_deref(), Some("HTTP 404: {\"detail\":\"Not found.\"}"));

    let e = read_json(500, "Internal Server Error", b"Internal Server Error").unwrap_err();
    assert_eq!(e.code, ErrorCode::Network);
    assert_eq!(e.message, "500 Internal Server Error: Internal Server Error");

    let e = read_json(302, "Found", b"").unwrap_err();
    assert_eq!(e.code, ErrorCode::Error);
    assert_eq!(e.message, "302 Found");
}

#[test]
fn read_text_decodes_lossily() {
    assert_eq!(read_text(200, "OK", b"Traceback\n").unwrap(), "Traceback\n");
    assert_eq!(read_text(200, "OK", b"a\xffb").unwrap(), "a\u{fffd}b");
    let e = read_text(401, "Unauthorized", b"").unwrap_err();
    assert_eq!(e.code, ErrorCode::AuthRequired);
}

#[test]
fn transport_errors_are_network_errors() {
    let e = transport_error(true, "ignored");
    assert_eq!(e.code, ErrorCode::Network);
    assert_eq!(e.message, "The request timed out.");
    assert_eq!(e.detail, None);
    assert_eq!(e.remediation.as_deref(), Some("Retry once, then stop."));

    let e = transport_error(false, "dns error");
    assert_eq!(e.message, "Could not reach the Bugsink API.");
    assert_eq!(e.detail.as_deref(), Some("dns error"));
    assert_eq!(e.exit_code(), 2);
}

#[test]
fn client_base_url_is_normalized() {
    let c = Client::new("https://bugsink.example.com", "tok");
    assert_eq!(c.base, "https://bugsink.example.com/api/canonical/0/");
    assert_eq!(c.auth, "Bearer tok");

    let c = Client::new("  https://bugsink.example.com//  ", "t");
    assert_eq!(c.base, "https://bugsink.example.com/api/canonical/0/");

    let c = Client::new("http://localhost:8000/api/canonical/0", "t");
    assert_eq!(c.base, "http://localhost:8000/api/canonical/0/");

    let c = Client::new("http://localhost:8000/api/canonical/0/", "t");
    assert_eq!(c.base, "http://localhost:8000/api/canonical/0/");

    let again = Client::new(&c.base, "t");
    assert_eq!(again.base, c.base);
}

#[test]
fn client_url_joins_base_and_path() {
    let c = Client::new("https://h", "t");
    assert_eq!(c.url("/projects/"), "https://h/api/canonical/0/projects/");
    assert_eq!(c.url("issues/?project=1"), "https://h/api/canonical/0/issues/?project=1");
}

#[test]
fn http_errors_give_stable_exit_codes() {
    let e = read_json(401, "Unauthorized", br#"{"detail": "Malformed Bearer token, must be 40 lowercase hex chars."}"#).unwrap_err();
    assert_eq!(e.exit_code(), 3);
    assert!(e.message.contains("Malformed Bearer token"));
    assert_eq!(read_json(429, "Too Many Requests", br#"{"detail": "Request was throttled."}"#).unwrap_err().exit_code(), 5);
    assert_eq!(read_json(404, "Not Found", br#"{"detail": "Not found."}"#).unwrap_err().exit_code(), 4);
    assert_eq!(read_json(500, "Internal Server Error", br#"{"detail": "Internal Server Error"}"#).unwrap_err().exit_code(), 2);
}
