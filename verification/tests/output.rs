use bugsink::clock::{civil_date, timestamp};
use bugsink::commands::Output;
use bugsink::error::{Error, ErrorCode};
use bugsink::json::Json;
use bugsink::readme::{manual, README};
use bugsink::text::{parse_i64, trim_str};

fn json_of(v: Json) -> String {
    bugsink::output::render(&bugsink::commands::Output::Data(v), true).trim_end_matches('\n').to_string()
}

fn parse(text: &str) -> Json {
    bugsink::client::read_json(200, "OK", text.as_bytes()).expect("test JSON reads")
}

#[test]
fn exit_codes_are_one_to_seven_and_distinct() {
    let all = [
        (ErrorCode::Error, 1, "error"),
        (ErrorCode::Network, 2, "network"),
        (ErrorCode::AuthRequired, 3, "auth_required"),
        (ErrorCode::NotFound, 4, "not_found"),
        (ErrorCode::RateLimited, 5, "rate_limited"),
        (ErrorCode::InvalidInput, 6, "invalid_input"),
        (ErrorCode::NoAccount, 7, "no_account"),
    ];
    for (code, exit, name) in all {
        assert_eq!(code.exit_code(), exit);
        assert_eq!(code.name(), name);
    }
}

#[test]
fn error_envelopes() {
    let e = Error::new(ErrorCode::NoAccount, "No account named 'nope'.".to_string())
        .detail("Configured accounts: work (w)".to_string())
        .fix("bugsink accounts list".to_string());
    assert_eq!(
        json_of(e.envelope()),
        r#"{"code":"no_account","detail":"Configured accounts: work (w)","error":"No account named 'nope'.","remediation":"bugsink accounts list"}"#
    );
    let e = Error::invalid("bad".to_string());
    assert_eq!(json_of(e.envelope()), r#"{"code":"invalid_input","error":"bad"}"#);
    assert_eq!(Error::other("x".to_string()).exit_code(), 1);
}

#[test]
fn json_text_is_compact_and_escaped() {
    let v = Json::Object(vec![
        ("s".to_string(), Json::Str("a\"b\\c\n\u{1}é".to_string())),
        ("n".to_string(), Json::Null),
        ("a".to_string(), Json::Array(vec![Json::Bool(true), Json::Number("-1.5".to_string())])),
    ]);
    assert_eq!(json_of(v), r#"{"a":[true,-1.5],"n":null,"s":"a\"b\\c\n\u0001é"}"#);
}

#[test]
fn json_parsing_and_reading() {
    let v = parse(r#"{"b": 1, "a": {"x": [null, false]}, "n": 12345678901}"#);
    assert_eq!(v.get("n").unwrap().as_i64(), Some(12345678901));
    assert_eq!(v.get("b").unwrap().as_bool(), None);
    assert!(v.get("zzz").is_none());
    assert_eq!(json_of(v), r#"{"a":{"x":[null,false]},"b":1,"n":12345678901}"#);
    assert_eq!(json_of(parse("{not json")), r#""{not json""#);
    assert!(Json::Str("x".to_string()).get("a").is_none());
}

#[test]
fn integers_parse_like_i64() {
    assert_eq!(parse_i64("42"), Some(42));
    assert_eq!(parse_i64("-7"), Some(-7));
    assert_eq!(parse_i64("+7"), Some(7));
    assert_eq!(parse_i64("9223372036854775807"), Some(i64::MAX));
    assert_eq!(parse_i64("-9223372036854775808"), Some(i64::MIN));
    assert_eq!(parse_i64("9223372036854775808"), None);
    assert_eq!(parse_i64(""), None);
    assert_eq!(parse_i64("-"), None);
    assert_eq!(parse_i64("1.0"), None);
    assert_eq!(parse_i64("my-project"), None);
}

#[test]
fn trim_uses_unicode_whitespace() {
    assert_eq!(trim_str("\u{a0} x y\u{3000}\n"), "x y");
    assert_eq!(trim_str("   "), "");
}

#[test]
fn agent_readme_text_and_data() {
    match manual(false) {
        Output::Text(t) => {
            assert_eq!(t, README);
            assert!(t.starts_with("# bugsink — agent operating manual"));
        }
        Output::Data(_) => panic!("expected the Markdown manual"),
    }
    match manual(true) {
        Output::Data(d) => {
            assert_eq!(d.get("tool").unwrap().as_str().unwrap(), "bugsink");
            let codes = d.get("exitCodes").unwrap();
            assert_eq!(codes.get("7").unwrap().as_str().unwrap(), "no_account - run bugsink accounts list");
            assert_eq!(codes.get("0").unwrap().as_str().unwrap(), "ok");
            match d.get("rules").unwrap() {
                Json::Array(rules) => assert_eq!(rules.len(), 7),
                _ => panic!("rules are a list"),
            }
        }
        Output::Text(_) => panic!("expected data"),
    }
}

#[test]
fn yaml_is_block_style() {
    let v = parse(r#"[{"id":1,"name":"Main Project","slug":"main-project"},{"id":2,"tags":["a b","x: y"],"team":{}}]"#);
    assert_eq!(
        bugsink::output::to_yaml(&v),
        "- id: 1\n  name: Main Project\n  slug: main-project\n- id: 2\n  tags:\n    - a b\n    - \"x: y\"\n  team: {}\n"
    );
}

#[test]
fn yaml_quotes_what_would_read_differently() {
    let v = parse(r#"{"a":"yes","b":"123","c":"","d":"trailing ","e":"https://h","f":"Off","g":null,"h":true,"i":[]}"#);
    assert_eq!(
        bugsink::output::to_yaml(&v),
        "a: \"yes\"\nb: \"123\"\nc: \"\"\nd: \"trailing \"\ne: \"https://h\"\nf: \"Off\"\ng: null\nh: true\ni: []\n"
    );
    assert_eq!(bugsink::output::to_yaml(&Json::Str("plain text".to_string())), "plain text\n");
    assert_eq!(bugsink::output::to_yaml(&Json::Array(Vec::new())), "[]\n");
}

#[test]
fn render_picks_the_format() {
    let d = Output::Data(parse(r#"{"status":"resolved","issue":"issue-1"}"#));
    assert_eq!(bugsink::output::render(&d, false), "issue: issue-1\nstatus: resolved\n");
    assert_eq!(bugsink::output::render(&d, true), "{\"issue\":\"issue-1\",\"status\":\"resolved\"}\n");
    let t = Output::Text("Traceback".to_string());
    assert_eq!(bugsink::output::render(&t, true), "Traceback\n");
}

#[test]
fn timestamps_are_rfc3339_utc() {
    assert_eq!(timestamp(0), "1970-01-01T00:00:00Z");
    assert_eq!(timestamp(951782400), "2000-02-29T00:00:00Z");
    assert_eq!(timestamp(1709251199), "2024-02-29T23:59:59Z");
    assert_eq!(timestamp(1790208000 + 3723), "2026-09-24T01:02:03Z");
    assert_eq!(civil_date(365), (1971, 1, 1));
    assert_eq!(civil_date(59), (1970, 3, 1));
    assert_eq!(timestamp(253402300799), "9999-12-31T23:59:59Z");
}
