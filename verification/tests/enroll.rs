use bugsink::client::read_json;
use bugsink::commands::accounts::account_name;
use bugsink::commands::enroll::{EnrollAction, EnrollEvent, Enrollment, Purpose, Stage};
use bugsink::commands::{Method, Output};
use bugsink::config::{AccountConfig, Config};
use bugsink::error::{Error, ErrorCode};
use bugsink::json::Json;

fn json_of(v: Json) -> String {
    bugsink::output::render(&Output::Data(v), true).trim_end_matches('\n').to_string()
}

fn job(purpose: Purpose, skip: bool) -> Enrollment {
    Enrollment::new(
        purpose,
        "work".to_string(),
        false,
        "https://bugsink.example.com/".to_string(),
        "tok".to_string(),
        skip,
        "plaintext".to_string(),
        "/cfg".to_string(),
    )
}

#[test]
fn credentials_are_verified_before_they_are_stored() {
    let mut j = job(Purpose::Add, false);
    match j.step(EnrollEvent::Begin) {
        EnrollAction::Verify(r) => {
            assert_eq!(r.method, Method::Get);
            assert_eq!(r.path, "projects/?limit=1");
        }
        other => panic!("expected verification first, got {other:?}"),
    }
    assert_eq!(j.stage, Stage::Verifying);
    assert!(!j.cleared);
    match j.step(EnrollEvent::Verified(Ok(Json::Null))) {
        EnrollAction::Store { name, endpoint, identity, token } => {
            assert_eq!((name.as_str(), endpoint.as_str(), identity.as_str(), token.as_str()),
                ("work", "https://bugsink.example.com/", "bugsink.example.com", "tok"));
        }
        other => panic!("expected storing, got {other:?}"),
    }
    assert!(j.cleared);
    match j.step(EnrollEvent::Stored(Ok(()))) {
        EnrollAction::Report(r) => {
            let text = json_of(r);
            assert!(text.contains(r#""status":"added""#));
            assert!(text.contains(r#""verified":true"#));
        }
        other => panic!("expected a report, got {other:?}"),
    }
    assert_eq!(j.stage, Stage::Done);
}

#[test]
fn a_rejected_token_is_never_stored() {
    let mut j = job(Purpose::Login, false);
    let _ = j.step(EnrollEvent::Begin);
    let refused = read_json(401, "Unauthorized", br#"{"detail":"Invalid token."}"#);
    match j.step(EnrollEvent::Verified(refused)) {
        EnrollAction::Fail(e) => {
            assert_eq!(e.code, ErrorCode::AuthRequired);
            assert_eq!(e.message, "401 Unauthorized: Invalid token.");
        }
        other => panic!("expected failure, got {other:?}"),
    }
    assert_eq!(j.stage, Stage::Done);
    assert!(!j.cleared);
}

#[test]
fn skipping_verification_stores_at_once() {
    let mut j = job(Purpose::Login, true);
    assert!(matches!(j.step(EnrollEvent::Begin), EnrollAction::Store { .. }));
    assert!(j.cleared);
    let failed = Err(Error::other("disk full".to_string()));
    assert!(matches!(j.step(EnrollEvent::Stored(failed)), EnrollAction::Fail(_)));

    let mut j = job(Purpose::Login, true);
    let _ = j.step(EnrollEvent::Begin);
    match j.step(EnrollEvent::Stored(Ok(()))) {
        EnrollAction::Report(r) => {
            let text = json_of(r);
            assert!(text.contains(r#""status":"logged_in""#));
            assert!(text.contains(r#""verified":false"#));
        }
        other => panic!("expected a report, got {other:?}"),
    }
}

#[test]
fn account_names_are_trimmed_and_required() {
    assert_eq!(account_name("  work ").unwrap(), "work");
    assert_eq!(account_name(" \n").unwrap_err().message, "An account name is required.");
}

#[test]
fn the_configuration_reads_back_what_was_written() {
    let mut c = Config::new();
    c.insert("work".to_string(), AccountConfig {
        endpoint: "https://w".to_string(),
        identity: "w".to_string(),
        added_at: "2026-01-01T00:00:00Z".to_string(),
    });
    c.insert("Home \"x\"".to_string(), AccountConfig {
        endpoint: "http://h".to_string(),
        identity: String::new(),
        added_at: "t".to_string(),
    });
    let text = c.to_text().unwrap();
    assert!(text.contains("work:"), "{text}");
    assert!(!text.contains("tok"));
    let back = Config::from_text(&text).unwrap();
    let names: Vec<_> = back.accounts.iter().map(|(n, a)| (n.clone(), a.endpoint.clone(), a.identity.clone(), a.added_at.clone())).collect();
    assert!(names.contains(&("work".to_string(), "https://w".to_string(), "w".to_string(), "2026-01-01T00:00:00Z".to_string())));
    assert!(names.contains(&("Home \"x\"".to_string(), "http://h".to_string(), String::new(), "t".to_string())));
    assert_eq!(back.accounts.len(), 2);
}

#[test]
fn configuration_files_that_cannot_be_read() {
    assert!(Config::from_text("  \n").unwrap().accounts.is_empty());
    assert!(Config::from_text("{}").unwrap().accounts.is_empty());
    let e = Config::from_text("not json").unwrap_err();
    assert_eq!(e.message, "The configuration file is not valid.");
    assert!(Config::from_text(r#"{"accounts":[]}"#).is_err());
    assert!(Config::from_text(r#"{"accounts":{"a":"x"}}"#).is_err());
    assert!(Config::from_text(r#"{"accounts":{"a":{},"A":{}}}"#).is_err());
    let c = Config::from_text(r#"{"accounts":{"a":{"endpoint":"e"}}}"#).unwrap();
    assert_eq!(c.accounts[0].1.endpoint, "e");
    assert_eq!(c.accounts[0].1.identity, "");
    let c = Config::from_text("accounts:\n  work:\n    endpoint: https://w\n    identity: me\n").unwrap();
    assert_eq!(c.accounts[0].0, "work");
    assert_eq!(c.accounts[0].1.endpoint, "https://w");
    assert_eq!(c.accounts[0].1.identity, "me");
    let e = Config::from_text("accounts: [unclosed").unwrap_err();
    assert_eq!(e.message, "The configuration file is not valid.");
}
