use bugsink::account::Resolved;
use bugsink::commands::accounts::{
    add_target, added, confirmation, confirmed, host_label, key_status, listing, no_endpoint_terminal,
    no_token_terminal, pick, token_choice, probe_status, remove_target, removed, stdin_token, tested, KeyRead,
    KeyStatus,
};
use bugsink::commands::login;
use bugsink::config::{AccountConfig, Config};
use bugsink::error::{Error, ErrorCode};
use bugsink::json::Json;

fn json_of(v: Json) -> String {
    bugsink::output::render(&bugsink::commands::Output::Data(v), true).trim_end_matches('\n').to_string()
}

fn account(endpoint: &str, identity: &str) -> AccountConfig {
    AccountConfig {
        endpoint: endpoint.to_string(),
        identity: identity.to_string(),
        added_at: "2026-01-01T00:00:00Z".to_string(),
    }
}

fn work_config() -> Config {
    let mut c = Config::new();
    c.insert("Work".to_string(), account("https://w.example.com", "w.example.com"));
    c
}

#[test]
fn add_target_names_and_refusals() {
    let c = work_config();
    assert_eq!(add_target(&c, "  home ", false).unwrap(), ("home".to_string(), false));
    assert_eq!(add_target(&c, "WORK", true).unwrap(), ("Work".to_string(), true));

    let e = add_target(&c, "work", false).unwrap_err();
    assert_eq!(e.code, ErrorCode::InvalidInput);
    assert_eq!(e.message, "An account named 'Work' already exists.");
    assert_eq!(
        e.remediation.as_deref(),
        Some("Pick a different name, or replace its credentials: bugsink accounts add Work --endpoint <url> --api-token <token> --force")
    );

    let e = add_target(&c, "   ", true).unwrap_err();
    assert_eq!(e.message, "An account name is required.");
}

#[test]
fn login_target_points_at_force() {
    let c = work_config();
    assert_eq!(login::target(&c, "default", false).unwrap(), ("default".to_string(), false));
    let e = login::target(&c, "work", false).unwrap_err();
    assert_eq!(e.message, "An account named 'Work' already exists.");
    assert_eq!(
        e.remediation.as_deref(),
        Some("Use --force to replace its credentials: bugsink login Work --force")
    );
    assert_eq!(login::target(&c, "work", true).unwrap(), ("Work".to_string(), true));
}

#[test]
fn pick_prefers_the_flag_and_drops_blanks() {
    assert_eq!(pick(Some(" http://f "), Some("http://e")), Some("http://f".to_string()));
    assert_eq!(pick(None, Some(" http://e\n")), Some("http://e".to_string()));
    assert_eq!(pick(Some("  "), Some("http://e")), None);
    assert_eq!(pick(None, None), None);
}

#[test]
fn host_label_is_the_host() {
    assert_eq!(host_label("https://bugsink.example.com/"), "bugsink.example.com");
    assert_eq!(host_label("http://localhost:8000/sub/path"), "localhost:8000");
    assert_eq!(host_label("https://http://x//"), "x");
    assert_eq!(host_label("plain"), "plain");
}

#[test]
fn stdin_token_is_trimmed_and_required() {
    assert_eq!(stdin_token("piped_token_123\n").unwrap(), "piped_token_123");
    let e = stdin_token(" \n").unwrap_err();
    assert_eq!(e.message, "--api-token-stdin was given but stdin was empty.");
}

#[test]
fn no_terminal_errors() {
    let e = no_endpoint_terminal();
    assert_eq!(e.code, ErrorCode::InvalidInput);
    assert_eq!(e.remediation.as_deref(), Some("Pass --endpoint <URL> or set BUGSINK_ENDPOINT"));
    let e = no_token_terminal("work");
    assert_eq!(e.remediation.as_deref(), Some("pbpaste | bugsink accounts add work --api-token-stdin"));
    let e = login::no_token_terminal("staging");
    assert_eq!(e.remediation.as_deref(), Some("pbpaste | bugsink login staging --api-token-stdin"));
}

#[test]
fn added_and_logged_in_reports() {
    let j = added(false, "work", "https://w", "w", true, "keyring", "/cfg");
    assert_eq!(
        json_of(j),
        r#"{"configDir":"/cfg","endpoint":"https://w","identity":"w","name":"work","nextStep":"bugsink projects list --account work","secretStore":"keyring","status":"added","verified":true}"#
    );
    let j = added(true, "work", "https://w", "w", false, "plaintext", "/cfg");
    assert!(json_of(j).contains(r#""status":"replaced""#));
    let j = login::logged_in("default", "https://w", "w", true, "keyring", "/cfg");
    assert!(json_of(j).contains(r#""name":"default","nextStep":"bugsink projects list --account default","secretStore":"keyring","status":"logged_in""#));
    assert_eq!(
        login::success_line("https://w", "default"),
        "Successfully logged in to Bugsink at https://w as account 'default'."
    );
}

#[test]
fn key_status_from_the_keystore() {
    let known = |k: KeyStatus| match k {
        KeyStatus::Known(s) => s,
        KeyStatus::Probe(_) => "probe".to_string(),
    };
    assert_eq!(known(key_status(&KeyRead::Failed, true)), "unreadable");
    assert_eq!(known(key_status(&KeyRead::Read(None), false)), "missing_key");
    assert_eq!(known(key_status(&KeyRead::Read(Some("  ".to_string())), true)), "missing_key");
    assert_eq!(known(key_status(&KeyRead::Read(Some("tok".to_string())), false)), "stored");
    match key_status(&KeyRead::Read(Some("tok".to_string())), true) {
        KeyStatus::Probe(t) => assert_eq!(t, "tok"),
        KeyStatus::Known(_) => panic!("expected a probe"),
    }
}

#[test]
fn probe_status_from_the_api_answer() {
    assert_eq!(probe_status(&Ok(Json::Null)), "valid");
    let rejected: Result<Json, Error> = Err(Error::new(ErrorCode::AuthRequired, "no".to_string()));
    assert_eq!(probe_status(&rejected), "rejected");
    let down: Result<Json, Error> = Err(Error::new(ErrorCode::Network, "down".to_string()));
    assert_eq!(probe_status(&down), "unreachable");
}

#[test]
fn listing_pairs_accounts_with_statuses() {
    let accounts = vec![("work".to_string(), account("https://w", "w"))];
    let statuses = vec!["stored".to_string()];
    let j = listing(&accounts, &statuses, "plaintext", "/cfg");
    assert_eq!(
        json_of(j),
        r#"{"accounts":[{"addedAt":"2026-01-01T00:00:00Z","endpoint":"https://w","identity":"w","keyStatus":"stored","name":"work"}],"configDir":"/cfg","count":1,"secretStore":"plaintext"}"#
    );
    let empty = listing(&Vec::new(), &Vec::new(), "keyring", "/c");
    assert_eq!(json_of(empty), r#"{"accounts":[],"configDir":"/c","count":0,"secretStore":"keyring"}"#);
}

#[test]
fn tested_reports_the_sample() {
    let r = Resolved { name: "work".to_string(), endpoint: "https://w".to_string(), api_token: "t".to_string() };
    let j = tested(&r, Json::Array(Vec::new()));
    assert_eq!(json_of(j), r#"{"endpoint":"https://w","keyStatus":"valid","name":"work","sample":[]}"#);
}

#[test]
fn remove_flow() {
    let c = work_config();
    let (name, a) = remove_target(&c, "work").unwrap();
    assert_eq!(name, "Work");
    assert_eq!(a.endpoint, "https://w.example.com");
    let e = remove_target(&c, "nope").unwrap_err();
    assert_eq!(e.code, ErrorCode::NoAccount);
    assert_eq!(e.message, "No account named 'nope'.");
    assert_eq!(e.remediation.as_deref(), Some("bugsink accounts list"));

    assert_eq!(confirmation("work", true, false).unwrap(), false);
    assert_eq!(confirmation("work", false, true).unwrap(), true);
    let e = confirmation("work", false, false).unwrap_err();
    assert_eq!(e.message, "Removing 'work' needs confirmation and there is no terminal to ask on.");
    assert_eq!(e.remediation.as_deref(), Some("bugsink accounts remove work --yes"));

    assert!(confirmed(" Y\n").is_ok());
    assert!(confirmed("yes").is_ok());
    let e = confirmed("n").unwrap_err();
    assert_eq!(e.message, "Cancelled.");
    assert!(confirmed("").is_err());

    assert_eq!(
        json_of(removed("work", "https://w")),
        r#"{"endpoint":"https://w","name":"work","note":"The API token was deleted locally.","status":"removed"}"#
    );
}

#[test]
fn token_comes_from_stdin_then_flag_then_environment() {
    assert_eq!(token_choice(Some("  tok-stdin \n"), Some("flag"), Some("env")).unwrap(), Some("tok-stdin".to_string()));
    let e = token_choice(Some("  \n"), Some("flag"), None).unwrap_err();
    assert_eq!(e.message, "--api-token-stdin was given but stdin was empty.");
    assert_eq!(token_choice(None, Some(" flag "), Some("env")).unwrap(), Some("flag".to_string()));
    assert_eq!(token_choice(None, None, Some("env")).unwrap(), Some("env".to_string()));
    assert_eq!(token_choice(None, Some("  "), Some("env")).unwrap(), None);
    assert_eq!(token_choice(None, None, None).unwrap(), None);
}
