use bugsink::account::{describe, resolve, Located, Pending};
use bugsink::cli::AccountArgs;
use bugsink::commands::resolve_account;
use bugsink::config::{AccountConfig, Config};
use bugsink::error::ErrorCode;

fn account(endpoint: &str, identity: &str) -> AccountConfig {
    AccountConfig {
        endpoint: endpoint.to_string(),
        identity: identity.to_string(),
        added_at: "2026-01-01T00:00:00Z".to_string(),
    }
}

fn config_of(entries: &[(&str, &str, &str)]) -> Config {
    let mut c = Config::new();
    for (name, endpoint, identity) in entries {
        c.insert(name.to_string(), account(endpoint, identity));
    }
    c
}

#[test]
fn direct_env_resolves_when_no_account() {
    let res = resolve(None, Some("http://localhost:8000"), Some("token123"), None, None).unwrap();
    assert_eq!(res.endpoint, "http://localhost:8000");
    assert_eq!(res.api_token, "token123");
}

#[test]
fn direct_credentials_are_named_direct_and_trimmed() {
    let res = resolve(Some("  "), Some("  http://h  "), Some(" t "), None, None).unwrap();
    assert_eq!(res.name, "direct");
    assert_eq!(res.endpoint, "http://h");
    assert_eq!(res.api_token, "t");
}

#[test]
fn flags_take_precedence_over_environment() {
    let res = resolve(None, Some("http://flag"), None, Some("http://env"), Some("envtok")).unwrap();
    assert_eq!(res.endpoint, "http://flag");
    assert_eq!(res.api_token, "envtok");

    let res = resolve(None, None, None, Some("http://env"), Some("envtok")).unwrap();
    assert_eq!(res.endpoint, "http://env");
}

#[test]
fn blank_environment_values_are_ignored() {
    let p = resolve(None, None, Some("tok"), Some("   "), None).unwrap_err();
    assert_eq!(p.endpoint, None);
    assert_eq!(p.token.as_deref(), Some("tok"));
}

#[test]
fn a_named_account_goes_on_to_the_configuration() {
    let p = resolve(Some(" work "), Some("http://h"), Some("t"), None, None).unwrap_err();
    assert_eq!(p.requested.as_deref(), Some("work"));
}

#[test]
fn missing_endpoint_or_token_is_invalid_input() {
    let c = Config::new();
    let p = Pending { requested: None, endpoint: None, token: Some("t".to_string()) };
    let e = p.with_config(&c).unwrap_err();
    assert_eq!(e.code, ErrorCode::InvalidInput);
    assert_eq!(e.message, "Bugsink URL required. Use --endpoint or set BUGSINK_ENDPOINT.");

    let p = Pending { requested: None, endpoint: Some("http://h".to_string()), token: None };
    let e = p.with_config(&c).unwrap_err();
    assert_eq!(e.code, ErrorCode::InvalidInput);
    assert_eq!(e.message, "API token required. Use --api-token or set BUGSINK_API_TOKEN.");
}

#[test]
fn no_account_lists_the_configured_ones() {
    let c = config_of(&[("work", "https://w.example.com", "w.example.com"), ("Alpha", "http://a", "")]);
    let p = Pending { requested: None, endpoint: None, token: None };
    let e = p.with_config(&c).unwrap_err();
    assert_eq!(e.code, ErrorCode::NoAccount);
    assert_eq!(e.exit_code(), 7);
    assert_eq!(e.message, "No account specified. Pass --account <name>.");
    assert_eq!(
        e.detail.as_deref(),
        Some("Configured accounts: Alpha (http://a), work (w.example.com, https://w.example.com)")
    );
    assert_eq!(e.remediation.as_deref(), Some("bugsink accounts list"));

    let p = Pending { requested: Some("nope".to_string()), endpoint: None, token: None };
    let e = p.with_config(&c).unwrap_err();
    assert_eq!(e.code, ErrorCode::NoAccount);
    assert_eq!(e.message, "No account named 'nope'.");
}

#[test]
fn describe_says_when_nothing_is_configured() {
    assert_eq!(
        describe(&Config::new()),
        "No accounts are configured yet. Run 'bugsink accounts add <name> --endpoint <url> --api-token <token>'."
    );
}

#[test]
fn a_named_account_is_found_ignoring_case_and_needs_a_stored_token() {
    let c = config_of(&[("Work", "https://w", "w")]);
    let p = Pending { requested: Some("work".to_string()), endpoint: None, token: None };
    let located = p.with_config(&c).unwrap();
    assert_eq!(located.name, "Work");
    assert_eq!(located.endpoint, "https://w");

    let res = located.with_key(Some("secret".to_string())).unwrap();
    assert_eq!(res.name, "Work");
    assert_eq!(res.api_token, "secret");

    let l = Located { name: "Work".to_string(), endpoint: "https://w".to_string() };
    let e = l.with_key(Some("  ".to_string())).unwrap_err();
    assert_eq!(e.code, ErrorCode::AuthRequired);
    assert_eq!(e.message, "Account 'Work' has no stored API token.");
    assert_eq!(e.remediation.as_deref(), Some("bugsink accounts add Work --api-token <token>"));

    let l = Located { name: "Work".to_string(), endpoint: "https://w".to_string() };
    assert!(l.with_key(None).is_err());
}

#[test]
fn account_args_resolve_like_flags() {
    let a = AccountArgs {
        account: None,
        endpoint: Some("http://localhost:8000".to_string()),
        api_token: Some("token123".to_string()),
    };
    let res = resolve_account(&a, None, None).unwrap();
    assert_eq!(res.name, "direct");
    let client = res.client();
    assert_eq!(client.base, "http://localhost:8000/api/canonical/0/");
    assert_eq!(client.auth, "Bearer token123");
}
