use bugsink::error::{usage_error, ErrorCode};
use bugsink::secrets::{account_key, choose_store, StoreKind};

#[test]
fn plaintext_needs_an_explicit_opt_in() {
    assert_eq!(choose_store(None, None).unwrap(), StoreKind::Keyring);
    assert_eq!(choose_store(Some("keyring"), Some("1")).unwrap(), StoreKind::Keyring);
    assert_eq!(choose_store(Some(" PlainText "), Some("1")).unwrap(), StoreKind::Plaintext);
    let e = choose_store(Some("plaintext"), None).unwrap_err();
    assert_eq!(e.code, ErrorCode::InvalidInput);
    assert_eq!(e.message, "The plaintext secret store was requested but is not allowed.");
    assert!(choose_store(Some("plaintext"), Some("yes")).is_err());
    assert_eq!(StoreKind::Plaintext.name(), "plaintext");
    assert_eq!(StoreKind::Keyring.name(), "keyring");
}

#[test]
fn account_keys_name_the_account() {
    assert_eq!(account_key("work"), "account:work");
}

#[test]
fn usage_errors_are_invalid_input_envelopes() {
    let text = "error: unexpected argument '--bogus' found\n\nUsage: bugsink issues list [OPTIONS]\n";
    let e = usage_error(text);
    assert_eq!(e.code, ErrorCode::InvalidInput);
    assert_eq!(e.exit_code(), 6);
    assert_eq!(e.message, "unexpected argument '--bogus' found");
    assert_eq!(e.detail.as_deref(), Some("error: unexpected argument '--bogus' found\n\nUsage: bugsink issues list [OPTIONS]"));
    assert_eq!(usage_error("plain").message, "plain");
}
