use bugsink::config::{lex_less, AccountConfig, Config};

fn account(endpoint: &str) -> AccountConfig {
    AccountConfig {
        endpoint: endpoint.to_string(),
        identity: String::new(),
        added_at: "2026-01-01T00:00:00Z".to_string(),
    }
}

fn names(c: &Config) -> Vec<String> {
    c.accounts.iter().map(|(n, _)| n.clone()).collect()
}

#[test]
fn insert_then_find_ignoring_case() {
    let mut c = Config::new();
    c.insert("Work".to_string(), account("https://w"));
    let (name, a) = c.find("WORK").unwrap();
    assert_eq!(name, "Work");
    assert_eq!(a.endpoint, "https://w");
    assert!(c.find("home").is_none());
}

#[test]
fn insert_replaces_in_place() {
    let mut c = Config::new();
    c.insert("a".to_string(), account("1"));
    c.insert("b".to_string(), account("2"));
    c.insert("A".to_string(), account("3"));
    assert_eq!(names(&c), vec!["A", "b"]);
    assert_eq!(c.find("a").unwrap().1.endpoint, "3");
    assert_eq!(c.position("B"), Some(1));
}

#[test]
fn remove_forgets_the_account_and_keeps_the_rest_in_order() {
    let mut c = Config::new();
    c.insert("x".to_string(), account("1"));
    c.insert("y".to_string(), account("2"));
    c.insert("z".to_string(), account("3"));
    c.remove("Y");
    assert_eq!(names(&c), vec!["x", "z"]);
    assert!(c.find("y").is_none());
    c.remove("nope");
    assert_eq!(names(&c), vec!["x", "z"]);
}

#[test]
fn remove_undoes_a_new_insert() {
    let mut c = Config::new();
    c.insert("x".to_string(), account("1"));
    c.insert("new".to_string(), account("2"));
    c.remove("new");
    assert_eq!(names(&c), vec!["x"]);
}

#[test]
fn sorted_orders_by_code_point() {
    let mut c = Config::new();
    for n in ["work", "Zed", "alpha", "Alpha2", "éclair"] {
        c.insert(n.to_string(), account("e"));
    }
    let sorted: Vec<String> = c.sorted().into_iter().map(|(n, _)| n).collect();
    assert_eq!(sorted, vec!["Alpha2", "Zed", "alpha", "work", "éclair"]);
    assert_eq!(c.accounts.len(), 5);
}

#[test]
fn lex_less_is_string_order() {
    assert!(lex_less("a", "b"));
    assert!(lex_less("a", "ab"));
    assert!(!lex_less("ab", "a"));
    assert!(!lex_less("a", "a"));
    assert!(lex_less("Z", "a"));
    assert!(lex_less("", "a"));
}
