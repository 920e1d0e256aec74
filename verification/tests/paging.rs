use bugsink::client::{extract_cursor, Client};
use bugsink::json::Json;
use bugsink::lookup::{latest_event, looks_like_uuid, select_project, select_team, Lookup};
use bugsink::paging::{IssueFilter, Pager};
use bugsink::error::ErrorCode;

fn json(text: &str) -> Json {
    bugsink::client::read_json(200, "OK", text.as_bytes()).expect("test JSON reads")
}

fn items(text: &str) -> Vec<Json> {
    match json(text) {
        Json::Array(a) => a,
        _ => panic!("expected an array"),
    }
}

fn texts(v: Vec<Json>) -> Vec<String> {
    v.into_iter().map(|j| bugsink::output::render(&bugsink::commands::Output::Data(j), true).trim_end().to_string()).collect()
}

#[test]
fn pager_follows_cursors_until_the_last_page() {
    let mut p = Pager::new("projects/".to_string(), None, None);
    assert_eq!(p.next_path(), "projects/");
    p.accept(json(r#"{"next":"https://h/api/canonical/0/projects/?cursor=abc%3D","results":[{"id":1}]}"#));
    assert!(!p.finished);
    assert_eq!(p.cursor.as_deref(), Some("abc="));
    assert_eq!(p.next_path(), "projects/?cursor=abc%3D");
    p.accept(json(r#"{"next":null,"results":[{"id":2},{"id":3}]}"#));
    assert!(p.finished);
    assert_eq!(texts(p.results), vec![r#"{"id":1}"#, r#"{"id":2}"#, r#"{"id":3}"#]);
}

#[test]
fn pager_adds_the_cursor_to_an_existing_query() {
    let mut p = Pager::new("issues/?project=42".to_string(), Some(50), None);
    p.accept(json(r#"{"next":"http://x/issues/?cursor=c2&project=42","results":[]}"#));
    assert_eq!(p.next_path(), "issues/?project=42&cursor=c2");
    assert_eq!(extract_cursor(Some(&p.next_path())), Some("c2".to_string()));
}

#[test]
fn pager_stops_at_the_limit() {
    let mut p = Pager::new("events/".to_string(), Some(2), None);
    p.accept(json(r#"{"next":"http://x/?cursor=n","results":[{"id":1},{"id":2},{"id":3}]}"#));
    assert!(p.finished);
    assert_eq!(p.results.len(), 2);

    let mut p = Pager::new("events/".to_string(), Some(3), None);
    p.accept(json(r#"{"next":"http://x/?cursor=n","results":[{"id":1},{"id":2}]}"#));
    assert!(!p.finished);
    p.accept(json(r#"{"next":"http://x/?cursor=m","results":[{"id":3},{"id":4}]}"#));
    assert!(p.finished);
    assert_eq!(texts(p.results), vec![r#"{"id":1}"#, r#"{"id":2}"#, r#"{"id":3}"#]);
}

#[test]
fn pager_never_exceeds_a_zero_limit() {
    let mut p = Pager::new("events/".to_string(), Some(0), None);
    p.accept(json(r#"{"next":"http://x/?cursor=n","results":[{"id":1},{"id":2}]}"#));
    assert!(p.finished);
    assert!(p.results.is_empty());

    let mut p = Pager::new("events/".to_string(), Some(0), None);
    p.accept(json(r#"[{"id":1}]"#));
    assert!(p.finished);
    assert!(p.results.is_empty());
}

#[test]
fn pager_stops_when_the_limit_is_met_at_the_end_of_a_page() {
    let mut p = Pager::new("events/".to_string(), Some(2), None);
    p.accept(json(r#"{"next":"http://x/?cursor=n","results":[{"id":1},{"id":2}]}"#));
    assert!(p.finished);
    assert_eq!(p.results.len(), 2);
}

#[test]
fn pager_filters_issues_by_status() {
    let page = r#"{"next":null,"results":[
        {"id":"issue-1","is_resolved":false,"is_muted":false},
        {"id":"issue-2","is_resolved":true,"is_muted":false},
        {"id":"issue-3","is_resolved":false,"is_muted":true}]}"#;
    let ids = |keep: Option<IssueFilter>| {
        let mut p = Pager::new("issues/".to_string(), None, keep);
        p.accept(json(page));
        p.results.iter().map(|j| j.get("id").unwrap().as_str().unwrap().clone()).collect::<Vec<_>>()
    };
    assert_eq!(ids(Some(IssueFilter::Open)), vec!["issue-1"]);
    assert_eq!(ids(Some(IssueFilter::Unresolved)), vec!["issue-1", "issue-3"]);
    assert_eq!(ids(Some(IssueFilter::Resolved)), vec!["issue-2"]);
    assert_eq!(ids(Some(IssueFilter::Muted)), vec!["issue-3"]);
    assert_eq!(ids(None).len(), 3);
}

#[test]
fn pager_takes_a_bare_array_as_the_only_page() {
    let mut p = Pager::new("teams/".to_string(), None, None);
    p.accept(json(r#"[{"id":"a"},{"id":"b"}]"#));
    assert!(p.finished);
    assert_eq!(p.results.len(), 2);

    let mut p = Pager::new("teams/".to_string(), None, None);
    p.accept(json(r#""oops""#));
    assert!(p.finished);
    assert!(p.results.is_empty());
}

#[test]
fn project_lookup() {
    let c = Client::new("https://h", "t");
    assert!(matches!(c.resolve_project_id(" 42 "), Lookup::Found(42)));
    match c.resolve_project_id("my-project") {
        Lookup::List(p) => {
            assert_eq!(p.path, "projects/");
            assert_eq!(p.limit, None);
        }
        Lookup::Found(_) => panic!("expected a listing"),
    }

    let all = items(r#"[{"id":1,"slug":"main-project","name":"Main Project"},{"id":2,"slug":"other","name":"Demo"}]"#);
    assert_eq!(select_project(&all, "MAIN-PROJECT").unwrap(), 1);
    assert_eq!(select_project(&all, "demo").unwrap(), 2);
    let e = select_project(&all, "nope").unwrap_err();
    assert_eq!(e.code, ErrorCode::InvalidInput);
    assert_eq!(e.message, "No project found matching 'nope'.");

    let twice = items(r#"[{"id":1,"slug":"x","name":"a"},{"id":2,"slug":"y","name":"X"}]"#);
    let e = select_project(&twice, "x").unwrap_err();
    assert_eq!(e.message, "'x' matches 2 projects. Use the project id instead.");

    let no_id = items(r#"[{"id":"1","slug":"x"}]"#);
    let e = select_project(&no_id, "x").unwrap_err();
    assert_eq!(e.message, "Project 'x' has no valid id.");
}

#[test]
fn team_lookup() {
    let c = Client::new("https://h", "t");
    let uuid = "00000000-0000-0000-0000-000000000999";
    assert!(looks_like_uuid(uuid));
    assert!(!looks_like_uuid("Core Team"));
    match c.resolve_team_id(&format!("  {uuid} ")) {
        Lookup::Found(id) => assert_eq!(id, uuid),
        Lookup::List(_) => panic!("expected the UUID itself"),
    }
    match c.resolve_team_id("Core Team") {
        Lookup::List(p) => assert_eq!(p.path, "teams/"),
        Lookup::Found(_) => panic!("expected a listing"),
    }

    let all = items(r#"[{"id":"team-123","name":"Core Team"},{"id":"team-456","name":"Ops"}]"#);
    assert_eq!(select_team(&all, " core team ").unwrap(), "team-123");
    assert_eq!(select_team(&all, "TEAM-456").unwrap(), "team-456");
    let e = select_team(&all, "Nobody").unwrap_err();
    assert_eq!(e.message, "No team found named 'Nobody'.");
}

#[test]
fn latest_event_lookup() {
    let c = Client::new("https://h", "t");
    let p = c.resolve_latest_event_id("issue-1");
    assert_eq!(p.path, "events/?issue=issue-1&order=desc");
    assert_eq!(p.limit, Some(1));

    let events = items(r#"[{"id":"ev-uuid-99"}]"#);
    assert_eq!(latest_event(&events, "issue-1").unwrap(), "ev-uuid-99");
    let e = latest_event(&Vec::new(), "issue-1").unwrap_err();
    assert_eq!(e.message, "Issue 'issue-1' has no stored events.");

    let r = bugsink::commands::issues::stacktrace(&events, "issue-1").unwrap();
    assert_eq!(r.path, "events/ev-uuid-99/stacktrace/");
    assert_eq!(r.method, bugsink::commands::Method::GetText);
    let e = bugsink::commands::issues::stacktrace(&items(r#"[{"uuid":"x"}]"#), "issue-1").unwrap_err();
    assert_eq!(e.code, ErrorCode::InvalidInput);
}
