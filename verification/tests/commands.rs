use bugsink::commands::{done, events, issues, projects, releases, teams, Method, Output, Request};
use bugsink::error::ErrorCode;
use bugsink::json::Json;
use bugsink::paging::IssueFilter;

fn json_of(v: Json) -> String {
    bugsink::output::render(&bugsink::commands::Output::Data(v), true).trim_end_matches('\n').to_string()
}

fn body_text(r: &Request) -> Option<String> {
    r.body_text()
}

fn obj(fields: &[(&str, Json)]) -> Json {
    Json::Object(fields.iter().map(|(k, v)| (k.to_string(), clone_json(v))).collect())
}

fn clone_json(v: &Json) -> Json {
    match v {
        Json::Null => Json::Null,
        Json::Bool(b) => Json::Bool(*b),
        Json::Number(n) => Json::Number(n.clone()),
        Json::Str(s) => Json::Str(s.clone()),
        Json::Array(a) => Json::Array(a.iter().map(clone_json).collect()),
        Json::Object(o) => Json::Object(o.iter().map(|(k, x)| (k.clone(), clone_json(x))).collect()),
    }
}

#[test]
fn issues_list_builds_the_path_and_filter() {
    let p = issues::list(42, Some("last_seen"), Some("desc"), "open", 20, false).unwrap();
    assert_eq!(p.path, "issues/?project=42&sort=last_seen&order=desc");
    assert_eq!(p.limit, Some(20));
    assert_eq!(p.keep, Some(IssueFilter::Open));
    assert!(p.results.is_empty() && p.cursor.is_none() && !p.finished);

    let p = issues::list(-3, Some("  "), None, "ALL", 50, true).unwrap();
    assert_eq!(p.path, "issues/?project=-3");
    assert_eq!(p.limit, None);
    assert_eq!(p.keep, None);

    let p = issues::list(1, Some("a b"), None, "Muted", 5, false).unwrap();
    assert_eq!(p.path, "issues/?project=1&sort=a%20b");
    assert_eq!(p.keep, Some(IssueFilter::Muted));
}

#[test]
fn issues_list_refuses_an_unknown_status() {
    let e = issues::list(1, None, None, "closed", 50, false).unwrap_err();
    assert_eq!(e.code, ErrorCode::InvalidInput);
    assert_eq!(e.message, "Unknown --status 'closed'. Use all, open, unresolved, resolved or muted.");
}

#[test]
fn issue_actions_post_to_their_paths() {
    let r = issues::get("MYPROJECT-7");
    assert_eq!((r.method, r.path.as_str()), (Method::Get, "issues/MYPROJECT-7/"));
    assert!(r.body.is_none());

    assert_eq!(issues::resolve("i/1", false, false).path, "issues/i%2F1/resolve/");
    assert_eq!(issues::resolve("i", true, true).path, "issues/i/resolve-latest/");
    assert_eq!(issues::resolve("i", false, true).path, "issues/i/resolve-next/");
    assert_eq!(issues::reopen("i").path, "issues/i/reopen/");
    assert_eq!(issues::unmute("i").path, "issues/i/unmute/");
    let d = issues::delete("issue-1");
    assert_eq!((d.method, d.path.as_str()), (Method::Delete, "issues/issue-1/"));
}

#[test]
fn mute_variants() {
    let r = issues::mute("i", None, None, None).unwrap();
    assert_eq!((r.method, r.path.as_str()), (Method::Post, "issues/i/mute/"));
    assert!(r.body.is_none());

    let r = issues::mute("i", Some(3), Some("day"), None).unwrap();
    assert_eq!(r.path, "issues/i/mute-for/");
    assert_eq!(body_text(&r).unwrap(), r#"{"nr_of_periods":3,"period_name":"day"}"#);

    let r = issues::mute("i", Some(1), Some("hour"), Some(10)).unwrap();
    assert_eq!(r.path, "issues/i/mute-until/");
    assert_eq!(
        body_text(&r).unwrap(),
        r#"{"gte_threshold":10,"nr_of_periods":1,"period_name":"hour"}"#
    );

    let e = issues::mute("i", None, Some("day"), Some(10)).unwrap_err();
    assert_eq!(e.message, "--threshold also needs --for <N> and --period <PERIOD>.");
    let e = issues::mute("i", Some(2), None, None).unwrap_err();
    assert_eq!(e.code, ErrorCode::InvalidInput);
    assert_eq!(e.message, "--for and --period must be given together.");
}

#[test]
fn comment_sources_and_refusals() {
    let r = issues::comment("issue-1", Some("fixed  \n"), None).unwrap();
    assert_eq!((r.method, r.path.as_str()), (Method::Post, "issue-comments/"));
    assert_eq!(body_text(&r).unwrap(), r#"{"comment":"fixed","issue":"issue-1"}"#);

    let r = issues::comment("i", Some("ignored"), Some("from stdin\n")).unwrap();
    assert_eq!(body_text(&r).unwrap(), r#"{"comment":"from stdin","issue":"i"}"#);

    let e = issues::comment("i", None, None).unwrap_err();
    assert_eq!(e.message, "Pass exactly one of --text <TEXT> or --stdin.");
    let e = issues::comment("i", Some(" \t\n"), None).unwrap_err();
    assert_eq!(e.message, "Comment text is empty.");
}

#[test]
fn events_requests() {
    let p = events::list("MYPROJECT-1", "desc", 50, false);
    assert_eq!(p.path, "events/?issue=MYPROJECT-1&order=desc");
    assert_eq!(p.limit, Some(50));
    assert_eq!(events::get("ev-10").path, "events/ev-10/");
    let s = events::stacktrace("ev-10");
    assert_eq!((s.method, s.path.as_str()), (Method::GetText, "events/ev-10/stacktrace/"));
}

#[test]
fn events_without_data_drops_the_payload() {
    let ev = obj(&[("id", Json::Str("ev-10".into())), ("data", obj(&[("runtime", Json::Str("python".into()))]))]);
    assert_eq!(json_of(events::without_data(clone_json(&ev), true)), r#"{"id":"ev-10"}"#);
    assert_eq!(
        json_of(events::without_data(ev, false)),
        r#"{"data":{"runtime":"python"},"id":"ev-10"}"#
    );
    assert_eq!(json_of(events::without_data(Json::Null, true)), "null");
}

#[test]
fn stacktrace_output_text_or_data() {
    match events::stacktrace_output("Traceback\n  x\n\n".to_string(), false) {
        Output::Text(t) => assert_eq!(t, "Traceback\n  x"),
        Output::Data(_) => panic!("expected text"),
    }
    match events::stacktrace_output("T\n".to_string(), true) {
        Output::Data(d) => assert_eq!(json_of(d), r#"{"stacktrace":"T\n"}"#),
        Output::Text(_) => panic!("expected data"),
    }
}

#[test]
fn projects_requests() {
    assert_eq!(projects::team_arg(Some("  ")), None);
    assert_eq!(projects::team_arg(Some("Core")), Some("Core".to_string()));
    assert_eq!(projects::list(None, 50, false).path, "projects/");
    assert_eq!(projects::list(Some("team 1"), 50, true).path, "projects/?team=team%201");
    assert_eq!(projects::get(101, true).path, "projects/101/?expand=team");
    assert_eq!(projects::get(101, false).path, "projects/101/");

    let r = projects::create("team-123", "Backend", Some("joinable"), Some(true), None, Some(false), Some(50000));
    assert_eq!((r.method, r.path.as_str()), (Method::Post, "projects/"));
    assert_eq!(
        body_text(&r).unwrap(),
        r#"{"alert_on_new_issue":true,"alert_on_unmute":false,"name":"Backend","retention_max_event_count":50000,"team":"team-123","visibility":"joinable"}"#
    );
}

#[test]
fn projects_update_needs_a_field() {
    let e = projects::update_body(None, None, None, None, None, None, None).unwrap_err();
    assert_eq!(e.code, ErrorCode::InvalidInput);
    assert_eq!(e.message, "Nothing to update. Pass at least one field option.");

    let body = projects::update_body(None, Some("Backend Service"), None, None, None, None, Some(7)).unwrap();
    let r = projects::update(101, body);
    assert_eq!((r.method, r.path.as_str()), (Method::Patch, "projects/101/"));
    assert_eq!(body_text(&r).unwrap(), r#"{"name":"Backend Service","retention_max_event_count":7}"#);
}

#[test]
fn teams_requests() {
    assert_eq!(teams::list(10, false).path, "teams/");
    assert_eq!(teams::get("team-123").path, "teams/team-123/");
    let r = teams::create("Core Team", Some("discoverable"));
    assert_eq!(body_text(&r).unwrap(), r#"{"name":"Core Team","visibility":"discoverable"}"#);
    let r = teams::create("Core Team", None);
    assert_eq!(body_text(&r).unwrap(), r#"{"name":"Core Team"}"#);

    let e = teams::update_body(None, None).unwrap_err();
    assert_eq!(e.message, "Nothing to update. Pass --name and/or --visibility.");
    let r = teams::update("team-123", teams::update_body(Some("Renamed Team"), None).unwrap());
    assert_eq!((r.method, r.path.as_str()), (Method::Patch, "teams/team-123/"));
    assert_eq!(body_text(&r).unwrap(), r#"{"name":"Renamed Team"}"#);
}

#[test]
fn releases_requests() {
    assert_eq!(releases::list(1, 50, false).path, "releases/?project=1");
    assert_eq!(releases::get("rel-1").path, "releases/rel-1/");
    let r = releases::create(1, "v1.0.0", None);
    assert_eq!((r.method, r.path.as_str()), (Method::Post, "releases/"));
    assert_eq!(body_text(&r).unwrap(), r#"{"project":1,"version":"v1.0.0"}"#);
    let r = releases::create(1, "v1", Some("2026-01-01T00:00:00Z"));
    assert_eq!(body_text(&r).unwrap(), r#"{"project":1,"timestamp":"2026-01-01T00:00:00Z","version":"v1"}"#);
}

#[test]
fn done_says_what_happened() {
    let issue = vec![("issue".to_string(), Json::Str("issue-1".into()))];
    let out = done(Json::Null, "resolved", issue);
    assert_eq!(json_of(out), r#"{"issue":"issue-1","status":"resolved"}"#);

    let answer = obj(&[("id", Json::Str("x".into())), ("status", Json::Str("old".into())), ("issue", Json::Str("keep".into()))]);
    let issue = vec![("issue".to_string(), Json::Str("issue-1".into()))];
    let out = done(answer, "muted", issue);
    assert_eq!(json_of(out), r#"{"id":"x","issue":"keep","status":"muted"}"#);

    let issue = vec![("issue".to_string(), Json::Str("i".into()))];
    let out = done(Json::Str("ok".into()), "deleted", issue);
    assert_eq!(json_of(out), r#""ok""#);
}

#[test]
fn issue_commands_print_their_status_and_issue() {
    assert_eq!(json_of(issues::deleted_output(Json::Null, "issue-1")), r#"{"issue":"issue-1","status":"deleted"}"#);
    assert_eq!(json_of(issues::resolved_output(Json::Null, "a")), r#"{"issue":"a","status":"resolved"}"#);
    assert_eq!(json_of(issues::reopened_output(Json::Null, "a")), r#"{"issue":"a","status":"reopened"}"#);
    assert_eq!(json_of(issues::unmuted_output(Json::Null, "a")), r#"{"issue":"a","status":"unmuted"}"#);
    let answer = obj(&[("id", Json::Str("c1".into()))]);
    assert_eq!(json_of(issues::commented_output(answer, "a")), r#"{"id":"c1","issue":"a","status":"commented"}"#);
    let answer = obj(&[("status", Json::Str("old".into()))]);
    assert_eq!(json_of(issues::muted_output(answer, "a")), r#"{"issue":"a","status":"muted"}"#);
}
