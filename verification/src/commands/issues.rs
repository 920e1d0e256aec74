//! `issues list|get|stacktrace|resolve|reopen|mute|unmute|comment|delete`.

use vstd::prelude::*;
use crate::client::{seg, seg_spec};
use crate::commands::{
    bare, body_model, done, done_model, effective_limit, fresh, is_bare, number, put, with_body,
    Method, Request,
};
use crate::error::{is_invalid, owned, Error, ErrorCode};
use crate::json::{bool_field, field_models, lemma_field_models, str_field, Json, JsonValue};
use crate::lookup::latest_event;
use crate::commands::events::event_path;
use crate::paging::{keeps, IssueFilter, Pager};
use crate::text::{
    opt,
    eq_ignore_case, eq_ignore_case_str, int_text, is_blank, is_blank_str, push_int, push_str,
    string_of, trim_end, trim_end_str,
};

verus! {

broadcast use {vstd::string::group_string_axioms, crate::json::group_json_model};

/// The `--status` filters, matched ignoring ASCII case; `None` for an unknown one.
pub open spec fn status_filter(status: Seq<char>) -> Option<Option<IssueFilter>> {
    if eq_ignore_case(status, "all"@) {
        Some(None)
    } else if eq_ignore_case(status, "open"@) {
        Some(Some(IssueFilter::Open))
    } else if eq_ignore_case(status, "unresolved"@) {
        Some(Some(IssueFilter::Unresolved))
    } else if eq_ignore_case(status, "resolved"@) {
        Some(Some(IssueFilter::Resolved))
    } else if eq_ignore_case(status, "muted"@) {
        Some(Some(IssueFilter::Muted))
    } else {
        None
    }
}

/// Each `--status` word (in any ASCII case) keeps what it names: `all` every issue, `open`
/// those neither resolved nor muted, `unresolved` those not resolved (muted ones
/// included), `resolved` the resolved ones and `muted` the muted ones; any other word is
/// refused. An issue counts as resolved or muted when that member is `true`.
pub proof fn lemma_status_words(status: Seq<char>, item: JsonValue)
    ensures
        eq_ignore_case(status, "all"@) ==> status_filter(status) is Some && keeps(
            status_filter(status).unwrap(),
            item,
        ),
        eq_ignore_case(status, "open"@) ==> status_filter(status) is Some && (keeps(
            status_filter(status).unwrap(),
            item,
        ) <==> bool_field(item, "is_resolved"@) != Some(true) && bool_field(item, "is_muted"@)
            != Some(true)),
        eq_ignore_case(status, "unresolved"@) ==> status_filter(status) is Some && (keeps(
            status_filter(status).unwrap(),
            item,
        ) <==> bool_field(item, "is_resolved"@) != Some(true)),
        eq_ignore_case(status, "resolved"@) ==> status_filter(status) is Some && (keeps(
            status_filter(status).unwrap(),
            item,
        ) <==> bool_field(item, "is_resolved"@) == Some(true)),
        eq_ignore_case(status, "muted"@) ==> status_filter(status) is Some && (keeps(
            status_filter(status).unwrap(),
            item,
        ) <==> bool_field(item, "is_muted"@) == Some(true)),
        !eq_ignore_case(status, "all"@) && !eq_ignore_case(status, "open"@) && !eq_ignore_case(
            status,
            "unresolved"@,
        ) && !eq_ignore_case(status, "resolved"@) && !eq_ignore_case(status, "muted"@)
            ==> status_filter(status) is None,
{
    reveal_strlit("all");
    reveal_strlit("open");
    reveal_strlit("unresolved");
    reveal_strlit("resolved");
    reveal_strlit("muted");
}

/// An optional query parameter: added when its value is not blank.
pub open spec fn param(path: Seq<char>, name: Seq<char>, value: Option<Seq<char>>) -> Seq<char> {
    match value {
        Some(v) => if !is_blank(v) {
            path + name + seg_spec(v)
        } else {
            path
        },
        None => path,
    }
}

/// The list path of a project's issues.
pub open spec fn list_path(project_id: i64, sort: Option<Seq<char>>, order: Option<Seq<char>>) -> Seq<char> {
    param(
        param("issues/?project="@ + int_text(project_id as int), "&sort="@, sort),
        "&order="@,
        order,
    )
}

fn push_param(out: &mut Vec<char>, name: &str, value: Option<&str>)
    ensures
        final(out)@ == param(old(out)@, name@, opt(value)),
{
    match value {
        Some(v) => {
            if !is_blank_str(v) {
                push_str(out, name);
                let e = seg(v);
                push_str(out, e.as_str());
            }
        },
        None => {},
    }
}

/// The walk over a project's issues, filtered by `--status`.
pub fn list(
    project_id: i64,
    sort: Option<&str>,
    order: Option<&str>,
    status: &str,
    limit: usize,
    all: bool,
) -> (r: Result<Pager, Error>)
    ensures
        match status_filter(status@) {
            Some(keep) => r matches Ok(p) && p.path@ == list_path(project_id, opt(sort), opt(order))
                && p.limit == effective_limit(limit, all) && p.keep == keep && fresh(p),
            None => r matches Err(e) && e.code == ErrorCode::InvalidInput && e.message@
                == "Unknown --status '"@ + status@
                + "'. Use all, open, unresolved, resolved or muted."@ && e.detail is None
                && e.remediation is None,
        },
{
    let mut path: Vec<char> = Vec::new();
    push_str(&mut path, "issues/?project=");
    push_int(&mut path, project_id);
    push_param(&mut path, "&sort=", sort);
    push_param(&mut path, "&order=", order);
    let keep = if eq_ignore_case_str(status, "all") {
        None
    } else if eq_ignore_case_str(status, "open") {
        Some(IssueFilter::Open)
    } else if eq_ignore_case_str(status, "unresolved") {
        Some(IssueFilter::Unresolved)
    } else if eq_ignore_case_str(status, "resolved") {
        Some(IssueFilter::Resolved)
    } else if eq_ignore_case_str(status, "muted") {
        Some(IssueFilter::Muted)
    } else {
        let mut m = String::from_str("Unknown --status '");
        m.append(status);
        m.append("'. Use all, open, unresolved, resolved or muted.");
        return Err(Error::invalid(m));
    };
    let lim = if all { None } else { Some(limit) };
    Ok(Pager::new(string_of(path.as_slice()), lim, keep))
}

/// `issues/<issue>/<suffix>`, with the issue percent-encoded.
pub open spec fn issue_path(issue: Seq<char>, suffix: Seq<char>) -> Seq<char> {
    "issues/"@ + seg_spec(issue) + "/"@ + suffix
}

fn make_issue_path(issue: &str, suffix: &str) -> (r: String)
    ensures
        r@ == issue_path(issue@, suffix@),
{
    let mut s = String::from_str("issues/");
    s.append(seg(issue).as_str());
    s.append("/");
    s.append(suffix);
    s
}

/// GET one issue.
pub fn get(issue: &str) -> (r: Request)
    ensures
        is_bare(r, Method::Get, issue_path(issue@, ""@)),
{
    bare(Method::Get, make_issue_path(issue, ""))
}

/// The action path of a resolve: in the latest release, in the next one, or for good.
pub open spec fn resolve_action(latest_release: bool, next_release: bool) -> Seq<char> {
    if latest_release {
        "resolve-latest/"@
    } else if next_release {
        "resolve-next/"@
    } else {
        "resolve/"@
    }
}

/// GET the Markdown stacktrace of an issue's most recent event, given the issue's events
/// newest first; an issue without stored events (or whose newest event has no id) is an
/// `invalid_input` error.
pub fn stacktrace(events: &Vec<Json>, issue: &str) -> (r: Result<Request, Error>)
    ensures
        match r {
            Ok(q) => events@.len() > 0 && (str_field(events@[0].model(), "id"@) matches Some(id)
                && is_bare(q, Method::GetText, event_path(id, "stacktrace/"@))),
            Err(e) => (events@.len() == 0 || str_field(events@[0].model(), "id"@) is None)
                && is_invalid(e, "Issue '"@ + issue@ + "' has no stored events."@),
        },
{
    let id = latest_event(events, issue)?;
    Ok(crate::commands::events::stacktrace(id.as_str()))
}

/// POST the resolve action.
pub fn resolve(issue: &str, latest_release: bool, next_release: bool) -> (r: Request)
    ensures
        is_bare(r, Method::Post, issue_path(issue@, resolve_action(latest_release, next_release))),
{
    let action = if latest_release {
        "resolve-latest/"
    } else if next_release {
        "resolve-next/"
    } else {
        "resolve/"
    };
    bare(Method::Post, make_issue_path(issue, action))
}

/// POST the reopen action.
pub fn reopen(issue: &str) -> (r: Request)
    ensures
        is_bare(r, Method::Post, issue_path(issue@, "reopen/"@)),
{
    bare(Method::Post, make_issue_path(issue, "reopen/"))
}

/// POST the unmute action.
pub fn unmute(issue: &str) -> (r: Request)
    ensures
        is_bare(r, Method::Post, issue_path(issue@, "unmute/"@)),
{
    bare(Method::Post, make_issue_path(issue, "unmute/"))
}

/// DELETE the issue.
pub fn delete(issue: &str) -> (r: Request)
    ensures
        is_bare(r, Method::Delete, issue_path(issue@, ""@)),
{
    bare(Method::Delete, make_issue_path(issue, ""))
}

/// The body of a timed or threshold mute.
pub open spec fn mute_body(period: Seq<char>, periods: i32, threshold: Option<i32>) -> JsonValue {
    let base = seq![
        ("period_name"@, JsonValue::Str(period)),
        ("nr_of_periods"@, JsonValue::Number(int_text(periods as int))),
    ];
    JsonValue::Object(
        match threshold {
            Some(t) => base.push(("gte_threshold"@, JsonValue::Number(int_text(t as int)))),
            None => base,
        },
    )
}

/// The mute request: until `threshold` events arrive within `periods` × `period`, for
/// `periods` × `period`, or until unmuted.
pub fn mute(issue: &str, periods: Option<i32>, period: Option<&str>, threshold: Option<i32>) -> (r:
    Result<Request, Error>)
    ensures
        match threshold {
            Some(t) => if periods is None || period is None {
                r matches Err(e) && e.code == ErrorCode::InvalidInput && e.message@
                    == "--threshold also needs --for <N> and --period <PERIOD>."@ && e.detail is None
                    && e.remediation is None
            } else {
                r matches Ok(q) && q.method == Method::Post && q.path@ == issue_path(
                    issue@,
                    "mute-until/"@,
                ) && body_model(q.body) == Some(
                    mute_body(period.unwrap()@, periods.unwrap(), Some(t)),
                )
            },
            None => if periods is Some || period is Some {
                if periods is None || period is None {
                    r matches Err(e) && e.code == ErrorCode::InvalidInput && e.message@
                        == "--for and --period must be given together."@ && e.detail is None
                        && e.remediation is None
                } else {
                    r matches Ok(q) && q.method == Method::Post && q.path@ == issue_path(
                        issue@,
                        "mute-for/"@,
                    ) && body_model(q.body) == Some(mute_body(period.unwrap()@, periods.unwrap(), None))
                }
            } else {
                r matches Ok(q) && is_bare(q, Method::Post, issue_path(issue@, "mute/"@))
            },
        },
{
    match threshold {
        Some(t) => {
            match (periods, period) {
                (Some(n), Some(p)) => {
                    let mut fs: Vec<(String, Json)> = Vec::new();
                    proof {
                        lemma_field_models(fs@);
                    }
                    put(&mut fs, "period_name", Json::text(p));
                    put(&mut fs, "nr_of_periods", number(n as i64));
                    put(&mut fs, "gte_threshold", number(t as i64));
                    let body = Json::Object(fs);
                    assert(field_models(fs@) =~= seq![
                        ("period_name"@, JsonValue::Str(p@)),
                        ("nr_of_periods"@, JsonValue::Number(int_text(n as int))),
                        ("gte_threshold"@, JsonValue::Number(int_text(t as int))),
                    ]);
                    assert(field_models(fs@) =~= seq![
                        ("period_name"@, JsonValue::Str(p@)),
                        ("nr_of_periods"@, JsonValue::Number(int_text(n as int))),
                    ].push(("gte_threshold"@, JsonValue::Number(int_text(t as int)))));
                    Ok(with_body(Method::Post, make_issue_path(issue, "mute-until/"), body))
                },
                _ => Err(Error::invalid(owned("--threshold also needs --for <N> and --period <PERIOD>."))),
            }
        },
        None => {
            if periods.is_some() || period.is_some() {
                match (periods, period) {
                    (Some(n), Some(p)) => {
                        let mut fs: Vec<(String, Json)> = Vec::new();
                        proof {
                            lemma_field_models(fs@);
                        }
                        put(&mut fs, "period_name", Json::text(p));
                        put(&mut fs, "nr_of_periods", number(n as i64));
                        let body = Json::Object(fs);
                        assert(field_models(fs@) =~= seq![
                            ("period_name"@, JsonValue::Str(p@)),
                            ("nr_of_periods"@, JsonValue::Number(int_text(n as int))),
                        ]);
                        Ok(with_body(Method::Post, make_issue_path(issue, "mute-for/"), body))
                    },
                    _ => Err(Error::invalid(owned("--for and --period must be given together."))),
                }
            } else {
                Ok(bare(Method::Post, make_issue_path(issue, "mute/")))
            }
        },
    }
}

/// The comment request. The text comes from stdin when `--stdin` was given (`piped`), else
/// from `--text`; trailing whitespace is dropped, and a blank comment is refused.
pub fn comment(issue: &str, text: Option<&str>, piped: Option<&str>) -> (r: Result<Request, Error>)
    ensures
        ({
            let source = if piped is Some {
                opt(piped)
            } else {
                opt(text)
            };
            match source {
                None => r matches Err(e) && e.code == ErrorCode::InvalidInput && e.message@
                    == "Pass exactly one of --text <TEXT> or --stdin."@ && e.detail is None
                    && e.remediation is None,
                Some(t) => if is_blank(trim_end(t)) {
                    r matches Err(e) && e.code == ErrorCode::InvalidInput && e.message@
                        == "Comment text is empty."@ && e.detail is None && e.remediation is None
                } else {
                    r matches Ok(q) && q.method == Method::Post && q.path@ == "issue-comments/"@
                        && body_model(q.body) == Some(
                        JsonValue::Object(
                            seq![
                                ("issue"@, JsonValue::Str(issue@)),
                                ("comment"@, JsonValue::Str(trim_end(t))),
                            ],
                        ),
                    )
                },
            }
        }),
{
    let source = match piped {
        Some(p) => p,
        None => match text {
            Some(t) => t,
            None => return Err(Error::invalid(owned("Pass exactly one of --text <TEXT> or --stdin."))),
        },
    };
    let body_text = trim_end_str(source);
    if is_blank_str(body_text.as_str()) {
        return Err(Error::invalid(owned("Comment text is empty.")));
    }
    let mut fs: Vec<(String, Json)> = Vec::new();
    proof {
        lemma_field_models(fs@);
    }
    put(&mut fs, "issue", Json::text(issue));
    put(&mut fs, "comment", Json::text(body_text.as_str()));
    assert(field_models(fs@) =~= seq![
        ("issue"@, JsonValue::Str(issue@)),
        ("comment"@, JsonValue::Str(body_text@)),
    ]);
    Ok(with_body(Method::Post, owned("issue-comments/"), Json::Object(fs)))
}

/// The `issue` member that every state-changing issue command adds to what it prints.
pub open spec fn issue_member(issue: Seq<char>) -> Seq<(Seq<char>, JsonValue)> {
    seq![("issue"@, JsonValue::Str(issue))]
}

/// What a state-changing issue command prints: the server's answer marked with `status`
/// and the issue (see `done_model`).
fn issue_done(res: Json, status: &str, issue: &str) -> (r: Json)
    ensures
        r.model() == done_model(res.model(), status@, issue_member(issue@)),
{
    let mut fs: Vec<(String, Json)> = Vec::new();
    proof {
        lemma_field_models(fs@);
    }
    put(&mut fs, "issue", Json::text(issue));
    assert(field_models(fs@) =~= issue_member(issue@));
    done(res, status, fs)
}

/// What `issues resolve` prints for the server's answer `res`.
pub fn resolved_output(res: Json, issue: &str) -> (r: Json)
    ensures
        r.model() == done_model(res.model(), "resolved"@, issue_member(issue@)),
{
    issue_done(res, "resolved", issue)
}

/// What `issues reopen` prints for the server's answer `res`.
pub fn reopened_output(res: Json, issue: &str) -> (r: Json)
    ensures
        r.model() == done_model(res.model(), "reopened"@, issue_member(issue@)),
{
    issue_done(res, "reopened", issue)
}

/// What `issues mute` prints for the server's answer `res`.
pub fn muted_output(res: Json, issue: &str) -> (r: Json)
    ensures
        r.model() == done_model(res.model(), "muted"@, issue_member(issue@)),
{
    issue_done(res, "muted", issue)
}

/// What `issues unmute` prints for the server's answer `res`.
pub fn unmuted_output(res: Json, issue: &str) -> (r: Json)
    ensures
        r.model() == done_model(res.model(), "unmuted"@, issue_member(issue@)),
{
    issue_done(res, "unmuted", issue)
}

/// What `issues comment` prints for the server's answer `res`.
pub fn commented_output(res: Json, issue: &str) -> (r: Json)
    ensures
        r.model() == done_model(res.model(), "commented"@, issue_member(issue@)),
{
    issue_done(res, "commented", issue)
}

/// What `issues delete` prints for the server's answer `res` (an empty answer, `null`,
/// becomes `{"status": "deleted", "issue": ...}`).
pub fn deleted_output(res: Json, issue: &str) -> (r: Json)
    ensures
        r.model() == done_model(res.model(), "deleted"@, issue_member(issue@)),
{
    issue_done(res, "deleted", issue)
}

} // verus!
