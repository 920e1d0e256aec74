//! `projects list|get|create|update`.

use vstd::prelude::*;
use crate::client::{seg, seg_spec};
use crate::text::{opt};
use crate::commands::{
    bare, body_model, effective_limit, fresh, is_bare, opt_bool, opt_num, opt_str, put, put_bool,
    put_num, put_opt, put_str, with_body, Method, Request,
};
use crate::error::{owned, Error, ErrorCode};
use crate::json::{field_models, lemma_field_models, Json, JsonValue};
use crate::paging::Pager;
use crate::text::{int_text, is_blank, is_blank_str, push_int, push_str, string_of};

verus! {

broadcast use {vstd::string::group_string_axioms, crate::json::group_json_model};

/// The `--team` of `projects list`, when it is not blank.
pub fn team_arg(team: Option<&str>) -> (r: Option<String>)
    ensures
        match opt(team) {
            Some(t) => if is_blank(t) {
                r is None
            } else {
                r matches Some(x) && x@ == t
            },
            None => r is None,
        },
{
    match team {
        Some(t) => if is_blank_str(t) {
            None
        } else {
            Some(owned(t))
        },
        None => None,
    }
}

/// The walk over all projects, or over those of one team.
pub fn list(team_id: Option<&str>, limit: usize, all: bool) -> (r: Pager)
    ensures
        r.path@ == match team_id {
            Some(t) => "projects/?team="@ + seg_spec(t@),
            None => "projects/"@,
        },
        r.limit == effective_limit(limit, all),
        r.keep is None,
        fresh(r),
{
    let path = match team_id {
        Some(t) => {
            let mut p = String::from_str("projects/?team=");
            p.append(seg(t).as_str());
            p
        },
        None => owned("projects/"),
    };
    let lim = if all { None } else { Some(limit) };
    Pager::new(path, lim, None)
}

/// `projects/<id>/`.
pub open spec fn project_path(project_id: i64) -> Seq<char> {
    "projects/"@ + int_text(project_id as int) + "/"@
}

fn make_project_path(project_id: i64) -> (r: Vec<char>)
    ensures
        r@ == project_path(project_id),
{
    let mut p: Vec<char> = Vec::new();
    push_str(&mut p, "projects/");
    push_int(&mut p, project_id);
    push_str(&mut p, "/");
    p
}

/// GET one project, with its team expanded on request.
pub fn get(project_id: i64, expand_team: bool) -> (r: Request)
    ensures
        is_bare(
            r,
            Method::Get,
            project_path(project_id) + if expand_team {
                "?expand=team"@
            } else {
                ""@
            },
        ),
{
    let mut p = make_project_path(project_id);
    if expand_team {
        push_str(&mut p, "?expand=team");
    } else {
        proof {
            reveal_strlit("");
            assert(p@ + ""@ =~= p@);
        }
    }
    bare(Method::Get, string_of(p.as_slice()))
}

/// The optional settings of a project, in the order they are sent.
pub open spec fn settings(
    base: Seq<(Seq<char>, JsonValue)>,
    visibility: Option<&str>,
    alert_on_new_issue: Option<bool>,
    alert_on_regression: Option<bool>,
    alert_on_unmute: Option<bool>,
    retention: Option<i64>,
) -> Seq<(Seq<char>, JsonValue)> {
    put_opt(
        put_opt(
            put_opt(
                put_opt(put_opt(base, "visibility"@, opt_str(visibility)), "alert_on_new_issue"@, opt_bool(alert_on_new_issue)),
                "alert_on_regression"@,
                opt_bool(alert_on_regression),
            ),
            "alert_on_unmute"@,
            opt_bool(alert_on_unmute),
        ),
        "retention_max_event_count"@,
        opt_num(retention),
    )
}

fn put_settings(
    fs: &mut Vec<(String, Json)>,
    visibility: Option<&str>,
    alert_on_new_issue: Option<bool>,
    alert_on_regression: Option<bool>,
    alert_on_unmute: Option<bool>,
    retention: Option<i64>,
)
    ensures
        field_models(final(fs)@) == settings(
            field_models(old(fs)@),
            visibility,
            alert_on_new_issue,
            alert_on_regression,
            alert_on_unmute,
            retention,
        ),
{
    put_str(fs, "visibility", visibility);
    put_bool(fs, "alert_on_new_issue", alert_on_new_issue);
    put_bool(fs, "alert_on_regression", alert_on_regression);
    put_bool(fs, "alert_on_unmute", alert_on_unmute);
    put_num(fs, "retention_max_event_count", retention);
}

/// POST a new project into a team.
pub fn create(
    team_id: &str,
    name: &str,
    visibility: Option<&str>,
    alert_on_new_issue: Option<bool>,
    alert_on_regression: Option<bool>,
    alert_on_unmute: Option<bool>,
    retention: Option<i64>,
) -> (r: Request)
    ensures
        r.method == Method::Post,
        r.path@ == "projects/"@,
        body_model(r.body) == Some(
            JsonValue::Object(
                settings(
                    seq![("team"@, JsonValue::Str(team_id@)), ("name"@, JsonValue::Str(name@))],
                    visibility,
                    alert_on_new_issue,
                    alert_on_regression,
                    alert_on_unmute,
                    retention,
                ),
            ),
        ),
{
    let mut fs: Vec<(String, Json)> = Vec::new();
    proof {
        lemma_field_models(fs@);
    }
    put(&mut fs, "team", Json::text(team_id));
    put(&mut fs, "name", Json::text(name));
    assert(field_models(fs@) =~= seq![
        ("team"@, JsonValue::Str(team_id@)),
        ("name"@, JsonValue::Str(name@)),
    ]);
    put_settings(
        &mut fs,
        visibility,
        alert_on_new_issue,
        alert_on_regression,
        alert_on_unmute,
        retention,
    );
    with_body(Method::Post, owned("projects/"), Json::Object(fs))
}

/// The changes of `projects update`, or the error when there are none.
pub fn update_body(
    team_id: Option<&str>,
    name: Option<&str>,
    visibility: Option<&str>,
    alert_on_new_issue: Option<bool>,
    alert_on_regression: Option<bool>,
    alert_on_unmute: Option<bool>,
    retention: Option<i64>,
) -> (r: Result<Json, Error>)
    ensures
        ({
            let fs = settings(
                put_opt(put_opt(Seq::empty(), "team"@, opt_str(team_id)), "name"@, opt_str(name)),
                visibility,
                alert_on_new_issue,
                alert_on_regression,
                alert_on_unmute,
                retention,
            );
            if fs.len() == 0 {
                r matches Err(e) && e.code == ErrorCode::InvalidInput && e.message@
                    == "Nothing to update. Pass at least one field option."@ && e.detail is None
                    && e.remediation is None
            } else {
                r matches Ok(b) && b.model() == JsonValue::Object(fs)
            }
        }),
{
    let mut fs: Vec<(String, Json)> = Vec::new();
    proof {
        lemma_field_models(fs@);
        assert(field_models(fs@) =~= Seq::<(Seq<char>, JsonValue)>::empty());
    }
    put_str(&mut fs, "team", team_id);
    put_str(&mut fs, "name", name);
    put_settings(
        &mut fs,
        visibility,
        alert_on_new_issue,
        alert_on_regression,
        alert_on_unmute,
        retention,
    );
    proof {
        lemma_field_models(fs@);
    }
    if fs.len() == 0 {
        return Err(Error::invalid(owned("Nothing to update. Pass at least one field option.")));
    }
    Ok(Json::Object(fs))
}

/// PATCH a project with the given changes.
pub fn update(project_id: i64, body: Json) -> (r: Request)
    ensures
        r.method == Method::Patch,
        r.path@ == project_path(project_id),
        body_model(r.body) == Some(body.model()),
{
    let p = make_project_path(project_id);
    with_body(Method::Patch, string_of(p.as_slice()), body)
}

} // verus!
