//! `teams list|get|create|update`.

use vstd::prelude::*;
use crate::text::{cat3};
use crate::commands::{
    bare, body_model, effective_limit, fresh, is_bare, opt_str, put, put_opt, put_str, with_body,
    Method, Request,
};
use crate::error::{owned, Error, ErrorCode};
use crate::json::{field_models, lemma_field_models, Json, JsonValue};
use crate::paging::Pager;

verus! {

broadcast use {vstd::string::group_string_axioms, crate::json::group_json_model};

/// The walk over all teams.
pub fn list(limit: usize, all: bool) -> (r: Pager)
    ensures
        r.path@ == "teams/"@,
        r.limit == effective_limit(limit, all),
        r.keep is None,
        fresh(r),
{
    let lim = if all { None } else { Some(limit) };
    Pager::new(owned("teams/"), lim, None)
}

/// GET one team by its UUID.
pub fn get(team_id: &str) -> (r: Request)
    ensures
        is_bare(r, Method::Get, "teams/"@ + team_id@ + "/"@),
{
    bare(Method::Get, cat3("teams/", team_id, "/"))
}

/// POST a new team.
pub fn create(name: &str, visibility: Option<&str>) -> (r: Request)
    ensures
        r.method == Method::Post,
        r.path@ == "teams/"@,
        body_model(r.body) == Some(
            JsonValue::Object(
                put_opt(seq![("name"@, JsonValue::Str(name@))], "visibility"@, opt_str(visibility)),
            ),
        ),
{
    let mut fs: Vec<(String, Json)> = Vec::new();
    proof {
        lemma_field_models(fs@);
    }
    put(&mut fs, "name", Json::text(name));
    assert(field_models(fs@) =~= seq![("name"@, JsonValue::Str(name@))]);
    put_str(&mut fs, "visibility", visibility);
    with_body(Method::Post, owned("teams/"), Json::Object(fs))
}

/// The changes of `teams update`, or the error when there are none.
pub fn update_body(name: Option<&str>, visibility: Option<&str>) -> (r: Result<Json, Error>)
    ensures
        ({
            let fs = put_opt(put_opt(Seq::empty(), "name"@, opt_str(name)), "visibility"@, opt_str(visibility));
            if fs.len() == 0 {
                r matches Err(e) && e.code == ErrorCode::InvalidInput && e.message@
                    == "Nothing to update. Pass --name and/or --visibility."@ && e.detail is None
                    && e.remediation is None
            } else {
                r matches Ok(b) && b.model() == JsonValue::Object(fs)
            }
        }),
{
    let mut fs: Vec<(String, Json)> = Vec::new();
    proof {
        lemma_field_models(fs@);
        assert(field_models(fs@) =~= Seq::<(Seq<char>, JsonValue)>::empty());
    }
    put_str(&mut fs, "name", name);
    put_str(&mut fs, "visibility", visibility);
    proof {
        lemma_field_models(fs@);
    }
    if fs.len() == 0 {
        return Err(Error::invalid(owned("Nothing to update. Pass --name and/or --visibility.")));
    }
    Ok(Json::Object(fs))
}

/// PATCH a team with the given changes.
pub fn update(team_id: &str, body: Json) -> (r: Request)
    ensures
        r.method == Method::Patch,
        r.path@ == "teams/"@ + team_id@ + "/"@,
        body_model(r.body) == Some(body.model()),
{
    with_body(Method::Patch, cat3("teams/", team_id, "/"), body)
}

} // verus!
