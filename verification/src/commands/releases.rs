//! `releases list|get|create`.

use vstd::prelude::*;
use crate::client::{seg, seg_spec};
use crate::text::{cat3};
use crate::commands::{
    bare, body_model, effective_limit, fresh, is_bare, number, opt_str, put, put_opt, put_str,
    with_body, Method, Request,
};
use crate::error::owned;
use crate::json::{field_models, lemma_field_models, Json, JsonValue};
use crate::paging::Pager;
use crate::text::{int_text, push_int, push_str, string_of};

verus! {

broadcast use {vstd::string::group_string_axioms, crate::json::group_json_model};

/// The walk over a project's releases.
pub fn list(project_id: i64, limit: usize, all: bool) -> (r: Pager)
    ensures
        r.path@ == "releases/?project="@ + int_text(project_id as int),
        r.limit == effective_limit(limit, all),
        r.keep is None,
        fresh(r),
{
    let mut p: Vec<char> = Vec::new();
    push_str(&mut p, "releases/?project=");
    push_int(&mut p, project_id);
    let lim = if all { None } else { Some(limit) };
    Pager::new(string_of(p.as_slice()), lim, None)
}

/// GET one release.
pub fn get(release: &str) -> (r: Request)
    ensures
        is_bare(r, Method::Get, "releases/"@ + seg_spec(release@) + "/"@),
{
    bare(Method::Get, cat3("releases/", seg(release).as_str(), "/"))
}

/// POST a new release of a project.
pub fn create(project_id: i64, version: &str, timestamp: Option<&str>) -> (r: Request)
    ensures
        r.method == Method::Post,
        r.path@ == "releases/"@,
        body_model(r.body) == Some(
            JsonValue::Object(
                put_opt(
                    seq![
                        ("project"@, JsonValue::Number(int_text(project_id as int))),
                        ("version"@, JsonValue::Str(version@)),
                    ],
                    "timestamp"@,
                    opt_str(timestamp),
                ),
            ),
        ),
{
    let mut fs: Vec<(String, Json)> = Vec::new();
    proof {
        lemma_field_models(fs@);
    }
    put(&mut fs, "project", number(project_id));
    put(&mut fs, "version", Json::text(version));
    assert(field_models(fs@) =~= seq![
        ("project"@, JsonValue::Number(int_text(project_id as int))),
        ("version"@, JsonValue::Str(version@)),
    ]);
    put_str(&mut fs, "timestamp", timestamp);
    with_body(Method::Post, owned("releases/"), Json::Object(fs))
}

} // verus!
