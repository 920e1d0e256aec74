//! `events list|get|stacktrace`.

use vstd::prelude::*;
use crate::client::{seg, seg_spec};
use crate::text::{cat3};
use crate::commands::{
    bare, effective_limit, fresh, is_bare, put, remove_field, remove_member, Method, Output,
    Request,
};
use crate::error::owned;
use crate::json::{field_models, lemma_field_models, Json, JsonValue};
use crate::paging::Pager;
use crate::text::{string_of, trim_end, trim_end_str};

verus! {

broadcast use {vstd::string::group_string_axioms, crate::json::group_json_model};

/// `events/<event>/<suffix>`, with the event id percent-encoded.
pub open spec fn event_path(event: Seq<char>, suffix: Seq<char>) -> Seq<char> {
    "events/"@ + seg_spec(event) + "/"@ + suffix
}

fn make_event_path(event: &str, suffix: &str) -> (r: String)
    ensures
        r@ == event_path(event@, suffix@),
{
    let mut s = String::from_str("events/");
    s.append(seg(event).as_str());
    s.append("/");
    s.append(suffix);
    s
}

/// The walk over an issue's events, in the given order.
pub fn list(issue: &str, order: &str, limit: usize, all: bool) -> (r: Pager)
    ensures
        r.path@ == "events/?issue="@ + seg_spec(issue@) + "&order="@ + seg_spec(order@),
        r.limit == effective_limit(limit, all),
        r.keep is None,
        fresh(r),
{
    let mut path = cat3("events/?issue=", seg(issue).as_str(), "&order=");
    path.append(seg(order).as_str());
    let lim = if all { None } else { Some(limit) };
    Pager::new(path, lim, None)
}

/// GET one event.
pub fn get(event: &str) -> (r: Request)
    ensures
        is_bare(r, Method::Get, event_path(event@, ""@)),
{
    bare(Method::Get, make_event_path(event, ""))
}

/// An event as printed: without its `data` payload under `--no-data`.
pub fn without_data(res: Json, no_data: bool) -> (r: Json)
    ensures
        r.model() == if no_data && res.model() is Object {
            JsonValue::Object(remove_field(res.model()->Object_0, "data"@))
        } else {
            res.model()
        },
{
    if !no_data {
        return res;
    }
    match res {
        Json::Object(fs) => {
            let mut fs = fs;
            remove_member(&mut fs, "data");
            Json::Object(fs)
        },
        other => other,
    }
}

/// GET the Markdown stacktrace of one event.
pub fn stacktrace(event: &str) -> (r: Request)
    ensures
        is_bare(r, Method::GetText, event_path(event@, "stacktrace/"@)),
{
    bare(Method::GetText, make_event_path(event, "stacktrace/"))
}

/// What a stacktrace command prints: under `--json` an object with the text under
/// `stacktrace`; otherwise the text without its trailing whitespace.
pub fn stacktrace_output(text: String, json: bool) -> (r: Output)
    ensures
        json ==> (r matches Output::Data(d) && d.model() == JsonValue::Object(
            seq![("stacktrace"@, JsonValue::Str(text@))],
        )),
        !json ==> (r matches Output::Text(t) && t@ == trim_end(text@)),
{
    if json {
        let mut fs: Vec<(String, Json)> = Vec::new();
        proof {
            lemma_field_models(fs@);
        }
        put(&mut fs, "stacktrace", Json::Str(text));
        assert(field_models(fs@) =~= seq![("stacktrace"@, JsonValue::Str(text@))]);
        Output::Data(Json::Object(fs))
    } else {
        Output::Text(trim_end_str(text.as_str()))
    }
}

} // verus!
