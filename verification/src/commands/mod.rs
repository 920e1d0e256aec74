//! What each subcommand sends and prints. Every handler here is pure: it turns the
//! command's arguments (and, where a command needs them, ids looked up before) into the
//! request to send, and the response into what to print. Sending and printing are the
//! caller's.

pub mod accounts;
pub mod enroll;
pub mod events;
pub mod issues;
pub mod login;
pub mod projects;
pub mod releases;
pub mod teams;

use vstd::prelude::*;
use crate::account::{resolves, Pending, Resolved};
use crate::cli::AccountArgs;
use crate::error::{opt_view, owned};
use crate::json::{field_get, field_models, json_get, json_string, lemma_field_models, Json, JsonValue};
use crate::text::{int_string, int_text, opt};

verus! {

broadcast use vstd::string::group_string_axioms;

/// Resolves the account a command runs against from its account flags and the
/// environment's `BUGSINK_ENDPOINT` and `BUGSINK_API_TOKEN` (see `account::resolve`).
pub fn resolve_account(a: &AccountArgs, env_endpoint: Option<&str>, env_token: Option<&str>) -> (r:
    Result<Resolved, Pending>)
    ensures
        resolves(
            opt_view(a.account),
            opt_view(a.endpoint),
            opt_view(a.api_token),
            opt(env_endpoint),
            opt(env_token),
            r,
        ),
{
    let requested = match &a.account {
        Some(s) => Some(s.as_str()),
        None => None,
    };
    let endpoint = match &a.endpoint {
        Some(s) => Some(s.as_str()),
        None => None,
    };
    let token = match &a.api_token {
        Some(s) => Some(s.as_str()),
        None => None,
    };
    crate::account::resolve(requested, endpoint, token, env_endpoint, env_token)
}

/// The HTTP method of a request, and how its answer is read.
#[derive(Clone, Copy, Debug, PartialEq, Eq, Structural)]
pub enum Method {
    /// GET, answered with JSON.
    Get,
    /// GET, answered with Markdown text.
    GetText,
    Post,
    Patch,
    Delete,
}

/// One API request: a method, a path under the API base, and an optional JSON body.
#[derive(Debug)]
pub struct Request {
    pub method: Method,
    pub path: String,
    pub body: Option<Json>,
}

/// What a command prints: data (YAML, or JSON under `--json`) or plain text.
#[derive(Debug)]
pub enum Output {
    Data(Json),
    Text(String),
}

impl Request {
    /// The JSON text of the body, as it is sent.
    pub fn body_text(&self) -> (r: Option<String>)
        ensures
            match self.body {
                Some(b) => r matches Some(t) && t@ == json_string(b.model()),
                None => r is None,
            },
    {
        match &self.body {
            Some(b) => Some(b.to_json_string()),
            None => None,
        }
    }
}

/// The model of an optional body.
pub open spec fn body_model(b: Option<Json>) -> Option<JsonValue> {
    match b {
        Some(j) => Some(j.model()),
        None => None,
    }
}

/// Whether `r` is a request with this method, path and no body.
pub open spec fn is_bare(r: Request, method: Method, path: Seq<char>) -> bool {
    r.method == method && r.path@ == path && r.body is None
}

/// A request without a body.
pub fn bare(method: Method, path: String) -> (r: Request)
    ensures
        is_bare(r, method, path@),
{
    Request { method, path, body: None }
}

/// A request with a JSON body.
pub fn with_body(method: Method, path: String, body: Json) -> (r: Request)
    ensures
        r.method == method,
        r.path@ == path@,
        body_model(r.body) == Some(body.model()),
{
    Request { method, path, body: Some(body) }
}

/// A number value.
pub fn number(n: i64) -> (r: Json)
    ensures
        r.model() == JsonValue::Number(int_text(n as int)),
{
    Json::Number(int_string(n))
}

/// Appends a member to an object under construction.
pub fn put(fields: &mut Vec<(String, Json)>, key: &str, value: Json)
    ensures
        field_models(final(fields)@) == field_models(old(fields)@).push((key@, value.model())),
{
    let ghost before = fields@;
    proof {
        lemma_field_models(before);
    }
    fields.push((owned(key), value));
    proof {
        lemma_field_models(fields@);
        assert(field_models(fields@) =~= field_models(before).push((key@, value.model())));
    }
}

/// `fs` with the member `(k, v)` appended when `v` is present.
pub open spec fn put_opt(fs: Seq<(Seq<char>, JsonValue)>, k: Seq<char>, v: Option<JsonValue>) -> Seq<
    (Seq<char>, JsonValue),
> {
    match v {
        Some(x) => fs.push((k, x)),
        None => fs,
    }
}

/// An optional string as a JSON value.
pub open spec fn opt_str(s: Option<&str>) -> Option<JsonValue> {
    match s {
        Some(t) => Some(JsonValue::Str(t@)),
        None => None,
    }
}

/// An optional boolean as a JSON value.
pub open spec fn opt_bool(b: Option<bool>) -> Option<JsonValue> {
    match b {
        Some(x) => Some(JsonValue::Bool(x)),
        None => None,
    }
}

/// An optional integer as a JSON value.
pub open spec fn opt_num(n: Option<i64>) -> Option<JsonValue> {
    match n {
        Some(x) => Some(JsonValue::Number(int_text(x as int))),
        None => None,
    }
}

/// Appends a string member when the value is present.
pub fn put_str(fields: &mut Vec<(String, Json)>, key: &str, value: Option<&str>)
    ensures
        field_models(final(fields)@) == put_opt(field_models(old(fields)@), key@, opt_str(value)),
{
    match value {
        Some(v) => put(fields, key, Json::text(v)),
        None => {},
    }
}

/// Appends a boolean member when the value is present.
pub fn put_bool(fields: &mut Vec<(String, Json)>, key: &str, value: Option<bool>)
    ensures
        field_models(final(fields)@) == put_opt(field_models(old(fields)@), key@, opt_bool(value)),
{
    match value {
        Some(v) => put(fields, key, Json::Bool(v)),
        None => {},
    }
}

/// Appends a number member when the value is present.
pub fn put_num(fields: &mut Vec<(String, Json)>, key: &str, value: Option<i64>)
    ensures
        field_models(final(fields)@) == put_opt(field_models(old(fields)@), key@, opt_num(value)),
{
    match value {
        Some(v) => put(fields, key, number(v)),
        None => {},
    }
}

/// A walk that has not started.
pub open spec fn fresh(p: crate::paging::Pager) -> bool {
    p.results@.len() == 0 && p.cursor is None && !p.finished
}

/// The limit of a list command: none with `--all`.
pub open spec fn effective_limit(limit: usize, all: bool) -> Option<usize> {
    if all {
        None
    } else {
        Some(limit)
    }
}

/// The index of the first member named `k`.
pub open spec fn key_index(fs: Seq<(Seq<char>, JsonValue)>, k: Seq<char>) -> Option<int>
    decreases fs.len(),
{
    if fs.len() == 0 {
        None
    } else if fs[0].0 == k {
        Some(0)
    } else {
        match key_index(fs.drop_first(), k) {
            Some(i) => Some(i + 1),
            None => None,
        }
    }
}

/// `key_index` finds the first member with the key.
pub proof fn lemma_key_index(fs: Seq<(Seq<char>, JsonValue)>, k: Seq<char>)
    ensures
        key_index(fs, k) matches Some(i) ==> 0 <= i < fs.len() && fs[i].0 == k && forall|j: int|
            0 <= j < i ==> fs[j].0 != k,
        key_index(fs, k) is None ==> forall|j: int| 0 <= j < fs.len() ==> fs[j].0 != k,
    decreases fs.len(),
{
    if fs.len() > 0 {
        lemma_key_index(fs.drop_first(), k);
        assert forall|j: int| 1 <= j < fs.len() implies fs[j] == fs.drop_first()[j - 1] by {}
    }
}

/// `Map::insert`: the member `k` set to `v`, in place when it exists, else appended.
pub open spec fn set_field(fs: Seq<(Seq<char>, JsonValue)>, k: Seq<char>, v: JsonValue) -> Seq<
    (Seq<char>, JsonValue),
> {
    match key_index(fs, k) {
        Some(i) => fs.update(i, (k, v)),
        None => fs.push((k, v)),
    }
}

/// `entry(k).or_insert(v)`: the member `k` added only when it is missing.
pub open spec fn add_missing(fs: Seq<(Seq<char>, JsonValue)>, k: Seq<char>, v: JsonValue) -> Seq<
    (Seq<char>, JsonValue),
> {
    match key_index(fs, k) {
        Some(_) => fs,
        None => fs.push((k, v)),
    }
}

/// Every member of `extra` added where missing, in order.
pub open spec fn add_all_missing(fs: Seq<(Seq<char>, JsonValue)>, extra: Seq<(Seq<char>, JsonValue)>) -> Seq<
    (Seq<char>, JsonValue),
>
    decreases extra.len(),
{
    if extra.len() == 0 {
        fs
    } else {
        add_all_missing(add_missing(fs, extra[0].0, extra[0].1), extra.drop_first())
    }
}

/// Every member of `extra` set, in order (`Map::extend`).
pub open spec fn set_all(fs: Seq<(Seq<char>, JsonValue)>, extra: Seq<(Seq<char>, JsonValue)>) -> Seq<
    (Seq<char>, JsonValue),
>
    decreases extra.len(),
{
    if extra.len() == 0 {
        fs
    } else {
        set_all(set_field(fs, extra[0].0, extra[0].1), extra.drop_first())
    }
}

/// `Map::remove`: the first member named `k` removed, if any.
pub open spec fn remove_field(fs: Seq<(Seq<char>, JsonValue)>, k: Seq<char>) -> Seq<(Seq<char>, JsonValue)> {
    match key_index(fs, k) {
        Some(i) => fs.remove(i),
        None => fs,
    }
}

/// The index of the member named `key`.
fn index_of_key(fields: &Vec<(String, Json)>, key: &str) -> (r: Option<usize>)
    ensures
        match r {
            Some(i) => key_index(field_models(fields@), key@) == Some(i as int) && i < fields@.len(),
            None => key_index(field_models(fields@), key@) is None,
        },
{
    let ghost fm = field_models(fields@);
    proof {
        lemma_field_models(fields@);
        lemma_key_index(fm, key@);
    }
    let mut i: usize = 0;
    while i < fields.len()
        invariant
            fm == field_models(fields@),
            fm.len() == fields@.len(),
            forall|j: int|
                0 <= j < fields@.len() ==> fm[j] == (#[trigger] fields@[j].0@, fields@[j].1.model()),
            i <= fields@.len(),
            forall|j: int| 0 <= j < i ==> fm[j].0 != key@,
            key_index(fm, key@) matches Some(k) ==> 0 <= k < fm.len() && fm[k].0 == key@ && forall|
                j: int,
            | 0 <= j < k ==> fm[j].0 != key@,
            key_index(fm, key@) is None ==> forall|j: int| 0 <= j < fm.len() ==> fm[j].0 != key@,
        decreases fields.len() - i,
    {
        if crate::json::eq_str(fields[i].0.as_str(), key) {
            assert(fm[i as int].0 == key@);
            return Some(i);
        }
        i += 1;
    }
    None
}

/// Sets the member `key` (`Map::insert`).
pub fn set_member(fields: &mut Vec<(String, Json)>, key: String, value: Json)
    ensures
        field_models(final(fields)@) == set_field(field_models(old(fields)@), key@, value.model()),
{
    let ghost before = fields@;
    proof {
        lemma_field_models(before);
    }
    match index_of_key(fields, key.as_str()) {
        Some(i) => {
            let ghost kv = key@;
            let ghost vm = value.model();
            fields.set(i, (key, value));
            proof {
                lemma_field_models(fields@);
                assert(field_models(fields@) =~= field_models(before).update(i as int, (kv, vm)));
            }
        },
        None => {
            let ghost kv = key@;
            let ghost vm = value.model();
            fields.push((key, value));
            proof {
                lemma_field_models(fields@);
                assert(field_models(fields@) =~= field_models(before).push((kv, vm)));
            }
        },
    }
}

/// Adds the member `key` when it is missing (`entry(key).or_insert(value)`).
pub fn add_member(fields: &mut Vec<(String, Json)>, key: String, value: Json)
    ensures
        field_models(final(fields)@) == add_missing(field_models(old(fields)@), key@, value.model()),
{
    let ghost before = fields@;
    proof {
        lemma_field_models(before);
    }
    match index_of_key(fields, key.as_str()) {
        Some(_) => {},
        None => {
            let ghost kv = key@;
            let ghost vm = value.model();
            fields.push((key, value));
            proof {
                lemma_field_models(fields@);
                assert(field_models(fields@) =~= field_models(before).push((kv, vm)));
            }
        },
    }
}

/// Removes the member `key`, if present (`Map::remove`).
pub fn remove_member(fields: &mut Vec<(String, Json)>, key: &str)
    ensures
        field_models(final(fields)@) == remove_field(field_models(old(fields)@), key@),
{
    let ghost before = fields@;
    proof {
        lemma_field_models(before);
    }
    match index_of_key(fields, key) {
        Some(i) => {
            let _ = fields.remove(i);
            proof {
                lemma_field_models(fields@);
                before.remove_ensures(i as int);
                field_models(before).remove_ensures(i as int);
                assert(field_models(fields@) =~= field_models(before).remove(i as int));
            }
        },
        None => {},
    }
}

/// The member `k` is the first member named `k`.
pub proof fn lemma_field_get_first(fs: Seq<(Seq<char>, JsonValue)>, k: Seq<char>)
    ensures
        match key_index(fs, k) {
            Some(i) => field_get(fs, k) == Some(fs[i].1),
            None => field_get(fs, k) is None,
        },
    decreases fs.len(),
{
    if fs.len() > 0 {
        lemma_field_get_first(fs.drop_first(), k);
        lemma_key_index(fs.drop_first(), k);
    }
}

proof fn lemma_key_index_prefix(
    fs: Seq<(Seq<char>, JsonValue)>,
    ext: Seq<(Seq<char>, JsonValue)>,
    k: Seq<char>,
)
    requires
        key_index(fs, k) is Some,
        fs.len() <= ext.len(),
        ext.take(fs.len() as int) == fs,
    ensures
        key_index(ext, k) == key_index(fs, k),
    decreases fs.len(),
{
    lemma_key_index(fs, k);
    lemma_key_index(ext, k);
    let i = key_index(fs, k).unwrap();
    assert(ext[i] == ext.take(fs.len() as int)[i]);
    assert forall|j: int| 0 <= j < i implies ext[j].0 != k by {
        assert(ext[j] == ext.take(fs.len() as int)[j]);
    }
    if let Some(m) = key_index(ext, k) {
        if m > i {
            assert(ext[i].0 == k);
        }
    }
}

proof fn lemma_add_all_missing_prefix(
    fs: Seq<(Seq<char>, JsonValue)>,
    extra: Seq<(Seq<char>, JsonValue)>,
)
    ensures
        fs.len() <= add_all_missing(fs, extra).len(),
        add_all_missing(fs, extra).take(fs.len() as int) == fs,
    decreases extra.len(),
{
    if extra.len() > 0 {
        let next = add_missing(fs, extra[0].0, extra[0].1);
        lemma_add_all_missing_prefix(next, extra.drop_first());
        let r = add_all_missing(next, extra.drop_first());
        assert(next.take(fs.len() as int) =~= fs);
        assert(r.take(fs.len() as int) =~= r.take(next.len() as int).take(fs.len() as int));
    } else {
        assert(fs.take(fs.len() as int) =~= fs);
    }
}

proof fn lemma_set_all_keeps_first(
    fs: Seq<(Seq<char>, JsonValue)>,
    extra: Seq<(Seq<char>, JsonValue)>,
    k: Seq<char>,
)
    requires
        fs.len() > 0,
        fs[0].0 == k,
        key_index(extra, k) is None,
    ensures
        ({
            let r = set_all(fs, extra);
            r.len() > 0 && r[0] == fs[0]
        }),
    decreases extra.len(),
{
    if extra.len() > 0 {
        lemma_key_index(extra, k);
        lemma_key_index(extra.drop_first(), k);
        lemma_key_index(fs, extra[0].0);
        let next = set_field(fs, extra[0].0, extra[0].1);
        assert(extra[0].0 != k);
        if let Some(i) = key_index(fs, extra[0].0) {
            assert(i != 0);
        }
        assert(next[0] == fs[0]);
        lemma_set_all_keeps_first(next, extra.drop_first(), k);
    }
}

/// A state-changing command always says what happened: when the server answers with an
/// object, or with nothing, the printed object's `status` is the command's status (the
/// added fields, which name no `status`, leave it alone).
pub proof fn lemma_done_status(
    v: JsonValue,
    status: Seq<char>,
    fields: Seq<(Seq<char>, JsonValue)>,
)
    requires
        v is Object || (v is Null && key_index(fields, "status"@) is None),
    ensures
        json_get(done_model(v, status, fields), "status"@) == Some(JsonValue::Str(status)),
{
    let k = "status"@;
    match v {
        JsonValue::Object(fs) => {
            let first = set_field(fs, k, JsonValue::Str(status));
            lemma_key_index(fs, k);
            lemma_key_index(first, k);
            let i = match key_index(fs, k) {
                Some(i) => i,
                None => fs.len() as int,
            };
            assert(first[i] == (k, JsonValue::Str(status)));
            assert forall|j: int| 0 <= j < i implies first[j].0 != k by {
                assert(first[j] == fs[j]);
            }
            match key_index(first, k) {
                Some(m) => {
                    if m > i {
                        assert(first[i].0 == k);
                    }
                },
                None => {
                    assert(first[i].0 == k);
                },
            }
            assert(key_index(first, k) == Some(i));
            lemma_add_all_missing_prefix(first, fields);
            let r = add_all_missing(first, fields);
            lemma_key_index_prefix(first, r, k);
            lemma_field_get_first(r, k);
            assert(r[i] == r.take(first.len() as int)[i]);
        },
        JsonValue::Null => {
            let start = seq![(k, JsonValue::Str(status))];
            lemma_set_all_keeps_first(start, fields, k);
            let r = set_all(start, fields);
            lemma_key_index(r, k);
            lemma_field_get_first(r, k);
            assert(key_index(r, k) == Some(0int));
        },
        _ => {},
    }
}

/// What a state-changing command prints for the server's answer: an object answer gets
/// `status` set and the given fields added where missing; an empty answer (`null`) becomes
/// an object of `status` and the fields; any other answer is printed as it is.
pub open spec fn done_model(v: JsonValue, status: Seq<char>, fields: Seq<(Seq<char>, JsonValue)>) -> JsonValue {
    match v {
        JsonValue::Object(fs) => JsonValue::Object(
            add_all_missing(set_field(fs, "status"@, JsonValue::Str(status)), fields),
        ),
        JsonValue::Null => JsonValue::Object(
            set_all(seq![("status"@, JsonValue::Str(status))], fields),
        ),
        _ => v,
    }
}

/// What a state-changing command prints (see `done_model`).
pub fn done(v: Json, status: &str, fields: Vec<(String, Json)>) -> (r: Json)
    ensures
        r.model() == done_model(v.model(), status@, field_models(fields@)),
{
    broadcast use crate::json::group_json_model;

    let ghost extra = field_models(fields@);
    proof {
        lemma_field_models(fields@);
    }
    match v {
        Json::Object(fs) => {
            let mut fs = fs;
            let ghost start = field_models(fs@);
            set_member(&mut fs, owned("status"), Json::text(status));
            let mut extra_left = fields;
            assert(extra_left@.skip(0) == extra_left@);
            while extra_left.len() > 0
                invariant
                    add_all_missing(field_models(fs@), field_models(extra_left@)) == add_all_missing(
                        set_field(start, "status"@, JsonValue::Str(status@)),
                        extra,
                    ),
                decreases extra_left.len(),
            {
                proof {
                    lemma_field_models(extra_left@);
                    lemma_field_models(extra_left@.drop_first());
                    assert(field_models(extra_left@).drop_first() =~= field_models(
                        extra_left@.drop_first(),
                    ));
                }
                let ghost cur = extra_left@;
                let (k, x) = extra_left.remove(0);
                assert((k, x) == cur[0]);
                add_member(&mut fs, k, x);
            }
            proof {
                lemma_field_models(extra_left@);
            }
            Json::Object(fs)
        },
        Json::Null => {
            let mut fs: Vec<(String, Json)> = Vec::new();
            put(&mut fs, "status", Json::text(status));
            proof {
                lemma_field_models(fs@);
                reveal_strlit("status");
            }
            assert(field_models(fs@) =~= seq![("status"@, JsonValue::Str(status@))]);
            let mut extra_left = fields;
            while extra_left.len() > 0
                invariant
                    set_all(field_models(fs@), field_models(extra_left@)) == set_all(
                        seq![("status"@, JsonValue::Str(status@))],
                        extra,
                    ),
                decreases extra_left.len(),
            {
                proof {
                    lemma_field_models(extra_left@);
                    lemma_field_models(extra_left@.drop_first());
                    assert(field_models(extra_left@).drop_first() =~= field_models(
                        extra_left@.drop_first(),
                    ));
                }
                let ghost cur = extra_left@;
                let (k, x) = extra_left.remove(0);
                assert((k, x) == cur[0]);
                set_member(&mut fs, k, x);
            }
            proof {
                lemma_field_models(extra_left@);
            }
            Json::Object(fs)
        },
        other => other,
    }
}

} // verus!
