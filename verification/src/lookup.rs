//! Turning what a user types into the ids the API wants: numeric project ids, slugs and
//! names; team UUIDs and names; the latest event of an issue.

use vstd::prelude::*;
use vstd::utf8::*;
use crate::client::{seg, seg_spec, Client};
use crate::error::{is_invalid, owned, Error, ErrorCode};
use crate::json::{i64_field, lemma_models, models, str_field, Json, JsonValue};
use crate::paging::Pager;
use crate::text::cat3;
use crate::text::{
    chars_of, decimal, eq_ignore_case, eq_ignore_case_str, parse_i64, parse_i64_spec, push_decimal,
    push_str, string_of, trim, trim_str,
};

verus! {

broadcast use vstd::string::group_string_axioms;

/// Either the answer, or the list to fetch before the answer can be picked from it.
#[derive(Debug)]
pub enum Lookup<T> {
    Found(T),
    List(Pager),
}

/// Whether the string member `key` of `row` equals `value` ignoring ASCII case.
pub open spec fn matches_key(row: JsonValue, key: Seq<char>, value: Seq<char>) -> bool {
    match str_field(row, key) {
        Some(s) => eq_ignore_case(s, value),
        None => false,
    }
}

/// Whether `row` matches `value` by either of two keys.
pub open spec fn matches_either(row: JsonValue, k1: Seq<char>, k2: Seq<char>, value: Seq<char>) -> bool {
    matches_key(row, k1, value) || matches_key(row, k2, value)
}

/// The rows that match `value` by `k1` or `k2`, in order.
pub open spec fn hits(rows: Seq<JsonValue>, k1: Seq<char>, k2: Seq<char>, value: Seq<char>) -> Seq<
    JsonValue,
>
    decreases rows.len(),
{
    if rows.len() == 0 {
        Seq::empty()
    } else {
        let r = hits(rows.drop_last(), k1, k2, value);
        if matches_either(rows.last(), k1, k2, value) {
            r.push(rows.last())
        } else {
            r
        }
    }
}

/// The rows a lookup finds are exactly those, in order, whose string member under `k1` or
/// `k2` is the value itself up to ASCII case: as long as the value, and equal to it letter
/// for letter once `A`-`Z` are taken as `a`-`z`. A member that only begins with the value,
/// or only contains it, does not match.
pub proof fn lemma_hits_exact(rows: Seq<JsonValue>, k1: Seq<char>, k2: Seq<char>, value: Seq<char>)
    ensures
        hits(rows, k1, k2, value) == rows.filter(
            |r: JsonValue|
                (str_field(r, k1) is Some && str_field(r, k1).unwrap().len() == value.len() && forall|
                    i: int,
                |
                    0 <= i < value.len() ==> crate::text::fold(str_field(r, k1).unwrap()[i])
                        == crate::text::fold(value[i])) || (str_field(r, k2) is Some && str_field(
                    r,
                    k2,
                ).unwrap().len() == value.len() && forall|i: int|
                    0 <= i < value.len() ==> crate::text::fold(str_field(r, k2).unwrap()[i])
                        == crate::text::fold(value[i])),
        ),
    decreases rows.len(),
{
    reveal(Seq::filter);
    if rows.len() > 0 {
        lemma_hits_exact(rows.drop_last(), k1, k2, value);
    }
}

fn matches_key_exec(row: &Json, key: &str, value: &str) -> (r: bool)
    ensures
        r == matches_key(row.model(), key@, value@),
{
    match row.get(key) {
        Some(v) => match v.as_str() {
            Some(s) => eq_ignore_case_str(s.as_str(), value),
            None => false,
        },
        None => false,
    }
}

/// How many rows match, and the first one that does.
fn count_hits(rows: &Vec<Json>, k1: &str, k2: &str, value: &str) -> (r: (usize, usize))
    ensures
        r.0 == hits(models(rows@), k1@, k2@, value@).len(),
        r.0 > 0 ==> r.1 < rows@.len() && hits(models(rows@), k1@, k2@, value@)[0] == rows@[r.1 as int].model(),
{
    let ghost ms = models(rows@);
    proof {
        lemma_models(rows@);
    }
    let mut count: usize = 0;
    let mut first: usize = 0;
    for i in 0..rows.len()
        invariant
            ms == models(rows@),
            ms.len() == rows@.len(),
            forall|j: int| 0 <= j < rows@.len() ==> ms[j] == #[trigger] rows@[j].model(),
            count == hits(ms.take(i as int), k1@, k2@, value@).len(),
            count <= i,
            count > 0 ==> first < rows@.len() && hits(ms.take(i as int), k1@, k2@, value@)[0] == rows@[first as int].model(),
    {
        assert(ms.take(i + 1).drop_last() == ms.take(i as int));
        assert(ms.take(i + 1).last() == rows@[i as int].model());
        let row = &rows[i];
        if matches_key_exec(row, k1, value) || matches_key_exec(row, k2, value) {
            if count == 0 {
                first = i;
            }
            count += 1;
        }
    }
    assert(ms.take(rows@.len() as int) == ms);
    (count, first)
}

/// The error for a lookup that matched nothing, or more than one row.
pub open spec fn no_match_message(thing: Seq<char>, value: Seq<char>) -> Seq<char> {
    if thing == "project"@ {
        "No project found matching '"@ + value + "'."@
    } else {
        "No team found named '"@ + value + "'."@
    }
}

/// The error message for a name that matches `n` projects.
pub open spec fn many_projects_message(value: Seq<char>, n: nat) -> Seq<char> {
    "'"@ + value + "' matches "@ + decimal(n) + " projects. Use the project id instead."@
}

/// The error message for a name that matches `n` teams.
pub open spec fn many_teams_message(value: Seq<char>, n: nat) -> Seq<char> {
    "'"@ + value + "' matches "@ + decimal(n) + " teams. Use the team UUID instead."@
}

fn count_message(a: &str, value: &str, b: &str, n: usize, c: &str) -> (r: String)
    ensures
        r@ == a@ + value@ + b@ + decimal(n as nat) + c@,
{
    let mut out: Vec<char> = Vec::new();
    push_str(&mut out, a);
    push_str(&mut out, value);
    push_str(&mut out, b);
    push_decimal(&mut out, n as u64);
    push_str(&mut out, c);
    string_of(out.as_slice())
}

/// Picks the project that `project` names by slug or name (ignoring ASCII case) from the
/// list of all projects, and returns its id.
pub fn select_project(projects: &Vec<Json>, project: &str) -> (r: Result<i64, Error>)
    ensures
        ({
            let h = hits(models(projects@), "slug"@, "name"@, project@);
            match r {
                Ok(id) => h.len() == 1 && i64_field(h[0], "id"@) == Some(id),
                Err(e) => {
                    ||| h.len() == 0 && is_invalid(e, "No project found matching '"@ + project@ + "'."@)
                    ||| h.len() > 1 && is_invalid(e, many_projects_message(project@, h.len()))
                    ||| h.len() == 1 && i64_field(h[0], "id"@) is None && is_invalid(
                        e,
                        "Project '"@ + project@ + "' has no valid id."@,
                    )
                },
            }
        }),
{
    let (n, first) = count_hits(projects, "slug", "name", project);
    if n == 0 {
        return Err(Error::invalid(cat3("No project found matching '", project, "'.")));
    }
    if n > 1 {
        return Err(
            Error::invalid(
                count_message("'", project, "' matches ", n, " projects. Use the project id instead."),
            ),
        );
    }
    match projects[first].get("id") {
        Some(v) => match v.as_i64() {
            Some(id) => Ok(id),
            None => Err(Error::invalid(cat3("Project '", project, "' has no valid id."))),
        },
        None => Err(Error::invalid(cat3("Project '", project, "' has no valid id."))),
    }
}

/// Picks the team that `team` (trimmed) names by UUID or name (ignoring ASCII case) from
/// the list of all teams, and returns its UUID.
pub fn select_team(teams: &Vec<Json>, team: &str) -> (r: Result<String, Error>)
    ensures
        ({
            let t = trim(team@);
            let h = hits(models(teams@), "id"@, "name"@, t);
            match r {
                Ok(id) => h.len() == 1 && str_field(h[0], "id"@) == Some(id@),
                Err(e) => {
                    ||| h.len() == 0 && is_invalid(e, "No team found named '"@ + t + "'."@)
                    ||| h.len() > 1 && is_invalid(e, many_teams_message(t, h.len()))
                    ||| h.len() == 1 && str_field(h[0], "id"@) is None && is_invalid(
                        e,
                        "Team '"@ + t + "' has no valid id."@,
                    )
                },
            }
        }),
{
    let t = trim_str(team);
    let (n, first) = count_hits(teams, "id", "name", t.as_str());
    if n == 0 {
        return Err(Error::invalid(cat3("No team found named '", t.as_str(), "'.")));
    }
    if n > 1 {
        return Err(
            Error::invalid(
                count_message("'", t.as_str(), "' matches ", n, " teams. Use the team UUID instead."),
            ),
        );
    }
    match teams[first].get("id") {
        Some(v) => match v.as_str() {
            Some(id) => Ok(owned(id.as_str())),
            None => Err(Error::invalid(cat3("Team '", t.as_str(), "' has no valid id."))),
        },
        None => Err(Error::invalid(cat3("Team '", t.as_str(), "' has no valid id."))),
    }
}

/// How many times `c` occurs in `s`.
pub open spec fn count_char(s: Seq<char>, c: char) -> nat
    decreases s.len(),
{
    if s.len() == 0 {
        0
    } else {
        count_char(s.drop_last(), c) + if s.last() == c {
            1nat
        } else {
            0nat
        }
    }
}

/// Whether a (trimmed) team reference is shaped like a UUID: 36 bytes with four hyphens.
pub open spec fn uuid_shaped(t: Seq<char>) -> bool {
    encode_utf8(t).len() == 36 && count_char(t, '-') == 4
}

/// Whether `t` is 36 bytes long with four hyphens.
pub fn looks_like_uuid(t: &str) -> (r: bool)
    ensures
        r == uuid_shaped(t@),
{
    if t.as_bytes().len() != 36 {
        return false;
    }
    let cs = chars_of(t);
    let mut n: usize = 0;
    for i in 0..cs.len()
        invariant
            cs@ == t@,
            n == count_char(cs@.take(i as int), '-'),
            n <= i,
    {
        assert(cs@.take(i + 1).drop_last() == cs@.take(i as int));
        if cs[i] == '-' {
            n += 1;
        }
    }
    assert(cs@.take(cs@.len() as int) == cs@);
    n == 4
}

/// The path that lists the events of an issue, newest first.
pub open spec fn latest_events_path(issue: Seq<char>) -> Seq<char> {
    "events/?issue="@ + seg_spec(issue) + "&order=desc"@
}

impl Client {
    /// A numeric project reference is the id itself; anything else is looked up among all
    /// projects by slug or name (see `select_project`).
    pub fn resolve_project_id(&self, project: &str) -> (r: Lookup<i64>)
        ensures
            match parse_i64_spec(trim(project@)) {
                Some(id) => r == Lookup::<i64>::Found(id),
                None => r matches Lookup::List(p) && p.path@ == "projects/"@ && p.limit is None
                    && p.keep is None && p.results@.len() == 0 && p.cursor is None && !p.finished,
            },
    {
        let t = trim_str(project);
        match parse_i64(t.as_str()) {
            Some(id) => Lookup::Found(id),
            None => Lookup::List(Pager::new(owned("projects/"), None, None)),
        }
    }

    /// A UUID-shaped team reference is taken as it is (trimmed); anything else is looked up
    /// among all teams by UUID or name (see `select_team`).
    pub fn resolve_team_id(&self, team: &str) -> (r: Lookup<String>)
        ensures
            if uuid_shaped(trim(team@)) {
                r matches Lookup::Found(id) && id@ == trim(team@)
            } else {
                r matches Lookup::List(p) && p.path@ == "teams/"@ && p.limit is None && p.keep is None
                    && p.results@.len() == 0 && p.cursor is None && !p.finished
            },
    {
        let t = trim_str(team);
        if looks_like_uuid(t.as_str()) {
            Lookup::Found(t)
        } else {
            Lookup::List(Pager::new(owned("teams/"), None, None))
        }
    }

    /// The walk that fetches the most recent event of an issue: one item of
    /// `events/?issue=<issue>&order=desc`.
    pub fn resolve_latest_event_id(&self, issue: &str) -> (r: Pager)
        ensures
            r.path@ == latest_events_path(issue@),
            r.limit == Some(1usize),
            r.keep is None,
            r.results@.len() == 0,
            r.cursor is None,
            !r.finished,
    {
        let path = cat3("events/?issue=", seg(issue).as_str(), "&order=desc");
        Pager::new(path, Some(1), None)
    }
}

/// The id of the first listed event of an issue.
pub fn latest_event(events: &Vec<Json>, issue: &str) -> (r: Result<String, Error>)
    ensures
        match r {
            Ok(id) => events@.len() > 0 && str_field(events@[0].model(), "id"@) == Some(id@),
            Err(e) => (events@.len() == 0 || str_field(events@[0].model(), "id"@) is None)
                && is_invalid(e, "Issue '"@ + issue@ + "' has no stored events."@),
        },
{
    if events.len() == 0 {
        return Err(Error::invalid(cat3("Issue '", issue, "' has no stored events.")));
    }
    match events[0].get("id") {
        Some(v) => match v.as_str() {
            Some(id) => Ok(owned(id.as_str())),
            None => Err(Error::invalid(cat3("Issue '", issue, "' has no stored events."))),
        },
        None => Err(Error::invalid(cat3("Issue '", issue, "' has no stored events."))),
    }
}

} // verus!
