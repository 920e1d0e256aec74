//! Cursor pagination as a state machine: the library says which page to fetch next and
//! what to keep of each page; the caller performs the requests.

use vstd::prelude::*;
use crate::client::{
    cursor_of, cursor_value, extract_cursor, lemma_cursor_value_append, lemma_cursor_value_pair,
    lemma_seg_round_trip, lemma_seg_url_safe, query_of, seg, seg_spec,
};
use crate::error::{opt_view, owned};
use crate::json::{bool_field, field_models, json_get, lemma_models, models, str_field, Json, JsonValue};
use crate::text::{
    chars_of, find, find_char, is_ws, lemma_find, lemma_find_concat, lemma_find_skip,
    lemma_trim_start_append, lemma_trim_start_is_skip, push_str, string_of, trim, trim_start,
};

verus! {

broadcast use vstd::string::group_string_axioms;

/// The client-side issue filters of `issues list --status`.
#[derive(Clone, Copy, Debug, PartialEq, Eq, Structural)]
pub enum IssueFilter {
    /// Neither resolved nor muted.
    Open,
    /// Not resolved.
    Unresolved,
    Resolved,
    Muted,
}

/// Whether the boolean member `key` of an issue is `true` (missing or not a boolean: `false`).
pub open spec fn flag(issue: JsonValue, key: Seq<char>) -> bool {
    bool_field(issue, key) == Some(true)
}

/// Whether an item passes the filter; with no filter every item passes.
pub open spec fn keeps(keep: Option<IssueFilter>, item: JsonValue) -> bool {
    match keep {
        None => true,
        Some(IssueFilter::Open) => !flag(item, "is_resolved"@) && !flag(item, "is_muted"@),
        Some(IssueFilter::Unresolved) => !flag(item, "is_resolved"@),
        Some(IssueFilter::Resolved) => flag(item, "is_resolved"@),
        Some(IssueFilter::Muted) => flag(item, "is_muted"@),
    }
}

fn flag_exec(issue: &Json, key: &str) -> (r: bool)
    ensures
        r == flag(issue.model(), key@),
{
    match issue.get(key) {
        Some(v) => match v.as_bool() {
            Some(b) => b,
            None => false,
        },
        None => false,
    }
}

impl IssueFilter {
    /// Whether the filter keeps `issue`.
    pub fn keeps(&self, issue: &Json) -> (r: bool)
        ensures
            r == keeps(Some(*self), issue.model()),
    {
        match self {
            IssueFilter::Open => !flag_exec(issue, "is_resolved") && !flag_exec(issue, "is_muted"),
            IssueFilter::Unresolved => !flag_exec(issue, "is_resolved"),
            IssueFilter::Resolved => flag_exec(issue, "is_resolved"),
            IssueFilter::Muted => flag_exec(issue, "is_muted"),
        }
    }
}

/// Adds the items of one page to `results`, keeping what the filter keeps, and stops as
/// soon as the count has reached the limit, before taking any item past it. The flag says
/// whether it stopped so.
pub open spec fn take_items(
    results: Seq<JsonValue>,
    items: Seq<JsonValue>,
    keep: Option<IssueFilter>,
    limit: Option<usize>,
) -> (Seq<JsonValue>, bool)
    decreases items.len(),
{
    if limit matches Some(l) && results.len() >= l {
        (results, true)
    } else if items.len() == 0 {
        (results, false)
    } else if keeps(keep, items[0]) {
        take_items(results.push(items[0]), items.drop_first(), keep, limit)
    } else {
        take_items(results, items.drop_first(), keep, limit)
    }
}

/// The items a page carries: the `results` array of an object page, or the page itself
/// when it is an array.
pub open spec fn page_items(page: JsonValue) -> Seq<JsonValue> {
    match page {
        JsonValue::Array(items) => items,
        JsonValue::Object(_) => match json_get(page, "results"@) {
            Some(JsonValue::Array(items)) => items,
            _ => Seq::empty(),
        },
        _ => Seq::empty(),
    }
}

/// The path of the next page: the list path itself, or with `cursor=<cursor>` added as a
/// query parameter.
pub open spec fn page_path(path: Seq<char>, cursor: Option<Seq<char>>) -> Seq<char> {
    match cursor {
        None => path,
        Some(c) => path + seq![if find(path, '?') is Some { '&' } else { '?' }] + seq![
            'c',
            'u',
            'r',
            's',
            'o',
            'r',
            '=',
        ] + seg_spec(c),
    }
}

/// A walk never keeps more than its limit, whatever the limit (none at all for a limit of
/// zero): taking in a page after at most `l` items keeps at most `l`, stops exactly when `l`
/// is reached, keeps the earlier items first and in order, and adds only items that the
/// filter keeps.
pub proof fn lemma_take_items_limit(
    results: Seq<JsonValue>,
    items: Seq<JsonValue>,
    keep: Option<IssueFilter>,
    l: usize,
)
    requires
        results.len() <= l,
    ensures
        ({
            let (r, hit) = take_items(results, items, keep, Some(l));
            &&& results.len() <= r.len() <= l
            &&& hit <==> r.len() == l
            &&& r.take(results.len() as int) == results
            &&& forall|i: int| results.len() <= i < r.len() ==> keeps(keep, #[trigger] r[i])
        }),
    decreases items.len(),
{
    let n = results.len() as int;
    assert(results.take(n) =~= results);
    if results.len() >= l {
    } else if items.len() > 0 {
        if keeps(keep, items[0]) {
            let r = results.push(items[0]);
            lemma_take_items_limit(r, items.drop_first(), keep, l);
            let (r2, hit) = take_items(r, items.drop_first(), keep, Some(l));
            assert(r2.take(n + 1) == r);
            assert(r2[n] == r2.take(n + 1)[n]);
            assert(r2.take(n) =~= r.take(n));
            assert(r.take(n) =~= results);
            assert forall|i: int| n <= i < r2.len() implies keeps(keep, #[trigger] r2[i]) by {
                if i == n {
                    assert(r2[n] == items[0]);
                }
            }
        } else {
            lemma_take_items_limit(results, items.drop_first(), keep, l);
        }
    }
}

/// Without a limit a page never ends the walk, and every item the filter keeps is kept,
/// after the earlier ones.
pub proof fn lemma_take_items_unlimited(
    results: Seq<JsonValue>,
    items: Seq<JsonValue>,
    keep: Option<IssueFilter>,
)
    ensures
        take_items(results, items, keep, None) == (
            results + items.filter(|v: JsonValue| keeps(keep, v)),
            false,
        ),
    decreases items.len(),
{
    let f = |v: JsonValue| keeps(keep, v);
    if items.len() > 0 {
        let rest = items.drop_first();
        lemma_take_items_unlimited(results.push(items[0]), rest, keep);
        lemma_take_items_unlimited(results, rest, keep);
        assert(items =~= seq![items[0]] + rest);
        rest.lemma_filter_prepend(items[0], f);
        if keeps(keep, items[0]) {
            assert(results.push(items[0]) + rest.filter(f) =~= results + (seq![items[0]]
                + rest.filter(f)));
        } else {
            assert(Seq::<JsonValue>::empty() + rest.filter(f) =~= rest.filter(f));
        }
    } else {
        assert(items.filter(f) =~= Seq::<JsonValue>::empty());
        assert(results + Seq::<JsonValue>::empty() =~= results);
    }
}

/// Under a limit, a page adds exactly the items that the filter keeps, in order, until the
/// count reaches the limit: what comes out is the earlier results followed by the page's
/// kept items, cut at the limit. An item the filter drops is skipped; it never ends the page.
pub proof fn lemma_take_items_filtered(
    results: Seq<JsonValue>,
    items: Seq<JsonValue>,
    keep: Option<IssueFilter>,
    l: usize,
)
    requires
        results.len() <= l,
    ensures
        ({
            let all = results + items.filter(|v: JsonValue| keeps(keep, v));
            let n = if all.len() < l { all.len() } else { l as nat };
            take_items(results, items, keep, Some(l)).0 == all.take(n as int)
        }),
    decreases items.len(),
{
    let f = |v: JsonValue| keeps(keep, v);
    if results.len() >= l {
        assert((results + items.filter(f)).take(l as int) =~= results);
    } else if items.len() == 0 {
        reveal(Seq::filter);
        assert(items.filter(f) =~= Seq::<JsonValue>::empty());
        assert((results + items.filter(f)).take((results + items.filter(f)).len() as int) =~= results);
    } else {
        let rest = items.drop_first();
        assert(items =~= seq![items[0]] + rest);
        rest.lemma_filter_prepend(items[0], f);
        if keeps(keep, items[0]) {
            lemma_take_items_filtered(results.push(items[0]), rest, keep, l);
            assert(results.push(items[0]) + rest.filter(f) =~= results + items.filter(f));
        } else {
            lemma_take_items_filtered(results, rest, keep, l);
            assert(items.filter(f) =~= rest.filter(f));
        }
    }
}

/// The next-page path carries the cursor so that reading it back as a `next` link gives
/// that same cursor: whatever the cursor, for every list path whose own query names no
/// cursor.
pub proof fn lemma_page_path_cursor(path: Seq<char>, c: Seq<char>)
    requires
        find(path, '?') is Some ==> cursor_value(query_of(path)) is None,
    ensures
        cursor_of(Some(page_path(path, Some(c)))) == Some(c),
{
    reveal_strlit("cursor=");
    let e = seg_spec(c);
    let k = "cursor="@;
    let has_query = find(path, '?') is Some;
    let sep = if has_query { '&' } else { '?' };
    let s = seq![sep] + k + e;
    assert(k =~= seq!['c', 'u', 'r', 's', 'o', 'r', '=']);
    assert(page_path(path, Some(c)) == path + s);
    let u = path + s;
    lemma_seg_url_safe(c);
    lemma_seg_round_trip(c);
    lemma_cursor_value_pair(e);
    // trimming leaves the link as it is but for leading whitespace
    lemma_trim_start_append(path, s);
    let p2 = trim_start(path);
    let t = p2 + s;
    assert(s.last() != ' ' && !is_ws(s.last())) by {
        if e.len() > 0 {
            assert(s.last() == e[e.len() - 1]);
        } else {
            assert(s.last() == '=');
        }
    }
    assert(trim(u) == t);
    let k0 = lemma_trim_start_is_skip(path);
    assert(p2 == path.skip(k0));
    lemma_find(path, '?');
    lemma_find_concat(p2, s, '?');
    let ke = k + e;
    assert(s == seq![sep] + ke);
    match find(path, '?') {
        Some(i) => {
            assert(forall|j: int| 0 <= j < k0 ==> path[j] != '?') by {
                assert forall|j: int| 0 <= j < k0 implies path[j] != '?' by {
                    assert(is_ws(path[j]));
                }
            }
            lemma_find_skip(path, k0, '?');
            assert(find(t, '?') == Some(i - k0));
            assert(query_of(t) =~= path.skip(i + 1) + seq!['&'] + ke);
            assert(query_of(path) == path.skip(i + 1));
            lemma_cursor_value_append(path.skip(i + 1), ke);
        },
        None => {
            assert(forall|j: int| 0 <= j < k0 ==> path[j] != '?');
            lemma_find_skip(path, k0, '?');
            assert(find(seq![sep] + ke, '?') == Some(0int));
            assert(find(t, '?') == Some(p2.len() as int));
            assert(query_of(t) =~= ke);
        },
    }
}

/// Walks the cursor pagination of one list endpoint.
#[derive(Debug)]
pub struct Pager {
    /// The list path, e.g. `issues/?project=3`.
    pub path: String,
    /// The most items to return; `None` for all.
    pub limit: Option<usize>,
    /// The client-side filter.
    pub keep: Option<IssueFilter>,
    /// The items kept so far, in order.
    pub results: Vec<Json>,
    /// The cursor of the next page, once a page has named one.
    pub cursor: Option<String>,
    /// Whether the walk is over.
    pub finished: bool,
}

impl Pager {
    /// A walk of `path` that keeps at most `limit` items that `keep` keeps.
    pub fn new(path: String, limit: Option<usize>, keep: Option<IssueFilter>) -> (r: Pager)
        ensures
            r.path@ == path@,
            r.limit == limit,
            r.keep == keep,
            r.results@.len() == 0,
            r.cursor is None,
            !r.finished,
    {
        Pager { path, limit, keep, results: Vec::new(), cursor: None, finished: false }
    }

    /// The path of the page to fetch next.
    pub fn next_path(&self) -> (r: String)
        ensures
            r@ == page_path(self.path@, opt_view(self.cursor)),
    {
        match &self.cursor {
            None => owned(self.path.as_str()),
            Some(c) => {
                let mut out = chars_of(self.path.as_str());
                proof {
                    lemma_find(self.path@, '?');
                }
                let sep = if find_char(&out, '?').is_some() { '&' } else { '?' };
                out.push(sep);
                push_str(&mut out, "cursor=");
                let e = seg(c.as_str());
                push_str(&mut out, e.as_str());
                proof {
                    reveal_strlit("cursor=");
                    assert("cursor="@ =~= seq!['c', 'u', 'r', 's', 'o', 'r', '=']);
                }
                string_of(out.as_slice())
            },
        }
    }

    /// Takes in one fetched page: keeps its items up to the limit, then follows the page's
    /// `next` link if it has one; the walk is over when the limit is reached, when the page
    /// is not an object, or when it names no further cursor.
    pub fn accept(&mut self, page: Json)
        ensures
            final(self).path == old(self).path,
            final(self).limit == old(self).limit,
            final(self).keep == old(self).keep,
            ({
                let (r, hit) = take_items(
                    models(old(self).results@),
                    page_items(page.model()),
                    old(self).keep,
                    old(self).limit,
                );
                &&& models(final(self).results@) == r
                &&& if hit {
                    final(self).finished
                } else {
                    match page.model() {
                        JsonValue::Object(_) => {
                            &&& opt_view(final(self).cursor) == cursor_of(
                                str_field(page.model(), "next"@),
                            )
                            &&& final(self).finished == (final(self).cursor is None)
                        },
                        _ => final(self).finished,
                    }
                }
            }),
    {
        broadcast use crate::json::group_json_model;

        match page {
            Json::Array(items) => {
                let _ = self.take(items);
                self.finished = true;
            },
            Json::Object(fields) => {
                let ghost page_model = JsonValue::Object(field_models(fields@));
                let next = {
                    let whole = Json::Object(fields);
                    let n = match whole.get("next") {
                        Some(v) => match v.as_str() {
                            Some(t) => extract_cursor(Some(t.as_str())),
                            None => extract_cursor(None),
                        },
                        None => extract_cursor(None),
                    };
                    (n, whole)
                };
                let (cursor, whole) = next;
                let items = take_results(whole);
                let hit = self.take(items);
                if !hit {
                    self.cursor = cursor;
                    self.finished = self.cursor.is_none();
                } else {
                    self.finished = true;
                }
            },
            _ => {
                self.finished = true;
            },
        }
    }

    /// Adds the kept items to the results, stopping at the limit.
    fn take(&mut self, batch: Vec<Json>) -> (hit: bool)
        ensures
            final(self).path == old(self).path,
            final(self).limit == old(self).limit,
            final(self).keep == old(self).keep,
            final(self).cursor == old(self).cursor,
            final(self).finished == old(self).finished,
            (models(final(self).results@), hit) == take_items(
                models(old(self).results@),
                models(batch@),
                old(self).keep,
                old(self).limit,
            ),
    {
        let ghost orig = batch@;
        let mut items = batch;
        let ghost goal = take_items(models(self.results@), models(items@), self.keep, self.limit);
        let mut hit = false;
        let mut over = false;
        while !over
            invariant
                !over ==> !hit,
                over ==> goal == (models(self.results@), hit),
                !over ==> goal == take_items(models(self.results@), models(items@), self.keep, self.limit),
                self.path == old(self).path,
                self.limit == old(self).limit,
                self.keep == old(self).keep,
                self.cursor == old(self).cursor,
                self.finished == old(self).finished,
                goal == take_items(
                    models(old(self).results@),
                    models(orig),
                    old(self).keep,
                    old(self).limit,
                ),
            decreases items.len() + (if over { 0int } else { 1int }),
        {
            proof {
                lemma_models(items@);
                lemma_models(self.results@);
            }
            let reached = match self.limit {
                Some(l) => self.results.len() >= l,
                None => false,
            };
            if reached {
                assert(models(self.results@).len() == self.results@.len());
                hit = true;
                over = true;
            } else if items.len() == 0 {
                assert(models(items@).len() == 0);
                assert(!hit);
                over = true;
            } else {
                proof {
                    lemma_models(items@.drop_first());
                    assert(models(items@).drop_first() =~= models(items@.drop_first()));
                }
                let ghost cur = items@;
                let ghost before_results = self.results@;
                let item = items.remove(0);
                assert(item == cur[0]);
                assert(models(cur)[0] == item.model());
                assert(models(cur).len() > 0);
                let kept = match self.keep {
                    None => true,
                    Some(f) => f.keeps(&item),
                };
                if kept {
                    self.results.push(item);
                    proof {
                        lemma_models(self.results@);
                        assert(models(self.results@) =~= models(before_results).push(item.model()));
                    }
                }
            }
        }
        hit
    }
}

/// The `results` array of an object page, moved out of the page; empty when there is none.
fn take_results(page: Json) -> (r: Vec<Json>)
    requires
        page is Object,
    ensures
        models(r@) == page_items(page.model()),
{
    broadcast use crate::json::group_json_model;

    match page {
        Json::Object(fields) => {
            let mut fields = fields;
            let mut i: usize = 0;
            let ghost fm = field_models(fields@);
            proof {
                crate::json::lemma_field_models(fields@);
                assert(fm.skip(0) == fm);
            }
            while i < fields.len()
                invariant
                    fm == field_models(fields@),
                    fm.len() == fields@.len(),
                    forall|j: int|
                        0 <= j < fields@.len() ==> fm[j] == (
                            #[trigger] fields@[j].0@,
                            fields@[j].1.model(),
                        ),
                    i <= fields@.len(),
                    page.model() == JsonValue::Object(fm),
                    crate::json::field_get(fm, "results"@) == crate::json::field_get(
                        fm.skip(i as int),
                        "results"@,
                    ),
                decreases fields.len() - i,
            {
                let ghost rest = fm.skip(i as int);
                assert(rest[0] == fm[i as int]);
                assert(rest.drop_first() == fm.skip(i + 1));
                if crate::json::eq_str(fields[i].0.as_str(), "results") {
                    let ghost entry = fields@[i as int];
                    let (_, v) = fields.remove(i);
                    assert(v == entry.1);
                    assert(crate::json::field_get(rest, "results"@) == Some(v.model()));
                    return match v {
                        Json::Array(items) => items,
                        _ => Vec::new(),
                    };
                }
                i += 1;
            }
            Vec::new()
        },
        _ => Vec::new(),
    }
}

} // verus!
