//! The HTTP-facing logic: URL building, percent-encoding, cursor pagination, the mapping
//! from HTTP status to error class, and the lookups that turn names into ids.

use vstd::prelude::*;
use vstd::utf8::*;
use crate::error::{owned, opt_view, Error, ErrorCode};
use crate::json::{
    json_string, lossy_text, parse_json, parse_json_bytes, parsed_json, parsed_json_bytes, str_field,
    utf8_lossy, utf8_string, Json, JsonValue,
};
use crate::text::{
    before_char, chars_of, find, find_char, opt, int_text, is_ascii_ws, is_ws, lemma_find, lemma_find_concat,
    lemma_trim_first, lemma_trim_unchanged, push_int, push_str, slice_of, string_of, trim,
    trim_bounds, trim_str,
};

verus! {

broadcast use vstd::string::group_string_axioms;

// ---------------------------------------------------------------------------------------------
// percent-encoding

/// The bytes a URL may carry as they are: `A-Z a-z 0-9 - _ . ~`.
pub open spec fn is_unreserved(b: u8) -> bool {
    (65 <= b <= 90) || (97 <= b <= 122) || (48 <= b <= 57) || b == 45 || b == 95 || b == 46 || b
        == 126
}

/// An upper-case hexadecimal digit.
pub open spec fn hex_upper(d: int) -> char {
    if d < 10 {
        ((48 + d) as u8) as char
    } else {
        ((55 + d) as u8) as char
    }
}

/// The encoding of one byte.
pub open spec fn seg_byte(b: u8) -> Seq<char> {
    if is_unreserved(b) {
        seq![b as char]
    } else {
        seq!['%', hex_upper((b / 16) as int), hex_upper((b % 16) as int)]
    }
}

/// The percent-encoding of a byte string.
pub open spec fn seg_bytes(bs: Seq<u8>) -> Seq<char>
    decreases bs.len(),
{
    if bs.len() == 0 {
        Seq::empty()
    } else {
        seg_byte(bs[0]) + seg_bytes(bs.drop_first())
    }
}

/// The percent-encoding of the UTF-8 bytes of `s`.
pub open spec fn seg_spec(s: Seq<char>) -> Seq<char> {
    seg_bytes(encode_utf8(s))
}

/// Encoding distributes over concatenation.
pub proof fn lemma_seg_bytes_append(a: Seq<u8>, b: Seq<u8>)
    ensures
        seg_bytes(a + b) == seg_bytes(a) + seg_bytes(b),
    decreases a.len(),
{
    if a.len() == 0 {
        assert(a + b == b);
    } else {
        assert((a + b).drop_first() == a.drop_first() + b);
        lemma_seg_bytes_append(a.drop_first(), b);
    }
}

fn hex_upper_exec(d: u8) -> (c: char)
    requires
        d < 16,
    ensures
        c == hex_upper(d as int),
{
    if d < 10 {
        (48 + d) as char
    } else {
        (55 + d) as char
    }
}

/// Percent-encodes one path segment or query value: every byte outside `A-Z a-z 0-9 - _ . ~`
/// becomes `%XX` with upper-case hex digits.
pub fn seg(s: &str) -> (r: String)
    ensures
        r@ == seg_spec(s@),
{
    let bs = s.as_bytes();
    let mut out: Vec<char> = Vec::new();
    for i in 0..bs.len()
        invariant
            bs@ == encode_utf8(s@),
            out@ == seg_bytes(bs@.take(i as int)),
    {
        let b = bs[i];
        proof {
            assert(bs@.take(i + 1) == bs@.take(i as int) + seq![b]);
            lemma_seg_bytes_append(bs@.take(i as int), seq![b]);
            assert(seq![b].drop_first() == Seq::<u8>::empty());
            assert(seg_bytes(seq![b]) == seg_byte(b) + seg_bytes(Seq::<u8>::empty()));
        }
        if (65 <= b && b <= 90) || (97 <= b && b <= 122) || (48 <= b && b <= 57) || b == 45 || b
            == 95 || b == 46 || b == 126 {
            out.push(b as char);
        } else {
            out.push('%');
            out.push(hex_upper_exec(b / 16));
            out.push(hex_upper_exec(b % 16));
        }
    }
    assert(bs@.take(bs@.len() as int) == bs@);
    string_of(out.as_slice())
}

/// The value of a hexadecimal digit byte.
pub open spec fn hex_value(b: u8) -> Option<int> {
    if 48 <= b <= 57 {
        Some(b - 48)
    } else if 65 <= b <= 70 {
        Some(b - 55)
    } else if 97 <= b <= 102 {
        Some(b - 87)
    } else {
        None
    }
}

/// The byte that `%` followed by `h1 h2` stands for, as `u8::from_str_radix(.., 16)` reads
/// the two bytes: two hex digits, or a `+` sign and one hex digit.
pub open spec fn pair_value(h1: u8, h2: u8) -> Option<u8> {
    match (hex_value(h1), hex_value(h2)) {
        (Some(a), Some(b)) => Some((16 * a + b) as u8),
        (None, Some(b)) => if h1 == 43 {
            Some(b as u8)
        } else {
            None
        },
        _ => None,
    }
}

/// Decodes `%XX` escapes and `+` (a space) in a byte string; `None` on a malformed escape.
pub open spec fn pct_decode(bs: Seq<u8>) -> Option<Seq<u8>>
    decreases bs.len(),
{
    if bs.len() == 0 {
        Some(Seq::empty())
    } else if bs[0] == 37 {
        if bs.len() < 3 {
            None
        } else {
            match pair_value(bs[1], bs[2]) {
                Some(v) => match pct_decode(bs.skip(3)) {
                    Some(r) => Some(seq![v] + r),
                    None => None,
                },
                None => None,
            }
        }
    } else {
        let c: u8 = if bs[0] == 43 {
            32
        } else {
            bs[0]
        };
        match pct_decode(bs.skip(1)) {
            Some(r) => Some(seq![c] + r),
            None => None,
        }
    }
}

/// The text `s` stands for once its escapes are decoded; `None` on a malformed escape or
/// when the decoded bytes are not UTF-8.
pub open spec fn percent_decode_spec(s: Seq<char>) -> Option<Seq<char>> {
    match pct_decode(encode_utf8(s)) {
        Some(bs) => if valid_utf8(bs) {
            Some(decode_utf8(bs))
        } else {
            None
        },
        None => None,
    }
}

spec fn prepend(out: Seq<u8>, rest: Option<Seq<u8>>) -> Option<Seq<u8>> {
    match rest {
        Some(r) => Some(out + r),
        None => None,
    }
}

fn hex_value_exec(b: u8) -> (r: Option<u8>)
    ensures
        match hex_value(b) {
            Some(v) => r == Some(v as u8),
            None => r is None,
        },
{
    if 48 <= b && b <= 57 {
        Some(b - 48)
    } else if 65 <= b && b <= 70 {
        Some(b - 55)
    } else if 97 <= b && b <= 102 {
        Some(b - 87)
    } else {
        None
    }
}

fn pair_value_exec(h1: u8, h2: u8) -> (r: Option<u8>)
    ensures
        r == pair_value(h1, h2),
{
    match (hex_value_exec(h1), hex_value_exec(h2)) {
        (Some(a), Some(b)) => Some(16 * a + b),
        (None, Some(b)) => if h1 == 43 {
            Some(b)
        } else {
            None
        },
        _ => None,
    }
}

/// Decodes `%XX` escapes and `+` in `s`; `None` when an escape is malformed or the result
/// is not UTF-8.
pub fn percent_decode(s: &str) -> (r: Option<String>)
    ensures
        match r {
            Some(t) => percent_decode_spec(s@) == Some(t@),
            None => percent_decode_spec(s@) is None,
        },
{
    let bs = s.as_bytes();
    let n = bs.len();
    let mut out: Vec<u8> = Vec::new();
    let mut i: usize = 0;
    assert(bs@.skip(0) == bs@);
    while i < n
        invariant
            n == bs@.len(),
            bs@ == encode_utf8(s@),
            i <= n,
            pct_decode(bs@) == prepend(out@, pct_decode(bs@.skip(i as int))),
        decreases n - i,
    {
        let ghost rest = bs@.skip(i as int);
        let b = bs[i];
        assert(rest[0] == b);
        if b == 37 {
            if n - i < 3 {
                return None;
            }
            assert(rest[1] == bs@[i + 1]);
            assert(rest[2] == bs@[i + 2]);
            match pair_value_exec(bs[i + 1], bs[i + 2]) {
                Some(v) => {
                    assert(rest.skip(3) == bs@.skip(i + 3));
                    proof {
                        let ghost o = out@;
                        match pct_decode(bs@.skip(i + 3)) {
                            Some(r) => {
                                assert(o + (seq![v] + r) == o.push(v) + r);
                            },
                            None => {},
                        }
                    }
                    out.push(v);
                    i += 3;
                },
                None => {
                    return None;
                },
            }
        } else {
            let c: u8 = if b == 43 { 32 } else { b };
            assert(rest.skip(1) == bs@.skip(i + 1));
            proof {
                let ghost o = out@;
                match pct_decode(bs@.skip(i + 1)) {
                    Some(r) => {
                        assert(o + (seq![c] + r) == o.push(c) + r);
                    },
                    None => {},
                }
            }
            out.push(c);
            i += 1;
        }
    }
    assert(bs@.skip(n as int) == Seq::<u8>::empty());
    assert(out@ + Seq::<u8>::empty() == out@);
    utf8_string(out)
}

/// The bytes of an ASCII character string.
pub open spec fn ascii_bytes(cs: Seq<char>) -> Seq<u8> {
    Seq::new(cs.len(), |i: int| cs[i] as u8)
}

proof fn lemma_seg_bytes_ascii(bs: Seq<u8>)
    ensures
        is_ascii_chars(seg_bytes(bs)),
    decreases bs.len(),
{
    if bs.len() > 0 {
        lemma_seg_bytes_ascii(bs.drop_first());
        let h = seg_byte(bs[0]);
        assert(is_ascii_chars(h)) by {
            let b = bs[0];
            assert((b / 16) < 16 && (b % 16) < 16);
        }
        vstd::utf8::is_ascii_chars_concat(h + seg_bytes(bs.drop_first()), h, seg_bytes(bs.drop_first()));
    }
}

proof fn lemma_ascii_bytes_append(a: Seq<char>, b: Seq<char>)
    ensures
        ascii_bytes(a + b) == ascii_bytes(a) + ascii_bytes(b),
{
    assert(ascii_bytes(a + b) =~= ascii_bytes(a) + ascii_bytes(b));
}

proof fn lemma_decode_seg_bytes(bs: Seq<u8>)
    ensures
        pct_decode(ascii_bytes(seg_bytes(bs))) == Some(bs),
    decreases bs.len(),
{
    if bs.len() == 0 {
        assert(ascii_bytes(seg_bytes(bs)) =~= Seq::<u8>::empty());
        assert(bs =~= Seq::<u8>::empty());
    } else {
        let b = bs[0];
        let rest = bs.drop_first();
        lemma_decode_seg_bytes(rest);
        let h = seg_byte(b);
        let tail = ascii_bytes(seg_bytes(rest));
        lemma_ascii_bytes_append(h, seg_bytes(rest));
        let all = ascii_bytes(h) + tail;
        assert(ascii_bytes(seg_bytes(bs)) == all);
        if is_unreserved(b) {
            assert(ascii_bytes(h) =~= seq![b]);
            assert(all[0] == b);
            assert(all.skip(1) =~= tail);
        } else {
            let hi = (b / 16) as int;
            let lo = (b % 16) as int;
            assert(ascii_bytes(h) =~= seq![37u8, hex_upper(hi) as u8, hex_upper(lo) as u8]);
            assert(all[0] == 37u8);
            assert(all[1] == hex_upper(hi) as u8);
            assert(all[2] == hex_upper(lo) as u8);
            assert(hex_value(hex_upper(hi) as u8) == Some(hi));
            assert(hex_value(hex_upper(lo) as u8) == Some(lo));
            assert(16 * hi + lo == b);
            assert(all.skip(3) =~= tail);
        }
        assert(seq![b] + rest =~= bs);
    }
}

/// Decoding what `seg` encodes gives the text back.
pub proof fn lemma_seg_round_trip(s: Seq<char>)
    ensures
        percent_decode_spec(seg_spec(s)) == Some(s),
{
    broadcast use vstd::utf8::group_utf8_lib;

    let bs = encode_utf8(s);
    let out = seg_bytes(bs);
    lemma_seg_bytes_ascii(bs);
    vstd::utf8::is_ascii_chars_encode_utf8(out);
    assert(encode_utf8(out) =~= ascii_bytes(out));
    lemma_decode_seg_bytes(bs);
}

/// What `seg` writes holds only unreserved characters and `%XX` escapes with upper-case
/// hex digits: no `/`, `?`, `&`, `=`, `+`, space or other character that a URL gives a meaning.
pub open spec fn is_url_safe(cs: Seq<char>) -> bool {
    forall|i: int|
        0 <= i < cs.len() ==> {
            let u = #[trigger] cs[i] as u32;
            ||| (65 <= u <= 90) || (97 <= u <= 122) || (48 <= u <= 57) || u == 45 || u == 95 || u
                == 46 || u == 126
            ||| u == 37
        }
}

/// The output of `seg` is URL-safe.
pub proof fn lemma_seg_url_safe(s: Seq<char>)
    ensures
        is_url_safe(seg_spec(s)),
{
    lemma_seg_bytes_safe(encode_utf8(s));
}

proof fn lemma_seg_bytes_safe(bs: Seq<u8>)
    ensures
        is_url_safe(seg_bytes(bs)),
    decreases bs.len(),
{
    if bs.len() > 0 {
        lemma_seg_bytes_safe(bs.drop_first());
        let h = seg_byte(bs[0]);
        let t = seg_bytes(bs.drop_first());
        assert(is_url_safe(h)) by {
            let b = bs[0];
            assert((b / 16) < 16 && (b % 16) < 16);
        }
        assert forall|i: int| 0 <= i < (h + t).len() implies {
            let u = #[trigger] (h + t)[i] as u32;
            ||| (65 <= u <= 90) || (97 <= u <= 122) || (48 <= u <= 57) || u == 45 || u == 95 || u
                == 46 || u == 126
            ||| u == 37
        } by {
            if i < h.len() {
                assert((h + t)[i] == h[i]);
            } else {
                assert((h + t)[i] == t[i - h.len()]);
            }
        }
    }
}


// ---------------------------------------------------------------------------------------------
// cursor pagination

/// The part of a URL after its first `?`, or the whole text when it has none.
pub open spec fn query_of(url: Seq<char>) -> Seq<char> {
    match find(url, '?') {
        Some(i) => url.skip(i + 1),
        None => url,
    }
}

/// The raw value of the first `&`-separated pair of a query whose key is `cursor`.
pub open spec fn cursor_value(q: Seq<char>) -> Option<Seq<char>>
    decreases q.len(),
{
    let pair = before_char(q, '&');
    let hit = match find(pair, '=') {
        Some(j) => pair.take(j) == "cursor"@,
        None => false,
    };
    if hit {
        Some(pair.skip(find(pair, '=').unwrap() + 1))
    } else {
        match find(q, '&') {
            Some(i) => if 0 <= i < q.len() {
                cursor_value(q.skip(i + 1))
            } else {
                None
            },
            None => None,
        }
    }
}

/// The decoded cursor of a `next` link: the value of its first `cursor` query pair.
pub open spec fn cursor_of(next_url: Option<Seq<char>>) -> Option<Seq<char>> {
    match next_url {
        None => None,
        Some(u) => {
            let t = trim(u);
            if t.len() == 0 {
                None
            } else {
                match cursor_value(query_of(t)) {
                    Some(v) => percent_decode_spec(v),
                    None => None,
                }
            }
        },
    }
}

/// Appending `&` and a pair-list without `&` to a query that names no cursor: the cursor
/// is then the one of the appended pairs.
pub proof fn lemma_cursor_value_append(q: Seq<char>, k: Seq<char>)
    requires
        find(k, '&') is None,
        cursor_value(q) is None,
    ensures
        cursor_value(q + seq!['&'] + k) == cursor_value(k),
    decreases q.len(),
{
    let tail = seq!['&'] + k;
    let w = q + tail;
    assert(q + seq!['&'] + k == w);
    lemma_find(q, '&');
    lemma_find_concat(q, tail, '&');
    assert(tail[0] == '&');
    assert(find(tail, '&') == Some(0int));
    match find(q, '&') {
        Some(i) => {
            assert(w.take(i) =~= q.take(i));
            assert(before_char(w, '&') == before_char(q, '&'));
            assert(w.skip(i + 1) =~= q.skip(i + 1) + tail);
            assert(q.skip(i + 1) + tail == q.skip(i + 1) + seq!['&'] + k);
            lemma_cursor_value_append(q.skip(i + 1), k);
        },
        None => {
            assert(w.take(q.len() as int) =~= q);
            assert(before_char(w, '&') == before_char(q, '&'));
            assert(w.skip(q.len() as int + 1) =~= k);
        },
    }
}

/// Where the query is `cursor=` followed by URL-safe text, that text is the cursor value.
pub proof fn lemma_cursor_value_pair(e: Seq<char>)
    requires
        is_url_safe(e),
    ensures
        cursor_value("cursor="@ + e) == Some(e),
        find("cursor="@ + e, '&') is None,
{
    reveal_strlit("cursor=");
    reveal_strlit("cursor");
    let k = "cursor="@;
    let q = k + e;
    assert(forall|i: int| 0 <= i < e.len() ==> e[i] != '&' && e[i] != '=') by {
        assert forall|i: int| 0 <= i < e.len() implies e[i] != '&' && e[i] != '=' by {
            let u = e[i] as u32;
            assert(is_url_safe(e));
        }
    }
    lemma_find(e, '&');
    lemma_find(k, '&');
    lemma_find_concat(k, e, '&');
    assert(find(q, '&') is None);
    assert(before_char(q, '&') == q);
    lemma_find(k, '=');
    lemma_find_concat(k, e, '=');
    assert(k[6] == '=');
    assert(find(k, '=') == Some(6int));
    assert(q.take(6) =~= "cursor"@);
    assert(q.skip(7) =~= e);
}

/// Finds the cursor in a DRF `next` link and decodes it.
pub fn extract_cursor(next_url: Option<&str>) -> (r: Option<String>)
    ensures
        match r {
            Some(c) => cursor_of(opt(next_url)) == Some(c@),
            None => cursor_of(opt(next_url)) is None,
        },
{
    let url = match next_url {
        Some(u) => u,
        None => return None,
    };
    let all = chars_of(url);
    let (a, b) = trim_bounds(&all);
    if a == b {
        return None;
    }
    let t = slice_of(&all, a, b);
    let mut q = match find_char(&t, '?') {
        Some(i) => slice_of(&t, i + 1, t.len()),
        None => t,
    };
    proof {
        lemma_find(t@, '?');
    }
    assert(cursor_of(opt(next_url)) == match cursor_value(q@) {
        Some(v) => percent_decode_spec(v),
        None => None,
    });
    let ghost q0 = q@;
    let ghost goal = cursor_of(opt(next_url));
    loop
        invariant
            cursor_value(q0) == cursor_value(q@),
            goal == match cursor_value(q0) {
                Some(v) => percent_decode_spec(v),
                None => None,
            },
            goal == cursor_of(opt(next_url)),
        decreases q@.len(),
    {
        proof {
            lemma_find(q@, '&');
        }
        let amp = find_char(&q, '&');
        let pair = match amp {
            Some(i) => slice_of(&q, 0, i),
            None => slice_of(&q, 0, q.len()),
        };
        assert(pair@ == before_char(q@, '&'));
        proof {
            lemma_find(pair@, '=');
        }
        match find_char(&pair, '=') {
            Some(j) => {
                let key = slice_of(&pair, 0, j);
                let key_s = string_of(key.as_slice());
                if crate::json::eq_str(key_s.as_str(), "cursor") {
                    let v = slice_of(&pair, j + 1, pair.len());
                    let vs = string_of(v.as_slice());
                    assert(v@ == pair@.skip(j + 1));
                    return percent_decode(vs.as_str());
                }
            },
            None => {},
        }
        match amp {
            Some(i) => {
                assert(find(q@, '&') == Some(i as int));
                let len = q.len();
                q = slice_of(&q, i + 1, len);
            },
            None => {
                return None;
            },
        }
    }
}


// ---------------------------------------------------------------------------------------------
// HTTP status to error

/// The error class of a non-success HTTP status.
pub open spec fn code_for_status(status: u16) -> ErrorCode {
    if status == 401 || status == 403 {
        ErrorCode::AuthRequired
    } else if status == 404 {
        ErrorCode::NotFound
    } else if status == 429 {
        ErrorCode::RateLimited
    } else if status == 400 || status == 422 {
        ErrorCode::InvalidInput
    } else if status >= 500 {
        ErrorCode::Network
    } else {
        ErrorCode::Error
    }
}

/// The remediation given for a non-success HTTP status.
pub open spec fn fix_for_status(status: u16) -> Option<Seq<char>> {
    if status == 401 {
        Some(FIX_401@)
    } else if status == 403 {
        Some(FIX_403@)
    } else if status == 429 {
        Some(FIX_429@)
    } else if status >= 500 && status != 401 && status != 403 && status != 404 && status != 429 {
        Some(FIX_5XX@)
    } else {
        None
    }
}

/// The remediation for a rejected token.
pub const FIX_401: &'static str = "Check your API token (--api-token or BUGSINK_API_TOKEN), or: bugsink accounts add <name> --api-token <token> --force";

/// The remediation for a forbidden operation.
pub const FIX_403: &'static str = "Check that your token has permission for this operation.";

/// The remediation for throttling.
pub const FIX_429: &'static str = "Back off before retrying.";

/// The remediation for a server fault.
pub const FIX_5XX: &'static str = "Retry once; if it persists the Bugsink server is having trouble.";

/// `parts` joined with `sep` between them.
pub open spec fn join(parts: Seq<Seq<char>>, sep: Seq<char>) -> Seq<char>
    decreases parts.len(),
{
    if parts.len() == 0 {
        Seq::empty()
    } else if parts.len() == 1 {
        parts[0]
    } else {
        join(parts.drop_last(), sep) + sep + parts.last()
    }
}

/// The string elements of an array, in order.
pub open spec fn strings_of(items: Seq<JsonValue>) -> Seq<Seq<char>>
    decreases items.len(),
{
    if items.len() == 0 {
        Seq::empty()
    } else {
        let rest = strings_of(items.drop_last());
        match items.last() {
            JsonValue::Str(s) => rest.push(s),
            _ => rest,
        }
    }
}

/// How a field of a validation error body is described.
pub open spec fn value_desc(v: JsonValue) -> Seq<char> {
    match v {
        JsonValue::Array(items) => join(strings_of(items), seq![' ']),
        JsonValue::Str(s) => s,
        _ => json_string(v),
    }
}

/// `key: description` for each member of an error body.
pub open spec fn field_descs(fields: Seq<(Seq<char>, JsonValue)>) -> Seq<Seq<char>> {
    Seq::new(fields.len(), |i: int| fields[i].0 + seq![':', ' '] + value_desc(fields[i].1))
}

/// The message of an error for a non-success HTTP status: `"<status> <reason>"`, followed
/// by `": "` and the body's `detail` string, or its fields, or the raw body.
pub open spec fn status_message(
    status: u16,
    reason: Seq<char>,
    body: Seq<char>,
    parsed: Option<JsonValue>,
) -> Seq<char> {
    let prefix = int_text(status as int) + seq![' '] + reason;
    match parsed {
        Some(v) => match str_field(v, "detail"@) {
            Some(d) => prefix + seq![':', ' '] + d,
            None => match v {
                JsonValue::Object(fields) => if fields.len() > 0 {
                    prefix + seq![':', ' '] + join(field_descs(fields), seq![';', ' '])
                } else {
                    prefix
                },
                _ => prefix,
            },
        },
        None => if body.len() > 0 {
            prefix + seq![':', ' '] + body
        } else {
            prefix
        },
    }
}

/// The detail of an error for a non-success HTTP status: `"HTTP <status>: <body>"`.
pub open spec fn status_detail(status: u16, body: Seq<char>) -> Option<Seq<char>> {
    if body.len() > 0 {
        Some(seq!['H', 'T', 'T', 'P', ' '] + int_text(status as int) + seq![':', ' '] + body)
    } else {
        None
    }
}

/// The texts of character vectors.
pub open spec fn views(parts: Seq<Vec<char>>) -> Seq<Seq<char>> {
    Seq::new(parts.len(), |i: int| parts[i]@)
}

/// Appends `parts` joined by `sep`.
fn push_joined(out: &mut Vec<char>, parts: &Vec<Vec<char>>, sep: &str)
    ensures
        final(out)@ == old(out)@ + join(views(parts@), sep@),
{
    let ghost ps = views(parts@);
    let ghost start = out@;
    for i in 0..parts.len()
        invariant
            ps == views(parts@),
            out@ == start + join(ps.take(i as int), sep@),
    {
        assert(ps.take(i + 1).drop_last() == ps.take(i as int));
        if i > 0 {
            push_str(out, sep);
        }
        let ghost before = out@;
        let part = &parts[i];
        for k in 0..part.len()
            invariant
                out@ == before + part@.take(k as int),
                part == parts@[i as int],
                i < parts@.len(),
        {
            out.push(part[k]);
            assert(part@.take(k + 1) == part@.take(k as int).push(part@[k as int]));
        }
        assert(part@.take(part@.len() as int) == part@);
    }
    assert(ps.take(parts@.len() as int) == ps);
}

/// The description of one field value.
fn push_value_desc(out: &mut Vec<char>, v: &Json)
    ensures
        final(out)@ == old(out)@ + value_desc(v.model()),
{
    broadcast use crate::json::group_json_model;

    match v {
        Json::Array(items) => {
            let mut strs: Vec<Vec<char>> = Vec::new();
            let ghost ms = crate::json::models(items@);
            proof {
                crate::json::lemma_models(items@);
                reveal_strlit(" ");
            }
            for i in 0..items.len()
                invariant
                    ms == crate::json::models(items@),
                    ms.len() == items@.len(),
                    forall|j: int| 0 <= j < items@.len() ==> ms[j] == #[trigger] items@[j].model(),
                    views(strs@) == strings_of(ms.take(i as int)),
            {
                assert(ms.take(i + 1).drop_last() == ms.take(i as int));
                assert(ms.take(i + 1).last() == items@[i as int].model());
                let ghost old_strs = views(strs@);
                assert(strings_of(ms.take(i + 1)) == match items@[i as int].model() {
                    JsonValue::Str(t) => strings_of(ms.take(i as int)).push(t),
                    _ => strings_of(ms.take(i as int)),
                });
                match &items[i] {
                    Json::Str(s) => {
                        strs.push(chars_of(s.as_str()));
                        assert(views(strs@) =~= old_strs.push(s@));
                    },
                    _ => {},
                }
            }
            assert(ms.take(items@.len() as int) == ms);
            push_joined(out, &strs, " ");
            proof {
                reveal_strlit(" ");
                assert(" "@ =~= seq![' ']);
                assert(v.model() == JsonValue::Array(ms));
            }
        },
        Json::Str(s) => {
            push_str(out, s.as_str());
        },
        _ => {
            let t = v.to_json_string();
            push_str(out, t.as_str());
        },
    }
}

/// The error for a non-success HTTP status, given what serde_json made of the body.
pub fn status_error_parsed(status: u16, reason: &str, body: &str, parsed: &Option<Json>) -> (r: Error)
    ensures
        r.code == code_for_status(status),
        r.message@ == status_message(status, reason@, body@, opt_model(*parsed)),
        opt_view(r.detail) == status_detail(status, body@),
        opt_view(r.remediation) == fix_for_status(status),
{
    broadcast use crate::json::group_json_model;

    let mut msg: Vec<char> = Vec::new();
    push_int(&mut msg, status as i64);
    msg.push(' ');
    push_str(&mut msg, reason);
    let ghost prefix = msg@;
    match parsed {
        Some(v) => {
            let detail = match v.get("detail") {
                Some(d) => d.as_str(),
                None => None,
            };
            match detail {
                Some(d) => {
                    msg.push(':');
                    msg.push(' ');
                    push_str(&mut msg, d.as_str());
                    assert(msg@ == prefix + seq![':', ' '] + d@);
                },
                None => {
                    match v {
                        Json::Object(fields) => {
                            if fields.len() > 0 {
                                let ghost fm = crate::json::field_models(fields@);
                                let mut descs: Vec<Vec<char>> = Vec::new();
                                for i in 0..fields.len()
                                    invariant
                                        fm == crate::json::field_models(fields@),
                                        fm.len() == fields@.len(),
                                        forall|j: int|
                                            0 <= j < fields@.len() ==> fm[j] == (
                                                #[trigger] fields@[j].0@,
                                                fields@[j].1.model(),
                                            ),
                                        descs@.len() == i,
                                        forall|j: int|
                                            0 <= j < i ==> #[trigger] descs@[j]@ == field_descs(fm)[j],
                                {
                                    let mut d: Vec<char> = Vec::new();
                                    push_str(&mut d, fields[i].0.as_str());
                                    d.push(':');
                                    d.push(' ');
                                    push_value_desc(&mut d, &fields[i].1);
                                    descs.push(d);
                                }
                                msg.push(':');
                                msg.push(' ');
                                assert(views(descs@) =~= field_descs(fm));
                                let ghost before_join = msg@;
                                push_joined(&mut msg, &descs, "; ");
                                proof {
                                    reveal_strlit("; ");
                                    assert("; "@ =~= seq![';', ' ']);
                                    assert(before_join == prefix + seq![':', ' ']);
                                    assert(views(descs@) == field_descs(fm));
                                }
                                assert(msg@ == prefix + seq![':', ' '] + join(field_descs(fm), seq![';', ' ']));
                            }
                        },
                        _ => {},
                    }
                },
            }
        },
        None => {
            if !body.is_empty() {
                msg.push(':');
                msg.push(' ');
                push_str(&mut msg, body);
            }
        },
    }
    proof {
        reveal_strlit("; ");
    }
    let message = string_of(msg.as_slice());
    let code = if status == 401 || status == 403 {
        ErrorCode::AuthRequired
    } else if status == 404 {
        ErrorCode::NotFound
    } else if status == 429 {
        ErrorCode::RateLimited
    } else if status == 400 || status == 422 {
        ErrorCode::InvalidInput
    } else if status >= 500 {
        ErrorCode::Network
    } else {
        ErrorCode::Error
    };
    let mut err = Error::new(code, message);
    if status == 401 {
        err = err.fix(owned(FIX_401));
    } else if status == 403 {
        err = err.fix(owned(FIX_403));
    } else if status == 429 {
        err = err.fix(owned(FIX_429));
    } else if status >= 500 && status != 404 {
        err = err.fix(owned(FIX_5XX));
    }
    if !body.is_empty() {
        let mut d: Vec<char> = Vec::new();
        push_str(&mut d, "HTTP ");
        push_int(&mut d, status as i64);
        d.push(':');
        d.push(' ');
        push_str(&mut d, body);
        proof {
            reveal_strlit("HTTP ");
        }
        err = err.detail(string_of(d.as_slice()));
    }
    err
}

/// The error for a non-success HTTP status with the given reason phrase and (trimmed) body.
pub fn status_error(status: u16, reason: &str, body: &str) -> (r: Error)
    ensures
        r.code == code_for_status(status),
        r.message@ == status_message(status, reason@, body@, parsed_json(body@)),
        opt_view(r.detail) == status_detail(status, body@),
        opt_view(r.remediation) == fix_for_status(status),
{
    let parsed = parse_json(body);
    status_error_parsed(status, reason, body, &parsed)
}

/// Whether `e` is the error for a non-success `status` with the given reason phrase and body.
pub open spec fn is_status_error(e: Error, status: u16, reason: Seq<char>, body: Seq<char>) -> bool {
    &&& e.code == code_for_status(status)
    &&& e.message@ == status_message(status, reason, body, parsed_json(body))
    &&& opt_view(e.detail) == status_detail(status, body)
    &&& opt_view(e.remediation) == fix_for_status(status)
}

/// The status classes: every 5xx status (and any status above) is a server or network
/// fault, exit code 2, with the advice to retry; 401 and 403 ask for credentials, 404 is
/// not found, 429 is throttling, 400 and 422 are invalid input, and every other status is
/// the generic class, exit code 1. Advice comes with 401, 403, 429 and the 5xx statuses only.
pub proof fn lemma_status_classes(status: u16)
    ensures
        status >= 500 ==> code_for_status(status) == ErrorCode::Network && crate::error::exit_code_of(
            code_for_status(status),
        ) == 2 && fix_for_status(status) == Some(FIX_5XX@),
        (status == 401 || status == 403) ==> code_for_status(status) == ErrorCode::AuthRequired,
        status == 404 ==> code_for_status(status) == ErrorCode::NotFound,
        status == 429 ==> code_for_status(status) == ErrorCode::RateLimited,
        (status == 400 || status == 422) ==> code_for_status(status) == ErrorCode::InvalidInput,
        (status < 500 && status != 400 && status != 401 && status != 403 && status != 404 && status
            != 422 && status != 429) ==> code_for_status(status) == ErrorCode::Error
            && crate::error::exit_code_of(code_for_status(status)) == 1,
        status == 401 ==> fix_for_status(status) == Some(FIX_401@),
        status == 403 ==> fix_for_status(status) == Some(FIX_403@),
        status == 429 ==> fix_for_status(status) == Some(FIX_429@),
        (status < 500 && status != 401 && status != 403 && status != 429) ==> fix_for_status(status)
            is None,
{
}

/// The error for any status of 500 or above, whatever the reason phrase and body, is of
/// the network class (exit code 2) and advises a retry.
pub proof fn lemma_server_status_error(e: Error, status: u16, reason: Seq<char>, body: Seq<char>)
    requires
        is_status_error(e, status, reason, body),
        status >= 500,
    ensures
        e.code == ErrorCode::Network,
        crate::error::exit_code_of(e.code) == 2,
        opt_view(e.remediation) == Some(FIX_5XX@),
{
    lemma_status_classes(status);
}

/// Whether an HTTP status is a success (2xx).
pub open spec fn is_success(status: u16) -> bool {
    200 <= status < 300
}

/// Whether every byte is ASCII whitespace (true of an empty body).
pub open spec fn all_ascii_ws(bytes: Seq<u8>) -> bool {
    forall|i: int| 0 <= i < bytes.len() ==> is_ascii_ws(#[trigger] bytes[i])
}

/// The value of a successful response body: an empty object for a blank body, else the
/// parsed JSON, else the body as a string.
pub open spec fn success_body(bytes: Seq<u8>) -> JsonValue {
    if all_ascii_ws(bytes) {
        JsonValue::Object(Seq::empty())
    } else {
        match parsed_json_bytes(bytes) {
            Some(v) => v,
            None => JsonValue::Str(lossy_text(bytes)),
        }
    }
}

fn blank_bytes(bytes: &[u8]) -> (r: bool)
    ensures
        r == all_ascii_ws(bytes@),
{
    let mut i: usize = 0;
    while i < bytes.len()
        invariant
            i <= bytes@.len(),
            forall|j: int| 0 <= j < i ==> is_ascii_ws(#[trigger] bytes@[j]),
        decreases bytes.len() - i,
    {
        let b = bytes[i];
        if !(b == 9 || b == 10 || b == 12 || b == 13 || b == 32) {
            return false;
        }
        i += 1;
    }
    true
}

/// The error for a non-success response: the body decoded (lossily) and trimmed.
fn response_error(status: u16, reason: &str, bytes: &[u8]) -> (r: Error)
    ensures
        is_status_error(r, status, reason@, trim(lossy_text(bytes@))),
{
    let text = utf8_lossy(bytes);
    let body = trim_str(text.as_str());
    status_error(status, reason, body.as_str())
}

/// A JSON response: the status's error unless it is 2xx; else the body as JSON, an empty
/// object for a blank body, or the body as a string where it is not JSON.
pub fn read_json(status: u16, reason: &str, bytes: &[u8]) -> (r: Result<Json, Error>)
    ensures
        r is Ok <==> is_success(status),
        r matches Ok(j) ==> j.model() == success_body(bytes@),
        r matches Err(e) ==> is_status_error(e, status, reason@, trim(lossy_text(bytes@))),
{
    if !(200 <= status && status < 300) {
        return Err(response_error(status, reason, bytes));
    }
    if blank_bytes(bytes) {
        return Ok(Json::Object(Vec::new()));
    }
    match parse_json_bytes(bytes) {
        Some(j) => Ok(j),
        None => Ok(Json::Str(utf8_lossy(bytes))),
    }
}

/// A text response: the status's error unless it is 2xx, else the body decoded lossily.
pub fn read_text(status: u16, reason: &str, bytes: &[u8]) -> (r: Result<String, Error>)
    ensures
        r is Ok <==> is_success(status),
        r matches Ok(t) ==> t@ == lossy_text(bytes@),
        r matches Err(e) ==> is_status_error(e, status, reason@, trim(lossy_text(bytes@))),
{
    if !(200 <= status && status < 300) {
        return Err(response_error(status, reason, bytes));
    }
    Ok(utf8_lossy(bytes))
}

/// The message for a request that timed out.
pub const TIMED_OUT: &'static str = "The request timed out.";

/// The message for a request that got no answer.
pub const UNREACHABLE: &'static str = "Could not reach the Bugsink API.";

/// The remediation for a request that got no answer.
pub const RETRY_ONCE: &'static str = "Retry once, then stop.";

/// The error for a request that got no response: a timeout, or another transport failure
/// described by `description`.
pub fn transport_error(timed_out: bool, description: &str) -> (r: Error)
    ensures
        r.code == ErrorCode::Network,
        r.message@ == (if timed_out { TIMED_OUT@ } else { UNREACHABLE@ }),
        opt_view(r.detail) == (if timed_out { None } else { Some(description@) }),
        opt_view(r.remediation) == Some(RETRY_ONCE@),
{
    if timed_out {
        Error::new(ErrorCode::Network, owned(TIMED_OUT)).fix(owned(RETRY_ONCE))
    } else {
        Error::new(ErrorCode::Network, owned(UNREACHABLE)).detail(owned(description)).fix(
            owned(RETRY_ONCE),
        )
    }
}

/// The model of an optional value.
pub open spec fn opt_model(j: Option<Json>) -> Option<JsonValue> {
    match j {
        Some(v) => Some(v.model()),
        None => None,
    }
}


// ---------------------------------------------------------------------------------------------
// the client: base URL and credentials

/// The path of the canonical API under a Bugsink base URL.
pub const API_PATH: &'static str = "api/canonical/0/";

/// `ureq::Agent`, carried through the library without being looked into.
#[verifier::external_type_specification]
#[verifier::external_body]
pub struct ExAgent(ureq::Agent);

/// A blocking `ureq` agent: 100 s overall timeout, 15 s to connect, HTTP error statuses
/// handed back as responses rather than errors, and the CLI's user agent. The contract
/// states nothing of the agent, which the library only carries.
#[verifier::external_body]
fn new_agent() -> ureq::Agent {
    ureq::Agent::config_builder()
        .timeout_global(Some(std::time::Duration::from_secs(100)))
        .timeout_connect(Some(std::time::Duration::from_secs(15)))
        .http_status_as_error(false)
        .user_agent("bugsink-cli/1.0.0")
        .build()
        .into()
}

/// A connection to one Bugsink server: the agent, the API base URL and the
/// `Authorization` header value.
pub struct Client {
    pub agent: ureq::Agent,
    pub base: String,
    pub auth: String,
}

/// `s` without its trailing slashes (`trim_end_matches('/')`).
pub open spec fn strip_slashes(s: Seq<char>) -> Seq<char>
    decreases s.len(),
{
    if s.len() > 0 && s.last() == '/' {
        strip_slashes(s.drop_last())
    } else {
        s
    }
}

/// `s` without its leading slashes (`trim_start_matches('/')`).
pub open spec fn strip_leading_slashes(s: Seq<char>) -> Seq<char>
    decreases s.len(),
{
    if s.len() > 0 && s[0] == '/' {
        strip_leading_slashes(s.drop_first())
    } else {
        s
    }
}

/// The API path without its trailing slash.
pub open spec fn api_root() -> Seq<char> {
    seq!['a', 'p', 'i', '/', 'c', 'a', 'n', 'o', 'n', 'i', 'c', 'a', 'l', '/', '0']
}

/// The API base URL for an endpoint: the endpoint, trimmed and without trailing slashes,
/// followed by `/api/canonical/0/` unless it already ends with `api/canonical/0`, in which
/// case only the slash is added.
pub open spec fn base_url(endpoint: Seq<char>) -> Seq<char> {
    let root = strip_slashes(trim(endpoint));
    if api_root().is_suffix_of(root) {
        root.push('/')
    } else {
        root + seq!['/'] + api_root() + seq!['/']
    }
}

proof fn lemma_strip_slashes(s: Seq<char>) -> (k: int)
    ensures
        0 <= k <= s.len(),
        strip_slashes(s) == s.take(k),
        k > 0 ==> s[k - 1] != '/',
    decreases s.len(),
{
    if s.len() > 0 && s.last() == '/' {
        let k = lemma_strip_slashes(s.drop_last());
        assert(s.drop_last().take(k) =~= s.take(k));
        if k > 0 {
            assert(s.drop_last()[k - 1] == s[k - 1]);
        }
        k
    } else {
        assert(s.take(s.len() as int) =~= s);
        s.len() as int
    }
}

/// The API base always ends with `api/canonical/0/`, and an API base is its own base: the
/// API path is never added twice.
pub proof fn lemma_base_url(endpoint: Seq<char>)
    ensures
        (api_root() + seq!['/']).is_suffix_of(base_url(endpoint)),
        base_url(base_url(endpoint)) == base_url(endpoint),
{
    let x = trim(endpoint);
    let root = strip_slashes(x);
    let k = lemma_strip_slashes(x);
    lemma_trim_first(endpoint);
    let b = base_url(endpoint);
    let api = api_root();
    assert(api.last() == '0');
    if root.len() > 0 {
        assert(root[0] == x[0]);
    }
    if api.is_suffix_of(root) {
        assert(b == root.push('/'));
        assert(b.drop_last() =~= root);
        assert(strip_slashes(root) == root);
        assert(strip_slashes(b) == root);
        assert(b.subrange(b.len() - (api.len() + 1), b.len() as int) =~= root.subrange(
            root.len() - api.len(),
            root.len() as int,
        ).push('/'));
    } else {
        let body = root + seq!['/'] + api;
        assert(b == body + seq!['/']);
        assert(b.drop_last() =~= body);
        assert(body.last() == '0');
        assert(strip_slashes(body) == body);
        assert(strip_slashes(b) == body);
        assert(body.subrange(body.len() - api.len(), body.len() as int) =~= api);
        assert(b.subrange(b.len() - (api.len() + 1), b.len() as int) =~= api + seq!['/']);
        assert(body.push('/') =~= b);
    }
    assert(b.len() > 0 && b.last() == '/');
    assert(!is_ws(b[0])) by {
        if root.len() == 0 {
            assert(b[0] == '/');
        } else {
            assert(b[0] == root[0]);
        }
    }
    lemma_trim_unchanged(b);
}

fn strip_slashes_exec(cs: &Vec<char>, to: usize) -> (r: usize)
    requires
        to <= cs@.len(),
    ensures
        r <= to,
        strip_slashes(cs@.take(to as int)) == cs@.take(r as int),
{
    let mut end = to;
    while end > 0 && cs[end - 1] == '/'
        invariant
            end <= to <= cs@.len(),
            strip_slashes(cs@.take(to as int)) == strip_slashes(cs@.take(end as int)),
        decreases end,
    {
        assert(cs@.take(end as int).drop_last() == cs@.take(end - 1));
        end -= 1;
    }
    end
}

fn ends_with_api(cs: &Vec<char>, n: usize) -> (r: bool)
    requires
        n <= cs@.len(),
    ensures
        r == api_root().is_suffix_of(cs@.take(n as int)),
{
    let api: Vec<char> = chars_of("api/canonical/0");
    proof {
        reveal_strlit("api/canonical/0");
        assert(api@ =~= api_root());
    }
    let m = api.len();
    if m > n {
        return false;
    }
    let mut i: usize = 0;
    while i < m
        invariant
            m == api@.len() <= n <= cs@.len(),
            api@ == api_root(),
            i <= m,
            forall|j: int| 0 <= j < i ==> api@[j] == cs@[n - m + j],
        decreases m - i,
    {
        if api[i] != cs[n - m + i] {
            assert(cs@.take(n as int).subrange(n - m, n as int)[i as int] == cs@[n - m + i]);
            return false;
        }
        i += 1;
    }
    assert(cs@.take(n as int).subrange(n - m, n as int) =~= api@);
    true
}

impl Client {
    /// A client for `endpoint` that authenticates with `api_token` as a bearer token.
    pub fn new(endpoint: &str, api_token: &str) -> (r: Client)
        ensures
            r.base@ == base_url(endpoint@),
            r.auth@ == "Bearer "@ + api_token@,
    {
        let all = chars_of(endpoint);
        let (a, b) = trim_bounds(&all);
        let t = slice_of(&all, a, b);
        let n = t.len();
        let end = strip_slashes_exec(&t, n);
        assert(t@.take(n as int) == t@);
        let mut root = slice_of(&t, 0, end);
        assert(root@ == t@.take(end as int));
        if ends_with_api(&t, end) {
            root.push('/');
        } else {
            root.push('/');
            push_str(&mut root, "api/canonical/0/");
            proof {
                reveal_strlit("api/canonical/0/");
                assert("api/canonical/0/"@ =~= api_root() + seq!['/']);
            }
        }
        let mut auth = String::from_str("Bearer ");
        auth.append(api_token);
        Client { agent: new_agent(), base: string_of(root.as_slice()), auth }
    }

    /// The full URL of an API path: the base followed by the path without its leading slashes.
    pub fn url(&self, path: &str) -> (r: String)
        ensures
            r@ == self.base@ + strip_leading_slashes(path@),
    {
        let cs = chars_of(path);
        let mut i: usize = 0;
        assert(cs@.skip(0) == cs@);
        while i < cs.len() && cs[i] == '/'
            invariant
                i <= cs@.len(),
                cs@ == path@,
                strip_leading_slashes(path@) == strip_leading_slashes(cs@.skip(i as int)),
            decreases cs.len() - i,
        {
            assert(cs@.skip(i as int).drop_first() == cs@.skip(i + 1));
            i += 1;
        }
        let mut out = chars_of(self.base.as_str());
        let rest = slice_of(&cs, i, cs.len());
        assert(rest@ == cs@.skip(i as int));
        let mut k: usize = 0;
        let ghost start = out@;
        while k < rest.len()
            invariant
                k <= rest@.len(),
                out@ == start + rest@.take(k as int),
            decreases rest.len() - k,
        {
            out.push(rest[k]);
            assert(rest@.take(k + 1) == rest@.take(k as int).push(rest@[k as int]));
            k += 1;
        }
        assert(rest@.take(rest@.len() as int) == rest@);
        string_of(out.as_slice())
    }
}

} // verus!
