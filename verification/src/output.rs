//! What the CLI writes: YAML by default, the compact JSON text under `--json`, and plain
//! text as it is.
//!
//! The YAML is block style. A string is written plain when it starts with an ASCII letter,
//! holds only letters, digits, spaces and `_ - . / @`, does not end with a space and is not
//! a word YAML reads as a boolean or null; any other string is written as a JSON string
//! literal, which YAML reads back as the same string.

use vstd::prelude::*;
use crate::commands::Output;
use crate::error::owned;
use crate::json::{
    field_models, json_string, lemma_field_models, lemma_models, models, Json, JsonValue,
};
use crate::text::{chars_of, eq_ignore_case, eq_ignore_case_str, push_str, string_of};

verus! {

broadcast use vstd::string::group_string_axioms;

/// A character a plain YAML string may hold.
pub open spec fn plain_char(c: char) -> bool {
    ||| 'a' <= c <= 'z'
    ||| 'A' <= c <= 'Z'
    ||| '0' <= c <= '9'
    ||| c == ' ' || c == '_' || c == '-' || c == '.' || c == '/' || c == '@'
}

/// The words YAML reads as a boolean or null, in any case.
pub open spec fn is_reserved(s: Seq<char>) -> bool {
    ||| eq_ignore_case(s, "true"@)
    ||| eq_ignore_case(s, "false"@)
    ||| eq_ignore_case(s, "null"@)
    ||| eq_ignore_case(s, "yes"@)
    ||| eq_ignore_case(s, "no"@)
    ||| eq_ignore_case(s, "on"@)
    ||| eq_ignore_case(s, "off"@)
    ||| eq_ignore_case(s, "y"@)
    ||| eq_ignore_case(s, "n"@)
}

/// Whether a string can be written without quotes.
pub open spec fn is_plain(s: Seq<char>) -> bool {
    &&& s.len() > 0
    &&& ('a' <= s[0] <= 'z' || 'A' <= s[0] <= 'Z')
    &&& s.last() != ' '
    &&& forall|i: int| 0 <= i < s.len() ==> plain_char(#[trigger] s[i])
    &&& !is_reserved(s)
}

/// A string as YAML writes it.
pub open spec fn yaml_str(s: Seq<char>) -> Seq<char> {
    if is_plain(s) {
        s
    } else {
        json_string(JsonValue::Str(s))
    }
}

/// Whether a value is written as a block of its own: a non-empty list or mapping.
pub open spec fn is_block(v: JsonValue) -> bool {
    match v {
        JsonValue::Array(items) => items.len() > 0,
        JsonValue::Object(fields) => fields.len() > 0,
        _ => false,
    }
}

/// A value written on one line.
pub open spec fn yaml_scalar(v: JsonValue) -> Seq<char> {
    match v {
        JsonValue::Null => seq!['n', 'u', 'l', 'l'],
        JsonValue::Bool(b) => if b {
            seq!['t', 'r', 'u', 'e']
        } else {
            seq!['f', 'a', 'l', 's', 'e']
        },
        JsonValue::Number(n) => n,
        JsonValue::Str(s) => yaml_str(s),
        JsonValue::Array(_) => seq!['[', ']'],
        JsonValue::Object(_) => seq!['{', '}'],
    }
}

/// The YAML lines of a value: the first begins with `first`, the others with `pad`; each
/// ends with a newline.
pub open spec fn yaml_block(v: JsonValue, first: Seq<char>, pad: Seq<char>) -> Seq<char>
    decreases v, 0nat,
{
    match v {
        JsonValue::Array(items) => if items.len() > 0 {
            yaml_items(items, first, pad)
        } else {
            first + yaml_scalar(v) + seq!['\n']
        },
        JsonValue::Object(fields) => if fields.len() > 0 {
            yaml_members(fields, first, pad)
        } else {
            first + yaml_scalar(v) + seq!['\n']
        },
        _ => first + yaml_scalar(v) + seq!['\n'],
    }
}

/// The lines of list items: `- ` and the item, continuation lines indented by two more.
pub open spec fn yaml_items(items: Seq<JsonValue>, first: Seq<char>, pad: Seq<char>) -> Seq<char>
    decreases items, 0nat,
{
    if items.len() == 0 {
        Seq::empty()
    } else {
        let p = if items.len() == 1 {
            first
        } else {
            pad
        };
        yaml_items(items.drop_last(), first, pad) + yaml_block(
            items.last(),
            p + seq!['-', ' '],
            pad + seq![' ', ' '],
        )
    }
}

/// The lines of mapping members: `key: value`, or `key:` followed by the value's block
/// indented by two more.
pub open spec fn yaml_members(fields: Seq<(Seq<char>, JsonValue)>, first: Seq<char>, pad: Seq<char>) -> Seq<
    char,
>
    decreases fields, 0nat,
{
    if fields.len() == 0 {
        Seq::empty()
    } else {
        let p = if fields.len() == 1 {
            first
        } else {
            pad
        };
        yaml_members(fields.drop_last(), first, pad) + yaml_member(
            fields.last().0,
            fields.last().1,
            p,
            pad + seq![' ', ' '],
        )
    }
}

/// One mapping member, its first line beginning with `lead`.
pub open spec fn yaml_member(k: Seq<char>, x: JsonValue, lead: Seq<char>, inner: Seq<char>) -> Seq<
    char,
>
    decreases x, 1nat,
{
    if is_block(x) {
        lead + yaml_str(k) + seq![':', '\n'] + yaml_block(x, inner, inner)
    } else {
        lead + yaml_str(k) + seq![':', ' '] + yaml_scalar(x) + seq!['\n']
    }
}

/// The YAML document of a value.
pub open spec fn yaml_text(v: JsonValue) -> Seq<char> {
    yaml_block(v, Seq::empty(), Seq::empty())
}

fn is_plain_exec(s: &str) -> (r: bool)
    ensures
        r == is_plain(s@),
{
    let cs = chars_of(s);
    let n = cs.len();
    if n == 0 {
        return false;
    }
    let c0 = cs[0];
    if !(('a' <= c0 && c0 <= 'z') || ('A' <= c0 && c0 <= 'Z')) {
        return false;
    }
    if cs[n - 1] == ' ' {
        return false;
    }
    for i in 0..n
        invariant
            n == cs@.len(),
            cs@ == s@,
            forall|j: int| 0 <= j < i ==> plain_char(#[trigger] cs@[j]),
    {
        let c = cs[i];
        let ok = ('a' <= c && c <= 'z') || ('A' <= c && c <= 'Z') || ('0' <= c && c <= '9') || c
            == ' ' || c == '_' || c == '-' || c == '.' || c == '/' || c == '@';
        if !ok {
            return false;
        }
    }
    let reserved = eq_ignore_case_str(s, "true") || eq_ignore_case_str(s, "false")
        || eq_ignore_case_str(s, "null") || eq_ignore_case_str(s, "yes") || eq_ignore_case_str(
        s,
        "no",
    ) || eq_ignore_case_str(s, "on") || eq_ignore_case_str(s, "off") || eq_ignore_case_str(s, "y")
        || eq_ignore_case_str(s, "n");
    !reserved
}

/// Appends a string as YAML writes it.
fn push_yaml_str(out: &mut Vec<char>, s: &str)
    ensures
        final(out)@ == old(out)@ + yaml_str(s@),
{
    if is_plain_exec(s) {
        push_str(out, s);
    } else {
        let q = Json::Str(owned(s)).to_json_string();
        push_str(out, q.as_str());
    }
}

fn push_all(out: &mut Vec<char>, s: &Vec<char>)
    ensures
        final(out)@ == old(out)@ + s@,
{
    let ghost start = out@;
    for i in 0..s.len()
        invariant
            out@ == start + s@.take(i as int),
    {
        out.push(s[i]);
        assert(s@.take(i + 1) == s@.take(i as int).push(s@[i as int]));
    }
    assert(s@.take(s@.len() as int) == s@);
}

/// `s` followed by two more characters.
fn extended(s: &Vec<char>, a: char, b: char) -> (r: Vec<char>)
    ensures
        r@ == s@ + seq![a, b],
{
    let mut r: Vec<char> = Vec::new();
    push_all(&mut r, s);
    r.push(a);
    r.push(b);
    assert(r@ =~= s@ + seq![a, b]);
    r
}

/// Appends a value written on one line.
fn push_scalar(out: &mut Vec<char>, v: &Json)
    ensures
        final(out)@ == old(out)@ + yaml_scalar(v.model()),
{
    match v {
        Json::Str(s) => push_yaml_str(out, s.as_str()),
        Json::Array(_) => {
            out.push('[');
            out.push(']');
        },
        Json::Object(_) => {
            out.push('{');
            out.push('}');
        },
        Json::Null => {
            push_str(out, "null");
            proof {
                reveal_strlit("null");
            }
        },
        Json::Bool(b) => {
            if *b {
                push_str(out, "true");
                proof {
                    reveal_strlit("true");
                }
            } else {
                push_str(out, "false");
                proof {
                    reveal_strlit("false");
                }
            }
        },
        Json::Number(n) => push_str(out, n.as_str()),
    }
}

impl Json {
    /// Appends the YAML lines of this value (see `yaml_block`).
    pub fn write_yaml(&self, first: &Vec<char>, pad: &Vec<char>, out: &mut Vec<char>)
        ensures
            final(out)@ == old(out)@ + yaml_block(self.model(), first@, pad@),
        decreases *self, 1nat,
    {
        broadcast use crate::json::group_json_model;

        match self {
            Json::Array(items) => {
                if items.len() > 0 {
                    write_yaml_items(items, first, pad, out);
                    return ;
                }
            },
            Json::Object(fields) => {
                if fields.len() > 0 {
                    write_yaml_members(fields, first, pad, out);
                    return ;
                }
            },
            _ => {},
        }
        push_all(out, first);
        push_scalar(out, self);
        out.push('\n');
    }
}

#[verifier::loop_isolation(false)]
fn write_yaml_items(items: &Vec<Json>, first: &Vec<char>, pad: &Vec<char>, out: &mut Vec<char>)
    ensures
        final(out)@ == old(out)@ + yaml_items(models(items@), first@, pad@),
    decreases *items, 0nat,
{
    let ghost start = out@;
    let ghost ms = models(items@);
    proof {
        lemma_models(items@);
    }
    let inner = extended(pad, ' ', ' ');
    for i in 0..items.len()
        invariant
            ms == models(items@),
            ms.len() == items@.len(),
            forall|j: int| 0 <= j < items@.len() ==> ms[j] == #[trigger] items@[j].model(),
            out@ == start + yaml_items(ms.take(i as int), first@, pad@),
            inner@ == pad@ + seq![' ', ' '],
    {
        assert(ms.take(i + 1).drop_last() == ms.take(i as int));
        assert(ms.take(i + 1).last() == items@[i as int].model());
        let lead = if i == 0 {
            extended(first, '-', ' ')
        } else {
            extended(pad, '-', ' ')
        };
        proof {
            assert(decreases_to!(*items => items[i as int]));
        }
        items[i].write_yaml(&lead, &inner, out);
    }
    assert(ms.take(items@.len() as int) == ms);
}

#[verifier::loop_isolation(false)]
fn write_yaml_members(
    fields: &Vec<(String, Json)>,
    first: &Vec<char>,
    pad: &Vec<char>,
    out: &mut Vec<char>,
)
    ensures
        final(out)@ == old(out)@ + yaml_members(field_models(fields@), first@, pad@),
    decreases *fields, 0nat,
{
    let ghost start = out@;
    let ghost ms = field_models(fields@);
    proof {
        lemma_field_models(fields@);
    }
    let inner = extended(pad, ' ', ' ');
    for i in 0..fields.len()
        invariant
            ms == field_models(fields@),
            ms.len() == fields@.len(),
            forall|j: int|
                0 <= j < fields@.len() ==> ms[j] == (#[trigger] fields@[j].0@, fields@[j].1.model()),
            out@ == start + yaml_members(ms.take(i as int), first@, pad@),
            inner@ == pad@ + seq![' ', ' '],
    {
        assert(ms.take(i + 1).drop_last() == ms.take(i as int));
        assert(ms.take(i + 1).last() == (fields@[i as int].0@, fields@[i as int].1.model()));
        let (k, v) = &fields[i];
        proof {
            assert(decreases_to!(*fields => fields[i as int]));
            assert(decreases_to!(*fields => fields@[i as int].1));
        }
        write_member(k.as_str(), v, if i == 0 { first } else { pad }, &inner, out);
    }
    assert(ms.take(fields@.len() as int) == ms);
}

fn is_block_exec(v: &Json) -> (r: bool)
    ensures
        r == is_block(v.model()),
{
    broadcast use crate::json::group_json_model;

    match v {
        Json::Array(items) => items.len() > 0,
        Json::Object(fs) => fs.len() > 0,
        _ => false,
    }
}

fn write_member(k: &str, v: &Json, lead: &Vec<char>, inner: &Vec<char>, out: &mut Vec<char>)
    ensures
        final(out)@ == old(out)@ + yaml_member(k@, v.model(), lead@, inner@),
    decreases *v, 2nat,
{
    push_all(out, lead);
    push_yaml_str(out, k);
    out.push(':');
    if is_block_exec(v) {
        out.push('\n');
        v.write_yaml(inner, inner, out);
    } else {
        out.push(' ');
        push_scalar(out, v);
        out.push('\n');
    }
}

/// The YAML document of a value.
pub fn to_yaml(v: &Json) -> (r: String)
    ensures
        r@ == yaml_text(v.model()),
{
    let none: Vec<char> = Vec::new();
    let mut out: Vec<char> = Vec::new();
    v.write_yaml(&none, &none, &mut out);
    assert(none@ =~= Seq::<char>::empty());
    string_of(out.as_slice())
}

/// What is printed for a command's output: data as a YAML document, or under `--json` as
/// its compact JSON text and a newline; text as it is, with a newline.
pub open spec fn rendered(out: Output, json: bool) -> Seq<char> {
    match out {
        Output::Data(d) => if json {
            json_string(d.model()) + seq!['\n']
        } else {
            yaml_text(d.model())
        },
        Output::Text(t) => t@ + seq!['\n'],
    }
}

/// The text printed for a command's output (see `rendered`).
pub fn render(out: &Output, json: bool) -> (r: String)
    ensures
        r@ == rendered(*out, json),
{
    match out {
        Output::Data(d) => {
            if json {
                let text = d.to_json_string();
                let mut cs = chars_of(text.as_str());
                cs.push('\n');
                string_of(cs.as_slice())
            } else {
                to_yaml(d)
            }
        },
        Output::Text(t) => {
            let mut cs = chars_of(t.as_str());
            cs.push('\n');
            string_of(cs.as_slice())
        },
    }
}

} // verus!
