//! The errors the CLI reports: a stable code, a message, and optional detail and remediation.

use vstd::prelude::*;
use crate::json::{Json, JsonValue};

verus! {

broadcast use vstd::string::group_string_axioms;

/// The stable error classes, each with its own exit code.
#[derive(Clone, Copy, Debug, PartialEq, Eq, Structural)]
pub enum ErrorCode {
    /// Unclassified failure.
    Error,
    /// Network connectivity or a server fault; safe to retry once.
    Network,
    /// No token, or the server rejected it.
    AuthRequired,
    /// The resource does not exist.
    NotFound,
    /// The server throttled the request.
    RateLimited,
    /// The call itself is malformed.
    InvalidInput,
    /// The requested account is not configured.
    NoAccount,
}

/// The exit code of each error class.
pub open spec fn exit_code_of(c: ErrorCode) -> i32 {
    match c {
        ErrorCode::Error => 1,
        ErrorCode::Network => 2,
        ErrorCode::AuthRequired => 3,
        ErrorCode::NotFound => 4,
        ErrorCode::RateLimited => 5,
        ErrorCode::InvalidInput => 6,
        ErrorCode::NoAccount => 7,
    }
}

/// The symbol of each error class in error envelopes.
pub open spec fn code_name(c: ErrorCode) -> Seq<char> {
    match c {
        ErrorCode::Error => "error"@,
        ErrorCode::Network => "network"@,
        ErrorCode::AuthRequired => "auth_required"@,
        ErrorCode::NotFound => "not_found"@,
        ErrorCode::RateLimited => "rate_limited"@,
        ErrorCode::InvalidInput => "invalid_input"@,
        ErrorCode::NoAccount => "no_account"@,
    }
}

impl ErrorCode {
    /// The process exit code for this class: 1 to 7.
    pub fn exit_code(&self) -> (r: i32)
        ensures
            r == exit_code_of(*self),
    {
        match self {
            ErrorCode::Error => 1,
            ErrorCode::Network => 2,
            ErrorCode::AuthRequired => 3,
            ErrorCode::NotFound => 4,
            ErrorCode::RateLimited => 5,
            ErrorCode::InvalidInput => 6,
            ErrorCode::NoAccount => 7,
        }
    }

    /// The symbol of this class, e.g. `auth_required`.
    pub fn name(&self) -> (r: &'static str)
        ensures
            r@ == code_name(*self),
    {
        match self {
            ErrorCode::Error => "error",
            ErrorCode::Network => "network",
            ErrorCode::AuthRequired => "auth_required",
            ErrorCode::NotFound => "not_found",
            ErrorCode::RateLimited => "rate_limited",
            ErrorCode::InvalidInput => "invalid_input",
            ErrorCode::NoAccount => "no_account",
        }
    }
}

/// Every error class has its own exit code, between 1 and 7, and its own symbol.
pub proof fn lemma_exit_codes_distinct(a: ErrorCode, b: ErrorCode)
    ensures
        1 <= exit_code_of(a) <= 7,
        a != b ==> exit_code_of(a) != exit_code_of(b),
        a != b ==> code_name(a) != code_name(b),
{
    reveal_strlit("error");
    reveal_strlit("network");
    reveal_strlit("auth_required");
    reveal_strlit("not_found");
    reveal_strlit("rate_limited");
    reveal_strlit("invalid_input");
    reveal_strlit("no_account");
    if a != b && code_name(a) == code_name(b) {
        let x = code_name(a);
        let y = code_name(b);
        assert(x.len() != y.len() || x[0] != y[0] || x[1] != y[1] || x[2] != y[2]);
    }
}

/// An error as the CLI reports it.
#[derive(Debug)]
pub struct Error {
    pub code: ErrorCode,
    pub message: String,
    pub detail: Option<String>,
    pub remediation: Option<String>,
}

/// An owned copy of a string slice.
pub fn owned(s: &str) -> (r: String)
    ensures
        r@ == s@,
{
    String::from_str(s)
}

impl Error {
    /// An error of the given class, with no detail and no remediation.
    pub fn new(code: ErrorCode, message: String) -> (r: Error)
        ensures
            r.code == code,
            r.message@ == message@,
            r.detail is None,
            r.remediation is None,
    {
        Error { code, message, detail: None, remediation: None }
    }

    /// An `invalid_input` error.
    pub fn invalid(message: String) -> (r: Error)
        ensures
            r.code == ErrorCode::InvalidInput,
            r.message@ == message@,
            r.detail is None,
            r.remediation is None,
    {
        Error::new(ErrorCode::InvalidInput, message)
    }

    /// An unclassified error.
    pub fn other(message: String) -> (r: Error)
        ensures
            r.code == ErrorCode::Error,
            r.message@ == message@,
            r.detail is None,
            r.remediation is None,
    {
        Error::new(ErrorCode::Error, message)
    }

    /// The same error with `detail` attached.
    pub fn detail(self, detail: String) -> (r: Error)
        ensures
            r.code == self.code,
            r.message@ == self.message@,
            r.detail matches Some(d) && d@ == detail@,
            r.remediation == self.remediation,
    {
        Error { detail: Some(detail), ..self }
    }

    /// The same error with a remediation attached.
    pub fn fix(self, remediation: String) -> (r: Error)
        ensures
            r.code == self.code,
            r.message@ == self.message@,
            r.detail == self.detail,
            r.remediation matches Some(f) && f@ == remediation@,
    {
        Error { remediation: Some(remediation), ..self }
    }

    /// The exit code the process ends with for this error.
    pub fn exit_code(&self) -> (r: i32)
        ensures
            r == exit_code_of(self.code),
    {
        self.code.exit_code()
    }

    /// The envelope written to stderr: `code`, `error`, and `detail` and `remediation`
    /// where the error has them.
    pub fn envelope(&self) -> (r: Json)
        ensures
            r.model() == envelope_model(
                self.code,
                self.message@,
                opt_view(self.detail),
                opt_view(self.remediation),
            ),
    {
        broadcast use crate::json::group_json_model;

        let mut fields: Vec<(String, Json)> = Vec::new();
        fields.push((owned("code"), Json::text(self.code.name())));
        fields.push((owned("error"), Json::text(self.message.as_str())));
        match &self.detail {
            Some(d) => fields.push((owned("detail"), Json::text(d.as_str()))),
            None => {},
        }
        match &self.remediation {
            Some(f) => fields.push((owned("remediation"), Json::text(f.as_str()))),
            None => {},
        }
        let r = Json::Object(fields);
        assert(r.model() == JsonValue::Object(crate::json::field_models(fields@)));
        assert(crate::json::field_models(fields@) =~= envelope_fields(
            self.code,
            self.message@,
            opt_view(self.detail),
            opt_view(self.remediation),
        ));
        r
    }
}

/// The message of a command-line usage error: the first line of the parser's report,
/// without a leading `error: `.
pub open spec fn usage_message(text: Seq<char>) -> Seq<char> {
    let line = crate::text::before_char(text, '\n');
    if "error: "@.is_prefix_of(line) {
        line.skip(7)
    } else {
        line
    }
}

/// The error for a command line the parser refused: `invalid_input`, with the first line of
/// the parser's report as message and the whole report as detail.
pub fn usage_error(text: &str) -> (r: Error)
    ensures
        r.code == ErrorCode::InvalidInput,
        r.message@ == usage_message(text@),
        opt_view(r.detail) == Some(crate::text::trim_end(text@)),
        r.remediation is None,
{
    let cs = crate::text::chars_of(text);
    let end = match crate::text::find_char(&cs, '\n') {
        Some(i) => i,
        None => cs.len(),
    };
    proof {
        crate::text::lemma_find(cs@, '\n');
    }
    let line = crate::text::slice_of(&cs, 0, end);
    assert(line@ == crate::text::before_char(text@, '\n'));
    let prefix = crate::text::chars_of("error: ");
    proof {
        reveal_strlit("error: ");
    }
    let mut starts = prefix.len() <= line.len();
    let mut i: usize = 0;
    while starts && i < prefix.len()
        invariant
            prefix@ == "error: "@,
            starts ==> prefix@.len() <= line@.len(),
            i <= prefix@.len(),
            starts ==> forall|j: int| 0 <= j < i ==> prefix@[j] == line@[j],
            !starts ==> !"error: "@.is_prefix_of(line@),
        decreases prefix.len() - i,
    {
        if prefix[i] != line[i] {
            starts = false;
        }
        i += 1;
    }
    let message = if starts {
        assert(line@.take(7) =~= prefix@);
        crate::text::slice_of(&line, 7, line.len())
    } else {
        line
    };
    assert(starts ==> message@ == line@.skip(7));
    Error::invalid(crate::text::string_of(message.as_slice())).detail(crate::text::trim_end_str(text))
}

/// Whether `e` is a plain `invalid_input` error with the given message.
pub open spec fn is_invalid(e: Error, message: Seq<char>) -> bool {
    &&& e.code == ErrorCode::InvalidInput
    &&& e.message@ == message
    &&& e.detail is None
    &&& e.remediation is None
}

/// The view of an optional string.
pub open spec fn opt_view(s: Option<String>) -> Option<Seq<char>> {
    match s {
        Some(t) => Some(t@),
        None => None,
    }
}

/// The members of an error envelope.
pub open spec fn envelope_fields(
    code: ErrorCode,
    message: Seq<char>,
    detail: Option<Seq<char>>,
    remediation: Option<Seq<char>>,
) -> Seq<(Seq<char>, JsonValue)> {
    let base = seq![("code"@, JsonValue::Str(code_name(code))), ("error"@, JsonValue::Str(message))];
    let with_detail = match detail {
        Some(d) => base.push(("detail"@, JsonValue::Str(d))),
        None => base,
    };
    match remediation {
        Some(f) => with_detail.push(("remediation"@, JsonValue::Str(f))),
        None => with_detail,
    }
}

/// An error envelope.
pub open spec fn envelope_model(
    code: ErrorCode,
    message: Seq<char>,
    detail: Option<Seq<char>>,
    remediation: Option<Seq<char>>,
) -> JsonValue {
    JsonValue::Object(envelope_fields(code, message, detail, remediation))
}

} // verus!
