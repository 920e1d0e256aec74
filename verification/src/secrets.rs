//! Where API tokens are kept: the OS keystore, or, only when asked for and explicitly
//! allowed, a plaintext file in the configuration directory.

use vstd::prelude::*;
use crate::error::{opt_view, owned, Error, ErrorCode};
use crate::text::{eq_ignore_case, eq_ignore_case_str, opt, trim, trim_str};

verus! {

broadcast use vstd::string::group_string_axioms;

/// The kinds of secret store.
#[derive(Clone, Copy, Debug, PartialEq, Eq, Structural)]
pub enum StoreKind {
    /// The OS keystore.
    Keyring,
    /// A file readable by the user only.
    Plaintext,
}

/// The name a store is reported under as `secretStore`.
pub open spec fn store_name_spec(k: StoreKind) -> Seq<char> {
    match k {
        StoreKind::Keyring => "keyring"@,
        StoreKind::Plaintext => "plaintext"@,
    }
}

impl StoreKind {
    /// The name this store is reported under.
    pub fn name(&self) -> (r: &'static str)
        ensures
            r@ == store_name_spec(*self),
    {
        match self {
            StoreKind::Keyring => "keyring",
            StoreKind::Plaintext => "plaintext",
        }
    }
}

/// The keystore entry of an account.
pub fn account_key(name: &str) -> (r: String)
    ensures
        r@ == "account:"@ + name@,
{
    let mut s = String::from_str("account:");
    s.append(name);
    s
}

/// The message when the plaintext store is asked for but not allowed.
pub const PLAINTEXT_REFUSED: &'static str = "The plaintext secret store was requested but is not allowed.";

/// The remediation when the plaintext store is not allowed.
pub const PLAINTEXT_FIX: &'static str = "Set BUGSINK_ALLOW_PLAINTEXT_STORE=1 to store API tokens unencrypted.";

/// Whether the plaintext store was asked for (`BUGSINK_SECRET_STORE=plaintext`, any case).
pub open spec fn wants_plaintext(requested: Option<Seq<char>>) -> bool {
    requested matches Some(r) && eq_ignore_case(trim(r), "plaintext"@)
}

/// Whether the plaintext store is allowed (`BUGSINK_ALLOW_PLAINTEXT_STORE=1`).
pub open spec fn plaintext_allowed(allowed: Option<Seq<char>>) -> bool {
    allowed matches Some(a) && trim(a) == "1"@
}

/// The store to use from `BUGSINK_SECRET_STORE` and `BUGSINK_ALLOW_PLAINTEXT_STORE`: the
/// plaintext file only when it is both asked for and allowed, an error when it is asked for
/// but not allowed, else the OS keystore.
pub fn choose_store(requested: Option<&str>, allowed: Option<&str>) -> (r: Result<StoreKind, Error>)
    ensures
        wants_plaintext(opt(requested)) && plaintext_allowed(opt(allowed)) ==> r == Ok::<
            StoreKind,
            Error,
        >(StoreKind::Plaintext),
        wants_plaintext(opt(requested)) && !plaintext_allowed(opt(allowed)) ==> (r matches Err(e)
            && e.code == ErrorCode::InvalidInput && e.message@ == PLAINTEXT_REFUSED@ && e.detail is None
            && opt_view(e.remediation) == Some(PLAINTEXT_FIX@)),
        !wants_plaintext(opt(requested)) ==> r == Ok::<StoreKind, Error>(StoreKind::Keyring),
{
    let wants = match requested {
        Some(r) => {
            let t = trim_str(r);
            eq_ignore_case_str(t.as_str(), "plaintext")
        },
        None => false,
    };
    if !wants {
        return Ok(StoreKind::Keyring);
    }
    let ok = match allowed {
        Some(a) => {
            let t = trim_str(a);
            crate::json::eq_str(t.as_str(), "1")
        },
        None => false,
    };
    if ok {
        Ok(StoreKind::Plaintext)
    } else {
        Err(Error::invalid(owned(PLAINTEXT_REFUSED)).fix(owned(PLAINTEXT_FIX)))
    }
}

} // verus!
