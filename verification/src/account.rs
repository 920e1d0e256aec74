//! Which account a command runs against. Flags and environment variables can name an
//! endpoint and token directly; otherwise `--account <name>` picks a configured account,
//! whose token comes from the OS keystore.
//!
//! Resolution reads the configuration and the keystore, which the caller does: `resolve`
//! decides from flags and environment alone, `Pending::with_config` from the configuration,
//! and `Located::with_key` from what the keystore holds.

use vstd::prelude::*;
use crate::client::{base_url, join, Client};
use crate::config::{sorted_by_name, AccountConfig, Config, find_account};
use crate::error::{opt_view, owned, Error, ErrorCode};
use crate::text::{cat3, is_blank, is_blank_str, opt, push_str, string_of, trim, trim_str};

verus! {

broadcast use vstd::string::group_string_axioms;

/// The credentials a command runs with.
#[derive(Debug)]
pub struct Resolved {
    /// The account name, or `direct` for credentials given by flags or environment.
    pub name: String,
    pub endpoint: String,
    pub api_token: String,
}

impl Resolved {
    /// A client for these credentials.
    pub fn client(&self) -> (r: Client)
        ensures
            r.base@ == base_url(self.endpoint@),
            r.auth@ == "Bearer "@ + self.api_token@,
    {
        Client::new(self.endpoint.as_str(), self.api_token.as_str())
    }
}

/// A flag value trimmed, and dropped when empty.
pub open spec fn clean(s: Option<Seq<char>>) -> Option<Seq<char>> {
    match s {
        Some(t) => if trim(t).len() > 0 {
            Some(trim(t))
        } else {
            None
        },
        None => None,
    }
}

/// An environment value, dropped when blank (and otherwise kept as it is).
pub open spec fn nonblank(s: Option<Seq<char>>) -> Option<Seq<char>> {
    match s {
        Some(t) => if !is_blank(t) {
            Some(t)
        } else {
            None
        },
        None => None,
    }
}

/// `a`, or else `b`.
pub open spec fn or_else(a: Option<Seq<char>>, b: Option<Seq<char>>) -> Option<Seq<char>> {
    if a is Some {
        a
    } else {
        b
    }
}

/// Resolution that needs the configuration to go on.
#[derive(Debug)]
pub struct Pending {
    /// The account asked for, trimmed.
    pub requested: Option<String>,
    /// The endpoint from flags or environment.
    pub endpoint: Option<String>,
    /// The token from flags or environment.
    pub token: Option<String>,
}

/// A configured account whose token is still to be read from the keystore.
#[derive(Debug)]
pub struct Located {
    pub name: String,
    pub endpoint: String,
}

fn clean_exec(s: Option<&str>) -> (r: Option<String>)
    ensures
        opt_view(r) == clean(opt(s)),
{
    match s {
        Some(t) => {
            let x = trim_str(t);
            if x.as_str().is_empty() {
                None
            } else {
                Some(x)
            }
        },
        None => None,
    }
}

fn nonblank_exec(s: Option<&str>) -> (r: Option<String>)
    ensures
        opt_view(r) == nonblank(opt(s)),
{
    match s {
        Some(t) => if is_blank_str(t) {
            None
        } else {
            Some(owned(t))
        },
        None => None,
    }
}

/// What resolution from flags and environment gives: the direct credentials when no
/// account is named and both an endpoint and a token are known (a flag before the
/// environment), else what is known so far for the configuration to settle.
pub open spec fn resolves(
    requested: Option<Seq<char>>,
    explicit_endpoint: Option<Seq<char>>,
    explicit_token: Option<Seq<char>>,
    env_endpoint: Option<Seq<char>>,
    env_token: Option<Seq<char>>,
    r: Result<Resolved, Pending>,
) -> bool {
    let req = clean(requested);
    let ep = or_else(clean(explicit_endpoint), nonblank(env_endpoint));
    let tok = or_else(clean(explicit_token), nonblank(env_token));
    match r {
        Ok(res) => req is None && ep == Some(res.endpoint@) && tok == Some(res.api_token@)
            && res.name@ == "direct"@,
        Err(p) => !(req is None && ep is Some && tok is Some) && opt_view(p.requested) == req
            && opt_view(p.endpoint) == ep && opt_view(p.token) == tok,
    }
}

/// Decides from flags and environment: with no account named and both an endpoint and a
/// token given (flags first, then environment), the credentials are used directly under
/// the name `direct`; otherwise resolution goes on with the configuration.
pub fn resolve(
    requested: Option<&str>,
    explicit_endpoint: Option<&str>,
    explicit_token: Option<&str>,
    env_endpoint: Option<&str>,
    env_token: Option<&str>,
) -> (r: Result<Resolved, Pending>)
    ensures
        resolves(
            opt(requested),
            opt(explicit_endpoint),
            opt(explicit_token),
            opt(env_endpoint),
            opt(env_token),
            r,
        ),
{
    let ep = match clean_exec(explicit_endpoint) {
        Some(e) => Some(e),
        None => nonblank_exec(env_endpoint),
    };
    let tok = match clean_exec(explicit_token) {
        Some(t) => Some(t),
        None => nonblank_exec(env_token),
    };
    let req = clean_exec(requested);
    if req.is_none() && ep.is_some() && tok.is_some() {
        return Ok(
            Resolved { name: owned("direct"), endpoint: ep.unwrap(), api_token: tok.unwrap() },
        );
    }
    Err(Pending { requested: req, endpoint: ep, token: tok })
}

/// Flags win over the environment: with no account named, a non-blank `--api-token` is the
/// token used (trimmed) whatever `BUGSINK_API_TOKEN` holds, and a non-blank `--endpoint` is
/// the endpoint used whatever `BUGSINK_ENDPOINT` holds, as soon as both an endpoint and a
/// token are known. A blank or missing flag leaves the environment's value in force.
pub proof fn lemma_flags_before_environment(
    requested: Option<Seq<char>>,
    explicit_endpoint: Option<Seq<char>>,
    explicit_token: Option<Seq<char>>,
    env_endpoint: Option<Seq<char>>,
    env_token: Option<Seq<char>>,
    r: Result<Resolved, Pending>,
)
    requires
        resolves(requested, explicit_endpoint, explicit_token, env_endpoint, env_token, r),
        requested is None || trim(requested.unwrap()).len() == 0,
        (explicit_endpoint is Some && trim(explicit_endpoint.unwrap()).len() > 0) || (
        env_endpoint is Some && !is_blank(env_endpoint.unwrap())),
        (explicit_token is Some && trim(explicit_token.unwrap()).len() > 0) || (env_token is Some
            && !is_blank(env_token.unwrap())),
    ensures
        r is Ok,
        r->Ok_0.name@ == "direct"@,
        explicit_token is Some && trim(explicit_token.unwrap()).len() > 0 ==> r->Ok_0.api_token@
            == trim(explicit_token.unwrap()),
        !(explicit_token is Some && trim(explicit_token.unwrap()).len() > 0) ==> r->Ok_0.api_token@
            == env_token.unwrap(),
        explicit_endpoint is Some && trim(explicit_endpoint.unwrap()).len() > 0 ==> r->Ok_0.endpoint@
            == trim(explicit_endpoint.unwrap()),
        !(explicit_endpoint is Some && trim(explicit_endpoint.unwrap()).len() > 0) ==> r->Ok_0.endpoint@
            == env_endpoint.unwrap(),
{
}

/// The description when no account is configured.
pub const NO_ACCOUNTS: &'static str = "No accounts are configured yet. Run 'bugsink accounts add <name> --endpoint <url> --api-token <token>'.";

/// How one account is listed: `name (endpoint)`, or `name (identity, endpoint)` when it has
/// an identity.
pub open spec fn account_entry(name: Seq<char>, a: AccountConfig) -> Seq<char> {
    if is_blank(a.identity@) {
        name + " ("@ + a.endpoint@ + ")"@
    } else {
        name + " ("@ + a.identity@ + ", "@ + a.endpoint@ + ")"@
    }
}

/// The listing entries of accounts, in their order.
pub open spec fn entries(accounts: Seq<(String, AccountConfig)>) -> Seq<Seq<char>> {
    Seq::new(accounts.len(), |i: int| account_entry(accounts[i].0@, accounts[i].1))
}

/// The description of the configured accounts that errors carry.
pub open spec fn describes(config: Config, text: Seq<char>) -> bool {
    if config.accounts@.len() == 0 {
        text == NO_ACCOUNTS@
    } else {
        exists|s: Seq<(String, AccountConfig)>|
            s.to_multiset() == config.accounts@.to_multiset() && sorted_by_name(s) && text
                == "Configured accounts: "@ + join(entries(s), ", "@)
    }
}

fn push_entry(out: &mut Vec<char>, name: &str, a: &AccountConfig)
    ensures
        final(out)@ == old(out)@ + account_entry(name@, *a),
{
    push_str(out, name);
    push_str(out, " (");
    if is_blank_str(a.identity.as_str()) {
        push_str(out, a.endpoint.as_str());
    } else {
        push_str(out, a.identity.as_str());
        push_str(out, ", ");
        push_str(out, a.endpoint.as_str());
    }
    push_str(out, ")");
}

/// Lists the configured accounts in name order, or says that there are none.
pub fn describe(config: &Config) -> (r: String)
    ensures
        describes(*config, r@),
{
    if config.accounts.len() == 0 {
        return owned(NO_ACCOUNTS);
    }
    let sorted = config.sorted();
    let ghost es = entries(sorted@);
    let mut out: Vec<char> = Vec::new();
    push_str(&mut out, "Configured accounts: ");
    let ghost start = out@;
    for i in 0..sorted.len()
        invariant
            es == entries(sorted@),
            out@ == start + join(es.take(i as int), ", "@),
    {
        assert(es.take(i + 1).drop_last() == es.take(i as int));
        if i > 0 {
            push_str(&mut out, ", ");
        }
        push_entry(&mut out, sorted[i].0.as_str(), &sorted[i].1);
    }
    assert(es.take(sorted@.len() as int) == es);
    string_of(out.as_slice())
}

impl Pending {
    /// Goes on with the configuration: the named account, or the reason there is none.
    pub fn with_config(&self, config: &Config) -> (r: Result<Located, Error>)
        ensures
            match self.requested {
                None => r matches Err(e) && (if self.endpoint is None && self.token is Some {
                    e.code == ErrorCode::InvalidInput && e.message@
                        == "Bugsink URL required. Use --endpoint or set BUGSINK_ENDPOINT."@
                        && e.detail is None && e.remediation is None
                } else if self.endpoint is Some && self.token is None {
                    e.code == ErrorCode::InvalidInput && e.message@
                        == "API token required. Use --api-token or set BUGSINK_API_TOKEN."@
                        && e.detail is None && e.remediation is None
                } else {
                    e.code == ErrorCode::NoAccount && e.message@
                        == "No account specified. Pass --account <name>."@ && (e.detail matches Some(
                        d,
                    ) && describes(*config, d@)) && opt_view(e.remediation) == Some(
                        "bugsink accounts list"@,
                    )
                }),
                Some(req) => match find_account(config.accounts@, req@) {
                    None => r matches Err(e) && e.code == ErrorCode::NoAccount && e.message@
                        == "No account named '"@ + req@ + "'."@ && (e.detail matches Some(d)
                        && describes(*config, d@)) && opt_view(e.remediation) == Some(
                        "bugsink accounts list"@,
                    ),
                    Some(i) => r matches Ok(l) && l.name@ == config.accounts@[i].0@ && l.endpoint@
                        == config.accounts@[i].1.endpoint@,
                },
            },
    {
        match &self.requested {
            None => {
                if self.endpoint.is_none() && self.token.is_some() {
                    return Err(
                        Error::invalid(
                            owned("Bugsink URL required. Use --endpoint or set BUGSINK_ENDPOINT."),
                        ),
                    );
                }
                if self.endpoint.is_some() && self.token.is_none() {
                    return Err(
                        Error::invalid(
                            owned("API token required. Use --api-token or set BUGSINK_API_TOKEN."),
                        ),
                    );
                }
                Err(
                    Error::new(
                        ErrorCode::NoAccount,
                        owned("No account specified. Pass --account <name>."),
                    ).detail(describe(config)).fix(owned("bugsink accounts list")),
                )
            },
            Some(req) => match config.find(req.as_str()) {
                None => Err(
                    Error::new(ErrorCode::NoAccount, cat3("No account named '", req.as_str(), "'."))
                        .detail(describe(config)).fix(owned("bugsink accounts list")),
                ),
                Some((name, account)) => Ok(
                    Located { name: owned(name.as_str()), endpoint: owned(account.endpoint.as_str()) },
                ),
            },
        }
    }
}

impl Located {
    /// Finishes with what the keystore holds for the account: a token that is not blank is
    /// used as it is; none, or a blank one, is an `auth_required` error.
    pub fn with_key(self, key: Option<String>) -> (r: Result<Resolved, Error>)
        ensures
            match key {
                Some(k) if !is_blank(k@) => r matches Ok(res) && res.name@ == self.name@
                    && res.endpoint@ == self.endpoint@ && res.api_token@ == k@,
                _ => r matches Err(e) && e.code == ErrorCode::AuthRequired && e.message@
                    == "Account '"@ + self.name@ + "' has no stored API token."@ && opt_view(
                    e.detail,
                ) == Some("The config entry exists but the keystore has nothing under it."@)
                    && opt_view(e.remediation) == Some(
                    "bugsink accounts add "@ + self.name@ + " --api-token <token>"@,
                ),
            },
    {
        match key {
            Some(k) => {
                if !is_blank_str(k.as_str()) {
                    return Ok(Resolved { name: self.name, endpoint: self.endpoint, api_token: k });
                }
            },
            None => {},
        }
        Err(
            Error::new(
                ErrorCode::AuthRequired,
                cat3("Account '", self.name.as_str(), "' has no stored API token."),
            ).detail(owned("The config entry exists but the keystore has nothing under it.")).fix(
                cat3("bugsink accounts add ", self.name.as_str(), " --api-token <token>"),
            ),
        )
    }
}

} // verus!
