//! `accounts add|list|test|remove`: managing what `--account` refers to.

use vstd::prelude::*;
use crate::account::Resolved;
use crate::client::strip_slashes;
use crate::commands::put;
use crate::config::{find_account, AccountConfig, Config};
use crate::error::{is_invalid, opt_view, owned, Error, ErrorCode};
use crate::json::{field_models, lemma_field_models, models, lemma_models, Json, JsonValue};
use crate::text::{
    before_char, cat3, opt,
    chars_of, eq_ignore_case, eq_ignore_case_str, find_char, lemma_find, slice_of, string_of, trim,
    trim_str,
};

verus! {

broadcast use {vstd::string::group_string_axioms, crate::json::group_json_model};

/// An account name as given: trimmed, and refused when empty. It is checked before the
/// configuration or the keystore is opened.
pub fn account_name(name: &str) -> (r: Result<String, Error>)
    ensures
        if trim(name@).len() == 0 {
            r matches Err(e) && is_invalid(e, "An account name is required."@)
        } else {
            r matches Ok(n) && n@ == trim(name@)
        },
{
    let t = trim_str(name);
    if t.as_str().is_empty() {
        return Err(Error::invalid(owned("An account name is required.")));
    }
    Ok(t)
}

/// The name an account is stored under, and whether it already exists: the requested
/// name trimmed, or the existing account's own name when one matches (ignoring ASCII case).
/// An existing account is only replaced with `--force`.
pub fn add_target(config: &Config, name: &str, force: bool) -> (r: Result<(String, bool), Error>)
    ensures
        ({
            let t = trim(name@);
            if t.len() == 0 {
                r matches Err(e) && is_invalid(e, "An account name is required."@)
            } else {
                match find_account(config.accounts@, t) {
                    None => r matches Ok((n, existed)) && n@ == t && !existed,
                    Some(i) => {
                        let existing = config.accounts@[i].0@;
                        if force {
                            r matches Ok((n, existed)) && n@ == existing && existed
                        } else {
                            r matches Err(e) && e.code == ErrorCode::InvalidInput && e.message@
                                == "An account named '"@ + existing + "' already exists."@
                                && e.detail is None && opt_view(e.remediation) == Some(
                                "Pick a different name, or replace its credentials: bugsink accounts add "@
                                    + existing + " --endpoint <url> --api-token <token> --force"@,
                            )
                        }
                    },
                }
            }
        }),
{
    let t = trim_str(name);
    if t.as_str().is_empty() {
        return Err(Error::invalid(owned("An account name is required.")));
    }
    match config.find(t.as_str()) {
        None => Ok((t, false)),
        Some((existing, _)) => {
            if !force {
                return Err(
                    Error::invalid(cat3("An account named '", existing.as_str(), "' already exists."))
                        .fix(
                        cat3(
                            "Pick a different name, or replace its credentials: bugsink accounts add ",
                            existing.as_str(),
                            " --endpoint <url> --api-token <token> --force",
                        ),
                    ),
                );
            }
            Ok((owned(existing.as_str()), true))
        },
    }
}

/// A value from a flag, or else from the environment, trimmed and dropped when empty; the
/// environment is consulted only when the flag is absent.
pub open spec fn pick_spec(explicit: Option<Seq<char>>, env: Option<Seq<char>>) -> Option<Seq<char>> {
    let v = if explicit is Some {
        explicit
    } else {
        env
    };
    match v {
        Some(x) => if trim(x).len() > 0 {
            Some(trim(x))
        } else {
            None
        },
        None => None,
    }
}

/// The endpoint or token to use, from a flag or else the environment (see `pick_spec`).
pub fn pick(explicit: Option<&str>, env: Option<&str>) -> (r: Option<String>)
    ensures
        opt_view(r) == pick_spec(opt(explicit), opt(env)),
{
    let v = match explicit {
        Some(x) => Some(x),
        None => env,
    };
    match v {
        Some(x) => {
            let t = trim_str(x);
            if t.as_str().is_empty() {
                None
            } else {
                Some(t)
            }
        },
        None => None,
    }
}

/// `s` without every leading repetition of `p` (`trim_start_matches`).
pub open spec fn strip_prefix_all(s: Seq<char>, p: Seq<char>) -> Seq<char>
    decreases s.len(),
{
    if p.len() > 0 && p.len() <= s.len() && s.take(p.len() as int) == p {
        strip_prefix_all(s.skip(p.len() as int), p)
    } else {
        s
    }
}

/// The host part of an endpoint: without scheme, trailing slashes and path.
pub open spec fn host_label_spec(endpoint: Seq<char>) -> Seq<char> {
    before_char(
        strip_slashes(strip_prefix_all(strip_prefix_all(endpoint, "https://"@), "http://"@)),
        '/',
    )
}

fn strip_prefix_exec(s: Vec<char>, p: &str) -> (r: Vec<char>)
    ensures
        r@ == strip_prefix_all(s@, p@),
{
    let pc = chars_of(p);
    let mut cur = s;
    if pc.len() == 0 {
        return cur;
    }
    loop
        invariant
            pc@ == p@,
            pc@.len() > 0,
            strip_prefix_all(s@, p@) == strip_prefix_all(cur@, p@),
        decreases cur@.len(),
    {
        if pc.len() > cur.len() {
            return cur;
        }
        let mut i: usize = 0;
        while i < pc.len()
            invariant
                pc@ == p@,
                pc@.len() > 0,
                strip_prefix_all(s@, p@) == strip_prefix_all(cur@, p@),
                pc@.len() <= cur@.len(),
                i <= pc@.len(),
                forall|j: int| 0 <= j < i ==> cur@[j] == pc@[j],
            decreases pc.len() - i,
        {
            if cur[i] != pc[i] {
                assert(cur@.take(pc@.len() as int)[i as int] != pc@[i as int]);
                return cur;
            }
            i += 1;
        }
        assert(cur@.take(pc@.len() as int) =~= pc@);
        let n = cur.len();
        cur = slice_of(&cur, pc.len(), n);
    }
}

/// The host part of an endpoint, used as the account's identity.
pub fn host_label(endpoint: &str) -> (r: String)
    ensures
        r@ == host_label_spec(endpoint@),
{
    let cs = chars_of(endpoint);
    let a = strip_prefix_exec(cs, "https://");
    let b = strip_prefix_exec(a, "http://");
    let mut end = b.len();
    assert(b@.take(b@.len() as int) == b@);
    while end > 0 && b[end - 1] == '/'
        invariant
            end <= b@.len(),
            strip_slashes(b@) == strip_slashes(b@.take(end as int)),
        decreases end,
    {
        assert(b@.take(end as int).drop_last() == b@.take(end - 1));
        end -= 1;
    }
    assert(b@.take(b@.len() as int) == b@);
    let c = slice_of(&b, 0, end);
    proof {
        lemma_find(c@, '/');
    }
    let r = match find_char(&c, '/') {
        Some(i) => slice_of(&c, 0, i),
        None => c,
    };
    proof {
        reveal_strlit("https://");
        reveal_strlit("http://");
    }
    string_of(r.as_slice())
}

/// A token read from stdin: the line trimmed, refused when empty.
pub fn stdin_token(line: &str) -> (r: Result<String, Error>)
    ensures
        if trim(line@).len() == 0 {
            r matches Err(e) && is_invalid(e, "--api-token-stdin was given but stdin was empty."@)
        } else {
            r matches Ok(k) && k@ == trim(line@)
        },
{
    let t = trim_str(line);
    if t.as_str().is_empty() {
        return Err(Error::invalid(owned("--api-token-stdin was given but stdin was empty.")));
    }
    Ok(t)
}

/// Where the API token comes from, in order: the first line of stdin when
/// `--api-token-stdin` was given (`stdin_line`, refused when blank), else `--api-token`
/// or `BUGSINK_API_TOKEN` (see `pick_spec`). `Ok(None)`: none of them gave a token, so
/// it is asked for at the terminal.
pub fn token_choice(stdin_line: Option<&str>, flag: Option<&str>, env: Option<&str>) -> (r: Result<
    Option<String>,
    Error,
>)
    ensures
        match stdin_line {
            Some(line) => if trim(line@).len() == 0 {
                r matches Err(e) && is_invalid(e, "--api-token-stdin was given but stdin was empty."@)
            } else {
                r matches Ok(Some(k)) && k@ == trim(line@)
            },
            None => r matches Ok(k) && opt_view(k) == pick_spec(opt(flag), opt(env)),
        },
{
    match stdin_line {
        Some(line) => match stdin_token(line) {
            Ok(k) => Ok(Some(k)),
            Err(e) => Err(e),
        },
        None => Ok(pick(flag, env)),
    }
}

/// The error when an endpoint is needed and there is no terminal to prompt on.
pub fn no_endpoint_terminal() -> (r: Error)
    ensures
        r.code == ErrorCode::InvalidInput,
        r.message@ == "No endpoint URL given and no terminal to prompt on."@,
        r.detail is None,
        opt_view(r.remediation) == Some("Pass --endpoint <URL> or set BUGSINK_ENDPOINT"@),
{
    Error::invalid(owned("No endpoint URL given and no terminal to prompt on.")).fix(
        owned("Pass --endpoint <URL> or set BUGSINK_ENDPOINT"),
    )
}

/// The error when `accounts add` needs a token and there is no terminal to prompt on.
pub fn no_token_terminal(name: &str) -> (r: Error)
    ensures
        r.code == ErrorCode::InvalidInput,
        r.message@ == "No API token given and no terminal to prompt on."@,
        r.detail is None,
        opt_view(r.remediation) == Some(
            "pbpaste | bugsink accounts add "@ + name@ + " --api-token-stdin"@,
        ),
{
    Error::invalid(owned("No API token given and no terminal to prompt on.")).fix(
        cat3("pbpaste | bugsink accounts add ", name, " --api-token-stdin"),
    )
}

/// The object printed after storing credentials.
pub open spec fn stored_model(
    status: Seq<char>,
    name: Seq<char>,
    endpoint: Seq<char>,
    identity: Seq<char>,
    verified: bool,
    store: Seq<char>,
    config_dir: Seq<char>,
) -> JsonValue {
    JsonValue::Object(
        seq![
            ("status"@, JsonValue::Str(status)),
            ("name"@, JsonValue::Str(name)),
            ("endpoint"@, JsonValue::Str(endpoint)),
            ("identity"@, JsonValue::Str(identity)),
            ("verified"@, JsonValue::Bool(verified)),
            ("secretStore"@, JsonValue::Str(store)),
            ("configDir"@, JsonValue::Str(config_dir)),
            ("nextStep"@, JsonValue::Str("bugsink projects list --account "@ + name)),
        ],
    )
}

/// The object printed after storing credentials, with the given status word.
pub fn stored(
    status: &str,
    name: &str,
    endpoint: &str,
    identity: &str,
    verified: bool,
    store: &str,
    config_dir: &str,
) -> (r: Json)
    ensures
        r.model() == stored_model(status@, name@, endpoint@, identity@, verified, store@, config_dir@),
{
    let mut fs: Vec<(String, Json)> = Vec::new();
    proof {
        lemma_field_models(fs@);
    }
    put(&mut fs, "status", Json::text(status));
    put(&mut fs, "name", Json::text(name));
    put(&mut fs, "endpoint", Json::text(endpoint));
    put(&mut fs, "identity", Json::text(identity));
    put(&mut fs, "verified", Json::Bool(verified));
    put(&mut fs, "secretStore", Json::text(store));
    put(&mut fs, "configDir", Json::text(config_dir));
    let mut next = String::from_str("bugsink projects list --account ");
    next.append(name);
    put(&mut fs, "nextStep", Json::Str(next));
    assert(field_models(fs@) =~= stored_model(
        status@,
        name@,
        endpoint@,
        identity@,
        verified,
        store@,
        config_dir@,
    )->Object_0);
    Json::Object(fs)
}

/// The object printed by `accounts add`: status `added`, or `replaced` for an account that
/// existed.
pub fn added(
    existed: bool,
    name: &str,
    endpoint: &str,
    identity: &str,
    verified: bool,
    store: &str,
    config_dir: &str,
) -> (r: Json)
    ensures
        r.model() == stored_model(
            if existed {
                "replaced"@
            } else {
                "added"@
            },
            name@,
            endpoint@,
            identity@,
            verified,
            store@,
            config_dir@,
        ),
{
    let status = if existed { "replaced" } else { "added" };
    stored(status, name, endpoint, identity, verified, store, config_dir)
}

/// What reading an account's token from the keystore gave.
#[derive(Debug)]
pub enum KeyRead {
    /// The keystore answered, with or without a token.
    Read(Option<String>),
    /// The keystore could not be read.
    Failed,
}

/// The key status of an account as far as the keystore decides it, or the token to check
/// against the API.
#[derive(Debug)]
pub enum KeyStatus {
    Known(String),
    Probe(String),
}

/// `unreadable` when the keystore failed, `missing_key` when it holds no token or a blank
/// one, `stored` when it holds one and no check was asked for; with `--check` the token is
/// to be tried against the API.
pub fn key_status(read: &KeyRead, check: bool) -> (r: KeyStatus)
    ensures
        match read {
            KeyRead::Failed => r matches KeyStatus::Known(s) && s@ == "unreadable"@,
            KeyRead::Read(k) => match k {
                Some(key) if !crate::text::is_blank(key@) => if check {
                    r matches KeyStatus::Probe(t) && t@ == key@
                } else {
                    r matches KeyStatus::Known(s) && s@ == "stored"@
                },
                _ => r matches KeyStatus::Known(s) && s@ == "missing_key"@,
            },
        },
{
    match read {
        KeyRead::Failed => KeyStatus::Known(owned("unreadable")),
        KeyRead::Read(k) => match k {
            Some(key) => {
                if crate::text::is_blank_str(key.as_str()) {
                    KeyStatus::Known(owned("missing_key"))
                } else if check {
                    KeyStatus::Probe(owned(key.as_str()))
                } else {
                    KeyStatus::Known(owned("stored"))
                }
            },
            None => KeyStatus::Known(owned("missing_key")),
        },
    }
}

/// The key status after trying the token: `valid`, `rejected` when the server refused it,
/// `unreachable` on any other failure.
pub fn probe_status(outcome: &Result<Json, Error>) -> (r: String)
    ensures
        r@ == match outcome {
            Ok(_) => "valid"@,
            Err(e) => if e.code == ErrorCode::AuthRequired {
                "rejected"@
            } else {
                "unreachable"@
            },
        },
{
    match outcome {
        Ok(_) => owned("valid"),
        Err(e) => if e.code == ErrorCode::AuthRequired {
            owned("rejected")
        } else {
            owned("unreachable")
        },
    }
}

/// One entry of `accounts list`.
pub open spec fn listed_model(name: Seq<char>, a: AccountConfig, status: Seq<char>) -> JsonValue {
    JsonValue::Object(
        seq![
            ("name"@, JsonValue::Str(name)),
            ("endpoint"@, JsonValue::Str(a.endpoint@)),
            ("identity"@, JsonValue::Str(a.identity@)),
            ("addedAt"@, JsonValue::Str(a.added_at@)),
            ("keyStatus"@, JsonValue::Str(status)),
        ],
    )
}

fn listed(name: &str, a: &AccountConfig, status: &str) -> (r: Json)
    ensures
        r.model() == listed_model(name@, *a, status@),
{
    let mut fs: Vec<(String, Json)> = Vec::new();
    proof {
        lemma_field_models(fs@);
    }
    put(&mut fs, "name", Json::text(name));
    put(&mut fs, "endpoint", Json::text(a.endpoint.as_str()));
    put(&mut fs, "identity", Json::text(a.identity.as_str()));
    put(&mut fs, "addedAt", Json::text(a.added_at.as_str()));
    put(&mut fs, "keyStatus", Json::text(status));
    assert(field_models(fs@) =~= listed_model(name@, *a, status@)->Object_0);
    Json::Object(fs)
}

/// What `accounts list` prints: the accounts paired with their key statuses (as far as
/// both lists go), their count, the secret store and the configuration directory.
pub fn listing(
    accounts: &Vec<(String, AccountConfig)>,
    statuses: &Vec<String>,
    store: &str,
    config_dir: &str,
) -> (r: Json)
    ensures
        ({
            let n = if accounts@.len() <= statuses@.len() {
                accounts@.len()
            } else {
                statuses@.len()
            };
            let items = Seq::new(
                n as nat,
                |i: int| listed_model(accounts@[i].0@, accounts@[i].1, statuses@[i]@),
            );
            r.model() == JsonValue::Object(
                seq![
                    ("count"@, JsonValue::Number(crate::text::decimal(n as nat))),
                    ("accounts"@, JsonValue::Array(items)),
                    ("secretStore"@, JsonValue::Str(store@)),
                    ("configDir"@, JsonValue::Str(config_dir@)),
                ],
            )
        }),
{
    let n = if accounts.len() <= statuses.len() { accounts.len() } else { statuses.len() };
    let mut items: Vec<Json> = Vec::new();
    let ghost want = Seq::new(
        n as nat,
        |i: int| listed_model(accounts@[i].0@, accounts@[i].1, statuses@[i]@),
    );
    for i in 0..n
        invariant
            n <= accounts@.len(),
            n <= statuses@.len(),
            want == Seq::new(
                n as nat,
                |i: int| listed_model(accounts@[i].0@, accounts@[i].1, statuses@[i]@),
            ),
            models(items@) == want.take(i as int),
    {
        let ghost before = items@;
        items.push(listed(accounts[i].0.as_str(), &accounts[i].1, statuses[i].as_str()));
        proof {
            lemma_models(items@);
            lemma_models(before);
            assert(models(items@) =~= want.take(i + 1));
        }
    }
    assert(want.take(n as int) == want);
    let mut count: Vec<char> = Vec::new();
    crate::text::push_decimal(&mut count, n as u64);
    let mut fs: Vec<(String, Json)> = Vec::new();
    proof {
        lemma_field_models(fs@);
    }
    put(&mut fs, "count", Json::Number(string_of(count.as_slice())));
    put(&mut fs, "accounts", Json::Array(items));
    put(&mut fs, "secretStore", Json::text(store));
    put(&mut fs, "configDir", Json::text(config_dir));
    assert(field_models(fs@) =~= seq![
        ("count"@, JsonValue::Number(crate::text::decimal(n as nat))),
        ("accounts"@, JsonValue::Array(want)),
        ("secretStore"@, JsonValue::Str(store@)),
        ("configDir"@, JsonValue::Str(config_dir@)),
    ]);
    Json::Object(fs)
}

/// What `accounts test` prints.
pub fn tested(account: &Resolved, sample: Json) -> (r: Json)
    ensures
        r.model() == JsonValue::Object(
            seq![
                ("name"@, JsonValue::Str(account.name@)),
                ("endpoint"@, JsonValue::Str(account.endpoint@)),
                ("keyStatus"@, JsonValue::Str("valid"@)),
                ("sample"@, sample.model()),
            ],
        ),
{
    let mut fs: Vec<(String, Json)> = Vec::new();
    proof {
        lemma_field_models(fs@);
    }
    put(&mut fs, "name", Json::text(account.name.as_str()));
    put(&mut fs, "endpoint", Json::text(account.endpoint.as_str()));
    put(&mut fs, "keyStatus", Json::text("valid"));
    let ghost sm = sample.model();
    put(&mut fs, "sample", sample);
    assert(field_models(fs@) =~= seq![
        ("name"@, JsonValue::Str(account.name@)),
        ("endpoint"@, JsonValue::Str(account.endpoint@)),
        ("keyStatus"@, JsonValue::Str("valid"@)),
        ("sample"@, sm),
    ]);
    Json::Object(fs)
}

/// The account `accounts remove` removes: its configured name and settings.
pub fn remove_target(config: &Config, requested: &str) -> (r: Result<(String, AccountConfig), Error>)
    ensures
        match find_account(config.accounts@, requested@) {
            Some(i) => r matches Ok((n, a)) && n@ == config.accounts@[i].0@ && a
                == config.accounts@[i].1,
            None => r matches Err(e) && e.code == ErrorCode::NoAccount && e.message@
                == "No account named '"@ + requested@ + "'."@ && e.detail is None && opt_view(
                e.remediation,
            ) == Some("bugsink accounts list"@),
        },
{
    match config.find(requested) {
        Some((name, account)) => Ok((owned(name.as_str()), account.copy())),
        None => Err(
            Error::new(ErrorCode::NoAccount, cat3("No account named '", requested, "'.")).fix(
                owned("bugsink accounts list"),
            ),
        ),
    }
}

/// Removing without `--yes` needs a terminal to ask on.
pub fn confirmation(name: &str, yes: bool, terminal: bool) -> (r: Result<bool, Error>)
    ensures
        yes ==> r == Ok::<bool, Error>(false),
        !yes && terminal ==> r == Ok::<bool, Error>(true),
        !yes && !terminal ==> (r matches Err(e) && e.code == ErrorCode::InvalidInput && e.message@
            == "Removing '"@ + name@ + "' needs confirmation and there is no terminal to ask on."@
            && e.detail is None && opt_view(e.remediation) == Some(
            "bugsink accounts remove "@ + name@ + " --yes"@,
        )),
{
    if yes {
        return Ok(false);
    }
    if !terminal {
        return Err(
            Error::invalid(
                cat3("Removing '", name, "' needs confirmation and there is no terminal to ask on."),
            ).fix(cat3("bugsink accounts remove ", name, " --yes")),
        );
    }
    Ok(true)
}

/// The answer to the removal prompt: `y` or `yes`, trimmed and ignoring case, confirms;
/// anything else cancels.
pub fn confirmed(answer: &str) -> (r: Result<(), Error>)
    ensures
        ({
            let a = trim(answer@);
            if eq_ignore_case(a, "y"@) || eq_ignore_case(a, "yes"@) {
                r is Ok
            } else {
                r matches Err(e) && is_invalid(e, "Cancelled."@)
            }
        }),
{
    let a = trim_str(answer);
    if eq_ignore_case_str(a.as_str(), "y") || eq_ignore_case_str(a.as_str(), "yes") {
        Ok(())
    } else {
        Err(Error::invalid(owned("Cancelled.")))
    }
}

/// What `accounts remove` prints.
pub fn removed(name: &str, endpoint: &str) -> (r: Json)
    ensures
        r.model() == JsonValue::Object(
            seq![
                ("status"@, JsonValue::Str("removed"@)),
                ("name"@, JsonValue::Str(name@)),
                ("endpoint"@, JsonValue::Str(endpoint@)),
                ("note"@, JsonValue::Str("The API token was deleted locally."@)),
            ],
        ),
{
    let mut fs: Vec<(String, Json)> = Vec::new();
    proof {
        lemma_field_models(fs@);
    }
    put(&mut fs, "status", Json::text("removed"));
    put(&mut fs, "name", Json::text(name));
    put(&mut fs, "endpoint", Json::text(endpoint));
    put(&mut fs, "note", Json::text("The API token was deleted locally."));
    assert(field_models(fs@) =~= seq![
        ("status"@, JsonValue::Str("removed"@)),
        ("name"@, JsonValue::Str(name@)),
        ("endpoint"@, JsonValue::Str(endpoint@)),
        ("note"@, JsonValue::Str("The API token was deleted locally."@)),
    ]);
    Json::Object(fs)
}

} // verus!
