//! `login`: authenticates with an API token and endpoint, verifies them against the API,
//! and stores them under an account name.

use vstd::prelude::*;
use crate::commands::accounts::{stored, stored_model};
use crate::config::{find_account, Config};
use crate::error::{is_invalid, opt_view, owned, Error, ErrorCode};
use crate::json::Json;
use crate::text::{cat3, trim, trim_str};

verus! {

broadcast use vstd::string::group_string_axioms;

/// The name a login is stored under, and whether the account already exists: as for
/// `accounts add`, but the remediation for an existing account points at `login --force`.
pub fn target(config: &Config, name: &str, force: bool) -> (r: Result<(String, bool), Error>)
    ensures
        ({
            let t = trim(name@);
            if t.len() == 0 {
                r matches Err(e) && is_invalid(e, "An account name is required."@)
            } else {
                match find_account(config.accounts@, t) {
                    None => r matches Ok((n, existed)) && n@ == t && !existed,
                    Some(i) => {
                        let existing = config.accounts@[i].0@;
                        if force {
                            r matches Ok((n, existed)) && n@ == existing && existed
                        } else {
                            r matches Err(e) && e.code == ErrorCode::InvalidInput && e.message@
                                == "An account named '"@ + existing + "' already exists."@
                                && e.detail is None && opt_view(e.remediation) == Some(
                                "Use --force to replace its credentials: bugsink login "@ + existing
                                    + " --force"@,
                            )
                        }
                    },
                }
            }
        }),
{
    let t = trim_str(name);
    if t.as_str().is_empty() {
        return Err(Error::invalid(owned("An account name is required.")));
    }
    match config.find(t.as_str()) {
        None => Ok((t, false)),
        Some((existing, _)) => {
            if !force {
                return Err(
                    Error::invalid(cat3("An account named '", existing.as_str(), "' already exists."))
                        .fix(
                        cat3(
                            "Use --force to replace its credentials: bugsink login ",
                            existing.as_str(),
                            " --force",
                        ),
                    ),
                );
            }
            Ok((owned(existing.as_str()), true))
        },
    }
}

/// The error when `login` needs a token and there is no terminal to prompt on.
pub fn no_token_terminal(name: &str) -> (r: Error)
    ensures
        r.code == ErrorCode::InvalidInput,
        r.message@ == "No API token given and no terminal to prompt on."@,
        r.detail is None,
        opt_view(r.remediation) == Some("pbpaste | bugsink login "@ + name@ + " --api-token-stdin"@),
{
    Error::invalid(owned("No API token given and no terminal to prompt on.")).fix(
        cat3("pbpaste | bugsink login ", name, " --api-token-stdin"),
    )
}

/// The object printed after a login.
pub fn logged_in(
    name: &str,
    endpoint: &str,
    identity: &str,
    verified: bool,
    store: &str,
    config_dir: &str,
) -> (r: Json)
    ensures
        r.model() == stored_model(
            "logged_in"@,
            name@,
            endpoint@,
            identity@,
            verified,
            store@,
            config_dir@,
        ),
{
    stored("logged_in", name, endpoint, identity, verified, store, config_dir)
}

/// The line written to a terminal after a login.
pub fn success_line(endpoint: &str, name: &str) -> (r: String)
    ensures
        r@ == "Successfully logged in to Bugsink at "@ + endpoint@ + " as account '"@ + name@ + "'."@,
{
    let mut s = cat3("Successfully logged in to Bugsink at ", endpoint, " as account '");
    s.append(name);
    s.append("'.");
    s
}

} // verus!
