//! Storing credentials for `accounts add` and `login`: the token is first tried against the
//! API (unless that is skipped), and only then are the token and the account stored.
//!
//! The caller runs the steps: it performs each action and hands back what came of it.

use vstd::prelude::*;
use crate::commands::accounts::{added, host_label, host_label_spec, stored_model};
use crate::commands::login::logged_in;
use crate::commands::{bare, is_bare, Method, Request};
use crate::error::{owned, Error};
use crate::json::Json;

verus! {

broadcast use vstd::string::group_string_axioms;

/// Which command stores the credentials.
#[derive(Clone, Copy, Debug, PartialEq, Eq, Structural)]
pub enum Purpose {
    Add,
    Login,
}

/// How far the storing has come.
#[derive(Clone, Copy, Debug, PartialEq, Eq, Structural)]
pub enum Stage {
    /// Nothing done yet.
    Start,
    /// The token is being tried against the API.
    Verifying,
    /// The token and the account are being stored.
    Storing,
    /// Over, reported or failed.
    Done,
}

/// What came of the last action.
#[derive(Debug)]
pub enum EnrollEvent {
    /// The first step.
    Begin,
    /// The API's answer to the verification request.
    Verified(Result<Json, Error>),
    /// Whether the token and the account were stored.
    Stored(Result<(), Error>),
}

/// What to do next.
#[derive(Debug)]
pub enum EnrollAction {
    /// Send this request to the endpoint with the token, and answer with `Verified`.
    Verify(Request),
    /// Store the token under the account name, and the account in the configuration; answer
    /// with `Stored`.
    Store { name: String, endpoint: String, identity: String, token: String },
    /// Print this; the storing is over.
    Report(Json),
    /// Stop with this error; nothing more is stored.
    Fail(Error),
}

/// Credentials on their way into the keystore and the configuration.
#[derive(Debug)]
pub struct Enrollment {
    pub purpose: Purpose,
    /// The account name, as stored.
    pub name: String,
    /// Whether an account of that name already existed.
    pub existed: bool,
    pub endpoint: String,
    pub token: String,
    /// Whether verification was skipped (`--no-verify`).
    pub skip_check: bool,
    /// The name of the secret store, for the report.
    pub store: String,
    /// The configuration directory, for the report.
    pub config_dir: String,
    pub stage: Stage,
    /// Whether the token passed verification, or verification was skipped.
    pub cleared: bool,
}

/// The status word of the report.
pub open spec fn report_status(purpose: Purpose, existed: bool) -> Seq<char> {
    match purpose {
        Purpose::Login => "logged_in"@,
        Purpose::Add => if existed {
            "replaced"@
        } else {
            "added"@
        },
    }
}

/// The request that tries a token: one project.
pub open spec fn probe_path() -> Seq<char> {
    "projects/?limit=1"@
}

/// Whether `a` stores exactly this enrollment's credentials.
pub open spec fn stores(a: EnrollAction, e: Enrollment) -> bool {
    a matches EnrollAction::Store { name, endpoint, identity, token } && name@ == e.name@
        && endpoint@ == e.endpoint@ && identity@ == host_label_spec(e.endpoint@) && token@
        == e.token@
}

/// Whether an event answers the stage it comes in.
pub open spec fn fits(stage: Stage, event: EnrollEvent) -> bool {
    ||| stage == Stage::Start && event is Begin
    ||| stage == Stage::Verifying && event is Verified
    ||| stage == Stage::Storing && event is Stored
}

/// The request that tries a token.
pub fn probe() -> (r: Request)
    ensures
        is_bare(r, Method::Get, probe_path()),
{
    bare(Method::Get, owned("projects/?limit=1"))
}

impl Enrollment {
    /// Credentials ready to be stored; nothing is done yet.
    pub fn new(
        purpose: Purpose,
        name: String,
        existed: bool,
        endpoint: String,
        token: String,
        skip_check: bool,
        store: String,
        config_dir: String,
    ) -> (r: Enrollment)
        ensures
            r.purpose == purpose,
            r.name == name,
            r.existed == existed,
            r.endpoint == endpoint,
            r.token == token,
            r.skip_check == skip_check,
            r.store == store,
            r.config_dir == config_dir,
            r.stage == Stage::Start,
            !r.cleared,
    {
        Enrollment {
            purpose,
            name,
            existed,
            endpoint,
            token,
            skip_check,
            store,
            config_dir,
            stage: Stage::Start,
            cleared: false,
        }
    }

    fn store_action(&self) -> (a: EnrollAction)
        ensures
            stores(a, *self),
    {
        EnrollAction::Store {
            name: owned(self.name.as_str()),
            endpoint: owned(self.endpoint.as_str()),
            identity: host_label(self.endpoint.as_str()),
            token: owned(self.token.as_str()),
        }
    }

    /// The next step. Starting, it asks for verification, or stores at once when that is
    /// skipped; a successful verification leads to storing and a failed one ends everything;
    /// once stored, it reports (or passes on the storing error). Credentials are stored only
    /// after they passed verification or verification was skipped.
    pub fn step(&mut self, event: EnrollEvent) -> (a: EnrollAction)
        requires
            fits(old(self).stage, event),
        ensures
            final(self).purpose == old(self).purpose,
            final(self).name == old(self).name,
            final(self).existed == old(self).existed,
            final(self).endpoint == old(self).endpoint,
            final(self).token == old(self).token,
            final(self).skip_check == old(self).skip_check,
            final(self).store == old(self).store,
            final(self).config_dir == old(self).config_dir,
            a is Store ==> final(self).cleared && (old(self).skip_check || event matches EnrollEvent::Verified(Ok(_))),
            match event {
                EnrollEvent::Begin => if old(self).skip_check {
                    stores(a, *old(self)) && final(self).stage == Stage::Storing && final(self).cleared
                } else {
                    a matches EnrollAction::Verify(q) && is_bare(q, Method::Get, probe_path())
                        && final(self).stage == Stage::Verifying && !final(self).cleared
                },
                EnrollEvent::Verified(Ok(_)) => stores(a, *old(self)) && final(self).stage
                    == Stage::Storing && final(self).cleared,
                EnrollEvent::Verified(Err(e)) => a == EnrollAction::Fail(e) && final(self).stage
                    == Stage::Done && final(self).cleared == old(self).cleared,
                EnrollEvent::Stored(Ok(_)) => (a matches EnrollAction::Report(j) && j.model()
                    == stored_model(
                    report_status(old(self).purpose, old(self).existed),
                    old(self).name@,
                    old(self).endpoint@,
                    host_label_spec(old(self).endpoint@),
                    !old(self).skip_check,
                    old(self).store@,
                    old(self).config_dir@,
                )) && final(self).stage == Stage::Done && final(self).cleared == old(self).cleared,
                EnrollEvent::Stored(Err(e)) => a == EnrollAction::Fail(e) && final(self).stage
                    == Stage::Done && final(self).cleared == old(self).cleared,
            },
    {
        match event {
            EnrollEvent::Begin => {
                if self.skip_check {
                    self.stage = Stage::Storing;
                    self.cleared = true;
                    self.store_action()
                } else {
                    self.stage = Stage::Verifying;
                    self.cleared = false;
                    EnrollAction::Verify(probe())
                }
            },
            EnrollEvent::Verified(Ok(_)) => {
                self.stage = Stage::Storing;
                self.cleared = true;
                self.store_action()
            },
            EnrollEvent::Verified(Err(e)) => {
                self.stage = Stage::Done;
                EnrollAction::Fail(e)
            },
            EnrollEvent::Stored(Ok(_)) => {
                self.stage = Stage::Done;
                let identity = host_label(self.endpoint.as_str());
                let verified = !self.skip_check;
                let report = match self.purpose {
                    Purpose::Add => added(
                        self.existed,
                        self.name.as_str(),
                        self.endpoint.as_str(),
                        identity.as_str(),
                        verified,
                        self.store.as_str(),
                        self.config_dir.as_str(),
                    ),
                    Purpose::Login => logged_in(
                        self.name.as_str(),
                        self.endpoint.as_str(),
                        identity.as_str(),
                        verified,
                        self.store.as_str(),
                        self.config_dir.as_str(),
                    ),
                };
                EnrollAction::Report(report)
            },
            EnrollEvent::Stored(Err(e)) => {
                self.stage = Stage::Done;
                EnrollAction::Fail(e)
            },
        }
    }
}

} // verus!
