//! The command tree of the CLI, as parsed arguments. The parser itself (flags, defaults,
//! help texts) is the program's; the library works on the values it yields.

use vstd::prelude::*;

verus! {

/// The whole command line: the global `--json` switch and one command.
#[derive(Debug)]
pub struct Cli {
    /// Print raw JSON instead of YAML.
    pub json: bool,
    pub command: Command,
}

/// How a command picks the account it runs against.
#[derive(Clone, Debug)]
pub struct AccountArgs {
    /// `--account` / `-a`: a configured account.
    pub account: Option<String>,
    /// `--endpoint`: the Bugsink base URL.
    pub endpoint: Option<String>,
    /// `--api-token`: the API token.
    pub api_token: Option<String>,
}

/// The top-level commands.
#[derive(Debug)]
pub enum Command {
    /// Print the operating manual for an LLM agent.
    AgentReadme,
    /// Log in with an API token and endpoint.
    Login(LoginArgs),
    /// Manage accounts and stored credentials.
    Accounts(AccountsCommand),
    /// Triage issues.
    Issues(IssuesCommand),
    /// Read the events behind an issue.
    Events(EventsCommand),
    /// Manage projects.
    Projects(ProjectsCommand),
    /// Manage teams.
    Teams(TeamsCommand),
    /// Manage releases.
    Releases(ReleasesCommand),
}

/// `login [NAME]`; the name defaults to `default`.
#[derive(Clone, Debug)]
pub struct LoginArgs {
    pub name: String,
    pub endpoint: Option<String>,
    pub api_token: Option<String>,
    pub api_token_stdin: bool,
    pub no_browser: bool,
    pub force: bool,
    pub skip_check: bool,
}

/// `accounts add|list|test|remove`.
#[derive(Debug)]
pub enum AccountsCommand {
    Add {
        name: String,
        endpoint: Option<String>,
        api_token: Option<String>,
        api_token_stdin: bool,
        force: bool,
        skip_check: bool,
    },
    List { check: bool },
    Test { name: String },
    Remove { name: String, yes: bool },
}

/// `issues ...`; `status` defaults to `all` and `limit` to 50.
#[derive(Debug)]
pub enum IssuesCommand {
    List {
        project: String,
        sort: Option<String>,
        order: Option<String>,
        status: String,
        limit: usize,
        all: bool,
        a: AccountArgs,
    },
    Get { issue: String, a: AccountArgs },
    Stacktrace { issue: String, a: AccountArgs },
    Resolve { issue: String, latest_release: bool, next_release: bool, a: AccountArgs },
    Reopen { issue: String, a: AccountArgs },
    Mute {
        issue: String,
        periods: Option<i32>,
        period: Option<String>,
        threshold: Option<i32>,
        a: AccountArgs,
    },
    Unmute { issue: String, a: AccountArgs },
    Comment { issue: String, text: Option<String>, stdin: bool, a: AccountArgs },
    Delete { issue: String, a: AccountArgs },
}

/// `events ...`; `order` defaults to `desc` and `limit` to 50.
#[derive(Debug)]
pub enum EventsCommand {
    List { issue: String, order: String, limit: usize, all: bool, a: AccountArgs },
    Get { event: String, no_data: bool, a: AccountArgs },
    Stacktrace { event: String, a: AccountArgs },
}

/// `projects ...`; `limit` defaults to 50.
#[derive(Debug)]
pub enum ProjectsCommand {
    List { team: Option<String>, limit: usize, all: bool, a: AccountArgs },
    Get { project: String, expand_team: bool, a: AccountArgs },
    Create {
        team: String,
        name: String,
        visibility: Option<String>,
        alert_on_new_issue: Option<bool>,
        alert_on_regression: Option<bool>,
        alert_on_unmute: Option<bool>,
        retention: Option<i64>,
        a: AccountArgs,
    },
    Update {
        project: String,
        team: Option<String>,
        name: Option<String>,
        visibility: Option<String>,
        alert_on_new_issue: Option<bool>,
        alert_on_regression: Option<bool>,
        alert_on_unmute: Option<bool>,
        retention: Option<i64>,
        a: AccountArgs,
    },
}

/// `teams ...`; `limit` defaults to 50.
#[derive(Debug)]
pub enum TeamsCommand {
    List { limit: usize, all: bool, a: AccountArgs },
    Get { team: String, a: AccountArgs },
    Create { name: String, visibility: Option<String>, a: AccountArgs },
    Update { team: String, name: Option<String>, visibility: Option<String>, a: AccountArgs },
}

/// `releases ...`; `limit` defaults to 50.
#[derive(Debug)]
pub enum ReleasesCommand {
    List { project: String, limit: usize, all: bool, a: AccountArgs },
    Get { release: String, a: AccountArgs },
    Create { project: String, version: String, timestamp: Option<String>, a: AccountArgs },
}

} // verus!
