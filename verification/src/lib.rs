//! The verified core of a command-line client for Bugsink, the self-hosted error tracker.
//!
//! The library decides everything that does not need the outside world: which account a
//! command runs against, what request it sends to the Bugsink API (paths, query parameters,
//! percent-encoding, JSON bodies), how cursor pagination is walked, how names are resolved to
//! ids, what an HTTP status means as an error class and exit code, and what is printed (YAML,
//! JSON or text). The program around it performs the requests, reads and writes files and the
//! keystore, and prints.


pub mod text;
pub mod json;
pub mod error;
pub mod client;
pub mod paging;
pub mod lookup;
pub mod config;
pub mod config_file;
pub mod account;
pub mod cli;
pub mod commands;
pub mod readme;
pub mod output;
pub mod clock;
pub mod secrets;
