//! Command-line details: keyring subcommands, confirmation answers and the
//! advisor's socket.

use vstd::prelude::*;
use crate::config::{join_rel, join_rel_exec};
use crate::text::{chars_of, eq_str, lowercase, to_lowercase_chars, trim, trim_chars};

verus! {

/// The keyring subcommands.
#[derive(Debug, Clone, PartialEq, Eq)]
pub enum KeyCommands {
    /// Initialise the trust database.
    Init,
    /// Import the named keyrings (all found when none is named).
    Populate { names: Vec<String> },
    /// Repopulate and refresh from the keyserver.
    Sync,
    /// List the trusted keys.
    List,
}

/// An answer that accepts a `[Y/n]` prompt: empty, `y` or `yes` in any case
/// (surrounding blanks ignored).
pub open spec fn spec_accepts(input: Seq<char>) -> bool {
    let t = lowercase(trim(input));
    t.len() == 0 || t == "y"@ || t == "yes"@
}

/// Whether the answer typed at a `[Y/n]` prompt accepts it.
pub fn prompt_accepts(input: &str) -> (b: bool)
    ensures
        b == spec_accepts(input@),
{
    let t = to_lowercase_chars(&trim_chars(&chars_of(input)));
    t.len() == 0 || eq_str(&t, "y") || eq_str(&t, "yes")
}

/// The advisor's system socket.
pub open spec fn system_socket() -> Seq<char> {
    "/run/mimic/brain.sock"@
}

/// The socket the advisor listens on: the per-user one under `$HOME/.cache` when
/// the default was asked for but `/run/mimic` is not usable; otherwise the one
/// asked for.
pub fn resolve_socket_path(socket: &str, home: Option<&str>, run_dir_usable: bool) -> (p: String)
    ensures
        p@ == if socket@ == system_socket() && home.is_some() && !run_dir_usable {
            join_rel(home.unwrap()@, ".cache/mimic/brain.sock"@)
        } else {
            socket@
        },
{
    let s = chars_of(socket);
    if eq_str(&s, "/run/mimic/brain.sock") && !run_dir_usable {
        match home {
            Some(h) => {
                return join_rel_exec(h, ".cache/mimic/brain.sock");
            },
            None => {},
        }
    }
    socket.to_owned()
}

/// The socket the client talks to: the system one when it exists, else the
/// per-user one when it exists, else the system one.
pub fn advisor_socket_path(system_exists: bool, home: Option<&str>, user_exists: bool) -> (p: String)
    ensures
        p@ == if !system_exists && home.is_some() && user_exists {
            join_rel(home.unwrap()@, ".cache/mimic/brain.sock"@)
        } else {
            system_socket()
        },
{
    if system_exists {
        return String::from_str("/run/mimic/brain.sock");
    }
    match home {
        Some(h) => if user_exists {
            join_rel_exec(h, ".cache/mimic/brain.sock")
        } else {
            String::from_str("/run/mimic/brain.sock")
        },
        None => String::from_str("/run/mimic/brain.sock"),
    }
}

} // verus!
