//! The danger-zone guard: a check made once, before the server starts, that
//! refuses to serve the filesystem root or the user's home directory unless
//! it is overridden.

use crate::bytes::str_model;
use crate::path::has_no_parent;
use crate::path::is_root;
use crate::path::same_path;
use crate::path::same_place;
use crate::sandbox::BaseDir;
use vstd::prelude::*;
use vstd::string::StringExecFns;
use vstd::utf8::encode_utf8;

verus! {

/// A directory that is too broad or too sensitive to serve: the root, and
/// the home directory.
pub open spec fn is_dangerous(dir: Seq<u8>, home: Option<Seq<char>>) -> bool {
    is_root(dir) || match home {
        Some(home) => same_place(dir, encode_utf8(home)),
        None => false,
    }
}

/// What the guard decides.
#[derive(Clone, Copy, Debug, PartialEq, Eq, Structural)]
pub enum Startup {
    /// The server may start.
    Serve,
    /// The process must exit with a non-zero status, serving nothing.
    Refuse,
}

/// The decision of the guard: a dangerous directory is refused unless the
/// override is given.
pub open spec fn startup_decision(dir: Seq<u8>, home: Option<Seq<char>>, force: bool) -> Startup {
    if !force && is_dangerous(dir, home) {
        Startup::Refuse
    } else {
        Startup::Serve
    }
}

/// The first line of the warning for a refused directory.
pub open spec fn refusal_notice(dir: Seq<char>) -> Seq<char> {
    "Refusing to serve dangerous directory: "@ + dir
}

/// The home directory, from the values of the environment variables `HOME`
/// and `USERPROFILE`: the first where it is set, else the second.
pub fn home_dir(home: Option<String>, user_profile: Option<String>) -> (out: Option<String>)
    ensures
        out == match home {
            Some(dir) => Some(dir),
            None => user_profile,
        },
{
    match home {
        Some(dir) => Some(dir),
        None => user_profile,
    }
}

/// Whether a base directory is dangerous to serve, given the home directory
/// where one is known.
pub fn is_dangerous_dir(path: &BaseDir, home: Option<&str>) -> (out: bool)
    ensures
        out == is_dangerous(path@, str_model(home)),
{
    if has_no_parent(path.as_bytes()) {
        return true;
    }
    match home {
        Some(dir) => same_path(path.as_bytes(), dir.as_bytes()),
        None => false,
    }
}

/// The guard. Without the override, the root and the home directory are
/// refused; with it, every directory is served.
pub fn check_startup(path: &BaseDir, home: Option<&str>, force: bool) -> (out: Startup)
    ensures
        out == startup_decision(path@, str_model(home), force),
        force ==> out == Startup::Serve,
        !force && is_root(path@) ==> out == Startup::Refuse,
        !force && home is Some && same_place(path@, encode_utf8(home.unwrap()@)) ==> out
            == Startup::Refuse,
{
    if !force && is_dangerous_dir(path, home) {
        Startup::Refuse
    } else {
        Startup::Serve
    }
}

impl Startup {
    /// The status with which the process exits where it does not serve.
    pub fn exit_status(&self) -> (out: Option<u8>)
        ensures
            *self == Startup::Serve ==> out is None,
            *self == Startup::Refuse ==> out == Some(1u8),
    {
        match self {
            Startup::Serve => None,
            Startup::Refuse => Some(1),
        }
    }
}

/// The first line of the warning for a refused directory, which names it.
pub fn refusal_message(dir: &str) -> (out: String)
    ensures
        out@ == refusal_notice(dir@),
{
    String::from_str("Refusing to serve dangerous directory: ").concat(dir)
}

/// The second line of the warning, which says what to do.
pub fn refusal_hint() -> (out: String)
    ensures
        out@ == "Pass --force to override, or pick a safer directory."@,
{
    String::from_str("Pass --force to override, or pick a safer directory.")
}

} // verus!
