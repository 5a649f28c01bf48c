//! The host commands the shell exposes to its embedded front-end.
//!
//! Each command is synchronous, returns a plain string, and never raises an
//! error across the bridge: every failure is absorbed into a default value.

use vstd::prelude::*;
use vstd::string::StringExecFns;

use crate::env::Env;
use crate::env::lookup;

verus! {

/// What `get_env` answers for a given environment table and name: the
/// stored value, or the empty string when the name is absent.
pub open spec fn env_answer(env: Seq<(Seq<char>, Seq<char>)>, name: Seq<char>) -> Seq<char> {
    match lookup(env, name) {
        Some(v) => v,
        None => Seq::empty(),
    }
}

/// Command `get_env`: looks `name` up in the host-owned environment table.
/// Any lookup failure is coerced to the empty string; no error ever crosses
/// the bridge.
pub fn get_env(env: &Env, name: &str) -> (r: String)
    ensures
        r@ == env_answer(env@, name@),
{
    match env.get(name) {
        Some(v) => v,
        None => String::new(),
    }
}

/// The exact text `greet` returns for a given name.
pub open spec fn greeting_of(name: Seq<char>) -> Seq<char> {
    "Hello, "@ + name + "! You've been greeted from Rust!"@
}

/// Command `greet`: pure formatting of the fixed greeting template around
/// the caller-supplied name. No error path, no side effects.
pub fn greet(name: &str) -> (r: String)
    ensures
        r@ == greeting_of(name@),
{
    let mut r = "Hello, ".to_owned();
    r.append(name);
    r.append("! You've been greeted from Rust!");
    r
}

} // verus!
