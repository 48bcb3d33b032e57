//! Core of a journaling backend: items of several kinds that share one parent
//! record, owned by users, reached through ownership-checked create, find,
//! update and delete, behind a checkpoint that admits callers by signed token.

use vstd::prelude::*;
use vstd::string::*;

pub mod database;
pub mod errors;
pub mod items;
pub mod laws;
pub mod users;
pub mod utils;

verus! {

/// Identifier of a record: the 128 bits of a UUID.
pub type Id = u128;

/// Point in time, in whole seconds since the Unix epoch (UTC).
pub type Timestamp = i64;

/// The text of the greeting for `name`.
pub open spec fn greeting(name: Seq<char>) -> Seq<char> {
    "Hello sailor "@ + name + "!"@
}

/// Greets `name`.
pub fn hello(name: &str) -> (text: String)
    ensures
        text@ == greeting(name@),
{
    let mut text = String::from_str("Hello sailor ");
    text.append(name);
    text.append("!");
    text
}

} // verus!
