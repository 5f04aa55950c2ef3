//! Commands that scripts run.
use vstd::prelude::*;
use crate::js::views;
use crate::text::{join, join_strings, string_of};

verus! {

/// The text of a command: its words joined by spaces. A command needs at
/// least its program, else it is refused with `Expected a command to run`.
pub fn command_line(args: &Vec<String>) -> (r: Result<String, String>)
    ensures
        args@.len() == 0 ==> r is Err && r->Err_0@ == "Expected a command to run"@,
        args@.len() > 0 ==> r is Ok && r->Ok_0@ == join(views(args@), " "@),
{
    if args.len() == 0 {
        return Err(string_of("Expected a command to run"));
    }
    Ok(join_strings(args, " "))
}

} // verus!
