//! How the process decides which role it plays.

use vstd::prelude::*;
use vstd::string::*;

verus! {

/// The word that selects the server role on the command line.
pub const SERVER_WORD: &'static str = "server";

/// Whether the arguments ask for the server role.
pub open spec fn wants_server(args: Seq<String>) -> bool
    recommends
        args.len() >= 2,
{
    args[1]@ == SERVER_WORD@
}

/// Tells whether the process was started as a server: the first argument
/// after the program name is the word `server`. The arguments are left as
/// they were.
pub fn is_server(args: &mut Vec<String>) -> (server: bool)
    requires
        old(args).len() >= 2,
    ensures
        server == wants_server(old(args)@),
        final(args)@ == old(args)@,
{
    let word = String::from_str(SERVER_WORD);
    args[1] == word
}

} // verus!
