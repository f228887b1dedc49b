//! The lines of the wire protocol: newline-terminated text, a keyword first.

use vstd::prelude::*;
use vstd::string::*;

verus! {

/// The keyword, with its separator, of the line by which a client registers.
pub const CONNECT_WORD: &'static str = "CONNECT ";

/// The keyword, with its separator, of the line by which a client speaks.
pub const SEND_WORD: &'static str = "SEND ";

/// The keyword of the line by which a client leaves.
pub const DISCONNECT_WORD: &'static str = "DISCONNECT";

/// The keyword, with its separator, of the line that announces a newcomer.
pub const INTRODUCE_WORD: &'static str = "INTRODUCE ";

/// The keyword, with its separator, of the line that relays a message.
pub const SENT_WORD: &'static str = "SENT ";

/// The keyword, with its separator, of the line that announces a departure.
pub const GOODBYE_WORD: &'static str = "GOODBYE ";

/// What ends every line the server writes.
pub const LINE_END: &'static str = "\n";

/// What separates the fields of a line.
pub const SEPARATOR: &'static str = " ";

/// The line that registers a client under `nick`.
pub open spec fn connect_line(nick: Seq<char>) -> Seq<char> {
    CONNECT_WORD@ + nick + LINE_END@
}

/// The line that tells every client that `nick` has joined.
pub open spec fn introduce_line(nick: Seq<char>) -> Seq<char> {
    INTRODUCE_WORD@ + nick + LINE_END@
}

/// The line that relays `text` as said by `nick`.
pub open spec fn sent_line(nick: Seq<char>, text: Seq<char>) -> Seq<char> {
    SENT_WORD@ + nick + SEPARATOR@ + text + LINE_END@
}

/// The line that tells every client that `nick` has left. The separator is
/// written also before an empty reason.
pub open spec fn goodbye_line(nick: Seq<char>, reason: Seq<char>) -> Seq<char> {
    GOODBYE_WORD@ + nick + SEPARATOR@ + reason + LINE_END@
}

/// Builds the line that registers a client under `nick`.
pub fn connect_request(nick: &str) -> (line: String)
    ensures
        line@ == connect_line(nick@),
{
    let mut line = String::from_str(CONNECT_WORD);
    line.append(nick);
    line.append(LINE_END);
    line
}

/// Builds the line that tells every client that `nick` has joined.
pub fn introduce(nick: &str) -> (line: String)
    ensures
        line@ == introduce_line(nick@),
{
    let mut line = String::from_str(INTRODUCE_WORD);
    line.append(nick);
    line.append(LINE_END);
    line
}

/// Builds the line that relays `text` as said by `nick`.
pub fn sent(nick: &str, text: &str) -> (line: String)
    ensures
        line@ == sent_line(nick@, text@),
{
    let mut line = String::from_str(SENT_WORD);
    line.append(nick);
    line.append(SEPARATOR);
    line.append(text);
    line.append(LINE_END);
    line
}

/// Builds the line that tells every client that `nick` has left.
pub fn goodbye(nick: &str, reason: &str) -> (line: String)
    ensures
        line@ == goodbye_line(nick@, reason@),
{
    let mut line = String::from_str(GOODBYE_WORD);
    line.append(nick);
    line.append(SEPARATOR);
    line.append(reason);
    line.append(LINE_END);
    line
}

} // verus!
