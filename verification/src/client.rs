//! The terminal client: the keys it handles while a message is typed, the
//! lines it sends, and how it shows what the server relays.

use vstd::prelude::*;
use vstd::string::*;

use crate::protocol::{
    connect_line, connect_request, DISCONNECT_WORD, GOODBYE_WORD, INTRODUCE_WORD, SEND_WORD,
    SENT_WORD,
};
use crate::text::{
    append_chars, chars_of, first_word, starts_with, string_of, trim, trim_bounds, word_len_from,
};

verus! {

/// The byte of the line feed key.
pub const KEY_LINE_FEED: u8 = 10;

/// The byte of the carriage return key.
pub const KEY_RETURN: u8 = 13;

/// The byte of the backspace key.
pub const KEY_BACKSPACE: u8 = 127;

/// The byte of the interrupt key (control and C).
pub const KEY_INTERRUPT: u8 = 3;

/// A message that begins with this word leaves the chat.
pub const QUIT_WORD: &'static str = "!quit";

/// What ends every line the client sends, and every line it shows.
pub const TERMINAL_LINE_END: &'static str = "\r\n";

/// What the terminal is sent to take the last character off the screen.
pub const ERASE_ECHO: &'static str = "\u{8} \u{8}";

/// What the terminal is sent to go back to the start of the line and clear it.
pub const CLEAR_LINE: &'static str = "\r\u{1b}[K";

/// What follows the nickname in the prompt.
pub const PROMPT_MARK: &'static str = "> ";

/// What a key asks the terminal loop to do.
#[derive(Clone, Copy, Debug, PartialEq, Eq)]
pub enum KeyAction {
    /// The message is complete: submit it.
    Submit,
    /// The last character was taken off the message: erase it on screen.
    Erase,
    /// Nothing changed and nothing is shown.
    Ignore,
    /// The user interrupts: leave without sending anything.
    Interrupt,
    /// The character joined the message: share the message and show the
    /// character.
    Echo(char),
}

/// What a submitted message makes the client send.
#[derive(Debug, PartialEq, Eq)]
pub enum Submission {
    /// The line to send before leaving the chat.
    Leave(String),
    /// The line to send; the chat goes on.
    Say(String),
}

/// A relayed line that cannot be shown.
#[derive(Clone, Copy, Debug, PartialEq, Eq)]
pub enum RenderError {
    /// A relayed message names its sender and then ends, without the
    /// separator that precedes the text.
    MissingText,
}

/// The state of the terminal client: its nickname and the message being
/// typed.
#[derive(Debug)]
pub struct Client {
    nick: String,
    message: Vec<char>,
}

/// What a client is, to its contracts.
pub struct ClientState {
    /// The nickname.
    pub nick: Seq<char>,
    /// The message typed so far.
    pub typed: Seq<char>,
}

impl View for Client {
    type V = ClientState;

    closed spec fn view(&self) -> ClientState {
        ClientState { nick: self.nick@, typed: self.message@ }
    }
}

/// The message after `byte` was pressed.
pub open spec fn typed_after(typed: Seq<char>, byte: u8) -> Seq<char> {
    if byte == KEY_LINE_FEED || byte == KEY_RETURN || byte == KEY_INTERRUPT {
        typed
    } else if byte == KEY_BACKSPACE {
        if typed.len() > 0 {
            typed.drop_last()
        } else {
            typed
        }
    } else {
        typed.push(byte as char)
    }
}

/// What the terminal loop does after `byte` was pressed.
pub open spec fn action_of(typed: Seq<char>, byte: u8) -> KeyAction {
    if byte == KEY_LINE_FEED || byte == KEY_RETURN {
        KeyAction::Submit
    } else if byte == KEY_BACKSPACE {
        if typed.len() > 0 {
            KeyAction::Erase
        } else {
            KeyAction::Ignore
        }
    } else if byte == KEY_INTERRUPT {
        KeyAction::Interrupt
    } else {
        KeyAction::Echo(byte as char)
    }
}

/// The typed message as it is submitted: with the terminal's line end.
pub open spec fn submitted(typed: Seq<char>) -> Seq<char> {
    typed + TERMINAL_LINE_END@
}

/// Whether submitting `typed` leaves the chat.
pub open spec fn leaves(typed: Seq<char>) -> bool {
    QUIT_WORD@.is_prefix_of(submitted(typed))
}

/// The line that submitting `typed` sends: the quit word gives way to the
/// keyword of a departure, anything else is said.
pub open spec fn submission_line(typed: Seq<char>) -> Seq<char> {
    if leaves(typed) {
        DISCONNECT_WORD@ + submitted(typed).skip(QUIT_WORD@.len() as int)
    } else {
        SEND_WORD@ + submitted(typed)
    }
}

/// The prompt of the client named `nick`.
pub open spec fn prompt_text(nick: Seq<char>) -> Seq<char> {
    nick + PROMPT_MARK@
}

/// What the terminal shows for a relayed line, if anything.
///
/// A relayed message shows its sender and its text, an introduction and a
/// departure show a sentence; any other line shows nothing.
pub open spec fn rendering(line: Seq<char>) -> Result<Option<Seq<char>>, RenderError> {
    if SENT_WORD@.is_prefix_of(line) {
        let rest = line.skip(SENT_WORD@.len() as int);
        let nick = first_word(rest);
        if nick.len() < rest.len() {
            Ok(Some(CLEAR_LINE@ + nick + ": "@ + rest.skip(nick.len() as int + 1) + TERMINAL_LINE_END@))
        } else {
            Err(RenderError::MissingText)
        }
    } else if INTRODUCE_WORD@.is_prefix_of(line) {
        let nick = first_word(line.skip(INTRODUCE_WORD@.len() as int));
        Ok(Some(CLEAR_LINE@ + nick + " connected to the server."@ + TERMINAL_LINE_END@))
    } else if GOODBYE_WORD@.is_prefix_of(line) {
        let rest = line.skip(GOODBYE_WORD@.len() as int);
        let nick = first_word(rest);
        let reason = trim(rest.skip(nick.len() as int));
        if reason.len() == 0 {
            Ok(Some(CLEAR_LINE@ + nick + " disconnected from the server."@ + TERMINAL_LINE_END@))
        } else {
            Ok(
                Some(
                    CLEAR_LINE@ + nick + " disconnected with message: "@ + reason + "."@
                        + TERMINAL_LINE_END@,
                ),
            )
        }
    } else {
        Ok(None)
    }
}

impl Client {
    /// A client named `nick` that has typed nothing yet.
    pub fn new(nick: &str) -> (client: Client)
        ensures
            client@.nick == nick@,
            client@.typed == Seq::<char>::empty(),
    {
        Client { nick: String::from_str(nick), message: Vec::new() }
    }

    /// The line that registers this client with the server.
    pub fn connect(&self) -> (line: String)
        ensures
            line@ == connect_line(self@.nick),
    {
        connect_request(self.nick.as_str())
    }

    /// Handles one key: line feed and return submit, backspace takes the last
    /// character off a message that has one, the interrupt key leaves, and
    /// any other byte joins the message as the character of its value.
    pub fn key_pressed(&mut self, byte: u8) -> (action: KeyAction)
        ensures
            final(self)@.nick == old(self)@.nick,
            final(self)@.typed == typed_after(old(self)@.typed, byte),
            action == action_of(old(self)@.typed, byte),
    {
        if byte == KEY_LINE_FEED || byte == KEY_RETURN {
            KeyAction::Submit
        } else if byte == KEY_BACKSPACE {
            if self.message.len() > 0 {
                self.message.pop();
                KeyAction::Erase
            } else {
                KeyAction::Ignore
            }
        } else if byte == KEY_INTERRUPT {
            KeyAction::Interrupt
        } else {
            let c = byte as char;
            self.message.push(c);
            KeyAction::Echo(c)
        }
    }

    /// Submits the typed message and starts a new one: a message that begins
    /// with the quit word becomes the line of a departure, any other the line
    /// that says it.
    pub fn submit(&mut self) -> (sent: Submission)
        ensures
            final(self)@.nick == old(self)@.nick,
            final(self)@.typed == Seq::<char>::empty(),
            match sent {
                Submission::Leave(line) => leaves(old(self)@.typed) && line@ == submission_line(
                    old(self)@.typed,
                ),
                Submission::Say(line) => !leaves(old(self)@.typed) && line@ == submission_line(
                    old(self)@.typed,
                ),
            },
    {
        let ghost typed = self.message@;
        let mut full = self.message.clone();
        let end = chars_of(TERMINAL_LINE_END);
        let mut i: usize = 0;
        while i < end.len()
            invariant
                i <= end.len(),
                end@ == TERMINAL_LINE_END@,
                full@ == typed + end@.take(i as int),
            decreases end.len() - i,
        {
            full.push(end[i]);
            i += 1;
        }
        self.message = Vec::new();
        if starts_with(&full, QUIT_WORD) {
            let skip = QUIT_WORD.unicode_len();
            let mut line = String::from_str(DISCONNECT_WORD);
            append_chars(&mut line, &full, skip, full.len());
            Submission::Leave(line)
        } else {
            let mut line = String::from_str(SEND_WORD);
            append_chars(&mut line, &full, 0, full.len());
            Submission::Say(line)
        }
    }

    /// The nickname.
    pub fn nick(&self) -> (nick: &str)
        ensures
            nick@ == self@.nick,
    {
        self.nick.as_str()
    }

    /// The message typed so far.
    pub fn typed(&self) -> (typed: String)
        ensures
            typed@ == self@.typed,
    {
        string_of(&self.message, 0, self.message.len())
    }

    /// The prompt: the nickname and the prompt mark.
    pub fn prompt(&self) -> (prompt: String)
        ensures
            prompt@ == prompt_text(self@.nick),
    {
        prompt_for(self.nick.as_str())
    }
}

/// The prompt of the client named `nick`.
pub fn prompt_for(nick: &str) -> (prompt: String)
    ensures
        prompt@ == prompt_text(nick@),
{
    let mut prompt = String::from_str(nick);
    prompt.append(PROMPT_MARK);
    prompt
}

/// What the terminal shows for a line that the server relayed: `None` for a
/// line that is none of the three announcements, and an error for a relayed
/// message without its text.
pub fn render_line(line: &str) -> (shown: Result<Option<String>, RenderError>)
    ensures
        match shown {
            Ok(Some(text)) => rendering(line@) == Ok::<Option<Seq<char>>, RenderError>(
                Some(text@),
            ),
            Ok(None) => rendering(line@) == Ok::<Option<Seq<char>>, RenderError>(None),
            Err(e) => rendering(line@) == Err::<Option<Seq<char>>, RenderError>(e),
        },
{
    let chars = chars_of(line);
    let len = chars.len();
    if starts_with(&chars, SENT_WORD) {
        let from = SENT_WORD.unicode_len();
        let n = word_len_from(&chars, from);
        if from + n < len {
            let mut out = String::from_str(CLEAR_LINE);
            append_chars(&mut out, &chars, from, from + n);
            out.append(": ");
            append_chars(&mut out, &chars, from + n + 1, len);
            out.append(TERMINAL_LINE_END);
            proof {
                let rest = chars@.skip(from as int);
                assert(first_word(rest) == chars@.subrange(from as int, from + n));
                assert(rest.skip(n + 1) == chars@.subrange(from + n + 1, len as int));
            }
            Ok(Some(out))
        } else {
            Err(RenderError::MissingText)
        }
    } else if starts_with(&chars, INTRODUCE_WORD) {
        let from = INTRODUCE_WORD.unicode_len();
        let n = word_len_from(&chars, from);
        let mut out = String::from_str(CLEAR_LINE);
        append_chars(&mut out, &chars, from, from + n);
        out.append(" connected to the server.");
        out.append(TERMINAL_LINE_END);
        proof {
            let rest = chars@.skip(from as int);
            assert(first_word(rest) == chars@.subrange(from as int, from + n));
        }
        Ok(Some(out))
    } else if starts_with(&chars, GOODBYE_WORD) {
        let from = GOODBYE_WORD.unicode_len();
        let n = word_len_from(&chars, from);
        let (start, end) = trim_bounds(&chars, from + n, len);
        let mut out = String::from_str(CLEAR_LINE);
        append_chars(&mut out, &chars, from, from + n);
        proof {
            let rest = chars@.skip(from as int);
            assert(first_word(rest) == chars@.subrange(from as int, from + n));
            assert(rest.skip(n as int) == chars@.subrange(from + n, len as int));
        }
        if start == end {
            out.append(" disconnected from the server.");
        } else {
            out.append(" disconnected with message: ");
            append_chars(&mut out, &chars, start, end);
            out.append(".");
        }
        out.append(TERMINAL_LINE_END);
        Ok(Some(out))
    } else {
        Ok(None)
    }
}

} // verus!
