//! The command grammar: an ordered list of rules, each a pattern and the
//! command it stands for. A line is the command of the first rule whose
//! pattern matches it; a line that no pattern matches is no request.

use regex::Regex;
use vstd::prelude::*;
use vstd::string::*;

use crate::error::ServerError;
use crate::text::{trim, trimmed};

verus! {

/// The pattern of a registration: the keyword, white space, and a nickname
/// of word characters.
pub const CONNECT_PATTERN: &'static str = "^CONNECT\\s+(\\w+)$";

/// The pattern of a message: the keyword, white space, and a text of at least
/// one character.
pub const SEND_PATTERN: &'static str = "^SEND\\s+([\\S|\\s]+)$";

/// The pattern of a departure: the keyword and, after one white-space
/// character, a reason of any text, which may be empty.
pub const DISCONNECT_PATTERN: &'static str = "^DISCONNECT(\\s[\\S\\s]*)?$";

/// The commands of the protocol.
#[derive(Clone, Copy, Debug, PartialEq, Eq, Structural)]
pub enum Command {
    /// Register under a nickname.
    Connect,
    /// Say something to everybody else.
    Send,
    /// Leave, with or without a reason.
    Disconnect,
}

/// A command with its argument, as read from one line.
#[derive(Debug, PartialEq, Eq)]
pub enum Request {
    /// Register under `nick`.
    Connect { nick: String },
    /// Say `text` to everybody else.
    Send { text: String },
    /// Leave; `reason` is empty where none was given.
    Disconnect { reason: String },
}

/// What a request is, to its contracts.
pub enum RequestView {
    Connect { nick: Seq<char> },
    Send { text: Seq<char> },
    Disconnect { reason: Seq<char> },
}

impl View for Request {
    type V = RequestView;

    open spec fn view(&self) -> RequestView {
        match self {
            Request::Connect { nick } => RequestView::Connect { nick: nick@ },
            Request::Send { text } => RequestView::Send { text: text@ },
            Request::Disconnect { reason } => RequestView::Disconnect { reason: reason@ },
        }
    }
}

/// A pattern was not accepted as a regular expression.
#[derive(Clone, Copy, Debug, PartialEq, Eq)]
pub struct GrammarError {
    /// The place, in the order of the rules, of the first pattern refused.
    pub rule: usize,
}

/// A compiled regular expression of the regex crate, `regex::Regex`. The
/// library sees nothing inside it.
#[verifier::external_type_specification]
#[verifier::external_body]
pub struct ExRegex(regex::Regex);

/// The error of the regex crate, `regex::Error`. The library sees nothing
/// inside it.
#[verifier::external_type_specification]
#[verifier::external_body]
pub struct ExRegexError(regex::Error);

/// Whether `regex::Regex::new` accepts `pattern`.
pub uninterp spec fn regex_accepts(pattern: Seq<char>) -> bool;

/// The pattern that `matcher` was compiled from by `regex::Regex::new`: the
/// text that `regex::Regex::as_str` gives back.
pub uninterp spec fn regex_pattern(matcher: &Regex) -> Seq<char>;

/// What `regex::Regex::captures` finds in `haystack` for the regular
/// expression compiled from `pattern`: nothing where the pattern does not
/// match, else the capture groups of the leftmost match, in the order of
/// their opening parentheses, the whole match first; a group that took no
/// part in the match is `None`.
pub uninterp spec fn regex_captures(pattern: Seq<char>, haystack: Seq<char>) -> Option<
    Seq<Option<Seq<char>>>,
>;

/// Compiles `pattern` by `regex::Regex::new`. The call succeeds on the
/// patterns that the regex crate accepts, and the compiled expression is that
/// of `pattern`.
#[verifier::external_body]
fn compile(pattern: &str) -> (compiled: Result<Regex, regex::Error>)
    ensures
        compiled is Ok <==> regex_accepts(pattern@),
        compiled matches Ok(matcher) ==> regex_pattern(&matcher) == pattern@,
{
    Regex::new(pattern)
}

/// Searches `haystack` by `regex::Regex::captures` and hands out the text of
/// each capture group of the match: the result is what the regex crate finds
/// for the pattern of `matcher` in `haystack`. Every matcher of this library
/// is made by `compile`, with the options that `regex::Regex::new` sets.
#[verifier::external_body]
fn captures(matcher: &Regex, haystack: &str) -> (groups: Option<Vec<Option<String>>>)
    ensures
        groups.deep_view() == regex_captures(regex_pattern(matcher), haystack@),
{
    matcher.captures(haystack).map(
        |found| found.iter().map(|group| group.map(|m| m.as_str().to_string())).collect(),
    )
}

/// One rule of a grammar: a compiled pattern and its command.
struct Rule {
    matcher: Regex,
    command: Command,
}

/// The rules of a grammar, compiled, in the order in which they are tried.
pub struct CommandGrammar {
    rules: Vec<Rule>,
}

/// The rules of the protocol: each pattern with its command, in the order in
/// which they are tried.
pub open spec fn protocol_rules() -> Seq<(Seq<char>, Command)> {
    seq![
        (CONNECT_PATTERN@, Command::Connect),
        (SEND_PATTERN@, Command::Send),
        (DISCONNECT_PATTERN@, Command::Disconnect),
    ]
}

/// The rules that `given` asks for: each pattern as text, with its command.
pub open spec fn rules_of(given: Seq<(&str, Command)>) -> Seq<(Seq<char>, Command)> {
    given.map_values(|rule: (&str, Command)| (rule.0@, rule.1))
}

/// The place of the first rule of `rules` whose pattern the regex crate
/// refuses.
pub open spec fn first_refused(rules: Seq<(Seq<char>, Command)>) -> Option<int>
    decreases rules.len(),
{
    if rules.len() == 0 {
        None
    } else {
        match first_refused(rules.drop_last()) {
            Some(place) => Some(place),
            None => if regex_accepts(rules.last().0) {
                None
            } else {
                Some(rules.len() - 1)
            },
        }
    }
}

/// The text of the first capture group, where the match has one.
pub open spec fn first_group(groups: Seq<Option<Seq<char>>>) -> Option<Seq<char>> {
    if groups.len() > 1 {
        groups[1]
    } else {
        None
    }
}

/// The request that a match of the pattern of `command` stands for. The
/// argument is the first capture group, trimmed. A registration and a message
/// need theirs; a departure without a reason has the empty one.
pub open spec fn request_of(command: Command, groups: Seq<Option<Seq<char>>>) -> Option<
    RequestView,
> {
    match command {
        Command::Connect => match first_group(groups) {
            Some(nick) => Some(RequestView::Connect { nick: trim(nick) }),
            None => None,
        },
        Command::Send => match first_group(groups) {
            Some(text) => Some(RequestView::Send { text: trim(text) }),
            None => None,
        },
        Command::Disconnect => match first_group(groups) {
            Some(reason) => Some(RequestView::Disconnect { reason: trim(reason) }),
            None => Some(RequestView::Disconnect { reason: Seq::empty() }),
        },
    }
}

/// The request that `line` is under `rules`: that of the first rule whose
/// pattern matches the line. `None` where none matches, and where the first
/// match lacks the argument that its command needs.
pub open spec fn first_match(rules: Seq<(Seq<char>, Command)>, line: Seq<char>) -> Option<
    RequestView,
>
    decreases rules.len(),
{
    if rules.len() == 0 {
        None
    } else {
        match regex_captures(rules.first().0, line) {
            Some(groups) => request_of(rules.first().1, groups),
            None => first_match(rules.drop_first(), line),
        }
    }
}

/// The request that `line` is under the rules of the protocol, or `None` for
/// an invalid line.
pub open spec fn request_in(line: Seq<char>) -> Option<RequestView> {
    first_match(protocol_rules(), line)
}

/// The request that a match of the pattern of `command` stands for, from the
/// capture groups of the match.
pub fn request_from(command: Command, groups: &Vec<Option<String>>) -> (request: Result<
    Request,
    ServerError,
>)
    ensures
        match request {
            Ok(r) => request_of(command, groups.deep_view()) == Some(r@),
            Err(e) => e == ServerError::InvalidRequest && request_of(command, groups.deep_view())
                is None,
        },
{
    let argument: Option<String> = if groups.len() > 1 {
        match &groups[1] {
            Some(group) => Some(trimmed(group.as_str())),
            None => None,
        }
    } else {
        None
    };
    match command {
        Command::Connect => match argument {
            Some(nick) => Ok(Request::Connect { nick }),
            None => Err(ServerError::InvalidRequest),
        },
        Command::Send => match argument {
            Some(text) => Ok(Request::Send { text }),
            None => Err(ServerError::InvalidRequest),
        },
        Command::Disconnect => match argument {
            Some(reason) => Ok(Request::Disconnect { reason }),
            None => Ok(Request::Disconnect { reason: String::new() }),
        },
    }
}

impl View for CommandGrammar {
    type V = Seq<(Seq<char>, Command)>;

    /// The rules: the pattern that each matcher was compiled from, and its
    /// command.
    closed spec fn view(&self) -> Seq<(Seq<char>, Command)> {
        self.rules@.map_values(|rule: Rule| (regex_pattern(&rule.matcher), rule.command))
    }
}

impl CommandGrammar {
    /// Compiles the rules `given`, in their order. This succeeds where the
    /// regex crate accepts every pattern; else the error names the first rule
    /// whose pattern it refuses.
    pub fn from_rules(given: &Vec<(&str, Command)>) -> (grammar: Result<
        CommandGrammar,
        GrammarError,
    >)
        ensures
            match grammar {
                Ok(g) => g@ == rules_of(given@) && first_refused(rules_of(given@)) is None,
                Err(e) => first_refused(rules_of(given@)) == Some(e.rule as int),
            },
    {
        let ghost wanted = rules_of(given@);
        let mut rules: Vec<Rule> = Vec::new();
        let mut i: usize = 0;
        while i < given.len()
            invariant
                i <= given.len(),
                wanted == rules_of(given@),
                rules@.len() == i,
                rules@.map_values(|rule: Rule| (regex_pattern(&rule.matcher), rule.command))
                    == wanted.take(i as int),
                first_refused(wanted.take(i as int)) is None,
            decreases given.len() - i,
        {
            assert(wanted.take(i + 1).drop_last() == wanted.take(i as int));
            match compile(given[i].0) {
                Ok(matcher) => {
                    rules.push(Rule { matcher, command: given[i].1 });
                },
                Err(_) => {
                    proof {
                        lemma_first_refused_of_prefix(wanted, i + 1);
                    }
                    return Err(GrammarError { rule: i });
                },
            }
            i += 1;
        }
        Ok(CommandGrammar { rules })
    }

    /// Compiles the rules of the protocol. This succeeds where the regex
    /// crate accepts the three patterns.
    pub fn new() -> (grammar: Result<CommandGrammar, GrammarError>)
        ensures
            match grammar {
                Ok(g) => g@ == protocol_rules() && first_refused(protocol_rules()) is None,
                Err(e) => first_refused(protocol_rules()) == Some(e.rule as int),
            },
    {
        let mut given: Vec<(&str, Command)> = Vec::new();
        given.push((CONNECT_PATTERN, Command::Connect));
        given.push((SEND_PATTERN, Command::Send));
        given.push((DISCONNECT_PATTERN, Command::Disconnect));
        assert(rules_of(given@) =~= protocol_rules());
        Self::from_rules(&given)
    }

    /// Reads one line: the request of the first rule whose pattern matches
    /// it, or `InvalidRequest` where there is none.
    pub fn parse(&self, line: &str) -> (request: Result<Request, ServerError>)
        ensures
            match request {
                Ok(r) => first_match(self@, line@) == Some(r@),
                Err(e) => e == ServerError::InvalidRequest && first_match(self@, line@) is None,
            },
    {
        let mut i: usize = 0;
        assert(self@.skip(0) == self@);
        while i < self.rules.len()
            invariant
                i <= self.rules.len() == self@.len(),
                first_match(self@, line@) == first_match(self@.skip(i as int), line@),
            decreases self.rules.len() - i,
        {
            let rule = &self.rules[i];
            assert(self@.skip(i as int).drop_first() == self@.skip(i + 1));
            match captures(&rule.matcher, line) {
                Some(groups) => {
                    return request_from(rule.command, &groups);
                },
                None => {},
            }
            i += 1;
        }
        Err(ServerError::InvalidRequest)
    }
}

/// A pattern refused within the first `n` rules is the first one refused
/// among all of them.
proof fn lemma_first_refused_of_prefix(rules: Seq<(Seq<char>, Command)>, n: int)
    requires
        0 <= n <= rules.len(),
        first_refused(rules.take(n)) is Some,
    ensures
        first_refused(rules) == first_refused(rules.take(n)),
    decreases rules.len() - n,
{
    if n < rules.len() {
        assert(rules.take(n + 1).drop_last() == rules.take(n));
        lemma_first_refused_of_prefix(rules, n + 1);
    } else {
        assert(rules.take(n) == rules);
    }
}

} // verus!
