use chat_relay::error::ServerError;
use chat_relay::grammar::{
    request_from, Command, CommandGrammar, GrammarError, Request, CONNECT_PATTERN,
    DISCONNECT_PATTERN, SEND_PATTERN,
};

fn read(line: &str) -> Result<Request, ServerError> {
    CommandGrammar::new().expect("the patterns compile").parse(line)
}

fn connect(nick: &str) -> Result<Request, ServerError> {
    Ok(Request::Connect { nick: nick.to_string() })
}

fn send(text: &str) -> Result<Request, ServerError> {
    Ok(Request::Send { text: text.to_string() })
}

fn disconnect(reason: &str) -> Result<Request, ServerError> {
    Ok(Request::Disconnect { reason: reason.to_string() })
}

#[test]
fn the_patterns_of_the_grammar_compile() {
    assert!(CommandGrammar::new().is_ok());
}

#[test]
fn connect_takes_a_nickname_of_word_characters() {
    assert_eq!(read("CONNECT alice"), connect("alice"));
    assert_eq!(read("CONNECT   bob_42"), connect("bob_42"));
    assert_eq!(read("CONNECT\tzoë"), connect("zoë"));
}

#[test]
fn connect_without_one_nickname_is_invalid() {
    assert_eq!(read("CONNECT"), Err(ServerError::InvalidRequest));
    assert_eq!(read("CONNECT "), Err(ServerError::InvalidRequest));
    assert_eq!(read("CONNECT alice smith"), Err(ServerError::InvalidRequest));
    assert_eq!(read("CONNECT alice "), Err(ServerError::InvalidRequest));
    assert_eq!(read("CONNECT a-b"), Err(ServerError::InvalidRequest));
    assert_eq!(read("CONNECTalice"), Err(ServerError::InvalidRequest));
}

#[test]
fn send_takes_the_rest_of_the_line_trimmed() {
    assert_eq!(read("SEND hello"), send("hello"));
    assert_eq!(read("SEND hello world"), send("hello world"));
    assert_eq!(read("SEND   spaced  out  "), send("spaced  out"));
    assert_eq!(read("SEND CONNECT alice"), send("CONNECT alice"));
    assert_eq!(read("SEND a|b!?"), send("a|b!?"));
}

#[test]
fn send_without_text_is_invalid() {
    assert_eq!(read("SEND"), Err(ServerError::InvalidRequest));
    assert_eq!(read("SEND "), Err(ServerError::InvalidRequest));
    assert_eq!(read("SENDhello"), Err(ServerError::InvalidRequest));
}

#[test]
fn send_of_white_space_alone_is_an_empty_message() {
    assert_eq!(read("SEND  "), send(""));
    assert_eq!(read("SEND \t "), send(""));
}

#[test]
fn disconnect_takes_an_optional_reason() {
    assert_eq!(read("DISCONNECT"), disconnect(""));
    assert_eq!(read("DISCONNECT "), disconnect(""));
    assert_eq!(read("DISCONNECT bye"), disconnect("bye"));
    assert_eq!(read("DISCONNECT  see you  soon "), disconnect("see you  soon"));
    assert_eq!(read("DISCONNECT a|b"), disconnect("a|b"));
}

#[test]
fn the_reason_of_a_departure_is_free_text() {
    assert_eq!(read("DISCONNECT see you!"), disconnect("see you!"));
    assert_eq!(read("DISCONNECT it's late"), disconnect("it's late"));
    assert_eq!(read("DISCONNECT (brb) 100% -> ???"), disconnect("(brb) 100% -> ???"));
    assert_eq!(read("DISCONNECT\tà bientôt…"), disconnect("à bientôt…"));
    assert_eq!(read("DISCONNECT SEND CONNECT"), disconnect("SEND CONNECT"));
}

#[test]
fn a_departure_needs_a_separator_before_its_reason() {
    assert_eq!(read("DISCONNECTbye"), Err(ServerError::InvalidRequest));
    assert_eq!(read("DISCONNECT!"), Err(ServerError::InvalidRequest));
    assert_eq!(read("DISCONNECTED"), Err(ServerError::InvalidRequest));
}

#[test]
fn other_lines_are_invalid() {
    assert_eq!(read(""), Err(ServerError::InvalidRequest));
    assert_eq!(read("HELLO"), Err(ServerError::InvalidRequest));
    assert_eq!(read("connect alice"), Err(ServerError::InvalidRequest));
    assert_eq!(read(" CONNECT alice"), Err(ServerError::InvalidRequest));
    assert_eq!(read("INTRODUCE alice"), Err(ServerError::InvalidRequest));
    assert_eq!(read("CONNECT alice\n"), Err(ServerError::InvalidRequest));
}

#[test]
fn the_first_rule_that_matches_wins() {
    // A line that begins with a keyword is never read under a later rule.
    assert_eq!(read("CONNECT SEND"), connect("SEND"));
    assert_eq!(read("SEND DISCONNECT"), send("DISCONNECT"));
    assert_eq!(read("DISCONNECT SEND x"), disconnect("SEND x"));
}

#[test]
fn the_argument_is_the_first_group_trimmed() {
    let groups = vec![Some("SEND  hi there ".to_string()), Some(" hi there ".to_string())];
    assert_eq!(request_from(Command::Send, &groups), send("hi there"));
    assert_eq!(request_from(Command::Connect, &groups), connect("hi there"));
    assert_eq!(request_from(Command::Disconnect, &groups), disconnect("hi there"));
}

#[test]
fn a_match_without_its_argument_is_a_request_only_for_a_departure() {
    let whole = vec![Some("DISCONNECT".to_string())];
    assert_eq!(request_from(Command::Disconnect, &whole), disconnect(""));
    assert_eq!(request_from(Command::Connect, &whole), Err(ServerError::InvalidRequest));
    assert_eq!(request_from(Command::Send, &whole), Err(ServerError::InvalidRequest));
    let absent = vec![Some("DISCONNECT".to_string()), None];
    assert_eq!(request_from(Command::Disconnect, &absent), disconnect(""));
    assert_eq!(request_from(Command::Connect, &absent), Err(ServerError::InvalidRequest));
    assert_eq!(request_from(Command::Send, &absent), Err(ServerError::InvalidRequest));
    let nothing: Vec<Option<String>> = vec![];
    assert_eq!(request_from(Command::Send, &nothing), Err(ServerError::InvalidRequest));
}

#[test]
fn a_pattern_that_is_no_regular_expression_is_refused() {
    let broken = vec![("^OK$", Command::Connect), ("^(open", Command::Send), ("[", Command::Send)];
    assert_eq!(CommandGrammar::from_rules(&broken).err(), Some(GrammarError { rule: 1 }));
    let first = vec![("*", Command::Disconnect)];
    assert_eq!(CommandGrammar::from_rules(&first).err(), Some(GrammarError { rule: 0 }));
}

#[test]
fn a_grammar_without_rules_reads_nothing() {
    let empty = CommandGrammar::from_rules(&vec![]).expect("nothing to refuse");
    assert_eq!(empty.parse("CONNECT alice"), Err(ServerError::InvalidRequest));
    assert_eq!(empty.parse(""), Err(ServerError::InvalidRequest));
}

#[test]
fn rules_are_tried_in_their_order() {
    let rules = vec![("^(a+)$", Command::Send), ("^(a|b)+$", Command::Connect)];
    let grammar = CommandGrammar::from_rules(&rules).expect("the patterns compile");
    assert_eq!(grammar.parse("aaa"), send("aaa"));
    assert_eq!(grammar.parse("ab"), connect("b"));
    assert_eq!(grammar.parse("c"), Err(ServerError::InvalidRequest));
    let turned = vec![("^(a|b)+$", Command::Connect), ("^(a+)$", Command::Send)];
    let grammar = CommandGrammar::from_rules(&turned).expect("the patterns compile");
    assert_eq!(grammar.parse("aaa"), connect("a"));
}

#[test]
fn a_first_match_without_its_argument_ends_the_search() {
    let rules = vec![("^x(y)?", Command::Send), ("^(x)$", Command::Connect)];
    let grammar = CommandGrammar::from_rules(&rules).expect("the patterns compile");
    assert_eq!(grammar.parse("x"), Err(ServerError::InvalidRequest));
    assert_eq!(grammar.parse("xy"), send("y"));
}

#[test]
fn the_rules_of_the_protocol_are_its_three_patterns() {
    let rules = vec![
        (CONNECT_PATTERN, Command::Connect),
        (SEND_PATTERN, Command::Send),
        (DISCONNECT_PATTERN, Command::Disconnect),
    ];
    let grammar = CommandGrammar::from_rules(&rules).expect("the patterns compile");
    let protocol = CommandGrammar::new().expect("the patterns compile");
    for line in ["CONNECT alice", "SEND hi there", "DISCONNECT", "DISCONNECT bye", "SEND", "x"] {
        assert_eq!(grammar.parse(line), protocol.parse(line));
    }
}
