use chat_relay::client::{
    prompt_for, render_line, Client, KeyAction, RenderError, Submission, KEY_BACKSPACE,
    KEY_INTERRUPT, KEY_LINE_FEED, KEY_RETURN,
};

fn typing(client: &mut Client, text: &str) {
    for byte in text.bytes() {
        client.key_pressed(byte);
    }
}

#[test]
fn a_new_client_has_typed_nothing() {
    let client = Client::new("alice");
    assert_eq!(client.nick(), "alice");
    assert_eq!(client.typed(), "");
    assert_eq!(client.prompt(), "alice> ");
}

#[test]
fn connecting_sends_the_registration_line() {
    assert_eq!(Client::new("alice").connect(), "CONNECT alice\n");
}

#[test]
fn a_key_joins_the_message_and_is_echoed() {
    let mut client = Client::new("alice");
    assert_eq!(client.key_pressed(b'h'), KeyAction::Echo('h'));
    assert_eq!(client.key_pressed(b'i'), KeyAction::Echo('i'));
    assert_eq!(client.key_pressed(b' '), KeyAction::Echo(' '));
    assert_eq!(client.typed(), "hi ");
}

#[test]
fn a_byte_joins_the_message_as_the_character_of_its_value() {
    let mut client = Client::new("alice");
    assert_eq!(client.key_pressed(0xe9), KeyAction::Echo('é'));
    assert_eq!(client.key_pressed(0), KeyAction::Echo('\0'));
    assert_eq!(client.typed(), "é\0");
}

#[test]
fn backspace_takes_the_last_character() {
    let mut client = Client::new("alice");
    typing(&mut client, "hey");
    assert_eq!(client.key_pressed(KEY_BACKSPACE), KeyAction::Erase);
    assert_eq!(client.typed(), "he");
}

#[test]
fn backspace_on_an_empty_message_does_nothing() {
    let mut client = Client::new("alice");
    assert_eq!(client.key_pressed(KEY_BACKSPACE), KeyAction::Ignore);
    assert_eq!(client.typed(), "");
    typing(&mut client, "a");
    assert_eq!(client.key_pressed(KEY_BACKSPACE), KeyAction::Erase);
    assert_eq!(client.key_pressed(KEY_BACKSPACE), KeyAction::Ignore);
    assert_eq!(client.typed(), "");
}

#[test]
fn enter_submits_and_leaves_the_message_as_it_is() {
    let mut client = Client::new("alice");
    typing(&mut client, "hello");
    assert_eq!(client.key_pressed(KEY_LINE_FEED), KeyAction::Submit);
    assert_eq!(client.key_pressed(KEY_RETURN), KeyAction::Submit);
    assert_eq!(client.typed(), "hello");
}

#[test]
fn the_interrupt_key_leaves() {
    let mut client = Client::new("alice");
    typing(&mut client, "hello");
    assert_eq!(client.key_pressed(KEY_INTERRUPT), KeyAction::Interrupt);
    assert_eq!(client.typed(), "hello");
}

#[test]
fn a_submitted_message_is_said() {
    let mut client = Client::new("alice");
    typing(&mut client, "hello world");
    assert_eq!(client.submit(), Submission::Say("SEND hello world\r\n".to_string()));
    assert_eq!(client.typed(), "");
    assert_eq!(client.nick(), "alice");
}

#[test]
fn an_empty_message_is_said_too() {
    let mut client = Client::new("alice");
    assert_eq!(client.submit(), Submission::Say("SEND \r\n".to_string()));
}

#[test]
fn the_quit_word_leaves_the_chat() {
    let mut client = Client::new("alice");
    typing(&mut client, "!quit");
    assert_eq!(client.submit(), Submission::Leave("DISCONNECT\r\n".to_string()));
    assert_eq!(client.typed(), "");
}

#[test]
fn what_follows_the_quit_word_is_the_reason() {
    let mut client = Client::new("alice");
    typing(&mut client, "!quit see you");
    assert_eq!(client.submit(), Submission::Leave("DISCONNECT see you\r\n".to_string()));
    typing(&mut client, "!quitting");
    assert_eq!(client.submit(), Submission::Leave("DISCONNECTting\r\n".to_string()));
}

#[test]
fn the_quit_word_counts_only_at_the_start() {
    let mut client = Client::new("alice");
    typing(&mut client, " !quit");
    assert_eq!(client.submit(), Submission::Say("SEND  !quit\r\n".to_string()));
    typing(&mut client, "!qui");
    assert_eq!(client.submit(), Submission::Say("SEND !qui\r\n".to_string()));
}

#[test]
fn the_prompt_is_the_nickname_and_a_mark() {
    assert_eq!(prompt_for("bob"), "bob> ");
    assert_eq!(prompt_for(""), "> ");
}

#[test]
fn a_relayed_message_shows_its_sender_and_text() {
    assert_eq!(
        render_line("SENT alice hello world"),
        Ok(Some("\r\x1b[Kalice: hello world\r\n".to_string()))
    );
    assert_eq!(render_line("SENT alice "), Ok(Some("\r\x1b[Kalice: \r\n".to_string())));
    assert_eq!(render_line("SENT  x"), Ok(Some("\r\x1b[K: x\r\n".to_string())));
    assert_eq!(render_line("SENT zoë  two"), Ok(Some("\r\x1b[Kzoë:  two\r\n".to_string())));
}

#[test]
fn a_relayed_message_without_text_is_an_error() {
    assert_eq!(render_line("SENT alice"), Err(RenderError::MissingText));
    assert_eq!(render_line("SENT "), Err(RenderError::MissingText));
}

#[test]
fn an_introduction_shows_who_connected() {
    assert_eq!(
        render_line("INTRODUCE alice"),
        Ok(Some("\r\x1b[Kalice connected to the server.\r\n".to_string()))
    );
    assert_eq!(
        render_line("INTRODUCE alice and more"),
        Ok(Some("\r\x1b[Kalice connected to the server.\r\n".to_string()))
    );
    assert_eq!(
        render_line("INTRODUCE "),
        Ok(Some("\r\x1b[K connected to the server.\r\n".to_string()))
    );
}

#[test]
fn a_farewell_shows_who_left() {
    assert_eq!(
        render_line("GOODBYE alice"),
        Ok(Some("\r\x1b[Kalice disconnected from the server.\r\n".to_string()))
    );
    assert_eq!(
        render_line("GOODBYE alice "),
        Ok(Some("\r\x1b[Kalice disconnected from the server.\r\n".to_string()))
    );
}

#[test]
fn a_farewell_with_a_reason_shows_it_trimmed() {
    assert_eq!(
        render_line("GOODBYE alice bye"),
        Ok(Some("\r\x1b[Kalice disconnected with message: bye.\r\n".to_string()))
    );
    assert_eq!(
        render_line("GOODBYE alice   see  you \t"),
        Ok(Some("\r\x1b[Kalice disconnected with message: see  you.\r\n".to_string()))
    );
}

#[test]
fn other_lines_show_nothing() {
    assert_eq!(render_line(""), Ok(None));
    assert_eq!(render_line("SENT"), Ok(None));
    assert_eq!(render_line("sent alice hi"), Ok(None));
    assert_eq!(render_line("INTRODUCE"), Ok(None));
    assert_eq!(render_line("GOODBYE"), Ok(None));
    assert_eq!(render_line("HELLO alice"), Ok(None));
}
