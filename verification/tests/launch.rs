use chat_relay::launch::is_server;

fn args(words: &[&str]) -> Vec<String> {
    words.iter().map(|w| w.to_string()).collect()
}

#[test]
fn the_word_server_selects_the_server() {
    let mut given = args(&["chat", "server"]);
    assert!(is_server(&mut given));
    assert_eq!(given, args(&["chat", "server"]));
}

#[test]
fn any_other_word_selects_the_client() {
    assert!(!is_server(&mut args(&["chat", "alice", "10.0.0.1"])));
    assert!(!is_server(&mut args(&["chat", "Server"])));
    assert!(!is_server(&mut args(&["chat", "server "])));
    assert!(!is_server(&mut args(&["chat", ""])));
    assert!(!is_server(&mut args(&["server", "alice"])));
}

#[test]
fn only_the_first_argument_counts() {
    assert!(is_server(&mut args(&["chat", "server", "extra"])));
    assert!(!is_server(&mut args(&["chat", "alice", "server"])));
}
