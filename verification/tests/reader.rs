use chat_relay::address::PeerAddress;
use chat_relay::grammar::{CommandGrammar, Request};
use chat_relay::reader::{packet_for, reads_on, Read};

const FROM: PeerAddress = PeerAddress::V4 { ipv4: 0x7f00_0001, port: 4000 };

#[test]
fn a_line_is_forwarded_as_it_is() {
    let (packet, on) = packet_for(Read::Line("SEND hi".to_string()), Some(3u8), FROM);
    assert_eq!(packet.request, "SEND hi");
    assert_eq!(packet.stream, Some(3u8));
    assert_eq!(packet.addr, FROM);
    assert!(on);
}

#[test]
fn the_end_of_the_connection_becomes_a_departure() {
    let (packet, on) = packet_for(Read::End, None::<u8>, FROM);
    assert_eq!(packet.request, "DISCONNECT");
    assert_eq!(packet.stream, None);
    assert_eq!(packet.addr, FROM);
    assert!(!on);
    let grammar = CommandGrammar::new().expect("the patterns compile");
    assert_eq!(grammar.parse(&packet.request), Ok(Request::Disconnect { reason: String::new() }));
}

#[test]
fn the_reader_stops_when_the_dispatcher_is_gone() {
    assert!(reads_on(true, true));
    assert!(!reads_on(true, false));
    assert!(!reads_on(false, true));
    assert!(!reads_on(false, false));
}
