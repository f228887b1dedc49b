//! The connection reader: what one connection reads becomes packets for the
//! dispatcher, in the order of the lines, and the end of the connection
//! becomes a departure.

use vstd::prelude::*;
use vstd::string::*;

use crate::address::PeerAddress;
use crate::protocol::DISCONNECT_WORD;
use crate::server::ChannelPacket;

verus! {

/// What a read on a connection gave.
#[derive(Debug, PartialEq, Eq)]
pub enum Read {
    /// One line, without its line end.
    Line(String),
    /// The connection ended, or the read failed.
    End,
}

/// The request that a read stands for: the line itself, or a departure
/// without a reason where the connection ended.
pub open spec fn request_text(read: Read) -> Seq<char> {
    match read {
        Read::Line(line) => line@,
        Read::End => DISCONNECT_WORD@,
    }
}

/// Makes the packet for what was read on the connection from `addr`, and
/// tells whether the reader reads on: a line is forwarded as it is, and the
/// end of the connection is forwarded as a departure, after which the reader
/// stops.
pub fn packet_for<H>(read: Read, stream: Option<H>, addr: PeerAddress) -> (out: (
    ChannelPacket<H>,
    bool,
))
    ensures
        out.0.request@ == request_text(read),
        out.0.stream == stream,
        out.0.addr == addr,
        out.1 == (read is Line),
{
    match read {
        Read::Line(line) => (ChannelPacket { request: line, stream, addr }, true),
        Read::End => (
            ChannelPacket { request: String::from_str(DISCONNECT_WORD), stream, addr },
            false,
        ),
    }
}

/// Whether the reader reads on after it handed a packet to the dispatcher:
/// only after a line, and only while the dispatcher still takes packets.
pub fn reads_on(after_line: bool, accepted: bool) -> (on: bool)
    ensures
        on == (after_line && accepted),
{
    after_line && accepted
}

} // verus!
