//! The dispatcher: the one owner of the client registry. It reads each
//! request against the command grammar, changes the registry, and says which
//! line goes to which clients. The lines are written by the caller, who
//! reports the clients that could not be reached; they leave the registry
//! after the pass over it is complete.

use vstd::prelude::*;
use vstd::string::*;

use crate::address::PeerAddress;
use crate::error::ServerError;
use crate::grammar::{
    first_refused, protocol_rules, request_in, CommandGrammar, GrammarError, Request, RequestView,
};
use crate::protocol::{goodbye, goodbye_line, introduce, introduce_line, sent, sent_line};
use crate::registry::{
    distinct, everyone, everyone_but, keeping, lemma_keeping, lemma_position,
    lemma_position_is_first, lemma_without, position, registered, without, ClientView,
};
use crate::replay::{after_event, lemma_replay_contains, replay, settles, Event};

verus! {

/// The seconds without a request after which a server without clients stops,
/// unless another limit is set.
pub const MAX_INACTIVITY: u64 = 5;

/// The nanoseconds of one second.
pub const NANOS_PER_SECOND: u128 = 1_000_000_000;

/// A registered client: its nickname, the handle its lines are written to,
/// and the address of its connection.
#[derive(Debug)]
pub struct ClientConnection<H> {
    pub nick: String,
    pub stream: H,
    pub addr: PeerAddress,
}

impl<H> View for ClientConnection<H> {
    type V = ClientView<H>;

    open spec fn view(&self) -> ClientView<H> {
        ClientView { nick: self.nick@, stream: self.stream, addr: self.addr }
    }
}

impl<H> ClientConnection<H> {
    /// The client named `nick` that is written to through `stream` and
    /// connected from `addr`.
    pub fn new(nick: &str, stream: H, addr: PeerAddress) -> (client: ClientConnection<H>)
        ensures
            client@ == (ClientView { nick: nick@, stream, addr }),
    {
        ClientConnection { nick: String::from_str(nick), stream, addr }
    }
}

/// One line for a number of clients.
#[derive(Debug)]
pub struct Broadcast<H> {
    /// The line, with its line end.
    pub line: String,
    /// The places in the registry of the clients it goes to, ascending.
    pub recipients: Vec<usize>,
    /// The client that has just left the registry and is still told so.
    pub leaver: Option<ClientConnection<H>>,
}

/// What a broadcast is, to the contracts.
pub struct BroadcastView<H> {
    pub line: Seq<char>,
    pub recipients: Seq<usize>,
    pub leaver: Option<ClientView<H>>,
}

impl<H> View for Broadcast<H> {
    type V = BroadcastView<H>;

    open spec fn view(&self) -> BroadcastView<H> {
        BroadcastView {
            line: self.line@,
            recipients: self.recipients@,
            leaver: match self.leaver {
                Some(client) => Some(client@),
                None => None,
            },
        }
    }
}

/// What a request asks the caller to do.
#[derive(Debug)]
pub enum Dispatch<H> {
    /// Write the line to its recipients.
    Deliver(Broadcast<H>),
    /// Nothing: the request came from an address that is not registered.
    UnrecognizedSender,
}

/// What a dispatch is, to the contracts.
pub enum DispatchView<H> {
    Deliver(BroadcastView<H>),
    UnrecognizedSender,
}

impl<H> View for Dispatch<H> {
    type V = DispatchView<H>;

    open spec fn view(&self) -> DispatchView<H> {
        match self {
            Dispatch::Deliver(broadcast) => DispatchView::Deliver(broadcast@),
            Dispatch::UnrecognizedSender => DispatchView::UnrecognizedSender,
        }
    }
}

/// One line read from a connection, with the handle to write to that
/// connection, where one could be had, and the connection's address.
#[derive(Debug)]
pub struct ChannelPacket<H> {
    pub request: String,
    pub stream: Option<H>,
    pub addr: PeerAddress,
}

/// What the dispatch loop found on the channel.
#[derive(Debug)]
pub enum Received<H> {
    /// A packet from a connection reader.
    Packet(ChannelPacket<H>),
    /// Nothing for now; the readers may still send.
    Empty,
    /// Nothing, and nothing will come: every sender is gone.
    Closed,
}

/// Why the dispatch loop stops.
#[derive(Clone, Copy, Debug, PartialEq, Eq, Structural)]
pub enum StopReason {
    /// Nobody is registered and nothing was received for longer than the
    /// idle limit: the server ends cleanly.
    Idle,
    /// The channel is closed: the server cannot go on.
    ChannelClosed,
}

/// What the dispatch loop does next.
#[derive(Debug)]
pub enum Step<H> {
    /// Write the line to its recipients, then finish the request.
    Deliver(Broadcast<H>),
    /// The request came from an address that is not registered: finish it.
    Unrecognized,
    /// The request was refused: finish it.
    Refused(ServerError),
    /// Nothing was received: ask again.
    Wait,
    /// Leave the loop.
    Stop(StopReason),
}

/// The registry after a request from `addr`, before the clients that could
/// not be reached are dropped.
///
/// A registration with a usable handle puts the client at the end, in place
/// of the one that was registered from the same address, if any. A departure
/// takes the client of that address out. Nothing else changes the registry.
pub open spec fn after_request<H>(
    reg: Seq<ClientView<H>>,
    request: Option<RequestView>,
    stream: Option<H>,
    addr: PeerAddress,
) -> Seq<ClientView<H>> {
    match request {
        Some(RequestView::Connect { nick }) => match stream {
            Some(handle) => without(reg, addr).push(ClientView { nick, stream: handle, addr }),
            None => reg,
        },
        Some(RequestView::Disconnect { reason }) => without(reg, addr),
        _ => reg,
    }
}

/// The answer to a request from `addr`.
///
/// An invalid line and a registration without a usable handle are refused.
/// A registration is announced to everybody, the newcomer included. A
/// message goes to everybody but its sender, and a departure to everybody
/// who stays and to the one who leaves; from an address that is not
/// registered neither says anything.
pub open spec fn reply_to<H>(
    reg: Seq<ClientView<H>>,
    request: Option<RequestView>,
    stream: Option<H>,
    addr: PeerAddress,
) -> Result<DispatchView<H>, ServerError> {
    match request {
        None => Err(ServerError::InvalidRequest),
        Some(RequestView::Connect { nick }) => match stream {
            None => Err(ServerError::ClientDisconnected),
            Some(handle) => Ok(
                DispatchView::Deliver(
                    BroadcastView {
                        line: introduce_line(nick),
                        recipients: everyone(after_request(reg, request, stream, addr).len()),
                        leaver: None,
                    },
                ),
            ),
        },
        Some(RequestView::Send { text }) => if registered(reg, addr) {
            Ok(
                DispatchView::Deliver(
                    BroadcastView {
                        line: sent_line(reg[position(reg, addr)].nick, text),
                        recipients: everyone_but(reg, addr),
                        leaver: None,
                    },
                ),
            )
        } else {
            Ok(DispatchView::UnrecognizedSender)
        },
        Some(RequestView::Disconnect { reason }) => if registered(reg, addr) {
            Ok(
                DispatchView::Deliver(
                    BroadcastView {
                        line: goodbye_line(reg[position(reg, addr)].nick, reason),
                        recipients: everyone(without(reg, addr).len()),
                        leaver: Some(reg[position(reg, addr)]),
                    },
                ),
            )
        } else {
            Ok(DispatchView::UnrecognizedSender)
        },
    }
}

/// Whether the watchdog stops the server: nobody is registered, and the time
/// from `last` to `now`, two readings in nanoseconds of one clock, exceeds
/// `limit` seconds.
pub open spec fn watchdog_fires(clients: nat, last: u128, now: u128, limit: u64) -> bool {
    clients == 0 && now > last && now - last > limit * NANOS_PER_SECOND
}

/// What the dispatch loop does when the channel gave no packet: it stops
/// where the channel is closed or the watchdog fires, and else it waits.
pub open spec fn step_without_packet(closed: bool, fires: bool) -> Option<StopReason> {
    if closed {
        Some(StopReason::ChannelClosed)
    } else if fires {
        Some(StopReason::Idle)
    } else {
        None
    }
}

/// The dispatcher with its registry, its grammar and its watchdog.
pub struct Server<H> {
    clients: Vec<ClientConnection<H>>,
    commands: CommandGrammar,
    last_check: u128,
    idle_limit: u64,
    history: Ghost<Seq<Event<H>>>,
}

impl<H> View for Server<H> {
    type V = Seq<ClientView<H>>;

    /// The registry: the clients in the order in which they registered.
    closed spec fn view(&self) -> Seq<ClientView<H>> {
        self.clients@.map_values(|c: ClientConnection<H>| c@)
    }
}

impl<H> Server<H> {
    /// The clock reading, in nanoseconds, at which the last request was
    /// finished.
    pub closed spec fn last_check(&self) -> u128 {
        self.last_check
    }

    /// The seconds without a request after which the watchdog may fire.
    pub closed spec fn idle_limit(&self) -> u64 {
        self.idle_limit
    }

    /// The grammar holds the rules of the protocol.
    pub closed spec fn grammar_ready(&self) -> bool {
        self.commands@ == protocol_rules()
    }

    /// Everything that happened to this server, oldest first.
    pub closed spec fn history(&self) -> Seq<Event<H>> {
        self.history@
    }

    /// The server is well formed: no two clients share an address, the
    /// registry is what the history of the server leaves, and the grammar is
    /// that of the protocol.
    pub open spec fn wf(&self) -> bool {
        &&& distinct(self@)
        &&& self@ == replay(self.history())
        &&& self.grammar_ready()
    }

    /// Whether `self` is `before` after `event`, with the same watchdog.
    pub open spec fn follows(&self, before: &Server<H>, event: Event<H>) -> bool {
        &&& self.wf()
        &&& self@ == after_event(before@, event)
        &&& self.history() == before.history().push(event)
        &&& self.last_check() == before.last_check()
        &&& self.idle_limit() == before.idle_limit()
    }

    /// At any time the registry holds exactly the clients whose registration
    /// was the last event that concerned their address: neither a departure
    /// from it, nor a failed write to it, nor another registration from it
    /// came later.
    pub proof fn lemma_registry_holds_last_registrations(&self, c: ClientView<H>)
        requires
            self.wf(),
        ensures
            self@.contains(c) <==> exists|i: int| settles(self.history(), i, c),
    {
        lemma_replay_contains(self.history(), c);
    }

    /// A server without clients and without a history, whose last activity
    /// is `now`. It is made where the regex crate accepts the patterns of the
    /// grammar.
    pub fn new(now: u128) -> (server: Result<Server<H>, GrammarError>)
        ensures
            match server {
                Ok(s) => {
                    &&& s.wf()
                    &&& s@ == Seq::<ClientView<H>>::empty()
                    &&& s.history() == Seq::<Event<H>>::empty()
                    &&& s.last_check() == now
                    &&& s.idle_limit() == MAX_INACTIVITY
                    &&& first_refused(protocol_rules()) is None
                },
                Err(e) => first_refused(protocol_rules()) == Some(e.rule as int),
            },
    {
        match CommandGrammar::new() {
            Ok(commands) => {
                let server = Server {
                    clients: Vec::new(),
                    commands,
                    last_check: now,
                    idle_limit: MAX_INACTIVITY,
                    history: Ghost(Seq::empty()),
                };
                assert(server@ =~= Seq::<ClientView<H>>::empty());
                Ok(server)
            },
            Err(e) => Err(e),
        }
    }

    /// The place of the client connected from `client_addr`: the first one
    /// with that address.
    pub fn client_index(&self, client_addr: PeerAddress) -> (found: Option<usize>)
        ensures
            match found {
                Some(i) => registered(self@, client_addr) && i == position(self@, client_addr),
                None => !registered(self@, client_addr),
            },
    {
        let mut i: usize = 0;
        while i < self.clients.len()
            invariant
                i <= self.clients.len(),
                forall|j: int| 0 <= j < i ==> self@[j].addr != client_addr,
            decreases self.clients.len() - i,
        {
            if self.clients[i].addr == client_addr {
                proof {
                    lemma_position_is_first(self@, client_addr, i as int);
                }
                return Some(i);
            }
            i += 1;
        }
        None
    }

    /// The places `0..n`.
    fn all_places(n: usize) -> (places: Vec<usize>)
        ensures
            places@ == everyone(n as nat),
    {
        let mut places: Vec<usize> = Vec::new();
        let mut i: usize = 0;
        while i < n
            invariant
                i <= n,
                places@ == everyone(i as nat),
            decreases n - i,
        {
            places.push(i);
            i += 1;
        }
        places
    }

    /// Plans the announcement of a newcomer named `nick`: the introduction
    /// goes to every registered client.
    pub fn announce_connected(&self, nick: &str) -> (plan: Broadcast<H>)
        ensures
            plan@ == (BroadcastView::<H> {
                line: introduce_line(nick@),
                recipients: everyone(self@.len()),
                leaver: None,
            }),
    {
        Broadcast {
            line: introduce(nick),
            recipients: Self::all_places(self.clients.len()),
            leaver: None,
        }
    }

    /// Plans the announcement that `leaver`, who is out of the registry, has
    /// left for `reason`: the farewell goes to every registered client and to
    /// the one who leaves.
    pub fn announce_disconnected(&self, leaver: ClientConnection<H>, reason: &str) -> (plan:
        Broadcast<H>)
        ensures
            plan@ == (BroadcastView {
                line: goodbye_line(leaver@.nick, reason@),
                recipients: everyone(self@.len()),
                leaver: Some(leaver@),
            }),
    {
        Broadcast {
            line: goodbye(leaver.nick.as_str(), reason),
            recipients: Self::all_places(self.clients.len()),
            leaver: Some(leaver),
        }
    }

    /// Plans the relay of `msg` as said by the client connected from
    /// `sender_addr`: the line goes to every other client. A sender that is
    /// not registered says nothing.
    pub fn send_client_message(&self, sender_addr: PeerAddress, msg: &str) -> (dispatch: Dispatch<
        H,
    >)
        ensures
            reply_to(self@, Some(RequestView::Send { text: msg@ }), None, sender_addr) == Ok::<
                DispatchView<H>,
                ServerError,
            >(dispatch@),
    {
        let sender_index = match self.client_index(sender_addr) {
            None => {
                return Dispatch::UnrecognizedSender;
            },
            Some(i) => i,
        };
        proof {
            lemma_position(self@, sender_addr);
        }
        let line = sent(self.clients[sender_index].nick.as_str(), msg);
        let mut recipients: Vec<usize> = Vec::new();
        let ghost others = |i: usize| self@[i as int].addr != sender_addr;
        let mut i: usize = 0;
        proof {
            reveal(Seq::filter);
        }
        while i < self.clients.len()
            invariant
                i <= self.clients.len(),
                others == |i: usize| self@[i as int].addr != sender_addr,
                recipients@ == everyone(i as nat).filter(others),
            decreases self.clients.len() - i,
        {
            proof {
                assert(everyone((i + 1) as nat) =~= everyone(i as nat).push(i));
                everyone(i as nat).lemma_filter_push(i, others);
            }
            if self.clients[i].addr != sender_addr {
                recipients.push(i);
            }
            i += 1;
        }
        Dispatch::Deliver(Broadcast { line, recipients, leaver: None })
    }

    /// Serves a registration: the client named `nick` that connected from
    /// `addr` joins the registry, and its introduction is planned. Without a
    /// handle to write to, the client is gone and nothing is registered. A
    /// client already registered from `addr` gives way to the new one.
    pub fn connect_handler(&mut self, nick: &str, stream: Option<H>, addr: PeerAddress) -> (plan:
        Result<Broadcast<H>, ServerError>)
        requires
            old(self).wf(),
        ensures
            final(self).follows(
                old(self),
                Event::Request { request: Some(RequestView::Connect { nick: nick@ }), stream, addr },
            ),
            match plan {
                Ok(b) => reply_to(
                    old(self)@,
                    Some(RequestView::Connect { nick: nick@ }),
                    stream,
                    addr,
                ) == Ok::<DispatchView<H>, ServerError>(DispatchView::Deliver(b@)),
                Err(e) => reply_to(
                    old(self)@,
                    Some(RequestView::Connect { nick: nick@ }),
                    stream,
                    addr,
                ) == Err::<DispatchView<H>, ServerError>(e),
            },
    {
        let ghost event = Event::Request {
            request: Some(RequestView::Connect { nick: nick@ }),
            stream,
            addr,
        };
        self.history = Ghost(self.history@.push(event));
        assert(self.history@.drop_last() =~= old(self).history@);
        let handle = match stream {
            Some(handle) => handle,
            None => {
                return Err(ServerError::ClientDisconnected);
            },
        };
        proof {
            lemma_without(self@, addr);
            lemma_position(self@, addr);
        }
        match self.client_index(addr) {
            Some(i) => {
                self.clients.remove(i);
                assert(self@ =~= without(old(self)@, addr));
            },
            None => {},
        }
        let ghost rest = self@;
        let client = ClientConnection::new(nick, handle, addr);
        self.clients.push(client);
        assert(self@ =~= rest.push(client@));
        Ok(self.announce_connected(nick))
    }

    /// Serves a message: `text`, as said by the client connected from `addr`,
    /// is planned for every other client. The registry stays as it is.
    pub fn send_handler(&mut self, text: &str, stream: Option<H>, addr: PeerAddress) -> (dispatch:
        Dispatch<H>)
        requires
            old(self).wf(),
        ensures
            final(self).follows(
                old(self),
                Event::Request { request: Some(RequestView::Send { text: text@ }), stream, addr },
            ),
            final(self)@ == old(self)@,
            reply_to(old(self)@, Some(RequestView::Send { text: text@ }), stream, addr) == Ok::<
                DispatchView<H>,
                ServerError,
            >(dispatch@),
    {
        let ghost event = Event::Request {
            request: Some(RequestView::Send { text: text@ }),
            stream,
            addr,
        };
        self.history = Ghost(self.history@.push(event));
        assert(self.history@.drop_last() =~= old(self).history@);
        self.send_client_message(addr, text)
    }

    /// Serves a departure: the client connected from `addr` leaves the
    /// registry, and its farewell is planned. From an address that is not
    /// registered this changes nothing and plans nothing.
    pub fn disconnect_handler(&mut self, reason: &str, stream: Option<H>, addr: PeerAddress) -> (dispatch:
        Dispatch<H>)
        requires
            old(self).wf(),
        ensures
            final(self).follows(
                old(self),
                Event::Request {
                    request: Some(RequestView::Disconnect { reason: reason@ }),
                    stream,
                    addr,
                },
            ),
            reply_to(old(self)@, Some(RequestView::Disconnect { reason: reason@ }), stream, addr)
                == Ok::<DispatchView<H>, ServerError>(dispatch@),
            !registered(old(self)@, addr) ==> final(self)@ == old(self)@
                && dispatch is UnrecognizedSender,
    {
        let ghost event = Event::Request {
            request: Some(RequestView::Disconnect { reason: reason@ }),
            stream,
            addr,
        };
        self.history = Ghost(self.history@.push(event));
        assert(self.history@.drop_last() =~= old(self).history@);
        let pos = match self.client_index(addr) {
            Some(i) => i,
            None => {
                return Dispatch::UnrecognizedSender;
            },
        };
        proof {
            lemma_without(self@, addr);
            lemma_position(self@, addr);
        }
        let leaver = self.clients.remove(pos);
        assert(self@ =~= without(old(self)@, addr));
        Dispatch::Deliver(self.announce_disconnected(leaver, reason))
    }

    /// Serves one line received from `addr`: reads it against the grammar,
    /// changes the registry as the request asks, and plans what is written to
    /// whom. `stream` is the handle to write to the connection, where one
    /// could be had. An invalid line is refused and changes nothing.
    pub fn process_request(&mut self, request: &str, stream: Option<H>, addr: PeerAddress) -> (reply:
        Result<Dispatch<H>, ServerError>)
        requires
            old(self).wf(),
        ensures
            final(self).follows(
                old(self),
                Event::Request { request: request_in(request@), stream, addr },
            ),
            match reply {
                Ok(d) => reply_to(old(self)@, request_in(request@), stream, addr) == Ok::<
                    DispatchView<H>,
                    ServerError,
                >(d@),
                Err(e) => reply_to(old(self)@, request_in(request@), stream, addr) == Err::<
                    DispatchView<H>,
                    ServerError,
                >(e),
            },
    {
        let command = match self.commands.parse(request) {
            Ok(command) => command,
            Err(e) => {
                self.history = Ghost(
                    self.history@.push(Event::Request { request: None, stream, addr }),
                );
                assert(self.history@.drop_last() =~= old(self).history@);
                return Err(e);
            },
        };
        match command {
            Request::Connect { nick } => match self.connect_handler(nick.as_str(), stream, addr) {
                Ok(plan) => Ok(Dispatch::Deliver(plan)),
                Err(e) => Err(e),
            },
            Request::Send { text } => Ok(self.send_handler(text.as_str(), stream, addr)),
            Request::Disconnect { reason } => Ok(
                self.disconnect_handler(reason.as_str(), stream, addr),
            ),
        }
    }

    /// Whether `addr` is among `failed`.
    fn listed(failed: &Vec<PeerAddress>, addr: PeerAddress) -> (found: bool)
        ensures
            found == failed@.to_set().contains(addr),
    {
        let mut i: usize = 0;
        while i < failed.len()
            invariant
                i <= failed.len(),
                forall|j: int| 0 <= j < i ==> failed@[j] != addr,
            decreases failed.len() - i,
        {
            if failed[i] == addr {
                return true;
            }
            i += 1;
        }
        false
    }

    /// Drops the clients that could not be written to: those whose address is
    /// among `failed`. The others stay, in their order.
    pub fn remove_failed(&mut self, failed: &Vec<PeerAddress>)
        requires
            old(self).wf(),
        ensures
            final(self).follows(old(self), Event::Failures { failed: failed@.to_set() }),
            final(self)@ == keeping(old(self)@, failed@.to_set()),
    {
        let ghost gone = failed@.to_set();
        let ghost before = self@;
        let ghost stays = |c: ClientView<H>| !gone.contains(c.addr);
        let mut kept: usize = 0;
        let ghost mut seen: int = 0;
        proof {
            reveal(Seq::filter);
        }
        while kept < self.clients.len()
            invariant
                stays == |c: ClientView<H>| !gone.contains(c.addr),
                gone == failed@.to_set(),
                0 <= seen <= before.len(),
                kept <= self.clients.len(),
                self.clients.len() - kept == before.len() - seen,
                self@ == before.take(seen).filter(stays) + before.skip(seen),
                before.take(seen).filter(stays).len() == kept,
                self.last_check() == old(self).last_check(),
                self.idle_limit() == old(self).idle_limit(),
                self.history() == old(self).history(),
                self.grammar_ready(),
            decreases self.clients.len() - kept,
        {
            let ghost current = self@;
            proof {
                assert(before.take(seen + 1) =~= before.take(seen).push(before[seen]));
                before.take(seen).lemma_filter_push(before[seen], stays);
                assert(current[kept as int] == before.skip(seen)[0]);
            }
            if Self::listed(failed, self.clients[kept].addr) {
                self.clients.remove(kept);
                assert(self@ =~= current.remove(kept as int));
            } else {
                kept += 1;
            }
            proof {
                seen = seen + 1;
            }
        }
        proof {
            lemma_keeping(before, gone);
        }
        self.history = Ghost(self.history@.push(Event::Failures { failed: gone }));
        assert(self.history@.drop_last() =~= old(self).history@);
    }

    /// Whether the watchdog stops the server at the clock reading `now`: only
    /// without any client, and only once the time since the last request
    /// exceeds the idle limit.
    pub fn idle_expired(&self, now: u128) -> (stop: bool)
        ensures
            stop == watchdog_fires(self@.len(), self.last_check(), now, self.idle_limit()),
            stop ==> self@.len() == 0,
    {
        if self.clients.len() != 0 || now <= self.last_check {
            return false;
        }
        now - self.last_check > self.idle_limit as u128 * NANOS_PER_SECOND
    }

    /// Takes the next step of the dispatch loop at the clock reading `now`.
    /// A packet is served as a request. A closed channel stops the loop,
    /// whoever is registered. On an empty channel the loop waits, or stops
    /// where the watchdog fires.
    pub fn receive_request(&mut self, received: Received<H>, now: u128) -> (step: Step<H>)
        requires
            old(self).wf(),
        ensures
            match received {
                Received::Packet(packet) => {
                    &&& final(self).follows(
                        old(self),
                        Event::Request {
                            request: request_in(packet.request@),
                            stream: packet.stream,
                            addr: packet.addr,
                        },
                    )
                    &&& step_view(step) == reply_to(
                        old(self)@,
                        request_in(packet.request@),
                        packet.stream,
                        packet.addr,
                    )
                    &&& !(step is Wait) && !(step is Stop)
                },
                _ => {
                    &&& *final(self) == *old(self)
                    &&& match step_without_packet(
                        received is Closed,
                        watchdog_fires(
                            old(self)@.len(),
                            old(self).last_check(),
                            now,
                            old(self).idle_limit(),
                        ),
                    ) {
                        Some(reason) => step == Step::<H>::Stop(reason),
                        None => step is Wait,
                    }
                },
            },
    {
        match received {
            Received::Packet(packet) => {
                let ChannelPacket { request, stream, addr } = packet;
                match self.process_request(request.as_str(), stream, addr) {
                    Ok(Dispatch::Deliver(plan)) => Step::Deliver(plan),
                    Ok(Dispatch::UnrecognizedSender) => Step::Unrecognized,
                    Err(e) => Step::Refused(e),
                }
            },
            Received::Closed => Step::Stop(StopReason::ChannelClosed),
            Received::Empty => {
                if self.idle_expired(now) {
                    Step::Stop(StopReason::Idle)
                } else {
                    Step::Wait
                }
            },
        }
    }

    /// Finishes a request at the clock reading `now`: the clients that could
    /// not be written to are dropped, and the watchdog starts to count anew.
    pub fn finish_request(&mut self, failed: &Vec<PeerAddress>, now: u128)
        requires
            old(self).wf(),
        ensures
            final(self).wf(),
            final(self).history() == old(self).history().push(
                Event::Failures { failed: failed@.to_set() },
            ),
            final(self)@ == keeping(old(self)@, failed@.to_set()),
            final(self).last_check() == now,
            final(self).idle_limit() == old(self).idle_limit(),
    {
        self.remove_failed(failed);
        self.last_check = now;
    }

    /// The number of registered clients.
    pub fn len(&self) -> (n: usize)
        ensures
            n == self@.len(),
    {
        self.clients.len()
    }

    /// The client at the place `index`, where there is one.
    pub fn client(&self, index: usize) -> (client: Option<&ClientConnection<H>>)
        ensures
            match client {
                Some(c) => index < self@.len() && c@ == self@[index as int],
                None => index >= self@.len(),
            },
    {
        if index < self.clients.len() {
            Some(&self.clients[index])
        } else {
            None
        }
    }

    /// The same server with the idle limit `seconds`.
    pub fn with_idle_limit(self, seconds: u64) -> (server: Server<H>)
        ensures
            server@ == self@,
            server.history() == self.history(),
            server.grammar_ready() == self.grammar_ready(),
            server.last_check() == self.last_check(),
            server.idle_limit() == seconds,
    {
        let mut server = self;
        server.idle_limit = seconds;
        server
    }
}

/// The answer that a step of the dispatch loop carries, for the steps that
/// serve a request.
pub open spec fn step_view<H>(step: Step<H>) -> Result<DispatchView<H>, ServerError> {
    match step {
        Step::Deliver(plan) => Ok(DispatchView::Deliver(plan@)),
        Step::Refused(e) => Err(e),
        _ => Ok(DispatchView::UnrecognizedSender),
    }
}

} // verus!
