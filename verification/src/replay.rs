//! The history of a dispatcher, and what holds of the registry after any
//! history: it is stated over the events alone.

use vstd::prelude::*;

use crate::address::PeerAddress;
use crate::error::ServerError;
use crate::grammar::RequestView;
use crate::registry::{distinct, keeping, lemma_keeping, lemma_without, registered, without, ClientView};
use crate::server::{after_request, reply_to, DispatchView};

verus! {

/// What happens to a dispatcher.
pub enum Event<H> {
    /// A line from `addr` was served: `request` is what the line asks, or
    /// `None` for an invalid line, and `stream` the handle that came with it.
    Request { request: Option<RequestView>, stream: Option<H>, addr: PeerAddress },
    /// The clients with the addresses `failed` could not be written to.
    Failures { failed: Set<PeerAddress> },
}

/// The registry after one event: a request is served, and the clients that
/// could not be written to are dropped.
pub open spec fn after_event<H>(reg: Seq<ClientView<H>>, event: Event<H>) -> Seq<ClientView<H>> {
    match event {
        Event::Request { request, stream, addr } => after_request(reg, request, stream, addr),
        Event::Failures { failed } => keeping(reg, failed),
    }
}

/// The registry after the events `events`, starting without clients.
pub open spec fn replay<H>(events: Seq<Event<H>>) -> Seq<ClientView<H>>
    decreases events.len(),
{
    if events.len() == 0 {
        Seq::empty()
    } else {
        after_event(replay(events.drop_last()), events.last())
    }
}

/// Whether `event` registers exactly the client `c`.
pub open spec fn introduces<H>(event: Event<H>, c: ClientView<H>) -> bool {
    event == (Event::Request {
        request: Some(RequestView::Connect { nick: c.nick }),
        stream: Some(c.stream),
        addr: c.addr,
    })
}

/// Whether `event` decides if the address `addr` is registered: it is a
/// registration with a usable handle or a departure from that address, or a
/// failed write to it.
pub open spec fn concerns<H>(event: Event<H>, addr: PeerAddress) -> bool {
    match event {
        Event::Request { request, stream, addr: from } => from == addr && match request {
            Some(RequestView::Connect { .. }) => stream is Some,
            Some(RequestView::Disconnect { .. }) => true,
            _ => false,
        },
        Event::Failures { failed } => failed.contains(addr),
    }
}

/// Whether the event `i` registers the client `c` and no later event
/// concerns its address.
pub open spec fn settles<H>(events: Seq<Event<H>>, i: int, c: ClientView<H>) -> bool {
    &&& 0 <= i < events.len()
    &&& introduces(events[i], c)
    &&& forall|j: int| i < j < events.len() ==> !concerns(#[trigger] events[j], c.addr)
}

/// An event keeps the addresses of the registry distinct.
pub proof fn lemma_after_event_distinct<H>(reg: Seq<ClientView<H>>, event: Event<H>)
    requires
        distinct(reg),
    ensures
        distinct(after_event(reg, event)),
{
    match event {
        Event::Request { request, stream, addr } => {
            lemma_without(reg, addr);
        },
        Event::Failures { failed } => {
            lemma_keeping(reg, failed);
        },
    }
}

/// After an event the registry holds the client that the event registered,
/// and the clients it held before that the event does not concern.
pub proof fn lemma_after_event_contains<H>(
    reg: Seq<ClientView<H>>,
    event: Event<H>,
    c: ClientView<H>,
)
    requires
        distinct(reg),
    ensures
        after_event(reg, event).contains(c) <==> introduces(event, c) || (reg.contains(c)
            && !concerns(event, c.addr)),
{
    match event {
        Event::Request { request, stream, addr } => {
            lemma_without(reg, addr);
            let rest = without(reg, addr);
            let served = after_request(reg, request, stream, addr);
            match (request, stream) {
                (Some(RequestView::Connect { nick }), Some(handle)) => {
                    // The newcomer stands behind those who stay.
                    if rest.contains(c) {
                        let k = choose|k: int| 0 <= k < rest.len() && rest[k] == c;
                        assert(served[k] == c);
                    }
                    assert(served.contains(served.last()));
                },
                _ => {},
            }
        },
        Event::Failures { failed } => {
            lemma_keeping(reg, failed);
        },
    }
}

/// No two clients of a replayed registry share an address.
pub proof fn lemma_replay_distinct<H>(events: Seq<Event<H>>)
    ensures
        distinct(replay(events)),
    decreases events.len(),
{
    if events.len() > 0 {
        lemma_replay_distinct(events.drop_last());
        lemma_after_event_distinct(replay(events.drop_last()), events.last());
    }
}

/// After any events from an empty registry, the registry holds exactly the
/// clients whose registration was the last event that concerned their
/// address: neither a departure from it, nor a failed write to it, nor
/// another registration from it came later.
pub proof fn lemma_replay_contains<H>(events: Seq<Event<H>>, c: ClientView<H>)
    ensures
        replay(events).contains(c) <==> exists|i: int| settles(events, i, c),
    decreases events.len(),
{
    if events.len() > 0 {
        let before = events.drop_last();
        let last = events.last();
        lemma_replay_contains(before, c);
        lemma_replay_distinct(before);
        lemma_after_event_contains(replay(before), last, c);
        if replay(events).contains(c) {
            if introduces(last, c) {
                assert(settles(events, before.len() as int, c));
            } else {
                let i = choose|i: int| settles(before, i, c);
                assert forall|j: int| i < j < events.len() implies !concerns(
                    #[trigger] events[j],
                    c.addr,
                ) by {
                    if j < before.len() {
                        assert(events[j] == before[j]);
                    }
                }
                assert(settles(events, i, c));
            }
        }
        if exists|i: int| settles(events, i, c) {
            let i = choose|i: int| settles(events, i, c);
            if i < before.len() {
                assert(settles(before, i, c));
            }
        }
    }
}

/// A departure from an address that is not registered changes nothing and
/// says nothing.
pub proof fn lemma_disconnect_unregistered<H>(
    reg: Seq<ClientView<H>>,
    reason: Seq<char>,
    stream: Option<H>,
    addr: PeerAddress,
)
    requires
        !registered(reg, addr),
    ensures
        after_request(reg, Some(RequestView::Disconnect { reason }), stream, addr) == reg,
        reply_to(reg, Some(RequestView::Disconnect { reason }), stream, addr) == Ok::<
            DispatchView<H>,
            ServerError,
        >(DispatchView::UnrecognizedSender),
{
}

/// A second departure from the same address changes nothing and says
/// nothing, whatever the reasons given.
pub proof fn lemma_disconnect_idempotent<H>(
    reg: Seq<ClientView<H>>,
    first: Seq<char>,
    second: Seq<char>,
    stream: Option<H>,
    addr: PeerAddress,
)
    requires
        distinct(reg),
    ensures
        ({
            let once = after_request(
                reg,
                Some(RequestView::Disconnect { reason: first }),
                stream,
                addr,
            );
            &&& after_request(once, Some(RequestView::Disconnect { reason: second }), stream, addr)
                == once
            &&& reply_to(once, Some(RequestView::Disconnect { reason: second }), stream, addr)
                == Ok::<DispatchView<H>, ServerError>(DispatchView::UnrecognizedSender)
        }),
{
    lemma_without(reg, addr);
}

} // verus!
