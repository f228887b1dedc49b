//! The client registry as its contracts see it: the connected clients in the
//! order in which they registered, at most one for each address.

use vstd::prelude::*;

use crate::address::PeerAddress;

verus! {

/// What a registered client is, to the contracts: a nickname, the handle its
/// lines are written to, and the address that identifies its connection.
pub struct ClientView<H> {
    pub nick: Seq<char>,
    pub stream: H,
    pub addr: PeerAddress,
}

/// No two clients of `reg` have the same address.
pub open spec fn distinct<H>(reg: Seq<ClientView<H>>) -> bool {
    forall|i: int, j: int| 0 <= i < j < reg.len() ==> reg[i].addr != reg[j].addr
}

/// Whether a client with the address `addr` is in `reg`.
pub open spec fn registered<H>(reg: Seq<ClientView<H>>, addr: PeerAddress) -> bool {
    exists|i: int| 0 <= i < reg.len() && reg[i].addr == addr
}

/// The place of the first client with the address `addr`, or the length of
/// `reg` where there is none.
pub open spec fn position<H>(reg: Seq<ClientView<H>>, addr: PeerAddress) -> int
    decreases reg.len(),
{
    if reg.len() == 0 || reg.first().addr == addr {
        0
    } else {
        1 + position(reg.drop_first(), addr)
    }
}

/// `reg` without the client whose address is `addr`, the others in their
/// order.
pub open spec fn without<H>(reg: Seq<ClientView<H>>, addr: PeerAddress) -> Seq<ClientView<H>> {
    if registered(reg, addr) {
        reg.remove(position(reg, addr))
    } else {
        reg
    }
}

/// `reg` without the clients whose address is in `gone`, the others in their
/// order.
pub open spec fn keeping<H>(reg: Seq<ClientView<H>>, gone: Set<PeerAddress>) -> Seq<
    ClientView<H>,
> {
    reg.filter(|c: ClientView<H>| !gone.contains(c.addr))
}

/// The places `0..n`, in order.
pub open spec fn everyone(n: nat) -> Seq<usize> {
    Seq::new(n, |i: int| i as usize)
}

/// The places of the clients of `reg` whose address is not `addr`, in order.
pub open spec fn everyone_but<H>(reg: Seq<ClientView<H>>, addr: PeerAddress) -> Seq<usize> {
    everyone(reg.len()).filter(|i: usize| reg[i as int].addr != addr)
}

/// The position is that of the first client with the address, and it is
/// within the registry exactly when the address is registered.
pub proof fn lemma_position<H>(reg: Seq<ClientView<H>>, addr: PeerAddress)
    ensures
        0 <= position(reg, addr) <= reg.len(),
        forall|j: int| 0 <= j < position(reg, addr) ==> reg[j].addr != addr,
        position(reg, addr) < reg.len() ==> reg[position(reg, addr)].addr == addr,
        registered(reg, addr) <==> position(reg, addr) < reg.len(),
    decreases reg.len(),
{
    if reg.len() > 0 && reg.first().addr != addr {
        let rest = reg.drop_first();
        lemma_position(rest, addr);
        assert forall|j: int| 0 <= j < position(reg, addr) implies reg[j].addr != addr by {
            if j > 0 {
                assert(reg[j] == rest[j - 1]);
            }
        }
    }
}

/// The first place that holds the address is its position.
pub proof fn lemma_position_is_first<H>(reg: Seq<ClientView<H>>, addr: PeerAddress, i: int)
    requires
        0 <= i < reg.len(),
        reg[i].addr == addr,
        forall|j: int| 0 <= j < i ==> reg[j].addr != addr,
    ensures
        position(reg, addr) == i,
        registered(reg, addr),
{
    lemma_position(reg, addr);
}

/// Taking an address away leaves the registry distinct, takes that address
/// out of it, and keeps every other client.
pub proof fn lemma_without<H>(reg: Seq<ClientView<H>>, addr: PeerAddress)
    requires
        distinct(reg),
    ensures
        distinct(without(reg, addr)),
        !registered(without(reg, addr), addr),
        forall|c: ClientView<H>| #[trigger]
            without(reg, addr).contains(c) <==> reg.contains(c) && c.addr != addr,
{
    lemma_position(reg, addr);
    let out = without(reg, addr);
    let p = position(reg, addr);
    assert forall|c: ClientView<H>| reg.contains(c) && c.addr != addr implies #[trigger]
        out.contains(c) by {
        if registered(reg, addr) {
            let k = choose|k: int| 0 <= k < reg.len() && reg[k] == c;
            assert(out[if k < p { k } else { k - 1 }] == c);
        }
    }
}

/// Dropping the clients of a set of addresses leaves the registry distinct,
/// keeps exactly the other clients, and no more of them than there were.
pub proof fn lemma_keeping<H>(reg: Seq<ClientView<H>>, gone: Set<PeerAddress>)
    requires
        distinct(reg),
    ensures
        distinct(keeping(reg, gone)),
        keeping(reg, gone).len() <= reg.len(),
        forall|c: ClientView<H>| #[trigger]
            keeping(reg, gone).contains(c) <==> reg.contains(c) && !gone.contains(c.addr),
    decreases reg.len(),
{
    reveal(Seq::filter);
    if reg.len() > 0 {
        let rest = reg.drop_last();
        lemma_keeping(rest, gone);
        let kept = keeping(rest, gone);
        let out = keeping(reg, gone);
        assert forall|c: ClientView<H>| #[trigger]
            out.contains(c) <==> reg.contains(c) && !gone.contains(c.addr) by {
            if out.contains(c) {
                let k = choose|k: int| 0 <= k < out.len() && out[k] == c;
                if k < kept.len() {
                    assert(kept.contains(c));
                }
            }
            if reg.contains(c) && !gone.contains(c.addr) {
                let k = choose|k: int| 0 <= k < reg.len() && reg[k] == c;
                if k < rest.len() {
                    assert(rest.contains(c));
                }
            }
        }
        assert forall|i: int, j: int| 0 <= i < j < out.len() implies out[i].addr
            != out[j].addr by {
            if j >= kept.len() {
                assert(kept.contains(kept[i]));
            }
        }
    }
}

} // verus!
