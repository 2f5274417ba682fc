//! Properties that relate several operations of the stack, stated over the same spec
//! functions as the operations' own contracts.
use crate::address::IpFamily;
use crate::error::StackError;
use crate::engine::tcp_tx_bytes;
use crate::socket::{lemma_unsent_bytes_push, Packet, SmolSocket};
use smoltcp::socket::{SocketHandle, SocketSet};
use crate::stack::{all_assignable, enqueued, finalize_outcome, key_issued, releases_at_most_head, spun, StackConfig};
use vstd::prelude::*;

verus! {

/// The unsent bytes of `packets`, one packet after the other.
pub open spec fn payloads<O>(packets: Seq<Packet<O>>) -> Seq<u8>
    decreases packets.len(),
{
    if packets.len() == 0 {
        Seq::empty()
    } else {
        payloads(packets.drop_last()) + packets.last().blob.remaining()
    }
}

/// What the passes `passes[0] -> passes[1] -> ...` handed to the engine, in order: the
/// first `sent[i]` pending bytes of `passes[i]`.
pub open spec fn wire<O>(passes: Seq<SmolSocket<O>>, sent: Seq<nat>) -> Seq<u8>
    decreases sent.len(),
{
    if sent.len() == 0 {
        Seq::empty()
    } else {
        let m = sent.len() - 1;
        wire(passes, sent.drop_last()) + passes[m].pending_bytes().subrange(0, sent[m] as int)
    }
}

/// The owners of a socket's pending packets, oldest first.
pub open spec fn pending_owners<O>(s: SmolSocket<O>) -> Seq<Option<O>> {
    s.pending().map_values(|p: Packet<O>| p.blob.owner())
}

/// Sends append: after `packets` were queued one by one, the pending bytes are the earlier
/// pending bytes followed by the packets' unsent bytes, in send order.
pub proof fn law_sends_append<O>(sockets: Seq<SmolSocket<O>>, packets: Seq<Packet<O>>)
    requires
        sockets.len() == packets.len() + 1,
        forall|i: int| 0 <= i < packets.len() ==> enqueued(#[trigger] sockets[i], sockets[i + 1], packets[i]),
    ensures
        sockets.last().pending_bytes() == sockets[0].pending_bytes() + payloads(packets),
    decreases packets.len(),
{
    if packets.len() == 0 {
        assert(sockets[0].pending_bytes() + payloads(packets) =~= sockets[0].pending_bytes());
    } else {
        let n = packets.len() - 1;
        law_sends_append(sockets.drop_last(), packets.drop_last());
        assert(enqueued(sockets[n], sockets[n + 1], packets[n]));
        lemma_unsent_bytes_push(sockets[n].pending(), packets[n]);
        assert(sockets.drop_last().last() == sockets[n]);
        assert(sockets.last().pending_bytes() =~= sockets[0].pending_bytes() + payloads(packets));
    }
}

/// Passes of `spin` take bytes from the front only: what they handed to the engine,
/// followed by what is still pending, is what was pending before the first pass.
pub proof fn law_spins_take_prefix<O>(passes: Seq<SmolSocket<O>>, sent: Seq<nat>)
    requires
        passes.len() == sent.len() + 1,
        forall|i: int| 0 <= i < sent.len() ==> spun(#[trigger] passes[i], passes[i + 1], sent[i]),
    ensures
        wire(passes, sent) + passes.last().pending_bytes() == passes[0].pending_bytes(),
    decreases sent.len(),
{
    if sent.len() == 0 {
        assert(wire(passes, sent) + passes.last().pending_bytes() =~= passes[0].pending_bytes());
    } else {
        let m = sent.len() - 1;
        law_spins_take_prefix(passes.drop_last(), sent.drop_last());
        assert(spun(passes[m], passes[m + 1], sent[m]));
        assert(wire(passes.drop_last(), sent.drop_last()) =~= wire(passes, sent.drop_last())) by {
            lemma_wire_any_tail(passes.drop_last(), passes, sent.drop_last());
        }
        let p = passes[m].pending_bytes();
        assert(p =~= p.subrange(0, sent[m] as int) + passes[m + 1].pending_bytes());
        assert(wire(passes, sent) + passes.last().pending_bytes() =~= passes[0].pending_bytes());
    }
}

/// `wire` agrees on two pass sequences that agree where `sent` reaches.
proof fn lemma_wire_any_tail<O>(a: Seq<SmolSocket<O>>, b: Seq<SmolSocket<O>>, sent: Seq<nat>)
    requires
        a.len() >= sent.len(),
        b.len() >= sent.len(),
        forall|i: int| 0 <= i < sent.len() ==> a[i] == b[i],
    ensures
        wire(a, sent) == wire(b, sent),
    decreases sent.len(),
{
    if sent.len() > 0 {
        lemma_wire_any_tail(a, b, sent.drop_last());
    }
}

/// FIFO with resumption: `packets` queued on a socket with nothing pending, then passes of
/// `spin` with whatever amounts the engine accepted. The bytes handed to the engine,
/// followed by the bytes still pending, are the packets' buffers concatenated in send
/// order; in particular, once nothing is pending the engine got exactly that.
pub proof fn law_fifo_with_resumption<O>(
    sockets: Seq<SmolSocket<O>>,
    packets: Seq<Packet<O>>,
    passes: Seq<SmolSocket<O>>,
    sent: Seq<nat>,
)
    requires
        sockets.len() == packets.len() + 1,
        sockets[0].pending().len() == 0,
        forall|i: int| 0 <= i < packets.len() ==> enqueued(#[trigger] sockets[i], sockets[i + 1], packets[i]),
        passes.len() == sent.len() + 1,
        passes[0] == sockets.last(),
        forall|i: int| 0 <= i < sent.len() ==> spun(#[trigger] passes[i], passes[i + 1], sent[i]),
    ensures
        wire(passes, sent) + passes.last().pending_bytes() == payloads(packets),
{
    law_sends_append(sockets, packets);
    law_spins_take_prefix(passes, sent);
    assert(sockets[0].pending_bytes() =~= Seq::<u8>::empty());
    assert(sockets[0].pending_bytes() + payloads(packets) =~= payloads(packets));
}

/// The bytes that passes appended to the transmit buffer of the engine's socket `h`: for
/// pass `i`, what the buffer in `after[i]` holds beyond the buffer in `before[i]`.
pub open spec fn appended(
    h: SocketHandle,
    before: Seq<SocketSet<'static>>,
    after: Seq<SocketSet<'static>>,
    n: nat,
) -> Seq<u8>
    decreases n,
{
    if n == 0 {
        Seq::empty()
    } else {
        let i = n - 1;
        let tx0 = tcp_tx_bytes(before[i as int], h);
        let tx1 = tcp_tx_bytes(after[i as int], h);
        appended(h, before, after, i as nat) + tx1.subrange(tx0.len() as int, tx1.len() as int)
    }
}

/// The engine gets the pending bytes in order: over passes of `spin` on one socket (the
/// engine may be polled between passes, so `before[i + 1]` need not be `after[i]`), the
/// bytes appended to the engine socket's transmit buffer, followed by the bytes still
/// pending, are the bytes pending before the first pass.
pub proof fn law_engine_takes_pending_in_order<O>(
    h: SocketHandle,
    passes: Seq<SmolSocket<O>>,
    sent: Seq<nat>,
    before: Seq<SocketSet<'static>>,
    after: Seq<SocketSet<'static>>,
)
    requires
        passes.len() == sent.len() + 1,
        before.len() == sent.len(),
        after.len() == sent.len(),
        forall|i: int| 0 <= i < sent.len() ==> spun(#[trigger] passes[i], passes[i + 1], sent[i]),
        forall|i: int|
            0 <= i < sent.len() ==> tcp_tx_bytes(#[trigger] after[i], h) == tcp_tx_bytes(before[i], h)
                + passes[i].pending_bytes().subrange(0, sent[i] as int),
    ensures
        appended(h, before, after, sent.len()) + passes.last().pending_bytes()
            == passes[0].pending_bytes(),
{
    lemma_appended_is_wire(h, passes, sent, before, after, sent.len());
    assert(sent.subrange(0, sent.len() as int) =~= sent);
    law_spins_take_prefix(passes, sent);
}

proof fn lemma_appended_is_wire<O>(
    h: SocketHandle,
    passes: Seq<SmolSocket<O>>,
    sent: Seq<nat>,
    before: Seq<SocketSet<'static>>,
    after: Seq<SocketSet<'static>>,
    n: nat,
)
    requires
        n <= sent.len(),
        passes.len() == sent.len() + 1,
        before.len() == sent.len(),
        after.len() == sent.len(),
        forall|i: int|
            0 <= i < sent.len() ==> tcp_tx_bytes(#[trigger] after[i], h) == tcp_tx_bytes(before[i], h)
                + passes[i].pending_bytes().subrange(0, sent[i] as int),
    ensures
        appended(h, before, after, n) == wire(passes, sent.subrange(0, n as int)),
    decreases n,
{
    if n > 0 {
        let i = n - 1;
        lemma_appended_is_wire(h, passes, sent, before, after, i as nat);
        assert(sent.subrange(0, n as int).drop_last() =~= sent.subrange(0, i as int));
        let tx0 = tcp_tx_bytes(before[i as int], h);
        let tx1 = tcp_tx_bytes(after[i as int], h);
        assert(tx1 == tx0 + passes[i as int].pending_bytes().subrange(0, sent[i as int] as int));
        assert(tx1.subrange(tx0.len() as int, tx1.len() as int) =~= passes[i as int].pending_bytes().subrange(
            0,
            sent[i as int] as int,
        ));
    }
}

/// Owners leave in order and at most once: across passes of `spin`, the owners of the
/// pending packets are always a suffix of the owners before the first pass. An owner that
/// left was dropped with its packet, and no pass hands it out again.
pub proof fn law_owners_released_in_order<O>(passes: Seq<SmolSocket<O>>, sent: Seq<nat>)
    requires
        passes.len() == sent.len() + 1,
        forall|i: int| 0 <= i < sent.len() ==> spun(#[trigger] passes[i], passes[i + 1], sent[i]),
    ensures
        exists|d: int|
            0 <= d <= pending_owners(passes[0]).len() && pending_owners(passes.last())
                == pending_owners(passes[0]).subrange(d, pending_owners(passes[0]).len() as int),
    decreases sent.len(),
{
    let o0 = pending_owners(passes[0]);
    if sent.len() == 0 {
        assert(pending_owners(passes.last()) =~= o0.subrange(0, o0.len() as int));
    } else {
        let m = sent.len() - 1;
        law_owners_released_in_order(passes.drop_last(), sent.drop_last());
        let d = choose|d: int|
            0 <= d <= o0.len() && pending_owners(passes.drop_last().last()) == o0.subrange(
                d,
                o0.len() as int,
            );
        assert(passes.drop_last().last() == passes[m]);
        assert(spun(passes[m], passes[m + 1], sent[m]));
        let before = passes[m].pending();
        let after = passes[m + 1].pending();
        assert(releases_at_most_head(before, after));
        let ob = pending_owners(passes[m]);
        let oa = pending_owners(passes[m + 1]);
        if after == before {
            assert(oa =~= o0.subrange(d, o0.len() as int));
        } else if before.len() > 0 && after == before.drop_first() {
            assert(ob == o0.subrange(d, o0.len() as int));
            assert(oa =~= ob.drop_first());
            assert(oa =~= o0.subrange(d + 1, o0.len() as int));
        } else {
            assert forall|i: int| 0 <= i < oa.len() implies oa[i] == ob[i] by {
                if i > 0 {
                    assert(after[i] == after.drop_first()[i - 1]);
                    assert(before[i] == before.drop_first()[i - 1]);
                }
            }
            assert(oa =~= ob);
            assert(oa =~= o0.subrange(d, o0.len() as int));
        }
    }
}

/// Handle keys strictly increase: keys issued one after another by `new_socket_handle_key`
/// are pairwise distinct and in increasing order.
pub proof fn law_keys_strictly_increase(configs: Seq<StackConfig>, keys: Seq<usize>)
    requires
        configs.len() == keys.len() + 1,
        forall|i: int| 0 <= i < keys.len() ==> key_issued(#[trigger] configs[i], configs[i + 1], keys[i]),
    ensures
        forall|i: int, j: int| 0 <= i < j < keys.len() ==> keys[i] < keys[j],
{
    assert forall|j: int| 0 <= j < keys.len() implies keys[j] == configs[0].last_key + j + 1
        && configs[j + 1].last_key == configs[0].last_key + j + 1 by {
        lemma_key_value(configs, keys, j);
    }
}

proof fn lemma_key_value(configs: Seq<StackConfig>, keys: Seq<usize>, j: int)
    requires
        configs.len() == keys.len() + 1,
        forall|i: int| 0 <= i < keys.len() ==> key_issued(#[trigger] configs[i], configs[i + 1], keys[i]),
        0 <= j < keys.len(),
    ensures
        keys[j] == configs[0].last_key + j + 1,
        configs[j + 1].last_key == configs[0].last_key + j + 1,
    decreases j,
{
    assert(key_issued(configs[j], configs[j + 1], keys[j]));
    if j > 0 {
        lemma_key_value(configs, keys, j - 1);
    }
}

/// A missing gateway is a recoverable refusal: with an IPv4 address configured and no IPv4
/// gateway, `finalize` owes `MissingGateway(V4)` (and leaves the configuration as it was);
/// once a gateway is set, and IPv6 needs none or has one, it owes success, provided every
/// configured network can be assigned to an interface.
pub proof fn law_missing_gateway_then_retry(c: StackConfig, gateway: crate::address::CIpv4Address)
    requires
        !c.finalized,
        c.ipv4_addresses.len() > 0,
        c.v4_gateway is None,
        c.ipv6_addresses.len() == 0 || c.v6_gateway is Some,
        all_assignable(c),
    ensures
        finalize_outcome(c) == Err::<(), StackError>(StackError::MissingGateway(IpFamily::V4)),
        finalize_outcome(StackConfig { v4_gateway: Some(gateway), ..c }) is Ok,
{
}

} // verus!
