//! The network stack: configuration, socket handles, the socket table, and the passes that
//! move queued data between sockets and the engine.
use crate::address::{
    address_of, is_unspecified, v4_cidr_assignable, v4_prefix_valid, v6_cidr_assignable,
    v6_prefix_valid, Address, CIpAddress, CIpv4Address, CIpv4Cidr, CIpv6Address, CIpv6Cidr,
    IpFamily,
};
use crate::engine::{
    add_default_v4_route, add_default_v6_route, add_tcp_socket, add_udp_socket,
    holds_tcp_socket, new_routes, new_socket_set, same_sockets, socket_set_growable,
    tcp_accepts, tcp_can_recv, tcp_connect_v4, tcp_connect_v6, tcp_is_open, tcp_may_send,
    tcp_recv_ready, tcp_recv_slice, tcp_rx_bytes, tcp_send_open, tcp_send_slice, tcp_sockets,
    tcp_tx_bytes, udp_sockets, v4_default_gateways, v6_default_gateways,
};
use crate::error::StackError;
use crate::socket::{needs_endpoint, unsent_bytes, Packet, SmolSocket, SocketType};
use smoltcp::iface::Routes;
use smoltcp::socket::{SocketHandle, SocketSet};
use std::collections::HashMap;
use vstd::std_specs::iter::IteratorSpec;
use vstd::prelude::*;

verus! {

broadcast use vstd::std_specs::hash::group_hash_axioms;

/// Size of each TCP socket's receive and transmit buffers in the engine.
pub const TCP_BUFFER_LEN: usize = 65000;

/// Packet slots of each UDP socket buffer in the engine.
pub const UDP_PACKET_SLOTS: usize = 16;

/// Payload bytes of each UDP socket buffer in the engine.
pub const UDP_BUFFER_LEN: usize = 1024;

/// What one pass of `spin` moved: bytes handed to the engine, and bytes appended to the
/// socket's inbound queue as one chunk.
#[derive(Clone, Copy, PartialEq, Eq, Structural, Debug)]
pub struct SpinReport {
    pub sent: usize,
    pub received: usize,
}

/// Everything of the stack's configuration that is not a socket.
pub struct StackConfig {
    pub last_key: nat,
    pub ipv4_addresses: Seq<CIpv4Cidr>,
    pub ipv6_addresses: Seq<CIpv6Cidr>,
    pub v4_gateway: Option<CIpv4Address>,
    pub v6_gateway: Option<CIpv6Address>,
    pub finalized: bool,
}

/// `key` is the next handle key after `before`, and `after` records it as the last one
/// issued.
pub open spec fn key_issued(before: StackConfig, after: StackConfig, key: usize) -> bool {
    &&& key == before.last_key + 1
    &&& after == (StackConfig { last_key: key as nat, ..before })
}

/// The outcome that `finalize` owes on a configuration.
pub open spec fn finalize_outcome(c: StackConfig) -> Result<(), StackError> {
    if c.finalized {
        Err(StackError::AlreadyFinalized)
    } else if c.ipv4_addresses.len() > 0 && c.v4_gateway is None {
        Err(StackError::MissingGateway(IpFamily::V4))
    } else if c.ipv6_addresses.len() > 0 && c.v6_gateway is None {
        Err(StackError::MissingGateway(IpFamily::V6))
    } else if !all_assignable(c) {
        Err(StackError::InvalidAddress)
    } else {
        Ok(())
    }
}

/// Every configured network can be assigned to an interface: no broadcast or multicast
/// address.
pub open spec fn all_assignable(c: StackConfig) -> bool {
    &&& forall|i: int| 0 <= i < c.ipv4_addresses.len() ==> v4_cidr_assignable(#[trigger] c.ipv4_addresses[i])
    &&& forall|i: int| 0 <= i < c.ipv6_addresses.len() ==> v6_cidr_assignable(#[trigger] c.ipv6_addresses[i])
}

/// The IPv4 default gateways a routing table built from `gateway` holds.
pub open spec fn v4_gateways_of(gateway: Option<CIpv4Address>) -> Set<Seq<u8>> {
    match gateway {
        Some(g) => Set::<Seq<u8>>::empty().insert(g.address@),
        None => Set::<Seq<u8>>::empty(),
    }
}

/// The IPv6 default gateways a routing table built from `gateway` holds.
pub open spec fn v6_gateways_of(gateway: Option<CIpv6Address>) -> Set<Seq<u16>> {
    match gateway {
        Some(g) => Set::<Seq<u16>>::empty().insert(g.address@),
        None => Set::<Seq<u16>>::empty(),
    }
}

/// What the engine's interface is built from once the configuration is complete.
pub struct EngineConfig {
    pub routes: Routes<'static>,
    pub ipv4_addresses: Vec<CIpv4Cidr>,
    pub ipv6_addresses: Vec<CIpv6Cidr>,
}

/// A socket as `spin` leaves it, next to the socket it was: same identity and endpoint, and
/// the first `sent` of its pending bytes gone.
pub open spec fn spun<O>(before: SmolSocket<O>, after: SmolSocket<O>, sent: nat) -> bool {
    &&& after.kind() == before.kind()
    &&& after.handle() == before.handle()
    &&& after.connected() == before.connected()
    &&& sent <= before.pending_bytes().len()
    &&& after.pending_bytes() == before.pending_bytes().subrange(
        sent as int,
        before.pending_bytes().len() as int,
    )
    &&& releases_at_most_head(before.pending(), after.pending())
    &&& (after.inbound() == before.inbound() || exists|chunk: Seq<u8>|
        chunk.len() > 0 && after.inbound() == before.inbound().push(chunk))
}

/// The inbound queue after a pass that delivered `received` bytes: unchanged when none,
/// else one more chunk of that many bytes at the back.
pub open spec fn delivered<O>(before: SmolSocket<O>, after: SmolSocket<O>, received: nat) -> bool {
    &&& received == 0 ==> after.inbound() == before.inbound()
    &&& received > 0 ==> exists|chunk: Seq<u8>|
        chunk.len() == received && after.inbound() == before.inbound().push(chunk)
}

/// A socket after some pass of `spin`, or after none.
pub open spec fn spun_some<O>(before: SmolSocket<O>, after: SmolSocket<O>) -> bool {
    exists|n: nat| spun(before, after, n)
}

/// The pending packets after a pass: unchanged, without the head (released), or with the
/// head still there under the same owner and destination.
pub open spec fn releases_at_most_head<O>(before: Seq<Packet<O>>, after: Seq<Packet<O>>) -> bool {
    ||| after == before
    ||| before.len() > 0 && after == before.drop_first()
    ||| before.len() > 0 && after.len() == before.len() && after.drop_first()
        == before.drop_first() && after[0].blob.owner() == before[0].blob.owner()
        && after[0].endpoint == before[0].endpoint
}

/// The kinds of socket that the engine backs.
pub open spec fn is_engine_kind(kind: SocketType) -> bool {
    kind == SocketType::TCP || kind == SocketType::UDP
}

/// The table and engine after a socket of `kind` was registered under `key`: a fresh
/// socket, backed by a new engine socket of the same kind.
pub open spec fn added_socket<O>(
    table: Map<usize, SmolSocket<O>>,
    table2: Map<usize, SmolSocket<O>>,
    engine: SocketSet<'static>,
    engine2: SocketSet<'static>,
    key: usize,
    kind: SocketType,
) -> bool {
    let s = table2[key];
    &&& table2 == table.insert(key, s)
    &&& fresh_socket(s, kind)
    &&& !tcp_sockets(engine).contains(s.handle())
    &&& !udp_sockets(engine).contains(s.handle())
    &&& socket_set_growable(engine2)
    &&& kind == SocketType::TCP ==> !tcp_is_open(engine2, s.handle())
    &&& kind == SocketType::TCP ==> tcp_sockets(engine2) == tcp_sockets(engine).insert(s.handle())
        && udp_sockets(engine2) == udp_sockets(engine)
    &&& kind == SocketType::UDP ==> udp_sockets(engine2) == udp_sockets(engine).insert(s.handle())
        && tcp_sockets(engine2) == tcp_sockets(engine)
}

/// The table after the socket under `key` was connected to `addr`.
pub open spec fn connected<O>(
    table: Map<usize, SmolSocket<O>>,
    table2: Map<usize, SmolSocket<O>>,
    key: usize,
    addr: Address,
) -> bool {
    &&& table.contains_key(key)
    &&& table2 == table.insert(key, table2[key])
    &&& connected_to(table[key], table2[key], addr)
}

/// The same socket with `packet` queued behind its pending packets.
pub open spec fn enqueued<O>(before: SmolSocket<O>, after: SmolSocket<O>, packet: Packet<O>) -> bool {
    &&& after.kind() == before.kind()
    &&& after.handle() == before.handle()
    &&& after.connected() == before.connected()
    &&& after.inbound() == before.inbound()
    &&& after.has_inflight() == before.has_inflight()
    &&& after.pending() == before.pending().push(packet)
}

/// The same socket with its oldest received chunk handed out.
pub open spec fn dequeued<O>(before: SmolSocket<O>, after: SmolSocket<O>) -> bool {
    &&& after.kind() == before.kind()
    &&& after.handle() == before.handle()
    &&& after.connected() == before.connected()
    &&& after.pending() == before.pending()
    &&& after.has_inflight() == before.has_inflight()
    &&& before.inbound().len() > 0
    &&& after.inbound() == before.inbound().drop_first()
}

/// A socket that `add_socket` just created.
pub open spec fn fresh_socket<O>(s: SmolSocket<O>, kind: SocketType) -> bool {
    &&& s.kind() == kind
    &&& s.pending().len() == 0
    &&& s.inbound().len() == 0
    &&& s.connected() is None
    &&& !s.has_inflight()
}

/// The same socket, apart from the endpoint it is connected to.
pub open spec fn connected_to<O>(before: SmolSocket<O>, after: SmolSocket<O>, addr: Address) -> bool {
    &&& after.kind() == before.kind()
    &&& after.handle() == before.handle()
    &&& after.pending() == before.pending()
    &&& after.has_inflight() == before.has_inflight()
    &&& after.inbound() == before.inbound()
    &&& after.connected() == Some(addr)
}

/// The socket registered under `key`, when the stack is finalized and it is a TCP socket
/// that the engine still holds: the case where socket-level engine calls go ahead.
pub open spec fn engine_ready<O>(
    config: StackConfig,
    table: Map<usize, SmolSocket<O>>,
    engine: SocketSet<'static>,
    key: usize,
) -> bool {
    &&& config.finalized
    &&& table.contains_key(key)
    &&& table[key].kind() == SocketType::TCP
    &&& tcp_sockets(engine).contains(table[key].handle())
}

/// The error owed by an operation that needs a finalized stack and a registered socket of
/// kind TCP held by the engine, or `None` when all of that holds. `wrong_kind` is the error
/// for a socket of another kind.
pub open spec fn tcp_op_error<O>(
    config: StackConfig,
    table: Map<usize, SmolSocket<O>>,
    engine: SocketSet<'static>,
    key: usize,
    wrong_kind: StackError,
) -> Option<StackError> {
    if !config.finalized {
        Some(StackError::NotFinalized)
    } else if !table.contains_key(key) {
        Some(StackError::UnknownHandle)
    } else if table[key].kind() != SocketType::TCP {
        Some(wrong_kind)
    } else if !tcp_sockets(engine).contains(table[key].handle()) {
        Some(StackError::EngineRejected)
    } else {
        None
    }
}

/// The error owed by an operation on the queues of a registered socket, if any.
pub open spec fn queue_op_error<O>(config: StackConfig, table: Map<usize, SmolSocket<O>>, key: usize) -> Option<
    StackError,
> {
    if !config.finalized {
        Some(StackError::NotFinalized)
    } else if !table.contains_key(key) {
        Some(StackError::UnknownHandle)
    } else {
        None
    }
}

/// What connecting the socket under `key` to `addr` owes: the error of `tcp_op_error`
/// with nothing changed; else the address recorded whatever the engine answers, success
/// exactly when the engine's socket is not open yet and both the remote endpoint and the
/// local port are specified, and an open engine socket afterwards.
pub open spec fn connect_done<O>(
    config: StackConfig,
    table: Map<usize, SmolSocket<O>>,
    engine: SocketSet<'static>,
    table2: Map<usize, SmolSocket<O>>,
    engine2: SocketSet<'static>,
    key: usize,
    addr: Address,
    src_port: u16,
    dst_port: u16,
    r: Result<(), StackError>,
) -> bool {
    match tcp_op_error(config, table, engine, key, StackError::WrongSocketKind) {
        Some(e) => r == Err::<(), StackError>(e) && table2 == table && engine2 == engine,
        None => {
            let h = table[key].handle();
            &&& connected(table, table2, key, addr)
            &&& (r is Ok <==> !tcp_is_open(engine, h) && !is_unspecified(addr) && dst_port != 0
                && src_port != 0)
            &&& r is Err ==> r == Err::<(), StackError>(StackError::EngineRejected) && engine2 == engine
            &&& r is Ok ==> tcp_is_open(engine2, h) && same_sockets(engine2, engine)
        },
    }
}

/// How many bytes a pass hands to the engine: what the engine's socket takes of the next
/// packet's unsent bytes when it may send, else none.
pub open spec fn sent_by_engine<O>(engine: SocketSet<'static>, h: SocketHandle, pending: Seq<Packet<O>>) -> nat {
    if tcp_send_open(engine, h) && pending.len() > 0 {
        tcp_accepts(engine, h, pending[0].blob.remaining())
    } else {
        0
    }
}

/// What a pass takes from the engine: when its socket can receive, the oldest received
/// bytes, as many as one read buffer holds, as one new inbound chunk; else nothing.
pub open spec fn received_from_engine<O>(
    engine: SocketSet<'static>,
    h: SocketHandle,
    before: SmolSocket<O>,
    after: SmolSocket<O>,
    received: nat,
) -> bool {
    if tcp_recv_ready(engine, h) {
        let rx = tcp_rx_bytes(engine, h);
        let n = if rx.len() < TCP_BUFFER_LEN { rx.len() } else { TCP_BUFFER_LEN as nat };
        received == n && after.inbound() == before.inbound().push(rx.subrange(0, n as int))
    } else {
        received == 0 && after.inbound() == before.inbound()
    }
}

/// What a pass of `spin` over the socket under `key` owes: the error of `tcp_op_error` with
/// nothing changed; else the bytes sent and received as the engine's socket decides, sent
/// from the front of the pending bytes and appended to the engine's transmit buffer.
pub open spec fn spin_done<O>(
    config: StackConfig,
    table: Map<usize, SmolSocket<O>>,
    engine: SocketSet<'static>,
    table2: Map<usize, SmolSocket<O>>,
    engine2: SocketSet<'static>,
    key: usize,
    r: Result<SpinReport, StackError>,
) -> bool {
    match tcp_op_error(config, table, engine, key, StackError::Unsupported) {
        Some(e) => r == Err::<SpinReport, StackError>(e) && table2 == table && engine2 == engine,
        None => match r {
            Ok(rep) => {
                let s = table[key];
                let s2 = table2[key];
                let h = s.handle();
                &&& table2 == table.insert(key, s2)
                &&& same_sockets(engine2, engine)
                &&& spun(s, s2, rep.sent as nat)
                &&& delivered(s, s2, rep.received as nat)
                &&& rep.sent == sent_by_engine(engine, h, s.pending())
                &&& tcp_tx_bytes(engine2, h) == tcp_tx_bytes(engine, h) + s.pending_bytes().subrange(
                    0,
                    rep.sent as int,
                )
                &&& received_from_engine(engine, h, s, s2, rep.received as nat)
            },
            Err(_) => false,
        },
    }
}

/// The stack: an engine socket set, the application sockets keyed by caller-chosen
/// handles, and the configuration that `finalize` commits.
pub struct SmolStack<O> {
    sockets: SocketSet<'static>,
    current_key: usize,
    smol_sockets: HashMap<usize, SmolSocket<O>>,
    ipv4_addrs: Vec<CIpv4Cidr>,
    ipv6_addrs: Vec<CIpv6Cidr>,
    default_v4_gw: Option<CIpv4Address>,
    default_v6_gw: Option<CIpv6Address>,
    finalized: bool,
}

/// Whether every network of `v` can be assigned to an interface.
fn all_v4_assignable(v: &Vec<CIpv4Cidr>) -> (r: bool)
    ensures
        r == forall|i: int| 0 <= i < v@.len() ==> v4_cidr_assignable(#[trigger] v@[i]),
{
    let mut i: usize = 0;
    while i < v.len()
        invariant
            i <= v@.len(),
            forall|j: int| 0 <= j < i ==> v4_cidr_assignable(#[trigger] v@[j]),
        decreases v@.len() - i,
    {
        if !v[i].is_assignable() {
            return false;
        }
        i = i + 1;
    }
    true
}

/// Whether every network of `v` can be assigned to an interface.
fn all_v6_assignable(v: &Vec<CIpv6Cidr>) -> (r: bool)
    ensures
        r == forall|i: int| 0 <= i < v@.len() ==> v6_cidr_assignable(#[trigger] v@[i]),
{
    let mut i: usize = 0;
    while i < v.len()
        invariant
            i <= v@.len(),
            forall|j: int| 0 <= j < i ==> v6_cidr_assignable(#[trigger] v@[j]),
        decreases v@.len() - i,
    {
        if !v[i].is_assignable() {
            return false;
        }
        i = i + 1;
    }
    true
}

impl<O> SmolStack<O> {
    /// The configuration part of the stack's state.
    pub closed spec fn config(&self) -> StackConfig {
        StackConfig {
            last_key: self.current_key as nat,
            ipv4_addresses: self.ipv4_addrs@,
            ipv6_addresses: self.ipv6_addrs@,
            v4_gateway: self.default_v4_gw,
            v6_gateway: self.default_v6_gw,
            finalized: self.finalized,
        }
    }

    /// The application sockets by handle.
    pub closed spec fn socket_table(&self) -> Map<usize, SmolSocket<O>> {
        self.smol_sockets@
    }

    /// The engine's socket set.
    pub closed spec fn engine(&self) -> SocketSet<'static> {
        self.sockets
    }

    /// The engine's set grows, and configured prefixes fit.
    pub closed spec fn wf(&self) -> bool {
        &&& socket_set_growable(self.sockets)
        &&& forall|i: int|
            0 <= i < self.ipv4_addrs@.len() ==> v4_prefix_valid(#[trigger] self.ipv4_addrs@[i])
        &&& forall|i: int|
            0 <= i < self.ipv6_addrs@.len() ==> v6_prefix_valid(#[trigger] self.ipv6_addrs@[i])
    }

    /// An unconfigured stack with no socket.
    pub fn new() -> (r: SmolStack<O>)
        ensures
            r.wf(),
            r.config() == (StackConfig {
                last_key: 0,
                ipv4_addresses: Seq::empty(),
                ipv6_addresses: Seq::empty(),
                v4_gateway: None,
                v6_gateway: None,
                finalized: false,
            }),
            r.socket_table() == Map::<usize, SmolSocket<O>>::empty(),
            tcp_sockets(r.engine()) == Set::<smoltcp::socket::SocketHandle>::empty(),
            udp_sockets(r.engine()) == Set::<smoltcp::socket::SocketHandle>::empty(),
    {
        let r = SmolStack {
            sockets: new_socket_set(),
            current_key: 0,
            smol_sockets: HashMap::new(),
            ipv4_addrs: Vec::new(),
            ipv6_addrs: Vec::new(),
            default_v4_gw: None,
            default_v6_gw: None,
            finalized: false,
        };
        assert(r.config().ipv4_addresses =~= Seq::<CIpv4Cidr>::empty());
        assert(r.config().ipv6_addresses =~= Seq::<CIpv6Cidr>::empty());
        r
    }

    /// A new handle key, one above the last one issued; keys are never reused.
    pub fn new_socket_handle_key(&mut self) -> (r: Result<usize, StackError>)
        requires
            old(self).wf(),
        ensures
            final(self).wf(),
            final(self).socket_table() == old(self).socket_table(),
            final(self).engine() == old(self).engine(),
            old(self).config().last_key < usize::MAX ==> (r matches Ok(k) && key_issued(
                old(self).config(),
                final(self).config(),
                k,
            )),
            old(self).config().last_key == usize::MAX ==> r == Err::<usize, StackError>(
                StackError::HandleSpaceExhausted,
            ) && final(self).config() == old(self).config(),
    {
        if self.current_key == usize::MAX {
            return Err(StackError::HandleSpaceExhausted);
        }
        self.current_key = self.current_key + 1;
        Ok(self.current_key)
    }

    /// Adds an IPv4 network to the interface's addresses, before `finalize`; only the
    /// prefix length is checked here.
    pub fn add_ipv4_address(&mut self, cidr: CIpv4Cidr) -> (r: Result<(), StackError>)
        requires
            old(self).wf(),
        ensures
            final(self).wf(),
            final(self).socket_table() == old(self).socket_table(),
            final(self).engine() == old(self).engine(),
            old(self).config().finalized ==> r == Err::<(), StackError>(
                StackError::AlreadyFinalized,
            ),
            !old(self).config().finalized && !v4_prefix_valid(cidr) ==> r == Err::<
                (),
                StackError,
            >(StackError::InvalidAddress),
            r is Err ==> final(self).config() == old(self).config(),
            r is Ok <==> !old(self).config().finalized && v4_prefix_valid(cidr),
            r is Ok ==> final(self).config() == (StackConfig {
                ipv4_addresses: old(self).config().ipv4_addresses.push(cidr),
                ..old(self).config()
            }),
    {
        if self.finalized {
            return Err(StackError::AlreadyFinalized);
        }
        if !cidr.has_valid_prefix() {
            return Err(StackError::InvalidAddress);
        }
        self.ipv4_addrs.push(cidr);
        Ok(())
    }

    /// Adds an IPv6 network to the interface's addresses, before `finalize`; only the
    /// prefix length is checked here.
    pub fn add_ipv6_address(&mut self, cidr: CIpv6Cidr) -> (r: Result<(), StackError>)
        requires
            old(self).wf(),
        ensures
            final(self).wf(),
            final(self).socket_table() == old(self).socket_table(),
            final(self).engine() == old(self).engine(),
            old(self).config().finalized ==> r == Err::<(), StackError>(
                StackError::AlreadyFinalized,
            ),
            !old(self).config().finalized && !v6_prefix_valid(cidr) ==> r == Err::<
                (),
                StackError,
            >(StackError::InvalidAddress),
            r is Err ==> final(self).config() == old(self).config(),
            r is Ok <==> !old(self).config().finalized && v6_prefix_valid(cidr),
            r is Ok ==> final(self).config() == (StackConfig {
                ipv6_addresses: old(self).config().ipv6_addresses.push(cidr),
                ..old(self).config()
            }),
    {
        if self.finalized {
            return Err(StackError::AlreadyFinalized);
        }
        if !cidr.has_valid_prefix() {
            return Err(StackError::InvalidAddress);
        }
        self.ipv6_addrs.push(cidr);
        Ok(())
    }

    /// Sets the IPv4 default gateway, before `finalize`; a later call replaces an earlier one.
    pub fn add_default_v4_gateway(&mut self, address: CIpv4Address) -> (r: Result<(), StackError>)
        requires
            old(self).wf(),
        ensures
            final(self).wf(),
            final(self).socket_table() == old(self).socket_table(),
            final(self).engine() == old(self).engine(),
            old(self).config().finalized ==> r == Err::<(), StackError>(
                StackError::AlreadyFinalized,
            ) && final(self).config() == old(self).config(),
            !old(self).config().finalized ==> r is Ok && final(self).config() == (StackConfig {
                v4_gateway: Some(address),
                ..old(self).config()
            }),
    {
        if self.finalized {
            return Err(StackError::AlreadyFinalized);
        }
        self.default_v4_gw = Some(address);
        Ok(())
    }

    /// Sets the IPv6 default gateway, before `finalize`; a later call replaces an earlier one.
    pub fn add_default_v6_gateway(&mut self, address: CIpv6Address) -> (r: Result<(), StackError>)
        requires
            old(self).wf(),
        ensures
            final(self).wf(),
            final(self).socket_table() == old(self).socket_table(),
            final(self).engine() == old(self).engine(),
            old(self).config().finalized ==> r == Err::<(), StackError>(
                StackError::AlreadyFinalized,
            ) && final(self).config() == old(self).config(),
            !old(self).config().finalized ==> r is Ok && final(self).config() == (StackConfig {
                v6_gateway: Some(address),
                ..old(self).config()
            }),
    {
        if self.finalized {
            return Err(StackError::AlreadyFinalized);
        }
        self.default_v6_gw = Some(address);
        Ok(())
    }

    /// Commits the configuration: checks that each configured family has a default
    /// gateway and that every network can be assigned to an interface, builds the routing table, and hands over the addresses. A refusal changes
    /// nothing, so the call can be repeated once the configuration is complete.
    pub fn finalize(&mut self) -> (r: Result<EngineConfig, StackError>)
        requires
            old(self).wf(),
        ensures
            final(self).wf(),
            final(self).socket_table() == old(self).socket_table(),
            final(self).engine() == old(self).engine(),
            r is Ok <==> finalize_outcome(old(self).config()) is Ok,
            r is Err ==> r->Err_0 == finalize_outcome(old(self).config())->Err_0
                && final(self).config() == old(self).config(),
            r matches Ok(c) ==> c.ipv4_addresses@ == old(self).config().ipv4_addresses
                && c.ipv6_addresses@ == old(self).config().ipv6_addresses
                && v4_default_gateways(c.routes) == v4_gateways_of(old(self).config().v4_gateway)
                && v6_default_gateways(c.routes) == v6_gateways_of(old(self).config().v6_gateway)
                && final(self).config() == (StackConfig {
                finalized: true,
                ipv4_addresses: Seq::empty(),
                ipv6_addresses: Seq::empty(),
                ..old(self).config()
            }),
    {
        if self.finalized {
            return Err(StackError::AlreadyFinalized);
        }
        if self.ipv4_addrs.len() > 0 && self.default_v4_gw.is_none() {
            return Err(StackError::MissingGateway(IpFamily::V4));
        }
        if self.ipv6_addrs.len() > 0 && self.default_v6_gw.is_none() {
            return Err(StackError::MissingGateway(IpFamily::V6));
        }
        let ok4 = all_v4_assignable(&self.ipv4_addrs);
        let ok6 = all_v6_assignable(&self.ipv6_addrs);
        if !ok4 || !ok6 {
            proof {
                if all_assignable(self.config()) {
                    assert forall|i: int| 0 <= i < self.ipv4_addrs@.len() implies v4_cidr_assignable(
                        #[trigger] self.ipv4_addrs@[i],
                    ) by {
                        assert(self.config().ipv4_addresses[i] == self.ipv4_addrs@[i]);
                    }
                    assert forall|i: int| 0 <= i < self.ipv6_addrs@.len() implies v6_cidr_assignable(
                        #[trigger] self.ipv6_addrs@[i],
                    ) by {
                        assert(self.config().ipv6_addresses[i] == self.ipv6_addrs@[i]);
                    }
                }
            }
            return Err(StackError::InvalidAddress);
        }
        let mut routes = new_routes();
        match self.default_v4_gw {
            Some(gw) => add_default_v4_route(&mut routes, gw.address),
            None => {},
        }
        match self.default_v6_gw {
            Some(gw) => add_default_v6_route(&mut routes, gw.address),
            None => {},
        }
        let mut ipv4_addresses = Vec::new();
        std::mem::swap(&mut ipv4_addresses, &mut self.ipv4_addrs);
        let mut ipv6_addresses = Vec::new();
        std::mem::swap(&mut ipv6_addresses, &mut self.ipv6_addrs);
        self.finalized = true;
        assert(self.config().ipv4_addresses =~= Seq::<CIpv4Cidr>::empty());
        assert(self.config().ipv6_addresses =~= Seq::<CIpv6Cidr>::empty());
        Ok(EngineConfig { routes, ipv4_addresses, ipv6_addresses })
    }

    /// Whether the configuration was committed.
    pub fn is_finalized(&self) -> (r: bool)
        ensures
            r == self.config().finalized,
    {
        self.finalized
    }

    /// Takes the socket under `key` out of the table, for an update.
    fn take(&mut self, key: usize) -> (r: Option<SmolSocket<O>>)
        requires
            old(self).socket_table().contains_key(key),
        ensures
            r == Some(old(self).socket_table()[key]),
            final(self).socket_table() == old(self).socket_table().remove(key),
            final(self).sockets == old(self).sockets,
            final(self).config() == old(self).config(),
    {
        self.smol_sockets.remove(&key)
    }

    /// Registers a new socket of `socket_type` under `smol_socket_handle`, backed by an
    /// engine socket with fixed-size buffers.
    pub fn add_socket(&mut self, socket_type: SocketType, smol_socket_handle: usize) -> (r:
        Result<(), StackError>)
        requires
            old(self).wf(),
        ensures
            final(self).wf(),
            final(self).config() == old(self).config(),
            !is_engine_kind(socket_type) ==> r == Err::<(), StackError>(StackError::Unsupported),
            is_engine_kind(socket_type) && old(self).socket_table().contains_key(smol_socket_handle)
                ==> r == Err::<(), StackError>(StackError::HandleInUse),
            r is Err ==> final(self).socket_table() == old(self).socket_table()
                && final(self).engine() == old(self).engine(),
            r is Ok <==> is_engine_kind(socket_type) && !old(self).socket_table().contains_key(
                smol_socket_handle,
            ),
            r is Ok ==> added_socket(
                old(self).socket_table(),
                final(self).socket_table(),
                old(self).engine(),
                final(self).engine(),
                smol_socket_handle,
                socket_type,
            ),
    {
        if socket_type != SocketType::TCP && socket_type != SocketType::UDP {
            return Err(StackError::Unsupported);
        }
        if self.smol_sockets.contains_key(&smol_socket_handle) {
            return Err(StackError::HandleInUse);
        }
        let handle = if socket_type == SocketType::TCP {
            add_tcp_socket(&mut self.sockets, TCP_BUFFER_LEN, TCP_BUFFER_LEN)
        } else {
            add_udp_socket(&mut self.sockets, UDP_PACKET_SLOTS, UDP_BUFFER_LEN)
        };
        let sock = SmolSocket::new(handle, socket_type);
        self.smol_sockets.insert(smol_socket_handle, sock);
        Ok(())
    }

    /// Checks what every TCP operation needs, in the order of `tcp_op_error`, and returns the
    /// engine's handle of the socket.
    fn tcp_engine_handle(&self, key: usize, wrong_kind: StackError) -> (r: Result<SocketHandle, StackError>)
        requires
            self.wf(),
        ensures
            tcp_op_error(self.config(), self.socket_table(), self.engine(), key, wrong_kind) matches Some(e)
                ==> r == Err::<SocketHandle, StackError>(e),
            tcp_op_error(self.config(), self.socket_table(), self.engine(), key, wrong_kind) is None
                ==> r == Ok::<SocketHandle, StackError>(self.socket_table()[key].handle()),
    {
        if !self.finalized {
            return Err(StackError::NotFinalized);
        }
        match self.smol_sockets.get(&key) {
            None => Err(StackError::UnknownHandle),
            Some(s) => {
                if s.socket_type() != SocketType::TCP {
                    return Err(wrong_kind);
                }
                let h = s.socket_handle();
                if !holds_tcp_socket(&self.sockets, h) {
                    return Err(StackError::EngineRejected);
                }
                Ok(h)
            },
        }
    }

    fn connect_address(&mut self, smol_socket_handle: usize, addr: Address, src_port: u16, dst_port: u16) -> (r:
        Result<(), StackError>)
        requires
            old(self).wf(),
        ensures
            final(self).wf(),
            final(self).config() == old(self).config(),
            connect_done(
                old(self).config(),
                old(self).socket_table(),
                old(self).engine(),
                final(self).socket_table(),
                final(self).engine(),
                smol_socket_handle,
                addr,
                src_port,
                dst_port,
                r,
            ),
    {
        let h = match self.tcp_engine_handle(smol_socket_handle, StackError::WrongSocketKind) {
            Ok(h) => h,
            Err(e) => return Err(e),
        };
        let outcome = match addr {
            Address::V4(a) => tcp_connect_v4(&mut self.sockets, h, a.address, dst_port, src_port),
            Address::V6(a) => tcp_connect_v6(&mut self.sockets, h, a.address, dst_port, src_port),
        };
        let mut sock = match self.take(smol_socket_handle) {
            Some(s) => s,
            None => return Err(StackError::UnknownHandle),
        };
        sock.set_connected(addr);
        self.smol_sockets.insert(smol_socket_handle, sock);
        assert(self.socket_table() =~= old(self).socket_table().insert(smol_socket_handle, sock));
        if outcome.is_err() {
            return Err(StackError::EngineRejected);
        }
        Ok(())
    }

    /// Connects the TCP socket under `smol_socket_handle` to `address`:`dst_port` from local
    /// port `src_port`, and records the address whatever the engine answers.
    pub fn tcp_connect(&mut self, smol_socket_handle: usize, address: CIpAddress, src_port: u16, dst_port: u16) -> (r:
        Result<(), StackError>)
        requires
            old(self).wf(),
        ensures
            final(self).wf(),
            final(self).config() == old(self).config(),
            connect_done(
                old(self).config(),
                old(self).socket_table(),
                old(self).engine(),
                final(self).socket_table(),
                final(self).engine(),
                smol_socket_handle,
                address_of(address),
                src_port,
                dst_port,
                r,
            ),
    {
        let addr = address.to_address();
        self.connect_address(smol_socket_handle, addr, src_port, dst_port)
    }

    /// `tcp_connect` to an IPv4 address.
    pub fn tcp_connect_ipv4(&mut self, smol_socket_handle: usize, address: CIpv4Address, src_port: u16, dst_port: u16) -> (r:
        Result<(), StackError>)
        requires
            old(self).wf(),
        ensures
            final(self).wf(),
            final(self).config() == old(self).config(),
            connect_done(
                old(self).config(),
                old(self).socket_table(),
                old(self).engine(),
                final(self).socket_table(),
                final(self).engine(),
                smol_socket_handle,
                Address::V4(address),
                src_port,
                dst_port,
                r,
            ),
    {
        self.connect_address(smol_socket_handle, Address::V4(address), src_port, dst_port)
    }

    /// `tcp_connect` to an IPv6 address.
    pub fn tcp_connect_ipv6(&mut self, smol_socket_handle: usize, address: CIpv6Address, src_port: u16, dst_port: u16) -> (r:
        Result<(), StackError>)
        requires
            old(self).wf(),
        ensures
            final(self).wf(),
            final(self).config() == old(self).config(),
            connect_done(
                old(self).config(),
                old(self).socket_table(),
                old(self).engine(),
                final(self).socket_table(),
                final(self).engine(),
                smol_socket_handle,
                Address::V6(address),
                src_port,
                dst_port,
                r,
            ),
    {
        self.connect_address(smol_socket_handle, Address::V6(address), src_port, dst_port)
    }

    /// Whether the engine's TCP socket under `smol_socket_handle` can take data to send.
    pub fn may_send(&mut self, smol_socket_handle: usize) -> (r: Result<bool, StackError>)
        requires
            old(self).wf(),
        ensures
            final(self).wf(),
            final(self).config() == old(self).config(),
            final(self).socket_table() == old(self).socket_table(),
            final(self).engine() == old(self).engine(),
            tcp_op_error(old(self).config(), old(self).socket_table(), old(self).engine(), smol_socket_handle, StackError::Unsupported)
                matches Some(e) ==> r == Err::<bool, StackError>(e),
            tcp_op_error(old(self).config(), old(self).socket_table(), old(self).engine(), smol_socket_handle, StackError::Unsupported)
                is None ==> r == Ok::<bool, StackError>(
                tcp_send_open(old(self).engine(), old(self).socket_table()[smol_socket_handle].handle()),
            ),
    {
        let h = match self.tcp_engine_handle(smol_socket_handle, StackError::Unsupported) {
            Ok(h) => h,
            Err(e) => return Err(e),
        };
        let r = tcp_may_send(&mut self.sockets, h);
        Ok(r)
    }

    /// Checks what every queue operation needs.
    fn queue_check(&self, key: usize) -> (r: Result<(), StackError>)
        requires
            self.wf(),
        ensures
            queue_op_error(self.config(), self.socket_table(), key) matches Some(e) ==> r == Err::<
                (),
                StackError,
            >(e),
            queue_op_error(self.config(), self.socket_table(), key) is None ==> r is Ok,
    {
        if !self.finalized {
            return Err(StackError::NotFinalized);
        }
        if !self.smol_sockets.contains_key(&key) {
            return Err(StackError::UnknownHandle);
        }
        Ok(())
    }

    /// Queues `packet` on the socket under `smol_socket_handle`; it goes out on later passes
    /// of `spin`, after every packet queued before it.
    pub fn socket_send(&mut self, smol_socket_handle: usize, packet: Packet<O>) -> (r: Result<
        (),
        StackError,
    >)
        requires
            old(self).wf(),
        ensures
            final(self).wf(),
            final(self).config() == old(self).config(),
            final(self).engine() == old(self).engine(),
            queue_op_error(old(self).config(), old(self).socket_table(), smol_socket_handle) matches Some(e)
                ==> r == Err::<(), StackError>(e),
            queue_op_error(old(self).config(), old(self).socket_table(), smol_socket_handle) is None
                && needs_endpoint(old(self).socket_table()[smol_socket_handle].kind()) && packet.endpoint is None
                ==> r == Err::<(), StackError>(StackError::MissingEndpoint),
            r is Err ==> final(self).socket_table() == old(self).socket_table(),
            r is Ok <==> queue_op_error(old(self).config(), old(self).socket_table(), smol_socket_handle) is None
                && !(needs_endpoint(old(self).socket_table()[smol_socket_handle].kind()) && packet.endpoint is None),
            r is Ok ==> final(self).socket_table() == old(self).socket_table().insert(
                smol_socket_handle,
                final(self).socket_table()[smol_socket_handle],
            ) && enqueued(
                old(self).socket_table()[smol_socket_handle],
                final(self).socket_table()[smol_socket_handle],
                packet,
            ),
    {
        if let Err(e) = self.queue_check(smol_socket_handle) {
            return Err(e);
        }
        let mut sock = match self.take(smol_socket_handle) {
            Some(s) => s,
            None => return Err(StackError::UnknownHandle),
        };
        let r = sock.send(packet);
        self.smol_sockets.insert(smol_socket_handle, sock);
        assert(self.socket_table() =~= old(self).socket_table().insert(smol_socket_handle, sock));
        r
    }

    /// Takes the oldest chunk received on the socket under `smol_socket_handle`.
    pub fn socket_receive(&mut self, smol_socket_handle: usize) -> (r: Result<Vec<u8>, StackError>)
        requires
            old(self).wf(),
        ensures
            final(self).wf(),
            final(self).config() == old(self).config(),
            final(self).engine() == old(self).engine(),
            queue_op_error(old(self).config(), old(self).socket_table(), smol_socket_handle) matches Some(e)
                ==> r == Err::<Vec<u8>, StackError>(e),
            queue_op_error(old(self).config(), old(self).socket_table(), smol_socket_handle) is None
                && old(self).socket_table()[smol_socket_handle].inbound().len() == 0
                ==> r == Err::<Vec<u8>, StackError>(StackError::NoData),
            r is Err ==> final(self).socket_table() == old(self).socket_table(),
            r is Ok <==> queue_op_error(old(self).config(), old(self).socket_table(), smol_socket_handle) is None
                && old(self).socket_table()[smol_socket_handle].inbound().len() > 0,
            r matches Ok(d) ==> d@ == old(self).socket_table()[smol_socket_handle].inbound()[0]
                && final(self).socket_table() == old(self).socket_table().insert(
                smol_socket_handle,
                final(self).socket_table()[smol_socket_handle],
            ) && dequeued(
                old(self).socket_table()[smol_socket_handle],
                final(self).socket_table()[smol_socket_handle],
            ),
    {
        if let Err(e) = self.queue_check(smol_socket_handle) {
            return Err(e);
        }
        let mut sock = match self.take(smol_socket_handle) {
            Some(s) => s,
            None => return Err(StackError::UnknownHandle),
        };
        let r = sock.receive();
        self.smol_sockets.insert(smol_socket_handle, sock);
        assert(self.socket_table() =~= old(self).socket_table().insert(smol_socket_handle, sock));
        match r {
            Some(d) => Ok(d),
            None => Err(StackError::NoData),
        }
    }

    /// One pass over the TCP socket under `smol_socket_handle`: when the engine can take
    /// data, hands it the unsent bytes of the next packet (a partially sent packet first)
    /// and keeps what it did not take for the next pass; when the engine holds received
    /// data, appends it to the socket's inbound queue as one chunk. Reports both amounts.
    pub fn spin(&mut self, smol_socket_handle: usize) -> (r: Result<SpinReport, StackError>)
        requires
            old(self).wf(),
        ensures
            final(self).wf(),
            final(self).config() == old(self).config(),
            spin_done(
                old(self).config(),
                old(self).socket_table(),
                old(self).engine(),
                final(self).socket_table(),
                final(self).engine(),
                smol_socket_handle,
                r,
            ),
    {
        let h = match self.tcp_engine_handle(smol_socket_handle, StackError::Unsupported) {
            Ok(h) => h,
            Err(e) => return Err(e),
        };
        let ghost e0 = self.sockets;
        let mut sock = match self.take(smol_socket_handle) {
            Some(s) => s,
            None => return Err(StackError::UnknownHandle),
        };
        let ghost s0 = sock;
        let mut sent: usize = 0;
        if tcp_may_send(&mut self.sockets, h) {
            match sock.get_latest_packet() {
                Some(packet) => {
                    let data = packet.blob.unsent();
                    let len = packet.blob.unsent_len();
                    assert(data@ == s0.pending()[0].blob.remaining());
                    assert(data@.len() == len);
                    let n = match tcp_send_slice(&mut self.sockets, h, data) {
                        Ok(n) => n,
                        Err(_) => 0,
                    };
                    let ghost rem = packet.blob.remaining();
                    let ghost rest = s0.pending().drop_first();
                    sock.put_back(packet, n);
                    sent = n;
                    proof {
                        assert(s0.pending_bytes() == rem + unsent_bytes(rest));
                        assert(s0.pending_bytes().subrange(0, n as int) =~= rem.subrange(0, n as int));
                        assert(sock.pending_bytes() =~= s0.pending_bytes().subrange(
                            n as int,
                            s0.pending_bytes().len() as int,
                        ));
                    }
                },
                None => {
                    assert(sock.pending_bytes() =~= s0.pending_bytes().subrange(
                        0,
                        s0.pending_bytes().len() as int,
                    ));
                },
            }
        } else {
            assert(sock.pending_bytes() =~= s0.pending_bytes().subrange(
                0,
                s0.pending_bytes().len() as int,
            ));
        }
        let ghost e1 = self.sockets;
        assert(tcp_tx_bytes(e1, h) =~= tcp_tx_bytes(e0, h) + s0.pending_bytes().subrange(0, sent as int));
        let ghost s1 = sock;
        let mut received: usize = 0;
        if tcp_can_recv(&mut self.sockets, h) {
            let mut buf: Vec<u8> = vec![0u8; TCP_BUFFER_LEN];
            match tcp_recv_slice(&mut self.sockets, h, &mut buf) {
                Ok(n) => {
                    if n > 0 {
                        let ghost filled = buf@;
                        buf.truncate(n);
                        let ghost chunk = buf@;
                        assert(chunk =~= filled.subrange(0, n as int));
                        sock.push_received(buf);
                        received = n;
                        assert(chunk.len() == received);
                        assert(sock.inbound() == s1.inbound().push(chunk));
                    }
                },
                Err(_) => {},
            }
        }
        self.smol_sockets.insert(smol_socket_handle, sock);
        assert(self.socket_table() =~= old(self).socket_table().insert(smol_socket_handle, sock));
        Ok(SpinReport { sent, received })
    }

    /// The handles of the registered sockets, each once.
    fn socket_handles(&self) -> (r: Vec<usize>)
        requires
            self.wf(),
        ensures
            forall|k: usize| self.socket_table().contains_key(k) <==> r@.contains(k),
            forall|a: int, b: int| 0 <= a < b < r@.len() ==> r@[a] != r@[b],
    {
        let mut r: Vec<usize> = Vec::new();
        let ghost ks = vstd::std_specs::hash::spec_keys_iter(&self.smol_sockets).remaining();
        for k in it: self.smol_sockets.keys()
            invariant
                it.seq() == ks,
                r@.len() == it.index(),
                forall|j: int| 0 <= j < r@.len() ==> r@[j] == *ks[j],
        {
            r.push(*k);
        }
        assert(r@ =~= ks.unref());
        assert(ks.unref().to_set() == self.smol_sockets@.dom());
        assert forall|k: usize| self.socket_table().contains_key(k) <==> r@.contains(k) by {
            assert(self.smol_sockets@.dom().contains(k) == r@.to_set().contains(k));
        }
        assert(r@.no_duplicates());
        r
    }

    /// One `spin` over every socket registered when the pass starts; sockets added during
    /// the pass wait for the next one, and sockets that `spin` refuses are left as they
    /// are. Returns the handles of the sockets that received data, each once: exactly
    /// those whose inbound queue changed, so that only their readers need waking.
    pub fn spin_all(&mut self) -> (r: Result<Vec<usize>, StackError>)
        requires
            old(self).wf(),
        ensures
            final(self).wf(),
            final(self).config() == old(self).config(),
            same_sockets(final(self).engine(), old(self).engine()),
            !old(self).config().finalized ==> r == Err::<Vec<usize>, StackError>(StackError::NotFinalized)
                && final(self).socket_table() == old(self).socket_table(),
            old(self).config().finalized ==> r is Ok,
            final(self).socket_table().dom() == old(self).socket_table().dom(),
            old(self).config().finalized ==> forall|k: usize| #[trigger]
                old(self).socket_table().contains_key(k) ==> spun_some(
                    old(self).socket_table()[k],
                    final(self).socket_table()[k],
                ),
            r matches Ok(woken) ==> forall|k: usize| #[trigger]
                old(self).socket_table().contains_key(k) ==> (woken@.contains(k) <==> final(
                self).socket_table()[k].inbound() != old(self).socket_table()[k].inbound()),
            r matches Ok(woken) ==> forall|a: int, b: int| 0 <= a < b < woken@.len() ==> woken@[a] != woken@[b],
    {
        if !self.finalized {
            return Err(StackError::NotFinalized);
        }
        let handles = self.socket_handles();
        let ghost start = *self;
        let mut woken: Vec<usize> = Vec::new();
        let mut j: usize = 0;
        while j < handles.len()
            invariant
                self.wf(),
                self.config() == start.config(),
                same_sockets(self.engine(), start.engine()),
                j <= handles@.len(),
                forall|k: usize| start.socket_table().contains_key(k) <==> handles@.contains(k),
                forall|a: int, b: int| 0 <= a < b < handles@.len() ==> handles@[a] != handles@[b],
                self.socket_table().dom() == start.socket_table().dom(),
                forall|a: int| 0 <= a < j ==> spun_some(
                    start.socket_table()[#[trigger] handles@[a]],
                    self.socket_table()[handles@[a]],
                ),
                forall|a: int| j <= a < handles@.len() ==> self.socket_table()[#[trigger] handles@[a]]
                    == start.socket_table()[handles@[a]],
                forall|a: int| 0 <= a < j ==> (woken@.contains(#[trigger] handles@[a]) <==> self.socket_table()[handles@[a]].inbound()
                    != start.socket_table()[handles@[a]].inbound()),
                forall|x: int| 0 <= x < woken@.len() ==> exists|a: int| 0 <= a < j && handles@[a] == #[trigger] woken@[x],
                forall|x: int, y: int| 0 <= x < y < woken@.len() ==> woken@[x] != woken@[y],
            decreases handles@.len() - j,
        {
            let k = handles[j];
            let ghost prev = *self;
            let ghost woken_before = woken@;
            let r = self.spin(k);
            match r {
                Ok(rep) => {
                    if rep.received > 0 {
                        woken.push(k);
                    }
                },
                Err(_) => {},
            }
            proof {
                let s = prev.socket_table()[k];
                if r is Err {
                    assert(self.socket_table() == prev.socket_table());
                    assert(s.pending_bytes().subrange(0, s.pending_bytes().len() as int) =~= s.pending_bytes());
                    assert(spun(s, s, 0));
                } else {
                    assert(self.socket_table().dom() =~= prev.socket_table().dom());
                    let rep = r->Ok_0;
                    if rep.received > 0 {
                        let chunk = choose|chunk: Seq<u8>| chunk.len() == rep.received
                            && self.socket_table()[k].inbound() == s.inbound().push(chunk);
                        assert(self.socket_table()[k].inbound().len() == s.inbound().len() + 1);
                    }
                }
                assert(!woken_before.contains(k)) by {
                    if woken_before.contains(k) {
                        let x = choose|x: int| 0 <= x < woken_before.len() && woken_before[x] == k;
                        let a = choose|a: int| 0 <= a < j && handles@[a] == woken_before[x];
                        assert(handles@[a] != handles@[j as int]);
                    }
                }
                assert forall|a: int| j + 1 <= a < handles@.len() implies self.socket_table()[#[trigger] handles@[a]]
                    == start.socket_table()[handles@[a]] by {
                    assert(handles@[a] != handles@[j as int]);
                }
                assert forall|a: int| 0 <= a < j implies spun_some(
                    start.socket_table()[#[trigger] handles@[a]],
                    self.socket_table()[handles@[a]],
                ) by {
                    assert(handles@[a] != handles@[j as int]);
                }
                assert forall|a: int| 0 <= a < j + 1 implies (woken@.contains(#[trigger] handles@[a]) <==> self.socket_table()[handles@[a]].inbound()
                    != start.socket_table()[handles@[a]].inbound()) by {
                    if a < j {
                        assert(handles@[a] != handles@[j as int]);
                        if woken@.contains(handles@[a]) {
                            let x = choose|x: int| 0 <= x < woken@.len() && woken@[x] == handles@[a];
                            if x < woken_before.len() {
                                assert(woken_before[x] == handles@[a]);
                            }
                        }
                        if woken_before.contains(handles@[a]) {
                            let x = choose|x: int| 0 <= x < woken_before.len() && woken_before[x] == handles@[a];
                            assert(woken@[x] == handles@[a]);
                        }
                    } else {
                        if woken@.len() > woken_before.len() {
                            assert(woken@[woken_before.len() as int] == k);
                        }
                    }
                }
                assert forall|x: int| 0 <= x < woken@.len() implies exists|a: int| 0 <= a < j + 1 && handles@[a] == #[trigger] woken@[x] by {
                    if x < woken_before.len() {
                        assert(woken@[x] == woken_before[x]);
                    } else {
                        assert(handles@[j as int] == woken@[x]);
                    }
                }
            }
            j = j + 1;
        }
        proof {
            assert forall|k: usize| #[trigger] start.socket_table().contains_key(k) implies spun_some(
                start.socket_table()[k],
                self.socket_table()[k],
            ) && (woken@.contains(k) <==> self.socket_table()[k].inbound() != start.socket_table()[k].inbound()) by {
                assert(handles@.contains(k));
                let a = choose|a: int| 0 <= a < handles@.len() && handles@[a] == k;
                assert(spun_some(start.socket_table()[handles@[a]], self.socket_table()[handles@[a]]));
            }
        }
        Ok(woken)
    }

    /// The socket registered under `smol_socket_handle`, if any.
    pub fn get_smol_socket(&self, smol_socket_handle: usize) -> (r: Option<&SmolSocket<O>>)
        requires
            self.wf(),
        ensures
            r is None <==> !self.socket_table().contains_key(smol_socket_handle),
            r matches Some(s) ==> *s == self.socket_table()[smol_socket_handle],
    {
        self.smol_sockets.get(&smol_socket_handle)
    }

    /// The engine's socket set, lent to drive the interface (`poll`). Sockets keep their
    /// handles; the operations on a socket check that the engine still holds it. The stack
    /// stays well formed as long as the set is not replaced by one over fixed storage.
    pub fn engine_mut(&mut self) -> (r: &mut SocketSet<'static>)
        requires
            old(self).wf(),
        ensures
            *r == old(self).engine(),
            final(self).engine() == *final(r),
            final(self).config() == old(self).config(),
            final(self).socket_table() == old(self).socket_table(),
            socket_set_growable(*final(r)) ==> final(self).wf(),
    {
        &mut self.sockets
    }
}

} // verus!
