//! The protocol engine as this library sees it: the smoltcp items that the stack calls,
//! each behind one trusted declaration whose contract states what smoltcp's source shows.
use smoltcp::iface::Routes;
use smoltcp::socket::{
    Socket, SocketHandle, SocketSet, TcpSocket, TcpSocketBuffer, UdpPacketMetadata, UdpSocket,
    UdpSocketBuffer,
};
use smoltcp::wire::{IpAddress, Ipv4Address, Ipv6Address};
use std::collections::BTreeMap;
use vstd::prelude::*;

verus! {

#[verifier::external_type_specification]
#[verifier::external_body]
pub struct ExSocketSet<'a>(SocketSet<'a>);

#[verifier::external_type_specification]
#[verifier::external_body]
pub struct ExSocketHandle(SocketHandle);

#[verifier::external_type_specification]
#[verifier::external_body]
pub struct ExRoutes<'a>(Routes<'a>);

#[verifier::external_type_specification]
#[verifier::external_body]
pub struct ExError(smoltcp::Error);

/// The handles of the TCP sockets that a socket set holds.
pub uninterp spec fn tcp_sockets(set: SocketSet<'static>) -> Set<SocketHandle>;

/// The handles of the UDP sockets that a socket set holds.
pub uninterp spec fn udp_sockets(set: SocketSet<'static>) -> Set<SocketHandle>;

/// Whether the set's storage is a growable `Vec`, so that adding a socket never fails.
pub uninterp spec fn socket_set_growable(set: SocketSet<'static>) -> bool;

/// Whether the TCP socket under the handle is open: in neither the closed nor the
/// time-wait state.
pub uninterp spec fn tcp_is_open(set: SocketSet<'static>, handle: SocketHandle) -> bool;

/// Whether the TCP socket under the handle may send: established, or closed by the peer only.
pub uninterp spec fn tcp_send_open(set: SocketSet<'static>, handle: SocketHandle) -> bool;

/// How many leading bytes of `data` the TCP socket's transmit buffer takes.
pub uninterp spec fn tcp_accepts(set: SocketSet<'static>, handle: SocketHandle, data: Seq<u8>) -> nat;

/// The bytes in the TCP socket's transmit buffer, oldest first.
pub uninterp spec fn tcp_tx_bytes(set: SocketSet<'static>, handle: SocketHandle) -> Seq<u8>;

/// Whether the TCP socket has received bytes that the application may read.
pub uninterp spec fn tcp_recv_ready(set: SocketSet<'static>, handle: SocketHandle) -> bool;

/// The bytes in the TCP socket's receive buffer, oldest first.
pub uninterp spec fn tcp_rx_bytes(set: SocketSet<'static>, handle: SocketHandle) -> Seq<u8>;

/// The sockets of a set are unchanged in number, kind and handle, and so is its storage.
pub open spec fn same_sockets(a: SocketSet<'static>, b: SocketSet<'static>) -> bool {
    &&& tcp_sockets(a) == tcp_sockets(b)
    &&& udp_sockets(a) == udp_sockets(b)
    &&& socket_set_growable(a) == socket_set_growable(b)
}

/// Relies on `SocketSet::new`: a set over an empty `Vec` holds no socket and grows.
#[verifier::external_body]
pub(crate) fn new_socket_set() -> (r: SocketSet<'static>)
    ensures
        tcp_sockets(r) == Set::<SocketHandle>::empty(),
        udp_sockets(r) == Set::<SocketHandle>::empty(),
        socket_set_growable(r),
{
    SocketSet::new(vec![])
}

/// Relies on `TcpSocket::new` (which panics on a receive buffer above 1 GiB, and starts
/// closed) and `SocketSet::add`: on growable storage `add` puts the socket into a free slot
/// (growing the `Vec` when none is free) and returns that slot's handle, which no socket of
/// the set held before.
#[verifier::external_body]
pub(crate) fn add_tcp_socket(set: &mut SocketSet<'static>, rx_len: usize, tx_len: usize) -> (r:
    SocketHandle)
    requires
        rx_len <= 0x4000_0000,
        socket_set_growable(*old(set)),
    ensures
        !tcp_sockets(*old(set)).contains(r),
        !udp_sockets(*old(set)).contains(r),
        tcp_sockets(*final(set)) == tcp_sockets(*old(set)).insert(r),
        udp_sockets(*final(set)) == udp_sockets(*old(set)),
        socket_set_growable(*final(set)),
        !tcp_is_open(*final(set), r),
{
    let rx = TcpSocketBuffer::new(vec![0; rx_len]);
    let tx = TcpSocketBuffer::new(vec![0; tx_len]);
    set.add(TcpSocket::new(rx, tx))
}

/// Relies on `UdpSocket::new` and `SocketSet::add`, as for TCP sockets.
#[verifier::external_body]
pub(crate) fn add_udp_socket(set: &mut SocketSet<'static>, slots: usize, len: usize) -> (r:
    SocketHandle)
    requires
        socket_set_growable(*old(set)),
    ensures
        !tcp_sockets(*old(set)).contains(r),
        !udp_sockets(*old(set)).contains(r),
        tcp_sockets(*final(set)) == tcp_sockets(*old(set)),
        udp_sockets(*final(set)) == udp_sockets(*old(set)).insert(r),
        socket_set_growable(*final(set)),
{
    let rx = UdpSocketBuffer::new(vec![UdpPacketMetadata::EMPTY; slots], vec![0; len]);
    let tx = UdpSocketBuffer::new(vec![UdpPacketMetadata::EMPTY; slots], vec![0; len]);
    set.add(UdpSocket::new(rx, tx))
}

/// Relies on `SocketSet::iter` and `TcpSocket::handle`: whether the set holds a TCP socket
/// under `handle`. The set may have been lent out to drive the interface, so the stack asks
/// before each call that would panic on a handle that the set does not hold.
#[verifier::external_body]
pub(crate) fn holds_tcp_socket(set: &SocketSet<'static>, handle: SocketHandle) -> (r: bool)
    ensures
        r == tcp_sockets(*set).contains(handle),
{
    for socket in set.iter() {
        if let Socket::Tcp(tcp) = socket {
            if tcp.handle() == handle {
                return true;
            }
        }
    }
    false
}

/// Relies on `SocketSet::get` (which panics on a handle that holds no TCP socket) and
/// `TcpSocket::connect`: it fails, changing nothing, when the socket is open, the remote
/// address is unspecified (0.x.x.x), or a port is 0; else the socket is open afterwards.
#[verifier::external_body]
pub(crate) fn tcp_connect_v4(
    set: &mut SocketSet<'static>,
    handle: SocketHandle,
    remote: [u8; 4],
    remote_port: u16,
    local_port: u16,
) -> (r: Result<(), smoltcp::Error>)
    requires
        tcp_sockets(*old(set)).contains(handle),
    ensures
        same_sockets(*final(set), *old(set)),
        (r is Ok) == (!tcp_is_open(*old(set), handle) && remote[0] != 0 && remote_port != 0
            && local_port != 0),
        r is Ok ==> tcp_is_open(*final(set), handle),
        r is Err ==> *final(set) == *old(set),
{
    let addr = IpAddress::v4(remote[0], remote[1], remote[2], remote[3]);
    set.get::<TcpSocket>(handle).connect((addr, remote_port), local_port)
}

/// Relies on `SocketSet::get` and `TcpSocket::connect`, as for IPv4; the unspecified IPv6
/// address is `::`.
#[verifier::external_body]
pub(crate) fn tcp_connect_v6(
    set: &mut SocketSet<'static>,
    handle: SocketHandle,
    remote: [u16; 8],
    remote_port: u16,
    local_port: u16,
) -> (r: Result<(), smoltcp::Error>)
    requires
        tcp_sockets(*old(set)).contains(handle),
    ensures
        same_sockets(*final(set), *old(set)),
        (r is Ok) == (!tcp_is_open(*old(set), handle) && (exists|i: int| 0 <= i < 8 && remote[i]
            != 0) && remote_port != 0 && local_port != 0),
        r is Ok ==> tcp_is_open(*final(set), handle),
        r is Err ==> *final(set) == *old(set),
{
    let addr = IpAddress::Ipv6(Ipv6Address::from_parts(&remote));
    set.get::<TcpSocket>(handle).connect((addr, remote_port), local_port)
}

/// Relies on `SocketSet::get` and `TcpSocket::may_send`, which only reads the state.
#[verifier::external_body]
pub(crate) fn tcp_may_send(set: &mut SocketSet<'static>, handle: SocketHandle) -> (r: bool)
    requires
        tcp_sockets(*old(set)).contains(handle),
    ensures
        *final(set) == *old(set),
        r == tcp_send_open(*old(set), handle),
{
    set.get::<TcpSocket>(handle).may_send()
}

/// Relies on `SocketSet::get` and `TcpSocket::can_recv`, which only reads the state and is
/// true only with bytes in the receive buffer.
#[verifier::external_body]
pub(crate) fn tcp_can_recv(set: &mut SocketSet<'static>, handle: SocketHandle) -> (r: bool)
    requires
        tcp_sockets(*old(set)).contains(handle),
    ensures
        *final(set) == *old(set),
        r == tcp_recv_ready(*old(set), handle),
        r ==> tcp_rx_bytes(*old(set), handle).len() > 0,
{
    set.get::<TcpSocket>(handle).can_recv()
}

/// Relies on `SocketSet::get` and `TcpSocket::send_slice`: it fails only when the socket
/// may not send; else it appends the prefix of `data` that fits to the transmit buffer and
/// returns that prefix's length. The receive side is left alone.
#[verifier::external_body]
pub(crate) fn tcp_send_slice(set: &mut SocketSet<'static>, handle: SocketHandle, data: &[u8]) -> (r:
    Result<usize, smoltcp::Error>)
    requires
        tcp_sockets(*old(set)).contains(handle),
    ensures
        same_sockets(*final(set), *old(set)),
        !tcp_send_open(*old(set), handle) ==> r is Err && *final(set) == *old(set),
        tcp_send_open(*old(set), handle) ==> r == Ok::<usize, smoltcp::Error>(
            tcp_accepts(*old(set), handle, data@) as usize,
        ),
        tcp_accepts(*old(set), handle, data@) <= data@.len(),
        r matches Ok(n) ==> tcp_tx_bytes(*final(set), handle) == tcp_tx_bytes(*old(set), handle)
            + data@.subrange(0, n as int),
        tcp_recv_ready(*final(set), handle) == tcp_recv_ready(*old(set), handle),
        tcp_rx_bytes(*final(set), handle) == tcp_rx_bytes(*old(set), handle),
{
    set.get::<TcpSocket>(handle).send_slice(data)
}

/// Relies on `SocketSet::get` and `TcpSocket::recv_slice`: when the socket can receive it
/// moves the oldest bytes of the receive buffer, as many as fit, to the front of `buf` and
/// returns how many. The transmit side is left alone.
#[verifier::external_body]
pub(crate) fn tcp_recv_slice(
    set: &mut SocketSet<'static>,
    handle: SocketHandle,
    buf: &mut Vec<u8>,
) -> (r: Result<usize, smoltcp::Error>)
    requires
        tcp_sockets(*old(set)).contains(handle),
    ensures
        same_sockets(*final(set), *old(set)),
        final(buf)@.len() == old(buf)@.len(),
        r matches Ok(n) ==> n <= old(buf)@.len(),
        tcp_recv_ready(*old(set), handle) ==> {
            let rx = tcp_rx_bytes(*old(set), handle);
            let n = if old(buf)@.len() < rx.len() { old(buf)@.len() } else { rx.len() };
            &&& r == Ok::<usize, smoltcp::Error>(n as usize)
            &&& final(buf)@.subrange(0, n as int) == rx.subrange(0, n as int)
        },
        tcp_tx_bytes(*final(set), handle) == tcp_tx_bytes(*old(set), handle),
{
    set.get::<TcpSocket>(handle).recv_slice(buf.as_mut_slice())
}

/// The IPv4 default gateways of a routing table (a table holds at most one).
pub uninterp spec fn v4_default_gateways(routes: Routes<'static>) -> Set<Seq<u8>>;

/// The IPv6 default gateways of a routing table (a table holds at most one).
pub uninterp spec fn v6_default_gateways(routes: Routes<'static>) -> Set<Seq<u16>>;

/// Whether the table's storage is a growable `BTreeMap`, so that adding a route never fails.
pub uninterp spec fn routes_growable(routes: Routes<'static>) -> bool;

/// Relies on `Routes::new`: a routing table over an empty `BTreeMap`, with no route.
#[verifier::external_body]
pub(crate) fn new_routes() -> (r: Routes<'static>)
    ensures
        v4_default_gateways(r) == Set::<Seq<u8>>::empty(),
        v6_default_gateways(r) == Set::<Seq<u16>>::empty(),
        routes_growable(r),
{
    Routes::new(BTreeMap::new())
}

/// Relies on `Routes::add_default_ipv4_route`, which inserts the route to 0.0.0.0/0 via
/// `gateway`, replacing an earlier one; on growable storage the insertion cannot fail, so
/// the result (the previous route) is dropped.
#[verifier::external_body]
pub(crate) fn add_default_v4_route(routes: &mut Routes<'static>, gateway: [u8; 4])
    requires
        routes_growable(*old(routes)),
    ensures
        v4_default_gateways(*final(routes)) == Set::<Seq<u8>>::empty().insert(gateway@),
        v6_default_gateways(*final(routes)) == v6_default_gateways(*old(routes)),
        routes_growable(*final(routes)),
{
    let _ = routes.add_default_ipv4_route(Ipv4Address(gateway));
}

/// Relies on `Routes::add_default_ipv6_route`, as for IPv4, with the route to ::/0.
#[verifier::external_body]
pub(crate) fn add_default_v6_route(routes: &mut Routes<'static>, gateway: [u16; 8])
    requires
        routes_growable(*old(routes)),
    ensures
        v6_default_gateways(*final(routes)) == Set::<Seq<u16>>::empty().insert(gateway@),
        v4_default_gateways(*final(routes)) == v4_default_gateways(*old(routes)),
        routes_growable(*final(routes)),
{
    let _ = routes.add_default_ipv6_route(Ipv6Address::from_parts(&gateway));
}

} // verus!
