use smol_stack::address::{Address, CIpAddress, CIpEndpoint, CIpv4Address, CIpv4Cidr, CIpv6Address};
use smol_stack::error::StackError;
use smol_stack::socket::{Blob, Packet, SocketType};
use smol_stack::stack::{EngineConfig, SmolStack, SpinReport};
use smoltcp::iface::{EthernetInterface, EthernetInterfaceBuilder, NeighborCache};
use smoltcp::phy::Loopback;
use smoltcp::socket::{TcpSocket, TcpSocketBuffer};
use smoltcp::time::Instant;
use smoltcp::wire::{EthernetAddress, IpAddress, IpCidr};
use std::cell::Cell;
use std::collections::BTreeMap;
use std::rc::Rc;

/// Counts how often the bytes it stands for were released.
struct Releaser(Rc<Cell<u32>>);

impl Drop for Releaser {
    fn drop(&mut self) {
        self.0.set(self.0.get() + 1);
    }
}

fn v4(a: u8, b: u8, c: u8, d: u8) -> CIpv4Address {
    CIpv4Address { address: [a, b, c, d] }
}

fn no_endpoint() -> CIpEndpoint {
    CIpEndpoint { endpoint_type: 9, ipv4: v4(0, 0, 0, 0), ipv6: CIpv6Address { address: [0; 8] }, port: 0 }
}

fn finalized_stack<O>(addr: CIpv4Address, prefix: u8, gateway: CIpv4Address) -> (SmolStack<O>, EngineConfig) {
    let mut stack = SmolStack::new();
    stack.add_ipv4_address(CIpv4Cidr { address: addr, prefix }).unwrap();
    stack.add_default_v4_gateway(gateway).unwrap();
    let config = stack.finalize().ok().unwrap();
    (stack, config)
}

fn loopback_interface(config: EngineConfig) -> EthernetInterface<'static, Loopback> {
    let addrs: Vec<IpCidr> = config
        .ipv4_addresses
        .iter()
        .map(|c| {
            let a = c.address.address;
            IpCidr::new(IpAddress::v4(a[0], a[1], a[2], a[3]), c.prefix)
        })
        .collect();
    EthernetInterfaceBuilder::new(Loopback::new())
        .ethernet_addr(EthernetAddress([0x02, 0, 0, 0, 0, 1]))
        .neighbor_cache(NeighborCache::new(BTreeMap::new()))
        .ip_addrs(addrs)
        .routes(config.routes)
        .finalize()
}

fn pattern(len: usize, seed: u8) -> Vec<u8> {
    (0..len).map(|i| (i as u8).wrapping_mul(7).wrapping_add(seed)).collect()
}

#[test]
fn fifo_with_resumption_over_loopback() {
    let released = Rc::new(Cell::new(0u32));
    let (mut stack, config) = finalized_stack::<Releaser>(v4(127, 0, 0, 1), 8, v4(127, 0, 0, 254));
    let mut iface = loopback_interface(config);
    let server = {
        let engine = stack.engine_mut();
        let h = engine.add(TcpSocket::new(
            TcpSocketBuffer::new(vec![0; 200_000]),
            TcpSocketBuffer::new(vec![0; 1024]),
        ));
        engine.get::<TcpSocket>(h).listen(1234).unwrap();
        h
    };
    stack.add_socket(SocketType::TCP, 1).unwrap();
    assert_eq!(stack.tcp_connect_ipv4(1, v4(127, 0, 0, 1), 40000, 1234), Ok(()));

    let buffers = vec![pattern(30_000, 1), pattern(50_000, 2), pattern(20_000, 3)];
    let mut expected = Vec::new();
    for b in &buffers {
        expected.extend_from_slice(b);
        let packet = Packet { blob: Blob::borrowed(b.clone(), Releaser(released.clone())), endpoint: None };
        assert_eq!(stack.socket_send(1, packet), Ok(()));
    }
    assert_eq!(released.get(), 0);
    assert_eq!(stack.may_send(1), Ok(false));

    let mut received = Vec::new();
    let mut t: i64 = 0;
    while received.len() < expected.len() && t < 600_000 {
        let _ = iface.poll(stack.engine_mut(), Instant::from_millis(t));
        assert!(stack.spin_all().is_ok());
        let mut chunk = vec![0u8; 70_000];
        let n = {
            let mut socket = stack.engine_mut().get::<TcpSocket>(server);
            if socket.can_recv() { socket.recv_slice(&mut chunk).unwrap() } else { 0 }
        };
        received.extend_from_slice(&chunk[..n]);
        t += 10;
    }
    assert_eq!(received.len(), expected.len());
    assert!(received == expected);
    assert_eq!(released.get(), 3);
    assert_eq!(stack.may_send(1), Ok(true));
}

#[test]
fn scenario_connect_and_drive() {
    let (mut stack, config) = finalized_stack::<()>(v4(10, 0, 0, 2), 24, v4(10, 0, 0, 1));
    let mut iface = loopback_interface(config);
    assert_eq!(stack.add_socket(SocketType::TCP, 1), Ok(()));
    let remote = CIpAddress { is_ipv4: 1, ipv4_address: v4(93, 184, 216, 34), ipv6_address: CIpv6Address { address: [0; 8] } };
    assert_eq!(stack.tcp_connect(1, remote, 51000, 80), Ok(()));
    assert!(matches!(
        stack.get_smol_socket(1).unwrap().connected_address(),
        Some(Address::V4(a)) if a.address == [93, 184, 216, 34]
    ));
    for t in 0..20i64 {
        let _ = iface.poll(stack.engine_mut(), Instant::from_millis(t * 100));
        assert_eq!(stack.spin(1), Ok(SpinReport { sent: 0, received: 0 }));
        assert!(stack.may_send(1).is_ok());
    }
    assert_eq!(stack.may_send(1), Ok(false));
}

#[test]
fn unsent_blob_released_once_at_teardown() {
    let released = Rc::new(Cell::new(0u32));
    {
        let (mut stack, _config) = finalized_stack::<Releaser>(v4(10, 0, 0, 2), 24, v4(10, 0, 0, 1));
        stack.add_socket(SocketType::TCP, 1).unwrap();
        let packet = Packet { blob: Blob::borrowed(vec![1, 2, 3], Releaser(released.clone())), endpoint: None };
        assert_eq!(stack.socket_send(1, packet), Ok(()));
        assert_eq!(stack.spin(1).map(|r| r.sent), Ok(0));
        assert_eq!(released.get(), 0);
    }
    assert_eq!(released.get(), 1);
}

#[test]
fn refused_packet_released_once() {
    let released = Rc::new(Cell::new(0u32));
    let (mut stack, _config) = finalized_stack::<Releaser>(v4(10, 0, 0, 2), 24, v4(10, 0, 0, 1));
    stack.add_socket(SocketType::UDP, 3).unwrap();
    let packet = Packet {
        blob: Blob::borrowed(vec![1, 2, 3], Releaser(released.clone())),
        endpoint: no_endpoint().to_endpoint(),
    };
    assert_eq!(stack.socket_send(3, packet), Err(StackError::MissingEndpoint));
    assert_eq!(released.get(), 1);
    let dest = CIpEndpoint { endpoint_type: 1, ipv4: v4(10, 0, 0, 9), ipv6: CIpv6Address { address: [0; 8] }, port: 53 };
    let packet = Packet { blob: Blob::owned(vec![4, 5]), endpoint: dest.to_endpoint() };
    assert_eq!(stack.socket_send(3, packet), Ok(()));
    assert_eq!(released.get(), 1);
}

#[test]
fn per_socket_errors() {
    let (mut stack, _config) = finalized_stack::<()>(v4(10, 0, 0, 2), 24, v4(10, 0, 0, 1));
    stack.add_socket(SocketType::TCP, 1).unwrap();
    stack.add_socket(SocketType::UDP, 2).unwrap();
    assert_eq!(stack.tcp_connect_ipv4(9, v4(10, 0, 0, 9), 5000, 80), Err(StackError::UnknownHandle));
    assert_eq!(stack.may_send(9), Err(StackError::UnknownHandle));
    assert_eq!(stack.spin(9), Err(StackError::UnknownHandle));
    assert_eq!(stack.socket_receive(9).err(), Some(StackError::UnknownHandle));
    let packet = Packet { blob: Blob::owned(vec![1]), endpoint: None };
    assert_eq!(stack.socket_send(9, packet), Err(StackError::UnknownHandle));
    assert_eq!(stack.tcp_connect_ipv4(2, v4(10, 0, 0, 9), 5000, 80), Err(StackError::WrongSocketKind));
    assert_eq!(stack.may_send(2), Err(StackError::Unsupported));
    assert_eq!(stack.spin(2), Err(StackError::Unsupported));
    assert_eq!(stack.socket_receive(1).err(), Some(StackError::NoData));
    assert_eq!(stack.spin_all(), Ok(vec![]));
}

#[test]
fn engine_refusals_on_connect() {
    let (mut stack, _config) = finalized_stack::<()>(v4(10, 0, 0, 2), 24, v4(10, 0, 0, 1));
    stack.add_socket(SocketType::TCP, 1).unwrap();
    assert_eq!(stack.tcp_connect_ipv4(1, v4(10, 0, 0, 9), 0, 80), Err(StackError::EngineRejected));
    assert!(matches!(
        stack.get_smol_socket(1).unwrap().connected_address(),
        Some(Address::V4(a)) if a.address == [10, 0, 0, 9]
    ));
    assert_eq!(stack.tcp_connect_ipv4(1, v4(10, 0, 0, 9), 5000, 0), Err(StackError::EngineRejected));
    assert_eq!(stack.tcp_connect_ipv4(1, v4(0, 0, 0, 0), 5000, 80), Err(StackError::EngineRejected));
    assert_eq!(stack.tcp_connect_ipv4(1, v4(10, 0, 0, 9), 5000, 80), Ok(()));
    assert_eq!(stack.tcp_connect_ipv4(1, v4(10, 0, 0, 8), 5001, 80), Err(StackError::EngineRejected));
    assert!(matches!(
        stack.get_smol_socket(1).unwrap().connected_address(),
        Some(Address::V4(a)) if a.address == [10, 0, 0, 8]
    ));
}

#[test]
fn only_receiving_sockets_are_reported() {
    let (mut stack, config) = finalized_stack::<()>(v4(127, 0, 0, 1), 8, v4(127, 0, 0, 254));
    let mut iface = loopback_interface(config);
    let server = {
        let engine = stack.engine_mut();
        let h = engine.add(TcpSocket::new(
            TcpSocketBuffer::new(vec![0; 4096]),
            TcpSocketBuffer::new(vec![0; 4096]),
        ));
        engine.get::<TcpSocket>(h).listen(2345).unwrap();
        h
    };
    stack.add_socket(SocketType::TCP, 1).unwrap();
    stack.add_socket(SocketType::TCP, 2).unwrap();
    assert_eq!(stack.tcp_connect_ipv4(1, v4(127, 0, 0, 1), 41000, 2345), Ok(()));
    let mut greeted = false;
    let mut got = Vec::new();
    let mut t: i64 = 0;
    while got.is_empty() && t < 60_000 {
        let _ = iface.poll(stack.engine_mut(), Instant::from_millis(t));
        {
            let mut socket = stack.engine_mut().get::<TcpSocket>(server);
            if !greeted && socket.can_send() {
                socket.send_slice(b"hello").unwrap();
                greeted = true;
            }
        }
        let woken = stack.spin_all().unwrap();
        assert!(!woken.contains(&2));
        if woken.contains(&1) {
            got = stack.socket_receive(1).unwrap();
        } else {
            assert_eq!(stack.socket_receive(1).err(), Some(StackError::NoData));
        }
        t += 10;
    }
    assert_eq!(got, b"hello".to_vec());
    assert_eq!(stack.socket_receive(2).err(), Some(StackError::NoData));
}
