use smol_stack::address::{Address, CIpAddress, Endpoint, CIpEndpoint, CIpv4Address, CIpv4Cidr, CIpv6Address, CIpv6Cidr};
use smol_stack::device::{copy_slice, FrameQueues};
use smol_stack::error::StackError;
use smol_stack::socket::{Blob, Packet, SmolSocket, SocketType};
use smoltcp::socket::SocketHandle;

fn packet(bytes: &[u8]) -> Packet<()> {
    Packet { blob: Blob::owned(bytes.to_vec()), endpoint: None }
}

#[test]
fn copy_slice_copies_the_shorter_length() {
    let mut dst = [9u8; 5];
    assert_eq!(copy_slice(&mut dst, &[1, 2, 3]), 3);
    assert_eq!(dst, [1, 2, 3, 9, 9]);
    let mut small = [0u8; 2];
    assert_eq!(copy_slice(&mut small, &[4, 5, 6]), 2);
    assert_eq!(small, [4, 5]);
    let mut none: [u8; 0] = [];
    assert_eq!(copy_slice(&mut none, &[1]), 0);
}

#[test]
fn frame_queues_are_fifo() {
    let mut q = FrameQueues::new();
    assert!(q.receive_instantly().is_none());
    q.transmit(vec![1, 2]);
    q.transmit(vec![3]);
    assert_eq!(q.outbound_len(), 2);
    assert_eq!(q.receive_instantly(), Some(vec![1, 2]));
    assert_eq!(q.receive_instantly(), Some(vec![3]));
    assert!(q.receive_instantly().is_none());
    q.send(vec![7]);
    q.send(vec![8, 9]);
    assert_eq!(q.take_inbound(), Some(vec![7]));
    assert_eq!(q.take_inbound(), Some(vec![8, 9]));
    assert!(q.take_inbound().is_none());
}

#[test]
fn partial_send_resumes_before_newer_packets() {
    let mut s: SmolSocket<()> = SmolSocket::new(SocketHandle::default(), SocketType::TCP);
    s.send(packet(&[1, 2, 3, 4])).unwrap();
    s.send(packet(&[5, 6])).unwrap();
    let p = s.get_latest_packet().unwrap();
    assert_eq!(p.blob.unsent(), &[1, 2, 3, 4]);
    assert!(!s.put_back(p, 3));
    let p = s.get_latest_packet().unwrap();
    assert_eq!(p.blob.unsent(), &[4]);
    assert!(s.put_back(p, 1));
    let p = s.get_latest_packet().unwrap();
    assert_eq!(p.blob.unsent(), &[5, 6]);
    assert!(s.put_back(p, 2));
    assert!(s.get_latest_packet().is_none());
}

#[test]
fn nothing_accepted_keeps_the_packet_first() {
    let mut s: SmolSocket<()> = SmolSocket::new(SocketHandle::default(), SocketType::TCP);
    s.send(packet(&[1, 2])).unwrap();
    let p = s.get_latest_packet().unwrap();
    assert!(!s.put_back(p, 0));
    s.send(packet(&[3])).unwrap();
    assert_eq!(s.get_latest_packet().unwrap().blob.unsent(), &[1, 2]);
}

#[test]
fn inbound_chunks_come_out_in_order() {
    let mut s: SmolSocket<()> = SmolSocket::new(SocketHandle::default(), SocketType::TCP);
    assert!(s.receive().is_none());
    s.push_received(vec![1]);
    s.push_received(vec![2, 3]);
    assert_eq!(s.inbound_len(), 2);
    assert_eq!(s.receive(), Some(vec![1]));
    assert_eq!(s.receive(), Some(vec![2, 3]));
    assert!(s.receive().is_none());
}

#[test]
fn blob_advance_and_unsent() {
    let mut b: Blob<()> = Blob::owned(vec![1, 2, 3, 4, 5]);
    assert_eq!(b.unsent_len(), 5);
    b.advance(2);
    assert_eq!(b.unsent(), &[3, 4, 5]);
    b.advance(3);
    assert_eq!(b.unsent_len(), 0);
}

#[test]
fn endpoint_tags() {
    let e = CIpEndpoint {
        endpoint_type: 1,
        ipv4: CIpv4Address { address: [10, 0, 0, 1] },
        ipv6: CIpv6Address { address: [1, 2, 3, 4, 5, 6, 7, 8] },
        port: 80,
    };
    let r = e.to_endpoint().unwrap();
    assert!(matches!(r.addr, Address::V4(a) if a.address == [10, 0, 0, 1]));
    assert_eq!(r.port, 80);
    let r = CIpEndpoint { endpoint_type: 0, ..e }.to_endpoint().unwrap();
    assert!(matches!(r.addr, Address::V6(a) if a.address == [1, 2, 3, 4, 5, 6, 7, 8]));
    assert!(CIpEndpoint { endpoint_type: 2, ..e }.to_endpoint().is_none());
    let a = CIpAddress { is_ipv4: 1, ipv4_address: e.ipv4, ipv6_address: e.ipv6 };
    assert!(matches!(a.to_address(), Address::V4(_)));
    assert!(matches!(CIpAddress { is_ipv4: 0, ..a }.to_address(), Address::V6(_)));
}

#[test]
fn assignable_networks() {
    assert!(CIpv4Cidr { address: CIpv4Address { address: [10, 0, 0, 2] }, prefix: 24 }.is_assignable());
    assert!(CIpv4Cidr { address: CIpv4Address { address: [0, 0, 0, 0] }, prefix: 0 }.is_assignable());
    assert!(!CIpv4Cidr { address: CIpv4Address { address: [239, 1, 1, 1] }, prefix: 8 }.is_assignable());
    assert!(CIpv4Cidr { address: CIpv4Address { address: [240, 1, 1, 1] }, prefix: 8 }.is_assignable());
    assert!(!CIpv6Cidr { address: CIpv6Address { address: [0xff00, 0, 0, 0, 0, 0, 0, 1] }, prefix: 8 }.is_assignable());
    assert!(CIpv6Cidr { address: CIpv6Address { address: [0xfe80, 0, 0, 0, 0, 0, 0, 1] }, prefix: 64 }.is_assignable());
}

#[test]
fn empty_packet_completes_at_once() {
    let mut s: SmolSocket<()> = SmolSocket::new(SocketHandle::default(), SocketType::TCP);
    s.send(packet(&[])).unwrap();
    s.send(packet(&[1])).unwrap();
    let p = s.get_latest_packet().unwrap();
    assert_eq!(p.blob.unsent_len(), 0);
    assert!(s.put_back(p, 0));
    assert_eq!(s.get_latest_packet().unwrap().blob.unsent(), &[1]);
}

#[test]
fn udp_socket_needs_a_destination() {
    let mut s: SmolSocket<()> = SmolSocket::new(SocketHandle::default(), SocketType::UDP);
    assert!(s.send(packet(&[1])).is_err());
    assert!(s.get_latest_packet().is_none());
    let dest = Endpoint { addr: Address::V4(CIpv4Address { address: [10, 0, 0, 1] }), port: 53 };
    assert!(s.send(Packet { blob: Blob::owned(vec![1]), endpoint: Some(dest) }).is_ok());
    assert!(s.get_latest_packet().is_some());
}

#[test]
fn raw_socket_needs_a_destination() {
    let mut s: SmolSocket<()> = SmolSocket::new(SocketHandle::default(), SocketType::RAW_IPV4);
    assert_eq!(s.send(packet(&[1])), Err(StackError::MissingEndpoint));
    let mut s: SmolSocket<()> = SmolSocket::new(SocketHandle::default(), SocketType::RAW_IPV6);
    assert_eq!(s.send(packet(&[1])), Err(StackError::MissingEndpoint));
    assert!(s.get_latest_packet().is_none());
}
