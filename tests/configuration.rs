use smol_stack::address::{CIpv4Address, CIpv4Cidr, CIpv6Address, CIpv6Cidr, IpFamily};
use smol_stack::error::StackError;
use smol_stack::socket::SocketType;
use smol_stack::stack::SmolStack;

fn v4(a: u8, b: u8, c: u8, d: u8) -> CIpv4Address {
    CIpv4Address { address: [a, b, c, d] }
}

fn v6(first: u16, last: u16) -> CIpv6Address {
    CIpv6Address { address: [first, 0, 0, 0, 0, 0, 0, last] }
}

#[test]
fn handle_keys_strictly_increase() {
    let mut stack: SmolStack<()> = SmolStack::new();
    let mut keys = Vec::new();
    for _ in 0..5 {
        keys.push(stack.new_socket_handle_key().unwrap());
    }
    assert_eq!(keys, vec![1, 2, 3, 4, 5]);
    for w in keys.windows(2) {
        assert!(w[0] < w[1]);
    }
}

#[test]
fn missing_v4_gateway_then_retry() {
    let mut stack: SmolStack<()> = SmolStack::new();
    stack.add_ipv4_address(CIpv4Cidr { address: v4(10, 0, 0, 2), prefix: 24 }).unwrap();
    assert_eq!(stack.finalize().err(), Some(StackError::MissingGateway(IpFamily::V4)));
    assert!(!stack.is_finalized());
    stack.add_default_v4_gateway(v4(10, 0, 0, 1)).unwrap();
    let config = stack.finalize().ok().unwrap();
    assert!(stack.is_finalized());
    assert_eq!(config.ipv4_addresses.len(), 1);
    assert_eq!(config.ipv4_addresses[0].address.address, [10, 0, 0, 2]);
    assert_eq!(config.ipv4_addresses[0].prefix, 24);
    assert!(config.ipv6_addresses.is_empty());
}

#[test]
fn missing_v6_gateway() {
    let mut stack: SmolStack<()> = SmolStack::new();
    stack.add_ipv4_address(CIpv4Cidr { address: v4(10, 0, 0, 2), prefix: 24 }).unwrap();
    stack.add_default_v4_gateway(v4(10, 0, 0, 1)).unwrap();
    stack.add_ipv6_address(CIpv6Cidr { address: v6(0xfd00, 2), prefix: 64 }).unwrap();
    assert_eq!(stack.finalize().err(), Some(StackError::MissingGateway(IpFamily::V6)));
    stack.add_default_v6_gateway(v6(0xfd00, 1)).unwrap();
    let config = stack.finalize().ok().unwrap();
    assert_eq!(config.ipv6_addresses.len(), 1);
    assert_eq!(config.ipv6_addresses[0].address.address[0], 0xfd00);
}

#[test]
fn gateway_without_address_is_enough() {
    let mut stack: SmolStack<()> = SmolStack::new();
    stack.add_default_v4_gateway(v4(10, 0, 0, 1)).unwrap();
    assert!(stack.finalize().is_ok());
}

#[test]
fn second_gateway_replaces_first() {
    let mut stack: SmolStack<()> = SmolStack::new();
    stack.add_ipv4_address(CIpv4Cidr { address: v4(10, 0, 0, 2), prefix: 24 }).unwrap();
    stack.add_default_v4_gateway(v4(10, 0, 0, 1)).unwrap();
    stack.add_default_v4_gateway(v4(10, 0, 0, 254)).unwrap();
    assert!(stack.finalize().is_ok());
}

#[test]
fn finalize_twice_is_refused() {
    let mut stack: SmolStack<()> = SmolStack::new();
    assert!(stack.finalize().is_ok());
    assert_eq!(stack.finalize().err(), Some(StackError::AlreadyFinalized));
    assert_eq!(
        stack.add_ipv4_address(CIpv4Cidr { address: v4(10, 0, 0, 2), prefix: 24 }),
        Err(StackError::AlreadyFinalized)
    );
    assert_eq!(stack.add_default_v6_gateway(v6(0xfd00, 1)), Err(StackError::AlreadyFinalized));
}

#[test]
fn invalid_prefixes_are_refused() {
    let mut stack: SmolStack<()> = SmolStack::new();
    assert_eq!(
        stack.add_ipv4_address(CIpv4Cidr { address: v4(10, 0, 0, 2), prefix: 33 }),
        Err(StackError::InvalidAddress)
    );
    assert_eq!(
        stack.add_ipv6_address(CIpv6Cidr { address: v6(0xfd00, 2), prefix: 129 }),
        Err(StackError::InvalidAddress)
    );
    assert_eq!(stack.add_ipv4_address(CIpv4Cidr { address: v4(10, 0, 0, 2), prefix: 32 }), Ok(()));
    assert_eq!(stack.add_ipv6_address(CIpv6Cidr { address: v6(0xfd00, 2), prefix: 128 }), Ok(()));
}

#[test]
fn group_addresses_are_refused_at_finalize() {
    let mut stack: SmolStack<()> = SmolStack::new();
    assert_eq!(stack.add_ipv4_address(CIpv4Cidr { address: v4(224, 0, 0, 1), prefix: 24 }), Ok(()));
    stack.add_default_v4_gateway(v4(10, 0, 0, 1)).unwrap();
    assert_eq!(stack.finalize().err(), Some(StackError::InvalidAddress));
    assert!(!stack.is_finalized());

    let mut stack: SmolStack<()> = SmolStack::new();
    stack.add_ipv4_address(CIpv4Cidr { address: v4(255, 255, 255, 255), prefix: 32 }).unwrap();
    stack.add_default_v4_gateway(v4(10, 0, 0, 1)).unwrap();
    assert_eq!(stack.finalize().err(), Some(StackError::InvalidAddress));

    let mut stack: SmolStack<()> = SmolStack::new();
    stack.add_ipv6_address(CIpv6Cidr { address: v6(0xff02, 1), prefix: 16 }).unwrap();
    stack.add_default_v6_gateway(v6(0xfd00, 1)).unwrap();
    assert_eq!(stack.finalize().err(), Some(StackError::InvalidAddress));
}

#[test]
fn unsupported_socket_kinds() {
    let mut stack: SmolStack<()> = SmolStack::new();
    assert_eq!(stack.add_socket(SocketType::ICMP, 1), Err(StackError::Unsupported));
    assert_eq!(stack.add_socket(SocketType::RAW_IPV4, 1), Err(StackError::Unsupported));
    assert_eq!(stack.add_socket(SocketType::RAW_IPV6, 1), Err(StackError::Unsupported));
    assert!(stack.get_smol_socket(1).is_none());
}

#[test]
fn handle_in_use_is_refused() {
    let mut stack: SmolStack<()> = SmolStack::new();
    assert_eq!(stack.add_socket(SocketType::TCP, 7), Ok(()));
    assert_eq!(stack.add_socket(SocketType::UDP, 7), Err(StackError::HandleInUse));
    let s = stack.get_smol_socket(7).unwrap();
    assert_eq!(s.socket_type(), SocketType::TCP);
    assert_eq!(stack.add_socket(SocketType::UDP, 8), Ok(()));
    assert_eq!(stack.get_smol_socket(8).unwrap().socket_type(), SocketType::UDP);
}

#[test]
fn operations_before_finalize_are_refused() {
    let mut stack: SmolStack<()> = SmolStack::new();
    stack.add_socket(SocketType::TCP, 1).unwrap();
    assert_eq!(stack.tcp_connect_ipv4(1, v4(10, 0, 0, 9), 5000, 80), Err(StackError::NotFinalized));
    assert_eq!(stack.may_send(1), Err(StackError::NotFinalized));
    assert_eq!(stack.spin(1), Err(StackError::NotFinalized));
    assert_eq!(stack.spin_all(), Err(StackError::NotFinalized));
    assert_eq!(stack.socket_receive(1).err(), Some(StackError::NotFinalized));
}
