use icmp::net::{IpAddr, Ipv4Addr, Ipv6Addr};
use icmp::run::{burst_step, contains_colon, first_ip_with_ver};
use icmp::sys::unix::IcmpSocket;
use icmp::sys::windows::sock::{in6_addr, in_addr, sockaddr_in, sockaddr_in6, AF_INET, AF_INET6};
use icmp::sys::windows::IcmpHandle;
use icmp::{Error, IpVer};

#[test]
fn ip_ver_predicates() {
    assert!(IpVer::V4.is_ipv4());
    assert!(!IpVer::V4.is_ipv6());
    assert!(IpVer::V6.is_ipv6());
    assert!(!IpVer::V6.is_ipv4());
}

#[test]
fn ip_ver_of_address() {
    assert_eq!(IpVer::from(IpAddr::V4(Ipv4Addr::new([1, 1, 1, 1]))), IpVer::V4);
    assert_eq!(IpVer::from(IpAddr::V6(Ipv6Addr::from_octets([0; 16]))), IpVer::V6);
}

#[test]
fn io_error_converts_to_io_err() {
    let e: Error = std::io::Error::new(std::io::ErrorKind::Other, "x").into();
    assert!(matches!(e, Error::IoErr(_)));
}

#[test]
fn ipv4_bits() {
    let a = Ipv4Addr::new([192, 168, 1, 2]);
    assert_eq!(a.to_bits(), 0xC0A80102);
    assert_eq!(Ipv4Addr::from_bits(0xC0A80102), a);
}

#[test]
fn in_addr_holds_octets_in_memory_order() {
    let a = Ipv4Addr::new([10, 0, 0, 1]);
    let i = in_addr::from(a);
    assert_eq!(i.bits.to_ne_bytes(), [10, 0, 0, 1]);
    assert_eq!(u32::from(i), i.bits);
    assert_eq!(Ipv4Addr::from(i), a);
}

#[test]
fn in6_addr_roundtrip() {
    let o = [1u8, 2, 3, 4, 5, 6, 7, 8, 9, 10, 11, 12, 13, 14, 15, 16];
    let a = Ipv6Addr::from_octets(o);
    let i = in6_addr::from(a);
    assert_eq!(i.octets, o);
    assert_eq!(Ipv6Addr::from(i), a);
}

#[test]
fn sockaddr_in_new() {
    let s = sockaddr_in::new(in_addr { bits: 0x01020304 });
    assert_eq!(s.sin_family, AF_INET);
    assert_eq!(s.sin_port, 0);
    assert_eq!(s.sin_addr.bits, 0x01020304);
    assert_eq!(s.sin_zero, [0; 8]);
}

#[test]
fn sockaddr_in6_new_ext_stores_port_in_network_order() {
    let s = sockaddr_in6::new_ext(in6_addr { octets: [7; 16] }, 0x1234, 5, 6);
    assert_eq!(s.sin6_family, AF_INET6);
    assert_eq!(s.sin6_port.to_ne_bytes(), [0x12, 0x34]);
    assert_eq!(s.sin6_flowinfo, 5);
    assert_eq!(s.sin6_scope_id, 6);
    assert_eq!(s.sin6_addr.octets, [7; 16]);
}

#[test]
fn sockaddr_in6_new_defaults() {
    let s = sockaddr_in6::new(in6_addr { octets: [9; 16] });
    assert_eq!(s.sin6_port, 0);
    assert_eq!(s.sin6_flowinfo, 0);
    assert_eq!(s.sin6_scope_id, 0);
    assert_eq!(s.sin6_family, 23);
}

#[test]
fn first_ip_with_ver_picks_first_match() {
    let v6 = IpAddr::V6(Ipv6Addr::from_octets([1; 16]));
    let a = IpAddr::V4(Ipv4Addr::new([1, 1, 1, 1]));
    let b = IpAddr::V4(Ipv4Addr::new([2, 2, 2, 2]));
    assert_eq!(first_ip_with_ver(&[v6, a, b], IpVer::V4), Some(a));
    assert_eq!(first_ip_with_ver(&[v6, a, b], IpVer::V6), Some(v6));
    assert_eq!(first_ip_with_ver(&[a, b], IpVer::V6), None);
    assert_eq!(first_ip_with_ver(&[], IpVer::V4), None);
}

#[test]
fn contains_colon_cases() {
    assert!(contains_colon("example.com:80"));
    assert!(contains_colon("::1"));
    assert!(!contains_colon("example.com"));
    assert!(!contains_colon(""));
    assert!(!contains_colon("héllo"));
}

#[test]
fn icmp_socket_descriptor() {
    assert!(IcmpSocket::from_descriptor(-1).is_err());
    assert_eq!(IcmpSocket::from_descriptor(4).unwrap().as_raw(), 4);
    assert_eq!(IcmpSocket::domain(IpVer::V4), 2);
    assert_eq!(IcmpSocket::domain(IpVer::V6), 10);
}

#[test]
fn icmp_handle_value() {
    assert!(IcmpHandle::to_res(-1).is_err());
    assert_eq!(IcmpHandle::to_res(42).unwrap().as_raw(), 42);
}

#[test]
fn burst_step_counts_down() {
    assert_eq!(burst_step(0), None);
    assert_eq!(burst_step(1), Some(0));
    assert_eq!(burst_step(5), Some(4));
    let mut n = 3;
    let mut steps = 0;
    while let Some(next) = burst_step(n) {
        n = next;
        steps += 1;
    }
    assert_eq!(steps, 3);
}

#[test]
fn burst_yields_count_items_then_none() {
    let count = 4;
    let mut remaining = count;
    let mut yielded = 0;
    for _ in 0..10 {
        if let Some(next) = burst_step(remaining) {
            remaining = next;
            yielded += 1;
        }
    }
    assert_eq!(yielded, count);
    assert_eq!(burst_step(remaining), None);
}
