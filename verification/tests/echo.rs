use icmp::checksum::sum16;
use icmp::echo::{echo_reply, record_echo_reply, reply_buffer_size, EchoRequest, EchoSession, REPLY_BUF_SIZE};
use icmp::net::{IpAddr, Ipv4Addr};
use icmp::sys::unix::icmp::ICMPHDR_SIZE;
use icmp::Error;
use std::time::Duration;

fn request(data: &[u8]) -> EchoRequest<'_> {
    EchoRequest {
        addr: IpAddr::V4(Ipv4Addr::new([127, 0, 0, 1])),
        data,
        timeout: Duration::from_secs(1),
    }
}

#[test]
fn session_accepts_payload_longer_than_u16() {
    let data = vec![7u8; 65536];
    let s = EchoSession::new(request(&data), 1, 3).unwrap();
    let p = s.request_packet();
    assert_eq!(p.len(), ICMPHDR_SIZE + 65536);
    assert!(p[ICMPHDR_SIZE..].iter().all(|&b| b == 7));
}

#[test]
fn session_accepts_payload_of_u16_max() {
    let data = vec![0u8; 65535];
    let r = EchoSession::new(request(&data), 1, 3);
    assert!(r.is_ok());
}

#[test]
fn session_reports_failed_socket() {
    let r = EchoSession::new(request(b"hello"), 1, -1);
    assert!(matches!(r, Err(Error::SocketOpenFailed(_))));
}

#[test]
fn large_payload_with_failed_socket_reports_the_socket() {
    let data = vec![0u8; 70000];
    let r = EchoSession::new(request(&data), 1, -1);
    assert!(matches!(r, Err(Error::SocketOpenFailed(_))));
}

#[test]
fn session_keeps_address_and_socket() {
    let s = EchoSession::new(request(b"hello"), 7, 5).unwrap();
    assert_eq!(s.addr(), IpAddr::V4(Ipv4Addr::new([127, 0, 0, 1])));
    assert_eq!(s.sockfd(), 5);
}

#[test]
fn request_packet_layout() {
    let s = EchoSession::new(request(b"hello"), 0xABCD1234, 3).unwrap();
    let p = s.request_packet();
    assert_eq!(p.len(), ICMPHDR_SIZE + 5);
    assert_eq!(p[0], 8);
    assert_eq!(p[1], 0);
    // The identifier is the low 16 bits of the process id, in network order.
    assert_eq!(&p[4..6], &[0x12, 0x34]);
    // The sequence number is one, stored in host order.
    assert_eq!(&p[6..8], &1u16.to_ne_bytes());
    assert_eq!(&p[8..], b"hello");
}

#[test]
fn request_packet_checksum_field() {
    let s = EchoSession::new(request(b"hello"), 0x4321, 3).unwrap();
    let p = s.request_packet();
    let mut zeroed = p.clone();
    zeroed[2] = 0;
    zeroed[3] = 0;
    let c = sum16::new(&zeroed).value();
    // The checksum field holds the checksum in host byte order.
    assert_eq!(&p[2..4], &c.to_ne_bytes());
    // Written in network order it verifies.
    let mut wire = zeroed.clone();
    wire[2..4].copy_from_slice(&c.to_be_bytes());
    assert_eq!(sum16::new(&wire).value(), 0);
}

#[test]
fn request_packet_is_the_same_every_time() {
    let s = EchoSession::new(request(b"abc"), 99, 3).unwrap();
    assert_eq!(s.request_packet(), s.request_packet());
}

#[test]
fn reply_carries_the_payload_after_the_header() {
    let s = EchoSession::new(request(b"hello"), 1, 3).unwrap();
    let packet = s.request_packet();
    let mut buf = vec![0u8; REPLY_BUF_SIZE];
    buf[..packet.len()].copy_from_slice(&packet);
    let from = IpAddr::V4(Ipv4Addr::new([8, 8, 8, 8]));
    let r = echo_reply(&buf, packet.len(), from, Duration::from_millis(12));
    assert_eq!(r.data, b"hello".to_vec());
    assert_eq!(r.addr, from);
    assert_eq!(r.ttl, 0);
    assert_eq!(r.rtt, Duration::from_millis(12));
}

#[test]
fn reply_of_header_only_is_empty() {
    let buf = [0u8; 8];
    let r = echo_reply(&buf, 8, IpAddr::V4(Ipv4Addr::new([1, 2, 3, 4])), Duration::ZERO);
    assert!(r.data.is_empty());
}

#[test]
fn reply_buffer_size_fits() {
    assert_eq!(reply_buffer_size(5, 28).unwrap(), (5, 28 + 5 + 1024));
    assert_eq!(reply_buffer_size(65535 - 28, 28).unwrap(), (65507, 65535 + 1024));
}

#[test]
fn reply_buffer_size_too_big() {
    assert!(matches!(reply_buffer_size(65535 - 27, 28), Err(Error::RequestDataTooBig)));
}

#[test]
fn record_reply_takes_the_payload_after_the_record() {
    let mut buf = vec![0u8; 64];
    buf[40..45].copy_from_slice(b"hello");
    let from = IpAddr::V4(Ipv4Addr::new([9, 9, 9, 9]));
    let r = record_echo_reply(&buf, 40, 5, from, Duration::from_millis(3), 117);
    assert_eq!(r.data, b"hello".to_vec());
    assert_eq!(r.addr, from);
    assert_eq!(r.ttl, 117);
    assert_eq!(r.rtt, Duration::from_millis(3));
}

#[test]
fn record_reply_of_empty_payload() {
    let buf = [1u8; 28];
    let r = record_echo_reply(&buf, 28, 0, IpAddr::V4(Ipv4Addr::new([1, 2, 3, 4])), Duration::ZERO, 64);
    assert!(r.data.is_empty());
}
