use icmp::checksum::sum16;

fn with_checksum_be(buf: &[u8], at: usize) -> Vec<u8> {
    let c = sum16::new(buf).value();
    let mut out = buf.to_vec();
    out[at] = (c >> 8) as u8;
    out[at + 1] = (c & 0xff) as u8;
    out
}

#[test]
fn checksum_of_rfc1071_example() {
    // Words 0x0001 + 0xf203 + 0xf4f5 + 0xf6f7 = 0x2ddf0, folded 0xddf2.
    let buf = [0x00u8, 0x01, 0xf2, 0x03, 0xf4, 0xf5, 0xf6, 0xf7];
    assert_eq!(sum16::new(&buf).value(), !0xddf2u16);
    assert_eq!(sum16::new(&buf).value(), 0x220d);
}

#[test]
fn checksum_of_empty_buffer_is_all_ones() {
    assert_eq!(sum16::new(&[]).value(), 0xFFFF);
}

#[test]
fn checksum_of_odd_buffer_pads_with_zero() {
    let odd = [0x12u8, 0x34, 0x56];
    let padded = [0x12u8, 0x34, 0x56, 0x00];
    assert_eq!(sum16::new(&odd).value(), sum16::new(&padded).value());
    assert_eq!(sum16::new(&odd).value(), !(0x1234u16 + 0x5600));
}

#[test]
fn checksum_folds_carries() {
    // 0xffff + 0x0001 = 0x10000, folded to 0x0001.
    let buf = [0xffu8, 0xff, 0x00, 0x01];
    assert_eq!(sum16::new(&buf).value(), !0x0001u16);
}

#[test]
fn checksum_of_single_byte() {
    assert_eq!(sum16::new(&[0xab]).value(), !0xab00u16);
}

#[test]
fn inserted_checksum_verifies() {
    let buf = [8u8, 0, 0, 0, 0x12, 0x34, 0x00, 0x01, b'h', b'e', b'l', b'l', b'o'];
    let sealed = with_checksum_be(&buf, 2);
    assert_eq!(sum16::new(&sealed).value(), 0);
}

#[test]
fn inserted_checksum_verifies_for_zero_buffer() {
    let buf = [0u8; 6];
    let sealed = with_checksum_be(&buf, 4);
    assert_eq!(&sealed[4..], &[0xff, 0xff]);
    assert_eq!(sum16::new(&sealed).value(), 0);
}

#[test]
fn default_checksum_is_zero() {
    assert_eq!(sum16::default().value(), 0);
}

use icmp::sys::unix::icmp::{icmphdr, Echo, Frag, Un, ICMPHDR_SIZE};

#[test]
fn header_bytes_in_memory_order() {
    let h = icmphdr {
        icmp_type: 8,
        code: 0,
        checksum: sum16(0xBEEF),
        un: Un::Echo(Echo { id: 0x0102, sequence: 0x0304 }),
    };
    let mut want = vec![8u8, 0];
    want.extend_from_slice(&0xBEEFu16.to_ne_bytes());
    want.extend_from_slice(&0x0102u16.to_ne_bytes());
    want.extend_from_slice(&0x0304u16.to_ne_bytes());
    assert_eq!(h.to_bytes(), want);
    assert_eq!(h.to_bytes().len(), ICMPHDR_SIZE);
}

#[test]
fn header_bytes_of_gateway_and_frag() {
    let g = icmphdr { icmp_type: 5, code: 1, checksum: sum16(0), un: Un::Gateway(0x0A000001) };
    let mut want = vec![5u8, 1, 0, 0];
    want.extend_from_slice(&0x0A000001u32.to_ne_bytes());
    assert_eq!(g.to_bytes(), want);
    let f = icmphdr {
        icmp_type: 3,
        code: 4,
        checksum: sum16(1),
        un: Un::Frag(Frag { __unused: 0, mtu: 1500 }),
    };
    let mut want = vec![3u8, 4];
    want.extend_from_slice(&1u16.to_ne_bytes());
    want.extend_from_slice(&0u16.to_ne_bytes());
    want.extend_from_slice(&1500u16.to_ne_bytes());
    assert_eq!(f.to_bytes(), want);
}

#[test]
fn checksum_ignores_word_order() {
    let a = [0x12u8, 0x34, 0xab, 0xcd];
    let b = [0xffu8, 0x01, 0x00, 0x07];
    let ab: Vec<u8> = a.iter().chain(b.iter()).copied().collect();
    let ba: Vec<u8> = b.iter().chain(a.iter()).copied().collect();
    assert_eq!(sum16::new(&ab).value(), sum16::new(&ba).value());
}

#[test]
fn checksum_of_byte_swapped_words_is_byte_swapped() {
    let b = [0x12u8, 0x34, 0xab, 0xcd, 0xff, 0x01];
    let swapped = [0x34u8, 0x12, 0xcd, 0xab, 0x01, 0xff];
    assert_eq!(sum16::new(&swapped).value(), sum16::new(&b).value().swap_bytes());
}

#[test]
fn appending_zero_to_even_buffer_keeps_checksum() {
    let b = [0x12u8, 0x34];
    assert_eq!(sum16::new(&[0x12, 0x34, 0x00]).value(), sum16::new(&b).value());
}
