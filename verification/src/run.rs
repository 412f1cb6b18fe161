//! Choosing among resolved addresses.
use vstd::prelude::*;
use crate::{IpVer, ip_ver_of};
use crate::net::IpAddr;
use vstd::string::StringSliceAdditionalSpecFns;
use vstd::utf8::{
    encode_scalar, encode_utf8, has_width_1_encoding, has_width_2_encoding, has_width_3_encoding,
    is_scalar, last_continuation_byte, leading_byte_width_2, leading_byte_width_3,
    leading_byte_width_4, second_last_continuation_byte, third_last_continuation_byte,
};

verus! {

/// The byte that encodes ':' in UTF-8.
pub const COLON: u8 = 0x3A;

/// A scalar's UTF-8 encoding holds the byte of ':' exactly when the scalar is ':'.
proof fn lemma_scalar_encoding_colon(v: u32)
    requires
        is_scalar(v),
    ensures
        encode_scalar(v).contains(COLON) <==> v == 0x3A,
{
    let e = encode_scalar(v);
    if has_width_1_encoding(v) {
        assert((v & 0x7F) as u8 == 0x3A <==> v == 0x3A) by (bit_vector)
            requires
                v <= 0x7F,
        ;
        if v == 0x3A {
            assert(e[0] == COLON);
        }
    } else if has_width_2_encoding(v) {
        assert(leading_byte_width_2(v) != 0x3A && last_continuation_byte(v) != 0x3A)
            by (bit_vector);
        assert forall|i: int| 0 <= i < e.len() implies e[i] != COLON by {}
    } else if has_width_3_encoding(v) {
        assert(leading_byte_width_3(v) != 0x3A && second_last_continuation_byte(v) != 0x3A
            && last_continuation_byte(v) != 0x3A) by (bit_vector);
        assert forall|i: int| 0 <= i < e.len() implies e[i] != COLON by {}
    } else {
        assert(leading_byte_width_4(v) != 0x3A && third_last_continuation_byte(v) != 0x3A
            && second_last_continuation_byte(v) != 0x3A && last_continuation_byte(v) != 0x3A)
            by (bit_vector);
        assert forall|i: int| 0 <= i < e.len() implies e[i] != COLON by {}
    }
}

/// The UTF-8 encoding of a text holds the byte of ':' exactly when the text
/// holds ':'.
pub proof fn lemma_utf8_colon(chars: Seq<char>)
    ensures
        encode_utf8(chars).contains(COLON) <==> chars.contains(':'),
    decreases chars.len(),
{
    if chars.len() > 0 {
        let c = chars[0];
        let rest = chars.drop_first();
        let e = encode_scalar(c as u32);
        let tail = encode_utf8(rest);
        lemma_utf8_colon(rest);
        vstd::utf8::char_is_scalar(c);
        lemma_scalar_encoding_colon(c as u32);
        assert(encode_utf8(chars) == e + tail);
        if e.contains(COLON) {
            let i = choose|i: int| 0 <= i < e.len() && e[i] == COLON;
            assert((e + tail)[i] == COLON);
        }
        if tail.contains(COLON) {
            let i = choose|i: int| 0 <= i < tail.len() && tail[i] == COLON;
            assert((e + tail)[e.len() + i] == COLON);
        }
        if (e + tail).contains(COLON) {
            let i = choose|i: int| 0 <= i < (e + tail).len() && (e + tail)[i] == COLON;
            if i < e.len() {
                assert(e[i] == COLON);
            } else {
                assert(tail[i - e.len()] == COLON);
            }
        }
        if chars.contains(':') {
            let j = choose|j: int| 0 <= j < chars.len() && chars[j] == ':';
            if j > 0 {
                assert(rest[j - 1] == ':');
            }
        }
        if rest.contains(':') {
            let j = choose|j: int| 0 <= j < rest.len() && rest[j] == ':';
            assert(chars[j + 1] == ':');
        }
        if c == ':' {
            assert(chars[0] == ':');
        }
        vstd::utf8::char_u32_cast(c, c as u32);
        vstd::utf8::char_u32_cast(':', ':' as u32);
        assert((c as u32 == 0x3A) <==> (c == ':'));
        assert(e.contains(COLON) <==> c == ':');
        assert(encode_utf8(chars).contains(COLON) <==> (e.contains(COLON) || tail.contains(COLON)));
        assert(chars.contains(':') <==> (c == ':' || rest.contains(':')));
    }
}

/// Whether a host name holds a ':' (it then names a port, or is an IPv6
/// literal, and is resolved as it is; otherwise port 0 is added).
pub fn contains_colon(hostname: &str) -> (r: bool)
    ensures
        r <==> hostname@.contains(':'),
{
    proof {
        lemma_utf8_colon(hostname@);
    }
    let bytes = hostname.as_bytes();
    let mut i: usize = 0;
    while i < bytes.len()
        invariant
            i <= bytes@.len(),
            bytes@ == hostname.spec_bytes(),
            encode_utf8(hostname@).contains(COLON) <==> hostname@.contains(':'),
            forall|j: int| 0 <= j < i ==> bytes@[j] != COLON,
        decreases bytes@.len() - i,
    {
        if bytes[i] == COLON {
            assert(bytes@[i as int] == COLON);
            assert(hostname.spec_bytes().contains(COLON));
            return true;
        }
        i += 1;
    }
    assert(!hostname.spec_bytes().contains(COLON));
    false
}

/// One step of a burst: with `remaining` echoes left, none is due when it is
/// zero; otherwise one echo is due and `remaining - 1` are left.
pub open spec fn burst_next(remaining: usize) -> Option<usize> {
    if remaining == 0 {
        None
    } else {
        Some((remaining - 1) as usize)
    }
}

/// The count left before the `i`-th request for an item (counting from zero)
/// of a burst of `count` echoes: a step that yields an item leaves the count it
/// gives, a step that yields none leaves the count as it was. The step never
/// sees the outcome of an echo.
pub open spec fn burst_remaining(count: usize, i: nat) -> usize
    decreases i,
{
    if i == 0 {
        count
    } else {
        let r = burst_remaining(count, (i - 1) as nat);
        match burst_next(r) {
            Some(n) => n,
            None => r,
        }
    }
}

/// The `i`-th request for an item of a burst of `count` echoes yields one (and
/// makes one echo) exactly when `i < count`: a burst yields exactly `count`
/// items, then none on every later request, whatever the echoes returned.
pub proof fn lemma_burst_yields_count(count: usize, i: nat)
    ensures
        burst_remaining(count, i) == (if i <= count {
            (count - i) as usize
        } else {
            0usize
        }),
        burst_next(burst_remaining(count, i)) is Some <==> i < count,
    decreases i,
{
    if i > 0 {
        lemma_burst_yields_count(count, (i - 1) as nat);
    }
}

/// One step of a burst of echoes with `remaining` echoes left: none when
/// `remaining` is zero, otherwise one echo is due and `remaining - 1` are left.
pub fn burst_step(remaining: usize) -> (r: Option<usize>)
    ensures
        r == burst_next(remaining),
{
    if remaining != 0 {
        Some(remaining - 1)
    } else {
        None
    }
}

/// The first address of `ips` of version `ver`, if any.
pub fn first_ip_with_ver(ips: &[IpAddr], ver: IpVer) -> (r: Option<IpAddr>)
    ensures
        r is None <==> forall|i: int| 0 <= i < ips@.len() ==> ip_ver_of(#[trigger] ips@[i]) != ver,
        r matches Some(ip) ==> exists|i: int|
            0 <= i < ips@.len() && ips@[i] == ip && ip_ver_of(ip) == ver && forall|j: int|
                0 <= j < i ==> ip_ver_of(#[trigger] ips@[j]) != ver,
{
    let mut i: usize = 0;
    while i < ips.len()
        invariant
            i <= ips@.len(),
            forall|j: int| 0 <= j < i ==> ip_ver_of(#[trigger] ips@[j]) != ver,
        decreases ips@.len() - i,
    {
        let ip = ips[i];
        let found = if ver.is_ipv4() {
            ip.is_ipv4()
        } else {
            ip.is_ipv6()
        };
        if found {
            return Some(ip);
        }
        i += 1;
    }
    None
}

} // verus!
