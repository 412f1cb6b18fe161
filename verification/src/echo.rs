//! Echo requests and replies, and the logic of an echo session: what is sent,
//! and what is made of what comes back.
use vstd::prelude::*;
use std::time::Duration;
use crate::{Error, be16, last_os_error};
use crate::checksum::{internet_checksum, lemma_checksum_verifies, sum16};
use crate::endian::{be16_of_host, bytes16_be, bytes16_ne, host_is_big_endian, u16_to_be};
use crate::net::IpAddr;
use crate::sys::unix::icmp::{Echo, ICMPHDR_SIZE, Un, icmphdr};
use crate::sys::unix::icmp::icmp_type::ICMP_ECHO;

verus! {

/// `Duration::clone`: `Duration` is `Copy`, and its clone is the same value.
pub assume_specification[<std::time::Duration as std::clone::Clone>::clone](
    d: &std::time::Duration,
) -> (r: std::time::Duration)
    ensures
        r == *d,
;

/// What to ping, with what payload, waiting how long.
#[derive(Debug, Clone)]
pub struct EchoRequest<'a> {
    pub addr: IpAddr,
    pub data: &'a [u8],
    pub timeout: Duration,
}

/// A reply: who answered, after how long, with what TTL and payload.
#[derive(Debug, Clone)]
pub struct EchoReply {
    pub addr: IpAddr,
    pub rtt: Duration,
    pub ttl: u8,
    pub data: Vec<u8>,
}

/// Why an echo failed.
#[derive(Debug)]
pub enum EchoError {
    NetApiErr(std::io::Error),
    IcmpErr,
}

/// The outcome of one echo.
pub type EchoResult = Result<EchoReply, EchoError>;

/// The size of the buffer that receives a reply.
pub const REPLY_BUF_SIZE: usize = 2048;

/// The echo request header, in memory, with the given checksum field.
pub open spec fn echo_header_bytes(checksum: u16, id: be16, sequence: be16) -> Seq<u8> {
    icmphdr {
        icmp_type: ICMP_ECHO,
        code: 0,
        checksum: sum16(checksum),
        un: Un::Echo(Echo { id, sequence }),
    }.spec_bytes()
}

/// The echo request packet: the header followed by the payload, where the
/// checksum field holds the checksum of the packet with that field zero.
pub open spec fn echo_request_bytes(id: be16, sequence: be16, data: Seq<u8>) -> Seq<u8> {
    echo_header_bytes(internet_checksum(echo_header_bytes(0, id, sequence) + data), id, sequence)
        + data
}

/// The field value after `sequence`: one added in host arithmetic to the
/// stored value, which is meant to be in network order, so on a little-endian
/// host the number that goes on the wire grows by 256.
pub open spec fn next_sequence(sequence: be16) -> be16 {
    (sequence + 1) as be16
}

/// The payload of a received packet of `n` bytes: what follows the header.
pub open spec fn reply_payload(buf: Seq<u8>, n: int) -> Seq<u8> {
    buf.subrange(ICMPHDR_SIZE as int, n)
}

/// An echo session over an ICMP datagram socket.
#[derive(Debug)]
pub struct EchoSession<'a> {
    addr: IpAddr,
    echo: Echo,
    request_data: &'a [u8],
    request_size: u16,
    sockfd: i32,
}

impl<'a> EchoSession<'a> {
    #[verifier::type_invariant]
    spec fn inv(self) -> bool {
        &&& self.echo.sequence == 0
        &&& self.request_size == self.request_data@.len() as u16
    }

    /// The address pinged.
    pub closed spec fn spec_addr(self) -> IpAddr {
        self.addr
    }

    /// The identifier and sequence number kept by the session.
    pub closed spec fn spec_echo(self) -> Echo {
        self.echo
    }

    /// The payload of every request.
    pub closed spec fn spec_request_data(self) -> Seq<u8> {
        self.request_data@
    }

    /// The request size: the payload's length cut to 16 bits.
    pub closed spec fn spec_request_size(self) -> u16 {
        self.request_size
    }

    /// The socket descriptor.
    pub closed spec fn spec_sockfd(self) -> i32 {
        self.sockfd
    }

    /// Starts a session: the identifier is the low 16 bits of the process id
    /// `pid` in network order, the sequence number zero. No length of the
    /// payload is refused; the session's 16-bit request size is that length with
    /// the higher bits cut off. Fails with `SocketOpenFailed` exactly when
    /// `sockfd` is -1 (opening the socket failed).
    pub fn new(req: EchoRequest<'a>, pid: u32, sockfd: i32) -> (r: Result<Self, Error>)
        ensures
            r matches Err(e) ==> e is SocketOpenFailed,
            r is Ok <==> sockfd != -1,
            r matches Ok(s) ==> {
                &&& s.spec_addr() == req.addr
                &&& s.spec_echo().id == be16_of_host((pid & 0xFFFF) as u16)
                &&& s.spec_echo().sequence == 0
                &&& s.spec_request_data() == req.data@
                &&& s.spec_sockfd() == sockfd
                &&& s.spec_request_size() == req.data@.len() as u16
            },
    {
        let id = u16_to_be((pid & 0xFFFF) as u16);
        let echo = Echo { id, sequence: 0 };
        let request_data = req.data;
        let request_size = request_data.len() as u16;
        if sockfd == -1 {
            return Err(Error::SocketOpenFailed(last_os_error()));
        }
        Ok(EchoSession { addr: req.addr, echo, request_data, request_size, sockfd })
    }

    /// The address pinged.
    pub fn addr(&self) -> (r: IpAddr)
        ensures
            r == self.spec_addr(),
    {
        self.addr
    }

    /// The socket descriptor the session sends on.
    pub fn sockfd(&self) -> (r: i32)
        ensures
            r == self.spec_sockfd(),
    {
        self.sockfd
    }

    /// The packet of the next echo request: the session's identifier, its
    /// sequence number plus one, the payload, and the checksum over all of it.
    pub fn request_packet(&self) -> (r: Vec<u8>)
        ensures
            r@ == echo_request_bytes(
                self.spec_echo().id,
                next_sequence(self.spec_echo().sequence),
                self.spec_request_data(),
            ),
            r@.len() == ICMPHDR_SIZE + self.spec_request_data().len(),
            r@.skip(8) == self.spec_request_data(),
            r@.subrange(2, 4) == bytes16_ne(internet_checksum(r@.update(2, 0).update(3, 0))),
    {
        proof {
            use_type_invariant(self);
            lemma_echo_request_layout(
                self.echo.id,
                next_sequence(self.echo.sequence),
                self.request_data@,
            );
            lemma_echo_request_checksum_field(
                self.echo.id,
                next_sequence(self.echo.sequence),
                self.request_data@,
            );
        }
        let echo = Echo { id: self.echo.id, sequence: self.echo.sequence + 1 };
        let un = Un::Echo(echo);
        let mut hdr = icmphdr { icmp_type: ICMP_ECHO, code: 0, checksum: sum16(0), un };
        let mut packet = hdr.to_bytes();
        packet.extend_from_slice(self.request_data);
        assert(packet@ =~= echo_header_bytes(0, echo.id, echo.sequence) + self.request_data@);
        hdr.checksum = sum16::new(packet.as_slice());
        let bytes = hdr.to_bytes();
        let mut i: usize = 0;
        while i < ICMPHDR_SIZE
            invariant
                i <= ICMPHDR_SIZE,
                bytes@.len() == ICMPHDR_SIZE,
                packet@.len() == ICMPHDR_SIZE + self.request_data@.len(),
                forall|j: int| 0 <= j < i ==> packet@[j] == bytes@[j],
                forall|j: int|
                    ICMPHDR_SIZE <= j < packet@.len() ==> packet@[j] == self.request_data@[j
                        - ICMPHDR_SIZE],
            decreases ICMPHDR_SIZE - i,
        {
            packet.set(i, bytes[i]);
            i += 1;
        }
        assert(packet@ =~= bytes@ + self.request_data@);
        packet
    }
}

/// Makes the reply out of the first `n` bytes received in `reply_buf`, from
/// `from`, after `rtt`: its payload is what follows the ICMP header. The TTL is
/// not read from the socket and is reported as zero.
pub fn echo_reply(reply_buf: &[u8], n: usize, from: IpAddr, rtt: Duration) -> (r: EchoReply)
    requires
        ICMPHDR_SIZE <= n <= reply_buf@.len(),
    ensures
        r.addr == from,
        r.rtt == rtt,
        r.ttl == 0,
        r.data@ == reply_payload(reply_buf@, n as int),
        r.data@.len() == n - ICMPHDR_SIZE,
        forall|i: int| 0 <= i < r.data@.len() ==> r.data@[i] == reply_buf@[ICMPHDR_SIZE + i],
{
    proof {
        lemma_reply_payload_is_bytes_after_header(reply_buf@, n as int);
    }
    let data = vstd::slice::slice_to_vec(vstd::slice::slice_subrange(reply_buf, ICMPHDR_SIZE, n));
    EchoReply { addr: from, rtt, ttl: 0, data }
}

/// Makes the reply out of a reply record read from `reply_buf` (the echo API
/// that writes the record first and the payload after it): the payload is the
/// `data_size` bytes at offset `off`, and the record gives the sender, the
/// round-trip time and the TTL.
pub fn record_echo_reply(
    reply_buf: &[u8],
    off: usize,
    data_size: u16,
    from: IpAddr,
    rtt: Duration,
    ttl: u8,
) -> (r: EchoReply)
    requires
        off + data_size <= reply_buf@.len(),
    ensures
        r.addr == from,
        r.rtt == rtt,
        r.ttl == ttl,
        r.data@ == reply_buf@.subrange(off as int, off + data_size),
{
    let len: usize = reply_buf.len();
    assert(off + data_size <= len);
    let end = off + data_size as usize;
    let data = vstd::slice::slice_to_vec(vstd::slice::slice_subrange(reply_buf, off, end));
    EchoReply { addr: from, rtt, ttl, data }
}

/// The request size and the reply buffer size for the echo API that writes an
/// `echo_reply_size`-byte reply record followed by the payload into the buffer:
/// fails with `RequestDataTooBig` when the record and the payload together
/// exceed 65535 bytes; the buffer leaves 1024 bytes to spare.
pub fn reply_buffer_size(request_len: usize, echo_reply_size: usize) -> (r: Result<
    (u16, u32),
    Error,
>)
    requires
        echo_reply_size <= 0xFFFF,
    ensures
        r is Err <==> request_len + echo_reply_size > 0xFFFF,
        r matches Err(e) ==> e is RequestDataTooBig,
        r matches Ok(sizes) ==> sizes.0 == request_len && sizes.1 == echo_reply_size
            + request_len + 1024,
{
    if request_len > 0xFFFF - echo_reply_size {
        return Err(Error::RequestDataTooBig);
    }
    let request_size = request_len as u16;
    let reply_size = echo_reply_size as u32 + request_size as u32 + 1024;
    Ok((request_size, reply_size))
}

/// The layout of a request: type 8, code 0, the checksum, the identifier and the
/// sequence number as stored in memory, then the payload.
pub proof fn lemma_echo_request_layout(id: be16, sequence: be16, data: Seq<u8>)
    ensures
        echo_request_bytes(id, sequence, data).len() == ICMPHDR_SIZE + data.len(),
        echo_request_bytes(id, sequence, data)[0] == ICMP_ECHO,
        echo_request_bytes(id, sequence, data)[1] == 0,
        echo_request_bytes(id, sequence, data).subrange(4, 6) == bytes16_ne(id),
        echo_request_bytes(id, sequence, data).subrange(6, 8) == bytes16_ne(sequence),
        echo_request_bytes(id, sequence, data).subrange(ICMPHDR_SIZE as int, ICMPHDR_SIZE + data.len())
            == data,
{
    let b = echo_request_bytes(id, sequence, data);
    assert(b.subrange(4, 6) =~= bytes16_ne(id));
    assert(b.subrange(6, 8) =~= bytes16_ne(sequence));
    assert(b.subrange(ICMPHDR_SIZE as int, ICMPHDR_SIZE + data.len()) =~= data);
}

/// A session's identifier goes out in network byte order on every host: the
/// bytes of the identifier field are those of the value, most significant first.
pub proof fn lemma_echo_request_id_on_wire(x: u16, sequence: be16, data: Seq<u8>)
    ensures
        echo_request_bytes(be16_of_host(x), sequence, data).subrange(4, 6) == bytes16_be(x),
{
    lemma_echo_request_layout(be16_of_host(x), sequence, data);
    crate::endian::lemma_be16_in_memory(x);
}

/// The payload of a reply that carries back a request packet unchanged is the
/// request's payload.
pub proof fn lemma_reply_payload_of_request(id: be16, sequence: be16, data: Seq<u8>)
    ensures
        reply_payload(
            echo_request_bytes(id, sequence, data),
            ICMPHDR_SIZE + data.len(),
        ) == data,
{
    lemma_echo_request_layout(id, sequence, data);
}

/// The payload of a reply is the bytes after the eight-byte header, whatever
/// the header holds.
pub proof fn lemma_reply_payload_is_bytes_after_header(buf: Seq<u8>, n: int)
    requires
        ICMPHDR_SIZE <= n <= buf.len(),
    ensures
        reply_payload(buf, n).len() == n - ICMPHDR_SIZE,
        forall|i: int|
            0 <= i < n - ICMPHDR_SIZE ==> #[trigger] reply_payload(buf, n)[i] == buf[ICMPHDR_SIZE
                + i],
{
}

/// On every host, the checksum field of a request holds, in the host's byte
/// order, the checksum of the whole packet with that field zero; and that
/// checksum, written high byte first, makes the packet check to zero (for
/// packets up to 131074 bytes).
pub proof fn lemma_echo_request_checksum_field(id: be16, sequence: be16, data: Seq<u8>)
    ensures
        ({
            let p = echo_request_bytes(id, sequence, data);
            let z = p.update(2, 0).update(3, 0);
            &&& z == echo_header_bytes(0, id, sequence) + data
            &&& p.subrange(2, 4) == bytes16_ne(internet_checksum(z))
            &&& data.len() <= 131066 ==> internet_checksum(
                z.update(2, (internet_checksum(z) / 256) as u8).update(
                    3,
                    (internet_checksum(z) % 256) as u8,
                ),
            ) == 0
        }),
{
    let p = echo_request_bytes(id, sequence, data);
    let z = p.update(2, 0).update(3, 0);
    let b = echo_header_bytes(0, id, sequence) + data;
    let zero: u16 = 0;
    assert((zero >> 8) as u8 == 0 && (zero & 0xff) as u8 == 0) by (bit_vector)
        requires
            zero == 0,
    ;
    assert(bytes16_ne(0) =~= seq![0u8, 0u8]);
    assert(z =~= b);
    let c = internet_checksum(b);
    assert(p.subrange(2, 4) =~= bytes16_ne(c));
    if data.len() <= 131066 {
        lemma_checksum_verifies(b, 2);
    }
}

/// On a big-endian host a request carries a valid checksum: the checksum of the
/// whole packet is zero. (On a little-endian host the checksum field is stored
/// with its bytes swapped.)
pub proof fn lemma_echo_request_checksum_verifies(id: be16, sequence: be16, data: Seq<u8>)
    requires
        host_is_big_endian(),
        data.len() <= 131066,
    ensures
        internet_checksum(echo_request_bytes(id, sequence, data)) == 0,
{
    let b = echo_header_bytes(0, id, sequence) + data;
    let c = internet_checksum(b);
    assert(b[2] == 0 && b[3] == 0) by {
        let z: u16 = 0;
        assert((z >> 8) as u8 == 0 && (z & 0xff) as u8 == 0) by (bit_vector)
            requires
                z == 0,
        ;
    }
    lemma_checksum_verifies(b, 2);
    assert((c >> 8) as u8 == (c / 256) as u8 && (c & 0xff) as u8 == (c % 256) as u8)
        by (bit_vector);
    assert(echo_request_bytes(id, sequence, data) =~= b.update(2, (c / 256) as u8).update(
        3,
        (c % 256) as u8,
    ));
}

} // verus!
