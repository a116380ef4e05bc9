//! IPv4 datagrams that carry TCP, as bytes: the fields that the rewriter
//! reads and writes, and the two checksums.

use crate::checksum::{
    add_words, be16, checksum, checksum_of, lemma_checksum_validates, lemma_word_sum_update,
    lemma_word_sum_upto_bound, sum_is_valid, with_be16, word_count, word_sum,
};
use vstd::prelude::*;

verus! {

/// Why bytes were refused.
#[derive(Clone, Copy, Debug, PartialEq, Eq, Structural)]
pub enum PacketError {
    /// The bytes are no IPv4 datagram.
    Ipv4,
    /// The payload is too short for a TCP header.
    Tcp,
}

/// Protocol number of TCP, as the pseudo-header carries it.
pub const TCP: u64 = 6;

/// The shortest IPv4 header, and the shortest TCP header, in bytes.
pub const MIN_HEADER: usize = 20;

/// The largest IPv4 datagram, in bytes.
pub const MAX_DATAGRAM: usize = 0xFFFF;

/// The number that the four bytes at `i` spell, most significant first.
pub open spec fn be32(bytes: Seq<u8>, i: int) -> u32 {
    (bytes[i] * 0x100_0000 + bytes[i + 1] * 0x1_0000 + bytes[i + 2] * 0x100 + bytes[i + 3]) as u32
}

/// `bytes` with the four bytes at `i` replaced by `v`, most significant
/// byte first.
pub open spec fn with_be32(bytes: Seq<u8>, i: int, v: u32) -> Seq<u8> {
    with_be16(with_be16(bytes, i, (v / 0x1_0000) as u16), i + 2, (v % 0x1_0000) as u16)
}

/// The length of the IPv4 header that `bytes` start with, as the low half
/// of the first byte gives it in 32-bit words.
pub open spec fn header_len(bytes: Seq<u8>) -> int {
    (bytes[0] % 16) * 4
}

/// Whether `bytes` are an IPv4 datagram: of version 4, no longer than a
/// datagram can be, with a header of at least 20 bytes that lies within.
pub open spec fn is_ipv4(bytes: Seq<u8>) -> bool {
    &&& MIN_HEADER <= bytes.len() <= MAX_DATAGRAM
    &&& bytes[0] / 16 == 4
    &&& MIN_HEADER <= header_len(bytes) <= bytes.len()
}

/// The IPv4 header of a datagram.
pub open spec fn header(bytes: Seq<u8>) -> Seq<u8> {
    bytes.subrange(0, header_len(bytes))
}

/// What follows the IPv4 header of a datagram.
pub open spec fn payload(bytes: Seq<u8>) -> Seq<u8> {
    bytes.subrange(header_len(bytes), bytes.len() as int)
}

/// The source address of a datagram.
pub open spec fn source_ip(bytes: Seq<u8>) -> u32 {
    be32(bytes, 12)
}

/// The destination address of a datagram.
pub open spec fn destination_ip(bytes: Seq<u8>) -> u32 {
    be32(bytes, 16)
}

/// Whether the payload of a datagram can hold a TCP header.
pub open spec fn has_tcp(bytes: Seq<u8>) -> bool {
    payload(bytes).len() >= MIN_HEADER
}

/// The TCP source port of a datagram.
pub open spec fn tcp_source_port(bytes: Seq<u8>) -> u16 {
    be16(bytes, header_len(bytes))
}

/// The TCP destination port of a datagram.
pub open spec fn tcp_destination_port(bytes: Seq<u8>) -> u16 {
    be16(bytes, header_len(bytes) + 2)
}

/// Whether the header checksum of a datagram is right.
pub open spec fn header_sum_ok(bytes: Seq<u8>) -> bool {
    sum_is_valid(word_sum(header(bytes)))
}

/// A datagram with its header checksum computed anew.
pub open spec fn with_header_checksum(bytes: Seq<u8>) -> Seq<u8> {
    with_be16(bytes, 10, checksum_of(word_sum(header(with_be16(bytes, 10, 0)))))
}

/// The words of the TCP pseudo-header: both addresses, the protocol and
/// the length of the segment.
pub open spec fn pseudo_sum(src: u32, dst: u32, len: int) -> int {
    src / 0x1_0000 + src % 0x1_0000 + dst / 0x1_0000 + dst % 0x1_0000 + TCP + len
}

/// The words of pseudo-header and segment of a datagram, for the
/// addresses `src` and `dst`.
pub open spec fn tcp_sum(bytes: Seq<u8>, src: u32, dst: u32) -> int {
    pseudo_sum(src, dst, payload(bytes).len() as int) + word_sum(payload(bytes))
}

/// Whether the TCP checksum of a datagram is right for the addresses
/// `src` and `dst`.
pub open spec fn tcp_sum_ok(bytes: Seq<u8>, src: u32, dst: u32) -> bool {
    sum_is_valid(tcp_sum(bytes, src, dst))
}

/// Whether both checksums of a datagram are right, the TCP checksum for
/// the addresses that the datagram itself carries.
pub open spec fn checksums_ok(bytes: Seq<u8>) -> bool {
    header_sum_ok(bytes) && tcp_sum_ok(bytes, source_ip(bytes), destination_ip(bytes))
}

/// A datagram with its TCP checksum computed anew for the addresses `src`
/// and `dst`.
pub open spec fn with_tcp_checksum(bytes: Seq<u8>, src: u32, dst: u32) -> Seq<u8> {
    with_be16(
        bytes,
        header_len(bytes) + 16,
        checksum_of(tcp_sum(with_be16(bytes, header_len(bytes) + 16, 0), src, dst)),
    )
}

/// A two-byte field that lies in the header belongs to the header alone.
pub proof fn lemma_header_field(bytes: Seq<u8>, i: int, v: u16)
    requires
        is_ipv4(bytes),
        1 <= i,
        i + 1 < header_len(bytes),
    ensures
        is_ipv4(with_be16(bytes, i, v)),
        header_len(with_be16(bytes, i, v)) == header_len(bytes),
        payload(with_be16(bytes, i, v)) == payload(bytes),
        header(with_be16(bytes, i, v)) == with_be16(header(bytes), i, v),
        be16(with_be16(bytes, i, v), i) == v,
        forall|j: int| 0 <= j < bytes.len() && j != i && j != i + 1 ==> with_be16(bytes, i, v)[j]
            == bytes[j],
{
    let changed = with_be16(bytes, i, v);
    assert(payload(changed) =~= payload(bytes));
    assert(header(changed) =~= with_be16(header(bytes), i, v));
}

/// A two-byte field that lies in the payload belongs to the payload alone.
pub proof fn lemma_payload_field(bytes: Seq<u8>, i: int, v: u16)
    requires
        is_ipv4(bytes),
        0 <= i,
        i + 1 < payload(bytes).len(),
    ensures
        is_ipv4(with_be16(bytes, header_len(bytes) + i, v)),
        header_len(with_be16(bytes, header_len(bytes) + i, v)) == header_len(bytes),
        header(with_be16(bytes, header_len(bytes) + i, v)) == header(bytes),
        payload(with_be16(bytes, header_len(bytes) + i, v)) == with_be16(payload(bytes), i, v),
        be16(with_be16(bytes, header_len(bytes) + i, v), header_len(bytes) + i) == v,
        forall|j: int|
            0 <= j < bytes.len() && j != header_len(bytes) + i && j != header_len(bytes) + i + 1
                ==> with_be16(bytes, header_len(bytes) + i, v)[j] == bytes[j],
{
    let changed = with_be16(bytes, header_len(bytes) + i, v);
    assert(header(changed) =~= header(bytes));
    assert(payload(changed) =~= with_be16(payload(bytes), i, v));
}

/// An address field belongs to the header alone, and reads back as
/// written.
pub proof fn lemma_address_field(bytes: Seq<u8>, i: int, v: u32)
    requires
        is_ipv4(bytes),
        i == 12 || i == 16,
    ensures
        is_ipv4(with_be32(bytes, i, v)),
        header_len(with_be32(bytes, i, v)) == header_len(bytes),
        payload(with_be32(bytes, i, v)) == payload(bytes),
        be32(with_be32(bytes, i, v), i) == v,
        forall|j: int| 0 <= j < bytes.len() && !(i <= j < i + 4) ==> with_be32(bytes, i, v)[j]
            == bytes[j],
{
    let hi = (v / 0x1_0000) as u16;
    let lo = (v % 0x1_0000) as u16;
    let half = with_be16(bytes, i, hi);
    lemma_header_field(bytes, i, hi);
    lemma_header_field(half, i + 2, lo);
    let changed = with_be32(bytes, i, v);
}

/// A header checksum that was computed anew is right, and nothing but the
/// checksum field has changed.
pub proof fn lemma_header_checksum_validates(bytes: Seq<u8>)
    requires
        is_ipv4(bytes),
    ensures
        is_ipv4(with_header_checksum(bytes)),
        header_sum_ok(with_header_checksum(bytes)),
        header_len(with_header_checksum(bytes)) == header_len(bytes),
        payload(with_header_checksum(bytes)) == payload(bytes),
        forall|j: int| 0 <= j < bytes.len() && j != 10 && j != 11 ==> with_header_checksum(bytes)[j]
            == bytes[j],
{
    let zeroed = with_be16(bytes, 10, 0);
    lemma_header_field(bytes, 10, 0);
    let sum = word_sum(header(zeroed));
    let c = checksum_of(sum);
    lemma_header_field(bytes, 10, c);
    lemma_header_field(zeroed, 10, c);
    assert(with_be16(zeroed, 10, c) =~= with_be16(bytes, 10, c));
    lemma_word_sum_update(header(zeroed), 10, c);
    lemma_word_sum_upto_bound(header(zeroed), word_count(header(zeroed).len()));
    lemma_checksum_validates(sum);
}

/// A TCP checksum that was computed anew is right for the addresses it
/// was computed for, and nothing but the checksum field has changed.
pub proof fn lemma_tcp_checksum_validates(bytes: Seq<u8>, src: u32, dst: u32)
    requires
        is_ipv4(bytes),
        has_tcp(bytes),
    ensures
        is_ipv4(with_tcp_checksum(bytes, src, dst)),
        has_tcp(with_tcp_checksum(bytes, src, dst)),
        tcp_sum_ok(with_tcp_checksum(bytes, src, dst), src, dst),
        header_len(with_tcp_checksum(bytes, src, dst)) == header_len(bytes),
        header(with_tcp_checksum(bytes, src, dst)) == header(bytes),
        forall|j: int|
            0 <= j < bytes.len() && j != header_len(bytes) + 16 && j != header_len(bytes) + 17
                ==> with_tcp_checksum(bytes, src, dst)[j] == bytes[j],
{
    let at = header_len(bytes) + 16;
    let zeroed = with_be16(bytes, at, 0);
    lemma_payload_field(bytes, 16, 0);
    let sum = tcp_sum(zeroed, src, dst);
    let c = checksum_of(sum);
    lemma_payload_field(bytes, 16, c);
    lemma_payload_field(zeroed, 16, c);
    assert(with_be16(zeroed, at, c) =~= with_be16(bytes, at, c));
    lemma_word_sum_update(payload(zeroed), 16, c);
    lemma_word_sum_upto_bound(payload(zeroed), word_count(payload(zeroed).len()));
    lemma_checksum_validates(sum);
}

/// Writes `v` into the two bytes at `i`, most significant byte first.
fn set_be16(buffer: &mut Vec<u8>, i: usize, v: u16)
    requires
        i + 1 < old(buffer).len(),
    ensures
        final(buffer)@ == with_be16(old(buffer)@, i as int, v),
{
    buffer.set(i, (v / 256) as u8);
    buffer.set(i + 1, (v % 256) as u8);
}

/// Reads the two bytes at `i`, most significant byte first.
fn get_be16(buffer: &Vec<u8>, i: usize) -> (v: u16)
    requires
        i + 1 < buffer.len(),
    ensures
        v == be16(buffer@, i as int),
{
    (buffer[i] as u16) * 256 + buffer[i + 1] as u16
}

/// Writes `v` into the four bytes at `i`, most significant byte first.
fn set_be32(buffer: &mut Vec<u8>, i: usize, v: u32)
    requires
        i + 3 < old(buffer).len(),
    ensures
        final(buffer)@ == with_be32(old(buffer)@, i as int, v),
{
    set_be16(buffer, i, (v / 0x1_0000) as u16);
    set_be16(buffer, i + 2, (v % 0x1_0000) as u16);
}

/// Reads the four bytes at `i`, most significant byte first.
fn get_be32(buffer: &Vec<u8>, i: usize) -> (v: u32)
    requires
        i + 3 < buffer.len(),
    ensures
        v == be32(buffer@, i as int),
{
    (buffer[i] as u32) * 0x100_0000 + (buffer[i + 1] as u32) * 0x1_0000 + (buffer[i + 2] as u32)
        * 0x100 + buffer[i + 3] as u32
}

/// An IPv4 datagram.
#[derive(Debug)]
pub struct IpV4Packet {
    buffer: Vec<u8>,
}

impl View for IpV4Packet {
    type V = Seq<u8>;

    closed spec fn view(&self) -> Seq<u8> {
        self.buffer@
    }
}

impl IpV4Packet {
    /// Whether the bytes held are an IPv4 datagram, as they are from
    /// `new` on.
    pub open spec fn wf(&self) -> bool {
        is_ipv4(self@)
    }

    /// Takes `buffer` as a datagram, if it is one.
    pub fn new(buffer: Vec<u8>) -> (r: Result<IpV4Packet, PacketError>)
        ensures
            match r {
                Ok(packet) => is_ipv4(buffer@) && packet@ == buffer@ && packet.wf(),
                Err(e) => !is_ipv4(buffer@) && e == PacketError::Ipv4,
            },
    {
        if buffer.len() < MIN_HEADER || buffer.len() > MAX_DATAGRAM {
            return Err(PacketError::Ipv4);
        }
        let first = buffer[0];
        let header_len: usize = (first % 16) as usize * 4;
        if first / 16 != 4 || header_len < MIN_HEADER || header_len > buffer.len() {
            return Err(PacketError::Ipv4);
        }
        Ok(IpV4Packet { buffer })
    }

    /// The bytes of the datagram.
    pub fn as_bytes(&self) -> (bytes: &Vec<u8>)
        ensures
            bytes@ == self@,
    {
        &self.buffer
    }

    /// Gives the bytes of the datagram back.
    pub fn into_bytes(self) -> (bytes: Vec<u8>)
        ensures
            bytes@ == self@,
    {
        self.buffer
    }

    /// The length of the header in bytes.
    pub fn header_len(&self) -> (n: usize)
        requires
            self.wf(),
        ensures
            n == header_len(self@),
    {
        (self.buffer[0] % 16) as usize * 4
    }

    /// The source address.
    pub fn source_ip(&self) -> (ip: u32)
        requires
            self.wf(),
        ensures
            ip == source_ip(self@),
    {
        get_be32(&self.buffer, 12)
    }

    /// The destination address.
    pub fn destination_ip(&self) -> (ip: u32)
        requires
            self.wf(),
        ensures
            ip == destination_ip(self@),
    {
        get_be32(&self.buffer, 16)
    }

    /// Replaces the source address.
    pub fn set_source_ip(&mut self, ip: u32)
        requires
            old(self).wf(),
        ensures
            final(self)@ == with_be32(old(self)@, 12, ip),
            final(self).wf(),
    {
        proof {
            lemma_address_field(self@, 12, ip);
        }
        set_be32(&mut self.buffer, 12, ip);
    }

    /// Replaces the destination address.
    pub fn set_destination_ip(&mut self, ip: u32)
        requires
            old(self).wf(),
        ensures
            final(self)@ == with_be32(old(self)@, 16, ip),
            final(self).wf(),
    {
        proof {
            lemma_address_field(self@, 16, ip);
        }
        set_be32(&mut self.buffer, 16, ip);
    }

    /// Computes the header checksum anew.
    pub fn update_checksum(&mut self)
        requires
            old(self).wf(),
        ensures
            final(self)@ == with_header_checksum(old(self)@),
            final(self).wf(),
    {
        let header_len = self.header_len();
        proof {
            lemma_header_checksum_validates(self@);
        }
        set_be16(&mut self.buffer, 10, 0);
        let sum = add_words(&self.buffer, 0, header_len, 0);
        let c = checksum(sum);
        set_be16(&mut self.buffer, 10, c);
        assert(self.buffer@ =~= with_header_checksum(old(self)@));
    }

    /// Whether the payload can hold a TCP header.
    pub fn has_tcp(&self) -> (r: bool)
        requires
            self.wf(),
        ensures
            r == has_tcp(self@),
    {
        self.buffer.len() - self.header_len() >= MIN_HEADER
    }

    /// The TCP source port.
    pub fn tcp_source_port(&self) -> (port: u16)
        requires
            self.wf(),
            has_tcp(self@),
        ensures
            port == tcp_source_port(self@),
    {
        get_be16(&self.buffer, self.header_len())
    }

    /// The TCP destination port.
    pub fn tcp_destination_port(&self) -> (port: u16)
        requires
            self.wf(),
            has_tcp(self@),
        ensures
            port == tcp_destination_port(self@),
    {
        get_be16(&self.buffer, self.header_len() + 2)
    }

    /// Replaces the TCP source port.
    pub fn set_tcp_source_port(&mut self, port: u16)
        requires
            old(self).wf(),
            has_tcp(old(self)@),
        ensures
            final(self)@ == with_be16(old(self)@, header_len(old(self)@), port),
            final(self).wf(),
    {
        let at = self.header_len();
        proof {
            lemma_payload_field(self@, 0, port);
        }
        set_be16(&mut self.buffer, at, port);
    }

    /// Replaces the TCP destination port.
    pub fn set_tcp_destination_port(&mut self, port: u16)
        requires
            old(self).wf(),
            has_tcp(old(self)@),
        ensures
            final(self)@ == with_be16(old(self)@, header_len(old(self)@) + 2, port),
            final(self).wf(),
    {
        let at = self.header_len() + 2;
        proof {
            lemma_payload_field(self@, 2, port);
        }
        set_be16(&mut self.buffer, at, port);
    }

    /// Computes the TCP checksum anew, for a pseudo-header with the
    /// addresses `src` and `dst`.
    pub fn update_tcp_checksum(&mut self, src: u32, dst: u32)
        requires
            old(self).wf(),
            has_tcp(old(self)@),
        ensures
            final(self)@ == with_tcp_checksum(old(self)@, src, dst),
            final(self).wf(),
    {
        let start = self.header_len();
        let end = self.buffer.len();
        let at = start + 16;
        proof {
            lemma_tcp_checksum_validates(self@, src, dst);
        }
        set_be16(&mut self.buffer, at, 0);
        let pseudo: u64 = (src / 0x1_0000) as u64 + (src % 0x1_0000) as u64 + (dst / 0x1_0000) as u64
            + (dst % 0x1_0000) as u64 + TCP + (end - start) as u64;
        let sum = add_words(&self.buffer, start, end, pseudo);
        let c = checksum(sum);
        set_be16(&mut self.buffer, at, c);
        assert(self.buffer@ =~= with_tcp_checksum(old(self)@, src, dst));
    }
}

} // verus!
