use vstd::prelude::*;

verus! {

/// Length of an Ethernet II header.
pub const MAC_HEADER_LEN: usize = 14;

/// Length of an IPv4 header without options.
pub const IP_HEADER_LEN: usize = 20;

/// Length of a UDP header.
pub const UDP_HEADER_LEN: usize = 8;

/// Offset of the IPv4 header within a frame.
pub const IP_OFFSET: usize = 14;

/// Offset of the UDP header within a frame.
pub const UDP_OFFSET: usize = 34;

/// Offset of the UDP payload (the RPC envelope) within a frame.
pub const PAYLOAD_OFFSET: usize = 42;

/// Ethertype accepted by the classifier (IPv4).
pub const PACKET_ETYPE: u16 = 0x0800;

/// IP version accepted by the classifier.
pub const PACKET_IP_VER: u8 = 4;

/// Header length, in 32-bit words, written on response IP headers.
pub const PACKET_IP_IHL: u8 = 5;

/// Time to live written on response IP headers.
pub const PACKET_IP_TTL: u8 = 64;

/// IP protocol number of UDP.
pub const PACKET_IP_PROTO_UDP: u8 = 0x11;

/// Smallest IP total length accepted: a header and the two envelope bytes
/// that name the service and the operation.
pub const MIN_LENGTH_IP: u16 = 22;

/// Smallest UDP length accepted: a header and the two envelope bytes that
/// name the service and the operation.
pub const MIN_LENGTH_UDP: u16 = 10;

/// A network buffer: the bytes of one Ethernet frame, headers included.
#[derive(Debug)]
pub struct Packet {
    pub data: Vec<u8>,
}

impl Packet {
    /// Wraps the bytes of a received or freshly built frame.
    pub fn new(data: Vec<u8>) -> (p: Packet)
        ensures
            p.data@ == data@,
    {
        Packet { data }
    }

    /// Number of bytes in the frame.
    pub fn len(&self) -> (n: usize)
        ensures
            n == self.data@.len(),
    {
        self.data.len()
    }
}

/// Big-endian value of the two bytes of `d` at `i`.
pub open spec fn be16(d: Seq<u8>, i: int) -> int {
    d[i] * 256 + d[i + 1]
}

/// Big-endian value of the four bytes of `d` at `i`.
pub open spec fn be32(d: Seq<u8>, i: int) -> int {
    d[i] * 0x1000000 + d[i + 1] * 0x10000 + d[i + 2] * 0x100 + d[i + 3]
}

/// Little-endian value of the four bytes of `d` at `i`.
pub open spec fn le32(d: Seq<u8>, i: int) -> int {
    d[i] + d[i + 1] * 0x100 + d[i + 2] * 0x10000 + d[i + 3] * 0x1000000
}

/// The two big-endian bytes of `x`.
pub open spec fn u16_be(x: u16) -> Seq<u8> {
    seq![(x / 256) as u8, (x % 256) as u8]
}

/// The four big-endian bytes of `x`.
pub open spec fn u32_be(x: u32) -> Seq<u8> {
    seq![
        (x / 0x1000000) as u8,
        ((x / 0x10000) % 0x100) as u8,
        ((x / 0x100) % 0x100) as u8,
        (x % 0x100) as u8,
    ]
}

/// Reads the big-endian `u16` at `i`.
pub fn read_be16(d: &Vec<u8>, i: usize) -> (r: u16)
    requires
        i + 2 <= d@.len(),
    ensures
        r == be16(d@, i as int),
{
    let n = d.len();
    assert(i + 2 <= n);
    (d[i] as u16) * 256 + (d[i + 1] as u16)
}

/// Reads the big-endian `u32` at `i`.
pub fn read_be32(d: &Vec<u8>, i: usize) -> (r: u32)
    requires
        i + 4 <= d@.len(),
    ensures
        r == be32(d@, i as int),
{
    let n = d.len();
    assert(i + 4 <= n);
    let a = d[i] as u32;
    let b = d[i + 1] as u32;
    let c = d[i + 2] as u32;
    let e = d[i + 3] as u32;
    assert(a < 256 && b < 256 && c < 256 && e < 256);
    a * 0x1000000 + b * 0x10000 + c * 0x100 + e
}

/// Reads the little-endian `u32` at `i`.
pub fn read_le32(d: &Vec<u8>, i: usize) -> (r: u32)
    requires
        i + 4 <= d@.len(),
    ensures
        r == le32(d@, i as int),
{
    let n = d.len();
    assert(i + 4 <= n);
    let a = d[i] as u32;
    let b = d[i + 1] as u32;
    let c = d[i + 2] as u32;
    let e = d[i + 3] as u32;
    assert(a < 256 && b < 256 && c < 256 && e < 256);
    a + b * 0x100 + c * 0x10000 + e * 0x1000000
}

/// Appends the big-endian bytes of `x`.
pub fn push_be16(v: &mut Vec<u8>, x: u16)
    ensures
        final(v)@ == old(v)@ + u16_be(x),
{
    v.push((x / 256) as u8);
    v.push((x % 256) as u8);
    assert(final(v)@ =~= old(v)@ + u16_be(x));
}

/// Appends the big-endian bytes of `x`.
pub fn push_be32(v: &mut Vec<u8>, x: u32)
    ensures
        final(v)@ == old(v)@ + u32_be(x),
{
    v.push((x / 0x1000000) as u8);
    v.push(((x / 0x10000) % 0x100) as u8);
    v.push(((x / 0x100) % 0x100) as u8);
    v.push((x % 0x100) as u8);
    assert(final(v)@ =~= old(v)@ + u32_be(x));
}

/// The Ethernet header is present and carries the accepted ethertype.
pub open spec fn mac_valid(d: Seq<u8>) -> bool {
    &&& d.len() >= IP_OFFSET
    &&& be16(d, 12) == PACKET_ETYPE
}

/// The IPv4 header is present and acceptable: version 4, a live TTL, a
/// total length no shorter than the minimum, addressed to `own_ip`.
pub open spec fn ip_valid(d: Seq<u8>, own_ip: u32) -> bool {
    &&& d.len() >= UDP_OFFSET
    &&& d[IP_OFFSET as int] / 16 == PACKET_IP_VER
    &&& d[IP_OFFSET + 8] > 0
    &&& be16(d, IP_OFFSET + 2) >= MIN_LENGTH_IP
    &&& be32(d, IP_OFFSET + 16) == own_ip
}

/// The UDP header is present and its length is no shorter than the minimum.
pub open spec fn udp_valid(d: Seq<u8>) -> bool {
    &&& d.len() >= PAYLOAD_OFFSET
    &&& be16(d, UDP_OFFSET + 4) >= MIN_LENGTH_UDP
}

/// Checks the Ethernet header of a frame.
pub fn check_mac(d: &Vec<u8>) -> (ok: bool)
    ensures
        ok == mac_valid(d@),
{
    d.len() >= IP_OFFSET && read_be16(d, 12) == PACKET_ETYPE
}

/// Checks the IPv4 header of a frame against the server's address.
pub fn check_ip(d: &Vec<u8>, own_ip: u32) -> (ok: bool)
    ensures
        ok == ip_valid(d@, own_ip),
{
    d.len() >= UDP_OFFSET && d[IP_OFFSET] / 16 == PACKET_IP_VER && d[IP_OFFSET + 8] > 0
        && read_be16(d, IP_OFFSET + 2) >= MIN_LENGTH_IP && read_be32(d, IP_OFFSET + 16) == own_ip
}

/// Checks the UDP header of a frame.
pub fn check_udp(d: &Vec<u8>) -> (ok: bool)
    ensures
        ok == udp_valid(d@),
{
    d.len() >= PAYLOAD_OFFSET && read_be16(d, UDP_OFFSET + 4) >= MIN_LENGTH_UDP
}

} // verus!
