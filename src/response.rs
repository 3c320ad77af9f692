use vstd::prelude::*;
use crate::packet::{
    Packet, push_be16, push_be32, u16_be, u32_be, PACKET_ETYPE, PACKET_IP_VER, PACKET_IP_IHL,
    PACKET_IP_TTL, PACKET_IP_PROTO_UDP, IP_HEADER_LEN, UDP_HEADER_LEN, UDP_OFFSET, PAYLOAD_OFFSET,
};

verus! {

/// UDP port written as the destination of the cached response header; each
/// response overwrites it with the source port of its request.
pub const CLIENT_UDP_PORT: u16 = 0;

/// Checksum written on response UDP headers (none).
pub const PACKET_UDP_CHECKSUM: u16 = 0;

/// An Ethernet II header.
#[derive(Clone, Copy)]
pub struct MacHeader {
    pub dst: [u8; 6],
    pub src: [u8; 6],
    pub etype: u16,
}

/// The fields of an IPv4 header that responses set; the others are zero.
#[derive(Clone, Copy)]
pub struct IpHeader {
    pub version: u8,
    pub ihl: u8,
    pub length: u16,
    pub ttl: u8,
    pub protocol: u8,
    pub src: u32,
    pub dst: u32,
}

/// A UDP header.
#[derive(Clone, Copy)]
pub struct UdpHeader {
    pub src_port: u16,
    pub dst_port: u16,
    pub length: u16,
    pub checksum: u16,
}

/// Wire bytes of an Ethernet header.
pub open spec fn mac_bytes(h: MacHeader) -> Seq<u8> {
    h.dst@ + h.src@ + u16_be(h.etype)
}

/// Wire bytes of an IPv4 header without options.
pub open spec fn ip_bytes(h: IpHeader) -> Seq<u8> {
    seq![((h.version % 16) * 16 + h.ihl % 16) as u8, 0u8] + u16_be(h.length) + seq![
        0u8,
        0u8,
        0u8,
        0u8,
        h.ttl,
        h.protocol,
        0u8,
        0u8,
    ] + u32_be(h.src) + u32_be(h.dst)
}

/// Wire bytes of a UDP header.
pub open spec fn udp_bytes(h: UdpHeader) -> Seq<u8> {
    u16_be(h.src_port) + u16_be(h.dst_port) + u16_be(h.length) + u16_be(h.checksum)
}

fn push_mac(v: &mut Vec<u8>, h: &MacHeader)
    ensures
        final(v)@ == old(v)@ + mac_bytes(*h),
{
    let mut i: usize = 0;
    while i < 6
        invariant
            i <= 6,
            v@ == old(v)@ + h.dst@.take(i as int),
        decreases 6 - i,
    {
        v.push(h.dst[i]);
        i = i + 1;
        assert(v@ =~= old(v)@ + h.dst@.take(i as int));
    }
    let ghost mid = v@;
    i = 0;
    while i < 6
        invariant
            i <= 6,
            v@ == mid + h.src@.take(i as int),
        decreases 6 - i,
    {
        v.push(h.src[i]);
        i = i + 1;
        assert(v@ =~= mid + h.src@.take(i as int));
    }
    push_be16(v, h.etype);
    assert(h.dst@.take(6) =~= h.dst@);
    assert(h.src@.take(6) =~= h.src@);
    assert(v@ =~= old(v)@ + mac_bytes(*h));
}

fn push_ip(v: &mut Vec<u8>, h: &IpHeader)
    ensures
        final(v)@ == old(v)@ + ip_bytes(*h),
{
    v.push((h.version % 16) * 16 + h.ihl % 16);
    v.push(0);
    push_be16(v, h.length);
    v.push(0);
    v.push(0);
    v.push(0);
    v.push(0);
    v.push(h.ttl);
    v.push(h.protocol);
    v.push(0);
    v.push(0);
    push_be32(v, h.src);
    push_be32(v, h.dst);
    assert(v@ =~= old(v)@ + ip_bytes(*h));
}

fn push_udp(v: &mut Vec<u8>, h: &UdpHeader)
    ensures
        final(v)@ == old(v)@ + udp_bytes(*h),
{
    push_be16(v, h.src_port);
    push_be16(v, h.dst_port);
    push_be16(v, h.length);
    push_be16(v, h.checksum);
    assert(v@ =~= old(v)@ + udp_bytes(*h));
}

/// The three headers prebuilt once per core and stamped onto every response.
pub struct ResponseAssembler {
    pub mac: MacHeader,
    pub ip: IpHeader,
    pub udp: UdpHeader,
}

/// Header bytes of a response sent to `dst_port`.
pub open spec fn response_headers(a: ResponseAssembler, dst_port: u16) -> Seq<u8> {
    mac_bytes(a.mac) + ip_bytes(a.ip) + udp_bytes(UdpHeader { dst_port, ..a.udp })
}

/// The assembler configured for these addresses and this server port.
pub open spec fn assembler_for(
    server_mac: [u8; 6],
    client_mac: [u8; 6],
    server_ip: u32,
    client_ip: u32,
    udp_port: u16,
) -> ResponseAssembler {
    ResponseAssembler {
        mac: MacHeader { dst: client_mac, src: server_mac, etype: PACKET_ETYPE },
        ip: IpHeader {
            version: PACKET_IP_VER,
            ihl: PACKET_IP_IHL,
            length: IP_HEADER_LEN as u16,
            ttl: PACKET_IP_TTL,
            protocol: PACKET_IP_PROTO_UDP,
            src: server_ip,
            dst: client_ip,
        },
        udp: UdpHeader {
            src_port: udp_port,
            dst_port: CLIENT_UDP_PORT,
            length: UDP_HEADER_LEN as u16,
            checksum: PACKET_UDP_CHECKSUM,
        },
    }
}

impl ResponseAssembler {
    /// Precomputes the response headers from the addresses of the server and
    /// of its clients. Length fields hold the bare header sizes until the
    /// response is finalized.
    pub fn new(
        server_mac: [u8; 6],
        client_mac: [u8; 6],
        server_ip: u32,
        client_ip: u32,
        udp_port: u16,
    ) -> (a: ResponseAssembler)
        ensures
            a == assembler_for(server_mac, client_mac, server_ip, client_ip, udp_port),
    {
        ResponseAssembler {
            mac: MacHeader { dst: client_mac, src: server_mac, etype: PACKET_ETYPE },
            ip: IpHeader {
                version: PACKET_IP_VER,
                ihl: PACKET_IP_IHL,
                length: IP_HEADER_LEN as u16,
                ttl: PACKET_IP_TTL,
                protocol: PACKET_IP_PROTO_UDP,
                src: server_ip,
                dst: client_ip,
            },
            udp: UdpHeader {
                src_port: udp_port,
                dst_port: CLIENT_UDP_PORT,
                length: UDP_HEADER_LEN as u16,
                checksum: PACKET_UDP_CHECKSUM,
            },
        }
    }

    /// A fresh response frame holding the cached Ethernet, IP and UDP
    /// headers (Ethernet outermost), addressed to `dst_port`.
    pub fn assemble(&self, dst_port: u16) -> (p: Packet)
        ensures
            p.data@ == response_headers(*self, dst_port),
            p.data@.len() == PAYLOAD_OFFSET,
    {
        let mut data: Vec<u8> = Vec::with_capacity(PAYLOAD_OFFSET);
        push_mac(&mut data, &self.mac);
        push_ip(&mut data, &self.ip);
        let udp = UdpHeader { dst_port, ..self.udp };
        push_udp(&mut data, &udp);
        assert(data@ =~= response_headers(*self, dst_port));
        Packet { data }
    }
}

/// UDP length of a frame of `n` bytes: header and payload, modulo 2^16.
pub open spec fn udp_length_of(n: nat) -> u16 {
    ((n - UDP_OFFSET) % 65536) as u16
}

/// IP total length of a frame of `n` bytes, modulo 2^16.
pub open spec fn ip_length_of(n: nat) -> u16 {
    ((IP_HEADER_LEN + udp_length_of(n)) % 65536) as u16
}

/// A frame with its IP total length and UDP length set from its size.
/// Frames too short to hold the headers are left as they are.
pub open spec fn finalized(d: Seq<u8>) -> Seq<u8> {
    if d.len() < PAYLOAD_OFFSET {
        d
    } else {
        let u = udp_length_of(d.len());
        let i = ip_length_of(d.len());
        d.update(16, (i / 256) as u8).update(17, (i % 256) as u8).update(
            38,
            (u / 256) as u8,
        ).update(39, (u % 256) as u8)
    }
}

/// Sets the IP total length and the UDP length of a response once its
/// payload has been written.
pub fn fixup_header_length_fields(p: Packet) -> (r: Packet)
    ensures
        r.data@ == finalized(p.data@),
{
    let mut p = p;
    let n = p.data.len();
    if n < PAYLOAD_OFFSET {
        return p;
    }
    let u: u16 = ((n - UDP_OFFSET) % 65536) as u16;
    let i: u16 = ((IP_HEADER_LEN + u as usize) % 65536) as u16;
    p.data.set(16, (i / 256) as u8);
    p.data.set(17, (i % 256) as u8);
    p.data.set(38, (u / 256) as u8);
    p.data.set(39, (u % 256) as u8);
    p
}

/// Finalizing the length fields of a response twice gives the same bytes
/// as finalizing them once.
pub proof fn lemma_fixup_idempotent(d: Seq<u8>)
    ensures
        finalized(finalized(d)) == finalized(d),
{
    if d.len() >= PAYLOAD_OFFSET {
        assert(finalized(d).len() == d.len());
        assert(finalized(finalized(d)) =~= finalized(d));
    }
}

} // verus!
