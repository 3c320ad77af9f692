use vstd::prelude::*;
use std::collections::VecDeque;
use crate::packet::{Packet, check_mac, check_ip, check_udp, mac_valid, ip_valid, udp_valid};

verus! {

/// A layer of the header pipeline.
#[derive(Clone, Copy, PartialEq, Eq, Structural)]
pub enum Layer {
    Mac,
    Ip,
    Udp,
}

/// The frame passes the check of `layer`, for a server at `own_ip`.
pub open spec fn layer_valid(layer: Layer, own_ip: u32, d: Seq<u8>) -> bool {
    match layer {
        Layer::Mac => mac_valid(d),
        Layer::Ip => ip_valid(d, own_ip),
        Layer::Udp => udp_valid(d),
    }
}

/// The packets that a layer keeps.
pub open spec fn passes(layer: Layer, own_ip: u32) -> spec_fn(Packet) -> bool {
    |p: Packet| layer_valid(layer, own_ip, p.data@)
}

/// The packets that a layer drops.
pub open spec fn fails(layer: Layer, own_ip: u32) -> spec_fn(Packet) -> bool {
    |p: Packet| !layer_valid(layer, own_ip, p.data@)
}

/// What is left of a burst after all three layers, in receive order.
pub open spec fn accepted(s: Seq<Packet>, own_ip: u32) -> Seq<Packet> {
    s.filter(passes(Layer::Mac, own_ip)).filter(passes(Layer::Ip, own_ip)).filter(
        passes(Layer::Udp, own_ip),
    )
}

/// The packets of a burst that the three layers drop, layer by layer.
pub open spec fn rejected(s: Seq<Packet>, own_ip: u32) -> Seq<Packet> {
    let after_mac = s.filter(passes(Layer::Mac, own_ip));
    let after_ip = after_mac.filter(passes(Layer::Ip, own_ip));
    s.filter(fails(Layer::Mac, own_ip)) + after_mac.filter(fails(Layer::Ip, own_ip))
        + after_ip.filter(fails(Layer::Udp, own_ip))
}

/// Result of running a burst through the header pipeline.
pub struct Classified {
    /// Packets whose headers all passed, in receive order.
    pub requests: VecDeque<Packet>,
    /// Packets that failed a check; each is to be freed once.
    pub dropped: VecDeque<Packet>,
}

pub proof fn lemma_filter_step<A>(s: Seq<A>, k: int, f: spec_fn(A) -> bool)
    requires
        0 <= k < s.len(),
    ensures
        s.take(k + 1).filter(f) == if f(s[k]) {
            s.take(k).filter(f).push(s[k])
        } else {
            s.take(k).filter(f)
        },
{
    reveal(Seq::filter);
    assert(s.take(k + 1).drop_last() =~= s.take(k));
}

/// Splitting a sequence by a predicate and its negation loses and adds nothing.
pub proof fn lemma_partition_conserves<A>(s: Seq<A>, f: spec_fn(A) -> bool, g: spec_fn(A) -> bool)
    requires
        forall|x: A| #[trigger] g(x) == !f(x),
    ensures
        s.filter(f).to_multiset().add(s.filter(g).to_multiset()) =~= s.to_multiset(),
    decreases s.len(),
{
    reveal(Seq::filter);
    if s.len() == 0 {
        s.filter(f).to_multiset_ensures();
        s.filter(g).to_multiset_ensures();
        s.to_multiset_ensures();
    } else {
        lemma_partition_conserves(s.drop_last(), f, g);
        let l = s.last();
        s.drop_last().filter(f).to_multiset_ensures();
        s.drop_last().filter(g).to_multiset_ensures();
        s.drop_last().to_multiset_ensures();
        assert(s.drop_last().push(l) =~= s);
        if f(l) {
            s.drop_last().filter(f).push(l).to_multiset_ensures();
        } else {
            s.drop_last().filter(g).push(l).to_multiset_ensures();
        }
    }
}

/// Splits a burst by the check of one layer, keeping receive order in both
/// parts.
pub fn partition_layer(packets: VecDeque<Packet>, layer: Layer, own_ip: u32) -> (r: (
    VecDeque<Packet>,
    VecDeque<Packet>,
))
    ensures
        r.0@ == packets@.filter(passes(layer, own_ip)),
        r.1@ == packets@.filter(fails(layer, own_ip)),
{
    let ghost orig = packets@;
    let mut input = packets;
    let mut kept: VecDeque<Packet> = VecDeque::new();
    let mut dropped: VecDeque<Packet> = VecDeque::new();
    let ghost mut k: int = 0;
    assert(orig.take(0) =~= Seq::<Packet>::empty());
    while input.len() > 0
        invariant
            0 <= k <= orig.len(),
            input@ == orig.skip(k),
            kept@ == orig.take(k).filter(passes(layer, own_ip)),
            dropped@ == orig.take(k).filter(fails(layer, own_ip)),
        decreases input@.len(),
    {
        let p = input.pop_front().unwrap();
        proof {
            assert(p == orig[k]);
            lemma_filter_step(orig, k, passes(layer, own_ip));
            lemma_filter_step(orig, k, fails(layer, own_ip));
        }
        let ok = match layer {
            Layer::Mac => check_mac(&p.data),
            Layer::Ip => check_ip(&p.data, own_ip),
            Layer::Udp => check_udp(&p.data),
        };
        if ok {
            kept.push_back(p);
        } else {
            dropped.push_back(p);
        }
        proof {
            k = k + 1;
            assert(input@ =~= orig.skip(k));
        }
    }
    assert(orig.take(k) =~= orig);
    (kept, dropped)
}

/// Parses the Ethernet headers of a burst; frames with another ethertype,
/// or too short to hold the header, are dropped.
pub fn parse_mac_headers(packets: VecDeque<Packet>, own_ip: u32) -> (r: (
    VecDeque<Packet>,
    VecDeque<Packet>,
))
    ensures
        r.0@ == packets@.filter(passes(Layer::Mac, own_ip)),
        r.1@ == packets@.filter(fails(Layer::Mac, own_ip)),
{
    partition_layer(packets, Layer::Mac, own_ip)
}

/// Parses the IPv4 headers of a burst; a frame is dropped unless it is
/// version 4, its TTL is positive, its total length reaches the minimum and
/// it is addressed to `own_ip`.
pub fn parse_ip_headers(packets: VecDeque<Packet>, own_ip: u32) -> (r: (
    VecDeque<Packet>,
    VecDeque<Packet>,
))
    ensures
        r.0@ == packets@.filter(passes(Layer::Ip, own_ip)),
        r.1@ == packets@.filter(fails(Layer::Ip, own_ip)),
{
    partition_layer(packets, Layer::Ip, own_ip)
}

/// Parses the UDP headers of a burst; a frame is dropped when its UDP
/// length is under the minimum. The destination port is not checked here.
pub fn parse_udp_headers(packets: VecDeque<Packet>, own_ip: u32) -> (r: (
    VecDeque<Packet>,
    VecDeque<Packet>,
))
    ensures
        r.0@ == packets@.filter(passes(Layer::Udp, own_ip)),
        r.1@ == packets@.filter(fails(Layer::Udp, own_ip)),
{
    partition_layer(packets, Layer::Udp, own_ip)
}

/// Runs a burst through the three layers in turn: every packet goes
/// through the Ethernet check before any goes through the IP check, and so
/// on. Survivors keep their receive order.
pub fn classify(packets: VecDeque<Packet>, own_ip: u32) -> (c: Classified)
    ensures
        c.requests@ == accepted(packets@, own_ip),
        c.dropped@ == rejected(packets@, own_ip),
{
    let (macs, mut dropped) = parse_mac_headers(packets, own_ip);
    let (ips, mut bad_ip) = parse_ip_headers(macs, own_ip);
    let (udps, mut bad_udp) = parse_udp_headers(ips, own_ip);
    dropped.append(&mut bad_ip);
    dropped.append(&mut bad_udp);
    Classified { requests: udps, dropped }
}

/// Every packet of a burst comes out of the classifier exactly once: either
/// as a request or among the dropped packets.
pub proof fn lemma_classify_conserves(s: Seq<Packet>, own_ip: u32)
    ensures
        accepted(s, own_ip).to_multiset().add(rejected(s, own_ip).to_multiset()) =~= s.to_multiset(),
{
    let m = passes(Layer::Mac, own_ip);
    let i = passes(Layer::Ip, own_ip);
    let u = passes(Layer::Udp, own_ip);
    let s1 = s.filter(m);
    let s2 = s1.filter(i);
    let d1 = s.filter(fails(Layer::Mac, own_ip));
    let d2 = s1.filter(fails(Layer::Ip, own_ip));
    let d3 = s2.filter(fails(Layer::Udp, own_ip));
    lemma_partition_conserves(s, m, fails(Layer::Mac, own_ip));
    lemma_partition_conserves(s1, i, fails(Layer::Ip, own_ip));
    lemma_partition_conserves(s2, u, fails(Layer::Udp, own_ip));
    vstd::seq_lib::lemma_multiset_commutative(d1, d2);
    vstd::seq_lib::lemma_multiset_commutative(d1 + d2, d3);
}

/// Within a burst, the requests that survive classification keep the order
/// in which their frames arrived: they form a subsequence of the burst.
pub proof fn lemma_classify_keeps_order(s: Seq<Packet>, own_ip: u32)
    ensures
        accepted(s, own_ip) == s.filter(
            |p: Packet|
                layer_valid(Layer::Mac, own_ip, p.data@) && layer_valid(Layer::Ip, own_ip, p.data@)
                    && layer_valid(Layer::Udp, own_ip, p.data@),
        ),
{
    let both = |p: Packet|
        layer_valid(Layer::Mac, own_ip, p.data@) && layer_valid(Layer::Ip, own_ip, p.data@);
    let all = |p: Packet|
        layer_valid(Layer::Mac, own_ip, p.data@) && layer_valid(Layer::Ip, own_ip, p.data@)
            && layer_valid(Layer::Udp, own_ip, p.data@);
    lemma_filter_filter(s, passes(Layer::Mac, own_ip), passes(Layer::Ip, own_ip), both);
    lemma_filter_filter(s, both, passes(Layer::Udp, own_ip), all);
}

proof fn lemma_filter_filter<A>(
    s: Seq<A>,
    f: spec_fn(A) -> bool,
    g: spec_fn(A) -> bool,
    h: spec_fn(A) -> bool,
)
    requires
        forall|x: A| #[trigger] h(x) == (f(x) && g(x)),
    ensures
        s.filter(f).filter(g) == s.filter(h),
    decreases s.len(),
{
    reveal(Seq::filter);
    if s.len() > 0 {
        lemma_filter_filter(s.drop_last(), f, g, h);
        let l = s.last();
        if f(l) {
            let t = s.drop_last().filter(f).push(l);
            assert(t.drop_last() =~= s.drop_last().filter(f));
            assert(t.last() == l);
        }
    }
}

} // verus!
