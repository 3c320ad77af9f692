use sandstorm::classifier::{classify, parse_ip_headers, parse_mac_headers, parse_udp_headers};
use sandstorm::dispatch::{
    choose_sibling, file_outcome, parse_rpc_opcode, parse_rpc_service, parse_rpc_tenant, Dispatch, Outcome,
    Refused, Service, ServiceKind,
};
use sandstorm::packet::Packet;
use sandstorm::response::{fixup_header_length_fields, ResponseAssembler};
use sandstorm::sched::RoundRobin;
use sandstorm::task::{Queued, TaskPriority, TaskState};
use std::collections::VecDeque;

const SERVER_IP: u32 = 0x0a00_0001;
const CLIENT_IP: u32 = 0x0a00_0002;
const SERVER_MAC: [u8; 6] = [2, 0, 0, 0, 0, 1];
const CLIENT_MAC: [u8; 6] = [2, 0, 0, 0, 0, 2];
const SERVER_PORT: u16 = 0x4d2;

fn be16(v: &mut Vec<u8>, x: u16) {
    v.push((x >> 8) as u8);
    v.push(x as u8);
}

fn be32(v: &mut Vec<u8>, x: u32) {
    for s in [24, 16, 8, 0] {
        v.push((x >> s) as u8);
    }
}

/// A request frame: Ethernet, IPv4, UDP, then `payload`.
fn frame(etype: u16, ttl: u8, dst_ip: u32, src_port: u16, payload: &[u8]) -> Vec<u8> {
    let mut v = Vec::new();
    v.extend_from_slice(&SERVER_MAC);
    v.extend_from_slice(&CLIENT_MAC);
    be16(&mut v, etype);
    v.push(0x45);
    v.push(0);
    be16(&mut v, (20 + 8 + payload.len()) as u16);
    v.extend_from_slice(&[0, 0, 0, 0]);
    v.push(ttl);
    v.push(0x11);
    v.extend_from_slice(&[0, 0]);
    be32(&mut v, CLIENT_IP);
    be32(&mut v, dst_ip);
    be16(&mut v, src_port);
    be16(&mut v, SERVER_PORT);
    be16(&mut v, (8 + payload.len()) as u16);
    be16(&mut v, 0);
    v.extend_from_slice(payload);
    v
}

/// The envelope of a get: service 1, opcode 0, tenant 7, table 1, key 42.
fn get_payload(service: u8) -> Vec<u8> {
    let mut p = vec![service, 0];
    p.extend_from_slice(&7u32.to_le_bytes());
    p.extend_from_slice(&1u64.to_le_bytes());
    p.extend_from_slice(&42u32.to_le_bytes());
    p
}

fn good(src_port: u16) -> Packet {
    Packet::new(frame(0x0800, 64, SERVER_IP, src_port, &get_payload(1)))
}

fn burst(ps: Vec<Packet>) -> VecDeque<Packet> {
    ps.into_iter().collect()
}

/// A service that makes a task of opcode 0 and refuses the others.
struct Master;

impl Service<u32> for Master {
    fn dispatch(&self, op: u8, req: Packet, res: Packet) -> Result<u32, (Packet, Packet)> {
        if op == 0 {
            Ok(req.data.len() as u32)
        } else {
            Err((req, res))
        }
    }
}

fn dispatcher() -> Dispatch {
    Dispatch::new(SERVER_MAC, CLIENT_MAC, SERVER_IP, CLIENT_IP, SERVER_PORT, 2, 0, 100)
}

#[test]
fn classify_accepts_well_formed_request() {
    let c = classify(burst(vec![good(5000)]), SERVER_IP);
    assert_eq!(c.requests.len(), 1);
    assert_eq!(c.dropped.len(), 0);
}

#[test]
fn classify_drops_zero_ttl() {
    let p = Packet::new(frame(0x0800, 0, SERVER_IP, 5000, &get_payload(1)));
    let c = classify(burst(vec![p]), SERVER_IP);
    assert_eq!(c.requests.len(), 0);
    assert_eq!(c.dropped.len(), 1);
}

#[test]
fn mac_layer_drops_other_ethertype() {
    let p = Packet::new(frame(0x86dd, 64, SERVER_IP, 5000, &get_payload(1)));
    let (kept, dropped) = parse_mac_headers(burst(vec![p, good(1)]), SERVER_IP);
    assert_eq!(kept.len(), 1);
    assert_eq!(dropped.len(), 1);
}

#[test]
fn ip_layer_drops_other_destination() {
    let p = Packet::new(frame(0x0800, 64, SERVER_IP + 1, 5000, &get_payload(1)));
    let (kept, dropped) = parse_ip_headers(burst(vec![p]), SERVER_IP);
    assert_eq!(kept.len(), 0);
    assert_eq!(dropped.len(), 1);
}

#[test]
fn ip_layer_drops_version_six() {
    let mut d = frame(0x0800, 64, SERVER_IP, 5000, &get_payload(1));
    d[14] = 0x65;
    let (kept, _) = parse_ip_headers(burst(vec![Packet::new(d)]), SERVER_IP);
    assert_eq!(kept.len(), 0);
}

#[test]
fn udp_layer_drops_short_length() {
    let mut d = frame(0x0800, 64, SERVER_IP, 5000, &get_payload(1));
    d[38] = 0;
    d[39] = 9;
    let (kept, dropped) = parse_udp_headers(burst(vec![Packet::new(d)]), SERVER_IP);
    assert_eq!(kept.len(), 0);
    assert_eq!(dropped.len(), 1);
}

#[test]
fn classify_drops_truncated_frame() {
    let c = classify(burst(vec![Packet::new(vec![0u8; 20])]), SERVER_IP);
    assert_eq!(c.requests.len(), 0);
    assert_eq!(c.dropped.len(), 1);
}

#[test]
fn classify_keeps_receive_order() {
    let bad = Packet::new(frame(0x0800, 0, SERVER_IP, 9, &get_payload(1)));
    let c = classify(burst(vec![good(1), bad, good(2), good(3)]), SERVER_IP);
    let ports: Vec<u8> = c.requests.iter().map(|p| p.data[35]).collect();
    assert_eq!(ports, vec![1, 2, 3]);
    assert_eq!(c.dropped.len(), 1);
}

#[test]
fn envelope_fields() {
    let p = good(5000);
    assert_eq!(parse_rpc_service(&p), ServiceKind::MasterService);
    assert_eq!(parse_rpc_opcode(&p), 0);
    assert_eq!(parse_rpc_tenant(&p), 7);
    let q = Packet::new(frame(0x0800, 64, SERVER_IP, 5000, &get_payload(0xff)));
    assert_eq!(parse_rpc_service(&q), ServiceKind::InvalidService);
}

#[test]
fn assembled_response_headers() {
    let a = ResponseAssembler::new(SERVER_MAC, CLIENT_MAC, SERVER_IP, CLIENT_IP, SERVER_PORT);
    let r = a.assemble(0x1388);
    assert_eq!(r.data.len(), 42);
    assert_eq!(&r.data[0..6], &CLIENT_MAC);
    assert_eq!(&r.data[6..12], &SERVER_MAC);
    assert_eq!(&r.data[12..14], &[0x08, 0x00]);
    assert_eq!(r.data[14], 0x45);
    assert_eq!(r.data[22], 64);
    assert_eq!(r.data[23], 0x11);
    assert_eq!(&r.data[26..30], &[10, 0, 0, 1]);
    assert_eq!(&r.data[30..34], &[10, 0, 0, 2]);
    assert_eq!(&r.data[34..36], &[0x04, 0xd2]);
    assert_eq!(&r.data[36..38], &[0x13, 0x88]);
}

#[test]
fn fixup_sets_lengths() {
    let a = ResponseAssembler::new(SERVER_MAC, CLIENT_MAC, SERVER_IP, CLIENT_IP, SERVER_PORT);
    let mut r = a.assemble(7);
    r.data.extend_from_slice(&[9, 1, 2, 3, 4, 5, 6, 7, 8, 10]);
    let r = fixup_header_length_fields(r);
    assert_eq!(&r.data[38..40], &[0, 18]);
    assert_eq!(&r.data[16..18], &[0, 38]);
    assert_eq!(r.data[42], 9);
}

#[test]
fn fixup_is_idempotent() {
    let a = ResponseAssembler::new(SERVER_MAC, CLIENT_MAC, SERVER_IP, CLIENT_IP, SERVER_PORT);
    let mut r = a.assemble(7);
    r.data.extend_from_slice(&[1; 300]);
    let once = fixup_header_length_fields(r);
    let bytes = once.data.clone();
    let twice = fixup_header_length_fields(once);
    assert_eq!(twice.data, bytes);
    assert_eq!(&bytes[38..40], &[0x01, 0x34]);
}

#[test]
fn fixup_leaves_short_frame() {
    let r = fixup_header_length_fields(Packet::new(vec![1, 2, 3]));
    assert_eq!(r.data, vec![1, 2, 3]);
}

#[test]
fn happy_path_get_enqueues_one_task() {
    let d = dispatcher();
    let mut s: RoundRobin<u32> = RoundRobin::new(0, 0, 0);
    let out = d.process_burst(&Master, &mut s, burst(vec![good(5000)]));
    assert_eq!(out.malformed.len(), 0);
    assert_eq!(out.refused.requests.len(), 0);
    assert_eq!(s.len(), 1);
    let t = s.next_task().unwrap();
    assert_eq!(t.priority, TaskPriority::REQUEST);
    assert_eq!(t.tenant, 7);
    assert_eq!(t.opcode, 0);
}

#[test]
fn malformed_ttl_enqueues_nothing() {
    let d = dispatcher();
    let mut s: RoundRobin<u32> = RoundRobin::new(0, 0, 0);
    let p = Packet::new(frame(0x0800, 0, SERVER_IP, 5000, &get_payload(1)));
    let out = d.process_burst(&Master, &mut s, burst(vec![p]));
    assert_eq!(out.malformed.len(), 1);
    assert_eq!(out.refused.requests.len(), 0);
    assert_eq!(out.refused.responses.len(), 0);
    assert_eq!(s.len(), 0);
}

#[test]
fn wrong_service_frees_request_and_response() {
    let d = dispatcher();
    let mut s: RoundRobin<u32> = RoundRobin::new(0, 0, 0);
    let p = Packet::new(frame(0x0800, 64, SERVER_IP, 5000, &get_payload(0xff)));
    let out = d.process_burst(&Master, &mut s, burst(vec![p]));
    assert_eq!(out.refused.requests.len(), 1);
    assert_eq!(out.refused.responses.len(), 1);
    assert_eq!(&out.refused.responses[0].data[36..38], &[0x13, 0x88]);
    assert_eq!(out.refused.outcomes, vec![Outcome::UnknownService]);
    assert_eq!(s.len(), 0);
}

#[test]
fn refused_opcode_frees_both() {
    let d = dispatcher();
    let mut s: RoundRobin<u32> = RoundRobin::new(0, 0, 0);
    let mut pl = get_payload(1);
    pl[1] = 4;
    let p = Packet::new(frame(0x0800, 64, SERVER_IP, 5000, &pl));
    let out = d.dispatch_requests(&Master, &mut s, burst(vec![good(1), p]));
    assert_eq!(out.outcomes, vec![Outcome::Queued, Outcome::Refused]);
    assert_eq!(out.requests.len(), 1);
    assert_eq!(out.requests[0].data[43], 4);
    assert_eq!(out.responses.len(), 1);
    assert_eq!(s.len(), 1);
}

#[test]
fn burst_tasks_follow_packet_order() {
    let d = dispatcher();
    let mut s: RoundRobin<u32> = RoundRobin::new(0, 0, 0);
    let mut ps = Vec::new();
    for t in 1..=3u32 {
        let mut pl = get_payload(1);
        pl[2..6].copy_from_slice(&t.to_le_bytes());
        ps.push(Packet::new(frame(0x0800, 64, SERVER_IP, 5000, &pl)));
    }
    d.process_burst(&Master, &mut s, burst(ps));
    let tenants: Vec<u32> = s.dequeue_all().iter().map(|q| q.tenant).collect();
    assert_eq!(tenants, vec![1, 2, 3]);
}

#[test]
fn choose_sibling_prefers_deeper_queue() {
    let depths = vec![3u64, 9, 9];
    assert_eq!(choose_sibling(0, 1, &depths), 1);
    assert_eq!(choose_sibling(1, 0, &depths), 1);
    assert_eq!(choose_sibling(2, 1, &depths), 2);
}

#[test]
fn select_sibling_within_range() {
    let mut d = dispatcher();
    for _ in 0..50 {
        let s = d.select_sibling(&vec![0, 5]).unwrap();
        assert!(s < 2);
    }
    let mut lone = Dispatch::new(SERVER_MAC, CLIENT_MAC, SERVER_IP, CLIENT_IP, 1, 0, 0, 0);
    assert_eq!(lone.select_sibling(&vec![]), None);
}

#[test]
fn select_sibling_settles_on_deepest() {
    let mut d = dispatcher();
    let depths = vec![0u64, 0];
    let first = d.select_sibling(&depths).unwrap();
    let deep = if first == 0 { vec![10u64, 0] } else { vec![0u64, 10] };
    for _ in 0..20 {
        assert_eq!(d.select_sibling(&deep), Some(first));
    }
}

#[test]
fn transmit_reports_every_million() {
    let mut d = dispatcher();
    assert_eq!(d.record_transmit(999_999, 150), None);
    assert_eq!(d.record_transmit(1, 400), Some((1_000_000, 300)));
    assert_eq!(d.record_transmit(5, 500), None);
}

#[test]
fn dispatch_step_accounting() {
    let mut d = dispatcher();
    assert_eq!(d.state(), TaskState::INITIALIZED);
    d.run_begin();
    assert_eq!(d.state(), TaskState::RUNNING);
    assert_eq!(d.run_end(10, 25), (TaskState::YIELDED, 15));
    assert_eq!(d.time(), 15);
    assert_eq!(d.priority(), TaskPriority::DISPATCH);
    assert!(d.tear().is_none());
    assert_eq!(d.max_rx_packets(), 32);
}

#[test]
fn request_entry_constructor() {
    let q = Queued::request(5u8, 9, 3);
    assert_eq!(q.priority(), TaskPriority::REQUEST);
    assert_eq!((q.tenant, q.opcode, q.task), (9, 3, 5));
}

#[test]
fn file_outcome_routes_answers() {
    let mut s: RoundRobin<u32> = RoundRobin::new(0, 0, 0);
    let mut refused = Refused { outcomes: vec![], requests: VecDeque::new(), responses: VecDeque::new() };
    assert_eq!(file_outcome(&mut s, &mut refused, 7, 2, Ok(11)), Outcome::Queued);
    let pair = (Packet::new(vec![1]), Packet::new(vec![2]));
    assert_eq!(file_outcome(&mut s, &mut refused, 7, 2, Err(pair)), Outcome::Refused);
    assert_eq!(refused.requests[0].data, vec![1]);
    assert_eq!(refused.responses[0].data, vec![2]);
    let q = s.next_task().unwrap();
    assert_eq!((q.task, q.tenant, q.opcode), (11, 7, 2));
    assert!(s.next_task().is_none());
}

/// A service whose task is the request and its response, to be run by hand.
struct PairMaster;

impl Service<(Packet, Packet)> for PairMaster {
    fn dispatch(
        &self,
        _op: u8,
        req: Packet,
        res: Packet,
    ) -> Result<(Packet, Packet), (Packet, Packet)> {
        Ok((req, res))
    }
}

#[test]
fn happy_path_get_response_goes_out() {
    let d = dispatcher();
    let mut s: RoundRobin<(Packet, Packet)> = RoundRobin::new(0, 0, 0);
    let out = d.process_burst(&PairMaster, &mut s, burst(vec![good(0x2222)]));
    assert_eq!(out.refused.outcomes, vec![Outcome::Queued]);
    let entry = s.next_task().unwrap();
    let (req, mut res) = entry.task;
    assert_eq!(req.data.len(), 60);
    // The task answers with its opcode and a stored value.
    res.data.push(entry.opcode);
    res.data.extend_from_slice(&[0xaa; 8]);
    s.stage_response(res);
    let sent = s.responses();
    assert_eq!(sent.len(), 1);
    let r = &sent[0].data;
    assert_eq!(&r[34..36], &SERVER_PORT.to_be_bytes());
    assert_eq!(&r[36..38], &[0x22, 0x22]);
    assert_eq!(&r[38..40], &[0, 17]);
    assert_eq!(&r[16..18], &[0, 37]);
    assert_eq!(r[42], 0);
    assert_eq!(&r[43..], &[0xaa; 8]);
}
