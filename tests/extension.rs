use sandstorm::client::{
    invoke_payload, is_get, latency_summary, read_le64, stamp_key, write_key, YcsbRecv,
};
use sandstorm::context::{split_keys, Context, MAX_ALLOC};
use sandstorm::packet::Packet;

fn request_with_args(args: &[u8]) -> Packet {
    let mut d = vec![0u8; 42];
    d.extend_from_slice(&[9, 9]);
    d.extend_from_slice(args);
    Packet::new(d)
}

#[test]
fn context_args_and_commit() {
    let req = request_with_args(&[1, 2, 3, 4]);
    let res = Packet::new(vec![7u8; 42]);
    let mut c = Context::new(req, 2, 3, res);
    assert_eq!(c.args(), &[1, 2, 3]);
    c.resp(&[5, 6]);
    let (req, res) = c.commit();
    assert_eq!(req.data.len(), 48);
    assert_eq!(res.data.len(), 44);
    assert_eq!(&res.data[42..], &[5, 6]);
}

#[test]
fn context_quota() {
    let req = request_with_args(&[]);
    let res = Packet::new(vec![]);
    let mut c = Context::new(req, 0, 0, res);
    assert!(c.may_alloc());
    c.charge(MAX_ALLOC - 1);
    assert!(c.may_alloc());
    c.charge(1);
    assert!(!c.may_alloc());
    let mut small = Context::with_quota(request_with_args(&[]), 0, 0, Packet::new(vec![]), 8);
    small.charge(8);
    assert!(!small.may_alloc());
}

#[test]
fn split_keys_whole() {
    let keys = [1u8, 2, 3, 4, 5, 6];
    let v = split_keys(&keys, 2).unwrap();
    assert_eq!(v, vec![vec![1, 2], vec![3, 4], vec![5, 6]]);
}

#[test]
fn split_keys_malformed() {
    assert_eq!(split_keys(&[1u8, 2, 3], 2), None);
    assert_eq!(split_keys(&[1u8, 2], 0), None);
    assert_eq!(split_keys(&[], 4), Some(vec![]));
}

#[test]
fn operation_choice() {
    assert!(is_get(105, 5));
    assert!(!is_get(104, 5));
    assert!(is_get(7, 0));
    assert!(!is_get(99, 100));
}

#[test]
fn key_is_little_endian() {
    let mut buf = vec![0u8; 6];
    buf[5] = 8;
    write_key(&mut buf, 0x0403_0201);
    assert_eq!(buf, vec![1, 2, 3, 4, 0, 8]);
}

#[test]
fn invoke_payload_layout() {
    let p = invoke_payload(b"tao", 4, 2, 30);
    assert_eq!(p.len(), 30);
    assert_eq!(&p[0..3], b"tao");
    assert_eq!(p[3], 4);
    assert_eq!(&p[4..12], &2u64.to_le_bytes());
    assert!(p[12..].iter().all(|b| *b == 0));
    let mut q = p.clone();
    stamp_key(&mut q, &vec![9, 8, 7, 6, 0], 12);
    assert_eq!(&q[12..16], &[9, 8, 7, 6]);
}

#[test]
fn le64_read() {
    let d = vec![0xff, 1, 0, 0, 0, 0, 0, 0, 0x80];
    assert_eq!(read_le64(&d, 1), 0x8000_0000_0000_0001);
}

#[test]
fn receiver_samples_one_in_sixteen() {
    let mut r = YcsbRecv::new(32, 0);
    let mut payload = vec![0u8; 9];
    payload[1..9].copy_from_slice(&100u64.to_le_bytes());
    for _ in 0..15 {
        r.record(&payload, 150);
    }
    assert!(!r.done());
    let mut long = vec![0u8; 60];
    long[1..9].copy_from_slice(&100u64.to_le_bytes());
    r.record(&long, 175);
    for _ in 0..16 {
        r.record(&payload, 130);
    }
    assert!(r.done());
    assert_eq!(r.received(), 32);
    let (native, invoke) = r.take_latencies();
    assert_eq!(native, vec![30]);
    assert_eq!(invoke, vec![75]);
}

#[test]
fn latency_percentiles() {
    let v: Vec<u64> = (0..200).collect();
    assert_eq!(latency_summary(&v), Some((100, 198)));
    assert_eq!(latency_summary(&vec![]), None);
    assert_eq!(latency_summary(&vec![4]), Some((4, 4)));
}

#[test]
fn sender_paces_requests() {
    let mut s = sandstorm::client::YcsbSend::new(3, 10, 100);
    assert!(s.due(0));
    s.mark_sent();
    assert!(!s.due(105));
    assert!(s.due(110));
    s.mark_sent();
    assert!(s.due(120));
    s.mark_sent();
    assert_eq!(s.sent(), 3);
    assert!(!s.due(10_000));
}

#[test]
fn sender_saturates_schedule() {
    let mut s = sandstorm::client::YcsbSend::new(5, u64::MAX, 7);
    s.mark_sent();
    assert!(!s.due(u64::MAX - 1));
    assert!(s.due(u64::MAX));
}
