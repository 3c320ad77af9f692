use vstd::prelude::*;

verus! {

/// Byte `j` of `x` in little-endian order.
pub open spec fn le_byte(x: u64, j: nat) -> int {
    ((x as nat / pow256(j)) % 0x100) as int
}

/// Whether a workload operation is a get: the draw, taken modulo 100, is
/// at least the percentage of puts.
pub fn is_get(draw: u32, put_pct: u32) -> (g: bool)
    ensures
        g == (draw % 100 >= put_pct),
{
    draw % 100 >= put_pct
}

/// Writes key `k` into the first four bytes of `key_buf`, little-endian;
/// the other bytes are left as they are.
pub fn write_key(key_buf: &mut Vec<u8>, k: u32)
    requires
        old(key_buf)@.len() >= 4,
    ensures
        final(key_buf)@.len() == old(key_buf)@.len(),
        final(key_buf)@.subrange(4, old(key_buf)@.len() as int) == old(key_buf)@.subrange(
            4,
            old(key_buf)@.len() as int,
        ),
        crate::packet::le32(final(key_buf)@, 0) == k,
{
    key_buf.set(0, (k % 0x100) as u8);
    key_buf.set(1, ((k / 0x100) % 0x100) as u8);
    key_buf.set(2, ((k / 0x10000) % 0x100) as u8);
    key_buf.set(3, (k / 0x1000000) as u8);
    assert(final(key_buf)@.subrange(4, old(key_buf)@.len() as int) =~= old(key_buf)@.subrange(
        4,
        old(key_buf)@.len() as int,
    ));
}

/// The payload of an invoke request: the extension's name, an opcode, the
/// table identifier (little-endian), then zeros up to `len` bytes.
pub fn invoke_payload(name: &[u8], opcode: u8, table: u64, len: usize) -> (p: Vec<u8>)
    requires
        len >= name@.len() + 9,
    ensures
        p@.len() == len,
        p@.subrange(0, name@.len() as int) == name@,
        p@[name@.len() as int] == opcode,
        forall|j: int| 0 <= j < 8 ==> p@[name@.len() + 1 + j] == #[trigger] le_byte(table, j as nat),
        forall|i: int| name@.len() + 9 <= i < len ==> p@[i] == 0,
{
    let mut p: Vec<u8> = Vec::with_capacity(len);
    let mut i: usize = 0;
    while i < name.len()
        invariant
            i <= name@.len(),
            p@ == name@.take(i as int),
        decreases name@.len() - i,
    {
        p.push(name[i]);
        i = i + 1;
        assert(p@ =~= name@.take(i as int));
    }
    assert(name@.take(name@.len() as int) =~= name@);
    p.push(opcode);
    let mut t = table;
    let mut b: usize = 0;
    assert(pow256(0) == 1);
    while b < 8
        invariant
            b <= 8,
            p@.len() == name@.len() + 1 + b,
            p@.subrange(0, name@.len() as int) == name@,
            p@[name@.len() as int] == opcode,
            t as nat == table as nat / pow256(b as nat),
            forall|j: int| 0 <= j < b ==> p@[name@.len() + 1 + j] == #[trigger] le_byte(table, j as nat),
        decreases 8 - b,
    {
        let ghost before = p@;
        p.push((t % 0x100) as u8);
        proof {
            assert(p@.subrange(0, name@.len() as int) =~= before.subrange(0, name@.len() as int));
            lemma_div_step(table as nat, b as nat);
        }
        t = t / 0x100;
        b = b + 1;
    }
    let ghost built = p@;
    while p.len() < len
        invariant
            p@.len() <= len,
            p@.len() >= built.len(),
            p@.subrange(0, built.len() as int) == built,
            forall|i: int| built.len() <= i < p@.len() ==> p@[i] == 0,
        decreases len - p@.len(),
    {
        let ghost before = p@;
        p.push(0);
        assert(p@.subrange(0, built.len() as int) =~= before.subrange(0, built.len() as int));
    }
    proof {
        assert forall|i: int| 0 <= i < built.len() implies p@[i] == built[i] by {
            assert(p@.subrange(0, built.len() as int)[i] == p@[i]);
        }
        assert(p@.subrange(0, name@.len() as int) =~= built.subrange(0, name@.len() as int));
    }
    p
}

/// 256 to the power `n`.
pub open spec fn pow256(n: nat) -> nat
    decreases n,
{
    if n == 0 {
        1
    } else {
        256 * pow256((n - 1) as nat)
    }
}

proof fn lemma_div_step(x: nat, b: nat)
    ensures
        x / pow256(b) / 256 == x / pow256(b + 1),
{
    assert(pow256(b + 1) == 256 * pow256(b));
    assert(pow256(b) > 0) by {
        lemma_pow256_pos(b);
    }
    vstd::arithmetic::div_mod::lemma_div_denominator(x as int, pow256(b) as int, 256);
    assert(pow256(b) * 256 == 256 * pow256(b)) by (nonlinear_arith);
}

proof fn lemma_pow256_pos(n: nat)
    ensures
        pow256(n) > 0,
    decreases n,
{
    if n > 0 {
        lemma_pow256_pos((n - 1) as nat);
    }
}

/// Copies the first four bytes of `key` into `payload` at `at`, where an
/// invoke payload carries its key.
pub fn stamp_key(payload: &mut Vec<u8>, key: &Vec<u8>, at: usize)
    requires
        key@.len() >= 4,
        at + 4 <= old(payload)@.len(),
    ensures
        final(payload)@ == old(payload)@.update(at as int, key@[0]).update(at + 1, key@[1]).update(
            at + 2,
            key@[2],
        ).update(at + 3, key@[3]),
{
    let n = payload.len();
    assert(at + 4 <= n);
    payload.set(at, key[0]);
    payload.set(at + 1, key[1]);
    payload.set(at + 2, key[2]);
    payload.set(at + 3, key[3]);
}

/// Little-endian value of the eight bytes of `d` at `i`.
pub open spec fn le64(d: Seq<u8>, i: int) -> int {
    d[i] + d[i + 1] * 0x100 + d[i + 2] * 0x10000 + d[i + 3] * 0x1000000 + d[i + 4] * 0x100000000
        + d[i + 5] * 0x10000000000 + d[i + 6] * 0x1000000000000 + d[i + 7] * 0x100000000000000
}

/// Reads the little-endian `u64` at `i`.
pub fn read_le64(d: &Vec<u8>, i: usize) -> (r: u64)
    requires
        i + 8 <= d@.len(),
    ensures
        r == le64(d@, i as int),
{
    let n = d.len();
    assert(i + 8 <= n);
    let b0 = d[i] as u64;
    let b1 = d[i + 1] as u64;
    let b2 = d[i + 2] as u64;
    let b3 = d[i + 3] as u64;
    let b4 = d[i + 4] as u64;
    let b5 = d[i + 5] as u64;
    let b6 = d[i + 6] as u64;
    let b7 = d[i + 7] as u64;
    assert(b0 < 256 && b1 < 256 && b2 < 256 && b3 < 256 && b4 < 256 && b5 < 256 && b6 < 256 && b7
        < 256);
    b0 + b1 * 0x100 + b2 * 0x10000 + b3 * 0x1000000 + b4 * 0x100000000 + b5 * 0x10000000000 + b6
        * 0x1000000000000 + b7 * 0x100000000000000
}

/// Paces the requests of a YCSB run: at most `requests` of them, the k-th
/// due `k * rate_inv` cycles after the start.
pub struct YcsbSend {
    requests: u64,
    sent: u64,
    rate_inv: u64,
    start: u64,
    next: u64,
}

/// Cycle stamp at which request number `sent` falls due, saturated.
pub open spec fn due_at(start: u64, sent: u64, rate_inv: u64) -> u64 {
    if start + sent * rate_inv <= u64::MAX {
        (start + sent * rate_inv) as u64
    } else {
        u64::MAX
    }
}

impl YcsbSend {
    pub closed spec fn requests_spec(&self) -> u64 {
        self.requests
    }

    pub closed spec fn sent_spec(&self) -> u64 {
        self.sent
    }

    pub closed spec fn rate_inv_spec(&self) -> u64 {
        self.rate_inv
    }

    pub closed spec fn start_spec(&self) -> u64 {
        self.start
    }

    pub closed spec fn next_spec(&self) -> u64 {
        self.next
    }

    /// A run of `reqs` requests, one every `rate_inv` cycles, starting at
    /// cycle stamp `now`.
    pub fn new(reqs: u64, rate_inv: u64, now: u64) -> (s: YcsbSend)
        ensures
            s.requests_spec() == reqs,
            s.sent_spec() == 0,
            s.rate_inv_spec() == rate_inv,
            s.start_spec() == now,
            s.next_spec() == 0,
    {
        YcsbSend { requests: reqs, sent: 0, rate_inv, start: now, next: 0 }
    }

    /// Whether a request should go out at cycle stamp `curr`: some remain,
    /// and none has gone out yet or the next one's time has come.
    pub fn due(&self, curr: u64) -> (d: bool)
        ensures
            d == (self.sent_spec() < self.requests_spec() && (curr >= self.next_spec()
                || self.next_spec() == 0)),
    {
        self.sent < self.requests && (curr >= self.next || self.next == 0)
    }

    /// Records that a request went out and schedules the next one.
    pub fn mark_sent(&mut self)
        requires
            old(self).sent_spec() < u64::MAX,
        ensures
            final(self).sent_spec() == old(self).sent_spec() + 1,
            final(self).next_spec() == due_at(
                old(self).start_spec(),
                final(self).sent_spec(),
                old(self).rate_inv_spec(),
            ),
            final(self).requests_spec() == old(self).requests_spec(),
            final(self).rate_inv_spec() == old(self).rate_inv_spec(),
            final(self).start_spec() == old(self).start_spec(),
    {
        self.sent = self.sent + 1;
        let offset = self.sent.checked_mul(self.rate_inv);
        self.next = match offset {
            Some(o) => self.start.saturating_add(o),
            None => u64::MAX,
        };
        proof {
            if self.sent * self.rate_inv > u64::MAX {
                assert(self.start + self.sent * self.rate_inv > u64::MAX);
            }
        }
    }

    /// Number of requests sent so far.
    pub fn sent(&self) -> (n: u64)
        ensures
            n == self.sent_spec(),
    {
        self.sent
    }
}

/// Capacity reserved for each list of latency samples.
pub const SAMPLE_CAPACITY: usize = 2000000;

/// Payloads longer than this come from extension invocations; shorter ones
/// from native operations.
pub const INVOKE_PAYLOAD_MIN: usize = 50;

/// Collects the responses to a YCSB run and samples the latency of one in
/// sixteen, read from the request time stamp echoed at bytes 1 to 8 of
/// each response payload.
pub struct YcsbRecv {
    responses: u64,
    start: u64,
    recvd: u64,
    o_latencies: Vec<u64>,
    a_latencies: Vec<u64>,
}

/// The sample that a response contributes, if any: it is the sixteenth of
/// its run (`recvd` counts it), and its payload holds a time stamp.
pub open spec fn sample_of(payload: Seq<u8>, recvd: u64, now: u64) -> Option<u64> {
    if recvd % 16 == 0 && payload.len() >= 9 {
        let sent = le64(payload, 1);
        Some(if now >= sent {
            (now - sent) as u64
        } else {
            0
        })
    } else {
        None
    }
}

impl YcsbRecv {
    pub closed spec fn responses_spec(&self) -> u64 {
        self.responses
    }

    pub closed spec fn start_spec(&self) -> u64 {
        self.start
    }

    pub closed spec fn recvd_spec(&self) -> u64 {
        self.recvd
    }

    /// Latency samples of native operations, in arrival order.
    pub closed spec fn native_samples(&self) -> Seq<u64> {
        self.o_latencies@
    }

    /// Latency samples of extension invocations, in arrival order.
    pub closed spec fn invoke_samples(&self) -> Seq<u64> {
        self.a_latencies@
    }

    /// A receiver that waits for `resps` responses, started at cycle stamp
    /// `now`.
    pub fn new(resps: u64, now: u64) -> (r: YcsbRecv)
        ensures
            r.responses_spec() == resps,
            r.start_spec() == now,
            r.recvd_spec() == 0,
            r.native_samples().len() == 0,
            r.invoke_samples().len() == 0,
    {
        YcsbRecv {
            responses: resps,
            start: now,
            recvd: 0,
            o_latencies: Vec::with_capacity(SAMPLE_CAPACITY),
            a_latencies: Vec::with_capacity(SAMPLE_CAPACITY),
        }
    }

    /// Whether all awaited responses have arrived.
    pub fn done(&self) -> (d: bool)
        ensures
            d == (self.responses_spec() <= self.recvd_spec()),
    {
        self.responses <= self.recvd
    }

    /// Cycle stamp at which the run started.
    pub fn start(&self) -> (s: u64)
        ensures
            s == self.start_spec(),
    {
        self.start
    }

    /// Number of responses received.
    pub fn received(&self) -> (n: u64)
        ensures
            n == self.recvd_spec(),
    {
        self.recvd
    }

    /// Counts one response with payload `payload` received at cycle stamp
    /// `now`, and files its latency sample, if it yields one, by the kind
    /// of request it answers. A clock behind the stamp gives a zero sample.
    pub fn record(&mut self, payload: &Vec<u8>, now: u64)
        ensures
            final(self).recvd_spec() == if old(self).recvd_spec() < u64::MAX {
                (old(self).recvd_spec() + 1) as u64
            } else {
                u64::MAX
            },
            ({
                let s = sample_of(payload@, final(self).recvd_spec(), now);
                if s is Some && payload@.len() > INVOKE_PAYLOAD_MIN {
                    &&& final(self).invoke_samples() == old(self).invoke_samples().push(s->0)
                    &&& final(self).native_samples() == old(self).native_samples()
                } else if s is Some {
                    &&& final(self).native_samples() == old(self).native_samples().push(s->0)
                    &&& final(self).invoke_samples() == old(self).invoke_samples()
                } else {
                    &&& final(self).native_samples() == old(self).native_samples()
                    &&& final(self).invoke_samples() == old(self).invoke_samples()
                }
            }),
            final(self).responses_spec() == old(self).responses_spec(),
            final(self).start_spec() == old(self).start_spec(),
    {
        self.recvd = self.recvd.saturating_add(1);
        if self.recvd % 16 == 0 && payload.len() >= 9 {
            let sent = read_le64(payload, 1);
            let lat = now.saturating_sub(sent);
            if payload.len() > INVOKE_PAYLOAD_MIN {
                self.a_latencies.push(lat);
            } else {
                self.o_latencies.push(lat);
            }
        }
    }

    /// Hands over the latency samples, native first, leaving both lists
    /// empty.
    pub fn take_latencies(&mut self) -> (r: (Vec<u64>, Vec<u64>))
        ensures
            r.0@ == old(self).native_samples(),
            r.1@ == old(self).invoke_samples(),
            final(self).native_samples().len() == 0,
            final(self).invoke_samples().len() == 0,
            final(self).recvd_spec() == old(self).recvd_spec(),
            final(self).responses_spec() == old(self).responses_spec(),
            final(self).start_spec() == old(self).start_spec(),
    {
        let mut o: Vec<u64> = Vec::new();
        let mut a: Vec<u64> = Vec::new();
        o.append(&mut self.o_latencies);
        a.append(&mut self.a_latencies);
        (o, a)
    }
}

/// Median and 99th percentile of latencies sorted in ascending order: the
/// entries at positions `len / 2` and `len * 99 / 100`. `None` when there
/// are no samples.
pub fn latency_summary(sorted: &Vec<u64>) -> (r: Option<(u64, u64)>)
    ensures
        sorted@.len() == 0 <==> r is None,
        r matches Some((median, tail)) ==> {
            &&& median == sorted@[(sorted@.len() / 2) as int]
            &&& tail == sorted@[(sorted@.len() * 99 / 100) as int]
        },
{
    let n = sorted.len();
    if n == 0 {
        return None;
    }
    let t = ((n as u128) * 99 / 100) as usize;
    assert(t < n);
    Some((sorted[n / 2], sorted[t]))
}

} // verus!
