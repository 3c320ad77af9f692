use vstd::prelude::*;
use std::collections::VecDeque;
use crate::classifier::{classify, accepted, rejected, passes, Layer};
use crate::cycles::{clamp_u64, elapsed};
use crate::packet::{Packet, read_be16, read_le32, be16, le32, UDP_OFFSET, PAYLOAD_OFFSET};
use crate::response::{ResponseAssembler, response_headers, assembler_for};
use crate::sched::RoundRobin;
use crate::task::{Queued, TaskPriority, TaskState};
use xorshift::{Rand, SeedableRng, SplitMix64, Xorshift1024};
use xorshift::Rng as XorshiftRng;

verus! {

/// The xorshift crate's `SplitMix64` generator, carried opaquely: it only
/// seeds the sibling-selection generator.
#[verifier::external_type_specification]
#[verifier::external_body]
pub struct ExSplitMix64(SplitMix64);

/// The xorshift crate's `Xorshift1024` generator, carried opaquely: only
/// its draws are used.
#[verifier::external_type_specification]
#[verifier::external_body]
pub struct ExXorshift1024(Xorshift1024);

/// Service byte of requests for the master service.
pub const MASTER_SERVICE: u8 = 1;

/// Bytes of the RPC envelope: service, opcode and a four-byte tenant.
pub const ENVELOPE_LEN: usize = 6;

/// Largest burst received in one call.
pub const RX_BATCH_SIZE: u8 = 32;

/// Responses between two throughput reports.
pub const REPORT_EVERY: u64 = 1000000;

/// The service named by a request envelope.
#[derive(Clone, Copy, PartialEq, Eq, Structural, Debug)]
pub enum ServiceKind {
    MasterService,
    InvalidService,
}

/// The frame carries a whole envelope addressed to the master service.
pub open spec fn routed(d: Seq<u8>) -> bool {
    &&& d.len() >= PAYLOAD_OFFSET + ENVELOPE_LEN
    &&& d[PAYLOAD_OFFSET as int] == MASTER_SERVICE
}

/// Opcode of a request envelope.
pub open spec fn opcode_of(d: Seq<u8>) -> u8 {
    d[PAYLOAD_OFFSET + 1]
}

/// Tenant of a request envelope (little-endian).
pub open spec fn tenant_of(d: Seq<u8>) -> u32 {
    le32(d, PAYLOAD_OFFSET + 2) as u32
}

/// Source UDP port of a request.
pub open spec fn src_port_of(d: Seq<u8>) -> u16 {
    be16(d, UDP_OFFSET as int) as u16
}

/// Reads the service named by the envelope of a UDP-parsed request; a
/// truncated envelope names no service.
pub fn parse_rpc_service(req: &Packet) -> (s: ServiceKind)
    ensures
        s == if routed(req.data@) {
            ServiceKind::MasterService
        } else {
            ServiceKind::InvalidService
        },
{
    if req.data.len() >= PAYLOAD_OFFSET + ENVELOPE_LEN && req.data[PAYLOAD_OFFSET] == MASTER_SERVICE {
        ServiceKind::MasterService
    } else {
        ServiceKind::InvalidService
    }
}

/// Reads the opcode of a request envelope.
pub fn parse_rpc_opcode(req: &Packet) -> (op: u8)
    requires
        req.data@.len() >= PAYLOAD_OFFSET + ENVELOPE_LEN,
    ensures
        op == opcode_of(req.data@),
{
    req.data[PAYLOAD_OFFSET + 1]
}

/// Reads the tenant of a request envelope.
pub fn parse_rpc_tenant(req: &Packet) -> (t: u32)
    requires
        req.data@.len() >= PAYLOAD_OFFSET + ENVELOPE_LEN,
    ensures
        t == tenant_of(req.data@),
{
    read_le32(&req.data, PAYLOAD_OFFSET + 2)
}

/// A service that turns requests into schedulable tasks.
pub trait Service<T> {
    /// Makes a task serving `req`, which will write its answer into the
    /// pre-built response `res`. On refusal both packets come back as they
    /// were given.
    fn dispatch(&self, op: u8, req: Packet, res: Packet) -> (r: Result<T, (Packet, Packet)>)
        ensures
            r matches Err(pair) ==> pair == (req, res),
    ;
}

/// What became of one request handed to the service adapter.
#[derive(Clone, Copy, PartialEq, Eq, Structural, Debug)]
pub enum Outcome {
    /// A task serving it was enqueued.
    Queued,
    /// Its envelope names no known service.
    UnknownService,
    /// The master service refused it.
    Refused,
}

/// The requests whose outcome is `Queued` (when `queued`) or is not (when
/// not `queued`), in order.
pub open spec fn selected(reqs: Seq<Packet>, outs: Seq<Outcome>, queued: bool) -> Seq<Packet>
    decreases reqs.len(),
{
    if reqs.len() == 0 || outs.len() != reqs.len() {
        Seq::empty()
    } else {
        let prev = selected(reqs.drop_last(), outs.drop_last(), queued);
        if (outs.last() == Outcome::Queued) == queued {
            prev.push(reqs.last())
        } else {
            prev
        }
    }
}

proof fn lemma_selected_step(reqs: Seq<Packet>, outs: Seq<Outcome>, k: int, o: Outcome, queued: bool)
    requires
        0 <= k < reqs.len(),
        outs.len() == k,
    ensures
        selected(reqs.take(k + 1), outs.push(o), queued) == if (o == Outcome::Queued) == queued {
            selected(reqs.take(k), outs, queued).push(reqs[k])
        } else {
            selected(reqs.take(k), outs, queued)
        },
{
    assert(reqs.take(k + 1).drop_last() =~= reqs.take(k));
    assert(outs.push(o).drop_last() =~= outs);
}

/// Outcomes of a batch: one per request, `UnknownService` exactly for the
/// requests that do not name the master service.
pub open spec fn outcomes_fit(reqs: Seq<Packet>, outs: Seq<Outcome>) -> bool {
    &&& outs.len() == reqs.len()
    &&& forall|i: int|
        0 <= i < outs.len() ==> (#[trigger] outs[i] == Outcome::UnknownService) == !routed(
            reqs[i].data@,
        )
}

/// `q` is `q0` followed by one request entry per packet of `adm`, in order.
pub open spec fn extends_with<T>(q: Seq<Queued<T>>, q0: Seq<Queued<T>>, adm: Seq<Packet>) -> bool {
    &&& q.len() == q0.len() + adm.len()
    &&& forall|i: int| 0 <= i < q0.len() ==> #[trigger] q[i] == q0[i]
    &&& forall|i: int| 0 <= i < adm.len() ==> entry_matches(#[trigger] q[q0.len() + i], adm[i].data@)
}

/// Each response is the one built for the request at the same position.
pub open spec fn responses_for(a: ResponseAssembler, reqs: Seq<Packet>, res: Seq<Packet>) -> bool {
    &&& res.len() == reqs.len()
    &&& forall|i: int|
        0 <= i < res.len() ==> (#[trigger] res[i]).data@ == response_headers(
            a,
            src_port_of(reqs[i].data@),
        )
}

/// The entry queued for a task serving `d`, whatever the task.
pub open spec fn entry_matches<T>(q: Queued<T>, d: Seq<u8>) -> bool {
    &&& q.priority == TaskPriority::REQUEST
    &&& q.tenant == tenant_of(d)
    &&& q.opcode == opcode_of(d)
}

/// What the service adapter hands back: the outcome of each request, in
/// order, and the packets to free, namely the requests that did not become
/// tasks, in order, and the response built for each.
pub struct Refused {
    pub outcomes: Vec<Outcome>,
    pub requests: VecDeque<Packet>,
    pub responses: VecDeque<Packet>,
}

/// Files the service's answer for one request of `tenant` with opcode
/// `op`: a task is enqueued at the tail of the run-queue under the
/// request's fingerprint; a refused pair goes to `refused`.
pub fn file_outcome<T>(
    sched: &mut RoundRobin<T>,
    refused: &mut Refused,
    tenant: u32,
    op: u8,
    answer: Result<T, (Packet, Packet)>,
) -> (o: Outcome)
    requires
        old(sched).wf(),
    ensures
        final(sched).wf(),
        final(sched).same_but_queue(old(sched)),
        final(refused).outcomes@ == old(refused).outcomes@,
        answer matches Ok(t) ==> {
            &&& o == Outcome::Queued
            &&& final(sched).queue() == old(sched).queue().push(
                Queued { priority: TaskPriority::REQUEST, tenant, opcode: op, task: t },
            )
            &&& final(refused).requests@ == old(refused).requests@
            &&& final(refused).responses@ == old(refused).responses@
        },
        answer matches Err(pair) ==> {
            &&& o == Outcome::Refused
            &&& final(sched).queue() == old(sched).queue()
            &&& final(refused).requests@ == old(refused).requests@.push(pair.0)
            &&& final(refused).responses@ == old(refused).responses@.push(pair.1)
        },
{
    match answer {
        Ok(task) => {
            let pushed = sched.enqueue(Queued::request(task, tenant, op));
            assert(pushed is Ok);
            Outcome::Queued
        },
        Err((a, b)) => {
            refused.requests.push_back(a);
            refused.responses.push_back(b);
            Outcome::Refused
        },
    }
}

/// Packets to free after a burst: malformed frames, then refused requests
/// and their responses.
pub struct Released {
    pub malformed: VecDeque<Packet>,
    pub refused: Refused,
}

/// Relies on `time::precise_time_ns`: a high-resolution clock reading in
/// nanoseconds, used only to seed sibling selection.
#[verifier::external_body]
fn clock_ns() -> u64 {
    time::precise_time_ns()
}

/// Relies on `SplitMix64::from_seed` of the xorshift crate: a seeding
/// generator started from `seed`.
#[verifier::external_body]
fn splitmix(seed: u64) -> SplitMix64 {
    <SplitMix64 as SeedableRng<u64>>::from_seed(seed)
}

/// Relies on `Rand::rand` for `Xorshift1024` of the xorshift crate: a
/// generator whose state is drawn from `seeder`.
#[verifier::external_body]
fn xorshift_from(seeder: &mut SplitMix64) -> Xorshift1024 {
    <Xorshift1024 as Rand>::rand(seeder)
}

/// Relies on `Rng::gen_range` as the xorshift crate re-exports it from rand
/// 0.3 (itself rand 0.4's): a value in `[low, high)`, here `[0, n)`; it
/// panics when `low >= high`, which `requires` rules out.
#[verifier::external_body]
fn draw_below(rng: &mut Xorshift1024, n: usize) -> (r: usize)
    requires
        n > 0,
    ensures
        r < n,
{
    XorshiftRng::gen_range(rng, 0, n)
}

/// Relies on `rand::thread_rng` and `Rng::gen_range` of rand 0.8: a value
/// in `0..n`; it panics when the range is empty, which `requires` rules out.
#[verifier::external_body]
fn random_below(n: usize) -> (r: usize)
    requires
        n > 0,
    ensures
        r < n,
{
    rand::Rng::gen_range(&mut rand::thread_rng(), 0..n)
}

/// Of two candidate siblings, the one whose receive queue is deeper; the
/// first on a tie.
pub fn choose_sibling(one: usize, two: usize, depths: &Vec<u64>) -> (r: usize)
    requires
        one < depths@.len(),
        two < depths@.len(),
    ensures
        r == if depths@[one as int] >= depths@[two as int] {
            one
        } else {
            two
        },
{
    if depths[one] >= depths[two] {
        one
    } else {
        two
    }
}

/// The dispatch task of a core: it moves staged responses to the network,
/// turns received bursts into tasks and, when its own receive queue is
/// empty, picks a sibling queue to steal a burst from.
pub struct Dispatch {
    network_ip_addr: u32,
    max_rx_packets: u8,
    assembler: ResponseAssembler,
    responses_sent: u64,
    measurement_start: u64,
    measurement_stop: u64,
    state: TaskState,
    time: u64,
    priority: TaskPriority,
    id: i32,
    rng: Xorshift1024,
    num_of_siblings: usize,
    last_selected_sibling: usize,
}

impl Dispatch {
    pub closed spec fn ip_spec(&self) -> u32 {
        self.network_ip_addr
    }

    pub closed spec fn assembler_spec(&self) -> ResponseAssembler {
        self.assembler
    }

    pub closed spec fn responses_sent_spec(&self) -> u64 {
        self.responses_sent
    }

    pub closed spec fn measurement_start_spec(&self) -> u64 {
        self.measurement_start
    }

    pub closed spec fn state_spec(&self) -> TaskState {
        self.state
    }

    pub closed spec fn time_spec(&self) -> u64 {
        self.time
    }

    pub closed spec fn num_siblings_spec(&self) -> usize {
        self.num_of_siblings
    }

    pub closed spec fn last_sibling_spec(&self) -> usize {
        self.last_selected_sibling
    }

    /// The last selected sibling is a valid slot whenever there are
    /// siblings.
    pub closed spec fn wf(&self) -> bool {
        &&& self.num_of_siblings > 0 ==> self.last_selected_sibling < self.num_of_siblings
        &&& self.priority == TaskPriority::DISPATCH
        &&& self.max_rx_packets == RX_BATCH_SIZE
    }

    /// A dispatcher for a server at `server_ip`/`server_mac` listening on
    /// `udp_port`, answering clients at `client_ip`/`client_mac`, with
    /// `num_siblings` sibling receive queues to steal from. `now` is the
    /// cycle stamp that opens the first throughput window.
    pub fn new(
        server_mac: [u8; 6],
        client_mac: [u8; 6],
        server_ip: u32,
        client_ip: u32,
        udp_port: u16,
        num_siblings: usize,
        id: i32,
        now: u64,
    ) -> (d: Dispatch)
        ensures
            d.wf(),
            d.ip_spec() == server_ip,
            d.assembler_spec() == assembler_for(
                server_mac,
                client_mac,
                server_ip,
                client_ip,
                udp_port,
            ),
            d.responses_sent_spec() == 0,
            d.measurement_start_spec() == now,
            d.state_spec() == TaskState::INITIALIZED,
            d.time_spec() == 0,
            d.num_siblings_spec() == num_siblings,
    {
        let seed = clock_ns();
        let mut sm = splitmix(seed);
        let rng = xorshift_from(&mut sm);
        let last = if num_siblings > 0 {
            random_below(num_siblings)
        } else {
            0
        };
        Dispatch {
            network_ip_addr: server_ip,
            max_rx_packets: RX_BATCH_SIZE,
            assembler: ResponseAssembler::new(server_mac, client_mac, server_ip, client_ip, udp_port),
            responses_sent: 0,
            measurement_start: now,
            measurement_stop: 0,
            state: TaskState::INITIALIZED,
            time: 0,
            priority: TaskPriority::DISPATCH,
            id,
            rng,
            num_of_siblings: num_siblings,
            last_selected_sibling: last,
        }
    }

    /// Picks the sibling receive queue to steal from when the local one is
    /// empty: of the last selected sibling and one drawn at random, the one
    /// whose queue is deeper (the last selected on a tie). The pick becomes
    /// the last selected sibling. `depths` holds the siblings' queue depths.
    pub fn select_sibling(&mut self, depths: &Vec<u64>) -> (r: Option<usize>)
        requires
            old(self).wf(),
            depths@.len() == old(self).num_siblings_spec(),
        ensures
            final(self).wf(),
            old(self).num_siblings_spec() == 0 <==> r is None,
            r is None ==> *final(self) == *old(self),
            r matches Some(s) ==> {
                &&& s < old(self).num_siblings_spec()
                &&& s == old(self).last_sibling_spec() || depths@[s as int] > depths@[old(
                    self,
                ).last_sibling_spec() as int]
                &&& final(self).last_sibling_spec() == s
            },
            final(self).num_siblings_spec() == old(self).num_siblings_spec(),
            final(self).ip_spec() == old(self).ip_spec(),
            final(self).assembler_spec() == old(self).assembler_spec(),
            final(self).responses_sent_spec() == old(self).responses_sent_spec(),
            final(self).measurement_start_spec() == old(self).measurement_start_spec(),
            final(self).state_spec() == old(self).state_spec(),
            final(self).time_spec() == old(self).time_spec(),
    {
        let n = self.num_of_siblings;
        if n == 0 {
            return None;
        }
        let one = self.last_selected_sibling;
        let two = draw_below(&mut self.rng, n);
        let pick = choose_sibling(one, two, depths);
        self.last_selected_sibling = pick;
        Some(pick)
    }

    /// Hands each UDP-parsed request, in order, to the master service with
    /// a response built for it. A request that names another service, or
    /// that the master refuses, comes back with its response to be freed;
    /// every other one becomes a task at the tail of the run-queue, under
    /// the request class and its tenant and opcode.
    pub fn dispatch_requests<T, S: Service<T>>(
        &self,
        master: &S,
        sched: &mut RoundRobin<T>,
        requests: VecDeque<Packet>,
    ) -> (r: Refused)
        requires
            old(sched).wf(),
            forall|i: int|
                0 <= i < requests@.len() ==> (#[trigger] requests@[i]).data@.len() >= PAYLOAD_OFFSET,
        ensures
            final(sched).wf(),
            outcomes_fit(requests@, r.outcomes@),
            extends_with(
                final(sched).queue(),
                old(sched).queue(),
                selected(requests@, r.outcomes@, true),
            ),
            r.requests@ == selected(requests@, r.outcomes@, false),
            responses_for(self.assembler_spec(), r.requests@, r.responses@),
            final(sched).same_but_queue(old(sched)),
    {
        let ghost orig = requests@;
        let ghost q0 = sched.queue();
        let mut input = requests;
        let mut refused = Refused {
            outcomes: Vec::new(),
            requests: VecDeque::new(),
            responses: VecDeque::new(),
        };
        let ghost mut k: int = 0;
        assert(orig.take(0) =~= Seq::<Packet>::empty());
        while input.len() > 0
            invariant
                0 <= k <= orig.len(),
                input@ == orig.skip(k),
                forall|i: int| 0 <= i < orig.len() ==> (#[trigger] orig[i]).data@.len() >= PAYLOAD_OFFSET,
                sched.wf(),
                outcomes_fit(orig.take(k), refused.outcomes@),
                extends_with(sched.queue(), q0, selected(orig.take(k), refused.outcomes@, true)),
                refused.requests@ == selected(orig.take(k), refused.outcomes@, false),
                responses_for(self.assembler, refused.requests@, refused.responses@),
                sched.same_but_queue(old(sched)),
                q0 == old(sched).queue(),
            decreases input@.len(),
        {
            let req = input.pop_front().unwrap();
            let ghost outs = refused.outcomes@;
            let ghost adm_before = selected(orig.take(k), outs, true);
            let ghost q_before = sched.queue();
            proof {
                assert(req == orig[k]);
            }
            let port = read_be16(&req.data, UDP_OFFSET);
            let res = self.assembler.assemble(port);
            let outcome;
            if parse_rpc_service(&req) == ServiceKind::MasterService {
                let op = parse_rpc_opcode(&req);
                let tenant = parse_rpc_tenant(&req);
                let answer = master.dispatch(op, req, res);
                outcome = file_outcome(sched, &mut refused, tenant, op, answer);
                proof {
                    if outcome == Outcome::Queued {
                        lemma_selected_step(orig, outs, k, outcome, true);
                        let adm = selected(orig.take(k + 1), outs.push(outcome), true);
                        assert(adm == adm_before.push(orig[k]));
                        assert forall|i: int| 0 <= i < adm.len() implies entry_matches(
                            #[trigger] sched.queue()[q0.len() + i],
                            adm[i].data@,
                        ) by {
                            if i < adm_before.len() {
                                assert(sched.queue()[q0.len() + i] == q_before[q0.len() + i]);
                            }
                        }
                    }
                }
            } else {
                refused.requests.push_back(req);
                refused.responses.push_back(res);
                outcome = Outcome::UnknownService;
            }
            refused.outcomes.push(outcome);
            proof {
                lemma_selected_step(orig, outs, k, outcome, true);
                lemma_selected_step(orig, outs, k, outcome, false);
                k = k + 1;
                assert(input@ =~= orig.skip(k));
            }
        }
        assert(orig.take(k) =~= orig);
        refused
    }

    /// Runs a received or stolen burst through the header pipeline and the
    /// service adapter. Returns the packets to free: malformed frames, and
    /// refused requests with their responses.
    pub fn process_burst<T, S: Service<T>>(
        &self,
        master: &S,
        sched: &mut RoundRobin<T>,
        burst: VecDeque<Packet>,
    ) -> (r: Released)
        requires
            old(sched).wf(),
        ensures
            final(sched).wf(),
            r.malformed@ == rejected(burst@, self.ip_spec()),
            outcomes_fit(accepted(burst@, self.ip_spec()), r.refused.outcomes@),
            extends_with(
                final(sched).queue(),
                old(sched).queue(),
                selected(accepted(burst@, self.ip_spec()), r.refused.outcomes@, true),
            ),
            r.refused.requests@ == selected(
                accepted(burst@, self.ip_spec()),
                r.refused.outcomes@,
                false,
            ),
            responses_for(self.assembler_spec(), r.refused.requests@, r.refused.responses@),
            final(sched).same_but_queue(old(sched)),
    {
        let c = classify(burst, self.network_ip_addr);
        proof {
            let a = accepted(burst@, self.network_ip_addr);
            assert forall|i: int| 0 <= i < a.len() implies (#[trigger] a[i]).data@.len()
                >= PAYLOAD_OFFSET by {
                let s2 = burst@.filter(passes(Layer::Mac, self.network_ip_addr)).filter(
                    passes(Layer::Ip, self.network_ip_addr),
                );
                s2.lemma_filter_pred(passes(Layer::Udp, self.network_ip_addr), i);
            }
        }
        let refused = self.dispatch_requests(master, sched, c.requests);
        Released { malformed: c.dropped, refused }
    }

    /// Accounts for a transmit burst of `submitted` responses at cycle stamp
    /// `now`. Once a million responses have gone out since the last report,
    /// returns the count and the cycles they took and opens a new window.
    pub fn record_transmit(&mut self, submitted: usize, now: u64) -> (r: Option<(u64, u64)>)
        requires
            old(self).wf(),
        ensures
            final(self).wf(),
            ({
                let sent = clamp_u64(old(self).responses_sent_spec() + submitted);
                if sent >= REPORT_EVERY {
                    &&& r == Some((sent as u64, elapsed(old(self).measurement_start_spec(), now) as u64))
                    &&& final(self).responses_sent_spec() == 0
                    &&& final(self).measurement_start_spec() == now
                } else {
                    &&& r is None
                    &&& final(self).responses_sent_spec() == sent
                    &&& final(self).measurement_start_spec() == old(self).measurement_start_spec()
                }
            }),
            final(self).num_siblings_spec() == old(self).num_siblings_spec(),
            final(self).last_sibling_spec() == old(self).last_sibling_spec(),
            final(self).ip_spec() == old(self).ip_spec(),
            final(self).assembler_spec() == old(self).assembler_spec(),
            final(self).state_spec() == old(self).state_spec(),
            final(self).time_spec() == old(self).time_spec(),
    {
        self.responses_sent = self.responses_sent.saturating_add(submitted as u64);
        if self.responses_sent >= REPORT_EVERY {
            self.measurement_stop = now;
            let report = (self.responses_sent, now.saturating_sub(self.measurement_start));
            self.measurement_start = now;
            self.responses_sent = 0;
            Some(report)
        } else {
            None
        }
    }

    /// Marks the start of one dispatch step.
    pub fn run_begin(&mut self)
        requires
            old(self).wf(),
        ensures
            final(self).wf(),
            final(self).state_spec() == TaskState::RUNNING,
            final(self).time_spec() == old(self).time_spec(),
            final(self).num_siblings_spec() == old(self).num_siblings_spec(),
            final(self).last_sibling_spec() == old(self).last_sibling_spec(),
            final(self).ip_spec() == old(self).ip_spec(),
            final(self).assembler_spec() == old(self).assembler_spec(),
            final(self).responses_sent_spec() == old(self).responses_sent_spec(),
            final(self).measurement_start_spec() == old(self).measurement_start_spec(),
    {
        self.state = TaskState::RUNNING;
    }

    /// Marks the end of a dispatch step begun at cycle stamp `start`: the
    /// task yields, and the cycles spent join its running time
    /// (saturating). Returns the new state and the cycles of this step.
    pub fn run_end(&mut self, start: u64, now: u64) -> (r: (TaskState, u64))
        requires
            old(self).wf(),
        ensures
            final(self).wf(),
            r == (TaskState::YIELDED, elapsed(start, now) as u64),
            final(self).state_spec() == TaskState::YIELDED,
            final(self).time_spec() == clamp_u64(old(self).time_spec() + elapsed(start, now)),
            final(self).num_siblings_spec() == old(self).num_siblings_spec(),
            final(self).last_sibling_spec() == old(self).last_sibling_spec(),
            final(self).ip_spec() == old(self).ip_spec(),
            final(self).assembler_spec() == old(self).assembler_spec(),
            final(self).responses_sent_spec() == old(self).responses_sent_spec(),
            final(self).measurement_start_spec() == old(self).measurement_start_spec(),
    {
        let exec = now.saturating_sub(start);
        self.state = TaskState::YIELDED;
        self.time = self.time.saturating_add(exec);
        (TaskState::YIELDED, exec)
    }

    /// Current execution state.
    pub fn state(&self) -> (s: TaskState)
        ensures
            s == self.state_spec(),
    {
        self.state
    }

    /// Total cycles spent in dispatch steps.
    pub fn time(&self) -> (t: u64)
        ensures
            t == self.time_spec(),
    {
        self.time
    }

    /// The dispatch task's class, which shields it from stealing.
    pub fn priority(&self) -> (p: TaskPriority)
        requires
            self.wf(),
        ensures
            p == TaskPriority::DISPATCH,
    {
        self.priority
    }

    /// The dispatch task carries no request or response of its own.
    pub fn tear(&mut self) -> (r: Option<(Packet, Packet)>)
        ensures
            r is None,
            *final(self) == *old(self),
    {
        None
    }

    /// Largest burst asked of a receive queue.
    pub fn max_rx_packets(&self) -> (n: u8)
        requires
            self.wf(),
        ensures
            n == RX_BATCH_SIZE,
    {
        self.max_rx_packets
    }
}

proof fn lemma_filter_all<A>(s: Seq<A>, f: spec_fn(A) -> bool)
    requires
        forall|i: int| 0 <= i < s.len() ==> #[trigger] f(s[i]),
    ensures
        s.filter(f) == s,
    decreases s.len(),
{
    reveal(Seq::filter);
    if s.len() > 0 {
        let p = s.drop_last();
        assert forall|i: int| 0 <= i < p.len() implies #[trigger] f(p[i]) by {
            assert(p[i] == s[i]);
        }
        lemma_filter_all(p, f);
        assert(f(s[s.len() - 1]));
        assert(p.push(s.last()) =~= s);
    }
}

proof fn lemma_selected_conserves(reqs: Seq<Packet>, outs: Seq<Outcome>)
    requires
        outs.len() == reqs.len(),
    ensures
        selected(reqs, outs, true).to_multiset().add(selected(reqs, outs, false).to_multiset())
            =~= reqs.to_multiset(),
    decreases reqs.len(),
{
    if reqs.len() == 0 {
        selected(reqs, outs, true).to_multiset_ensures();
        selected(reqs, outs, false).to_multiset_ensures();
        reqs.to_multiset_ensures();
    } else {
        let p = reqs.drop_last();
        let o = outs.drop_last();
        lemma_selected_conserves(p, o);
        selected(p, o, true).to_multiset_ensures();
        selected(p, o, false).to_multiset_ensures();
        p.to_multiset_ensures();
        assert(p.push(reqs.last()) =~= reqs);
    }
}

proof fn lemma_selected_all(reqs: Seq<Packet>, outs: Seq<Outcome>)
    requires
        outs.len() == reqs.len(),
        forall|i: int| 0 <= i < outs.len() ==> #[trigger] outs[i] == Outcome::Queued,
    ensures
        selected(reqs, outs, true) == reqs,
    decreases reqs.len(),
{
    if reqs.len() > 0 {
        let p = reqs.drop_last();
        let o = outs.drop_last();
        assert forall|i: int| 0 <= i < o.len() implies #[trigger] o[i] == Outcome::Queued by {
            assert(o[i] == outs[i]);
        }
        lemma_selected_all(p, o);
        assert(outs[outs.len() - 1] == Outcome::Queued);
        assert(p.push(reqs.last()) =~= reqs);
    }
}

/// Every frame of a burst is accounted for exactly once: it is freed as
/// malformed, freed as not served, or carried by a new task, whatever the
/// service decides for each request.
pub proof fn lemma_burst_conserves(s: Seq<Packet>, own_ip: u32, outs: Seq<Outcome>)
    requires
        outs.len() == accepted(s, own_ip).len(),
    ensures
        rejected(s, own_ip).to_multiset().add(
            selected(accepted(s, own_ip), outs, false).to_multiset(),
        ).add(selected(accepted(s, own_ip), outs, true).to_multiset()) =~= s.to_multiset(),
{
    crate::classifier::lemma_classify_conserves(s, own_ip);
    lemma_selected_conserves(accepted(s, own_ip), outs);
}

/// A burst whose frames are all valid requests, all of which the service
/// takes, is queued whole: one task per frame, in receive order.
pub proof fn lemma_burst_order(s: Seq<Packet>, own_ip: u32, outs: Seq<Outcome>)
    requires
        forall|i: int|
            0 <= i < s.len() ==> {
                &&& crate::packet::mac_valid(#[trigger] s[i].data@)
                &&& crate::packet::ip_valid(s[i].data@, own_ip)
                &&& crate::packet::udp_valid(s[i].data@)
            },
        outs.len() == s.len(),
        forall|i: int| 0 <= i < outs.len() ==> #[trigger] outs[i] == Outcome::Queued,
    ensures
        accepted(s, own_ip) == s,
        selected(accepted(s, own_ip), outs, true) == s,
{
    lemma_filter_all(s, passes(Layer::Mac, own_ip));
    lemma_filter_all(s, passes(Layer::Ip, own_ip));
    lemma_filter_all(s, passes(Layer::Udp, own_ip));
    lemma_selected_all(s, outs);
}

} // verus!
