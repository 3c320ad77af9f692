use vstd::prelude::*;
use std::collections::VecDeque;
use crate::packet::Packet;
use crate::response::{finalized, fixup_header_length_fields};
use crate::task::{Queued, TaskPriority, TaskState, is_dispatch, at_most_one_dispatch, holds_dispatch};

verus! {

/// Position of the first dispatch entry of `s` at or after `from`, if any.
pub fn find_dispatch<T>(s: &VecDeque<Queued<T>>, from: usize) -> (r: Option<usize>)
    ensures
        r is None ==> forall|k: int| from <= k < s@.len() ==> !is_dispatch(#[trigger] s@[k]),
        r matches Some(j) ==> {
            &&& from <= j < s@.len()
            &&& is_dispatch(s@[j as int])
            &&& forall|k: int| from <= k < j ==> !is_dispatch(#[trigger] s@[k])
        },
{
    let mut i = from;
    while i < s.len()
        invariant
            from <= i,
            forall|k: int| from <= k < i && k < s@.len() ==> !is_dispatch(#[trigger] s@[k]),
        decreases s@.len() - i,
    {
        if s[i].priority == TaskPriority::DISPATCH {
            return Some(i);
        }
        i = i + 1;
    }
    None
}

/// Turn-taking of an idle scheduler between polling its own queue and
/// stealing from a sibling, with the sibling chosen round-robin.
pub struct StealTurn {
    pub sibling_id: usize,
    pub sibling_turn: bool,
}

/// The slot after `id` among `n` siblings, wrapping to the first.
pub open spec fn next_slot(id: usize, n: usize) -> usize {
    if id + 1 < n {
        (id + 1) as usize
    } else {
        0
    }
}

/// One idle-turn decision: with only the dispatch task left (`queue_len`
/// is one), odd turns poll locally and even turns steal from the next
/// sibling; with more work queued nothing changes.
pub open spec fn turn_step(t: StealTurn, queue_len: nat, n: usize) -> (StealTurn, Option<usize>) {
    if queue_len != 1 {
        (t, None)
    } else if !t.sibling_turn {
        (StealTurn { sibling_turn: true, ..t }, None)
    } else if n == 0 {
        (StealTurn { sibling_turn: false, ..t }, None)
    } else {
        let id = next_slot(t.sibling_id, n);
        (StealTurn { sibling_id: id, sibling_turn: false }, Some(id))
    }
}

impl StealTurn {
    /// Starts on a local turn, before the first sibling.
    pub fn new() -> (t: StealTurn)
        ensures
            t == (StealTurn { sibling_id: 0, sibling_turn: false }),
    {
        StealTurn { sibling_id: 0, sibling_turn: false }
    }

    /// Decides the idle turn for a run-queue of `queue_len` entries and `n`
    /// siblings; returns the slot of the sibling to steal from, if any.
    pub fn next(&mut self, queue_len: usize, n: usize) -> (r: Option<usize>)
        ensures
            (*final(self), r) == turn_step(*old(self), queue_len as nat, n),
            r matches Some(s) ==> s < n,
    {
        if queue_len != 1 {
            None
        } else if !self.sibling_turn {
            self.sibling_turn = true;
            None
        } else if n == 0 {
            self.sibling_turn = false;
            None
        } else {
            let id = if self.sibling_id < n - 1 {
                self.sibling_id + 1
            } else {
                0
            };
            self.sibling_id = id;
            self.sibling_turn = false;
            Some(id)
        }
    }
}

/// Of any two consecutive idle iterations, at most one steals, so the
/// local dispatch task is polled at least every other iteration.
pub proof fn lemma_steal_turns_alternate(t: StealTurn, len1: nat, len2: nat, n: usize)
    ensures
        !(turn_step(t, len1, n).1 is Some && turn_step(turn_step(t, len1, n).0, len2, n).1 is Some),
{
}

/// A run-queue of length one that holds a dispatch task holds it at the
/// head: an idle scheduler pops its dispatch task on every local turn.
pub proof fn lemma_lone_entry_is_dispatch<T>(q: Seq<Queued<T>>)
    requires
        q.len() == 1,
        holds_dispatch(q),
    ensures
        is_dispatch(q[0]),
{
}

/// Each head pop by the owner moves its dispatch task one place closer to
/// the head, whatever is requeued or enqueued behind it; so a dispatch task
/// at position `k` runs within `k + 1` pops.
pub proof fn lemma_dispatch_advances<T>(q: Seq<Queued<T>>, k: int, behind: Seq<Queued<T>>)
    requires
        0 < k < q.len(),
        is_dispatch(q[k]),
    ensures
        is_dispatch((q.drop_first() + behind)[k - 1]),
{
}

/// Once popped and requeued, a dispatch task stands behind every task that
/// was waiting: it runs again only after each of them has run once.
pub proof fn lemma_dispatch_requeued_behind<T>(q: Seq<Queued<T>>)
    requires
        at_most_one_dispatch(q),
        q.len() > 0,
        is_dispatch(q[0]),
    ensures
        forall|i: int| 0 <= i < q.len() - 1 ==> !is_dispatch(#[trigger] q.drop_first().push(q[0])[i]),
        is_dispatch(q.drop_first().push(q[0]).last()),
{
    assert forall|i: int| 0 <= i < q.len() - 1 implies !is_dispatch(
        #[trigger] q.drop_first().push(q[0])[i],
    ) by {
        assert(q.drop_first().push(q[0])[i] == q[i + 1]);
    }
}

/// A steal by a sibling never moves the dispatch task away from the head
/// of its queue, and never takes it.
pub proof fn lemma_steal_keeps_dispatch<T>(q: Seq<Queued<T>>, k: int)
    requires
        at_most_one_dispatch(q),
        q.len() > 1,
        0 <= k < q.len(),
        is_dispatch(q[k]),
    ensures
        ({
            let after = if !is_dispatch(q[0]) {
                q.drop_first()
            } else {
                q.drop_last()
            };
            is_dispatch(after[if k > 0 {
                k - 1
            } else {
                0
            }])
        }),
{
    if is_dispatch(q[0]) {
        assert(k == 0);
    }
}

/// A per-core round-robin scheduler: a run-queue of tasks, the responses of
/// completed tasks awaiting transmit, the sibling registry used for task
/// stealing, and the watchdog state read by a supervisor.
pub struct RoundRobin<T> {
    latest: u64,
    compromised: bool,
    thread: u64,
    core: i32,
    waiting: VecDeque<Queued<T>>,
    responses: Vec<Packet>,
    siblings: Vec<usize>,
}

impl<T> RoundRobin<T> {
    /// Well-formed: the run-queue holds at most one dispatch task, so a
    /// queue of length one that holds a dispatch task holds nothing else.
    pub closed spec fn wf(&self) -> bool {
        at_most_one_dispatch(self.waiting@)
    }

    /// The run-queue, head first.
    pub closed spec fn queue(&self) -> Seq<Queued<T>> {
        self.waiting@
    }

    /// Responses staged for transmit, oldest first.
    pub closed spec fn staged(&self) -> Seq<Packet> {
        self.responses@
    }

    /// Identifiers of the sibling schedulers, in registration order.
    pub closed spec fn sibling_ids(&self) -> Seq<usize> {
        self.siblings@
    }

    pub closed spec fn latest_spec(&self) -> u64 {
        self.latest
    }

    pub closed spec fn compromised_spec(&self) -> bool {
        self.compromised
    }

    pub closed spec fn thread_spec(&self) -> u64 {
        self.thread
    }

    pub closed spec fn core_spec(&self) -> i32 {
        self.core
    }

    /// Everything but the run-queue is as in `other`.
    pub open spec fn same_but_queue(&self, other: &Self) -> bool {
        &&& self.staged() == other.staged()
        &&& self.sibling_ids() == other.sibling_ids()
        &&& self.latest_spec() == other.latest_spec()
        &&& self.compromised_spec() == other.compromised_spec()
        &&& self.thread_spec() == other.thread_spec()
        &&& self.core_spec() == other.core_spec()
    }

    /// Everything but the staged responses is as in `other`.
    pub open spec fn same_but_staged(&self, other: &Self) -> bool {
        &&& self.queue() == other.queue()
        &&& self.sibling_ids() == other.sibling_ids()
        &&& self.latest_spec() == other.latest_spec()
        &&& self.compromised_spec() == other.compromised_spec()
        &&& self.thread_spec() == other.thread_spec()
        &&& self.core_spec() == other.core_spec()
    }

    /// A scheduler for `thread` on `core`, with an empty run-queue, whose
    /// heartbeat starts at cycle stamp `now`.
    pub fn new(thread: u64, core: i32, now: u64) -> (s: RoundRobin<T>)
        ensures
            s.wf(),
            s.queue().len() == 0,
            s.staged().len() == 0,
            s.sibling_ids().len() == 0,
            s.latest_spec() == now,
            !s.compromised_spec(),
            s.thread_spec() == thread,
            s.core_spec() == core,
    {
        RoundRobin {
            latest: now,
            compromised: false,
            thread,
            core,
            waiting: VecDeque::new(),
            responses: Vec::new(),
            siblings: Vec::with_capacity(8),
        }
    }

    /// Number of tasks on the run-queue.
    pub fn len(&self) -> (n: usize)
        ensures
            n == self.queue().len(),
    {
        self.waiting.len()
    }

    /// Appends a task at the tail of the run-queue. A second dispatch task
    /// is refused and handed back: a core has one resident dispatch task.
    pub fn enqueue(&mut self, task: Queued<T>) -> (r: Result<(), Queued<T>>)
        requires
            old(self).wf(),
        ensures
            final(self).wf(),
            r is Err <==> is_dispatch(task) && holds_dispatch(old(self).queue()),
            r is Ok ==> final(self).queue() == old(self).queue().push(task),
            r matches Err(t) ==> t == task && final(self).queue() == old(self).queue(),
            final(self).same_but_queue(old(self)),
    {
        if task.priority == TaskPriority::DISPATCH {
            if let Some(j) = find_dispatch(&self.waiting, 0) {
                return Err(task);
            }
        }
        self.waiting.push_back(task);
        Ok(())
    }

    /// Appends a batch of tasks at the tail of the run-queue, in order. The
    /// whole batch is refused and handed back if the run-queue would then
    /// hold more than one dispatch task.
    pub fn enqueue_many(&mut self, tasks: VecDeque<Queued<T>>) -> (r: Result<
        (),
        VecDeque<Queued<T>>,
    >)
        requires
            old(self).wf(),
        ensures
            final(self).wf(),
            r is Err <==> !at_most_one_dispatch(old(self).queue() + tasks@),
            r is Ok ==> final(self).queue() == old(self).queue() + tasks@,
            r matches Err(t) ==> t@ == tasks@ && final(self).queue() == old(self).queue(),
            final(self).same_but_queue(old(self)),
    {
        let ghost q = self.waiting@;
        let ghost all = q + tasks@;
        if let Some(j) = find_dispatch(&tasks, 0) {
            let m = tasks.len();
            assert(j < m);
            let second = find_dispatch(&tasks, j + 1);
            let here = find_dispatch(&self.waiting, 0);
            if let Some(k) = second {
                assert(is_dispatch(all[q.len() + j]) && is_dispatch(all[q.len() + k]));
                return Err(tasks);
            }
            if let Some(k) = here {
                assert(is_dispatch(all[k as int]) && is_dispatch(all[q.len() + j]));
                return Err(tasks);
            }
            assert forall|a: int, b: int|
                0 <= a < all.len() && 0 <= b < all.len() && #[trigger] is_dispatch(all[a])
                    && #[trigger] is_dispatch(all[b]) implies a == b by {
                if a < q.len() {
                    assert(is_dispatch(q[a]));
                }
                if b < q.len() {
                    assert(is_dispatch(q[b]));
                }
                assert(is_dispatch(tasks@[a - q.len()]));
                assert(is_dispatch(tasks@[b - q.len()]));
            }
        } else {
            assert forall|a: int, b: int|
                0 <= a < all.len() && 0 <= b < all.len() && #[trigger] is_dispatch(all[a])
                    && #[trigger] is_dispatch(all[b]) implies a == b by {
                if a >= q.len() {
                    assert(is_dispatch(tasks@[a - q.len()]));
                }
                if b >= q.len() {
                    assert(is_dispatch(tasks@[b - q.len()]));
                }
                assert(is_dispatch(q[a]));
                assert(is_dispatch(q[b]));
            }
        }
        let mut tasks = tasks;
        self.waiting.append(&mut tasks);
        Ok(())
    }

    /// Removes and returns every task of the run-queue, head first.
    pub fn dequeue_all(&mut self) -> (r: VecDeque<Queued<T>>)
        requires
            old(self).wf(),
        ensures
            final(self).wf(),
            r@ == old(self).queue(),
            final(self).queue().len() == 0,
            final(self).same_but_queue(old(self)),
    {
        let mut out: VecDeque<Queued<T>> = VecDeque::new();
        out.append(&mut self.waiting);
        out
    }

    /// Removes and returns the staged responses, oldest first.
    pub fn responses(&mut self) -> (r: Vec<Packet>)
        requires
            old(self).wf(),
        ensures
            final(self).wf(),
            r@ == old(self).staged(),
            final(self).staged().len() == 0,
            final(self).same_but_staged(old(self)),
    {
        let mut out: Vec<Packet> = Vec::new();
        out.append(&mut self.responses);
        out
    }

    /// Moves `resps` to the tail of the staged responses, in order.
    pub fn append_resps(&mut self, resps: &mut Vec<Packet>)
        requires
            old(self).wf(),
        ensures
            final(self).wf(),
            final(self).staged() == old(self).staged() + old(resps)@,
            final(resps)@.len() == 0,
            final(self).same_but_staged(old(self)),
    {
        self.responses.append(resps);
    }

    /// Moves `sibs` to the tail of the sibling registry.
    pub fn add_siblings(&mut self, sibs: &mut Vec<usize>)
        requires
            old(self).wf(),
        ensures
            final(self).wf(),
            final(self).sibling_ids() == old(self).sibling_ids() + old(sibs)@,
            final(sibs)@.len() == 0,
            final(self).queue() == old(self).queue(),
            final(self).staged() == old(self).staged(),
            final(self).latest_spec() == old(self).latest_spec(),
            final(self).compromised_spec() == old(self).compromised_spec(),
            final(self).thread_spec() == old(self).thread_spec(),
            final(self).core_spec() == old(self).core_spec(),
    {
        self.siblings.append(sibs);
    }

    /// Number of registered siblings.
    pub fn num_siblings(&self) -> (n: usize)
        ensures
            n == self.sibling_ids().len(),
    {
        self.siblings.len()
    }

    /// Identifier of the sibling in registry slot `slot`.
    pub fn sibling(&self, slot: usize) -> (id: usize)
        requires
            slot < self.sibling_ids().len(),
        ensures
            id == self.sibling_ids()[slot as int],
    {
        self.siblings[slot]
    }

    /// Cycle stamp of the latest scheduling decision.
    pub fn latest(&self) -> (t: u64)
        ensures
            t == self.latest_spec(),
    {
        self.latest
    }

    /// Flags the scheduler as compromised: its event loop returns at the
    /// top of its next iteration.
    pub fn compromised(&mut self)
        requires
            old(self).wf(),
        ensures
            final(self).wf(),
            final(self).compromised_spec(),
            final(self).queue() == old(self).queue(),
            final(self).staged() == old(self).staged(),
            final(self).sibling_ids() == old(self).sibling_ids(),
            final(self).latest_spec() == old(self).latest_spec(),
            final(self).thread_spec() == old(self).thread_spec(),
            final(self).core_spec() == old(self).core_spec(),
    {
        self.compromised = true;
    }

    /// Whether the scheduler has been flagged as compromised.
    pub fn is_compromised(&self) -> (c: bool)
        ensures
            c == self.compromised_spec(),
    {
        self.compromised
    }

    /// Identifier of the thread the scheduler runs on.
    pub fn thread(&self) -> (t: u64)
        ensures
            t == self.thread_spec(),
    {
        self.thread
    }

    /// Identifier of the core the scheduler runs on.
    pub fn core_id(&self) -> (c: i32)
        ensures
            c == self.core_spec(),
    {
        self.core
    }

    /// Records the heartbeat of a scheduling decision taken at cycle stamp
    /// `now`. The heartbeat never moves backwards.
    pub fn record_tick(&mut self, now: u64)
        requires
            old(self).wf(),
        ensures
            final(self).wf(),
            final(self).latest_spec() == if now > old(self).latest_spec() {
                now
            } else {
                old(self).latest_spec()
            },
            final(self).latest_spec() >= old(self).latest_spec(),
            final(self).queue() == old(self).queue(),
            final(self).staged() == old(self).staged(),
            final(self).sibling_ids() == old(self).sibling_ids(),
            final(self).compromised_spec() == old(self).compromised_spec(),
            final(self).thread_spec() == old(self).thread_spec(),
            final(self).core_spec() == old(self).core_spec(),
    {
        if now > self.latest {
            self.latest = now;
        }
    }

    /// Takes the task at the head of the run-queue.
    pub fn next_task(&mut self) -> (r: Option<Queued<T>>)
        requires
            old(self).wf(),
        ensures
            final(self).wf(),
            old(self).queue().len() == 0 ==> r is None && final(self).queue() == old(self).queue(),
            old(self).queue().len() > 0 ==> r == Some(old(self).queue()[0]) && final(self).queue()
                == old(self).queue().drop_first(),
            final(self).same_but_queue(old(self)),
    {
        let r = self.waiting.pop_front();
        proof {
            assert(old(self).queue().len() > 0 ==> self.waiting@ =~= old(self).queue().drop_first());
        }
        r
    }

    /// Stages the response of a completed task for transmit, with its
    /// length fields finalized.
    pub fn stage_response(&mut self, res: Packet)
        requires
            old(self).wf(),
        ensures
            final(self).wf(),
            final(self).staged().len() == old(self).staged().len() + 1,
            final(self).staged().drop_last() == old(self).staged(),
            final(self).staged().last().data@ == finalized(res.data@),
            final(self).same_but_staged(old(self)),
    {
        let res = fixup_header_length_fields(res);
        self.responses.push(res);
        proof {
            assert(self.responses@.drop_last() =~= old(self).staged());
        }
    }

    /// Settles a task after one step that left it in `state`. A completed
    /// task is retired: its response, from `torn`, is staged with its
    /// length fields finalized, and its request is handed back to be freed.
    /// Any other task goes back to the tail of the run-queue (or is handed
    /// back if it is a second dispatch task).
    pub fn settle(&mut self, entry: Queued<T>, state: TaskState, torn: Option<(Packet, Packet)>) -> (r:
        Result<Option<Packet>, Queued<T>>)
        requires
            old(self).wf(),
            state != TaskState::COMPLETED ==> torn is None,
        ensures
            final(self).wf(),
            state == TaskState::COMPLETED ==> {
                &&& final(self).queue() == old(self).queue()
                &&& match torn {
                    Some(pair) => {
                        &&& r == Ok::<Option<Packet>, Queued<T>>(Some(pair.0))
                        &&& final(self).staged().drop_last() == old(self).staged()
                        &&& final(self).staged().len() == old(self).staged().len() + 1
                        &&& final(self).staged().last().data@ == finalized(pair.1.data@)
                    },
                    None => {
                        &&& r == Ok::<Option<Packet>, Queued<T>>(None)
                        &&& final(self).staged() == old(self).staged()
                    },
                }
            },
            state != TaskState::COMPLETED ==> {
                &&& final(self).staged() == old(self).staged()
                &&& (r is Err <==> is_dispatch(entry) && holds_dispatch(old(self).queue()))
                &&& r is Ok ==> r == Ok::<Option<Packet>, Queued<T>>(None) && final(self).queue()
                    == old(self).queue().push(entry)
                &&& r matches Err(e) ==> e == entry && final(self).queue() == old(self).queue()
            },
            final(self).sibling_ids() == old(self).sibling_ids(),
            final(self).latest_spec() == old(self).latest_spec(),
            final(self).compromised_spec() == old(self).compromised_spec(),
            final(self).thread_spec() == old(self).thread_spec(),
            final(self).core_spec() == old(self).core_spec(),
    {
        if state == TaskState::COMPLETED {
            match torn {
                Some((req, res)) => {
                    self.stage_response(res);
                    Ok(Some(req))
                },
                None => Ok(None),
            }
        } else {
            match self.enqueue(entry) {
                Ok(()) => Ok(None),
                Err(e) => Err(e),
            }
        }
    }

    /// Gives a task to a stealing sibling. Nothing is given when the queue
    /// holds at most one task. Otherwise the head is given if it is not the
    /// dispatch task, and the tail if it is, so the dispatch task never
    /// leaves its core.
    pub fn steal_task(&mut self) -> (r: Option<Queued<T>>)
        requires
            old(self).wf(),
        ensures
            final(self).wf(),
            old(self).queue().len() <= 1 ==> r is None && final(self).queue() == old(self).queue(),
            old(self).queue().len() > 1 && !is_dispatch(old(self).queue()[0]) ==> r == Some(
                old(self).queue()[0],
            ) && final(self).queue() == old(self).queue().drop_first(),
            old(self).queue().len() > 1 && is_dispatch(old(self).queue()[0]) ==> r == Some(
                old(self).queue().last(),
            ) && final(self).queue() == old(self).queue().drop_last(),
            r matches Some(t) ==> !is_dispatch(t),
            final(self).same_but_queue(old(self)),
    {
        let n = self.waiting.len();
        if n <= 1 {
            return None;
        }
        let ghost q = self.waiting@;
        if self.waiting[0].priority != TaskPriority::DISPATCH {
            let r = self.waiting.pop_front();
            proof {
                assert(self.waiting@ =~= q.drop_first());
            }
            r
        } else {
            proof {
                assert(is_dispatch(q[0]));
                if is_dispatch(q[q.len() - 1]) {
                    assert(q.len() - 1 == 0);
                }
            }
            let r = self.waiting.pop_back();
            proof {
                assert(self.waiting@ =~= q.drop_last());
            }
            r
        }
    }
}

} // verus!
