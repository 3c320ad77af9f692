use vstd::prelude::*;

verus! {

/// Execution state of a task.
#[derive(Clone, Copy, PartialEq, Eq, Structural, Debug)]
pub enum TaskState {
    INITIALIZED,
    RUNNING,
    YIELDED,
    COMPLETED,
}

/// Scheduling class of a task. Only the stealing policy looks at it.
#[derive(Clone, Copy, PartialEq, Eq, Structural, Debug)]
pub enum TaskPriority {
    DISPATCH,
    REQUEST,
}

/// A task waiting on a run-queue, with the class it was enqueued under and
/// the workload fingerprint of the request it serves (zero for the
/// dispatch task).
#[derive(Debug)]
pub struct Queued<T> {
    pub priority: TaskPriority,
    pub tenant: u32,
    pub opcode: u8,
    pub task: T,
}

impl<T> Queued<T> {
    /// A request-servicing task for `tenant`'s operation `opcode`.
    pub fn request(task: T, tenant: u32, opcode: u8) -> (q: Queued<T>)
        ensures
            q == (Queued { priority: TaskPriority::REQUEST, tenant, opcode, task }),
    {
        Queued { priority: TaskPriority::REQUEST, tenant, opcode, task }
    }

    /// The dispatch task of a core.
    pub fn dispatch(task: T) -> (q: Queued<T>)
        ensures
            q == (Queued { priority: TaskPriority::DISPATCH, tenant: 0u32, opcode: 0u8, task }),
    {
        Queued { priority: TaskPriority::DISPATCH, tenant: 0, opcode: 0, task }
    }

    /// Scheduling class of this entry.
    pub fn priority(&self) -> (p: TaskPriority)
        ensures
            p == self.priority,
    {
        self.priority
    }
}

/// The entry is a dispatch task.
pub open spec fn is_dispatch<T>(q: Queued<T>) -> bool {
    q.priority == TaskPriority::DISPATCH
}

/// No two entries of `s` are dispatch tasks.
pub open spec fn at_most_one_dispatch<T>(s: Seq<Queued<T>>) -> bool {
    forall|i: int, j: int|
        0 <= i < s.len() && 0 <= j < s.len() && #[trigger] is_dispatch(s[i]) && #[trigger] is_dispatch(
            s[j],
        ) ==> i == j
}

/// Some entry of `s` is a dispatch task.
pub open spec fn holds_dispatch<T>(s: Seq<Queued<T>>) -> bool {
    exists|i: int| 0 <= i < s.len() && #[trigger] is_dispatch(s[i])
}

} // verus!
