//! Tasks and the identifiers that tell them apart.

use vstd::prelude::*;

verus! {

/// A task, known by its identifier.
#[derive(Debug, PartialEq, Eq, Clone, Copy, Hash, Structural)]
pub struct Task(u64);

impl Task {
    /// The identifier of the task.
    pub closed spec fn id(self) -> u64 {
        self.0
    }

    /// The task with the given identifier.
    pub closed spec fn with_id(id: u64) -> Task {
        Task(id)
    }

    /// The task with the given identifier.
    pub fn new(id: u64) -> (task: Task)
        ensures
            task == Task::with_id(id),
            task.id() == id,
    {
        Task(id)
    }

    /// The identifier of the task.
    pub fn into_id(self) -> (id: u64)
        ensures
            id == self.id(),
    {
        self.0
    }
}

/// A task is its identifier: the task made from an identifier has it, the task made from the
/// identifier of a task is that task, and two tasks are equal exactly if their identifiers are.
pub proof fn task_is_its_id(id: u64, a: Task, b: Task)
    ensures
        Task::with_id(id).id() == id,
        Task::with_id(a.id()) == a,
        a == b <==> a.id() == b.id(),
{
}

/// The identifier that the first task gets.
pub const FIRST_TASK_ID: u64 = 1234;

/// The number of different identifiers.
pub open spec fn task_id_count() -> int {
    0x1_0000_0000_0000_0000
}

/// The identifier handed out by the `n`-th call from a counter that stands at `start`, where the
/// first call is number zero.
pub open spec fn nth_task_id(start: u64, n: nat) -> int {
    (start + n) % task_id_count()
}

/// The counter from which tasks and submitted requests get their identifiers.
#[derive(Debug)]
pub struct TaskIds {
    next: u64,
}

impl TaskIds {
    /// The identifier that comes next.
    pub closed spec fn next(self) -> u64 {
        self.next
    }

    /// A counter from which nothing has been taken.
    pub fn new() -> (ids: TaskIds)
        ensures
            ids.next() == FIRST_TASK_ID,
            ids.next() == 1234,
    {
        TaskIds { next: FIRST_TASK_ID }
    }
}

/// Takes the next identifier. After the largest one the counter starts again at zero.
pub fn get_next_task_id(ids: &mut TaskIds) -> (task: Task)
    ensures
        task.id() == old(ids).next(),
        final(ids).next() == (old(ids).next() + 1) % task_id_count(),
        final(ids).next() == if old(ids).next() == u64::MAX {
            0
        } else {
            old(ids).next() + 1
        },
{
    let out_id: u64 = ids.next;
    ids.next = out_id.wrapping_add(1);
    Task(out_id)
}

/// Identifiers are handed out in sequence: a counter that stands at the `n`-th identifier gives
/// that one and then stands at the one numbered `n + 1`.
pub proof fn task_ids_run_in_sequence(start: u64, n: nat)
    ensures
        nth_task_id(start, 0) == start,
        nth_task_id(start, n + 1) == (nth_task_id(start, n) + 1) % task_id_count(),
{
    vstd::arithmetic::div_mod::lemma_add_mod_noop((start + n) as int, 1, task_id_count());
    assert(start as int % task_id_count() == start) by {
        vstd::arithmetic::div_mod::lemma_small_mod(start as nat, task_id_count() as nat);
    }
}

/// Every number that an identifier can hold is handed out before one comes again: identifiers grow
/// by one from each call to the next up to the largest number, after which comes zero.
pub proof fn task_ids_use_every_number(start: u64, n: nat)
    ensures
        task_id_count() == u64::MAX + 1,
        0 <= nth_task_id(start, n) <= u64::MAX,
        nth_task_id(start, n) < u64::MAX ==> nth_task_id(start, n + 1) == nth_task_id(start, n) + 1,
        nth_task_id(start, n) == u64::MAX ==> nth_task_id(start, n + 1) == 0,
        start + n <= u64::MAX ==> nth_task_id(start, n) == start + n,
{
}

/// No identifier is handed out twice unless the counter has gone all the way round in between.
pub proof fn task_ids_are_distinct(start: u64, i: nat, j: nat)
    requires
        i < j < i + task_id_count(),
    ensures
        nth_task_id(start, i) != nth_task_id(start, j),
{
}

} // verus!
