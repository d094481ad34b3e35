//! The ring's bookkeeping: which completion belongs to which future.

use vstd::prelude::*;
use std::collections::{HashMap, HashSet};
use std::rc::Rc;

use crate::abi::IORING_FEAT_SUBMIT_STABLE;
use crate::cqe::{stripping_keeps_result_and_flags_word, IoUringCqe, StrippedCqe};
use crate::errno::Errno;
use crate::sqe::Sqe;
use crate::task::{get_next_task_id, task_id_count, Task, TaskIds};

verus! {

broadcast use vstd::std_specs::hash::group_hash_axioms;

/// A time to wait at most: whole seconds, and nanoseconds of the last one.
#[derive(Debug, Clone, Copy, PartialEq, Eq, Hash, Structural)]
pub struct Timeout {
    pub secs: u64,
    pub nanos: u32,
}

/// A time as the kernel takes it.
#[derive(Debug, Clone, Copy, PartialEq, Eq, Hash, Structural)]
pub struct KernelTimespec {
    pub tv_sec: i64,
    pub tv_nsec: i64,
}

/// The seconds as the kernel takes them: the same word, read as a signed number.
pub open spec fn kernel_secs(secs: u64) -> int {
    if secs <= i64::MAX {
        secs as int
    } else {
        secs - 0x1_0000_0000_0000_0000
    }
}

/// The completion of a registered request, with the cell of type `T` that was registered for it.
pub struct Completion<T> {
    pub shared: Rc<T>,
    pub cqe: StrippedCqe,
}

/// What happened since the wait last said what to do.
pub enum WaitEvent {
    /// Nothing: a wait begins, with a limit or without.
    Begin(Option<Timeout>),
    /// The submission returned this result. There is room to look at this many completions.
    Submitted { res: i32, room: u32 },
    /// After the submission returned this result, these completions were found in the room, the
    /// oldest first.
    Peeked { res: i32, room: u32, batch: Vec<IoUringCqe> },
}

/// What is to be done next.
pub enum WaitAction<T> {
    /// Submit what is queued and wait for this many completions, with a limit or without.
    Submit { wait_nr: u32, ts: Option<KernelTimespec> },
    /// Look at the completions that are there, at this many at most. The submission had this
    /// result.
    Peek { result: i32, max: u32 },
    /// Complete the requests in this order, then take this many completions off the ring, if any.
    /// The wait returns this result.
    Deliver { completions: Vec<Completion<T>>, advance: u32, result: i32 },
    /// The wait returns this error.
    Fail(Errno),
}

/// The cells that are left once the requests of a batch of completions are taken out.
pub open spec fn left_after<T>(map: Map<u64, Rc<T>>, batch: Seq<IoUringCqe>) -> Map<u64, Rc<T>>
    decreases batch.len(),
{
    if batch.len() == 0 {
        map
    } else {
        left_after(map, batch.drop_last()).remove(batch.last().user_data)
    }
}

/// The completions of a batch, each with the cell that was registered for its request.
pub open spec fn completions_of<T>(
    map: Map<u64, Rc<T>>,
    batch: Seq<IoUringCqe>,
) -> Seq<Completion<T>> {
    Seq::new(
        batch.len(),
        |i: int|
            Completion { shared: map[batch[i].user_data], cqe: StrippedCqe::of(batch[i]) },
    )
}

/// A batch takes out the cells of its own requests and leaves every other one as it is.
pub proof fn batch_takes_out_its_requests<T>(
    map: Map<u64, Rc<T>>,
    batch: Seq<IoUringCqe>,
    id: u64,
)
    ensures
        left_after(map, batch).contains_key(id) <==> map.contains_key(id) && forall|i: int|
            0 <= i < batch.len() ==> (#[trigger] batch[i]).user_data != id,
        left_after(map, batch).contains_key(id) ==> left_after(map, batch)[id] == map[id],
    decreases batch.len(),
{
    if batch.len() > 0 {
        let rest = batch.drop_last();
        batch_takes_out_its_requests(map, rest, id);
        assert(batch.last() == batch[batch.len() - 1]);
        assert(forall|i: int| 0 <= i < rest.len() ==> #[trigger] batch[i] == rest[i]);
    }
}

/// Every completion of a batch is handed to the cell that was registered under the word it carries,
/// with its own result and flags word, in the order of the batch.
pub proof fn each_completion_goes_to_its_cell<T>(
    map: Map<u64, Rc<T>>,
    batch: Seq<IoUringCqe>,
    i: int,
)
    requires
        0 <= i < batch.len(),
    ensures
        completions_of(map, batch).len() == batch.len(),
        completions_of(map, batch)[i].shared == map[batch[i].user_data],
        completions_of(map, batch)[i].cqe.res == batch[i].res,
        completions_of(map, batch)[i].cqe.flags@ == batch[i].flags,
{
    stripping_keeps_result_and_flags_word(batch[i], batch[i]);
}

/// The time that the kernel is given fits its type and is the same word as the time asked for: a
/// number of seconds that a signed word can hold stays as it is.
pub proof fn kernel_is_given_the_same_time(secs: u64)
    ensures
        i64::MIN <= kernel_secs(secs) <= i64::MAX,
        kernel_secs(secs) == secs || kernel_secs(secs) + 0x1_0000_0000_0000_0000 == secs,
        secs <= i64::MAX ==> kernel_secs(secs) == secs,
{
}

/// Something that happens to the registered cells.
pub ghost enum RingStep<T> {
    /// A cell is registered for a request.
    Register(u64, Rc<T>),
    /// A batch of completions is delivered.
    Deliver(Seq<IoUringCqe>),
}

/// The cells that are registered after a step.
pub open spec fn after_step<T>(map: Map<u64, Rc<T>>, step: RingStep<T>) -> Map<u64, Rc<T>> {
    match step {
        RingStep::Register(id, shared) => map.insert(id, shared),
        RingStep::Deliver(batch) => left_after(map, batch),
    }
}

/// The cells that are registered after some steps.
pub open spec fn after_steps<T>(
    map: Map<u64, Rc<T>>,
    steps: Seq<RingStep<T>>,
) -> Map<u64, Rc<T>>
    decreases steps.len(),
{
    if steps.len() == 0 {
        map
    } else {
        after_step(after_steps(map, steps.drop_last()), steps.last())
    }
}

/// Whether a step concerns the request with this identifier.
pub open spec fn concerns<T>(step: RingStep<T>, id: u64) -> bool {
    match step {
        RingStep::Register(registered, _) => registered == id,
        RingStep::Deliver(batch) => exists|i: int|
            0 <= i < batch.len() && (#[trigger] batch[i]).user_data == id,
    }
}

/// A registered cell stays registered while other requests are registered and completed.
pub proof fn cell_stays_registered<T>(
    map: Map<u64, Rc<T>>,
    steps: Seq<RingStep<T>>,
    id: u64,
)
    requires
        map.contains_key(id),
        forall|i: int| 0 <= i < steps.len() ==> !concerns(#[trigger] steps[i], id),
    ensures
        after_steps(map, steps).contains_key(id),
        after_steps(map, steps)[id] == map[id],
    decreases steps.len(),
{
    if steps.len() > 0 {
        let before = steps.drop_last();
        assert(forall|i: int| 0 <= i < before.len() ==> #[trigger] before[i] == steps[i]);
        cell_stays_registered(map, before, id);
        assert(!concerns(steps[steps.len() - 1], id));
        if let RingStep::Deliver(batch) = steps.last() {
            batch_takes_out_its_requests(after_steps(map, before), batch, id);
        }
    }
}

/// Whether each completion of a batch belongs to a registered request, no two to the same.
pub open spec fn deliverable<T>(map: Map<u64, Rc<T>>, batch: Seq<IoUringCqe>) -> bool {
    &&& forall|i: int|
        0 <= i < batch.len() ==> map.contains_key((#[trigger] batch[i]).user_data)
    &&& forall|i: int, j: int|
        0 <= i < j < batch.len() ==> (#[trigger] batch[i]).user_data != (
        #[trigger] batch[j]).user_data
}

/// The words that the completions of a batch carry.
pub open spec fn words_of(batch: Seq<IoUringCqe>) -> Seq<u64> {
    batch.map_values(|cqe: IoUringCqe| cqe.user_data)
}

/// A batch can be delivered exactly if all the words that its completions carry are registered and
/// none comes twice, however many there are.
pub proof fn batch_is_deliverable_by_its_words<T>(map: Map<u64, Rc<T>>, batch: Seq<IoUringCqe>)
    ensures
        deliverable(map, batch) <==> words_of(batch).no_duplicates() && forall|id: u64|
            words_of(batch).contains(id) ==> #[trigger] map.contains_key(id),
{
    let words = words_of(batch);
    assert(words.len() == batch.len());
    assert(forall|i: int| 0 <= i < batch.len() ==> #[trigger] words[i] == batch[i].user_data);
    if deliverable(map, batch) {
        assert forall|i: int, j: int|
            0 <= i < words.len() && 0 <= j < words.len() && i != j implies words[i]
            != words[j] by {
            if i < j {
                assert(batch[i].user_data != batch[j].user_data);
            } else {
                assert(batch[j].user_data != batch[i].user_data);
            }
        }
        assert forall|id: u64| words.contains(id) implies #[trigger] map.contains_key(id) by {
            let i = choose|i: int| 0 <= i < words.len() && words[i] == id;
            assert(map.contains_key(batch[i].user_data));
        }
    }
    if words.no_duplicates() && forall|id: u64|
        words.contains(id) ==> #[trigger] map.contains_key(id) {
        assert forall|i: int| 0 <= i < batch.len() implies map.contains_key(
            (#[trigger] batch[i]).user_data,
        ) by {
            assert(words[i] == batch[i].user_data);
            assert(words.contains(words[i]));
        }
        assert forall|i: int, j: int| 0 <= i < j < batch.len() implies (
        #[trigger] batch[i]).user_data != (#[trigger] batch[j]).user_data by {
            assert(words[i] != words[j]);
        }
    }
}

/// The completions of some batches, one batch after the other.
pub open spec fn queue_of(batches: Seq<Seq<IoUringCqe>>) -> Seq<IoUringCqe>
    decreases batches.len(),
{
    if batches.len() == 0 {
        Seq::empty()
    } else {
        queue_of(batches.drop_last()) + batches.last()
    }
}

/// The cells that are left after some batches.
pub open spec fn left_after_all<T>(
    map: Map<u64, Rc<T>>,
    batches: Seq<Seq<IoUringCqe>>,
) -> Map<u64, Rc<T>>
    decreases batches.len(),
{
    if batches.len() == 0 {
        map
    } else {
        left_after(left_after_all(map, batches.drop_last()), batches.last())
    }
}

/// What is delivered by some waits, each of which finds a batch with the cells that the earlier
/// ones left.
pub open spec fn delivered_by_all<T>(
    map: Map<u64, Rc<T>>,
    batches: Seq<Seq<IoUringCqe>>,
) -> Seq<Completion<T>>
    decreases batches.len(),
{
    if batches.len() == 0 {
        Seq::empty()
    } else {
        delivered_by_all(map, batches.drop_last()) + completions_of(
            left_after_all(map, batches.drop_last()),
            batches.last(),
        )
    }
}

/// Whether each batch can be delivered with the cells that the earlier ones left.
pub open spec fn each_deliverable<T>(
    map: Map<u64, Rc<T>>,
    batches: Seq<Seq<IoUringCqe>>,
) -> bool
    decreases batches.len(),
{
    batches.len() > 0 ==> {
        &&& each_deliverable(map, batches.drop_last())
        &&& deliverable(left_after_all(map, batches.drop_last()), batches.last())
    }
}

/// Two batches leave what one batch of both leaves.
proof fn two_batches_leave_what_one_leaves<T>(
    map: Map<u64, Rc<T>>,
    first: Seq<IoUringCqe>,
    second: Seq<IoUringCqe>,
)
    ensures
        left_after(left_after(map, first), second) == left_after(map, first + second),
    decreases second.len(),
{
    let both = first + second;
    if second.len() == 0 {
        assert(both =~= first);
    } else {
        two_batches_leave_what_one_leaves(map, first, second.drop_last());
        assert(both.drop_last() =~= first + second.drop_last());
        assert(both.last() == second.last());
    }
}

/// A batch can be delivered after another exactly if, with the other deliverable, both can be
/// delivered as one; and what it delivers then is the same.
proof fn batch_after_another<T>(
    map: Map<u64, Rc<T>>,
    first: Seq<IoUringCqe>,
    second: Seq<IoUringCqe>,
)
    ensures
        deliverable(map, first) && deliverable(left_after(map, first), second) <==> deliverable(
            map,
            first + second,
        ),
        deliverable(map, first + second) ==> completions_of(map, first) + completions_of(
            left_after(map, first),
            second,
        ) == completions_of(map, first + second),
{
    let both = first + second;
    let left = left_after(map, first);
    assert(forall|i: int| 0 <= i < first.len() ==> #[trigger] both[i] == first[i]);
    assert(forall|i: int| 0 <= i < second.len() ==> #[trigger] both[first.len() + i] == second[i]);
    assert forall|i: int| 0 <= i < second.len() implies (left.contains_key(
        (#[trigger] second[i]).user_data,
    ) <==> map.contains_key(second[i].user_data) && forall|k: int|
        0 <= k < first.len() ==> (#[trigger] first[k]).user_data != second[i].user_data) && (
    left.contains_key(second[i].user_data) ==> left[second[i].user_data]
        == map[second[i].user_data]) by {
        batch_takes_out_its_requests(map, first, second[i].user_data);
    }
    if deliverable(map, both) {
        assert forall|i: int| 0 <= i < first.len() implies map.contains_key(
            (#[trigger] first[i]).user_data,
        ) by {
            assert(both[i] == first[i]);
        }
        assert forall|i: int, j: int| 0 <= i < j < first.len() implies (
        #[trigger] first[i]).user_data != (#[trigger] first[j]).user_data by {
            assert(both[i] == first[i] && both[j] == first[j]);
        }
        assert forall|i: int| 0 <= i < second.len() implies left.contains_key(
            (#[trigger] second[i]).user_data,
        ) by {
            assert(both[first.len() + i] == second[i]);
            assert forall|k: int| 0 <= k < first.len() implies (#[trigger] first[k]).user_data
                != second[i].user_data by {
                assert(both[k] == first[k]);
            }
        }
        assert forall|i: int, j: int| 0 <= i < j < second.len() implies (
        #[trigger] second[i]).user_data != (#[trigger] second[j]).user_data by {
            assert(both[first.len() + i] == second[i] && both[first.len() + j] == second[j]);
        }
        assert(completions_of(map, first) + completions_of(left, second) =~= completions_of(
            map,
            both,
        ));
    }
    if deliverable(map, first) && deliverable(left, second) {
        assert forall|i: int| 0 <= i < both.len() implies map.contains_key(
            (#[trigger] both[i]).user_data,
        ) by {
            if i < first.len() {
                assert(both[i] == first[i]);
            } else {
                assert(both[i] == second[i - first.len()]);
            }
        }
        assert forall|i: int, j: int| 0 <= i < j < both.len() implies (
        #[trigger] both[i]).user_data != (#[trigger] both[j]).user_data by {
            if j < first.len() {
                assert(both[i] == first[i] && both[j] == first[j]);
            } else if i < first.len() {
                assert(both[i] == first[i] && both[j] == second[j - first.len()]);
            } else {
                assert(both[i] == second[i - first.len()] && both[j] == second[j - first.len()]);
            }
        }
    }
}

/// Repeated waits deliver the queue of completions, each one exactly once and in order, however the
/// queue is cut into batches: what they deliver is what one batch of the whole queue would, and so
/// are the cells that they leave. Every wait can go on with its batch exactly if each completion of
/// the queue belongs to a registered request, no two to the same.
pub proof fn repeated_waits_deliver_the_queue<T>(
    map: Map<u64, Rc<T>>,
    batches: Seq<Seq<IoUringCqe>>,
)
    ensures
        each_deliverable(map, batches) <==> deliverable(map, queue_of(batches)),
        deliverable(map, queue_of(batches)) ==> delivered_by_all(map, batches) == completions_of(
            map,
            queue_of(batches),
        ),
        left_after_all(map, batches) == left_after(map, queue_of(batches)),
    decreases batches.len(),
{
    if batches.len() == 0 {
        assert(delivered_by_all(map, batches) =~= completions_of(map, queue_of(batches)));
    } else {
        let earlier = batches.drop_last();
        repeated_waits_deliver_the_queue(map, earlier);
        two_batches_leave_what_one_leaves(map, queue_of(earlier), batches.last());
        batch_after_another(map, queue_of(earlier), batches.last());
    }
}

/// The batches that waits find which look at `room` completions of a queue at most, each of them
/// taking what it found off the queue.
pub open spec fn cut_into_batches(queue: Seq<IoUringCqe>, room: u32) -> Seq<Seq<IoUringCqe>>
    decreases queue.len(),
{
    if queue.len() == 0 || room == 0 {
        Seq::empty()
    } else if queue.len() <= room {
        seq![queue]
    } else {
        seq![queue.take(room as int)] + cut_into_batches(queue.skip(room as int), room)
    }
}

/// What one wait has no room for is left for the next: waits that look at a limited number of
/// completions each, and take those off the queue, find every completion of the queue once and in
/// order, and none of them finds more than it has room for.
pub proof fn limited_waits_find_the_whole_queue(queue: Seq<IoUringCqe>, room: u32)
    requires
        room > 0,
    ensures
        queue_of(cut_into_batches(queue, room)) == queue,
        forall|i: int|
            0 <= i < cut_into_batches(queue, room).len() ==> 0 < (#[trigger] cut_into_batches(
                queue,
                room,
            )[i]).len() <= room,
    decreases queue.len(),
{
    let batches = cut_into_batches(queue, room);
    if queue.len() == 0 {
        assert(queue =~= Seq::empty());
    } else if queue.len() <= room {
        first_batch_comes_first(queue, Seq::empty());
        assert(batches =~= seq![queue] + Seq::<Seq<IoUringCqe>>::empty());
        assert(queue_of(batches) =~= queue);
    } else {
        let first = queue.take(room as int);
        let rest = queue.skip(room as int);
        limited_waits_find_the_whole_queue(rest, room);
        first_batch_comes_first(first, cut_into_batches(rest, room));
        assert(first + rest =~= queue);
        assert forall|i: int| 0 <= i < batches.len() implies 0 < (#[trigger] batches[i]).len()
            <= room by {
            if i > 0 {
                assert(batches[i] == cut_into_batches(rest, room)[i - 1]);
            }
        }
    }
}

/// The first batch stands first in the queue.
proof fn first_batch_comes_first(first: Seq<IoUringCqe>, rest: Seq<Seq<IoUringCqe>>)
    ensures
        queue_of(seq![first] + rest) == first + queue_of(rest),
    decreases rest.len(),
{
    let all = seq![first] + rest;
    if rest.len() == 0 {
        assert(all.drop_last() =~= Seq::<Seq<IoUringCqe>>::empty());
        assert(all.last() == first);
        assert(queue_of(all.drop_last()) =~= Seq::<IoUringCqe>::empty());
        assert(queue_of(all) =~= first + queue_of(rest));
    } else {
        first_batch_comes_first(first, rest.drop_last());
        assert(all.drop_last() =~= seq![first] + rest.drop_last());
        assert(all.last() == rest.last());
        assert(queue_of(all) =~= first + queue_of(rest));
    }
}

/// Waits that look at a limited number of completions each deliver the whole queue, each completion
/// exactly once and in order, and none of them fails: from a queue whose completions belong to
/// registered requests, no two to the same, every wait can go on with the batch that it finds.
pub proof fn limited_waits_deliver_the_queue<T>(
    map: Map<u64, Rc<T>>,
    queue: Seq<IoUringCqe>,
    room: u32,
)
    requires
        room > 0,
        deliverable(map, queue),
    ensures
        each_deliverable(map, cut_into_batches(queue, room)),
        delivered_by_all(map, cut_into_batches(queue, room)) == completions_of(map, queue),
        left_after_all(map, cut_into_batches(queue, room)) == left_after(map, queue),
{
    limited_waits_find_the_whole_queue(queue, room);
    repeated_waits_deliver_the_queue(map, cut_into_batches(queue, room));
}

/// Whether a wait can go on from an event, with these cells registered.
pub open spec fn can_wait<T>(map: Map<u64, Rc<T>>, event: WaitEvent) -> bool {
    match event {
        WaitEvent::Begin(_) => true,
        WaitEvent::Submitted { res, .. } => res > i32::MIN,
        WaitEvent::Peeked { room, batch, .. } => batch@.len() <= room && deliverable(map, batch@),
    }
}

/// What happened since the search for a submission entry last said what to do.
#[derive(Debug, Clone, Copy, PartialEq, Eq, Structural)]
pub enum SqeEvent {
    /// Nothing: the search begins.
    Begin,
    /// An entry was fetched: whether the queue had a free one.
    Fetched(bool),
    /// What was queued was submitted, with this result.
    Submitted(i32),
}

/// What is to be done next to get a submission entry.
#[derive(Debug, Clone, Copy)]
pub enum SqeAction<'a> {
    /// Fetch an entry.
    Fetch,
    /// Submit what is queued.
    Submit,
    /// The fetched entry is the caller's, marked like this.
    Fill(Sqe<'a>),
}

/// Whether the search for a submission entry can go on from an event.
pub open spec fn can_get_sqe(event: SqeEvent) -> bool {
    event matches SqeEvent::Submitted(res) ==> res >= 0
}

/// What is done after an event to get a submission entry, if `next` is the next identifier.
pub open spec fn sqe_action<'a>(next: u64, event: SqeEvent) -> SqeAction<'a> {
    match event {
        SqeEvent::Begin => SqeAction::Fetch,
        SqeEvent::Fetched(free) => if free {
            SqeAction::Fill(Sqe { user_data: next, prep: None })
        } else {
            SqeAction::Submit
        },
        SqeEvent::Submitted(_) => SqeAction::Fetch,
    }
}

/// The next identifier after an event: one is taken for a free entry, and for nothing else.
pub open spec fn next_id_after(next: u64, event: SqeEvent) -> u64 {
    if event == SqeEvent::Fetched(true) {
        ((next + 1) % task_id_count()) as u64
    } else {
        next
    }
}

/// The events of a search that finds no free entry as often as there are results of submissions,
/// up to the next fetch.
pub open spec fn events_while_full(results: Seq<i32>) -> Seq<SqeEvent>
    decreases results.len(),
{
    if results.len() == 0 {
        seq![SqeEvent::Begin]
    } else {
        events_while_full(results.drop_last()).push(SqeEvent::Fetched(false)).push(
            SqeEvent::Submitted(results.last()),
        )
    }
}

/// A fetch, and then as many submissions as given, each followed by another fetch.
pub open spec fn fetches_and_submissions(n: nat) -> Seq<SqeAction<'static>>
    decreases n,
{
    if n == 0 {
        seq![SqeAction::Fetch]
    } else {
        fetches_and_submissions((n - 1) as nat).push(SqeAction::Submit).push(SqeAction::Fetch)
    }
}

/// The next identifier after some events.
pub open spec fn next_id_after_all(next: u64, events: Seq<SqeEvent>) -> u64
    decreases events.len(),
{
    if events.len() == 0 {
        next
    } else {
        next_id_after(next_id_after_all(next, events.drop_last()), events.last())
    }
}

/// What is done after each of some events.
pub open spec fn sqe_actions(next: u64, events: Seq<SqeEvent>) -> Seq<SqeAction<'static>>
    decreases events.len(),
{
    if events.len() == 0 {
        Seq::empty()
    } else {
        sqe_actions(next, events.drop_last()).push(
            sqe_action(next_id_after_all(next, events.drop_last()), events.last()),
        )
    }
}

/// While the submission queue is full, what is queued is submitted and an entry is fetched again,
/// until one is free; that one gets the identifier that was next at the beginning. If an entry is
/// free at once nothing is submitted. The search goes on after every submission that succeeds, and
/// cannot go on after one that fails.
pub proof fn full_queue_is_submitted_until_an_entry_is_free(next: u64, results: Seq<i32>)
    ensures
        ({
            let events = events_while_full(results).push(SqeEvent::Fetched(true));
            &&& sqe_actions(next, events) == fetches_and_submissions(results.len()).push(
                SqeAction::Fill(Sqe { user_data: next, prep: None }),
            )
            &&& next_id_after_all(next, events) == (next + 1) % task_id_count()
            &&& (forall|i: int| 0 <= i < events.len() ==> can_get_sqe(#[trigger] events[i]))
                <==> (forall|i: int| 0 <= i < results.len() ==> #[trigger] results[i] >= 0)
        }),
{
    let before = events_while_full(results);
    let events = before.push(SqeEvent::Fetched(true));
    full_queue_takes_no_identifier(next, results);
    assert(events.drop_last() =~= before);
    assert(sqe_actions(next, events) == sqe_actions(next, before).push(
        sqe_action(next, SqeEvent::Fetched(true)),
    ));
    let all_go_on = forall|i: int| 0 <= i < before.len() ==> can_get_sqe(#[trigger] before[i]);
    if all_go_on {
        assert forall|i: int| 0 <= i < events.len() implies can_get_sqe(#[trigger] events[i]) by {
            if i < before.len() {
                assert(events[i] == before[i]);
            }
        }
    }
    if forall|i: int| 0 <= i < events.len() ==> can_get_sqe(#[trigger] events[i]) {
        assert forall|i: int| 0 <= i < before.len() implies can_get_sqe(#[trigger] before[i]) by {
            assert(events[i] == before[i]);
        }
    }
}

/// A search takes no identifier while there is no free entry.
proof fn full_queue_takes_no_identifier(next: u64, results: Seq<i32>)
    ensures
        sqe_actions(next, events_while_full(results)) == fetches_and_submissions(results.len()),
        next_id_after_all(next, events_while_full(results)) == next,
        (forall|i: int|
            0 <= i < events_while_full(results).len() ==> can_get_sqe(
                #[trigger] events_while_full(results)[i],
            )) <==> (forall|i: int| 0 <= i < results.len() ==> #[trigger] results[i] >= 0),
    decreases results.len(),
{
    let events = events_while_full(results);
    if results.len() == 0 {
        assert(events.drop_last() =~= Seq::<SqeEvent>::empty());
        reveal_with_fuel(sqe_actions, 2);
        reveal_with_fuel(next_id_after_all, 2);
        assert(sqe_actions(next, events) =~= fetches_and_submissions(0));
    } else {
        let fewer = results.drop_last();
        let earlier = events_while_full(fewer);
        let fetched = earlier.push(SqeEvent::Fetched(false));
        full_queue_takes_no_identifier(next, fewer);
        assert(events.drop_last() =~= fetched);
        assert(fetched.drop_last() =~= earlier);
        assert(events[events.len() - 1] == SqeEvent::Submitted(results.last()));
        assert(events[events.len() - 2] == SqeEvent::Fetched(false));
        assert(forall|i: int| 0 <= i < earlier.len() ==> #[trigger] events[i] == earlier[i]);
        assert(forall|i: int| 0 <= i < fewer.len() ==> #[trigger] results[i] == fewer[i]);
        assert(results.last() == results[results.len() - 1]);
        assert(next_id_after_all(next, fetched) == next);
        assert(next_id_after_all(next, events) == next);
        assert(sqe_actions(next, fetched) == sqe_actions(next, earlier).push(SqeAction::Submit));
        assert(sqe_actions(next, events) == sqe_actions(next, fetched).push(SqeAction::Fetch));
        let all_go_on = forall|i: int| 0 <= i < events.len() ==> can_get_sqe(#[trigger] events[i]);
        if all_go_on {
            assert forall|i: int| 0 <= i < earlier.len() implies can_get_sqe(
                #[trigger] earlier[i],
            ) by {
                assert(can_get_sqe(events[i]));
            }
            assert(can_get_sqe(events[events.len() - 1]));
            assert forall|i: int| 0 <= i < results.len() implies #[trigger] results[i] >= 0 by {
                if i < fewer.len() {
                    assert(fewer[i] >= 0);
                }
            }
        }
        if forall|i: int| 0 <= i < results.len() ==> #[trigger] results[i] >= 0 {
            assert forall|i: int| 0 <= i < fewer.len() implies #[trigger] fewer[i] >= 0 by {
                assert(results[i] >= 0);
            }
            assert forall|i: int| 0 <= i < events.len() implies can_get_sqe(
                #[trigger] events[i],
            ) by {
                if i < earlier.len() {
                    assert(can_get_sqe(earlier[i]));
                }
            }
        }
    }
}

/// The requests whose completions have not arrived, each with a cell of type `T` through which
/// its future learns of the completion.
#[derive(Debug)]
pub struct Ring<T> {
    sqe_map: HashMap<u64, Rc<T>>,
}

impl<T> View for Ring<T> {
    type V = Map<u64, Rc<T>>;

    closed spec fn view(&self) -> Map<u64, Rc<T>> {
        self.sqe_map@
    }
}

/// The parameters with which the kernel is asked to set a ring up. The reserved words and the
/// offsets, which are zero in every request, are left out.
#[derive(Debug, Clone, Copy, PartialEq, Eq, Hash, Structural)]
pub struct RingParams {
    pub sq_entries: u32,
    pub cq_entries: u32,
    pub flags: u32,
    pub sq_thread_cpu: u32,
    pub sq_thread_idle: u32,
    pub features: u32,
    pub wq_fd: u32,
}

/// What happened since the set-up of a ring last said what to do.
#[derive(Debug, Clone, Copy, PartialEq, Eq, Structural)]
pub enum SetupEvent {
    /// Nothing: the set-up begins.
    Begin,
    /// The kernel returned this result and, if it is zero, reported these features.
    Initialized { res: i32, features: u32 },
}

/// What is to be done next to set a ring up.
pub enum SetupAction<T> {
    /// Ask the kernel for a ring with this many entries and these parameters.
    Initialize { entries: u32, params: RingParams },
    /// The set-up returns this.
    Return(Result<Ring<T>, Errno>),
}

/// The parameters that are zero but for the flags.
pub open spec fn params_with_flags(flags: u32) -> RingParams {
    RingParams {
        sq_entries: 0,
        cq_entries: 0,
        flags,
        sq_thread_cpu: 0,
        sq_thread_idle: 0,
        features: 0,
        wq_fd: 0,
    }
}

/// Whether the set-up of a ring can go on from an event: a result can be negated, and a kernel that
/// sets a ring up lets go of a request's data once the request is submitted.
pub open spec fn can_set_up(event: SetupEvent) -> bool {
    event matches SetupEvent::Initialized { res, features } ==> {
        &&& res > i32::MIN
        &&& res == 0 ==> features & IORING_FEAT_SUBMIT_STABLE != 0
    }
}

/// Whether the kernel lets go of a request's data once the request is submitted. A ring is only
/// used on such a kernel.
pub fn supports_submit_stable(features: u32) -> (stable: bool)
    ensures
        stable == (features & IORING_FEAT_SUBMIT_STABLE != 0),
        stable <==> (features / 4) % 2 == 1,
{
    assert(features & 4 != 0 <==> (features / 4) % 2 == 1) by (bit_vector);
    (features & IORING_FEAT_SUBMIT_STABLE) != 0
}

impl<T> Ring<T> {
    /// Whether the set-up can go on from this event: a result can be negated, and a kernel that sets
    /// a ring up lets go of a request's data once the request is submitted.
    pub fn can_set_up(event: &SetupEvent) -> (possible: bool)
        ensures
            possible == can_set_up(*event),
            *event is Begin ==> possible,
            *event matches SetupEvent::Initialized { res, features } ==> (possible <==> res
                > i32::MIN && (res != 0 || (features / 4) % 2 == 1)),
    {
        match event {
            SetupEvent::Begin => true,
            SetupEvent::Initialized { res, features } => *res > i32::MIN && (*res != 0
                || supports_submit_stable(*features)),
        }
    }

    /// One step of setting a ring up. The kernel is asked once, for `entries` entries and with these
    /// flags; a result other than zero is an error. The new ring has room for `entries` requests to
    /// begin with.
    pub fn new(entries: u32, flags: u32, event: SetupEvent) -> (action: SetupAction<T>)
        requires
            can_set_up(event),
        ensures
            event is Begin ==> {
                &&& action matches SetupAction::Initialize { entries: asked, params }
                &&& asked == entries
                &&& params.flags == flags
                &&& params.sq_entries == 0 && params.cq_entries == 0
                &&& params.sq_thread_cpu == 0 && params.sq_thread_idle == 0
                &&& params.features == 0 && params.wq_fd == 0
            },
            match event {
                SetupEvent::Begin => action == (SetupAction::<T>::Initialize {
                    entries,
                    params: params_with_flags(flags),
                }),
                SetupEvent::Initialized { res, .. } => {
                    &&& action matches SetupAction::Return(r)
                    &&& r is Ok <==> res == 0
                    &&& r matches Ok(ring) ==> ring@ == Map::<u64, Rc<T>>::empty()
                    &&& r matches Err(e) ==> e.code == -res
                },
            },
    {
        match event {
            SetupEvent::Begin => SetupAction::Initialize {
                entries,
                params: RingParams {
                    sq_entries: 0,
                    cq_entries: 0,
                    flags,
                    sq_thread_cpu: 0,
                    sq_thread_idle: 0,
                    features: 0,
                    wq_fd: 0,
                },
            },
            SetupEvent::Initialized { res, .. } => {
                if res != 0 {
                    return SetupAction::Return(Err(Errno::from_result(res)));
                }
                SetupAction::Return(Ok(Ring { sqe_map: HashMap::with_capacity(entries as usize) }))
            },
        }
    }

    /// Registers a cell for the completion of a request.
    pub fn register_task(&mut self, task: Task, sqe: Rc<T>)
        ensures
            final(self)@ == old(self)@.insert(task.id(), sqe),
    {
        self.sqe_map.insert(task.into_id(), sqe);
    }

    /// Whether the search for a submission entry can go on from this event: a submission did not
    /// fail.
    pub fn can_get_sqe(&self, event: &SqeEvent) -> (possible: bool)
        ensures
            possible == can_get_sqe(*event),
            possible <==> !(*event matches SqeEvent::Submitted(res) && res < 0),
    {
        match event {
            SqeEvent::Submitted(res) => *res >= 0,
            _ => true,
        }
    }

    /// One step of the search for a submission entry. A free entry is marked with the next
    /// identifier. While there is none, what is queued is submitted and an entry is fetched again.
    pub fn get_sqe<'a>(&self, ids: &mut TaskIds, event: SqeEvent) -> (action: SqeAction<'a>)
        requires
            can_get_sqe(event),
        ensures
            action == sqe_action(old(ids).next(), event),
            final(ids).next() == next_id_after(old(ids).next(), event),
            event is Begin || event is Submitted ==> action is Fetch,
            event == SqeEvent::Fetched(false) ==> action is Submit,
            event == SqeEvent::Fetched(true) ==> {
                &&& action == SqeAction::<'a>::Fill(Sqe { user_data: old(ids).next(), prep: None })
                &&& final(ids).next() == if old(ids).next() == u64::MAX {
                    0
                } else {
                    old(ids).next() + 1
                }
            },
            event != SqeEvent::Fetched(true) ==> final(ids).next() == old(ids).next(),
    {
        match event {
            SqeEvent::Begin => SqeAction::Fetch,
            SqeEvent::Fetched(free) => {
                if free {
                    let task_id: u64 = get_next_task_id(ids).into_id();
                    SqeAction::Fill(Sqe { user_data: task_id, prep: None })
                } else {
                    SqeAction::Submit
                }
            },
            SqeEvent::Submitted(_) => SqeAction::Fetch,
        }
    }

    /// What the result of a submission means: how many requests were submitted.
    pub fn submit(&self, res: i32) -> (r: Result<i32, Errno>)
        requires
            res > i32::MIN,
        ensures
            r is Ok <==> res >= 0,
            r matches Ok(n) ==> n == res,
            r matches Err(e) ==> e.code == -res,
    {
        if res >= 0 {
            Ok(res)
        } else {
            Err(Errno::from_result(res))
        }
    }

    /// Whether a wait can go on from this event: a result can be negated, no more completions were
    /// found than there is room for, and each belongs to a registered request, no two to the same.
    pub fn can_wait(&self, event: &WaitEvent) -> (possible: bool)
        ensures
            possible == can_wait(self@, *event),
            *event is Begin ==> possible,
            *event matches WaitEvent::Submitted { res, .. } ==> (possible <==> res > i32::MIN),
            *event matches WaitEvent::Peeked { room, batch, .. } ==> (possible <==> {
                &&& batch@.len() <= room
                &&& forall|i: int|
                    0 <= i < batch@.len() ==> self@.contains_key((#[trigger] batch@[i]).user_data)
                &&& forall|i: int, j: int|
                    0 <= i < j < batch@.len() ==> (#[trigger] batch@[i]).user_data != (
                    #[trigger] batch@[j]).user_data
            }),
    {
        match event {
            WaitEvent::Begin(_) => true,
            WaitEvent::Submitted { res, .. } => *res > i32::MIN,
            WaitEvent::Peeked { room, batch, .. } => {
                if batch.len() > *room as usize {
                    return false;
                }
                let mut seen: HashSet<u64> = HashSet::new();
                let mut i: usize = 0;
                while i < batch.len()
                    invariant
                        i <= batch@.len(),
                        *event matches WaitEvent::Peeked { batch: b, .. } && b == batch,
                        deliverable(self@, batch@.take(i as int)),
                        forall|id: u64|
                            seen@.contains(id) <==> exists|k: int|
                                0 <= k < i && (#[trigger] batch@[k]).user_data == id,
                    decreases batch@.len() - i,
                {
                    let id: u64 = batch[i].user_data;
                    if !self.sqe_map.contains_key(&id) || seen.contains(&id) {
                        assert(!can_wait(self@, *event)) by {
                            assert(batch@[i as int].user_data == id);
                        }
                        return false;
                    }
                    seen.insert(id);
                    assert forall|other: u64|
                        seen@.contains(other) <==> exists|k: int|
                            0 <= k < i + 1 && (#[trigger] batch@[k]).user_data == other by {
                        assert(batch@[i as int].user_data == id);
                    }
                    i = i + 1;
                }
                assert(batch@.take(i as int) =~= batch@);
                true
            },
        }
    }

    /// One step of submitting what is queued and waiting for a completion, no longer than a
    /// limit. A failed submission ends the wait with its error. Otherwise every completion that
    /// is there and for which there is room is handed to the cell that was registered for its
    /// request, which is then no longer registered.
    pub fn submit_and_wait_timeout(&mut self, event: WaitEvent) -> (action: WaitAction<T>)
        requires
            can_wait(old(self)@, event),
        ensures
            match event {
                WaitEvent::Begin(timeout) => {
                    &&& final(self)@ == old(self)@
                    &&& action matches WaitAction::Submit { wait_nr, ts }
                    &&& wait_nr == 1
                    &&& ts is Some <==> timeout is Some
                    &&& timeout matches Some(t) ==> {
                        &&& ts->0.tv_sec == kernel_secs(t.secs)
                        &&& ts->0.tv_nsec == t.nanos
                    }
                },
                WaitEvent::Submitted { res, room } => {
                    &&& final(self)@ == old(self)@
                    &&& action == if res < 0 {
                        WaitAction::<T>::Fail(Errno { code: -res as i32 })
                    } else {
                        WaitAction::<T>::Peek { result: res, max: room }
                    }
                },
                WaitEvent::Peeked { res, batch, .. } => {
                    &&& final(self)@ == left_after(old(self)@, batch@)
                    &&& forall|id: u64| #[trigger]
                        final(self)@.contains_key(id) <==> old(self)@.contains_key(id) && forall|
                            i: int,
                        |
                            0 <= i < batch@.len() ==> (#[trigger] batch@[i]).user_data != id
                    &&& forall|id: u64| #[trigger]
                        final(self)@.contains_key(id) ==> final(self)@[id] == old(self)@[id]
                    &&& action matches WaitAction::Deliver { completions, advance, result }
                    &&& completions@ == completions_of(old(self)@, batch@)
                    &&& completions@.len() == batch@.len()
                    &&& forall|i: int|
                        0 <= i < batch@.len() ==> {
                            &&& (#[trigger] completions@[i]).shared == old(
                                self,
                            )@[batch@[i].user_data]
                            &&& completions@[i].cqe.res == batch@[i].res
                            &&& completions@[i].cqe.flags@ == batch@[i].flags
                        }
                    &&& advance == batch@.len()
                    &&& result == res
                },
            },
    {
        match event {
            WaitEvent::Begin(timeout) => {
                let ts = match timeout {
                    Some(d) => {
                        let secs: u64 = d.secs;
                        assert(secs <= i64::MAX ==> secs as i64 == secs) by (bit_vector);
                        assert(secs > i64::MAX ==> secs as i64 == secs - 0x1_0000_0000_0000_0000)
                            by (bit_vector);
                        Some(KernelTimespec {
                            tv_sec: #[verifier::truncate] (secs as i64),
                            tv_nsec: d.nanos as i64,
                        })
                    },
                    None => None,
                };
                WaitAction::Submit { wait_nr: 1, ts }
            },
            WaitEvent::Submitted { res, room } => {
                if res < 0 {
                    return WaitAction::Fail(Errno::from_result(res));
                }
                WaitAction::Peek { result: res, max: room }
            },
            WaitEvent::Peeked { res, batch, .. } => {
                let mut completions: Vec<Completion<T>> = Vec::new();
                let nfilled: usize = batch.len();
                let mut i: usize = 0;
                while i < nfilled
                    invariant
                        i <= nfilled == batch@.len(),
                        deliverable(old(self)@, batch@),
                        self@ == left_after(old(self)@, batch@.take(i as int)),
                        completions@ == completions_of(old(self)@, batch@.take(i as int)),
                    decreases nfilled - i,
                {
                    let cqe: IoUringCqe = batch[i];
                    proof {
                        let done = batch@.take(i as int);
                        batch_takes_out_its_requests(old(self)@, done, cqe.user_data);
                        assert(batch@.take(i + 1).drop_last() =~= done);
                        assert forall|k: int| 0 <= k < done.len() implies (
                        #[trigger] done[k]).user_data != cqe.user_data by {
                            assert(done[k] == batch@[k]);
                            assert(cqe == batch@[i as int]);
                        }
                    }
                    let stripped = StrippedCqe::from(&cqe);
                    let shared = self.sqe_map.remove(&cqe.user_data).unwrap();
                    completions.push(Completion { shared, cqe: stripped });
                    i = i + 1;
                }
                proof {
                    assert(batch@.take(i as int) =~= batch@);
                    assert forall|id: u64| #[trigger]
                        self@.contains_key(id) <==> old(self)@.contains_key(id) && forall|k: int|
                            0 <= k < batch@.len() ==> (#[trigger] batch@[k]).user_data != id by {
                        batch_takes_out_its_requests(old(self)@, batch@, id);
                    }
                    assert forall|id: u64| #[trigger] self@.contains_key(id) implies self@[id]
                        == old(self)@[id] by {
                        batch_takes_out_its_requests(old(self)@, batch@, id);
                    }
                    assert forall|k: int| 0 <= k < batch@.len() implies (
                    #[trigger] completions@[k]).cqe.res == batch@[k].res
                        && completions@[k].cqe.flags@ == batch@[k].flags by {
                        stripping_keeps_result_and_flags_word(batch@[k], batch@[k]);
                    }
                }
                WaitAction::Deliver { completions, advance: nfilled as u32, result: res }
            },
        }
    }
}

} // verus!
