//! The executor: which task is polled next, and when there is nothing left to do.

use vstd::prelude::*;
use std::collections::{HashMap, VecDeque};

use crate::abi::ETIME;
use crate::errno::Errno;
use crate::ring::Timeout;
use crate::task::{get_next_task_id, task_id_count, Task, TaskIds};

verus! {

broadcast use vstd::std_specs::hash::group_hash_axioms;

/// What an executor holds: the futures that are not finished, by task identifier, and the
/// identifiers of the tasks that are due, the next one first.
pub ghost struct ExecutorView<F> {
    pub future_map: Map<u64, F>,
    pub task_queue: Seq<u64>,
}

/// What happened since the executor last said what to do.
pub enum RunEvent<F> {
    /// Nothing: the run begins.
    Start,
    /// The polled future is finished and gone.
    Finished,
    /// The polled future, given back with its task's identifier, is not finished.
    Pending(u64, F),
    /// The wait for completions ended with this result.
    Waited(Result<i32, Errno>),
}

/// What is to be done next.
pub enum RunAction<F> {
    /// The run is over.
    Return,
    /// Poll the future, which belongs to the task with this identifier.
    Poll(u64, F),
    /// Submit what is queued and wait for a completion, no longer than this.
    Wait(Timeout),
}

/// The longest that the executor waits for a completion.
pub open spec fn wait_limit() -> Timeout {
    Timeout { secs: 1, nanos: 0 }
}

impl<F> RunEvent<F> {
    /// Whether a round begins with this event: the drained queue is behind it.
    pub open spec fn begins_round(self) -> bool {
        self is Start || self is Waited
    }

    /// Whether a wait failed for another reason than that its time ran out.
    pub open spec fn wait_failed(self) -> bool {
        self matches RunEvent::Waited(Err(e)) && e.code != ETIME
    }
}

impl<F> ExecutorView<F> {
    /// An executor with no futures and nothing due.
    pub open spec fn empty() -> Self {
        ExecutorView { future_map: Map::empty(), task_queue: Seq::empty() }
    }

    /// Whether there are neither futures nor due tasks.
    pub open spec fn is_idle(self) -> bool {
        &&& forall|id: u64| !#[trigger] self.future_map.contains_key(id)
        &&& self.task_queue.len() == 0
    }

    /// A task becomes due, after those that already are.
    pub open spec fn wake(self, id: u64) -> Self {
        ExecutorView { task_queue: self.task_queue.push(id), ..self }
    }

    /// A new task gets its future and becomes due.
    pub open spec fn spawn(self, id: u64, future: F) -> Self {
        ExecutorView {
            future_map: self.future_map.insert(id, future),
            task_queue: self.task_queue.push(id),
        }
    }

    /// An unfinished future that was given back is held again.
    pub open spec fn settle(self, event: RunEvent<F>) -> Self {
        match event {
            RunEvent::Pending(id, future) => ExecutorView {
                future_map: self.future_map.insert(id, future),
                ..self
            },
            _ => self,
        }
    }

    /// Whether the run is over with this event.
    pub open spec fn ends(self, event: RunEvent<F>) -> bool {
        event.begins_round() && self.is_idle()
    }

    /// Whether the run can go on from this event: a wait did not fail, and the task that is due
    /// first has a future.
    pub open spec fn can_run(self, event: RunEvent<F>) -> bool {
        let settled = self.settle(event);
        &&& !event.wait_failed()
        &&& settled.task_queue.len() > 0 ==> settled.future_map.contains_key(settled.task_queue[0])
    }

    /// What is done after the event.
    pub open spec fn action(self, event: RunEvent<F>) -> RunAction<F> {
        let settled = self.settle(event);
        if self.ends(event) {
            RunAction::Return
        } else if settled.task_queue.len() > 0 {
            RunAction::Poll(settled.task_queue[0], settled.future_map[settled.task_queue[0]])
        } else {
            RunAction::Wait(wait_limit())
        }
    }

    /// What the executor holds after the event: a future that is polled is handed out, and its
    /// task is no longer due.
    pub open spec fn run(self, event: RunEvent<F>) -> Self {
        let settled = self.settle(event);
        if settled.task_queue.len() > 0 {
            ExecutorView {
                future_map: settled.future_map.remove(settled.task_queue[0]),
                task_queue: settled.task_queue.skip(1),
            }
        } else {
            settled
        }
    }

    /// Whether every due task has a future, apart from the one with identifier `polled`, whose
    /// future is handed out.
    pub open spec fn due_are_held_but(self, polled: u64) -> bool {
        forall|i: int|
            0 <= i < self.task_queue.len() ==> #[trigger] self.task_queue[i] == polled
                || self.future_map.contains_key(self.task_queue[i])
    }

    /// Whether every due task has a future.
    pub open spec fn due_are_held(self) -> bool {
        forall|i: int|
            0 <= i < self.task_queue.len() ==> self.future_map.contains_key(
                #[trigger] self.task_queue[i],
            )
    }
}

/// Holds the futures of type `F` and decides when each is polled.
pub struct Executor<F> {
    future_map: HashMap<u64, F>,
    task_queue: VecDeque<u64>,
}

impl<F> View for Executor<F> {
    type V = ExecutorView<F>;

    closed spec fn view(&self) -> ExecutorView<F> {
        ExecutorView { future_map: self.future_map@, task_queue: self.task_queue@ }
    }
}

impl<F> Executor<F> {
    /// An executor with room for `entries` tasks to begin with.
    pub fn new(entries: u32) -> (r: Result<Self, Errno>)
        ensures
            r matches Ok(exec) && exec@ == ExecutorView::<F>::empty(),
            r matches Ok(exec) && exec@.future_map == Map::<u64, F>::empty(),
            r matches Ok(exec) && exec@.task_queue == Seq::<u64>::empty(),
    {
        let future_map: HashMap<u64, F> = HashMap::with_capacity(entries as usize);
        let task_queue: VecDeque<u64> = VecDeque::with_capacity(entries as usize);
        let exec = Executor { future_map, task_queue };
        assert(exec@.future_map =~= Map::<u64, F>::empty());
        assert(exec@.task_queue =~= Seq::<u64>::empty());
        Ok(exec)
    }

    /// Makes a task due, after those that already are.
    pub fn wake(&mut self, task: Task)
        ensures
            final(self)@ == old(self)@.wake(task.id()),
            final(self)@.task_queue == old(self)@.task_queue.push(task.id()),
            final(self)@.future_map == old(self)@.future_map,
    {
        self.task_queue.push_back(task.into_id());
    }

    /// Takes on a future as a new task, which is due at once. The task gets the next identifier.
    pub fn spawn(&mut self, ids: &mut TaskIds, future: F)
        ensures
            final(self)@ == old(self)@.spawn(old(ids).next(), future),
            final(self)@.task_queue == old(self)@.task_queue.push(old(ids).next()),
            final(self)@.future_map == old(self)@.future_map.insert(old(ids).next(), future),
            final(ids).next() == (old(ids).next() + 1) % task_id_count(),
    {
        let task = get_next_task_id(ids);
        self.future_map.insert(task.into_id(), future);
        self.task_queue.push_back(task.into_id());
    }

    /// Whether there are neither futures nor due tasks.
    fn should_continue_running(&self) -> (idle: bool)
        ensures
            idle == self@.is_idle(),
    {
        proof {
            if self@.is_idle() {
                assert forall|id: u64| !self.future_map@.dom().contains(id) by {
                    assert(!self@.future_map.contains_key(id));
                }
                assert(self.future_map@.dom() =~= Set::<u64>::empty());
            }
        }
        self.future_map.is_empty() && self.task_queue.len() == 0
    }

    /// Whether the run can go on from this event: a wait did not fail for another reason than
    /// that its time ran out, and the task that is due first has a future.
    pub fn can_run(&self, event: &RunEvent<F>) -> (possible: bool)
        ensures
            possible == self@.can_run(*event),
            possible <==> !(*event matches RunEvent::Waited(Err(e)) && e.code != 62) && (
            self@.task_queue.len() > 0 ==> self@.future_map.contains_key(self@.task_queue[0]) || (
            *event matches RunEvent::Pending(id, _) && id == self@.task_queue[0])),
    {
        if let RunEvent::Waited(Err(e)) = event {
            if e.raw_os_error() != ETIME {
                return false;
            }
        }
        if self.task_queue.len() == 0 {
            return true;
        }
        let first: u64 = self.task_queue[0];
        if let RunEvent::Pending(id, _) = event {
            if *id == first {
                return true;
            }
        }
        self.future_map.contains_key(&first)
    }

    /// One step of the run. A round polls the due tasks in order until none is left and then
    /// waits for completions. Before a round begins the run ends if there is nothing left. A
    /// future that is handed out to be polled is held again only if it is given back.
    pub fn run(&mut self, event: RunEvent<F>) -> (action: RunAction<F>)
        requires
            old(self)@.can_run(event),
        ensures
            action == old(self)@.action(event),
            final(self)@ == old(self)@.run(event),
            action is Return <==> (event is Start || event is Waited)
                && old(self)@.task_queue.len() == 0 && forall|id: u64|
                !#[trigger] old(self)@.future_map.contains_key(id),
            action is Poll <==> old(self)@.task_queue.len() > 0,
            action matches RunAction::Wait(limit) ==> limit.secs == 1 && limit.nanos == 0,
            action matches RunAction::Poll(id, future) ==> {
                &&& id == old(self)@.task_queue[0]
                &&& future == match event {
                    RunEvent::Pending(pending, given) if pending == id => given,
                    _ => old(self)@.future_map[id],
                }
                &&& final(self)@.task_queue == old(self)@.task_queue.skip(1)
                &&& !final(self)@.future_map.contains_key(id)
            },
            action !is Poll ==> final(self)@.task_queue == old(self)@.task_queue,
            forall|id: u64|
                !(action matches RunAction::Poll(polled, _) && polled == id) ==> {
                    &&& #[trigger] final(self)@.future_map.contains_key(id) <==> old(
                        self,
                    )@.future_map.contains_key(id) || (event matches RunEvent::Pending(pending, _)
                        && pending == id)
                    &&& final(self)@.future_map.contains_key(id) ==> final(self)@.future_map[id]
                        == match event {
                        RunEvent::Pending(pending, given) if pending == id => given,
                        _ => old(self)@.future_map[id],
                    }
                },
    {
        match event {
            RunEvent::Start => {
                if self.should_continue_running() {
                    return RunAction::Return;
                }
            },
            RunEvent::Waited(_) => {
                if self.should_continue_running() {
                    return RunAction::Return;
                }
            },
            RunEvent::Pending(task_id, future) => {
                self.future_map.insert(task_id, future);
            },
            RunEvent::Finished => {},
        }
        match self.task_queue.pop_front() {
            None => RunAction::Wait(Timeout { secs: 1, nanos: 0 }),
            Some(task_id) => {
                let future = self.future_map.remove(&task_id).unwrap();
                RunAction::Poll(task_id, future)
            },
        }
    }
}

/// Something that happens to an executor.
pub ghost enum Step<F> {
    /// A task is woken.
    Wake(u64),
    /// A task is spawned.
    Spawn(u64, F),
    /// The run goes on from an event.
    Run(RunEvent<F>),
}

impl<F> ExecutorView<F> {
    /// What the executor holds after a step.
    pub open spec fn step(self, step: Step<F>) -> Self {
        match step {
            Step::Wake(id) => self.wake(id),
            Step::Spawn(id, future) => self.spawn(id, future),
            Step::Run(event) => self.run(event),
        }
    }

    /// What the executor holds after some steps.
    pub open spec fn after(self, steps: Seq<Step<F>>) -> Self
        decreases steps.len(),
    {
        if steps.len() == 0 {
            self
        } else {
            self.after(steps.drop_last()).step(steps.last())
        }
    }
}

/// How many of the steps are steps of the run.
pub open spec fn runs_in<F>(steps: Seq<Step<F>>) -> nat
    decreases steps.len(),
{
    if steps.len() == 0 {
        0
    } else {
        runs_in(steps.drop_last()) + if steps.last() is Run {
            1nat
        } else {
            0
        }
    }
}

/// Whether a step gives the task with this identifier a future.
pub open spec fn gives_future<F>(step: Step<F>, id: u64) -> bool {
    match step {
        Step::Spawn(spawned, _) => spawned == id,
        Step::Run(RunEvent::Pending(pending, _)) => pending == id,
        _ => false,
    }
}

/// The run ends before a round, when no future is held and no task is due, and at no other time.
pub proof fn run_ends_exactly_when_idle<F>(exec: ExecutorView<F>, event: RunEvent<F>)
    ensures
        exec.action(event) is Return <==> event.begins_round() && exec.future_map
            == Map::<u64, F>::empty() && exec.task_queue == Seq::<u64>::empty(),
        exec.action(event) is Return ==> exec.run(event) == exec,
{
    if exec.is_idle() {
        assert(exec.future_map =~= Map::<u64, F>::empty());
    }
    if exec.task_queue.len() == 0 {
        assert(exec.task_queue =~= Seq::<u64>::empty());
    }
}

/// The executor waits for completions only when no task is due.
pub proof fn waits_only_when_nothing_is_due<F>(exec: ExecutorView<F>, event: RunEvent<F>)
    ensures
        exec.action(event) is Wait ==> exec.task_queue.len() == 0,
        exec.task_queue.len() > 0 ==> exec.action(event) is Poll,
{
}

/// Due tasks are polled in the order in which they became due: the task in place `k` of the queue
/// is the one that the run polls after `k` more of its steps, whatever is woken, spawned, finished
/// or given back meanwhile.
pub proof fn due_tasks_are_polled_in_order<F>(
    exec: ExecutorView<F>,
    steps: Seq<Step<F>>,
    event: RunEvent<F>,
)
    requires
        runs_in(steps) < exec.task_queue.len(),
    ensures
        exec.after(steps).action(event) matches RunAction::Poll(id, _)
            && id == exec.task_queue[runs_in(steps) as int],
{
    queue_moves_up(exec, steps);
    let left = exec.task_queue.skip(runs_in(steps) as int);
    assert(left[0] == exec.task_queue[runs_in(steps) as int]);
    assert(left[0] == exec.after(steps).task_queue.take(left.len() as int)[0]);
}

/// After some steps what is left of a queue stands first, with what became due meanwhile behind.
proof fn queue_moves_up<F>(exec: ExecutorView<F>, steps: Seq<Step<F>>)
    requires
        runs_in(steps) <= exec.task_queue.len(),
    ensures
        exec.task_queue.skip(runs_in(steps) as int).is_prefix_of(exec.after(steps).task_queue),
    decreases steps.len(),
{
    if steps.len() > 0 {
        let before = steps.drop_last();
        queue_moves_up(exec, before);
        let left = exec.task_queue.skip(runs_in(before) as int);
        let queue = exec.after(before).task_queue;
        assert(forall|i: int| 0 <= i < left.len() ==> left[i] == queue[i]) by {
            assert(left =~= queue.take(left.len() as int));
        }
        let now = exec.after(steps).task_queue;
        let rest = exec.task_queue.skip(runs_in(steps) as int);
        if steps.last() is Run {
            assert(now =~= queue.skip(1));
            assert(rest =~= left.skip(1));
        } else {
            assert(rest == left);
            assert(now.drop_last() =~= queue);
        }
        assert(rest =~= now.take(rest.len() as int));
    } else {
        assert(exec.task_queue.skip(0) =~= exec.task_queue);
        assert(exec.task_queue.take(exec.task_queue.len() as int) =~= exec.task_queue);
    }
}

/// A due task is polled with the future that is held for it, unless the task is given another
/// future first: with its identifier in place `k` of the queue and in no place before, the run
/// polls that future after `k` more of its steps.
pub proof fn due_task_is_polled_with_its_future<F>(
    exec: ExecutorView<F>,
    steps: Seq<Step<F>>,
    event: RunEvent<F>,
    id: u64,
)
    requires
        runs_in(steps) < exec.task_queue.len(),
        exec.task_queue[runs_in(steps) as int] == id,
        forall|i: int| 0 <= i < runs_in(steps) ==> #[trigger] exec.task_queue[i] != id,
        exec.future_map.contains_key(id),
        forall|i: int| 0 <= i < steps.len() ==> !gives_future(#[trigger] steps[i], id),
        !gives_future(Step::Run(event), id),
    ensures
        exec.after(steps).action(event) == RunAction::Poll(id, exec.future_map[id]),
{
    due_tasks_are_polled_in_order(exec, steps, event);
    future_stays_until_polled(exec, steps, id);
}

/// A future is held until its task is polled or given another one.
proof fn future_stays_until_polled<F>(exec: ExecutorView<F>, steps: Seq<Step<F>>, id: u64)
    requires
        runs_in(steps) <= exec.task_queue.len(),
        forall|i: int| 0 <= i < runs_in(steps) ==> #[trigger] exec.task_queue[i] != id,
        exec.future_map.contains_key(id),
        forall|i: int| 0 <= i < steps.len() ==> !gives_future(#[trigger] steps[i], id),
    ensures
        exec.after(steps).future_map.contains_key(id),
        exec.after(steps).future_map[id] == exec.future_map[id],
    decreases steps.len(),
{
    if steps.len() > 0 {
        let before = steps.drop_last();
        assert(forall|i: int| 0 <= i < before.len() ==> #[trigger] before[i] == steps[i]);
        future_stays_until_polled(exec, before, id);
        assert(!gives_future(steps[steps.len() - 1], id));
        if let Step::Run(event) = steps.last() {
            due_tasks_are_polled_in_order(exec, before, event);
        }
    }
}

/// The run lets go of no future but the one that it hands out to be polled, and changes none: any
/// other task has a future after a step exactly if it had one before or was given one back, and it
/// is that one.
pub proof fn run_keeps_other_futures<F>(exec: ExecutorView<F>, event: RunEvent<F>, id: u64)
    requires
        !(exec.action(event) matches RunAction::Poll(polled, _) && polled == id),
    ensures
        exec.run(event).future_map.contains_key(id) <==> exec.future_map.contains_key(id) || (
        event matches RunEvent::Pending(pending, _) && pending == id),
        exec.run(event).future_map.contains_key(id) ==> exec.run(event).future_map[id]
            == match event {
            RunEvent::Pending(pending, given) if pending == id => given,
            _ => exec.future_map[id],
        },
{
}

/// A step of the run hands out the future of the task that is due first: the one that was just
/// given back for it, or else the one that was held. It takes that task, and no other, off the
/// queue. When no task is due nothing leaves the queue and nothing is handed out.
pub proof fn run_polls_the_first_due_task<F>(exec: ExecutorView<F>, event: RunEvent<F>)
    ensures
        exec.action(event) is Poll <==> exec.task_queue.len() > 0,
        exec.action(event) matches RunAction::Poll(id, future) ==> {
            &&& id == exec.task_queue[0]
            &&& future == match event {
                RunEvent::Pending(pending, given) if pending == id => given,
                _ => exec.future_map[id],
            }
            &&& !exec.run(event).future_map.contains_key(id)
            &&& exec.run(event).task_queue.len() == exec.task_queue.len() - 1
            &&& forall|i: int|
                0 <= i < exec.run(event).task_queue.len() ==> #[trigger] exec.run(
                    event,
                ).task_queue[i] == exec.task_queue[i + 1]
        },
        exec.task_queue.len() == 0 ==> exec.run(event).task_queue.len() == 0,
        exec.action(event) matches RunAction::Wait(limit) ==> limit.secs == 1 && limit.nanos == 0,
{
}

/// The run cannot go on only if a wait failed with another error number than 62, or if the task
/// that is due first has no future, neither held nor just given back.
pub proof fn run_goes_on_unless_it_must_not<F>(exec: ExecutorView<F>, event: RunEvent<F>)
    ensures
        exec.can_run(event) <==> {
            &&& event matches RunEvent::Waited(Err(e)) ==> e.code == 62
            &&& exec.task_queue.len() > 0 ==> exec.future_map.contains_key(exec.task_queue[0]) || (
            event matches RunEvent::Pending(id, _) && id == exec.task_queue[0])
        },
{
}

/// A new executor holds no futures and nothing is due, so that its run ends at once.
pub proof fn new_executor_has_nothing_to_do<F>(id: u64)
    ensures
        !ExecutorView::<F>::empty().future_map.contains_key(id),
        ExecutorView::<F>::empty().task_queue.len() == 0,
        ExecutorView::<F>::empty().action(RunEvent::Start) is Return,
{
}

/// A woken task becomes due, last in line: those that were due stay due in their places before it,
/// and once the run has polled them it polls the woken task, whatever happens meanwhile. The held
/// futures stay as they are.
pub proof fn woken_task_is_polled_after_those_before_it<F>(
    exec: ExecutorView<F>,
    id: u64,
    steps: Seq<Step<F>>,
    event: RunEvent<F>,
)
    requires
        runs_in(steps) == exec.task_queue.len(),
    ensures
        exec.wake(id).task_queue.len() == exec.task_queue.len() + 1,
        exec.wake(id).task_queue.last() == id,
        forall|i: int|
            0 <= i < exec.task_queue.len() ==> #[trigger] exec.wake(id).task_queue[i]
                == exec.task_queue[i],
        exec.wake(id).future_map == exec.future_map,
        exec.wake(id).after(steps).action(event) matches RunAction::Poll(polled, _)
            && polled == id,
{
    due_tasks_are_polled_in_order(exec.wake(id), steps, event);
}

/// A spawned task is held with its future and becomes due at once, last in line: those that were
/// due stay due in their places before it, and once the run has polled them it polls the new task
/// with its future, whatever happens meanwhile to other tasks. The other futures stay as they are.
pub proof fn spawned_task_is_polled_after_those_before_it<F>(
    exec: ExecutorView<F>,
    id: u64,
    future: F,
    steps: Seq<Step<F>>,
    event: RunEvent<F>,
    other: u64,
)
    requires
        runs_in(steps) == exec.task_queue.len(),
        !exec.task_queue.contains(id),
        forall|i: int| 0 <= i < steps.len() ==> !gives_future(#[trigger] steps[i], id),
        !gives_future(Step::Run(event), id),
        other != id,
    ensures
        exec.spawn(id, future).task_queue.len() == exec.task_queue.len() + 1,
        exec.spawn(id, future).task_queue.last() == id,
        forall|i: int|
            0 <= i < exec.task_queue.len() ==> #[trigger] exec.spawn(id, future).task_queue[i]
                == exec.task_queue[i],
        exec.spawn(id, future).future_map.contains_key(id),
        exec.spawn(id, future).future_map[id] == future,
        exec.spawn(id, future).future_map.contains_key(other) <==> exec.future_map.contains_key(
            other,
        ),
        exec.future_map.contains_key(other) ==> exec.spawn(id, future).future_map[other]
            == exec.future_map[other],
        exec.spawn(id, future).after(steps).action(event) == RunAction::Poll(id, future),
{
    let spawned = exec.spawn(id, future);
    assert forall|i: int| 0 <= i < runs_in(steps) implies #[trigger] spawned.task_queue[i]
        != id by {
        assert(spawned.task_queue[i] == exec.task_queue[i]);
    }
    due_task_is_polled_with_its_future(spawned, steps, event, id);
}

/// Whether a step makes the task with this identifier due.
pub open spec fn makes_due<F>(step: Step<F>, id: u64) -> bool {
    match step {
        Step::Wake(woken) => woken == id,
        Step::Spawn(spawned, _) => spawned == id,
        Step::Run(_) => false,
    }
}

/// The future of a task that is not due is held through any number of steps, waits among them, that
/// neither make the task due nor give it another future.
pub proof fn future_is_held_while_not_due<F>(exec: ExecutorView<F>, steps: Seq<Step<F>>, id: u64)
    requires
        exec.future_map.contains_key(id),
        !exec.task_queue.contains(id),
        forall|i: int|
            0 <= i < steps.len() ==> !gives_future(#[trigger] steps[i], id) && !makes_due(
                steps[i],
                id,
            ),
    ensures
        exec.after(steps).future_map.contains_key(id),
        exec.after(steps).future_map[id] == exec.future_map[id],
        !exec.after(steps).task_queue.contains(id),
    decreases steps.len(),
{
    if steps.len() > 0 {
        let earlier = steps.drop_last();
        let before = exec.after(earlier);
        let now = exec.after(steps);
        assert(forall|i: int| 0 <= i < earlier.len() ==> #[trigger] earlier[i] == steps[i]);
        future_is_held_while_not_due(exec, earlier, id);
        let step = steps[steps.len() - 1];
        assert(!gives_future(step, id) && !makes_due(step, id));
        if let Step::Run(event) = step {
            run_polls_the_first_due_task(before, event);
            run_keeps_other_futures(before, event, id);
            assert forall|i: int| 0 <= i < now.task_queue.len() implies #[trigger] now.task_queue[i]
                != id by {
                if before.task_queue.len() > 0 {
                    assert(now.task_queue[i] == before.task_queue[i + 1]);
                }
            }
        } else {
            assert forall|i: int| 0 <= i < now.task_queue.len() implies #[trigger] now.task_queue[i]
                != id by {
                if i < before.task_queue.len() {
                    assert(now.task_queue[i] == before.task_queue[i]);
                }
            }
        }
    }
}

/// A future that was given back as not finished is polled again once its task is woken, after any
/// number of steps in between, waits that ran out of time among them.
pub proof fn pending_future_is_polled_again_once_woken<F>(
    exec: ExecutorView<F>,
    id: u64,
    future: F,
    meanwhile: Seq<Step<F>>,
    steps: Seq<Step<F>>,
    event: RunEvent<F>,
)
    requires
        !exec.task_queue.contains(id),
        forall|i: int|
            0 <= i < meanwhile.len() ==> !gives_future(#[trigger] meanwhile[i], id) && !makes_due(
                meanwhile[i],
                id,
            ),
        runs_in(steps) == exec.run(RunEvent::Pending(id, future)).after(
            meanwhile,
        ).task_queue.len(),
        forall|i: int| 0 <= i < steps.len() ==> !gives_future(#[trigger] steps[i], id),
        !gives_future(Step::Run(event), id),
    ensures
        exec.run(RunEvent::Pending(id, future)).after(meanwhile).wake(id).after(steps).action(event)
            == RunAction::Poll(id, future),
{
    let given = RunEvent::Pending(id, future);
    let held = exec.run(given);
    run_polls_the_first_due_task(exec, given);
    run_keeps_other_futures(exec, given, id);
    assert forall|i: int| 0 <= i < held.task_queue.len() implies #[trigger] held.task_queue[i]
        != id by {
        assert(held.task_queue[i] == exec.task_queue[i + 1]);
    }
    future_is_held_while_not_due(held, meanwhile, id);
    let now = held.after(meanwhile);
    let woken = now.wake(id);
    woken_task_is_polled_after_those_before_it(now, id, steps, event);
    assert forall|i: int| 0 <= i < runs_in(steps) implies #[trigger] woken.task_queue[i] != id by {
        assert(woken.task_queue[i] == now.task_queue[i]);
    }
    due_task_is_polled_with_its_future(woken, steps, event, id);
}

/// A future that is handed out to be polled is no longer held, and giving it back as it was brings
/// back what was held.
pub proof fn polled_future_is_out<F>(exec: ExecutorView<F>, event: RunEvent<F>)
    requires
        exec.can_run(event),
    ensures
        exec.action(event) matches RunAction::Poll(id, future) ==> {
            &&& !exec.run(event).future_map.contains_key(id)
            &&& exec.run(event).settle(RunEvent::Pending(id, future)).future_map
                == exec.settle(event).future_map
        },
{
    let settled = exec.settle(event);
    if settled.task_queue.len() > 0 {
        let id = settled.task_queue[0];
        assert(settled.future_map.remove(id).insert(id, settled.future_map[id])
            =~= settled.future_map);
    }
}

/// While every due task has a future the run can go on, unless a wait failed.
pub proof fn run_goes_on_while_due_are_held<F>(exec: ExecutorView<F>, event: RunEvent<F>)
    requires
        exec.settle(event).due_are_held(),
        !event.wait_failed(),
    ensures
        exec.can_run(event),
{
}

/// Every due task keeps having a future when a task is spawned, when one whose future is held is
/// woken, and when a future is given back.
pub proof fn due_stay_held<F>(exec: ExecutorView<F>, id: u64, future: F)
    requires
        exec.due_are_held(),
    ensures
        exec.spawn(id, future).due_are_held(),
        exec.future_map.contains_key(id) ==> exec.wake(id).due_are_held(),
        exec.settle(RunEvent::Pending(id, future)).due_are_held(),
{
}

/// While a future is being polled, every due task but its own has a future, and this stays so
/// when its own task is woken, when another one whose future is held is woken, and when a task is
/// spawned.
pub proof fn due_stay_held_during_poll<F>(
    exec: ExecutorView<F>,
    event: RunEvent<F>,
    polled: u64,
    woken: u64,
    spawned: u64,
    future: F,
)
    ensures
        exec.settle(event).due_are_held() && (exec.action(event) matches RunAction::Poll(id, _)
            && id == polled) ==> exec.run(event).due_are_held_but(polled),
        exec.due_are_held_but(polled) ==> {
            &&& exec.wake(polled).due_are_held_but(polled)
            &&& exec.future_map.contains_key(woken) ==> exec.wake(woken).due_are_held_but(polled)
            &&& exec.spawn(spawned, future).due_are_held_but(polled)
        },
{
}

/// After a poll every due task has a future again if the polled future is given back, and if it
/// is finished, unless its task was woken meanwhile or is due once more.
pub proof fn due_are_held_again_after_poll<F>(exec: ExecutorView<F>, polled: u64, future: F)
    requires
        exec.due_are_held_but(polled),
    ensures
        exec.settle(RunEvent::Pending(polled, future)).due_are_held(),
        !exec.task_queue.contains(polled) ==> exec.settle(RunEvent::Finished).due_are_held(),
{
}

/// Takes on a future as a new task of the executor.
pub fn spawn<F>(exec: &mut Executor<F>, ids: &mut TaskIds, future: F)
    ensures
        final(exec)@ == old(exec)@.spawn(old(ids).next(), future),
        final(exec)@.task_queue == old(exec)@.task_queue.push(old(ids).next()),
        final(exec)@.future_map == old(exec)@.future_map.insert(old(ids).next(), future),
        final(ids).next() == (old(ids).next() + 1) % task_id_count(),
{
    exec.spawn(ids, future);
}

} // verus!
