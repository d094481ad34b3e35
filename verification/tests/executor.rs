use uring_runtime::errno::Errno;
use uring_runtime::executor::{spawn, Executor, RunAction, RunEvent};
use uring_runtime::ring::Timeout;
use uring_runtime::task::{Task, TaskIds};

fn started() -> (Executor<char>, TaskIds) {
    (Executor::new(16).unwrap(), TaskIds::new())
}

fn polls(action: RunAction<char>) -> (u64, char) {
    match action {
        RunAction::Poll(id, future) => (id, future),
        _ => panic!("a poll was expected"),
    }
}

fn waits(action: RunAction<char>) -> Timeout {
    match action {
        RunAction::Wait(limit) => limit,
        _ => panic!("a wait was expected"),
    }
}

#[test]
fn run_of_an_empty_executor_returns() {
    let (mut exec, _) = started();
    assert!(exec.can_run(&RunEvent::Start));
    assert!(matches!(exec.run(RunEvent::Start), RunAction::Return));
}

#[test]
fn tasks_are_polled_in_spawn_order() {
    let (mut exec, mut ids) = started();
    exec.spawn(&mut ids, 'a');
    spawn(&mut exec, &mut ids, 'b');
    exec.spawn(&mut ids, 'c');
    assert_eq!(polls(exec.run(RunEvent::Start)), (1234, 'a'));
    assert_eq!(polls(exec.run(RunEvent::Finished)), (1235, 'b'));
    assert_eq!(polls(exec.run(RunEvent::Pending(1235, 'b'))), (1236, 'c'));
    assert_eq!(waits(exec.run(RunEvent::Finished)), Timeout { secs: 1, nanos: 0 });
}

#[test]
fn pending_future_is_polled_again_once_woken() {
    let (mut exec, mut ids) = started();
    exec.spawn(&mut ids, 'a');
    assert_eq!(polls(exec.run(RunEvent::Start)), (1234, 'a'));
    waits(exec.run(RunEvent::Pending(1234, 'A')));
    waits(exec.run(RunEvent::Waited(Ok(0))));
    exec.wake(Task::new(1234));
    assert_eq!(polls(exec.run(RunEvent::Waited(Ok(1)))), (1234, 'A'));
}

#[test]
fn last_task_is_followed_by_one_more_wait() {
    let (mut exec, mut ids) = started();
    exec.spawn(&mut ids, 'a');
    polls(exec.run(RunEvent::Start));
    waits(exec.run(RunEvent::Finished));
    assert!(matches!(exec.run(RunEvent::Waited(Ok(0))), RunAction::Return));
}

#[test]
fn expired_wait_goes_on_and_other_errors_do_not() {
    let (mut exec, mut ids) = started();
    exec.spawn(&mut ids, 'a');
    polls(exec.run(RunEvent::Start));
    waits(exec.run(RunEvent::Pending(1234, 'a')));
    assert!(!exec.can_run(&RunEvent::Waited(Err(Errno { code: 4 }))));
    assert!(exec.can_run(&RunEvent::Waited(Err(Errno { code: 62 }))));
    waits(exec.run(RunEvent::Waited(Err(Errno { code: 62 }))));
}

#[test]
fn task_may_wake_itself_while_polled() {
    let (mut exec, mut ids) = started();
    exec.spawn(&mut ids, 'a');
    polls(exec.run(RunEvent::Start));
    exec.wake(Task::new(1234));
    assert!(exec.can_run(&RunEvent::Pending(1234, 'a')));
    assert!(!exec.can_run(&RunEvent::Finished));
    assert_eq!(polls(exec.run(RunEvent::Pending(1234, 'a'))), (1234, 'a'));
}

#[test]
fn waking_an_unknown_task_stops_the_run() {
    let (mut exec, _) = started();
    exec.wake(Task::new(5));
    assert!(!exec.can_run(&RunEvent::Start));
}

#[test]
fn woken_task_queues_behind_due_tasks() {
    let (mut exec, mut ids) = started();
    exec.spawn(&mut ids, 'a');
    exec.spawn(&mut ids, 'b');
    polls(exec.run(RunEvent::Start));
    exec.wake(Task::new(1234));
    exec.spawn(&mut ids, 'c');
    assert_eq!(polls(exec.run(RunEvent::Pending(1234, 'a'))), (1235, 'b'));
    assert_eq!(polls(exec.run(RunEvent::Finished)), (1234, 'a'));
    assert_eq!(polls(exec.run(RunEvent::Finished)), (1236, 'c'));
}
