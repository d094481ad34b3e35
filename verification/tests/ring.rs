use std::rc::Rc;

use uring_runtime::cqe::{CqeFlags, IoUringCqe, StrippedCqe};
use uring_runtime::errno::Errno;
use uring_runtime::handle::{RING_ENTRIES, RING_FLAGS};
use uring_runtime::ring::{
    supports_submit_stable, Completion, KernelTimespec, Ring, RingParams, SetupAction, SetupEvent,
    SqeAction, SqeEvent, Timeout, WaitAction, WaitEvent,
};
use uring_runtime::sqe::{Prep, Sqe, SqeFuture, SqeFutureShared};
use uring_runtime::task::{Task, TaskIds};

fn set_up<T>(res: i32, features: u32) -> Result<Ring<T>, Errno> {
    let event = SetupEvent::Initialized { res, features };
    assert!(Ring::<T>::can_set_up(&event));
    match Ring::new(8, 0, event) {
        SetupAction::Return(result) => result,
        _ => panic!("the end of the set-up was expected"),
    }
}

fn ring() -> Ring<&'static str> {
    set_up(0, 4).unwrap()
}

fn peeked(res: i32, batch: Vec<IoUringCqe>) -> WaitEvent {
    WaitEvent::Peeked { res, room: 8, batch }
}

fn cqe(user_data: u64, res: i32) -> IoUringCqe {
    IoUringCqe { user_data, res, flags: 0 }
}

fn delivered<T>(action: WaitAction<T>) -> (Vec<Completion<T>>, u32, i32) {
    match action {
        WaitAction::Deliver { completions, advance, result } => (completions, advance, result),
        _ => panic!("a delivery was expected"),
    }
}

#[test]
fn ring_is_set_up_as_a_single_issuer() {
    assert_eq!(RING_ENTRIES, 4096);
    assert_eq!(RING_FLAGS, (1 << 12) | (1 << 8) | (1 << 13) | (1 << 7));
}

#[test]
fn failed_setup_is_an_error() {
    assert_eq!(set_up::<u8>(-12, 0).err(), Some(Errno { code: 12 }));
    assert_eq!(set_up::<u8>(3, 0).err(), Some(Errno { code: -3 }));
    assert!(set_up::<u8>(0, 0xff).is_ok());
}

#[test]
fn kernel_is_asked_for_entries_and_flags_only() {
    match Ring::<u8>::new(RING_ENTRIES, RING_FLAGS, SetupEvent::Begin) {
        SetupAction::Initialize { entries, params } => {
            assert_eq!(entries, 4096);
            let expected = RingParams {
                sq_entries: 0,
                cq_entries: 0,
                flags: 0x3180,
                sq_thread_cpu: 0,
                sq_thread_idle: 0,
                features: 0,
                wq_fd: 0,
            };
            assert_eq!(params, expected);
        }
        _ => panic!("a request to the kernel was expected"),
    }
}

#[test]
fn set_up_needs_stable_submission() {
    let event = |res: i32, features: u32| SetupEvent::Initialized { res, features };
    assert!(Ring::<u8>::can_set_up(&SetupEvent::Begin));
    assert!(Ring::<u8>::can_set_up(&event(0, 4)));
    assert!(!Ring::<u8>::can_set_up(&event(0, !4)));
    assert!(Ring::<u8>::can_set_up(&event(-1, 0)));
    assert!(!Ring::<u8>::can_set_up(&event(i32::MIN, 4)));
}

#[test]
fn stable_submission_is_the_third_feature() {
    assert!(supports_submit_stable(4));
    assert!(supports_submit_stable(u32::MAX));
    assert!(!supports_submit_stable(!4));
}

fn filled<'a>(action: SqeAction<'a>) -> Sqe<'a> {
    match action {
        SqeAction::Fill(sqe) => sqe,
        _ => panic!("an entry was expected"),
    }
}

#[test]
fn entries_get_consecutive_ids() {
    let ring = ring();
    let mut ids = TaskIds::new();
    assert!(matches!(ring.get_sqe(&mut ids, SqeEvent::Begin), SqeAction::Fetch));
    let first = filled(ring.get_sqe(&mut ids, SqeEvent::Fetched(true)));
    assert_eq!(first.user_data, 1234);
    assert!(first.prep.is_none());
    let second = filled(ring.get_sqe(&mut ids, SqeEvent::Fetched(true)));
    assert_eq!(second.user_data, 1235);
}

#[test]
fn full_queue_is_submitted_before_another_try() {
    let ring = ring();
    let mut ids = TaskIds::new();
    assert!(matches!(ring.get_sqe(&mut ids, SqeEvent::Begin), SqeAction::Fetch));
    for submitted in 0..3 {
        assert!(matches!(ring.get_sqe(&mut ids, SqeEvent::Fetched(false)), SqeAction::Submit));
        assert!(ring.can_get_sqe(&SqeEvent::Submitted(submitted)));
        let action = ring.get_sqe(&mut ids, SqeEvent::Submitted(submitted));
        assert!(matches!(action, SqeAction::Fetch));
    }
    let entry = filled(ring.get_sqe(&mut ids, SqeEvent::Fetched(true)));
    assert_eq!(entry.user_data, 1234);
}

#[test]
fn failed_submission_ends_the_search_for_an_entry() {
    let ring = ring();
    assert!(!ring.can_get_sqe(&SqeEvent::Submitted(-16)));
    assert!(!ring.can_get_sqe(&SqeEvent::Submitted(i32::MIN)));
    assert!(ring.can_get_sqe(&SqeEvent::Submitted(0)));
    assert!(ring.can_get_sqe(&SqeEvent::Begin));
    assert!(ring.can_get_sqe(&SqeEvent::Fetched(false)));
}

#[test]
fn submit_reports_count_or_error() {
    assert_eq!(ring().submit(3), Ok(3));
    assert_eq!(ring().submit(0), Ok(0));
    assert_eq!(ring().submit(-16), Err(Errno { code: 16 }));
}

#[test]
fn wait_begins_with_a_submission() {
    let mut ring = ring();
    let limit = Timeout { secs: 1, nanos: 250 };
    match ring.submit_and_wait_timeout(WaitEvent::Begin(Some(limit))) {
        WaitAction::Submit { wait_nr, ts } => {
            assert_eq!(wait_nr, 1);
            assert_eq!(ts, Some(KernelTimespec { tv_sec: 1, tv_nsec: 250 }));
        }
        _ => panic!("a submission was expected"),
    }
    match ring.submit_and_wait_timeout(WaitEvent::Begin(None)) {
        WaitAction::Submit { wait_nr, ts } => {
            assert_eq!(wait_nr, 1);
            assert_eq!(ts, None);
        }
        _ => panic!("a submission was expected"),
    }
    let long = Timeout { secs: u64::MAX, nanos: 0 };
    match ring.submit_and_wait_timeout(WaitEvent::Begin(Some(long))) {
        WaitAction::Submit { ts, .. } => {
            assert_eq!(ts, Some(KernelTimespec { tv_sec: -1, tv_nsec: 0 }));
        }
        _ => panic!("a submission was expected"),
    }
}

#[test]
fn failed_submission_ends_the_wait() {
    let mut ring = ring();
    assert!(!ring.can_wait(&WaitEvent::Submitted { res: i32::MIN, room: 8 }));
    match ring.submit_and_wait_timeout(WaitEvent::Submitted { res: -62, room: 8 }) {
        WaitAction::Fail(errno) => assert_eq!(errno, Errno { code: 62 }),
        _ => panic!("a failure was expected"),
    }
    match ring.submit_and_wait_timeout(WaitEvent::Submitted { res: 2, room: 8 }) {
        WaitAction::Peek { result, max } => assert_eq!((result, max), (2, 8)),
        _ => panic!("a look at the completions was expected"),
    }
}

#[test]
fn completions_go_to_their_cells_in_order() {
    let mut ring = ring();
    ring.register_task(Task::new(1), Rc::new("one"));
    ring.register_task(Task::new(2), Rc::new("two"));
    ring.register_task(Task::new(3), Rc::new("three"));
    let event = peeked(5, vec![cqe(3, 30), cqe(1, -10)]);
    assert!(ring.can_wait(&event));
    let (completions, advance, result) = delivered(ring.submit_and_wait_timeout(event));
    assert_eq!(advance, 2);
    assert_eq!(result, 5);
    assert_eq!(completions.len(), 2);
    assert_eq!((*completions[0].shared, completions[0].cqe.res), ("three", 30));
    assert_eq!((*completions[1].shared, completions[1].cqe.res), ("one", -10));
    assert!(!ring.can_wait(&peeked(0, vec![cqe(1, 0)])));
    assert!(ring.can_wait(&peeked(0, vec![cqe(2, 0)])));
}

#[test]
fn empty_batch_delivers_nothing() {
    let mut ring = ring();
    let (completions, advance, result) =
        delivered(ring.submit_and_wait_timeout(peeked(1, vec![])));
    assert!(completions.is_empty());
    assert_eq!(advance, 0);
    assert_eq!(result, 1);
}

#[test]
fn unknown_and_repeated_completions_are_refused() {
    let mut ring = ring();
    ring.register_task(Task::new(1), Rc::new("one"));
    assert!(!ring.can_wait(&peeked(0, vec![cqe(9, 0)])));
    assert!(!ring.can_wait(&peeked(0, vec![cqe(1, 0), cqe(1, 0)])));
    assert!(ring.can_wait(&peeked(0, vec![cqe(1, 0)])));
    assert!(ring.can_wait(&WaitEvent::Begin(None)));
}

#[test]
fn later_registration_replaces_the_earlier() {
    let mut ring = ring();
    ring.register_task(Task::new(1), Rc::new("old"));
    ring.register_task(Task::new(1), Rc::new("new"));
    let (completions, _, _) =
        delivered(ring.submit_and_wait_timeout(peeked(0, vec![cqe(1, 0)])));
    assert_eq!(*completions[0].shared, "new");
}

#[test]
fn completion_of_a_request_readies_its_future() {
    let mut ring: Ring<std::cell::RefCell<SqeFutureShared<u8>>> = set_up(0, 4).unwrap();
    let mut ids = TaskIds::new();
    let mut sqe = filled(ring.get_sqe(&mut ids, SqeEvent::Fetched(true)));
    let cell = std::cell::RefCell::new(SqeFutureShared::new());
    let fut = SqeFuture::prep_and_register(&mut ring, &mut sqe, Prep::Nop, cell);
    assert!(matches!(sqe.prep, Some(Prep::Nop)));
    assert_eq!(fut.shared.borrow_mut().poll(5), None);

    let event = peeked(1, vec![cqe(sqe.user_data, 17)]);
    let (completions, _, _) = delivered(ring.submit_and_wait_timeout(event));
    assert!(Rc::ptr_eq(&completions[0].shared, &fut.shared));
    assert_eq!(*completions[0].shared.borrow_mut().complete(completions[0].cqe), 5);
    let expected = StrippedCqe { res: 17, flags: CqeFlags::from(0) };
    assert_eq!(fut.shared.borrow_mut().poll(6), Some(expected));
}

#[test]
fn wait_finds_no_more_than_it_has_room_for() {
    let mut ring = ring();
    ring.register_task(Task::new(1), Rc::new("one"));
    ring.register_task(Task::new(2), Rc::new("two"));
    let batch = vec![cqe(1, 0), cqe(2, 0)];
    let event = WaitEvent::Peeked { res: 0, room: 1, batch: batch.clone() };
    assert!(!ring.can_wait(&event));
    assert!(ring.can_wait(&WaitEvent::Peeked { res: 0, room: 2, batch }));
}

#[test]
fn repeated_waits_deliver_a_long_queue_once_and_in_order() {
    let mut ring: Ring<u64> = set_up(0, 4).unwrap();
    let mut queue: Vec<IoUringCqe> = vec![];
    for id in 0..10u64 {
        ring.register_task(Task::new(id), Rc::new(id * 100));
        queue.insert(0, cqe(id, id as i32));
    }
    let mut seen: Vec<(u64, i32)> = vec![];
    let mut calls = 0;
    while !queue.is_empty() {
        let room = 4usize.min(queue.len());
        let event = WaitEvent::Peeked { res: 0, room: 4, batch: queue[..room].to_vec() };
        assert!(ring.can_wait(&event));
        let (completions, advance, _) = delivered(ring.submit_and_wait_timeout(event));
        queue.drain(..advance as usize);
        for completion in completions {
            seen.push((*completion.shared, completion.cqe.res));
        }
        calls += 1;
    }
    assert_eq!(calls, 3);
    let expected: Vec<(u64, i32)> = (0..10).rev().map(|i| (i as u64 * 100, i)).collect();
    assert_eq!(seen, expected);
}
