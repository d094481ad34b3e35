use uring_runtime::errno::Errno;
use uring_runtime::task::{get_next_task_id, Task, TaskIds};

#[test]
fn task_keeps_its_id() {
    assert_eq!(Task::new(7).into_id(), 7);
    assert_eq!(Task::new(u64::MAX).into_id(), u64::MAX);
    assert_eq!(Task::new(7), Task::new(7));
    assert_ne!(Task::new(7), Task::new(8));
    let task = Task::new(9);
    assert_eq!(Task::new(task.into_id()), task);
}

#[test]
fn first_task_id_is_1234_and_ids_count_up() {
    let mut ids = TaskIds::new();
    assert_eq!(get_next_task_id(&mut ids).into_id(), 1234);
    assert_eq!(get_next_task_id(&mut ids).into_id(), 1235);
    assert_eq!(get_next_task_id(&mut ids).into_id(), 1236);
}

#[test]
fn task_ids_do_not_repeat() {
    let mut ids = TaskIds::new();
    let mut seen = std::collections::HashSet::new();
    for _ in 0..10_000 {
        assert!(seen.insert(get_next_task_id(&mut ids).into_id()));
    }
}

#[test]
fn errno_negates_the_result() {
    assert_eq!(Errno::from_result(-62).raw_os_error(), 62);
    assert_eq!(Errno::from_result(5).raw_os_error(), -5);
}
