use kernel_core::config::MAX_SYSCALL_NUM;
use kernel_core::manager::{add_task, fetch_task, get_start_time, TaskManager};
use kernel_core::task::{Task, TaskStatus};

fn task(id: usize, stride: u64, pass: u64) -> Task {
    Task {
        id,
        status: TaskStatus::Ready,
        stride,
        pass,
        syscall_times: vec![0; MAX_SYSCALL_NUM],
        heap_bottom: 0x10000,
        program_brk: 0x20000,
    }
}

#[test]
fn fetch_on_empty_queue_returns_nothing() {
    let mut mgr = TaskManager::new(1234);
    assert!(mgr.fetch().is_none());
    assert_eq!(mgr.queue_len(), 0);
    assert_eq!(mgr.get_start_time(), 1234);
    assert!(mgr.fetch().is_none());
}

#[test]
fn added_task_is_fetched_exactly_once() {
    let mut mgr = TaskManager::new(0);
    mgr.add(task(7, 10, 5));
    assert_eq!(mgr.queue_len(), 1);
    let fetched = mgr.fetch().expect("one task is ready");
    assert_eq!(fetched.id, 7);
    assert_eq!(mgr.queue_len(), 0);
    assert!(mgr.fetch().is_none());
}

#[test]
fn fetch_returns_minimum_stride() {
    let mut mgr = TaskManager::new(0);
    mgr.add(task(1, 30, 5));
    mgr.add(task(2, 10, 5));
    mgr.add(task(3, 20, 5));
    let fetched = mgr.fetch().expect("tasks are ready");
    assert_eq!(fetched.id, 2);
    assert_eq!(fetched.stride, 15);
    assert_eq!(mgr.queue_len(), 2);
}

#[test]
fn fetch_advances_winner_by_its_own_pass() {
    let mut mgr = TaskManager::new(0);
    mgr.add(task(1, 4, 9));
    let fetched = mgr.fetch().unwrap();
    assert_eq!(fetched.stride, 13);
    assert_eq!(fetched.pass, 9);
}

#[test]
fn stride_advance_saturates() {
    let mut mgr = TaskManager::new(0);
    mgr.add(task(1, u64::MAX - 2, 5));
    let fetched = mgr.fetch().unwrap();
    assert_eq!(fetched.stride, u64::MAX);
}

#[test]
fn equal_strides_pick_first_in_scan_order() {
    let mut mgr = TaskManager::new(0);
    mgr.add(task(1, 20, 5));
    mgr.add(task(2, 20, 5));
    let fetched = mgr.fetch().unwrap();
    assert_eq!(fetched.id, 1);
}

#[test]
fn two_tasks_interleave_in_nondecreasing_stride_order() {
    let mut mgr = TaskManager::new(0);
    mgr.add(task(1, 10, 5));
    mgr.add(task(2, 20, 5));

    let first = mgr.fetch().unwrap();
    assert_eq!(first.id, 1);
    assert_eq!(first.stride, 15);
    mgr.add(first);

    let second = mgr.fetch().unwrap();
    assert_eq!(second.id, 1);
    assert_eq!(second.stride, 20);
    mgr.add(second);

    let third = mgr.fetch().unwrap();
    assert_eq!(third.stride, 25);
    mgr.add(third);

    let mut previous: u64 = 0;
    for _ in 0..8 {
        let t = mgr.fetch().unwrap();
        let before_advance = t.stride - t.pass;
        assert!(before_advance >= previous);
        previous = before_advance;
        mgr.add(t);
    }
}

#[test]
fn free_functions_drive_the_manager() {
    let mut mgr = TaskManager::new(99);
    assert_eq!(get_start_time(&mgr), 99);
    add_task(&mut mgr, task(5, 0, 1));
    add_task(&mut mgr, task(6, 0, 1));
    let first = fetch_task(&mut mgr).unwrap();
    assert_eq!(first.id, 5);
    let second = fetch_task(&mut mgr).unwrap();
    assert_eq!(second.id, 6);
    assert!(fetch_task(&mut mgr).is_none());
}

#[test]
fn tasks_keep_their_fields_through_the_queue() {
    let mut mgr = TaskManager::new(0);
    let mut t = task(11, 3, 2);
    t.syscall_times[42] = 17;
    mgr.add(t);
    let fetched = mgr.fetch().unwrap();
    assert_eq!(fetched.id, 11);
    assert_eq!(fetched.pass, 2);
    assert_eq!(fetched.syscall_times[42], 17);
    assert_eq!(fetched.heap_bottom, 0x10000);
    assert_eq!(fetched.program_brk, 0x20000);
}
