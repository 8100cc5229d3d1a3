use kernel_core::config::MAX_SYSCALL_NUM;
use kernel_core::copyout::copyout;
use kernel_core::manager::TaskManager;
use kernel_core::syscall::{
    sys_exit, sys_get_time, sys_sbrk, sys_task_info, sys_yield, TimeVal, TASK_INFO_BYTES,
    TIME_VAL_BYTES,
};
use kernel_core::task::{Task, TaskStatus};

fn task(id: usize, stride: u64, pass: u64) -> Task {
    Task {
        id,
        status: TaskStatus::Running,
        stride,
        pass,
        syscall_times: vec![0; MAX_SYSCALL_NUM],
        heap_bottom: 0x10000,
        program_brk: 0x20000,
    }
}

fn word_le(v: u64) -> Vec<u8> {
    let mut bytes = Vec::new();
    for i in 0..8 {
        bytes.push(((v >> (8 * i)) & 0xff) as u8);
    }
    bytes
}

fn flatten(slices: &Vec<Vec<u8>>) -> Vec<u8> {
    let mut all = Vec::new();
    for slice in slices {
        for byte in slice {
            all.push(*byte);
        }
    }
    all
}

#[test]
fn exit_marks_the_task_exited() {
    let mut t = task(1, 10, 5);
    sys_exit(&mut t, 17);
    assert_eq!(t.status, TaskStatus::Exited);
    assert_eq!(t.id, 1);
    assert_eq!(t.stride, 10);
}

#[test]
fn yield_requeues_the_task_as_ready() {
    let mut mgr = TaskManager::new(0);
    let t = task(3, 12, 4);
    assert_eq!(sys_yield(&mut mgr, t), 0);
    assert_eq!(mgr.queue_len(), 1);
    let fetched = mgr.fetch().unwrap();
    assert_eq!(fetched.id, 3);
    assert_eq!(fetched.status, TaskStatus::Ready);
    assert_eq!(fetched.stride, 16);
}

#[test]
fn time_val_splits_microseconds() {
    let tv = TimeVal::from_us(3456789);
    assert_eq!(tv.sec, 3);
    assert_eq!(tv.usec, 456789);
    let tv = TimeVal::from_us(999999);
    assert_eq!(tv.sec, 0);
    assert_eq!(tv.usec, 999999);
    let tv = TimeVal::from_us(1000000);
    assert_eq!(tv.sec, 1);
    assert_eq!(tv.usec, 0);
}

#[test]
fn get_time_writes_the_c_layout_bytes() {
    let mut dst = vec![vec![0u8; TIME_VAL_BYTES]];
    assert_eq!(sys_get_time(&mut dst, 3456789, 0), 0);
    let mut expected = word_le(3);
    expected.extend(word_le(456789));
    assert_eq!(dst[0], expected);
}

#[test]
fn get_time_is_transparent_across_a_page_split() {
    let us = 987654321;
    let mut single = vec![vec![0u8; TIME_VAL_BYTES]];
    assert_eq!(sys_get_time(&mut single, us, 0), 0);
    let mut split = vec![vec![0xaau8; 7], vec![0x55u8; 9]];
    assert_eq!(sys_get_time(&mut split, us, 0), 0);
    assert_eq!(split[0].len(), 7);
    assert_eq!(split[1].len(), 9);
    assert_eq!(flatten(&split), flatten(&single));
}

#[test]
fn copyout_fills_split_slices_byte_identically() {
    let src: Vec<u8> = (0u8..16).collect();
    let mut single = vec![vec![0u8; 16]];
    copyout(&mut single, &src);
    assert_eq!(single[0], src);
    let mut split = vec![vec![0u8; 5], vec![0u8; 11]];
    copyout(&mut split, &src);
    assert_eq!(flatten(&split), src);
    let mut three = vec![vec![0u8; 1], vec![0u8; 14], vec![0u8; 1]];
    copyout(&mut three, &src);
    assert_eq!(flatten(&three), src);
}

#[test]
fn copyout_of_an_empty_value_is_a_no_op() {
    let src: Vec<u8> = Vec::new();
    let mut dst: Vec<Vec<u8>> = Vec::new();
    copyout(&mut dst, &src);
    assert!(dst.is_empty());
    let mut dst = vec![Vec::new(), Vec::new()];
    copyout(&mut dst, &src);
    assert_eq!(dst.len(), 2);
    assert!(dst[0].is_empty());
}

#[test]
fn task_info_reports_status_counters_and_elapsed_time() {
    let mut t = task(1, 10, 5);
    t.syscall_times[3] = 7;
    t.syscall_times[499] = 260;
    let mut dst = vec![vec![0u8; TASK_INFO_BYTES]];
    assert_eq!(sys_task_info(&mut dst, &t, 1500, 500), 0);
    let bytes = &dst[0];
    assert_eq!(bytes.len(), TASK_INFO_BYTES);
    assert_eq!(&bytes[0..4], &[1, 0, 0, 0]);
    assert_eq!(&bytes[4 + 4 * 3..4 + 4 * 4], &[7, 0, 0, 0]);
    assert_eq!(&bytes[4 + 4 * 499..4 + 4 * 500], &[4, 1, 0, 0]);
    assert_eq!(&bytes[TASK_INFO_BYTES - 8..], &word_le(1000)[..]);
}

#[test]
fn task_info_is_transparent_across_a_page_split() {
    let t = task(2, 0, 1);
    let mut single = vec![vec![0u8; TASK_INFO_BYTES]];
    assert_eq!(sys_task_info(&mut single, &t, 42, 2), 0);
    let mut split = vec![vec![0u8; 100], vec![0u8; TASK_INFO_BYTES - 100]];
    assert_eq!(sys_task_info(&mut split, &t, 42, 2), 0);
    assert_eq!(flatten(&split), flatten(&single));
}

#[test]
fn sbrk_grows_and_returns_previous_break() {
    let mut t = task(1, 0, 1);
    assert_eq!(sys_sbrk(&mut t, 0x1000), 0x20000);
    assert_eq!(t.program_brk, 0x21000);
    assert_eq!(sys_sbrk(&mut t, 0), 0x21000);
}

#[test]
fn sbrk_shrinks_down_to_the_floor() {
    let mut t = task(1, 0, 1);
    assert_eq!(sys_sbrk(&mut t, -0x1000), 0x20000);
    assert_eq!(t.program_brk, 0x1f000);
    assert_eq!(sys_sbrk(&mut t, -0xf000), 0x1f000);
    assert_eq!(t.program_brk, 0x10000);
}

#[test]
fn sbrk_below_the_floor_fails_without_change() {
    let mut t = task(1, 0, 1);
    assert_eq!(sys_sbrk(&mut t, -0x10001), -1);
    assert_eq!(t.program_brk, 0x20000);
    assert_eq!(sys_sbrk(&mut t, i32::MIN), -1);
    assert_eq!(t.program_brk, 0x20000);
}

#[test]
fn sbrk_past_the_address_range_fails_without_change() {
    let mut t = task(1, 0, 1);
    t.heap_bottom = isize::MAX as usize - 0x100;
    t.program_brk = isize::MAX as usize;
    assert_eq!(sys_sbrk(&mut t, 1), -1);
    assert_eq!(t.program_brk, isize::MAX as usize);
    assert_eq!(sys_sbrk(&mut t, -0x100), isize::MAX);
    assert_eq!(t.program_brk, isize::MAX as usize - 0x100);
}
