//! Process-management syscalls.
//!
//! Each handler validates its arguments, performs its transition on the
//! state it is handed, and returns a signed status in the POSIX-like
//! convention: 0 or a positive value on success, -1 on failure. The
//! ambient state the original trap path reads — the timer, the current
//! task, the scheduler, the current task's resolved destination slices
//! — enters as explicit arguments; the trap plumbing itself is an
//! external collaborator.

use vstd::prelude::*;
use crate::config::{MAX_SYSCALL_NUM, PAGE_SIZE};
use crate::copyout::{copyout, flat_bytes};
use crate::manager::TaskManager;
use crate::mm::{range_free, range_mapped, with_range, without_range, AddressSpace};
use crate::task::{Task, TaskStatus};

verus! {

/// Size in bytes of the copied-out `TimeVal` value: two 8-byte words.
pub const TIME_VAL_BYTES: usize = 16;

/// Size in bytes of the copied-out `TaskInfo` value: a 4-byte status
/// code, one 4-byte counter per recognized syscall number, and an
/// 8-byte word of elapsed milliseconds.
pub const TASK_INFO_BYTES: usize = 4 + 4 * MAX_SYSCALL_NUM + 8;

/// Byte `i` of the little-endian encoding of a word.
pub open spec fn word_byte(v: usize, i: int) -> u8 {
    (((v as u64) >> ((8 * i) as u64)) & 0xff) as u8
}

/// The 8-byte little-endian encoding of a word.
pub open spec fn word_bytes(v: usize) -> Seq<u8> {
    Seq::new(8, |i: int| word_byte(v, i))
}

/// Byte `i` of the little-endian encoding of a 32-bit counter.
pub open spec fn counter_byte(v: u32, i: int) -> u8 {
    ((v >> ((8 * i) as u32)) & 0xff) as u8
}

/// The 4-byte little-endian encoding of a 32-bit counter.
pub open spec fn counter_bytes(v: u32) -> Seq<u8> {
    Seq::new(4, |i: int| counter_byte(v, i))
}

/// The encoding of a counter table: each counter's 4 bytes in order.
pub open spec fn counter_table_bytes(table: Seq<u32>) -> Seq<u8>
    decreases table.len(),
{
    if table.len() == 0 {
        Seq::empty()
    } else {
        counter_table_bytes(table.drop_last()) + counter_bytes(table.last())
    }
}

/// Append the 8 little-endian bytes of a word.
fn push_word_le(out: &mut Vec<u8>, v: usize)
    ensures
        final(out)@ == old(out)@ + word_bytes(v),
{
    let word = v as u64;
    let mut i: u64 = 0;
    while i < 8
        invariant
            0 <= i <= 8,
            word == v as u64,
            out@ == old(out)@ + Seq::new(i as nat, |j: int| word_byte(v, j)),
        decreases 8 - i,
    {
        let shift = 8 * i;
        assert((word >> shift) & 0xff < 256) by (bit_vector);
        let byte = ((word >> shift) & 0xff) as u8;
        out.push(byte);
        proof {
            assert(Seq::new((i + 1) as nat, |j: int| word_byte(v, j)) =~= Seq::new(
                i as nat,
                |j: int| word_byte(v, j),
            ).push(word_byte(v, i as int)));
        }
        i = i + 1;
    }
    proof {
        assert(Seq::new(8, |j: int| word_byte(v, j)) =~= word_bytes(v));
    }
}

/// Append the 4 little-endian bytes of a 32-bit counter.
fn push_counter_le(out: &mut Vec<u8>, v: u32)
    ensures
        final(out)@ == old(out)@ + counter_bytes(v),
{
    let mut i: u32 = 0;
    while i < 4
        invariant
            0 <= i <= 4,
            out@ == old(out)@ + Seq::new(i as nat, |j: int| counter_byte(v, j)),
        decreases 4 - i,
    {
        let shift = 8 * i;
        assert((v >> shift) & 0xff < 256) by (bit_vector);
        let byte = ((v >> shift) & 0xff) as u8;
        out.push(byte);
        proof {
            assert(Seq::new((i + 1) as nat, |j: int| counter_byte(v, j)) =~= Seq::new(
                i as nat,
                |j: int| counter_byte(v, j),
            ).push(counter_byte(v, i as int)));
        }
        i = i + 1;
    }
    proof {
        assert(Seq::new(4, |j: int| counter_byte(v, j)) =~= counter_bytes(v));
    }
}

/// The (seconds, microseconds) pair copied out by the time syscall,
/// with the fixed C-compatible layout of two words.
#[derive(Clone, Copy, Debug, PartialEq, Eq, Structural)]
pub struct TimeVal {
    /// Whole seconds.
    pub sec: usize,
    /// Remaining microseconds, below one million.
    pub usec: usize,
}

/// The C-compatible byte image of a `TimeVal`: `sec` then `usec`,
/// little endian.
pub open spec fn time_val_bytes(tv: TimeVal) -> Seq<u8> {
    word_bytes(tv.sec) + word_bytes(tv.usec)
}

/// The `TimeVal` a microsecond reading splits into.
pub open spec fn time_val_of_us(us: usize) -> TimeVal {
    TimeVal { sec: (us / 1000000) as usize, usec: (us % 1000000) as usize }
}

impl TimeVal {
    /// Split a microsecond timer reading into seconds and the
    /// sub-second remainder.
    pub fn from_us(us: usize) -> (tv: TimeVal)
        ensures
            tv == time_val_of_us(us),
            tv.usec < 1000000,
    {
        TimeVal { sec: us / 1000000, usec: us % 1000000 }
    }

    /// The value's byte image, as it is laid out for the copy to user
    /// space.
    pub fn to_bytes(&self) -> (bytes: Vec<u8>)
        ensures
            bytes@ == time_val_bytes(*self),
            bytes@.len() == TIME_VAL_BYTES,
    {
        let mut out: Vec<u8> = Vec::new();
        push_word_le(&mut out, self.sec);
        push_word_le(&mut out, self.usec);
        proof {
            assert(out@ =~= time_val_bytes(*self));
        }
        out
    }
}

/// The status code a task's lifecycle state is copied out as.
pub open spec fn status_code_of(status: TaskStatus) -> u32 {
    match status {
        TaskStatus::Ready => 0,
        TaskStatus::Running => 1,
        TaskStatus::Exited => 2,
    }
}

/// The per-task record copied out by the task-info syscall: lifecycle
/// status, the full syscall-count table, and elapsed running time in
/// milliseconds since the kernel-scheduler epoch.
#[derive(Debug)]
pub struct TaskInfo {
    /// Lifecycle status of the queried task.
    pub status: TaskStatus,
    /// Counter table, one slot per recognized syscall number.
    pub syscall_times: Vec<u32>,
    /// Elapsed milliseconds since the kernel-scheduler epoch.
    pub time: usize,
}

/// The C-compatible byte image of a `TaskInfo`: the 4-byte status
/// code, the counter table, then the elapsed-time word.
pub open spec fn task_info_bytes(ti: TaskInfo) -> Seq<u8> {
    counter_bytes(status_code_of(ti.status)) + counter_table_bytes(ti.syscall_times@) + word_bytes(
        ti.time,
    )
}

impl TaskInfo {
    /// The record's byte image, as it is laid out for the copy to user
    /// space.
    pub fn to_bytes(&self) -> (bytes: Vec<u8>)
        requires
            self.syscall_times@.len() == MAX_SYSCALL_NUM,
        ensures
            bytes@ == task_info_bytes(*self),
            bytes@.len() == TASK_INFO_BYTES,
    {
        let mut out: Vec<u8> = Vec::new();
        let code: u32 = match self.status {
            TaskStatus::Ready => 0,
            TaskStatus::Running => 1,
            TaskStatus::Exited => 2,
        };
        push_counter_le(&mut out, code);
        let n = self.syscall_times.len();
        let mut i: usize = 0;
        while i < n
            invariant
                0 <= i <= n,
                n == self.syscall_times@.len(),
                out@ == counter_bytes(status_code_of(self.status)) + counter_table_bytes(
                    self.syscall_times@.subrange(0, i as int),
                ),
                out@.len() == 4 + 4 * i,
            decreases n - i,
        {
            proof {
                assert(self.syscall_times@.subrange(0, i + 1).drop_last() =~= self.syscall_times@
                    .subrange(0, i as int));
                assert(self.syscall_times@.subrange(0, i + 1).last() == self.syscall_times@[
                    i as int
                ]);
            }
            push_counter_le(&mut out, self.syscall_times[i]);
            i = i + 1;
        }
        proof {
            assert(self.syscall_times@.subrange(0, n as int) =~= self.syscall_times@);
        }
        push_word_le(&mut out, self.time);
        out
    }
}

/// The task exits with the given code: its status leaves the schedulable
/// states for good. The exit code and the switch to the next scheduled
/// task are the external lifecycle collaborator's business; control
/// must never return to the task, so the dispatch path treats reaching
/// the instruction after the switch as a fatal invariant violation.
pub fn sys_exit(task: &mut Task, _exit_code: i32)
    ensures
        *final(task) == (Task { status: TaskStatus::Exited, ..*old(task) }),
{
    task.status = TaskStatus::Exited;
}

/// The current task gives up the rest of its time slice: it becomes
/// ready again and re-enters the back of the ready queue, and the next
/// scheduled task is dispatched. Always returns 0 once control comes
/// back to the yielding task.
pub fn sys_yield(mgr: &mut TaskManager, task: Task) -> (result: isize)
    ensures
        final(mgr).queue() == old(mgr).queue().push(
            (Task { status: TaskStatus::Ready, ..task }),
        ),
        final(mgr).spec_start_time() == old(mgr).spec_start_time(),
        result == 0,
{
    let mut task = task;
    task.status = TaskStatus::Ready;
    mgr.add(task);
    0
}

/// Split the monotonic microsecond reading into a `TimeVal` and copy
/// its bytes out to the destination slices the address translator
/// resolved for the user's pointer (their total size is the value's
/// size, however many pages they span). The time-zone argument is
/// accepted and unused. Always returns 0.
pub fn sys_get_time(dst: &mut Vec<Vec<u8>>, us: usize, _tz: usize) -> (result: isize)
    requires
        flat_bytes(old(dst)@).len() == TIME_VAL_BYTES,
    ensures
        final(dst)@.len() == old(dst)@.len(),
        forall|j: int| 0 <= j < old(dst)@.len() ==> (#[trigger] final(dst)@[j])@.len() == old(
            dst,
        )@[j]@.len(),
        flat_bytes(final(dst)@) == time_val_bytes(time_val_of_us(us)),
        result == 0,
{
    let tv = TimeVal::from_us(us);
    let bytes = tv.to_bytes();
    copyout(dst, &bytes);
    0
}

/// The `TaskInfo` record the task-info syscall copies out for the
/// current task: its status, its counter table, and the kernel time
/// elapsed since the scheduler epoch.
pub open spec fn task_info_of(task: Task, now_ms: usize, start_ms: usize) -> TaskInfo {
    TaskInfo {
        status: task.status,
        syscall_times: task.syscall_times,
        time: (now_ms - start_ms) as usize,
    }
}

/// Assemble the current task's status, syscall-count table and elapsed
/// running time (current kernel milliseconds minus the scheduler
/// epoch), and copy the record's bytes out to the resolved destination
/// slices. Always returns 0.
pub fn sys_task_info(dst: &mut Vec<Vec<u8>>, task: &Task, now_ms: usize, start_ms: usize) -> (result:
    isize)
    requires
        task.wf(),
        start_ms <= now_ms,
        flat_bytes(old(dst)@).len() == TASK_INFO_BYTES,
    ensures
        final(dst)@.len() == old(dst)@.len(),
        forall|j: int| 0 <= j < old(dst)@.len() ==> (#[trigger] final(dst)@[j])@.len() == old(
            dst,
        )@[j]@.len(),
        flat_bytes(final(dst)@) == task_info_bytes(task_info_of(*task, now_ms, start_ms)),
        result == 0,
{
    let mut times: Vec<u32> = Vec::new();
    let n = task.syscall_times.len();
    let mut i: usize = 0;
    while i < n
        invariant
            0 <= i <= n,
            n == task.syscall_times@.len(),
            times@ == task.syscall_times@.subrange(0, i as int),
        decreases n - i,
    {
        times.push(task.syscall_times[i]);
        proof {
            assert(times@ =~= task.syscall_times@.subrange(0, i + 1));
        }
        i = i + 1;
    }
    proof {
        assert(task.syscall_times@.subrange(0, n as int) =~= task.syscall_times@);
    }
    let info = TaskInfo { status: task.status, syscall_times: times, time: now_ms - start_ms };
    let bytes = info.to_bytes();
    copyout(dst, &bytes);
    0
}

/// Number of pages a byte length occupies, rounding the last partial
/// page up; a zero length occupies no page.
pub open spec fn num_pages(len: int) -> int {
    len / (PAGE_SIZE as int) + if len % (PAGE_SIZE as int) == 0 {
        0int
    } else {
        1int
    }
}

/// A byte length rounded up to the next page-size multiple.
pub open spec fn round_up_to_pages(len: int) -> int {
    num_pages(len) * PAGE_SIZE
}

/// The mapping-permission bits a valid `port` argument translates to:
/// the three R/W/X bits shifted into place, with the user-accessible
/// bit forced on (the kernel never maps user memory without it).
pub open spec fn perm_bits_of(port: int) -> u8 {
    (port * 2 + 16) as u8
}

/// When `sys_mmap` installs a mapping: the start is page-aligned, only
/// the low three permission bits are set and at least one of them, the
/// whole rounded range lies within the address space, and no page of it
/// is already mapped.
pub open spec fn mmap_accepts(m: Map<int, u8>, start: int, len: int, port: int) -> bool {
    &&& start % (PAGE_SIZE as int) == 0
    &&& 1 <= port <= 7
    &&& start / (PAGE_SIZE as int) + num_pages(len) <= (usize::MAX as int) / (PAGE_SIZE as int)
    &&& range_free(m, start / (PAGE_SIZE as int), start / (PAGE_SIZE as int) + num_pages(len))
}

/// When `sys_munmap` removes a range: the start is page-aligned, the
/// length is an exact page-size multiple (no rounding here), the range
/// lies within the address space, and every page of it is mapped.
pub open spec fn munmap_accepts(m: Map<int, u8>, start: int, len: int) -> bool {
    &&& start % (PAGE_SIZE as int) == 0
    &&& len % (PAGE_SIZE as int) == 0
    &&& start / (PAGE_SIZE as int) + len / (PAGE_SIZE as int) <= (usize::MAX as int) / (
    PAGE_SIZE as int)
    &&& range_mapped(m, start / (PAGE_SIZE as int), start / (PAGE_SIZE as int) + len / (
    PAGE_SIZE as int))
}

/// Map the page range covering `[start, start + len)` — the length
/// rounded up to whole pages — with the permissions the low three bits
/// of `port` name, for the current task's address space. Rejects a
/// misaligned start, a malformed `port`, and any overlap with an
/// existing mapping, with no change in those cases; installs the range
/// and returns 0 otherwise.
pub fn sys_mmap(space: &mut AddressSpace, start: usize, len: usize, port: usize) -> (result: isize)
    ensures
        result == 0 || result == -1,
        (result == 0) == mmap_accepts(old(space)@, start as int, len as int, port as int),
        result == 0 ==> final(space)@ == with_range(
            old(space)@,
            start as int / (PAGE_SIZE as int),
            start as int / (PAGE_SIZE as int) + num_pages(len as int),
            perm_bits_of(port as int),
        ),
        result == -1 ==> final(space)@ == old(space)@,
        start as int % (PAGE_SIZE as int) != 0 ==> result == -1,
        !(1 <= port <= 7) ==> result == -1,
{
    if start % PAGE_SIZE != 0 {
        return -1;
    }
    if port == 0 || port > 7 {
        return -1;
    }
    let pages = len / PAGE_SIZE + if len % PAGE_SIZE == 0 {
        0
    } else {
        1
    };
    let start_vpn = start / PAGE_SIZE;
    if pages > usize::MAX / PAGE_SIZE - start_vpn {
        return -1;
    }
    let perm = (port as u8) * 2 + 16;
    if space.install(start_vpn, start_vpn + pages, perm) {
        0
    } else {
        -1
    }
}

/// Unmap the page range `[start, start + len)`. Rejects a misaligned
/// start, a length that is not an exact page-size multiple, and a range
/// of which any page is not mapped, with no change in those cases;
/// removes the whole range and returns 0 otherwise.
pub fn sys_munmap(space: &mut AddressSpace, start: usize, len: usize) -> (result: isize)
    ensures
        result == 0 || result == -1,
        (result == 0) == munmap_accepts(old(space)@, start as int, len as int),
        result == 0 ==> final(space)@ == without_range(
            old(space)@,
            start as int / (PAGE_SIZE as int),
            start as int / (PAGE_SIZE as int) + len as int / (PAGE_SIZE as int),
        ),
        result == -1 ==> final(space)@ == old(space)@,
        start as int % (PAGE_SIZE as int) != 0 ==> result == -1,
{
    if start % PAGE_SIZE != 0 {
        return -1;
    }
    if len % PAGE_SIZE != 0 {
        return -1;
    }
    let pages = len / PAGE_SIZE;
    let start_vpn = start / PAGE_SIZE;
    if pages > usize::MAX / PAGE_SIZE - start_vpn {
        return -1;
    }
    if space.remove(start_vpn, start_vpn + pages) {
        0
    } else {
        -1
    }
}

/// A successful `sys_mmap` followed by `sys_munmap` of the same start
/// and the rounded-up length leaves no residual mapping: the removal is
/// accepted, and the mapping state returns to exactly what it was
/// before the pair.
pub proof fn lemma_mmap_munmap_round_trip(m: Map<int, u8>, start: usize, len: usize, port: usize)
    requires
        mmap_accepts(m, start as int, len as int, port as int),
    ensures
        ({
            let installed = with_range(
                m,
                start as int / (PAGE_SIZE as int),
                start as int / (PAGE_SIZE as int) + num_pages(len as int),
                perm_bits_of(port as int),
            );
            &&& munmap_accepts(installed, start as int, round_up_to_pages(len as int))
            &&& without_range(
                installed,
                start as int / (PAGE_SIZE as int),
                start as int / (PAGE_SIZE as int) + round_up_to_pages(len as int) / (
                PAGE_SIZE as int),
            ) == m
        }),
{
    let ps = PAGE_SIZE as int;
    let pages = num_pages(len as int);
    let svpn = start as int / ps;
    let rounded = round_up_to_pages(len as int);
    assert(rounded == pages * ps);
    assert(pages >= 0);
    assert((pages * ps) % ps == 0 && (pages * ps) / ps == pages) by (nonlinear_arith)
        requires
            ps > 0,
            pages >= 0,
    ;
    let installed = with_range(m, svpn, svpn + pages, perm_bits_of(port as int));
    assert(without_range(installed, svpn, svpn + pages) =~= m);
}

/// Grow or shrink the calling task's data segment by `size` bytes
/// (negative shrinks). On success the break moves and the previous
/// break address is returned; the request fails with -1, the segment
/// untouched, when it would push the break below the segment's floor or
/// beyond the representable address range.
pub fn sys_sbrk(task: &mut Task, size: i32) -> (result: isize)
    requires
        old(task).wf(),
    ensures
        ({
            let new_brk = old(task).program_brk + size as int;
            if old(task).heap_bottom <= new_brk <= isize::MAX {
                &&& result == old(task).program_brk as isize
                &&& *final(task) == (Task { program_brk: new_brk as usize, ..*old(task) })
                &&& final(task).wf()
            } else {
                &&& result == -1
                &&& *final(task) == *old(task)
            }
        }),
{
    let old_brk = task.program_brk;
    if size >= 0 {
        let grow = size as usize;
        if grow <= (isize::MAX as usize) - task.program_brk {
            task.program_brk = task.program_brk + grow;
            old_brk as isize
        } else {
            -1
        }
    } else {
        let shrink = (-(size as i64)) as usize;
        if shrink <= task.program_brk && task.program_brk - shrink >= task.heap_bottom {
            task.program_brk = task.program_brk - shrink;
            old_brk as isize
        } else {
            -1
        }
    }
}

} // verus!
