//! The scheduler-visible model of a task control block.
//!
//! The full task lifecycle (creation, context switch, exit bookkeeping)
//! belongs to an external collaborator; this type holds exactly the
//! fields the scheduler and the syscalls read or write: the lifecycle
//! status, the stride accumulator with its per-selection increment, the
//! per-syscall counter table, and the data-segment bounds.

use vstd::prelude::*;
use crate::config::MAX_SYSCALL_NUM;

verus! {

/// Lifecycle state of a task, as far as this core observes it.
#[derive(Clone, Copy, Debug, PartialEq, Eq, Structural)]
pub enum TaskStatus {
    /// Eligible to run; may sit in the ready queue.
    Ready,
    /// Currently holding the CPU.
    Running,
    /// Finished; never scheduled again.
    Exited,
}

/// One schedulable unit.
pub struct Task {
    /// Identity of the task, stable across add/fetch round trips.
    pub id: usize,
    /// Lifecycle state.
    pub status: TaskStatus,
    /// Distance accumulator of stride scheduling: the task with the
    /// least accumulated stride is due next.
    pub stride: u64,
    /// Per-selection increment, derived from the task's priority
    /// (a higher priority yields a smaller increment).
    pub pass: u64,
    /// Counter table, one slot per recognized syscall number,
    /// incremented by the external dispatch path.
    pub syscall_times: Vec<u32>,
    /// Floor of the dynamically sized data segment.
    pub heap_bottom: usize,
    /// Current program break: the segment's upper boundary.
    pub program_brk: usize,
}

/// The stride accumulator after one advance: it grows by `pass`,
/// saturating at the top of the counter's range, so it is monotonically
/// non-decreasing across scheduling decisions.
pub open spec fn stride_after(stride: u64, pass: u64) -> u64 {
    if stride + pass <= u64::MAX {
        (stride + pass) as u64
    } else {
        u64::MAX
    }
}

impl Task {
    /// A task this core can work on: the counter table has one slot per
    /// recognized syscall number, and the data segment is well-placed
    /// (its break never below its floor, and representable in the
    /// signed word the syscall convention returns).
    pub open spec fn wf(self) -> bool {
        &&& self.syscall_times@.len() == MAX_SYSCALL_NUM
        &&& self.heap_bottom <= self.program_brk
        &&& self.program_brk <= (isize::MAX as usize)
    }

    /// The same task after one stride advance.
    pub open spec fn spec_advanced(self) -> Task {
        Task { stride: stride_after(self.stride, self.pass), ..self }
    }

    /// Advance the stride accumulator by the task's own increment, as
    /// the scheduler does once for every selection of the task.
    pub fn add_stride(&mut self)
        ensures
            *final(self) == old(self).spec_advanced(),
    {
        if self.stride <= u64::MAX - self.pass {
            self.stride = self.stride + self.pass;
        } else {
            self.stride = u64::MAX;
        }
    }
}

} // verus!
