//! Verified core of a teaching-kernel's process scheduling and
//! memory-mediated syscalls: a stride scheduler over a ready queue,
//! a page-aware cross-address-space copy primitive, and the syscall
//! transitions (time, task info, mmap, munmap, sbrk, yield, exit)
//! that depend on precise page-granularity semantics.
//!
//! External collaborators (the timer, the page-table walker, the trap
//! plumbing) are out of scope: their readings enter as plain arguments,
//! and the state they own is modelled by the types of this crate.

pub mod config;
pub mod task;
pub mod manager;
pub mod mm;
pub mod copyout;
pub mod syscall;
