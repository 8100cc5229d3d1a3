//! Kernel-wide constants.

use vstd::prelude::*;

verus! {

/// Size in bytes of one page, the unit of mapping granularity.
pub const PAGE_SIZE: usize = 4096;

/// Number of recognized syscall numbers; the per-task syscall counter
/// table has one 32-bit slot per number.
pub const MAX_SYSCALL_NUM: usize = 500;

} // verus!
