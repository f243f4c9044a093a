//! Compile-time constants of the kernel configuration.

use vstd::prelude::*;

verus! {

/// Number of bytes in one page of virtual memory.  An address is
/// page-aligned exactly when it is a multiple of this constant, that
/// is, when all of its bits below the page-size bit boundary are zero.
pub const PAGE_SIZE: usize = 4096;

/// Exclusive upper bound on syscall ids: the per-task invocation
/// counters form an array of this length, indexed by syscall id.
pub const MAX_SYSCALL_NUM: usize = 500;

} // verus!
