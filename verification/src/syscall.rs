//! The syscall dispatch layer: one handler per syscall.  Each handler
//! validates its raw arguments, invokes exactly one collaborator
//! operation, and collapses the outcome to the fixed signed return
//! convention: 0 for success, -1 for every failure.
//!
//! Handlers that write into user memory (`get_time`, `task_info`)
//! translate the raw user pointer through the region map first; the
//! value to store is handed back to the trap-return path, which owns
//! the actual dereference.

use vstd::prelude::*;

use crate::config::PAGE_SIZE;
use crate::mm::{
    map_after_mmap, map_after_munmap, mmap_accepts, munmap_accepts, writable_at, MemorySet,
};
use crate::task::{TaskControlBlock, TaskInfo, TaskStatus};
use crate::time::{Clock, TimeVal};

verus! {

/// Terminate the current task: retire it and hand control to the
/// scheduler, which never returns to the caller.  The exit code is
/// accepted for reporting outside this layer and has no effect on the
/// kernel state modelled here.  Never fails.
pub fn sys_exit(task: &mut TaskControlBlock, _exit_code: i32)
    ensures
        final(task).status == TaskStatus::Exited,
        final(task).syscall_times@ == old(task).syscall_times@,
        final(task).start_time == old(task).start_time,
{
    task.exit();
}

/// Give the processor up cooperatively: the current task is suspended
/// and the scheduler may run another ready task.  Always succeeds with
/// return value 0.
pub fn sys_yield(task: &mut TaskControlBlock) -> (r: isize)
    ensures
        r == 0,
        final(task).status == TaskStatus::Ready,
        final(task).syscall_times@ == old(task).syscall_times@,
        final(task).start_time == old(task).start_time,
{
    task.suspend();
    0
}

/// Read the microsecond clock and decompose it into whole seconds and
/// the microsecond remainder.  On success the pair is handed back,
/// with return value 0, for the trap-return path to store at the
/// translated user address `ts`; if the page holding `ts` is not
/// mapped writable the call fails with -1 and hands nothing back.
/// The timezone argument is reserved and ignored.
pub fn sys_get_time(clock: &Clock, mem: &MemorySet, ts: usize, _tz: usize) -> (r: (isize, Option<TimeVal>))
    requires
        mem.wf(),
    ensures
        writable_at(mem@, ts) ==> r.0 == 0 && r.1 is Some,
        !writable_at(mem@, ts) ==> r.0 == -1 && r.1 is None,
        r.1 matches Some(tv) ==> tv.sec as int * 1_000_000 + tv.usec as int == clock.us as int,
        r.1 matches Some(tv) ==> tv.usec < 1_000_000,
{
    if mem.translate_writable(ts) {
        let us: usize = clock.get_time_us();
        let tv = TimeVal { sec: us / 1_000_000, usec: us % 1_000_000 };
        proof {
            vstd::arithmetic::div_mod::lemma_fundamental_div_mod(us as int, 1_000_000);
            vstd::arithmetic::div_mod::lemma_mod_bound(us as int, 1_000_000);
        }
        (0, Some(tv))
    } else {
        (-1, None)
    }
}

/// Scheduling-policy experimentation is disabled in this kernel
/// configuration: every priority request is refused with -1, whatever
/// the requested value.
pub fn sys_set_priority(_prio: isize) -> (r: isize)
    ensures
        r == -1,
{
    -1
}

/// Create a mapping of the byte range `[start, start + len)` with
/// permission bits `port` for the current task.  Validation, in
/// order: `start` must be page-aligned; `port` must have no bit set
/// outside the low three (readable, writable, executable); `port`
/// must be nonzero.  A request that fails validation, or that the
/// mapping manager refuses, returns -1 and leaves the region map
/// unchanged; an accepted request returns 0.
pub fn sys_mmap(mem: &mut MemorySet, start: usize, len: usize, port: usize) -> (r: isize)
    requires
        old(mem).wf(),
    ensures
        final(mem).wf(),
        r == 0 || r == -1,
        start % PAGE_SIZE != 0 ==> r == -1 && final(mem)@ == old(mem)@,
        port >= 8 ==> r == -1 && final(mem)@ == old(mem)@,
        port == 0 ==> r == -1 && final(mem)@ == old(mem)@,
        start % PAGE_SIZE == 0 && 0 < port < 8 && mmap_accepts(old(mem)@, start, len, port)
            ==> r == 0 && final(mem)@ == map_after_mmap(old(mem)@, start, len, port),
        start % PAGE_SIZE == 0 && 0 < port < 8 && !mmap_accepts(old(mem)@, start, len, port)
            ==> r == -1 && final(mem)@ == old(mem)@,
{
    if start % PAGE_SIZE != 0 {
        return -1;
    }
    if port > 7 || port == 0 {
        return -1;
    }
    if mem.map_region(start, len, port) {
        0
    } else {
        -1
    }
}

/// Tear down the mapping of the byte range `[start, start + len)` for
/// the current task.  `start` must be page-aligned, else the call
/// returns -1 untouched; otherwise the mapping manager removes the
/// range and the call returns 0, or -1 if the range is not entirely
/// mapped, leaving the region map unchanged.
pub fn sys_munmap(mem: &mut MemorySet, start: usize, len: usize) -> (r: isize)
    requires
        old(mem).wf(),
    ensures
        final(mem).wf(),
        r == 0 || r == -1,
        start % PAGE_SIZE != 0 ==> r == -1 && final(mem)@ == old(mem)@,
        start % PAGE_SIZE == 0 && munmap_accepts(old(mem)@, start, len)
            ==> r == 0 && final(mem)@ == map_after_munmap(old(mem)@, start, len),
        start % PAGE_SIZE == 0 && !munmap_accepts(old(mem)@, start, len)
            ==> r == -1 && final(mem)@ == old(mem)@,
{
    if start % PAGE_SIZE != 0 {
        return -1;
    }
    if mem.unmap_region(start, len) {
        0
    } else {
        -1
    }
}

/// Build a snapshot of the current task: the status (reported as
/// Running unconditionally — a documented invariant of this layer,
/// whatever the scheduler-internal state), a copy of the live
/// per-syscall invocation counters, and the milliseconds elapsed
/// since the task's recorded first scheduling, which is why the
/// recorded start time may not lie in the future of the clock.  On
/// success the snapshot is handed back, with return value 0, for the
/// trap-return path to store at the translated user address `ti`; if
/// the page holding `ti` is not mapped writable the call fails with
/// -1 and hands nothing back.
pub fn sys_task_info(clock: &Clock, mem: &MemorySet, task: &TaskControlBlock, ti: usize) -> (r: (isize, Option<TaskInfo>))
    requires
        mem.wf(),
        task.wf(),
        task.start_time as int <= clock.us as int / 1000,
    ensures
        writable_at(mem@, ti) ==> r.0 == 0 && r.1 is Some,
        !writable_at(mem@, ti) ==> r.0 == -1 && r.1 is None,
        r.1 matches Some(info) ==> info.status == TaskStatus::Running,
        r.1 matches Some(info) ==> info.syscall_times@ == task.syscall_times@,
        r.1 matches Some(info) ==> info.time as int == clock.us as int / 1000 - task.start_time as int,
{
    if mem.translate_writable(ti) {
        let ms: usize = clock.get_time_ms();
        let info = TaskInfo {
            status: TaskStatus::Running,
            syscall_times: task.copy_syscall_times(),
            time: ms - task.start_time,
        };
        (0, Some(info))
    } else {
        (-1, None)
    }
}

} // verus!
