//! The task-side collaborators: the status enumeration, the task
//! control block owned by the scheduler, and the snapshot record that
//! `task_info` reports.

use vstd::prelude::*;

use crate::config::MAX_SYSCALL_NUM;

verus! {

/// Scheduling status of a task.
#[derive(Clone, Copy, Debug, PartialEq, Eq, Structural)]
pub enum TaskStatus {
    Uninitialized,
    Ready,
    Running,
    Exited,
}

/// The scheduler's per-task record: status, per-syscall invocation
/// counters (indexed by syscall id), and the millisecond timestamp of
/// the task's first scheduling.  The syscall layer borrows it for the
/// duration of one call and holds no state across calls.
pub struct TaskControlBlock {
    pub status: TaskStatus,
    pub syscall_times: Vec<u32>,
    pub start_time: usize,
}

impl TaskControlBlock {
    /// The counter array has exactly one slot per syscall id.
    pub open spec fn wf(&self) -> bool {
        self.syscall_times@.len() == MAX_SYSCALL_NUM
    }

    pub fn new(status: TaskStatus, syscall_times: Vec<u32>, start_time: usize) -> (r: TaskControlBlock)
        requires
            syscall_times@.len() == MAX_SYSCALL_NUM,
        ensures
            r.wf(),
            r.status == status,
            r.syscall_times@ == syscall_times@,
            r.start_time == start_time,
    {
        TaskControlBlock { status, syscall_times, start_time }
    }

    /// Scheduler hand-off for a cooperative yield: the task leaves the
    /// processor and becomes ready to be scheduled again.
    pub fn suspend(&mut self)
        ensures
            final(self).status == TaskStatus::Ready,
            final(self).syscall_times@ == old(self).syscall_times@,
            final(self).start_time == old(self).start_time,
    {
        self.status = TaskStatus::Ready;
    }

    /// Scheduler hand-off for termination: the task is retired and is
    /// never scheduled again.
    pub fn exit(&mut self)
        ensures
            final(self).status == TaskStatus::Exited,
            final(self).syscall_times@ == old(self).syscall_times@,
            final(self).start_time == old(self).start_time,
    {
        self.status = TaskStatus::Exited;
    }

    /// A copy of the live per-syscall invocation counters.
    #[verifier::loop_isolation(false)]
    pub fn copy_syscall_times(&self) -> (r: Vec<u32>)
        ensures
            r@ == self.syscall_times@,
    {
        let mut r: Vec<u32> = Vec::new();
        let mut i: usize = 0;
        while i < self.syscall_times.len()
            invariant
                i <= self.syscall_times@.len(),
                r@ == self.syscall_times@.take(i as int),
            decreases self.syscall_times@.len() - i,
        {
            r.push(self.syscall_times[i]);
            proof {
                assert(r@ =~= self.syscall_times@.take(i as int + 1));
            }
            i = i + 1;
        }
        proof {
            assert(self.syscall_times@.take(self.syscall_times@.len() as int) =~= self.syscall_times@);
        }
        r
    }
}

/// Snapshot reported by `task_info`: a read-only projection of the
/// live task control block at the instant of the call, constructed
/// fresh on every invocation and never stored between calls.
#[derive(Clone, Debug)]
pub struct TaskInfo {
    pub status: TaskStatus,
    pub syscall_times: Vec<u32>,
    pub time: usize,
}

} // verus!
