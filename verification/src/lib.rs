//! The system-call boundary of a single-address-space teaching kernel:
//! handlers that validate trap-raised requests from user tasks and turn
//! them into operations on the active task's region map, its control
//! block, and the global time source.
//!
//! The collaborating subsystems are modelled as data passed explicitly
//! into each handler: a [`time::Clock`] for the monotonic time source,
//! a [`mm::MemorySet`] for the active task's memory mapping, and a
//! [`task::TaskControlBlock`] for the scheduler's per-task record.

pub mod config;
pub mod mm;
pub mod syscall;
pub mod task;
pub mod time;
