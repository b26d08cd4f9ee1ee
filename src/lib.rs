//! Task-execution core of a small kernel: the modelled hart registers, kernel
//! stacks and task control blocks, the per-CPU current-task registry and the
//! lazy address-space switch, plus the user-memory helpers used by system calls.

pub mod arch;
pub mod task;
pub mod current;
pub mod syscall;
