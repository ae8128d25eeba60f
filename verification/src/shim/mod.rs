//! The Linux-compatible shim: system calls, processes, threads and signals.
pub mod clock;
pub mod delivery;
pub mod entry;
pub mod exec_laws;
pub mod execve;
pub mod limits;
pub mod pending;
pub mod process;
pub mod robust;
pub mod shebang;
pub mod signal;
pub mod signal_laws;
pub mod sigset;
pub mod syscall;
pub mod syscall_laws;
pub mod task;
pub mod task_laws;
pub mod thread;
