//! The platform on Windows in user mode.
pub mod allocation;
pub mod guest_laws;
pub mod memory;
pub mod thread;
pub mod time;
