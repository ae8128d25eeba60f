//! Verified core of a library OS.
pub mod addr;
pub mod bytes;
pub mod errno;
pub mod lvbs;
pub mod page_list;
pub mod shim;
pub mod snp;
pub mod time;
pub mod windows;
