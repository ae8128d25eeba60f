//! The platform that runs in virtual trust level 1 of a Hyper-V partition.
pub mod bootparam;
pub mod cert;
pub mod container;
pub mod crng;
pub mod error;
pub mod flow_laws;
pub mod heki;
pub mod heki_laws;
pub mod kdata;
pub mod kernel;
pub mod kernel_info;
pub mod kexec;
pub mod load_laws;
pub mod mapping;
pub mod memory_laws;
pub mod mm;
pub mod module;
pub mod module_ops;
pub mod mprotect;
pub mod mshv;
pub mod paging;
pub mod patch;
pub mod remap;
pub mod ringbuffer;
pub mod symbol;
pub mod text_patch;
pub mod unmap;
pub mod vmap;
pub mod vmap_ops;
pub mod vsm;
pub mod vsm_laws;
