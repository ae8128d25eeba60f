# litebox

The decisions of a library OS as verified Rust: the Linux shim with its processes, signals and system
calls, the platform that runs it in a secure virtual trust level (LVBS) with its page tables and its
service to the kernel below, the platform on Windows, and the SNP runner's start.

- `src/shim`: tasks, signals and their delivery, clocks, limits, `execve`, system calls.
- `src/lvbs`: validation of modules, kexec images and text patches, memory protection, page tables,
  mappings of physical pages, randomness, the hypervisor's registers.
- `src/windows`: memory by regions, threads, time.
- `src/snp.rs`, `src/time.rs`, `src/addr.rs`, `src/bytes.rs`: the runner, durations, addresses, bytes.
- `app`: what performs the actions that the library asks for.

An operation that needs the hypervisor, a page table or the guest's memory is a machine. It names the
next action, takes the outcome, and its contract states what follows each outcome. The records of the
kernel in VTL0 are decoded by functions that the caller hands in; the contracts state which bytes they
are given.

Properties that span several functions are public proof functions whose names start with `law_`.
