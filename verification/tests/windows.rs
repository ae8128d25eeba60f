use std::collections::BTreeMap;

use litebox::lvbs::kernel::{AllocationError, ContinueOperation, FixedAddressBehavior};
use litebox::lvbs::paging::VmFlags;
use litebox::shim::entry::TaskParams;
use litebox::shim::signal::ExceptionInfo;
use litebox::shim::sigset::SIGINT;
use litebox::shim::thread::PtRegs;
use litebox::time::Duration;
use litebox::windows::memory::{
    alloc_size, allocate_pages, deallocate_pages, process_memory_range_by_regions, prot_flags,
    read_memory_maps, round_down_to_granu, round_up_to_granu, update_permissions, AddrRange, MemAction,
    MemReply, Region, RegionState, PAGE_EXECUTE_READ, PAGE_EXECUTE_READWRITE, PAGE_NOACCESS,
    PAGE_READONLY, PAGE_READWRITE,
};
use litebox::windows::thread::{
    ctrl_c_handler, exception_handler, init_task, interrupt, interrupt_guest, interrupt_target, is_in_ntdll_or_this,
    save_guest_context, set_context_to_interrupt_callback, switch_to_guest,
    vectored_exception_handler, ActiveThreads, Callbacks, CodeMap, CodeRange, Context, ExceptionPath, Fault,
    InterruptTarget, SwitchPath, TlsState, ACCESS_VIOLATION, BREAKPOINT, ILLEGAL_INSTRUCTION,
    INT_DIVIDE_BY_ZERO,
};
use litebox::windows::time::{
    block_or_maybe_timeout, set_timer, timeout_millis, wake_many, DueTime, Instant, SystemTime,
    UnblockedOrTimedOut, WakePlan, ERROR_TIMEOUT, INFINITE, UNIX_EPOCH,
};

const PAGE: u64 = 0x1000;
const GRANULARITY: u64 = 0x1_0000;
const TOP: u64 = 0x7fff_ffff_0000;

const WRITE: VmFlags = VmFlags { read: false, write: true, execute: false };

/// Memory as the system keeps it: the pages that are not free.
struct FakeMemory {
    pages: BTreeMap<u64, RegionState>,
    next: u64,
    prefetched: Vec<(u64, u64)>,
}

impl FakeMemory {
    fn new() -> FakeMemory {
        FakeMemory { pages: BTreeMap::new(), next: 0x2000_0000, prefetched: Vec::new() }
    }

    fn state(&self, addr: u64) -> RegionState {
        *self.pages.get(&(addr / PAGE)).unwrap_or(&RegionState::Free)
    }

    /// The region at an address: the pages of the same state that follow.
    fn query(&self, addr: u64) -> Region {
        let state = self.state(addr);
        let end = match state {
            RegionState::Free => match self.pages.range(addr / PAGE..).next() {
                Some((page, _)) => page * PAGE,
                None => TOP,
            },
            _ => {
                let mut end = addr;
                while self.state(end) == state {
                    end += PAGE;
                }
                end
            },
        };
        Region { size: end - addr, state }
    }

    fn set(&mut self, addr: u64, len: u64, state: RegionState) {
        for page in addr / PAGE..(addr + len) / PAGE {
            self.pages.insert(page, state);
        }
    }

    fn perform(&mut self, action: MemAction) -> MemReply {
        match action {
            MemAction::Query { addr } => MemReply::Region(self.query(addr)),
            MemAction::Decommit { addr, len } => {
                self.set(addr, len, RegionState::Reserved);
                MemReply::Done
            },
            MemAction::Reserve { addr: 0, len } => {
                let at = self.next;
                self.next += len;
                self.set(at, len, RegionState::Reserved);
                MemReply::At(at)
            },
            MemAction::Reserve { addr, len } => {
                assert!(addr % GRANULARITY == 0 && len % GRANULARITY == 0);
                assert!(self.query(addr).state == RegionState::Free);
                self.set(addr, len, RegionState::Reserved);
                MemReply::Done
            },
            MemAction::Commit { addr, len, protection } => {
                assert_eq!(protection, PAGE_READWRITE);
                for page in addr / PAGE..(addr + len) / PAGE {
                    assert_eq!(self.pages.get(&page), Some(&RegionState::Reserved));
                }
                self.set(addr, len, RegionState::Committed);
                MemReply::Done
            },
            MemAction::Prefetch { addr, len } => {
                self.prefetched.push((addr, len));
                MemReply::Done
            },
            MemAction::Finished => unreachable!(),
        }
    }

    fn allocate(
        &mut self,
        start: u64,
        end: u64,
        behavior: FixedAddressBehavior,
    ) -> Result<u64, AllocationError> {
        let mut m = allocate_pages(start, end, WRITE, true, behavior, GRANULARITY);
        loop {
            if let Some(r) = m.result() {
                return r;
            }
            let reply = self.perform(m.action());
            m.advance(reply);
        }
    }

    fn collect_regions(&self, start: u64, end: u64) -> Vec<(u64, u64, RegionState)> {
        let mut regions = Vec::new();
        let mut walk = process_memory_range_by_regions(start, end);
        while let Some(addr) = walk.query() {
            let region = self.query(addr);
            let (at, len) = walk.take(region.size);
            regions.push((at, at + len, region.state));
        }
        regions
    }
}

#[test]
fn test_page_provider() {
    let mut memory = FakeMemory::new();
    let system_allocation_granularity = GRANULARITY;
    // Allocate some pages: it should reserve `system_allocation_granularity` bytes but only commit 0x1000 bytes
    let addr = memory.allocate(0, 0x1000, FixedAddressBehavior::Hint).unwrap();
    assert_eq!(
        memory.collect_regions(addr, addr + system_allocation_granularity),
        vec![
            (addr, addr + 0x1000, RegionState::Committed),
            (addr + 0x1000, addr + system_allocation_granularity, RegionState::Reserved),
        ]
    );

    assert!(system_allocation_granularity >= 0x1_0000);
    // We should be able to allocate [addr + 0x8000, addr + 0x1_0000)
    let addr2 = memory.allocate(addr + 0x8000, addr + 0x1_0000, FixedAddressBehavior::Hint).unwrap();
    // Even though `fixed_address` is false, we should still get the requested address if it's free.
    assert_eq!(addr2, addr + 0x8000);
    assert_eq!(
        memory.collect_regions(addr, addr + 0x1_0000),
        vec![
            (addr, addr + 0x1000, RegionState::Committed),
            (addr + 0x1000, addr + 0x8000, RegionState::Reserved),
            (addr + 0x8000, addr + 0x1_0000, RegionState::Committed),
        ]
    );

    // Try to allocate [addr + 0x4000, addr + 0x1_0000), which overlaps with existing committed pages.
    // OS should allocate a new region instead of the requested one (as `fixed_address` is false)
    let addr3 = memory.allocate(addr + 0x4000, addr + 0x1_0000, FixedAddressBehavior::Hint).unwrap();
    assert_ne!(addr3, addr + 0x4000);
    assert_eq!(
        memory.prefetched,
        vec![(addr, 0x1000), (addr2, 0x8000), (addr3, 0xc000)]
    );
}

#[test]
fn allocations_at_fixed_addresses() {
    let mut memory = FakeMemory::new();
    memory.set(0x5000_0000, 0x1_0000, RegionState::Reserved);
    memory.set(0x5000_4000, 0x2000, RegionState::Committed);
    assert_eq!(
        memory.allocate(0x5000_0000, 0x5001_8000, FixedAddressBehavior::NoReplace),
        Err(AllocationError::AddressInUse)
    );
    assert_eq!(
        memory.allocate(0x5000_0000, 0x5001_8000, FixedAddressBehavior::Replace),
        Ok(0x5000_0000)
    );
    // What was free is reserved in whole granules, and filled as far as was asked for.
    assert_eq!(
        memory.collect_regions(0x5000_0000, 0x5003_0000),
        vec![
            (0x5000_0000, 0x5001_8000, RegionState::Committed),
            (0x5001_8000, 0x5002_0000, RegionState::Reserved),
            (0x5002_0000, 0x5003_0000, RegionState::Free),
        ]
    );
    assert_eq!(
        memory.allocate(0x6000_0000, 0x6000_0000, FixedAddressBehavior::NoReplace),
        Ok(0x6000_0000)
    );
}

#[test]
fn test_reserved_pages() {
    let mut memory = FakeMemory::new();
    memory.set(0x10_0000, 0x3000, RegionState::Committed);
    memory.set(0x10_3000, 0x2000, RegionState::Reserved);
    memory.set(0x4000_0000, 0x1000, RegionState::Committed);
    let mut maps = read_memory_maps();
    while let Some(address) = maps.address {
        if address >= TOP {
            maps.take(None);
        } else {
            let region = memory.query(address);
            maps.take(Some((address, region)));
        }
    }
    let reserved_pages = maps.reserved;

    // Check that the reserved pages are not empty
    assert!(!reserved_pages.is_empty(), "No reserved pages found");

    // Check that the reserved pages are in order and non-overlapping
    let mut prev = 0;
    for page in &reserved_pages {
        assert!(page.start >= prev);
        assert!(page.end > page.start);
        prev = page.end;
    }
    assert_eq!(
        reserved_pages,
        vec![
            AddrRange { start: 0x10_0000, end: 0x10_3000 },
            AddrRange { start: 0x10_3000, end: 0x10_5000 },
            AddrRange { start: 0x4000_0000, end: 0x4000_1000 },
        ]
    );
}

#[test]
fn searches_end_at_the_last_address() {
    let mut maps = read_memory_maps();
    maps.take(Some((0, Region { size: 0x1000, state: RegionState::Free })));
    assert_eq!(maps.address, Some(0x1000));
    let last = Region { size: 0x1_0000, state: RegionState::Free };
    maps.take(Some((0xffff_ffff_ffff_0000, last)));
    assert_eq!(maps.address, None);
    assert!(maps.reserved.is_empty());
}

#[test]
fn walks_over_regions() {
    assert_eq!(deallocate_pages(0x6000, 0x1000).query(), None);
    let replaced =
        allocate_pages(0x6_0000, 0x5_0000, WRITE, true, FixedAddressBehavior::Replace, GRANULARITY);
    assert_eq!(replaced.result(), Some(Ok(0x6_0000)));
    let mut walk = deallocate_pages(0x1000, 0x6000);
    assert_eq!(walk.query(), Some(0x1000));
    assert_eq!(walk.take(0x2000), (0x1000, 0x2000));
    assert_eq!(walk.take(0x1_0000), (0x3000, 0x3000));
    assert_eq!(walk.query(), None);
    assert_eq!(process_memory_range_by_regions(5, 5).query(), None);
    let (walk, protection) = update_permissions(0x1000, 0x2000, WRITE);
    assert_eq!(walk.query(), Some(0x1000));
    assert_eq!(protection, PAGE_READWRITE);
}

#[test]
fn protections() {
    let flags = |read, write, execute| prot_flags(VmFlags { read, write, execute });
    assert_eq!(flags(false, false, false), PAGE_NOACCESS);
    assert_eq!(flags(true, false, false), PAGE_READONLY);
    assert_eq!(flags(true, true, false), PAGE_READWRITE);
    assert_eq!(flags(true, false, true), PAGE_EXECUTE_READ);
    assert_eq!(flags(true, true, true), PAGE_EXECUTE_READWRITE);
    assert_eq!(flags(false, true, true), PAGE_EXECUTE_READWRITE);
}

#[test]
fn rounding() {
    assert_eq!(round_down_to_granu(0x1_ffff, 0x1_0000), 0x1_0000);
    assert_eq!(round_up_to_granu(0x1_0001, 0x1_0000), 0x2_0000);
    assert_eq!(round_up_to_granu(0x1_0000, 0x1_0000), 0x1_0000);
    assert_eq!(alloc_size(1, 8), 0x2000);
    assert_eq!(alloc_size(0x2001, 8), 0x4000);
    assert_eq!(alloc_size(0x100, 0x8000), 0x1_0000);
}

fn context() -> Context {
    Context {
        rax: 1,
        rcx: 2,
        rdx: 3,
        rbx: 4,
        rsp: 5,
        rbp: 6,
        rsi: 7,
        rdi: 8,
        r8: 9,
        r9: 10,
        r10: 11,
        r11: 12,
        r12: 13,
        r13: 14,
        r14: 15,
        r15: 16,
        rip: 17,
        eflags: 0x202,
    }
}

#[test]
fn registers_survive() {
    let mut guest = PtRegs { cs: 0x33, ss: 0x2b, ..PtRegs::default() };
    save_guest_context(&mut guest, &context());
    assert_eq!((guest.rip, guest.rax, guest.orig_rax, guest.cs), (17, 1, 1, 0x33));
    assert_eq!(switch_to_guest(&guest), SwitchPath::Full(context()));
    guest.rcx = guest.rip;
    assert_eq!(switch_to_guest(&guest), SwitchPath::Direct);
    let mut c = context();
    let tls = TlsState { host_sp: 200, host_bp: 300, ..TlsState::new(guest) };
    set_context_to_interrupt_callback(&tls, &mut c, 100);
    assert_eq!(c, Context { rip: 100, rsp: 200, rbp: 300, ..context() });
}

#[test]
fn exceptions_of_the_system() {
    let info = |exception, error_code, cr2| ExceptionInfo {
        exception,
        error_code,
        cr2,
        kernel_mode: false,
    };
    assert_eq!(exception_handler(ACCESS_VIOLATION, 0, 0x5000), info(14, 4, 0x5000));
    assert_eq!(exception_handler(ACCESS_VIOLATION, 1, 0x5000), info(14, 6, 0x5000));
    assert_eq!(exception_handler(ACCESS_VIOLATION, 0, u64::MAX), info(13, 0, 0));
    assert_eq!(exception_handler(ILLEGAL_INSTRUCTION, 0, 0), info(6, 0, 0));
    assert_eq!(exception_handler(BREAKPOINT, 0, 0), info(3, 0, 0));
    assert_eq!(exception_handler(INT_DIVIDE_BY_ZERO, 0, 0), info(0, 0, 0));
}

/// A thread in or out of the guest, with its host stack at 0x1008.
fn thread(is_in_guest: bool) -> TlsState {
    TlsState {
        is_in_guest,
        host_sp: 0x1008,
        host_bp: 0x2000,
        ..TlsState::new(PtRegs { cs: 0x33, ..PtRegs::default() })
    }
}

#[test]
fn paths_of_exceptions() {
    let callbacks = Callbacks { interrupt: 0x7000, exception: 0x8000 };
    let path = |mut tls: Option<TlsState>, code, fixup, fs_base, stored_fs_base| {
        let fault = Fault { code, fixup, fs_base, stored_fs_base, record_size: 0x100 };
        let mut c = context();
        let path = vectored_exception_handler(&mut tls, &mut c, fault, callbacks);
        (path, c, tls)
    };
    let search = |tls| (ExceptionPath::ContinueSearch, context(), tls);
    let out = Some(thread(false));
    assert_eq!(path(None, ACCESS_VIOLATION, Some(1), 0, 1), search(None));
    assert_eq!(
        path(out, ACCESS_VIOLATION, Some(7), 0, 1),
        (ExceptionPath::ContinueExecution, Context { rip: 7, ..context() }, out)
    );
    assert_eq!(path(out, ACCESS_VIOLATION, None, 0, 1), search(out));
    assert_eq!(path(out, BREAKPOINT, Some(7), 0, 1), search(out));

    // The guest is left, and its registers are saved.
    let mut left = thread(false);
    save_guest_context(&mut left.guest, &context());
    assert_eq!((left.guest.rip, left.guest.cs), (17, 0x33));
    let tls = Some(thread(true));
    assert_eq!(
        path(tls, ACCESS_VIOLATION, Some(7), 0, 1),
        (
            ExceptionPath::ContinueExecution,
            Context { rip: 0x7000, rsp: 0x1008, rbp: 0x2000, ..context() },
            Some(left)
        )
    );
    let entered = Context { rip: 0x8000, rsp: 0xf00, rbp: 0x2000, rdx: 0xf08, ..context() };
    let exception = ExceptionPath::Exception { record: 0xf08 };
    assert_eq!(path(tls, ACCESS_VIOLATION, None, 0, 0), (exception, entered, Some(left)));
    assert_eq!(path(tls, BREAKPOINT, None, 0, 1), (exception, entered, Some(left)));
}

#[test]
fn interrupts() {
    let mut own = Some(thread(false));
    assert_eq!(interrupt_target(&mut own, false, false), InterruptTarget::Gone);
    assert_eq!(interrupt_target(&mut own, false, true), InterruptTarget::Other);
    assert_eq!(own, Some(thread(false)));
    assert_eq!(interrupt_target(&mut own, true, true), InterruptTarget::Current);
    assert_eq!(own, Some(TlsState { interrupt: true, ..thread(false) }));
    assert_eq!(interrupt_target(&mut None, false, true), InterruptTarget::Other);

    let mut tls = thread(false);
    assert!(!interrupt(&mut tls));
    assert!(tls.interrupt);

    let ntdll = CodeRange { start: 100, end: 200 };
    let this = CodeRange { start: 5, end: 50 };
    assert!(is_in_ntdll_or_this(100, ntdll, this) && !is_in_ntdll_or_this(200, ntdll, this));
    let code = CodeMap { switch_code: CodeRange { start: 10, end: 20 }, ntdll, this };
    let stopped_at = |rip| {
        let mut tls = thread(true);
        assert!(interrupt(&mut tls));
        let mut c = Context { rip, ..context() };
        let jumps = interrupt_guest(&mut tls, &mut c, code, 0x7000);
        (jumps, c, tls)
    };
    let marked = TlsState { interrupt: true, ..thread(true) };
    let jump = Context { rip: 0x7000, rsp: 0x1008, rbp: 0x2000, ..context() };
    assert_eq!(stopped_at(10), (true, jump, marked));
    let redirected = TlsState {
        continue_context: Context { rip: 0x7000, rsp: 0x1008, rbp: 0x2000, ..Context::default() },
        ..marked
    };
    for rip in [20, 199] {
        assert_eq!(stopped_at(rip), (false, Context { rip, ..context() }, redirected));
    }
    let (jumps, c, mut tls) = stopped_at(1000);
    assert!(jumps && c == jump);
    assert_eq!((tls.guest.rip, tls.guest.rax), (1000, 1));
    // The interrupt enters the shim.
    assert!(tls.interrupt_handler().is_none());
}

#[test]
fn marks_and_host_signals() {
    let mut tls = TlsState::new(PtRegs::default());
    tls.deliver_signal(1);
    tls.deliver_signal(32);
    tls.deliver_signal(1);
    let set = tls.take_pending_signals();
    assert_eq!(set.bits, 0x8000_0001);
    assert!(tls.take_pending_signals().is_empty());
    tls.is_in_guest = true;
    assert!(tls.interrupt_handler() == Some(ContinueOperation::Resume));
    tls.interrupt = true;
    assert!(tls.interrupt_handler().is_none());
    assert!(!tls.is_in_guest && !tls.take_interrupt());
    assert_eq!(ctrl_c_handler(0), Some(SIGINT));
    assert_eq!(ctrl_c_handler(1), None);
    assert_eq!(
        init_task(),
        TaskParams { pid: 1000, ppid: 0, uid: 1000, euid: 1000, gid: 1000, egid: 1000 }
    );
}

#[test]
fn gone_threads_get_no_signals() {
    let mut threads = ActiveThreads::new();
    assert_eq!(threads.pick(), None);
    threads.register(7);
    threads.register(8);
    assert_eq!(threads.pick(), Some(7));
    threads.unregister(7);
    assert_eq!(threads.pick(), Some(8));
    threads.unregister(8);
    assert_eq!(threads.pick(), None);
}

#[test]
fn instants() {
    let start = Instant { intervals: 1_000 };
    let later = start.checked_add(Duration { secs: 1, nanos: 250 }).unwrap();
    assert_eq!(later, Instant { intervals: 10_001_002 });
    assert_eq!(later.checked_duration_since(&start), Some(Duration { secs: 1, nanos: 200 }));
    assert_eq!(start.checked_duration_since(&later), None);
    assert_eq!(start.checked_add(Duration::from_secs(u64::MAX)), None);
    let last = Instant { intervals: u64::MAX };
    assert_eq!(last.checked_add(Duration { secs: 0, nanos: 100 }), None);
}

#[test]
fn times_of_day() {
    let epoch = SystemTime::unix_epoch();
    assert_eq!(epoch.filetime, UNIX_EPOCH);
    let t = SystemTime::from_halves(0x9000_0000, 0x1da_0000);
    assert_eq!(t.filetime, 0x1da_0000_9000_0000);
    let after = SystemTime { filetime: UNIX_EPOCH + 15 };
    assert_eq!(after.duration_since(&epoch), Ok(Duration { secs: 0, nanos: 1500 }));
    assert_eq!(epoch.duration_since(&after), Err(Duration { secs: 0, nanos: 1500 }));
}

#[test]
fn timers_and_waits() {
    assert_eq!(set_timer(Duration::zero()), None);
    // A second from now is minus ten million intervals.
    assert_eq!(
        set_timer(Duration::from_secs(1)),
        Some(DueTime { low: 0xff67_6980, high: 0xffff_ffff })
    );
    assert_eq!(set_timer(Duration { secs: 0, nanos: 99 }), Some(DueTime { low: 0, high: 0 }));
    assert_eq!(
        set_timer(Duration::from_secs(u64::MAX)),
        Some(DueTime { low: 1, high: 0x8000_0000 })
    );
    assert_eq!(timeout_millis(None), INFINITE);
    assert_eq!(timeout_millis(Some(Duration { secs: 2, nanos: 1_999_999 })), 2001);
    assert_eq!(timeout_millis(Some(Duration::from_secs(u64::MAX))), INFINITE - 1);
    assert_eq!(block_or_maybe_timeout(true, 0), UnblockedOrTimedOut::Unblocked);
    assert_eq!(block_or_maybe_timeout(false, ERROR_TIMEOUT), UnblockedOrTimedOut::TimedOut);
    assert_eq!(wake_many(1), (WakePlan::Single(1), 1));
    assert_eq!(wake_many(10), (WakePlan::Single(10), 10));
    assert_eq!(wake_many(0x7fff_ffff), (WakePlan::All, 0x7fff_ffff));
}
