//! The platform in VTL1: its page tables, what of its memory can be executed, waiting, and the ways
//! in and out of user mode.
use vstd::prelude::*;

use crate::addr::{is_phys, page_aligned, PhysFrameRange, VirtAddr, PAGE_BYTES, page_align_down, page_align_up};
use crate::errno::Errno;
use crate::lvbs::mm::{is_valid_user_ctx, HostLvbsInterface, MemoryProvider, BASE_PAGE_TABLE_ID, KERNEL_OFFSET, USER_ADDR_MAX, USER_ADDR_MIN};
use crate::lvbs::paging::{PhysRange, VmFlags};
use crate::shim::signal::{ExceptionInfo, EXCEPTION_PAGE_FAULT};
use crate::shim::thread::{PtRegs, USER_CS, USER_DS};

verus! {

/// The page tables of tasks by their numbers, held by a hash map: a number is the address of the
/// top-level frame.
#[verifier::external_body]
pub struct TaskTables {
    inner: hashbrown::HashMap<u64, u64>,
}

/// What a [`TaskTables`] holds: the address of the top-level frame, by number.
pub uninterp spec fn task_tables(tables: TaskTables) -> Map<u64, u64>;

impl TaskTables {
    /// `hashbrown::HashMap::new`: a map without entries.
    #[verifier::external_body]
    fn new() -> (r: TaskTables)
        ensures
            task_tables(r).dom() == Set::<u64>::empty(),
    {
        TaskTables { inner: hashbrown::HashMap::new() }
    }

    /// `hashbrown::HashMap::get`: the value under a key.
    #[verifier::external_body]
    fn get(&self, id: u64) -> (r: Option<u64>)
        ensures
            r == (if task_tables(*self).contains_key(id) {
                Some(task_tables(*self)[id])
            } else {
                None
            }),
    {
        self.inner.get(&id).copied()
    }

    /// `hashbrown::HashMap::insert`: puts a value under a key.
    #[verifier::external_body]
    fn insert(&mut self, id: u64, frame: u64)
        ensures
            task_tables(*final(self)) == task_tables(*old(self)).insert(id, frame),
    {
        self.inner.insert(id, frame);
    }

    /// `hashbrown::HashMap::remove`: takes the value under a key.
    #[verifier::external_body]
    fn remove(&mut self, id: u64) -> (r: Option<u64>)
        ensures
            task_tables(*final(self)) == task_tables(*old(self)).remove(id),
            r == (if task_tables(*old(self)).contains_key(id) {
                Some(task_tables(*old(self))[id])
            } else {
                None
            }),
    {
        self.inner.remove(&id)
    }
}

/// Manages the page table that holds only kernel mappings, and those of tasks. The numbers of task
/// page tables are the addresses of their top-level frames; which one is in use, the processor knows.
pub struct PageTableManager {
    base_frame: u64,
    tasks: TaskTables,
}

impl View for PageTableManager {
    /// The numbers of the task page tables.
    type V = Set<u64>;

    closed spec fn view(&self) -> Set<u64> {
        task_tables(self.tasks).dom()
    }
}

/// What loading a task page table comes to, among those that there are.
pub open spec fn load_result(tables: Set<u64>, id: u64) -> Result<u64, Errno> {
    if id == BASE_PAGE_TABLE_ID {
        Err(Errno::EINVAL)
    } else if tables.contains(id) {
        Ok(id)
    } else {
        Err(Errno::ENOENT)
    }
}

/// What deleting a task page table comes to, while `cr3` is in use.
pub open spec fn delete_result(tables: Set<u64>, id: u64, cr3: u64) -> Result<(), Errno> {
    if id == BASE_PAGE_TABLE_ID {
        Err(Errno::EINVAL)
    } else if cr3 == id {
        Err(Errno::EBUSY)
    } else if tables.contains(id) {
        Ok(())
    } else {
        Err(Errno::ENOENT)
    }
}

impl PageTableManager {
    /// The start of the addresses of user memory.
    pub const USER_ADDR_MIN: u64 = USER_ADDR_MIN;

    /// The end of the addresses of user memory.
    pub const USER_ADDR_MAX: u64 = USER_ADDR_MAX;

    /// Every task page table is found under the address of its top-level frame.
    pub closed spec fn well_formed(&self) -> bool {
        forall|id: u64| #[trigger]
            task_tables(self.tasks).contains_key(id) ==> task_tables(self.tasks)[id] == id
    }

    /// The top-level frame of the page table with only kernel mappings.
    pub closed spec fn base(&self) -> u64 {
        self.base_frame
    }

    /// A manager without task page tables.
    pub fn new(base_frame: u64) -> (r: PageTableManager)
        ensures
            r.well_formed(),
            r@ == Set::<u64>::empty(),
            r.base() == base_frame,
    {
        PageTableManager { base_frame, tasks: TaskTables::new() }
    }

    /// The top-level frame of the page table in use, which must be known. `cr3` is the frame that the
    /// processor uses.
    pub fn current_page_table(&self, cr3: u64) -> (r: u64)
        requires
            self.well_formed(),
            cr3 == self.base() || self@.contains(cr3),
        ensures
            r == cr3,
    {
        if self.base_frame == cr3 {
            return self.base_frame;
        }
        match self.tasks.get(cr3) {
            Some(frame) => frame,
            None => self.base_frame,
        }
    }

    /// The number of the page table in use, which must be known.
    pub fn current_page_table_id(&self, cr3: u64) -> (r: u64)
        requires
            self.well_formed(),
            cr3 == self.base() || self@.contains(cr3),
        ensures
            r == (if cr3 == self.base() {
                BASE_PAGE_TABLE_ID
            } else {
                cr3
            }),
    {
        if self.base_frame == cr3 {
            BASE_PAGE_TABLE_ID
        } else {
            cr3
        }
    }

    /// Whether the page table with only kernel mappings is in use.
    pub fn is_base_page_table_active(&self, cr3: u64) -> (r: bool)
        ensures
            r == (cr3 == self.base()),
    {
        self.base_frame == cr3
    }

    /// The frame to load for the page table with only kernel mappings.
    pub fn load_base(&self) -> (r: u64)
        ensures
            r == self.base(),
    {
        self.base_frame
    }

    /// The frame to load for a task page table.
    pub fn load_task(&self, task_pt_id: u64) -> (r: Result<u64, Errno>)
        requires
            self.well_formed(),
        ensures
            r == load_result(self@, task_pt_id),
    {
        if task_pt_id == BASE_PAGE_TABLE_ID {
            return Err(Errno::EINVAL);
        }
        match self.tasks.get(task_pt_id) {
            Some(frame) => Ok(frame),
            None => Err(Errno::ENOENT),
        }
    }

    /// The frame to load for a page table, be it that of a task or the one with only kernel mappings.
    pub fn switch_page_table(&self, pt_id: u64) -> (r: Result<u64, Errno>)
        requires
            self.well_formed(),
        ensures
            r == (if pt_id == BASE_PAGE_TABLE_ID {
                Ok(self.base())
            } else {
                load_result(self@, pt_id)
            }),
    {
        if pt_id == BASE_PAGE_TABLE_ID {
            Ok(self.load_base())
        } else {
            self.load_task(pt_id)
        }
    }

    /// Registers a new task page table, whose top-level frame is `frame`; `None` where no frame could
    /// be had. The result is its number.
    pub fn create_task_page_table(&mut self, frame: Option<u64>) -> (r: Result<u64, Errno>)
        requires
            old(self).well_formed(),
        ensures
            final(self).well_formed(),
            final(self).base() == old(self).base(),
            match frame {
                Some(frame) => r == Ok::<u64, Errno>(frame) && final(self)@ == old(self)@.insert(
                    frame,
                ),
                None => r == Err::<u64, Errno>(Errno::ENOMEM) && final(self)@ == old(self)@,
            },
    {
        match frame {
            Some(frame) => {
                self.tasks.insert(frame, frame);
                assert(self@ =~= old(self)@.insert(frame));
                Ok(frame)
            },
            None => Err(Errno::ENOMEM),
        }
    }

    /// Forgets a task page table. If this succeeds, what it shares with the page table with only kernel
    /// mappings is to be cleared from it, and the frames that are left in it are to be freed.
    pub fn delete_task_page_table(&mut self, task_pt_id: u64, cr3: u64) -> (r: Result<(), Errno>)
        requires
            old(self).well_formed(),
        ensures
            final(self).well_formed(),
            final(self).base() == old(self).base(),
            r == delete_result(old(self)@, task_pt_id, cr3),
            final(self)@ == (if r is Ok {
                old(self)@.remove(task_pt_id)
            } else {
                old(self)@
            }),
    {
        if task_pt_id == BASE_PAGE_TABLE_ID {
            return Err(Errno::EINVAL);
        }
        if cr3 == task_pt_id {
            return Err(Errno::EBUSY);
        }
        let removed = self.tasks.remove(task_pt_id);
        assert(self@ =~= old(self)@.remove(task_pt_id));
        match removed {
            Some(_) => Ok(()),
            None => {
                assert(self@ =~= old(self)@);
                Err(Errno::ENOENT)
            },
        }
    }
}

/// A page table that was created can be loaded until it is deleted, and the one in use cannot be
/// deleted.
pub proof fn law_page_tables(tables: Set<u64>, id: u64, other: u64, cr3: u64)
    requires
        id != BASE_PAGE_TABLE_ID,
        other != id,
    ensures
        load_result(tables.insert(id), id) == Ok::<u64, Errno>(id),
        load_result(tables.insert(id).remove(other), id) == Ok::<u64, Errno>(id),
        load_result(tables.remove(id), id) == Err::<u64, Errno>(Errno::ENOENT),
        delete_result(tables.insert(id), id, id) is Err,
        cr3 != id ==> delete_result(tables.insert(id), id, cr3) is Ok,
        delete_result(tables, BASE_PAGE_TABLE_ID, cr3) is Err,
{
}

/// The frames of VTL1 from `phys_start` up to `phys_end`, and what of them can be executed: the code
/// of the kernel, and the page through which the hypervisor is called. All addresses are those of pages,
/// and the code lies within the memory of VTL1.
pub fn kernel_mapping(
    phys_start: u64,
    phys_end: u64,
    text_start: u64,
    text_end: u64,
    hvcall_page: VirtAddr,
) -> (r: (PhysFrameRange, Vec<PhysRange>))
    requires
        is_phys(phys_end as int),
        page_aligned(phys_start as int),
        page_aligned(phys_end as int),
        page_aligned(text_start as int),
        page_aligned(text_end as int),
        phys_start <= text_start <= text_end <= phys_end,
        hvcall_page@ >= KERNEL_OFFSET,
        is_phys((hvcall_page@ - KERNEL_OFFSET) + 4096),
    ensures
        r.0 == (PhysFrameRange { start: phys_start, end: phys_end }),
        r.1@ == seq![
            PhysRange { start: text_start, end: text_end },
            PhysRange {
                start: (hvcall_page@ - KERNEL_OFFSET) as u64,
                end: (hvcall_page@ - KERNEL_OFFSET + 4096) as u64,
            },
        ],
{
    let range = PhysFrameRange {
        start: page_align_down(phys_start),
        end: page_align_up(phys_end),
    };
    let mut exec_ranges: Vec<PhysRange> = Vec::new();
    exec_ranges.push(PhysRange { start: text_start, end: text_end });
    let hvcall = HostLvbsInterface::va_to_pa(hvcall_page).as_u64();
    exec_ranges.push(PhysRange { start: hvcall, end: hvcall + PAGE_BYTES });
    (range, exec_ranges)
}

/// What is to become of mappings that a new one would overlap.
#[derive(Clone, Copy, PartialEq, Eq, Structural, Debug)]
pub enum FixedAddressBehavior {
    /// The address is a wish.
    Hint,
    /// The address is fixed, and overlapping is an error.
    NoReplace,
    /// The address is fixed, and what is there goes.
    Replace,
}

/// Why pages could not be allocated.
#[derive(Clone, Copy, PartialEq, Eq, Structural, Debug)]
pub enum AllocationError {
    Unaligned,
    OutOfMemory,
    AddressInUse,
    AddressInUseByPlatform,
    AddressPartiallyInUse,
    InvalidRange,
    BelowZeroAddress,
}

/// How pages are to be allocated: whether the range is to be unmapped first, and whether the pages are
/// to be filled at once.
#[derive(Clone, Copy, PartialEq, Eq, Structural, Debug)]
pub struct AllocationPlan {
    pub start: u64,
    pub end: u64,
    pub unmap_first: bool,
    pub flags: VmFlags,
    pub populate: bool,
}

/// Decides how pages are allocated in the range.
pub fn allocate_pages(
    start: u64,
    end: u64,
    permissions: VmFlags,
    populate: bool,
    behavior: FixedAddressBehavior,
) -> (r: Result<AllocationPlan, AllocationError>)
    ensures
        r == (if page_aligned(start as int) && page_aligned(end as int) {
            Ok(
                AllocationPlan {
                    start,
                    end,
                    unmap_first: behavior == FixedAddressBehavior::Replace,
                    flags: permissions,
                    populate,
                },
            )
        } else {
            Err(AllocationError::Unaligned)
        }),
{
    if start % PAGE_BYTES != 0 || end % PAGE_BYTES != 0 {
        return Err(AllocationError::Unaligned);
    }
    let unmap_first = match behavior {
        FixedAddressBehavior::Hint | FixedAddressBehavior::NoReplace => false,
        FixedAddressBehavior::Replace => true,
    };
    Ok(AllocationPlan { start, end, unmap_first, flags: permissions, populate })
}

/// How a wait ended.
#[derive(Clone, Copy, PartialEq, Eq, Structural, Debug)]
pub enum WaitEnd {
    /// Someone woke the waiter.
    Unblocked,
    /// Time ran out.
    TimedOut,
    /// The value had changed, so there was nothing to wait for.
    ImmediatelyWokenUp,
}

/// Whether to wait at all: only while the value is the expected one.
pub fn should_block(current: u32, expected: u32) -> (r: bool)
    ensures
        r == (current == expected),
{
    current == expected
}

/// What the host's answer to a wait means. It is never interrupted, and fails in no other way.
pub fn wait_end(answer: Result<(), Errno>) -> (r: WaitEnd)
    requires
        answer matches Err(e) ==> e == Errno::EAGAIN || e == Errno::ETIMEDOUT,
    ensures
        r == (match answer {
            Ok(()) => WaitEnd::Unblocked,
            Err(e) => if e == Errno::EAGAIN {
                WaitEnd::ImmediatelyWokenUp
            } else {
                WaitEnd::TimedOut
            },
        }),
{
    match answer {
        Ok(()) => WaitEnd::Unblocked,
        Err(e) => if e == Errno::EAGAIN {
            WaitEnd::ImmediatelyWokenUp
        } else {
            WaitEnd::TimedOut
        },
    }
}

/// What the shim wants done after it was entered.
#[derive(Clone, Copy, PartialEq, Eq, Structural, Debug)]
pub enum ContinueOperation {
    Resume,
    Terminate,
}

/// Whether user code goes on: the shim says so, and the registers are those of user code.
pub fn resumes_user(operation: ContinueOperation, rsp: u64, rip: u64) -> (r: bool)
    ensures
        r == (operation == ContinueOperation::Resume && USER_ADDR_MIN <= rsp < USER_ADDR_MAX
            && USER_ADDR_MIN <= rip < USER_ADDR_MAX),
{
    match operation {
        ContinueOperation::Resume => is_valid_user_ctx(rsp, rip),
        ContinueOperation::Terminate => false,
    }
}

/// The exception that the shim is told of. In kernel mode only page faults are.
pub fn exception_info(
    kernel_mode: bool,
    trap: u8,
    cr2: u64,
    error_code: u64,
    orig_rax: u64,
) -> (r: ExceptionInfo)
    ensures
        r.kernel_mode == kernel_mode,
        r.cr2 == cr2,
        r.exception == (if kernel_mode {
            EXCEPTION_PAGE_FAULT
        } else {
            trap
        }),
        r.error_code == (if kernel_mode {
            error_code as int % 0x1_0000_0000
        } else {
            orig_rax as int % 0x1_0000_0000
        }),
{
    let code: u64 = if kernel_mode {
        error_code
    } else {
        orig_rax
    };
    let low: u64 = code % 0x1_0000_0000;
    ExceptionInfo {
        exception: if kernel_mode {
            EXCEPTION_PAGE_FAULT
        } else {
            trap
        },
        error_code: low as u32,
        cr2,
        kernel_mode,
    }
}

/// How an exception ends.
#[derive(Clone, Copy, PartialEq, Eq, Structural, Debug)]
pub enum ExceptionEnd {
    /// Go on where the exception happened.
    Continue,
    /// Go on at this address, which was set aside for the case.
    Fixup(u64),
    /// Go on in user mode.
    SwitchToUser,
    /// Leave the thread.
    LeaveThread,
}

/// How an exception ends, after the shim dealt with it.
pub open spec fn exception_end(
    operation: ContinueOperation,
    kernel_mode: bool,
    rsp: u64,
    rip: u64,
    fixup: Option<u64>,
) -> ExceptionEnd {
    if kernel_mode {
        match operation {
            ContinueOperation::Resume => ExceptionEnd::Continue,
            ContinueOperation::Terminate => ExceptionEnd::Fixup(fixup->Some_0),
        }
    } else if operation == ContinueOperation::Resume && USER_ADDR_MIN <= rsp < USER_ADDR_MAX
        && USER_ADDR_MIN <= rip < USER_ADDR_MAX {
        ExceptionEnd::SwitchToUser
    } else {
        ExceptionEnd::LeaveThread
    }
}

/// Decides how an exception ends, after the shim dealt with it. `fixup` is the address that was set
/// aside for a fault at the instruction; a fault in the kernel that the shim cannot mend must have one.
pub fn exception_handler(
    operation: ContinueOperation,
    kernel_mode: bool,
    rsp: u64,
    rip: u64,
    fixup: Option<u64>,
) -> (r: ExceptionEnd)
    requires
        kernel_mode && operation == ContinueOperation::Terminate ==> fixup is Some,
    ensures
        r == exception_end(operation, kernel_mode, rsp, rip, fixup),
{
    match operation {
        ContinueOperation::Resume => if kernel_mode {
            ExceptionEnd::Continue
        } else if is_valid_user_ctx(rsp, rip) {
            ExceptionEnd::SwitchToUser
        } else {
            ExceptionEnd::LeaveThread
        },
        ContinueOperation::Terminate => if kernel_mode {
            match fixup {
                Some(addr) => ExceptionEnd::Fixup(addr),
                None => ExceptionEnd::LeaveThread,
            }
        } else {
            ExceptionEnd::LeaveThread
        },
    }
}

/// The state of a buffer for the extended registers.
#[derive(Clone, Copy, PartialEq, Eq, Structural, Debug)]
pub enum XsaveState {
    /// Nothing was saved in it.
    NeverSaved,
    /// Registers were saved in it, but not restored from it yet.
    Saved,
    /// Registers were restored from it, so that the processor tracks changes against it.
    Restored,
}

/// How registers are saved.
#[derive(Clone, Copy, PartialEq, Eq, Structural, Debug)]
pub enum SaveKind {
    /// All of them.
    Full,
    /// Those that changed since they were restored from the same buffer.
    Optimized,
}

impl XsaveState {
    /// Saves registers: only what changed, where the processor tracks that, else all.
    pub fn save(self) -> (r: (XsaveState, SaveKind))
        ensures
            r.1 == (if self == XsaveState::Restored {
                SaveKind::Optimized
            } else {
                SaveKind::Full
            }),
            r.0 == (if self == XsaveState::NeverSaved {
                XsaveState::Saved
            } else {
                self
            }),
    {
        match self {
            XsaveState::NeverSaved => (XsaveState::Saved, SaveKind::Full),
            XsaveState::Saved => (XsaveState::Saved, SaveKind::Full),
            XsaveState::Restored => (XsaveState::Restored, SaveKind::Optimized),
        }
    }

    /// Restores registers, if some were saved; the result tells whether.
    pub fn restore(self) -> (r: (XsaveState, bool))
        ensures
            r.1 == (self != XsaveState::NeverSaved),
            r.0 == (if r.1 {
                XsaveState::Restored
            } else {
                self
            }),
    {
        match self {
            XsaveState::NeverSaved => (XsaveState::NeverSaved, false),
            XsaveState::Saved => (XsaveState::Restored, true),
            XsaveState::Restored => (XsaveState::Restored, true),
        }
    }
}

/// The registers that the shim sees of a system call: the result is "no such call" until there is
/// another, and two registers hold what the instruction put there.
pub fn syscall_context(regs: PtRegs, rflags: u64) -> (r: PtRegs)
    ensures
        r == (PtRegs {
            ss: USER_DS,
            eflags: rflags,
            cs: USER_CS,
            rip: regs.rcx,
            orig_rax: regs.rax,
            rax: (0x1_0000_0000_0000_0000 - 38) as u64,
            r11: rflags,
            ..regs
        }),
{
    let mut r = regs;
    r.ss = USER_DS;
    r.eflags = rflags;
    r.cs = USER_CS;
    r.rip = regs.rcx;
    r.orig_rax = regs.rax;
    r.rax = 0xffff_ffff_ffff_ffda;
    r.r11 = rflags;
    r
}

} // verus!
