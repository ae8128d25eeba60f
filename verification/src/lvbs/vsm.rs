//! The functions that VTL0 calls in VTL1.
//!
//! Each function is split where it needs the hypervisor or VTL0 memory: a part here decides what to
//! ask for, the caller asks, and the next part takes the answer.
use vstd::prelude::*;

use crate::addr::{is_phys, page_aligned, page_down, PhysFrameRange, PAGE_BYTES, PHYS_LIMIT};
use crate::errno::Errno;
use crate::lvbs::error::{vsm_errno, HypervCallError, VsmError};
use crate::lvbs::heki::{lemma_protect_all_push, mem_attr_read, protect_all_spec, protect_physical_memory_range, protect_spec, ranges_well_formed, Access, HekiPage, HekiPageWalk, HekiRange, MemAttr, ProtectRun, Protection};
use crate::lvbs::kdata::load_kdata_error;
use crate::lvbs::kernel_info::Vtl0KernelInfo;
use crate::lvbs::mshv::VsmFunction;
use crate::lvbs::mshv::{HvRegisterVsmPartitionConfig, HvRegisterVsmVpSecureVtlConfig, CR0_PIN_MASK, CR4_PIN_MASK, HV_PAGE_FULL_ACCESS, HV_REGISTER_CR_INTERCEPT_CONTROL, HV_REGISTER_CR_INTERCEPT_CR0_MASK, HV_REGISTER_CR_INTERCEPT_CR4_MASK, HV_REGISTER_VSM_PARTITION_CONFIG, HV_REGISTER_VSM_VP_SECURE_CONFIG_VTL0, HV_X64_REGISTER_APIC_BASE, HV_X64_REGISTER_CR0, HV_X64_REGISTER_CR4, HV_X64_REGISTER_CSTAR, HV_X64_REGISTER_EFER, HV_X64_REGISTER_LSTAR, HV_X64_REGISTER_SFMASK, HV_X64_REGISTER_STAR, HV_X64_REGISTER_SYSENTER_CS, HV_X64_REGISTER_SYSENTER_EIP, HV_X64_REGISTER_SYSENTER_ESP};

verus! {

/// Number of control registers and model-specific registers whose values are locked.
pub const NUM_CONTROL_REGS: usize = 11;

/// The locked registers, in the order in which they are kept.
pub open spec fn locked_reg_names() -> Seq<u32> {
    seq![
        HV_X64_REGISTER_CR0,
        HV_X64_REGISTER_CR4,
        HV_X64_REGISTER_LSTAR,
        HV_X64_REGISTER_STAR,
        HV_X64_REGISTER_CSTAR,
        HV_X64_REGISTER_APIC_BASE,
        HV_X64_REGISTER_EFER,
        HV_X64_REGISTER_SYSENTER_CS,
        HV_X64_REGISTER_SYSENTER_ESP,
        HV_X64_REGISTER_SYSENTER_EIP,
        HV_X64_REGISTER_SFMASK,
    ]
}

/// The place of the first entry with this name, or the number of entries.
pub open spec fn entry_index(entries: Seq<(u32, u64)>, reg_name: u32) -> int
    decreases entries.len(),
{
    if entries.len() == 0 || entries[0].0 == reg_name {
        0
    } else {
        1 + entry_index(entries.drop_first(), reg_name)
    }
}

/// An entry behind others with different names is the first with its name.
proof fn lemma_entry_index(entries: Seq<(u32, u64)>, reg_name: u32, i: int)
    requires
        0 <= i <= entries.len(),
        forall|j: int| 0 <= j < i ==> (#[trigger] entries[j]).0 != reg_name,
        i < entries.len() ==> entries[i].0 == reg_name,
    ensures
        entry_index(entries, reg_name) == i,
    decreases i,
{
    if i > 0 {
        let rest = entries.drop_first();
        assert(entries[0].0 != reg_name);
        assert forall|j: int| 0 <= j < i - 1 implies (#[trigger] rest[j]).0 != reg_name by {
            assert(rest[j] == entries[j + 1]);
        }
        lemma_entry_index(rest, reg_name, i - 1);
    }
}

/// Values of the registers that are locked, by register name.
#[derive(Clone, Copy)]
pub struct ControlRegMap {
    pub entries: [(u32, u64); NUM_CONTROL_REGS],
}

impl ControlRegMap {
    /// Enters the locked registers, each with value zero.
    pub fn init(&mut self)
        ensures
            final(self).entries@ == locked_reg_names().map_values(|name: u32| (name, 0u64)),
    {
        self.entries = [
            (HV_X64_REGISTER_CR0, 0),
            (HV_X64_REGISTER_CR4, 0),
            (HV_X64_REGISTER_LSTAR, 0),
            (HV_X64_REGISTER_STAR, 0),
            (HV_X64_REGISTER_CSTAR, 0),
            (HV_X64_REGISTER_APIC_BASE, 0),
            (HV_X64_REGISTER_EFER, 0),
            (HV_X64_REGISTER_SYSENTER_CS, 0),
            (HV_X64_REGISTER_SYSENTER_ESP, 0),
            (HV_X64_REGISTER_SYSENTER_EIP, 0),
            (HV_X64_REGISTER_SFMASK, 0),
        ];
        assert(self.entries@ =~= locked_reg_names().map_values(|name: u32| (name, 0u64)));
    }

    /// The value of a register, if it is entered.
    pub fn get(&self, reg_name: u32) -> (r: Option<u64>)
        ensures
            r == (if entry_index(self.entries@, reg_name) < NUM_CONTROL_REGS {
                Some(self.entries@[entry_index(self.entries@, reg_name)].1)
            } else {
                None
            }),
    {
        let mut i: usize = 0;
        while i < NUM_CONTROL_REGS
            invariant
                i <= NUM_CONTROL_REGS,
                forall|j: int| 0 <= j < i ==> (#[trigger] self.entries@[j]).0 != reg_name,
            decreases NUM_CONTROL_REGS - i,
        {
            if self.entries[i].0 == reg_name {
                proof {
                    lemma_entry_index(self.entries@, reg_name, i as int);
                }
                return Some(self.entries[i].1);
            }
            i = i + 1;
        }
        proof {
            lemma_entry_index(self.entries@, reg_name, i as int);
        }
        None
    }

    /// Gives a register a value, if it is entered.
    pub fn set(&mut self, reg_name: u32, value: u64)
        ensures
            final(self).entries@ == (if entry_index(old(self).entries@, reg_name)
                < NUM_CONTROL_REGS {
                old(self).entries@.update(
                    entry_index(old(self).entries@, reg_name),
                    (reg_name, value),
                )
            } else {
                old(self).entries@
            }),
    {
        let mut i: usize = 0;
        while i < NUM_CONTROL_REGS
            invariant
                i <= NUM_CONTROL_REGS,
                self.entries == old(self).entries,
                forall|j: int| 0 <= j < i ==> (#[trigger] self.entries@[j]).0 != reg_name,
            decreases NUM_CONTROL_REGS - i,
        {
            if self.entries[i].0 == reg_name {
                proof {
                    lemma_entry_index(self.entries@, reg_name, i as int);
                }
                self.entries[i] = (reg_name, value);
                return;
            }
            i = i + 1;
        }
        proof {
            lemma_entry_index(self.entries@, reg_name, i as int);
        }
    }

    /// The names of the entered registers.
    pub fn reg_names(&self) -> (r: [u32; NUM_CONTROL_REGS])
        ensures
            r@ == self.entries@.map_values(|e: (u32, u64)| e.0),
    {
        let mut names: [u32; NUM_CONTROL_REGS] = [0; NUM_CONTROL_REGS];
        let mut i: usize = 0;
        while i < NUM_CONTROL_REGS
            invariant
                i <= NUM_CONTROL_REGS,
                forall|j: int| 0 <= j < i ==> #[trigger] names@[j] == self.entries@[j].0,
            decreases NUM_CONTROL_REGS - i,
        {
            names[i] = self.entries[i].0;
            i = i + 1;
        }
        assert(names@ =~= self.entries@.map_values(|e: (u32, u64)| e.0));
        names
    }
}

/// A register that is entered reads back as it was set, and setting it changes no other register.
pub proof fn law_control_reg_reads_back(entries: Seq<(u32, u64)>, name: u32, value: u64, other: u32)
    requires
        entry_index(entries, name) < entries.len(),
    ensures
        ({
            let after = entries.update(entry_index(entries, name), (name, value));
            &&& entry_index(after, name) == entry_index(entries, name)
            &&& after[entry_index(after, name)].1 == value
            &&& other != name ==> entry_index(after, other) == entry_index(entries, other) && (
            entry_index(entries, other) < entries.len() ==> after[entry_index(after, other)]
                == entries[entry_index(entries, other)])
        }),
{
    let i = entry_index(entries, name);
    let after = entries.update(i, (name, value));
    lemma_entry_index_bounds(entries, name);
    lemma_entry_index(after, name, i);
    if other != name {
        lemma_entry_index_bounds(entries, other);
        lemma_entry_index(after, other, entry_index(entries, other));
    }
}

/// What the place of an entry means.
proof fn lemma_entry_index_bounds(entries: Seq<(u32, u64)>, reg_name: u32)
    ensures
        0 <= entry_index(entries, reg_name) <= entries.len(),
        forall|j: int|
            0 <= j < entry_index(entries, reg_name) ==> (#[trigger] entries[j]).0 != reg_name,
        entry_index(entries, reg_name) < entries.len() ==> entries[entry_index(
            entries,
            reg_name,
        )].0 == reg_name,
    decreases entries.len(),
{
    if entries.len() > 0 && entries[0].0 != reg_name {
        let rest = entries.drop_first();
        lemma_entry_index_bounds(rest, reg_name);
        assert forall|j: int| 0 <= j < entry_index(entries, reg_name) implies (
        #[trigger] entries[j]).0 != reg_name by {
            if j > 0 {
                assert(entries[j] == rest[j - 1]);
            }
        }
    }
}

/// Enters the value that VTL0 has in the locked register with the number `next`, or nothing if it could
/// not be read.
pub fn save_vtl0_locked_regs(regs: &mut ControlRegMap, next: usize, value: Option<u64>)
    requires
        next < NUM_CONTROL_REGS,
        old(regs).names_locked(),
    ensures
        final(regs).names_locked(),
        final(regs).entries@ == (match value {
            Some(v) => old(regs).entries@.update(
                next as int,
                (locked_reg_names()[next as int], v),
            ),
            None => old(regs).entries@,
        }),
{
    let name: u32 = regs.entries[next].0;
    if let Some(value) = value {
        proof {
            assert forall|j: int| 0 <= j < next implies (#[trigger] regs.entries@[j]).0 != name by {
                assert(locked_reg_names()[j] != locked_reg_names()[next as int]);
            }
            lemma_entry_index(regs.entries@, name, next as int);
        }
        regs.set(name, value);
    }
}

/// A write of a register of the virtual processor.
#[derive(Clone, Copy, PartialEq, Eq, Structural, Debug)]
pub struct RegisterWrite {
    pub name: u32,
    pub value: u64,
}

/// The result of an operation whose last hypercall ended like this.
pub fn hypercall_result(outcome: Result<(), HypervCallError>) -> (r: Result<i64, VsmError>)
    ensures
        r == (match outcome {
            Ok(()) => Ok::<i64, VsmError>(0),
            Err(e) => Err(VsmError::HypercallFailed(e)),
        }),
{
    match outcome {
        Ok(()) => Ok(0),
        Err(e) => Err(VsmError::HypercallFailed(e)),
    }
}

/// Enables VTL1 on the application processors: nothing to do.
pub fn mshv_vsm_enable_aps(_cpu_present_mask_pfn: u64) -> (r: Result<i64, VsmError>)
    ensures
        r == Ok::<i64, VsmError>(0),
{
    Ok(0)
}

/// Starts booting the application processors: the physical address of the page with VTL0's mask of
/// online processors. Bits of the frame number that a 64-bit address cannot hold are dropped.
pub fn mshv_vsm_boot_aps(cpu_online_mask_pfn: u64) -> (r: Result<u64, VsmError>)
    ensures
        ({
            let addr = (cpu_online_mask_pfn * 4096) % 0x1_0000_0000_0000_0000;
            r == (if is_phys(addr) {
                Ok(addr as u64)
            } else {
                Err(VsmError::InvalidPhysicalAddress)
            })
        }),
{
    let low: u64 = cpu_online_mask_pfn % 0x10_0000_0000_0000;
    let addr: u64 = low * PAGE_BYTES;
    proof {
        let high = cpu_online_mask_pfn as int / 0x10_0000_0000_0000;
        assert(cpu_online_mask_pfn * 4096 == high * 0x1_0000_0000_0000_0000 + addr);
        vstd::arithmetic::div_mod::lemma_fundamental_div_mod_converse(
            cpu_online_mask_pfn * 4096,
            0x1_0000_0000_0000_0000,
            high,
            addr as int,
        );
    }
    if addr >= PHYS_LIMIT {
        return Err(VsmError::InvalidPhysicalAddress);
    }
    Ok(addr)
}

/// The error of the last processor that failed, if one failed.
pub open spec fn last_failure(outcomes: Seq<Result<(), HypervCallError>>) -> Option<HypervCallError>
    decreases outcomes.len(),
{
    if outcomes.len() == 0 {
        None
    } else {
        match outcomes.last() {
            Err(e) => Some(e),
            Ok(()) => last_failure(outcomes.drop_last()),
        }
    }
}

/// The processors of VTL0 that are online.
#[derive(Clone, PartialEq, Eq, Debug)]
pub struct CpuMask {
    pub cpus: Vec<u32>,
}

/// Ends booting the application processors. `mask` are the processors, with the results of starting each
/// of them in order, or nothing if the mask could not be copied. The mask of the first call that succeeds
/// is kept in `online` for later use.
pub fn boot_aps_result(
    online: &mut Option<CpuMask>,
    mask: Option<(CpuMask, Vec<Result<(), HypervCallError>>)>,
) -> (r: Result<i64, VsmError>)
    ensures
        r == (match mask {
            None => Err(VsmError::CpuOnlineMaskCopyFailed),
            Some((_, all)) => match last_failure(all@) {
                Some(e) => Err(VsmError::ApInitFailed(e)),
                None => Ok(0i64),
            },
        }),
        *final(online) == (match mask {
            Some((cpus, _)) if r is Ok && *old(online) is None => Some(cpus),
            _ => *old(online),
        }),
{
    let (cpus, all) = match mask {
        Some(mask) => mask,
        None => return Err(VsmError::CpuOnlineMaskCopyFailed),
    };
    let mut error: Option<HypervCallError> = None;
    let mut i: usize = 0;
    while i < all.len()
        invariant
            i <= all@.len(),
            error == last_failure(all@.take(i as int)),
        decreases all@.len() - i,
    {
        assert(all@.take(i + 1).drop_last() =~= all@.take(i as int));
        if let Err(e) = all[i] {
            error = Some(e);
        }
        i = i + 1;
    }
    assert(all@.take(i as int) =~= all@);
    match error {
        Some(e) => Err(VsmError::ApInitFailed(e)),
        None => {
            if online.is_none() {
                *online = Some(cpus);
            }
            Ok(0)
        },
    }
}

/// Enforces security features of VTL0: the register write that turns on mode-based execution
/// control and locks the TLB.
pub fn mshv_vsm_secure_config_vtl0() -> (r: RegisterWrite)
    ensures
        r == (RegisterWrite { name: HV_REGISTER_VSM_VP_SECURE_CONFIG_VTL0, value: 0x3 }),
{
    let mut config = HvRegisterVsmVpSecureVtlConfig::new();
    config.set_mbec_enabled(true);
    config.set_tlb_locked(true);
    assert(((((0u64 & !(1u64 << 0u64)) | (1u64 << 0u64)) & !(1u64 << 1u64)) | (1u64 << 1u64)) == 0x3)
        by (bit_vector);
    RegisterWrite { name: HV_REGISTER_VSM_VP_SECURE_CONFIG_VTL0, value: config.as_u64() }
}

/// Configures the partition: the register write that turns on protection by trust level, with full
/// access as the default.
pub fn mshv_vsm_configure_partition() -> (r: RegisterWrite)
    ensures
        r == (RegisterWrite { name: HV_REGISTER_VSM_PARTITION_CONFIG, value: 0x1f }),
{
    let mut config = HvRegisterVsmPartitionConfig::new();
    config.set_default_vtl_protection_mask(HV_PAGE_FULL_ACCESS);
    config.set_enable_vtl_protection(true);
    assert(((((0u64 & !(0xfu64 << 1u64)) | (0xfu64 << 1u64)) & !(1u64 << 0u64)) | (1u64 << 0u64))
        == 0x1f) by (bit_vector);
    RegisterWrite { name: HV_REGISTER_VSM_PARTITION_CONFIG, value: config.as_u64() }
}

/// The intercepts that lock VTL0's registers: writes to CR0, CR4, the descriptor table registers
/// and the model-specific registers that are kept in a [`ControlRegMap`].
pub const LOCKED_REG_INTERCEPTS: u64 = 0x7f_d543;

/// Why VTL0's control registers cannot be locked now, if they cannot.
pub open spec fn lock_regs_error(info: Vtl0KernelInfo) -> Option<VsmError> {
    if info.booted() {
        Some(VsmError::OperationAfterEndOfBoot("control register locking"))
    } else {
        None
    }
}

/// The register writes that lock VTL0's control registers, in order.
pub open spec fn lock_writes() -> Seq<RegisterWrite> {
    seq![
        RegisterWrite { name: HV_REGISTER_CR_INTERCEPT_CONTROL, value: LOCKED_REG_INTERCEPTS },
        RegisterWrite { name: HV_REGISTER_CR_INTERCEPT_CR4_MASK, value: CR4_PIN_MASK as u64 },
        RegisterWrite { name: HV_REGISTER_CR_INTERCEPT_CR0_MASK, value: CR0_PIN_MASK as u64 },
    ]
}

/// How far the locking of registers has come.
#[derive(Clone, Copy, Debug)]
pub enum LockPhase {
    /// The value of the register with the number `next` is read, to be saved.
    Save { next: usize },
    /// All values are saved, and the write with the number `next` is made.
    Write { next: usize },
    /// The operation is over.
    Done { result: Result<i64, VsmError> },
}

/// What the locking of registers needs next.
#[derive(Clone, Copy, Debug)]
pub enum LockAction {
    /// Read the register of VTL0, then call [`RegisterLocking::read`].
    Read { name: u32 },
    /// Make the write, then call [`RegisterLocking::written`].
    Write { write: RegisterWrite },
    /// Answer VTL0.
    Finish { result: Result<i64, VsmError> },
}

/// The locking of VTL0's control registers. No register is locked before the values of all have been
/// saved.
pub struct RegisterLocking {
    pub phase: LockPhase,
    /// What was read of each register so far.
    pub values: Ghost<Seq<Option<u64>>>,
}

impl ControlRegMap {
    /// The locked registers are entered, in order.
    pub open spec fn names_locked(self) -> bool {
        forall|i: int|
            0 <= i < NUM_CONTROL_REGS ==> (#[trigger] self.entries@[i]).0 == locked_reg_names()[i]
    }

    /// The locked registers are entered with the values that were read; those that were not, or could
    /// not be, are zero.
    pub open spec fn saved(self, values: Seq<Option<u64>>) -> bool {
        forall|i: int|
            0 <= i < NUM_CONTROL_REGS ==> #[trigger] self.entries@[i] == (
                locked_reg_names()[i],
                if i < values.len() {
                    match values[i] {
                        Some(v) => v,
                        None => 0,
                    }
                } else {
                    0
                },
            )
    }
}

impl RegisterLocking {
    /// What has happened when the operation is in its phase, and `regs` is the map of the processor: in
    /// particular, a register is written only when the values of all have been saved.
    pub open spec fn holds(self, regs: ControlRegMap) -> bool {
        match self.phase {
            LockPhase::Save { next } => {
                &&& next < NUM_CONTROL_REGS
                &&& self.values@.len() == next
                &&& regs.saved(self.values@)
            },
            LockPhase::Write { next } => {
                &&& next < lock_writes().len()
                &&& self.values@.len() == NUM_CONTROL_REGS
                &&& regs.saved(self.values@)
            },
            LockPhase::Done { result } => result is Ok ==> self.values@.len() == NUM_CONTROL_REGS
                && regs.saved(self.values@),
        }
    }

    /// What the operation needs next.
    pub fn action(&self, regs: &ControlRegMap) -> (r: LockAction)
        requires
            self.holds(*regs),
        ensures
            r == (match self.phase {
                LockPhase::Save { next } => LockAction::Read {
                    name: locked_reg_names()[next as int],
                },
                LockPhase::Write { next } => LockAction::Write { write: lock_writes()[next as int] },
                LockPhase::Done { result } => LockAction::Finish { result },
            }),
    {
        match self.phase {
            LockPhase::Save { next } => LockAction::Read { name: regs.entries[next].0 },
            LockPhase::Write { next } => {
                let writes: [RegisterWrite; 3] = [
                    RegisterWrite {
                        name: HV_REGISTER_CR_INTERCEPT_CONTROL,
                        value: LOCKED_REG_INTERCEPTS,
                    },
                    RegisterWrite {
                        name: HV_REGISTER_CR_INTERCEPT_CR4_MASK,
                        value: CR4_PIN_MASK as u64,
                    },
                    RegisterWrite {
                        name: HV_REGISTER_CR_INTERCEPT_CR0_MASK,
                        value: CR0_PIN_MASK as u64,
                    },
                ];
                assert(writes@ =~= lock_writes());
                LockAction::Write { write: writes[next] }
            },
            LockPhase::Done { result } => LockAction::Finish { result },
        }
    }

    /// Takes the value that VTL0 has in the register, or nothing if it could not be read.
    pub fn read(self, regs: &mut ControlRegMap, value: Option<u64>) -> (r: RegisterLocking)
        requires
            self.holds(*old(regs)),
            self.phase is Save,
        ensures
            r.holds(*final(regs)),
            r.values@ == self.values@.push(value),
            match self.phase {
                LockPhase::Save { next } => r.phase == (if next + 1 < NUM_CONTROL_REGS {
                    LockPhase::Save { next: (next + 1) as usize }
                } else {
                    LockPhase::Write { next: 0 }
                }),
                _ => true,
            },
    {
        let ghost before = *regs;
        let ghost values = self.values@.push(value);
        match self.phase {
            LockPhase::Save { next } => {
                save_vtl0_locked_regs(regs, next, value);
                proof {
                    assert(regs.saved(values)) by {
                        assert forall|i: int|
                            0 <= i < NUM_CONTROL_REGS implies #[trigger] regs.entries@[i] == (
                            locked_reg_names()[i],
                            if i < values.len() {
                                match values[i] {
                                    Some(v) => v,
                                    None => 0,
                                }
                            } else {
                                0
                            },
                        ) by {
                            assert(before.entries@[i].0 == locked_reg_names()[i]);
                        }
                    }
                }
                let phase = if next + 1 < NUM_CONTROL_REGS {
                    LockPhase::Save { next: next + 1 }
                } else {
                    LockPhase::Write { next: 0 }
                };
                RegisterLocking { phase, values: Ghost(values) }
            },
            phase => RegisterLocking { phase, values: Ghost(values) },
        }
    }

    /// Takes whether the write was made.
    pub fn written(self, regs: &ControlRegMap, outcome: Result<(), HypervCallError>) -> (r:
        RegisterLocking)
        requires
            self.holds(*regs),
            self.phase is Write,
        ensures
            r.holds(*regs),
            r.values == self.values,
            r.phase == (match (self.phase, outcome) {
                (_, Err(e)) => LockPhase::Done { result: Err(VsmError::HypercallFailed(e)) },
                (LockPhase::Write { next }, Ok(())) => if next + 1 < lock_writes().len() {
                    LockPhase::Write { next: (next + 1) as usize }
                } else {
                    LockPhase::Done { result: Ok(0) }
                },
                (phase, _) => phase,
            }),
    {
        let phase = match (self.phase, outcome) {
            (_, Err(e)) => LockPhase::Done { result: Err(VsmError::HypercallFailed(e)) },
            (LockPhase::Write { next }, Ok(())) => if next + 1 < 3 {
                LockPhase::Write { next: next + 1 }
            } else {
                LockPhase::Done { result: Ok(0) }
            },
            (phase, _) => phase,
        };
        RegisterLocking { phase, values: self.values }
    }
}

/// Starts to lock VTL0's control registers: the map of the processor is made ready for their values.
pub fn mshv_vsm_lock_regs(info: &Vtl0KernelInfo, regs: &mut ControlRegMap) -> (r: RegisterLocking)
    ensures
        r.holds(*final(regs)),
        r.values@ == Seq::<Option<u64>>::empty(),
        match lock_regs_error(*info) {
            Some(e) => r.phase == (LockPhase::Done { result: Err(e) }) && *final(regs) == *old(regs),
            None => r.phase == (LockPhase::Save { next: 0 }),
        },
{
    let values = Ghost(Seq::<Option<u64>>::empty());
    if info.check_end_of_boot() {
        let error = VsmError::OperationAfterEndOfBoot("control register locking");
        return RegisterLocking { phase: LockPhase::Done { result: Err(error) }, values };
    }
    regs.init();
    RegisterLocking { phase: LockPhase::Save { next: 0 }, values }
}

/// Whenever a register is to be written, the map holds, for each of the locked registers in order, the
/// value that VTL0 had in it.
pub proof fn law_registers_are_saved_first(op: RegisterLocking, regs: ControlRegMap, i: int)
    requires
        op.holds(regs),
        op.phase is Write,
        0 <= i < NUM_CONTROL_REGS,
    ensures
        op.values@.len() == NUM_CONTROL_REGS,
        regs.entries@[i].0 == locked_reg_names()[i],
        op.values@[i] matches Some(v) ==> regs.entries@[i].1 == v,
{
}

/// Records that VTL0 has booted.
pub fn mshv_vsm_end_of_boot(info: &mut Vtl0KernelInfo) -> (r: i64)
    ensures
        r == 0,
        final(info).booted(),
        final(info).certificates() == old(info).certificates(),
        final(info).same_tables(*old(info)),
{
    info.set_end_of_boot();
    0
}

/// The address of a list of ranges is usable: a page of physical memory, for at least one range.
pub open spec fn list_addr_ok(pa: u64, nranges: u64) -> bool {
    is_phys(pa as int) && page_aligned(pa as int) && nranges != 0
}

/// Whether the address of a list of ranges is usable.
pub fn check_list_addr(pa: u64, nranges: u64) -> (r: bool)
    ensures
        r == list_addr_ok(pa, nranges),
{
    pa < PHYS_LIMIT && pa % PAGE_BYTES == 0 && nranges != 0
}

/// Why memory cannot be protected now, if it cannot.
pub open spec fn protect_memory_error(info: Vtl0KernelInfo, pa: u64, nranges: u64) -> Option<
    VsmError,
> {
    if !list_addr_ok(pa, nranges) {
        Some(VsmError::InvalidInputAddress)
    } else if info.booted() {
        Some(VsmError::OperationAfterEndOfBoot("kernel memory protection"))
    } else {
        None
    }
}

/// Requests to the hypervisor, to be made in order until one fails, and the result of the operation
/// if none fails.
struct ProtectionPlan {
    requests: Vec<Protection>,
    outcome: Result<i64, VsmError>,
}

/// Why a range cannot be protected, if it cannot.
pub open spec fn range_error(range: HekiRange) -> Option<VsmError> {
    if range.mem_attr is None {
        Some(VsmError::MemoryAttributeInvalid)
    } else if !range.spec_is_aligned() {
        Some(VsmError::AddressNotPageAligned)
    } else {
        None
    }
}

/// The number of ranges before the first that cannot be protected.
pub open spec fn good_ranges(ranges: Seq<HekiRange>) -> int
    decreases ranges.len(),
{
    if ranges.len() == 0 || range_error(ranges[0]) is Some {
        0
    } else {
        1 + good_ranges(ranges.drop_first())
    }
}

/// Each range with the access that it describes.
pub open spec fn described_accesses(ranges: Seq<HekiRange>) -> Seq<(PhysFrameRange, Access)> {
    ranges.map_values(
        |r: HekiRange|
            (
                r.frames(),
                Access::Attr(r.mem_attr->Some_0),
            ),
    )
}

/// The ranges before a bad one are those that are good.
proof fn lemma_good_ranges(ranges: Seq<HekiRange>, i: int)
    requires
        0 <= i <= ranges.len(),
        forall|j: int| 0 <= j < i ==> range_error(#[trigger] ranges[j]) is None,
        i < ranges.len() ==> range_error(ranges[i]) is Some,
    ensures
        good_ranges(ranges) == i,
    decreases i,
{
    if i > 0 {
        let rest = ranges.drop_first();
        assert(range_error(ranges[0]) is None);
        assert forall|j: int| 0 <= j < i - 1 implies range_error(#[trigger] rest[j]) is None by {
            assert(rest[j] == ranges[j + 1]);
        }
        lemma_good_ranges(rest, i - 1);
    }
}

/// If all ranges can be protected, each of them can.
proof fn lemma_ranges_are_good(ranges: Seq<HekiRange>)
    requires
        good_ranges(ranges) == ranges.len(),
    ensures
        forall|i: int| 0 <= i < ranges.len() ==> range_error(#[trigger] ranges[i]) is None,
    decreases ranges.len(),
{
    if ranges.len() > 0 {
        let rest = ranges.drop_first();
        lemma_ranges_are_good(rest);
        assert forall|i: int| 0 <= i < ranges.len() implies range_error(
            #[trigger] ranges[i],
        ) is None by {
            if i > 0 {
                assert(rest[i - 1] == ranges[i]);
            }
        }
    }
}

/// Protects the ranges that were found: each gets the access that it describes, up to the first
/// that describes none or is not aligned.
fn protect_memory_plan(ranges: &Vec<HekiRange>) -> (r: ProtectionPlan)
    requires
        ranges_well_formed(ranges@),
    ensures
        ({
            &&& r.requests@ == described_requests(ranges@)
            &&& r.outcome == described_outcome(ranges@)
        }),
{
    let mut requests: Vec<Protection> = Vec::new();
    let mut i: usize = 0;
    proof {
        assert(described_accesses(ranges@.take(0)) =~= Seq::empty());
    }
    while i < ranges.len()
        invariant
            i <= ranges@.len(),
            ranges_well_formed(ranges@),
            forall|j: int| 0 <= j < i ==> range_error(#[trigger] ranges@[j]) is None,
            requests@ == protect_all_spec(described_accesses(ranges@.take(i as int))),
        decreases ranges@.len() - i,
    {
        let range = &ranges[i];
        let mem_attr = match range.mem_attr {
            Some(attr) => attr,
            None => {
                proof {
                    lemma_good_ranges(ranges@, i as int);
                }
                return ProtectionPlan { requests, outcome: Err(VsmError::MemoryAttributeInvalid) };
            },
        };
        if !range.is_aligned() {
            proof {
                lemma_good_ranges(ranges@, i as int);
            }
            return ProtectionPlan { requests, outcome: Err(VsmError::AddressNotPageAligned) };
        }
        assert(ranges@[i as int].well_formed());
        let frames = range.phys_frame_range();
        protect_physical_memory_range(frames, Access::Attr(mem_attr), &mut requests);
        proof {
            let before = described_accesses(ranges@.take(i as int));
            lemma_protect_all_push(before, frames, Access::Attr(mem_attr));
            assert(described_accesses(ranges@.take(i + 1)) =~= before.push(
                (frames, Access::Attr(mem_attr)),
            ));
        }
        i = i + 1;
    }
    proof {
        lemma_good_ranges(ranges@, i as int);
    }
    ProtectionPlan { requests, outcome: Ok(0) }
}

/// How far the protection of memory ranges has come.
pub enum MemoryPhase {
    /// The ranges are looked for.
    Walk { walk: HekiPageWalk },
    /// The ranges get their access; then the operation ends with `outcome`.
    Protect { run: ProtectRun, outcome: Result<i64, VsmError> },
    /// The operation is over.
    Done { result: Result<i64, VsmError> },
}

/// What the protection of memory ranges needs next.
pub enum MemoryAction {
    /// Copy the page of range descriptions at this address, then call
    /// [`MemoryProtection::heki_page`].
    CopyHekiPage { pa: u64 },
    /// Make this request, then call [`MemoryProtection::protected`].
    Protect { request: Protection },
    /// Answer VTL0.
    Finish { result: Result<i64, VsmError> },
}

/// The requests that give the ranges their access, up to the first range that cannot be protected.
pub open spec fn described_requests(ranges: Seq<HekiRange>) -> Seq<Protection> {
    protect_all_spec(described_accesses(ranges.take(good_ranges(ranges))))
}

/// What the protection of the ranges comes to if all requests succeed.
pub open spec fn described_outcome(ranges: Seq<HekiRange>) -> Result<i64, VsmError> {
    let n = good_ranges(ranges);
    if n == ranges.len() {
        Ok(0)
    } else {
        Err(range_error(ranges[n])->Some_0)
    }
}

/// What has happened during the protection of memory ranges.
pub struct MemoryEvidence {
    /// The ranges that VTL0 described.
    pub ranges: Seq<HekiRange>,
    /// The requests to the hypervisor that have succeeded.
    pub granted: Seq<Protection>,
}

/// The protection of the memory ranges that VTL0 describes.
pub struct MemoryProtection {
    pub phase: MemoryPhase,
    pub evidence: Ghost<MemoryEvidence>,
}

impl MemoryProtection {
    /// The phase is not over before it begins, and the requests were made in order. In particular, the
    /// operation succeeds only if all of them have.
    pub open spec fn well_formed(self) -> bool {
        let evidence = self.evidence@;
        match self.phase {
            MemoryPhase::Walk { walk } => {
                &&& walk.well_formed()
                &&& walk.found().len() < walk.goal()
                &&& evidence.granted.len() == 0
            },
            MemoryPhase::Protect { run, outcome } => {
                &&& run.in_progress()
                &&& run.all() == described_requests(evidence.ranges)
                &&& outcome == described_outcome(evidence.ranges)
                &&& evidence.granted == run.granted()
            },
            MemoryPhase::Done { result } => {
                &&& evidence.granted.is_prefix_of(described_requests(evidence.ranges))
                &&& result is Ok ==> {
                    &&& good_ranges(evidence.ranges) == evidence.ranges.len()
                    &&& evidence.granted == described_requests(evidence.ranges)
                }
            },
        }
    }

    /// The ranges were found: those before the first that cannot be protected get their access,
    /// then the operation succeeds or fails because of that one.
    pub open spec fn collected(self, ranges: Seq<HekiRange>) -> bool {
        let requests = described_requests(ranges);
        let outcome = described_outcome(ranges);
        if requests.len() == 0 {
            self.phase == (MemoryPhase::Done { result: outcome })
        } else {
            &&& self.phase matches MemoryPhase::Protect { run, outcome: last }
            &&& run.all() == requests
            &&& run.made() == 0
            &&& last == outcome
        }
    }

    /// What the operation needs next.
    pub fn action(&self) -> (r: MemoryAction)
        requires
            self.well_formed(),
        ensures
            r == (match self.phase {
                MemoryPhase::Walk { walk } => MemoryAction::CopyHekiPage { pa: walk.position() },
                MemoryPhase::Protect { run, outcome: _ } => MemoryAction::Protect {
                    request: run.all()[run.made()],
                },
                MemoryPhase::Done { result } => MemoryAction::Finish { result },
            }),
    {
        match &self.phase {
            MemoryPhase::Walk { walk } => MemoryAction::CopyHekiPage { pa: walk.current() },
            MemoryPhase::Protect { run, outcome: _ } => MemoryAction::Protect {
                request: run.current(),
            },
            MemoryPhase::Done { result } => MemoryAction::Finish { result: *result },
        }
    }

    fn finish(evidence: Ghost<MemoryEvidence>, result: Result<i64, VsmError>) -> (r: MemoryProtection)
        ensures
            r.phase == (MemoryPhase::Done { result }),
            r.evidence == evidence,
    {
        MemoryProtection { phase: MemoryPhase::Done { result }, evidence }
    }

    /// Takes the page of range descriptions that was copied, or nothing if the copy failed.
    pub fn heki_page(self, page: Option<HekiPage>) -> (r: MemoryProtection)
        requires
            self.well_formed(),
            self.phase is Walk,
        ensures
            r.well_formed(),
            r.evidence@.granted == self.evidence@.granted,
            match self.phase {
                MemoryPhase::Walk { walk } => match page {
                    Some(p) if p.well_formed() => {
                        let found = walk.found() + p.ranges@;
                        if found.len() < walk.goal() {
                            &&& r.phase matches MemoryPhase::Walk { walk: next }
                            &&& next.position() == p.next_pa
                            &&& next.goal() == walk.goal()
                            &&& next.found() == found
                        } else {
                            r.collected(found) && r.evidence@.ranges == found
                        }
                    },
                    _ => r.phase == (MemoryPhase::Done {
                        result: Err(VsmError::HekiPagesCopyFailed),
                    }),
                },
                _ => true,
            },
    {
        let evidence = self.evidence;
        match self.phase {
            MemoryPhase::Walk { walk } => {
                let mut walk = walk;
                match walk.accept(page) {
                    Ok(()) => {},
                    Err(e) => return MemoryProtection::finish(evidence, Err(e)),
                }
                if walk.next_page().is_some() {
                    return MemoryProtection { phase: MemoryPhase::Walk { walk }, evidence };
                }
                let ranges = walk.into_ranges();
                let evidence = Ghost(MemoryEvidence { ranges: ranges@, ..evidence@ });
                let plan = protect_memory_plan(&ranges);
                if plan.requests.len() == 0 {
                    assert(evidence@.granted =~= described_requests(ranges@));
                    return MemoryProtection::finish(evidence, plan.outcome);
                }
                let run = ProtectRun::new(plan.requests);
                assert(evidence@.granted =~= run.granted());
                MemoryProtection {
                    phase: MemoryPhase::Protect { run, outcome: plan.outcome },
                    evidence,
                }
            },
            phase => MemoryProtection { phase, evidence },
        }
    }

    /// Takes the outcome of a request.
    pub fn protected(self, outcome: Result<(), HypervCallError>) -> (r: MemoryProtection)
        requires
            self.well_formed(),
            self.phase is Protect,
        ensures
            r.well_formed(),
            r.evidence@.ranges == self.evidence@.ranges,
            match self.phase {
                MemoryPhase::Protect { run, outcome: _ } if outcome is Ok => r.evidence@.granted
                    == self.evidence@.granted.push(run.all()[run.made()]),
                _ => r.evidence@.granted == self.evidence@.granted,
            },
            match self.phase {
                MemoryPhase::Protect { run, outcome: last } => match outcome {
                    Err(e) => r.phase == (MemoryPhase::Done {
                        result: Err(VsmError::HypercallFailed(e)),
                    }),
                    Ok(()) => if run.made() + 1 == run.all().len() {
                        r.phase == (MemoryPhase::Done { result: last })
                    } else {
                        &&& r.phase matches MemoryPhase::Protect { run: next, outcome: same }
                        &&& next.all() == run.all()
                        &&& next.made() == run.made() + 1
                        &&& same == last
                    },
                },
                _ => true,
            },
    {
        let evidence = self.evidence;
        match self.phase {
            MemoryPhase::Protect { run, outcome: last } => {
                match outcome {
                    Ok(()) => {},
                    Err(e) => {
                        let error = VsmError::HypercallFailed(e);
                        return MemoryProtection::finish(evidence, Err(error));
                    },
                }
                let mut run = run;
                run.succeeded();
                let evidence = Ghost(MemoryEvidence { granted: run.granted(), ..evidence@ });
                if run.is_done() {
                    assert(run.granted() =~= run.all());
                    return MemoryProtection::finish(evidence, last);
                }
                MemoryProtection { phase: MemoryPhase::Protect { run, outcome: last }, evidence }
            },
            phase => MemoryProtection { phase, evidence },
        }
    }
}

/// Starts protecting memory ranges, which are described at `pa`.
pub fn mshv_vsm_protect_memory(info: &Vtl0KernelInfo, pa: u64, nranges: u64) -> (r:
    MemoryProtection)
    ensures
        r.well_formed(),
        r.evidence@ == (MemoryEvidence { ranges: Seq::empty(), granted: Seq::empty() }),
        match protect_memory_error(*info, pa, nranges) {
            Some(e) => r.phase == (MemoryPhase::Done { result: Err(e) }),
            None => {
                &&& r.phase matches MemoryPhase::Walk { walk }
                &&& walk.position() == pa
                &&& walk.goal() == nranges
                &&& walk.found() == Seq::<HekiRange>::empty()
            },
        },
{
    let evidence = Ghost(MemoryEvidence { ranges: Seq::empty(), granted: Seq::empty() });
    if !check_list_addr(pa, nranges) {
        return MemoryProtection::finish(evidence, Err(VsmError::InvalidInputAddress));
    }
    if info.check_end_of_boot() {
        return MemoryProtection::finish(
            evidence,
            Err(VsmError::OperationAfterEndOfBoot("kernel memory protection")),
        );
    }
    MemoryProtection {
        phase: MemoryPhase::Walk { walk: HekiPageWalk::new(pa, nranges) },
        evidence,
    }
}

/// When memory was protected, every range that VTL0 described could be, and has the access that was
/// described for it; no other request was made.
pub proof fn law_described_memory_is_protected(op: MemoryProtection)
    requires
        op.well_formed(),
        op.phase == (MemoryPhase::Done { result: Ok(0) }),
    ensures
        forall|i: int|
            0 <= i < op.evidence@.ranges.len() ==> range_error(#[trigger] op.evidence@.ranges[i]) is None,
        op.evidence@.granted == protect_all_spec(described_accesses(op.evidence@.ranges)),
{
    let ranges = op.evidence@.ranges;
    lemma_ranges_are_good(ranges);
    assert(ranges.take(ranges.len() as int) =~= ranges);
}

/// The requests for memory ranges are made in order, up to the first that fails or the first range that
/// cannot be protected.
pub proof fn law_memory_requests(op: MemoryProtection)
    requires
        op.well_formed(),
    ensures
        op.evidence@.granted.is_prefix_of(described_requests(op.evidence@.ranges)),
{
    match op.phase {
        MemoryPhase::Protect { run, outcome: _ } => {
            assert(run.granted().is_prefix_of(run.all()));
        },
        _ => {},
    }
}

/// Protects the memory of VTL1 itself when the platform starts: VTL0 keeps no access to the pages
/// from `start` on.
pub fn protect_vtl1_memory(start: u64, size: u64) -> (r: Vec<Protection>)
    requires
        is_phys(start as int),
        is_phys(start + size),
    ensures
        r@ == protect_spec(
            PhysFrameRange {
                start: page_down(start as int) as u64,
                end: page_down(start + size) as u64,
            },
            Access::Attr(MemAttr { read: false, write: false, execute: false }),
        ),
{
    let mut requests: Vec<Protection> = Vec::new();
    protect_physical_memory_range(
        PhysFrameRange::from_addrs(start, start + size),
        Access::Attr(MemAttr::empty()),
        &mut requests,
    );
    assert(requests@ =~= protect_spec(
        PhysFrameRange {
            start: page_down(start as int) as u64,
            end: page_down(start + size) as u64,
        },
        Access::Attr(MemAttr { read: false, write: false, execute: false }),
    ));
    requests
}

/// Makes the pages of a ring buffer read-only for VTL0.
pub fn mshv_vsm_allocate_ringbuffer_memory(phys_addr: u64, size: usize) -> (r: Vec<Protection>)
    requires
        is_phys(phys_addr as int),
        is_phys(phys_addr + size),
    ensures
        r@ == protect_spec(
            PhysFrameRange {
                start: page_down(phys_addr as int) as u64,
                end: page_down(phys_addr + size) as u64,
            },
            Access::Attr(mem_attr_read()),
        ),
{
    let mut requests: Vec<Protection> = Vec::new();
    protect_physical_memory_range(
        PhysFrameRange::from_addrs(phys_addr, phys_addr + size as u64),
        Access::Attr(MemAttr::read_only()),
        &mut requests,
    );
    assert(requests@ =~= protect_spec(
        PhysFrameRange {
            start: page_down(phys_addr as int) as u64,
            end: page_down(phys_addr + size) as u64,
        },
        Access::Attr(mem_attr_read()),
    ));
    requests
}

/// Copying the secondary key: nothing to do.
pub fn mshv_vsm_copy_secondary_key(_pa: u64, _nranges: u64) -> (r: Result<i64, VsmError>)
    ensures
        r == Ok::<i64, VsmError>(0),
{
    Ok(0)
}

/// Why the platform root key cannot be set now, if it cannot.
pub open spec fn set_root_key_error(info: Vtl0KernelInfo, key_pa: u64) -> Option<VsmError> {
    if info.booted() {
        Some(VsmError::OperationAfterEndOfBoot("set platform root key"))
    } else if !is_phys(key_pa as int) {
        Some(VsmError::InvalidPhysicalAddress)
    } else {
        None
    }
}

/// Starts setting the platform root key: the address to copy it from.
pub fn mshv_vsm_set_platform_root_key(info: &Vtl0KernelInfo, key_pa: u64) -> (r: Result<
    u64,
    VsmError,
>)
    ensures
        r == (match set_root_key_error(*info, key_pa) {
            Some(e) => Err::<u64, VsmError>(e),
            None => Ok(key_pa),
        }),
{
    if info.check_end_of_boot() {
        return Err(VsmError::OperationAfterEndOfBoot("set platform root key"));
    }
    if key_pa >= PHYS_LIMIT {
        return Err(VsmError::InvalidPhysicalAddress);
    }
    Ok(key_pa)
}

/// The result of an operation that ends with a copy from or to VTL0.
pub fn copy_result(copied: bool) -> (r: Result<i64, VsmError>)
    ensures
        r == (if copied {
            Ok::<i64, VsmError>(0)
        } else {
            Err(VsmError::Vtl0CopyFailed)
        }),
{
    if copied {
        Ok(0)
    } else {
        Err(VsmError::Vtl0CopyFailed)
    }
}

/// A call of VTL0, with its parameters.
#[derive(Clone, Copy, PartialEq, Eq, Structural, Debug)]
pub enum VsmCall {
    EnableAps { cpu_present_mask_pfn: u64 },
    BootAps { cpu_online_mask_pfn: u64 },
    LockRegs,
    EndOfBoot,
    ProtectMemory { pa: u64, nranges: u64 },
    LoadKdata { pa: u64, nranges: u64 },
    ValidateGuestModule { pa: u64, nranges: u64, flags: u64 },
    FreeGuestModuleInit { token: i64 },
    UnloadGuestModule { token: i64 },
    CopySecondaryKey { pa: u64, nranges: u64 },
    KexecValidate { pa: u64, nranges: u64, crash: u64 },
    PatchText { patch_pa_0: u64, patch_pa_1: u64 },
    AllocateRingbufferMemory { phys_addr: u64, size: u64 },
    SetPlatformRootKey { key_pa: u64 },
    /// A call that is answered at once with this error.
    Refused { error: Errno },
}

/// The number of parameters that a function reads.
pub open spec fn param_count(func_id: VsmFunction) -> int {
    match func_id {
        VsmFunction::LockRegs | VsmFunction::SignalEndOfBoot | VsmFunction::OpteeMessage => 0,
        VsmFunction::EnableAPsVtl
        | VsmFunction::BootAPs
        | VsmFunction::FreeModuleInit
        | VsmFunction::UnloadModule
        | VsmFunction::SetPlatformRootKey => 1,
        VsmFunction::ProtectMemory
        | VsmFunction::LoadKData
        | VsmFunction::CopySecondaryKey
        | VsmFunction::PatchText
        | VsmFunction::AllocateRingbufferMemory => 2,
        VsmFunction::ValidateModule | VsmFunction::KexecValidate => 3,
    }
}

/// The call of a function with its parameters.
pub open spec fn vsm_call(func_id: VsmFunction, params: Seq<u64>) -> VsmCall {
    match func_id {
        VsmFunction::EnableAPsVtl => VsmCall::EnableAps { cpu_present_mask_pfn: params[0] },
        VsmFunction::BootAPs => VsmCall::BootAps { cpu_online_mask_pfn: params[0] },
        VsmFunction::LockRegs => VsmCall::LockRegs,
        VsmFunction::SignalEndOfBoot => VsmCall::EndOfBoot,
        VsmFunction::ProtectMemory => VsmCall::ProtectMemory { pa: params[0], nranges: params[1] },
        VsmFunction::LoadKData => VsmCall::LoadKdata { pa: params[0], nranges: params[1] },
        VsmFunction::ValidateModule => VsmCall::ValidateGuestModule {
            pa: params[0],
            nranges: params[1],
            flags: params[2],
        },
        VsmFunction::FreeModuleInit => VsmCall::FreeGuestModuleInit { token: params[0] as i64 },
        VsmFunction::UnloadModule => VsmCall::UnloadGuestModule { token: params[0] as i64 },
        VsmFunction::CopySecondaryKey => VsmCall::CopySecondaryKey {
            pa: params[0],
            nranges: params[1],
        },
        VsmFunction::KexecValidate => VsmCall::KexecValidate {
            pa: params[0],
            nranges: params[1],
            crash: params[2],
        },
        VsmFunction::PatchText => VsmCall::PatchText {
            patch_pa_0: params[0],
            patch_pa_1: params[1],
        },
        VsmFunction::AllocateRingbufferMemory => VsmCall::AllocateRingbufferMemory {
            phys_addr: params[0],
            size: params[1],
        },
        VsmFunction::SetPlatformRootKey => VsmCall::SetPlatformRootKey { key_pa: params[0] },
        VsmFunction::OpteeMessage => VsmCall::Refused { error: Errno::ENOTSUP },
    }
}

/// Finds the call of a function with its parameters.
pub fn vsm_dispatch(func_id: VsmFunction, params: &[u64]) -> (r: VsmCall)
    requires
        params@.len() >= param_count(func_id),
    ensures
        r == vsm_call(func_id, params@),
{
    match func_id {
        VsmFunction::EnableAPsVtl => VsmCall::EnableAps { cpu_present_mask_pfn: params[0] },
        VsmFunction::BootAPs => VsmCall::BootAps { cpu_online_mask_pfn: params[0] },
        VsmFunction::LockRegs => VsmCall::LockRegs,
        VsmFunction::SignalEndOfBoot => VsmCall::EndOfBoot,
        VsmFunction::ProtectMemory => VsmCall::ProtectMemory { pa: params[0], nranges: params[1] },
        VsmFunction::LoadKData => VsmCall::LoadKdata { pa: params[0], nranges: params[1] },
        VsmFunction::ValidateModule => VsmCall::ValidateGuestModule {
            pa: params[0],
            nranges: params[1],
            flags: params[2],
        },
        VsmFunction::FreeModuleInit => VsmCall::FreeGuestModuleInit { token: params[0] as i64 },
        VsmFunction::UnloadModule => VsmCall::UnloadGuestModule { token: params[0] as i64 },
        VsmFunction::CopySecondaryKey => VsmCall::CopySecondaryKey {
            pa: params[0],
            nranges: params[1],
        },
        VsmFunction::KexecValidate => VsmCall::KexecValidate {
            pa: params[0],
            nranges: params[1],
            crash: params[2],
        },
        VsmFunction::PatchText => VsmCall::PatchText {
            patch_pa_0: params[0],
            patch_pa_1: params[1],
        },
        VsmFunction::AllocateRingbufferMemory => VsmCall::AllocateRingbufferMemory {
            phys_addr: params[0],
            size: params[1],
        },
        VsmFunction::SetPlatformRootKey => VsmCall::SetPlatformRootKey { key_pa: params[0] },
        VsmFunction::OpteeMessage => VsmCall::Refused {
            error: Errno::from(VsmError::OperationNotSupported("OP-TEE communication")),
        },
    }
}

/// After the end of boot, registers cannot be locked, memory cannot be protected, kernel data
/// cannot be loaded and the root key cannot be set: every such call with usable addresses is
/// answered that it is not permitted.
pub proof fn law_locked_after_end_of_boot(info: Vtl0KernelInfo, pa: u64, nranges: u64, key_pa: u64)
    requires
        info.booted(),
        list_addr_ok(pa, nranges),
    ensures
        lock_regs_error(info) matches Some(e) && vsm_errno(e) == Errno::EPERM,
        protect_memory_error(info, pa, nranges) matches Some(e) && vsm_errno(e) == Errno::EPERM,
        load_kdata_error(info, pa, nranges) matches Some(e) && vsm_errno(e) == Errno::EPERM,
        set_root_key_error(info, key_pa) matches Some(e) && vsm_errno(e) == Errno::EPERM,
{
}

} // verus!
