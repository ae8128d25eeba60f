//! A task: its name and credentials, the arguments of programs that it runs, and the processors that
//! it may use.
use vstd::array::{spec_array_fill_for_copy_type, spec_array_update};
use vstd::prelude::*;

use crate::errno::Errno;
use crate::shim::shebang::args_view;

verus! {

/// The length of the name of a task, with the zero at its end.
pub const TASK_COMM_LEN: usize = 16;

/// The last capability that is known.
pub const CAP_LAST: u64 = 40;

/// Credentials of a process.
#[derive(Clone, Copy, PartialEq, Eq, Structural, Debug)]
pub struct Credentials {
    pub uid: u32,
    pub euid: u32,
    pub gid: u32,
    pub egid: u32,
}

/// The name of a task as it is kept: cut to fifteen bytes, and filled up with zeros.
pub open spec fn comm_of(name: Seq<u8>) -> Seq<u8> {
    Seq::new(
        16,
        |i: int|
            if i < 15 && i < name.len() {
                name[i]
            } else {
                0u8
            },
    )
}

/// The name of a task as it is kept.
pub fn set_task_comm(comm: &[u8]) -> (r: [u8; 16])
    ensures
        r@ == comm_of(comm@),
{
    let mut new_comm: [u8; 16] = [0u8; 16];
    let mut i: usize = 0;
    while i < TASK_COMM_LEN - 1 && i < comm.len()
        invariant
            i <= 15,
            i <= comm@.len(),
            new_comm@.len() == 16,
            forall|j: int|
                0 <= j < 16 ==> #[trigger] new_comm@[j] == (if j < i {
                    comm@[j]
                } else {
                    0u8
                }),
        decreases comm@.len() - i,
    {
        new_comm[i] = comm[i];
        i = i + 1;
    }
    assert(new_comm@ =~= comm_of(comm@));
    new_comm
}

/// The name of a task always ends in a zero, and setting the name that is kept changes nothing.
pub proof fn law_comm_is_terminated(name: Seq<u8>)
    ensures
        comm_of(name).len() == 16,
        comm_of(name)[15] == 0,
        comm_of(comm_of(name)) == comm_of(name),
{
    assert(comm_of(comm_of(name)) =~= comm_of(name));
}

/// A name that is read from the caller byte by byte, up to a zero or to fifteen bytes.
#[derive(Clone, Copy, PartialEq, Eq, Debug)]
pub struct NameReader {
    /// The bytes that were read, and zeros behind them.
    pub name: [u8; 15],
    pub len: usize,
    pub ended: bool,
}

impl View for NameReader {
    type V = (Seq<u8>, bool);

    open spec fn view(&self) -> (Seq<u8>, bool) {
        (self.name@.take(self.len as int), self.ended)
    }
}

impl NameReader {
    /// The name is not longer than it may be.
    pub open spec fn well_formed(self) -> bool {
        self.len <= 15
    }

    /// More bytes are needed.
    pub open spec fn reading(self) -> bool {
        !self.ended && self.len < 15
    }

    /// After a byte was read.
    pub open spec fn with_byte(self, byte: u8) -> NameReader {
        if byte == 0 {
            NameReader { ended: true, ..self }
        } else {
            NameReader {
                name: spec_array_update(self.name, self.len as int, byte),
                len: (self.len + 1) as usize,
                ended: false,
            }
        }
    }

    /// Nothing was read yet.
    pub fn new() -> (r: NameReader)
        ensures
            r == NameReader::start(),
            r.well_formed(),
            r@ == (Seq::<u8>::empty(), false),
    {
        let r = NameReader { name: [0u8; 15], len: 0, ended: false };
        assert(r.name@.take(0) =~= Seq::<u8>::empty());
        r
    }

    /// Nothing was read yet.
    pub open spec fn start() -> NameReader {
        NameReader { name: spec_array_fill_for_copy_type::<u8, 15>(0), len: 0, ended: false }
    }

    /// The offset of the byte to read next, while one is needed.
    pub fn next_offset(&self) -> (r: Option<usize>)
        requires
            self.well_formed(),
        ensures
            r == (if self.reading() {
                Some(self.len)
            } else {
                None
            }),
    {
        if self.ended || self.len == TASK_COMM_LEN - 1 {
            None
        } else {
            Some(self.len)
        }
    }

    /// Takes the byte, or nothing where it could not be read.
    pub fn accept(&mut self, byte: Option<u8>) -> (r: Result<(), Errno>)
        requires
            old(self).well_formed(),
            old(self).reading(),
        ensures
            final(self).well_formed(),
            match byte {
                None => r == Err::<(), Errno>(Errno::EFAULT) && *final(self) == *old(self),
                Some(b) => {
                    &&& r is Ok
                    &&& *final(self) == old(self).with_byte(b)
                    &&& final(self)@ == (if b == 0 {
                        (old(self)@.0, true)
                    } else {
                        (old(self)@.0.push(b), false)
                    })
                },
            },
    {
        match byte {
            None => Err(Errno::EFAULT),
            Some(b) => {
                if b == 0 {
                    self.ended = true;
                } else {
                    let ghost before = *self;
                    let at: usize = self.len;
                    self.name[at] = b;
                    self.len = at + 1;
                    proof {
                        assert(self.name =~= spec_array_update(before.name, at as int, b));
                        assert(self.name@.take(at + 1) =~= before.name@.take(at as int).push(b));
                    }
                }
                Ok(())
            },
        }
    }

    /// The name of the task, once all bytes were read.
    pub open spec fn spec_comm(self) -> [u8; 16] {
        filled_array(spec_array_fill_for_copy_type::<u8, 16>(0), comm_of(self@.0), 16)
    }

    /// The name of the task, once all bytes were read.
    pub fn comm(&self) -> (r: [u8; 16])
        requires
            self.well_formed(),
        ensures
            r == self.spec_comm(),
            r@ == comm_of(self@.0),
    {
        let name = vstd::slice::slice_subrange(self.name.as_slice(), 0, self.len);
        assert(name@ =~= self.name@.take(self.len as int));
        let r = set_task_comm(name);
        proof {
            self.lemma_comm();
            assert(r =~= self.spec_comm());
        }
        r
    }

    /// The name of the task has the bytes that were read.
    pub proof fn lemma_comm(self)
        ensures
            self.spec_comm()@ == comm_of(self@.0),
    {
        lemma_filled_array(spec_array_fill_for_copy_type::<u8, 16>(0), comm_of(self@.0), 16);
        assert(self.spec_comm()@ =~= comm_of(self@.0));
    }
}

/// The array with its first `n` elements taken from a sequence.
pub open spec fn filled_array(a: [u8; 16], bytes: Seq<u8>, n: nat) -> [u8; 16]
    decreases n,
{
    if n == 0 {
        a
    } else {
        spec_array_update(filled_array(a, bytes, (n - 1) as nat), n - 1, bytes[n - 1])
    }
}

proof fn lemma_filled_array(a: [u8; 16], bytes: Seq<u8>, n: nat)
    requires
        n <= 16,
    ensures
        forall|i: int| 0 <= i < n ==> #[trigger] filled_array(a, bytes, n)@[i] == bytes[i],
    decreases n,
{
    if n > 0 {
        let before = filled_array(a, bytes, (n - 1) as nat);
        lemma_filled_array(a, bytes, (n - 1) as nat);
        assert(filled_array(a, bytes, n)@ == before@.update(n - 1, bytes[n - 1]));
    }
}

/// Whether the caller may have a capability: never, but only known ones can be asked for.
pub fn cap_bset_read(cap: u64) -> (r: Result<u64, Errno>)
    ensures
        r == (if cap > CAP_LAST {
            Err(Errno::EINVAL)
        } else {
            Ok(0u64)
        }),
{
    if cap > CAP_LAST {
        return Err(Errno::EINVAL);
    }
    Ok(0)
}

/// A request about the task itself, with an address of the caller where there is one.
#[derive(Clone, Copy, PartialEq, Eq, Structural, Debug)]
pub enum PrctlArg {
    /// Write its name to the address.
    GetName(u64),
    /// Set its name to the one at the address.
    SetName(u64),
    /// Ask for a capability.
    CapBSetRead(u64),
}

/// What such a request comes to.
#[derive(Clone, Copy, PartialEq, Eq, Debug)]
pub enum PrctlAction {
    /// Write these bytes to the address.
    Write { to: u64, name: [u8; 16] },
    /// Read a name from the address, with a [`NameReader`], and make it the name of the task.
    Read { from: u64 },
    /// Nothing: this is the result.
    Return(u64),
}

/// Decides what is done for a request about the task, whose name is `comm`. The caller gets all sixteen
/// bytes of the name.
pub fn sys_prctl(comm: &[u8; 16], arg: PrctlArg) -> (r: Result<PrctlAction, Errno>)
    ensures
        r == prctl_action(*comm, arg),
{
    match arg {
        PrctlArg::GetName(to) => Ok(PrctlAction::Write { to, name: *comm }),
        PrctlArg::SetName(from) => Ok(PrctlAction::Read { from }),
        PrctlArg::CapBSetRead(cap) => match cap_bset_read(cap) {
            Ok(v) => Ok(PrctlAction::Return(v)),
            Err(e) => Err(e),
        },
    }
}

/// What is done for a request about a task with the name `comm`.
pub open spec fn prctl_action(comm: [u8; 16], arg: PrctlArg) -> Result<PrctlAction, Errno> {
    match arg {
        PrctlArg::GetName(to) => Ok(PrctlAction::Write { to, name: comm }),
        PrctlArg::SetName(from) => Ok(PrctlAction::Read { from }),
        PrctlArg::CapBSetRead(cap) => if cap > CAP_LAST {
            Err(Errno::EINVAL)
        } else {
            Ok(PrctlAction::Return(0))
        },
    }
}

/// The largest number of strings in a vector of arguments.
pub const MAX_VEC: u64 = 4096;

/// The largest number of bytes in a vector of arguments, with the zeros that end the strings.
pub const MAX_TOTAL_BYTES: u64 = 262144;

/// The bytes that strings take, with the zeros that end them.
pub open spec fn total_bytes(strings: Seq<Seq<u8>>) -> int
    decreases strings.len(),
{
    if strings.len() == 0 {
        0
    } else {
        total_bytes(strings.drop_last()) + strings.last().len() + 1
    }
}

/// The address of the entry with a number in a vector of pointers.
pub open spec fn slot(start: u64, i: int) -> u64 {
    ((start + 8 * i) % 0x1_0000_0000_0000_0000) as u64
}

/// How far a vector of strings was copied.
pub enum VectorModel {
    /// The pointer behind the last string is to be read.
    Pointer { base: u64, strings: Seq<Seq<u8>> },
    /// The string at an address is to be read.
    Text { base: u64, strings: Seq<Seq<u8>>, at: u64 },
    /// All strings were read.
    Done(Seq<Seq<u8>>),
    Failed(Errno),
}

impl VectorModel {
    /// The start of a copy; at address zero there is no vector.
    pub open spec fn start(base: u64) -> VectorModel {
        if base == 0 {
            VectorModel::Done(Seq::empty())
        } else {
            VectorModel::Pointer { base, strings: Seq::empty() }
        }
    }

    /// After the pointer was read: a zero ends the vector.
    pub open spec fn pointer_read(self, pointer: Option<u64>) -> VectorModel {
        match self {
            VectorModel::Pointer { base, strings } => match pointer {
                None => VectorModel::Failed(Errno::EFAULT),
                Some(p) => if p == 0 {
                    VectorModel::Done(strings)
                } else {
                    VectorModel::Text { base, strings, at: p }
                },
            },
            _ => self,
        }
    }

    /// After the string was read.
    pub open spec fn text_read(self, text: Option<Seq<u8>>) -> VectorModel {
        match self {
            VectorModel::Text { base, strings, at } => match text {
                None => VectorModel::Failed(Errno::EFAULT),
                Some(t) => {
                    let more = strings.push(t);
                    if total_bytes(more) > MAX_TOTAL_BYTES {
                        VectorModel::Failed(Errno::E2BIG)
                    } else if more.len() == MAX_VEC {
                        VectorModel::Done(more)
                    } else {
                        VectorModel::Pointer { base: slot(base, 1), strings: more }
                    }
                },
            },
            _ => self,
        }
    }
}

/// A copy of a vector of strings, such as the arguments of a program, from the caller.
pub enum VectorCopy {
    Pointer { base: u64, strings: Vec<Vec<u8>>, total: u64 },
    Text { base: u64, strings: Vec<Vec<u8>>, total: u64, at: u64 },
    Done(Vec<Vec<u8>>),
    Failed(Errno),
}

impl VectorCopy {
    /// How far the copy has come.
    pub open spec fn model(&self) -> VectorModel {
        match *self {
            VectorCopy::Pointer { base, strings, total } => VectorModel::Pointer {
                base,
                strings: args_view(strings@),
            },
            VectorCopy::Text { base, strings, total, at } => VectorModel::Text {
                base,
                strings: args_view(strings@),
                at,
            },
            VectorCopy::Done(strings) => VectorModel::Done(args_view(strings@)),
            VectorCopy::Failed(e) => VectorModel::Failed(e),
        }
    }

    /// The bytes are counted, and both they and the strings are bounded.
    pub open spec fn well_formed(&self) -> bool {
        match *self {
            VectorCopy::Pointer { base, strings, total } => {
                &&& total == total_bytes(args_view(strings@)) <= MAX_TOTAL_BYTES
                &&& strings@.len() < MAX_VEC
            },
            VectorCopy::Text { base, strings, total, at } => {
                &&& total == total_bytes(args_view(strings@)) <= MAX_TOTAL_BYTES
                &&& strings@.len() < MAX_VEC
            },
            _ => true,
        }
    }

    /// Starts at the address of the first pointer; at zero there is no vector.
    pub fn new(base: u64) -> (r: VectorCopy)
        ensures
            r.well_formed(),
            r.model() == VectorModel::start(base),
    {
        let strings: Vec<Vec<u8>> = Vec::new();
        assert(args_view(strings@) =~= Seq::<Seq<u8>>::empty());
        if base == 0 {
            VectorCopy::Done(strings)
        } else {
            VectorCopy::Pointer { base, strings, total: 0 }
        }
    }

    /// Takes the pointer at the address that is to be read, or nothing where it could not be read.
    pub fn pointer_read(self, pointer: Option<u64>) -> (r: VectorCopy)
        requires
            self.well_formed(),
        ensures
            r.well_formed(),
            r.model() == self.model().pointer_read(pointer),
    {
        match self {
            VectorCopy::Pointer { base, strings, total } => match pointer {
                None => VectorCopy::Failed(Errno::EFAULT),
                Some(p) => if p == 0 {
                    VectorCopy::Done(strings)
                } else {
                    VectorCopy::Text { base, strings, total, at: p }
                },
            },
            other => other,
        }
    }

    /// Takes the string at the address that is to be read, or nothing where it could not be read.
    pub fn text_read(self, text: Option<Vec<u8>>) -> (r: VectorCopy)
        requires
            self.well_formed(),
        ensures
            r.well_formed(),
            r.model() == self.model().text_read(
                match text {
                    Some(t) => Some(t@),
                    None => None,
                },
            ),
    {
        match self {
            VectorCopy::Text { base, strings, total, at } => match text {
                None => VectorCopy::Failed(Errno::EFAULT),
                Some(t) => {
                    let ghost before = args_view(strings@);
                    let ghost t_view = t@;
                    let len: u64 = t.len() as u64;
                    if len >= MAX_TOTAL_BYTES {
                        proof {
                            assert(before.push(t_view).drop_last() =~= before);
                        }
                        return VectorCopy::Failed(Errno::E2BIG);
                    }
                    let total: u64 = total + (len + 1);
                    let mut strings = strings;
                    strings.push(t);
                    proof {
                        assert(args_view(strings@) =~= before.push(t_view));
                        assert(before.push(t_view).drop_last() =~= before);
                    }
                    if total > MAX_TOTAL_BYTES {
                        return VectorCopy::Failed(Errno::E2BIG);
                    }
                    if strings.len() as u64 == MAX_VEC {
                        VectorCopy::Done(strings)
                    } else {
                        VectorCopy::Pointer { base: base.wrapping_add(8), strings, total }
                    }
                },
            },
            other => other,
        }
    }
}

/// The memory of the caller as far as a copy sees it: the pointers at addresses, and the strings at
/// addresses.
pub struct GuestStrings {
    pub pointers: spec_fn(u64) -> Option<u64>,
    pub texts: spec_fn(u64) -> Option<Seq<u8>>,
}

/// Reads up to `fuel` strings.
pub open spec fn copy_vector(state: VectorModel, memory: GuestStrings, fuel: nat) -> VectorModel
    decreases fuel,
{
    match state {
        VectorModel::Pointer { base, .. } => if fuel == 0 {
            state
        } else {
            let next = state.pointer_read((memory.pointers)(base));
            match next {
                VectorModel::Text { at, .. } => copy_vector(
                    next.text_read((memory.texts)(at)),
                    memory,
                    (fuel - 1) as nat,
                ),
                _ => next,
            }
        },
        _ => state,
    }
}

/// The strings are those that the pointers from `start` on lead to.
pub open spec fn are_strings_at(strings: Seq<Seq<u8>>, memory: GuestStrings, start: u64) -> bool {
    forall|i: int|
        0 <= i < strings.len() ==> ({
            let p = #[trigger] (memory.pointers)(slot(start, i));
            &&& p matches Some(at)
            &&& at != 0
            &&& (memory.texts)(at) == Some(strings[i])
        })
}

/// A copy that succeeds holds the strings in their order, up to the first zero pointer or to as many
/// as there may be, within the limit on bytes; and every copy ends.
pub proof fn law_copied_strings(state: VectorModel, memory: GuestStrings, start: u64, fuel: nat)
    requires
        state matches VectorModel::Pointer { base, strings } ==> {
            &&& base == slot(start, strings.len() as int)
            &&& strings.len() < MAX_VEC
            &&& fuel + strings.len() >= MAX_VEC
            &&& total_bytes(strings) <= MAX_TOTAL_BYTES
            &&& are_strings_at(strings, memory, start)
        },
        state !is Text,
        state matches VectorModel::Done(strings) ==> {
            &&& are_strings_at(strings, memory, start)
            &&& total_bytes(strings) <= MAX_TOTAL_BYTES
            &&& strings.len() == MAX_VEC || (memory.pointers)(slot(start, strings.len() as int)) == Some(
                0u64,
            )
        },
    ensures
        match copy_vector(state, memory, fuel) {
            VectorModel::Done(strings) => {
                &&& are_strings_at(strings, memory, start)
                &&& total_bytes(strings) <= MAX_TOTAL_BYTES
                &&& strings.len() == MAX_VEC || (memory.pointers)(
                    slot(start, strings.len() as int),
                ) == Some(0u64)
            },
            VectorModel::Failed(_) => true,
            _ => false,
        },
    decreases fuel,
{
    if let VectorModel::Pointer { base, strings } = state {
        let next = state.pointer_read((memory.pointers)(base));
        if let VectorModel::Text { base: b, strings: s, at } = next {
            let after = next.text_read((memory.texts)(at));
            if let Some(t) = (memory.texts)(at) {
                let more = strings.push(t);
                assert(are_strings_at(more, memory, start)) by {
                    assert forall|i: int| 0 <= i < more.len() implies ({
                        let p = #[trigger] (memory.pointers)(slot(start, i));
                        &&& p matches Some(at)
                        &&& at != 0
                        &&& (memory.texts)(at) == Some(more[i])
                    }) by {
                        if i < strings.len() {
                            assert(more[i] == strings[i]);
                        }
                    }
                }
            }
            law_copied_strings(after, memory, start, (fuel - 1) as nat);
        }
    }
}

/// The number of processors.
pub const NR_CPUS: usize = 2;

/// A set of processors, held by a vector of bits.
#[verifier::external_body]
pub struct CpuBits {
    inner: bitvec::vec::BitVec<u8, bitvec::order::Lsb0>,
}

/// What a [`CpuBits`] holds.
pub uninterp spec fn cpu_bits(bits: CpuBits) -> Seq<bool>;

impl CpuBits {
    /// `bitvec::vec::BitVec::repeat`: a vector of cleared bits.
    #[verifier::external_body]
    fn cleared(len: usize) -> (r: CpuBits)
        requires
            len <= 0x0fff_ffff,
        ensures
            cpu_bits(r) == Seq::new(len as nat, |i: int| false),
    {
        CpuBits { inner: bitvec::vec::BitVec::repeat(false, len) }
    }

    /// `bitvec::slice::BitSlice::set`: sets a bit.
    #[verifier::external_body]
    fn set(&mut self, index: usize, value: bool)
        requires
            index < cpu_bits(*old(self)).len(),
        ensures
            cpu_bits(*final(self)) == cpu_bits(*old(self)).update(index as int, value),
    {
        self.inner.set(index, value);
    }

    /// `bitvec::slice::BitSlice::len`: the number of bits.
    #[verifier::external_body]
    fn len(&self) -> (r: usize)
        ensures
            r == cpu_bits(*self).len(),
    {
        self.inner.len()
    }

    /// `bitvec::vec::BitVec::as_raw_slice`: the bytes of the bits, the lowest bit first. Bits of the
    /// last byte that the vector does not have were cleared when it was made and are never set.
    #[verifier::external_body]
    fn as_raw_slice(&self) -> (r: &[u8])
        ensures
            r@.len() == (cpu_bits(*self).len() + 7) / 8,
            forall|i: int, k: u8|
                0 <= i < r@.len() && k < 8 ==> (#[trigger] (r@[i] >> k) & 1 == 1) == (8 * i + k
                    < cpu_bits(*self).len() && cpu_bits(*self)[8 * i + k]),
    {
        self.inner.as_raw_slice()
    }
}

/// A set of processors.
pub struct CpuSet {
    bits: CpuBits,
}

impl View for CpuSet {
    type V = Seq<bool>;

    closed spec fn view(&self) -> Seq<bool> {
        cpu_bits(self.bits)
    }
}

impl CpuSet {
    /// The number of processors that the set could have.
    pub fn len(&self) -> (r: usize)
        ensures
            r == self@.len(),
    {
        self.bits.len()
    }

    /// The set as bytes, one bit for each processor, the lowest bit first.
    pub fn as_bytes(&self) -> (r: &[u8])
        ensures
            r@.len() == (self@.len() + 7) / 8,
            forall|i: int, k: u8|
                0 <= i < r@.len() && k < 8 ==> (#[trigger] (r@[i] >> k) & 1 == 1) == (8 * i + k
                    < self@.len() && self@[8 * i + k]),
    {
        self.bits.as_raw_slice()
    }
}

/// The processors that a task may use: all.
pub fn sys_sched_getaffinity() -> (r: CpuSet)
    ensures
        r@ == Seq::new(NR_CPUS as nat, |i: int| true),
{
    let mut bits = CpuBits::cleared(NR_CPUS);
    let mut i: usize = 0;
    while i < NR_CPUS
        invariant
            i <= NR_CPUS,
            cpu_bits(bits).len() == NR_CPUS,
            forall|j: int| 0 <= j < i ==> #[trigger] cpu_bits(bits)[j],
        decreases NR_CPUS - i,
    {
        bits.set(i, true);
        i = i + 1;
    }
    let r = CpuSet { bits };
    assert(r@ =~= Seq::new(NR_CPUS as nat, |i: int| true));
    r
}

/// The processors that a task may use, as the byte that a caller gets: one bit for each.
pub fn affinity_byte() -> (r: u8)
    ensures
        r == 3,
{
    let set = sys_sched_getaffinity();
    let bytes = set.as_bytes();
    let byte: u8 = bytes[0];
    proof {
        assert forall|k: u8| k < 8 implies (#[trigger] (byte >> k) & 1 == 1) == (k < 2) by {
            assert(((bytes@[0] >> k) & 1 == 1) == (8 * 0 + k < set@.len() && set@[8 * 0 + k]));
        }
        assert((byte >> 0u8) & 1 == 1 && (byte >> 1u8) & 1 == 1);
        assert(!((byte >> 2u8) & 1 == 1) && !((byte >> 3u8) & 1 == 1) && !((byte >> 4u8) & 1 == 1)
            && !((byte >> 5u8) & 1 == 1) && !((byte >> 6u8) & 1 == 1) && !((byte >> 7u8) & 1 == 1));
        assert((byte >> 0u8) & 1 == 1 && (byte >> 1u8) & 1 == 1 && !((byte >> 2u8) & 1 == 1) && !((byte
            >> 3u8) & 1 == 1) && !((byte >> 4u8) & 1 == 1) && !((byte >> 5u8) & 1 == 1) && !((byte
            >> 6u8) & 1 == 1) && !((byte >> 7u8) & 1 == 1) ==> byte == 3) by (bit_vector);
    }
    byte
}

/// A mask of `len` bytes has room for the processors of a set, and is made of whole words. Its number
/// of bits is cut to 64 bits.
pub open spec fn mask_fits(len: u64, cpus: int) -> bool {
    (len * 8) % 0x1_0000_0000_0000_0000 >= cpus && len % 8 == 0
}

/// Whether the processors of a set can be written to a mask of `len` bytes.
pub fn affinity_fits(len: u64, cpus: u64) -> (r: bool)
    ensures
        r == mask_fits(len, cpus as int),
{
    len.wrapping_mul(8) >= cpus && len % 8 == 0
}

} // verus!
