//! Symbols that the VTL0 kernel exports.
use vstd::arithmetic::div_mod::lemma_fundamental_div_mod;
use vstd::prelude::*;
use vstd::slice::slice_subrange;
use vstd::utf8::{decode_utf8, valid_utf8};

use crate::addr::{is_canonical, VirtAddr, CANONICAL_HIGH_START, CANONICAL_LOW_END};
use crate::bytes::{copy_bytes, find_nul, first_nul, reads, string_from_utf8};
use crate::lvbs::container::MemoryContainer;
use crate::lvbs::error::VsmError;

verus! {

/// An entry of the kernel's symbol table: where its value and its name stand, each relative to the
/// field that tells it.
#[derive(Clone, Copy, PartialEq, Eq, Structural, Debug)]
pub struct HekiKernelSymbol {
    pub value_offset: i32,
    pub name_offset: i32,
}

/// Layout of an entry of the kernel's symbol table.
#[derive(Clone, Copy, PartialEq, Eq, Structural, Debug)]
pub struct SymbolLayout {
    /// Where the value offset stands in an entry.
    pub value_pos: u64,
    /// Where the name offset stands in an entry.
    pub name_pos: u64,
    /// Length of an entry.
    pub len: usize,
    /// Names are shorter than this.
    pub name_limit: usize,
}

impl SymbolLayout {
    /// The fields stand inside the entry.
    pub open spec fn well_formed(self) -> bool {
        self.value_pos < self.len && self.name_pos < self.len
    }
}

/// A symbol: its address in VTL0.
#[derive(Clone, Copy, PartialEq, Eq, Structural, Debug)]
pub struct Symbol {
    /// Address of what the symbol names.
    pub value: u64,
}

/// The symbol of the entry `ksym`, which stands at address `start` and at offset `kinfo_start` of
/// `bytes`: its name, a string of `bytes` that ends with a zero byte, and its address.
pub open spec fn parse_symbol(
    kinfo_start: int,
    start: int,
    ksym: HekiKernelSymbol,
    bytes: Seq<u8>,
    layout: SymbolLayout,
) -> Result<(Seq<char>, u64), VsmError> {
    let name_at = kinfo_start + layout.name_pos + ksym.name_offset;
    if ksym.name_offset < 0 || name_at >= bytes.len() {
        Err(VsmError::SymbolNameOffsetInvalid)
    } else {
        match first_nul(bytes, name_at) {
            None => Err(VsmError::SymbolNameNoTerminator),
            Some(len) => if len >= layout.name_limit {
                Err(VsmError::SymbolNameTooLong)
            } else if !valid_utf8(bytes.subrange(name_at, name_at + len)) {
                Err(VsmError::SymbolNameInvalidUtf8)
            } else {
                Ok(
                    (
                        decode_utf8(bytes.subrange(name_at, name_at + len)),
                        wrapping_sum(start + layout.value_pos, ksym.value_offset as int),
                    ),
                )
            },
        }
    }
}

/// The sum of an address and an offset, modulo 2^64.
pub open spec fn wrapping_sum(addr: int, offset: int) -> u64 {
    ((addr + offset) % 0x1_0000_0000_0000_0000) as u64
}

/// The decoder takes any bytes, and fails on those that are too short for an entry.
pub open spec fn decodes_symbols<S: Fn(&[u8]) -> Result<HekiKernelSymbol, VsmError>>(
    layout: SymbolLayout,
    symbol: S,
) -> bool {
    &&& layout.well_formed()
    &&& forall|b: &[u8]| #[trigger] call_requires(symbol, (b,))
    &&& forall|b: &[u8], ksym: HekiKernelSymbol| #[trigger]
        call_ensures(symbol, (b,), Ok(ksym)) ==> b@.len() >= layout.len
}

/// The symbol of an entry that was decoded, or could not be: see [`parse_symbol`].
pub open spec fn symbol_of(
    ksym: Result<HekiKernelSymbol, VsmError>,
    kinfo_start: int,
    start: int,
    bytes: Seq<u8>,
    layout: SymbolLayout,
) -> Result<(Seq<char>, u64), VsmError> {
    match ksym {
        Ok(ksym) => parse_symbol(kinfo_start, start, ksym, bytes, layout),
        Err(e) => Err(e),
    }
}

/// The entry at address `start` and at offset `kinfo_start` of `bytes` decodes to the symbol, or to the
/// error. The decoder gets the bytes from that offset on.
pub open spec fn symbol_read<S: Fn(&[u8]) -> Result<HekiKernelSymbol, VsmError>>(
    kinfo_start: int,
    start: int,
    bytes: Seq<u8>,
    layout: SymbolLayout,
    symbol: S,
    out: Result<(Seq<char>, u64), VsmError>,
) -> bool {
    exists|ksym: Result<HekiKernelSymbol, VsmError>| #[trigger]
        reads(symbol, bytes.skip(kinfo_start), ksym) && out == symbol_of(
            ksym,
            kinfo_start,
            start,
            bytes,
            layout,
        )
}

/// A symbol with its name as a mathematical value.
pub open spec fn named(r: Result<(String, Symbol), VsmError>) -> Result<(Seq<char>, u64), VsmError> {
    match r {
        Ok((name, sym)) => Ok((name@, sym.value)),
        Err(e) => Err(e),
    }
}

impl Symbol {
    /// The name and the symbol of the entry at address `start` and at offset `kinfo_start` of `bytes`,
    /// which `symbol` decodes.
    pub fn from_bytes<S: Fn(&[u8]) -> Result<HekiKernelSymbol, VsmError>>(
        kinfo_start: usize,
        start: VirtAddr,
        bytes: &[u8],
        layout: SymbolLayout,
        symbol: &S,
    ) -> (r: Result<(String, Symbol), VsmError>)
        requires
            kinfo_start <= bytes@.len(),
            decodes_symbols(layout, *symbol),
            kinfo_start + layout.len <= bytes@.len() ==> is_canonical(start@ + layout.value_pos),
        ensures
            symbol_read(kinfo_start as int, start@, bytes@, layout, *symbol, named(r)),
            r is Ok ==> kinfo_start + layout.len <= bytes@.len(),
    {
        let kinfo_bytes = slice_subrange(bytes, kinfo_start, bytes.len());
        assert(kinfo_bytes@ =~= bytes@.skip(kinfo_start as int));
        let decoded = symbol(kinfo_bytes);
        assert(reads(*symbol, bytes@.skip(kinfo_start as int), decoded));
        let ksym = match decoded {
            Ok(ksym) => ksym,
            Err(e) => return Err(e),
        };
        let value_addr: u64 = start.offset_by(layout.value_pos).as_u64();
        let value: u64 = value_addr.wrapping_add_signed(ksym.value_offset as i64);
        if ksym.name_offset < 0 {
            return Err(VsmError::SymbolNameOffsetInvalid);
        }
        let room: u64 = (bytes.len() - kinfo_start) as u64;
        let name_offset: u64 = ksym.name_offset as u64;
        if layout.name_pos >= room || name_offset >= room - layout.name_pos {
            return Err(VsmError::SymbolNameOffsetInvalid);
        }
        let name_at: usize = kinfo_start + (layout.name_pos + name_offset) as usize;
        let name_len: usize = match find_nul(bytes, name_at) {
            Some(len) => len,
            None => return Err(VsmError::SymbolNameNoTerminator),
        };
        if name_len >= layout.name_limit {
            return Err(VsmError::SymbolNameTooLong);
        }
        let name_bytes = copy_bytes(slice_subrange(bytes, name_at, name_at + name_len));
        match string_from_utf8(name_bytes) {
            Some(name) => Ok((name, Symbol { value })),
            None => Err(VsmError::SymbolNameInvalidUtf8),
        }
    }
}

/// Symbols by name, held by a hash map.
#[verifier::external_body]
pub struct SymbolMap {
    inner: hashbrown::HashMap<String, Symbol>,
}

/// What a [`SymbolMap`] holds: addresses by name.
pub uninterp spec fn symbol_map(map: SymbolMap) -> Map<Seq<char>, u64>;

impl SymbolMap {
    /// `hashbrown::HashMap::new`: a map without entries.
    #[verifier::external_body]
    fn new() -> (r: SymbolMap)
        ensures
            symbol_map(r).dom() == Set::<Seq<char>>::empty(),
    {
        SymbolMap { inner: hashbrown::HashMap::new() }
    }

    /// `hashbrown::HashMap::insert`: gives the name the symbol, whether or not it had one. What the
    /// method returns, the symbol that the name had, is not passed on.
    #[verifier::external_body]
    fn insert(&mut self, name: String, symbol: Symbol)
        ensures
            symbol_map(*final(self)) == symbol_map(*old(self)).insert(name@, symbol.value),
    {
        let _ = self.inner.insert(name, symbol);
    }

    /// `hashbrown::HashMap::get`: the symbol of the name, if there is one.
    #[verifier::external_body]
    fn get(&self, name: &str) -> (r: Option<&Symbol>)
        ensures
            r is Some == symbol_map(*self).dom().contains(name@),
            r matches Some(s) ==> s.value == symbol_map(*self)[name@],
    {
        self.inner.get(name)
    }
}

/// A table of symbols by name.
pub struct SymbolTable {
    inner: SymbolMap,
}

impl View for SymbolTable {
    type V = Map<Seq<char>, u64>;

    /// The addresses of the symbols by name.
    closed spec fn view(&self) -> Map<Seq<char>, u64> {
        symbol_map(self.inner)
    }
}

impl Default for SymbolTable {
    fn default() -> (r: Self)
        ensures
            r@ == Map::<Seq<char>, u64>::empty(),
    {
        SymbolTable { inner: SymbolMap::new() }
    }
}

/// Adding `count` entries to the table `before` gives the table `after`, or stops with the error of the
/// first that is malformed. The first entry stands at `offset` of `bytes` and at address `start`.
pub open spec fn entries_added<S: Fn(&[u8]) -> Result<HekiKernelSymbol, VsmError>>(
    before: Map<Seq<char>, u64>,
    offset: int,
    start: int,
    count: nat,
    bytes: Seq<u8>,
    layout: SymbolLayout,
    symbol: S,
    after: Map<Seq<char>, u64>,
    error: Option<VsmError>,
) -> bool
    decreases count,
{
    if count == 0 {
        after == before && error is None
    } else {
        exists|out: Result<(Seq<char>, u64), VsmError>| #[trigger]
            symbol_read(offset, start, bytes, layout, symbol, out) && match out {
                Err(e) => after == before && error == Some(e),
                Ok((name, value)) => entries_added(
                    before.insert(name, value),
                    offset + layout.len,
                    start + layout.len,
                    (count - 1) as nat,
                    bytes,
                    layout,
                    symbol,
                    after,
                    error,
                ),
            }
    }
}

/// Why the entries from `start` up to `end` cannot be read from `mem` at all, if they cannot.
pub open spec fn symbol_table_error(start: int, end: int, mem: MemoryContainer, layout: SymbolLayout) -> Option<
    VsmError,
> {
    if mem@.len() == 0 || mem.ranges().len() == 0 {
        Some(VsmError::SymbolTableEmpty)
    } else if start < mem.ranges().first().addr || end > mem.ranges().last().addr
        + mem.ranges().last().len {
        Some(VsmError::SymbolTableOutOfRange)
    } else if (end - start) % layout.len as int != 0 {
        Some(VsmError::SymbolTableLengthInvalid)
    } else {
        None
    }
}

/// Adding the entries from `start` up to `end`, which `mem` holds, to the table `before` gives the table
/// `after`, or stops with the error.
pub open spec fn table_added<S: Fn(&[u8]) -> Result<HekiKernelSymbol, VsmError>>(
    before: Map<Seq<char>, u64>,
    start: int,
    end: int,
    mem: MemoryContainer,
    layout: SymbolLayout,
    symbol: S,
    after: Map<Seq<char>, u64>,
    error: Option<VsmError>,
) -> bool {
    match symbol_table_error(start, end, mem, layout) {
        Some(e) => after == before && error == Some(e),
        None => entries_added(
            before,
            start - mem.ranges().first().addr,
            start,
            ((end - start) / layout.len as int) as nat,
            mem@,
            layout,
            symbol,
            after,
            error,
        ),
    }
}

/// A table that lies within the addresses of `mem` does not run backwards; if its entries are read at all,
/// it does not cross the gap between the canonical halves, and `mem` holds bytes up to its start.
pub open spec fn table_fits(start: int, end: int, mem: MemoryContainer, layout: SymbolLayout) -> bool {
    let error = symbol_table_error(start, end, mem, layout);
    &&& error is None || error == Some(VsmError::SymbolTableLengthInvalid) ==> start <= end
    &&& error is None && start < end ==> {
        &&& end < CANONICAL_LOW_END || start >= CANONICAL_HIGH_START
        &&& start - mem.ranges().first().addr <= mem@.len()
    }
}

impl SymbolTable {
    /// A table without symbols.
    pub fn new() -> (r: SymbolTable)
        ensures
            r@ == Map::<Seq<char>, u64>::empty(),
    {
        SymbolTable { inner: SymbolMap::new() }
    }

    /// The symbol with the name.
    pub fn get(&self, name: &str) -> (r: Option<Symbol>)
        ensures
            r == (if self@.dom().contains(name@) {
                Some(Symbol { value: self@[name@] })
            } else {
                None
            }),
    {
        match self.inner.get(name) {
            Some(symbol) => Some(*symbol),
            None => None,
        }
    }

    /// Adds the symbols whose entries stand at the addresses from `start` up to `end`, which `mem` holds.
    /// `symbol` decodes an entry.
    pub fn build_from_container<S: Fn(&[u8]) -> Result<HekiKernelSymbol, VsmError>>(
        &mut self,
        start: VirtAddr,
        end: VirtAddr,
        mem: &MemoryContainer,
        layout: SymbolLayout,
        symbol: &S,
    ) -> (r: Result<u64, VsmError>)
        requires
            mem.well_formed(),
            decodes_symbols(layout, *symbol),
            table_fits(start@, end@, *mem, layout),
        ensures
            r matches Ok(value) ==> value == 0,
            table_added(
                old(self)@,
                start@,
                end@,
                *mem,
                layout,
                *symbol,
                final(self)@,
                match r {
                    Ok(_) => None,
                    Err(e) => Some(e),
                },
            ),
    {
        if mem.is_empty() {
            return Err(VsmError::SymbolTableEmpty);
        }
        let (first, last) = match mem.get_range() {
            Some(range) => range,
            None => return Err(VsmError::SymbolTableEmpty),
        };
        if start.as_u64() < first.as_u64() || end.as_u64() > last.as_u64() {
            return Err(VsmError::SymbolTableOutOfRange);
        }
        let kinfo_len: u64 = end.as_u64() - start.as_u64();
        if kinfo_len % (layout.len as u64) != 0 {
            return Err(VsmError::SymbolTableLengthInvalid);
        }
        let count: u64 = kinfo_len / (layout.len as u64);
        if count == 0 {
            proof {
                lemma_fundamental_div_mod(kinfo_len as int, layout.len as int);
            }
            return Ok(0);
        }
        let bytes = mem.as_slice();
        let ghost offset = start@ - mem.ranges().first().addr;
        let ghost before = self@;
        proof {
            lemma_fundamental_div_mod(kinfo_len as int, layout.len as int);
            assert(kinfo_len > 0) by (nonlinear_arith)
                requires
                    count > 0,
                    layout.len > 0,
                    kinfo_len == layout.len * count,
            ;
            assert(0 * layout.len == 0) by (nonlinear_arith);
            assert(layout.len * count == count * layout.len) by (nonlinear_arith);
        }
        assert(offset <= bytes.len());
        let mut kinfo_offset: usize = (start.as_u64() - first.as_u64()) as usize;
        let mut kinfo_addr: VirtAddr = start;
        let mut i: u64 = 0;
        while i < count
            invariant
                i <= count,
                before == old(self)@,
                bytes@ == mem@,
                offset == start@ - mem.ranges().first().addr,
                decodes_symbols(layout, *symbol),
                kinfo_offset == offset + i * layout.len,
                kinfo_offset <= bytes@.len(),
                kinfo_addr@ == start@ + i * layout.len,
                count * layout.len == end@ - start@,
                symbol_table_error(start@, end@, *mem, layout) is None,
                count == (end@ - start@) / layout.len as int,
                is_canonical(start@),
                is_canonical(end@),
                end@ < CANONICAL_LOW_END || start@ >= CANONICAL_HIGH_START,
                forall|after: Map<Seq<char>, u64>, error: Option<VsmError>| #[trigger]
                    entries_added(
                        self@,
                        kinfo_offset as int,
                        kinfo_addr@,
                        (count - i) as nat,
                        bytes@,
                        layout,
                        *symbol,
                        after,
                        error,
                    ) ==> entries_added(
                        before,
                        offset,
                        start@,
                        count as nat,
                        bytes@,
                        layout,
                        *symbol,
                        after,
                        error,
                    ),
            decreases count - i,
        {
            let ghost table = self@;
            let ghost at = kinfo_offset as int;
            let ghost addr = kinfo_addr@;
            let ghost left = (count - i) as nat;
            proof {
                assert((i + 1) * layout.len == i * layout.len + layout.len) by (nonlinear_arith);
                assert((i + 1) * layout.len <= count * layout.len) by (nonlinear_arith)
                    requires
                        i + 1 <= count,
                        layout.len >= 0,
                ;
            }
            let read = Symbol::from_bytes(kinfo_offset, kinfo_addr, bytes, layout, symbol);
            let ghost out = named(read);
            assert(symbol_read(at, addr, bytes@, layout, *symbol, out));
            match read {
                Ok((name, sym)) => {
                    self.inner.insert(name, sym);
                },
                Err(e) => {
                    assert(entries_added(
                        table,
                        at,
                        addr,
                        left,
                        bytes@,
                        layout,
                        *symbol,
                        table,
                        Some(e),
                    ));
                    return Err(e);
                },
            }
            assert(kinfo_offset + layout.len <= bytes.len());
            kinfo_offset = kinfo_offset + layout.len;
            kinfo_addr = kinfo_addr.offset_by(layout.len as u64);
            i = i + 1;
            assert forall|after: Map<Seq<char>, u64>, error: Option<VsmError>| #[trigger]
                entries_added(
                    self@,
                    kinfo_offset as int,
                    kinfo_addr@,
                    (count - i) as nat,
                    bytes@,
                    layout,
                    *symbol,
                    after,
                    error,
                ) implies entries_added(
                before,
                offset,
                start@,
                count as nat,
                bytes@,
                layout,
                *symbol,
                after,
                error,
            ) by {
                assert(symbol_read(at, addr, bytes@, layout, *symbol, out));
                assert(entries_added(
                    table,
                    at,
                    addr,
                    left,
                    bytes@,
                    layout,
                    *symbol,
                    after,
                    error,
                ));
            }
        }
        assert(entries_added(
            self@,
            kinfo_offset as int,
            kinfo_addr@,
            (count - i) as nat,
            bytes@,
            layout,
            *symbol,
            self@,
            None,
        ));
        Ok(0)
    }
}

} // verus!
