//! A ring buffer in VTL0 memory that VTL1 writes and VTL0 reads.
use vstd::prelude::*;

use crate::addr::{is_phys, page_aligned, PAGE_BYTES};
use crate::page_list::{page_list, page_list_new, page_list_push};

verus! {

/// Longest run of pages that one mapping covers.
pub const MAX_SPAN_PAGES: u64 = 16;

/// A write of bytes of a message to VTL0 memory.
pub enum RingWrite {
    /// The bytes `from..to` go to consecutive addresses from `pa` on.
    Run { pa: u64, from: usize, to: usize },
    /// The bytes `from..to` go to the pages of the list, mapped one behind the other, from `offset`
    /// on.
    Span { pages: arrayvec::ArrayVec<u64, 32>, offset: u64, from: usize, to: usize },
}

impl RingWrite {
    /// The first byte of the message that is written.
    pub open spec fn first(self) -> int {
        match self {
            RingWrite::Run { pa: _, from, to: _ } => from as int,
            RingWrite::Span { pages: _, offset: _, from, to: _ } => from as int,
        }
    }

    /// The byte of the message behind the last that is written.
    pub open spec fn end(self) -> int {
        match self {
            RingWrite::Run { pa: _, from: _, to } => to as int,
            RingWrite::Span { pages: _, offset: _, from: _, to } => to as int,
        }
    }

    /// The physical address that byte `i` of the message goes to.
    pub open spec fn addr_of(self, i: int) -> int {
        match self {
            RingWrite::Run { pa, from, to: _ } => pa + (i - from),
            RingWrite::Span { pages, offset, from, to: _ } => page_list(pages)[(offset + (i - from))
                / 4096] + (offset + (i - from)) % 4096,
        }
    }
}

/// The place in a ring of `size` bytes that stands `j` bytes behind `start`.
pub open spec fn ring_pos(size: int, start: int, j: int) -> int {
    if start + j < size {
        start + j
    } else {
        start + j - size
    }
}

/// How many bytes of a message of `len` bytes are dropped: all but the last `size`.
pub open spec fn dropped(size: int, len: int) -> int {
    if len >= size {
        len - size
    } else {
        0
    }
}

/// Where in the ring a message of `len` bytes starts: one that fills the ring starts at its front.
pub open spec fn write_start(size: int, offset: int, len: int) -> int {
    if len >= size {
        0
    } else {
        offset
    }
}

/// Where in the ring the message behind one of `len` bytes starts.
pub open spec fn advance_offset_spec(size: int, offset: int, len: int) -> int {
    if len >= size {
        0
    } else {
        ring_pos(size, offset, len)
    }
}

/// The writes store the bytes of a message that are not dropped, each once and in order, at their
/// places in the ring.
pub open spec fn writes_store(
    writes: Seq<RingWrite>,
    rb_pa: int,
    size: int,
    offset: int,
    len: int,
) -> bool {
    let first = dropped(size, len);
    let start = write_start(size, offset, len);
    &&& writes.len() > 0
    &&& writes[0].first() == first
    &&& writes.last().end() == len
    &&& forall|k: int|
        0 <= k < writes.len() ==> (#[trigger] writes[k]).first() < writes[k].end()
    &&& forall|k: int| 0 < k < writes.len() ==> (#[trigger] writes[k]).first() == writes[k - 1].end()
    &&& forall|k: int, i: int|
        #![trigger writes[k].addr_of(i)]
        0 <= k < writes.len() && writes[k].first() <= i < writes[k].end() ==> writes[k].addr_of(i)
            == rb_pa + ring_pos(size, start, i - first)
}

/// A ring buffer: where it lies, and where the next message starts.
#[derive(Clone, Copy, PartialEq, Eq, Structural, Debug)]
pub struct RingBuffer {
    pub rb_pa: u64,
    pub write_offset: u64,
    pub size: u64,
    /// Whether the ring consists of whole pages, so that a message that wraps around can be written
    /// through one mapping.
    pub fast_path_eligible: bool,
}

impl RingBuffer {
    /// The ring lies in physical memory and its write position lies in the ring.
    pub open spec fn well_formed(self) -> bool {
        &&& is_phys(self.rb_pa + self.size)
        &&& self.size > 0 ==> self.write_offset < self.size
        &&& self.fast_path_eligible == (self.size > 0 && page_aligned(self.size as int)
            && page_aligned(self.rb_pa as int))
    }

    /// A ring of `requested_size` bytes at `phys_addr`.
    pub fn new(phys_addr: u64, requested_size: u64) -> (r: RingBuffer)
        requires
            is_phys(phys_addr + requested_size),
        ensures
            r.well_formed(),
            r.rb_pa == phys_addr,
            r.size == requested_size,
            r.write_offset == 0,
    {
        let fast_path_eligible = requested_size > 0 && requested_size % PAGE_BYTES == 0 && phys_addr
            % PAGE_BYTES == 0;
        RingBuffer { rb_pa: phys_addr, write_offset: 0, size: requested_size, fast_path_eligible }
    }

    /// Appends a message: the writes to attempt, in order. The position moves on whether or not the
    /// writes succeed. Of a message that is longer than the ring, the last bytes are kept.
    pub fn write(&mut self, buf: &[u8]) -> (r: Vec<RingWrite>)
        requires
            old(self).well_formed(),
        ensures
            final(self).well_formed(),
            final(self).rb_pa == old(self).rb_pa,
            final(self).size == old(self).size,
            if old(self).size == 0 || buf@.len() == 0 {
                r@.len() == 0 && *final(self) == *old(self)
            } else {
                &&& final(self).write_offset == advance_offset_spec(
                    old(self).size as int,
                    old(self).write_offset as int,
                    buf@.len() as int,
                )
                &&& writes_store(
                    r@,
                    old(self).rb_pa as int,
                    old(self).size as int,
                    old(self).write_offset as int,
                    buf@.len() as int,
                )
            },
    {
        if self.size == 0 || buf.len() == 0 {
            return Vec::new();
        }
        let len: usize = buf.len();
        let writes = if self.fast_path_eligible {
            write_fast(self.rb_pa, self.size, self.write_offset, len)
        } else {
            write_slow(self.rb_pa, self.size, self.write_offset, len)
        };
        self.write_offset = advance_offset(self.size, self.write_offset, len);
        writes
    }
}

/// Where in the ring the message behind one of `len` bytes starts.
fn advance_offset(size: u64, write_offset: u64, len: usize) -> (r: u64)
    requires
        size <= 0x10_0000_0000_0000,
        write_offset < size,
    ensures
        r == advance_offset_spec(size as int, write_offset as int, len as int),
        r < size,
{
    if len as u64 >= size {
        0
    } else {
        let end: u64 = write_offset + len as u64;
        if end < size {
            end
        } else {
            end - size
        }
    }
}

/// The writes for a ring of whole pages: one mapping of the pages that the message touches, in the
/// order in which they follow each other in the ring.
fn write_fast(rb_pa: u64, size: u64, write_offset: u64, len: usize) -> (r: Vec<RingWrite>)
    requires
        is_phys(rb_pa + size),
        size > 0,
        page_aligned(size as int),
        page_aligned(rb_pa as int),
        write_offset < size,
        len > 0,
    ensures
        writes_store(r@, rb_pa as int, size as int, write_offset as int, len as int),
{
    let (from, start): (usize, u64) = if len as u64 >= size {
        (len - size as usize, 0)
    } else {
        (0, write_offset)
    };
    let kept: u64 = (len - from) as u64;
    let page_count: u64 = size / PAGE_BYTES;
    let start_page: u64 = start / PAGE_BYTES;
    let in_page_offset: u64 = start % PAGE_BYTES;
    let span_pages: u64 = (in_page_offset + kept + (PAGE_BYTES - 1)) / PAGE_BYTES;
    // A span of more pages than the ring has would map its first page twice.
    if span_pages > page_count || span_pages > MAX_SPAN_PAGES {
        return write_slow(rb_pa, size, write_offset, len);
    }
    let mut pages = page_list_new();
    let mut i: u64 = 0;
    while i < span_pages
        invariant
            i <= span_pages <= page_count,
            span_pages <= 16,
            start_page < page_count,
            page_count == size / 4096,
            page_aligned(size as int),
            is_phys(rb_pa + size),
            page_list(pages).len() == i,
            forall|k: int|
                0 <= k < i ==> #[trigger] page_list(pages)[k] == rb_pa + 4096 * ring_pos(
                    page_count as int,
                    start_page as int,
                    k,
                ),
        decreases span_pages - i,
    {
        let page_idx: u64 = if start_page + i < page_count {
            start_page + i
        } else {
            start_page + i - page_count
        };
        page_list_push(&mut pages, rb_pa + page_idx * PAGE_BYTES);
        i = i + 1;
    }
    let mut writes: Vec<RingWrite> = Vec::new();
    let ghost list = page_list(pages);
    writes.push(RingWrite::Span { pages, offset: in_page_offset, from, to: len });
    proof {
        let w = writes@[0];
        assert forall|b: int| from <= b < len implies #[trigger] w.addr_of(b) == rb_pa + ring_pos(
            size as int,
            start as int,
            b - from,
        ) by {
            let at = in_page_offset + (b - from);
            let k = at / 4096;
            assert(0 <= k < span_pages);
            assert(list[k] == rb_pa + 4096 * ring_pos(page_count as int, start_page as int, k));
        }
    }
    writes
}

/// The writes for any ring: one run, or two if the message wraps around.
fn write_slow(rb_pa: u64, size: u64, write_offset: u64, len: usize) -> (r: Vec<RingWrite>)
    requires
        is_phys(rb_pa + size),
        write_offset < size,
        len > 0,
    ensures
        writes_store(r@, rb_pa as int, size as int, write_offset as int, len as int),
{
    let mut writes: Vec<RingWrite> = Vec::new();
    if len as u64 >= size {
        writes.push(RingWrite::Run { pa: rb_pa, from: len - size as usize, to: len });
        return writes;
    }
    let space_remaining: u64 = size - write_offset;
    if len as u64 > space_remaining {
        let split: usize = space_remaining as usize;
        writes.push(RingWrite::Run { pa: rb_pa + write_offset, from: 0, to: split });
        writes.push(RingWrite::Run { pa: rb_pa, from: split, to: len });
    } else {
        writes.push(RingWrite::Run { pa: rb_pa + write_offset, from: 0, to: len });
    }
    writes
}

/// How far the place `p` of a ring of `size` bytes stands behind `start`.
pub open spec fn ring_distance(size: int, start: int, p: int) -> int {
    if p >= start {
        p - start
    } else {
        p - start + size
    }
}

/// The bytes of a ring after a message was written at `offset`.
pub open spec fn ring_after(ring: Seq<u8>, offset: int, msg: Seq<u8>) -> Seq<u8> {
    let size = ring.len() as int;
    let first = dropped(size, msg.len() as int);
    let start = write_start(size, offset, msg.len() as int);
    Seq::new(
        ring.len(),
        |p: int|
            {
                let i = first + ring_distance(size, start, p);
                if i < msg.len() {
                    msg[i]
                } else {
                    ring[p]
                }
            },
    )
}

/// The byte of the message that a write stores at an address.
pub open spec fn stores_at(write: RingWrite, addr: int, i: int) -> bool {
    write.first() <= i < write.end() && write.addr_of(i) == addr
}

/// Memory after a write of bytes of a message.
pub open spec fn memory_after_write(
    memory: spec_fn(int) -> u8,
    write: RingWrite,
    msg: Seq<u8>,
) -> spec_fn(int) -> u8 {
    |addr: int|
        if exists|i: int| stores_at(write, addr, i) {
            msg[choose|i: int| stores_at(write, addr, i)]
        } else {
            memory(addr)
        }
}

/// Memory after writes of bytes of a message, in order.
pub open spec fn memory_after(
    memory: spec_fn(int) -> u8,
    writes: Seq<RingWrite>,
    msg: Seq<u8>,
) -> spec_fn(int) -> u8
    decreases writes.len(),
{
    if writes.len() == 0 {
        memory
    } else {
        memory_after_write(
            memory_after(memory, writes.drop_last(), msg),
            writes.last(),
            msg,
        )
    }
}

/// The bytes of memory at a ring.
pub open spec fn ring_at(memory: spec_fn(int) -> u8, rb_pa: int, size: nat) -> Seq<u8> {
    Seq::new(size, |p: int| memory(rb_pa + p))
}

/// No write reaches behind the message.
proof fn lemma_writes_end(writes: Seq<RingWrite>, rb_pa: int, size: int, offset: int, len: int, k: int)
    requires
        writes_store(writes, rb_pa, size, offset, len),
        0 <= k < writes.len(),
    ensures
        dropped(size, len) <= writes[k].first() < writes[k].end() <= len,
    decreases writes.len() - k,
{
    if k < writes.len() - 1 {
        lemma_writes_end(writes, rb_pa, size, offset, len, k + 1);
        assert(writes[k + 1].first() == writes[k + 1 - 1].end());
    }
    lemma_writes_first(writes, rb_pa, size, offset, len, k);
}

/// No write starts before what is kept of the message.
proof fn lemma_writes_first(
    writes: Seq<RingWrite>,
    rb_pa: int,
    size: int,
    offset: int,
    len: int,
    k: int,
)
    requires
        writes_store(writes, rb_pa, size, offset, len),
        0 <= k < writes.len(),
    ensures
        dropped(size, len) <= writes[k].first(),
    decreases k,
{
    if k > 0 {
        lemma_writes_first(writes, rb_pa, size, offset, len, k - 1);
        assert(writes[k].first() == writes[k - 1].end());
        assert(writes[k - 1].first() < writes[k - 1].end());
    }
}

/// The first `n` writes store the bytes of the message up to where they end, and nothing else.
proof fn lemma_memory_after(
    memory: spec_fn(int) -> u8,
    writes: Seq<RingWrite>,
    rb_pa: int,
    size: int,
    offset: int,
    msg: Seq<u8>,
    n: nat,
    addr: int,
)
    requires
        0 <= offset < size,
        writes_store(writes, rb_pa, size, offset, msg.len() as int),
        0 < n <= writes.len(),
    ensures
        ({
            let first = dropped(size, msg.len() as int);
            let start = write_start(size, offset, msg.len() as int);
            let p = addr - rb_pa;
            let i = first + ring_distance(size, start, p);
            memory_after(memory, writes.take(n as int), msg)(addr) == (if 0 <= p < size && i
                < writes[n - 1].end() {
                msg[i]
            } else {
                memory(addr)
            })
        }),
    decreases n,
{
    let len = msg.len() as int;
    let first = dropped(size, len);
    let start = write_start(size, offset, len);
    let p = addr - rb_pa;
    let i = first + ring_distance(size, start, p);
    let k = n - 1;
    let done = writes.take(n as int);
    let write = writes[k];
    assert(done.last() == write);
    assert(done.drop_last() =~= writes.take(k));
    lemma_writes_end(writes, rb_pa, size, offset, len, k);
    let before = memory_after(memory, writes.take(k), msg);
    if n > 1 {
        lemma_memory_after(memory, writes, rb_pa, size, offset, msg, (n - 1) as nat, addr);
        assert(write.first() == writes[k - 1].end());
    } else {
        assert(writes.take(0) =~= Seq::<RingWrite>::empty());
    }
    assert forall|j: int| stores_at(write, addr, j) implies j == i && 0 <= p < size by {
        assert(writes[k].addr_of(j) == rb_pa + ring_pos(size, start, j - first));
    }
    if 0 <= p < size && write.first() <= i < write.end() {
        assert(writes[k].addr_of(i) == rb_pa + ring_pos(size, start, i - first));
        assert(stores_at(write, addr, i));
    }
}

/// The writes of a message make of the ring what the message makes of it, and leave all other memory
/// alone.
pub proof fn law_writes_fill_ring(
    memory: spec_fn(int) -> u8,
    writes: Seq<RingWrite>,
    rb_pa: int,
    size: nat,
    offset: int,
    msg: Seq<u8>,
    addr: int,
)
    requires
        0 <= offset < size,
        writes_store(writes, rb_pa, size as int, offset, msg.len() as int),
    ensures
        ring_at(memory_after(memory, writes, msg), rb_pa, size) == ring_after(
            ring_at(memory, rb_pa, size),
            offset,
            msg,
        ),
        !(rb_pa <= addr < rb_pa + size) ==> memory_after(memory, writes, msg)(addr) == memory(addr),
{
    let n = writes.len();
    assert(writes.take(n as int) =~= writes);
    assert forall|p: int| 0 <= p < size implies #[trigger] ring_at(
        memory_after(memory, writes, msg),
        rb_pa,
        size,
    )[p] == ring_after(ring_at(memory, rb_pa, size), offset, msg)[p] by {
        lemma_memory_after(memory, writes, rb_pa, size as int, offset, msg, n, rb_pa + p);
    }
    assert(ring_at(memory_after(memory, writes, msg), rb_pa, size) =~= ring_after(
        ring_at(memory, rb_pa, size),
        offset,
        msg,
    ));
    lemma_memory_after(memory, writes, rb_pa, size as int, offset, msg, n, addr);
}

/// Two messages that together are shorter than the ring leave in it what one message of the bytes of both
/// leaves, and the next message starts at the same place.
pub proof fn law_two_messages_are_one(ring: Seq<u8>, offset: int, msg: Seq<u8>, next: Seq<u8>)
    requires
        0 <= offset < ring.len(),
        msg.len() + next.len() < ring.len(),
    ensures
        ({
            let size = ring.len() as int;
            let between = advance_offset_spec(size, offset, msg.len() as int);
            &&& ring_after(ring_after(ring, offset, msg), between, next) == ring_after(
                ring,
                offset,
                msg + next,
            )
            &&& advance_offset_spec(size, between, next.len() as int) == advance_offset_spec(
                size,
                offset,
                (msg + next).len() as int,
            )
        }),
{
    let size = ring.len() as int;
    let between = advance_offset_spec(size, offset, msg.len() as int);
    assert(ring_after(ring_after(ring, offset, msg), between, next) =~= ring_after(
        ring,
        offset,
        msg + next,
    ));
}

/// A message that fills the ring leaves its last bytes there, in order from the front.
pub proof fn law_long_message_keeps_its_end(ring: Seq<u8>, offset: int, msg: Seq<u8>)
    requires
        0 <= offset < ring.len(),
        msg.len() >= ring.len(),
    ensures
        ring_after(ring, offset, msg) == msg.skip(msg.len() - ring.len()),
{
    assert(ring_after(ring, offset, msg) =~= msg.skip(msg.len() - ring.len()));
}

} // verus!
