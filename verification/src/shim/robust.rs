//! Lists of robust futexes, which a thread leaves behind when it ends, and what a thread gives up when
//! it runs another program.
use vstd::prelude::*;

use crate::errno::Errno;
use crate::shim::signal::{handler_of, no_altstack, reset_handler, SignalHandlers, SignalState};
use crate::shim::sigset::is_signal;
use crate::shim::thread::ThreadState;

verus! {

/// How many entries of a list are looked at.
pub const ROBUST_LIST_LIMIT: u32 = 2048;

/// The size of the head of a list in bytes: three words.
pub const ROBUST_LIST_HEAD_SIZE: u64 = 24;

/// The head of a list of robust futexes.
#[derive(Clone, Copy, PartialEq, Eq, Structural, Debug)]
pub struct RobustListHead {
    /// The first entry.
    pub next: u64,
    /// Where the futex of an entry lies, relative to the entry.
    pub futex_offset: u64,
    /// The entry that is being taken or given up.
    pub list_op_pending: u64,
}

/// An entry of a list: its address, and the mark of its futex, which is the lowest bit of the pointer.
pub fn fetch_robust_entry(pointer: u64) -> (r: (u64, bool))
    ensures
        r.0 == pointer - pointer % 2,
        r.1 == (pointer % 2 == 1),
{
    (pointer - pointer % 2, pointer % 2 == 1)
}

/// Tells those that wait for a futex that its owner has died. A futex at an address that is not aligned
/// is refused; that is the only case that is supported.
pub fn handle_futex_death(futex_addr: u64) -> (r: Errno)
    requires
        futex_addr % 4 != 0,
    ensures
        r == Errno::EINVAL,
{
    Errno::EINVAL
}

/// The address of the futex of an entry.
pub open spec fn futex_of(entry: u64, offset: u64) -> u64 {
    ((entry + offset) % 0x1_0000_0000_0000_0000) as u64
}

/// A walk along a list of robust futexes.
#[derive(Clone, Copy, PartialEq, Eq, Structural, Debug)]
pub struct RobustWalk {
    pub head: u64,
    pub entry: u64,
    pub pending: u64,
    pub futex_offset: u64,
    pub limit: u32,
}

impl RobustWalk {
    /// The walk is back at the head of the list, or has gone far enough.
    pub open spec fn at_end(self) -> bool {
        self.entry == self.head || self.limit == 0
    }

    /// What can be told of the futex of an entry is supported.
    pub open spec fn supported(self, entry: u64) -> bool {
        futex_of(entry, self.futex_offset) % 4 != 0
    }

    /// Whether the walk is over.
    pub fn is_at_end(&self) -> (r: bool)
        ensures
            r == self.at_end(),
    {
        self.entry == self.head || self.limit == 0
    }

    /// Deals with the entry, and goes on to the next one. `next` is the pointer that the entry holds,
    /// `None` where it could not be read.
    pub fn advance(&mut self, next: Option<u64>) -> (r: Result<(), Errno>)
        requires
            !old(self).at_end(),
            old(self).entry != old(self).pending ==> old(self).supported(old(self).entry),
        ensures
            if old(self).entry != old(self).pending {
                r == Err::<(), Errno>(Errno::EINVAL) && *final(self) == *old(self)
            } else {
                match next {
                    None => r == Err::<(), Errno>(Errno::EFAULT) && *final(self) == *old(self),
                    Some(p) => r is Ok && *final(self) == (RobustWalk {
                        entry: (p - p % 2) as u64,
                        limit: (old(self).limit - 1) as u32,
                        ..*old(self)
                    }),
                }
            },
    {
        if self.entry != self.pending {
            return Err(handle_futex_death(self.entry.wrapping_add(self.futex_offset)));
        }
        match next {
            None => Err(Errno::EFAULT),
            Some(p) => {
                let (entry, _pi) = fetch_robust_entry(p);
                self.entry = entry;
                self.limit = self.limit - 1;
                Ok(())
            },
        }
    }

    /// Deals with the entry that was being taken or given up, whatever comes of it. The result tells
    /// whether there was one.
    pub fn finish(&self) -> (r: bool)
        requires
            self.pending != 0 ==> self.supported(self.pending),
        ensures
            r == (self.pending != 0),
    {
        if self.pending != 0 {
            let _ = handle_futex_death(self.pending.wrapping_add(self.futex_offset));
            true
        } else {
            false
        }
    }
}

/// Starts a walk at the head of a list; `None` where the head could not be read.
pub fn wake_robust_list(head_ptr: u64, head: Option<RobustListHead>) -> (r: Result<RobustWalk, Errno>)
    ensures
        r == (match head {
            None => Err(Errno::EFAULT),
            Some(h) => Ok(
                RobustWalk {
                    head: head_ptr,
                    entry: (h.next - h.next % 2) as u64,
                    pending: (h.list_op_pending - h.list_op_pending % 2) as u64,
                    futex_offset: h.futex_offset,
                    limit: ROBUST_LIST_LIMIT,
                },
            ),
        }),
{
    match head {
        None => Err(Errno::EFAULT),
        Some(h) => {
            let (entry, _pi) = fetch_robust_entry(h.next);
            let (pending, _ppi) = fetch_robust_entry(h.list_op_pending);
            Ok(
                RobustWalk {
                    head: head_ptr,
                    entry,
                    pending,
                    futex_offset: h.futex_offset,
                    limit: ROBUST_LIST_LIMIT,
                },
            )
        },
    }
}

/// Gives up what does not survive when a thread runs another program: handlers, the alternate stack,
/// and what was to be done at the end of the thread. The result is the list of robust futexes to walk.
pub fn reset_for_exec(
    thread: &mut ThreadState,
    signals: &mut SignalState,
    handlers: &mut SignalHandlers,
) -> (r: Option<u64>)
    requires
        old(signals).well_formed(),
        old(handlers).well_formed(),
    ensures
        r == old(thread).robust_list,
        *final(thread) == (ThreadState {
            robust_list: None,
            clear_child_tid: None,
            ..*old(thread)
        }),
        final(signals).well_formed(),
        *final(signals) == (SignalState { altstack: no_altstack(), ..*old(signals) }),
        final(handlers).well_formed(),
        forall|n: int|
            is_signal(n) ==> #[trigger] handler_of(final(handlers)@, n) == reset_handler(
                handler_of(old(handlers)@, n),
            ),
{
    let robust_list = thread.robust_list;
    thread.robust_list = None;
    thread.clear_child_tid = None;
    handlers.reset_for_exec();
    signals.clear_sigaltstack();
    robust_list
}

} // verus!
