//! Processes and their threads.
use std::collections::BTreeMap;

use vstd::prelude::*;
use vstd::std_specs::iter::IteratorSpec;

use crate::shim::limits::{initial_limit, ResourceLimits, RlimitResource};

verus! {

/// How a process ended.
#[derive(Clone, Copy, PartialEq, Eq, Structural, Debug)]
pub enum ExitStatus {
    /// With this code.
    Exit(i8),
    /// By this signal.
    Signal(u32),
}

impl ExitStatus {
    /// The number that stands for the status: the exit code, or the signal number and 256.
    pub fn code(self) -> (r: i32)
        requires
            self matches ExitStatus::Signal(signal) ==> signal <= 64,
        ensures
            r == (match self {
                ExitStatus::Exit(code) => code as int,
                ExitStatus::Signal(signal) => signal + 256,
            }),
    {
        match self {
            ExitStatus::Exit(code) => code as i32,
            ExitStatus::Signal(signal) => signal as i32 + 256,
        }
    }
}

/// The exit code that an exit status of 32 bits is cut to.
pub open spec fn exit_code(status: int) -> int {
    (status + 128) % 256 - 128
}

/// Cuts an exit status to an exit code.
pub fn truncate_status(status: i32) -> (r: i8)
    ensures
        r == exit_code(status as int),
{
    let low: i64 = (status as i64 + 0x8000_0080) % 256;
    (low - 128) as i8
}

/// A process: its threads by their numbers, each with a mark whether it is exiting.
pub struct ProcessModel {
    pub threads: Map<i32, bool>,
    pub group_exit: bool,
    pub killing: bool,
    pub exit_status: ExitStatus,
    pub limits: ResourceLimits,
}

/// A Linux process, which may have several threads.
pub struct Process {
    nr_threads: u32,
    group_exit: bool,
    is_killing_other_threads: bool,
    exit_status: ExitStatus,
    threads: BTreeMap<i32, bool>,
    limits: ResourceLimits,
}

impl View for Process {
    type V = ProcessModel;

    closed spec fn view(&self) -> ProcessModel {
        ProcessModel {
            threads: self.threads@,
            group_exit: self.group_exit,
            killing: self.is_killing_other_threads,
            exit_status: self.exit_status,
            limits: self.limits,
        }
    }
}

impl ProcessModel {
    /// Nothing can outlive a group exit: a process without threads has exited, and in a process that
    /// exits every thread does.
    pub open spec fn consistent(self) -> bool {
        &&& self.limits.well_formed()
        &&& self.threads.dom().finite()
        &&& self.threads.len() == 0 ==> self.group_exit
        &&& self.group_exit ==> forall|tid: i32| #[trigger]
            self.threads.contains_key(tid) ==> self.threads[tid]
    }

    /// The thread belongs to the process and is not exiting.
    pub open spec fn running(self, tid: i32) -> bool {
        self.threads.contains_key(tid) && !self.threads[tid]
    }

    /// A thread joins.
    pub open spec fn attach(self, tid: i32) -> ProcessModel {
        ProcessModel { threads: self.threads.insert(tid, false), ..self }
    }

    /// A thread leaves; the last one ends the process.
    pub open spec fn detach(self, tid: i32) -> ProcessModel {
        let threads = self.threads.remove(tid);
        ProcessModel { threads, group_exit: self.group_exit || threads.len() == 0, ..self }
    }

    /// The thread exits with a code.
    pub open spec fn exit_thread(self, tid: i32, code: i8) -> ProcessModel {
        if self.running(tid) {
            ProcessModel {
                threads: self.threads.insert(tid, true),
                exit_status: ExitStatus::Exit(code),
                ..self
            }
        } else {
            self
        }
    }

    /// All threads exit with a status.
    pub open spec fn exit_group(self, tid: i32, status: ExitStatus) -> ProcessModel {
        if self.running(tid) {
            ProcessModel {
                threads: self.threads.map_values(|exiting: bool| true),
                exit_status: status,
                group_exit: true,
                ..self
            }
        } else {
            self
        }
    }

    /// All threads but one exit.
    pub open spec fn kill_others(self, tid: i32) -> ProcessModel {
        if self.running(tid) {
            ProcessModel {
                threads: self.threads.map_values(|exiting: bool| true).insert(tid, false),
                killing: true,
                ..self
            }
        } else {
            self
        }
    }
}

impl Process {
    /// The number of threads is kept, and so is what [`ProcessModel::consistent`] says.
    pub closed spec fn well_formed(&self) -> bool {
        &&& self.nr_threads == self.threads@.len()
        &&& self@.consistent()
    }

    /// What [`ProcessModel::consistent`] says holds of every process.
    pub proof fn lemma_consistent(&self)
        requires
            self.well_formed(),
        ensures
            self@.consistent(),
    {
    }

    /// A process with one thread, whose number is that of the process. `stack_size` is the limit on
    /// its stack.
    pub fn new(pid: i32, stack_size: u64) -> (r: Process)
        ensures
            r.well_formed(),
            r@ == (ProcessModel {
                threads: map![pid => false],
                group_exit: false,
                killing: false,
                exit_status: ExitStatus::Exit(0),
                limits: r@.limits,
            }),
            forall|resource: RlimitResource| #[trigger]
                r@.limits.limit(resource) == initial_limit(resource, stack_size),
    {
        let mut threads: BTreeMap<i32, bool> = BTreeMap::new();
        threads.insert(pid, false);
        assert(threads@ =~= map![pid => false]);
        assert(threads@.dom() =~= set![pid]);
        Process {
            nr_threads: 1,
            group_exit: false,
            is_killing_other_threads: false,
            exit_status: ExitStatus::Exit(0),
            threads,
            limits: ResourceLimits::new(stack_size),
        }
    }

    /// The number of threads.
    pub fn nr_threads(&self) -> (r: u32)
        requires
            self.well_formed(),
        ensures
            r == self@.threads.len(),
    {
        self.nr_threads
    }

    /// The exit status, once all threads have left.
    pub fn wait_for_exit(&self) -> (r: Option<ExitStatus>)
        requires
            self.well_formed(),
        ensures
            r == (if self@.threads.len() == 0 {
                Some(self@.exit_status)
            } else {
                None
            }),
    {
        if self.nr_threads == 0 {
            Some(self.exit_status)
        } else {
            None
        }
    }

    /// The limit of a resource that is in force.
    pub fn get_rlimit_cur(&self, resource: RlimitResource) -> (r: u64)
        requires
            self.well_formed(),
        ensures
            r == self@.limits.limit(resource).rlim_cur,
    {
        self.limits.get_rlimit_cur(resource)
    }

    /// The limits.
    pub fn limits(&self) -> (r: &ResourceLimits)
        requires
            self.well_formed(),
        ensures
            r.well_formed(),
            *r == self@.limits,
    {
        &self.limits
    }

    /// The limits, to be changed.
    pub fn limits_mut(&mut self) -> (r: &mut ResourceLimits)
        requires
            old(self).well_formed(),
        ensures
            r.well_formed(),
            *r == old(self)@.limits,
            final(self)@ == (ProcessModel { limits: *final(r), ..old(self)@ }),
            final(r).well_formed() ==> final(self).well_formed(),
    {
        &mut self.limits
    }

    /// Whether the thread is exiting and should not run guest code any more.
    pub fn is_exiting(&self, tid: i32) -> (r: bool)
        requires
            self.well_formed(),
            self@.threads.contains_key(tid),
        ensures
            r == self@.threads[tid],
    {
        match self.threads.get(&tid) {
            Some(exiting) => *exiting,
            None => true,
        }
    }

    /// Lets a thread join, unless the process is exiting or about to lose its other threads.
    pub fn attach_thread(&mut self, tid: i32) -> (r: bool)
        requires
            old(self).well_formed(),
            !old(self)@.threads.contains_key(tid),
            old(self)@.threads.len() < u32::MAX,
        ensures
            final(self).well_formed(),
            r == !(old(self)@.group_exit || old(self)@.killing),
            final(self)@ == (if r {
                old(self)@.attach(tid)
            } else {
                old(self)@
            }),
    {
        if self.group_exit || self.is_killing_other_threads {
            return false;
        }
        self.threads.insert(tid, false);
        self.nr_threads = self.nr_threads + 1;
        true
    }

    /// Lets a thread leave. The result tells whether someone may be waiting for this: for the end of
    /// the process, or for the last of the other threads to leave.
    pub fn detach_thread(&mut self, tid: i32) -> (r: bool)
        requires
            old(self).well_formed(),
            old(self)@.threads.contains_key(tid),
        ensures
            final(self).well_formed(),
            final(self)@ == old(self)@.detach(tid),
            r == ({
                let left = final(self)@.threads.len();
                left == 0 || (left == 1 && old(self)@.killing)
            }),
    {
        assert(self.threads@.len() > 0) by {
            if self.threads@.dom().len() == 0 {
                assert(self.threads@.dom() =~= Set::<i32>::empty());
            }
        }
        self.threads.remove(&tid);
        self.nr_threads = self.nr_threads - 1;
        if self.nr_threads == 0 {
            self.group_exit = true;
            assert(self.threads@.dom() =~= Set::<i32>::empty());
        }
        assert(self@ == old(self)@.detach(tid));
        self.nr_threads == 0 || (self.nr_threads == 1 && self.is_killing_other_threads)
    }

    /// Ends a thread with a code, unless it is exiting already.
    pub fn exit_thread(&mut self, tid: i32, code: i8)
        requires
            old(self).well_formed(),
            old(self)@.threads.contains_key(tid),
        ensures
            final(self).well_formed(),
            final(self)@ == old(self)@.exit_thread(tid, code),
    {
        if self.is_exiting(tid) {
            return;
        }
        self.exit_status = ExitStatus::Exit(code);
        self.threads.insert(tid, true);
        assert(self.threads@.dom() =~= old(self).threads@.dom());
    }

    /// The numbers of the threads.
    fn tids(&self) -> (r: Vec<i32>)
        ensures
            forall|tid: i32| #[trigger] r@.contains(tid) == self.threads@.contains_key(tid),
            r@.no_duplicates(),
    {
        let mut tids: Vec<i32> = Vec::new();
        let keys = self.threads.keys();
        let ghost seq = keys.remaining().unref();
        for tid in it: keys
            invariant
                seq == it.seq().unref(),
                tids@ == seq.take(it.index() as int),
                seq.to_set() == self.threads@.dom(),
                it.seq().no_duplicates(),
        {
            tids.push(*tid);
        }
        proof {
            assert(tids@ =~= seq);
            assert forall|tid: i32| #[trigger] tids@.contains(tid) == self.threads@.contains_key(
                tid,
            ) by {
                assert(seq.contains(tid) == seq.to_set().contains(tid));
            }
        }
        tids
    }

    /// Marks the threads, but not `except`, as exiting.
    fn mark_exiting(&mut self, tids: &Vec<i32>, except: Option<i32>) -> (r: Vec<i32>)
        requires
            forall|tid: i32| #[trigger] tids@.contains(tid) == old(self).threads@.contains_key(tid),
            tids@.no_duplicates(),
        ensures
            final(self).threads@.dom() == old(self).threads@.dom(),
            forall|tid: i32| #[trigger]
                old(self).threads@.contains_key(tid) ==> final(self).threads@[tid] == (if except
                    == Some(tid) {
                    old(self).threads@[tid]
                } else {
                    true
                }),
            final(self).nr_threads == old(self).nr_threads,
            final(self).group_exit == old(self).group_exit,
            final(self).is_killing_other_threads == old(self).is_killing_other_threads,
            final(self).exit_status == old(self).exit_status,
            final(self).limits == old(self).limits,
            forall|tid: i32| #[trigger]
                r@.contains(tid) == (old(self).threads@.contains_key(tid) && except != Some(tid)),
            r@.no_duplicates(),
    {
        let mut marked: Vec<i32> = Vec::new();
        let mut i: usize = 0;
        while i < tids.len()
            invariant
                i <= tids@.len(),
                tids@.no_duplicates(),
                forall|tid: i32| #[trigger]
                    tids@.contains(tid) == old(self).threads@.contains_key(tid),
                self.threads@.dom() == old(self).threads@.dom(),
                forall|tid: i32| #[trigger]
                    old(self).threads@.contains_key(tid) ==> self.threads@[tid] == (if except
                        != Some(tid) && tids@.take(i as int).contains(tid) {
                        true
                    } else {
                        old(self).threads@[tid]
                    }),
                self.nr_threads == old(self).nr_threads,
                self.group_exit == old(self).group_exit,
                self.is_killing_other_threads == old(self).is_killing_other_threads,
                self.exit_status == old(self).exit_status,
                self.limits == old(self).limits,
                forall|tid: i32| #[trigger]
                    marked@.contains(tid) == (tids@.take(i as int).contains(tid) && except != Some(
                        tid,
                    )),
                marked@.no_duplicates(),
            decreases tids@.len() - i,
        {
            let tid: i32 = tids[i];
            let ghost done = tids@.take(i as int);
            let ghost next = tids@.take(i + 1);
            let ghost before = marked@;
            proof {
                assert(next =~= done.push(tid));
                assert(tids@.contains(tid));
                assert forall|t: i32| #[trigger] next.contains(t) == (done.contains(t) || t
                    == tid) by {
                    if done.contains(t) {
                        let k = choose|k: int| 0 <= k < done.len() && done[k] == t;
                        assert(next[k] == t);
                    }
                    assert(next[i as int] == tid);
                }
                assert(!done.contains(tid)) by {
                    if done.contains(tid) {
                        let k = choose|k: int| 0 <= k < done.len() && done[k] == tid;
                        assert(tids@[k] == tids@[i as int]);
                    }
                }
            }
            let skip = match except {
                Some(e) => e == tid,
                None => false,
            };
            if !skip {
                self.threads.insert(tid, true);
                marked.push(tid);
                proof {
                    assert(!before.contains(tid));
                    assert forall|x: int, y: int|
                        0 <= x < y < marked@.len() implies marked@[x] != marked@[y] by {
                        assert(before.contains(marked@[x]));
                    }
                    assert(self.threads@.dom() =~= old(self).threads@.dom());
                    assert forall|t: i32| #[trigger] marked@.contains(t) == (before.contains(t) || t
                        == tid) by {
                        if before.contains(t) {
                            let k = choose|k: int| 0 <= k < before.len() && before[k] == t;
                            assert(marked@[k] == t);
                        }
                        assert(marked@[before.len() as int] == tid);
                    }
                }
            }
            i = i + 1;
        }
        assert(tids@.take(i as int) =~= tids@);
        marked
    }

    /// Ends all threads with a status, unless the calling thread is exiting already. The result names
    /// the threads to interrupt.
    pub fn exit_group(&mut self, tid: i32, status: ExitStatus) -> (r: Vec<i32>)
        requires
            old(self).well_formed(),
            old(self)@.threads.contains_key(tid),
        ensures
            final(self).well_formed(),
            final(self)@ == old(self)@.exit_group(tid, status),
            forall|t: i32| #[trigger]
                r@.contains(t) == (old(self)@.running(tid) && old(self)@.threads.contains_key(t)),
            r@.no_duplicates(),
    {
        if self.is_exiting(tid) {
            return Vec::new();
        }
        self.exit_status = status;
        self.group_exit = true;
        let tids = self.tids();
        let r = self.mark_exiting(&tids, None);
        assert(self.threads@ =~= old(self).threads@.map_values(|exiting: bool| true));
        r
    }

    /// Ends all other threads, unless the calling thread is exiting already. The result names the
    /// threads to interrupt; the caller goes on when [`Process::other_threads_gone`] says so.
    pub fn kill_other_threads(&mut self, tid: i32) -> (r: Option<Vec<i32>>)
        requires
            old(self).well_formed(),
            old(self)@.threads.contains_key(tid),
            old(self)@.running(tid) ==> !old(self)@.killing,
        ensures
            final(self).well_formed(),
            final(self)@ == old(self)@.kill_others(tid),
            match r {
                Some(others) => old(self)@.running(tid) && others@.no_duplicates() && forall|t: i32|
                    #[trigger] others@.contains(t) == (old(self)@.threads.contains_key(t) && t
                        != tid),
                None => !old(self)@.running(tid),
            },
    {
        if self.is_exiting(tid) {
            return None;
        }
        let tids = self.tids();
        let r = self.mark_exiting(&tids, Some(tid));
        self.is_killing_other_threads = true;
        assert(self.threads@ =~= old(self).threads@.map_values(|exiting: bool| true).insert(
            tid,
            false,
        ));
        Some(r)
    }

    /// Whether only the thread that called [`Process::kill_other_threads`] is left. If so, threads
    /// can join again.
    pub fn other_threads_gone(&mut self) -> (r: bool)
        requires
            old(self).well_formed(),
        ensures
            final(self).well_formed(),
            r == (old(self)@.threads.len() == 1),
            final(self)@ == (if r {
                ProcessModel { killing: false, ..old(self)@ }
            } else {
                old(self)@
            }),
    {
        if self.nr_threads == 1 {
            self.is_killing_other_threads = false;
            true
        } else {
            false
        }
    }
}

/// Once a process exits as a whole, its exit status stays, and no thread can join.
pub proof fn law_group_exit_is_final(p: ProcessModel, tid: i32, code: i8, status: ExitStatus)
    requires
        p.consistent(),
        p.group_exit,
        p.threads.contains_key(tid),
    ensures
        p.exit_thread(tid, code) == p,
        p.exit_group(tid, status) == p,
        p.kill_others(tid) == p,
        p.detach(tid).group_exit,
        p.detach(tid).exit_status == p.exit_status,
{
}

/// After a group exit every thread is exiting, and the process ends when the last one has left.
pub proof fn law_group_exit_stops_all(p: ProcessModel, tid: i32, status: ExitStatus, other: i32)
    requires
        p.consistent(),
        p.running(tid),
        p.threads.contains_key(other),
    ensures
        p.exit_group(tid, status).group_exit,
        p.exit_group(tid, status).exit_status == status,
        p.exit_group(tid, status).threads.dom() == p.threads.dom(),
        !p.exit_group(tid, status).running(other),
{
    assert(p.exit_group(tid, status).threads.dom() =~= p.threads.dom());
}

/// Killing the other threads leaves exactly the caller running, and keeps new threads out.
pub proof fn law_kill_others_spares_caller(p: ProcessModel, tid: i32, other: i32)
    requires
        p.running(tid),
    ensures
        p.kill_others(tid).running(other) == (other == tid),
        p.kill_others(tid).killing,
        p.kill_others(tid).exit_status == p.exit_status,
{
}

/// A thread that joins and leaves again leaves the process as it was.
pub proof fn law_detach_undoes_attach(p: ProcessModel, tid: i32)
    requires
        p.consistent(),
        !p.group_exit,
        !p.threads.contains_key(tid),
    ensures
        p.attach(tid).consistent(),
        p.attach(tid).threads.len() == p.threads.len() + 1,
        p.attach(tid).detach(tid) == p,
{
    assert(p.attach(tid).threads.dom() =~= p.threads.dom().insert(tid));
    assert(p.attach(tid).threads.remove(tid) =~= p.threads);
}

} // verus!
