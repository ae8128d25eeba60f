//! Running another program in place of the one that runs.
//!
//! A call is a machine: it names the next action, whoever runs it performs the action and hands back
//! the outcome. Nothing of the old program is touched before the new one was found and opened; from
//! then on the call cannot fail any more.
use vstd::prelude::*;
use vstd::utf8::{decode_utf8, valid_utf8};

use crate::bytes::string_from_utf8;
use crate::errno::Errno;
use crate::shim::process::{Process, ProcessModel};
use crate::shim::robust::reset_for_exec;
use crate::shim::shebang::{
    args_view, law_search_ends, resolve_shebang, search, Headers, Shebang, ShebangModel, SHEBANG_MAX_RECURSION,
};
use crate::shim::signal::{
    handler_of, no_altstack, reset_handler, SignalHandlers, SignalState,
};
use crate::shim::sigset::is_signal;
use crate::shim::task::{
    comm_of, copy_vector, set_task_comm, GuestStrings, VectorCopy, VectorModel, MAX_VEC,
};
use crate::shim::thread::{program_start, PtRegs, ThreadInitState, ThreadState};

verus! {

/// How far a call has come.
pub enum ExecModel {
    /// The path is to be read.
    Path { argv: u64, envp: u64 },
    /// The arguments are copied.
    Argv { path: Seq<char>, copy: VectorModel, envp: u64 },
    /// The environment is copied.
    Envp { path: Seq<char>, argv: Seq<Seq<u8>>, copy: VectorModel },
    /// The interpreter is searched for.
    Search { state: ShebangModel, envp: Seq<Seq<u8>> },
    /// The program is to be opened.
    Open { path: Seq<char>, argv: Seq<Seq<u8>>, envp: Seq<Seq<u8>> },
    /// The other threads are to end.
    Threads { argv: Seq<Seq<u8>>, envp: Seq<Seq<u8>> },
    /// Descriptors that do not outlive the old program are to be closed.
    Close { argv: Seq<Seq<u8>>, envp: Seq<Seq<u8>> },
    /// The list of robust futexes is to be walked, where there is one, and memory to be released.
    Release { robust_list: Option<u64>, argv: Seq<Seq<u8>>, envp: Seq<Seq<u8>> },
    /// The program is to be loaded.
    Load { argv: Seq<Seq<u8>>, envp: Seq<Seq<u8>> },
    /// The program was loaded.
    Loaded,
    /// The call failed.
    Failed(Errno),
}

impl ExecModel {
    /// Goes on where a copy or a search has ended: from the arguments to the environment, from there
    /// to the search for the interpreter, and from there to the program.
    pub open spec fn settle(self) -> ExecModel {
        match self {
            ExecModel::Argv { path, copy, envp } => match copy {
                VectorModel::Done(argv) => ExecModel::Envp {
                    path,
                    argv,
                    copy: VectorModel::start(envp),
                }.settle_envp(),
                VectorModel::Failed(e) => ExecModel::Failed(e),
                _ => self,
            },
            _ => self.settle_envp(),
        }
    }

    /// Goes on where the copy of the environment or the search has ended.
    pub open spec fn settle_envp(self) -> ExecModel {
        match self {
            ExecModel::Envp { path, argv, copy } => match copy {
                VectorModel::Done(envp) => ExecModel::Search {
                    state: ShebangModel::Inspect { path, argv, rounds: 0 },
                    envp,
                },
                VectorModel::Failed(e) => ExecModel::Failed(e),
                _ => self,
            },
            ExecModel::Search { state, envp } => match state {
                ShebangModel::Found { path, argv } => ExecModel::Open { path, argv, envp },
                ShebangModel::Failed(e) => ExecModel::Failed(e),
                _ => self,
            },
            _ => self,
        }
    }

    /// After the path was read, or could not be.
    pub open spec fn path_read(self, path: Option<Seq<u8>>) -> ExecModel {
        match self {
            ExecModel::Path { argv, envp } => match path {
                None => ExecModel::Failed(Errno::EFAULT),
                Some(bytes) => if valid_utf8(bytes) {
                    ExecModel::Argv {
                        path: decode_utf8(bytes),
                        copy: VectorModel::start(argv),
                        envp,
                    }.settle()
                } else {
                    ExecModel::Failed(Errno::ENOENT)
                },
            },
            _ => self,
        }
    }

    /// After a pointer to an argument, or to a string of the environment, was read.
    pub open spec fn pointer_read(self, pointer: Option<u64>) -> ExecModel {
        match self {
            ExecModel::Argv { path, copy, envp } => ExecModel::Argv {
                path,
                copy: copy.pointer_read(pointer),
                envp,
            }.settle(),
            ExecModel::Envp { path, argv, copy } => ExecModel::Envp {
                path,
                argv,
                copy: copy.pointer_read(pointer),
            }.settle(),
            _ => self,
        }
    }

    /// After such a string was read.
    pub open spec fn text_read(self, text: Option<Seq<u8>>) -> ExecModel {
        match self {
            ExecModel::Argv { path, copy, envp } => ExecModel::Argv {
                path,
                copy: copy.text_read(text),
                envp,
            }.settle(),
            ExecModel::Envp { path, argv, copy } => ExecModel::Envp {
                path,
                argv,
                copy: copy.text_read(text),
            }.settle(),
            _ => self,
        }
    }

    /// After the start of a file was read in the search for the interpreter.
    pub open spec fn header_read(self, header: Result<Seq<u8>, Errno>) -> ExecModel {
        match self {
            ExecModel::Search { state, envp } => ExecModel::Search {
                state: state.advance(header),
                envp,
            }.settle(),
            _ => self,
        }
    }

    /// After the program was opened. A thread that is exiting cannot run it.
    pub open spec fn opened(self, outcome: Result<(), Errno>, running: bool) -> ExecModel {
        match self {
            ExecModel::Open { argv, envp, .. } => match outcome {
                Err(e) => ExecModel::Failed(e),
                Ok(()) => if running {
                    ExecModel::Threads { argv, envp }
                } else {
                    ExecModel::Failed(Errno::EBUSY)
                },
            },
            _ => self,
        }
    }

    /// After a thread has left; `alone` tells whether it was the last of the others.
    pub open spec fn thread_left(self, alone: bool) -> ExecModel {
        match self {
            ExecModel::Threads { argv, envp } => if alone {
                ExecModel::Close { argv, envp }
            } else {
                self
            },
            _ => self,
        }
    }

    /// After the descriptors were closed.
    pub open spec fn closed(self, robust_list: Option<u64>) -> ExecModel {
        match self {
            ExecModel::Close { argv, envp } => ExecModel::Release { robust_list, argv, envp },
            _ => self,
        }
    }

    /// After the memory of the old program was released.
    pub open spec fn released(self) -> ExecModel {
        match self {
            ExecModel::Release { argv, envp, .. } => ExecModel::Load { argv, envp },
            _ => self,
        }
    }

    /// After the program was loaded.
    pub open spec fn loaded(self) -> ExecModel {
        match self {
            ExecModel::Load { .. } => ExecModel::Loaded,
            _ => self,
        }
    }

    /// The old program is being given up.
    pub open spec fn torn_down(self) -> bool {
        self is Threads || self is Close || self is Release || self is Load || self is Loaded
    }
}

/// A call on its way.
pub enum Execve {
    Path { argv: u64, envp: u64 },
    Argv { path: String, copy: VectorCopy, envp: u64 },
    Envp { path: String, argv: Vec<Vec<u8>>, copy: VectorCopy },
    Search { state: Shebang, envp: Vec<Vec<u8>> },
    Open { path: String, argv: Vec<Vec<u8>>, envp: Vec<Vec<u8>> },
    Threads { argv: Vec<Vec<u8>>, envp: Vec<Vec<u8>> },
    Close { argv: Vec<Vec<u8>>, envp: Vec<Vec<u8>> },
    Release { robust_list: Option<u64>, argv: Vec<Vec<u8>>, envp: Vec<Vec<u8>> },
    Load { argv: Vec<Vec<u8>>, envp: Vec<Vec<u8>> },
    Loaded,
    Failed(Errno),
}

/// What is to be done next.
#[derive(Clone, Copy, PartialEq, Eq, Debug)]
pub enum ExecAction {
    /// Read the path.
    ReadPath,
    /// Read a pointer of the caller.
    ReadPointer { at: u64 },
    /// Read a string of the caller.
    ReadText { at: u64 },
    /// Read the start of the file that [`Execve::path`] names.
    ReadHeader,
    /// Open the program that [`Execve::path`] names.
    OpenProgram,
    /// Wait until a thread has left.
    WaitForThread,
    /// Close the descriptors that are marked for it.
    CloseDescriptors,
    /// Walk the list of robust futexes, where there is one; then release all memory but what is
    /// reserved, and clear the base of the thread-local storage.
    ReleaseMemory { robust_list: Option<u64> },
    /// Load the program, with [`Execve::arguments`] and [`Execve::environment`].
    LoadProgram,
    /// Nothing: this is the result.
    Done { result: Result<u64, Errno> },
}

/// The action for each state.
pub open spec fn exec_action(m: ExecModel) -> Option<ExecAction> {
    match m {
        ExecModel::Path { .. } => Some(ExecAction::ReadPath),
        ExecModel::Argv { copy: VectorModel::Pointer { base, .. }, .. } => Some(
            ExecAction::ReadPointer { at: base },
        ),
        ExecModel::Argv { copy: VectorModel::Text { at, .. }, .. } => Some(
            ExecAction::ReadText { at },
        ),
        ExecModel::Envp { copy: VectorModel::Pointer { base, .. }, .. } => Some(
            ExecAction::ReadPointer { at: base },
        ),
        ExecModel::Envp { copy: VectorModel::Text { at, .. }, .. } => Some(
            ExecAction::ReadText { at },
        ),
        ExecModel::Search { state: ShebangModel::Inspect { .. }, .. } => Some(ExecAction::ReadHeader),
        ExecModel::Open { .. } => Some(ExecAction::OpenProgram),
        ExecModel::Threads { .. } => Some(ExecAction::WaitForThread),
        ExecModel::Close { .. } => Some(ExecAction::CloseDescriptors),
        ExecModel::Release { robust_list, .. } => Some(ExecAction::ReleaseMemory { robust_list }),
        ExecModel::Load { .. } => Some(ExecAction::LoadProgram),
        ExecModel::Loaded => Some(ExecAction::Done { result: Ok(0) }),
        ExecModel::Failed(e) => Some(ExecAction::Done { result: Err(e) }),
        _ => None,
    }
}

impl Execve {
    /// How far the call has come.
    pub open spec fn model(&self) -> ExecModel {
        match *self {
            Execve::Path { argv, envp } => ExecModel::Path { argv, envp },
            Execve::Argv { path, copy, envp } => ExecModel::Argv {
                path: path@,
                copy: copy.model(),
                envp,
            },
            Execve::Envp { path, argv, copy } => ExecModel::Envp {
                path: path@,
                argv: args_view(argv@),
                copy: copy.model(),
            },
            Execve::Search { state, envp } => ExecModel::Search {
                state: state.model(),
                envp: args_view(envp@),
            },
            Execve::Open { path, argv, envp } => ExecModel::Open {
                path: path@,
                argv: args_view(argv@),
                envp: args_view(envp@),
            },
            Execve::Threads { argv, envp } => ExecModel::Threads {
                argv: args_view(argv@),
                envp: args_view(envp@),
            },
            Execve::Close { argv, envp } => ExecModel::Close {
                argv: args_view(argv@),
                envp: args_view(envp@),
            },
            Execve::Release { robust_list, argv, envp } => ExecModel::Release {
                robust_list,
                argv: args_view(argv@),
                envp: args_view(envp@),
            },
            Execve::Load { argv, envp } => ExecModel::Load {
                argv: args_view(argv@),
                envp: args_view(envp@),
            },
            Execve::Loaded => ExecModel::Loaded,
            Execve::Failed(e) => ExecModel::Failed(e),
        }
    }

    /// Copies and searches are in order, and none is kept that has ended.
    pub open spec fn well_formed(&self) -> bool {
        match *self {
            Execve::Argv { copy, .. } => copy.well_formed() && (copy is Pointer || copy is Text),
            Execve::Envp { copy, .. } => copy.well_formed() && (copy is Pointer || copy is Text),
            Execve::Search { state, .. } => state.well_formed() && state is Inspect,
            _ => true,
        }
    }

    /// What is to be done next.
    pub fn action(&self) -> (r: ExecAction)
        requires
            self.well_formed(),
        ensures
            exec_action(self.model()) == Some(r),
    {
        match self {
            Execve::Path { .. } => ExecAction::ReadPath,
            Execve::Argv { copy, .. } => match copy {
                VectorCopy::Pointer { base, .. } => ExecAction::ReadPointer { at: *base },
                VectorCopy::Text { at, .. } => ExecAction::ReadText { at: *at },
                _ => ExecAction::ReadPath,
            },
            Execve::Envp { copy, .. } => match copy {
                VectorCopy::Pointer { base, .. } => ExecAction::ReadPointer { at: *base },
                VectorCopy::Text { at, .. } => ExecAction::ReadText { at: *at },
                _ => ExecAction::ReadPath,
            },
            Execve::Search { .. } => ExecAction::ReadHeader,
            Execve::Open { .. } => ExecAction::OpenProgram,
            Execve::Threads { .. } => ExecAction::WaitForThread,
            Execve::Close { .. } => ExecAction::CloseDescriptors,
            Execve::Release { robust_list, .. } => ExecAction::ReleaseMemory {
                robust_list: *robust_list,
            },
            Execve::Load { .. } => ExecAction::LoadProgram,
            Execve::Loaded => ExecAction::Done { result: Ok(0) },
            Execve::Failed(e) => ExecAction::Done { result: Err(*e) },
        }
    }

    /// The file to look at or to open.
    pub fn path(&self) -> (r: Option<&str>)
        requires
            self.well_formed(),
        ensures
            match self.model() {
                ExecModel::Search { state: ShebangModel::Inspect { path, .. }, .. } => r matches Some(
                    p,
                ) && p@ == path,
                ExecModel::Open { path, .. } => r matches Some(p) && p@ == path,
                _ => r is None,
            },
    {
        match self {
            Execve::Search { state, .. } => state.path(),
            Execve::Open { path, .. } => Some(path.as_str()),
            _ => None,
        }
    }

    /// The arguments of the program that is to be loaded.
    pub fn arguments(&self) -> (r: Option<&Vec<Vec<u8>>>)
        ensures
            match self.model() {
                ExecModel::Load { argv, .. } => r matches Some(a) && args_view(a@) == argv,
                _ => r is None,
            },
    {
        match self {
            Execve::Load { argv, .. } => Some(argv),
            _ => None,
        }
    }

    /// The environment of the program that is to be loaded.
    pub fn environment(&self) -> (r: Option<&Vec<Vec<u8>>>)
        ensures
            match self.model() {
                ExecModel::Load { envp, .. } => r matches Some(e) && args_view(e@) == envp,
                _ => r is None,
            },
    {
        match self {
            Execve::Load { envp, .. } => Some(envp),
            _ => None,
        }
    }

    /// Goes on after the copy of the environment.
    fn settled_envp(path: String, argv: Vec<Vec<u8>>, copy: VectorCopy) -> (r: Execve)
        requires
            copy.well_formed(),
        ensures
            r.well_formed(),
            r.model() == (ExecModel::Envp {
                path: path@,
                argv: args_view(argv@),
                copy: copy.model(),
            }).settle(),
    {
        match copy {
            VectorCopy::Done(envp) => Execve::Search { state: resolve_shebang(path, argv), envp },
            VectorCopy::Failed(e) => Execve::Failed(e),
            copy => Execve::Envp { path, argv, copy },
        }
    }

    /// Goes on after the copy of the arguments.
    fn settled_argv(path: String, copy: VectorCopy, envp: u64) -> (r: Execve)
        requires
            copy.well_formed(),
        ensures
            r.well_formed(),
            r.model() == (ExecModel::Argv { path: path@, copy: copy.model(), envp }).settle(),
    {
        match copy {
            VectorCopy::Done(argv) => Execve::settled_envp(path, argv, VectorCopy::new(envp)),
            VectorCopy::Failed(e) => Execve::Failed(e),
            copy => Execve::Argv { path, copy, envp },
        }
    }

    /// Takes the path, or nothing where it could not be read.
    pub fn path_read(self, path: Option<Vec<u8>>) -> (r: Execve)
        requires
            self.well_formed(),
        ensures
            r.well_formed(),
            r.model() == self.model().path_read(
                match path {
                    Some(p) => Some(p@),
                    None => None,
                },
            ),
    {
        match self {
            Execve::Path { argv, envp } => match path {
                None => Execve::Failed(Errno::EFAULT),
                Some(bytes) => match string_from_utf8(bytes) {
                    Some(path) => Execve::settled_argv(path, VectorCopy::new(argv), envp),
                    None => Execve::Failed(Errno::ENOENT),
                },
            },
            other => other,
        }
    }

    /// Takes a pointer, or nothing where it could not be read.
    pub fn pointer_read(self, pointer: Option<u64>) -> (r: Execve)
        requires
            self.well_formed(),
        ensures
            r.well_formed(),
            r.model() == self.model().pointer_read(pointer),
    {
        match self {
            Execve::Argv { path, copy, envp } => Execve::settled_argv(
                path,
                copy.pointer_read(pointer),
                envp,
            ),
            Execve::Envp { path, argv, copy } => Execve::settled_envp(
                path,
                argv,
                copy.pointer_read(pointer),
            ),
            other => other,
        }
    }

    /// Takes a string, or nothing where it could not be read.
    pub fn text_read(self, text: Option<Vec<u8>>) -> (r: Execve)
        requires
            self.well_formed(),
        ensures
            r.well_formed(),
            r.model() == self.model().text_read(
                match text {
                    Some(t) => Some(t@),
                    None => None,
                },
            ),
    {
        match self {
            Execve::Argv { path, copy, envp } => Execve::settled_argv(
                path,
                copy.text_read(text),
                envp,
            ),
            Execve::Envp { path, argv, copy } => Execve::settled_envp(
                path,
                argv,
                copy.text_read(text),
            ),
            other => other,
        }
    }

    /// Takes the start of the file that was looked at, or the error that came instead of it.
    pub fn header_read(self, header: Result<&[u8], Errno>) -> (r: Execve)
        requires
            self.well_formed(),
        ensures
            r.well_formed(),
            r.model() == self.model().header_read(
                match header {
                    Ok(bytes) => Ok(bytes@),
                    Err(e) => Err(e),
                },
            ),
    {
        match self {
            Execve::Search { state, envp } => match state.advance(header) {
                Shebang::Found { path, argv } => Execve::Open { path, argv, envp },
                Shebang::Failed(e) => Execve::Failed(e),
                state => Execve::Search { state, envp },
            },
            other => other,
        }
    }

    /// Goes on after the program was opened: all other threads of the process end. The second result
    /// names the threads to interrupt.
    pub fn opened(self, outcome: Result<(), Errno>, process: &mut Process, tid: i32) -> (r: (
        Execve,
        Vec<i32>,
    ))
        requires
            self.well_formed(),
            old(process).well_formed(),
            old(process)@.threads.contains_key(tid),
            old(process)@.running(tid) ==> !old(process)@.killing,
        ensures
            r.0.well_formed(),
            r.0.model() == self.model().opened(outcome, old(process)@.running(tid)),
            final(process).well_formed(),
            final(process)@ == (if self is Open && outcome is Ok {
                old(process)@.kill_others(tid)
            } else {
                old(process)@
            }),
            forall|t: i32| #[trigger]
                r.1@.contains(t) == (self is Open && outcome is Ok && old(process)@.running(tid)
                    && old(process)@.threads.contains_key(t) && t != tid),
    {
        match self {
            Execve::Open { path: _, argv, envp } => match outcome {
                Err(e) => (Execve::Failed(e), Vec::new()),
                Ok(()) => match process.kill_other_threads(tid) {
                    Some(others) => (Execve::Threads { argv, envp }, others),
                    None => (Execve::Failed(Errno::EBUSY), Vec::new()),
                },
            },
            other => (other, Vec::new()),
        }
    }

    /// Goes on after a thread has left, or at once, if no other thread was there.
    pub fn thread_left(self, process: &mut Process) -> (r: Execve)
        requires
            self.well_formed(),
            self is Threads,
            old(process).well_formed(),
        ensures
            r.well_formed(),
            r.model() == self.model().thread_left(old(process)@.threads.len() == 1),
            final(process).well_formed(),
            final(process)@ == (if old(process)@.threads.len() == 1 {
                ProcessModel { killing: false, ..old(process)@ }
            } else {
                old(process)@
            }),
    {
        match self {
            Execve::Threads { argv, envp } => if process.other_threads_gone() {
                Execve::Close { argv, envp }
            } else {
                Execve::Threads { argv, envp }
            },
            other => other,
        }
    }

    /// Goes on after the descriptors were closed: what the thread set up for the old program is given
    /// up.
    pub fn closed(
        self,
        thread: &mut ThreadState,
        signals: &mut SignalState,
        handlers: &mut SignalHandlers,
    ) -> (r: Execve)
        requires
            self.well_formed(),
            self is Close,
            old(signals).well_formed(),
            old(handlers).well_formed(),
        ensures
            r.well_formed(),
            r.model() == self.model().closed(old(thread).robust_list),
            *final(thread) == (ThreadState {
                robust_list: None,
                clear_child_tid: None,
                ..*old(thread)
            }),
            final(signals).well_formed(),
            *final(signals) == (SignalState { altstack: no_altstack(), ..*old(signals) }),
            final(handlers).well_formed(),
            forall|n: int|
                is_signal(n) ==> #[trigger] handler_of(final(handlers)@, n) == reset_handler(
                    handler_of(old(handlers)@, n),
                ),
    {
        let robust_list = reset_for_exec(thread, signals, handlers);
        match self {
            Execve::Close { argv, envp } => Execve::Release { robust_list, argv, envp },
            other => other,
        }
    }

    /// Goes on after the memory of the old program was released.
    pub fn released(self) -> (r: Execve)
        requires
            self.well_formed(),
        ensures
            r.well_formed(),
            r.model() == self.model().released(),
    {
        match self {
            Execve::Release { robust_list: _, argv, envp } => Execve::Load { argv, envp },
            other => other,
        }
    }

    /// Ends the call after the program was loaded: the task gets its name, and the thread starts at its
    /// entry point.
    pub fn loaded(
        self,
        name: &[u8],
        entry_point: u64,
        user_stack_top: u64,
        comm: &mut [u8; 16],
        thread: &mut ThreadState,
        ctx: &mut PtRegs,
    ) -> (r: Execve)
        requires
            self.well_formed(),
            self is Load,
        ensures
            r.well_formed(),
            r.model() == self.model().loaded(),
            final(comm)@ == comm_of(name@),
            *final(thread) == (ThreadState { init_state: ThreadInitState::Started, ..*old(thread) }),
            *final(ctx) == program_start(entry_point, user_stack_top),
    {
        load_program(name, entry_point, user_stack_top, comm, thread);
        let _ = thread.init_thread_context(ctx);
        match self {
            Execve::Load { .. } => Execve::Loaded,
            other => other,
        }
    }
}

/// Starts a call with the addresses of the arguments and of the environment.
pub fn sys_execve(argv: u64, envp: u64) -> (r: Execve)
    ensures
        r.well_formed(),
        r.model() == (ExecModel::Path { argv, envp }),
{
    Execve::Path { argv, envp }
}

/// Prepares a thread to start a program that was loaded: the task gets its name, and the thread is to
/// start at its entry point.
pub fn load_program(
    name: &[u8],
    entry_point: u64,
    user_stack_top: u64,
    comm: &mut [u8; 16],
    thread: &mut ThreadState,
)
    ensures
        final(comm)@ == comm_of(name@),
        *final(thread) == (ThreadState {
            init_state: ThreadInitState::NewProcess { entry_point, user_stack_top },
            ..*old(thread)
        }),
{
    *comm = set_task_comm(name);
    thread.init_state = ThreadInitState::NewProcess { entry_point, user_stack_top };
}

/// Whether a mapping is released with the old program: all but those that are only reserved, which have
/// no flags.
pub fn is_released(vm_flags: u32) -> (r: bool)
    ensures
        r == (vm_flags != 0),
{
    vm_flags != 0
}

/// Once the old program is being given up, the call goes on to its end: it cannot fail any more. Before
/// that, no outcome but that of opening the program begins to give it up.
pub proof fn law_no_failure_behind_the_point_of_no_return(
    m: ExecModel,
    bytes: Option<Seq<u8>>,
    pointer: Option<u64>,
    header: Result<Seq<u8>, Errno>,
    outcome: Result<(), Errno>,
    flag: bool,
)
    ensures
        m.path_read(bytes).torn_down() == m.torn_down(),
        m.pointer_read(pointer).torn_down() == m.torn_down(),
        m.text_read(bytes).torn_down() == m.torn_down(),
        m.header_read(header).torn_down() == m.torn_down(),
        m.torn_down() ==> m.opened(outcome, flag) == m,
        m.opened(outcome, flag).torn_down() ==> m.torn_down() || (m is Open && outcome is Ok && flag),
        m.thread_left(flag).torn_down() == m.torn_down(),
        m.closed(pointer).torn_down() == m.torn_down(),
        m.released().torn_down() == m.torn_down(),
        m.loaded().torn_down() == m.torn_down(),
        m.torn_down() ==> m !is Failed,
{
}

/// Performs up to `fuel` steps of a call until the program is to be opened.
pub open spec fn run_exec(
    m: ExecModel,
    memory: GuestStrings,
    headers: Headers,
    fuel: nat,
) -> ExecModel
    decreases fuel,
{
    if fuel == 0 {
        m
    } else {
        let rest = (fuel - 1) as nat;
        match exec_action(m) {
            Some(ExecAction::ReadPointer { at }) => run_exec(
                m.pointer_read((memory.pointers)(at)),
                memory,
                headers,
                rest,
            ),
            Some(ExecAction::ReadText { at }) => run_exec(
                m.text_read((memory.texts)(at)),
                memory,
                headers,
                rest,
            ),
            Some(ExecAction::ReadHeader) => run_exec(
                m.header_read(headers(searched_path(m))),
                memory,
                headers,
                rest,
            ),
            _ => m,
        }
    }
}

/// The file that a search looks at.
pub open spec fn searched_path(m: ExecModel) -> Seq<char> {
    match m {
        ExecModel::Search { state: ShebangModel::Inspect { path, .. }, .. } => path,
        _ => Seq::empty(),
    }
}

/// The call has found its program, or has failed.
pub open spec fn resolved(m: ExecModel) -> bool {
    m is Open || m is Failed
}

proof fn lemma_more_fuel(m: ExecModel, memory: GuestStrings, headers: Headers, fuel: nat, more: nat)
    requires
        resolved(run_exec(m, memory, headers, fuel)),
    ensures
        run_exec(m, memory, headers, fuel + more) == run_exec(m, memory, headers, fuel),
    decreases fuel,
{
    if fuel > 0 {
        let rest = (fuel - 1) as nat;
        match exec_action(m) {
            Some(ExecAction::ReadPointer { at }) => lemma_more_fuel(
                m.pointer_read((memory.pointers)(at)),
                memory,
                headers,
                rest,
                more,
            ),
            Some(ExecAction::ReadText { at }) => lemma_more_fuel(
                m.text_read((memory.texts)(at)),
                memory,
                headers,
                rest,
                more,
            ),
            Some(ExecAction::ReadHeader) => lemma_more_fuel(
                m.header_read(headers(searched_path(m))),
                memory,
                headers,
                rest,
                more,
            ),
            _ => {},
        }
    }
}

proof fn lemma_search(
    state: ShebangModel,
    envp: Seq<Seq<u8>>,
    memory: GuestStrings,
    headers: Headers,
    n: nat,
)
    requires
        search(state, headers, n) !is Inspect,
    ensures
        run_exec((ExecModel::Search { state, envp }).settle(), memory, headers, n) == (
        ExecModel::Search { state: search(state, headers, n), envp }).settle(),
    decreases n,
{
    if let ShebangModel::Inspect { path, .. } = state {
        if n > 0 {
            lemma_search(state.advance(headers(path)), envp, memory, headers, (n - 1) as nat);
        }
    }
}

proof fn lemma_envp(
    path: Seq<char>,
    argv: Seq<Seq<u8>>,
    copy: VectorModel,
    memory: GuestStrings,
    headers: Headers,
    n: nat,
    fuel: nat,
)
    requires
        copy !is Text,
        ({
            let copied = copy_vector(copy, memory, n);
            &&& copied is Done || copied is Failed
            &&& resolved(
                run_exec(
                    (ExecModel::Envp { path, argv, copy: copied }).settle(),
                    memory,
                    headers,
                    fuel,
                ),
            )
        }),
    ensures
        run_exec((ExecModel::Envp { path, argv, copy }).settle(), memory, headers, fuel + 2 * n)
            == run_exec(
            (ExecModel::Envp { path, argv, copy: copy_vector(copy, memory, n) }).settle(),
            memory,
            headers,
            fuel,
        ),
    decreases n,
{
    let m = (ExecModel::Envp { path, argv, copy }).settle();
    match copy {
        VectorModel::Pointer { base, .. } => {
            let next = copy.pointer_read((memory.pointers)(base));
            let m1 = (ExecModel::Envp { path, argv, copy: next }).settle();
            assert(m.pointer_read((memory.pointers)(base)) == m1);
            match next {
                VectorModel::Text { at, .. } => {
                    let after = next.text_read((memory.texts)(at));
                    let m2 = (ExecModel::Envp { path, argv, copy: after }).settle();
                    assert(m1.text_read((memory.texts)(at)) == m2);
                    lemma_envp(path, argv, after, memory, headers, (n - 1) as nat, fuel);
                    assert(run_exec(m1, memory, headers, (fuel + 2 * n - 1) as nat) == run_exec(
                        m2,
                        memory,
                        headers,
                        (fuel + 2 * (n - 1)) as nat,
                    ));
                },
                _ => {
                    lemma_more_fuel(m1, memory, headers, fuel, (2 * n - 1) as nat);
                },
            }
        },
        _ => {
            lemma_more_fuel(m, memory, headers, fuel, (2 * n) as nat);
        },
    }
}

proof fn lemma_argv(
    path: Seq<char>,
    copy: VectorModel,
    envp: u64,
    memory: GuestStrings,
    headers: Headers,
    n: nat,
    fuel: nat,
)
    requires
        copy !is Text,
        ({
            let copied = copy_vector(copy, memory, n);
            &&& copied is Done || copied is Failed
            &&& resolved(
                run_exec(
                    (ExecModel::Argv { path, copy: copied, envp }).settle(),
                    memory,
                    headers,
                    fuel,
                ),
            )
        }),
    ensures
        run_exec((ExecModel::Argv { path, copy, envp }).settle(), memory, headers, fuel + 2 * n)
            == run_exec(
            (ExecModel::Argv { path, copy: copy_vector(copy, memory, n), envp }).settle(),
            memory,
            headers,
            fuel,
        ),
    decreases n,
{
    let m = (ExecModel::Argv { path, copy, envp }).settle();
    match copy {
        VectorModel::Pointer { base, .. } => {
            let next = copy.pointer_read((memory.pointers)(base));
            let m1 = (ExecModel::Argv { path, copy: next, envp }).settle();
            assert(m.pointer_read((memory.pointers)(base)) == m1);
            match next {
                VectorModel::Text { at, .. } => {
                    let after = next.text_read((memory.texts)(at));
                    let m2 = (ExecModel::Argv { path, copy: after, envp }).settle();
                    assert(m1.text_read((memory.texts)(at)) == m2);
                    lemma_argv(path, after, envp, memory, headers, (n - 1) as nat, fuel);
                    assert(run_exec(m1, memory, headers, (fuel + 2 * n - 1) as nat) == run_exec(
                        m2,
                        memory,
                        headers,
                        (fuel + 2 * (n - 1)) as nat,
                    ));
                },
                _ => {
                    lemma_more_fuel(m1, memory, headers, fuel, (2 * n - 1) as nat);
                },
            }
        },
        _ => {
            lemma_more_fuel(m, memory, headers, fuel, (2 * n) as nat);
        },
    }
}

/// The program and its strings, as the caller's memory and the files give them: the arguments are
/// copied first, then the environment, then the interpreter is searched for; the first failure counts.
pub open spec fn exec_target(
    path: Seq<char>,
    argv: u64,
    envp: u64,
    memory: GuestStrings,
    headers: Headers,
) -> ExecModel {
    match copy_vector(VectorModel::start(argv), memory, MAX_VEC as nat) {
        VectorModel::Done(args) => match copy_vector(
            VectorModel::start(envp),
            memory,
            MAX_VEC as nat,
        ) {
            VectorModel::Done(env) => match search(
                ShebangModel::Inspect { path, argv: args, rounds: 0 },
                headers,
                SHEBANG_MAX_RECURSION as nat,
            ) {
                ShebangModel::Found { path, argv } => ExecModel::Open { path, argv, envp: env },
                ShebangModel::Failed(e) => ExecModel::Failed(e),
                state => ExecModel::Search { state, envp: env },
            },
            VectorModel::Failed(e) => ExecModel::Failed(e),
            copy => ExecModel::Envp { path, argv: args, copy },
        },
        VectorModel::Failed(e) => ExecModel::Failed(e),
        copy => ExecModel::Argv { path, copy, envp },
    }
}

/// A call whose path was read finds the program that [`exec_target`] gives, or fails as that does, and
/// does so within a bounded number of steps.
pub proof fn law_exec_finds_its_program(
    path: Seq<char>,
    argv: u64,
    envp: u64,
    memory: GuestStrings,
    headers: Headers,
)
    ensures
        resolved(exec_target(path, argv, envp, memory, headers)),
        run_exec(
            (ExecModel::Argv { path, copy: VectorModel::start(argv), envp }).settle(),
            memory,
            headers,
            (SHEBANG_MAX_RECURSION + 4 * MAX_VEC) as nat,
        ) == exec_target(path, argv, envp, memory, headers),
{
    let n = MAX_VEC as nat;
    let rounds = SHEBANG_MAX_RECURSION as nat;
    let args_start = VectorModel::start(argv);
    let env_start = VectorModel::start(envp);
    lemma_copies_end(args_start, memory, n);
    lemma_copies_end(env_start, memory, n);
    let args_copied = copy_vector(args_start, memory, n);
    let env_copied = copy_vector(env_start, memory, n);
    if let VectorModel::Done(args) = args_copied {
        if let VectorModel::Done(env) = env_copied {
            let first = ShebangModel::Inspect { path, argv: args, rounds: 0 };
            law_search_ends(first, headers, rounds);
            lemma_search(first, env, memory, headers, rounds);
        }
        let m = (ExecModel::Envp { path, argv: args, copy: env_copied }).settle();
        assert(resolved(run_exec(m, memory, headers, rounds)));
        lemma_envp(path, args, env_start, memory, headers, n, rounds);
    }
    let fuel = rounds + 2 * n;
    assert(resolved(
        run_exec(
            (ExecModel::Argv { path, copy: args_copied, envp }).settle(),
            memory,
            headers,
            fuel,
        ),
    ));
    lemma_argv(path, args_start, envp, memory, headers, n, fuel);
}

proof fn lemma_copies_end(copy: VectorModel, memory: GuestStrings, n: nat)
    requires
        copy !is Text,
        copy matches VectorModel::Pointer { strings, .. } ==> strings.len() < MAX_VEC
            && strings.len() + n >= MAX_VEC,
    ensures
        copy_vector(copy, memory, n) is Done || copy_vector(copy, memory, n) is Failed,
    decreases n,
{
    if let VectorModel::Pointer { base, .. } = copy {
        let next = copy.pointer_read((memory.pointers)(base));
        if let VectorModel::Text { at, .. } = next {
            lemma_copies_end(next.text_read((memory.texts)(at)), memory, (n - 1) as nat);
        }
    }
}

} // verus!
