//! The runner in a confidential virtual machine: the arguments of its program, and what ends it.
use vstd::prelude::*;
use vstd::slice::slice_subrange;
use vstd::utf8::{decode_utf8, valid_utf8};

use crate::addr::PAGE_BYTES;
use crate::bytes::{copy_bytes, find_nul, first_nul, string_from_utf8};
use crate::shim::shebang::args_view;

verus! {

/// Arguments and environment of a program.
pub struct ProgramArgs {
    pub program: String,
    pub argv: Vec<Vec<u8>>,
    pub envp: Vec<Vec<u8>>,
}

/// A signed number of 32 bits, taken as one without sign.
pub open spec fn unsigned_len(n: i32) -> int {
    n as int % 0x1_0000_0000
}

fn as_len(n: i32) -> (r: u64)
    ensures
        r == unsigned_len(n),
{
    if n >= 0 {
        n as u64
    } else {
        (n as i64 + 0x1_0000_0000) as u64
    }
}

/// The strings from `at` on that start before `total`: those that start before `argv_len` are
/// arguments, the others belong to the environment. Every string ends in a zero.
pub open spec fn strings_from(bytes: Seq<u8>, at: int, argv_len: int, total: int) -> Option<
    (Seq<Seq<u8>>, Seq<Seq<u8>>),
>
    decreases
            if total > at {
                total - at
            } else {
                0
            },
{
    if at >= total {
        Some((Seq::empty(), Seq::empty()))
    } else {
        match first_nul(bytes, at) {
            None => None,
            Some(n) => if n < 0 {
                None
            } else {
                match strings_from(bytes, at + n + 1, argv_len, total) {
                    None => None,
                    Some((argv, envp)) => {
                        let text = bytes.subrange(at, at + n);
                        if at < argv_len {
                            Some((seq![text] + argv, envp))
                        } else {
                            Some((argv, seq![text] + envp))
                        }
                    },
                }
            },
        }
    }
}

/// The arguments and the environment that a block of strings holds, and the program, which is the first
/// argument and must be text.
pub open spec fn args_of(bytes: Seq<u8>, argv_len: int, env_len: int) -> Option<
    (Seq<char>, Seq<Seq<u8>>, Seq<Seq<u8>>),
> {
    match strings_from(bytes, 0, argv_len, argv_len + env_len) {
        Some((argv, envp)) if argv.len() > 0 && valid_utf8(argv[0]) => Some(
            (decode_utf8(argv[0]), argv, envp),
        ),
        _ => None,
    }
}

/// Reads the arguments and the environment of the program from a block of strings.
pub fn parse_args(bytes: &[u8], argv_len: i32, env_len: i32) -> (r: Option<ProgramArgs>)
    ensures
        match r {
            Some(args) => args_of(bytes@, unsigned_len(argv_len), unsigned_len(env_len)) == Some(
                (args.program@, args_view(args.argv@), args_view(args.envp@)),
            ),
            None => args_of(bytes@, unsigned_len(argv_len), unsigned_len(env_len)) is None,
        },
{
    let args_len: u64 = as_len(argv_len);
    let total: u64 = args_len + as_len(env_len);
    let len: usize = bytes.len();
    let mut argv: Vec<Vec<u8>> = Vec::new();
    let mut envp: Vec<Vec<u8>> = Vec::new();
    let mut at: usize = 0;
    proof {
        assert(args_view(argv@) =~= Seq::<Seq<u8>>::empty());
        assert(args_view(envp@) =~= Seq::<Seq<u8>>::empty());
    }
    let ghost whole = strings_from(bytes@, 0, args_len as int, total as int);
    proof {
        if let Some((a, e)) = whole {
            assert(args_view(argv@) + a =~= a);
            assert(args_view(envp@) + e =~= e);
        }
    }
    while (at as u64) < total
        invariant
            at <= bytes@.len(),
            len == bytes@.len(),
            args_len == unsigned_len(argv_len),
            total == args_len + unsigned_len(env_len),
            match strings_from(bytes@, at as int, args_len as int, total as int) {
                Some((a, e)) => whole == Some((args_view(argv@) + a, args_view(envp@) + e)),
                None => whole is None,
            },
            whole == strings_from(bytes@, 0, args_len as int, total as int),
        decreases bytes@.len() - at,
    {
        let n: usize = match find_nul(bytes, at) {
            Some(n) => n,
            None => return None,
        };
        let text = copy_bytes(slice_subrange(bytes, at, at + n));
        let ghost text_view = text@;
        let ghost argv_before = args_view(argv@);
        let ghost envp_before = args_view(envp@);
        let ghost rest = strings_from(bytes@, at + n + 1, args_len as int, total as int);
        assert(text_view == bytes@.subrange(at as int, at + n));
        if (at as u64) < args_len {
            argv.push(text);
            proof {
                assert(args_view(argv@) =~= argv_before.push(text_view));
                if let Some((a, e)) = rest {
                    assert(argv_before + (seq![text_view] + a) =~= args_view(argv@) + a);
                }
            }
        } else {
            envp.push(text);
            proof {
                assert(args_view(envp@) =~= envp_before.push(text_view));
                if let Some((a, e)) = rest {
                    assert(envp_before + (seq![text_view] + e) =~= args_view(envp@) + e);
                }
            }
        }
        at = at + n + 1;
    }
    proof {
        assert(args_view(argv@) + Seq::<Seq<u8>>::empty() =~= args_view(argv@));
        assert(args_view(envp@) + Seq::<Seq<u8>>::empty() =~= args_view(envp@));
    }
    if argv.len() == 0 {
        return None;
    }
    let first = copy_bytes(argv[0].as_slice());
    match string_from_utf8(first) {
        Some(program) => Some(ProgramArgs { program, argv, envp }),
        None => None,
    }
}

/// Strings one after the other, each with a zero behind it.
pub open spec fn joined(strings: Seq<Seq<u8>>) -> Seq<u8>
    decreases strings.len(),
{
    if strings.len() == 0 {
        Seq::empty()
    } else {
        strings[0] + seq![0u8] + joined(strings.skip(1))
    }
}

proof fn lemma_joined_push_front(text: Seq<u8>, strings: Seq<Seq<u8>>)
    ensures
        joined(seq![text] + strings) == text + seq![0u8] + joined(strings),
{
    assert((seq![text] + strings).skip(1) =~= strings);
}

/// The arguments and the environment, joined again, are the block that they were read from, as far as it
/// was read: at least up to where the environment was said to end.
pub proof fn law_strings_rebuild_block(bytes: Seq<u8>, at: int, argv_len: int, total: int)
    requires
        0 <= at <= bytes.len(),
        strings_from(bytes, at, argv_len, total) is Some,
    ensures
        ({
            let (argv, envp) = strings_from(bytes, at, argv_len, total)->Some_0;
            let block = joined(argv) + joined(envp);
            &&& at + block.len() <= bytes.len()
            &&& block == bytes.subrange(at, at + block.len())
            &&& at + block.len() >= total || at >= total
            &&& at >= argv_len ==> argv.len() == 0
        }),
    decreases
            if total > at {
                total - at
            } else {
                0
            },
{
    if at < total {
        let n = first_nul(bytes, at)->Some_0;
        lemma_first_nul_found(bytes, at);
        let next = at + n + 1;
        let (argv, envp) = strings_from(bytes, next, argv_len, total)->Some_0;
        law_strings_rebuild_block(bytes, next, argv_len, total);
        let rest = joined(argv) + joined(envp);
        let text = bytes.subrange(at, at + n);
        let (all_argv, all_envp) = strings_from(bytes, at, argv_len, total)->Some_0;
        let block = joined(all_argv) + joined(all_envp);
        if at < argv_len {
            lemma_joined_push_front(text, argv);
            assert(block =~= text + seq![0u8] + rest);
        } else {
            lemma_joined_push_front(text, envp);
            assert(joined(argv) =~= Seq::<u8>::empty());
            assert(block =~= text + seq![0u8] + rest);
        }
        assert(block =~= bytes.subrange(at, at + block.len()));
    } else {
        assert(joined(Seq::<Seq<u8>>::empty()) + joined(Seq::<Seq<u8>>::empty()) =~= bytes.subrange(
            at,
            at,
        ));
    }
}

proof fn lemma_first_nul_found(bytes: Seq<u8>, at: int)
    requires
        0 <= at,
    ensures
        first_nul(bytes, at) matches Some(n) ==> 0 <= n && at + n < bytes.len() && bytes[at + n]
            == 0,
    decreases bytes.len() - at,
{
    if at < bytes.len() && bytes[at] != 0 {
        lemma_first_nul_found(bytes, at + 1);
    }
}

/// Why the runner ends.
#[derive(Clone, Copy, PartialEq, Eq, Structural, Debug)]
pub enum TermReason {
    /// There is no page for talking to the hypervisor.
    NoGhcb,
    /// The parameters make no sense.
    InvalidParam,
    /// An exception could not be dealt with.
    Exception,
    /// Anything else.
    General,
}

/// The frequency of the processor in megahertz, or the reason to end where the page for talking to the
/// hypervisor could not be set up.
pub fn sandbox_kernel_init(ghcb_ready: bool, cpu_khz: u64) -> (r: Result<u64, TermReason>)
    ensures
        r == (if ghcb_ready {
            Ok(cpu_khz / 1000)
        } else {
            Err(TermReason::NoGhcb)
        }),
{
    if ghcb_ready {
        Ok(cpu_khz / 1000)
    } else {
        Err(TermReason::NoGhcb)
    }
}

/// The top-level page table that the processor uses.
pub fn current_pgd(cr3: u64) -> (r: u64)
    ensures
        r == cr3 - cr3 % 4096,
{
    cr3 - cr3 % PAGE_BYTES
}

/// What the start of a program waits for.
pub enum InitPhase {
    /// The directory for temporary files.
    MakeTmp,
    /// The rights of that directory, which existed already.
    OpenTmp,
    /// The connection to the server of the file system.
    Connect,
    /// The file system of that server.
    Mount,
    /// The program.
    Load,
    /// Nothing: the program runs.
    Run,
    /// Nothing: the runner ends.
    Terminate(TermReason),
}

/// The outcome of a step of the start of a program.
#[derive(Clone, Copy, PartialEq, Eq, Structural, Debug)]
pub enum InitReply {
    Worked,
    AlreadyExists,
    Failed,
}

impl InitPhase {
    /// What follows a step. That the directory for temporary files cannot be made is no reason to end.
    pub open spec fn spec_advance(self, reply: InitReply) -> InitPhase {
        match self {
            InitPhase::MakeTmp => if reply == InitReply::AlreadyExists {
                InitPhase::OpenTmp
            } else {
                InitPhase::Connect
            },
            InitPhase::OpenTmp => InitPhase::Connect,
            InitPhase::Connect => if reply == InitReply::Worked {
                InitPhase::Mount
            } else {
                InitPhase::Terminate(TermReason::General)
            },
            InitPhase::Mount => if reply == InitReply::Worked {
                InitPhase::Load
            } else {
                InitPhase::Terminate(TermReason::General)
            },
            InitPhase::Load => if reply == InitReply::Worked {
                InitPhase::Run
            } else {
                InitPhase::Terminate(TermReason::General)
            },
            InitPhase::Run => InitPhase::Run,
            InitPhase::Terminate(reason) => InitPhase::Terminate(reason),
        }
    }

    /// Goes on with the outcome of a step.
    pub fn advance(self, reply: InitReply) -> (r: InitPhase)
        ensures
            r == self.spec_advance(reply),
    {
        match self {
            InitPhase::MakeTmp => if reply == InitReply::AlreadyExists {
                InitPhase::OpenTmp
            } else {
                InitPhase::Connect
            },
            InitPhase::OpenTmp => InitPhase::Connect,
            InitPhase::Connect => if reply == InitReply::Worked {
                InitPhase::Mount
            } else {
                InitPhase::Terminate(TermReason::General)
            },
            InitPhase::Mount => if reply == InitReply::Worked {
                InitPhase::Load
            } else {
                InitPhase::Terminate(TermReason::General)
            },
            InitPhase::Load => if reply == InitReply::Worked {
                InitPhase::Run
            } else {
                InitPhase::Terminate(TermReason::General)
            },
            InitPhase::Run => InitPhase::Run,
            InitPhase::Terminate(reason) => InitPhase::Terminate(reason),
        }
    }
}

/// Starts a program: its arguments are read, and the first step is taken.
pub fn sandbox_process_init(bytes: &[u8], argv_len: i32, env_len: i32) -> (r: (
    InitPhase,
    Option<ProgramArgs>,
))
    ensures
        match args_of(bytes@, unsigned_len(argv_len), unsigned_len(env_len)) {
            Some((program, argv, envp)) => r.0 == InitPhase::MakeTmp && (r.1 matches Some(args)
                && args.program@ == program && args_view(args.argv@) == argv && args_view(
                args.envp@,
            ) == envp),
            None => r.0 == InitPhase::Terminate(TermReason::InvalidParam) && r.1 is None,
        },
{
    match parse_args(bytes, argv_len, env_len) {
        Some(args) => (InitPhase::MakeTmp, Some(args)),
        None => (InitPhase::Terminate(TermReason::InvalidParam), None),
    }
}

/// The program runs only after every step worked that it needs, and otherwise the runner ends.
pub proof fn law_program_runs_after_all_steps(
    tmp: InitReply,
    open: InitReply,
    connect: InitReply,
    mount: InitReply,
    load: InitReply,
)
    ensures
        ({
            let first = InitPhase::MakeTmp.spec_advance(tmp);
            let made = if first == InitPhase::OpenTmp {
                first.spec_advance(open)
            } else {
                first
            };
            let last = made.spec_advance(connect).spec_advance(mount).spec_advance(load);
            last == (if connect == InitReply::Worked && mount == InitReply::Worked && load
                == InitReply::Worked {
                InitPhase::Run
            } else {
                InitPhase::Terminate(TermReason::General)
            })
        }),
{
}

/// How a page fault ends.
#[derive(Clone, Copy, PartialEq, Eq, Structural, Debug)]
pub enum FaultEnd {
    /// Go on where it happened.
    Continue,
    /// Go on at an address that was set aside for the case.
    Fixup(u64),
    Terminate(TermReason),
}

/// Decides how a page fault ends. `handled` is what the page manager made of it: `Some(true)` if it was
/// dealt with, `Some(false)` if the access is not allowed, `None` if it failed otherwise. `fixup` is the
/// address that was set aside for a fault at the instruction; it counts in the kernel only.
pub fn page_fault_handler(handled: Option<bool>, rip: u64, task_addr_max: u64, fixup: Option<u64>) -> (r:
    FaultEnd)
    ensures
        r == (match handled {
            Some(true) => FaultEnd::Continue,
            Some(false) => match fixup {
                Some(addr) if rip >= task_addr_max => FaultEnd::Fixup(addr),
                _ => FaultEnd::Terminate(TermReason::Exception),
            },
            None => FaultEnd::Terminate(TermReason::Exception),
        }),
{
    match handled {
        Some(true) => FaultEnd::Continue,
        Some(false) => {
            if rip >= task_addr_max {
                match fixup {
                    Some(addr) => FaultEnd::Fixup(addr),
                    None => FaultEnd::Terminate(TermReason::Exception),
                }
            } else {
                FaultEnd::Terminate(TermReason::Exception)
            }
        },
        None => FaultEnd::Terminate(TermReason::Exception),
    }
}

} // verus!
