//! What system calls do for a guest, from the first step to the result.
use vstd::prelude::*;

use crate::errno::Errno;
use crate::shim::clock::{ClockId, Deadline, SleepPlan, TimeZone};
use crate::shim::entry::{ArchPrctlArg, FutexPlan};
use crate::shim::limits::{ResourceLimits, Rlimit, RlimitResource};
use crate::shim::pending::{law_sent_signals_wait, queued};
use crate::shim::process::ProcessModel;
use crate::shim::signal::{
    kernel_signal, law_masked_signals, masked, Handler, SigAction, SigAltStack, SigmaskHow,
};
use crate::shim::sigset::{SigSet, SIGSEGV};
use crate::shim::syscall::{
    applied_reply, first_phase, is_applied, pieces, Change, FileModel, FutexRequest, Phase, Purpose,
    Record, Reply, Since, Step, SyscallRequest, Task,
};
use crate::shim::task::PrctlArg;
use crate::shim::thread::CloneArgs;
use crate::time::Duration;

verus! {

/// The call has ended with the result.
pub open spec fn ended(phase: Phase, result: Result<u64, Errno>) -> bool {
    phase.spec_step() == (Step::Done { result })
}

/// What a read works on: the memory of the guest, the position in the file, and the buffer of the shim.
pub struct ReadWorld {
    pub memory: spec_fn(int) -> u8,
    pub position: int,
    pub buffer: Seq<u8>,
}

/// What a step of a read does, and its outcome: files are read, and bytes are copied.
pub open spec fn read_step(file: FileModel, world: ReadWorld, step: Step) -> (ReadWorld, Reply) {
    match step {
        Step::Handle { buffer: Some(len), .. } => {
            let size = file.read(world.position, len as int);
            let buffer = file.data.subrange(world.position, world.position + size);
            (
                ReadWorld { position: world.position + size, buffer, ..world },
                Reply::Value(Ok(size as u64)),
            )
        },
        Step::Tell { .. } => (world, Reply::Value(Ok(world.position as u64))),
        Step::Pread { len, position, .. } => {
            let size = file.read(position as int, len as int);
            let buffer = file.data.subrange(position as int, position + size);
            (ReadWorld { buffer, ..world }, Reply::Value(Ok(size as u64)))
        },
        Step::CopyOut { addr, offset, len } => {
            let start = addr + offset;
            let memory = |a: int|
                if start <= a < start + len {
                    world.buffer[a - start]
                } else {
                    (world.memory)(a)
                };
            (ReadWorld { memory, ..world }, Reply::Worked(true))
        },
        Step::SeekTo { position, .. } => (
            ReadWorld { position: position as int, ..world },
            Reply::Value(Ok(position as u64)),
        ),
        _ => (world, Reply::Worked(true)),
    }
}

/// Runs a read until it has ended: its last step, and what has become of the world.
pub open spec fn run_read(phase: Phase, file: FileModel, world: ReadWorld, fuel: nat) -> (
    Step,
    ReadWorld,
)
    decreases fuel,
{
    let step = phase.spec_step();
    if fuel == 0 || step is Done {
        (step, world)
    } else {
        let (next, reply) = read_step(file, world, step);
        run_read(phase.spec_advance(reply), file, next, (fuel - 1) as nat)
    }
}

/// How much a read gives: what the file gives at once where that fits in the buffer of the shim, and as
/// much as there is where it does not.
pub open spec fn read_size(file: FileModel, position: int, count: u64, at_once: bool) -> int {
    let there = file.data.len() - position;
    if at_once {
        file.read(position, count as int)
    } else if count < there {
        count as int
    } else {
        there
    }
}

/// The bytes of a file are in the memory of the guest: `n` of them, from `position` on, at `buf`; all
/// other memory is as it was.
pub open spec fn bytes_arrived(
    file: FileModel,
    position: int,
    n: int,
    buf: u64,
    before: spec_fn(int) -> u8,
    after: spec_fn(int) -> u8,
) -> bool {
    &&& forall|i: int| 0 <= i < n ==> #[trigger] after(buf + i) == file.data[position + i]
    &&& forall|a: int| !(buf <= a < buf + n) ==> #[trigger] after(a) == before(a)
}

/// One step of a read that has not ended.
proof fn lemma_read_step(phase: Phase, file: FileModel, world: ReadWorld, fuel: nat)
    requires
        fuel > 0,
        !(phase.spec_step() is Done),
    ensures
        ({
            let (next, reply) = read_step(file, world, phase.spec_step());
            run_read(phase, file, world, fuel) == run_read(
                phase.spec_advance(reply),
                file,
                next,
                (fuel - 1) as nat,
            )
        }),
{
}

/// A copy adds to what has arrived.
proof fn lemma_copy_arrives(
    file: FileModel,
    position: int,
    done: int,
    size: int,
    buf: u64,
    before: spec_fn(int) -> u8,
    world: ReadWorld,
    copied: ReadWorld,
)
    requires
        0 <= position,
        0 <= done,
        0 < size,
        position + done + size <= file.data.len(),
        bytes_arrived(file, position, done, buf, before, world.memory),
        world.buffer == file.data.subrange(position + done, position + done + size),
        copied == read_step(
            file,
            world,
            Step::CopyOut { addr: buf, offset: done as u64, len: size as u64 },
        ).0,
        done <= u64::MAX,
        size <= u64::MAX,
    ensures
        bytes_arrived(file, position, done + size, buf, before, copied.memory),
        copied.position == world.position,
{
    let more = done + size;
    assert forall|i: int| 0 <= i < more implies #[trigger] (copied.memory)(buf + i)
        == file.data[position + i] by {
        if i < done {
            assert((world.memory)(buf + i) == file.data[position + i]);
        } else {
            assert(world.buffer[i - done] == file.data[position + i]);
        }
    }
    assert forall|a: int| !(buf <= a < buf + more) implies #[trigger] (copied.memory)(a)
        == before(a) by {
        assert((world.memory)(a) == before(a));
    }
}

/// A piece of a read is read, and copied.
proof fn lemma_piece(
    fd: i32,
    buf: u64,
    count: u64,
    offset: i64,
    done: u64,
    start: Option<i64>,
    size: u64,
)
    requires
        0 <= offset,
        done < count,
        done + size <= count,
        offset + done + size <= i64::MAX,
    ensures
        ({
            let left = (count - done) as u64;
            let len = if left <= 0x80_000 {
                left
            } else {
                0x80_000
            };
            let piece = pieces(fd, buf, count, offset, done, start);
            let copy = piece.spec_advance(Reply::Value(Ok(size)));
            &&& piece.spec_step() == (Step::Pread { fd, len, position: (offset + done) as i64 })
            &&& size > 0 ==> {
                &&& copy.spec_step() == (Step::CopyOut { addr: buf, offset: done, len: size })
                &&& copy.spec_advance(Reply::Worked(true)) == pieces(
                    fd,
                    buf,
                    count,
                    offset,
                    (done + size) as u64,
                    start,
                )
            }
            &&& size == 0 ==> match start {
                Some(s) => {
                    &&& copy.spec_step() == (Step::SeekTo { fd, position: (s + done) as i64 })
                    &&& ended(copy.spec_advance(Reply::Value(Ok((s + done) as u64))), Ok(done))
                },
                None => ended(copy, Ok(done)),
            }
        }),
{
}

/// The end of a read in pieces.
proof fn lemma_last_piece(fd: i32, buf: u64, count: u64, offset: i64, start: Option<i64>, at: u64)
    ensures
        ({
            let end = pieces(fd, buf, count, offset, count, start);
            match start {
                Some(s) => {
                    &&& end.spec_step() == (Step::SeekTo { fd, position: (s + count) as i64 })
                    &&& ended(end.spec_advance(Reply::Value(Ok(at))), Ok(count))
                },
                None => ended(end, Ok(count)),
            }
        }),
{
}

proof fn lemma_pieces_arrive(
    fd: i32,
    buf: u64,
    count: u64,
    offset: i64,
    done: u64,
    start: Option<i64>,
    file: FileModel,
    before: spec_fn(int) -> u8,
    world: ReadWorld,
    fuel: nat,
)
    requires
        0 <= offset <= file.data.len(),
        done <= count,
        offset + done <= file.data.len(),
        file.data.len() <= i64::MAX,
        start is None || start == Some(offset),
        bytes_arrived(file, offset as int, done as int, buf, before, world.memory),
        fuel >= 2 * (count - done) + 3,
    ensures
        ({
            let n = read_size(file, offset as int, count, false);
            let (step, after) = run_read(pieces(fd, buf, count, offset, done, start), file, world, fuel);
            &&& step == (Step::Done { result: Ok(n as u64) })
            &&& bytes_arrived(file, offset as int, n, buf, before, after.memory)
            &&& after.position == (if start is Some {
                offset + n
            } else {
                world.position
            })
        }),
    decreases count - done,
{
    let phase = pieces(fd, buf, count, offset, done, start);
    if done < count {
        let left = (count - done) as u64;
        let len = if left <= 0x80_000 {
            left
        } else {
            0x80_000
        };
        let size = file.read(offset + done, len as int);
        lemma_piece(fd, buf, count, offset, done, start, size as u64);
        let (w1, r1) = read_step(file, world, phase.spec_step());
        let p1 = phase.spec_advance(r1);
        lemma_read_step(phase, file, world, fuel);
        assert(r1 == Reply::Value(Ok(size as u64)));
        if size > 0 {
            let (w2, r2) = read_step(file, w1, p1.spec_step());
            let more = (done + size) as u64;
            lemma_read_step(p1, file, w1, (fuel - 1) as nat);
            lemma_copy_arrives(file, offset as int, done as int, size, buf, before, w1, w2);
            lemma_pieces_arrive(
                fd,
                buf,
                count,
                offset,
                more,
                start,
                file,
                before,
                w2,
                (fuel - 2) as nat,
            );
        } else if start is Some {
            lemma_read_step(p1, file, w1, (fuel - 1) as nat);
        }
    } else {
        lemma_last_piece(fd, buf, count, offset, start, (offset + done) as u64);
        if start is Some {
            lemma_read_step(phase, file, world, fuel);
        }
    }
}

/// A read leaves the bytes of the file, from where it stands on, in the memory of the guest where the
/// guest wants them, touches no other memory, moves the file on behind them, and tells their number. A
/// read that fits in the buffer of the shim gives what the file gives at once, a larger one all that there
/// is.
pub proof fn law_read_fills_guest_memory(
    task: Task,
    limits: ResourceLimits,
    handlers: Seq<Handler>,
    fd: i32,
    buf: u64,
    count: u64,
    file: FileModel,
    world: ReadWorld,
    fuel: nat,
)
    requires
        0 <= world.position <= file.data.len() <= i64::MAX,
        fuel >= 2 * count + 5,
    ensures
        ({
            let call = first_phase(task, limits, handlers, SyscallRequest::Read { fd, buf, count });
            let n = read_size(file, world.position, count, count <= 0x80_000);
            let (step, after) = run_read(call, file, world, fuel);
            &&& step == (Step::Done { result: Ok(n as u64) })
            &&& bytes_arrived(file, world.position, n, buf, world.memory, after.memory)
            &&& after.position == world.position + n
        }),
{
    reveal_with_fuel(run_read, 4);
    let request = SyscallRequest::Read { fd, buf, count };
    let call = first_phase(task, limits, handlers, request);
    let (w1, r1) = read_step(file, world, call.spec_step());
    let p1 = call.spec_advance(r1);
    if count > 0x80_000 {
        let at = world.position as i64;
        assert(p1 == pieces(fd, buf, count, at, 0, Some(at)));
        lemma_pieces_arrive(
            fd,
            buf,
            count,
            at,
            0,
            Some(at),
            file,
            world.memory,
            world,
            (fuel - 1) as nat,
        );
    } else {
        let (w2, r2) = read_step(file, w1, p1.spec_step());
        let p2 = p1.spec_advance(r2);
        assert(run_read(call, file, world, fuel) == (p2.spec_step(), w2));
    }
}

/// A read at a position does the same from that position on, and leaves the file where it stands.
pub proof fn law_pread_fills_guest_memory(
    task: Task,
    limits: ResourceLimits,
    handlers: Seq<Handler>,
    fd: i32,
    buf: u64,
    count: u64,
    offset: i64,
    file: FileModel,
    world: ReadWorld,
    fuel: nat,
)
    requires
        0 <= offset <= file.data.len() <= i64::MAX,
        fuel >= 2 * count + 5,
    ensures
        ({
            let call = first_phase(
                task,
                limits,
                handlers,
                SyscallRequest::Pread64 { fd, buf, count, offset },
            );
            let n = read_size(file, offset as int, count, false);
            let (step, after) = run_read(call, file, world, fuel);
            &&& step == (Step::Done { result: Ok(n as u64) })
            &&& bytes_arrived(file, offset as int, n, buf, world.memory, after.memory)
            &&& after.position == world.position
        }),
{
    lemma_pieces_arrive(fd, buf, count, offset, 0, None, file, world.memory, world, fuel);
}

/// A read that the file refuses returns its error, and one whose bytes cannot be copied to the guest is
/// `EFAULT`, not a success: the number of bytes is told only behind the copy.
pub proof fn law_read_failures(
    task: Task,
    limits: ResourceLimits,
    handlers: Seq<Handler>,
    fd: i32,
    buf: u64,
    count: u64,
    n: u64,
    e: Errno,
)
    requires
        count <= 0x80_000,
        n <= count,
    ensures
        ({
            let request = SyscallRequest::Read { fd, buf, count };
            let call = first_phase(task, limits, handlers, request);
            let copy = call.spec_advance(Reply::Value(Ok(n)));
            &&& call.spec_step() == (Step::Handle { request, buffer: Some(count) })
            &&& ended(call.spec_advance(Reply::Value(Err(e))), Err(e))
            &&& copy.spec_step() == (Step::CopyOut { addr: buf, offset: 0, len: n })
            &&& ended(copy.spec_advance(Reply::Worked(true)), Ok(n))
            &&& ended(copy.spec_advance(Reply::Worked(false)), Err(Errno::EFAULT))
        }),
{
}

/// A large read starts by asking where the file stands; without an answer it fails, and so it does when a
/// piece cannot be read or copied.
pub proof fn law_large_read_failures(
    task: Task,
    limits: ResourceLimits,
    handlers: Seq<Handler>,
    fd: i32,
    buf: u64,
    count: u64,
    at: u64,
    n: u64,
    e: Errno,
)
    requires
        count > 0x80_000,
        at + n <= i64::MAX,
        0 < n <= 0x80_000,
    ensures
        ({
            let call = first_phase(task, limits, handlers, SyscallRequest::Read { fd, buf, count });
            let piece = call.spec_advance(Reply::Value(Ok(at)));
            let copy = piece.spec_advance(Reply::Value(Ok(n)));
            &&& call.spec_step() == (Step::Tell { fd })
            &&& ended(call.spec_advance(Reply::Value(Err(e))), Err(e))
            &&& piece.spec_step() == (Step::Pread { fd, len: 0x80_000, position: at as i64 })
            &&& ended(piece.spec_advance(Reply::Value(Err(e))), Err(e))
            &&& copy.spec_step() == (Step::CopyOut { addr: buf, offset: 0, len: n })
            &&& ended(copy.spec_advance(Reply::Worked(false)), Err(Errno::EFAULT))
        }),
{
}

/// A read at a position that asks for nothing reads nothing. A piece that cannot be read or copied is an
/// error.
pub proof fn law_pread_failures(
    task: Task,
    limits: ResourceLimits,
    handlers: Seq<Handler>,
    fd: i32,
    buf: u64,
    count: u64,
    offset: i64,
    n: u64,
    e: Errno,
)
    requires
        0 <= offset,
        offset + n <= i64::MAX,
        0 < n <= count,
        n <= 0x80_000,
    ensures
        ended(
            first_phase(
                task,
                limits,
                handlers,
                SyscallRequest::Pread64 { fd, buf, count: 0, offset },
            ),
            Ok(0),
        ),
        ({
            let call = first_phase(
                task,
                limits,
                handlers,
                SyscallRequest::Pread64 { fd, buf, count, offset },
            );
            let copy = call.spec_advance(Reply::Value(Ok(n)));
            &&& call.spec_step() matches Step::Pread { fd: from, len, position }
            &&& from == fd && position == offset && len == (if count <= 0x80_000 {
                count
            } else {
                0x80_000
            })
            &&& ended(call.spec_advance(Reply::Value(Err(e))), Err(e))
            &&& copy.spec_step() == (Step::CopyOut { addr: buf, offset: 0, len: n })
            &&& ended(copy.spec_advance(Reply::Worked(false)), Err(Errno::EFAULT))
        }),
{
}

/// A write reads the bytes of the guest first, all of them from where the guest has them; without them
/// nothing is written. What the file says of the write is what the guest learns.
pub proof fn law_write_takes_guest_bytes(
    task: Task,
    limits: ResourceLimits,
    handlers: Seq<Handler>,
    fd: i32,
    buf: u64,
    count: u64,
    offset: i64,
    at_offset: bool,
    v: Result<u64, Errno>,
)
    ensures
        ({
            let request = if at_offset {
                SyscallRequest::Pwrite64 { fd, buf, count, offset }
            } else {
                SyscallRequest::Write { fd, buf, count }
            };
            let call = first_phase(task, limits, handlers, request);
            let write = call.spec_advance(Reply::Worked(true));
            &&& call.spec_step() == (Step::ReadBytes { addr: buf, len: count })
            &&& ended(call.spec_advance(Reply::Worked(false)), Err(Errno::EFAULT))
            &&& write.spec_step() == (Step::Handle { request, buffer: None })
            &&& ended(write.spec_advance(Reply::Value(v)), v)
        }),
{
}

/// The path that a request names, and the error if it cannot be read.
pub open spec fn path_of(request: SyscallRequest) -> Option<(u64, Errno)> {
    match request {
        SyscallRequest::Mkdir { pathname, .. } => Some((pathname, Errno::EINVAL)),
        SyscallRequest::Chdir { pathname } => Some((pathname, Errno::EINVAL)),
        SyscallRequest::Access { pathname, .. } => Some((pathname, Errno::EFAULT)),
        SyscallRequest::Openat { pathname, .. } => Some((pathname, Errno::EFAULT)),
        SyscallRequest::Unlinkat { pathname, .. } => Some((pathname, Errno::EFAULT)),
        SyscallRequest::Stat { pathname, .. } => Some((pathname, Errno::EFAULT)),
        SyscallRequest::Lstat { pathname, .. } => Some((pathname, Errno::EFAULT)),
        SyscallRequest::Newfstatat { pathname, .. } => Some((pathname, Errno::EFAULT)),
        SyscallRequest::Readlink { pathname, .. } => Some((pathname, Errno::EFAULT)),
        SyscallRequest::Readlinkat { pathname, .. } => Some((pathname, Errno::EFAULT)),
        _ => None,
    }
}

/// Where the guest wants the record that a request asks for.
pub open spec fn record_wanted(request: SyscallRequest) -> Option<u64> {
    match request {
        SyscallRequest::Stat { buf, .. } => Some(buf),
        SyscallRequest::Lstat { buf, .. } => Some(buf),
        SyscallRequest::Newfstatat { buf, .. } => Some(buf),
        SyscallRequest::Fstat { buf, .. } => Some(buf),
        SyscallRequest::Sysinfo { buf } => Some(buf),
        _ => None,
    }
}

/// Where the guest wants the bytes that a request asks for, and how many it has room for.
pub open spec fn bytes_wanted(request: SyscallRequest) -> Option<(u64, u64)> {
    match request {
        SyscallRequest::Readlink { buf, bufsiz, .. } => Some((buf, bufsiz)),
        SyscallRequest::Readlinkat { buf, bufsiz, .. } => Some((buf, bufsiz)),
        SyscallRequest::Getcwd { buf, size } => Some((buf, size)),
        _ => None,
    }
}

/// The call behind the path that it names, if it names one.
pub open spec fn behind_path(call: Phase, request: SyscallRequest) -> Phase {
    match path_of(request) {
        Some(_) => call.spec_advance(Reply::Worked(true)),
        None => call,
    }
}

/// A call that names a path reads it first, from where the guest has it, and fails if that cannot be done.
pub proof fn law_paths_are_read_first(
    task: Task,
    limits: ResourceLimits,
    handlers: Seq<Handler>,
    request: SyscallRequest,
)
    requires
        path_of(request) is Some,
    ensures
        ({
            let call = first_phase(task, limits, handlers, request);
            &&& call.spec_step() == (Step::ReadPath { addr: path_of(request)->Some_0.0 })
            &&& ended(call.spec_advance(Reply::Worked(false)), Err(path_of(request)->Some_0.1))
        }),
{
}

/// A call that only names a path is handled as it is, and the guest learns what came of it.
pub proof fn law_path_calls_are_handled(
    task: Task,
    limits: ResourceLimits,
    handlers: Seq<Handler>,
    request: SyscallRequest,
    v: Result<u64, Errno>,
)
    requires
        path_of(request) is Some,
        record_wanted(request) is None,
        bytes_wanted(request) is None,
    ensures
        ({
            let call = behind_path(first_phase(task, limits, handlers, request), request);
            &&& call.spec_step() == (Step::Handle { request, buffer: None })
            &&& ended(call.spec_advance(Reply::Value(v)), v)
        }),
{
}

/// A call that asks for a record has it written where the guest wants it, once the handler has it; the
/// result is zero, and only then.
pub proof fn law_records_are_written(
    task: Task,
    limits: ResourceLimits,
    handlers: Seq<Handler>,
    request: SyscallRequest,
    n: u64,
    e: Errno,
)
    requires
        record_wanted(request) is Some,
    ensures
        ({
            let call = behind_path(first_phase(task, limits, handlers, request), request);
            let write = call.spec_advance(Reply::Value(Ok(n)));
            &&& call.spec_step() == (Step::Handle { request, buffer: None })
            &&& ended(call.spec_advance(Reply::Value(Err(e))), Err(e))
            &&& write.spec_step() == (Step::WriteOut { addr: record_wanted(request)->Some_0 })
            &&& ended(write.spec_advance(Reply::Worked(true)), Ok(0))
            &&& ended(write.spec_advance(Reply::Worked(false)), Err(Errno::EFAULT))
        }),
{
}

/// A call that asks for bytes gets those that the handler has, as far as there is room and no more than the
/// largest buffer holds, copied to where the guest wants them; their number is told only behind the copy.
pub proof fn law_bytes_are_copied(
    task: Task,
    limits: ResourceLimits,
    handlers: Seq<Handler>,
    request: SyscallRequest,
    n: u64,
    e: Errno,
)
    requires
        bytes_wanted(request) is Some,
        n <= bytes_wanted(request)->Some_0.1,
    ensures
        ({
            let (buf, room) = bytes_wanted(request)->Some_0;
            let call = behind_path(first_phase(task, limits, handlers, request), request);
            let copy = call.spec_advance(Reply::Value(Ok(n)));
            &&& call.spec_step() == (Step::Handle {
                request,
                buffer: Some(
                    if room <= 0x80_000 {
                        room
                    } else {
                        0x80_000
                    },
                ),
            })
            &&& ended(call.spec_advance(Reply::Value(Err(e))), Err(e))
            &&& copy.spec_step() == (Step::CopyOut { addr: buf, offset: 0, len: n })
            &&& ended(copy.spec_advance(Reply::Worked(true)), Ok(n))
            &&& ended(copy.spec_advance(Reply::Worked(false)), Err(Errno::EFAULT))
        }),
{
}

/// The request is the business of a handler from start to end.
pub open spec fn is_handled(request: SyscallRequest) -> bool {
    match request {
        SyscallRequest::Execve { .. } | SyscallRequest::Close { .. } | SyscallRequest::Ioctl { .. }
        | SyscallRequest::Mmap { .. } | SyscallRequest::Mprotect { .. }
        | SyscallRequest::Mremap { .. } | SyscallRequest::Munmap { .. } | SyscallRequest::Brk { .. }
        | SyscallRequest::Readv { .. } | SyscallRequest::Writev { .. }
        | SyscallRequest::Madvise { .. } | SyscallRequest::Dup { .. } | SyscallRequest::Socket { .. }
        | SyscallRequest::Socketpair { .. } | SyscallRequest::Connect { .. }
        | SyscallRequest::Accept { .. } | SyscallRequest::Sendto { .. }
        | SyscallRequest::Sendmsg { .. } | SyscallRequest::Recvfrom { .. }
        | SyscallRequest::Bind { .. } | SyscallRequest::Listen { .. }
        | SyscallRequest::Setsockopt { .. } | SyscallRequest::Getsockopt { .. }
        | SyscallRequest::Getsockname { .. } | SyscallRequest::Getpeername { .. }
        | SyscallRequest::Uname { .. } | SyscallRequest::Fcntl { .. }
        | SyscallRequest::EpollCtl { .. } | SyscallRequest::EpollPwait { .. }
        | SyscallRequest::Ppoll { .. } | SyscallRequest::Pselect { .. }
        | SyscallRequest::Ftruncate { .. } | SyscallRequest::Eventfd2 { .. }
        | SyscallRequest::GetRandom { .. } | SyscallRequest::CapGet { .. }
        | SyscallRequest::GetDirent64 { .. } | SyscallRequest::Umask { .. }
        | SyscallRequest::Alarm { .. } => true,
        SyscallRequest::EpollCreate { hint, .. } => hint > 0,
        _ => false,
    }
}

/// A request that is the business of a handler is handed to it, with all its arguments, and the guest learns
/// what came of it.
pub proof fn law_requests_reach_their_handlers(
    task: Task,
    limits: ResourceLimits,
    handlers: Seq<Handler>,
    request: SyscallRequest,
    v: Result<u64, Errno>,
)
    requires
        is_handled(request),
    ensures
        ({
            let call = first_phase(task, limits, handlers, request);
            &&& call.spec_step() == (Step::Handle { request, buffer: None })
            &&& ended(call.spec_advance(Reply::Value(v)), v)
        }),
{
}

/// A way to seek that does not exist is refused; one that does is handed on.
pub proof fn law_seek_checks_its_way(
    task: Task,
    limits: ResourceLimits,
    handlers: Seq<Handler>,
    fd: i32,
    offset: i64,
    whence: i32,
    v: Result<u64, Errno>,
)
    ensures
        ({
            let request = SyscallRequest::Lseek { fd, offset, whence };
            let call = first_phase(task, limits, handlers, request);
            let seek = call.spec_advance(Reply::Worked(true));
            &&& call.spec_step() == (Step::Convert { number: whence })
            &&& ended(call.spec_advance(Reply::Worked(false)), Err(Errno::EINVAL))
            &&& seek.spec_step() == (Step::Handle { request, buffer: None })
            &&& ended(seek.spec_advance(Reply::Value(v)), v)
        }),
{
}

/// What the task knows of itself is told at once.
pub proof fn law_task_knows_itself(
    task: Task,
    limits: ResourceLimits,
    handlers: Seq<Handler>,
    tidptr: u64,
    head: u64,
    hint: i32,
    flags: u32,
    user_desc: u64,
    status: i32,
)
    requires
        task.pid >= 0,
        task.ppid >= 0,
        task.tid >= 0,
        hint <= 0,
    ensures
        ended(first_phase(task, limits, handlers, SyscallRequest::Getpid), Ok(task.pid as u64)),
        ended(first_phase(task, limits, handlers, SyscallRequest::Getppid), Ok(task.ppid as u64)),
        ended(first_phase(task, limits, handlers, SyscallRequest::Gettid), Ok(task.tid as u64)),
        ended(first_phase(task, limits, handlers, SyscallRequest::Getuid), Ok(task.credentials.uid as u64)),
        ended(first_phase(task, limits, handlers, SyscallRequest::Geteuid), Ok(task.credentials.euid as u64)),
        ended(first_phase(task, limits, handlers, SyscallRequest::Getgid), Ok(task.credentials.gid as u64)),
        ended(first_phase(task, limits, handlers, SyscallRequest::Getegid), Ok(task.credentials.egid as u64)),
        ended(
            first_phase(task, limits, handlers, SyscallRequest::SetTidAddress { tidptr }),
            Ok(task.tid as u64),
        ),
        ended(first_phase(task, limits, handlers, SyscallRequest::SetRobustList { head }), Ok(0)),
        ended(first_phase(task, limits, handlers, SyscallRequest::SchedYield), Ok(0)),
        ended(first_phase(task, limits, handlers, SyscallRequest::Exit { status }), Ok(0)),
        ended(first_phase(task, limits, handlers, SyscallRequest::ExitGroup { status }), Ok(0)),
        ended(
            first_phase(task, limits, handlers, SyscallRequest::EpollCreate { hint, flags }),
            Err(Errno::EINVAL),
        ),
        ended(
            first_phase(task, limits, handlers, SyscallRequest::SetThreadArea { user_desc }),
            Err(Errno::ENOSYS),
        ),
        ended(first_phase(task, limits, handlers, SyscallRequest::Unsupported), Err(Errno::ENOSYS)),
{
}

/// A signal can be sent to the caller itself and to no one else, and only one that exists.
pub proof fn law_signals_reach_only_the_caller(
    task: Task,
    limits: ResourceLimits,
    handlers: Seq<Handler>,
    pid: i32,
    tid: i32,
    sig: i32,
)
    ensures
        ({
            let kill = first_phase(task, limits, handlers, SyscallRequest::Kill { pid, sig });
            let tkill = first_phase(task, limits, handlers, SyscallRequest::Tkill { tid, sig });
            let tgkill = first_phase(
                task,
                limits,
                handlers,
                SyscallRequest::Tgkill { tgid: pid, tid, sig },
            );
            if 1 <= sig <= 64 {
                &&& ended(
                    kill,
                    if pid == task.pid {
                        Ok(0)
                    } else {
                        Err(Errno::ESRCH)
                    },
                )
                &&& ended(
                    tkill,
                    if tid == task.tid {
                        Ok(0)
                    } else {
                        Err(Errno::ESRCH)
                    },
                )
                &&& ended(
                    tgkill,
                    if pid == task.pid && tid == task.tid {
                        Ok(0)
                    } else {
                        Err(Errno::ESRCH)
                    },
                )
            } else {
                &&& ended(kill, Err(Errno::EINVAL))
                &&& ended(tkill, Err(Errno::EINVAL))
                &&& ended(tgkill, Err(Errno::EINVAL))
            }
        }),
{
}

/// The mask of the two processors goes to a buffer of whole words that has room for it; its size is told.
pub proof fn law_affinity_is_written(
    task: Task,
    limits: ResourceLimits,
    handlers: Seq<Handler>,
    pid: Option<i32>,
    len: u64,
    mask: u64,
)
    requires
        len <= 0x1000,
    ensures
        ({
            let request = SyscallRequest::SchedGetAffinity { pid, len, mask };
            let call = first_phase(task, limits, handlers, request);
            if len > 0 && len % 8 == 0 {
                &&& call.spec_step() == (Step::Put { addr: mask, record: Record::Byte(0b11) })
                &&& ended(call.spec_advance(Reply::Worked(true)), Ok(1))
                &&& ended(call.spec_advance(Reply::Worked(false)), Err(Errno::EFAULT))
            } else {
                ended(call, Err(Errno::EINVAL))
            }
        }),
{
}

/// The head of the list of robust futexes goes to `head`, and the size of a head to `len`; each write that
/// fails is an error.
pub proof fn law_robust_list_is_told(
    task: Task,
    limits: ResourceLimits,
    handlers: Seq<Handler>,
    head: u64,
    len: u64,
)
    ensures
        ({
            let request = SyscallRequest::GetRobustList { pid: None, head, len };
            let call = first_phase(task, limits, handlers, request);
            let size = call.spec_advance(Reply::Worked(true));
            let kept = match task.thread.robust_list {
                Some(kept) => kept,
                None => 0,
            };
            &&& call.spec_step() == (Step::Put { addr: head, record: Record::Word(kept) })
            &&& ended(call.spec_advance(Reply::Worked(false)), Err(Errno::EFAULT))
            &&& size.spec_step() == (Step::Put { addr: len, record: Record::Word(24) })
            &&& ended(size.spec_advance(Reply::Worked(true)), Ok(0))
            &&& ended(size.spec_advance(Reply::Worked(false)), Err(Errno::EFAULT))
        }),
{
}

/// Of capabilities all that exist are absent, and no others can be asked for. The base of the thread-local
/// storage is what the platform says, and a way to change how returns are checked is refused.
pub proof fn law_prctl_and_arch_prctl(
    task: Task,
    limits: ResourceLimits,
    handlers: Seq<Handler>,
    cap: u64,
    to: u64,
    addr: u64,
    base: u64,
    e: Errno,
    arg: ArchPrctlArg,
)
    requires
        arg is CetStatus || arg is CetDisable || arg is CetLock,
    ensures
        ended(
            first_phase(task, limits, handlers, SyscallRequest::Prctl { arg: PrctlArg::CapBSetRead(cap) }),
            if cap <= 40 {
                Ok(0)
            } else {
                Err(Errno::EINVAL)
            },
        ),
        ({
            let name = first_phase(task, limits, handlers, SyscallRequest::Prctl { arg: PrctlArg::GetName(to) });
            &&& name.spec_step() == (Step::Put { addr: to, record: Record::Name(task.comm) })
            &&& ended(name.spec_advance(Reply::Worked(true)), Ok(0))
            &&& ended(name.spec_advance(Reply::Worked(false)), Err(Errno::EFAULT))
        }),
        ({
            let set = first_phase(task, limits, handlers, SyscallRequest::ArchPrctl { arg: ArchPrctlArg::SetFs(addr) });
            &&& set.spec_step() == (Step::SetFs { addr })
            &&& ended(set.spec_advance(Reply::Value(Ok(base))), Ok(0))
            &&& ended(set.spec_advance(Reply::Value(Err(e))), Err(e))
        }),
        ({
            let get = first_phase(task, limits, handlers, SyscallRequest::ArchPrctl { arg: ArchPrctlArg::GetFs(to) });
            let write = get.spec_advance(Reply::Value(Ok(base)));
            &&& get.spec_step() == Step::GetFs
            &&& ended(get.spec_advance(Reply::Value(Err(e))), Err(e))
            &&& write.spec_step() == (Step::Put { addr: to, record: Record::Word(base) })
            &&& ended(write.spec_advance(Reply::Worked(true)), Ok(0))
            &&& ended(write.spec_advance(Reply::Worked(false)), Err(Errno::EFAULT))
        }),
        ended(
            first_phase(task, limits, handlers, SyscallRequest::ArchPrctl { arg }),
            Err(Errno::EINVAL),
        ),
{
}

/// The record is written where the guest wants it, if it wants it, and the call then goes on as `next`; a
/// write that fails ends it with the error.
pub open spec fn written_then(
    phase: Phase,
    to: Option<u64>,
    record: Record,
    error: Errno,
    next: spec_fn(Phase) -> bool,
) -> bool {
    match to {
        Some(addr) => {
            &&& phase.spec_step() == (Step::Put { addr, record })
            &&& ended(phase.spec_advance(Reply::Worked(false)), Err(error))
            &&& next(phase.spec_advance(Reply::Worked(true)))
        },
        None => next(phase),
    }
}

/// The time of day goes to `tv` in seconds and microseconds, and the zone of Greenwich to `tz` before it.
pub proof fn law_time_of_day_is_written(
    task: Task,
    limits: ResourceLimits,
    handlers: Seq<Handler>,
    tv: Option<u64>,
    tz: Option<u64>,
    now: Duration,
)
    requires
        now.nanos < 1_000_000_000,
    ensures
        ({
            let call = first_phase(task, limits, handlers, SyscallRequest::Gettimeofday { tv, tz });
            let zone = Record::Zone(TimeZone { tz_minuteswest: 0, tz_dsttime: 0 });
            match tv {
                None => written_then(call, tz, zone, Errno::EFAULT, |p: Phase| ended(p, Ok(0))),
                Some(tv) => {
                    &&& call.spec_step() == (Step::Now { since: Since::Epoch })
                    &&& written_then(
                        call.spec_advance(Reply::Time(now)),
                        tz,
                        zone,
                        Errno::EFAULT,
                        |p: Phase|
                            {
                                &&& p.spec_step() matches Step::Put { addr, record: Record::Time(t) }
                                &&& addr == tv
                                &&& t.tv_sec == now.secs
                                &&& t.tv_usec * 1000 <= now.nanos < t.tv_usec * 1000 + 1000
                                &&& ended(p.spec_advance(Reply::Worked(true)), Ok(0))
                                &&& ended(p.spec_advance(Reply::Worked(false)), Err(Errno::EFAULT))
                            },
                    )
                },
            }
        }),
{
}

/// The seconds since the epoch are told, and written where the guest wants them, unless they are too many
/// for a signed number.
pub proof fn law_seconds_are_told(
    task: Task,
    limits: ResourceLimits,
    handlers: Seq<Handler>,
    tloc: Option<u64>,
    now: Duration,
)
    ensures
        ({
            let call = first_phase(task, limits, handlers, SyscallRequest::Time { tloc });
            let told = call.spec_advance(Reply::Time(now));
            &&& call.spec_step() == (Step::Now { since: Since::Epoch })
            &&& if now.secs <= 0x7fff_ffff_ffff_ffff {
                written_then(
                    told,
                    tloc,
                    Record::Word(now.secs),
                    Errno::EFAULT,
                    |p: Phase| ended(p, Ok(now.secs)),
                )
            } else {
                ended(told, Err(Errno::EOVERFLOW))
            }
        }),
{
}

/// A clock is read as what it is: the clock of the world since the epoch, the other two since the shim was
/// started. The reading is written as it is.
pub proof fn law_clocks_are_read(
    task: Task,
    limits: ResourceLimits,
    handlers: Seq<Handler>,
    clockid: i32,
    tp: u64,
    clock: ClockId,
    now: Duration,
    v: u64,
    e: Errno,
)
    requires
        now.nanos < 1_000_000_000,
    ensures
        ({
            let call = first_phase(
                task,
                limits,
                handlers,
                SyscallRequest::ClockGettime { clockid, tp },
            );
            let named = call.spec_advance(Reply::Clock(Some(clock)));
            let write = named.spec_advance(Reply::Time(now));
            &&& call.spec_step() == (Step::Clock { number: clockid })
            &&& ended(call.spec_advance(Reply::Clock(None)), Err(Errno::EINVAL))
            &&& match clock {
                ClockId::Other => ended(named, Err(Errno::EINVAL)),
                ClockId::RealTime => named.spec_step() == (Step::Now { since: Since::Epoch }),
                ClockId::Monotonic | ClockId::MonotonicCoarse => named.spec_step() == (Step::Now {
                    since: Since::Boot,
                }),
            }
            &&& !(clock is Other) ==> {
                &&& write.spec_step() == (Step::WriteTime { addr: tp, time: now })
                &&& ended(write.spec_advance(Reply::Value(Ok(v))), Ok(0))
                &&& ended(write.spec_advance(Reply::Value(Err(e))), Err(e))
            }
        }),
{
}

/// The coarse clock moves every four milliseconds, the others every nanosecond.
pub proof fn law_resolutions_are_written(
    task: Task,
    limits: ResourceLimits,
    handlers: Seq<Handler>,
    clockid: i32,
    res: u64,
    clock: ClockId,
    v: u64,
    e: Errno,
)
    requires
        !(clock is Other),
    ensures
        ({
            let call = first_phase(
                task,
                limits,
                handlers,
                SyscallRequest::ClockGetres { clockid, res },
            );
            let write = call.spec_advance(Reply::Clock(Some(clock)));
            &&& call.spec_step() == (Step::Clock { number: clockid })
            &&& ended(call.spec_advance(Reply::Clock(None)), Err(Errno::EINVAL))
            &&& write.spec_step() matches Step::WriteTime { addr, time }
            &&& addr == res
            &&& time.secs * 1_000_000_000 + time.nanos == (if clock is MonotonicCoarse {
                4_000_000int
            } else {
                1
            })
            &&& ended(write.spec_advance(Reply::Value(Ok(v))), Ok(0))
            &&& ended(write.spec_advance(Reply::Value(Err(e))), Err(e))
        }),
{
}

/// A sleep for so long was cut short, or not: what is left of it is written where the guest wants it.
pub open spec fn sleep_ends(sleep: Phase, remain: u64, left: Duration, relative: bool) -> bool {
    let whole = sleep.spec_advance(Reply::Slept { interrupted: false, remaining: Some(left) });
    let none = sleep.spec_advance(Reply::Slept { interrupted: false, remaining: None });
    let cut = sleep.spec_advance(Reply::Slept { interrupted: true, remaining: Some(left) });
    let late = sleep.spec_advance(Reply::Slept { interrupted: true, remaining: None });
    &&& ended(whole, Ok(0))
    &&& ended(none, Ok(0))
    &&& if relative {
        &&& cut.spec_step() == (Step::WriteTime { addr: remain, time: left })
        &&& forall|v: u64| ended(#[trigger] cut.spec_advance(Reply::Value(Ok(v))), Err(Errno::EINTR))
        &&& forall|e: Errno| ended(#[trigger] cut.spec_advance(Reply::Value(Err(e))), Err(e))
        &&& ended(late, Ok(0))
    } else {
        ended(cut, Err(Errno::EINTR)) && ended(late, Err(Errno::EINTR))
    }
}

/// A sleep lasts as long as was asked for, or until the clock shows what was asked for: a reading of the
/// clock of the world is as far away as it is ahead of now, and not at all if it has passed.
pub proof fn law_sleeps_last_as_asked(
    task: Task,
    limits: ResourceLimits,
    handlers: Seq<Handler>,
    clockid: i32,
    flags: u32,
    request: u64,
    remain: u64,
    clock: ClockId,
    d: Duration,
    now: Duration,
    left: Duration,
    e: Errno,
)
    requires
        d.nanos < 1_000_000_000,
        now.nanos < 1_000_000_000,
    ensures
        ({
            let call = first_phase(
                task,
                limits,
                handlers,
                SyscallRequest::ClockNanosleep { clockid, flags, request, remain },
            );
            let named = call.spec_advance(Reply::Clock(Some(clock)));
            let asked = named.spec_advance(Reply::Span(Ok(Some(d))));
            let world = asked.spec_advance(Reply::Time(now));
            &&& call.spec_step() == (Step::Clock { number: clockid })
            &&& ended(call.spec_advance(Reply::Clock(None)), Err(Errno::EINVAL))
            &&& named.spec_step() == (Step::ReadTime { addr: request })
            &&& ended(named.spec_advance(Reply::Span(Err(e))), Err(e))
            &&& ended(named.spec_advance(Reply::Span(Ok(None))), Err(Errno::EFAULT))
            &&& flags > 1 ==> ended(asked, Err(Errno::EINVAL))
            &&& flags == 0 ==> {
                &&& asked.spec_step() == (Step::Sleep { plan: SleepPlan::For(d) })
                &&& sleep_ends(asked, remain, left, true)
            }
            &&& flags == 1 ==> match clock {
                ClockId::Other => ended(asked, Err(Errno::EINVAL)),
                ClockId::Monotonic | ClockId::MonotonicCoarse => {
                    &&& asked.spec_step() == (Step::Sleep {
                        plan: SleepPlan::Until(Deadline::FromBoot(d)),
                    })
                    &&& sleep_ends(asked, remain, left, false)
                },
                ClockId::RealTime => {
                    let ahead = (d.secs * 1_000_000_000 + d.nanos) - (now.secs * 1_000_000_000
                        + now.nanos);
                    &&& asked.spec_step() == (Step::Now { since: Since::Epoch })
                    &&& world.spec_step() matches Step::Sleep {
                        plan: SleepPlan::Until(Deadline::FromNow(away)),
                    }
                    &&& away.secs * 1_000_000_000 + away.nanos == (if ahead > 0 {
                        ahead
                    } else {
                        0
                    })
                    &&& sleep_ends(world, remain, left, false)
                },
            }
        }),
{
}

/// Threads are woken, or waited with, at the futex that was named, and no longer than was asked for. The
/// number of those woken is told; a wait tells nothing but that it ended.
pub proof fn law_futexes_are_waited_for(
    task: Task,
    limits: ResourceLimits,
    handlers: Seq<Handler>,
    addr: u64,
    val: u32,
    count: u32,
    flags: u32,
    timeout: u64,
    bitmask: u32,
    d: Duration,
    now: Duration,
    v: u64,
    e: Errno,
)
    requires
        d.nanos < 1_000_000_000,
        now.nanos < 1_000_000_000,
    ensures
        ({
            let wake = first_phase(
                task,
                limits,
                handlers,
                SyscallRequest::Futex { args: FutexRequest::Wake { addr, count } },
            );
            if count == 0 {
                ended(wake, Ok(0))
            } else {
                &&& wake.spec_step() == (Step::Futex { plan: FutexPlan::Wake { addr, count } })
                &&& ended(wake.spec_advance(Reply::Value(Ok(v))), Ok(v))
                &&& ended(wake.spec_advance(Reply::Value(Err(e))), Err(e))
            }
        }),
        ({
            let call = first_phase(
                task,
                limits,
                handlers,
                SyscallRequest::Futex { args: FutexRequest::Wait { addr, val, timeout } },
            );
            let timed = call.spec_advance(Reply::Span(Ok(Some(d))));
            let endless = call.spec_advance(Reply::Span(Ok(None)));
            &&& call.spec_step() == (Step::ReadTime { addr: timeout })
            &&& ended(call.spec_advance(Reply::Span(Err(e))), Err(e))
            &&& timed.spec_step() == (Step::Futex {
                plan: FutexPlan::WaitFor { addr, val, timeout: Some(d) },
            })
            &&& endless.spec_step() == (Step::Futex {
                plan: FutexPlan::WaitFor { addr, val, timeout: None },
            })
            &&& ended(timed.spec_advance(Reply::Value(Ok(v))), Ok(0))
            &&& ended(timed.spec_advance(Reply::Value(Err(e))), Err(e))
            &&& ended(endless.spec_advance(Reply::Value(Ok(v))), Ok(0))
            &&& ended(endless.spec_advance(Reply::Value(Err(e))), Err(e))
        }),
        ({
            let call = first_phase(
                task,
                limits,
                handlers,
                SyscallRequest::Futex {
                    args: FutexRequest::WaitBitset { addr, flags, val, timeout, bitmask },
                },
            );
            let bits = if bitmask == 0 {
                None
            } else {
                Some(bitmask)
            };
            let timed = call.spec_advance(Reply::Span(Ok(Some(d))));
            let endless = call.spec_advance(Reply::Span(Ok(None)));
            let world = timed.spec_advance(Reply::Time(now));
            let ahead = (d.secs * 1_000_000_000 + d.nanos) - (now.secs * 1_000_000_000 + now.nanos);
            &&& call.spec_step() == (Step::ReadTime { addr: timeout })
            &&& ended(call.spec_advance(Reply::Span(Err(e))), Err(e))
            &&& endless.spec_step() == (Step::Futex {
                plan: FutexPlan::WaitUntil { addr, val, deadline: None, bitmask: bits },
            })
            &&& ended(endless.spec_advance(Reply::Value(Ok(v))), Ok(0))
            &&& ended(endless.spec_advance(Reply::Value(Err(e))), Err(e))
            &&& if flags & 0x100 == 0 {
                &&& timed.spec_step() == (Step::Futex {
                    plan: FutexPlan::WaitUntil {
                        addr,
                        val,
                        deadline: Some(Deadline::FromBoot(d)),
                        bitmask: bits,
                    },
                })
                &&& ended(timed.spec_advance(Reply::Value(Ok(v))), Ok(0))
                &&& ended(timed.spec_advance(Reply::Value(Err(e))), Err(e))
            } else {
                &&& timed.spec_step() == (Step::Now { since: Since::Epoch })
                &&& world.spec_step() matches Step::Futex {
                    plan: FutexPlan::WaitUntil {
                        addr: a,
                        val: x,
                        deadline: Some(Deadline::FromNow(away)),
                        bitmask: b,
                    },
                }
                &&& a == addr && x == val && b == bits
                &&& away.secs * 1_000_000_000 + away.nanos == (if ahead > 0 {
                    ahead
                } else {
                    0
                })
                &&& ended(world.spec_advance(Reply::Value(Ok(v))), Ok(0))
                &&& ended(world.spec_advance(Reply::Value(Err(e))), Err(e))
            }
        }),
{
}

/// A thread is cloned with the arguments that were given, or that were read from where the guest has them,
/// and its number is told.
pub proof fn law_clones_take_their_arguments(
    task: Task,
    limits: ResourceLimits,
    handlers: Seq<Handler>,
    args: CloneArgs,
    at: u64,
    v: Result<u64, Errno>,
)
    ensures
        ({
            let call = first_phase(task, limits, handlers, SyscallRequest::Clone { args });
            &&& call.spec_step() == (Step::Clone { args, clone3: false })
            &&& ended(call.spec_advance(Reply::Value(v)), v)
        }),
        ({
            let call = first_phase(task, limits, handlers, SyscallRequest::Clone3 { args: at });
            let clone = call.spec_advance(Reply::Record(Some(Record::Clone(args))));
            &&& call.spec_step() matches Step::Fetch { addr, purpose: Purpose::Clone }
            &&& addr == at
            &&& ended(call.spec_advance(Reply::Record(None)), Err(Errno::EFAULT))
            &&& clone.spec_step() == (Step::Clone { args, clone3: true })
            &&& ended(clone.spec_advance(Reply::Value(v)), v)
        }),
{
}

/// The limits on open files and on the stack are told, and those of no other resource.
pub proof fn law_limits_are_told(
    task: Task,
    limits: ResourceLimits,
    handlers: Seq<Handler>,
    resource: RlimitResource,
    rlim: u64,
    old_limit: Option<u64>,
)
    ensures
        ({
            let get = first_phase(
                task,
                limits,
                handlers,
                SyscallRequest::Getrlimit { resource, rlim },
            );
            let told = first_phase(
                task,
                limits,
                handlers,
                SyscallRequest::Prlimit { pid: 0, resource, new_limit: None, old_limit },
            );
            let record = Record::Limit(limits.limit(resource));
            if resource is NOFILE || resource is STACK {
                &&& written_then(
                    get,
                    Some(rlim),
                    record,
                    Errno::EINVAL,
                    |p: Phase| ended(p, Ok(0)),
                )
                &&& written_then(
                    told,
                    old_limit,
                    record,
                    Errno::EINVAL,
                    |p: Phase| ended(p, Ok(0)),
                )
            } else {
                ended(get, Err(Errno::EINVAL)) && ended(told, Err(Errno::EINVAL))
            }
        }),
{
}

/// A limit on open files was read from the guest: it cannot be crossed by the one in force, and not raised.
/// Otherwise the highest descriptor follows it, the limit before is written where it is wanted, and the
/// result is zero.
pub open spec fn limit_is_set(
    read: Phase,
    limits: ResourceLimits,
    handlers: Seq<Handler>,
    new: Rlimit,
    old: Option<u64>,
) -> bool {
    &&& read.spec_step() matches Step::Apply { change }
    &&& change == (Change::Limit { resource: RlimitResource::NOFILE, new, old })
    &&& ({
        let made = read.spec_advance(applied_reply(limits, handlers, change));
        let before = limits.limit(RlimitResource::NOFILE);
        if new.rlim_cur > new.rlim_max {
            ended(made, Err(Errno::EINVAL))
        } else if new.rlim_max > before.rlim_max || new.rlim_max > 1024 * 1024 {
            ended(made, Err(Errno::EPERM))
        } else {
            &&& made.spec_step() matches Step::SetMaxFd { max_fd }
            &&& max_fd + 1 == new.rlim_cur || (max_fd == 0 && new.rlim_cur == 0)
            &&& written_then(
                made.spec_advance(Reply::Worked(true)),
                old,
                Record::Limit(before),
                Errno::EINVAL,
                |p: Phase| ended(p, Ok(0)),
            )
        }
    })
}

/// A limit on open files that the guest sets is read from where the guest has it, checked, and then in
/// force.
pub proof fn law_limits_are_set(
    task: Task,
    limits: ResourceLimits,
    handlers: Seq<Handler>,
    at: u64,
    new: Rlimit,
    old_limit: Option<u64>,
)
    ensures
        ({
            let call = first_phase(
                task,
                limits,
                handlers,
                SyscallRequest::Setrlimit { resource: RlimitResource::NOFILE, rlim: at },
            );
            &&& call.spec_step() matches Step::Fetch { addr, purpose: Purpose::Limit { .. } }
            &&& addr == at
            &&& ended(call.spec_advance(Reply::Record(None)), Err(Errno::EFAULT))
            &&& limit_is_set(
                call.spec_advance(Reply::Record(Some(Record::Limit(new)))),
                limits,
                handlers,
                new,
                None,
            )
        }),
        ({
            let call = first_phase(
                task,
                limits,
                handlers,
                SyscallRequest::Prlimit {
                    pid: 0,
                    resource: RlimitResource::NOFILE,
                    new_limit: Some(at),
                    old_limit,
                },
            );
            &&& call.spec_step() matches Step::Fetch { addr, purpose: Purpose::Limit { .. } }
            &&& addr == at
            &&& ended(call.spec_advance(Reply::Record(None)), Err(Errno::EINVAL))
            &&& limit_is_set(
                call.spec_advance(Reply::Record(Some(Record::Limit(new)))),
                limits,
                handlers,
                new,
                old_limit,
            )
        }),
{
}

/// The signals that were blocked are written before any change is made; then those of the set are blocked
/// too, or no longer, or they alone are.
pub proof fn law_masks_are_changed(
    task: Task,
    limits: ResourceLimits,
    handlers: Seq<Handler>,
    how: SigmaskHow,
    at: u64,
    oldset: Option<u64>,
    sigsetsize: u64,
    set: SigSet,
)
    ensures
        ({
            let look = first_phase(
                task,
                limits,
                handlers,
                SyscallRequest::RtSigprocmask { how, set: None, oldset, sigsetsize },
            );
            let call = first_phase(
                task,
                limits,
                handlers,
                SyscallRequest::RtSigprocmask { how, set: Some(at), oldset, sigsetsize },
            );
            let blocked = task.signals.blocked;
            if sigsetsize != 8 {
                ended(look, Err(Errno::EINVAL)) && ended(call, Err(Errno::EINVAL))
            } else {
                &&& written_then(
                    look,
                    oldset,
                    Record::Mask(blocked),
                    Errno::EFAULT,
                    |p: Phase| ended(p, Ok(0)),
                )
                &&& call.spec_step() matches Step::Fetch { addr, purpose: Purpose::Mask { .. } }
                &&& addr == at
                &&& ended(call.spec_advance(Reply::Record(None)), Err(Errno::EFAULT))
                &&& written_then(
                    call.spec_advance(Reply::Record(Some(Record::Mask(set)))),
                    oldset,
                    Record::Mask(blocked),
                    Errno::EFAULT,
                    |p: Phase|
                        {
                            &&& p.spec_step() matches Step::Apply {
                                change: Change::Mask { blocked: now },
                            }
                            &&& forall|n: int| #[trigger]
                                now.has(n) == (match how {
                                    SigmaskHow::Block => blocked.has(n) || set.has(n),
                                    SigmaskHow::Unblock => blocked.has(n) && !set.has(n),
                                    SigmaskHow::SetMask => set.has(n),
                                })
                            &&& ended(p.spec_advance(Reply::Applied(Ok(()))), Ok(0))
                        },
                )
            }
        }),
{
    let blocked = task.signals.blocked;
    assert forall|n: int| #[trigger] masked(how, blocked, set).has(n) == (match how {
        SigmaskHow::Block => blocked.has(n) || set.has(n),
        SigmaskHow::Unblock => blocked.has(n) && !set.has(n),
        SigmaskHow::SetMask => set.has(n),
    }) by {
        law_masked_signals(how, blocked, set, n);
    }
}

/// The action of a signal is changed to the one that the guest has, and the one before is written. Those of
/// `SIGKILL` and `SIGSTOP`, and one that was fixed, stay and are not told.
pub proof fn law_actions_are_changed(
    task: Task,
    limits: ResourceLimits,
    handlers: Seq<Handler>,
    signum: u32,
    at: u64,
    oldact: Option<u64>,
    sigsetsize: u64,
    action: SigAction,
)
    requires
        1 <= signum <= 64,
        handlers.len() == 64,
    ensures
        ({
            let look = first_phase(
                task,
                limits,
                handlers,
                SyscallRequest::RtSigaction { signum, act: None, oldact, sigsetsize },
            );
            let call = first_phase(
                task,
                limits,
                handlers,
                SyscallRequest::RtSigaction { signum, act: Some(at), oldact, sigsetsize },
            );
            let before = handlers[signum - 1];
            if signum == 9 || signum == 19 || sigsetsize != 8 {
                ended(look, Err(Errno::EINVAL)) && ended(call, Err(Errno::EINVAL))
            } else {
                let read = call.spec_advance(Reply::Record(Some(Record::Action(action))));
                &&& call.spec_step() matches Step::Fetch { addr, purpose: Purpose::Action { .. } }
                &&& addr == at
                &&& ended(call.spec_advance(Reply::Record(None)), Err(Errno::EFAULT))
                &&& read.spec_step() matches Step::Apply { change }
                &&& change == (Change::Action { signal: signum, action, old: oldact })
                &&& ({
                    let made = read.spec_advance(applied_reply(limits, handlers, change));
                    if before.immutable {
                        ended(look, Err(Errno::EINVAL)) && ended(made, Err(Errno::EINVAL))
                    } else {
                        let told = |p: Phase| ended(p, Ok(0));
                        let record = Record::Action(before.action);
                        &&& written_then(look, oldact, record, Errno::EFAULT, told)
                        &&& written_then(made, oldact, record, Errno::EFAULT, told)
                    }
                })
            }
        }),
{
}

/// The alternate stack is written as it is, marked if the caller runs on it. It can be changed only if it is
/// not, and only to one that is large enough and ends somewhere, or to none.
pub proof fn law_alternate_stacks_are_changed(
    task: Task,
    limits: ResourceLimits,
    handlers: Seq<Handler>,
    at: u64,
    old_ss: Option<u64>,
    sp: u64,
    ss: SigAltStack,
)
    ensures
        ({
            let stack = task.signals.altstack;
            let on_it = stack.flags & 2 == 0 && stack.sp <= sp < stack.sp + stack.size;
            let seen = Record::Stack(
                SigAltStack {
                    flags: if on_it {
                        stack.flags | 1
                    } else {
                        stack.flags
                    },
                    ..stack
                },
            );
            let look = first_phase(
                task,
                limits,
                handlers,
                SyscallRequest::Sigaltstack { ss: None, old_ss, sp },
            );
            let call = first_phase(
                task,
                limits,
                handlers,
                SyscallRequest::Sigaltstack { ss: Some(at), old_ss, sp },
            );
            &&& written_then(look, old_ss, seen, Errno::EFAULT, |p: Phase| ended(p, Ok(0)))
            &&& written_then(
                call,
                old_ss,
                seen,
                Errno::EFAULT,
                |p: Phase|
                    if on_it {
                        ended(p, Err(Errno::EPERM))
                    } else {
                        let read = p.spec_advance(Reply::Record(Some(Record::Stack(ss))));
                        let change = Change::Stack { stack: ss };
                        let made = read.spec_advance(applied_reply(limits, handlers, change));
                        &&& p.spec_step() matches Step::Fetch { addr, purpose: Purpose::Stack }
                        &&& addr == at
                        &&& ended(p.spec_advance(Reply::Record(None)), Err(Errno::EFAULT))
                        &&& read.spec_step() == (Step::Apply { change })
                        &&& if ss.flags & !0x8000_0003u32 != 0 {
                            ended(made, Err(Errno::EINVAL))
                        } else if ss.flags & 2 != 0 {
                            ended(made, Ok(0))
                        } else if ss.sp + ss.size > 0xffff_ffff_ffff_ffff {
                            ended(made, Err(Errno::EINVAL))
                        } else if ss.size < 2048 {
                            ended(made, Err(Errno::ENOMEM))
                        } else {
                            ended(made, Ok(0))
                        }
                    },
            )
        }),
{
    assert(!(2u32 | 1u32 | 0x8000_0000u32) == !0x8000_0003u32) by (bit_vector);
}

/// A return from a handler reads its frame, takes what the frame kept, and then restores the registers; what
/// the platform makes of them is the result. Without a frame the call fails.
pub proof fn law_return_from_handler(
    task: Task,
    limits: ResourceLimits,
    handlers: Seq<Handler>,
    stack: SigAltStack,
    mask: SigSet,
    v: Result<u64, Errno>,
)
    ensures
        ({
            let call = first_phase(task, limits, handlers, SyscallRequest::RtSigreturn);
            let kept = call.spec_advance(Reply::Frame(Some((stack, mask))));
            let lost = call.spec_advance(Reply::Frame(None));
            let change = Change::Return { frame: Some((stack, mask)) };
            let restore = kept.spec_advance(applied_reply(limits, handlers, change));
            &&& call.spec_step() == Step::ReadFrame
            &&& kept.spec_step() == (Step::Apply { change })
            &&& restore.spec_step() == Step::RestoreContext
            &&& ended(restore.spec_advance(Reply::Value(v)), v)
            &&& lost.spec_step() == (Step::Apply { change: Change::Return { frame: None } })
            &&& ended(
                lost.spec_advance(
                    applied_reply(limits, handlers, Change::Return { frame: None }),
                ),
                Err(Errno::EFAULT),
            )
        }),
{
}

/// What a change of a task comes to: a name, a mask, an alternate stack or an action is what was asked for
/// afterwards, and a limit too, unless it was refused; nothing else of the task, of its process or of its
/// handlers is touched.
pub proof fn law_changes_are_made(
    change: Change,
    task: Task,
    process: ProcessModel,
    handlers: Seq<Handler>,
    task_after: Task,
    process_after: ProcessModel,
    handlers_after: Seq<Handler>,
)
    requires
        handlers.len() == 64,
        is_applied(
            change,
            task,
            process,
            handlers,
            task_after,
            process_after,
            handlers_after,
        ),
    ensures
        task_after.pid == task.pid && task_after.ppid == task.ppid && task_after.tid == task.tid,
        task_after.credentials == task.credentials,
        task_after.thread == task.thread,
        process_after.threads == process.threads,
        process_after.group_exit == process.group_exit && process_after.killing == process.killing,
        process_after.exit_status == process.exit_status,
        match change {
            Change::Name { comm } => task_after.comm == comm,
            _ => task_after.comm == task.comm,
        },
        match change {
            Change::Mask { blocked } => task_after.signals.blocked == blocked,
            Change::Return { frame: Some((_, mask)) } => task_after.signals.blocked == mask,
            Change::Return { frame: None } => forall|n: int|
                n != 11 ==> #[trigger] task_after.signals.blocked.has(n) == task.signals.blocked.has(n),
            _ => task_after.signals.blocked == task.signals.blocked,
        },
        match change {
            Change::Return { frame: None } => queued(task_after.signals.pending@, 11),
            _ => task_after.signals.pending@ == task.signals.pending@,
        },
        match change {
            Change::Stack { stack } | Change::Return { frame: Some((stack, _)) } => {
                let given = stack.flags & !0x8000_0003u32 == 0 && stack.flags & 2 == 0 && stack.sp
                    + stack.size <= 0xffff_ffff_ffff_ffff && stack.size >= 2048;
                if given {
                    task_after.signals.altstack == (SigAltStack {
                        sp: stack.sp,
                        flags: stack.flags & 0x8000_0000u32,
                        size: stack.size,
                    })
                } else if stack.flags & !0x8000_0003u32 == 0 && stack.flags & 2 != 0 {
                    task_after.signals.altstack == (SigAltStack { sp: 0, flags: 2, size: 0 })
                } else {
                    task_after.signals.altstack == task.signals.altstack
                }
            },
            _ => task_after.signals.altstack == task.signals.altstack,
        },
        match change {
            Change::Action { signal, action, .. } if 1 <= signal <= 64 => {
                let fixed = signal == 9 || signal == 19 || handlers[signal - 1].immutable;
                forall|n: int|
                    1 <= n <= 64 ==> #[trigger] handlers_after[n - 1] == (if n == signal && !fixed {
                        Handler { action, immutable: false }
                    } else {
                        handlers[n - 1]
                    })
            },
            Change::Return { frame: None } => forall|n: int|
                1 <= n <= 64 && n != 11 ==> #[trigger] handlers_after[n - 1] == handlers[n - 1],
            Change::Action { .. } => true,
            _ => handlers_after == handlers,
        },
        match change {
            Change::Limit { resource: RlimitResource::NOFILE, new, .. } => {
                let before = process.limits.limit(RlimitResource::NOFILE);
                process_after.limits.limit(RlimitResource::NOFILE) == (if new.rlim_cur <= new.rlim_max
                    && new.rlim_max <= before.rlim_max && new.rlim_max <= 1024 * 1024 {
                    new
                } else {
                    before
                })
            },
            Change::Limit { .. } => true,
            _ => process_after.limits == process.limits,
        },
        change matches Change::Limit { resource, .. } ==> forall|other: RlimitResource|
            other != resource ==> #[trigger] process_after.limits.limit(other) == process.limits.limit(
                other,
            ),
{
    assert(!(2u32 | 1u32 | 0x8000_0000u32) == !0x8000_0003u32) by (bit_vector);
    if change is Return {
        law_sent_signals_wait(
            task.signals.pending@,
            process.limits.sigpending(),
            kernel_signal(SIGSEGV),
        );
    }
}

} // verus!
