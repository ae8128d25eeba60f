//! What running another program reads, in which order, and what it leaves of the old one.
use vstd::prelude::*;
use vstd::utf8::{decode_utf8, encode_utf8, valid_utf8};

use crate::bytes::first_nul;
use crate::errno::Errno;
use crate::shim::entry::{fds_to_close, OpenFd};
use crate::shim::execve::{exec_action, ExecAction, ExecModel};
use crate::shim::shebang::{
    first_line, interpreter_args, is_c_string, is_separator, is_white_space, shebang_of, trimmed,
    word_len, ShebangModel,
};
use crate::shim::task::{comm_of, copy_vector, total_bytes, GuestStrings, VectorModel};

verus! {

/// A call with a path that cannot be read fails, and so does one with a path that is no text;
/// otherwise the pointers of the arguments are read next, where there are arguments.
pub proof fn law_exec_reads_path_first(argv: u64, envp: u64, path: Option<Seq<u8>>)
    ensures
        ({
            let m = ExecModel::Path { argv, envp };
            let next = exec_action(m.path_read(path));
            &&& exec_action(m) == Some(ExecAction::ReadPath)
            &&& path is None ==> next == Some(ExecAction::Done { result: Err(Errno::EFAULT) })
            &&& path matches Some(bytes) ==> {
                &&& !valid_utf8(bytes) ==> next == Some(
                    ExecAction::Done { result: Err(Errno::ENOENT) },
                )
                &&& valid_utf8(bytes) && argv != 0 ==> next == Some(
                    ExecAction::ReadPointer { at: argv },
                )
                &&& valid_utf8(bytes) && argv == 0 && envp != 0 ==> next == Some(
                    ExecAction::ReadPointer { at: envp },
                )
                &&& valid_utf8(bytes) && argv == 0 && envp == 0 ==> next == Some(
                    ExecAction::ReadHeader,
                )
            }
        }),
{
}

/// The sizes of the strings with their terminators.
pub open spec fn bytes_with_ends(strings: Seq<Seq<u8>>) -> int
    decreases strings.len(),
{
    if strings.len() == 0 {
        0
    } else {
        strings[0].len() + 1 + bytes_with_ends(strings.drop_first())
    }
}

/// The two ways to count agree.
proof fn lemma_total_bytes(strings: Seq<Seq<u8>>)
    ensures
        total_bytes(strings) == bytes_with_ends(strings),
    decreases strings.len(),
{
    if strings.len() == 1 {
        assert(strings.drop_last() =~= Seq::empty());
        assert(strings.drop_first() =~= Seq::empty());
        assert(total_bytes(strings.drop_last()) == 0);
        assert(bytes_with_ends(strings.drop_first()) == 0);
    } else if strings.len() > 1 {
        let most = strings.drop_last();
        lemma_total_bytes(most);
        lemma_total_bytes(strings.drop_first());
        lemma_total_bytes(most.drop_first());
        assert(strings.drop_first().drop_last() =~= most.drop_first());
        assert(strings.drop_first().last() == strings.last());
        assert(most[0] == strings[0]);
        assert(bytes_with_ends(most) == strings[0].len() + 1 + bytes_with_ends(most.drop_first()));
        assert(total_bytes(strings.drop_first()) == total_bytes(most.drop_first())
            + strings.last().len() + 1);
    }
}

/// Fewer strings have fewer bytes.
proof fn lemma_fewer_bytes(strings: Seq<Seq<u8>>, n: int)
    requires
        0 <= n <= strings.len(),
    ensures
        0 <= total_bytes(strings.take(n)) <= total_bytes(strings),
    decreases strings.len(),
{
    if n == strings.len() {
        assert(strings.take(n) =~= strings);
        if n > 0 {
            lemma_fewer_bytes(strings.drop_last(), n - 1);
        }
    } else {
        assert(strings.drop_last().take(n) =~= strings.take(n));
        lemma_fewer_bytes(strings.drop_last(), n);
    }
}

/// Copying goes on with the strings behind those that are copied.
proof fn lemma_copy_goes_on(
    start: u64,
    strings: Seq<Seq<u8>>,
    memory: GuestStrings,
    done: int,
    fuel: nat,
)
    requires
        0 <= done <= strings.len() < 4096,
        start + 8 * strings.len() <= u64::MAX,
        fuel > strings.len() - done,
        total_bytes(strings) <= 262144,
        forall|i: int|
            0 <= i < strings.len() ==> (#[trigger] (memory.pointers)((start + 8 * i) as u64) matches Some(
                at,
            ) && at != 0 && (memory.texts)(at) == Some(strings[i])),
        (memory.pointers)((start + 8 * strings.len()) as u64) == Some(0u64),
    ensures
        copy_vector(
            VectorModel::Pointer { base: (start + 8 * done) as u64, strings: strings.take(done) },
            memory,
            fuel,
        ) == VectorModel::Done(strings),
    decreases strings.len() - done,
{
    let base = (start + 8 * done) as u64;
    let state = VectorModel::Pointer { base, strings: strings.take(done) };
    if done == strings.len() {
        assert(strings.take(done) =~= strings);
    } else {
        let at = (memory.pointers)((start + 8 * done) as u64)->Some_0;
        assert(strings.take(done).push(strings[done]) =~= strings.take(done + 1));
        lemma_fewer_bytes(strings, done + 1);
        let next = state.pointer_read((memory.pointers)(base));
        assert(next == (VectorModel::Text { base, strings: strings.take(done), at }));
        assert(next.text_read((memory.texts)(at)) == (VectorModel::Pointer {
            base: (start + 8 * (done + 1)) as u64,
            strings: strings.take(done + 1),
        }));
        lemma_copy_goes_on(start, strings, memory, done + 1, (fuel - 1) as nat);
    }
}

/// Strings that pointers of eight bytes name, one behind the other up to a zero pointer, are copied
/// as they are, where they have less than 4096 entries and at most 262144 bytes.
pub proof fn law_vectors_are_copied(start: u64, strings: Seq<Seq<u8>>, memory: GuestStrings)
    requires
        start != 0,
        strings.len() < 4096,
        start + 8 * strings.len() <= u64::MAX,
        bytes_with_ends(strings) <= 262144,
        forall|i: int|
            0 <= i < strings.len() ==> (#[trigger] (memory.pointers)((start + 8 * i) as u64) matches Some(
                at,
            ) && at != 0 && (memory.texts)(at) == Some(strings[i])),
        (memory.pointers)((start + 8 * strings.len()) as u64) == Some(0u64),
    ensures
        copy_vector(VectorModel::start(start), memory, 4096) == VectorModel::Done(strings),
        copy_vector(VectorModel::start(0), memory, 4096) == VectorModel::Done(
            Seq::<Seq<u8>>::empty(),
        ),
{
    lemma_total_bytes(strings);
    assert(strings.take(0) =~= Seq::empty());
    lemma_copy_goes_on(start, strings, memory, 0, 4096);
}

/// A pointer or a string that cannot be read ends a copy, and so do too many bytes. Copying ends
/// after 4096 strings.
pub proof fn law_copies_end(base: u64, strings: Seq<Seq<u8>>, at: u64, text: Seq<u8>)
    ensures
        (VectorModel::Pointer { base, strings }).pointer_read(None) == VectorModel::Failed(
            Errno::EFAULT,
        ),
        (VectorModel::Text { base, strings, at }).text_read(None) == VectorModel::Failed(
            Errno::EFAULT,
        ),
        bytes_with_ends(strings) + text.len() + 1 > 262144 ==> (VectorModel::Text {
            base,
            strings,
            at,
        }).text_read(Some(text)) == VectorModel::Failed(Errno::E2BIG),
        bytes_with_ends(strings) + text.len() + 1 <= 262144 && strings.len() + 1 == 4096 ==> (
        VectorModel::Text { base, strings, at }).text_read(Some(text)) == VectorModel::Done(
            strings.push(text),
        ),
{
    lemma_total_bytes(strings);
    assert(strings.push(text).drop_last() =~= strings);
}

/// Once the program is open the other threads are waited for, then descriptors are closed, memory is
/// released, and the program is loaded with the arguments and the environment of the call. A program
/// that cannot be opened ends the call, and so does a thread that is to end itself.
pub proof fn law_exec_steps(
    path: Seq<char>,
    argv: Seq<Seq<u8>>,
    envp: Seq<Seq<u8>>,
    robust_list: Option<u64>,
    error: Errno,
)
    ensures
        ({
            let open = ExecModel::Open { path, argv, envp };
            let threads = open.opened(Ok(()), true);
            let close = threads.thread_left(true);
            let release = close.closed(robust_list);
            let load = release.released();
            &&& exec_action(open) == Some(ExecAction::OpenProgram)
            &&& exec_action(open.opened(Err(error), true)) == Some(
                ExecAction::Done { result: Err(error) },
            )
            &&& exec_action(open.opened(Err(error), false)) == Some(
                ExecAction::Done { result: Err(error) },
            )
            &&& exec_action(open.opened(Ok(()), false)) == Some(
                ExecAction::Done { result: Err(Errno::EBUSY) },
            )
            &&& exec_action(threads) == Some(ExecAction::WaitForThread)
            &&& exec_action(threads.thread_left(false)) == Some(ExecAction::WaitForThread)
            &&& threads.thread_left(false).thread_left(true) == close
            &&& exec_action(close) == Some(ExecAction::CloseDescriptors)
            &&& exec_action(release) == Some(ExecAction::ReleaseMemory { robust_list })
            &&& exec_action(load) == Some(ExecAction::LoadProgram)
            &&& load matches ExecModel::Load { argv: args, envp: env } && args == argv && env == envp
            &&& exec_action(load.loaded()) == Some(ExecAction::Done { result: Ok(0) })
        }),
{
}

/// The descriptors that are closed when another program is run are those that are marked for it, each
/// once, in their order.
pub proof fn law_marked_descriptors_are_closed(fds: Seq<OpenFd>, more: OpenFd)
    ensures
        fds_to_close(Seq::<OpenFd>::empty()).len() == 0,
        more.close_on_exec == Some(true) ==> fds_to_close(fds.push(more)) == fds_to_close(fds).push(
            more.fd,
        ),
        more.close_on_exec != Some(true) ==> fds_to_close(fds.push(more)) == fds_to_close(fds),
{
    assert(fds.push(more).drop_last() =~= fds);
}

/// The first line of a file ends before the first line feed, or with the file.
proof fn lemma_first_line(bytes: Seq<u8>, n: int)
    requires
        0 <= n <= bytes.len(),
        forall|i: int| 0 <= i < n ==> #[trigger] bytes[i] != 10,
        n == bytes.len() || bytes[n] == 10,
    ensures
        first_line(bytes) == bytes.take(n),
    decreases n,
{
    if n == 0 {
        assert(bytes.take(n) =~= Seq::empty());
    } else {
        let rest = bytes.skip(1);
        assert(bytes[0] != 10);
        assert forall|i: int| 0 <= i < n - 1 implies #[trigger] rest[i] != 10 by {
            assert(rest[i] == bytes[i + 1]);
        }
        lemma_first_line(rest, n - 1);
        assert(bytes.take(n) =~= seq![bytes[0]] + rest.take(n - 1));
    }
}

/// What is white space at both ends is cut off.
proof fn lemma_trimmed(lead: Seq<char>, core: Seq<char>, tail: Seq<char>)
    requires
        forall|i: int| 0 <= i < lead.len() ==> is_white_space(#[trigger] lead[i]),
        forall|i: int| 0 <= i < tail.len() ==> is_white_space(#[trigger] tail[i]),
        core.len() > 0 ==> !is_white_space(core[0]) && !is_white_space(core.last()),
    ensures
        trimmed(lead + core + tail) == core,
    decreases lead.len() + tail.len(),
{
    let s = lead + core + tail;
    if lead.len() > 0 {
        assert(s[0] == lead[0]);
        let rest = lead.skip(1);
        assert forall|i: int| 0 <= i < rest.len() implies is_white_space(#[trigger] rest[i]) by {
            assert(rest[i] == lead[i + 1]);
        }
        lemma_trimmed(rest, core, tail);
        assert(s.skip(1) =~= rest + core + tail);
    } else if core.len() == 0 && tail.len() > 0 {
        assert(s[0] == tail[0]);
        let rest = tail.skip(1);
        assert forall|i: int| 0 <= i < rest.len() implies is_white_space(#[trigger] rest[i]) by {
            assert(rest[i] == tail[i + 1]);
        }
        lemma_trimmed(lead, core, rest);
        assert(s.skip(1) =~= lead + core + rest);
    } else if tail.len() > 0 {
        assert(s[0] == core[0]);
        assert(s.last() == tail.last());
        assert(is_white_space(tail[tail.len() - 1]));
        let rest = tail.drop_last();
        assert forall|i: int| 0 <= i < rest.len() implies is_white_space(#[trigger] rest[i]) by {
            assert(rest[i] == tail[i]);
        }
        lemma_trimmed(lead, core, rest);
        assert(s.drop_last() =~= lead + core + rest);
    } else {
        assert(s =~= core);
    }
}

/// A word ends before the first separator, or with the line.
proof fn lemma_word_len(s: Seq<char>, n: int)
    requires
        0 <= n <= s.len(),
        forall|i: int| 0 <= i < n ==> !is_separator(#[trigger] s[i]),
        n == s.len() || is_separator(s[n]),
    ensures
        word_len(s) == n,
    decreases n,
{
    if n > 0 {
        let rest = s.skip(1);
        assert(!is_separator(s[0]));
        assert forall|i: int| 0 <= i < n - 1 implies !is_separator(#[trigger] rest[i]) by {
            assert(rest[i] == s[i + 1]);
        }
        lemma_word_len(rest, n - 1);
    }
}

/// The characters between words: blanks and tabs are separators, and like the other controls from tab
/// to carriage return they are white space.
pub proof fn law_white_space(c: char)
    ensures
        is_separator(c) <==> c as u32 == 0x20 || c as u32 == 0x09,
        is_separator(c) ==> is_white_space(c),
        (c as u32) < 0x80 ==> (is_white_space(c) <==> c as u32 == 0x20 || 0x09 <= c as u32 <= 0x0d),
{
}

/// A file whose first line is `#!`, a word and perhaps further text names an interpreter, the word,
/// and one argument, the whole of the text, where white space around the two does not count.
pub proof fn law_scripts_name_their_interpreter(
    buf: Seq<u8>,
    n: int,
    lead: Seq<char>,
    word: Seq<char>,
    gap: Seq<char>,
    arg: Seq<char>,
    tail: Seq<char>,
)
    requires
        0 <= n,
        2 + n <= buf.len(),
        buf[0] == 0x23,
        buf[1] == 0x21,
        forall|i: int| 2 <= i < 2 + n ==> #[trigger] buf[i] != 10,
        2 + n == buf.len() || buf[2 + n] == 10,
        valid_utf8(buf.subrange(2, 2 + n)),
        decode_utf8(buf.subrange(2, 2 + n)) == lead + (word + gap + arg) + tail,
        forall|i: int| 0 <= i < lead.len() ==> is_white_space(#[trigger] lead[i]),
        forall|i: int| 0 <= i < tail.len() ==> is_white_space(#[trigger] tail[i]),
        forall|i: int| 0 <= i < word.len() ==> !is_separator(#[trigger] word[i]),
        forall|i: int| 0 <= i < gap.len() ==> is_white_space(#[trigger] gap[i]),
        word.len() > 0 && !is_white_space(word[0]),
        arg.len() > 0 ==> gap.len() > 0 && is_separator(gap[0]) && !is_white_space(arg[0])
            && !is_white_space(arg.last()),
        arg.len() == 0 ==> gap.len() == 0 && !is_white_space(word.last()),
    ensures
        shebang_of(buf) == Some(
            (
                word,
                if arg.len() > 0 {
                    Some(arg)
                } else {
                    None
                },
            ),
        ),
{
    let text = buf.skip(2);
    assert forall|i: int| 0 <= i < n implies #[trigger] text[i] != 10 by {
        assert(text[i] == buf[2 + i]);
    }
    lemma_first_line(text, n);
    assert(text.take(n) =~= buf.subrange(2, 2 + n));
    let core = word + gap + arg;
    assert(core[0] == word[0]);
    if arg.len() > 0 {
        assert(core.last() == arg.last());
    } else {
        assert(core =~= word);
    }
    lemma_trimmed(lead, core, tail);
    assert forall|i: int| 0 <= i < word.len() implies !is_separator(#[trigger] core[i]) by {
        assert(core[i] == word[i]);
    }
    if arg.len() > 0 {
        assert(core[word.len() as int] == gap[0]);
    }
    lemma_word_len(core, word.len() as int);
    assert(core.take(word.len() as int) =~= word);
    assert(core.skip(word.len() as int) =~= gap + arg);
    lemma_trimmed(gap, arg, Seq::empty());
    assert(gap + arg + Seq::<char>::empty() =~= gap + arg);
}

/// A file is no script unless it begins with `#!`, has a text as its first line, and more than white
/// space in that.
pub proof fn law_other_files_are_no_scripts(buf: Seq<u8>, n: int)
    requires
        buf.len() >= 2 ==> {
            &&& 0 <= n
            &&& 2 + n <= buf.len()
            &&& forall|i: int| 2 <= i < 2 + n ==> #[trigger] buf[i] != 10
            &&& 2 + n == buf.len() || buf[2 + n] == 10
        },
        buf.len() < 2 || buf[0] != 0x23 || buf[1] != 0x21 || !valid_utf8(buf.subrange(2, 2 + n)) || (
        forall|i: int|
            0 <= i < decode_utf8(buf.subrange(2, 2 + n)).len() ==> is_white_space(
                #[trigger] decode_utf8(buf.subrange(2, 2 + n))[i],
            )),
    ensures
        shebang_of(buf) is None,
{
    if buf.len() >= 2 {
        let text = buf.skip(2);
        assert forall|i: int| 0 <= i < n implies #[trigger] text[i] != 10 by {
            assert(text[i] == buf[2 + i]);
        }
        lemma_first_line(text, n);
        assert(text.take(n) =~= buf.subrange(2, 2 + n));
        if valid_utf8(text.take(n)) && buf[0] == 0x23 && buf[1] == 0x21 {
            let line = decode_utf8(text.take(n));
            lemma_trimmed(line, Seq::empty(), Seq::empty());
            assert(line + Seq::<char>::empty() + Seq::<char>::empty() =~= line);
        }
    }
}

/// An interpreter gets its own name, its argument where it has one, the path of the script, and the
/// arguments of the call but the first.
pub proof fn law_interpreters_get_the_script(
    interp: Seq<char>,
    arg: Option<Seq<char>>,
    script: Seq<char>,
    argv: Seq<Seq<u8>>,
    i: int,
)
    ensures
        ({
            let args = interpreter_args(interp, arg, script, argv);
            let own: int = if arg is Some {
                3
            } else {
                2
            };
            let more: int = if argv.len() > 0 {
                argv.len() - 1
            } else {
                0
            };
            &&& args.len() == own + more
            &&& args[0] == encode_utf8(interp)
            &&& arg matches Some(a) ==> args[1] == encode_utf8(a)
            &&& args[own - 1] == encode_utf8(script)
            &&& 0 <= i < more ==> args[own + i] == argv[1 + i]
        }),
{
}

/// A text is a string of C if none of its bytes is zero.
pub proof fn law_c_strings(bytes: Seq<u8>)
    ensures
        is_c_string(bytes) <==> forall|i: int| 0 <= i < bytes.len() ==> #[trigger] bytes[i] != 0,
{
    lemma_no_nul(bytes, 0);
}

/// No byte is zero where no zero byte is found.
proof fn lemma_no_nul(bytes: Seq<u8>, from: int)
    requires
        0 <= from,
    ensures
        first_nul(bytes, from) is None <==> forall|i: int|
            from <= i < bytes.len() ==> #[trigger] bytes[i] != 0,
    decreases bytes.len() - from,
{
    if from < bytes.len() {
        lemma_no_nul(bytes, from + 1);
    }
}

/// The search for a program ends with a file that is no script, with the path and the arguments that
/// led to it. A script leads on to its interpreter, up to the sixth; names with a zero byte in them
/// do not. A file that cannot be read ends the search.
pub proof fn law_search_goes_through_scripts(
    path: Seq<char>,
    argv: Seq<Seq<u8>>,
    rounds: nat,
    header: Result<Seq<u8>, Errno>,
)
    ensures
        ({
            let next = (ShebangModel::Inspect { path, argv, rounds }).advance(header);
            &&& header matches Err(e) ==> next == ShebangModel::Failed(e)
            &&& header matches Ok(bytes) ==> {
                &&& shebang_of(bytes) is None ==> next == (ShebangModel::Found { path, argv })
                &&& shebang_of(bytes) matches Some((interp, arg)) ==> {
                    let names = is_c_string(encode_utf8(interp)) && is_c_string(encode_utf8(path))
                        && (arg is Some ==> is_c_string(encode_utf8(arg->Some_0)));
                    &&& !names ==> next == ShebangModel::Failed(Errno::EINVAL)
                    &&& names && rounds >= 5 ==> next == ShebangModel::Failed(Errno::ELOOP)
                    &&& names && rounds < 5 ==> next == (ShebangModel::Inspect {
                        path: interp,
                        argv: interpreter_args(interp, arg, path, argv),
                        rounds: rounds + 1,
                    })
                }
            }
        }),
{
}

/// The name of a task has sixteen bytes: the first fifteen of what it was given, and zeros.
pub proof fn law_names_are_cut(name: Seq<u8>, i: int)
    ensures
        comm_of(name).len() == 16,
        0 <= i < 15 && i < name.len() ==> comm_of(name)[i] == name[i],
        name.len() <= i < 16 || i == 15 ==> comm_of(name)[i] == 0,
{
}

} // verus!
