//! Scripts: `#!` lines and the chains of interpreters that they form.
use vstd::prelude::*;
use vstd::slice::slice_subrange;
use vstd::string::StrSliceExecFns;
use vstd::string::StringSliceAdditionalSpecFns;
use vstd::utf8::{decode_utf8, encode_utf8, valid_utf8};

use crate::bytes::{copy_bytes, find_nul, first_nul};
use crate::errno::Errno;

verus! {

/// How many interpreters a script may go through.
pub const SHEBANG_MAX_RECURSION: u32 = 6;

/// How much of a file is searched for a `#!` line.
pub const SHEBANG_MAX_LINE: usize = 256;

/// White space of Unicode.
pub open spec fn is_white_space(c: char) -> bool {
    let n = c as u32;
    ||| 0x09 <= n <= 0x0d
    ||| n == 0x20
    ||| n == 0x85
    ||| n == 0xa0
    ||| n == 0x1680
    ||| 0x2000 <= n <= 0x200a
    ||| n == 0x2028
    ||| n == 0x2029
    ||| n == 0x202f
    ||| n == 0x205f
    ||| n == 0x3000
}

/// The text without white space at its start and its end.
pub open spec fn trimmed(s: Seq<char>) -> Seq<char>
    decreases s.len(),
{
    if s.len() == 0 {
        s
    } else if is_white_space(s[0]) {
        trimmed(s.skip(1))
    } else if is_white_space(s.last()) {
        trimmed(s.drop_last())
    } else {
        s
    }
}

/// `core::str::from_utf8`: the text with these bytes, if they are UTF-8.
#[verifier::external_body]
fn text_from_utf8(bytes: &[u8]) -> (r: Option<&str>)
    ensures
        r is Some == valid_utf8(bytes@),
        r matches Some(s) ==> s@ == decode_utf8(bytes@),
{
    core::str::from_utf8(bytes).ok()
}

/// `str::trim`: the text without white space at its start and its end.
#[verifier::external_body]
fn trim(s: &str) -> (r: &str)
    ensures
        r@ == trimmed(s@),
{
    s.trim()
}

/// The first line: the bytes up to the first line feed.
pub open spec fn first_line(bytes: Seq<u8>) -> Seq<u8>
    decreases bytes.len(),
{
    if bytes.len() == 0 || bytes[0] == 10 {
        Seq::empty()
    } else {
        seq![bytes[0]] + first_line(bytes.skip(1))
    }
}

proof fn lemma_first_line(bytes: Seq<u8>, len: int)
    requires
        0 <= len <= bytes.len(),
        forall|i: int| 0 <= i < len ==> bytes[i] != 10,
        len == bytes.len() || bytes[len] == 10,
    ensures
        first_line(bytes) == bytes.take(len),
    decreases bytes.len(),
{
    if len == 0 {
        assert(first_line(bytes) =~= bytes.take(0));
    } else {
        let rest = bytes.skip(1);
        assert forall|i: int| 0 <= i < len - 1 implies rest[i] != 10 by {
            assert(bytes[i + 1] != 10);
        }
        lemma_first_line(rest, len - 1);
        assert(bytes.take(len) =~= seq![bytes[0]] + rest.take(len - 1));
    }
}

/// A blank or a tab.
pub open spec fn is_separator(c: char) -> bool {
    c == ' ' || c == '\t'
}

/// The length of the first word: what stands before the first blank or tab.
pub open spec fn word_len(s: Seq<char>) -> int
    decreases s.len(),
{
    if s.len() == 0 || is_separator(s[0]) {
        0
    } else {
        1 + word_len(s.skip(1))
    }
}

proof fn lemma_word_len(s: Seq<char>, len: int)
    requires
        0 <= len <= s.len(),
        forall|i: int| 0 <= i < len ==> !is_separator(s[i]),
        len == s.len() || is_separator(s[len]),
    ensures
        word_len(s) == len,
    decreases s.len(),
{
    if len > 0 {
        let rest = s.skip(1);
        assert forall|i: int| 0 <= i < len - 1 implies !is_separator(rest[i]) by {
            assert(!is_separator(s[i + 1]));
        }
        lemma_word_len(rest, len - 1);
    }
}

/// The interpreter and the argument of a `#!` line, where the bytes start with one: the interpreter is
/// the first word of the trimmed line, the argument is all that follows it, trimmed.
pub open spec fn shebang_of(buf: Seq<u8>) -> Option<(Seq<char>, Option<Seq<char>>)> {
    if buf.len() < 2 || buf[0] != 0x23 || buf[1] != 0x21 || !valid_utf8(first_line(buf.skip(2))) {
        None
    } else {
        let line = trimmed(decode_utf8(first_line(buf.skip(2))));
        let arg = trimmed(line.skip(word_len(line)));
        if line.len() == 0 {
            None
        } else if arg.len() == 0 {
            Some((line.take(word_len(line)), None))
        } else {
            Some((line.take(word_len(line)), Some(arg)))
        }
    }
}

/// Reads a `#!interpreter [optional-arg]` line from the start of a file.
pub fn parse_shebang(buf: &[u8]) -> (r: Option<(&str, Option<&str>)>)
    ensures
        match r {
            Some((interp, arg)) => shebang_of(buf@) == Some(
                (
                    interp@,
                    match arg {
                        Some(a) => Some(a@),
                        None => None,
                    },
                ),
            ),
            None => shebang_of(buf@) is None,
        },
{
    if buf.len() < 2 || buf[0] != 0x23 || buf[1] != 0x21 {
        return None;
    }
    let mut end: usize = 2;
    while end < buf.len() && buf[end] != 0x0a
        invariant
            2 <= end <= buf@.len(),
            forall|i: int| 2 <= i < end ==> buf@[i] != 10,
        decreases buf@.len() - end,
    {
        end = end + 1;
    }
    let bytes = slice_subrange(buf, 2, end);
    proof {
        let rest = buf@.skip(2);
        assert forall|i: int| 0 <= i < end - 2 implies rest[i] != 10 by {
            assert(buf@[i + 2] != 10);
        }
        lemma_first_line(rest, end - 2);
        assert(bytes@ =~= rest.take(end - 2));
    }
    let line = match text_from_utf8(bytes) {
        Some(line) => trim(line),
        None => return None,
    };
    let len: usize = line.unicode_len();
    if len == 0 {
        return None;
    }
    let mut word: usize = 0;
    let mut in_word: bool = true;
    while in_word && word < len
        invariant
            word <= len,
            len == line@.len(),
            forall|i: int| 0 <= i < word ==> !is_separator(line@[i]),
            !in_word ==> word < len && is_separator(line@[word as int]),
        decreases len - word + (if in_word { 1int } else { 0int }),
    {
        let c = line.get_char(word);
        if c == ' ' || c == '\t' {
            in_word = false;
        } else {
            word = word + 1;
        }
    }
    proof {
        lemma_word_len(line@, word as int);
        assert(line@.subrange(0, word as int) =~= line@.take(word as int));
        assert(line@.subrange(word as int, len as int) =~= line@.skip(word as int));
    }
    let interp = line.substring_char(0, word);
    let arg = trim(line.substring_char(word, len));
    if arg.unicode_len() == 0 {
        Some((interp, None))
    } else {
        Some((interp, Some(arg)))
    }
}

/// The arguments as sequences of bytes.
pub open spec fn args_view(argv: Seq<Vec<u8>>) -> Seq<Seq<u8>> {
    Seq::new(argv.len(), |i: int| argv[i]@)
}

/// What a search for an interpreter has come to.
pub enum ShebangModel {
    /// The file at this path is to be looked at.
    Inspect { path: Seq<char>, argv: Seq<Seq<u8>>, rounds: nat },
    /// This is the program, with these arguments.
    Found { path: Seq<char>, argv: Seq<Seq<u8>> },
    /// The search failed.
    Failed(Errno),
}

/// The bytes hold no zero, so that they can be a C string.
pub open spec fn is_c_string(bytes: Seq<u8>) -> bool {
    first_nul(bytes, 0) is None
}

/// The arguments of an interpreter: its name, its own argument, the script, and the script's
/// arguments.
pub open spec fn interpreter_args(
    interp: Seq<char>,
    arg: Option<Seq<char>>,
    script: Seq<char>,
    argv: Seq<Seq<u8>>,
) -> Seq<Seq<u8>> {
    let own = match arg {
        Some(a) => seq![encode_utf8(interp), encode_utf8(a)],
        None => seq![encode_utf8(interp)],
    };
    let rest = if argv.len() > 1 {
        argv.skip(1)
    } else {
        Seq::empty()
    };
    own + seq![encode_utf8(script)] + rest
}

impl ShebangModel {
    /// The search after the start of the file was read, or could not be.
    pub open spec fn advance(self, header: Result<Seq<u8>, Errno>) -> ShebangModel {
        match self {
            ShebangModel::Inspect { path, argv, rounds } => match header {
                Err(e) => ShebangModel::Failed(e),
                Ok(bytes) => match shebang_of(bytes) {
                    None => ShebangModel::Found { path, argv },
                    Some((interp, arg)) => if !is_c_string(encode_utf8(interp)) || (arg matches Some(
                        a,
                    ) && !is_c_string(encode_utf8(a))) || !is_c_string(encode_utf8(path)) {
                        ShebangModel::Failed(Errno::EINVAL)
                    } else if rounds + 1 >= SHEBANG_MAX_RECURSION {
                        ShebangModel::Failed(Errno::ELOOP)
                    } else {
                        ShebangModel::Inspect {
                            path: interp,
                            argv: interpreter_args(interp, arg, path, argv),
                            rounds: rounds + 1,
                        }
                    },
                },
            },
            _ => self,
        }
    }
}

/// A search for the interpreter of a script. While [`Shebang::path`] gives a path, the start of that
/// file is to be read and handed to [`Shebang::advance`].
pub enum Shebang {
    Inspect { path: String, argv: Vec<Vec<u8>>, rounds: u32 },
    Found { path: String, argv: Vec<Vec<u8>> },
    Failed(Errno),
}

/// A copy of the bytes of a text, if it can be a C string.
fn c_string(text: &str) -> (r: Option<Vec<u8>>)
    ensures
        match r {
            Some(bytes) => bytes@ == encode_utf8(text@) && is_c_string(encode_utf8(text@)),
            None => !is_c_string(encode_utf8(text@)),
        },
{
    let bytes = text.as_bytes();
    match find_nul(bytes, 0) {
        Some(_) => None,
        None => Some(copy_bytes(bytes)),
    }
}

impl Shebang {
    /// How far the search has come.
    pub open spec fn model(&self) -> ShebangModel {
        match *self {
            Shebang::Inspect { path, argv, rounds } => ShebangModel::Inspect {
                path: path@,
                argv: args_view(argv@),
                rounds: rounds as nat,
            },
            Shebang::Found { path, argv } => ShebangModel::Found {
                path: path@,
                argv: args_view(argv@),
            },
            Shebang::Failed(e) => ShebangModel::Failed(e),
        }
    }

    /// The number of interpreters seen is below the limit.
    pub open spec fn well_formed(&self) -> bool {
        self matches Shebang::Inspect { rounds, .. } ==> rounds < SHEBANG_MAX_RECURSION
    }

    /// The file to look at next, while the search goes on.
    pub fn path(&self) -> (r: Option<&str>)
        ensures
            match self.model() {
                ShebangModel::Inspect { path, .. } => r matches Some(p) && p@ == path,
                _ => r is None,
            },
    {
        match self {
            Shebang::Inspect { path, .. } => Some(path.as_str()),
            _ => None,
        }
    }

    /// Goes on with the start of the file, or with the error that came instead of it.
    pub fn advance(self, header: Result<&[u8], Errno>) -> (r: Shebang)
        requires
            self.well_formed(),
        ensures
            r.well_formed(),
            r.model() == self.model().advance(
                match header {
                    Ok(bytes) => Ok(bytes@),
                    Err(e) => Err(e),
                },
            ),
    {
        let ghost before = self.model();
        match self {
            Shebang::Inspect { path, argv, rounds } => {
                let bytes = match header {
                    Ok(bytes) => bytes,
                    Err(e) => return Shebang::Failed(e),
                };
                let (interp, arg) = match parse_shebang(bytes) {
                    Some(line) => line,
                    None => return Shebang::Found { path, argv },
                };
                let ghost old_args = args_view(argv@);
                let mut args: Vec<Vec<u8>> = Vec::new();
                match c_string(interp) {
                    Some(s) => args.push(s),
                    None => return Shebang::Failed(Errno::EINVAL),
                }
                if let Some(a) = arg {
                    match c_string(a) {
                        Some(s) => args.push(s),
                        None => return Shebang::Failed(Errno::EINVAL),
                    }
                }
                match c_string(path.as_str()) {
                    Some(s) => args.push(s),
                    None => return Shebang::Failed(Errno::EINVAL),
                }
                if rounds + 1 >= SHEBANG_MAX_RECURSION {
                    return Shebang::Failed(Errno::ELOOP);
                }
                let ghost own = args_view(args@);
                let mut i: usize = 1;
                while i < argv.len()
                    invariant
                        1 <= i,
                        i <= argv@.len() || argv@.len() == 0,
                        old_args == args_view(argv@),
                        args_view(args@) == own + (if old_args.len() > 1 {
                            old_args.subrange(1, i as int)
                        } else {
                            Seq::empty()
                        }),
                    decreases argv@.len() - i,
                {
                    let ghost before_push = args@;
                    args.push(copy_bytes(argv[i].as_slice()));
                    proof {
                        assert(args_view(args@) =~= args_view(before_push).push(old_args[i as int]));
                        assert(old_args.subrange(1, i + 1) =~= old_args.subrange(1, i as int).push(
                            old_args[i as int],
                        ));
                    }
                    i = i + 1;
                }
                let interp = interp.to_owned();
                proof {
                    if old_args.len() > 1 {
                        assert(old_args.subrange(1, i as int) =~= old_args.skip(1));
                    }
                    assert(args_view(args@) =~= interpreter_args(
                        interp@,
                        match arg {
                            Some(a) => Some(a@),
                            None => None,
                        },
                        path@,
                        old_args,
                    ));
                }
                Shebang::Inspect { path: interp, argv: args, rounds: rounds + 1 }
            },
            other => other,
        }
    }
}

/// Starts the search for the interpreter of a program that was called with arguments.
pub fn resolve_shebang(path: String, argv: Vec<Vec<u8>>) -> (r: Shebang)
    ensures
        r.well_formed(),
        r.model() == (ShebangModel::Inspect { path: path@, argv: args_view(argv@), rounds: 0 }),
{
    Shebang::Inspect { path, argv, rounds: 0 }
}

/// A file system as far as a search sees it: the start of each file, or the error of reading it.
pub type Headers = spec_fn(Seq<char>) -> Result<Seq<u8>, Errno>;

/// Looks at up to `fuel` files.
pub open spec fn search(state: ShebangModel, headers: Headers, fuel: nat) -> ShebangModel
    decreases fuel,
{
    match state {
        ShebangModel::Inspect { path, .. } => if fuel == 0 {
            state
        } else {
            search(state.advance(headers(path)), headers, (fuel - 1) as nat)
        },
        _ => state,
    }
}

/// Every search ends after at most six files: with a program whose own start is no `#!` line, or with
/// an error.
pub proof fn law_search_ends(state: ShebangModel, headers: Headers, fuel: nat)
    requires
        state matches ShebangModel::Inspect { rounds, .. } ==> rounds < SHEBANG_MAX_RECURSION && fuel
            + rounds >= SHEBANG_MAX_RECURSION,
        state matches ShebangModel::Found { path, .. } ==> (headers(path) matches Ok(bytes)
            && shebang_of(bytes) is None),
    ensures
        match search(state, headers, fuel) {
            ShebangModel::Inspect { .. } => false,
            ShebangModel::Found { path, .. } => headers(path) matches Ok(bytes) && shebang_of(
                bytes,
            ) is None,
            ShebangModel::Failed(_) => true,
        },
    decreases fuel,
{
    if let ShebangModel::Inspect { path, argv, rounds } = state {
        let next = state.advance(headers(path));
        law_search_ends(next, headers, (fuel - 1) as nat);
    }
}

/// The arguments that a script was called with reach the program unchanged, as its last arguments; and
/// a program other than the script itself gets its own path as its first argument.
pub proof fn law_search_keeps_arguments(
    path: Seq<char>,
    argv: Seq<Seq<u8>>,
    state: ShebangModel,
    headers: Headers,
    fuel: nat,
)
    requires
        match state {
            ShebangModel::Inspect { path: p, argv: a, .. } => kept_arguments(path, argv, p, a),
            ShebangModel::Found { path: p, argv: a } => kept_arguments(path, argv, p, a),
            ShebangModel::Failed(_) => true,
        },
    ensures
        match search(state, headers, fuel) {
            ShebangModel::Inspect { path: p, argv: a, .. } => kept_arguments(path, argv, p, a),
            ShebangModel::Found { path: p, argv: a } => kept_arguments(path, argv, p, a),
            ShebangModel::Failed(_) => true,
        },
    decreases fuel,
{
    if let ShebangModel::Inspect { path: p, argv: a, rounds } = state {
        if fuel > 0 {
            let next = state.advance(headers(p));
            if let ShebangModel::Inspect { path: p2, argv: a2, rounds: r2 } = next {
                let (interp, arg) = shebang_of(headers(p)->Ok_0)->Some_0;
                assert(a2 == interpreter_args(interp, arg, p, a));
                assert(a2[0] == encode_utf8(p2));
                if argv.len() > 1 {
                    let n = argv.len() - 1;
                    assert(a.skip(a.len() - n) == argv.skip(1));
                    assert(a2.skip(a2.len() - n) =~= argv.skip(1)) by {
                        assert forall|i: int| 0 <= i < n implies a2.skip(a2.len() - n)[i]
                            == argv.skip(1)[i] by {
                            assert(a.skip(a.len() - n)[i] == argv.skip(1)[i]);
                        }
                    }
                }
            }
            law_search_keeps_arguments(path, argv, next, headers, (fuel - 1) as nat);
        }
    }
}

/// The arguments end in those of the first call, and start with the program unless it is still the
/// first one.
pub open spec fn kept_arguments(
    path: Seq<char>,
    argv: Seq<Seq<u8>>,
    new_path: Seq<char>,
    new_argv: Seq<Seq<u8>>,
) -> bool {
    &&& argv.len() > 1 ==> new_argv.len() >= argv.len() && new_argv.skip(
        new_argv.len() - (argv.len() - 1),
    ) == argv.skip(1)
    &&& (new_path == path && new_argv == argv) || (new_argv.len() > 0 && new_argv[0]
        == encode_utf8(new_path))
}

} // verus!
