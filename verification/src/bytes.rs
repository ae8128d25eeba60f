//! Small operations on byte vectors.
use vstd::prelude::*;
use vstd::slice::slice_subrange;
use vstd::utf8::{decode_utf8, valid_utf8};

verus! {

/// The decoder may give `out` for the bytes.
pub open spec fn reads<O, F: Fn(&[u8]) -> O>(decode: F, bytes: Seq<u8>, out: O) -> bool {
    exists|slice: &[u8]| slice@ == bytes && #[trigger] call_ensures(decode, (slice,), out)
}

/// Appends the bytes `from..to` of `src`.
pub fn append_range(dst: &mut Vec<u8>, src: &[u8], from: usize, to: usize)
    requires
        from <= to <= src@.len(),
    ensures
        final(dst)@ == old(dst)@ + src@.subrange(from as int, to as int),
{
    let part = slice_subrange(src, from, to);
    dst.extend_from_slice(part);
    assert(dst@ =~= old(dst)@ + src@.subrange(from as int, to as int));
}

/// A copy of `src`.
pub fn copy_bytes(src: &[u8]) -> (r: Vec<u8>)
    ensures
        r@ == src@,
{
    let mut r: Vec<u8> = Vec::new();
    append_range(&mut r, src, 0, src.len());
    assert(r@ =~= src@);
    r
}

/// The position of the first zero byte at or after `from`, relative to `from`.
pub open spec fn first_nul(bytes: Seq<u8>, from: int) -> Option<int>
    decreases bytes.len() - from,
{
    if from >= bytes.len() {
        None
    } else if bytes[from] == 0 {
        Some(0)
    } else {
        match first_nul(bytes, from + 1) {
            Some(n) => Some(n + 1),
            None => None,
        }
    }
}

/// The first zero byte is at the end of a run without one.
pub proof fn lemma_first_nul(bytes: Seq<u8>, from: int, len: int)
    requires
        0 <= from,
        0 <= len,
        from + len <= bytes.len(),
        forall|i: int| from <= i < from + len ==> bytes[i] != 0,
    ensures
        from + len == bytes.len() ==> first_nul(bytes, from) is None,
        from + len < bytes.len() && bytes[from + len] == 0 ==> first_nul(bytes, from) == Some(len),
    decreases len,
{
    if len > 0 {
        lemma_first_nul(bytes, from + 1, len - 1);
    }
}

/// Finds the first zero byte at or after `from`; the answer is relative to `from`.
pub fn find_nul(bytes: &[u8], from: usize) -> (r: Option<usize>)
    requires
        from <= bytes@.len(),
    ensures
        match r {
            Some(n) => first_nul(bytes@, from as int) == Some(n as int) && from + n < bytes@.len(),
            None => first_nul(bytes@, from as int) is None,
        },
{
    let mut i: usize = from;
    while i < bytes.len()
        invariant
            from <= i <= bytes@.len(),
            forall|j: int| from <= j < i ==> bytes@[j] != 0,
        decreases bytes@.len() - i,
    {
        if bytes[i] == 0 {
            proof {
                lemma_first_nul(bytes@, from as int, i - from);
            }
            return Some(i - from);
        }
        i = i + 1;
    }
    proof {
        lemma_first_nul(bytes@, from as int, i - from);
    }
    None
}

/// `String::from_utf8` of std: the string with these bytes, if they are UTF-8.
#[verifier::external_body]
pub(crate) fn string_from_utf8(bytes: Vec<u8>) -> (r: Option<String>)
    ensures
        r is Some == valid_utf8(bytes@),
        r matches Some(s) ==> s@ == decode_utf8(bytes@),
{
    String::from_utf8(bytes).ok()
}

} // verus!
