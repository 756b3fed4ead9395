//! Reading the il2cpp metadata's tables: index ranges given as an offset
//! and a count, and the NUL-terminated strings of the string table.
use crate::error::Error;
use core::ops::Range;
use vstd::prelude::*;
use vstd::utf8::{decode_utf8, valid_utf8};

verus! {

/// `offset..offset + len` as `usize`s; the empty range where `offset` is
/// negative (the tables mark "none" with -1).
pub open spec fn offset_range(offset: i32, len: i32) -> (usize, usize) {
    if offset < 0 {
        (0, 0)
    } else {
        (offset as usize, (offset as usize + len as usize) as usize)
    }
}

/// The range of a table that starts at `offset` and holds `len` entries;
/// empty where `offset` is negative.
pub fn offset_len(offset: i32, len: i32) -> (r: Range<usize>)
    requires
        offset < 0 || offset as usize + len as usize <= usize::MAX,
    ensures
        (r.start, r.end) == offset_range(offset, len),
{
    if offset < 0 {
        return 0..0;
    }
    let start = offset as usize;
    start..start + len as usize
}

/// The bytes of `data` from `offset` up to the first NUL.
pub open spec fn c_str(data: Seq<u8>, offset: int) -> Seq<u8>
    decreases data.len() - offset,
{
    if offset < 0 || offset >= data.len() || data[offset] == 0 {
        Seq::empty()
    } else {
        seq![data[offset]] + c_str(data, offset + 1)
    }
}

/// A NUL stands in `data` at or after `offset`.
pub open spec fn nul_after(data: Seq<u8>, offset: int) -> bool {
    exists|k: int| offset <= k < data.len() && data[k] == 0
}

proof fn lemma_c_str(data: Seq<u8>, offset: int, len: int)
    requires
        0 <= offset,
        0 <= len,
        offset + len < data.len(),
        data[offset + len] == 0,
        forall|j: int| offset <= j < offset + len ==> data[j] != 0,
    ensures
        c_str(data, offset) == data.subrange(offset, offset + len),
    decreases len,
{
    if len == 0 {
        assert(data.subrange(offset, offset) =~= Seq::<u8>::empty());
    } else {
        lemma_c_str(data, offset + 1, len - 1);
        assert(seq![data[offset]] + data.subrange(offset + 1, offset + len) =~= data.subrange(
            offset,
            offset + len,
        ));
    }
}

/// The number of bytes from `offset` up to the first NUL.
pub fn strlen(data: &[u8], offset: usize) -> (len: usize)
    requires
        nul_after(data@, offset as int),
    ensures
        offset + len < data@.len(),
        data@[offset + len] == 0,
        data@.subrange(offset as int, offset + len) == c_str(data@, offset as int),
{
    let n = data.len();
    let mut len: usize = 0;
    while data[offset + len] != 0
        invariant
            n == data@.len(),
            nul_after(data@, offset as int),
            offset + len < data@.len(),
            forall|j: int| offset <= j < offset + len ==> data@[j] != 0,
        decreases data@.len() - (offset + len),
    {
        proof {
            let k = choose|k: int| offset <= k < data@.len() && data@[k] == 0;
            assert(k != offset + len);
            if k < offset + len {
                assert(data@[k] != 0);
            }
        }
        len = len + 1;
    }
    proof {
        lemma_c_str(data@, offset as int, len as int);
    }
    len
}

/// `std::str::from_utf8`: the bytes as a string where they are valid UTF-8
/// (the characters they encode), `None` where they are not.
#[verifier::external_body]
fn str_from_utf8(bytes: &[u8]) -> (r: Option<&str>)
    ensures
        match r {
            Some(s) => valid_utf8(bytes@) && s@ == decode_utf8(bytes@),
            None => !valid_utf8(bytes@),
        },
{
    std::str::from_utf8(bytes).ok()
}

/// The NUL-terminated UTF-8 string of `data` at `offset`.
pub fn get_str(data: &[u8], offset: usize) -> (r: Result<&str, Error>)
    requires
        nul_after(data@, offset as int),
    ensures
        match r {
            Ok(s) => valid_utf8(c_str(data@, offset as int)) && s@ == decode_utf8(
                c_str(data@, offset as int),
            ),
            Err(e) => !valid_utf8(c_str(data@, offset as int)) && e == Error::InvalidUtf8,
        },
{
    let n = data.len();
    let len = strlen(data, offset);
    match str_from_utf8(&data[offset..offset + len]) {
        Some(s) => Ok(s),
        None => Err(Error::InvalidUtf8),
    }
}

} // verus!
