//! Reading the game's global-metadata tables on the build side.
use crate::error::Error;
use crate::utils::{c_str, nul_after};
use core::ops::Range;
use vstd::prelude::*;
use vstd::utf8::{decode_utf8, valid_utf8};

verus! {

/// `offset..offset + len`; empty where `offset`, read as an `i32`, is
/// negative (the tables mark "none" with -1).
pub open spec fn offset_range(offset: u32, len: u32) -> (usize, usize) {
    if offset >= 0x8000_0000 {
        (0, 0)
    } else {
        (offset as usize, (offset + len) as usize)
    }
}

/// The range of a table that starts at `offset` and holds `len` entries.
pub fn offset_len(offset: u32, len: u32) -> (r: Range<usize>)
    requires
        offset >= 0x8000_0000 || offset + len <= usize::MAX,
    ensures
        (r.start, r.end) == offset_range(offset, len),
{
    if offset >= 0x8000_0000 {
        return 0..0;
    }
    let start = offset as usize;
    start..start + len as usize
}

/// The NUL-terminated UTF-8 string of `data` at `offset`.
pub fn get_str(data: &[u8], offset: usize) -> (r: Result<&str, Error>)
    requires
        nul_after(data@, offset as int),
    ensures
        match r {
            Ok(s) => valid_utf8(c_str(data@, offset as int)) && s@ == decode_utf8(
                c_str(data@, offset as int),
            ),
            Err(e) => !valid_utf8(c_str(data@, offset as int)) && e == Error::InvalidUtf8,
        },
{
    crate::utils::get_str(data, offset)
}

} // verus!
