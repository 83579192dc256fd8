//! Decisions about files the launcher shows: whether a preview is text, and
//! the execute permission bits.
use crate::text::concat;
use vstd::prelude::*;
use vstd::utf8::{decode_utf8, valid_utf8};

verus! {

/// How many bytes a preview reads when the caller names no limit.
pub const DEFAULT_PREVIEW_BYTES: usize = 2048;

/// Relies on `String::from_utf8`: succeeds exactly on valid UTF-8, with the
/// text it encodes; the error's text is passed on.
#[verifier::external_body]
fn utf8_text(bytes: Vec<u8>) -> (r: Result<String, String>)
    ensures
        r is Ok <==> valid_utf8(bytes@),
        r is Ok ==> r->Ok_0@ == decode_utf8(bytes@),
{
    String::from_utf8(bytes).map_err(|e| e.to_string())
}

/// The byte limit of a preview.
pub fn preview_limit(max_bytes: Option<usize>) -> (r: usize)
    ensures
        r == match max_bytes {
            Some(n) => n,
            None => DEFAULT_PREVIEW_BYTES,
        },
{
    match max_bytes {
        Some(n) => n,
        None => DEFAULT_PREVIEW_BYTES,
    }
}

/// The preview of the bytes read from a file: an error for binary content
/// (a zero byte) or for invalid UTF-8, else the text.
pub fn preview_text(bytes: Vec<u8>) -> (r: Result<String, String>)
    ensures
        bytes@.contains(0u8) ==> r is Err && r->Err_0@ == "Binary file detected"@,
        !bytes@.contains(0u8) && valid_utf8(bytes@) ==> r is Ok && r->Ok_0@ == decode_utf8(bytes@),
        !bytes@.contains(0u8) && !valid_utf8(bytes@) ==> r is Err && exists|d: Seq<char>|
            r->Err_0@ == "Not valid UTF-8: "@ + d,
{
    let mut i: usize = 0;
    while i < bytes.len()
        invariant
            i <= bytes@.len(),
            forall|j: int| 0 <= j < i ==> bytes@[j] != 0u8,
        decreases bytes@.len() - i,
    {
        if bytes[i] == 0u8 {
            assert(bytes@[i as int] == 0u8);
            return Err("Binary file detected".to_string());
        }
        i += 1;
    }
    assert(!bytes@.contains(0u8));
    match utf8_text(bytes) {
        Ok(text) => Ok(text),
        Err(detail) => {
            let m = concat("Not valid UTF-8: ", detail.as_str());
            assert(m@ == "Not valid UTF-8: "@ + detail@);
            Err(m)
        },
    }
}

/// Whether a Unix mode lets anyone execute the file.
pub fn is_executable_mode(mode: u32) -> (r: bool)
    ensures
        r == (mode & 0o111u32 != 0),
{
    mode & 0o111u32 != 0
}

/// The mode with execute permission for owner, group and others.
pub fn with_execute_bits(mode: u32) -> (r: u32)
    ensures
        r == mode | 0o111u32,
{
    mode | 0o111u32
}

} // verus!
