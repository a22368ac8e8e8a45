//! The text gate of a file read: a read returns at most a capped number of
//! bytes, and those bytes are handed back as text exactly when they are
//! valid UTF-8 — a file of non-text data is rejected with a distinct error,
//! not lossily decoded.

use vstd::prelude::*;

verus! {

use vstd::utf8::{valid_utf8, decode_utf8};

/// The default cap on how much of a file a text read returns.
pub const DEFAULT_MAX_TEXT_BYTES: usize = 1048576;

/// The byte cap of a text read: the caller's, or the default.
pub fn text_read_limit(max_bytes: Option<usize>) -> (r: usize)
    ensures
        match max_bytes {
            Some(m) => r == m,
            None => r == DEFAULT_MAX_TEXT_BYTES,
        },
{
    match max_bytes {
        Some(m) => m,
        None => DEFAULT_MAX_TEXT_BYTES,
    }
}

/// Relies on `String::from_utf8`: returns the decoded string exactly when
/// the bytes are valid UTF-8.
#[verifier::external_body]
fn string_from_utf8(bytes: Vec<u8>) -> (r: Option<String>)
    ensures
        r is Some <==> valid_utf8(bytes@),
        r matches Some(s) ==> s@ == decode_utf8(bytes@),
{
    String::from_utf8(bytes).ok()
}

/// The text of a read: the first `bytes_read` bytes of the buffer decoded,
/// or the binary-content error exactly when they are not valid UTF-8.
pub fn text_from_read(buffer: Vec<u8>, bytes_read: usize) -> (r: Result<String, String>)
    requires
        bytes_read <= buffer@.len(),
    ensures
        r is Ok <==> valid_utf8(buffer@.take(bytes_read as int)),
        r matches Ok(s) ==> s@ == decode_utf8(buffer@.take(bytes_read as int)),
        r matches Err(m) ==> m@ == "File contains non-UTF8 content (binary file)"@,
{
    let ghost buf0 = buffer@;
    let mut b = buffer;
    b.truncate(bytes_read);
    proof {
        assert(b@ =~= buf0.take(bytes_read as int));
    }
    match string_from_utf8(b) {
        Some(s) => Ok(s),
        None => Err("File contains non-UTF8 content (binary file)".to_owned()),
    }
}

} // verus!
