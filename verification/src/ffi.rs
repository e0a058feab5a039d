//! Pieces of the C interface that carry logic of their own: the counting
//! writer handed to progress callbacks, and the text of error messages kept
//! for C callers.
pub mod progress_writer;

use crate::text::{chars_of, string_of};
use vstd::prelude::*;

verus! {

/// `c` as it may stand in a C string: a NUL becomes a space.
pub open spec fn c_safe_char(c: char) -> char {
    if c == '\0' {
        ' '
    } else {
        c
    }
}

/// An error message made fit for a C string: every NUL character is
/// replaced by a space, so the text holds no NUL and keeps its length.
pub fn c_message_text(message: &str) -> (r: String)
    ensures
        r@ == message@.map_values(|c: char| c_safe_char(c)),
        !r@.contains('\0'),
{
    let chars = chars_of(message);
    let mut out: Vec<char> = Vec::new();
    let mut k: usize = 0;
    while k < chars.len()
        invariant
            chars@ == message@,
            k <= chars@.len(),
            out@ == chars@.take(k as int).map_values(|c: char| c_safe_char(c)),
        decreases chars@.len() - k,
    {
        let c = chars[k];
        if c == '\0' {
            out.push(' ');
        } else {
            out.push(c);
        }
        k = k + 1;
        assert(out@ =~= chars@.take(k as int).map_values(|c: char| c_safe_char(c)));
    }
    assert(chars@.take(chars@.len() as int) =~= chars@);
    assert(!out@.contains('\0')) by {
        if out@.contains('\0') {
            let i = choose|i: int| 0 <= i < out@.len() && out@[i] == '\0';
            assert(out@[i] == c_safe_char(chars@[i]));
        }
    }
    string_of(out.as_slice())
}

} // verus!
