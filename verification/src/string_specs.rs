//! Contracts for the methods of `String` and `str` that padding calls and that
//! come without one. Nothing here is proved: each contract restates what the
//! standard library documents of the method, over the model of a text as a
//! sequence of characters.

use vstd::prelude::*;
use crate::model::{repeated, storage_len, unit_width};

verus! {

/// `String::with_capacity`: hands out an empty text. The standard library
/// refuses a capacity of more than `isize::MAX` bytes, so such a capacity may
/// not be asked for.
pub assume_specification[ String::with_capacity ](capacity: usize) -> (text: String)
    requires
        capacity <= isize::MAX,
    ensures
        text@ == Seq::<char>::empty(),
;

/// `String::push`: appends `ch` to the end of the text and leaves the rest as
/// it was. The call is only allowed while the grown text still fits in
/// `isize::MAX` bytes, the most that a `String` can hold.
pub assume_specification[ String::push ](text: &mut String, ch: char)
    requires
        storage_len(old(text)@) + unit_width(ch) <= isize::MAX,
    ensures
        final(text)@ == old(text)@.push(ch),
;

/// `str::repeat`: a new text that holds `text` written `n` times in a row;
/// empty when `n` is zero. The standard library panics when the size of the
/// result overflows, so the result has to fit in `isize::MAX` bytes.
pub assume_specification[ str::repeat ](text: &str, n: usize) -> (out: String)
    requires
        storage_len(text@) * n <= isize::MAX,
    ensures
        out@ == repeated(text@, n as nat),
;

} // verus!
