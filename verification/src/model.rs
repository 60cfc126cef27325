//! The mathematical model of left-padding.
//!
//! A text is a sequence of characters. Lengths are counted in storage units,
//! the bytes of the text's UTF-8 encoding, while the fill is counted in
//! characters: one repetition of the fill is one character, however many
//! storage units it occupies.

use vstd::prelude::*;
use vstd::utf8::encode_utf8;

verus! {

/// The number of storage units (UTF-8 bytes) that `text` occupies.
pub open spec fn storage_len(text: Seq<char>) -> nat {
    encode_utf8(text).len()
}

/// The number of storage units that a single character occupies.
pub open spec fn unit_width(ch: char) -> nat {
    if (ch as u32) < 0x80 {
        1
    } else if (ch as u32) < 0x800 {
        2
    } else if (ch as u32) < 0x1_0000 {
        3
    } else {
        4
    }
}

/// `count` copies of `fill` in a row.
pub open spec fn run_of(fill: char, count: nat) -> Seq<char> {
    Seq::new(count, |i: int| fill)
}

/// The character that padding is done with: a null character stands for a
/// plain space, every other character stands for itself.
pub open spec fn effective_fill(fill: char) -> char {
    if fill == '\0' {
        ' '
    } else {
        fill
    }
}

/// How many fill characters `text` needs to reach `target` storage units;
/// zero if it is long enough already.
pub open spec fn deficit(text: Seq<char>, target: nat) -> nat {
    if target > storage_len(text) {
        (target - storage_len(text)) as nat
    } else {
        0
    }
}

/// `text` padded on the left to at least `target` storage units: the deficit
/// in copies of the effective fill character, then `text` itself.
pub open spec fn left_padded(text: Seq<char>, target: nat, fill: char) -> Seq<char> {
    run_of(effective_fill(fill), deficit(text, target)) + text
}

/// The number of storage units that the padded text occupies
/// (see `lemma_padded_storage_len`).
pub open spec fn padded_storage_len(text: Seq<char>, target: nat, fill: char) -> nat {
    storage_len(text) + deficit(text, target) * unit_width(effective_fill(fill))
}

/// `text` written `times` times in a row.
pub open spec fn repeated(text: Seq<char>, times: nat) -> Seq<char>
    decreases times,
{
    if times == 0 {
        Seq::empty()
    } else {
        repeated(text, (times - 1) as nat) + text
    }
}

} // verus!
