//! Left-padding of a text to a minimum length with a fill character.
//!
//! Lengths are counted in storage units (the bytes of a `String`), the fill in
//! characters. `model` says what the padded text is, `laws` what holds of it,
//! and `left_pad` builds it.

use vstd::prelude::*;
use vstd::string::*;
use crate::laws::{
    lemma_long_enough_is_unchanged, lemma_padded_ends_with_text, lemma_padded_storage_len,
};
use crate::model::{
    deficit, effective_fill, left_padded, padded_storage_len, storage_len, unit_width,
};
use crate::paths::{doubled_pad, short_pad, SPACES_LEN};
use crate::storage::lemma_unit_width;

pub mod laws;
pub mod model;
pub mod paths;
pub mod storage;
pub mod string_specs;

verus! {

/// Pads `str` on the left with `ch` until it is `len` storage units long.
///
/// A text that is `len` units long already, or longer, is handed back as it
/// is. Otherwise the result is the missing number of fill characters followed
/// by `str`; a null `ch` pads with spaces. Each fill character counts once,
/// whatever its width, so a wide `ch` makes the result longer than `len`.
///
/// Where padding is needed, the padded text has to fit in a `String`.
pub fn left_pad(str: String, len: usize, ch: char) -> (out: String)
    requires
        deficit(str@, len as nat) > 0 ==> padded_storage_len(str@, len as nat, ch) <= isize::MAX,
    ensures
        out@ == left_padded(str@, len as nat, ch),
        deficit(str@, len as nat) == 0 ==> out == str,
        str@.is_suffix_of(out@),
        storage_len(out@) == padded_storage_len(str@, len as nat, ch),
        storage_len(out@) >= len,
        len > storage_len(str@) && unit_width(effective_fill(ch)) == 1 ==> storage_len(out@) == len,
{
    proof {
        lemma_padded_storage_len(str@, len as nat, ch);
        lemma_padded_ends_with_text(str@, len as nat, ch);
    }
    let len_diff = len.saturating_sub(str.as_str().as_bytes().len());
    if len_diff == 0 {
        proof {
            lemma_long_enough_is_unchanged(str@, len as nat, ch);
        }
        return str;
    }
    let fill = if ch == '\0' {
        ' '
    } else {
        ch
    };
    proof {
        lemma_unit_width(fill);
        assert(len_diff <= len_diff * unit_width(fill)) by (nonlinear_arith)
            requires
                1 <= unit_width(fill),
        ;
    }
    if fill == ' ' && len_diff < SPACES_LEN {
        let mut pad = String::with_capacity(len_diff);
        pad.append(short_pad(len_diff));
        pad.append(str.as_str());
        return pad;
    }
    let mut pad = doubled_pad(fill, len_diff);
    pad.append(str.as_str());
    pad
}

} // verus!
