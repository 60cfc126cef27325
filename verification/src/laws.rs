//! What holds of every padded text.

use vstd::prelude::*;
use crate::model::{
    deficit, effective_fill, left_padded, padded_storage_len, run_of, storage_len, unit_width,
};
use crate::storage::{lemma_storage_len_concat, lemma_storage_len_run, lemma_unit_width};

verus! {

/// A text that already has the target length, or more, is left as it is:
/// nothing is added and nothing is cut off, whatever the fill.
pub proof fn lemma_long_enough_is_unchanged(text: Seq<char>, target: nat, fill: char)
    requires
        target <= storage_len(text),
    ensures
        left_padded(text, target, fill) == text,
{
    assert(run_of(effective_fill(fill), 0) + text =~= text);
}

/// The padded text occupies the storage units of the text plus one character
/// width for each fill character, and never less than the target length.
pub proof fn lemma_padded_storage_len(text: Seq<char>, target: nat, fill: char)
    ensures
        storage_len(left_padded(text, target, fill)) == padded_storage_len(text, target, fill),
        storage_len(left_padded(text, target, fill)) >= target,
        storage_len(left_padded(text, target, fill)) >= storage_len(text),
{
    let pad_char = effective_fill(fill);
    let missing = deficit(text, target);
    lemma_unit_width(pad_char);
    lemma_storage_len_run(pad_char, missing);
    lemma_storage_len_concat(run_of(pad_char, missing), text);
    assert(missing * unit_width(pad_char) >= missing) by (nonlinear_arith)
        requires
            unit_width(pad_char) >= 1,
    ;
}

/// A text shorter than the target, padded with a character that occupies one
/// storage unit, comes out at exactly the target length.
pub proof fn lemma_padded_reaches_target(text: Seq<char>, target: nat, fill: char)
    requires
        target > storage_len(text),
        unit_width(effective_fill(fill)) == 1,
    ensures
        storage_len(left_padded(text, target, fill)) == target,
{
    lemma_padded_storage_len(text, target, fill);
}

/// The padded text ends with the text itself, whatever the target length and
/// the fill, and everything before it is the effective fill character.
pub proof fn lemma_padded_ends_with_text(text: Seq<char>, target: nat, fill: char)
    ensures
        text.is_suffix_of(left_padded(text, target, fill)),
        left_padded(text, target, fill).len() == deficit(text, target) + text.len(),
        forall|i: int|
            0 <= i < deficit(text, target) ==> left_padded(text, target, fill)[i]
                == effective_fill(fill),
{
    let padded = left_padded(text, target, fill);
    assert(padded.subrange(padded.len() - text.len(), padded.len() as int) =~= text);
}

/// Padding with the null character is padding with a plain space, for every
/// text and every target length.
pub proof fn lemma_null_fill_is_space(text: Seq<char>, target: nat)
    ensures
        left_padded(text, target, '\0') == left_padded(text, target, ' '),
{
}

} // verus!
