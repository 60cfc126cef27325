//! Facts about how many storage units a text occupies.

use vstd::prelude::*;
use vstd::utf8::{encode_scalar, encode_utf8};
use crate::model::{repeated, run_of, storage_len, unit_width};

verus! {

/// A character occupies between one and four storage units, as many as its
/// UTF-8 encoding has bytes.
pub proof fn lemma_unit_width(ch: char)
    ensures
        1 <= unit_width(ch) <= 4,
        unit_width(ch) == encode_scalar(ch as u32).len(),
        unit_width(ch) == storage_len(seq![ch]),
{
    let single = seq![ch];
    assert(single.drop_first() =~= Seq::<char>::empty());
    assert(encode_utf8(single.drop_first()) =~= Seq::<u8>::empty());
    assert(encode_utf8(single) =~= encode_scalar(ch as u32));
}

/// The encoding of a concatenation is the concatenation of the encodings.
pub proof fn lemma_encode_concat(left: Seq<char>, right: Seq<char>)
    ensures
        encode_utf8(left + right) == encode_utf8(left) + encode_utf8(right),
    decreases left.len(),
{
    if left.len() == 0 {
        assert(left + right =~= right);
        assert(encode_utf8(left) + encode_utf8(right) =~= encode_utf8(right));
    } else {
        lemma_encode_concat(left.drop_first(), right);
        assert((left + right).drop_first() =~= left.drop_first() + right);
        assert(encode_utf8(left + right) =~= encode_utf8(left) + encode_utf8(right));
    }
}

/// Storage lengths add up under concatenation.
pub proof fn lemma_storage_len_concat(left: Seq<char>, right: Seq<char>)
    ensures
        storage_len(left + right) == storage_len(left) + storage_len(right),
{
    lemma_encode_concat(left, right);
}

/// Appending one character adds its width.
pub proof fn lemma_storage_len_push(text: Seq<char>, ch: char)
    ensures
        storage_len(text.push(ch)) == storage_len(text) + unit_width(ch),
{
    lemma_unit_width(ch);
    lemma_storage_len_concat(text, seq![ch]);
    assert(text.push(ch) =~= text + seq![ch]);
}

/// Two runs of the same character, one after the other, are one run.
pub proof fn lemma_run_concat(fill: char, first: nat, second: nat)
    ensures
        run_of(fill, first) + run_of(fill, second) == run_of(fill, first + second),
{
    assert(run_of(fill, first) + run_of(fill, second) =~= run_of(fill, first + second));
}

/// A run of `count` characters occupies `count` times the character's width.
pub proof fn lemma_storage_len_run(fill: char, count: nat)
    ensures
        storage_len(run_of(fill, count)) == count * unit_width(fill),
    decreases count,
{
    if count == 0 {
        assert(run_of(fill, count) =~= Seq::<char>::empty());
    } else {
        let shorter = (count - 1) as nat;
        lemma_storage_len_run(fill, shorter);
        lemma_storage_len_push(run_of(fill, shorter), fill);
        assert(run_of(fill, count) =~= run_of(fill, shorter).push(fill));
        assert(count * unit_width(fill) == shorter * unit_width(fill) + unit_width(fill))
            by (nonlinear_arith)
            requires
                count == shorter + 1,
        ;
    }
}

/// A one-character text repeated `times` times is a run of that character.
pub proof fn lemma_repeated_single(fill: char, times: nat)
    ensures
        repeated(seq![fill], times) == run_of(fill, times),
    decreases times,
{
    if times == 0 {
        assert(run_of(fill, times) =~= Seq::<char>::empty());
    } else {
        let fewer = (times - 1) as nat;
        lemma_repeated_single(fill, fewer);
        assert(run_of(fill, fewer) + seq![fill] =~= run_of(fill, times));
    }
}

} // verus!
