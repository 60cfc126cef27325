//! The two ways in which a pad segment is built: a slice of a fixed run of
//! spaces for short space padding, and a doubling builder for everything else.

use vstd::prelude::*;
use vstd::string::*;
use crate::model::{run_of, unit_width};
use crate::storage::{
    lemma_repeated_single, lemma_run_concat, lemma_storage_len_run, lemma_unit_width,
};

verus! {

/// The fixed run of spaces that short pad segments are cut from.
pub const SPACES: &'static str = "                    ";

/// The number of spaces in `SPACES`.
pub const SPACES_LEN: usize = 20;

/// What the slicing path hands out for `count`: the first `count` characters
/// of `SPACES`.
pub open spec fn sliced_run(count: nat) -> Seq<char> {
    SPACES@.take(count as int)
}

/// What the doubling path builds for `count`: one character if `count` is odd,
/// then a block of half of `count`, then what the path builds for that half.
pub open spec fn doubled_run(fill: char, count: nat) -> Seq<char>
    decreases count,
{
    if count == 0 {
        Seq::empty()
    } else {
        run_of(fill, count % 2) + run_of(fill, count / 2) + doubled_run(fill, count / 2)
    }
}

/// `SPACES` is a run of `SPACES_LEN` spaces.
pub proof fn lemma_spaces()
    ensures
        SPACES@ == run_of(' ', SPACES_LEN as nat),
{
    reveal_strlit("                    ");
    assert(SPACES@ =~= run_of(' ', SPACES_LEN as nat));
}

/// Every prefix of `SPACES` is a run of spaces.
pub proof fn lemma_sliced_run(count: nat)
    requires
        count <= SPACES_LEN,
    ensures
        sliced_run(count) == run_of(' ', count),
{
    lemma_spaces();
    assert(sliced_run(count) =~= run_of(' ', count));
}

/// The doubling path builds exactly `count` characters, all of them `fill`.
pub proof fn lemma_doubled_run(fill: char, count: nat)
    ensures
        doubled_run(fill, count) == run_of(fill, count),
    decreases count,
{
    if count == 0 {
        assert(run_of(fill, count) =~= Seq::<char>::empty());
    } else {
        lemma_doubled_run(fill, count / 2);
        lemma_run_concat(fill, count % 2, count / 2);
        lemma_run_concat(fill, count % 2 + count / 2, count / 2);
    }
}

/// The two paths agree: wherever the slicing path can serve, it hands out what
/// the doubling path builds from spaces.
pub proof fn lemma_paths_agree(count: nat)
    requires
        count <= SPACES_LEN,
    ensures
        sliced_run(count) == doubled_run(' ', count),
{
    lemma_sliced_run(count);
    lemma_doubled_run(' ', count);
}

/// The slicing path: a pad segment of `count` spaces, cut from `SPACES`
/// without building anything.
pub fn short_pad(count: usize) -> (pad: &'static str)
    requires
        count <= SPACES_LEN,
    ensures
        pad@ == run_of(' ', count as nat),
        pad@ == sliced_run(count as nat),
{
    proof {
        lemma_spaces();
        lemma_sliced_run(count as nat);
    }
    SPACES.substring_ascii(0, count)
}

/// The doubling path: a pad segment of `count` copies of `fill`. In each round
/// it appends one character if the count that is left is odd, halves that
/// count, and appends a block of that many characters.
pub fn doubled_pad(fill: char, count: usize) -> (pad: String)
    requires
        count * unit_width(fill) <= isize::MAX,
    ensures
        pad@ == run_of(fill, count as nat),
        pad@ == doubled_run(fill, count as nat),
{
    proof {
        lemma_unit_width(fill);
        assert(count <= count * unit_width(fill)) by (nonlinear_arith)
            requires
                1 <= unit_width(fill),
        ;
    }
    let mut pad = String::with_capacity(count);
    let mut unit = String::new();
    unit.push(fill);
    assert(unit@ =~= seq![fill]);
    let mut left: usize = count;
    while left > 0
        invariant
            left <= count,
            count * unit_width(fill) <= isize::MAX,
            unit@ == seq![fill],
            pad@ == run_of(fill, (count - left) as nat),
            pad@ + doubled_run(fill, left as nat) == doubled_run(fill, count as nat),
        decreases left,
    {
        let ghost before = pad@;
        let ghost built = (count - left) as nat;
        let ghost odd = (left % 2) as nat;
        let ghost half = (left / 2) as nat;
        proof {
            lemma_unit_width(fill);
            lemma_storage_len_run(fill, built);
            assert(built * unit_width(fill) + unit_width(fill) <= count * unit_width(fill))
                by (nonlinear_arith)
                requires
                    built + 1 <= count,
            ;
            assert(unit_width(fill) * half <= count * unit_width(fill)) by (nonlinear_arith)
                requires
                    half <= count,
            ;
            assert(left & 1 == left % 2) by (bit_vector);
            assert(left >> 1 == left / 2) by (bit_vector);
        }
        if left & 1 == 1 {
            pad.push(fill);
        }
        left >>= 1;
        if left > 0 {
            let block = unit.as_str().repeat(left);
            pad.append(block.as_str());
        }
        proof {
            lemma_repeated_single(fill, half);
            assert(pad@ =~= before + (run_of(fill, odd) + run_of(fill, half)));
            lemma_run_concat(fill, odd, half);
            lemma_run_concat(fill, built, odd + half);
            assert(pad@ + doubled_run(fill, half) =~= before + doubled_run(
                fill,
                (odd + 2 * half) as nat,
            ));
        }
    }
    pad
}

} // verus!
