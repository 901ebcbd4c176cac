use vstd::arithmetic::div_mod::lemma_add_mod_noop;
use vstd::arithmetic::mul::lemma_mul_is_distributive_add;
use vstd::prelude::*;

verus! {

/// Number of words in the seed table.
pub const SRSIZE: usize = 10;

/// The number of values a `u32` can hold.
pub open spec fn word_range() -> int {
    0x1_0000_0000
}

/// `x` reduced into a `u32`, as wrapping arithmetic does.
pub open spec fn wrap(x: int) -> u32 {
    (x % word_range()) as u32
}

/// The sum of the words of `s`, as an unbounded integer.
pub open spec fn sum(s: Seq<u32>) -> int
    decreases s.len(),
{
    if s.len() == 0 {
        0
    } else {
        sum(s.drop_last()) + s.last()
    }
}

/// `acc` after folding in the drawn value `r`: for each seed `sr[i]`,
/// `r + sr[i]` is added, with wrapping.
pub open spec fn fold_value(acc: u32, r: u32, sr: Seq<u32>) -> u32 {
    wrap(acc + sr.len() * r + sum(sr))
}

/// The offset accumulated while `values` were drawn one by one, starting from 0.
pub open spec fn accumulate(values: Seq<u32>, sr: Seq<u32>) -> u32
    decreases values.len(),
{
    if values.len() == 0 {
        0
    } else {
        fold_value(accumulate(values.drop_last(), sr), values.last(), sr)
    }
}

/// The checksum of a whole sequence of drawn values against the seed table:
/// each value and each seed counted once for every element of the other.
pub open spec fn checksum_of(values: Seq<u32>, sr: Seq<u32>) -> u32 {
    wrap(sr.len() * sum(values) + values.len() * sum(sr))
}

proof fn lemma_wrap_add(a: int, b: int)
    ensures
        wrap(wrap(a) + b) == wrap(a + b),
{
    lemma_add_mod_noop(a, b, word_range());
    lemma_add_mod_noop(a % word_range(), b, word_range());
    assert(0 <= a % word_range() < word_range());
    vstd::arithmetic::div_mod::lemma_small_mod((a % word_range()) as nat, word_range() as nat);
}

/// Folding values in one at a time, as they are drawn, gives the same word as
/// the checksum computed afterwards over the whole sequence, for every sequence
/// and every seed table.
pub proof fn lemma_offset_matches_check(values: Seq<u32>, sr: Seq<u32>)
    ensures
        accumulate(values, sr) == checksum_of(values, sr),
    decreases values.len(),
{
    if values.len() > 0 {
        let prev = values.drop_last();
        let r = values.last();
        lemma_offset_matches_check(prev, sr);
        let a = sr.len() * sum(prev) + prev.len() * sum(sr);
        lemma_wrap_add(a, sr.len() * r + sum(sr));
        lemma_mul_is_distributive_add(sr.len() as int, sum(prev), r as int);
        assert(values.len() * sum(sr) == prev.len() * sum(sr) + sum(sr)) by (nonlinear_arith)
            requires
                values.len() == prev.len() + 1,
        ;
    }
}

/// Folds the drawn value `r` into `acc` against the seed table.
pub fn fold_in(acc: u32, r: u32, sr: &[u32; SRSIZE]) -> (res: u32)
    ensures
        res == fold_value(acc, r, sr@),
{
    let mut out: u32 = acc;
    let mut idx: usize = 0;
    while idx < SRSIZE
        invariant
            idx <= SRSIZE,
            sr@.len() == SRSIZE,
            out == wrap(acc + idx * r + sum(sr@.take(idx as int))),
        decreases SRSIZE - idx,
    {
        let step = r.wrapping_add(sr[idx]);
        assert(step == wrap(r + sr@[idx as int]));
        assert(sr@.take(idx + 1).drop_last() =~= sr@.take(idx as int));
        let ghost before = acc + idx * r + sum(sr@.take(idx as int));
        proof {
            lemma_wrap_add(before, r + sr@[idx as int]);
            lemma_add_mod_noop(wrap(before) as int, r + sr@[idx as int], word_range());
            lemma_wrap_add(r + sr@[idx as int], wrap(before) as int);
            assert((idx + 1) * r == idx * r + r) by (nonlinear_arith);
        }
        out = out.wrapping_add(step);
        idx = idx + 1;
    }
    assert(sr@.take(SRSIZE as int) =~= sr@);
    out
}

/// Recomputes, from the recorded values alone, the checksum that folding them
/// in one at a time produced.
pub fn checksum(values: &Vec<u32>, sr: &[u32; SRSIZE]) -> (check: u32)
    ensures
        check == checksum_of(values@, sr@),
{
    let mut check: u32 = 0;
    let mut k: usize = 0;
    while k < values.len()
        invariant
            k <= values@.len(),
            check == accumulate(values@.take(k as int), sr@),
        decreases values@.len() - k,
    {
        assert(values@.take(k + 1).drop_last() =~= values@.take(k as int));
        check = fold_in(check, values[k], sr);
        k = k + 1;
    }
    assert(values@.take(k as int) =~= values@);
    proof {
        lemma_offset_matches_check(values@, sr@);
    }
    check
}

} // verus!
