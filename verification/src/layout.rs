//! Layout arithmetic for per-CPU data areas: the 64-byte alignment used for
//! the stride between consecutive CPU areas.

use vstd::prelude::*;
use vstd::arithmetic::div_mod::{
    lemma_fundamental_div_mod, lemma_fundamental_div_mod_converse, lemma_mod_bound,
    lemma_mod_multiples_basic,
};

verus! {

/// `x` rounded up to the next multiple of 64, as a mathematical integer.
pub open spec fn spec_align_up_64(x: int) -> int {
    ((x + 63) / 64) * 64
}

/// Rounds a size up to the next multiple of 64 bytes, the alignment kept
/// between consecutive per-CPU areas.
pub fn align_up_64(val: usize) -> (r: usize)
    requires
        val + 63 <= usize::MAX,
    ensures
        r == spec_align_up_64(val as int),
        r % 64 == 0,
        val <= r < val + 64,
{
    let t = val + 63;
    let r = t & !0x3f;
    proof {
        assert(r == t - (t % 64) && t % 64 < 64) by (bit_vector)
            requires
                r == t & !0x3fusize,
        ;
        lemma_fundamental_div_mod(t as int, 64);
        lemma_align_up_64_properties(val as int);
    }
    r
}

/// The rounded value is a multiple of 64, is at least `x`, and exceeds `x`
/// by less than the alignment.
pub proof fn lemma_align_up_64_properties(x: int)
    requires
        x >= 0,
    ensures
        spec_align_up_64(x) % 64 == 0,
        x <= spec_align_up_64(x) < x + 64,
{
    let q = (x + 63) / 64;
    lemma_mod_multiples_basic(q, 64);
    lemma_fundamental_div_mod(x + 63, 64);
    lemma_mod_bound(x + 63, 64);
}

/// Rounding up to a multiple of 64 is idempotent: a value that is already
/// aligned is left unchanged, so a second rounding has no effect.
pub proof fn lemma_align_up_64_idempotent(x: int)
    requires
        x >= 0,
    ensures
        spec_align_up_64(spec_align_up_64(x)) == spec_align_up_64(x),
{
    lemma_align_up_64_properties(x);
    let y = spec_align_up_64(x);
    let q = y / 64;
    lemma_fundamental_div_mod(y, 64);
    assert(y == q * 64);
    lemma_fundamental_div_mod_converse(y + 63, 64, q, 63);
    assert((y + 63) / 64 == q);
}

} // verus!
