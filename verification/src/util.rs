//! Small shared arithmetic helpers.

use vstd::prelude::*;

verus! {

/// `x` rounded up to the next multiple of `alignment`.
pub open spec fn spec_align(x: int, alignment: int) -> int {
    ((x + alignment - 1) / alignment) * alignment
}

/// Rounds `x` up to the next multiple of `alignment`.
pub fn align(x: usize, alignment: usize) -> (r: usize)
    requires
        alignment >= 1,
        x + alignment - 1 <= usize::MAX,
    ensures
        r == spec_align(x as int, alignment as int),
        r % alignment == 0,
        x <= r < x + alignment,
{
    let rounded: usize = (x + (alignment - 1)) / alignment;
    proof {
        let a = alignment as int;
        let q = (x + a - 1) / a;
        vstd::arithmetic::div_mod::lemma_fundamental_div_mod(x as int + a - 1, a);
        assert(q * a == x + a - 1 - ((x + a - 1) % a));
        assert(0 <= (x + a - 1) % a < a);
        vstd::arithmetic::div_mod::lemma_mod_multiples_basic(q, a);
    }
    rounded * alignment
}

} // verus!
