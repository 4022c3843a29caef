//! Remainders by powers of two.
use vstd::prelude::*;

verus! {

/// Where `size` is a power of two, the remainder is what the bits below it say.
pub proof fn lemma_mask(index: usize, size: usize)
    requires
        size > 0,
        size & ((size - 1) as usize) == 0,
    ensures
        index & ((size - 1) as usize) == index % size,
    decreases size,
{
    if size == 1 {
        assert(index & 0 == 0) by (bit_vector);
    } else {
        assert(size % 2 == 0) by (bit_vector)
            requires
                size > 1,
                size & ((size - 1) as usize) == 0,
        ;
        let half: usize = size / 2;
        let rest: usize = index / 2;
        assert(half & ((half - 1) as usize) == 0) by (bit_vector)
            requires
                size > 1,
                half == size / 2,
                size % 2 == 0,
                size & ((size - 1) as usize) == 0,
        ;
        lemma_mask(rest, half);
        assert(index & ((size - 1) as usize) == 2 * (rest & ((half - 1) as usize)) + index % 2)
            by (bit_vector)
            requires
                size > 1,
                half == size / 2,
                rest == index / 2,
                size % 2 == 0,
        ;
        let q = (rest / half) as int;
        let r = (rest % half) as int;
        vstd::arithmetic::div_mod::lemma_fundamental_div_mod(rest as int, half as int);
        assert(index == q * size + (2 * r + index % 2)) by (nonlinear_arith)
            requires
                rest == half * q + r,
                size == 2 * half,
                index == 2 * rest + index % 2,
        ;
        vstd::arithmetic::div_mod::lemma_fundamental_div_mod_converse(
            index as int,
            size as int,
            q,
            2 * r + index % 2,
        );
    }
}

} // verus!
