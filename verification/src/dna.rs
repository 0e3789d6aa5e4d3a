//! The rule that combines the genomes of two kitties into a third.

use vstd::prelude::*;

verus! {

/// The byte that takes each bit from `dna1` where `selector` has a one and
/// from `dna2` where it has a zero.
pub open spec fn combined_byte(dna1: u8, dna2: u8, selector: u8) -> u8 {
    (selector & dna1) | (!selector & dna2)
}

/// The genome whose every byte is the bitwise selection between the bytes of
/// the two parents at that position.
pub open spec fn combined(dna1: [u8; 16], dna2: [u8; 16], selector: [u8; 16]) -> [u8; 16] {
    [
        combined_byte(dna1[0], dna2[0], selector[0]),
        combined_byte(dna1[1], dna2[1], selector[1]),
        combined_byte(dna1[2], dna2[2], selector[2]),
        combined_byte(dna1[3], dna2[3], selector[3]),
        combined_byte(dna1[4], dna2[4], selector[4]),
        combined_byte(dna1[5], dna2[5], selector[5]),
        combined_byte(dna1[6], dna2[6], selector[6]),
        combined_byte(dna1[7], dna2[7], selector[7]),
        combined_byte(dna1[8], dna2[8], selector[8]),
        combined_byte(dna1[9], dna2[9], selector[9]),
        combined_byte(dna1[10], dna2[10], selector[10]),
        combined_byte(dna1[11], dna2[11], selector[11]),
        combined_byte(dna1[12], dna2[12], selector[12]),
        combined_byte(dna1[13], dna2[13], selector[13]),
        combined_byte(dna1[14], dna2[14], selector[14]),
        combined_byte(dna1[15], dna2[15], selector[15]),
    ]
}

/// Every byte of a combined genome is the combination of the bytes at its
/// position.
pub proof fn lemma_combined_bytes(dna1: [u8; 16], dna2: [u8; 16], selector: [u8; 16])
    ensures
        forall|i: int|
            0 <= i < 16 ==> #[trigger] combined(dna1, dna2, selector)[i] == combined_byte(
                dna1[i],
                dna2[i],
                selector[i],
            ),
{
}

/// Combines one byte of each parent under one byte of the selector.
pub fn combine_dna(dna1: u8, dna2: u8, selector: u8) -> (child: u8)
    ensures
        child == combined_byte(dna1, dna2, selector),
{
    (selector & dna1) | (!selector & dna2)
}

/// Combines the genomes of two parents, byte by byte, under a selector.
pub fn combine_genomes(dna1: &[u8; 16], dna2: &[u8; 16], selector: &[u8; 16]) -> (child: [u8; 16])
    ensures
        child == combined(*dna1, *dna2, *selector),
{
    let mut new_dna = [0u8; 16];
    for i in 0..16
        invariant
            forall|j: int|
                0 <= j < i ==> #[trigger] new_dna[j] == combined_byte(dna1[j], dna2[j], selector[j]),
    {
        new_dna[i] = combine_dna(dna1[i], dna2[i], selector[i]);
    }
    proof {
        lemma_combined_bytes(*dna1, *dna2, *selector);
        assert(new_dna@ =~= combined(*dna1, *dna2, *selector)@);
    }
    new_dna
}

} // verus!
