//! Site-by-site statistics over collections of generated chains.
use vstd::prelude::*;

use crate::spin_chain::SpinChain;

verus! {

/// The spin at site `j` of `chain`, or nothing when the chain is shorter.
pub open spec fn spin_at(chain: Seq<i8>, j: int) -> int {
    if 0 <= j < chain.len() {
        chain[j] as int
    } else {
        0
    }
}

/// The sum of the spins at site `j` over the first `count` chains.
pub open spec fn site_total<const N: usize>(chains: Seq<SpinChain<N>>, j: int, count: int) -> int
    decreases count,
{
    if count <= 0 {
        0
    } else {
        site_total(chains, j, count - 1) + spin_at(chains[count - 1].chain@, j)
    }
}

/// A site total over `count` chains lies within `+-128 count`.
proof fn lemma_site_total_bound<const N: usize>(chains: Seq<SpinChain<N>>, j: int, count: int)
    requires
        0 <= count <= chains.len(),
    ensures
        -128 * count <= site_total(chains, j, count) <= 128 * count,
    decreases count,
{
    if count > 0 {
        lemma_site_total_bound(chains, j, count - 1);
    }
}

/// Sums the spins at each site over all chains: entry `j` is the net spin
/// at site `j`, so that a value equal to the number of chains means every
/// chain is up there.
pub fn accumulate_spins_in_chain<const N: usize>(spin_chain_vec: &Vec<SpinChain<N>>) -> (spin_accum_array:
    [i128; N])
    requires
        forall|i: int|
            0 <= i < spin_chain_vec@.len() ==> (#[trigger] spin_chain_vec@[i]).chain@.len() <= N,
    ensures
        forall|j: int|
            0 <= j < N ==> #[trigger] spin_accum_array@[j] == site_total(
                spin_chain_vec@,
                j,
                spin_chain_vec@.len() as int,
            ),
{
    let mut spin_accum_array: [i128; N] = [0; N];
    let mut i: usize = 0;
    while i < spin_chain_vec.len()
        invariant
            i <= spin_chain_vec@.len(),
            spin_accum_array@.len() == N,
            forall|c: int|
                0 <= c < spin_chain_vec@.len() ==> (#[trigger] spin_chain_vec@[c]).chain@.len()
                    <= N,
            forall|j: int|
                0 <= j < N ==> #[trigger] spin_accum_array@[j] == site_total(
                    spin_chain_vec@,
                    j,
                    i as int,
                ),
        decreases spin_chain_vec@.len() - i,
    {
        let spin_chain = &spin_chain_vec[i].chain;
        let ghost before = spin_accum_array@;
        let mut j: usize = 0;
        while j < spin_chain.len()
            invariant
                i < spin_chain_vec@.len(),
                *spin_chain == spin_chain_vec@[i as int].chain,
                spin_chain@.len() <= N,
                j <= spin_chain@.len(),
                spin_accum_array@.len() == N,
                before.len() == N,
                forall|k: int| 0 <= k < N ==> before[k] == site_total(spin_chain_vec@, k, i as int),
                forall|k: int|
                    0 <= k < N ==> #[trigger] spin_accum_array@[k] == before[k] + if k < j {
                        spin_chain@[k] as int
                    } else {
                        0
                    },
            decreases spin_chain@.len() - j,
        {
            proof {
                lemma_site_total_bound(spin_chain_vec@, j as int, i as int);
                assert(128 * i <= 128 * 0x1_0000_0000_0000_0000) by (nonlinear_arith)
                    requires
                        i <= 0x1_0000_0000_0000_0000,
                ;
            }
            spin_accum_array[j] = spin_accum_array[j] + spin_chain[j] as i128;
            j = j + 1;
        }
        i = i + 1;
    }
    spin_accum_array
}

} // verus!
