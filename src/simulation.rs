//! Trials of one chain size: generate excited chains, evolve each until it
//! dies and record the lifetimes.
use vstd::prelude::*;

use std::collections::HashMap;

use crate::evolution::run_until_dead;
use crate::run_data::{counts_for, update_run_data, RunData};
use crate::spin_chain::{has_bond_types, spin_sector_of, ChainError, SpinChain};

verus! {

/// The smallest chain size that a run of `spin_sector` starts from: the
/// requested minimum, raised to the `2 * spin_sector + 2` sites that the bonds
/// need.
pub fn starting_chain_size(min_chain_size: usize, spin_sector: usize) -> (current_size: usize)
    requires
        2 * spin_sector + 2 <= usize::MAX,
    ensures
        current_size == if min_chain_size < 2 * spin_sector + 2 {
            2 * spin_sector + 2
        } else {
            min_chain_size as int
        },
{
    let hard_limit = (2 * spin_sector) + 2;
    if min_chain_size < hard_limit {
        hard_limit
    } else {
        min_chain_size
    }
}

/// `after` is `before` with `added` appended to the counts of `chain_size`,
/// every other chain size untouched.
pub open spec fn appended_runs(
    before: Map<usize, Seq<u128>>,
    after: Map<usize, Seq<u128>>,
    chain_size: usize,
    added: Seq<u128>,
) -> bool {
    &&& after.remove(chain_size) == before.remove(chain_size)
    &&& counts_for(after, chain_size) == counts_for(before, chain_size) + added
    &&& after.contains_key(chain_size) == (before.contains_key(chain_size) || added.len() > 0)
}

/// Runs `number_of_trials` chains of `chain_size` with the bonds of
/// `excited_bond_map`, each evolved until it dies or `max_steps` steps have
/// passed, and appends the lifetime of each chain that died to the counts of
/// `chain_size`. Returns how many chains were dropped at the step ceiling, or
/// the error of the excitation spec, with nothing recorded.
pub fn run_chain_size<const N: usize>(
    run_data: &mut RunData,
    excited_bond_map: &HashMap<usize, usize>,
    chain_size: usize,
    number_of_trials: usize,
    max_steps: u128,
    rng: &mut rand_mt::Mt64,
) -> (r: Result<usize, ChainError>)
    requires
        4 <= chain_size <= u32::MAX,
        chain_size % 2 == 0,
    ensures
        (r == Err::<usize, ChainError>(ChainError::MalformedSpecError)) <==> !has_bond_types(
            excited_bond_map@,
        ),
        (r == Err::<usize, ChainError>(ChainError::ConstraintError)) <==> has_bond_types(
            excited_bond_map@,
        ) && 2 * spin_sector_of(excited_bond_map@) > chain_size - 2,
        r is Err ==> {
            &&& final(run_data)@ == old(run_data)@
            &&& (r == Err::<usize, ChainError>(ChainError::MalformedSpecError) || r == Err::<
                usize,
                ChainError,
            >(ChainError::ConstraintError))
        },
        r is Ok ==> {
            &&& r->Ok_0 <= number_of_trials
            &&& exists|added: Seq<u128>|
                {
                    &&& added.len() + r->Ok_0 == number_of_trials
                    &&& forall|t: int| 0 <= t < added.len() ==> 1 <= #[trigger] added[t] <= max_steps
                    &&& #[trigger] appended_runs(
                        old(run_data)@,
                        final(run_data)@,
                        chain_size,
                        added,
                    )
                }
        },
{
    match SpinChain::<N>::validate_excited_sites(excited_bond_map, chain_size) {
        Ok(_) => {},
        Err(e) => {
            return Err(e);
        },
    }
    let mut dropped: usize = 0;
    let mut trial: usize = 0;
    let ghost mut added: Seq<u128> = Seq::empty();
    assert(appended_runs(run_data@, run_data@, chain_size, added)) by {
        assert(counts_for(run_data@, chain_size) + added =~= counts_for(run_data@, chain_size));
    }
    while trial < number_of_trials
        invariant
            4 <= chain_size <= u32::MAX,
            chain_size % 2 == 0,
            has_bond_types(excited_bond_map@),
            2 * spin_sector_of(excited_bond_map@) <= chain_size - 2,
            trial <= number_of_trials,
            added.len() + dropped == trial,
            forall|t: int| 0 <= t < added.len() ==> 1 <= #[trigger] added[t] <= max_steps,
            appended_runs(old(run_data)@, run_data@, chain_size, added),
        decreases number_of_trials - trial,
    {
        let mut spin_chain = match SpinChain::<N>::new_excited(excited_bond_map, chain_size, rng) {
            Ok(made) => made,
            Err(e) => {
                return Err(e);
            },
        };
        match run_until_dead(&mut spin_chain.chain, max_steps, rng) {
            Ok(step_count) => {
                let ghost before = run_data@;
                update_run_data(run_data, chain_size, step_count);
                proof {
                    let next = added.push(step_count);
                    assert(run_data@.remove(chain_size) =~= before.remove(chain_size));
                    assert(counts_for(run_data@, chain_size) =~= counts_for(
                        old(run_data)@,
                        chain_size,
                    ) + next);
                    added = next;
                }
            },
            Err(_) => {
                dropped = dropped + 1;
            },
        }
        trial = trial + 1;
    }
    Ok(dropped)
}

} // verus!
