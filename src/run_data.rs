//! The run aggregator: step counts of finished evolutions, keyed by chain length.
use vstd::prelude::*;

use std::collections::BTreeMap;

verus! {

broadcast use vstd::laws_cmp::group_laws_cmp;

/// The outcome of one evolution: the number of steps until the chain died.
#[derive(Debug, Clone, Copy, PartialEq, Eq, Structural)]
pub struct Run {
    pub step_count: u128,
}

/// Step counts of finished evolutions, listed in order of arrival for each
/// chain length.
#[derive(Debug, Clone)]
pub struct RunData {
    pub runs: BTreeMap<usize, Vec<u128>>,
}

impl View for RunData {
    type V = Map<usize, Seq<u128>>;

    open spec fn view(&self) -> Map<usize, Seq<u128>> {
        self.runs@.map_values(|counts: Vec<u128>| counts@)
    }
}

/// The counts recorded for `chain_size` so far; none when it has no entry.
pub open spec fn counts_for(runs: Map<usize, Seq<u128>>, chain_size: usize) -> Seq<u128> {
    if runs.contains_key(chain_size) {
        runs[chain_size]
    } else {
        Seq::empty()
    }
}

impl RunData {
    /// An aggregator with no runs.
    pub fn new() -> (run_data: RunData)
        ensures
            run_data@ == Map::<usize, Seq<u128>>::empty(),
    {
        let runs: BTreeMap<usize, Vec<u128>> = BTreeMap::new();
        let run_data = RunData { runs };
        assert(run_data@ =~= Map::<usize, Seq<u128>>::empty());
        run_data
    }
}

/// Appends `steps` to the counts recorded for `chain_size`; every other
/// chain length keeps its counts.
pub fn update_run_data(run_data: &mut RunData, chain_size: usize, steps: u128)
    ensures
        final(run_data)@ == old(run_data)@.insert(
            chain_size,
            counts_for(old(run_data)@, chain_size).push(steps),
        ),
{
    let ghost old_runs = run_data.runs@;
    match run_data.runs.remove(&chain_size) {
        Some(mut counts) => {
            assert(old_runs.contains_key(chain_size) && counts == old_runs[chain_size]);
            counts.push(steps);
            run_data.runs.insert(chain_size, counts);
            assert(run_data.runs@ == old_runs.remove(chain_size).insert(chain_size, counts));
        },
        None => {
            assert(!old_runs.contains_key(chain_size));
            let new_run_vec: Vec<u128> = vec![steps];
            run_data.runs.insert(chain_size, new_run_vec);
            assert(run_data.runs@ == old_runs.insert(chain_size, new_run_vec));
            assert(new_run_vec@ =~= Seq::<u128>::empty().push(steps));
        },
    }
    assert(run_data@ =~= old(run_data)@.insert(
        chain_size,
        counts_for(old(run_data)@, chain_size).push(steps),
    ));
}

} // verus!
