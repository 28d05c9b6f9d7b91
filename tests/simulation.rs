use std::collections::HashMap;

use fredkin::run_data::{update_run_data, RunData};
use fredkin::simulation::{run_chain_size, starting_chain_size};
use fredkin::spin_chain::ChainError;
use rand_mt::Mt64;

fn one_up_cant_bond() -> HashMap<usize, usize> {
    let mut map = HashMap::new();
    map.insert(0, 1);
    map.insert(1, 0);
    map.insert(2, 0);
    map
}

#[test]
fn starting_size_is_raised_to_fit_the_bonds() {
    assert_eq!(starting_chain_size(0, 1), 4);
    assert_eq!(starting_chain_size(10, 1), 10);
    assert_eq!(starting_chain_size(6, 3), 8);
    assert_eq!(starting_chain_size(8, 3), 8);
}

#[test]
fn every_trial_records_a_lifetime() {
    let mut data = RunData::new();
    update_run_data(&mut data, 6, 99);
    let mut rng = Mt64::new(17);
    let dropped = run_chain_size::<42>(&mut data, &one_up_cant_bond(), 8, 25, 10_000_000, &mut rng);
    assert_eq!(dropped, Ok(0));
    let counts = data.runs.get(&8).unwrap();
    assert_eq!(counts.len(), 25);
    assert!(counts.iter().all(|c| *c >= 1 && *c <= 10_000_000));
    assert_eq!(data.runs.get(&6), Some(&vec![99]));
}

#[test]
fn chains_alive_at_the_ceiling_are_dropped() {
    let mut data = RunData::new();
    let mut rng = Mt64::new(23);
    let dropped = run_chain_size::<42>(&mut data, &one_up_cant_bond(), 40, 10, 1, &mut rng).unwrap();
    let recorded = data.runs.get(&40).map(|c| c.len()).unwrap_or(0);
    assert_eq!(recorded + dropped, 10);
    assert!(dropped > 0);
}

#[test]
fn a_bad_spec_records_nothing() {
    let mut data = RunData::new();
    let mut rng = Mt64::new(29);
    let mut bad = one_up_cant_bond();
    bad.remove(&2);
    assert_eq!(
        run_chain_size::<42>(&mut data, &bad, 8, 5, 1000, &mut rng),
        Err(ChainError::MalformedSpecError)
    );
    let mut crowded = one_up_cant_bond();
    crowded.insert(1, 3);
    assert_eq!(
        run_chain_size::<42>(&mut data, &crowded, 8, 5, 1000, &mut rng),
        Err(ChainError::ConstraintError)
    );
    assert!(data.runs.is_empty());
}
