use fredkin::evolution::{evolve_chain, evolve_with_script, run_until_dead, EvolutionError};
use fredkin::spin_chain::SpinChain;
use rand_mt::Mt64;

#[test]
fn open_open_down_swaps_middle_and_right() {
    let mut chain: Vec<i8> = vec![1, 1, -1, 1, -1, -1];
    assert!(evolve_chain(&mut chain, 0, 6));
    assert_eq!(chain, vec![1, -1, 1, 1, -1, -1]);
}

#[test]
fn open_down_open_swaps_middle_and_right() {
    let mut chain: Vec<i8> = vec![1, -1, 2, -1, 1, -1];
    assert!(evolve_chain(&mut chain, 0, 6));
    assert_eq!(chain, vec![1, 2, -1, -1, 1, -1]);
}

#[test]
fn open_down_down_swaps_middle_and_left_away_from_the_wall() {
    let mut chain: Vec<i8> = vec![1, 2, -1, -1, 1, -1];
    assert!(evolve_chain(&mut chain, 1, 6));
    assert_eq!(chain, vec![1, -1, 2, -1, 1, -1]);
}

#[test]
fn open_down_down_at_the_left_wall_is_a_null_step() {
    let mut chain: Vec<i8> = vec![1, -1, -1, 1, 1, -1];
    assert!(evolve_chain(&mut chain, 0, 6));
    assert_eq!(chain, vec![1, -1, -1, 1, 1, -1]);
}

#[test]
fn down_open_down_swaps_middle_and_left() {
    let mut chain: Vec<i8> = vec![1, -1, 2, -1, 1, -1];
    assert!(evolve_chain(&mut chain, 1, 6));
    assert_eq!(chain, vec![1, 2, -1, -1, 1, -1]);
}

#[test]
fn down_open_down_at_the_left_wall_is_a_null_step() {
    let mut chain: Vec<i8> = vec![-1, 1, -1, 1, 1, -1];
    assert!(evolve_chain(&mut chain, 0, 6));
    assert_eq!(chain, vec![-1, 1, -1, 1, 1, -1]);
}

#[test]
fn unmatched_pattern_is_a_null_step_that_stays_alive() {
    let mut chain: Vec<i8> = vec![1, 1, 1, -1, -1, -1];
    assert!(evolve_chain(&mut chain, 0, 6));
    assert_eq!(chain, vec![1, 1, 1, -1, -1, -1]);
}

#[test]
fn open_open_down_at_the_right_wall_dies_without_a_swap() {
    let mut chain: Vec<i8> = vec![1, -1, 1, 2, 1, -1];
    assert!(!evolve_chain(&mut chain, 3, 6));
    assert_eq!(chain, vec![1, -1, 1, 2, 1, -1]);
}

#[test]
fn scripted_evolution_of_minimal_bond_reaches_dead() {
    // a size-8 chain with its one bond on the first two sites
    let mut chain: Vec<i8> = vec![2, 2, 1, -1, 1, -1, 1, -1];
    let script: Vec<usize> = vec![0, 1, 2, 3, 4, 5];
    assert_eq!(evolve_with_script(&mut chain, &script), Some(6));
    assert_eq!(chain, vec![2, 2, -1, 1, -1, 1, 1, -1]);
}

#[test]
fn scripted_evolution_stops_at_the_first_dead_step() {
    let mut chain: Vec<i8> = vec![2, 2, 1, -1, 1, -1, 1, -1];
    let script: Vec<usize> = vec![0, 1, 2, 3, 4, 5, 0, 1, 2, 3, 4, 5];
    assert_eq!(evolve_with_script(&mut chain, &script), Some(6));
    assert_eq!(chain, vec![2, 2, -1, 1, -1, 1, 1, -1]);
}

#[test]
fn scripted_evolution_that_never_dies_returns_none() {
    let mut chain: Vec<i8> = vec![2, 2, 1, 1, 1, -1, -1, -1];
    let mut script: Vec<usize> = Vec::new();
    for _ in 0..100 {
        for i in 0..6 {
            script.push(i);
        }
    }
    assert_eq!(evolve_with_script(&mut chain, &script), None);
    assert_eq!(chain, vec![2, 2, 1, 1, 1, -1, -1, -1]);
}

#[test]
fn seeded_evolution_is_reproducible_and_dies() {
    let mut counts: Vec<u128> = Vec::new();
    for _ in 0..2 {
        let mut rng = Mt64::new(2024);
        let mut chain = SpinChain::<8>::construct_excited_chain(&vec![0, 1], 8, &mut rng);
        let steps = run_until_dead(&mut chain, 1_000_000, &mut rng).unwrap();
        assert!(steps >= 1);
        let n = chain.len();
        assert!(chain[n - 3] == 1 || chain[n - 3] == 2);
        assert!(chain[n - 2] == 1 || chain[n - 2] == 2);
        assert_eq!(chain[n - 1], -1);
        counts.push(steps);
    }
    assert_eq!(counts[0], counts[1]);
}

#[test]
fn evolution_gives_up_at_the_step_ceiling() {
    // a chain without bonds whose excitation can never reach the right wall
    let mut chain: Vec<i8> = vec![1, -1, 1, 1, -1, -1];
    let mut rng = Mt64::new(7);
    assert_eq!(
        run_until_dead(&mut chain, 500, &mut rng),
        Err(EvolutionError::StepCeilingReached)
    );
    let ups = chain.iter().filter(|t| **t == 1).count();
    assert_eq!(ups, 3);
}
