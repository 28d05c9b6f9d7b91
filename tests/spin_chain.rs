use std::collections::HashMap;

use fredkin::layout::EXCITED_UP;
use fredkin::spin_chain::{hash_chain, validate_site_index_map, ChainError, SpinChain};
use rand_mt::Mt64;

type Chain42 = SpinChain<42>;

fn bond_map(up_cant: usize, down_cant: usize, mismatch: usize) -> HashMap<usize, usize> {
    let mut map = HashMap::new();
    map.insert(0, up_cant);
    map.insert(1, down_cant);
    map.insert(2, mismatch);
    map
}

fn is_dyck(tokens: &[i8]) -> bool {
    let mut height: i64 = 0;
    for t in tokens {
        match *t {
            1 => height += 1,
            -1 => height -= 1,
            _ => return false,
        }
        if height < 0 {
            return false;
        }
    }
    height == 0
}

fn marker_sites(chain: &[i8]) -> Vec<usize> {
    (0..chain.len()).filter(|i| chain[*i] == EXCITED_UP).collect()
}

fn weight(t: i8) -> i64 {
    if t == -1 {
        -1
    } else {
        1
    }
}

fn check_generated(chain: &[i8], bonds: usize) {
    let n = chain.len();
    assert_eq!(chain[n - 1], -1);
    assert!(chain[0] == 1 || chain[0] == EXCITED_UP);
    let mut height: i64 = 0;
    for t in chain {
        height += weight(*t);
        assert!(height >= 0);
    }
    assert_eq!(height, 2 * bonds as i64);
    let sites = marker_sites(chain);
    assert_eq!(sites.len(), 2 * bonds);
    for (q, site) in sites.iter().enumerate() {
        assert_eq!(site % 2, q % 2);
        assert!(site + 2 < n);
    }
    assert_eq!(sites.iter().filter(|s| *s % 2 == 0).count(), bonds);
    let mut start = 0;
    for site in &sites {
        assert!(is_dyck(&chain[start..*site]));
        start = site + 1;
    }
    assert!(is_dyck(&chain[start..]));
    let mut bracket: i64 = 0;
    for (p, t) in chain.iter().enumerate() {
        bracket += if *t == EXCITED_UP {
            if p % 2 == 0 {
                1
            } else {
                -1
            }
        } else {
            weight(*t)
        };
        assert!(bracket >= 0);
    }
    assert_eq!(bracket, 0);
}

#[test]
fn single_up_cant_bond_in_a_chain_of_eight() {
    for seed in 0..200 {
        let mut rng = Mt64::new(seed);
        let made = Chain42::new_excited(&bond_map(1, 0, 0), 8, &mut rng).unwrap();
        assert_eq!(made.chain.len(), 8);
        assert_eq!(made.spin_sector, 1);
        let sites = marker_sites(&made.chain);
        assert_eq!(sites.len(), 2);
        assert!([0, 2, 4].contains(&sites[0]));
        assert!([1, 3, 5].contains(&sites[1]));
        assert!(sites[0] < sites[1]);
        assert_eq!(made.chain[7], -1);
        if sites[0] != 0 {
            assert_eq!(made.chain[0], 1);
        }
        check_generated(&made.chain, 1);
    }
}

#[test]
fn generated_chains_satisfy_the_chain_invariants() {
    let mut rng = Mt64::new(99);
    for chain_size in (4..=40).step_by(2) {
        for bonds in 0..=(chain_size - 2) / 2 {
            let made = Chain42::new_excited(&bond_map(bonds, 0, 0), chain_size, &mut rng).unwrap();
            assert_eq!(made.chain.len(), chain_size);
            check_generated(&made.chain, bonds);
        }
    }
}

#[test]
fn chain_without_bonds_is_one_balanced_word() {
    let mut rng = Mt64::new(5);
    let made = Chain42::new_excited(&bond_map(0, 0, 0), 12, &mut rng).unwrap();
    assert_eq!(made.spin_sector, 0);
    assert_eq!(made.chain[0], 1);
    assert!(is_dyck(&made.chain));
}

#[test]
fn all_bond_types_count_toward_the_spin_sector() {
    let mut rng = Mt64::new(6);
    let made = Chain42::new_excited(&bond_map(1, 2, 1), 10, &mut rng).unwrap();
    assert_eq!(made.spin_sector, 4);
    check_generated(&made.chain, 1);
}

#[test]
fn too_many_bonds_is_a_constraint_error() {
    let mut rng = Mt64::new(1);
    // 2 * 4 > 8 - 2
    let r = Chain42::new_excited(&bond_map(4, 0, 0), 8, &mut rng);
    assert!(matches!(r, Err(ChainError::ConstraintError)));
    // the other bond types count too
    let r = Chain42::new_excited(&bond_map(2, 1, 1), 8, &mut rng);
    assert!(matches!(r, Err(ChainError::ConstraintError)));
    // exactly filling the interior is allowed
    let r = Chain42::new_excited(&bond_map(3, 0, 0), 8, &mut rng);
    assert!(r.is_ok());
    let r = Chain42::new_excited(&bond_map(usize::MAX, usize::MAX, 0), 8, &mut rng);
    assert!(matches!(r, Err(ChainError::ConstraintError)));
}

#[test]
fn missing_or_extra_bond_types_are_malformed() {
    let mut rng = Mt64::new(2);
    let mut missing = HashMap::new();
    missing.insert(0, 1);
    missing.insert(1, 0);
    let r = Chain42::new_excited(&missing, 8, &mut rng);
    assert!(matches!(r, Err(ChainError::MalformedSpecError)));
    let mut extra = bond_map(1, 0, 0);
    extra.insert(3, 0);
    let r = Chain42::new_excited(&extra, 8, &mut rng);
    assert!(matches!(r, Err(ChainError::MalformedSpecError)));
    let mut wrong_key = HashMap::new();
    wrong_key.insert(0, 1);
    wrong_key.insert(1, 0);
    wrong_key.insert(5, 0);
    let r = Chain42::new_excited(&wrong_key, 8, &mut rng);
    assert!(matches!(r, Err(ChainError::MalformedSpecError)));
}

#[test]
fn validate_excited_sites_returns_the_spin_sector() {
    assert_eq!(Chain42::validate_excited_sites(&bond_map(1, 1, 1), 8), Ok(3));
    assert_eq!(
        Chain42::validate_excited_sites(&bond_map(2, 1, 1), 8),
        Err(ChainError::ConstraintError)
    );
    assert_eq!(Chain42::validate_excited_sites(&bond_map(0, 0, 0), 2), Ok(0));
}

#[test]
fn dyck_words_fill_every_even_interval() {
    let mut rng = Mt64::new(8);
    for length in (0..=40).step_by(2) {
        for _ in 0..20 {
            let mut chain: Vec<i8> = vec![7; length + 6];
            Chain42::generate_arbitrary_dyck_words(&mut chain, 3, 3 + length, length as u32, &mut rng);
            assert!(is_dyck(&chain[3..3 + length]));
            assert_eq!(&chain[..3], &[7, 7, 7]);
            assert_eq!(&chain[3 + length..], &[7, 7, 7]);
        }
    }
}

#[test]
fn dyck_words_vary_with_the_draws() {
    let mut rng = Mt64::new(12);
    let mut seen: Vec<Vec<i8>> = Vec::new();
    for _ in 0..200 {
        let mut chain: Vec<i8> = vec![0; 8];
        Chain42::generate_arbitrary_dyck_words(&mut chain, 0, 8, 8, &mut rng);
        if !seen.contains(&chain) {
            seen.push(chain);
        }
    }
    assert!(seen.len() > 1);
}

#[test]
fn site_order_validation() {
    assert!(validate_site_index_map(&vec![]));
    assert!(validate_site_index_map(&vec![0, 3, 4, 7]));
    assert!(!validate_site_index_map(&vec![1, 2]));
    assert!(!validate_site_index_map(&vec![0, 2, 3, 5]));
}

#[test]
fn drawn_sites_have_the_requested_parities() {
    for seed in 0..100 {
        let mut rng = Mt64::new(seed);
        let sites = Chain42::populate_up_cant_site_index_map(2, 12, &mut rng);
        assert_eq!(sites.len(), 4);
        assert_eq!(sites.iter().filter(|s| *s % 2 == 0).count(), 2);
        for w in sites.windows(2) {
            assert!(w[0] < w[1]);
        }
        assert!(sites.iter().all(|s| *s < 10));
    }
}

#[test]
fn full_placement_takes_every_interior_site() {
    let mut rng = Mt64::new(4);
    let sites = Chain42::populate_up_cant_site_index_map(3, 8, &mut rng);
    assert_eq!(sites, vec![0, 1, 2, 3, 4, 5]);
}

#[test]
fn alternating_sites_are_always_valid() {
    for seed in 0..100 {
        let mut rng = Mt64::new(seed);
        let sites = Chain42::populate_alternating_sites(3, 14, &mut rng);
        assert_eq!(sites.len(), 6);
        assert!(validate_site_index_map(&sites));
        for w in sites.windows(2) {
            assert!(w[0] < w[1]);
        }
        assert!(sites.iter().all(|s| s + 2 < 14));
    }
}

#[test]
fn placement_reports_constraint_and_exhaustion() {
    let mut rng = Mt64::new(10);
    assert_eq!(
        Chain42::place_excited_sites(4, 8, 10, &mut rng),
        Err(ChainError::ConstraintError)
    );
    assert_eq!(
        Chain42::place_excited_sites(2, 40, 0, &mut rng),
        Err(ChainError::PlacementRetryExhausted)
    );
    assert_eq!(Chain42::place_excited_sites(0, 8, 1, &mut rng), Ok(vec![]));
    let sites = Chain42::place_excited_sites(1, 20, 1000, &mut rng).unwrap();
    assert!(validate_site_index_map(&sites));
}

#[test]
fn chain_is_stitched_around_given_sites() {
    let mut rng = Mt64::new(13);
    let chain = Chain42::construct_excited_chain(&vec![2, 5], 10, &mut rng);
    assert_eq!(chain.len(), 10);
    assert_eq!(&chain[0..3], &[1, -1, 2]);
    assert!(is_dyck(&chain[3..5]));
    assert_eq!(chain[5], 2);
    assert!(is_dyck(&chain[6..10]));
}

#[test]
fn markers_and_edges_are_written() {
    let mut chain: Vec<i8> = vec![1, 0, 0, 0, 0, 0, 0, -1];
    Chain42::populate_excited_sites_of_chain(&vec![2, 5], &mut chain);
    assert_eq!(chain, vec![1, 0, 2, 0, 0, 2, 0, -1]);
    let mut rng = Mt64::new(0);
    Chain42::populate_left_side_of_chain(&mut chain, 2, &mut rng);
    assert_eq!(chain, vec![1, -1, 2, 0, 0, 2, 0, -1]);
    Chain42::populate_left_side_of_chain(&mut chain, 0, &mut rng);
    assert_eq!(chain, vec![1, -1, 2, 0, 0, 2, 0, -1]);
}

#[test]
fn structural_hash_depends_on_the_tokens() {
    let a: Vec<i8> = vec![1, 2, -1, 2, 1, -1];
    let b: Vec<i8> = vec![1, 2, -1, 2, -1, 1];
    assert_eq!(hash_chain(&a), hash_chain(&a.clone()));
    assert_ne!(hash_chain(&a), hash_chain(&b));
    let mut rng = Mt64::new(21);
    let made = Chain42::new_excited(&bond_map(1, 0, 0), 12, &mut rng).unwrap();
    assert_eq!(made.chain_hash, hash_chain(&made.chain));
}
