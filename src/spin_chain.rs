//! Generation of excited spin chains: placement of the excited bond sites and
//! the stitching of Dyck words between them.
use vstd::prelude::*;
use vstd::std_specs::hash::DefaultHasherAdditionalSpecFns;

use std::collections::hash_map::DefaultHasher;
use std::collections::HashMap;
use std::hash::Hasher;

use crate::dyck::{
    is_dyck_range, is_plain, lemma_dyck_frame, lemma_height_frame, range_height, token_weight,
};
use crate::layout::{
    alternates_parity, count_even, gap_end, gap_is_dyck, gap_start, has_bond_layout,
    is_excited_chain, is_site, strictly_increasing, valid_site_layout, EXCITED_UP,
};
use crate::random_source::draw_below;
use crate::sampling::{calculate_next_spin_prob, determine_next_spin};

verus! {

/// Number of draws that decide each spin of a Dyck word.
pub const SPIN_TRIALS: u128 = 15;

/// Why an excited chain could not be built.
#[derive(Debug, Clone, Copy, PartialEq, Eq, Structural)]
pub enum ChainError {
    /// The requested bonds need more sites than the chain's interior has.
    ConstraintError,
    /// The excitation spec does not hold exactly the three bond types.
    MalformedSpecError,
    /// No alternating placement came up within the allowed attempts.
    PlacementRetryExhausted,
}

/// Attempts of drawn placements before a chain falls back to drawing an
/// alternating layout directly.
pub const MAX_PLACEMENT_ATTEMPTS: usize = 1000;

/// The excitation spec holds exactly the bond types up-cant (`0`),
/// down-cant (`1`) and mismatch (`2`).
pub open spec fn has_bond_types(m: Map<usize, usize>) -> bool {
    &&& m.len() == 3
    &&& m.contains_key(0)
    &&& m.contains_key(1)
    &&& m.contains_key(2)
}

/// The spin sector of a well-formed excitation spec: the total of its bonds.
pub open spec fn spin_sector_of(m: Map<usize, usize>) -> int {
    m[0] + m[1] + m[2]
}

/// The bytes that are hashed for a chain: each token as one byte.
pub open spec fn chain_bytes(c: Seq<i8>) -> Seq<u8> {
    Seq::new(c.len(), |i: int| c[i] as u8)
}

/// The structural hash of a chain: `DefaultHasher` fed the chain's bytes.
pub open spec fn structural_hash(c: Seq<i8>) -> u64 {
    DefaultHasher::spec_finish(seq![chain_bytes(c)])
}

/// Hashes the tokens of `chain` with a fresh `DefaultHasher`.
pub fn hash_chain(chain: &Vec<i8>) -> (h: u64)
    ensures
        h == structural_hash(chain@),
{
    let mut bytes: Vec<u8> = Vec::new();
    let mut i: usize = 0;
    while i < chain.len()
        invariant
            i <= chain@.len(),
            bytes@ =~= chain_bytes(chain@).take(i as int),
        decreases chain@.len() - i,
    {
        bytes.push(chain[i] as u8);
        i = i + 1;
    }
    assert(bytes@ =~= chain_bytes(chain@));
    let mut hasher = DefaultHasher::new();
    hasher.write(bytes.as_slice());
    hasher.finish()
}

/// A generated chain of spins, its structural hash and its spin sector.
#[derive(Clone)]
pub struct SpinChain<const N: usize> {
    pub chain: Vec<i8>,
    pub chain_hash: u64,
    pub spin_sector: usize,
}

impl<const N: usize> SpinChain<N> {
    /// Generates a chain of `chain_size` spins with the excited bonds that
    /// `excited_bond_map` asks for: keys `0`, `1`, `2` give the numbers of
    /// up-cant, down-cant and mismatch bonds, of which the up-cant bonds are
    /// placed. Fails when the spec does not hold exactly those three keys, or
    /// when all its bonds together need more than the `chain_size - 2`
    /// interior sites.
    pub fn new_excited(
        excited_bond_map: &HashMap<usize, usize>,
        chain_size: usize,
        rng: &mut rand_mt::Mt64,
    ) -> (r: Result<Self, ChainError>)
        requires
            2 <= chain_size <= u32::MAX,
            chain_size % 2 == 0,
        ensures
            (r == Err::<Self, ChainError>(ChainError::MalformedSpecError)) <==> !has_bond_types(
                excited_bond_map@,
            ),
            (r == Err::<Self, ChainError>(ChainError::ConstraintError)) <==> has_bond_types(
                excited_bond_map@,
            ) && 2 * spin_sector_of(excited_bond_map@) > chain_size - 2,
            r is Err ==> r == Err::<Self, ChainError>(ChainError::MalformedSpecError) || r == Err::<
                Self,
                ChainError,
            >(ChainError::ConstraintError),
            r is Ok ==> has_bond_types(excited_bond_map@),
            r is Ok ==> r->Ok_0.spin_sector == spin_sector_of(excited_bond_map@),
            r is Ok ==> r->Ok_0.chain@.len() == chain_size,
            r is Ok ==> r->Ok_0.chain_hash == structural_hash(r->Ok_0.chain@),
            r is Ok ==> has_bond_layout(r->Ok_0.chain@, excited_bond_map@[0] as int),
    {
        let spin_sector = match Self::validate_excited_sites(excited_bond_map, chain_size) {
            Ok(sector) => sector,
            Err(e) => {
                return Err(e);
            },
        };
        let number_of_up_cant_bonds = match excited_bond_map.get(&0) {
            Some(count) => *count,
            None => {
                return Err(ChainError::MalformedSpecError);
            },
        };
        let excited_site_indices = match Self::place_excited_sites(
            number_of_up_cant_bonds,
            chain_size,
            MAX_PLACEMENT_ATTEMPTS,
            rng,
        ) {
            Ok(sites) => sites,
            Err(_) => Self::populate_alternating_sites(number_of_up_cant_bonds, chain_size, rng),
        };
        let chain = Self::construct_excited_chain(&excited_site_indices, chain_size, rng);
        let chain_hash = hash_chain(&chain);
        let made = SpinChain { chain, chain_hash, spin_sector };
        assert(is_excited_chain(made.chain@, excited_site_indices@));
        assert(has_bond_layout(made.chain@, excited_bond_map@[0] as int));
        Ok(made)
    }

    /// Checks that the spec holds exactly the three bond types and that all
    /// its bonds fit in the `chain_size - 2` interior sites; returns the
    /// spin sector, the total number of bonds.
    pub fn validate_excited_sites(number_of_bonds: &HashMap<usize, usize>, chain_size: usize) -> (r:
        Result<usize, ChainError>)
        requires
            2 <= chain_size,
        ensures
            (r == Err::<usize, ChainError>(ChainError::MalformedSpecError)) <==> !has_bond_types(
                number_of_bonds@,
            ),
            (r == Err::<usize, ChainError>(ChainError::ConstraintError)) <==> has_bond_types(
                number_of_bonds@,
            ) && 2 * spin_sector_of(number_of_bonds@) > chain_size - 2,
            r is Err ==> r == Err::<usize, ChainError>(ChainError::MalformedSpecError) || r == Err::<
                usize,
                ChainError,
            >(ChainError::ConstraintError),
            r is Ok ==> {
                &&& has_bond_types(number_of_bonds@)
                &&& 2 * spin_sector_of(number_of_bonds@) <= chain_size - 2
                &&& r->Ok_0 == spin_sector_of(number_of_bonds@)
            },
    {
        if number_of_bonds.len() != 3 {
            return Err(ChainError::MalformedSpecError);
        }
        let up_cant = match number_of_bonds.get(&0) {
            Some(count) => *count,
            None => {
                return Err(ChainError::MalformedSpecError);
            },
        };
        let down_cant = match number_of_bonds.get(&1) {
            Some(count) => *count,
            None => {
                return Err(ChainError::MalformedSpecError);
            },
        };
        let mismatch = match number_of_bonds.get(&2) {
            Some(count) => *count,
            None => {
                return Err(ChainError::MalformedSpecError);
            },
        };
        let available_sites = chain_size - 2;
        let spin_sector = match up_cant.checked_add(down_cant) {
            Some(partial) => match partial.checked_add(mismatch) {
                Some(total) => total,
                None => {
                    return Err(ChainError::ConstraintError);
                },
            },
            None => {
                return Err(ChainError::ConstraintError);
            },
        };
        if spin_sector > available_sites / 2 {
            return Err(ChainError::ConstraintError);
        }
        Ok(spin_sector)
    }

    /// Fills `chain[left_bound..right_bound]`, an interval of even `length`,
    /// with a random Dyck word of plain spins; nothing outside it changes.
    pub fn generate_arbitrary_dyck_words(
        chain: &mut Vec<i8>,
        left_bound: usize,
        right_bound: usize,
        length: u32,
        rng: &mut rand_mt::Mt64,
    )
        requires
            left_bound <= right_bound <= old(chain)@.len(),
            length == right_bound - left_bound,
            length % 2 == 0,
        ensures
            final(chain)@.len() == old(chain)@.len(),
            forall|x: int|
                0 <= x < old(chain)@.len() && !(left_bound <= x < right_bound)
                    ==> #[trigger] final(chain)@[x] == old(chain)@[x],
            is_dyck_range(final(chain)@, left_bound as int, right_bound as int),
    {
        let ghost lb = left_bound as int;
        if length == 0 {
            return;
        } else if length == 2 {
            chain.set(left_bound, 1);
            chain.set(right_bound - 1, -1);
            assert(range_height(chain@, lb, lb) == 0);
            assert(range_height(chain@, lb, lb + 1) == 1);
            assert(range_height(chain@, lb, lb + 2) == 0);
            return;
        }
        chain.set(left_bound, 1);
        chain.set(right_bound - 1, -1);
        let mut current_index: u32 = 1;
        let mut height: u32 = 1;
        let mut i: usize = left_bound + 1;
        assert(range_height(chain@, lb, lb) == 0);
        assert(range_height(chain@, lb, lb + 1) == 1);
        while i < right_bound
            invariant
                lb == left_bound,
                left_bound < i <= right_bound <= chain@.len(),
                chain@.len() == old(chain)@.len(),
                length == right_bound - left_bound,
                current_index == i - left_bound,
                current_index + height <= length,
                (length - current_index - height) % 2 == 0,
                height == range_height(chain@, lb, i as int),
                forall|k: int| lb <= k <= i ==> #[trigger] range_height(chain@, lb, k) >= 0,
                forall|x: int| lb <= x < i ==> is_plain(#[trigger] chain@[x]),
                forall|x: int|
                    0 <= x < old(chain)@.len() && !(left_bound <= x < right_bound)
                        ==> #[trigger] chain@[x] == old(chain)@[x],
            decreases right_bound - i,
        {
            let prob_up = calculate_next_spin_prob(length, current_index, height);
            proof {
                if current_index + height == length {
                    assert(prob_up.numerator == 0) by (nonlinear_arith)
                        requires
                            prob_up.numerator == (height + 2) * (length - current_index - height),
                            current_index + height == length,
                    ;
                }
                if height == 0 {
                    assert(prob_up.numerator == prob_up.denominator) by (nonlinear_arith)
                        requires
                            prob_up.numerator == (height + 2) * (length - current_index - height),
                            prob_up.denominator == 2 * (height + 1) * (length - current_index),
                            height == 0,
                    ;
                }
            }
            let is_up_spin = determine_next_spin(&prob_up, SPIN_TRIALS, rng);
            let ghost before = chain@;
            if is_up_spin {
                chain.set(i, 1);
                height = height + 1;
            } else {
                chain.set(i, -1);
                height = height - 1;
            }
            proof {
                assert forall|k: int| lb <= k <= i implies #[trigger] range_height(chain@, lb, k)
                    == range_height(before, lb, k) by {
                    lemma_height_frame(chain@, before, lb, k);
                }
                assert(range_height(chain@, lb, i + 1) == range_height(chain@, lb, i as int)
                    + token_weight(chain@[i as int]));
            }
            current_index = current_index + 1;
            i = i + 1;
        }
    }

    /// Builds a whole chain of `chain_size` tokens around the excited sites:
    /// the markers, then Dyck words before the first site, between each two
    /// consecutive sites and after the last one. Without sites the whole
    /// chain is one Dyck word.
    pub fn construct_excited_chain(
        excited_site_indices: &Vec<usize>,
        chain_size: usize,
        rng: &mut rand_mt::Mt64,
    ) -> (chain: Vec<i8>)
        requires
            valid_site_layout(excited_site_indices@, chain_size as int),
            2 <= chain_size <= u32::MAX,
            chain_size % 2 == 0,
        ensures
            chain@.len() == chain_size,
            is_excited_chain(chain@, excited_site_indices@),
    {
        let ghost s = excited_site_indices@;
        let ghost n = chain_size as int;
        let mut chain: Vec<i8> = vec![0; chain_size];
        chain.set(0, 1);
        chain.set(chain_size - 1, -1);
        if excited_site_indices.len() == 0 {
            Self::generate_arbitrary_dyck_words(&mut chain, 0, chain_size, chain_size as u32, rng);
            assert(gap_is_dyck(chain@, s, 0));
            return chain;
        }
        Self::populate_excited_sites_of_chain(excited_site_indices, &mut chain);
        let first_excited_bond_position = excited_site_indices[0];
        assert(first_excited_bond_position % 2 == 0) by {
            assert(s[0] % 2 == 0int % 2);
        }
        assert(first_excited_bond_position > 0 ==> !is_site(s, 0)) by {
            if first_excited_bond_position > 0 && is_site(s, 0) {
                let q = choose|q: int| 0 <= q < s.len() && s[q] == 0;
                if q > 0 {
                    assert(s[0] < s[q]);
                }
            }
        }
        Self::populate_left_side_of_chain(&mut chain, first_excited_bond_position, rng);
        assert(gap_is_dyck(chain@, s, 0));
        let mut index: usize = 1;
        while index < excited_site_indices.len()
            invariant
                s == excited_site_indices@,
                n == chain_size,
                valid_site_layout(s, n),
                2 <= chain_size <= u32::MAX,
                chain_size % 2 == 0,
                1 <= index <= s.len(),
                chain@.len() == chain_size,
                forall|q: int| 0 <= q < s.len() ==> chain@[#[trigger] s[q] as int] == EXCITED_UP,
                forall|t: int| 0 <= t < index ==> #[trigger] gap_is_dyck(chain@, s, t),
            decreases s.len() - index,
        {
            let left_bound_index = excited_site_indices[index - 1];
            let right_bound_index = excited_site_indices[index];
            assert(left_bound_index < right_bound_index);
            assert(left_bound_index % 2 != right_bound_index % 2) by {
                assert(s[index - 1] % 2 == (index - 1) % 2);
                assert(s[index as int] % 2 == index % 2);
            }
            let inner_length = (right_bound_index - left_bound_index - 1) as u32;
            let ghost before = chain@;
            Self::generate_arbitrary_dyck_words(
                &mut chain,
                left_bound_index + 1,
                right_bound_index,
                inner_length,
                rng,
            );
            proof {
                assert forall|q: int| 0 <= q < s.len() implies chain@[#[trigger] s[q] as int]
                    == EXCITED_UP by {
                    if q < index {
                        assert(s[q] <= s[index - 1]);
                    } else {
                        assert(s[q] >= s[index as int]);
                    }
                }
                assert forall|t: int| 0 <= t < index + 1 implies #[trigger] gap_is_dyck(
                    chain@,
                    s,
                    t,
                ) by {
                    if t < index {
                        assert(gap_is_dyck(before, s, t));
                        if t < index - 1 {
                            assert(s[t] < s[index - 1]);
                        }
                        lemma_dyck_frame(before, chain@, gap_start(s, t), gap_end(s, t, n));
                    }
                }
            }
            index = index + 1;
        }
        let last_excited_bond_position = excited_site_indices[excited_site_indices.len() - 1];
        assert(last_excited_bond_position % 2 == 1) by {
            assert(s[s.len() - 1] % 2 == (s.len() - 1) % 2);
        }
        let right_side_length = (chain_size - last_excited_bond_position - 1) as u32;
        let ghost before = chain@;
        Self::generate_arbitrary_dyck_words(
            &mut chain,
            last_excited_bond_position + 1,
            chain_size,
            right_side_length,
            rng,
        );
        proof {
            let m = s.len() as int;
            assert forall|q: int| 0 <= q < m implies chain@[#[trigger] s[q] as int]
                == EXCITED_UP by {
                assert(s[q] <= s[m - 1]);
            }
            assert forall|t: int| 0 <= t <= m implies #[trigger] gap_is_dyck(chain@, s, t) by {
                if t < m {
                    assert(gap_is_dyck(before, s, t));
                    if t < m - 1 {
                        assert(s[t] < s[m - 1]);
                    }
                    lemma_dyck_frame(before, chain@, gap_start(s, t), gap_end(s, t, n));
                }
            }
        }
        chain
    }

    /// Draws `number_of_bonds` distinct even and as many distinct odd sites
    /// from `0..chain_size - 2`, each set uniformly among those of its size,
    /// and returns them in ascending order. When the bonds fill every site,
    /// every site is returned.
    pub fn populate_up_cant_site_index_map(
        number_of_bonds: usize,
        chain_size: usize,
        rng: &mut rand_mt::Mt64,
    ) -> (sites: Vec<usize>)
        requires
            2 <= chain_size,
            chain_size % 2 == 0,
            2 * number_of_bonds <= chain_size - 2,
        ensures
            sites@.len() == 2 * number_of_bonds,
            strictly_increasing(sites@),
            forall|q: int| 0 <= q < sites@.len() ==> #[trigger] sites@[q] + 2 < chain_size,
            count_even(sites@) == number_of_bonds,
            2 * number_of_bonds == chain_size - 2 ==> forall|q: int|
                0 <= q < sites@.len() ==> #[trigger] sites@[q] == q,
    {
        let site_count = chain_size - 2;
        let mut sites: Vec<usize> = Vec::new();
        let mut needed_even = number_of_bonds;
        let mut needed_odd = number_of_bonds;
        let mut p: usize = 0;
        while p < site_count
            invariant
                site_count == chain_size - 2,
                site_count % 2 == 0,
                2 * number_of_bonds <= site_count,
                p <= site_count,
                needed_even <= number_of_bonds,
                needed_odd <= number_of_bonds,
                needed_even <= (site_count - p) / 2,
                needed_odd <= (site_count - p + 1) / 2,
                sites@.len() == 2 * number_of_bonds - needed_even - needed_odd,
                count_even(sites@) == number_of_bonds - needed_even,
                strictly_increasing(sites@),
                forall|q: int| 0 <= q < sites@.len() ==> #[trigger] sites@[q] < p,
                2 * number_of_bonds == site_count ==> {
                    &&& needed_even == (site_count - p) / 2
                    &&& needed_odd == (site_count - p + 1) / 2
                    &&& sites@.len() == p
                    &&& forall|q: int| 0 <= q < sites@.len() ==> #[trigger] sites@[q] == q
                },
            decreases site_count - p,
        {
            let ghost before = sites@;
            if p % 2 == 0 {
                let remaining = ((site_count - p) / 2) as u128;
                if needed_even > 0 && draw_below(rng, remaining) < needed_even as u128 {
                    sites.push(p);
                    needed_even = needed_even - 1;
                    assert(sites@.drop_last() =~= before);
                }
            } else {
                let remaining = ((site_count - p + 1) / 2) as u128;
                if needed_odd > 0 && draw_below(rng, remaining) < needed_odd as u128 {
                    sites.push(p);
                    needed_odd = needed_odd - 1;
                    assert(sites@.drop_last() =~= before);
                }
            }
            p = p + 1;
        }
        sites
    }

    /// Draws the excited sites of `number_of_bonds` bonds directly in
    /// alternating order, with no rejection: a uniform choice of
    /// `2 * number_of_bonds` values `c` from `0..(chain_size - 2) / 2 + number_of_bonds`,
    /// the `q`-th smallest of which becomes the site `2 c - q`. This maps the
    /// choices one to one onto the alternating layouts, so each layout is
    /// equally likely.
    pub fn populate_alternating_sites(
        number_of_bonds: usize,
        chain_size: usize,
        rng: &mut rand_mt::Mt64,
    ) -> (sites: Vec<usize>)
        requires
            2 <= chain_size,
            chain_size % 2 == 0,
            2 * number_of_bonds <= chain_size - 2,
        ensures
            valid_site_layout(sites@, chain_size as int),
            sites@.len() == 2 * number_of_bonds,
    {
        let site_count = chain_size - 2;
        let pool = site_count / 2 + number_of_bonds;
        let total = 2 * number_of_bonds;
        let mut needed = total;
        let mut sites: Vec<usize> = Vec::new();
        let mut c: usize = 0;
        while c < pool
            invariant
                site_count == chain_size - 2,
                site_count % 2 == 0,
                pool == site_count / 2 + number_of_bonds,
                total == 2 * number_of_bonds,
                total <= site_count,
                c <= pool,
                needed <= total,
                needed <= pool - c,
                sites@.len() == total - needed,
                sites@.len() <= c,
                strictly_increasing(sites@),
                alternates_parity(sites@),
                forall|q: int| 0 <= q < sites@.len() ==> #[trigger] sites@[q] + 2 < chain_size,
                forall|q: int| 0 <= q < sites@.len() ==> #[trigger] sites@[q] < 2 * c - sites@.len(),
            decreases pool - c,
        {
            let remaining = (pool - c) as u128;
            if needed > 0 && draw_below(rng, remaining) < needed as u128 {
                let rank = total - needed;
                let site = c + (c - rank);
                sites.push(site);
                needed = needed - 1;
            }
            c = c + 1;
        }
        sites
    }

    /// Chooses the excited sites of `number_of_bonds` bonds in a chain of
    /// `chain_size`: draws even and odd sites and keeps the draw when they
    /// alternate, retrying at most `max_attempts` times.
    pub fn place_excited_sites(
        number_of_bonds: usize,
        chain_size: usize,
        max_attempts: usize,
        rng: &mut rand_mt::Mt64,
    ) -> (r: Result<Vec<usize>, ChainError>)
        requires
            2 <= chain_size,
            chain_size % 2 == 0,
        ensures
            (r == Err::<Vec<usize>, ChainError>(ChainError::ConstraintError)) <==> 2
                * number_of_bonds > chain_size - 2,
            r is Err ==> r == Err::<Vec<usize>, ChainError>(ChainError::ConstraintError) || r
                == Err::<Vec<usize>, ChainError>(ChainError::PlacementRetryExhausted),
            r is Ok ==> {
                &&& valid_site_layout(r->Ok_0@, chain_size as int)
                &&& r->Ok_0@.len() == 2 * number_of_bonds
            },
            2 * number_of_bonds <= chain_size - 2 && max_attempts > 0 && (number_of_bonds == 0 || 2
                * number_of_bonds == chain_size - 2) ==> r is Ok,
    {
        if number_of_bonds > (chain_size - 2) / 2 {
            return Err(ChainError::ConstraintError);
        }
        let mut attempt: usize = 0;
        while attempt < max_attempts
            invariant
                2 <= chain_size,
                chain_size % 2 == 0,
                2 * number_of_bonds <= chain_size - 2,
                attempt <= max_attempts,
                attempt > 0 ==> !(number_of_bonds == 0 || 2 * number_of_bonds == chain_size - 2),
            decreases max_attempts - attempt,
        {
            let sites = Self::populate_up_cant_site_index_map(number_of_bonds, chain_size, rng);
            if validate_site_index_map(&sites) {
                proof {
                    assert forall|q: int| 0 <= q < sites@.len() implies #[trigger] sites@[q] % 2
                        == q % 2 by {
                        assert(alternates_parity(sites@));
                    }
                }
                return Ok(sites);
            }
            proof {
                if number_of_bonds == 0 {
                    assert(alternates_parity(sites@));
                }
                if 2 * number_of_bonds == chain_size - 2 {
                    assert forall|q: int| 0 <= q < sites@.len() implies #[trigger] sites@[q] % 2
                        == q % 2 by {
                        assert(sites@[q] == q);
                    }
                }
            }
            attempt = attempt + 1;
        }
        Err(ChainError::PlacementRetryExhausted)
    }

    /// Writes the excited marker at every site of `excited_bond_positions`.
    pub fn populate_excited_sites_of_chain(excited_bond_positions: &Vec<usize>, chain: &mut Vec<i8>)
        requires
            forall|q: int|
                0 <= q < excited_bond_positions@.len() ==> #[trigger] excited_bond_positions@[q]
                    < old(chain)@.len(),
        ensures
            final(chain)@.len() == old(chain)@.len(),
            forall|q: int|
                0 <= q < excited_bond_positions@.len()
                    ==> final(chain)@[#[trigger] excited_bond_positions@[q] as int] == EXCITED_UP,
            forall|x: int|
                0 <= x < old(chain)@.len() && !is_site(excited_bond_positions@, x)
                    ==> #[trigger] final(chain)@[x] == old(chain)@[x],
    {
        let mut j: usize = 0;
        while j < excited_bond_positions.len()
            invariant
                j <= excited_bond_positions@.len(),
                chain@.len() == old(chain)@.len(),
                forall|q: int|
                    0 <= q < excited_bond_positions@.len() ==> #[trigger] excited_bond_positions@[q]
                        < old(chain)@.len(),
                forall|q: int|
                    0 <= q < j ==> chain@[#[trigger] excited_bond_positions@[q] as int]
                        == EXCITED_UP,
                forall|x: int|
                    0 <= x < old(chain)@.len() && !is_site(excited_bond_positions@, x)
                        ==> #[trigger] chain@[x] == old(chain)@[x],
            decreases excited_bond_positions@.len() - j,
        {
            let index = excited_bond_positions[j];
            chain.set(index, EXCITED_UP);
            j = j + 1;
        }
    }

    /// Fills the stretch before the first excited site, `chain[0..first_excited_bond_position]`,
    /// with a Dyck word; a stretch of two is the pair up, down.
    pub fn populate_left_side_of_chain(
        chain: &mut Vec<i8>,
        first_excited_bond_position: usize,
        rng: &mut rand_mt::Mt64,
    )
        requires
            first_excited_bond_position < old(chain)@.len() <= u32::MAX,
            first_excited_bond_position % 2 == 0,
            first_excited_bond_position > 0 ==> old(chain)@[0] == 1,
        ensures
            final(chain)@.len() == old(chain)@.len(),
            forall|x: int|
                first_excited_bond_position <= x < old(chain)@.len() ==> #[trigger] final(chain)@[x]
                    == old(chain)@[x],
            is_dyck_range(final(chain)@, 0, first_excited_bond_position as int),
    {
        if first_excited_bond_position == 0 {
            return;
        } else if first_excited_bond_position == 2 {
            chain.set(1, -1);
            assert(range_height(chain@, 0, 0) == 0);
            assert(range_height(chain@, 0, 1) == 1);
            assert(range_height(chain@, 0, 2) == 0);
            return;
        }
        let right_bound = first_excited_bond_position;
        let length = right_bound as u32;
        Self::generate_arbitrary_dyck_words(chain, 0, right_bound, length, rng);
    }
}

/// Whether the sorted excited sites run even, odd, even, odd, ...
pub fn validate_site_index_map(excited_site_indices: &Vec<usize>) -> (is_valid_map: bool)
    ensures
        is_valid_map == alternates_parity(excited_site_indices@),
{
    let mut is_even = true;
    let mut is_valid_map = true;
    let mut q: usize = 0;
    while q < excited_site_indices.len()
        invariant
            q <= excited_site_indices@.len(),
            is_even == (q % 2 == 0),
            is_valid_map == forall|t: int|
                0 <= t < q ==> #[trigger] excited_site_indices@[t] % 2 == t % 2,
        decreases excited_site_indices@.len() - q,
    {
        let key = excited_site_indices[q];
        if is_even && key % 2 != 0 {
            is_valid_map = false;
        } else if !is_even && key % 2 == 0 {
            is_valid_map = false;
        }
        is_even = !is_even;
        q = q + 1;
    }
    is_valid_map
}

} // verus!
