//! The probability model of the height walk and the majority-vote sampler that
//! turns a probability into an up or down decision.
use vstd::prelude::*;

use crate::random_source::draw_below;

verus! {

/// A probability held exactly as `numerator / denominator`.
#[derive(Debug, Clone, Copy, PartialEq, Eq, Structural)]
pub struct UpProbability {
    pub numerator: u128,
    pub denominator: u128,
}

impl UpProbability {
    /// A proper probability: a positive denominator that bounds the numerator.
    pub open spec fn wf(&self) -> bool {
        &&& self.denominator > 0
        &&& self.numerator <= self.denominator
    }
}

/// Number of draws in `s` that fall below `threshold`, each a vote for "up".
pub open spec fn up_votes(s: Seq<u128>, threshold: u128) -> nat
    decreases s.len(),
{
    if s.len() == 0 {
        0
    } else {
        up_votes(s.drop_last(), threshold) + if s.last() < threshold {
            1nat
        } else {
            0nat
        }
    }
}

/// With a threshold of zero no draw votes up.
pub proof fn lemma_no_up_votes(s: Seq<u128>)
    ensures
        up_votes(s, 0) == 0,
    decreases s.len(),
{
    if s.len() > 0 {
        lemma_no_up_votes(s.drop_last());
    }
}

/// When every draw lies below the threshold, every draw votes up.
pub proof fn lemma_all_up_votes(s: Seq<u128>, threshold: u128)
    requires
        forall|i: int| 0 <= i < s.len() ==> #[trigger] s[i] < threshold,
    ensures
        up_votes(s, threshold) == s.len(),
    decreases s.len(),
{
    if s.len() > 0 {
        lemma_all_up_votes(s.drop_last(), threshold);
    }
}

/// The probability that the next site of an interval is up, given the
/// interval's `length`, the 1-based count `current_index` of tokens already
/// placed in it and the current `height`:
/// `(height + 2)(length - current_index - height) / (2 (height + 1)(length - current_index))`.
pub fn calculate_next_spin_prob(length: u32, current_index: u32, height: u32) -> (p: UpProbability)
    requires
        current_index < length,
        current_index + height <= length,
    ensures
        p.numerator == (height + 2) * (length - current_index - height),
        p.denominator == 2 * (height + 1) * (length - current_index),
        p.wf(),
{
    let h = height as u128;
    let remaining = (length - current_index) as u128;
    proof {
        let hi = h as int;
        let ri = remaining as int;
        assert(0 <= hi <= ri <= 0xffff_ffff);
        assert((hi + 2) * (ri - hi) <= 0x1_0000_0001 * 0xffff_ffff) by (nonlinear_arith)
            requires
                0 <= hi <= ri <= 0xffff_ffff,
        ;
        assert(2 * (hi + 1) * ri <= 2 * 0x1_0000_0000 * 0xffff_ffff) by (nonlinear_arith)
            requires
                0 <= hi <= ri <= 0xffff_ffff,
        ;
        assert((hi + 2) * (ri - hi) <= 2 * (hi + 1) * ri) by (nonlinear_arith)
            requires
                0 <= hi <= ri,
        ;
        assert(2 * (hi + 1) * ri > 0) by (nonlinear_arith)
            requires
                0 <= hi,
                0 < ri,
        ;
    }
    let numerator = (h + 2) * (remaining - h);
    let denominator = 2 * (h + 1) * remaining;
    UpProbability { numerator, denominator }
}

/// Decides "up" from a set of draws: each draw below `prob.numerator` is a
/// vote for up, and up wins on a strict majority of all draws.
pub fn spin_from_samples(samples: &Vec<u128>, prob: &UpProbability) -> (is_up: bool)
    ensures
        is_up == (2 * up_votes(samples@, prob.numerator) > samples@.len()),
{
    let mut up_spin: usize = 0;
    let mut down_spin: usize = 0;
    let mut i: usize = 0;
    while i < samples.len()
        invariant
            i <= samples.len(),
            up_spin == up_votes(samples@.take(i as int), prob.numerator),
            up_spin + down_spin == i,
        decreases samples.len() - i,
    {
        assert(samples@.take(i + 1).drop_last() =~= samples@.take(i as int));
        if samples[i] < prob.numerator {
            up_spin = up_spin + 1;
        } else {
            down_spin = down_spin + 1;
        }
        i = i + 1;
    }
    assert(samples@.take(i as int) =~= samples@);
    up_spin > down_spin
}

/// Draws `trials` integers uniformly below `prob.denominator`, so that each
/// one votes up with probability exactly `prob`, and decides by majority.
/// A probability of zero always gives "down" and a probability of one always
/// gives "up".
pub fn determine_next_spin(prob: &UpProbability, trials: u128, rng: &mut rand_mt::Mt64) -> (is_up:
    bool)
    requires
        prob.wf(),
    ensures
        exists|samples: Seq<u128>|
            {
                &&& samples.len() == trials
                &&& forall|i: int| 0 <= i < samples.len() ==> #[trigger] samples[i] < prob.denominator
                &&& is_up == (2 * up_votes(samples, prob.numerator) > trials)
            },
        prob.numerator == 0 ==> !is_up,
        prob.numerator == prob.denominator && trials > 0 ==> is_up,
{
    let mut samples: Vec<u128> = Vec::new();
    let mut t: u128 = 0;
    while t < trials
        invariant
            t <= trials,
            samples@.len() == t,
            prob.wf(),
            forall|i: int| 0 <= i < samples@.len() ==> #[trigger] samples@[i] < prob.denominator,
        decreases trials - t,
    {
        let draw = draw_below(rng, prob.denominator);
        samples.push(draw);
        t = t + 1;
    }
    let is_up = spin_from_samples(&samples, prob);
    proof {
        lemma_no_up_votes(samples@);
        if prob.numerator == prob.denominator {
            lemma_all_up_votes(samples@, prob.numerator);
        }
    }
    is_up
}

} // verus!
