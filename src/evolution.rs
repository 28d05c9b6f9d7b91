//! The Fredkin evolution engine: a local three-site rewrite applied at chosen
//! positions until the excitation reaches the right wall.
use vstd::prelude::*;

use crate::random_source::draw_below;

verus! {

/// An open-type token: a plain up spin or an excited marker.
pub open spec fn is_open(t: i8) -> bool {
    t == 1 || t == 2
}

/// `c` with the tokens at `a` and `b` exchanged.
pub open spec fn swap_sites(c: Seq<i8>, a: int, b: int) -> Seq<i8> {
    c.update(a, c[b]).update(b, c[a])
}

/// One application of the rewrite rule at `left`, `left + 1`, `left + 2`:
/// the chain afterwards and whether it is still alive.
pub open spec fn fredkin_step(c: Seq<i8>, left: int) -> (Seq<i8>, bool) {
    let (l, m, r) = (left, left + 1, left + 2);
    if is_open(c[l]) {
        if is_open(c[m]) && c[r] == -1 {
            if r == c.len() - 1 {
                (c, false)
            } else {
                (swap_sites(c, m, r), true)
            }
        } else if c[m] == -1 && is_open(c[r]) {
            (swap_sites(c, m, r), true)
        } else if c[m] == -1 && c[r] == -1 && l != 0 {
            (swap_sites(c, m, l), true)
        } else {
            (c, true)
        }
    } else if is_open(c[m]) && c[r] == -1 && l != 0 {
        (swap_sites(c, m, l), true)
    } else {
        (c, true)
    }
}

/// Every position of `script` is a valid left end of a window of three sites.
pub open spec fn valid_script(script: Seq<usize>, chain_len: int) -> bool {
    forall|t: int| 0 <= t < script.len() ==> #[trigger] script[t] + 2 < chain_len
}

/// Drives the rule along `script`, one step per entry, and stops applying it
/// once a step has reported the chain dead.
pub open spec fn run_script(c: Seq<i8>, script: Seq<usize>) -> (Seq<i8>, bool)
    decreases script.len(),
{
    if script.len() == 0 {
        (c, true)
    } else {
        let (prev, alive) = run_script(c, script.drop_last());
        if alive {
            fredkin_step(prev, script.last() as int)
        } else {
            (prev, false)
        }
    }
}

/// Once a step has reported the chain dead, no later entry of the script
/// changes the chain or revives it: the driving loop may stop there.
pub proof fn lemma_dead_is_absorbing(c: Seq<i8>, done: Seq<usize>, more: Seq<usize>)
    requires
        !run_script(c, done).1,
    ensures
        run_script(c, done + more) == run_script(c, done),
    decreases more.len(),
{
    if more.len() > 0 {
        let shorter = more.drop_last();
        assert((done + more).drop_last() =~= done + shorter);
        lemma_dead_is_absorbing(c, done, shorter);
    } else {
        assert(done + more =~= done);
    }
}

/// Attempts the Fredkin move on the sites `random_index`, `random_index + 1`
/// and `random_index + 2`; returns `false` exactly when the chain has died.
pub fn evolve_chain(chain: &mut Vec<i8>, random_index: usize, chain_size: usize) -> (is_chain_alive:
    bool)
    requires
        old(chain)@.len() == chain_size,
        random_index + 2 < chain_size,
    ensures
        (final(chain)@, is_chain_alive) == fredkin_step(old(chain)@, random_index as int),
{
    let mut is_chain_alive = true;
    let left_spin_index = random_index;
    let middle_spin_index = random_index + 1;
    let right_spin_index = random_index + 2;

    let left_spin = chain[left_spin_index];
    let middle_spin = chain[middle_spin_index];
    let right_spin = chain[right_spin_index];

    if left_spin == 1 || left_spin == 2 {
        if (middle_spin == 1 || middle_spin == 2) && right_spin == -1 {
            if right_spin_index == chain_size - 1 {
                is_chain_alive = false;
            } else {
                chain.set(middle_spin_index, right_spin);
                chain.set(right_spin_index, middle_spin);
            }
        } else if middle_spin == -1 && (right_spin == 1 || right_spin == 2) {
            chain.set(middle_spin_index, right_spin);
            chain.set(right_spin_index, middle_spin);
        } else if middle_spin == -1 && right_spin == -1 && left_spin_index != 0 {
            chain.set(middle_spin_index, left_spin);
            chain.set(left_spin_index, middle_spin);
        }
    } else if (middle_spin == 1 || middle_spin == 2) && right_spin == -1 && left_spin_index != 0 {
        chain.set(middle_spin_index, left_spin);
        chain.set(left_spin_index, middle_spin);
    }
    proof {
        let ghost expected = fredkin_step(old(chain)@, random_index as int);
        assert(chain@ =~= expected.0);
    }
    is_chain_alive
}

/// Why a driven evolution stopped without the chain dying.
#[derive(Debug, Clone, Copy, PartialEq, Eq, Structural)]
pub enum EvolutionError {
    /// The step ceiling was reached while the chain was still alive.
    StepCeilingReached,
}

/// Applies the rule at the positions of `script` in order and stops at the
/// first step that reports the chain dead; returns how many steps were taken
/// then, or `None` when the whole script left the chain alive.
pub fn evolve_with_script(chain: &mut Vec<i8>, script: &Vec<usize>) -> (steps: Option<usize>)
    requires
        valid_script(script@, old(chain)@.len() as int),
    ensures
        match steps {
            Some(s) => {
                &&& 1 <= s <= script.len()
                &&& run_script(old(chain)@, script@.take(s as int)) == (final(chain)@, false)
                &&& run_script(old(chain)@, script@.take(s - 1)).1
            },
            None => run_script(old(chain)@, script@) == (final(chain)@, true),
        },
{
    let chain_size = chain.len();
    let mut i: usize = 0;
    assert(script@.take(0) =~= Seq::<usize>::empty());
    while i < script.len()
        invariant
            i <= script.len(),
            chain@.len() == chain_size,
            chain_size == old(chain)@.len(),
            valid_script(script@, chain_size as int),
            run_script(old(chain)@, script@.take(i as int)) == (chain@, true),
        decreases script.len() - i,
    {
        let random_index = script[i];
        let is_alive = evolve_chain(chain, random_index, chain_size);
        i = i + 1;
        assert(script@.take(i as int).drop_last() =~= script@.take(i - 1));
        if !is_alive {
            return Some(i);
        }
    }
    assert(script@.take(i as int) =~= script@);
    None
}

/// Evolves the chain with positions drawn uniformly from `rng` until it dies,
/// and returns the number of steps taken; gives up after `max_steps` steps.
/// Whatever is drawn, the outcome is that of driving the rule along the drawn
/// positions.
pub fn run_until_dead(chain: &mut Vec<i8>, max_steps: u128, rng: &mut rand_mt::Mt64) -> (r: Result<
    u128,
    EvolutionError,
>)
    requires
        old(chain)@.len() >= 3,
    ensures
        match r {
            Ok(s) => {
                &&& 1 <= s <= max_steps
                &&& exists|script: Seq<usize>|
                    {
                        &&& script.len() == s
                        &&& valid_script(script, old(chain)@.len() as int)
                        &&& run_script(old(chain)@, script) == (final(chain)@, false)
                        &&& #[trigger] run_script(old(chain)@, script.drop_last()).1
                    }
            },
            Err(e) => {
                &&& e == EvolutionError::StepCeilingReached
                &&& exists|script: Seq<usize>|
                    {
                        &&& script.len() == max_steps
                        &&& valid_script(script, old(chain)@.len() as int)
                        &&& #[trigger] run_script(old(chain)@, script) == (final(chain)@, true)
                    }
            },
        },
{
    let chain_size = chain.len();
    let mut step_count: u128 = 0;
    let ghost mut drawn: Seq<usize> = Seq::empty();
    while step_count < max_steps
        invariant
            step_count <= max_steps,
            chain@.len() == chain_size,
            chain_size == old(chain)@.len(),
            chain_size >= 3,
            drawn.len() == step_count,
            valid_script(drawn, chain_size as int),
            run_script(old(chain)@, drawn) == (chain@, true),
        decreases max_steps - step_count,
    {
        let random_index = draw_below(rng, (chain_size - 2) as u128) as usize;
        let ghost before = drawn;
        proof {
            drawn = drawn.push(random_index);
            assert(drawn.drop_last() =~= before);
        }
        let is_alive = evolve_chain(chain, random_index, chain_size);
        step_count = step_count + 1;
        if !is_alive {
            assert(run_script(old(chain)@, drawn.drop_last()).1);
            return Ok(step_count);
        }
    }
    Err(EvolutionError::StepCeilingReached)
}

} // verus!
