//! The layout of an excited chain: its bond sites, the Dyck stretches
//! around them, and what every chain of that layout satisfies.
use vstd::prelude::*;

use crate::dyck::{
    is_dyck_range, is_plain, lemma_dyck_ends, lemma_height_split, range_height, token_weight,
};

verus! {

/// The token written at each endpoint of an excited up-cant bond.
pub const EXCITED_UP: i8 = 2;

/// `p` is one of the indices in `s`.
pub open spec fn is_site(s: Seq<usize>, p: int) -> bool {
    exists|q: int| 0 <= q < s.len() && s[q] == p
}

/// Indices sorted strictly ascending.
pub open spec fn strictly_increasing(s: Seq<usize>) -> bool {
    forall|a: int, b: int| 0 <= a < b < s.len() ==> s[a] < s[b]
}

/// The `q`-th index is even for even `q` and odd for odd `q`: even, odd, even, ...
pub open spec fn alternates_parity(s: Seq<usize>) -> bool {
    forall|q: int| 0 <= q < s.len() ==> #[trigger] s[q] % 2 == q % 2
}

/// Sorted excited sites that pair up into bonds: an even number of strictly
/// increasing indices below `chain_size - 2`, alternating even and odd.
pub open spec fn valid_site_layout(s: Seq<usize>, chain_size: int) -> bool {
    &&& s.len() % 2 == 0
    &&& strictly_increasing(s)
    &&& alternates_parity(s)
    &&& forall|q: int| 0 <= q < s.len() ==> #[trigger] s[q] + 2 < chain_size
}

/// First position of the `t`-th stretch between excited sites: the chain's
/// start, or just after the previous site.
pub open spec fn gap_start(s: Seq<usize>, t: int) -> int {
    if t == 0 {
        0
    } else {
        s[t - 1] + 1
    }
}

/// End (exclusive) of the `t`-th stretch: the next site, or the chain's end.
pub open spec fn gap_end(s: Seq<usize>, t: int, n: int) -> int {
    if t == s.len() {
        n
    } else {
        s[t] as int
    }
}

/// The `t`-th stretch of `c` between the sites `s` is a Dyck word.
pub open spec fn gap_is_dyck(c: Seq<i8>, s: Seq<usize>, t: int) -> bool {
    is_dyck_range(c, gap_start(s, t), gap_end(s, t, c.len() as int))
}

/// `c` carries the excited marker at each site of `s`, and every stretch
/// around and between the sites is a Dyck word of plain spins.
pub open spec fn is_excited_chain(c: Seq<i8>, s: Seq<usize>) -> bool {
    &&& forall|q: int| 0 <= q < s.len() ==> c[#[trigger] s[q] as int] == EXCITED_UP
    &&& forall|t: int| 0 <= t <= s.len() ==> #[trigger] gap_is_dyck(c, s, t)
}

/// `c` is an excited chain around some valid layout of `bonds` bonds.
pub open spec fn has_bond_layout(c: Seq<i8>, bonds: int) -> bool {
    exists|sites: Seq<usize>|
        {
            &&& valid_site_layout(sites, c.len() as int)
            &&& sites.len() == 2 * bonds
            &&& #[trigger] is_excited_chain(c, sites)
        }
}

/// Number of even indices in `s`.
pub open spec fn count_even(s: Seq<usize>) -> nat
    decreases s.len(),
{
    if s.len() == 0 {
        0
    } else {
        count_even(s.drop_last()) + if s.last() % 2 == 0 {
            1nat
        } else {
            0nat
        }
    }
}

/// Alternating indices are half even, rounded up.
pub proof fn lemma_count_even_alternating(s: Seq<usize>)
    requires
        alternates_parity(s),
    ensures
        count_even(s) == (s.len() + 1) / 2,
    decreases s.len(),
{
    if s.len() > 0 {
        let t = s.drop_last();
        assert forall|q: int| 0 <= q < t.len() implies #[trigger] t[q] % 2 == q % 2 by {
            assert(t[q] == s[q]);
        }
        lemma_count_even_alternating(t);
        assert(s.last() == s[s.len() - 1]);
    }
}

/// Up to the end of the `t`-th stretch, every running height of an excited
/// chain is non-negative, and the height there is `t`: the stretches are
/// balanced and each site before them adds one.
proof fn lemma_prefix_heights(c: Seq<i8>, s: Seq<usize>, t: int)
    requires
        valid_site_layout(s, c.len() as int),
        is_excited_chain(c, s),
        0 <= t <= s.len(),
    ensures
        range_height(c, 0, gap_end(s, t, c.len() as int)) == t,
        forall|k: int|
            0 <= k <= gap_end(s, t, c.len() as int) ==> #[trigger] range_height(c, 0, k) >= 0,
    decreases t,
{
    let n = c.len() as int;
    assert(gap_is_dyck(c, s, t));
    if t > 0 {
        lemma_prefix_heights(c, s, t - 1);
        assert(gap_end(s, t - 1, n) == s[t - 1]);
        let gs = gap_start(s, t);
        assert(c[s[t - 1] as int] == EXCITED_UP);
        assert(range_height(c, 0, gs) == t);
        assert forall|k: int| 0 <= k <= gap_end(s, t, n) implies #[trigger] range_height(c, 0, k)
            >= 0 by {
            if k >= gs {
                lemma_height_split(c, 0, gs, k);
            }
        }
        lemma_height_split(c, 0, gs, gap_end(s, t, n));
    }
}

/// A position outside every site lies in one of the stretches from the
/// `t`-th on, when it lies at or after the start of the `t`-th.
proof fn lemma_locate_in_gap(s: Seq<usize>, n: int, p: int, t: int) -> (g: int)
    requires
        valid_site_layout(s, n),
        0 <= t <= s.len(),
        gap_start(s, t) <= p < n,
        !is_site(s, p),
    ensures
        t <= g <= s.len(),
        gap_start(s, g) <= p < gap_end(s, g, n),
    decreases s.len() - t,
{
    if t == s.len() || p < s[t] {
        t
    } else {
        assert(s[t] != p);
        lemma_locate_in_gap(s, n, p, t + 1)
    }
}

/// Every generated chain ends with a down spin and starts with an open-type
/// token, an up spin unless a bond starts at the first site; counting each
/// marker as `+1`, its tokens sum to twice its number of bonds, so to zero
/// exactly when it has none.
pub proof fn lemma_chain_ends_and_sum(c: Seq<i8>, bonds: int)
    requires
        has_bond_layout(c, bonds),
        c.len() >= 2,
    ensures
        c[c.len() - 1] == -1,
        c[0] == 1 || c[0] == EXCITED_UP,
        range_height(c, 0, c.len() as int) == 2 * bonds,
        bonds == 0 ==> c[0] == 1,
{
    let n = c.len() as int;
    let s = choose|s: Seq<usize>|
        {
            &&& valid_site_layout(s, n)
            &&& s.len() == 2 * bonds
            &&& #[trigger] is_excited_chain(c, s)
        };
    let m = s.len() as int;
    lemma_prefix_heights(c, s, m);
    assert(gap_is_dyck(c, s, m));
    if m > 0 {
        assert(s[m - 1] + 2 < n);
    }
    lemma_dyck_ends(c, gap_start(s, m), n);
    assert(gap_is_dyck(c, s, 0));
    if m == 0 || s[0] > 0 {
        lemma_dyck_ends(c, 0, gap_end(s, 0, n));
    } else {
        assert(c[s[0] as int] == EXCITED_UP);
    }
}

/// Every running height of a generated chain, counting each marker as `+1`,
/// is non-negative.
pub proof fn lemma_chain_prefix_heights(c: Seq<i8>, bonds: int)
    requires
        has_bond_layout(c, bonds),
    ensures
        forall|k: int| 0 <= k <= c.len() ==> #[trigger] range_height(c, 0, k) >= 0,
{
    let s = choose|s: Seq<usize>|
        {
            &&& valid_site_layout(s, c.len() as int)
            &&& s.len() == 2 * bonds
            &&& #[trigger] is_excited_chain(c, s)
        };
    lemma_prefix_heights(c, s, s.len() as int);
}

/// The marker positions of a chain built around a valid layout of `sites`
/// are exactly those sites; every other token is a plain spin.
proof fn lemma_markers_at_sites(c: Seq<i8>, sites: Seq<usize>)
    requires
        valid_site_layout(sites, c.len() as int),
        is_excited_chain(c, sites),
    ensures
        forall|p: int| 0 <= p < c.len() ==> (#[trigger] c[p] == EXCITED_UP <==> is_site(sites, p)),
        forall|p: int| 0 <= p < c.len() && !is_site(sites, p) ==> is_plain(#[trigger] c[p]),
{
    let n = c.len() as int;
    assert forall|p: int| 0 <= p < n && !is_site(sites, p) implies is_plain(#[trigger] c[p]) by {
        let g = lemma_locate_in_gap(sites, n, p, 0);
        assert(gap_is_dyck(c, sites, g));
    }
    assert forall|p: int| 0 <= p < n implies (#[trigger] c[p] == EXCITED_UP <==> is_site(
        sites,
        p,
    )) by {
        if is_site(sites, p) {
            let q = choose|q: int| 0 <= q < sites.len() && sites[q] == p;
            assert(c[sites[q] as int] == EXCITED_UP);
        } else {
            assert(is_plain(c[p]));
        }
    }
}

/// A generated chain with `bonds` bonds carries the marker at exactly
/// `2 * bonds` positions, `bonds` of them even and `bonds` odd; in ascending
/// order they alternate in parity, starting with an even one. Every other
/// token is a plain spin.
pub proof fn lemma_marker_positions(c: Seq<i8>, bonds: int)
    requires
        has_bond_layout(c, bonds),
    ensures
        exists|sites: Seq<usize>|
            {
                &&& sites.len() == 2 * bonds
                &&& strictly_increasing(sites)
                &&& alternates_parity(sites)
                &&& #[trigger] count_even(sites) == bonds
                &&& forall|p: int|
                    0 <= p < c.len() ==> (#[trigger] c[p] == EXCITED_UP <==> is_site(sites, p))
                &&& forall|p: int|
                    0 <= p < c.len() && !is_site(sites, p) ==> is_plain(#[trigger] c[p])
            },
{
    let s = choose|s: Seq<usize>|
        {
            &&& valid_site_layout(s, c.len() as int)
            &&& s.len() == 2 * bonds
            &&& #[trigger] is_excited_chain(c, s)
        };
    lemma_markers_at_sites(c, s);
    lemma_count_even_alternating(s);
    assert(count_even(s) == bonds);
}

} // verus!

verus! {

/// The weight of the token at `p` when the markers are read as brackets: a
/// marker at an even site opens a bond, one at an odd site closes it.
pub open spec fn bracket_weight(c: Seq<i8>, p: int) -> int {
    if c[p] == EXCITED_UP {
        if p % 2 == 0 {
            1
        } else {
            -1
        }
    } else {
        token_weight(c[p])
    }
}

/// Sum of the bracket weights of `c[i..j]`.
pub open spec fn bracket_height(c: Seq<i8>, i: int, j: int) -> int
    decreases j - i,
{
    if j <= i {
        0
    } else {
        bracket_height(c, i, j - 1) + bracket_weight(c, j - 1)
    }
}

/// Bracket heights add up over adjacent stretches.
proof fn lemma_bracket_split(c: Seq<i8>, i: int, j: int, k: int)
    requires
        i <= j <= k,
    ensures
        bracket_height(c, i, k) == bracket_height(c, i, j) + bracket_height(c, j, k),
    decreases k - j,
{
    if k > j {
        lemma_bracket_split(c, i, j, k - 1);
    }
}

/// Over plain spins both readings agree.
proof fn lemma_bracket_plain(c: Seq<i8>, i: int, k: int)
    requires
        0 <= i <= k <= c.len(),
        forall|x: int| i <= x < k ==> is_plain(#[trigger] c[x]),
    ensures
        bracket_height(c, i, k) == range_height(c, i, k),
    decreases k - i,
{
    if k > i {
        lemma_bracket_plain(c, i, k - 1);
        assert(is_plain(c[k - 1]));
    }
}

/// Read as brackets, an excited chain is open by `t % 2` at the end of its
/// `t`-th stretch and never below zero before it.
proof fn lemma_bracket_prefix(c: Seq<i8>, s: Seq<usize>, t: int)
    requires
        valid_site_layout(s, c.len() as int),
        is_excited_chain(c, s),
        0 <= t <= s.len(),
    ensures
        bracket_height(c, 0, gap_end(s, t, c.len() as int)) == t % 2,
        forall|k: int|
            0 <= k <= gap_end(s, t, c.len() as int) ==> #[trigger] bracket_height(c, 0, k) >= 0,
    decreases t,
{
    let n = c.len() as int;
    let ge = gap_end(s, t, n);
    assert(gap_is_dyck(c, s, t));
    let gs = gap_start(s, t);
    assert forall|k: int| gs <= k <= ge implies #[trigger] bracket_height(c, gs, k) == range_height(
        c,
        gs,
        k,
    ) by {
        lemma_bracket_plain(c, gs, k);
    }
    if t > 0 {
        lemma_bracket_prefix(c, s, t - 1);
        assert(gap_end(s, t - 1, n) == s[t - 1]);
        assert(c[s[t - 1] as int] == EXCITED_UP);
        assert(s[t - 1] % 2 == (t - 1) % 2);
        assert(bracket_height(c, 0, gs) == t % 2);
        assert forall|k: int| 0 <= k <= ge implies #[trigger] bracket_height(c, 0, k) >= 0 by {
            if k >= gs {
                lemma_bracket_split(c, 0, gs, k);
            }
        }
        lemma_bracket_split(c, 0, gs, ge);
    }
}

/// Read as brackets, with each bond opened at its even site and closed at
/// its odd one, every generated chain is balanced: its weights sum to zero
/// and no running sum is negative.
pub proof fn lemma_chain_bracket_balance(c: Seq<i8>, bonds: int)
    requires
        has_bond_layout(c, bonds),
    ensures
        bracket_height(c, 0, c.len() as int) == 0,
        forall|k: int| 0 <= k <= c.len() ==> #[trigger] bracket_height(c, 0, k) >= 0,
{
    let s = choose|s: Seq<usize>|
        {
            &&& valid_site_layout(s, c.len() as int)
            &&& s.len() == 2 * bonds
            &&& #[trigger] is_excited_chain(c, s)
        };
    lemma_bracket_prefix(c, s, s.len() as int);
}

} // verus!
