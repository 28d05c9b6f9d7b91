//! Heights of token sequences and balanced (Dyck) stretches of a chain.
use vstd::prelude::*;

use crate::evolution::is_open;

verus! {

/// The contribution of one token to the height: open-type tokens count
/// `+1`, a down spin `-1`.
pub open spec fn token_weight(t: i8) -> int {
    if is_open(t) {
        1
    } else if t == -1 {
        -1
    } else {
        0
    }
}

/// A plain up or down spin.
pub open spec fn is_plain(t: i8) -> bool {
    t == 1 || t == -1
}

/// Sum of the weights of `c[i..j]`.
pub open spec fn range_height(c: Seq<i8>, i: int, j: int) -> int
    decreases j - i,
{
    if j <= i {
        0
    } else {
        range_height(c, i, j - 1) + token_weight(c[j - 1])
    }
}

/// `c[i..j]` is a Dyck word of plain spins: its running height never drops
/// below zero and ends at zero.
pub open spec fn is_dyck_range(c: Seq<i8>, i: int, j: int) -> bool {
    &&& 0 <= i <= j <= c.len()
    &&& forall|x: int| i <= x < j ==> is_plain(#[trigger] c[x])
    &&& forall|k: int| i <= k <= j ==> #[trigger] range_height(c, i, k) >= 0
    &&& range_height(c, i, j) == 0
}

/// Heights add up over adjacent stretches.
pub proof fn lemma_height_split(c: Seq<i8>, i: int, j: int, k: int)
    requires
        i <= j <= k,
    ensures
        range_height(c, i, k) == range_height(c, i, j) + range_height(c, j, k),
    decreases k - j,
{
    if k > j {
        lemma_height_split(c, i, j, k - 1);
    }
}

/// The height of a stretch depends on that stretch alone.
pub proof fn lemma_height_frame(c1: Seq<i8>, c2: Seq<i8>, i: int, k: int)
    requires
        i <= k,
        forall|x: int| i <= x < k ==> c1[x] == c2[x],
    ensures
        range_height(c1, i, k) == range_height(c2, i, k),
    decreases k - i,
{
    if k > i {
        lemma_height_frame(c1, c2, i, k - 1);
    }
}

/// A Dyck stretch stays one when nothing inside it changes.
pub proof fn lemma_dyck_frame(c1: Seq<i8>, c2: Seq<i8>, i: int, j: int)
    requires
        is_dyck_range(c1, i, j),
        j <= c2.len(),
        forall|x: int| i <= x < j ==> c1[x] == c2[x],
    ensures
        is_dyck_range(c2, i, j),
{
    assert forall|k: int| i <= k <= j implies #[trigger] range_height(c2, i, k) >= 0 by {
        lemma_height_frame(c1, c2, i, k);
    }
    lemma_height_frame(c1, c2, i, j);
    assert forall|x: int| i <= x < j implies is_plain(#[trigger] c2[x]) by {
        assert(c1[x] == c2[x]);
    }
}

/// A non-empty Dyck stretch opens with an up spin and closes with a down spin.
pub proof fn lemma_dyck_ends(c: Seq<i8>, i: int, j: int)
    requires
        is_dyck_range(c, i, j),
        i < j,
    ensures
        c[i] == 1,
        c[j - 1] == -1,
{
    assert(range_height(c, i, i + 1) >= 0);
    assert(range_height(c, i, i) == 0);
    assert(is_plain(c[i]));
    assert(range_height(c, i, j - 1) >= 0);
    assert(is_plain(c[j - 1]));
}

} // verus!
