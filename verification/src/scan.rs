//! The latch-scan primitive: finds the first position of a mask sequence at
//! which the mask is set, using only a running fold that a constraint system
//! can express (no branching, no random access).
//!
//! The fold keeps a latch that starts at `0`; at position `i >= 1` the latch
//! becomes `i` when the mask is set there and the latch is still `0`, and is
//! copied forward otherwise.  Once nonzero it never changes again.  The same
//! recurrence is emitted verbatim into the generated templates for JSON value
//! localization and HTTP body localization.

use vstd::prelude::*;

verus! {

/// Value of the latch after the fold has consumed `mask[0 ..= i]`.
pub open spec fn latch_value(mask: Seq<bool>, i: int) -> int
    decreases i,
{
    if i <= 0 {
        0
    } else if latch_value(mask, i - 1) == 0 && mask[i] {
        i
    } else {
        latch_value(mask, i - 1)
    }
}

/// Final latch value, i.e. what the scan of the whole mask computes.
pub open spec fn latch_final(mask: Seq<bool>) -> int {
    latch_value(mask, mask.len() - 1)
}

/// `j` is the position of the first set entry of `mask`.
pub open spec fn is_first_set(mask: Seq<bool>, j: int) -> bool {
    &&& 0 <= j < mask.len()
    &&& mask[j]
    &&& forall|k: int| 0 <= k < j ==> !mask[k]
}

/// The latch is always either `0` or a position `<= i` at which the mask is
/// set.
pub proof fn lemma_latch_value_range(mask: Seq<bool>, i: int)
    requires
        i < mask.len(),
    ensures
        latch_value(mask, i) == 0 || (1 <= latch_value(mask, i) <= i && mask[latch_value(mask, i)]),
    decreases i,
{
    if i > 0 {
        lemma_latch_value_range(mask, i - 1);
    }
}

/// While no entry of `mask[1 ..= i]` is set, the latch stays `0`.
proof fn lemma_latch_zero(mask: Seq<bool>, i: int)
    requires
        i < mask.len(),
        forall|k: int| 1 <= k <= i ==> !mask[k],
    ensures
        latch_value(mask, i) == 0,
    decreases i,
{
    if i > 0 {
        lemma_latch_zero(mask, i - 1);
    }
}

/// Once the latch has latched a position `j`, it keeps it forever.
proof fn lemma_latch_stays(mask: Seq<bool>, i: int, j: int)
    requires
        0 <= j <= i < mask.len(),
        latch_value(mask, j) != 0,
    ensures
        latch_value(mask, i) == latch_value(mask, j),
    decreases i,
{
    if i > j {
        lemma_latch_stays(mask, i - 1, j);
    }
}

/// The law of the latch scan: over a mask whose entry `0` is clear, the scan
/// computes the position of the first set entry, and `0` when no entry is
/// set.  (With a set entry at position `0` the latch cannot represent it,
/// since `0` is also its resting value; the templates only apply the scan to
/// masks that are clear at position `0`.)
pub proof fn lemma_latch_scan_finds_first(mask: Seq<bool>)
    requires
        mask.len() > 0,
        !mask[0],
    ensures
        forall|j: int| is_first_set(mask, j) ==> latch_final(mask) == j,
        (forall|j: int| 0 <= j < mask.len() ==> !mask[j]) ==> latch_final(mask) == 0,
{
    let n = mask.len() as int;
    if forall|j: int| 0 <= j < n ==> !mask[j] {
        lemma_latch_zero(mask, n - 1);
    }
    assert forall|j: int| is_first_set(mask, j) implies latch_final(mask) == j by {
        lemma_latch_zero(mask, j - 1);
        assert(latch_value(mask, j) == j);
        lemma_latch_stays(mask, n - 1, j);
    }
}

/// The per-position latch values, read as a mask themselves (set where the
/// latch is nonzero).
pub open spec fn latch_mask(mask: Seq<bool>) -> Seq<bool> {
    Seq::new(mask.len(), |i: int| latch_value(mask, i) != 0)
}

proof fn lemma_latch_rescan_step(mask: Seq<bool>, i: int)
    requires
        i < mask.len(),
        mask.len() > 0,
        !mask[0],
    ensures
        latch_value(latch_mask(mask), i) == latch_value(mask, i),
    decreases i,
{
    if i > 0 {
        lemma_latch_rescan_step(mask, i - 1);
        lemma_latch_value_range(mask, i - 1);
        lemma_latch_value_range(mask, i);
        if latch_value(mask, i - 1) != 0 {
            lemma_latch_stays(mask, i, i - 1);
        }
    }
}

/// Idempotence of the latch scan: re-applying the scan to its own
/// per-position output (read as a mask) computes the same final position.
pub proof fn lemma_latch_scan_idempotent(mask: Seq<bool>)
    requires
        mask.len() > 0,
        !mask[0],
    ensures
        latch_final(latch_mask(mask)) == latch_final(mask),
{
    lemma_latch_rescan_step(mask, mask.len() - 1);
}

/// Runs the latch scan, returning every intermediate latch value; entry
/// `mask.len() - 1` is the computed starting index.
pub fn latch_scan(mask: &Vec<bool>) -> (starts: Vec<usize>)
    ensures
        starts@.len() == mask@.len(),
        forall|i: int| 0 <= i < mask@.len() ==> starts@[i] as int == latch_value(mask@, i),
{
    let mut starts: Vec<usize> = Vec::new();
    let n = mask.len();
    let mut i: usize = 0;
    while i < n
        invariant
            n == mask@.len(),
            i <= n,
            starts@.len() == i as int,
            forall|k: int| 0 <= k < i as int ==> starts@[k] as int == latch_value(mask@, k),
        decreases n - i,
    {
        if i == 0 {
            starts.push(0);
        } else {
            let prev = starts[i - 1];
            proof {
                lemma_latch_value_range(mask@, i - 1);
            }
            if prev == 0 && mask[i] {
                starts.push(i);
            } else {
                starts.push(prev);
            }
        }
        i += 1;
    }
    starts
}

/// The starting index the latch scan computes for `mask`: the position of the
/// first set entry after position `0`, or `0` when there is none.
pub fn latch_scan_index(mask: &Vec<bool>) -> (r: usize)
    ensures
        mask@.len() == 0 ==> r == 0,
        mask@.len() > 0 ==> r as int == latch_final(mask@),
{
    if mask.len() == 0 {
        return 0;
    }
    let starts = latch_scan(mask);
    starts[mask.len() - 1]
}

} // verus!
