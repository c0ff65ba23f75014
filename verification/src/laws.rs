//! Properties of the pipeline that hold for every input, stated once
//! and proved against the model the executable functions are pinned to.

use vstd::prelude::*;
use vstd::relations::total_ordering;
use vstd::seq_lib::lemma_sorted_unique;

use crate::specs::find_maxes_spec;
use crate::specs::identify_leaks_spec;
use crate::specs::is_local_max;
use crate::specs::lemma_local_max_elements;
use crate::specs::local_max_indices;
use crate::specs::local_max_indices_up_to;
use crate::specs::process_doc_spec;
use crate::specs::smooth_values_of;
use crate::specs::std_reduction_accepted;
use crate::specs::u32_leq;
use crate::specs::variance_num;

verus! {

/// A sequence without local maxima has an empty candidate list.
proof fn lemma_no_local_max_no_candidates(s: Seq<u32>, n: int)
    requires
        forall|i: int| !is_local_max(s, i),
    ensures
        local_max_indices_up_to(s, n) == Seq::<u32>::empty(),
    decreases n,
{
    if n > 1 {
        lemma_no_local_max_no_candidates(s, n - 1);
    }
}

/// Every sample is strictly above the one before it.
pub open spec fn strictly_increasing(s: Seq<u32>) -> bool {
    forall|i: int| 0 <= i < s.len() - 1 ==> (#[trigger] s[i]) < s[i + 1]
}

/// Every sample is strictly below the one before it.
pub open spec fn strictly_decreasing(s: Seq<u32>) -> bool {
    forall|i: int| 0 <= i < s.len() - 1 ==> (#[trigger] s[i]) > s[i + 1]
}

/// A strictly monotonic sequence — rising throughout or falling
/// throughout — has no local maximum, so the peak finder always
/// reports "no qualifying peaks" for it, whatever the thresholds.
pub proof fn lemma_strictly_monotonic_no_peaks(s: Seq<u32>)
    requires
        strictly_increasing(s) || strictly_decreasing(s),
    ensures
        local_max_indices(s) == Seq::<u32>::empty(),
        forall|similarity: u32, max_nb_peaks: u32, percent_std: u32, peak_min_value: u32|
            #[trigger] find_maxes_spec(s, similarity, max_nb_peaks, percent_std, peak_min_value)
                is None,
{
    assert forall|i: int| !is_local_max(s, i) by {
        if 1 <= i && i + 1 < s.len() {
            if strictly_increasing(s) {
                assert(s[i] < s[i + 1]);
            } else {
                assert(s[i - 1] > s[i]);
            }
        }
    }
    lemma_no_local_max_no_candidates(s, s.len() as int);
}

/// The last index of a sequence is never reported as a local maximum,
/// whatever its value: there is no following sample to confirm the
/// descent.
pub proof fn lemma_last_index_never_local_max(s: Seq<u32>)
    requires
        s.len() <= 0x1_0000_0000,
    ensures
        !is_local_max(s, s.len() - 1),
        s.len() >= 1 ==> !local_max_indices(s).contains((s.len() - 1) as u32),
{
    if s.len() >= 1 {
        lemma_local_max_elements(s, s.len() as int);
        let lm = local_max_indices(s);
        assert forall|k: int| 0 <= k < lm.len() implies lm[k] != ((s.len() - 1) as u32) by {
            assert(lm[k] as int + 1 < s.len());
        }
    }
}

/// The leak matcher reports "no leaks" whenever either peak position
/// set is empty, whatever the other one holds.
pub proof fn lemma_leak_matcher_skips_empty_input(p: Seq<u32>, c: Seq<u32>)
    requires
        p.len() == 0 || c.len() == 0,
    ensures
        identify_leaks_spec(p, c) is None,
{
}

/// The leak matcher is order-independent: permuting either peak
/// position set before the call leaves the result unchanged, because
/// both sets are sorted before they are compared.
pub proof fn lemma_leak_matcher_order_independent(
    p1: Seq<u32>,
    c1: Seq<u32>,
    p2: Seq<u32>,
    c2: Seq<u32>,
)
    requires
        p1.to_multiset() == p2.to_multiset(),
        c1.to_multiset() == c2.to_multiset(),
    ensures
        identify_leaks_spec(p1, c1) == identify_leaks_spec(p2, c2),
{
    broadcast use vstd::seq_lib::group_to_multiset_ensures;

    assert(p1.len() == p1.to_multiset().len());
    assert(p2.len() == p2.to_multiset().len());
    assert(c1.len() == c1.to_multiset().len());
    assert(c2.len() == c2.to_multiset().len());
    if p1.len() > 0 && c1.len() > 0 {
        assert(total_ordering(u32_leq()));
        p1.lemma_sort_by_ensures(u32_leq());
        p2.lemma_sort_by_ensures(u32_leq());
        c1.lemma_sort_by_ensures(u32_leq());
        c2.lemma_sort_by_ensures(u32_leq());
        lemma_sorted_unique(p1.sort_by(u32_leq()), p2.sort_by(u32_leq()), u32_leq());
        lemma_sorted_unique(c1.sort_by(u32_leq()), c2.sort_by(u32_leq()), u32_leq());
        assert(p1.sort_by(u32_leq()) == p2.sort_by(u32_leq()));
        assert(c1.sort_by(u32_leq()) == c2.sort_by(u32_leq()));
    }
}

/// The outlier validation never accepts a peak set that covers the
/// whole sequence: an empty smoothed sequence makes its side of the
/// strict comparison zero, so the set is rejected rather than dividing
/// by zero.
pub proof fn lemma_validator_rejects_when_all_removed(
    values: Seq<u32>,
    bigs: Seq<u32>,
    percent_std: u32,
)
    requires
        smooth_values_of(values, bigs).len() == 0,
    ensures
        !std_reduction_accepted(values, bigs, percent_std),
{
    let smooth = smooth_values_of(values, bigs);
    assert(variance_num(smooth) == 0);
    let n = values.len() as int;
    assert(100000000 * (n * n) * 0 == 0) by (nonlinear_arith);
    assert((percent_std * percent_std) * (0 * 0) * variance_num(values) == 0)
        by (nonlinear_arith);
}

/// The document processor is deterministic: its result is pinned to a
/// function of the document and the thresholds alone, so identical
/// inputs — including repeated or concurrent invocations — always
/// produce the identical result set.
pub proof fn lemma_process_doc_deterministic(
    prefixes: Seq<u32>,
    conflicts: Seq<u32>,
    prefixes_peak_min_value: u32,
    conflicts_peak_min_value: u32,
    similarity: u32,
    max_nb_peaks: u32,
    percent_std: u32,
    r1: Option<Seq<u32>>,
    r2: Option<Seq<u32>>,
)
    requires
        r1 == process_doc_spec(
            prefixes,
            conflicts,
            prefixes_peak_min_value,
            conflicts_peak_min_value,
            similarity,
            max_nb_peaks,
            percent_std,
        ),
        r2 == process_doc_spec(
            prefixes,
            conflicts,
            prefixes_peak_min_value,
            conflicts_peak_min_value,
            similarity,
            max_nb_peaks,
            percent_std,
        ),
    ensures
        r1 == r2,
{
}

} // verus!
