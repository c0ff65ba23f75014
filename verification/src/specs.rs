//! The mathematical model of the pipeline: what a local maximum is, what
//! each filter keeps, and when the outlier validation accepts a peak set.

use vstd::prelude::*;

verus! {

/// Number of parts a fractional threshold is divided into: `similarity`
/// and `percent_std` are given in ten-thousandths.
pub const FRACTION_SCALE: u32 = 10000;

/// Index `i` is a local maximum of `s`: strictly above its left and its
/// right neighbour.  The last index of a sequence is never a local
/// maximum, because no following sample can confirm the descent.
pub open spec fn is_local_max(s: Seq<u32>, i: int) -> bool {
    &&& 1 <= i
    &&& i + 1 < s.len()
    &&& s[i - 1] < s[i]
    &&& s[i] > s[i + 1]
}

/// The local-maximum indices among `1 .. n`, in increasing order.
pub open spec fn local_max_indices_up_to(s: Seq<u32>, n: int) -> Seq<u32>
    decreases n,
{
    if n <= 1 {
        Seq::empty()
    } else if is_local_max(s, n - 1) {
        local_max_indices_up_to(s, n - 1).push((n - 1) as u32)
    } else {
        local_max_indices_up_to(s, n - 1)
    }
}

/// All local-maximum indices of `s`, in increasing order.
pub open spec fn local_max_indices(s: Seq<u32>) -> Seq<u32> {
    local_max_indices_up_to(s, s.len() as int)
}

/// Every recorded local-maximum position points strictly inside the
/// sequence: at least 1, and with a following sample.
pub proof fn lemma_local_max_elements(s: Seq<u32>, n: int)
    requires
        n <= s.len(),
        s.len() <= 0x1_0000_0000,
    ensures
        forall|k: int| 0 <= k < local_max_indices_up_to(s, n).len() ==> 1 <= (
        #[trigger] local_max_indices_up_to(s, n)[k] as int) && local_max_indices_up_to(s, n)[
            k
        ] as int + 1 < s.len(),
    decreases n,
{
    if n > 1 {
        lemma_local_max_elements(s, n - 1);
        let pre = local_max_indices_up_to(s, n - 1);
        let cur = local_max_indices_up_to(s, n);
        assert forall|k: int| 0 <= k < cur.len() implies 1 <= (#[trigger] cur[k] as int) && cur[
            k
        ] as int + 1 < s.len() by {
            if is_local_max(s, n - 1) && k == cur.len() - 1 {
                assert(cur[k] == (n - 1) as u32);
                assert(cur[k] as int == n - 1);
            } else {
                assert(cur[k] == pre[k]);
            }
        }
    }
}

/// The absolute difference of two counts.
pub open spec fn abs_diff_u32(a: u32, b: u32) -> u32 {
    if a <= b {
        (b - a) as u32
    } else {
        (a - b) as u32
    }
}

/// The variation sequence of `s`: entry `j` is the absolute step between
/// `s[j]` and `s[j + 1]`, so the sequence is one entry shorter than `s`.
pub open spec fn variations_of(s: Seq<u32>) -> Seq<u32> {
    if s.len() == 0 {
        Seq::empty()
    } else {
        Seq::new((s.len() - 1) as nat, |j: int| abs_diff_u32(s[j], s[j + 1]))
    }
}

/// The running maximum of `s[1]`, ..., `s[n - 1]`, starting from 0.
/// Index 0 is deliberately excluded: the scan that finds local maxima
/// starts at index 1, and the sequence maximum is taken over the same
/// range.  (The first sample may be a partial boundary bucket; whether
/// the exclusion was intended by the heuristic's authors is open, but it
/// is part of the algorithm's definition and is preserved exactly.)
pub open spec fn tail_max_up_to(s: Seq<u32>, n: int) -> u32
    decreases n,
{
    if n <= 1 {
        0u32
    } else if s[n - 1] > tail_max_up_to(s, n - 1) {
        s[n - 1]
    } else {
        tail_max_up_to(s, n - 1)
    }
}

/// The maximum of `s` over indices `1 .. s.len()`, and 0 when no such
/// index exists.
pub open spec fn sequence_max(s: Seq<u32>) -> u32 {
    tail_max_up_to(s, s.len() as int)
}

/// `value` is close to the sequence maximum: within one ten-thousandth
/// above or anywhere below `similarity / 10000` times the maximum.  This
/// is the exact form of `value + 1/10000 >= (similarity/10000) * max`,
/// cross-multiplied by the scale.
pub open spec fn close_to_abs_max(value: u32, similarity: u32, absolute_max: u32) -> bool {
    FRACTION_SCALE * value + 1 >= similarity * absolute_max
}

/// The magnitude-and-closeness filter keeps candidate index `m`: the
/// steps into and out of the peak both exceed `peak_min_value`, and the
/// peak's value is close to the sequence maximum.
pub open spec fn keep_big(
    m: u32,
    variations: Seq<u32>,
    values: Seq<u32>,
    absolute_max: u32,
    similarity: u32,
    peak_min_value: u32,
) -> bool {
    &&& variations[m - 1] > peak_min_value
    &&& variations[m as int] > peak_min_value
    &&& close_to_abs_max(values[m as int], similarity, absolute_max)
}

/// The first `k` candidates of `lm`, reduced by the magnitude-and-closeness
/// filter, order preserved.
pub open spec fn big_maxes_up_to(
    lm: Seq<u32>,
    variations: Seq<u32>,
    values: Seq<u32>,
    absolute_max: u32,
    similarity: u32,
    peak_min_value: u32,
    k: int,
) -> Seq<u32>
    decreases k,
{
    if k <= 0 {
        Seq::empty()
    } else {
        let pre = big_maxes_up_to(lm, variations, values, absolute_max, similarity, peak_min_value, k - 1);
        if keep_big(lm[k - 1], variations, values, absolute_max, similarity, peak_min_value) {
            pre.push(lm[k - 1])
        } else {
            pre
        }
    }
}

/// All candidates of `lm` that the magnitude-and-closeness filter keeps.
pub open spec fn big_maxes_of(
    lm: Seq<u32>,
    variations: Seq<u32>,
    values: Seq<u32>,
    absolute_max: u32,
    similarity: u32,
    peak_min_value: u32,
) -> Seq<u32> {
    big_maxes_up_to(lm, variations, values, absolute_max, similarity, peak_min_value, lm.len() as int)
}

/// How many of the first `k` entries of `bigs` point at a value at least
/// as large as `values[index]`.
pub open spec fn count_at_least_up_to(bigs: Seq<u32>, values: Seq<u32>, index: u32, k: int) -> int
    decreases k,
{
    if k <= 0 {
        0
    } else {
        let extra: int = if values[bigs[k - 1] as int] >= values[index as int] {
            1
        } else {
            0
        };
        count_at_least_up_to(bigs, values, index, k - 1) + extra
    }
}

/// How many entries of `bigs` point at a value at least as large as
/// `values[index]`.  The entry for `index` itself counts, so a cap of
/// `max_nb_peaks` permits `max_nb_peaks` comparably large peaks in all,
/// not `max_nb_peaks` peaks beyond the candidate.
pub open spec fn count_at_least(bigs: Seq<u32>, values: Seq<u32>, index: u32) -> int {
    count_at_least_up_to(bigs, values, index, bigs.len() as int)
}

/// The density filter keeps peak `m`: at most `max_nb_peaks` peaks of
/// `bigs` are at least as large.
pub open spec fn keep_few(bigs: Seq<u32>, values: Seq<u32>, m: u32, max_nb_peaks: u32) -> bool {
    count_at_least(bigs, values, m) <= max_nb_peaks as int
}

/// The first `k` entries of `bigs`, reduced by the density filter,
/// order preserved.
pub open spec fn cleaned_up_to(
    bigs: Seq<u32>,
    values: Seq<u32>,
    max_nb_peaks: u32,
    k: int,
) -> Seq<u32>
    decreases k,
{
    if k <= 0 {
        Seq::empty()
    } else {
        let pre = cleaned_up_to(bigs, values, max_nb_peaks, k - 1);
        if keep_few(bigs, values, bigs[k - 1], max_nb_peaks) {
            pre.push(bigs[k - 1])
        } else {
            pre
        }
    }
}

/// What the whole peak filter returns for candidate set `lm`: the
/// magnitude-and-closeness filter, then the density filter.
pub open spec fn cleaned_big_maxes_of(
    lm: Seq<u32>,
    variations: Seq<u32>,
    values: Seq<u32>,
    absolute_max: u32,
    similarity: u32,
    max_nb_peaks: u32,
    peak_min_value: u32,
) -> Seq<u32> {
    let bigs = big_maxes_of(lm, variations, values, absolute_max, similarity, peak_min_value);
    cleaned_up_to(bigs, values, max_nb_peaks, bigs.len() as int)
}

/// The sum of a count sequence.
pub open spec fn sum_of(s: Seq<u32>) -> int
    decreases s.len(),
{
    if s.len() == 0 {
        0
    } else {
        sum_of(s.drop_last()) + s.last()
    }
}

/// The sum of the squares of a count sequence.
pub open spec fn sum_sq_of(s: Seq<u32>) -> int
    decreases s.len(),
{
    if s.len() == 0 {
        0
    } else {
        sum_sq_of(s.drop_last()) + s.last() * s.last()
    }
}

/// The first `n` entries of `values` whose index is not listed in
/// `bigs`, order preserved.
pub open spec fn smooth_up_to(values: Seq<u32>, bigs: Seq<u32>, n: int) -> Seq<u32>
    decreases n,
{
    if n <= 0 {
        Seq::empty()
    } else {
        let pre = smooth_up_to(values, bigs, n - 1);
        if bigs.contains((n - 1) as u32) {
            pre
        } else {
            pre.push(values[n - 1])
        }
    }
}

/// `values` with every position listed in `bigs` removed.
pub open spec fn smooth_values_of(values: Seq<u32>, bigs: Seq<u32>) -> Seq<u32> {
    smooth_up_to(values, bigs, values.len() as int)
}

/// `n^2` times the population variance of `s`, where `n = s.len()`:
/// an integer, since `variance = (n * sum_sq - sum^2) / n^2`.
pub open spec fn variance_num(s: Seq<u32>) -> int {
    s.len() * sum_sq_of(s) - sum_of(s) * sum_of(s)
}

/// The outlier validation accepts `bigs` for `values`: the standard
/// deviation of the smoothed sequence is strictly below `percent_std /
/// 10000` times the standard deviation of the full sequence.  Stated on
/// squared, cross-multiplied variance numerators, which is equivalent
/// because both standard deviations are non-negative; when either
/// sequence is empty its side is zero and the strict comparison fails,
/// so a peak set covering the whole sequence is rejected.
pub open spec fn std_reduction_accepted(values: Seq<u32>, bigs: Seq<u32>, percent_std: u32) -> bool {
    let smooth = smooth_values_of(values, bigs);
    let n = values.len() as int;
    let ns = smooth.len() as int;
    100000000 * (n * n) * variance_num(smooth) < (percent_std * percent_std) * (ns * ns)
        * variance_num(values)
}

/// What the peak finder returns for one sequence and one set of
/// thresholds: the filtered peak set when the candidate set is non-empty
/// and the outlier validation accepts, and nothing otherwise.
pub open spec fn find_maxes_spec(
    values: Seq<u32>,
    similarity: u32,
    max_nb_peaks: u32,
    percent_std: u32,
    peak_min_value: u32,
) -> Option<Seq<u32>> {
    if values.len() == 0 {
        None
    } else {
        let lm = local_max_indices(values);
        if lm.len() == 0 {
            None
        } else {
            let cleaned = cleaned_big_maxes_of(
                lm,
                variations_of(values),
                values,
                sequence_max(values),
                similarity,
                max_nb_peaks,
                peak_min_value,
            );
            if std_reduction_accepted(values, cleaned, percent_std) {
                Some(cleaned)
            } else {
                None
            }
        }
    }
}

/// The total order the peak positions are sorted by before matching.
pub open spec fn u32_leq() -> spec_fn(u32, u32) -> bool {
    |x: u32, y: u32| x <= y
}

/// The matches of `x` against the first `j` entries of `sc`: one copy of
/// `x` for every equal entry.
pub open spec fn matches_row(x: u32, sc: Seq<u32>, j: int) -> Seq<u32>
    decreases j,
{
    if j <= 0 {
        Seq::empty()
    } else {
        let pre = matches_row(x, sc, j - 1);
        if sc[j - 1] == x {
            pre.push(x)
        } else {
            pre
        }
    }
}

/// The pairwise equality scan of the first `i` entries of `sp` against
/// all of `sc`.
pub open spec fn leaks_up_to(sp: Seq<u32>, sc: Seq<u32>, i: int) -> Seq<u32>
    decreases i,
{
    if i <= 0 {
        Seq::empty()
    } else {
        leaks_up_to(sp, sc, i - 1) + matches_row(sp[i - 1], sc, sc.len() as int)
    }
}

/// What the leak matcher returns for the two peak position sets: nothing
/// when either set is empty, otherwise the pairwise equality scan of the
/// two sorted sets, and nothing when that scan finds no common position.
pub open spec fn identify_leaks_spec(p: Seq<u32>, c: Seq<u32>) -> Option<Seq<u32>> {
    if p.len() == 0 || c.len() == 0 {
        None
    } else {
        let sp = p.sort_by(u32_leq());
        let sc = c.sort_by(u32_leq());
        let l = leaks_up_to(sp, sc, sp.len() as int);
        if l.len() == 0 {
            None
        } else {
            Some(l)
        }
    }
}

/// What the document processor returns: the leak matcher's result when
/// both sequences yield a qualifying peak set, and nothing otherwise.
pub open spec fn process_doc_spec(
    prefixes: Seq<u32>,
    conflicts: Seq<u32>,
    prefixes_peak_min_value: u32,
    conflicts_peak_min_value: u32,
    similarity: u32,
    max_nb_peaks: u32,
    percent_std: u32,
) -> Option<Seq<u32>> {
    let p = find_maxes_spec(prefixes, similarity, max_nb_peaks, percent_std, prefixes_peak_min_value);
    let c = find_maxes_spec(
        conflicts,
        similarity,
        max_nb_peaks,
        percent_std,
        conflicts_peak_min_value,
    );
    if p is Some && c is Some {
        identify_leaks_spec(p->Some_0, c->Some_0)
    } else {
        None
    }
}

/// The view of an optional index vector, for relating executable results
/// to the model.
pub open spec fn option_vec_view(r: Option<Vec<u32>>) -> Option<Seq<u32>> {
    match r {
        None => None,
        Some(v) => Some(v@),
    }
}

} // verus!
