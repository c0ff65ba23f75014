//! The outlier validator: a filtered peak set is accepted only if
//! removing those positions measurably reduces the sequence's standard
//! deviation, confirming that the peaks, not generic noise, drive the
//! spread.

use vstd::prelude::*;

use crate::params::Parameters;
use crate::specs::smooth_up_to;
use crate::specs::smooth_values_of;
use crate::specs::std_reduction_accepted;
use crate::specs::sum_of;
use crate::specs::sum_sq_of;
use crate::specs::variance_num;
use crate::wide::wide_prod_lt;

verus! {

/// Whether `v` holds `x`.
fn contains_u32(v: &Vec<u32>, x: u32) -> (r: bool)
    ensures
        r == v@.contains(x),
{
    let mut k: usize = 0;
    while k < v.len()
        invariant
            0 <= k <= v@.len(),
            forall|j: int| 0 <= j < k ==> v@[j] != x,
        decreases v@.len() - k,
    {
        if v[k] == x {
            return true;
        }
        k = k + 1;
    }
    false
}

/// The sum of a count sequence is at most `len * u32::MAX`, the sum of
/// its squares at most `len * u32::MAX^2`, and neither is negative.
proof fn lemma_sum_bounds(s: Seq<u32>)
    ensures
        0 <= sum_of(s) <= s.len() * 0xFFFF_FFFF,
        0 <= sum_sq_of(s) <= s.len() * (0xFFFF_FFFF * 0xFFFF_FFFF),
    decreases s.len(),
{
    if s.len() == 0 {
    } else {
        lemma_sum_bounds(s.drop_last());
        let x = s.last() as int;
        assert(x * x <= 0xFFFF_FFFF * 0xFFFF_FFFF) by (nonlinear_arith)
            requires
                0 <= x <= 0xFFFF_FFFF,
        ;
        assert((s.len() - 1) * 0xFFFF_FFFF + 0xFFFF_FFFF == s.len() * 0xFFFF_FFFF)
            by (nonlinear_arith);
        assert((s.len() - 1) * (0xFFFF_FFFF * 0xFFFF_FFFF) + 0xFFFF_FFFF * 0xFFFF_FFFF == s.len()
            * (0xFFFF_FFFF * 0xFFFF_FFFF)) by (nonlinear_arith);
    }
}

/// The squared sum of a count sequence never exceeds its length times
/// the sum of its squares, so the variance numerator is non-negative.
proof fn lemma_sum_sq_lower_bound(s: Seq<u32>)
    ensures
        sum_of(s) * sum_of(s) <= s.len() * sum_sq_of(s),
    decreases s.len(),
{
    if s.len() == 0 {
    } else {
        let t = s.drop_last();
        lemma_sum_sq_lower_bound(t);
        lemma_sum_bounds(t);
        let n = t.len() as int;
        let big_s = sum_of(t);
        let q = sum_sq_of(t);
        let x = s.last() as int;
        assert((big_s + x) * (big_s + x) <= (n + 1) * (q + x * x)) by (nonlinear_arith)
            requires
                big_s * big_s <= n * q,
                0 <= big_s,
                0 <= q,
                0 <= x,
                0 <= n,
        ;
        assert(sum_of(s) == big_s + x);
        assert(sum_sq_of(s) == q + x * x);
        assert(s.len() == n + 1);
    }
}

/// The smoothed sequence is never longer than the original.
proof fn lemma_smooth_len(values: Seq<u32>, bigs: Seq<u32>, n: int)
    requires
        0 <= n,
    ensures
        smooth_up_to(values, bigs, n).len() <= n,
    decreases n,
{
    if n > 0 {
        lemma_smooth_len(values, bigs, n - 1);
    }
}

/// The sum and the sum of squares of a count sequence, both exact.
fn sums_of(values: &Vec<u32>) -> (r: (u128, u128))
    requires
        values@.len() <= 0x1_0000_0000,
    ensures
        r.0 as int == sum_of(values@),
        r.1 as int == sum_sq_of(values@),
{
    let mut acc_sum: u128 = 0;
    let mut acc_sq: u128 = 0;
    let mut i: usize = 0;
    while i < values.len()
        invariant
            0 <= i <= values@.len(),
            values@.len() <= 0x1_0000_0000,
            acc_sum as int == sum_of(values@.take(i as int)),
            acc_sq as int == sum_sq_of(values@.take(i as int)),
        decreases values@.len() - i,
    {
        let x = values[i];
        proof {
            lemma_sum_bounds(values@.take(i as int));
            assert(values@.take(i as int).len() * 0xFFFF_FFFF <= 0x1_0000_0000 * 0xFFFF_FFFF)
                by (nonlinear_arith)
                requires
                    values@.take(i as int).len() <= 0x1_0000_0000,
            ;
            assert(values@.take(i as int).len() * (0xFFFF_FFFF * 0xFFFF_FFFF) <= 0x1_0000_0000 * (
            0xFFFF_FFFF * 0xFFFF_FFFF)) by (nonlinear_arith)
                requires
                    values@.take(i as int).len() <= 0x1_0000_0000,
            ;
            assert((x as int) * (x as int) <= 0xFFFF_FFFF * 0xFFFF_FFFF) by (nonlinear_arith)
                requires
                    0 <= x as int <= 0xFFFF_FFFF,
            ;
            assert(values@.take(i as int + 1).drop_last() =~= values@.take(i as int));
        }
        acc_sum = acc_sum + x as u128;
        acc_sq = acc_sq + (x as u128) * (x as u128);
        i = i + 1;
    }
    proof {
        assert(values@.take(values@.len() as int) =~= values@);
    }
    (acc_sum, acc_sq)
}

/// The population standard deviation of `values` with the positions in
/// `big_maxes` removed is strictly below `percent_std / 10000` times
/// the standard deviation of the full sequence.  The comparison is
/// exact: both sides are squared and cross-multiplied, so it is decided
/// on integer variance numerators, never on rounded intermediate
/// values.  An empty smoothed sequence (every position flagged as a
/// peak) makes the right-hand side zero, so the strict comparison
/// fails and the peak set is rejected rather than dividing by zero.
pub fn check_std_variation(values: &Vec<u32>, big_maxes: &Vec<u32>, params: &Parameters) -> (r:
    bool)
    requires
        values@.len() <= 0x1_0000_0000,
    ensures
        r == std_reduction_accepted(values@, big_maxes@, params.percent_std),
{
    let mut smooth_values: Vec<u32> = Vec::new();
    let mut i: usize = 0;
    while i < values.len()
        invariant
            0 <= i <= values@.len(),
            values@.len() <= 0x1_0000_0000,
            smooth_values@ == smooth_up_to(values@, big_maxes@, i as int),
            smooth_values@.len() <= i,
        decreases values@.len() - i,
    {
        if !contains_u32(big_maxes, i as u32) {
            smooth_values.push(values[i]);
        }
        i = i + 1;
    }

    let (s_sum, s_sq) = sums_of(&smooth_values);
    let (v_sum, v_sq) = sums_of(values);
    let ns = smooth_values.len() as u128;
    let n = values.len() as u128;

    proof {
        lemma_sum_sq_lower_bound(smooth_values@);
        lemma_sum_sq_lower_bound(values@);
        lemma_sum_bounds(smooth_values@);
        lemma_sum_bounds(values@);
        assert((ns as int) * (s_sq as int) <= 0xFFFF_FFFF_FFFF_FFFF_FFFF_FFFF_FFFF_FFFF)
            by (nonlinear_arith)
            requires
                0 <= ns as int <= 0x1_0000_0000,
                0 <= s_sq as int <= (ns as int) * (0xFFFF_FFFF * 0xFFFF_FFFF),
        ;
        assert((n as int) * (v_sq as int) <= 0xFFFF_FFFF_FFFF_FFFF_FFFF_FFFF_FFFF_FFFF)
            by (nonlinear_arith)
            requires
                0 <= n as int <= 0x1_0000_0000,
                0 <= v_sq as int <= (n as int) * (0xFFFF_FFFF * 0xFFFF_FFFF),
        ;
        assert((s_sum as int) * (s_sum as int) <= (ns as int) * (s_sq as int));
        assert((v_sum as int) * (v_sum as int) <= (n as int) * (v_sq as int));
        assert((n as int) * (n as int) <= 0x1_0000_0000_0000_0000) by (nonlinear_arith)
            requires
                0 <= n as int <= 0x1_0000_0000,
        ;
        assert((ns as int) * (ns as int) <= 0x1_0000_0000_0000_0000) by (nonlinear_arith)
            requires
                0 <= ns as int <= 0x1_0000_0000,
        ;
        assert((params.percent_std as int) * (params.percent_std as int) <= 0xFFFF_FFFF
            * 0xFFFF_FFFF) by (nonlinear_arith)
            requires
                0 <= params.percent_std as int <= 0xFFFF_FFFF,
        ;
        assert((0xFFFF_FFFF * 0xFFFF_FFFF) * 0x1_0000_0000_0000_0000
            <= 0xFFFF_FFFF_FFFF_FFFF_FFFF_FFFF_FFFF_FFFFint) by (nonlinear_arith);
        assert((params.percent_std as int) * (params.percent_std as int) * ((ns as int) * (
        ns as int)) <= (0xFFFF_FFFF * 0xFFFF_FFFF) * 0x1_0000_0000_0000_0000) by (nonlinear_arith)
            requires
                0 <= (params.percent_std as int) * (params.percent_std as int) <= 0xFFFF_FFFF
                    * 0xFFFF_FFFF,
                0 <= (ns as int) * (ns as int) <= 0x1_0000_0000_0000_0000,
        ;
    }

    let a_num = ns * s_sq - s_sum * s_sum;
    let b_num = n * v_sq - v_sum * v_sum;
    let lhs_scale = 100000000u128 * (n * n);
    let p = params.percent_std as u128;
    let rhs_scale = (p * p) * (ns * ns);

    let r = wide_prod_lt(lhs_scale, a_num, rhs_scale, b_num);
    proof {
        assert(smooth_values@ == smooth_values_of(values@, big_maxes@));
        assert(a_num as int == variance_num(smooth_values@));
        assert(b_num as int == variance_num(values@));
    }
    r
}

} // verus!
