//! The peak filter: the magnitude-and-closeness stage and the density
//! stage that reduce candidate local maxima to significant peaks.

use vstd::prelude::*;

use crate::params::Parameters;
use crate::specs::big_maxes_of;
use crate::specs::big_maxes_up_to;
use crate::specs::cleaned_big_maxes_of;
use crate::specs::cleaned_up_to;
use crate::specs::close_to_abs_max;
use crate::specs::count_at_least;
use crate::specs::count_at_least_up_to;
use crate::specs::keep_big;

verus! {

/// Both the step into a peak and the step out of it exceed the minimum
/// magnitude of change.
pub fn is_big_enough(min_value: u32, up: u32, down: u32) -> (r: bool)
    ensures
        r == (up > min_value && down > min_value),
{
    up > min_value && down > min_value
}

/// The peak's value is close to the sequence maximum: within one
/// ten-thousandth above or anywhere below `similarity / 10000` times
/// the maximum.  `similarity` is an exact fraction in ten-thousandths,
/// so the comparison is carried out cross-multiplied, without rounding.
pub fn is_close_to_abs_max(value: u32, similarity: u32, absolute_max: u32) -> (r: bool)
    ensures
        r == close_to_abs_max(value, similarity, absolute_max),
{
    proof {
        assert((similarity as int) * (absolute_max as int) <= 0xFFFF_FFFF * 0xFFFF_FFFF)
            by (nonlinear_arith)
            requires
                similarity <= 0xFFFF_FFFF,
                absolute_max <= 0xFFFF_FFFF,
        ;
    }
    (value as u64) * 10000 + 1 >= (similarity as u64) * (absolute_max as u64)
}

/// At most `max_nb_peaks` entries of `big_maxes` (the candidate at
/// `index` included) point at a value at least as large as
/// `values[index]`: the candidate does not sit in an overcrowded
/// cluster of comparably large peaks.
pub fn has_few_enough_peaks(
    big_maxes: &Vec<u32>,
    values: &Vec<u32>,
    index: u32,
    max_nb_peaks: u32,
) -> (r: bool)
    requires
        forall|k: int| 0 <= k < big_maxes@.len() ==> (#[trigger] big_maxes@[k] as int)
            < values@.len(),
        (index as int) < values@.len(),
    ensures
        r == (count_at_least(big_maxes@, values@, index) <= max_nb_peaks as int),
{
    let mut similar_values: u64 = 0;
    let reference = values[index as usize];

    let mut k: usize = 0;
    while k < big_maxes.len()
        invariant
            0 <= k <= big_maxes@.len(),
            forall|j: int| 0 <= j < big_maxes@.len() ==> (#[trigger] big_maxes@[j] as int)
                < values@.len(),
            (index as int) < values@.len(),
            reference == values@[index as int],
            similar_values == count_at_least_up_to(big_maxes@, values@, index, k as int),
            similar_values <= max_nb_peaks,
        decreases big_maxes@.len() - k,
    {
        let elt = big_maxes[k];
        if values[elt as usize] >= reference {
            similar_values = similar_values + 1;
        }

        if similar_values > max_nb_peaks as u64 {
            proof {
                lemma_count_at_least_monotonic(
                    big_maxes@,
                    values@,
                    index,
                    k + 1,
                    big_maxes@.len() as int,
                );
            }
            return false;
        }
        k = k + 1;
    }

    true
}

/// A longer prefix of `bigs` never counts fewer comparably large peaks.
proof fn lemma_count_at_least_monotonic(bigs: Seq<u32>, values: Seq<u32>, index: u32, k1: int, k2: int)
    requires
        k1 <= k2,
    ensures
        count_at_least_up_to(bigs, values, index, k1) <= count_at_least_up_to(
            bigs,
            values,
            index,
            k2,
        ),
    decreases k2 - k1,
{
    if k1 < k2 {
        lemma_count_at_least_monotonic(bigs, values, index, k1, k2 - 1);
    }
}

/// Reduces the candidate local maxima to the significant peaks: first
/// the magnitude-and-closeness filter, then the density filter, both
/// preserving candidate order.
pub fn get_big_maxes(
    local_maxes: Vec<u32>,
    variations: Vec<u32>,
    values: &Vec<u32>,
    absolute_max: u32,
    params: &Parameters,
    peak_min_value: u32,
) -> (r: Vec<u32>)
    requires
        forall|k: int| 0 <= k < local_maxes@.len() ==> 1 <= (#[trigger] local_maxes@[k] as int)
            < variations@.len(),
        forall|k: int| 0 <= k < local_maxes@.len() ==> (#[trigger] local_maxes@[k] as int)
            < values@.len(),
    ensures
        r@ == cleaned_big_maxes_of(
            local_maxes@,
            variations@,
            values@,
            absolute_max,
            params.similarity,
            params.max_nb_peaks,
            peak_min_value,
        ),
{
    let mut big_maxes: Vec<u32> = Vec::new();

    let mut k: usize = 0;
    while k < local_maxes.len()
        invariant
            0 <= k <= local_maxes@.len(),
            forall|j: int| 0 <= j < local_maxes@.len() ==> 1 <= (#[trigger] local_maxes@[j] as int)
                < variations@.len(),
            forall|j: int| 0 <= j < local_maxes@.len() ==> (#[trigger] local_maxes@[j] as int)
                < values@.len(),
            big_maxes@ == big_maxes_up_to(
                local_maxes@,
                variations@,
                values@,
                absolute_max,
                params.similarity,
                peak_min_value,
                k as int,
            ),
            forall|j: int| 0 <= j < big_maxes@.len() ==> (#[trigger] big_maxes@[j] as int)
                < values@.len(),
        decreases local_maxes@.len() - k,
    {
        let max_index = local_maxes[k];
        let variation_up = variations[(max_index - 1) as usize];
        let variation_down = variations[max_index as usize];

        if is_big_enough(peak_min_value, variation_up, variation_down) && is_close_to_abs_max(
            values[max_index as usize],
            params.similarity,
            absolute_max,
        ) {
            big_maxes.push(max_index);
        }
        assert(keep_big(
            local_maxes@[k as int],
            variations@,
            values@,
            absolute_max,
            params.similarity,
            peak_min_value,
        ) == (variation_up > peak_min_value && variation_down > peak_min_value && close_to_abs_max(
            values@[max_index as int],
            params.similarity,
            absolute_max,
        )));
        k = k + 1;
    }

    let ghost bigs = big_maxes_of(
        local_maxes@,
        variations@,
        values@,
        absolute_max,
        params.similarity,
        peak_min_value,
    );
    let mut cleaned_big_maxes: Vec<u32> = Vec::new();

    let mut k2: usize = 0;
    while k2 < big_maxes.len()
        invariant
            0 <= k2 <= big_maxes@.len(),
            big_maxes@ == bigs,
            forall|j: int| 0 <= j < big_maxes@.len() ==> (#[trigger] big_maxes@[j] as int)
                < values@.len(),
            cleaned_big_maxes@ == cleaned_up_to(bigs, values@, params.max_nb_peaks, k2 as int),
        decreases big_maxes@.len() - k2,
    {
        let max_index = big_maxes[k2];
        if has_few_enough_peaks(&big_maxes, values, max_index, params.max_nb_peaks) {
            cleaned_big_maxes.push(max_index);
        }
        k2 = k2 + 1;
    }

    cleaned_big_maxes
}

} // verus!
