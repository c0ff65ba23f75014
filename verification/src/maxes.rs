//! The peak finder for one sequence: analysis, filtering and outlier
//! validation chained, yielding either a validated peak-position set or
//! "no qualifying peaks".

use vstd::prelude::*;

use crate::analysis::pre_computations;
use crate::filter::get_big_maxes;
use crate::params::Parameters;
use crate::specs::find_maxes_spec;
use crate::specs::lemma_local_max_elements;
use crate::specs::option_vec_view;
use crate::validate::check_std_variation;

verus! {

/// Runs the whole pipeline on one sequence: no qualifying peaks when
/// there is no candidate local maximum, and otherwise the filtered peak
/// set exactly when the outlier validation accepts it.  No partial
/// result is ever returned.  An empty sequence yields no qualifying
/// peaks rather than an error.
pub fn find_maxes(values: &Vec<u32>, params: &Parameters, peak_min_value: u32) -> (r: Option<
    Vec<u32>,
>)
    requires
        values@.len() <= 0x1_0000_0000,
    ensures
        option_vec_view(r) == find_maxes_spec(
            values@,
            params.similarity,
            params.max_nb_peaks,
            params.percent_std,
            peak_min_value,
        ),
{
    if values.len() == 0 {
        return None;
    }

    let (local_maxes, variations, absolute_max) = pre_computations(values);

    if local_maxes.is_empty() {
        return None;
    }

    proof {
        lemma_local_max_elements(values@, values@.len() as int);
    }
    let big_maxes = get_big_maxes(
        local_maxes,
        variations,
        values,
        absolute_max,
        params,
        peak_min_value,
    );

    if check_std_variation(values, &big_maxes, params) {
        return Some(big_maxes);
    }

    None
}

/// `find_maxes` against the prefixes-specific minimum change.
pub fn find_maxes_prefixes(values: &Vec<u32>, params: &Parameters) -> (r: Option<Vec<u32>>)
    requires
        values@.len() <= 0x1_0000_0000,
    ensures
        option_vec_view(r) == find_maxes_spec(
            values@,
            params.similarity,
            params.max_nb_peaks,
            params.percent_std,
            params.prefixes_peak_min_value,
        ),
{
    find_maxes(values, params, params.prefixes_peak_min_value)
}

/// `find_maxes` against the conflicts-specific minimum change.
pub fn find_maxes_conflicts(values: &Vec<u32>, params: &Parameters) -> (r: Option<Vec<u32>>)
    requires
        values@.len() <= 0x1_0000_0000,
    ensures
        option_vec_view(r) == find_maxes_spec(
            values@,
            params.similarity,
            params.max_nb_peaks,
            params.percent_std,
            params.conflicts_peak_min_value,
        ),
{
    find_maxes(values, params, params.conflicts_peak_min_value)
}

} // verus!
