//! The sequence analyzer: one scan over a count sequence yields the
//! candidate local-maximum positions, the variation sequence, and the
//! sequence maximum.

use vstd::prelude::*;

use crate::specs::abs_diff_u32;
use crate::specs::is_local_max;
use crate::specs::local_max_indices;
use crate::specs::local_max_indices_up_to;
use crate::specs::sequence_max;
use crate::specs::tail_max_up_to;
use crate::specs::variations_of;

verus! {

/// Appends `i` to `ret` exactly when the three samples around position
/// `i` form a local maximum: strictly rising into `current`, strictly
/// falling out of it.  Callers pass a `next` that is guaranteed larger
/// than any sample (`u32::MAX` cannot be exceeded) for the last
/// position, so the last index is never recorded.
pub fn detect_local_max(ret: &mut Vec<u32>, i: usize, previous: u32, current: u32, next: u32)
    requires
        i <= u32::MAX,
    ensures
        final(ret)@ == if previous < current && current > next {
            old(ret)@.push(i as u32)
        } else {
            old(ret)@
        },
{
    if previous < current && current > next {
        ret.push(i as u32);
    }
}

/// Scans `values` once and returns the local-maximum positions in
/// increasing order, the variation sequence (successive absolute
/// differences, one entry shorter than `values`), and the maximum of
/// the samples at indices `1 ..` (index 0 is excluded by construction;
/// see `sequence_max`).  A sequence of length 1 yields two empty
/// sequences and a maximum of 0.
///
/// Positions are reported as `u32`, which is why the sequence length is
/// bounded by `u32::MAX + 1`.
pub fn pre_computations(values: &Vec<u32>) -> (r: (Vec<u32>, Vec<u32>, u32))
    requires
        values@.len() >= 1,
        values@.len() <= 0x1_0000_0000,
    ensures
        r.0@ == local_max_indices(values@),
        r.1@ == variations_of(values@),
        r.2 == sequence_max(values@),
{
    let mut previous_value = values[0];
    let len_values = values.len();

    let mut local_maxes: Vec<u32> = Vec::new();
    let mut variations: Vec<u32> = Vec::new();
    let mut absolute_max: u32 = 0;

    let mut i: usize = 1;
    while i < len_values
        invariant
            1 <= i <= len_values,
            len_values == values@.len(),
            len_values <= 0x1_0000_0000,
            previous_value == values@[i - 1],
            local_maxes@ == local_max_indices_up_to(values@, i as int),
            variations@ == variations_of(values@).take(i - 1),
            absolute_max == tail_max_up_to(values@, i as int),
        decreases len_values - i,
    {
        let current_value = values[i];
        let next_value = if i + 1 < len_values {
            values[i + 1]
        } else {
            u32::MAX
        };
        detect_local_max(&mut local_maxes, i, previous_value, current_value, next_value);
        assert((previous_value < current_value && current_value > next_value) == is_local_max(
            values@,
            i as int,
        ));

        let tmp_variation = if current_value >= previous_value {
            current_value - previous_value
        } else {
            previous_value - current_value
        };
        variations.push(tmp_variation);
        assert(variations_of(values@).take(i as int) =~= variations_of(values@).take(
            i as int - 1,
        ).push(abs_diff_u32(values@[i - 1], values@[i as int])));

        if current_value > absolute_max {
            absolute_max = current_value;
        }

        previous_value = current_value;
        i = i + 1;
    }

    assert(variations_of(values@).take(len_values as int - 1) =~= variations_of(values@));
    (local_maxes, variations, absolute_max)
}

} // verus!
