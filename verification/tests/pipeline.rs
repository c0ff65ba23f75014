// The peak filter, the outlier validator, the leak matcher, and the
// document processor on concrete sequences.

use deroleru::check_std_variation;
use deroleru::find_maxes;
use deroleru::get_big_maxes;
use deroleru::has_few_enough_peaks;
use deroleru::identify_leaks;
use deroleru::is_big_enough;
use deroleru::is_close_to_abs_max;
use deroleru::process_doc;
use deroleru::Data;
use deroleru::Parameters;

fn params(
    prefixes_peak_min_value: u32,
    conflicts_peak_min_value: u32,
    similarity: u32,
    max_nb_peaks: u32,
    percent_std: u32,
) -> Parameters {
    Parameters {
        prefixes_peak_min_value,
        conflicts_peak_min_value,
        similarity,
        max_nb_peaks,
        percent_std,
        flat: false,
    }
}

#[test]
fn strictly_monotonic_sequences_have_no_peaks() {
    let p = params(1, 1, 9000, 2, 9000);

    let rising = vec![1, 2, 3, 4, 5];
    let (local_maxes, _, _) = deroleru::pre_computations(&rising);
    assert!(local_maxes.is_empty());
    assert_eq!(find_maxes(&rising, &p, p.prefixes_peak_min_value), None);

    let falling = vec![50, 40, 30, 20];
    let (local_maxes, _, _) = deroleru::pre_computations(&falling);
    assert!(local_maxes.is_empty());
    assert_eq!(find_maxes(&falling, &p, p.prefixes_peak_min_value), None);
}

#[test]
fn find_maxes_handles_degenerate_sequences() {
    let p = params(1, 1, 9000, 2, 9000);
    assert_eq!(find_maxes(&Vec::new(), &p, 1), None);
    assert_eq!(find_maxes(&vec![42], &p, 1), None);
    assert_eq!(find_maxes(&vec![7, 7, 7, 7], &p, 1), None);
}

#[test]
fn is_big_enough_needs_both_transitions() {
    assert!(is_big_enough(10, 11, 12));
    assert!(!is_big_enough(10, 10, 12));
    assert!(!is_big_enough(10, 11, 10));
}

#[test]
fn is_close_to_abs_max_boundary() {
    // similarity 0.9 of a maximum of 100 asks for at least 90.
    assert!(is_close_to_abs_max(90, 9000, 100));
    assert!(!is_close_to_abs_max(89, 9000, 100));

    // Exactly one ten-thousandth below the threshold still qualifies:
    // 5 + 1/10000 == 0.0003 * 16667.
    assert!(is_close_to_abs_max(5, 3, 16667));
    // Two ten-thousandths below does not: 0.0002 * 25001 == 5.0002.
    assert!(!is_close_to_abs_max(5, 2, 25001));
}

#[test]
fn density_filter_counts_the_candidate_itself() {
    let values = vec![0, 5, 0, 5, 0];
    let bigs = vec![1, 3];
    // Two comparably large peaks exist, the candidate included.
    assert!(has_few_enough_peaks(&bigs, &values, 1, 2));
    assert!(!has_few_enough_peaks(&bigs, &values, 1, 1));
}

#[test]
fn get_big_maxes_applies_all_three_checks() {
    let values = vec![0, 100, 0, 8, 0];
    let (local_maxes, variations, absolute_max) = deroleru::pre_computations(&values);
    assert_eq!(local_maxes, vec![1, 3]);

    // The small second peak fails the closeness check; the big one stays.
    let p = params(5, 5, 9000, 2, 9000);
    let cleaned = get_big_maxes(
        local_maxes,
        variations,
        &values,
        absolute_max,
        &p,
        p.prefixes_peak_min_value,
    );
    assert_eq!(cleaned, vec![1]);
}

#[test]
fn validator_rejects_when_every_position_is_a_peak() {
    let values = vec![1, 2, 3];
    let bigs = vec![0, 1, 2];
    let p = params(1, 1, 9000, 2, 9000);
    assert!(!check_std_variation(&values, &bigs, &p));
}

#[test]
fn validator_accepts_a_single_sharp_spike() {
    let values = vec![0, 100, 0, 0, 0];
    let p = params(10, 5, 9000, 2, 9000);
    assert!(check_std_variation(&values, &vec![1], &p));
    // An exacting requirement on the reduction can still reject it:
    // zero smoothed deviation is never strictly below zero.
    assert!(!check_std_variation(&values, &vec![1], &params(10, 5, 9000, 2, 0)));
}

#[test]
fn find_maxes_reports_a_qualifying_spike() {
    let values = vec![0, 100, 0, 0, 0];
    let p = params(10, 5, 9000, 2, 9000);
    assert_eq!(find_maxes(&values, &p, p.prefixes_peak_min_value), Some(vec![1]));
    // A stricter minimum change than the spike provides rejects it.
    assert_eq!(find_maxes(&values, &p, 100), None);
}

#[test]
fn leak_matcher_returns_none_on_empty_input() {
    let mut some = vec![5];
    let mut empty: Vec<u32> = Vec::new();
    assert_eq!(identify_leaks(&mut some, &mut empty), None);

    let mut empty: Vec<u32> = Vec::new();
    let mut some = vec![5];
    assert_eq!(identify_leaks(&mut empty, &mut some), None);
}

#[test]
fn leak_matcher_is_order_independent() {
    let mut p1 = vec![7, 3, 5];
    let mut c1 = vec![5, 9, 3];
    let r1 = identify_leaks(&mut p1, &mut c1);

    let mut p2 = vec![3, 5, 7];
    let mut c2 = vec![3, 5, 9];
    let r2 = identify_leaks(&mut p2, &mut c2);

    assert_eq!(r1, r2);
    assert_eq!(r1, Some(vec![3, 5]));
}

#[test]
fn leak_matcher_returns_none_without_common_position() {
    let mut p = vec![1, 4];
    let mut c = vec![2, 3];
    assert_eq!(identify_leaks(&mut p, &mut c), None);
}

#[test]
fn matching_spikes_yield_a_leak_report() {
    // Both series spike sharply at index 1 and satisfy every threshold.
    let doc = Data {
        ases: vec![64500],
        prefixes: vec![0, 100, 0, 0, 0],
        conflicts: vec![0, 50, 0, 0, 0],
    };
    let p = params(10, 5, 9000, 2, 9000);
    assert_eq!(process_doc(&doc, &p), Some(vec![1]));
}

#[test]
fn spikes_at_different_positions_yield_no_report() {
    let doc = Data {
        ases: vec![64500],
        prefixes: vec![0, 100, 0, 0, 0],
        conflicts: vec![0, 0, 0, 50, 0],
    };
    let p = params(10, 5, 9000, 2, 9000);
    assert_eq!(process_doc(&doc, &p), None);
}

#[test]
fn process_doc_is_deterministic() {
    let doc = Data {
        ases: vec![64500, 64501],
        prefixes: vec![3, 1, 90, 2, 4, 1],
        conflicts: vec![0, 2, 80, 1, 0, 2],
    };
    let p = params(5, 5, 8000, 3, 9500);
    let first = process_doc(&doc, &p);
    let second = process_doc(&doc, &p);
    assert_eq!(first, second);
}
