// deroleru::pre_computations unit tests

#[test]
fn pre_computations_0() {
    let values = vec![0, 1, 2, 0, 1];

    let (local_maxes, variations, absolute_max) = deroleru::pre_computations(&values);
    println!("{:?}", local_maxes);
    assert!(local_maxes == [2]);
    println!("{:?}", variations);
    assert!(variations == vec![1, 1, 2, 1]);
    println!("{}", absolute_max);
    assert!(absolute_max == 2);
    assert!(local_maxes.is_empty() == false);
}

#[test]
fn pre_computations_excludes_index_zero_from_max() {
    // The sequence maximum is taken over indices 1 and later only, so a
    // huge first sample must not become the maximum.
    let values = vec![100, 1, 2, 0, 1];

    let (local_maxes, variations, absolute_max) = deroleru::pre_computations(&values);
    assert_eq!(absolute_max, 2);
    assert_eq!(variations, vec![99, 1, 2, 1]);
    assert_eq!(local_maxes, vec![2]);
}

#[test]
fn pre_computations_single_sample() {
    let values = vec![7];

    let (local_maxes, variations, absolute_max) = deroleru::pre_computations(&values);
    assert!(local_maxes.is_empty());
    assert!(variations.is_empty());
    assert_eq!(absolute_max, 0);
}

#[test]
fn last_index_is_never_a_local_maximum() {
    // A final sample higher than everything before it is still not a
    // peak: nothing follows to confirm the descent.
    let values = vec![0, 1, 100];
    let (local_maxes, _, _) = deroleru::pre_computations(&values);
    assert!(local_maxes.is_empty());

    // The same spike one position earlier is reported.
    let values = vec![0, 1, 100, 0];
    let (local_maxes, _, _) = deroleru::pre_computations(&values);
    assert_eq!(local_maxes, vec![2]);
}

#[test]
fn detect_local_max_records_only_peaks() {
    let mut ret: Vec<u32> = Vec::new();
    deroleru::detect_local_max(&mut ret, 3, 1, 5, 2);
    assert_eq!(ret, vec![3]);
    deroleru::detect_local_max(&mut ret, 4, 5, 5, 2);
    assert_eq!(ret, vec![3]);
    deroleru::detect_local_max(&mut ret, 5, 1, 5, 5);
    assert_eq!(ret, vec![3]);
}
