use sentence_segmentation::chunking::div_ceil;

#[test]
fn div_ceil_exact_values() {
    assert_eq!(div_ceil(0, 3), 0);
    assert_eq!(div_ceil(1, 3), 1);
    assert_eq!(div_ceil(3, 3), 1);
    assert_eq!(div_ceil(4, 3), 2);
    assert_eq!(div_ceil(5, 3), 2);
    assert_eq!(div_ceil(6, 3), 2);
    assert_eq!(div_ceil(7, 3), 3);
    assert_eq!(div_ceil(10, 1), 10);
    assert_eq!(div_ceil(usize::MAX, usize::MAX), 1);
}

#[test]
fn chunk_count_never_exceeds_workers() {
    // The rounded-up chunk size yields at most `workers` chunks.
    for n in 1..=40usize {
        for workers in 1..=8usize {
            let chunk_size = div_ceil(n, workers);
            assert!(div_ceil(n, chunk_size) <= workers);
        }
    }
}
