use sentence_segmentation::config::default_worker_budget;
use sentence_segmentation::segmentation::{
    parallel_path, segmentate, segmentate_all, SegmentationError, SegmentationMode,
};

fn owned(parts: &[&str]) -> Vec<String> {
    parts.iter().map(|p| p.to_string()).collect()
}

#[test]
fn scenario_trimmed_batch() {
    let texts = owned(&["Hello world. Good morning!", "Yes? No."]);
    let expected = vec![
        owned(&["Hello world.", "Good morning!"]),
        owned(&["Yes?", "No."]),
    ];
    // Three workers for two texts: the serial path.
    let serial = segmentate_all(&texts, SegmentationMode::Trimmed, Some(3)).unwrap();
    // One worker for two texts: the parallel path.
    let parallel = segmentate_all(&texts, SegmentationMode::Trimmed, Some(1)).unwrap();
    assert_eq!(serial, expected);
    assert_eq!(parallel, expected);
    assert_eq!(serial, parallel);
}

#[test]
fn batch_matches_single_text_results_for_any_worker_count() {
    let texts = owned(&[
        "Hello world. Good morning!",
        "Yes? No.",
        "Mr. Fox jumped. [...] The dog was too lazy.",
        "",
        "one sentence only",
    ]);
    for mode in [SegmentationMode::Trimmed, SegmentationMode::RawBounds] {
        for workers in 1..=7usize {
            let batch = segmentate_all(&texts, mode, Some(workers)).unwrap();
            assert_eq!(batch.len(), texts.len());
            for (i, text) in texts.iter().enumerate() {
                assert_eq!(batch[i], segmentate(text, mode));
            }
        }
    }
}

#[test]
fn batch_with_default_worker_budget() {
    let texts = owned(&["Hello world. Good morning!", "Yes? No."]);
    let with_default = segmentate_all(&texts, SegmentationMode::Trimmed, None).unwrap();
    let serial = segmentate_all(&texts, SegmentationMode::Trimmed, Some(texts.len() + 1)).unwrap();
    assert_eq!(with_default, serial);
}

#[test]
fn boundary_one_more_text_than_workers() {
    // Four texts over three workers: chunks of two, still in order.
    let texts = owned(&["A one. A two.", "B one!", "C one? C two.", "D one."]);
    let parallel = segmentate_all(&texts, SegmentationMode::Trimmed, Some(3)).unwrap();
    let serial = segmentate_all(&texts, SegmentationMode::Trimmed, Some(5)).unwrap();
    assert_eq!(parallel, serial);
    assert_eq!(
        parallel,
        vec![
            owned(&["A one.", "A two."]),
            owned(&["B one!"]),
            owned(&["C one?", "C two."]),
            owned(&["D one."]),
        ]
    );
}

#[test]
fn zero_worker_override_is_rejected() {
    let texts = owned(&["Hello world."]);
    let r = segmentate_all(&texts, SegmentationMode::Trimmed, Some(0));
    assert_eq!(r, Err(SegmentationError::InvalidWorkerCount));
    let raw = segmentate_all(&texts, SegmentationMode::RawBounds, Some(0));
    assert_eq!(raw, Err(SegmentationError::InvalidWorkerCount));
}

#[test]
fn zero_worker_override_is_rejected_even_for_an_empty_batch() {
    let r = segmentate_all(&Vec::new(), SegmentationMode::Trimmed, Some(0));
    assert_eq!(r, Err(SegmentationError::InvalidWorkerCount));
}

#[test]
fn empty_batch_yields_empty_result() {
    for mode in [SegmentationMode::Trimmed, SegmentationMode::RawBounds] {
        for workers in [None, Some(1), Some(4)] {
            let r = segmentate_all(&Vec::new(), mode, workers).unwrap();
            assert_eq!(r, Vec::<Vec<String>>::new());
        }
    }
}

#[test]
fn strategy_boundary() {
    for w in 1..=5usize {
        assert!(!parallel_path(w - 1, w));
        assert!(parallel_path(w, w));
    }
}

#[test]
fn default_worker_budget_is_positive() {
    assert!(default_worker_budget() >= 1);
    // Computed once per process: a second read sees the same budget.
    assert_eq!(default_worker_budget(), default_worker_budget());
}
