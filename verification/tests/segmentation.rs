use sentence_segmentation::segmentation::{segmentate, SegmentationMode};

fn owned(parts: &[&str]) -> Vec<String> {
    parts.iter().map(|p| p.to_string()).collect()
}

#[test]
fn trimmed_single_text() {
    let got = segmentate("Hello world. Good morning!", SegmentationMode::Trimmed);
    assert_eq!(got, owned(&["Hello world.", "Good morning!"]));
}

#[test]
fn trimmed_skips_pieces_without_alphanumerics() {
    let got = segmentate(
        "Mr. Fox jumped. [...] The dog was too lazy.",
        SegmentationMode::Trimmed,
    );
    assert_eq!(got, owned(&["Mr.", "Fox jumped.", "The dog was too lazy."]));
}

#[test]
fn raw_bounds_single_text() {
    let got = segmentate(
        "Mr. Fox jumped. [...] The dog was too lazy.",
        SegmentationMode::RawBounds,
    );
    assert_eq!(
        got,
        owned(&["Mr. ", "Fox jumped. ", "[...] ", "The dog was too lazy."])
    );
}

#[test]
fn raw_bounds_concatenation_is_lossless() {
    let inputs = [
        "Hello world. Good morning!",
        "Mr. Fox jumped. [...] The dog was too lazy.",
        "Yes? No.",
        "   ",
        "one sentence only",
        "Tabs\tand\nnewlines. Second sentence!",
    ];
    for text in inputs {
        let pieces = segmentate(text, SegmentationMode::RawBounds);
        let rebuilt: String = pieces.concat();
        assert_eq!(rebuilt, text);
    }
}

#[test]
fn empty_text_yields_no_sentences() {
    assert_eq!(segmentate("", SegmentationMode::Trimmed), Vec::<String>::new());
    assert_eq!(segmentate("", SegmentationMode::RawBounds), Vec::<String>::new());
}

#[test]
fn default_mode_is_trimmed() {
    assert_eq!(SegmentationMode::default(), SegmentationMode::Trimmed);
}

#[test]
fn segmentate_is_idempotent() {
    let text = "Hello world. Good morning! Yes? No.";
    for mode in [SegmentationMode::Trimmed, SegmentationMode::RawBounds] {
        let first = segmentate(text, mode);
        let second = segmentate(text, mode);
        assert_eq!(first, second);
    }
}
