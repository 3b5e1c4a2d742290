//! Sentence segmentation: a single-text segmenter over UAX#29 sentence
//! boundaries, and a batch dispatcher that runs many texts either serially
//! or in parallel over balanced chunks, preserving the batch order.

use vstd::prelude::*;

use unicode_segmentation::UnicodeSegmentation;
use rayon::iter::{IntoParallelRefIterator, ParallelIterator};

use crate::chunking::{chunk_texts, div_ceil, flatten_parts, lemma_chunk_count_at_most_workers};
use crate::config::default_worker_budget;

verus! {

/// How sentence boundaries are materialized.
///
/// `Trimmed` keeps only each sentence's content, with the surrounding
/// whitespace folded out; `RawBounds` keeps every boundary-delimited run
/// verbatim, so the pieces concatenate back to the original text.
#[derive(Clone, Copy, Debug, PartialEq, Eq, Structural)]
pub enum SegmentationMode {
    Trimmed,
    RawBounds,
}

impl Default for SegmentationMode {
    /// The default mode: trimmed sentences.
    fn default() -> (r: Self)
        ensures
            r == SegmentationMode::Trimmed,
    {
        SegmentationMode::Trimmed
    }
}

/// An input the batch dispatcher rejects before doing any work.
#[derive(Clone, Copy, Debug, PartialEq, Eq, Structural)]
pub enum SegmentationError {
    /// The worker-count override was zero: no work can be dispatched to
    /// zero workers.
    InvalidWorkerCount,
}

/// The sentence pieces of a text under the UAX#29 sentence-boundary rules,
/// restricted to pieces that contain an alphanumeric character. Each piece
/// still carries the whitespace the boundary rules put inside it.
pub uninterp spec fn sentence_pieces(s: Seq<char>) -> Seq<Seq<char>>;

/// Every boundary-delimited run of a text under the UAX#29 sentence-boundary
/// rules, kept verbatim: together the runs cover the text exactly.
pub uninterp spec fn raw_sentence_bounds(s: Seq<char>) -> Seq<Seq<char>>;

/// A text with its leading and trailing whitespace removed.
pub uninterp spec fn whitespace_trimmed(s: Seq<char>) -> Seq<char>;

/// Relies on `UnicodeSegmentation::unicode_sentences`: the sentence pieces
/// of the text under UAX#29, in text order, skipping pieces without any
/// alphanumeric character; the result depends on the text alone, and an
/// empty text has no pieces.
#[verifier::external_body]
fn unicode_sentence_pieces(text: &str) -> (r: Vec<String>)
    ensures
        r.deep_view() == sentence_pieces(text@),
        text@.len() == 0 ==> r@.len() == 0,
{
    text.unicode_sentences().map(|p| p.to_owned()).collect()
}

/// Relies on `UnicodeSegmentation::split_sentence_bounds`: every
/// boundary-delimited run of the text under UAX#29, in text order; their
/// concatenation is the original text, the result depends on the text
/// alone, and an empty text has no runs.
#[verifier::external_body]
fn raw_bound_pieces(text: &str) -> (r: Vec<String>)
    ensures
        r.deep_view() == raw_sentence_bounds(text@),
        r.deep_view().flatten() == text@,
        text@.len() == 0 ==> r@.len() == 0,
{
    text.split_sentence_bounds().map(|p| p.to_owned()).collect()
}

/// Relies on `str::trim`: the text without its leading and trailing
/// whitespace; the result depends on the text alone.
#[verifier::external_body]
fn trim_whitespace(text: &str) -> (r: &str)
    ensures
        r@ == whitespace_trimmed(text@),
{
    text.trim()
}

/// The sentence pieces of a text with the whitespace around each piece
/// folded out: what `Trimmed` mode returns.
pub open spec fn trimmed_pieces(s: Seq<char>) -> Seq<Seq<char>> {
    sentence_pieces(s).map_values(|p: Seq<char>| whitespace_trimmed(p))
}

/// What segmenting a single text returns under each mode.
pub open spec fn spec_segmentate(s: Seq<char>, mode: SegmentationMode) -> Seq<Seq<char>> {
    match mode {
        SegmentationMode::Trimmed => trimmed_pieces(s),
        SegmentationMode::RawBounds => raw_sentence_bounds(s),
    }
}

/// What segmenting every text of a batch returns, in batch order.
pub open spec fn spec_segmentate_batch(
    batch: Seq<Seq<char>>,
    mode: SegmentationMode,
) -> Seq<Seq<Seq<char>>> {
    batch.map_values(|t: Seq<char>| spec_segmentate(t, mode))
}

/// Segments one text into its sentences under the given mode, in text
/// order. Total: every text, the empty one included, yields a result.
///
/// In `RawBounds` mode the sentences concatenate back to the text itself.
pub fn segmentate(text: &str, mode: SegmentationMode) -> (r: Vec<String>)
    ensures
        r.deep_view() == spec_segmentate(text@, mode),
        mode == SegmentationMode::RawBounds ==> r.deep_view().flatten() == text@,
        text@.len() == 0 ==> r@.len() == 0,
{
    match mode {
        SegmentationMode::RawBounds => raw_bound_pieces(text),
        SegmentationMode::Trimmed => {
            let pieces = unicode_sentence_pieces(text);
            let mut out: Vec<String> = Vec::new();
            let mut i: usize = 0;
            while i < pieces.len()
                invariant
                    i <= pieces@.len(),
                    pieces.deep_view() == sentence_pieces(text@),
                    out.deep_view() == trimmed_pieces(text@).subrange(0, i as int),
                decreases pieces@.len() - i,
            {
                let trimmed = trim_whitespace(pieces[i].as_str());
                let ghost pre = out;
                out.push(trimmed.to_owned());
                proof {
                    assert(pre.deep_view().len() == pre@.len());
                    assert(pre@.len() == i);
                    assert(out@ =~= pre@.push(out@[out@.len() - 1]));
                    assert(pieces@[i as int]@ == pieces.deep_view()[i as int]);
                    assert(trimmed_pieces(text@)[i as int]
                        == whitespace_trimmed(sentence_pieces(text@)[i as int]));
                    assert(out.deep_view()[i as int] == out@[i as int]@);
                    assert forall|j: int| 0 <= j < i implies out.deep_view()[j]
                        == trimmed_pieces(text@)[j] by {
                        assert(out@[j] == pre@[j]);
                        assert(pre.deep_view()[j] == pre@[j]@);
                    }
                    assert(out.deep_view()
                        =~= trimmed_pieces(text@).subrange(0, i as int + 1));
                }
                i = i + 1;
            }
            proof {
                assert(trimmed_pieces(text@).subrange(0, i as int) =~= trimmed_pieces(text@));
            }
            out
        },
    }
}

/// Segments every text of the batch in index order, one after the other.
fn segmentate_multiple_serial(texts: &Vec<String>, mode: SegmentationMode) -> (r: Vec<
    Vec<String>,
>)
    ensures
        r.deep_view() == spec_segmentate_batch(texts.deep_view(), mode),
{
    let mut out: Vec<Vec<String>> = Vec::new();
    let mut i: usize = 0;
    while i < texts.len()
        invariant
            i <= texts@.len(),
            out.deep_view() == spec_segmentate_batch(texts.deep_view(), mode).subrange(
                0,
                i as int,
            ),
        decreases texts@.len() - i,
    {
        let sentences = segmentate(texts[i].as_str(), mode);
        let ghost pre = out;
        out.push(sentences);
        proof {
            assert(pre.deep_view().len() == pre@.len());
            assert(pre@.len() == i);
            assert(texts@[i as int]@ == texts.deep_view()[i as int]);
            assert(spec_segmentate_batch(texts.deep_view(), mode)[i as int]
                == spec_segmentate(texts.deep_view()[i as int], mode));
            assert(out.deep_view()[i as int] == out@[i as int].deep_view());
            assert forall|j: int| 0 <= j < i implies out.deep_view()[j]
                == spec_segmentate_batch(texts.deep_view(), mode)[j] by {
                assert(out@[j] == pre@[j]);
                assert(pre.deep_view()[j] == pre@[j].deep_view());
            }
            assert(out.deep_view() =~= spec_segmentate_batch(texts.deep_view(), mode).subrange(
                0,
                i as int + 1,
            ));
        }
        i = i + 1;
    }
    proof {
        assert(spec_segmentate_batch(texts.deep_view(), mode).subrange(0, i as int)
            =~= spec_segmentate_batch(texts.deep_view(), mode));
    }
    out
}

/// Relies on rayon's parallel iterators: `par_iter().map(..).collect()`
/// hands every chunk to the pool's workers and collects one result per
/// chunk, in the chunks' own order; each result is what the closure — a
/// call of the verified `segmentate_multiple_serial` — returns for that
/// chunk.
#[verifier::external_body]
fn segment_chunks_parallel(chunks: &Vec<Vec<String>>, mode: SegmentationMode) -> (r: Vec<
    Vec<Vec<String>>,
>)
    ensures
        r.deep_view() == chunks.deep_view().map_values(
            |c: Seq<Seq<char>>| spec_segmentate_batch(c, mode),
        ),
{
    chunks.par_iter().map(|c| segmentate_multiple_serial(c, mode)).collect()
}

/// Segmenting a batch chunk by chunk and concatenating the per-chunk
/// results in chunk order is the same as segmenting the whole batch at
/// once: the reason the parallel path returns exactly what the serial path
/// returns, in the original order.
pub proof fn lemma_segmentate_chunked(chunks: Seq<Seq<Seq<char>>>, mode: SegmentationMode)
    ensures
        chunks.map_values(|c: Seq<Seq<char>>| spec_segmentate_batch(c, mode)).flatten()
            == spec_segmentate_batch(chunks.flatten(), mode),
    decreases chunks.len(),
{
    let f = |c: Seq<Seq<char>>| spec_segmentate_batch(c, mode);
    if chunks.len() == 0 {
        assert(chunks.map_values(f).flatten() =~= Seq::<Seq<Seq<char>>>::empty());
        assert(spec_segmentate_batch(chunks.flatten(), mode) =~= Seq::<Seq<Seq<char>>>::empty());
    } else {
        lemma_segmentate_chunked(chunks.drop_first(), mode);
        assert(chunks.map_values(f).drop_first() =~= chunks.drop_first().map_values(f));
        assert(chunks.map_values(f).flatten() == chunks.map_values(f).first() + chunks.map_values(
            f,
        ).drop_first().flatten());
        assert(chunks.map_values(f).first() == spec_segmentate_batch(chunks.first(), mode));
        assert(chunks.flatten() == chunks.first() + chunks.drop_first().flatten());
        assert(spec_segmentate_batch(chunks.first() + chunks.drop_first().flatten(), mode)
            =~= spec_segmentate_batch(chunks.first(), mode) + spec_segmentate_batch(
            chunks.drop_first().flatten(),
            mode,
        ));
    }
}

/// Segments the batch in parallel: cuts it into contiguous chunks of
/// `ceil(len / max_workers)` texts, segments the chunks concurrently, and
/// concatenates the per-chunk results in chunk order — the result is in
/// the batch's own order, as if it had been computed serially.
fn segmentate_multiple_parallel_to_vec(
    texts: &Vec<String>,
    mode: SegmentationMode,
    max_workers: usize,
) -> (r: Vec<Vec<String>>)
    requires
        max_workers >= 1,
        texts@.len() >= 1,
    ensures
        r.deep_view() == spec_segmentate_batch(texts.deep_view(), mode),
{
    let chunk_size = div_ceil(texts.len(), max_workers);
    let chunks = chunk_texts(texts, chunk_size);
    proof {
        lemma_chunk_count_at_most_workers(texts@.len() as nat, max_workers as nat);
        assert(chunks@.len() <= max_workers);
    }
    let parts = segment_chunks_parallel(&chunks, mode);
    let out = flatten_parts(parts);
    proof {
        lemma_segmentate_chunked(chunks.deep_view(), mode);
    }
    out
}

/// Whether a batch of `batch_len` texts is dispatched to parallel workers
/// rather than processed serially: parallel dispatch pays off only once
/// there are at least as many texts as workers.
pub open spec fn spec_parallel_path(batch_len: nat, workers: nat) -> bool {
    batch_len >= workers
}

/// Decides the execution strategy for a batch of `batch_len` texts and
/// `workers` parallel workers.
pub fn parallel_path(batch_len: usize, workers: usize) -> (b: bool)
    ensures
        b == spec_parallel_path(batch_len as nat, workers as nat),
{
    batch_len >= workers
}

/// Segments every text of the batch into its sentences under the given
/// mode, returning one sentence sequence per text, in the batch's own
/// order, whichever execution strategy ran.
///
/// A batch of at least `max_workers` texts is processed in parallel over
/// contiguous chunks; a smaller batch is processed serially. Without an
/// override, the process-wide default worker budget is used. An override
/// of zero is rejected before any work is dispatched.
pub fn segmentate_all(
    texts: &Vec<String>,
    mode: SegmentationMode,
    max_workers: Option<usize>,
) -> (r: Result<Vec<Vec<String>>, SegmentationError>)
    ensures
        r is Ok <==> max_workers != Some(0usize),
        r matches Ok(out) ==> out.deep_view() == spec_segmentate_batch(texts.deep_view(), mode),
        r matches Ok(out) ==> out@.len() == texts@.len(),
        r matches Err(e) ==> e == SegmentationError::InvalidWorkerCount,
{
    if let Some(w) = max_workers {
        if w == 0 {
            return Err(SegmentationError::InvalidWorkerCount);
        }
    }
    if texts.len() == 0 {
        let empty: Vec<Vec<String>> = Vec::new();
        proof {
            assert(empty.deep_view() =~= spec_segmentate_batch(texts.deep_view(), mode));
        }
        return Ok(empty);
    }
    let workers = match max_workers {
        Some(w) => w,
        None => default_worker_budget(),
    };
    let out = if parallel_path(texts.len(), workers) {
        segmentate_multiple_parallel_to_vec(texts, mode, workers)
    } else {
        segmentate_multiple_serial(texts, mode)
    };
    proof {
        assert(out@.len() == out.deep_view().len());
        assert(texts@.len() == texts.deep_view().len());
    }
    Ok(out)
}

/// Segmentation is deterministic: two results of segmenting the same text
/// under the same mode are equal — nothing besides the text and the mode
/// affects the outcome, so segmenting twice yields identical results.
pub proof fn lemma_segmentate_deterministic(
    a: Seq<Seq<char>>,
    b: Seq<Seq<char>>,
    s: Seq<char>,
    mode: SegmentationMode,
)
    requires
        a == spec_segmentate(s, mode),
        b == spec_segmentate(s, mode),
    ensures
        a == b,
{
}

/// The strategy boundary: with `w` workers, a batch one text short of `w`
/// stays on the serial path, while a batch of exactly `w` texts takes the
/// parallel path.
pub proof fn lemma_strategy_boundary(w: nat)
    requires
        w >= 1,
    ensures
        !spec_parallel_path((w - 1) as nat, w),
        spec_parallel_path(w, w),
{
}

} // verus!
