//! Chunk bookkeeping for the batch dispatcher: balanced chunk sizing by
//! rounded-up division, the contiguous order-preserving partition of a
//! batch, the order-preserving reassembly of per-chunk results, and the
//! bound that the chunk count never exceeds the worker count.

use vstd::prelude::*;
use vstd::arithmetic::div_mod::{lemma_div_is_ordered, lemma_fundamental_div_mod,
    lemma_fundamental_div_mod_converse};

verus! {

/// `n` divided by `d`, rounded up.
pub open spec fn spec_div_ceil(n: nat, d: nat) -> nat
    recommends
        d >= 1,
{
    if n == 0 {
        0
    } else {
        ((n - 1) as nat) / d + 1
    }
}

/// Computes `n` divided by `d`, rounded up, without overflow.
pub fn div_ceil(n: usize, d: usize) -> (r: usize)
    requires
        d >= 1,
    ensures
        r == spec_div_ceil(n as nat, d as nat),
        n >= 1 ==> r >= 1,
{
    if n == 0 {
        0
    } else {
        (n - 1) / d + 1
    }
}

/// Cutting a batch of `n` texts into chunks of `ceil(n / w)` texts yields at
/// most `w` chunks: the dispatcher never makes more chunks than it has
/// workers.
pub proof fn lemma_chunk_count_at_most_workers(n: nat, w: nat)
    requires
        n >= 1,
        w >= 1,
    ensures
        spec_div_ceil(n, spec_div_ceil(n, w)) <= w,
{
    let x = n - 1;
    let q = x / (w as int);
    let r = x % (w as int);
    lemma_fundamental_div_mod(x, w as int);
    assert(x == (w as int) * q + r);
    let cs = q + 1;
    assert(spec_div_ceil(n, w) == cs);
    assert((w as int) * q + (w - 1) == (w - 1) * cs + q) by (nonlinear_arith)
        requires
            cs == q + 1,
    ;
    assert(x <= (w - 1) * cs + q);
    lemma_div_is_ordered(x, (w - 1) * cs + q, cs);
    lemma_fundamental_div_mod_converse((w - 1) * cs + q, cs, w - 1, q);
    assert(x / cs <= w - 1);
}

/// Cuts the batch into contiguous chunks of `chunk_size` texts, in batch
/// order; only the last chunk may be shorter, and together the chunks are
/// exactly the batch.
pub fn chunk_texts(texts: &Vec<String>, chunk_size: usize) -> (chunks: Vec<Vec<String>>)
    requires
        chunk_size >= 1,
        texts@.len() >= 1,
    ensures
        chunks.deep_view().flatten() == texts.deep_view(),
        chunks@.len() == spec_div_ceil(texts@.len() as nat, chunk_size as nat),
        forall|i: int| 0 <= i < chunks@.len() ==> 1 <= #[trigger] chunks@[i]@.len() <= chunk_size,
        forall|i: int| 0 <= i < chunks@.len() - 1 ==> #[trigger] chunks@[i]@.len() == chunk_size,
{
    let n = texts.len();
    let mut chunks: Vec<Vec<String>> = Vec::new();
    let mut pos: usize = 0;
    while pos < n
        invariant
            texts@.len() == n,
            chunk_size >= 1,
            pos <= n,
            chunks.deep_view().flatten() == texts.deep_view().subrange(0, pos as int),
            chunks@.len() == 0 ==> pos == 0,
            chunks@.len() >= 1 ==> (chunks@.len() - 1) * chunk_size
                + chunks@[chunks@.len() - 1]@.len() == pos,
            forall|i: int| 0 <= i < chunks@.len() ==> 1 <= #[trigger] chunks@[i]@.len()
                <= chunk_size,
            forall|i: int| 0 <= i < chunks@.len() - 1 ==> #[trigger] chunks@[i]@.len()
                == chunk_size,
            pos < n && chunks@.len() >= 1 ==> chunks@[chunks@.len() - 1]@.len() == chunk_size,
        decreases n - pos,
    {
        let remaining = n - pos;
        let take = if remaining < chunk_size {
            remaining
        } else {
            chunk_size
        };
        let mut chunk: Vec<String> = Vec::new();
        let mut j: usize = 0;
        while j < take
            invariant
                texts@.len() == n,
                pos + take <= n,
                j <= take,
                chunk@.len() == j,
                chunk.deep_view() == texts.deep_view().subrange(pos as int, pos as int + j as int),
            decreases take - j,
        {
            chunk.push(texts[pos + j].clone());
            proof {
                assert(chunk.deep_view()
                    =~= texts.deep_view().subrange(pos as int, pos as int + j as int + 1));
            }
            j = j + 1;
        }
        let ghost chunks_pre = chunks;
        let ghost k = chunks@.len() as int;
        chunks.push(chunk);
        pos = pos + take;
        proof {
            assert(chunks.deep_view() =~= chunks_pre.deep_view().push(chunk.deep_view()));
            chunks_pre.deep_view().lemma_flatten_push(chunk.deep_view());
            assert(chunks.deep_view().flatten()
                =~= texts.deep_view().subrange(0, pos as int));
            if k >= 1 {
                assert((k - 1) * chunk_size + chunk_size == k * chunk_size) by (nonlinear_arith);
            }
        }
    }
    proof {
        assert(texts.deep_view().subrange(0, n as int) =~= texts.deep_view());
        let k = chunks@.len() as int;
        let last = chunks@[k - 1]@.len() as int;
        assert(n - 1 == (k - 1) * (chunk_size as int) + (last - 1));
        lemma_fundamental_div_mod_converse(
            n - 1,
            chunk_size as int,
            k - 1,
            last - 1,
        );
    }
    chunks
}

/// Reassembles per-chunk results in chunk order into one flat result
/// sequence: a plain concatenation, with no re-sorting.
pub fn flatten_parts(parts: Vec<Vec<Vec<String>>>) -> (r: Vec<Vec<String>>)
    ensures
        r.deep_view() == parts.deep_view().flatten(),
{
    let ghost total = parts.deep_view();
    let mut rest = parts;
    let mut out: Vec<Vec<String>> = Vec::new();
    proof {
        assert(out.deep_view() + rest.deep_view().flatten() =~= total.flatten());
    }
    while rest.len() > 0
        invariant
            out.deep_view() + rest.deep_view().flatten() == total.flatten(),
        decreases rest@.len(),
    {
        let ghost rest_pre = rest;
        let ghost out_pre = out;
        let mut part = rest.remove(0);
        let ghost part_view = part.deep_view();
        out.append(&mut part);
        proof {
            assert(part_view == rest_pre.deep_view()[0]);
            assert(rest.deep_view() =~= rest_pre.deep_view().drop_first());
            assert(rest_pre.deep_view().flatten()
                == rest_pre.deep_view().first() + rest_pre.deep_view().drop_first().flatten());
            assert(out.deep_view() =~= out_pre.deep_view() + part_view);
            assert(out.deep_view() + rest.deep_view().flatten()
                =~= out_pre.deep_view() + rest_pre.deep_view().flatten());
        }
    }
    proof {
        assert(rest.deep_view().flatten() =~= Seq::<Seq<Seq<char>>>::empty());
        assert(out.deep_view() + Seq::<Seq<Seq<char>>>::empty() =~= out.deep_view());
    }
    out
}

} // verus!
