use vstd::prelude::*;

verus! {

/// A contiguous range `[start, end)` of flat pixel indices.
#[derive(Clone, Copy, PartialEq, Eq, Structural, Debug)]
pub struct Chunk {
    pub start: usize,
    pub end: usize,
}

/// Where chunk `i` of `len` pixels split among `workers` starts: every chunk
/// has `len / workers` pixels but the last, which takes the rest.
pub open spec fn chunk_start(len: nat, workers: nat, i: nat) -> nat {
    i * (len / workers)
}

pub open spec fn chunk_end(len: nat, workers: nat, i: nat) -> nat {
    if i + 1 == workers {
        len
    } else {
        (i + 1) * (len / workers)
    }
}

proof fn lemma_start_bounds(len: nat, workers: nat, i: nat, j: nat)
    requires
        workers > 0,
        i <= j,
        j < workers,
    ensures
        chunk_start(len, workers, i) <= chunk_start(len, workers, j),
        chunk_start(len, workers, j) <= len,
{
    let q = len / workers;
    assert(i * q <= j * q) by (nonlinear_arith)
        requires
            i <= j,
    ;
    assert(j * q <= workers * q) by (nonlinear_arith)
        requires
            j < workers,
    ;
    assert(workers * q <= len) by (nonlinear_arith)
        requires
            q == len / workers,
            workers > 0,
    ;
}

/// Splits `len` pixels into `workers` contiguous chunks.
pub fn partition(len: usize, workers: usize) -> (r: Vec<Chunk>)
    requires
        workers > 0,
    ensures
        r@.len() == workers,
        forall|i: int|
            0 <= i < workers ==> r@[i].start == chunk_start(len as nat, workers as nat, i as nat)
                && r@[i].end == chunk_end(len as nat, workers as nat, i as nat),
{
    let q = len / workers;
    let mut r: Vec<Chunk> = Vec::new();
    let mut i: usize = 0;
    while i < workers
        invariant
            i <= workers,
            workers > 0,
            q == len / workers,
            r@.len() == i,
            forall|k: int|
                0 <= k < i ==> r@[k].start == chunk_start(len as nat, workers as nat, k as nat)
                    && r@[k].end == chunk_end(len as nat, workers as nat, k as nat),
        decreases workers - i,
    {
        proof {
            lemma_start_bounds(len as nat, workers as nat, i as nat, i as nat);
            if i + 1 < workers {
                lemma_start_bounds(len as nat, workers as nat, (i + 1) as nat, (i + 1) as nat);
            }
        }
        let start = i * q;
        let end = if i + 1 == workers {
            len
        } else {
            (i + 1) * q
        };
        r.push(Chunk { start, end });
        i = i + 1;
    }
    r
}

/// The chunks cover the pixels exactly once: each pixel lies in one chunk,
/// and in no other.
pub proof fn lemma_partition_covers_once(len: nat, workers: nat, p: nat)
    requires
        workers > 0,
        p < len,
    ensures
        exists|i: nat|
            i < workers && #[trigger] chunk_start(len, workers, i) <= p < chunk_end(len, workers, i),
        forall|i: nat, j: nat|
            i < workers && j < workers && #[trigger] chunk_start(len, workers, i) <= p < chunk_end(
                len,
                workers,
                i,
            ) && #[trigger] chunk_start(len, workers, j) <= p < chunk_end(len, workers, j) ==> i == j,
{
    let q = len / workers;
    let last = (workers - 1) as nat;
    let i: nat = if q == 0 || p / q >= last { last } else { p / q };
    lemma_start_bounds(len, workers, 0, i);
    if i == last {
        if q > 0 {
            assert(i * q <= (p / q) * q) by (nonlinear_arith)
                requires
                    i <= p / q,
            ;
            assert((p / q) * q <= p) by (nonlinear_arith)
                requires
                    q > 0,
            ;
        }
        assert(chunk_start(len, workers, i) <= p);
    } else {
        assert(q > 0);
        assert((p / q) * q <= p < (p / q + 1) * q) by (nonlinear_arith)
            requires
                q > 0,
        ;
    }
    assert(i < workers && chunk_start(len, workers, i) <= p < chunk_end(len, workers, i));
    assert forall|a: nat, b: nat|
        a < workers && b < workers && #[trigger] chunk_start(len, workers, a) <= p < chunk_end(
            len,
            workers,
            a,
        ) && #[trigger] chunk_start(len, workers, b) <= p < chunk_end(len, workers, b) implies a
        == b by {
        if a < b {
            lemma_start_bounds(len, workers, a + 1, b);
        } else if b < a {
            lemma_start_bounds(len, workers, b + 1, a);
        }
    }
}

/// The column and row of flat pixel `index` in an image `width` pixels wide.
pub fn pixel_of(index: usize, width: usize) -> (r: (usize, usize))
    requires
        width > 0,
    ensures
        r.0 == index % width,
        r.1 == index / width,
        r.0 < width,
        r.1 * width + r.0 == index,
{
    proof {
        vstd::arithmetic::div_mod::lemma_fundamental_div_mod(index as int, width as int);
        assert((index / width) * width == width * (index / width)) by (nonlinear_arith);
    }
    (index % width, index / width)
}

} // verus!
