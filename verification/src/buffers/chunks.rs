//! Cutting a run of samples into chunks of a fixed size.
use crate::buffers::rows;
use itertools::Itertools;
use vstd::arithmetic::div_mod::lemma_fundamental_div_mod;
use vstd::prelude::*;

verus! {

/// Number of chunks of `size` items that `len` items make up, the last one
/// possibly shorter.
pub open spec fn chunk_count(len: nat, size: nat) -> nat {
    ((len + size - 1) / (size as int)) as nat
}

/// `items` cut into chunks of `size` items: every chunk but the last has
/// `size` items, the last has what is left, and no chunk is empty.
pub open spec fn chunked<S>(items: Seq<S>, size: nat) -> Seq<Seq<S>> {
    Seq::new(
        chunk_count(items.len(), size),
        |i: int|
            items.subrange(
                i * size,
                if (i + 1) * size <= items.len() {
                    (i + 1) * size
                } else {
                    items.len() as int
                },
            ),
    )
}

/// The chunks cover the items: all chunks before the last are full, and the
/// last one begins within the items.
pub proof fn lemma_chunk_count(len: nat, size: nat)
    requires
        size > 0,
    ensures
        len <= chunk_count(len, size) * size,
        chunk_count(len, size) > 0 ==> (chunk_count(len, size) - 1) * size < len,
        len == 0 ==> chunk_count(len, size) == 0,
{
    let n = (len + size - 1) / (size as int);
    lemma_fundamental_div_mod(len + size - 1, size as int);
    assert(size * n == n * size) by (nonlinear_arith);
    assert(0 <= n) by (nonlinear_arith)
        requires
            0 <= len + size - 1,
            size > 0,
            len + size - 1 == n * size + (len + size - 1) % (size as int),
            (len + size - 1) % (size as int) < size,
    ;
    assert((n - 1) * size == n * size - size) by (nonlinear_arith);
    if len == 0 {
        assert(n == 0) by (nonlinear_arith)
            requires
                0 <= n,
                size > 0,
                n * size <= size - 1,
        ;
    }
}

/// The chunks that `itertools::Itertools::chunks` cuts `items` into, each
/// collected into a vector. The crate documents that every chunk yields
/// `size` items and that the last one is shorter if not enough are left, and
/// that the call panics if `size` is 0.
#[verifier::external_body]
pub(crate) fn chunks_of<S: Copy>(items: &[S], size: usize) -> (chunks: Vec<Vec<S>>)
    requires
        size != 0,
    ensures
        rows(chunks@) == chunked(items@, size as nat),
{
    let mut chunks = Vec::new();
    for chunk in &items.iter().copied().chunks(size) {
        chunks.push(chunk.collect());
    }
    chunks
}

} // verus!
