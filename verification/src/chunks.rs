//! A row of items cut into chunks of a fixed size.

use vstd::prelude::*;

verus! {

/// How many chunks of at most `size` items a row of `len` items takes.
pub open spec fn chunk_count(len: nat, size: nat) -> nat
    recommends
        size > 0,
{
    ((len + size - 1) / size as int) as nat
}

/// Where chunk `i` ends.
pub open spec fn chunk_end(len: nat, size: nat, i: int) -> int {
    if (i + 1) * size <= len {
        (i + 1) * size
    } else {
        len as int
    }
}

/// Chunk `i` of a row of items.
pub open spec fn chunk<T>(items: Seq<T>, size: nat, i: int) -> Seq<T> {
    items.subrange(i * size, chunk_end(items.len(), size, i))
}

proof fn lemma_chunk_count(len: nat, size: nat, k: int)
    requires
        size > 0,
        k >= 0,
        (k - 1) * size < len <= k * size,
    ensures
        chunk_count(len, size) == k,
{
    let s = size as int;
    let x = len + s - 1;
    assert((k - 1) * s == k * s - s) by (nonlinear_arith);
    vstd::arithmetic::div_mod::lemma_fundamental_div_mod_converse(x, s, k, x - k * s);
}

/// The bounds of the chunks of a row of `len` items.
pub fn chunk_bounds(len: usize, size: usize) -> (r: Vec<(usize, usize)>)
    requires
        size > 0,
    ensures
        r@.len() == chunk_count(len as nat, size as nat),
        forall|i: int|
            0 <= i < r@.len() ==> (#[trigger] r@[i]).0 == i * size && r@[i].1 == chunk_end(
                len as nat,
                size as nat,
                i,
            ) && r@[i].0 < r@[i].1 <= len,
{
    let mut out: Vec<(usize, usize)> = Vec::new();
    let mut from: usize = 0;
    assert(0 * size == 0) by (nonlinear_arith);
    while from < len
        invariant
            size > 0,
            from <= len,
            from < len ==> from == out@.len() * size,
            from == len ==> len <= out@.len() * size,
            out@.len() > 0 ==> (out@.len() - 1) * size < len,
            out@.len() == 0 ==> from == 0,
            forall|i: int|
                0 <= i < out@.len() ==> (#[trigger] out@[i]).0 == i * size && out@[i].1
                    == chunk_end(len as nat, size as nat, i) && out@[i].0 < out@[i].1 <= len,
        decreases len - from,
    {
        let to: usize = if len - from > size {
            from + size
        } else {
            len
        };
        let ghost k = out@.len() as int;
        assert((k + 1) * size == k * size + size) by (nonlinear_arith);
        out.push((from, to));
        from = to;
    }
    proof {
        let k = out@.len() as int;
        if k == 0 {
            assert(-1 * size < 0) by (nonlinear_arith)
                requires
                    size > 0,
            ;
            assert(0 * size == 0) by (nonlinear_arith);
        }
        lemma_chunk_count(len as nat, size as nat, k);
    }
    out
}

/// The items of the first `n` chunks, one chunk after the other.
pub open spec fn joined_chunks<T>(items: Seq<T>, size: nat, n: nat) -> Seq<T>
    decreases n,
{
    if n == 0 {
        Seq::empty()
    } else {
        joined_chunks(items, size, (n - 1) as nat) + chunk(items, size, n - 1)
    }
}

proof fn lemma_joined_chunks<T>(items: Seq<T>, size: nat, n: nat)
    requires
        size > 0,
        n <= chunk_count(items.len(), size),
    ensures
        joined_chunks(items, size, n) == items.take(
            if n * size <= items.len() {
                (n * size) as int
            } else {
                items.len() as int
            },
        ),
        n > 0 ==> 0 < chunk(items, size, n - 1).len() <= size,
        n > 0 ==> (n - 1) * size < items.len(),
    decreases n,
{
    let len = items.len() as int;
    let s = size as int;
    assert(0 * s == 0) by (nonlinear_arith);
    if n > 0 {
        let m = n - 1;
        lemma_joined_chunks(items, size, m as nat);
        assert(n * s == m * s + s) by (nonlinear_arith)
            requires
                m == n - 1,
        ;
        let q = chunk_count(items.len(), size) as int;
        vstd::arithmetic::div_mod::lemma_fundamental_div_mod(len + s - 1, s);
        vstd::arithmetic::div_mod::lemma_mod_bound(len + s - 1, s);
        vstd::arithmetic::div_mod::lemma_div_pos_is_pos(len + s - 1, s);
        assert(s * q <= len + s - 1);
        assert(n * s <= q * s) by (nonlinear_arith)
            requires
                n <= q,
                s > 0,
        ;
        assert(q * s == s * q) by (nonlinear_arith);
        assert(m * s < len);
        assert(m * s >= 0) by (nonlinear_arith)
            requires
                m >= 0,
                s > 0,
        ;
        let to = chunk_end(items.len(), size, m);
        assert(items.take(m * s) + items.subrange(m * s, to) =~= items.take(to));
    } else {
        assert(items.take(0) =~= Seq::<T>::empty());
    }
}

/// Chunking loses nothing and repeats nothing: the chunks, one after the other, are the row, and each
/// holds at least one item and at most `size`.
pub proof fn law_chunks_cover<T>(items: Seq<T>, size: nat)
    requires
        size > 0,
    ensures
        joined_chunks(items, size, chunk_count(items.len(), size)) == items,
        forall|i: int|
            0 <= i < chunk_count(items.len(), size) ==> 0 < (#[trigger] chunk(items, size, i)).len()
                <= size,
{
    let len = items.len() as int;
    let s = size as int;
    let q = chunk_count(items.len(), size);
    lemma_joined_chunks(items, size, q);
    assert forall|i: int| 0 <= i < q implies 0 < (#[trigger] chunk(items, size, i)).len()
        <= size by {
        lemma_joined_chunks(items, size, (i + 1) as nat);
    }
    vstd::arithmetic::div_mod::lemma_fundamental_div_mod(len + s - 1, s);
    vstd::arithmetic::div_mod::lemma_mod_bound(len + s - 1, s);
    vstd::arithmetic::div_mod::lemma_div_pos_is_pos(len + s - 1, s);
    assert(q as int * s == s * q as int) by (nonlinear_arith);
    assert(q as int * s >= len);
    assert(items.take(len) =~= items);
    if q as int * s == len {
        assert(items.take(q as int * s) =~= items);
    }
}

/// Each item stands in its chunk, at its place.
pub proof fn law_each_item_has_its_chunk<T>(items: Seq<T>, size: nat, k: int)
    requires
        size > 0,
        0 <= k < items.len(),
    ensures
        0 <= k / (size as int) < chunk_count(items.len(), size),
        0 <= k % (size as int) < chunk(items, size, k / (size as int)).len(),
        chunk(items, size, k / (size as int))[k % (size as int)] == items[k],
{
    let n = size as int;
    let (i, j) = (k / n, k % n);
    let len = items.len() as int;
    vstd::arithmetic::div_mod::lemma_fundamental_div_mod(k, n);
    vstd::arithmetic::div_mod::lemma_mod_bound(k, n);
    vstd::arithmetic::div_mod::lemma_div_pos_is_pos(k, n);
    assert(i * n == n * i) by (nonlinear_arith);
    assert((i + 1) * n == i * n + n) by (nonlinear_arith);
    let c = len + n - 1;
    vstd::arithmetic::div_mod::lemma_fundamental_div_mod(c, n);
    vstd::arithmetic::div_mod::lemma_mod_bound(c, n);
    let q = c / n;
    assert(i < q) by (nonlinear_arith)
        requires
            c == n * q + c % n,
            c % n < n,
            c >= n * i + n,
            n > 0,
    ;
    assert(k < chunk_end(items.len(), size, i));
    assert(i * n <= k);
}

} // verus!
