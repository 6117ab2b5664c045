use vstd::arithmetic::div_mod::lemma_fundamental_div_mod;
use vstd::prelude::*;

verus! {

broadcast use vstd::seq_lib::group_seq_properties;

/// The length of every chunk but the last non-empty one: `ceil(n / p)`.
pub open spec fn chunk_len(n: int, p: int) -> int {
    (n + p - 1) / p
}

/// Where chunk `k` of an input of length `n`, split `p` ways, begins.
pub open spec fn chunk_start(n: int, p: int, k: int) -> int {
    if k * chunk_len(n, p) < n {
        k * chunk_len(n, p)
    } else {
        n
    }
}

/// Chunk `k` of `items` split `p` ways, left to right.
pub open spec fn chunk_of<T>(items: Seq<T>, p: int, k: int) -> Seq<T> {
    items.subrange(chunk_start(items.len() as int, p, k), chunk_start(items.len() as int, p, k + 1))
}

/// The chunks of `items` split `p` ways: none for an empty input, otherwise
/// exactly `p` contiguous chunks of `chunk_len` items each, the last
/// non-empty one taking what remains and any further ones empty.
pub open spec fn partition_spec<T>(items: Seq<T>, p: int) -> Seq<Seq<T>> {
    if items.len() == 0 {
        Seq::empty()
    } else {
        Seq::new(p as nat, |k: int| chunk_of(items, p, k))
    }
}

/// The contents of each vector of `vs`.
pub open spec fn views_of<T>(vs: Seq<Vec<T>>) -> Seq<Seq<T>> {
    vs.map_values(|v: Vec<T>| v@)
}

/// The sum of the lengths of `chunks`.
pub open spec fn total_len<T>(chunks: Seq<Seq<T>>) -> nat
    decreases chunks.len(),
{
    if chunks.len() == 0 {
        0
    } else {
        total_len(chunks.drop_last()) + chunks.last().len()
    }
}

proof fn lemma_chunk_len_covers(n: int, p: int)
    requires
        0 <= n,
        1 <= p,
    ensures
        p * chunk_len(n, p) >= n,
        0 <= chunk_len(n, p),
        n > 0 ==> chunk_len(n, p) >= 1,
{
    let c = chunk_len(n, p);
    assert(p * c >= n) by (nonlinear_arith)
        requires
            c == (n + p - 1) / p,
            1 <= p,
            0 <= n,
    ;
    assert(0 <= c) by (nonlinear_arith)
        requires
            c == (n + p - 1) / p,
            1 <= p,
            0 <= n,
    ;
    assert(n > 0 ==> c >= 1) by (nonlinear_arith)
        requires
            c == (n + p - 1) / p,
            1 <= p,
            0 <= n,
    ;
}

proof fn lemma_chunk_step(n: int, p: int, k: int)
    requires
        0 <= n,
        1 <= p,
        0 <= k,
    ensures
        chunk_start(n, p, k) <= chunk_start(n, p, k + 1) <= n,
        chunk_start(n, p, k + 1) - chunk_start(n, p, k) == if n - chunk_start(n, p, k) < chunk_len(
            n,
            p,
        ) {
            n - chunk_start(n, p, k)
        } else {
            chunk_len(n, p)
        },
{
    let c = chunk_len(n, p);
    lemma_chunk_len_covers(n, p);
    assert((k + 1) * c == k * c + c) by (nonlinear_arith);
    assert(0 <= k * c) by (nonlinear_arith)
        requires
            0 <= k,
            0 <= c,
    ;
}

proof fn lemma_total_len_is_flatten_len<T>(chunks: Seq<Seq<T>>)
    ensures
        total_len(chunks) == chunks.flatten().len(),
    decreases chunks.len(),
{
    if chunks.len() > 0 {
        lemma_total_len_is_flatten_len(chunks.drop_last());
        chunks.drop_last().lemma_flatten_push(chunks.last());
        assert(chunks.drop_last().push(chunks.last()) == chunks);
    }
}

proof fn lemma_prefix_flatten<T>(items: Seq<T>, p: int, k: int)
    requires
        1 <= p,
        0 <= k <= p,
        items.len() > 0,
    ensures
        partition_spec(items, p).subrange(0, k).flatten() == items.subrange(
            0,
            chunk_start(items.len() as int, p, k),
        ),
    decreases k,
{
    let n = items.len() as int;
    let chunks = partition_spec(items, p);
    lemma_chunk_len_covers(n, p);
    if k == 0 {
        assert(chunks.subrange(0, 0).flatten() == Seq::<T>::empty());
        assert(items.subrange(0, chunk_start(n, p, 0)) == Seq::<T>::empty());
    } else {
        lemma_prefix_flatten(items, p, k - 1);
        lemma_chunk_step(n, p, k - 1);
        chunks.subrange(0, k - 1).lemma_flatten_push(chunks[k - 1]);
        assert(chunks.subrange(0, k - 1).push(chunks[k - 1]) == chunks.subrange(0, k));
        assert(items.subrange(0, chunk_start(n, p, k - 1)) + chunks[k - 1] == items.subrange(
            0,
            chunk_start(n, p, k),
        ));
    }
}

/// Splitting `items` into chunks and concatenating them again, in order,
/// gives back `items`, and the chunk lengths add up to the input's length.
pub proof fn lemma_partition_reassembles<T>(items: Seq<T>, p: int)
    requires
        1 <= p,
    ensures
        partition_spec(items, p).flatten() == items,
        total_len(partition_spec(items, p)) == items.len(),
{
    let n = items.len() as int;
    let chunks = partition_spec(items, p);
    if n > 0 {
        lemma_chunk_len_covers(n, p);
        lemma_prefix_flatten(items, p, p);
        assert(chunks.subrange(0, p) == chunks);
        assert(p * chunk_len(n, p) >= n);
        assert(chunk_start(n, p, p) == n);
        assert(items.subrange(0, n) == items);
    } else {
        assert(chunks.flatten() == Seq::<T>::empty());
    }
    lemma_total_len_is_flatten_len(chunks);
}

/// Computes `ceil(n / p)` without overflow.
fn ceil_div(n: usize, p: usize) -> (r: usize)
    requires
        1 <= p,
    ensures
        r == chunk_len(n as int, p as int),
{
    let q = n / p;
    let extra: usize = if n % p == 0 { 0 } else { 1 };
    assert(q + extra == chunk_len(n as int, p as int)) by (nonlinear_arith)
        requires
            q == n / p,
            extra == (if n % p == 0 { 0int } else { 1int }),
            1 <= p,
            0 <= n,
    ;
    assert(q * p <= n) by (nonlinear_arith)
        requires
            q == n / p,
            1 <= p,
            0 <= n,
    ;
    proof {
        lemma_fundamental_div_mod(n as int, p as int);
    }
    assert(q + extra <= n) by (nonlinear_arith)
        requires
            q == n / p,
            extra == (if n % p == 0 { 0int } else { 1int }),
            p * q + n % p == n,
            1 <= p,
            0 <= n,
    ;
    q + extra
}

/// Splits `data` into the contiguous chunks that the workers of a pool of
/// `pool_len` workers process, left to right: one per worker, or none when
/// `data` is empty.
pub fn partition<T>(data: Vec<T>, pool_len: usize) -> (chunks: Vec<Vec<T>>)
    requires
        1 <= pool_len,
    ensures
        views_of(chunks@) == partition_spec(data@, pool_len as int),
        data@.len() == 0 ==> chunks@.len() == 0,
        data@.len() > 0 ==> chunks@.len() == pool_len,
{
    let ghost items = data@;
    let n = data.len();
    let mut chunks: Vec<Vec<T>> = Vec::new();
    if n == 0 {
        assert(views_of(chunks@) == partition_spec(items, pool_len as int));
        return chunks;
    }
    let c = ceil_div(n, pool_len);
    proof {
        lemma_chunk_len_covers(n as int, pool_len as int);
    }
    let mut rest = data;
    let mut k: usize = 0;
    assert(chunk_start(n as int, pool_len as int, 0) == 0);
    while k < pool_len
        invariant
            0 <= k <= pool_len,
            n == items.len(),
            c == chunk_len(n as int, pool_len as int),
            chunks@.len() == k,
            rest@ == items.subrange(chunk_start(n as int, pool_len as int, k as int), n as int),
            forall|j: int|
                0 <= j < k ==> (#[trigger] chunks@[j])@ == chunk_of(items, pool_len as int, j),
        decreases pool_len - k,
    {
        proof {
            lemma_chunk_step(n as int, pool_len as int, k as int);
        }
        let take = if rest.len() < c { rest.len() } else { c };
        let tail = rest.split_off(take);
        chunks.push(rest);
        rest = tail;
        k = k + 1;
    }
    assert(views_of(chunks@) == partition_spec(items, pool_len as int));
    chunks
}

} // verus!
