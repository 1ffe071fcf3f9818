//! Batch planning: splitting `n` ordered inputs into contiguous chunks of at
//! most `batch_size` texts each, preserving order and covering every input
//! exactly once.

use vstd::prelude::*;

verus! {

/// Number of chunks a plan for `n` items with chunk bound `b` holds:
/// `n / b`, rounded up.
pub open spec fn spec_chunk_count(n: int, b: int) -> int
    recommends
        b >= 1,
        n >= 0,
{
    if n % b == 0 {
        n / b
    } else {
        n / b + 1
    }
}

/// Length of the `k`-th chunk of a plan for `n` items with chunk bound `b`:
/// `b`, except that the last chunk holds what remains.
pub open spec fn spec_chunk_len(n: int, b: int, k: int) -> int
    recommends
        b >= 1,
        0 <= k < spec_chunk_count(n, b),
{
    if n - b * k < b {
        n - b * k
    } else {
        b
    }
}

/// A plan is a sequence of `(start, len)` chunks that tile `0..n` in order:
/// the first chunk starts at 0, each chunk ends where the next begins, the
/// last ends at `n`, every chunk is non-empty and at most `b` long, and all
/// chunks but the last are exactly `b` long.
pub open spec fn plan_tiles(plan: Seq<(usize, usize)>, n: int, b: int) -> bool {
    &&& (n == 0 <==> plan.len() == 0)
    &&& plan.len() > 0 ==> plan[0].0 == 0
    &&& forall|k: int| 0 <= k < plan.len() ==> 1 <= (#[trigger] plan[k]).1 <= b
    &&& forall|k: int|
        0 <= k < plan.len() ==> (#[trigger] plan[k]).0 + plan[k].1 == if k + 1 < plan.len() {
            plan[k + 1].0 as int
        } else {
            n
        }
    &&& forall|k: int| 0 <= k < plan.len() - 1 ==> (#[trigger] plan[k]).1 == b
}

/// Batch planner: returns the `(start, len)` chunks, in order, that partition
/// `0..n` into `ceil(n / batch_size)` contiguous runs of at most `batch_size`
/// items; all chunks but the last are exactly `batch_size` long, and an empty
/// input yields an empty plan.
pub fn plan_batches(n: usize, batch_size: usize) -> (plan: Vec<(usize, usize)>)
    requires
        batch_size >= 1,
    ensures
        plan_tiles(plan@, n as int, batch_size as int),
        plan@.len() == spec_chunk_count(n as int, batch_size as int),
        forall|k: int|
            0 <= k < plan@.len() ==> (#[trigger] plan@[k]).0 as int == batch_size as int * k
                && plan@[k].1 as int == spec_chunk_len(n as int, batch_size as int, k),
{
    let mut plan: Vec<(usize, usize)> = Vec::new();
    let mut start: usize = 0;
    while start < n
        invariant
            batch_size >= 1,
            start <= n,
            plan@.len() == 0 ==> start == 0,
            plan@.len() > 0 ==> plan@[0].0 == 0,
            plan@.len() > 0 ==> start as int == batch_size as int * (plan@.len() - 1)
                + plan@[plan@.len() - 1].1,
            forall|k: int| 0 <= k < plan@.len() ==> 1 <= (#[trigger] plan@[k]).1 <= batch_size,
            forall|k: int|
                0 <= k < plan@.len() ==> (#[trigger] plan@[k]).0 + plan@[k].1 == if k + 1
                    < plan@.len() {
                    plan@[k + 1].0 as int
                } else {
                    start as int
                },
            forall|k: int| 0 <= k < plan@.len() - 1 ==> (#[trigger] plan@[k]).1 == batch_size,
            start < n && plan@.len() > 0 ==> plan@[plan@.len() - 1].1 == batch_size,
            forall|k: int|
                0 <= k < plan@.len() ==> (#[trigger] plan@[k]).0 as int == batch_size as int * k
                    && plan@[k].1 as int == spec_chunk_len(n as int, batch_size as int, k),
        decreases n - start,
    {
        let len = if n - start < batch_size {
            n - start
        } else {
            batch_size
        };
        proof {
            if plan@.len() > 0 {
                assert(start as int == batch_size as int * (plan@.len() - 1) + batch_size);
                assert(batch_size as int * (plan@.len() - 1) + batch_size == batch_size as int
                    * plan@.len()) by (nonlinear_arith);
            }
            assert(start as int == batch_size as int * plan@.len());
        }
        plan.push((start, len));
        start = start + len;
    }
    proof {
        if plan@.len() > 0 {
            lemma_full_plan_is_ceil(
                n as int,
                batch_size as int,
                plan@.len() as int,
                plan@[plan@.len() - 1].1 as int,
            );
        }
    }
    plan
}

/// If `n` items fall into `c` chunks of `b` items each, except a last chunk
/// of `l` items with `1 <= l <= b`, then `c` is `n / b` rounded up.
proof fn lemma_full_plan_is_ceil(n: int, b: int, c: int, l: int)
    requires
        b >= 1,
        c >= 1,
        1 <= l <= b,
        n == b * (c - 1) + l,
    ensures
        c == spec_chunk_count(n, b),
{
    if l == b {
        assert(n == b * c && n % b == 0 && n / b == c) by (nonlinear_arith)
            requires
                n == b * (c - 1) + l,
                l == b,
                b >= 1,
                c >= 1,
        ;
    } else {
        assert(n % b == l && n / b == c - 1) by (nonlinear_arith)
            requires
                n == b * (c - 1) + l,
                b >= 1,
                c >= 1,
                1 <= l < b,
        ;
    }
}

} // verus!
