//! Laws of the pool, stated and proved over its view.

use vstd::prelude::*;

verus! {

/// Reuse is last-in first-out: after a block is returned to the pool, the
/// next box operation hands out exactly that block, and the pool is back to
/// what it was before the block was returned.
pub proof fn lemma_lifo_reuse(pool: Seq<nat>, block: nat)
    ensures
        pool.push(block).last() == block,
        pool.push(block).drop_last() == pool,
{
    assert(pool.push(block).drop_last() =~= pool);
}

/// One free-list change, as the contracts of `BoxingArena::unbox` and of the
/// reusing branches of `BoxingArena::rebox` and `BoxingArena::try_rebox`
/// describe it on the pool's view.
pub enum PoolOp {
    /// An unbox: the block with this id returns to the pool.
    Reclaim(nat),
    /// A successful reusing box: the most recently added block leaves the pool.
    Reuse,
}

/// The pool's view after one operation.
pub open spec fn apply_op(pool: Seq<nat>, op: PoolOp) -> Seq<nat> {
    match op {
        PoolOp::Reclaim(b) => pool.push(b),
        PoolOp::Reuse => pool.drop_last(),
    }
}

/// The pool's view after a sequence of operations, applied in order.
pub open spec fn apply_ops(pool: Seq<nat>, ops: Seq<PoolOp>) -> Seq<nat>
    decreases ops.len(),
{
    if ops.len() == 0 {
        pool
    } else {
        apply_op(apply_ops(pool, ops.drop_last()), ops.last())
    }
}

/// A sequence of operations is valid when every reuse finds a non-empty
/// free list, as `rebox` and `try_rebox` reuse a block only then.
pub open spec fn ops_valid(pool: Seq<nat>, ops: Seq<PoolOp>) -> bool
    decreases ops.len(),
{
    ops.len() == 0 || {
        &&& ops_valid(pool, ops.drop_last())
        &&& (ops.last() is Reuse ==> apply_ops(pool, ops.drop_last()).len() > 0)
    }
}

/// How many operations of a run return a block to the pool.
pub open spec fn count_reclaims(ops: Seq<PoolOp>) -> nat
    decreases ops.len(),
{
    if ops.len() == 0 {
        0
    } else {
        count_reclaims(ops.drop_last()) + if ops.last() is Reclaim {
            1nat
        } else {
            0nat
        }
    }
}

/// How many operations of a run take a block out of the pool for reuse.
pub open spec fn count_reuses(ops: Seq<PoolOp>) -> nat
    decreases ops.len(),
{
    if ops.len() == 0 {
        0
    } else {
        count_reuses(ops.drop_last()) + if ops.last() is Reuse {
            1nat
        } else {
            0nat
        }
    }
}

/// Capacity accounting: after `k` unbox calls and `m` successful reusing box
/// calls, in any order and with no resize in between, the capacity equals the
/// initial capacity plus `k` minus `m`, and that difference is never negative.
pub proof fn lemma_capacity_accounting(pool: Seq<nat>, ops: Seq<PoolOp>)
    requires
        ops_valid(pool, ops),
    ensures
        count_reuses(ops) <= pool.len() + count_reclaims(ops),
        apply_ops(pool, ops).len() + count_reuses(ops) == pool.len() + count_reclaims(ops),
    decreases ops.len(),
{
    if ops.len() > 0 {
        lemma_capacity_accounting(pool, ops.drop_last());
    }
}

} // verus!
