//! An allocation-reuse pool for single-value heap slots.
//!
//! A `BoxingArena<T>` keeps a free list of heap blocks, each able to hold one
//! value of type `T`. Wrapping a value (`rebox`) reuses the most recently
//! returned block when one is free; unwrapping (`unbox`) moves the value out
//! and keeps the block for later reuse instead of releasing it.
//!
//! Each block is an owned slot: a heap allocation that holds either a value or
//! nothing. The pool stores only empty slots; a [`Handle`] is a slot that
//! holds a value. In contracts, a block is identified by a ghost id, and the
//! pool is viewed as the sequence of ids of its free blocks, so last-in
//! first-out reuse is stated exactly.

use vstd::pervasive::arbitrary;
use vstd::prelude::*;

pub mod laws;

verus! {

/// One heap block: an owned slot able to hold a single `T`, together with a
/// ghost id that stands for the block's identity in contracts.
struct Block<T> {
    slot: Box<Option<T>>,
    id: Ghost<nat>,
}

impl<T> Block<T> {
    /// A block on the pool's free list holds no value.
    spec fn is_free(self) -> bool {
        *self.slot is None
    }
}

/// An owned handle to a heap-resident value of type `T`, produced by
/// [`BoxingArena::rebox`] and consumed by [`BoxingArena::unbox`].
pub struct Handle<T> {
    block: Block<T>,
}

impl<T> Handle<T> {
    /// A handle always holds a value.
    pub closed spec fn wf(self) -> bool {
        *self.block.slot is Some
    }

    /// The value the handle holds.
    pub closed spec fn value(self) -> T {
        (*self.block.slot)->Some_0
    }

    /// The id of the block the handle occupies.
    pub closed spec fn id(self) -> nat {
        self.block.id@
    }

    /// Borrow the value the handle holds.
    pub fn get(&self) -> (r: &T)
        requires
            self.wf(),
        ensures
            *r == self.value(),
    {
        (*self.block.slot).as_ref().unwrap()
    }
}

/// The allocation pool: a free list of empty heap blocks, reused in
/// last-in first-out order.
pub struct BoxingArena<T> {
    items: Vec<Block<T>>,
}

impl<T> View for BoxingArena<T> {
    type V = Seq<nat>;

    /// The pool is viewed as the ids of its free blocks, oldest first.
    closed spec fn view(&self) -> Seq<nat> {
        self.items@.map_values(|b: Block<T>| b.id@)
    }
}

impl<T> BoxingArena<T> {
    /// Every block on the free list is empty.
    pub closed spec fn wf(self) -> bool {
        forall|i: int| 0 <= i < self.items@.len() ==> (#[trigger] self.items@[i]).is_free()
    }

    /// Create an empty pool. Performs no allocation.
    pub fn new() -> (r: Self)
        ensures
            r.wf(),
            r@ == Seq::<nat>::empty(),
    {
        let r = Self { items: Vec::new() };
        proof {
            assert(r@ =~= Seq::<nat>::empty());
        }
        r
    }

    /// Create a pool pre-populated with `size` free blocks.
    pub fn with_capacity(size: usize) -> (r: Self)
        ensures
            r.wf(),
            r@.len() == size,
    {
        let mut ba = BoxingArena::new();
        ba.resize_capacity(size);
        ba
    }

    /// The number of free blocks currently held.
    pub fn capacity(&self) -> (r: usize)
        ensures
            r == self@.len(),
    {
        self.items.len()
    }

    /// Move the value out of a handle and keep its block for later reuse:
    /// the free list grows by exactly one, by the handle's block.
    pub fn unbox(&mut self, v: Handle<T>) -> (r: T)
        requires
            old(self).wf(),
            v.wf(),
        ensures
            final(self).wf(),
            final(self)@ == old(self)@.push(v.id()),
            r == v.value(),
    {
        let Handle { mut block } = v;
        let val = Option::take(&mut *block.slot);
        self.items.push(block);
        proof {
            assert(self@ =~= old(self)@.push(v.id()));
        }
        val.unwrap()
    }

    /// Wrap a value into an owned handle. When the free list is non-empty,
    /// its most recently added block is reused (last-in first-out) and the
    /// free list shrinks by one; otherwise a fresh block is allocated and
    /// the free list is unchanged.
    pub fn rebox(&mut self, v: T) -> (r: Handle<T>)
        requires
            old(self).wf(),
        ensures
            final(self).wf(),
            r.wf(),
            r.value() == v,
            old(self)@.len() > 0 ==> r.id() == old(self)@.last()
                && final(self)@ == old(self)@.drop_last(),
            old(self)@.len() == 0 ==> final(self)@ == old(self)@,
    {
        match self.items.pop() {
            None => {
                let block = Block { slot: Box::new(Some(v)), id: Ghost(arbitrary()) };
                Handle { block }
            },
            Some(mut block) => {
                *block.slot = Some(v);
                proof {
                    assert(self@ =~= old(self)@.drop_last());
                }
                Handle { block }
            },
        }
    }

    /// Wrap the value held in `v`, but only when a free block is available:
    /// reuse is then certain and the value moves straight from the caller's
    /// storage into the reused block, leaving `v` empty. When `v` holds no
    /// value or the free list is empty, nothing happens and no handle is
    /// produced.
    pub fn try_rebox(&mut self, v: &mut Option<T>) -> (r: Option<Handle<T>>)
        requires
            old(self).wf(),
        ensures
            final(self).wf(),
            *old(v) is Some && old(self)@.len() > 0 ==> {
                &&& r is Some
                &&& r.unwrap().wf()
                &&& r.unwrap().value() == old(v).unwrap()
                &&& r.unwrap().id() == old(self)@.last()
                &&& final(self)@ == old(self)@.drop_last()
                &&& *final(v) is None
            },
            !(*old(v) is Some && old(self)@.len() > 0) ==> {
                &&& r is None
                &&& *final(v) == *old(v)
                &&& *final(self) == *old(self)
            },
    {
        if v.is_none() {
            return None;
        }
        if self.items.len() == 0 {
            return None;
        }

        let mut block = self.items.pop().unwrap();
        core::mem::swap(&mut *block.slot, v);
        proof {
            assert(self@ =~= old(self)@.drop_last());
        }
        Some(Handle { block })
    }

    /// Adjust the free list to hold exactly `size` blocks. Excess blocks are
    /// released most-recently-added first; missing blocks are freshly
    /// allocated. Blocks that stay keep their place.
    pub fn resize_capacity(&mut self, size: usize)
        requires
            old(self).wf(),
        ensures
            final(self).wf(),
            final(self)@.len() == size,
            size <= old(self)@.len() ==> final(self)@ == old(self)@.subrange(0, size as int),
            size >= old(self)@.len() ==> final(self)@.subrange(
                0,
                old(self)@.len() as int,
            ) == old(self)@,
    {
        let ghost orig = self@;
        while self.items.len() > size
            invariant
                self.wf(),
                self@.len() <= orig.len(),
                self@ == orig.subrange(0, self@.len() as int),
                self@.len() >= size || self@.len() == orig.len(),
            decreases self.items@.len(),
        {
            let _ = self.items.pop();
            proof {
                assert(self@ =~= orig.subrange(0, self@.len() as int));
            }
        }
        let ghost mid = self@;
        proof {
            assert(self@.subrange(0, mid.len() as int) =~= mid);
        }
        while self.items.len() < size
            invariant
                self.wf(),
                mid.len() <= orig.len(),
                mid == orig.subrange(0, mid.len() as int),
                mid.len() >= size || mid.len() == orig.len(),
                mid.len() <= size,
                mid.len() <= self@.len(),
                self@.len() <= size,
                self@.subrange(0, mid.len() as int) == mid,
            decreases size - self.items@.len(),
        {
            self.items.push(Block { slot: Box::new(None), id: Ghost(arbitrary()) });
            proof {
                assert(self@.subrange(0, mid.len() as int) =~= mid);
            }
        }
        proof {
            if size <= orig.len() {
                assert(self@ =~= orig.subrange(0, size as int));
            }
            if size >= orig.len() {
                assert(mid =~= orig);
                assert(self@.subrange(0, orig.len() as int) =~= orig);
            }
        }
    }

    /// Shrink the free list to `size` blocks if it currently holds more;
    /// otherwise leave the pool untouched. Never grows the pool.
    pub fn trim(&mut self, size: usize)
        requires
            old(self).wf(),
        ensures
            final(self).wf(),
            final(self)@.len() <= old(self)@.len(),
            old(self)@.len() > size ==> final(self)@ == old(self)@.subrange(0, size as int),
            old(self)@.len() <= size ==> *final(self) == *old(self),
    {
        if self.items.len() > size {
            self.resize_capacity(size);
        }
    }
}

} // verus!
