//! Stack columns of the main trace.

use vstd::prelude::*;

use crate::trace::MIN_STACK_DEPTH;

verus! {

/// Stack columns in the main execution trace (19 columns).
pub struct StackCols<T> {
    /// Top 16 stack elements s0-s15.
    pub top: [T; MIN_STACK_DEPTH],
    /// Stack depth.
    pub b0: T,
    /// Overflow table parent address.
    pub b1: T,
    /// Helper: 1/(b0 - 16) when b0 != 16, else 0.
    pub h0: T,
}

impl<T> StackCols<T> {
    /// The columns in trace order.
    pub open spec fn to_seq(self) -> Seq<T> {
        self.top@ + seq![self.b0, self.b1, self.h0]
    }
}

impl<T: Copy> StackCols<T> {
    /// Reads the 19 stack columns starting at `offset`.
    pub fn from_slice(row: &[T], offset: usize) -> (r: Self)
        requires
            offset + 19 <= row@.len(),
        ensures
            r.to_seq() == row@.subrange(offset as int, offset + 19),
    {
        let o = offset;
        let r = StackCols {
            top: [
                row[o],
                row[o + 1],
                row[o + 2],
                row[o + 3],
                row[o + 4],
                row[o + 5],
                row[o + 6],
                row[o + 7],
                row[o + 8],
                row[o + 9],
                row[o + 10],
                row[o + 11],
                row[o + 12],
                row[o + 13],
                row[o + 14],
                row[o + 15],
            ],
            b0: row[o + 16],
            b1: row[o + 17],
            h0: row[o + 18],
        };
        assert(r.to_seq() =~= row@.subrange(offset as int, offset + 19));
        r
    }

    /// Returns the stack element at position `idx` (0 = top of stack).
    pub fn get(&self, idx: usize) -> (r: T)
        requires
            idx < MIN_STACK_DEPTH,
        ensures
            r == self.top@[idx as int],
    {
        self.top[idx]
    }

    /// Returns the stack elements at positions `start..end`.
    pub fn elements(&self, start: usize, end: usize) -> (r: Vec<T>)
        requires
            start <= end <= MIN_STACK_DEPTH,
        ensures
            r@ == self.top@.subrange(start as int, end as int),
    {
        let mut r: Vec<T> = Vec::new();
        let mut i = start;
        while i < end
            invariant
                start <= i <= end <= MIN_STACK_DEPTH,
                r@ == self.top@.subrange(start as int, i as int),
            decreases end - i,
        {
            r.push(self.top[i]);
            i = i + 1;
            assert(r@ =~= self.top@.subrange(start as int, i as int));
        }
        r
    }
}

} // verus!
