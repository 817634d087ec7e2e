//! System columns of the main trace.

use vstd::prelude::*;

use crate::trace::WORD_SIZE;

verus! {

/// System columns in the main execution trace (6 columns).
///
/// These columns track global execution state: clock cycle, execution context, and
/// the function hash (digest) of the currently executing function.
pub struct SystemCols<T> {
    /// Clock cycle counter.
    pub clk: T,
    /// Context identifier.
    pub ctx: T,
    /// Function hash (digest) of the currently executing function.
    pub fn_hash: [T; WORD_SIZE],
}

impl<T> SystemCols<T> {
    /// The columns in trace order.
    pub open spec fn to_seq(self) -> Seq<T> {
        seq![self.clk, self.ctx] + self.fn_hash@
    }
}

impl<T: Copy> SystemCols<T> {
    /// Reads the 6 system columns starting at `offset`.
    pub fn from_slice(row: &[T], offset: usize) -> (r: Self)
        requires
            offset + 6 <= row@.len(),
        ensures
            r.to_seq() == row@.subrange(offset as int, offset + 6),
    {
        let r = SystemCols {
            clk: row[offset],
            ctx: row[offset + 1],
            fn_hash: [row[offset + 2], row[offset + 3], row[offset + 4], row[offset + 5]],
        };
        assert(r.to_seq() =~= row@.subrange(offset as int, offset + 6));
        r
    }
}

} // verus!
