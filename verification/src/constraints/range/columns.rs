//! Range checker columns of the main trace.

use vstd::prelude::*;

verus! {

/// Range check columns in the main execution trace (2 columns).
pub struct RangeCols<T> {
    /// Multiplicity: how many times this value is range-checked.
    pub multiplicity: T,
    /// The value being range-checked.
    pub value: T,
}

impl<T> RangeCols<T> {
    /// The columns in trace order.
    pub open spec fn to_seq(self) -> Seq<T> {
        seq![self.multiplicity, self.value]
    }
}

impl<T: Copy> RangeCols<T> {
    /// Reads the 2 range checker columns starting at `offset`.
    pub fn from_slice(row: &[T], offset: usize) -> (r: Self)
        requires
            offset + 2 <= row@.len(),
        ensures
            r.to_seq() == row@.subrange(offset as int, offset + 2),
    {
        let r = RangeCols { multiplicity: row[offset], value: row[offset + 1] };
        assert(r.to_seq() =~= row@.subrange(offset as int, offset + 2));
        r
    }
}

} // verus!
