//! Decoder columns of the main trace.

use vstd::prelude::*;

use crate::trace::{
    NUM_HASHER_COLUMNS, NUM_OP_BATCH_FLAGS, NUM_OP_BITS, NUM_OP_BITS_EXTRA_COLS,
    NUM_USER_OP_HELPERS,
};

verus! {

/// Decoder columns in the main execution trace (24 columns).
pub struct DecoderCols<T> {
    /// Block address (hasher table row pointer).
    pub addr: T,
    /// Opcode bits b0-b6.
    pub op_bits: [T; NUM_OP_BITS],
    /// Hasher state h0-h7 (shared between decoding and MAST node hashing).
    pub hasher_state: [T; NUM_HASHER_COLUMNS],
    /// In-span flag (1 inside a basic block).
    pub in_span: T,
    /// Remaining operation group count.
    pub group_count: T,
    /// Position within operation group (0-8).
    pub op_index: T,
    /// Operation batch flags c0, c1, c2.
    pub batch_flags: [T; NUM_OP_BATCH_FLAGS],
    /// Degree-reduction extra columns e0, e1.
    pub extra: [T; NUM_OP_BITS_EXTRA_COLS],
}

impl<T> DecoderCols<T> {
    /// The columns in trace order.
    pub open spec fn to_seq(self) -> Seq<T> {
        seq![self.addr] + self.op_bits@ + self.hasher_state@ + seq![
            self.in_span,
            self.group_count,
            self.op_index,
        ] + self.batch_flags@ + self.extra@
    }
}

impl<T: Copy> DecoderCols<T> {
    /// Reads the 24 decoder columns starting at `offset`.
    pub fn from_slice(row: &[T], offset: usize) -> (r: Self)
        requires
            offset + 24 <= row@.len(),
        ensures
            r.to_seq() == row@.subrange(offset as int, offset + 24),
    {
        let o = offset;
        let r = DecoderCols {
            addr: row[o],
            op_bits: [
                row[o + 1],
                row[o + 2],
                row[o + 3],
                row[o + 4],
                row[o + 5],
                row[o + 6],
                row[o + 7],
            ],
            hasher_state: [
                row[o + 8],
                row[o + 9],
                row[o + 10],
                row[o + 11],
                row[o + 12],
                row[o + 13],
                row[o + 14],
                row[o + 15],
            ],
            in_span: row[o + 16],
            group_count: row[o + 17],
            op_index: row[o + 18],
            batch_flags: [row[o + 19], row[o + 20], row[o + 21]],
            extra: [row[o + 22], row[o + 23]],
        };
        assert(r.to_seq() =~= row@.subrange(offset as int, offset + 24));
        r
    }

    /// Returns the 6 user-op helper registers (hasher_state[2..8]).
    pub fn user_op_helpers(&self) -> (r: [T; NUM_USER_OP_HELPERS])
        ensures
            r@ == self.hasher_state@.subrange(2, 8),
    {
        let r = [
            self.hasher_state[2],
            self.hasher_state[3],
            self.hasher_state[4],
            self.hasher_state[5],
            self.hasher_state[6],
            self.hasher_state[7],
        ];
        assert(r@ =~= self.hasher_state@.subrange(2, 8));
        r
    }

    /// Returns the 4 end-block flags (hasher_state[4..8]).
    pub fn end_block_flags(&self) -> (r: EndBlockFlags<T>)
        ensures
            r.is_loop_body == self.hasher_state[4],
            r.is_loop == self.hasher_state[5],
            r.is_call == self.hasher_state[6],
            r.is_syscall == self.hasher_state[7],
    {
        EndBlockFlags {
            is_loop_body: self.hasher_state[4],
            is_loop: self.hasher_state[5],
            is_call: self.hasher_state[6],
            is_syscall: self.hasher_state[7],
        }
    }
}

/// Named end-block flag overlay for `hasher_state[4..8]`.
pub struct EndBlockFlags<T> {
    pub is_loop_body: T,
    pub is_loop: T,
    pub is_call: T,
    pub is_syscall: T,
}

} // verus!
