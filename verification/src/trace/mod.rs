//! Trace dimensions, column offsets and chiplet bus labels.
//!
//! Main trace layout (72 columns):
//!
//! ```text
//! | system (6) | decoder (24) | stack (19) | range (2) | chiplets (20) | s_perm (1) |
//! 0            6              30           49          51              71
//! ```

use vstd::prelude::*;

pub mod bus_types;
pub mod challenges;

pub use challenges::Challenges;

verus! {

/// Number of elements in a word.
pub const WORD_SIZE: usize = 4;

/// Number of stack elements held in trace columns.
pub const MIN_STACK_DEPTH: usize = 16;

/// Number of columns in the main execution trace.
pub const TRACE_WIDTH: usize = 72;

/// Number of columns in the auxiliary execution trace.
pub const AUX_TRACE_WIDTH: usize = 8;

/// Number of random challenges used to build the auxiliary trace.
pub const AUX_TRACE_RAND_CHALLENGES: usize = 2;

/// Number of chiplet columns, counting the `s_perm` selector.
pub const CHIPLETS_WIDTH: usize = 21;

/// Index of the clock column.
pub const CLK_COL_IDX: usize = 0;

/// Index of the execution context column.
pub const CTX_COL_IDX: usize = 1;

/// Offset of the function hash columns.
pub const FN_HASH_OFFSET: usize = 2;

/// Number of system columns.
pub const SYS_TRACE_WIDTH: usize = 6;

/// Offset of the decoder columns.
pub const DECODER_TRACE_OFFSET: usize = 6;

/// Number of decoder columns.
pub const DECODER_TRACE_WIDTH: usize = 24;

/// Offset of the stack columns.
pub const STACK_TRACE_OFFSET: usize = 30;

/// Number of stack columns.
pub const STACK_TRACE_WIDTH: usize = 19;

/// Offset of the range checker columns.
pub const RANGE_CHECK_TRACE_OFFSET: usize = 49;

/// Offset of the chiplet columns.
pub const CHIPLETS_OFFSET: usize = 51;

/// Offset of the decoder running products in the auxiliary trace (three columns).
pub const DECODER_AUX_TRACE_OFFSET: usize = 0;

/// Offset of the stack overflow running product in the auxiliary trace.
pub const STACK_AUX_TRACE_OFFSET: usize = 3;

/// Offset of the range checker LogUp sum in the auxiliary trace.
pub const RANGE_CHECK_AUX_TRACE_OFFSET: usize = 4;

/// Offset of the hash-kernel virtual table bus in the auxiliary trace.
pub const HASH_KERNEL_VTABLE_AUX_TRACE_OFFSET: usize = 5;

/// Offset of the chiplets bus in the auxiliary trace.
pub const CHIPLETS_BUS_AUX_TRACE_OFFSET: usize = 6;

/// Offset of the ACE wiring bus in the auxiliary trace.
pub const ACE_CHIPLET_WIRING_BUS_OFFSET: usize = 7;

// DECODER
// ------------------------------------------------------------------------------------------------

/// Index of the block address column within the decoder.
pub const ADDR_COL_IDX: usize = 0;

/// Offset of the opcode bits within the decoder.
pub const OP_BITS_OFFSET: usize = 1;

/// Number of opcode bits.
pub const NUM_OP_BITS: usize = 7;

/// Offset of the hasher state within the decoder.
pub const HASHER_STATE_OFFSET: usize = 8;

/// Number of hasher state columns in the decoder.
pub const NUM_HASHER_COLUMNS: usize = 8;

/// Index of the in-span flag within the decoder.
pub const IN_SPAN_COL_IDX: usize = 16;

/// Index of the group count column within the decoder.
pub const GROUP_COUNT_COL_IDX: usize = 17;

/// Index of the operation index column within the decoder.
pub const OP_INDEX_COL_IDX: usize = 18;

/// Offset of the operation batch flags within the decoder.
pub const OP_BATCH_FLAGS_OFFSET: usize = 19;

/// Number of operation batch flags.
pub const NUM_OP_BATCH_FLAGS: usize = 3;

/// Offset of the degree-reduction columns within the decoder.
pub const OP_BITS_EXTRA_COLS_OFFSET: usize = 22;

/// Number of degree-reduction columns.
pub const NUM_OP_BITS_EXTRA_COLS: usize = 2;

/// Number of user-operation helper registers.
pub const NUM_USER_OP_HELPERS: usize = 6;

// STACK
// ------------------------------------------------------------------------------------------------

/// Offset of the top stack elements within the stack columns.
pub const STACK_TOP_OFFSET: usize = 0;

/// Index of the stack depth column within the stack columns.
pub const B0_COL_IDX: usize = 16;

/// Index of the overflow parent address column within the stack columns.
pub const B1_COL_IDX: usize = 17;

/// Index of the overflow helper column within the stack columns.
pub const H0_COL_IDX: usize = 18;

// RANGE CHECKER
// ------------------------------------------------------------------------------------------------

/// Index of the range checker multiplicity column in the main trace.
pub const M_COL_IDX: usize = 49;

/// Index of the range checker value column in the main trace.
pub const V_COL_IDX: usize = 50;

// HASHER
// ------------------------------------------------------------------------------------------------

/// Width of the hasher state.
pub const STATE_WIDTH: usize = 12;

/// Number of rate elements in the hasher state.
pub const RATE_LEN: usize = 8;

/// Number of capacity elements in the hasher state.
pub const CAPACITY_LEN: usize = 4;

/// Number of digest elements in the hasher state.
pub const DIGEST_LEN: usize = 4;

/// Number of hasher sub-selector columns.
pub const NUM_SELECTORS: usize = 3;

/// Number of rows in one hasher permutation cycle.
pub const HASH_CYCLE_LEN: usize = 16;

// BITWISE
// ------------------------------------------------------------------------------------------------

/// Number of bits decomposed per row by the bitwise chiplet.
pub const NUM_DECOMP_BITS: usize = 4;

/// Number of rows in one bitwise operation cycle.
pub const BITWISE_CYCLE_LEN: usize = 8;

// CHIPLET BUS LABELS
// ------------------------------------------------------------------------------------------------
// A label is the chiplet selector read as a binary number with its bits reversed, plus one.

/// Bitwise AND label: selector `[1, 0, 0]`.
pub const BITWISE_AND_LABEL: u8 = 2;

/// Bitwise XOR label: selector `[1, 0, 1]`.
pub const BITWISE_XOR_LABEL: u8 = 6;

/// Memory element write label: selector `[1, 1, 0, 0, 0]`.
pub const MEMORY_WRITE_ELEMENT_LABEL: u8 = 4;

/// Memory element read label: selector `[1, 1, 0, 1, 0]`.
pub const MEMORY_READ_ELEMENT_LABEL: u8 = 12;

/// Memory word write label: selector `[1, 1, 0, 0, 1]`.
pub const MEMORY_WRITE_WORD_LABEL: u8 = 20;

/// Memory word read label: selector `[1, 1, 0, 1, 1]`.
pub const MEMORY_READ_WORD_LABEL: u8 = 28;

/// ACE init label: selector `[1, 1, 1, 0]`.
pub const ACE_INIT_LABEL: u8 = 8;

/// Kernel procedure call label: selector `[1, 1, 1, 1, 0, 0]`.
pub const KERNEL_PROC_CALL_LABEL: u8 = 16;

/// Kernel procedure init label: selector `[1, 1, 1, 1, 0, 1]`.
pub const KERNEL_PROC_INIT_LABEL: u8 = 48;

} // verus!
