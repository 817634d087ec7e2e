//! Operation flags for stack constraints.
//!
//! This module computes operation flags from decoder op bits. These flags are used
//! throughout stack constraints to gate constraint enforcement based on which operation
//! is currently being executed.
//!
//! ## Opcode Bit Layout
//!
//! Each opcode is 7 bits `[b0, b1, b2, b3, b4, b5, b6]` (b0 = LSB):
//!
//! ```text
//! b6 b5 b4 | Degree | Opcodes  | Description
//! ---------+--------+----------+---------------------------
//!  0  *  * |   7    |  0 - 63  | All 7 bits discriminate
//!  1  0  0 |   6    | 64 - 79  | u32 ops (b0 unused)
//!  1  0  1 |   5    | 80 - 95  | Uses extra[0] column
//!  1  1  * |   4    | 96 - 127 | Uses extra[1] column
//! ```
//!
//! ## Composite Flags
//!
//! - `no_shift_at(i)`: stack position i unchanged
//! - `left_shift_at(i)`: stack shifts left at position i
//! - `right_shift_at(i)`: stack shifts right at position i

use vstd::prelude::*;
use vstd::arithmetic::div_mod::{
    lemma_add_mod_noop, lemma_mod_bound, lemma_mul_mod_noop, lemma_small_mod, lemma_sub_mod_noop,
};

use crate::constraints::columns::MainCols;
use crate::constraints::decoder::columns::DecoderCols;
use crate::constraints::stack::columns::StackCols;
use crate::field::{Felt, fadd, fmul, fsub, p};
use crate::operations::opcodes;
use crate::trace::{
    DECODER_TRACE_OFFSET, NUM_OP_BITS, OP_BITS_EXTRA_COLS_OFFSET, OP_BITS_OFFSET, TRACE_WIDTH,
};

verus! {

// CONSTANTS
// ================================================================================================

/// Total number of degree 7 operations in the VM.
pub const NUM_DEGREE_7_OPS: usize = 64;

/// Total number of degree 6 operations in the VM.
pub const NUM_DEGREE_6_OPS: usize = 8;

/// Total number of degree 5 operations in the VM.
pub const NUM_DEGREE_5_OPS: usize = 16;

/// Total number of degree 4 operations in the VM.
pub const NUM_DEGREE_4_OPS: usize = 8;

/// Total number of composite flags per stack impact type in the VM.
pub const NUM_STACK_IMPACT_FLAGS: usize = 16;

/// Opcode at which degree 7 operations start.
pub const DEGREE_7_OPCODE_STARTS: usize = 0;

/// Opcode at which degree 7 operations end.
pub const DEGREE_7_OPCODE_ENDS: usize = 63;

/// Opcode at which degree 6 operations start.
pub const DEGREE_6_OPCODE_STARTS: usize = 64;

/// Opcode at which degree 6 operations end.
pub const DEGREE_6_OPCODE_ENDS: usize = 79;

/// Opcode at which degree 5 operations start.
pub const DEGREE_5_OPCODE_STARTS: usize = 80;

/// Opcode at which degree 5 operations end.
pub const DEGREE_5_OPCODE_ENDS: usize = 95;

/// Opcode at which degree 4 operations start.
pub const DEGREE_4_OPCODE_STARTS: usize = 96;

/// Opcode at which degree 4 operations end.
pub const DEGREE_4_OPCODE_ENDS: usize = 127;

// SPECIFICATION
// ================================================================================================

/// `2^k` for the seven opcode bit positions.
pub open spec fn bit_weight(k: int) -> int {
    if k <= 0 {
        1
    } else if k == 1 {
        2
    } else if k == 2 {
        4
    } else if k == 3 {
        8
    } else if k == 4 {
        16
    } else if k == 5 {
        32
    } else {
        64
    }
}

/// Bit `k` of opcode `op`.
pub open spec fn opcode_bit(op: int, k: int) -> bool {
    (op / bit_weight(k)) % 2 == 1
}

/// Bit selector: the bit's value when the wanted bit is set, one minus it otherwise.
pub open spec fn bit_sel(b: Felt, set: bool) -> int {
    if set {
        b.val()
    } else {
        fsub(1, b.val())
    }
}

/// Selector of bit `k` matching the bits of `op`.
pub open spec fn sel(bits: Seq<Felt>, op: int, k: int) -> int {
    bit_sel(bits[k], opcode_bit(op, k))
}

/// Product of the selectors of bits `hi` down to `lo` matching the bits of `op`:
/// `sel(hi) * (sel(hi - 1) * (... * sel(lo)))`.
pub open spec fn sel_range(bits: Seq<Felt>, op: int, lo: int, hi: int) -> int
    decreases hi - lo,
{
    if hi <= lo {
        sel(bits, op, lo)
    } else {
        sel(bits, op, hi) * sel_range(bits, op, lo, hi - 1)
    }
}

/// Flag of a degree-7 opcode (`0..64`): the product of all seven bit selectors.
pub open spec fn degree7_flag(bits: Seq<Felt>, op: int) -> int {
    sel_range(bits, op, 0, 6) % p()
}

/// Flag of a degree-6 opcode (`64..80`): the selectors of bits 6..1 (b0 is not read).
pub open spec fn degree6_flag(bits: Seq<Felt>, op: int) -> int {
    sel_range(bits, op, 1, 6) % p()
}

/// Flag of a degree-5 opcode (`80..96`): `extra[0]` times the selectors of bits 3..0.
pub open spec fn degree5_flag(bits: Seq<Felt>, extra0: Felt, op: int) -> int {
    (extra0.val() * sel_range(bits, op, 0, 3)) % p()
}

/// Flag of a degree-4 opcode (`96..128`): the selectors of bits 4..2 times `extra[1]`.
pub open spec fn degree4_flag(bits: Seq<Felt>, extra1: Felt, op: int) -> int {
    (sel_range(bits, op, 2, 4) * extra1.val()) % p()
}

/// The flag of opcode `op` computed from the decoder columns of a row.
pub open spec fn op_flag(dec: DecoderCols<Felt>, op: int) -> int {
    let bits = dec.op_bits@;
    if op <= 63 {
        degree7_flag(bits, op)
    } else if op <= 79 {
        degree6_flag(bits, op)
    } else if op <= 95 {
        degree5_flag(bits, dec.extra[0], op)
    } else {
        degree4_flag(bits, dec.extra[1], op)
    }
}

/// Flag of the pair of degree-7 opcodes `op` and `op + 1` that differ only in b0
/// (such as MOVUP{n} and MOVDN{n}): the selectors of bits 6..1.
pub open spec fn pair_flag(dec: DecoderCols<Felt>, op: int) -> int {
    sel_range(dec.op_bits@, op, 1, 6) % p()
}

/// Flag of the opcodes sharing bits `hi..=6` with `op`.
pub open spec fn prefix_flag(dec: DecoderCols<Felt>, op: int, lo: int) -> int {
    sel_range(dec.op_bits@, op, lo, 6) % p()
}

/// Index of an opcode in the flag array of its degree.
pub open spec fn op_index(op: int) -> int {
    if op <= 63 {
        op
    } else if op <= 79 {
        (op - 64) / 2
    } else if op <= 95 {
        op - 80
    } else {
        (op - 96) / 4
    }
}

/// Sum of the flags of the opcodes `lo..hi`.
pub open spec fn flag_range_sum(dec: DecoderCols<Felt>, lo: int, hi: int) -> int
    decreases hi - lo,
{
    if hi <= lo {
        0
    } else {
        flag_range_sum(dec, lo, hi - 1) + op_flag(dec, hi - 1)
    }
}

/// Sum of the MOVUP{n}/MOVDN{n} pair flags for `n` in `2..=8`.
pub open spec fn all_mov_pairs(dec: DecoderCols<Felt>) -> int {
    pair_flag(dec, opcodes::MOVUP2 as int) + pair_flag(dec, opcodes::MOVUP3 as int) + pair_flag(
        dec,
        opcodes::MOVUP4 as int,
    ) + pair_flag(dec, opcodes::MOVUP5 as int) + pair_flag(dec, opcodes::MOVUP6 as int)
        + pair_flag(dec, opcodes::MOVUP7 as int) + pair_flag(dec, opcodes::MOVUP8 as int)
}

/// END while ending a loop body: `END * is_loop`.
pub open spec fn end_loop_flag(dec: DecoderCols<Felt>) -> int {
    fmul(op_flag(dec, opcodes::END as int), dec.hasher_state[5].val())
}

/// Change of the no-shift flag from depth `d - 1` to depth `d`.
pub open spec fn no_shift_delta(dec: DecoderCols<Felt>, d: int) -> int {
    let f = |op: u8| op_flag(dec, op as int);
    let pair = |op: u8| pair_flag(dec, op as int);
    if d == 0 {
        f(opcodes::NOOP) + f(opcodes::U32ASSERT2) + f(opcodes::MPVERIFY) + f(opcodes::SPAN) + f(
            opcodes::JOIN,
        ) + f(opcodes::EMIT) + f(opcodes::RESPAN) + f(opcodes::HALT) + f(opcodes::CALL) + fmul(
            f(opcodes::END),
            fsub(1, dec.hasher_state[5].val()),
        )
    } else if d == 1 {
        flag_range_sum(dec, 0, 8) - f(opcodes::NOOP)
    } else if d == 2 {
        f(opcodes::SWAP) + prefix_flag(dec, opcodes::U32ADD as int, 3)
    } else if d == 3 {
        pair(opcodes::MOVUP2)
    } else if d == 4 {
        pair(opcodes::MOVUP3) + pair(opcodes::ADVPOPW) + pair(opcodes::SWAPW2) + f(opcodes::EXT2MUL)
            + f(opcodes::MRUPDATE)
    } else if d == 5 {
        pair(opcodes::MOVUP4)
    } else if d == 6 {
        pair(opcodes::MOVUP5)
    } else if d == 7 {
        pair(opcodes::MOVUP6)
    } else if d == 8 {
        pair(opcodes::MOVUP7) + f(opcodes::SWAPW) - f(opcodes::SWAPW2)
    } else if d == 9 {
        pair(opcodes::MOVUP8)
    } else if d == 12 {
        f(opcodes::SWAPW2) + f(opcodes::HPERM) - f(opcodes::SWAPW3)
    } else {
        0
    }
}

/// Change of the left-shift flag from depth `d - 1` to depth `d`.
pub open spec fn left_shift_delta(dec: DecoderCols<Felt>, d: int) -> int {
    let f = |op: u8| op_flag(dec, op as int);
    if d == 1 {
        f(opcodes::ASSERT) + fmul(all_mov_pairs(dec) % p(), dec.op_bits[0].val()) + f(
            opcodes::DROP,
        ) + f(opcodes::MSTORE) + f(opcodes::MSTOREW) + op_flag(dec, 47) + f(opcodes::SPLIT) + f(
            opcodes::LOOP,
        ) + end_loop_flag(dec) + f(opcodes::DYN) + f(opcodes::DYNCALL)
    } else if d == 2 {
        flag_range_sum(dec, 32, 40) - f(opcodes::ASSERT)
    } else if d == 3 {
        f(opcodes::CSWAP) + f(opcodes::U32ADD3) + f(opcodes::U32MADD) - f(opcodes::MOVDN2)
    } else if d == 4 {
        -f(opcodes::MOVDN3)
    } else if d == 5 {
        f(opcodes::MLOADW) - f(opcodes::MOVDN4)
    } else if d == 6 {
        -f(opcodes::MOVDN5)
    } else if d == 7 {
        -f(opcodes::MOVDN6)
    } else if d == 8 {
        -f(opcodes::MOVDN7)
    } else if d == 9 {
        f(opcodes::CSWAPW) - f(opcodes::MOVDN8)
    } else {
        0
    }
}

/// Change of the right-shift flag from depth `d - 1` to depth `d`.
pub open spec fn right_shift_delta(dec: DecoderCols<Felt>, d: int) -> int {
    let f = |op: u8| op_flag(dec, op as int);
    if d == 0 {
        flag_range_sum(dec, 48, 64) + f(opcodes::PUSH) + fmul(
            all_mov_pairs(dec) % p(),
            fsub(1, dec.op_bits[0].val()),
        )
    } else if d == 1 {
        f(opcodes::U32SPLIT)
    } else if d == 2 {
        -f(opcodes::MOVUP2)
    } else if d == 3 {
        -f(opcodes::MOVUP3)
    } else if d == 4 {
        -f(opcodes::MOVUP4)
    } else if d == 5 {
        -f(opcodes::MOVUP5)
    } else if d == 6 {
        -f(opcodes::MOVUP6)
    } else if d == 7 {
        -f(opcodes::MOVUP7)
    } else if d == 8 {
        -f(opcodes::MOVUP8)
    } else {
        0
    }
}

/// Sum of the deltas at depths `0..=d`, as a field element.
pub open spec fn depth_flag(deltas: spec_fn(int) -> int, d: int) -> int
    decreases d,
{
    if d <= 0 {
        deltas(0) % p()
    } else {
        (depth_flag(deltas, d - 1) + deltas(d)) % p()
    }
}

/// The no-shift flag at depth `d`.
pub open spec fn no_shift_flag(dec: DecoderCols<Felt>, d: int) -> int {
    depth_flag(|j: int| no_shift_delta(dec, j), d)
}

/// The left-shift flag at depth `d`.
pub open spec fn left_shift_flag(dec: DecoderCols<Felt>, d: int) -> int {
    depth_flag(|j: int| left_shift_delta(dec, j), d)
}

/// The right-shift flag at depth `d`.
pub open spec fn right_shift_flag(dec: DecoderCols<Felt>, d: int) -> int {
    depth_flag(|j: int| right_shift_delta(dec, j), d)
}

/// Scalar right-shift flag: opcodes `48..64`, PUSH and U32SPLIT.
pub open spec fn right_shift_scalar(dec: DecoderCols<Felt>) -> int {
    (prefix_flag(dec, opcodes::PAD as int, 4) + op_flag(dec, opcodes::PUSH as int) + op_flag(
        dec,
        opcodes::U32SPLIT as int,
    )) % p()
}

/// Scalar left-shift flag: opcodes `32..48`, U32ADD3/U32MADD, SPLIT, LOOP, REPEAT,
/// END of a loop body and DYN.
pub open spec fn left_shift_scalar(dec: DecoderCols<Felt>) -> int {
    (prefix_flag(dec, opcodes::ASSERT as int, 4) + prefix_flag(dec, opcodes::U32ADD3 as int, 2)
        + op_flag(dec, opcodes::SPLIT as int) + op_flag(dec, opcodes::LOOP as int) + op_flag(
        dec,
        opcodes::REPEAT as int,
    ) + end_loop_flag(dec) + op_flag(dec, opcodes::DYN as int)) % p()
}

/// Control flow flag: SPLIT/LOOP/SPAN/JOIN, END/REPEAT/RESPAN/HALT, DYNCALL, DYN,
/// SYSCALL and CALL.
pub open spec fn control_flow_flag(dec: DecoderCols<Felt>) -> int {
    let bits = dec.op_bits@;
    ((sel_range(bits, opcodes::SPLIT as int, 2, 3) * dec.extra[0].val()) % p() + (
    bits[4].val() * dec.extra[1].val()) % p() + op_flag(dec, opcodes::DYNCALL as int) + op_flag(
        dec,
        opcodes::DYN as int,
    ) + op_flag(dec, opcodes::SYSCALL as int) + op_flag(dec, opcodes::CALL as int)) % p()
}

/// Flag of a degree-4 control flow opcode on the next row:
/// `extra[1]' * b4' * sel(b3') * sel(b2')`.
pub open spec fn next_flag(next: DecoderCols<Felt>, op: int) -> int {
    (next.extra[1].val() * next.op_bits[4].val() * sel_range(next.op_bits@, op, 2, 3)) % p()
}

// OP FLAGS
// ================================================================================================

/// Operation flags for all stack operations, computed from the decoder op bits of a row.
///
/// On a row whose op bits encode an opcode, exactly one operation flag is one.
pub struct OpFlags {
    pub degree7_op_flags: [Felt; NUM_DEGREE_7_OPS],
    pub degree6_op_flags: [Felt; NUM_DEGREE_6_OPS],
    pub degree5_op_flags: [Felt; NUM_DEGREE_5_OPS],
    pub degree4_op_flags: [Felt; NUM_DEGREE_4_OPS],
    pub no_shift_flags: [Felt; NUM_STACK_IMPACT_FLAGS],
    pub left_shift_flags: [Felt; NUM_STACK_IMPACT_FLAGS],
    pub right_shift_flags: [Felt; NUM_STACK_IMPACT_FLAGS],
    pub left_shift: Felt,
    pub right_shift: Felt,
    pub control_flow: Felt,
    pub overflow: Felt,
    pub u32_rc_op: Felt,
    pub end_next: Felt,
    pub repeat_next: Felt,
    pub respan_next: Felt,
    pub halt_next: Felt,
}

impl OpFlags {
    /// The flags hold the operation, composite and next-row flags of the given rows.
    pub open spec fn flags_of(
        self,
        dec: DecoderCols<Felt>,
        stack: StackCols<Felt>,
        next: DecoderCols<Felt>,
    ) -> bool {
        let bits = dec.op_bits@;
        &&& forall|i: int|
            0 <= i < NUM_DEGREE_7_OPS ==> #[trigger] self.degree7_op_flags[i].val()
                == degree7_flag(bits, i)
        &&& forall|i: int|
            0 <= i < NUM_DEGREE_6_OPS ==> #[trigger] self.degree6_op_flags[i].val()
                == degree6_flag(bits, 64 + 2 * i)
        &&& forall|i: int|
            0 <= i < NUM_DEGREE_5_OPS ==> #[trigger] self.degree5_op_flags[i].val()
                == degree5_flag(bits, dec.extra[0], 80 + i)
        &&& forall|i: int|
            0 <= i < NUM_DEGREE_4_OPS ==> #[trigger] self.degree4_op_flags[i].val()
                == degree4_flag(bits, dec.extra[1], 96 + 4 * i)
        &&& forall|d: int|
            0 <= d < NUM_STACK_IMPACT_FLAGS ==> #[trigger] self.no_shift_flags[d].val()
                == no_shift_flag(dec, d)
        &&& forall|d: int|
            0 <= d < NUM_STACK_IMPACT_FLAGS ==> #[trigger] self.left_shift_flags[d].val()
                == left_shift_flag(dec, d)
        &&& forall|d: int|
            0 <= d < NUM_STACK_IMPACT_FLAGS ==> #[trigger] self.right_shift_flags[d].val()
                == right_shift_flag(dec, d)
        &&& self.left_shift.val() == left_shift_scalar(dec)
        &&& self.right_shift.val() == right_shift_scalar(dec)
        &&& self.control_flow.val() == control_flow_flag(dec)
        &&& self.u32_rc_op.val() == prefix_flag(dec, opcodes::U32ADD as int, 4)
        &&& self.overflow.val() == fmul(fsub(stack.b0.val(), 16), stack.h0.val())
        &&& self.end_next.val() == next_flag(next, opcodes::END as int)
        &&& self.repeat_next.val() == next_flag(next, opcodes::REPEAT as int)
        &&& self.respan_next.val() == next_flag(next, opcodes::RESPAN as int)
        &&& self.halt_next.val() == next_flag(next, opcodes::HALT as int)
    }
}

/// Maps opcode of an operation to the index in its respective degree flag array.
pub fn get_op_index(opcode: u8) -> (r: usize)
    ensures
        r == op_index(opcode as int),
{
    let opcode = opcode as usize;
    if opcode <= DEGREE_7_OPCODE_ENDS {
        // Index of a degree 7 operation (0-63)
        opcode
    } else if opcode <= DEGREE_6_OPCODE_ENDS {
        // Index of a degree 6 operation (64-79, even opcodes only)
        (opcode - DEGREE_6_OPCODE_STARTS) / 2
    } else if opcode <= DEGREE_5_OPCODE_ENDS {
        // Index of a degree 5 operation (80-95)
        opcode - DEGREE_5_OPCODE_STARTS
    } else {
        // Index of a degree 4 operation (96-127, every 4th opcode)
        (opcode - DEGREE_4_OPCODE_STARTS) / 4
    }
}

// SELECTOR PRODUCT TABLES
// ================================================================================================

/// Selector values lie in `[0, p)`.
proof fn lemma_bit_sel_range(b: Felt, set: bool)
    ensures
        0 <= bit_sel(b, set) < p(),
{
    b.lemma_val_range();
    vstd::arithmetic::div_mod::lemma_mod_bound(1 - b.val(), p());
}

/// Returns `b` when `set`, `1 - b` otherwise.
fn bit_selector(b: Felt, set: bool) -> (r: Felt)
    ensures
        r.val() == bit_sel(b, set),
        0 <= r.val() < p(),
{
    proof {
        lemma_bit_sel_range(b, set);
    }
    if set {
        b
    } else {
        Felt::one().sub(b)
    }
}

/// `b32[i]`: selectors of bits 3 and 2, indexed by `i = b3*2 + b2`.
fn selector_table_b32(bits: &[Felt; 7]) -> (r: [Felt; 4])
    ensures
        forall|j: int| 0 <= j < 4 ==> #[trigger] r[j].val() == sel_range(bits@, 4 * j, 2, 3) % p(),
{
    let mut r: [Felt; 4] = vstd::array::array_fill_for_copy_types(Felt::zero());
    let mut i: usize = 0;
    while i < 4
        invariant
            i <= 4,
            forall|j: int| 0 <= j < i ==> #[trigger] r[j].val() == sel_range(bits@, 4 * j, 2, 3) % p(),
        decreases 4 - i,
    {
        let v = bit_selector(bits[3], i / 2 == 1).mul(bit_selector(bits[2], i % 2 == 1));
        reveal_with_fuel(sel_range, 2);
        assert(opcode_bit(4 * i, 3) == (i / 2 == 1));
        assert(opcode_bit(4 * i, 2) == (i % 2 == 1));
        r[i] = v;
        i = i + 1;
    }
    r
}

/// `b321[i]`: selectors of bits 3, 2 and 1, indexed by `i = b3*4 + b2*2 + b1`.
fn selector_table_b321(bits: &[Felt; 7], b32: &[Felt; 4]) -> (r: [Felt; 8])
    requires
        forall|j: int| 0 <= j < 4 ==> #[trigger] b32[j].val() == sel_range(bits@, 4 * j, 2, 3) % p(),
    ensures
        forall|j: int| 0 <= j < 8 ==> #[trigger] r[j].val() == sel_range(bits@, 2 * j, 1, 3) % p(),
{
    let mut r: [Felt; 8] = vstd::array::array_fill_for_copy_types(Felt::zero());
    let mut i: usize = 0;
    while i < 8
        invariant
            i <= 8,
            forall|j: int| 0 <= j < 4 ==> #[trigger] b32[j].val() == sel_range(bits@, 4 * j, 2, 3) % p(),
            forall|j: int| 0 <= j < i ==> #[trigger] r[j].val() == sel_range(bits@, 2 * j, 1, 3) % p(),
        decreases 8 - i,
    {
        let hi = b32[i / 2];
        let lo = bit_selector(bits[1], i % 2 == 1);
        let v = hi.mul(lo);
        proof {
            reveal_with_fuel(sel_range, 3);
            let j = (i / 2) as int;
            assert(opcode_bit(4 * j, 3) == opcode_bit(2 * i, 3));
            assert(opcode_bit(4 * j, 2) == opcode_bit(2 * i, 2));
            assert(opcode_bit(2 * i, 1) == (i % 2 == 1));
            let (a, b, c) = (sel(bits@, 2 * i, 3), sel(bits@, 2 * i, 2), lo.val());
            assert(sel_range(bits@, 4 * j, 2, 3) == a * b);
            assert((a * b) * c == a * (b * c)) by (nonlinear_arith);
            assert(hi.val() == sel_range(bits@, 4 * j, 2, 3) % p());
            assert(v.val() == ((sel_range(bits@, 4 * j, 2, 3) % p()) * c) % p());
            crate::field::lemma_mod_mul_left(sel_range(bits@, 4 * j, 2, 3), c);
            assert(sel_range(bits@, 4 * j, 2, 3) * c == (a * b) * c);
        }
        r[i] = v;
        i = i + 1;
    }
    r
}

/// `b3210[i]`: selectors of bits 3 to 0, indexed by `i` itself.
fn selector_table_b3210(bits: &[Felt; 7], b321: &[Felt; 8]) -> (r: [Felt; 16])
    requires
        forall|j: int| 0 <= j < 8 ==> #[trigger] b321[j].val() == sel_range(bits@, 2 * j, 1, 3) % p(),
    ensures
        forall|j: int| 0 <= j < 16 ==> #[trigger] r[j].val() == sel_range(bits@, j, 0, 3) % p(),
{
    let mut r: [Felt; 16] = vstd::array::array_fill_for_copy_types(Felt::zero());
    let mut i: usize = 0;
    while i < 16
        invariant
            i <= 16,
            forall|j: int| 0 <= j < 8 ==> #[trigger] b321[j].val() == sel_range(bits@, 2 * j, 1, 3) % p(),
            forall|j: int| 0 <= j < i ==> #[trigger] r[j].val() == sel_range(bits@, j, 0, 3) % p(),
        decreases 16 - i,
    {
        let hi = b321[i / 2];
        let lo = bit_selector(bits[0], i % 2 == 1);
        let v = hi.mul(lo);
        proof {
            reveal_with_fuel(sel_range, 4);
            let j = (i / 2) as int;
            assert(opcode_bit(2 * j, 3) == opcode_bit(i as int, 3));
            assert(opcode_bit(2 * j, 2) == opcode_bit(i as int, 2));
            assert(opcode_bit(2 * j, 1) == opcode_bit(i as int, 1));
            assert(opcode_bit(i as int, 0) == (i % 2 == 1));
            let (a, b, c, d) = (
                sel(bits@, i as int, 3),
                sel(bits@, i as int, 2),
                sel(bits@, i as int, 1),
                lo.val(),
            );
            assert(sel_range(bits@, 2 * j, 1, 3) == a * (b * c));
            assert((a * (b * c)) * d == a * (b * (c * d))) by (nonlinear_arith);
            assert(hi.val() == sel_range(bits@, 2 * j, 1, 3) % p());
            crate::field::lemma_mod_mul_left(sel_range(bits@, 2 * j, 1, 3), d);
        }
        r[i] = v;
        i = i + 1;
    }
    r
}

/// `b432[i]`: selectors of bits 4, 3 and 2, indexed by `i = b4*4 + b3*2 + b2`.
fn selector_table_b432(bits: &[Felt; 7], b32: &[Felt; 4]) -> (r: [Felt; 8])
    requires
        forall|j: int| 0 <= j < 4 ==> #[trigger] b32[j].val() == sel_range(bits@, 4 * j, 2, 3) % p(),
    ensures
        forall|j: int| 0 <= j < 8 ==> #[trigger] r[j].val() == sel_range(bits@, 4 * j, 2, 4) % p(),
{
    let mut r: [Felt; 8] = vstd::array::array_fill_for_copy_types(Felt::zero());
    let mut i: usize = 0;
    while i < 8
        invariant
            i <= 8,
            forall|j: int| 0 <= j < 4 ==> #[trigger] b32[j].val() == sel_range(bits@, 4 * j, 2, 3) % p(),
            forall|j: int| 0 <= j < i ==> #[trigger] r[j].val() == sel_range(bits@, 4 * j, 2, 4) % p(),
        decreases 8 - i,
    {
        let hi = bit_selector(bits[4], i / 4 == 1);
        let lo = b32[i % 4];
        let v = hi.mul(lo);
        proof {
            reveal_with_fuel(sel_range, 3);
            let j = (i % 4) as int;
            assert(opcode_bit(4 * i, 4) == (i / 4 == 1));
            assert(opcode_bit(4 * j, 3) == opcode_bit(4 * i, 3));
            assert(opcode_bit(4 * j, 2) == opcode_bit(4 * i, 2));
            assert(lo.val() == sel_range(bits@, 4 * j, 2, 3) % p());
            assert(sel_range(bits@, 4 * j, 2, 3) == sel_range(bits@, 4 * i, 2, 3));
            crate::field::lemma_mod_mul_right(hi.val(), sel_range(bits@, 4 * j, 2, 3));
        }
        r[i] = v;
        i = i + 1;
    }
    r
}

/// `b654[i]`: selectors of bits 5 and 4 with b6 = 0, indexed by `i = b5*2 + b4`.
fn selector_table_b654(bits: &[Felt; 7]) -> (r: [Felt; 4])
    ensures
        forall|j: int| 0 <= j < 4 ==> #[trigger] r[j].val() == sel_range(bits@, 16 * j, 4, 6) % p(),
{
    let mut r: [Felt; 4] = vstd::array::array_fill_for_copy_types(Felt::zero());
    let mut i: usize = 0;
    while i < 4
        invariant
            i <= 4,
            forall|j: int| 0 <= j < i ==> #[trigger] r[j].val() == sel_range(bits@, 16 * j, 4, 6) % p(),
        decreases 4 - i,
    {
        let s5 = bit_selector(bits[5], i / 2 == 1);
        let s4 = bit_selector(bits[4], i % 2 == 1);
        let s6 = bit_selector(bits[6], false);
        let v = s5.mul(s4).mul(s6);
        proof {
            reveal_with_fuel(sel_range, 3);
            assert(opcode_bit(16 * i, 6) == false);
            assert(opcode_bit(16 * i, 5) == (i / 2 == 1));
            assert(opcode_bit(16 * i, 4) == (i % 2 == 1));
            let (a, b, c) = (s6.val(), s5.val(), s4.val());
            assert((b * c) * a == a * (b * c)) by (nonlinear_arith);
            crate::field::lemma_mod_mul_left(b * c, a);
        }
        r[i] = v;
        i = i + 1;
    }
    r
}

/// `b654321[i]`: selectors of bits 6 to 1 with b6 = 0, indexed by
/// `i = b5*16 + b4*8 + b3*4 + b2*2 + b1`.
fn selector_table_b654321(bits: &[Felt; 7], b654: &[Felt; 4], b321: &[Felt; 8]) -> (r: [Felt; 32])
    requires
        forall|j: int| 0 <= j < 4 ==> #[trigger] b654[j].val() == sel_range(bits@, 16 * j, 4, 6) % p(),
        forall|j: int| 0 <= j < 8 ==> #[trigger] b321[j].val() == sel_range(bits@, 2 * j, 1, 3) % p(),
    ensures
        forall|j: int| 0 <= j < 32 ==> #[trigger] r[j].val() == sel_range(bits@, 2 * j, 1, 6) % p(),
{
    let mut r: [Felt; 32] = vstd::array::array_fill_for_copy_types(Felt::zero());
    let mut i: usize = 0;
    while i < 32
        invariant
            i <= 32,
            forall|j: int| 0 <= j < 4 ==> #[trigger] b654[j].val() == sel_range(bits@, 16 * j, 4, 6) % p(),
            forall|j: int| 0 <= j < 8 ==> #[trigger] b321[j].val() == sel_range(bits@, 2 * j, 1, 3) % p(),
            forall|j: int| 0 <= j < i ==> #[trigger] r[j].val() == sel_range(bits@, 2 * j, 1, 6) % p(),
        decreases 32 - i,
    {
        let hi = b654[i / 8];
        let lo = b321[i % 8];
        let v = hi.mul(lo);
        proof {
            reveal_with_fuel(sel_range, 6);
            let (jh, jl) = ((i / 8) as int, (i % 8) as int);
            let op = 2 * i;
            assert(opcode_bit(16 * jh, 6) == opcode_bit(op, 6));
            assert(opcode_bit(16 * jh, 5) == opcode_bit(op, 5));
            assert(opcode_bit(16 * jh, 4) == opcode_bit(op, 4));
            assert(opcode_bit(2 * jl, 3) == opcode_bit(op, 3));
            assert(opcode_bit(2 * jl, 2) == opcode_bit(op, 2));
            assert(opcode_bit(2 * jl, 1) == opcode_bit(op, 1));
            let (a, b, c, d, e, f) = (
                sel(bits@, op, 6),
                sel(bits@, op, 5),
                sel(bits@, op, 4),
                sel(bits@, op, 3),
                sel(bits@, op, 2),
                sel(bits@, op, 1),
            );
            assert(sel_range(bits@, 16 * jh, 4, 6) == a * (b * c));
            assert(sel_range(bits@, 2 * jl, 1, 3) == d * (e * f));
            use_assoc(a, b * c, d * (e * f));
            use_assoc(b, c, d * (e * f));
            assert(hi.val() == sel_range(bits@, 16 * jh, 4, 6) % p());
            assert(lo.val() == sel_range(bits@, 2 * jl, 1, 3) % p());
            crate::field::lemma_mod_mul_left(a * (b * c), sel_range(bits@, 2 * jl, 1, 3) % p());
            crate::field::lemma_mod_mul_right(a * (b * c), d * (e * f));
        }
        r[i] = v;
        i = i + 1;
    }
    r
}

/// Degree-7 flags of opcodes `0..64`.
fn degree7_table(bits: &[Felt; 7], b654321: &[Felt; 32]) -> (r: [Felt; NUM_DEGREE_7_OPS])
    requires
        forall|j: int| 0 <= j < 32 ==> #[trigger] b654321[j].val() == sel_range(bits@, 2 * j, 1, 6) % p(),
    ensures
        forall|j: int| 0 <= j < NUM_DEGREE_7_OPS ==> #[trigger] r[j].val() == degree7_flag(bits@, j),
{
    let mut r: [Felt; NUM_DEGREE_7_OPS] = vstd::array::array_fill_for_copy_types(Felt::zero());
    let mut i: usize = 0;
    while i < 64
        invariant
            i <= 64,
            forall|j: int| 0 <= j < 32 ==> #[trigger] b654321[j].val() == sel_range(bits@, 2 * j, 1, 6) % p(),
            forall|j: int| 0 <= j < i ==> #[trigger] r[j].val() == degree7_flag(bits@, j),
        decreases 64 - i,
    {
        let hi = b654321[i / 2];
        let lo = bit_selector(bits[0], i % 2 == 1);
        let v = hi.mul(lo);
        proof {
            reveal_with_fuel(sel_range, 7);
            let j = (i / 2) as int;
            let op = i as int;
            assert(opcode_bit(2 * j, 6) == opcode_bit(op, 6));
            assert(opcode_bit(2 * j, 5) == opcode_bit(op, 5));
            assert(opcode_bit(2 * j, 4) == opcode_bit(op, 4));
            assert(opcode_bit(2 * j, 3) == opcode_bit(op, 3));
            assert(opcode_bit(2 * j, 2) == opcode_bit(op, 2));
            assert(opcode_bit(2 * j, 1) == opcode_bit(op, 1));
            assert(opcode_bit(op, 0) == (i % 2 == 1));
            let (a, b, c, d, e, f, g) = (
                sel(bits@, op, 6),
                sel(bits@, op, 5),
                sel(bits@, op, 4),
                sel(bits@, op, 3),
                sel(bits@, op, 2),
                sel(bits@, op, 1),
                lo.val(),
            );
            assert(sel_range(bits@, 2 * j, 1, 6) == a * (b * (c * (d * (e * f)))));
            lemma_mul_assoc7(a, b, c, d, e, f, g);
            assert(hi.val() == sel_range(bits@, 2 * j, 1, 6) % p());
            crate::field::lemma_mod_mul_left(sel_range(bits@, 2 * j, 1, 6), g);
        }
        r[i] = v;
        i = i + 1;
    }
    r
}

/// Moving the last factor of a right-nested product of seven integers inwards.
proof fn lemma_mul_assoc7(a: int, b: int, c: int, d: int, e: int, f: int, g: int)
    ensures
        (a * (b * (c * (d * (e * f))))) * g == a * (b * (c * (d * (e * (f * g))))),
{
    use_assoc(a, b * (c * (d * (e * f))), g);
    use_assoc(b, c * (d * (e * f)), g);
    use_assoc(c, d * (e * f), g);
    use_assoc(d, e * f, g);
    use_assoc(e, f, g);
}

/// `(x * y) * z == x * (y * z)`.
proof fn use_assoc(x: int, y: int, z: int)
    ensures
        (x * y) * z == x * (y * z),
{
    vstd::arithmetic::mul::lemma_mul_is_associative(x, y, z);
}

/// Degree-6 flags of the u32 opcodes `64, 66, ..., 78`.
fn degree6_table(bits: &[Felt; 7], b321: &[Felt; 8]) -> (r: [Felt; NUM_DEGREE_6_OPS])
    requires
        forall|j: int| 0 <= j < 8 ==> #[trigger] b321[j].val() == sel_range(bits@, 2 * j, 1, 3) % p(),
    ensures
        forall|j: int|
            0 <= j < NUM_DEGREE_6_OPS ==> #[trigger] r[j].val() == degree6_flag(bits@, 64 + 2 * j),
{
    // Prefix `100` (b6=1, b5=0, b4=0).
    let s6 = bit_selector(bits[6], true);
    let s5 = bit_selector(bits[5], false);
    let s4 = bit_selector(bits[4], false);
    let prefix = s6.mul(s5).mul(s4);
    proof {
        crate::field::lemma_mod_mul_left(s6.val() * s5.val(), s4.val());
    }
    let mut r: [Felt; NUM_DEGREE_6_OPS] = vstd::array::array_fill_for_copy_types(Felt::zero());
    let mut i: usize = 0;
    while i < 8
        invariant
            i <= 8,
            prefix.val() == ((s6.val() * s5.val()) * s4.val()) % p(),
            s6.val() == bit_sel(bits@[6], true),
            s5.val() == bit_sel(bits@[5], false),
            s4.val() == bit_sel(bits@[4], false),
            forall|j: int| 0 <= j < 8 ==> #[trigger] b321[j].val() == sel_range(bits@, 2 * j, 1, 3) % p(),
            forall|j: int|
                0 <= j < i ==> #[trigger] r[j].val() == degree6_flag(bits@, 64 + 2 * j),
        decreases 8 - i,
    {
        let lo = b321[i];
        let v = prefix.mul(lo);
        proof {
            reveal_with_fuel(sel_range, 6);
            let op = 64 + 2 * i;
            assert(opcode_bit(op, 6));
            assert(!opcode_bit(op, 5));
            assert(!opcode_bit(op, 4));
            assert(opcode_bit(2 * i, 3) == opcode_bit(op, 3));
            assert(opcode_bit(2 * i, 2) == opcode_bit(op, 2));
            assert(opcode_bit(2 * i, 1) == opcode_bit(op, 1));
            let (a, b, c, d, e, f) = (
                s6.val(),
                s5.val(),
                s4.val(),
                sel(bits@, op, 3),
                sel(bits@, op, 2),
                sel(bits@, op, 1),
            );
            assert(sel_range(bits@, 2 * i, 1, 3) == d * (e * f));
            assert(sel_range(bits@, op, 1, 6) == a * (b * (c * (d * (e * f)))));
            use_assoc(a, b, c);
            use_assoc(a, b * c, d * (e * f));
            use_assoc(b, c, d * (e * f));
            crate::field::lemma_mod_mul_left((a * b) * c, lo.val());
            crate::field::lemma_mod_mul_right((a * b) * c, d * (e * f));
        }
        r[i] = v;
        i = i + 1;
    }
    r
}

/// Degree-5 flags of opcodes `80..96`.
fn degree5_table(bits: &[Felt; 7], extra0: Felt, b3210: &[Felt; 16]) -> (r: [Felt; NUM_DEGREE_5_OPS])
    requires
        forall|j: int| 0 <= j < 16 ==> #[trigger] b3210[j].val() == sel_range(bits@, j, 0, 3) % p(),
    ensures
        forall|j: int|
            0 <= j < NUM_DEGREE_5_OPS ==> #[trigger] r[j].val() == degree5_flag(bits@, extra0, 80 + j),
{
    let mut r: [Felt; NUM_DEGREE_5_OPS] = vstd::array::array_fill_for_copy_types(Felt::zero());
    let mut i: usize = 0;
    while i < 16
        invariant
            i <= 16,
            forall|j: int| 0 <= j < 16 ==> #[trigger] b3210[j].val() == sel_range(bits@, j, 0, 3) % p(),
            forall|j: int|
                0 <= j < i ==> #[trigger] r[j].val() == degree5_flag(bits@, extra0, 80 + j),
        decreases 16 - i,
    {
        let lo = b3210[i];
        let v = extra0.mul(lo);
        proof {
            reveal_with_fuel(sel_range, 4);
            let op = 80 + i;
            assert(opcode_bit(i as int, 3) == opcode_bit(op, 3));
            assert(opcode_bit(i as int, 2) == opcode_bit(op, 2));
            assert(opcode_bit(i as int, 1) == opcode_bit(op, 1));
            assert(opcode_bit(i as int, 0) == opcode_bit(op, 0));
            assert(sel_range(bits@, i as int, 0, 3) == sel_range(bits@, op, 0, 3));
            crate::field::lemma_mod_mul_right(extra0.val(), sel_range(bits@, op, 0, 3));
        }
        r[i] = v;
        i = i + 1;
    }
    r
}

/// Degree-4 flags of opcodes `96, 100, ..., 124`.
fn degree4_table(bits: &[Felt; 7], extra1: Felt, b432: &[Felt; 8]) -> (r: [Felt; NUM_DEGREE_4_OPS])
    requires
        forall|j: int| 0 <= j < 8 ==> #[trigger] b432[j].val() == sel_range(bits@, 4 * j, 2, 4) % p(),
    ensures
        forall|j: int|
            0 <= j < NUM_DEGREE_4_OPS ==> #[trigger] r[j].val() == degree4_flag(bits@, extra1, 96 + 4 * j),
{
    let mut r: [Felt; NUM_DEGREE_4_OPS] = vstd::array::array_fill_for_copy_types(Felt::zero());
    let mut i: usize = 0;
    while i < 8
        invariant
            i <= 8,
            forall|j: int| 0 <= j < 8 ==> #[trigger] b432[j].val() == sel_range(bits@, 4 * j, 2, 4) % p(),
            forall|j: int|
                0 <= j < i ==> #[trigger] r[j].val() == degree4_flag(bits@, extra1, 96 + 4 * j),
        decreases 8 - i,
    {
        let lo = b432[i];
        let v = lo.mul(extra1);
        proof {
            reveal_with_fuel(sel_range, 3);
            let op = 96 + 4 * i;
            assert(opcode_bit(4 * i, 4) == opcode_bit(op, 4));
            assert(opcode_bit(4 * i, 3) == opcode_bit(op, 3));
            assert(opcode_bit(4 * i, 2) == opcode_bit(op, 2));
            assert(sel_range(bits@, 4 * i, 2, 4) == sel_range(bits@, op, 2, 4));
            crate::field::lemma_mod_mul_left(sel_range(bits@, op, 2, 4), extra1.val());
        }
        r[i] = v;
        i = i + 1;
    }
    r
}

// COMPOSITE FLAGS
// ================================================================================================

/// The flag tables hold the operation flags of the decoder row `dec`.
spec fn tables_of(
    dec: DecoderCols<Felt>,
    deg7: [Felt; NUM_DEGREE_7_OPS],
    deg6: [Felt; NUM_DEGREE_6_OPS],
    deg5: [Felt; NUM_DEGREE_5_OPS],
    deg4: [Felt; NUM_DEGREE_4_OPS],
    pairs: [Felt; 32],
) -> bool {
    let bits = dec.op_bits@;
    &&& forall|j: int| 0 <= j < 64 ==> #[trigger] deg7[j].val() == degree7_flag(bits, j)
    &&& forall|j: int| 0 <= j < 8 ==> #[trigger] deg6[j].val() == degree6_flag(bits, 64 + 2 * j)
    &&& forall|j: int|
        0 <= j < 16 ==> #[trigger] deg5[j].val() == degree5_flag(bits, dec.extra[0], 80 + j)
    &&& forall|j: int|
        0 <= j < 8 ==> #[trigger] deg4[j].val() == degree4_flag(bits, dec.extra[1], 96 + 4 * j)
    &&& forall|j: int| 0 <= j < 32 ==> #[trigger] pairs[j].val() == sel_range(bits, 2 * j, 1, 6) % p()
}

/// Adds `x` to an accumulator holding the residue of `s`.
fn acc_add(acc: Felt, x: Felt, Ghost(s): Ghost<int>) -> (r: Felt)
    requires
        acc.val() == s % p(),
    ensures
        r.val() == (s + x.val()) % p(),
{
    proof {
        crate::field::lemma_mod_add_left(s, x.val());
    }
    acc.add(x)
}

/// Subtracts `x` from an accumulator holding the residue of `s`.
fn acc_sub(acc: Felt, x: Felt, Ghost(s): Ghost<int>) -> (r: Felt)
    requires
        acc.val() == s % p(),
    ensures
        r.val() == (s - x.val()) % p(),
{
    proof {
        crate::field::lemma_mod_sub_left(s, x.val());
    }
    acc.sub(x)
}

/// Flag of a degree-7 opcode read from its table.
fn op7(deg7: &[Felt; NUM_DEGREE_7_OPS], op: u8, Ghost(dec): Ghost<DecoderCols<Felt>>) -> (r: Felt)
    requires
        op <= 63,
        forall|j: int| 0 <= j < 64 ==> #[trigger] deg7[j].val() == degree7_flag(dec.op_bits@, j),
    ensures
        r.val() == op_flag(dec, op as int),
{
    deg7[get_op_index(op)]
}

/// Flag of a degree-6 opcode read from its table.
fn op6(deg6: &[Felt; NUM_DEGREE_6_OPS], op: u8, Ghost(dec): Ghost<DecoderCols<Felt>>) -> (r: Felt)
    requires
        64 <= op <= 79,
        op % 2 == 0,
        forall|j: int|
            0 <= j < 8 ==> #[trigger] deg6[j].val() == degree6_flag(dec.op_bits@, 64 + 2 * j),
    ensures
        r.val() == op_flag(dec, op as int),
{
    deg6[get_op_index(op)]
}

/// Flag of a degree-5 opcode read from its table.
fn op5(deg5: &[Felt; NUM_DEGREE_5_OPS], op: u8, Ghost(dec): Ghost<DecoderCols<Felt>>) -> (r: Felt)
    requires
        80 <= op <= 95,
        forall|j: int|
            0 <= j < 16 ==> #[trigger] deg5[j].val() == degree5_flag(
                dec.op_bits@,
                dec.extra[0],
                80 + j,
            ),
    ensures
        r.val() == op_flag(dec, op as int),
{
    deg5[get_op_index(op)]
}

/// Flag of a degree-4 opcode read from its table.
fn op4(deg4: &[Felt; NUM_DEGREE_4_OPS], op: u8, Ghost(dec): Ghost<DecoderCols<Felt>>) -> (r: Felt)
    requires
        96 <= op <= 127,
        op % 4 == 0,
        forall|j: int|
            0 <= j < 8 ==> #[trigger] deg4[j].val() == degree4_flag(
                dec.op_bits@,
                dec.extra[1],
                96 + 4 * j,
            ),
    ensures
        r.val() == op_flag(dec, op as int),
{
    deg4[get_op_index(op)]
}

/// Flag of the pair of degree-7 opcodes `op` and `op + 1` (for even `op`).
fn pair(pairs: &[Felt; 32], op: u8, Ghost(dec): Ghost<DecoderCols<Felt>>) -> (r: Felt)
    requires
        op <= 63,
        op % 2 == 0,
        forall|j: int|
            0 <= j < 32 ==> #[trigger] pairs[j].val() == sel_range(dec.op_bits@, 2 * j, 1, 6) % p(),
    ensures
        r.val() == pair_flag(dec, op as int),
{
    pairs[(op / 2) as usize]
}

/// Sum of the flags of the degree-7 opcodes `lo..hi`.
fn flag_sum(deg7: &[Felt; NUM_DEGREE_7_OPS], lo: usize, hi: usize, Ghost(dec): Ghost<DecoderCols<Felt>>) -> (r: Felt)
    requires
        lo <= hi <= 64,
        forall|j: int| 0 <= j < 64 ==> #[trigger] deg7[j].val() == degree7_flag(dec.op_bits@, j),
    ensures
        r.val() == flag_range_sum(dec, lo as int, hi as int) % p(),
{
    let mut acc = Felt::zero();
    let mut i = lo;
    while i < hi
        invariant
            lo <= i <= hi <= 64,
            forall|j: int| 0 <= j < 64 ==> #[trigger] deg7[j].val() == degree7_flag(dec.op_bits@, j),
            acc.val() == flag_range_sum(dec, lo as int, i as int) % p(),
        decreases hi - i,
    {
        acc = acc_add(acc, deg7[i], Ghost(flag_range_sum(dec, lo as int, i as int)));
        i = i + 1;
    }
    acc
}

/// Prefix-sums an array of per-depth deltas: `result[d] = deltas[0] + ... + deltas[d]`.
fn accumulate_depth_deltas(
    deltas: [Felt; NUM_STACK_IMPACT_FLAGS],
    Ghost(ds): Ghost<spec_fn(int) -> int>,
) -> (r: [Felt; NUM_STACK_IMPACT_FLAGS])
    requires
        forall|j: int| 0 <= j < 16 ==> #[trigger] deltas[j].val() == ds(j) % p(),
    ensures
        forall|d: int| 0 <= d < 16 ==> #[trigger] r[d].val() == depth_flag(ds, d),
{
    let mut r = deltas;
    let mut i: usize = 1;
    while i < 16
        invariant
            1 <= i <= 16,
            forall|j: int| 0 <= j < 16 ==> #[trigger] deltas[j].val() == ds(j) % p(),
            forall|j: int| i <= j < 16 ==> #[trigger] r[j] == deltas[j],
            forall|d: int| 0 <= d < i ==> #[trigger] r[d].val() == depth_flag(ds, d),
        decreases 16 - i,
    {
        let v = r[i - 1].add(r[i]);
        proof {
            crate::field::lemma_mod_add_right(depth_flag(ds, i - 1), ds(i as int));
        }
        r[i] = v;
        i = i + 1;
    }
    r
}

/// Prefix `b6 b5 b4 = 1 0 0` of the u32 opcodes: `b6 * (1 - b5) * (1 - b4)`.
fn prefix_100(bits: &[Felt; 7], Ghost(dec): Ghost<DecoderCols<Felt>>) -> (r: Felt)
    requires
        bits@ == dec.op_bits@,
    ensures
        r.val() == prefix_flag(dec, opcodes::U32ADD as int, 4),
{
    let s6 = bit_selector(bits[6], true);
    let s5 = bit_selector(bits[5], false);
    let s4 = bit_selector(bits[4], false);
    let r = s6.mul(s5).mul(s4);
    proof {
        reveal_with_fuel(sel_range, 3);
        let (a, b, c) = (s6.val(), s5.val(), s4.val());
        assert(opcode_bit(64, 6) && !opcode_bit(64, 5) && !opcode_bit(64, 4));
        assert((a * b) * c == a * (b * c)) by (nonlinear_arith);
        crate::field::lemma_mod_mul_left(a * b, c);
    }
    r
}

/// Prefix `b6 b5 = 0 1` with bit 4 equal to `b4`: `(1 - b6) * b5 * sel(b4)`.
fn prefix_01x(bits: &[Felt; 7], b4: bool, Ghost(dec): Ghost<DecoderCols<Felt>>) -> (r: Felt)
    requires
        bits@ == dec.op_bits@,
    ensures
        r.val() == prefix_flag(dec, if b4 { opcodes::PAD as int } else { opcodes::ASSERT as int }, 4),
{
    let s6 = bit_selector(bits[6], false);
    let s5 = bit_selector(bits[5], true);
    let s4 = bit_selector(bits[4], b4);
    let r = s6.mul(s5).mul(s4);
    proof {
        reveal_with_fuel(sel_range, 3);
        let (a, b, c) = (s6.val(), s5.val(), s4.val());
        let op = if b4 { opcodes::PAD as int } else { opcodes::ASSERT as int };
        assert(!opcode_bit(op, 6) && opcode_bit(op, 5) && opcode_bit(op, 4) == b4);
        assert((a * b) * c == a * (b * c)) by (nonlinear_arith);
        crate::field::lemma_mod_mul_left(a * b, c);
    }
    r
}

/// Changes of the no-shift flag per depth.
fn no_shift_deltas(
    dec: &DecoderCols<Felt>,
    deg7: &[Felt; NUM_DEGREE_7_OPS],
    deg6: &[Felt; NUM_DEGREE_6_OPS],
    deg5: &[Felt; NUM_DEGREE_5_OPS],
    deg4: &[Felt; NUM_DEGREE_4_OPS],
    pairs: &[Felt; 32],
) -> (r: [Felt; NUM_STACK_IMPACT_FLAGS])
    requires
        tables_of(*dec, *deg7, *deg6, *deg5, *deg4, *pairs),
    ensures
        forall|j: int| 0 <= j < 16 ==> #[trigger] r[j].val() == no_shift_delta(*dec, j) % p(),
{
    let g = Ghost(*dec);
    let zero = Felt::zero();
    let is_loop_end = dec.end_block_flags().is_loop;

    // d = 0
    let end_no_loop = op4(deg4, opcodes::END, g).mul(Felt::one().sub(is_loop_end));
    let f0 = op7(deg7, opcodes::NOOP, g);
    let f1 = op6(deg6, opcodes::U32ASSERT2, g);
    let f2 = op5(deg5, opcodes::MPVERIFY, g);
    let f3 = op5(deg5, opcodes::SPAN, g);
    let f4 = op5(deg5, opcodes::JOIN, g);
    let f5 = op7(deg7, opcodes::EMIT, g);
    let f6 = op4(deg4, opcodes::RESPAN, g);
    let f7 = op4(deg4, opcodes::HALT, g);
    let f8 = op4(deg4, opcodes::CALL, g);
    let a = acc_add(zero, f0, Ghost(0));
    let a = acc_add(a, f1, Ghost(f0.val()));
    let a = acc_add(a, f2, Ghost(f0.val() + f1.val()));
    let a = acc_add(a, f3, Ghost(f0.val() + f1.val() + f2.val()));
    let a = acc_add(a, f4, Ghost(f0.val() + f1.val() + f2.val() + f3.val()));
    let a = acc_add(a, f5, Ghost(f0.val() + f1.val() + f2.val() + f3.val() + f4.val()));
    let a = acc_add(a, f6, Ghost(f0.val() + f1.val() + f2.val() + f3.val() + f4.val() + f5.val()));
    let a = acc_add(
        a,
        f7,
        Ghost(f0.val() + f1.val() + f2.val() + f3.val() + f4.val() + f5.val() + f6.val()),
    );
    let a = acc_add(
        a,
        f8,
        Ghost(f0.val() + f1.val() + f2.val() + f3.val() + f4.val() + f5.val() + f6.val() + f7.val()),
    );
    let d0 = acc_add(
        a,
        end_no_loop,
        Ghost(
            f0.val() + f1.val() + f2.val() + f3.val() + f4.val() + f5.val() + f6.val() + f7.val()
                + f8.val(),
        ),
    );

    // d = 1: opcodes 0..8 without NOOP
    let s08 = flag_sum(deg7, 0, 8, g);
    let d1 = acc_sub(s08, f0, Ghost(flag_range_sum(*dec, 0, 8)));

    // d = 2: SWAP and U32ADD/U32SUB/U32MUL/U32DIV
    let u32_arith_group = prefix_100(&dec.op_bits, g).mul(bit_selector(dec.op_bits[3], false));
    proof {
        reveal_with_fuel(sel_range, 4);
        let bits = dec.op_bits@;
        let (x, y, z, w) = (sel(bits, 64, 6), sel(bits, 64, 5), sel(bits, 64, 4), sel(bits, 64, 3));
        assert(!opcode_bit(64, 3));
        assert((x * (y * z)) * w == x * (y * (z * w))) by (nonlinear_arith);
        crate::field::lemma_mod_mul_left(x * (y * z), w);
    }
    let swap = op7(deg7, opcodes::SWAP, g);
    let d2 = acc_add(acc_add(zero, swap, Ghost(0)), u32_arith_group, Ghost(swap.val()));

    // d = 3..9: MOVUP/MOVDN pairs and word operations
    let p2 = pair(pairs, opcodes::MOVUP2, g);
    let p3 = pair(pairs, opcodes::MOVUP3, g);
    let p4 = pair(pairs, opcodes::MOVUP4, g);
    let p5 = pair(pairs, opcodes::MOVUP5, g);
    let p6 = pair(pairs, opcodes::MOVUP6, g);
    let p7 = pair(pairs, opcodes::MOVUP7, g);
    let p8 = pair(pairs, opcodes::MOVUP8, g);
    let advpopw_or_expacc = pair(pairs, opcodes::ADVPOPW, g);
    let swapw2_or_swapw3 = pair(pairs, opcodes::SWAPW2, g);
    let d3 = acc_add(zero, p2, Ghost(0));
    let ext2mul = op7(deg7, opcodes::EXT2MUL, g);
    let mrupdate = op4(deg4, opcodes::MRUPDATE, g);
    let a = acc_add(zero, p3, Ghost(0));
    let a = acc_add(a, advpopw_or_expacc, Ghost(p3.val()));
    let a = acc_add(a, swapw2_or_swapw3, Ghost(p3.val() + advpopw_or_expacc.val()));
    let a = acc_add(a, ext2mul, Ghost(p3.val() + advpopw_or_expacc.val() + swapw2_or_swapw3.val()));
    let d4 = acc_add(
        a,
        mrupdate,
        Ghost(p3.val() + advpopw_or_expacc.val() + swapw2_or_swapw3.val() + ext2mul.val()),
    );
    let d5 = acc_add(zero, p4, Ghost(0));
    let d6 = acc_add(zero, p5, Ghost(0));
    let d7 = acc_add(zero, p6, Ghost(0));
    // d = 8: SWAPW2 swaps s0..s3 with s8..s11, so it leaves here; SWAPW3 stays (s4..s11 kept)
    let swapw = op7(deg7, opcodes::SWAPW, g);
    let swapw2 = op7(deg7, opcodes::SWAPW2, g);
    let a = acc_add(zero, p7, Ghost(0));
    let a = acc_add(a, swapw, Ghost(p7.val()));
    let d8 = acc_sub(a, swapw2, Ghost(p7.val() + swapw.val()));
    let d9 = acc_add(zero, p8, Ghost(0));

    // d = 12: SWAPW2 re-enters, HPERM, and SWAPW3 leaves (it swaps s0..s3 with s12..s15)
    let hperm = op5(deg5, opcodes::HPERM, g);
    let swapw3 = op7(deg7, opcodes::SWAPW3, g);
    let a = acc_add(zero, swapw2, Ghost(0));
    let a = acc_add(a, hperm, Ghost(swapw2.val()));
    let d12 = acc_sub(a, swapw3, Ghost(swapw2.val() + hperm.val()));

    let r = [d0, d1, d2, d3, d4, d5, d6, d7, d8, d9, zero, zero, d12, zero, zero, zero];
    proof {
        assert forall|j: int| 0 <= j < 16 implies #[trigger] r[j].val() == no_shift_delta(*dec, j) % p() by {
            if j == 0 {
                assert(r[0] == d0);
            }
        }
    }
    r
}

/// Sum of the MOVUP{n}/MOVDN{n} pair flags for `n` in `2..=8`.
fn mov_pairs_sum(pairs: &[Felt; 32], Ghost(dec): Ghost<DecoderCols<Felt>>) -> (r: Felt)
    requires
        forall|j: int|
            0 <= j < 32 ==> #[trigger] pairs[j].val() == sel_range(dec.op_bits@, 2 * j, 1, 6) % p(),
    ensures
        r.val() == all_mov_pairs(dec) % p(),
{
    let g = Ghost(dec);
    let p2 = pair(pairs, opcodes::MOVUP2, g);
    let p3 = pair(pairs, opcodes::MOVUP3, g);
    let p4 = pair(pairs, opcodes::MOVUP4, g);
    let p5 = pair(pairs, opcodes::MOVUP5, g);
    let p6 = pair(pairs, opcodes::MOVUP6, g);
    let p7 = pair(pairs, opcodes::MOVUP7, g);
    let p8 = pair(pairs, opcodes::MOVUP8, g);
    let a = acc_add(Felt::zero(), p2, Ghost(0));
    let a = acc_add(a, p3, Ghost(p2.val()));
    let a = acc_add(a, p4, Ghost(p2.val() + p3.val()));
    let a = acc_add(a, p5, Ghost(p2.val() + p3.val() + p4.val()));
    let a = acc_add(a, p6, Ghost(p2.val() + p3.val() + p4.val() + p5.val()));
    let a = acc_add(a, p7, Ghost(p2.val() + p3.val() + p4.val() + p5.val() + p6.val()));
    acc_add(a, p8, Ghost(p2.val() + p3.val() + p4.val() + p5.val() + p6.val() + p7.val()))
}

/// Changes of the left-shift flag per depth.
fn left_shift_deltas(
    dec: &DecoderCols<Felt>,
    deg7: &[Felt; NUM_DEGREE_7_OPS],
    deg6: &[Felt; NUM_DEGREE_6_OPS],
    deg5: &[Felt; NUM_DEGREE_5_OPS],
    deg4: &[Felt; NUM_DEGREE_4_OPS],
    pairs: &[Felt; 32],
) -> (r: [Felt; NUM_STACK_IMPACT_FLAGS])
    requires
        tables_of(*dec, *deg7, *deg6, *deg5, *deg4, *pairs),
    ensures
        forall|j: int| 0 <= j < 16 ==> #[trigger] r[j].val() == left_shift_delta(*dec, j) % p(),
{
    let g = Ghost(*dec);
    let zero = Felt::zero();
    let is_loop_end = dec.end_block_flags().is_loop;
    let end_loop = op4(deg4, opcodes::END, g).mul(is_loop_end);

    // d = 1
    let all_movdn = mov_pairs_sum(pairs, g).mul(dec.op_bits[0]);
    let f0 = op7(deg7, opcodes::ASSERT, g);
    let f1 = all_movdn;
    let f2 = op7(deg7, opcodes::DROP, g);
    let f3 = op7(deg7, opcodes::MSTORE, g);
    let f4 = op7(deg7, opcodes::MSTOREW, g);
    let f5 = deg7[47];
    let f6 = op5(deg5, opcodes::SPLIT, g);
    let f7 = op5(deg5, opcodes::LOOP, g);
    let f8 = end_loop;
    let f9 = op5(deg5, opcodes::DYN, g);
    let f10 = op5(deg5, opcodes::DYNCALL, g);
    let a = acc_add(zero, f0, Ghost(0));
    let a = acc_add(a, f1, Ghost(f0.val()));
    let a = acc_add(a, f2, Ghost(f0.val() + f1.val()));
    let a = acc_add(a, f3, Ghost(f0.val() + f1.val() + f2.val()));
    let a = acc_add(a, f4, Ghost(f0.val() + f1.val() + f2.val() + f3.val()));
    let a = acc_add(a, f5, Ghost(f0.val() + f1.val() + f2.val() + f3.val() + f4.val()));
    let a = acc_add(a, f6, Ghost(f0.val() + f1.val() + f2.val() + f3.val() + f4.val() + f5.val()));
    let a = acc_add(
        a,
        f7,
        Ghost(f0.val() + f1.val() + f2.val() + f3.val() + f4.val() + f5.val() + f6.val()),
    );
    let a = acc_add(
        a,
        f8,
        Ghost(f0.val() + f1.val() + f2.val() + f3.val() + f4.val() + f5.val() + f6.val() + f7.val()),
    );
    let a = acc_add(
        a,
        f9,
        Ghost(
            f0.val() + f1.val() + f2.val() + f3.val() + f4.val() + f5.val() + f6.val() + f7.val()
                + f8.val(),
        ),
    );
    let d1 = acc_add(
        a,
        f10,
        Ghost(
            f0.val() + f1.val() + f2.val() + f3.val() + f4.val() + f5.val() + f6.val() + f7.val()
                + f8.val() + f9.val(),
        ),
    );

    // d = 2: binary operations 32..40 without ASSERT
    let s = flag_sum(deg7, 32, 40, g);
    let d2 = acc_sub(s, f0, Ghost(flag_range_sum(*dec, 32, 40)));

    // d = 3..9
    let cswap = op7(deg7, opcodes::CSWAP, g);
    let add3 = op6(deg6, opcodes::U32ADD3, g);
    let madd = op6(deg6, opcodes::U32MADD, g);
    let movdn2 = op7(deg7, opcodes::MOVDN2, g);
    let a = acc_add(zero, cswap, Ghost(0));
    let a = acc_add(a, add3, Ghost(cswap.val()));
    let a = acc_add(a, madd, Ghost(cswap.val() + add3.val()));
    let d3 = acc_sub(a, movdn2, Ghost(cswap.val() + add3.val() + madd.val()));
    let d4 = acc_sub(zero, op7(deg7, opcodes::MOVDN3, g), Ghost(0));
    let mloadw = op7(deg7, opcodes::MLOADW, g);
    let d5 = acc_sub(acc_add(zero, mloadw, Ghost(0)), op7(deg7, opcodes::MOVDN4, g), Ghost(mloadw.val()));
    let d6 = acc_sub(zero, op7(deg7, opcodes::MOVDN5, g), Ghost(0));
    let d7 = acc_sub(zero, op7(deg7, opcodes::MOVDN6, g), Ghost(0));
    let d8 = acc_sub(zero, op7(deg7, opcodes::MOVDN7, g), Ghost(0));
    let cswapw = op7(deg7, opcodes::CSWAPW, g);
    let d9 = acc_sub(acc_add(zero, cswapw, Ghost(0)), op7(deg7, opcodes::MOVDN8, g), Ghost(cswapw.val()));

    let r = [zero, d1, d2, d3, d4, d5, d6, d7, d8, d9, zero, zero, zero, zero, zero, zero];
    proof {
        assert forall|j: int| 0 <= j < 16 implies #[trigger] r[j].val() == left_shift_delta(*dec, j) % p() by {
            if j == 0 {
                assert(r[0] == zero);
            }
        }
    }
    r
}

/// Changes of the right-shift flag per depth.
fn right_shift_deltas(
    dec: &DecoderCols<Felt>,
    deg7: &[Felt; NUM_DEGREE_7_OPS],
    deg6: &[Felt; NUM_DEGREE_6_OPS],
    deg5: &[Felt; NUM_DEGREE_5_OPS],
    deg4: &[Felt; NUM_DEGREE_4_OPS],
    pairs: &[Felt; 32],
) -> (r: [Felt; NUM_STACK_IMPACT_FLAGS])
    requires
        tables_of(*dec, *deg7, *deg6, *deg5, *deg4, *pairs),
    ensures
        forall|j: int| 0 <= j < 16 ==> #[trigger] r[j].val() == right_shift_delta(*dec, j) % p(),
{
    let g = Ghost(*dec);
    let zero = Felt::zero();

    // d = 0: opcodes 48..64, PUSH, MOVUP{2..8}
    let all_movup = mov_pairs_sum(pairs, g).mul(bit_selector(dec.op_bits[0], false));
    let s = flag_sum(deg7, 48, 64, g);
    let push = op5(deg5, opcodes::PUSH, g);
    let a = acc_add(s, push, Ghost(flag_range_sum(*dec, 48, 64)));
    let d0 = acc_add(a, all_movup, Ghost(flag_range_sum(*dec, 48, 64) + push.val()));

    let d1 = op6(deg6, opcodes::U32SPLIT, g);
    proof {
        crate::field::lemma_mod_mod(d1.val());
    }
    let d2 = acc_sub(zero, op7(deg7, opcodes::MOVUP2, g), Ghost(0));
    let d3 = acc_sub(zero, op7(deg7, opcodes::MOVUP3, g), Ghost(0));
    let d4 = acc_sub(zero, op7(deg7, opcodes::MOVUP4, g), Ghost(0));
    let d5 = acc_sub(zero, op7(deg7, opcodes::MOVUP5, g), Ghost(0));
    let d6 = acc_sub(zero, op7(deg7, opcodes::MOVUP6, g), Ghost(0));
    let d7 = acc_sub(zero, op7(deg7, opcodes::MOVUP7, g), Ghost(0));
    let d8 = acc_sub(zero, op7(deg7, opcodes::MOVUP8, g), Ghost(0));

    let r = [d0, d1, d2, d3, d4, d5, d6, d7, d8, zero, zero, zero, zero, zero, zero, zero];
    proof {
        assert forall|j: int| 0 <= j < 16 implies #[trigger] r[j].val() == right_shift_delta(*dec, j) % p() by {
            if j == 1 {
                assert(r[1] == d1);
            }
        }
    }
    r
}

/// Flag of a degree-4 control flow opcode on the next row, whose bits 3 and 2 are those
/// of `op`: `extra[1]' * b4' * sel(b3') * sel(b2')`.
fn next_row_flag(next: &DecoderCols<Felt>, op: u8) -> (r: Felt)
    ensures
        r.val() == next_flag(*next, op as int),
{
    let prefix = next.extra[1].mul(next.op_bits[4]);
    let s3 = bit_selector(next.op_bits[3], (op / 8) % 2 == 1);
    let s2 = bit_selector(next.op_bits[2], (op / 4) % 2 == 1);
    let b32 = s3.mul(s2);
    let r = prefix.mul(b32);
    proof {
        reveal_with_fuel(sel_range, 2);
        let (e, b, x, y) = (next.extra[1].val(), next.op_bits[4].val(), s3.val(), s2.val());
        assert(sel_range(next.op_bits@, op as int, 2, 3) == x * y);
        crate::field::lemma_mod_mul_left(e * b, (x * y) % p());
        crate::field::lemma_mod_mul_right(e * b, x * y);
    }
    r
}

impl OpFlags {
    /// Creates a new OpFlags instance by computing all flags from the decoder columns.
    ///
    /// Builds flags for the current row from `decoder`/`stack`, and also computes
    /// degree-4 next-row control flow flags (END, REPEAT, RESPAN, HALT) from
    /// `decoder_next`.
    ///
    /// The computation uses intermediate values to minimize multiplications:
    /// - Degree 7 flags: computed hierarchically from op bits
    /// - Degree 6 flags: u32 operations, share common prefix `100`
    /// - Degree 5 flags: use op_bit_extra[0] for degree reduction
    /// - Degree 4 flags: use op_bit_extra[1] for degree reduction
    pub fn new(
        decoder: &DecoderCols<Felt>,
        stack: &StackCols<Felt>,
        decoder_next: &DecoderCols<Felt>,
    ) -> (r: OpFlags)
        ensures
            r.flags_of(*decoder, *stack, *decoder_next),
    {
        let bits = &decoder.op_bits;
        let g = Ghost(*decoder);

        // --- Precomputed multi-bit selector products ---
        let b32 = selector_table_b32(bits);
        let b321 = selector_table_b321(bits, &b32);
        let b3210 = selector_table_b3210(bits, &b321);
        let b432 = selector_table_b432(bits, &b32);
        let b654 = selector_table_b654(bits);
        let b654321 = selector_table_b654321(bits, &b654, &b321);

        // --- Operation flags by degree ---
        let degree7_op_flags = degree7_table(bits, &b654321);
        let degree6_op_flags = degree6_table(bits, &b321);
        let degree5_op_flags = degree5_table(bits, decoder.extra[0], &b3210);
        let degree4_op_flags = degree4_table(bits, decoder.extra[1], &b432);
        let ghost tables = tables_of(
            *decoder,
            degree7_op_flags,
            degree6_op_flags,
            degree5_op_flags,
            degree4_op_flags,
            b654321,
        );
        assert(tables);

        // --- Composite flags ---
        let no_shift_flags = accumulate_depth_deltas(
            no_shift_deltas(
                decoder,
                &degree7_op_flags,
                &degree6_op_flags,
                &degree5_op_flags,
                &degree4_op_flags,
                &b654321,
            ),
            Ghost(|j: int| no_shift_delta(*decoder, j)),
        );
        let left_shift_flags = accumulate_depth_deltas(
            left_shift_deltas(
                decoder,
                &degree7_op_flags,
                &degree6_op_flags,
                &degree5_op_flags,
                &degree4_op_flags,
                &b654321,
            ),
            Ghost(|j: int| left_shift_delta(*decoder, j)),
        );
        let right_shift_flags = accumulate_depth_deltas(
            right_shift_deltas(
                decoder,
                &degree7_op_flags,
                &degree6_op_flags,
                &degree5_op_flags,
                &degree4_op_flags,
                &b654321,
            ),
            Ghost(|j: int| right_shift_delta(*decoder, j)),
        );

        // right_shift_scalar: PAD..CLK (prefix 011), PUSH, U32SPLIT
        let prefix_011 = prefix_01x(bits, true, g);
        let push = op5(&degree5_op_flags, opcodes::PUSH, g);
        let u32split = op6(&degree6_op_flags, opcodes::U32SPLIT, g);
        let a = acc_add(Felt::zero(), prefix_011, Ghost(0));
        let a = acc_add(a, push, Ghost(prefix_011.val()));
        let right_shift = acc_add(a, u32split, Ghost(prefix_011.val() + push.val()));

        // left_shift_scalar: prefix 010, U32ADD3/U32MADD, SPLIT, LOOP, REPEAT, END*loop, DYN
        let prefix_010 = prefix_01x(bits, false, g);
        let u32_add3_madd_group = prefix_100(bits, g).mul(bit_selector(bits[3], true)).mul(
            bit_selector(bits[2], true),
        );
        proof {
            reveal_with_fuel(sel_range, 5);
            let bs = decoder.op_bits@;
            let op = opcodes::U32ADD3 as int;
            let (x, y, z, u, v) = (sel(bs, op, 6), sel(bs, op, 5), sel(bs, op, 4), sel(bs, op, 3), sel(bs, op, 2));
            assert(sel(bs, 64, 6) == x && sel(bs, 64, 5) == y && sel(bs, 64, 4) == z);
            assert(((x * (y * z)) * u) * v == x * (y * (z * (u * v)))) by (nonlinear_arith);
            crate::field::lemma_mod_mul_left(x * (y * z), u);
            crate::field::lemma_mod_mul_left((x * (y * z)) * u, v);
        }
        let split = op5(&degree5_op_flags, opcodes::SPLIT, g);
        let loop_op = op5(&degree5_op_flags, opcodes::LOOP, g);
        let repeat = op4(&degree4_op_flags, opcodes::REPEAT, g);
        let end_loop = op4(&degree4_op_flags, opcodes::END, g).mul(decoder.end_block_flags().is_loop);
        let dyn_op = op5(&degree5_op_flags, opcodes::DYN, g);
        let a = acc_add(Felt::zero(), prefix_010, Ghost(0));
        let a = acc_add(a, u32_add3_madd_group, Ghost(prefix_010.val()));
        let a = acc_add(a, split, Ghost(prefix_010.val() + u32_add3_madd_group.val()));
        let a = acc_add(
            a,
            loop_op,
            Ghost(prefix_010.val() + u32_add3_madd_group.val() + split.val()),
        );
        let a = acc_add(
            a,
            repeat,
            Ghost(prefix_010.val() + u32_add3_madd_group.val() + split.val() + loop_op.val()),
        );
        let a = acc_add(
            a,
            end_loop,
            Ghost(
                prefix_010.val() + u32_add3_madd_group.val() + split.val() + loop_op.val()
                    + repeat.val(),
            ),
        );
        let left_shift = acc_add(
            a,
            dyn_op,
            Ghost(
                prefix_010.val() + u32_add3_madd_group.val() + split.val() + loop_op.val()
                    + repeat.val() + end_loop.val(),
            ),
        );

        // control flow: SPAN/JOIN/SPLIT/LOOP, END/REPEAT/RESPAN/HALT, DYNCALL, DYN, SYSCALL, CALL
        let s3 = bit_selector(bits[3], false);
        let s2 = bit_selector(bits[2], true);
        let block_starters = s3.mul(s2).mul(decoder.extra[0]);
        proof {
            reveal_with_fuel(sel_range, 2);
            let op = opcodes::SPLIT as int;
            assert(sel_range(decoder.op_bits@, op, 2, 3) == s3.val() * s2.val());
            crate::field::lemma_mod_mul_left(s3.val() * s2.val(), decoder.extra[0].val());
        }
        let block_transitions = bits[4].mul(decoder.extra[1]);
        let dyncall = op5(&degree5_op_flags, opcodes::DYNCALL, g);
        let syscall = op4(&degree4_op_flags, opcodes::SYSCALL, g);
        let call = op4(&degree4_op_flags, opcodes::CALL, g);
        let a = acc_add(Felt::zero(), block_starters, Ghost(0));
        let a = acc_add(a, block_transitions, Ghost(block_starters.val()));
        let a = acc_add(a, dyncall, Ghost(block_starters.val() + block_transitions.val()));
        let a = acc_add(
            a,
            dyn_op,
            Ghost(block_starters.val() + block_transitions.val() + dyncall.val()),
        );
        let a = acc_add(
            a,
            syscall,
            Ghost(block_starters.val() + block_transitions.val() + dyncall.val() + dyn_op.val()),
        );
        let control_flow = acc_add(
            a,
            call,
            Ghost(
                block_starters.val() + block_transitions.val() + dyncall.val() + dyn_op.val()
                    + syscall.val(),
            ),
        );

        // u32 range-checked operations: prefix 100
        let u32_rc_op = prefix_100(bits, g);

        // overflow table is not empty: (b0 - 16) * h0
        let overflow = stack.b0.sub(Felt::from_u64(16)).mul(stack.h0);

        // --- Next-row control flow flags (degree 4) ---
        let end_next = next_row_flag(decoder_next, opcodes::END);
        let repeat_next = next_row_flag(decoder_next, opcodes::REPEAT);
        let respan_next = next_row_flag(decoder_next, opcodes::RESPAN);
        let halt_next = next_row_flag(decoder_next, opcodes::HALT);

        OpFlags {
            degree7_op_flags,
            degree6_op_flags,
            degree5_op_flags,
            degree4_op_flags,
            no_shift_flags,
            left_shift_flags,
            right_shift_flags,
            left_shift,
            right_shift,
            control_flow,
            overflow,
            u32_rc_op,
            end_next,
            repeat_next,
            respan_next,
            halt_next,
        }
    }

    // ------ Composite Flags ---------------------------------------------------------------------

    /// Returns the flag for when the stack item at the specified depth remains unchanged.
    pub fn no_shift_at(&self, index: usize) -> (r: Felt)
        requires
            index < NUM_STACK_IMPACT_FLAGS,
        ensures
            r == self.no_shift_flags[index as int],
    {
        self.no_shift_flags[index]
    }

    /// Returns the flag for when the stack item at the specified depth shifts left.
    /// Left shift is not defined on position 0, where the flag is zero.
    pub fn left_shift_at(&self, index: usize) -> (r: Felt)
        requires
            index < NUM_STACK_IMPACT_FLAGS,
        ensures
            r == self.left_shift_flags[index as int],
    {
        self.left_shift_flags[index]
    }

    /// Returns the flag for when the stack item at the specified depth shifts right.
    pub fn right_shift_at(&self, index: usize) -> (r: Felt)
        requires
            index < NUM_STACK_IMPACT_FLAGS,
        ensures
            r == self.right_shift_flags[index as int],
    {
        self.right_shift_flags[index]
    }

    /// Returns the scalar flag when the stack operation shifts the stack to the right.
    ///
    /// This is not the same expression as `right_shift_at(15)`: it uses low-degree bit
    /// prefixes that agree with it on valid rows.
    pub fn right_shift(&self) -> (r: Felt)
        ensures
            r == self.right_shift,
    {
        self.right_shift
    }

    /// Returns the scalar flag when the stack operation shifts the stack to the left.
    ///
    /// Excludes `DYNCALL`, which left-shifts the stack through the per-position flags only.
    pub fn left_shift(&self) -> (r: Felt)
        ensures
            r == self.left_shift,
    {
        self.left_shift
    }

    /// Returns the flag when the current operation is a control flow operation.
    ///
    /// Control flow operations are the only operations allowed to execute when outside a basic
    /// block: SPAN, JOIN, SPLIT, LOOP, END, REPEAT, RESPAN, HALT, DYN, DYNCALL, CALL, SYSCALL.
    pub fn control_flow(&self) -> (r: Felt)
        ensures
            r == self.control_flow,
    {
        self.control_flow
    }

    /// Returns the flag indicating whether the overflow stack contains values.
    pub fn overflow(&self) -> (r: Felt)
        ensures
            r == self.overflow,
    {
        self.overflow
    }

    /// Returns the flag for END on the next row.
    pub fn end_next(&self) -> (r: Felt)
        ensures
            r == self.end_next,
    {
        self.end_next
    }

    /// Returns the flag for REPEAT on the next row.
    pub fn repeat_next(&self) -> (r: Felt)
        ensures
            r == self.repeat_next,
    {
        self.repeat_next
    }

    /// Returns the flag for RESPAN on the next row.
    pub fn respan_next(&self) -> (r: Felt)
        ensures
            r == self.respan_next,
    {
        self.respan_next
    }

    /// Returns the flag for HALT on the next row.
    pub fn halt_next(&self) -> (r: Felt)
        ensures
            r == self.halt_next,
    {
        self.halt_next
    }

    /// Returns the flag when the current operation is a u32 operation requiring range checks.
    pub fn u32_rc_op(&self) -> (r: Felt)
        ensures
            r == self.u32_rc_op,
    {
        self.u32_rc_op
    }

    /// The operation flag of `op`: the entry at its index in the flag array of its degree.
    pub open spec fn flag_of(self, op: int) -> Felt {
        if op <= 63 {
            self.degree7_op_flags[op]
        } else if op <= 79 {
            self.degree6_op_flags[op_index(op)]
        } else if op <= 95 {
            self.degree5_op_flags[op_index(op)]
        } else {
            self.degree4_op_flags[op_index(op)]
        }
    }

    /// Returns the operation flag of `opcode`, read from the flag array of its degree.
    pub fn op_flag(&self, opcode: u8) -> (r: Felt)
        requires
            opcode <= 127,
        ensures
            r == self.flag_of(opcode as int),
            opcode <= 63 ==> r == self.degree7_op_flags[opcode as int],
            64 <= opcode <= 79 ==> r == self.degree6_op_flags[op_index(opcode as int)],
            80 <= opcode <= 95 ==> r == self.degree5_op_flags[op_index(opcode as int)],
            96 <= opcode ==> r == self.degree4_op_flags[op_index(opcode as int)],
    {
        let idx = get_op_index(opcode);
        if opcode <= 63 {
            self.degree7_op_flags[idx]
        } else if opcode <= 79 {
            self.degree6_op_flags[idx]
        } else if opcode <= 95 {
            self.degree5_op_flags[idx]
        } else {
            self.degree4_op_flags[idx]
        }
    }
}

// LAWS
// ================================================================================================

/// The op bits of `dec` encode `op`, and the degree-reduction columns hold
/// `extra[0] = b6 * (1 - b5) * b4` and `extra[1] = b6 * b5`.
pub open spec fn encodes_opcode(dec: DecoderCols<Felt>, op: int) -> bool {
    &&& 0 <= op < 128
    &&& forall|k: int|
        0 <= k < 7 ==> #[trigger] dec.op_bits@[k].val() == (if opcode_bit(op, k) {
            1int
        } else {
            0int
        })
    &&& dec.extra[0].val() == (if opcode_bit(op, 6) && !opcode_bit(op, 5) && opcode_bit(op, 4) {
        1int
    } else {
        0int
    })
    &&& dec.extra[1].val() == (if opcode_bit(op, 6) && opcode_bit(op, 5) {
        1int
    } else {
        0int
    })
}

/// Bits `lo..=hi` of `x` and `op` agree.
pub open spec fn bits_match(x: int, op: int, lo: int, hi: int) -> bool {
    forall|k: int| lo <= k <= hi ==> opcode_bit(x, k) == opcode_bit(op, k)
}

/// On binary op bits, a selector product is one exactly when the bits agree, else zero.
proof fn lemma_sel_range_binary(bits: Seq<Felt>, x: int, op: int, lo: int, hi: int)
    requires
        0 <= lo <= hi < 7,
        bits.len() == 7,
        forall|k: int|
            0 <= k < 7 ==> #[trigger] bits[k].val() == (if opcode_bit(op, k) {
                1int
            } else {
                0int
            }),
    ensures
        sel_range(bits, x, lo, hi) == (if bits_match(x, op, lo, hi) {
            1int
        } else {
            0int
        }),
    decreases hi - lo,
{
    assert(bits[hi].val() == (if opcode_bit(op, hi) { 1int } else { 0int }));
    let s = sel(bits, x, hi);
    assert(s == (if opcode_bit(x, hi) == opcode_bit(op, hi) { 1int } else { 0int }));
    if hi <= lo {
        assert(bits_match(x, op, lo, hi) == (opcode_bit(x, hi) == opcode_bit(op, hi)));
    } else {
        lemma_sel_range_binary(bits, x, op, lo, hi - 1);
        let rest = sel_range(bits, x, lo, hi - 1);
        assert(sel_range(bits, x, lo, hi) == s * rest);
        if s == 1 {
            assert(s * rest == rest);
            if bits_match(x, op, lo, hi - 1) {
                assert(bits_match(x, op, lo, hi));
            } else {
                let k = choose|k: int| lo <= k <= hi - 1 && opcode_bit(x, k) != opcode_bit(op, k);
                assert(!bits_match(x, op, lo, hi));
            }
        } else {
            assert(s * rest == 0);
            assert(!bits_match(x, op, lo, hi));
        }
    }
}

/// Bit agreements of opcodes below 128, in terms of quotients and remainders.
proof fn lemma_opcode_bits_u8(a: u8, b: u8)
    by (bit_vector)
    requires
        a < 128,
        b < 128,
    ensures
        (a % 2 == b % 2 && (a / 2) % 2 == (b / 2) % 2 && (a / 4) % 2 == (b / 4) % 2 && (a / 8) % 2
            == (b / 8) % 2 && (a / 16) % 2 == (b / 16) % 2 && (a / 32) % 2 == (b / 32) % 2 && (a
            / 64) % 2 == (b / 64) % 2) <==> a == b,
        ((a / 2) % 2 == (b / 2) % 2 && (a / 4) % 2 == (b / 4) % 2 && (a / 8) % 2 == (b / 8) % 2
            && (a / 16) % 2 == (b / 16) % 2 && (a / 32) % 2 == (b / 32) % 2 && (a / 64) % 2 == (b
            / 64) % 2) <==> a / 2 == b / 2,
        (a % 2 == b % 2 && (a / 2) % 2 == (b / 2) % 2 && (a / 4) % 2 == (b / 4) % 2 && (a / 8) % 2
            == (b / 8) % 2) <==> a % 16 == b % 16,
        ((a / 4) % 2 == (b / 4) % 2 && (a / 8) % 2 == (b / 8) % 2 && (a / 16) % 2 == (b / 16) % 2)
            <==> (a / 4) % 8 == (b / 4) % 8,
{
}

/// Bit agreements of opcodes below 128, in terms of the opcodes.
proof fn lemma_opcode_bits(a: int, b: int)
    requires
        0 <= a < 128,
        0 <= b < 128,
    ensures
        bits_match(a, b, 0, 6) <==> a == b,
        bits_match(a, b, 1, 6) <==> a / 2 == b / 2,
        bits_match(a, b, 0, 3) <==> a % 16 == b % 16,
        bits_match(a, b, 2, 4) <==> (a / 4) % 8 == (b / 4) % 8,
{
    let (x, y) = (a as u8, b as u8);
    assert(x as int == a && y as int == b);
    lemma_opcode_bits_u8(x, y);
    assert(bits_match(a, b, 0, 6) <==> (forall|k: int| 0 <= k <= 6 ==> opcode_bit(a, k) == opcode_bit(b, k)));
    if bits_match(a, b, 0, 6) {
        assert(opcode_bit(a, 0) == opcode_bit(b, 0));
        assert(opcode_bit(a, 1) == opcode_bit(b, 1));
        assert(opcode_bit(a, 2) == opcode_bit(b, 2));
        assert(opcode_bit(a, 3) == opcode_bit(b, 3));
        assert(opcode_bit(a, 4) == opcode_bit(b, 4));
        assert(opcode_bit(a, 5) == opcode_bit(b, 5));
        assert(opcode_bit(a, 6) == opcode_bit(b, 6));
    }
    if bits_match(a, b, 1, 6) {
        assert(opcode_bit(a, 1) == opcode_bit(b, 1));
        assert(opcode_bit(a, 2) == opcode_bit(b, 2));
        assert(opcode_bit(a, 3) == opcode_bit(b, 3));
        assert(opcode_bit(a, 4) == opcode_bit(b, 4));
        assert(opcode_bit(a, 5) == opcode_bit(b, 5));
        assert(opcode_bit(a, 6) == opcode_bit(b, 6));
    }
    if bits_match(a, b, 0, 3) {
        assert(opcode_bit(a, 0) == opcode_bit(b, 0));
        assert(opcode_bit(a, 1) == opcode_bit(b, 1));
        assert(opcode_bit(a, 2) == opcode_bit(b, 2));
        assert(opcode_bit(a, 3) == opcode_bit(b, 3));
    }
    if bits_match(a, b, 2, 4) {
        assert(opcode_bit(a, 2) == opcode_bit(b, 2));
        assert(opcode_bit(a, 3) == opcode_bit(b, 3));
        assert(opcode_bit(a, 4) == opcode_bit(b, 4));
    }
}

/// On a row whose op bits encode an opcode, exactly one operation flag is one: the flag at
/// the opcode's index in the array of its degree. All other operation flags are zero.
pub proof fn lemma_op_flags_one_hot(
    flags: OpFlags,
    dec: DecoderCols<Felt>,
    stack: StackCols<Felt>,
    next: DecoderCols<Felt>,
    op: int,
)
    requires
        flags.flags_of(dec, stack, next),
        encodes_opcode(dec, op),
    ensures
        forall|i: int|
            0 <= i < NUM_DEGREE_7_OPS ==> #[trigger] flags.degree7_op_flags[i].val() == (if i
                == op {
                1int
            } else {
                0int
            }),
        forall|i: int|
            0 <= i < NUM_DEGREE_6_OPS ==> #[trigger] flags.degree6_op_flags[i].val() == (if 64
                <= op <= 79 && i == op_index(op) {
                1int
            } else {
                0int
            }),
        forall|i: int|
            0 <= i < NUM_DEGREE_5_OPS ==> #[trigger] flags.degree5_op_flags[i].val() == (if 80
                <= op <= 95 && i == op_index(op) {
                1int
            } else {
                0int
            }),
        forall|i: int|
            0 <= i < NUM_DEGREE_4_OPS ==> #[trigger] flags.degree4_op_flags[i].val() == (if 96
                <= op && i == op_index(op) {
                1int
            } else {
                0int
            }),
{
    lemma_degree7_one_hot(dec, op);
    lemma_degree6_one_hot(dec, op);
    lemma_degree5_one_hot(dec, op);
    lemma_degree4_one_hot(dec, op);
    assert forall|i: int| 0 <= i < NUM_DEGREE_7_OPS implies #[trigger] flags.degree7_op_flags[i].val() == (if i == op { 1int } else { 0int }) by {
        assert(flags.degree7_op_flags[i].val() == degree7_flag(dec.op_bits@, i));
    }
    assert forall|i: int| 0 <= i < NUM_DEGREE_6_OPS implies #[trigger] flags.degree6_op_flags[i].val() == (if 64 <= op <= 79 && i == op_index(op) { 1int } else { 0int }) by {
        assert(flags.degree6_op_flags[i].val() == degree6_flag(dec.op_bits@, 64 + 2 * i));
    }
    assert forall|i: int| 0 <= i < NUM_DEGREE_5_OPS implies #[trigger] flags.degree5_op_flags[i].val() == (if 80 <= op <= 95 && i == op_index(op) { 1int } else { 0int }) by {
        assert(flags.degree5_op_flags[i].val() == degree5_flag(dec.op_bits@, dec.extra[0], 80 + i));
    }
    assert forall|i: int| 0 <= i < NUM_DEGREE_4_OPS implies #[trigger] flags.degree4_op_flags[i].val() == (if 96 <= op && i == op_index(op) { 1int } else { 0int }) by {
        assert(flags.degree4_op_flags[i].val() == degree4_flag(dec.op_bits@, dec.extra[1], 96 + 4 * i));
    }
}

/// `op` is an opcode of the operation table: any 7-bit value of degree 7 or 5, an even one
/// of degree 6, or a multiple of four of degree 4.
pub open spec fn is_valid_opcode(op: int) -> bool {
    ||| 0 <= op <= 63
    ||| (64 <= op <= 79 && op % 2 == 0)
    ||| 80 <= op <= 95
    ||| (96 <= op <= 127 && op % 4 == 0)
}

/// On a row whose op bits encode a valid opcode `op`, the flag of every valid opcode is one
/// for `op` and zero for all others.
pub proof fn lemma_flag_of_one_hot(
    flags: OpFlags,
    dec: DecoderCols<Felt>,
    stack: StackCols<Felt>,
    next: DecoderCols<Felt>,
    op: int,
)
    requires
        flags.flags_of(dec, stack, next),
        encodes_opcode(dec, op),
        is_valid_opcode(op),
    ensures
        forall|x: int|
            #![trigger flags.flag_of(x)]
            is_valid_opcode(x) ==> flags.flag_of(x).val() == (if x == op {
                1int
            } else {
                0int
            }),
{
    lemma_op_flags_one_hot(flags, dec, stack, next, op);
    assert forall|x: int| #![trigger flags.flag_of(x)] is_valid_opcode(x) implies flags.flag_of(
        x,
    ).val() == (if x == op { 1int } else { 0int }) by {
        if x <= 63 {
        } else if x <= 79 {
            let i = op_index(x);
            assert(0 <= i < NUM_DEGREE_6_OPS);
            assert(flags.degree6_op_flags[i].val() == (if 64 <= op <= 79 && i == op_index(op) {
                1int
            } else {
                0int
            }));
        } else if x <= 95 {
            let i = op_index(x);
            assert(0 <= i < NUM_DEGREE_5_OPS);
            assert(flags.degree5_op_flags[i].val() == (if 80 <= op <= 95 && i == op_index(op) {
                1int
            } else {
                0int
            }));
        } else {
            let i = op_index(x);
            assert(0 <= i < NUM_DEGREE_4_OPS);
            assert(flags.degree4_op_flags[i].val() == (if 96 <= op && i == op_index(op) {
                1int
            } else {
                0int
            }));
        }
    }
}

proof fn lemma_degree7_one_hot(dec: DecoderCols<Felt>, op: int)
    requires
        encodes_opcode(dec, op),
    ensures
        forall|i: int| 0 <= i < 64 ==> #[trigger] degree7_flag(dec.op_bits@, i) == (if i == op { 1int } else { 0int }),
{
    let bits = dec.op_bits@;
    assert forall|i: int| 0 <= i < 64 implies #[trigger] degree7_flag(bits, i) == (if i == op { 1int } else { 0int }) by {
        lemma_sel_range_binary(bits, i, op, 0, 6);
        lemma_opcode_bits(i, op);
    }
}

proof fn lemma_degree6_one_hot(dec: DecoderCols<Felt>, op: int)
    requires
        encodes_opcode(dec, op),
    ensures
        forall|i: int| 0 <= i < 8 ==> #[trigger] degree6_flag(dec.op_bits@, 64 + 2 * i) == (if 64 <= op <= 79 && i == op_index(op) { 1int } else { 0int }),
{
    let bits = dec.op_bits@;
    assert forall|i: int| 0 <= i < 8 implies #[trigger] degree6_flag(bits, 64 + 2 * i) == (if 64 <= op <= 79 && i == op_index(op) { 1int } else { 0int }) by {
        lemma_sel_range_binary(bits, 64 + 2 * i, op, 1, 6);
        lemma_opcode_bits(64 + 2 * i, op);
    }
}

proof fn lemma_degree5_one_hot(dec: DecoderCols<Felt>, op: int)
    requires
        encodes_opcode(dec, op),
    ensures
        forall|i: int| 0 <= i < 16 ==> #[trigger] degree5_flag(dec.op_bits@, dec.extra[0], 80 + i) == (if 80 <= op <= 95 && i == op_index(op) { 1int } else { 0int }),
{
    let bits = dec.op_bits@;
    assert forall|i: int| 0 <= i < 16 implies #[trigger] degree5_flag(bits, dec.extra[0], 80 + i) == (if 80 <= op <= 95 && i == op_index(op) { 1int } else { 0int }) by {
        lemma_sel_range_binary(bits, 80 + i, op, 0, 3);
        lemma_opcode_bits(80 + i, op);
        let e = dec.extra[0].val();
        let m = sel_range(bits, 80 + i, 0, 3);
        assert(e * m == (if e == 1 && m == 1 { 1int } else { 0int })) by (nonlinear_arith)
            requires
                e == 0 || e == 1,
                m == 0 || m == 1,
        ;
    }
}

proof fn lemma_degree4_one_hot(dec: DecoderCols<Felt>, op: int)
    requires
        encodes_opcode(dec, op),
    ensures
        forall|i: int| 0 <= i < 8 ==> #[trigger] degree4_flag(dec.op_bits@, dec.extra[1], 96 + 4 * i) == (if 96 <= op && i == op_index(op) { 1int } else { 0int }),
{
    let bits = dec.op_bits@;
    assert forall|i: int| 0 <= i < 8 implies #[trigger] degree4_flag(bits, dec.extra[1], 96 + 4 * i) == (if 96 <= op && i == op_index(op) { 1int } else { 0int }) by {
        lemma_sel_range_binary(bits, 96 + 4 * i, op, 2, 4);
        lemma_opcode_bits(96 + 4 * i, op);
        let e = dec.extra[1].val();
        let m = sel_range(bits, 96 + 4 * i, 2, 4);
        assert(m * e == (if e == 1 && m == 1 { 1int } else { 0int })) by (nonlinear_arith)
            requires
                e == 0 || e == 1,
                m == 0 || m == 1,
        ;
    }
}

// SCALAR AND NEXT-ROW FLAGS
// ================================================================================================

/// Further bit agreements and bit patterns of opcodes below 128.
proof fn lemma_opcode_prefixes_u8(a: u8, b: u8)
    by (bit_vector)
    requires
        a < 128,
        b < 128,
    ensures
        ((a / 16) % 2 == (b / 16) % 2 && (a / 32) % 2 == (b / 32) % 2 && (a / 64) % 2 == (b / 64)
            % 2) <==> a / 16 == b / 16,
        ((a / 4) % 2 == (b / 4) % 2 && (a / 8) % 2 == (b / 8) % 2 && (a / 16) % 2 == (b / 16) % 2
            && (a / 32) % 2 == (b / 32) % 2 && (a / 64) % 2 == (b / 64) % 2) <==> a / 4 == b / 4,
        ((a / 4) % 2 == (b / 4) % 2 && (a / 8) % 2 == (b / 8) % 2) <==> (a / 4) % 4 == (b / 4)
            % 4,
        ((b / 16) % 2 == 1 && (b / 32) % 2 == 0 && (b / 64) % 2 == 1) <==> (80 <= b && b < 96),
        ((b / 32) % 2 == 1 && (b / 64) % 2 == 1) <==> 96 <= b,
        (96 <= b && (b / 16) % 2 == 1) <==> 112 <= b,
        ((a / 8) % 2 == (b / 8) % 2 && (a / 16) % 2 == (b / 16) % 2 && (a / 32) % 2 == (b / 32) % 2
            && (a / 64) % 2 == (b / 64) % 2) <==> a / 8 == b / 8,
{
}

/// The bit patterns of [`lemma_opcode_prefixes_u8`] in terms of `opcode_bit`.
proof fn lemma_opcode_prefixes(a: int, b: int)
    requires
        0 <= a < 128,
        0 <= b < 128,
    ensures
        bits_match(a, b, 4, 6) <==> a / 16 == b / 16,
        bits_match(a, b, 2, 6) <==> a / 4 == b / 4,
        bits_match(a, b, 2, 3) <==> (a / 4) % 4 == (b / 4) % 4,
        (opcode_bit(b, 6) && !opcode_bit(b, 5) && opcode_bit(b, 4)) <==> (80 <= b < 96),
        (opcode_bit(b, 6) && opcode_bit(b, 5)) <==> 96 <= b,
        (96 <= b && opcode_bit(b, 4)) <==> 112 <= b,
        bits_match(a, b, 3, 6) <==> a / 8 == b / 8,
{
    let (x, y) = (a as u8, b as u8);
    assert(x as int == a && y as int == b);
    lemma_opcode_prefixes_u8(x, y);
    if bits_match(a, b, 4, 6) {
        assert(opcode_bit(a, 4) == opcode_bit(b, 4));
        assert(opcode_bit(a, 5) == opcode_bit(b, 5));
        assert(opcode_bit(a, 6) == opcode_bit(b, 6));
    }
    if bits_match(a, b, 2, 6) {
        assert(opcode_bit(a, 2) == opcode_bit(b, 2));
        assert(opcode_bit(a, 3) == opcode_bit(b, 3));
        assert(opcode_bit(a, 4) == opcode_bit(b, 4));
        assert(opcode_bit(a, 5) == opcode_bit(b, 5));
        assert(opcode_bit(a, 6) == opcode_bit(b, 6));
    }
    if bits_match(a, b, 2, 3) {
        assert(opcode_bit(a, 2) == opcode_bit(b, 2));
        assert(opcode_bit(a, 3) == opcode_bit(b, 3));
    }
    if bits_match(a, b, 3, 6) {
        assert(opcode_bit(a, 3) == opcode_bit(b, 3));
        assert(opcode_bit(a, 4) == opcode_bit(b, 4));
        assert(opcode_bit(a, 5) == opcode_bit(b, 5));
        assert(opcode_bit(a, 6) == opcode_bit(b, 6));
    }
}

/// On a row encoding the valid opcode `op`, the flag of each valid opcode `x` is one for
/// `op` and zero otherwise.
proof fn lemma_op_flag_at(dec: DecoderCols<Felt>, op: int, x: int)
    requires
        encodes_opcode(dec, op),
        is_valid_opcode(op),
        is_valid_opcode(x),
    ensures
        op_flag(dec, x) == (if x == op {
            1int
        } else {
            0int
        }),
{
    lemma_degree7_one_hot(dec, op);
    lemma_degree6_one_hot(dec, op);
    lemma_degree5_one_hot(dec, op);
    lemma_degree4_one_hot(dec, op);
    if x <= 63 {
    } else if x <= 79 {
        let i = (x - 64) / 2;
        assert(64 + 2 * i == x);
        assert(degree6_flag(dec.op_bits@, 64 + 2 * i) == (if 64 <= op <= 79 && i == op_index(op) {
            1int
        } else {
            0int
        }));
    } else if x <= 95 {
        let i = x - 80;
        assert(degree5_flag(dec.op_bits@, dec.extra[0], 80 + i) == (if 80 <= op <= 95 && i
            == op_index(op) {
            1int
        } else {
            0int
        }));
    } else {
        let i = (x - 96) / 4;
        assert(96 + 4 * i == x);
        assert(degree4_flag(dec.op_bits@, dec.extra[1], 96 + 4 * i) == (if 96 <= op && i
            == op_index(op) {
            1int
        } else {
            0int
        }));
    }
}

/// On a row encoding `op`, the flag of the opcodes sharing bits `lo..=6` with `x` is one
/// exactly when `op` shares them.
proof fn lemma_prefix_flag_at(dec: DecoderCols<Felt>, op: int, x: int, lo: int)
    requires
        encodes_opcode(dec, op),
        0 <= lo <= 6,
    ensures
        prefix_flag(dec, x, lo) == (if bits_match(x, op, lo, 6) {
            1int
        } else {
            0int
        }),
{
    lemma_sel_range_binary(dec.op_bits@, x, op, lo, 6);
    vstd::arithmetic::div_mod::lemma_small_mod(0, p() as nat);
    vstd::arithmetic::div_mod::lemma_small_mod(1, p() as nat);
}

/// The opcodes whose execution shifts the whole stack right.
pub open spec fn shifts_right(op: int) -> bool {
    (48 <= op <= 63) || op == opcodes::PUSH as int || op == opcodes::U32SPLIT as int
}

/// The opcodes whose execution shifts the whole stack left, END excepted (END shifts left
/// when it ends a loop body).
pub open spec fn shifts_left(op: int) -> bool {
    ||| 32 <= op <= 47
    ||| op == opcodes::U32ADD3 as int
    ||| op == opcodes::U32MADD as int
    ||| op == opcodes::SPLIT as int
    ||| op == opcodes::LOOP as int
    ||| op == opcodes::REPEAT as int
    ||| op == opcodes::DYN as int
}

/// The control-flow opcodes.
pub open spec fn is_control_flow(op: int) -> bool {
    ||| op == opcodes::SPAN as int
    ||| op == opcodes::JOIN as int
    ||| op == opcodes::SPLIT as int
    ||| op == opcodes::LOOP as int
    ||| op == opcodes::END as int
    ||| op == opcodes::REPEAT as int
    ||| op == opcodes::RESPAN as int
    ||| op == opcodes::HALT as int
    ||| op == opcodes::DYN as int
    ||| op == opcodes::DYNCALL as int
    ||| op == opcodes::CALL as int
    ||| op == opcodes::SYSCALL as int
}

/// The scalar flags name their operations: on a row encoding a valid opcode `op`, the
/// right-shift flag is one exactly for PAD..=63, PUSH and U32SPLIT; the left-shift flag is
/// one exactly for ASSERT..=47, U32ADD3, U32MADD, SPLIT, LOOP, REPEAT and DYN, and is the
/// loop flag `hasher_state[5]` for END; the control-flow flag is one exactly for the
/// control-flow operations. All three are zero for every other opcode.
pub proof fn lemma_scalar_flags(
    flags: OpFlags,
    dec: DecoderCols<Felt>,
    stack: StackCols<Felt>,
    next: DecoderCols<Felt>,
    op: int,
)
    requires
        flags.flags_of(dec, stack, next),
        encodes_opcode(dec, op),
        is_valid_opcode(op),
    ensures
        flags.right_shift.val() == (if shifts_right(op) {
            1int
        } else {
            0int
        }),
        flags.left_shift.val() == (if shifts_left(op) {
            1int
        } else if op == opcodes::END as int {
            dec.hasher_state[5].val()
        } else {
            0int
        }),
        flags.control_flow.val() == (if is_control_flow(op) {
            1int
        } else {
            0int
        }),
{
    vstd::arithmetic::div_mod::lemma_small_mod(0, p() as nat);
    vstd::arithmetic::div_mod::lemma_small_mod(1, p() as nat);
    lemma_opcode_prefixes(opcodes::PAD as int, op);
    lemma_opcode_prefixes(opcodes::ASSERT as int, op);
    lemma_opcode_prefixes(opcodes::U32ADD3 as int, op);
    lemma_opcode_prefixes(opcodes::SPLIT as int, op);
    lemma_prefix_flag_at(dec, op, opcodes::PAD as int, 4);
    lemma_prefix_flag_at(dec, op, opcodes::ASSERT as int, 4);
    lemma_prefix_flag_at(dec, op, opcodes::U32ADD3 as int, 2);
    lemma_op_flag_at(dec, op, opcodes::PUSH as int);
    lemma_op_flag_at(dec, op, opcodes::U32SPLIT as int);
    lemma_op_flag_at(dec, op, opcodes::SPLIT as int);
    lemma_op_flag_at(dec, op, opcodes::LOOP as int);
    lemma_op_flag_at(dec, op, opcodes::REPEAT as int);
    lemma_op_flag_at(dec, op, opcodes::DYN as int);
    lemma_op_flag_at(dec, op, opcodes::END as int);
    lemma_op_flag_at(dec, op, opcodes::DYNCALL as int);
    lemma_op_flag_at(dec, op, opcodes::SYSCALL as int);
    lemma_op_flag_at(dec, op, opcodes::CALL as int);

    // right shift
    assert(flags.right_shift.val() == right_shift_scalar(dec));
    // left shift: END of a loop body contributes the loop flag
    let h5 = dec.hasher_state[5].val();
    dec.hasher_state[5].lemma_val_range();
    vstd::arithmetic::div_mod::lemma_small_mod(h5 as nat, p() as nat);
    assert(end_loop_flag(dec) == (if op == opcodes::END as int { h5 } else { 0int })) by {
        if op == opcodes::END as int {
            assert(1 * h5 == h5);
        } else {
            assert(0 * h5 == 0);
        }
    }
    assert(flags.left_shift.val() == left_shift_scalar(dec));
    // control flow
    let bits = dec.op_bits@;
    lemma_sel_range_binary(bits, opcodes::SPLIT as int, op, 2, 3);
    let m = sel_range(bits, opcodes::SPLIT as int, 2, 3);
    let e0 = dec.extra[0].val();
    let e1 = dec.extra[1].val();
    let b4 = bits[4].val();
    assert(b4 == (if opcode_bit(op, 4) { 1int } else { 0int }));
    assert(m * e0 == (if m == 1 && e0 == 1 { 1int } else { 0int })) by (nonlinear_arith)
        requires
            m == 0 || m == 1,
            e0 == 0 || e0 == 1,
    ;
    assert(b4 * e1 == (if b4 == 1 && e1 == 1 { 1int } else { 0int })) by (nonlinear_arith)
        requires
            b4 == 0 || b4 == 1,
            e1 == 0 || e1 == 1,
    ;
    assert(flags.control_flow.val() == control_flow_flag(dec));
}

/// The next-row flags name the next row's operation: on a next row encoding a valid opcode
/// `op_next`, the END, REPEAT, RESPAN and HALT next-row flags are one exactly for their own
/// opcode, whatever the current row holds.
pub proof fn lemma_next_row_flags(
    flags: OpFlags,
    dec: DecoderCols<Felt>,
    stack: StackCols<Felt>,
    next: DecoderCols<Felt>,
    op_next: int,
)
    requires
        flags.flags_of(dec, stack, next),
        encodes_opcode(next, op_next),
        is_valid_opcode(op_next),
    ensures
        flags.end_next.val() == (if op_next == opcodes::END as int { 1int } else { 0int }),
        flags.repeat_next.val() == (if op_next == opcodes::REPEAT as int { 1int } else { 0int }),
        flags.respan_next.val() == (if op_next == opcodes::RESPAN as int { 1int } else { 0int }),
        flags.halt_next.val() == (if op_next == opcodes::HALT as int { 1int } else { 0int }),
{
    lemma_next_flag_at(next, op_next, opcodes::END as int);
    lemma_next_flag_at(next, op_next, opcodes::REPEAT as int);
    lemma_next_flag_at(next, op_next, opcodes::RESPAN as int);
    lemma_next_flag_at(next, op_next, opcodes::HALT as int);
}

/// The next-row flag of the degree-4 control opcode `x` (a multiple of four from 112 on) on a
/// row encoding the valid opcode `op`.
proof fn lemma_next_flag_at(next: DecoderCols<Felt>, op: int, x: int)
    requires
        encodes_opcode(next, op),
        is_valid_opcode(op),
        112 <= x < 128,
        x % 4 == 0,
    ensures
        next_flag(next, x) == (if op == x { 1int } else { 0int }),
{
    vstd::arithmetic::div_mod::lemma_small_mod(0, p() as nat);
    vstd::arithmetic::div_mod::lemma_small_mod(1, p() as nat);
    lemma_opcode_prefixes(x, op);
    let bits = next.op_bits@;
    lemma_sel_range_binary(bits, x, op, 2, 3);
    let m = sel_range(bits, x, 2, 3);
    let e1 = next.extra[1].val();
    let b4 = bits[4].val();
    assert(b4 == (if opcode_bit(op, 4) { 1int } else { 0int }));
    assert(e1 * b4 * m == (if e1 == 1 && b4 == 1 && m == 1 { 1int } else { 0int }))
        by (nonlinear_arith)
        requires
            m == 0 || m == 1,
            e1 == 0 || e1 == 1,
            b4 == 0 || b4 == 1,
    ;
}

// COMPOSITE FLAGS
// ================================================================================================

/// Sum of `deltas(0..=d)` over the integers.
pub open spec fn delta_sum(deltas: spec_fn(int) -> int, d: int) -> int
    decreases d,
{
    if d <= 0 {
        deltas(0)
    } else {
        delta_sum(deltas, d - 1) + deltas(d)
    }
}

/// When every partial sum of the deltas up to `d` lies in `[0, p)`, the field flag at depth
/// `d` is the integer sum.
proof fn lemma_depth_flag_is_sum(deltas: spec_fn(int) -> int, d: int)
    requires
        0 <= d,
        forall|j: int| 0 <= j <= d ==> 0 <= #[trigger] delta_sum(deltas, j) < p(),
    ensures
        depth_flag(deltas, d) == delta_sum(deltas, d),
    decreases d,
{
    assert(0 <= delta_sum(deltas, d) < p());
    vstd::arithmetic::div_mod::lemma_small_mod(delta_sum(deltas, d) as nat, p() as nat);
    if d > 0 {
        lemma_depth_flag_is_sum(deltas, d - 1);
    }
}

/// Sums of pointwise equal deltas are equal.
proof fn lemma_delta_sum_congruent(f: spec_fn(int) -> int, g: spec_fn(int) -> int, d: int)
    requires
        0 <= d,
        forall|j: int| 0 <= j <= d ==> #[trigger] f(j) == g(j),
    ensures
        delta_sum(f, d) == delta_sum(g, d),
    decreases d,
{
    if d > 0 {
        lemma_delta_sum_congruent(f, g, d - 1);
        assert(f(d) == g(d));
    } else {
        assert(f(0) == g(0));
    }
}

/// `1` when `c` holds, else `0`.
pub open spec fn ind(c: bool) -> int {
    if c {
        1
    } else {
        0
    }
}

/// The no-shift delta at depth `d` of the operation `op` (with loop flag `h5`), as an integer.
pub open spec fn op_no_shift_delta(op: int, h5: int, d: int) -> int {
    let is = |x: u8| ind(op == x as int);
    let pair = |x: u8| ind(op / 2 == x as int / 2);
    if d == 0 {
        is(opcodes::NOOP) + is(opcodes::U32ASSERT2) + is(opcodes::MPVERIFY) + is(opcodes::SPAN)
            + is(opcodes::JOIN) + is(opcodes::EMIT) + is(opcodes::RESPAN) + is(opcodes::HALT)
            + is(opcodes::CALL) + ind(op == opcodes::END as int && h5 == 0)
    } else if d == 1 {
        ind(0 <= op < 8) - is(opcodes::NOOP)
    } else if d == 2 {
        is(opcodes::SWAP) + ind(op / 8 == opcodes::U32ADD as int / 8)
    } else if d == 3 {
        pair(opcodes::MOVUP2)
    } else if d == 4 {
        pair(opcodes::MOVUP3) + pair(opcodes::ADVPOPW) + pair(opcodes::SWAPW2) + is(
            opcodes::EXT2MUL,
        ) + is(opcodes::MRUPDATE)
    } else if d == 5 {
        pair(opcodes::MOVUP4)
    } else if d == 6 {
        pair(opcodes::MOVUP5)
    } else if d == 7 {
        pair(opcodes::MOVUP6)
    } else if d == 8 {
        pair(opcodes::MOVUP7) + is(opcodes::SWAPW) - is(opcodes::SWAPW2)
    } else if d == 9 {
        pair(opcodes::MOVUP8)
    } else if d == 12 {
        is(opcodes::SWAPW2) + is(opcodes::HPERM) - is(opcodes::SWAPW3)
    } else {
        0
    }
}

/// `op` is one of the MOVUP{n}/MOVDN{n} pairs.
pub open spec fn is_mov_pair(op: int) -> bool {
    ||| op / 2 == opcodes::MOVUP2 as int / 2
    ||| op / 2 == opcodes::MOVUP3 as int / 2
    ||| op / 2 == opcodes::MOVUP4 as int / 2
    ||| op / 2 == opcodes::MOVUP5 as int / 2
    ||| op / 2 == opcodes::MOVUP6 as int / 2
    ||| op / 2 == opcodes::MOVUP7 as int / 2
    ||| op / 2 == opcodes::MOVUP8 as int / 2
}

/// The left-shift delta at depth `d` of the operation `op` (with loop flag `h5`), as an
/// integer.
pub open spec fn op_left_shift_delta(op: int, h5: int, d: int) -> int {
    let is = |x: u8| ind(op == x as int);
    if d == 1 {
        is(opcodes::ASSERT) + ind(is_mov_pair(op) && op % 2 == 1) + is(opcodes::DROP) + is(
            opcodes::MSTORE,
        ) + is(opcodes::MSTOREW) + ind(op == 47) + is(opcodes::SPLIT) + is(opcodes::LOOP) + ind(
            op == opcodes::END as int && h5 == 1,
        ) + is(opcodes::DYN) + is(opcodes::DYNCALL)
    } else if d == 2 {
        ind(32 <= op < 40) - is(opcodes::ASSERT)
    } else if d == 3 {
        is(opcodes::CSWAP) + is(opcodes::U32ADD3) + is(opcodes::U32MADD) - is(opcodes::MOVDN2)
    } else if d == 4 {
        -is(opcodes::MOVDN3)
    } else if d == 5 {
        is(opcodes::MLOADW) - is(opcodes::MOVDN4)
    } else if d == 6 {
        -is(opcodes::MOVDN5)
    } else if d == 7 {
        -is(opcodes::MOVDN6)
    } else if d == 8 {
        -is(opcodes::MOVDN7)
    } else if d == 9 {
        is(opcodes::CSWAPW) - is(opcodes::MOVDN8)
    } else {
        0
    }
}

/// The right-shift delta at depth `d` of the operation `op`, as an integer.
pub open spec fn op_right_shift_delta(op: int, d: int) -> int {
    let is = |x: u8| ind(op == x as int);
    if d == 0 {
        ind(48 <= op < 64) + is(opcodes::PUSH) + ind(is_mov_pair(op) && op % 2 == 0)
    } else if d == 1 {
        is(opcodes::U32SPLIT)
    } else if d == 2 {
        -is(opcodes::MOVUP2)
    } else if d == 3 {
        -is(opcodes::MOVUP3)
    } else if d == 4 {
        -is(opcodes::MOVUP4)
    } else if d == 5 {
        -is(opcodes::MOVUP5)
    } else if d == 6 {
        -is(opcodes::MOVUP6)
    } else if d == 7 {
        -is(opcodes::MOVUP7)
    } else if d == 8 {
        -is(opcodes::MOVUP8)
    } else {
        0
    }
}

/// The no-shift deltas of `op` by depth.
pub open spec fn no_shift_deltas_of(op: int, h5: int) -> spec_fn(int) -> int {
    |j: int| op_no_shift_delta(op, h5, j)
}

/// The left-shift deltas of `op` by depth.
pub open spec fn left_shift_deltas_of(op: int, h5: int) -> spec_fn(int) -> int {
    |j: int| op_left_shift_delta(op, h5, j)
}

/// The right-shift deltas of `op` by depth.
pub open spec fn right_shift_deltas_of(op: int) -> spec_fn(int) -> int {
    |j: int| op_right_shift_delta(op, j)
}

/// On a row encoding a valid opcode `op` with a binary loop flag, each field delta is the
/// integer delta of `op`.
proof fn lemma_deltas_of_op(dec: DecoderCols<Felt>, op: int)
    requires
        encodes_opcode(dec, op),
        is_valid_opcode(op),
        dec.hasher_state[5].val() == 0 || dec.hasher_state[5].val() == 1,
    ensures
        forall|d: int|
            0 <= d < 16 ==> #[trigger] no_shift_delta(dec, d) == op_no_shift_delta(
                op,
                dec.hasher_state[5].val(),
                d,
            ) && left_shift_delta(dec, d) == op_left_shift_delta(op, dec.hasher_state[5].val(), d)
                && right_shift_delta(dec, d) == op_right_shift_delta(op, d),
{
    vstd::arithmetic::div_mod::lemma_small_mod(0, p() as nat);
    vstd::arithmetic::div_mod::lemma_small_mod(1, p() as nat);
    lemma_op_flag_at(dec, op, opcodes::NOOP as int);
    lemma_op_flag_at(dec, op, opcodes::U32ASSERT2 as int);
    lemma_op_flag_at(dec, op, opcodes::MPVERIFY as int);
    lemma_op_flag_at(dec, op, opcodes::SPAN as int);
    lemma_op_flag_at(dec, op, opcodes::JOIN as int);
    lemma_op_flag_at(dec, op, opcodes::EMIT as int);
    lemma_op_flag_at(dec, op, opcodes::RESPAN as int);
    lemma_op_flag_at(dec, op, opcodes::HALT as int);
    lemma_op_flag_at(dec, op, opcodes::CALL as int);
    lemma_op_flag_at(dec, op, opcodes::END as int);
    lemma_op_flag_at(dec, op, opcodes::SWAP as int);
    lemma_op_flag_at(dec, op, opcodes::EXT2MUL as int);
    lemma_op_flag_at(dec, op, opcodes::MRUPDATE as int);
    lemma_op_flag_at(dec, op, opcodes::SWAPW as int);
    lemma_op_flag_at(dec, op, opcodes::SWAPW2 as int);
    lemma_op_flag_at(dec, op, opcodes::SWAPW3 as int);
    lemma_op_flag_at(dec, op, opcodes::HPERM as int);
    lemma_op_flag_at(dec, op, opcodes::ASSERT as int);
    lemma_op_flag_at(dec, op, opcodes::DROP as int);
    lemma_op_flag_at(dec, op, opcodes::MSTORE as int);
    lemma_op_flag_at(dec, op, opcodes::MSTOREW as int);
    lemma_op_flag_at(dec, op, opcodes::SPLIT as int);
    lemma_op_flag_at(dec, op, opcodes::LOOP as int);
    lemma_op_flag_at(dec, op, opcodes::DYN as int);
    lemma_op_flag_at(dec, op, opcodes::DYNCALL as int);
    lemma_op_flag_at(dec, op, opcodes::CSWAP as int);
    lemma_op_flag_at(dec, op, opcodes::U32ADD3 as int);
    lemma_op_flag_at(dec, op, opcodes::U32MADD as int);
    lemma_op_flag_at(dec, op, opcodes::MOVDN2 as int);
    lemma_op_flag_at(dec, op, opcodes::MOVDN3 as int);
    lemma_op_flag_at(dec, op, opcodes::MOVDN4 as int);
    lemma_op_flag_at(dec, op, opcodes::MOVDN5 as int);
    lemma_op_flag_at(dec, op, opcodes::MOVDN6 as int);
    lemma_op_flag_at(dec, op, opcodes::MOVDN7 as int);
    lemma_op_flag_at(dec, op, opcodes::MOVDN8 as int);
    lemma_op_flag_at(dec, op, opcodes::MLOADW as int);
    lemma_op_flag_at(dec, op, opcodes::CSWAPW as int);
    lemma_op_flag_at(dec, op, opcodes::PUSH as int);
    lemma_op_flag_at(dec, op, opcodes::U32SPLIT as int);
    lemma_op_flag_at(dec, op, opcodes::MOVUP2 as int);
    lemma_op_flag_at(dec, op, opcodes::MOVUP3 as int);
    lemma_op_flag_at(dec, op, opcodes::MOVUP4 as int);
    lemma_op_flag_at(dec, op, opcodes::MOVUP5 as int);
    lemma_op_flag_at(dec, op, opcodes::MOVUP6 as int);
    lemma_op_flag_at(dec, op, opcodes::MOVUP7 as int);
    lemma_op_flag_at(dec, op, opcodes::MOVUP8 as int);
    lemma_op_flag_at(dec, op, 47);
    lemma_pair_flag_at(dec, op, opcodes::MOVUP2 as int);
    lemma_pair_flag_at(dec, op, opcodes::MOVUP3 as int);
    lemma_pair_flag_at(dec, op, opcodes::MOVUP4 as int);
    lemma_pair_flag_at(dec, op, opcodes::MOVUP5 as int);
    lemma_pair_flag_at(dec, op, opcodes::MOVUP6 as int);
    lemma_pair_flag_at(dec, op, opcodes::MOVUP7 as int);
    lemma_pair_flag_at(dec, op, opcodes::MOVUP8 as int);
    lemma_pair_flag_at(dec, op, opcodes::ADVPOPW as int);
    lemma_pair_flag_at(dec, op, opcodes::SWAPW2 as int);
    lemma_range_flag_at(dec, op, 0, 8);
    lemma_range_flag_at(dec, op, 32, 40);
    lemma_range_flag_at(dec, op, 48, 64);
    lemma_prefix_flag_at(dec, op, opcodes::U32ADD as int, 3);
    lemma_opcode_prefixes(opcodes::U32ADD as int, op);
    let h5 = dec.hasher_state[5].val();
    let b0 = dec.op_bits@[0].val();
    assert(b0 == (if op % 2 == 1 { 1int } else { 0int }));
    let e = op_flag(dec, opcodes::END as int);
    assert(fmul(e, h5) == ind(op == opcodes::END as int && h5 == 1)) by {
        assert(e * h5 == (if e == 1 && h5 == 1 { 1int } else { 0int })) by (nonlinear_arith)
            requires
                e == 0 || e == 1,
                h5 == 0 || h5 == 1,
        ;
    }
    assert(fsub(1, h5) == 1 - h5);
    assert(fmul(e, fsub(1, h5)) == ind(op == opcodes::END as int && h5 == 0)) by {
        let g = 1 - h5;
        assert(e * g == (if e == 1 && g == 1 { 1int } else { 0int })) by (nonlinear_arith)
            requires
                e == 0 || e == 1,
                g == 0 || g == 1,
        ;
    }
    let m = all_mov_pairs(dec);
    assert(m == ind(is_mov_pair(op)));
    assert(m % p() == m);
    assert(fmul(m % p(), b0) == ind(is_mov_pair(op) && op % 2 == 1)) by {
        assert(m * b0 == (if m == 1 && b0 == 1 { 1int } else { 0int })) by (nonlinear_arith)
            requires
                m == 0 || m == 1,
                b0 == 0 || b0 == 1,
        ;
    }
    assert(fsub(1, b0) == 1 - b0);
    assert(fmul(m % p(), fsub(1, b0)) == ind(is_mov_pair(op) && op % 2 == 0)) by {
        let g = 1 - b0;
        assert(m * g == (if m == 1 && g == 1 { 1int } else { 0int })) by (nonlinear_arith)
            requires
                m == 0 || m == 1,
                g == 0 || g == 1,
        ;
    }
}

/// The integer impact sums of a valid operation are binary and exclusive at every depth.
#[verifier::spinoff_prover]
#[verifier::rlimit(100)]
proof fn lemma_impact_sums(op: int, h5: int)
    requires
        is_valid_opcode(op),
        h5 == 0 || h5 == 1,
    ensures
        forall|d: int|
            0 <= d < 16 ==> {
                let a = #[trigger] delta_sum(no_shift_deltas_of(op, h5), d);
                let l = delta_sum(left_shift_deltas_of(op, h5), d);
                let r = delta_sum(right_shift_deltas_of(op), d);
                &&& 0 <= a <= 1 && 0 <= l <= 1 && 0 <= r <= 1
                &&& !(a == 1 && l == 1) && !(a == 1 && r == 1) && !(l == 1 && r == 1)
            },
{
    let ns = no_shift_deltas_of(op, h5);
    let ls = left_shift_deltas_of(op, h5);
    let rs = right_shift_deltas_of(op);
    assert({
        let (a, l, r) = (delta_sum(ns, 0), delta_sum(ls, 0), delta_sum(rs, 0));
        &&& 0 <= a <= 1 && 0 <= l <= 1 && 0 <= r <= 1
        &&& !(a == 1 && l == 1) && !(a == 1 && r == 1) && !(l == 1 && r == 1)
    });
    assert({
        let (a, l, r) = (delta_sum(ns, 1), delta_sum(ls, 1), delta_sum(rs, 1));
        &&& 0 <= a <= 1 && 0 <= l <= 1 && 0 <= r <= 1
        &&& !(a == 1 && l == 1) && !(a == 1 && r == 1) && !(l == 1 && r == 1)
    });
    assert({
        let (a, l, r) = (delta_sum(ns, 2), delta_sum(ls, 2), delta_sum(rs, 2));
        &&& 0 <= a <= 1 && 0 <= l <= 1 && 0 <= r <= 1
        &&& !(a == 1 && l == 1) && !(a == 1 && r == 1) && !(l == 1 && r == 1)
    });
    assert({
        let (a, l, r) = (delta_sum(ns, 3), delta_sum(ls, 3), delta_sum(rs, 3));
        &&& 0 <= a <= 1 && 0 <= l <= 1 && 0 <= r <= 1
        &&& !(a == 1 && l == 1) && !(a == 1 && r == 1) && !(l == 1 && r == 1)
    });
    assert({
        let (a, l, r) = (delta_sum(ns, 4), delta_sum(ls, 4), delta_sum(rs, 4));
        &&& 0 <= a <= 1 && 0 <= l <= 1 && 0 <= r <= 1
        &&& !(a == 1 && l == 1) && !(a == 1 && r == 1) && !(l == 1 && r == 1)
    });
    assert({
        let (a, l, r) = (delta_sum(ns, 5), delta_sum(ls, 5), delta_sum(rs, 5));
        &&& 0 <= a <= 1 && 0 <= l <= 1 && 0 <= r <= 1
        &&& !(a == 1 && l == 1) && !(a == 1 && r == 1) && !(l == 1 && r == 1)
    });
    assert({
        let (a, l, r) = (delta_sum(ns, 6), delta_sum(ls, 6), delta_sum(rs, 6));
        &&& 0 <= a <= 1 && 0 <= l <= 1 && 0 <= r <= 1
        &&& !(a == 1 && l == 1) && !(a == 1 && r == 1) && !(l == 1 && r == 1)
    });
    assert({
        let (a, l, r) = (delta_sum(ns, 7), delta_sum(ls, 7), delta_sum(rs, 7));
        &&& 0 <= a <= 1 && 0 <= l <= 1 && 0 <= r <= 1
        &&& !(a == 1 && l == 1) && !(a == 1 && r == 1) && !(l == 1 && r == 1)
    });
    assert({
        let (a, l, r) = (delta_sum(ns, 8), delta_sum(ls, 8), delta_sum(rs, 8));
        &&& 0 <= a <= 1 && 0 <= l <= 1 && 0 <= r <= 1
        &&& !(a == 1 && l == 1) && !(a == 1 && r == 1) && !(l == 1 && r == 1)
    });
    assert({
        let (a, l, r) = (delta_sum(ns, 9), delta_sum(ls, 9), delta_sum(rs, 9));
        &&& 0 <= a <= 1 && 0 <= l <= 1 && 0 <= r <= 1
        &&& !(a == 1 && l == 1) && !(a == 1 && r == 1) && !(l == 1 && r == 1)
    });
    assert({
        let (a, l, r) = (delta_sum(ns, 10), delta_sum(ls, 10), delta_sum(rs, 10));
        &&& 0 <= a <= 1 && 0 <= l <= 1 && 0 <= r <= 1
        &&& !(a == 1 && l == 1) && !(a == 1 && r == 1) && !(l == 1 && r == 1)
    });
    assert({
        let (a, l, r) = (delta_sum(ns, 11), delta_sum(ls, 11), delta_sum(rs, 11));
        &&& 0 <= a <= 1 && 0 <= l <= 1 && 0 <= r <= 1
        &&& !(a == 1 && l == 1) && !(a == 1 && r == 1) && !(l == 1 && r == 1)
    });
    assert({
        let (a, l, r) = (delta_sum(ns, 12), delta_sum(ls, 12), delta_sum(rs, 12));
        &&& 0 <= a <= 1 && 0 <= l <= 1 && 0 <= r <= 1
        &&& !(a == 1 && l == 1) && !(a == 1 && r == 1) && !(l == 1 && r == 1)
    });
    assert({
        let (a, l, r) = (delta_sum(ns, 13), delta_sum(ls, 13), delta_sum(rs, 13));
        &&& 0 <= a <= 1 && 0 <= l <= 1 && 0 <= r <= 1
        &&& !(a == 1 && l == 1) && !(a == 1 && r == 1) && !(l == 1 && r == 1)
    });
    assert({
        let (a, l, r) = (delta_sum(ns, 14), delta_sum(ls, 14), delta_sum(rs, 14));
        &&& 0 <= a <= 1 && 0 <= l <= 1 && 0 <= r <= 1
        &&& !(a == 1 && l == 1) && !(a == 1 && r == 1) && !(l == 1 && r == 1)
    });
    assert({
        let (a, l, r) = (delta_sum(ns, 15), delta_sum(ls, 15), delta_sum(rs, 15));
        &&& 0 <= a <= 1 && 0 <= l <= 1 && 0 <= r <= 1
        &&& !(a == 1 && l == 1) && !(a == 1 && r == 1) && !(l == 1 && r == 1)
    });

}

/// On a row encoding `op`, the flag of the pair `x`, `x + 1` (opcodes differing only in b0) is
/// one exactly when `op` is one of them.
proof fn lemma_pair_flag_at(dec: DecoderCols<Felt>, op: int, x: int)
    requires
        encodes_opcode(dec, op),
        0 <= x < 128,
    ensures
        pair_flag(dec, x) == (if op / 2 == x / 2 {
            1int
        } else {
            0int
        }),
{
    lemma_sel_range_binary(dec.op_bits@, x, op, 1, 6);
    lemma_opcode_bits(x, op);
    vstd::arithmetic::div_mod::lemma_small_mod(0, p() as nat);
    vstd::arithmetic::div_mod::lemma_small_mod(1, p() as nat);
}

/// On a row encoding the valid opcode `op`, the sum of the flags of the degree-7 opcodes
/// `lo..hi` is one exactly when `op` lies among them.
proof fn lemma_range_flag_at(dec: DecoderCols<Felt>, op: int, lo: int, hi: int)
    requires
        encodes_opcode(dec, op),
        is_valid_opcode(op),
        0 <= lo <= hi <= 64,
    ensures
        flag_range_sum(dec, lo, hi) == (if lo <= op < hi {
            1int
        } else {
            0int
        }),
    decreases hi - lo,
{
    if hi > lo {
        lemma_range_flag_at(dec, op, lo, hi - 1);
        lemma_op_flag_at(dec, op, hi - 1);
    }
}

/// The per-depth stack-impact flags of an operation are binary and exclusive: on a row
/// encoding a valid opcode, with a binary loop flag `hasher_state[5]`, at every depth `d` the
/// no-shift, left-shift and right-shift flags are each 0 or 1, and at most one of them is 1.
pub proof fn lemma_composite_flags_binary_disjoint(
    flags: OpFlags,
    dec: DecoderCols<Felt>,
    stack: StackCols<Felt>,
    next: DecoderCols<Felt>,
    op: int,
)
    requires
        flags.flags_of(dec, stack, next),
        encodes_opcode(dec, op),
        is_valid_opcode(op),
        dec.hasher_state[5].val() == 0 || dec.hasher_state[5].val() == 1,
    ensures
        forall|d: int|
            0 <= d < NUM_STACK_IMPACT_FLAGS ==> {
                let a = #[trigger] flags.no_shift_flags[d].val();
                let l = flags.left_shift_flags[d].val();
                let r = flags.right_shift_flags[d].val();
                &&& (a == 0 || a == 1) && (l == 0 || l == 1) && (r == 0 || r == 1)
                &&& a * l == 0 && a * r == 0 && l * r == 0
            },
{
    let h5 = dec.hasher_state[5].val();
    lemma_deltas_of_op(dec, op);
    lemma_impact_sums(op, h5);
    let ns = |j: int| no_shift_delta(dec, j);
    let ls = |j: int| left_shift_delta(dec, j);
    let rs = |j: int| right_shift_delta(dec, j);
    let ins = no_shift_deltas_of(op, h5);
    let ils = left_shift_deltas_of(op, h5);
    let irs = right_shift_deltas_of(op);
    assert forall|d: int| 0 <= d < NUM_STACK_IMPACT_FLAGS implies {
        let a = #[trigger] flags.no_shift_flags[d].val();
        let l = flags.left_shift_flags[d].val();
        let r = flags.right_shift_flags[d].val();
        &&& (a == 0 || a == 1) && (l == 0 || l == 1) && (r == 0 || r == 1)
        &&& a * l == 0 && a * r == 0 && l * r == 0
    } by {
        assert forall|j: int| 0 <= j <= d implies 0 <= #[trigger] delta_sum(ns, j) < p()
            && delta_sum(ns, j) == delta_sum(ins, j) by {
            assert forall|k: int| 0 <= k <= j implies #[trigger] ns(k) == ins(k) by {
                assert(no_shift_delta(dec, k) == op_no_shift_delta(op, h5, k));
            }
            lemma_delta_sum_congruent(ns, ins, j);
            assert(0 <= delta_sum(ins, j) <= 1);
        }
        assert forall|j: int| 0 <= j <= d implies 0 <= #[trigger] delta_sum(ls, j) < p()
            && delta_sum(ls, j) == delta_sum(ils, j) by {
            assert forall|k: int| 0 <= k <= j implies #[trigger] ls(k) == ils(k) by {
                assert(no_shift_delta(dec, k) == op_no_shift_delta(op, h5, k));
            }
            lemma_delta_sum_congruent(ls, ils, j);
            assert(0 <= delta_sum(ins, j) <= 1);
        }
        assert forall|j: int| 0 <= j <= d implies 0 <= #[trigger] delta_sum(rs, j) < p()
            && delta_sum(rs, j) == delta_sum(irs, j) by {
            assert forall|k: int| 0 <= k <= j implies #[trigger] rs(k) == irs(k) by {
                assert(no_shift_delta(dec, k) == op_no_shift_delta(op, h5, k));
            }
            lemma_delta_sum_congruent(rs, irs, j);
            assert(0 <= delta_sum(ins, j) <= 1);
        }
        lemma_depth_flag_is_sum(ns, d);
        lemma_depth_flag_is_sum(ls, d);
        lemma_depth_flag_is_sum(rs, d);
        assert(delta_sum(ns, d) == delta_sum(ins, d));
        assert(delta_sum(ls, d) == delta_sum(ils, d));
        assert(delta_sum(rs, d) == delta_sum(irs, d));
        assert(flags.no_shift_flags[d].val() == no_shift_flag(dec, d));
        assert(flags.left_shift_flags[d].val() == left_shift_flag(dec, d));
        assert(flags.right_shift_flags[d].val() == right_shift_flag(dec, d));
        assert(0 <= delta_sum(ins, d) <= 1);
        let (a, l, r) = (delta_sum(ns, d), delta_sum(ls, d), delta_sum(rs, d));
        assert(a * l == 0 && a * r == 0 && l * r == 0) by (nonlinear_arith)
            requires
                0 <= a <= 1 && 0 <= l <= 1 && 0 <= r <= 1,
                !(a == 1 && l == 1) && !(a == 1 && r == 1) && !(l == 1 && r == 1),
        ;
    }
}

// TEST ROWS
// ================================================================================================

/// Returns the 7-bit array representation of an opcode: element `k` is bit `k` (LSB first).
pub fn get_op_bits(opcode: usize) -> (r: [Felt; NUM_OP_BITS])
    requires
        opcode < 128,
    ensures
        forall|k: int|
            0 <= k < NUM_OP_BITS ==> #[trigger] r[k].val() == (if opcode_bit(opcode as int, k) {
                1int
            } else {
                0int
            }),
{
    let b0 = Felt::new_unchecked((opcode % 2) as u64);
    let b1 = Felt::new_unchecked(((opcode / 2) % 2) as u64);
    let b2 = Felt::new_unchecked(((opcode / 4) % 2) as u64);
    let b3 = Felt::new_unchecked(((opcode / 8) % 2) as u64);
    let b4 = Felt::new_unchecked(((opcode / 16) % 2) as u64);
    let b5 = Felt::new_unchecked(((opcode / 32) % 2) as u64);
    let b6 = Felt::new_unchecked(((opcode / 64) % 2) as u64);
    let r = [b0, b1, b2, b3, b4, b5, b6];
    assert forall|k: int| 0 <= k < NUM_OP_BITS implies #[trigger] r[k].val() == (if opcode_bit(
        opcode as int,
        k,
    ) {
        1int
    } else {
        0int
    }) by {
        let m = (opcode as int / bit_weight(k)) % 2;
        assert(0 <= m < 2);
        lemma_small_mod(m as nat, p() as nat);
        if k == 0 {
            assert(r[k] == b0);
        } else if k == 1 {
            assert(r[k] == b1);
        } else if k == 2 {
            assert(r[k] == b2);
        } else if k == 3 {
            assert(r[k] == b3);
        } else if k == 4 {
            assert(r[k] == b4);
        } else if k == 5 {
            assert(r[k] == b5);
        } else {
            assert(r[k] == b6);
        }
    }
    r
}

/// Product of two field elements that are zero or one is one exactly when both are one.
proof fn lemma_binary_product(a: int, b: int)
    requires
        a == 0 || a == 1,
        b == 0 || b == 1,
    ensures
        fmul(a, b) == (if a == 1 && b == 1 { 1int } else { 0int }),
        fsub(1, a) == (if a == 1 { 0int } else { 1int }),
{
}

/// Generates a test trace row with the op bits set for a given opcode.
///
/// The row holds the opcode's bits in the decoder op-bit columns, the two degree-reduction
/// columns `extra[0] = b6 * (1 - b5) * b4` and `extra[1] = b6 * b5`, and zero everywhere
/// else.
pub fn generate_test_row(opcode: usize) -> (r: MainCols<Felt>)
    requires
        opcode < 128,
    ensures
        encodes_opcode(r.decoder, opcode as int),
        r.to_seq().len() == TRACE_WIDTH,
        forall|i: int|
            0 <= i < TRACE_WIDTH && !(DECODER_TRACE_OFFSET + OP_BITS_OFFSET <= i
                < DECODER_TRACE_OFFSET + OP_BITS_OFFSET + NUM_OP_BITS) && i
                != DECODER_TRACE_OFFSET + OP_BITS_EXTRA_COLS_OFFSET && i != DECODER_TRACE_OFFSET
                + OP_BITS_EXTRA_COLS_OFFSET + 1 ==> (#[trigger] r.to_seq()[i]).val() == 0,
{
    let op_bits = get_op_bits(opcode);

    // A flat zeroed row.
    let mut row: Vec<Felt> = Vec::new();
    let mut i: usize = 0;
    while i < TRACE_WIDTH
        invariant
            i <= TRACE_WIDTH,
            row@.len() == i,
            forall|j: int| 0 <= j < i ==> (#[trigger] row@[j]).val() == 0,
        decreases TRACE_WIDTH - i,
    {
        row.push(Felt::zero());
        i = i + 1;
    }

    // Decoder op bits.
    let base = DECODER_TRACE_OFFSET + OP_BITS_OFFSET;
    let mut k: usize = 0;
    while k < NUM_OP_BITS
        invariant
            k <= NUM_OP_BITS,
            base == DECODER_TRACE_OFFSET + OP_BITS_OFFSET,
            row@.len() == TRACE_WIDTH,
            forall|j: int| 0 <= j < k ==> row@[base + j] == #[trigger] op_bits[j],
            forall|j: int|
                0 <= j < TRACE_WIDTH && !(base <= j < base + k) ==> (#[trigger] row@[j]).val()
                    == 0,
        decreases NUM_OP_BITS - k,
    {
        row.set(base + k, op_bits[k]);
        k = k + 1;
    }

    // Degree-reduction columns.
    let bit_6 = op_bits[6];
    let bit_5 = op_bits[5];
    let bit_4 = op_bits[4];
    let extra0 = bit_6.mul(Felt::one().sub(bit_5)).mul(bit_4);
    let extra1 = bit_6.mul(bit_5);
    proof {
        assert(bit_6.val() == (if opcode_bit(opcode as int, 6) { 1int } else { 0int }));
        assert(bit_5.val() == (if opcode_bit(opcode as int, 5) { 1int } else { 0int }));
        assert(bit_4.val() == (if opcode_bit(opcode as int, 4) { 1int } else { 0int }));
        lemma_binary_product(bit_5.val(), bit_5.val());
        lemma_binary_product(bit_6.val(), fsub(1, bit_5.val()));
        lemma_binary_product(fmul(bit_6.val(), fsub(1, bit_5.val())), bit_4.val());
        lemma_binary_product(bit_6.val(), bit_5.val());
    }
    row.set(DECODER_TRACE_OFFSET + OP_BITS_EXTRA_COLS_OFFSET, extra0);
    row.set(DECODER_TRACE_OFFSET + OP_BITS_EXTRA_COLS_OFFSET + 1, extra1);

    let r = MainCols::from_row(row.as_slice());
    proof {
        let dec = r.decoder;
        assert(r.to_seq() == row@);
        assert(dec.to_seq() == row@.subrange(6, 30));
        assert forall|j: int| 0 <= j < NUM_OP_BITS implies #[trigger] dec.op_bits@[j]
            == op_bits[j] by {
            assert(dec.to_seq()[1 + j] == dec.op_bits@[j]);
            assert(row@[base + j] == op_bits[j]);
        }
        assert(dec.to_seq()[22] == dec.extra[0]);
        assert(dec.to_seq()[23] == dec.extra[1]);
    }
    r
}

} // verus!
