//! Column structs for all chiplet sub-components and periodic columns.

use vstd::prelude::*;

use miden_core::chiplets::hasher::Hasher;

use crate::constraints::ext_field::QuadFeltExpr;
use crate::field::{Felt, GOLDILOCKS_PRIME, fmul, fsub, p};
use crate::trace::{
    BITWISE_CYCLE_LEN, CAPACITY_LEN, DIGEST_LEN, HASH_CYCLE_LEN, NUM_DECOMP_BITS, NUM_SELECTORS,
    RATE_LEN, STATE_WIDTH, WORD_SIZE,
};

verus! {

// PERMUTATION COLUMNS
// ================================================================================================

/// Permutation chiplet columns (19 columns), viewed from `chiplets[1..20]`.
///
/// Logical overlay for permutation segment rows (`s_perm = 1`). The 3 witness columns
/// `w0..w2` share the same physical columns as the controller's `s0/s1/s2` selectors,
/// and `multiplicity` shares the same physical column as the controller's `node_index`.
///
/// ```text
/// | witnesses[3] | state[12]                                    | extra cols      |
/// |              | rate0[4] (= digest) | rate1[4] | capacity[4] |                 |
/// | w0, w1, w2   | h0..h3              | h4..h7   | h8..h11     | m  --  --  --   |
/// ```
pub struct PermutationCols<T> {
    /// S-box witness columns (same physical columns as hasher selectors).
    pub witnesses: [T; NUM_SELECTORS],
    /// Poseidon2 state (12 field elements: 8 rate + 4 capacity).
    pub state: [T; STATE_WIDTH],
    /// Request multiplicity (same physical column as node_index).
    pub multiplicity: T,
    /// Physical slots for controller columns mrupdate_id, is_boundary, and direction_bit.
    /// These must be zero on permutation rows; read them through [`Self::unused_padding()`].
    pub _unused: [T; 3],
}

impl<T> PermutationCols<T> {
    /// The columns read from a sequence in trace order.
    pub open spec fn from_seq(s: Seq<T>) -> PermutationCols<T> {
        PermutationCols {
            witnesses: [s[0], s[1], s[2]],
            state: [s[3], s[4], s[5], s[6], s[7], s[8], s[9], s[10], s[11], s[12], s[13], s[14]],
            multiplicity: s[15],
            _unused: [s[16], s[17], s[18]],
        }
    }

    /// The columns in trace order.
    pub open spec fn to_seq(self) -> Seq<T> {
        self.witnesses@ + self.state@ + seq![self.multiplicity] + self._unused@
    }
}

impl<T: Copy> PermutationCols<T> {
    /// Reads the 19 permutation columns starting at `offset`.
    pub fn from_slice(row: &[T], offset: usize) -> (r: Self)
        requires
            offset + 19 <= row@.len(),
        ensures
            r.to_seq() == row@.subrange(offset as int, offset + 19),
            r == PermutationCols::from_seq(row@.subrange(offset as int, offset + 19)),
    {
        let o = offset;
        let r = PermutationCols {
            witnesses: [row[o], row[o + 1], row[o + 2]],
            state: [
                row[o + 3],
                row[o + 4],
                row[o + 5],
                row[o + 6],
                row[o + 7],
                row[o + 8],
                row[o + 9],
                row[o + 10],
                row[o + 11],
                row[o + 12],
                row[o + 13],
                row[o + 14],
            ],
            multiplicity: row[o + 15],
            _unused: [row[o + 16], row[o + 17], row[o + 18]],
        };
        assert(r.to_seq() =~= row@.subrange(offset as int, offset + 19));
        r
    }

    /// Returns the rate portion of the state (state[0..8]).
    pub fn rate(&self) -> (r: [T; RATE_LEN])
        ensures
            r@ == self.state@.subrange(0, 8),
    {
        let r = [
            self.state[0],
            self.state[1],
            self.state[2],
            self.state[3],
            self.state[4],
            self.state[5],
            self.state[6],
            self.state[7],
        ];
        assert(r@ =~= self.state@.subrange(0, 8));
        r
    }

    /// Returns the capacity portion of the state (state[8..12]).
    pub fn capacity(&self) -> (r: [T; CAPACITY_LEN])
        ensures
            r@ == self.state@.subrange(8, 12),
    {
        let r = [self.state[8], self.state[9], self.state[10], self.state[11]];
        assert(r@ =~= self.state@.subrange(8, 12));
        r
    }

    /// Returns the digest portion of the state (state[0..4]).
    pub fn digest(&self) -> (r: [T; DIGEST_LEN])
        ensures
            r@ == self.state@.subrange(0, 4),
    {
        let r = [self.state[0], self.state[1], self.state[2], self.state[3]];
        assert(r@ =~= self.state@.subrange(0, 4));
        r
    }

    /// Returns rate0 (state[0..4]).
    pub fn rate0(&self) -> (r: [T; DIGEST_LEN])
        ensures
            r@ == self.state@.subrange(0, 4),
    {
        let r = [self.state[0], self.state[1], self.state[2], self.state[3]];
        assert(r@ =~= self.state@.subrange(0, 4));
        r
    }

    /// Returns rate1 (state[4..8]).
    pub fn rate1(&self) -> (r: [T; DIGEST_LEN])
        ensures
            r@ == self.state@.subrange(4, 8),
    {
        let r = [self.state[4], self.state[5], self.state[6], self.state[7]];
        assert(r@ =~= self.state@.subrange(4, 8));
        r
    }

    /// Returns the 3 padding columns (mrupdate_id, is_boundary, direction_bit) that must
    /// be zero on permutation rows.
    pub fn unused_padding(&self) -> (r: [T; 3])
        ensures
            r == self._unused,
    {
        self._unused
    }
}

// CONTROLLER COLUMNS
// ================================================================================================

/// Controller chiplet columns (19 columns), viewed from `chiplets[1..20]`.
///
/// Logical overlay for controller rows (`s_ctrl = 1`). `s0` distinguishes input rows
/// (`s0 = 1`) from output/padding rows (`s0 = 0`).
///
/// ```text
/// | s0 s1 s2 | state[12]                                    | extra cols      |
/// |          | rate0[4] (= digest) | rate1[4] | capacity[4] |                 |
/// |          | h0..h3              | h4..h7   | h8..h11     | i  mr  bnd  dir |
/// ```
pub struct ControllerCols<T> {
    /// Hasher-internal sub-selector: `s0 = 1` on controller input rows, 0 on output/padding.
    pub s0: T,
    /// Operation sub-selector s1.
    pub s1: T,
    /// Operation sub-selector s2.
    pub s2: T,
    /// Poseidon2 state (12 field elements: 8 rate + 4 capacity).
    pub state: [T; STATE_WIDTH],
    /// Merkle tree node index.
    pub node_index: T,
    /// Domain separator for sibling table across MRUPDATE ops.
    pub mrupdate_id: T,
    /// 1 on boundary rows (first input or last output of each permutation).
    pub is_boundary: T,
    /// Direction bit for Merkle path verification.
    pub direction_bit: T,
}

impl<T> ControllerCols<T> {
    /// The columns in trace order.
    pub open spec fn to_seq(self) -> Seq<T> {
        seq![self.s0, self.s1, self.s2] + self.state@ + seq![
            self.node_index,
            self.mrupdate_id,
            self.is_boundary,
            self.direction_bit,
        ]
    }
}

impl<T: Copy> ControllerCols<T> {
    /// Reads the 19 controller columns starting at `offset`.
    pub fn from_slice(row: &[T], offset: usize) -> (r: Self)
        requires
            offset + 19 <= row@.len(),
        ensures
            r.to_seq() == row@.subrange(offset as int, offset + 19),
    {
        let o = offset;
        let r = ControllerCols {
            s0: row[o],
            s1: row[o + 1],
            s2: row[o + 2],
            state: [
                row[o + 3],
                row[o + 4],
                row[o + 5],
                row[o + 6],
                row[o + 7],
                row[o + 8],
                row[o + 9],
                row[o + 10],
                row[o + 11],
                row[o + 12],
                row[o + 13],
                row[o + 14],
            ],
            node_index: row[o + 15],
            mrupdate_id: row[o + 16],
            is_boundary: row[o + 17],
            direction_bit: row[o + 18],
        };
        assert(r.to_seq() =~= row@.subrange(offset as int, offset + 19));
        r
    }

    /// Returns the rate portion of the state (state[0..8]).
    pub fn rate(&self) -> (r: [T; RATE_LEN])
        ensures
            r@ == self.state@.subrange(0, 8),
    {
        let r = [
            self.state[0],
            self.state[1],
            self.state[2],
            self.state[3],
            self.state[4],
            self.state[5],
            self.state[6],
            self.state[7],
        ];
        assert(r@ =~= self.state@.subrange(0, 8));
        r
    }

    /// Returns the capacity portion of the state (state[8..12]).
    pub fn capacity(&self) -> (r: [T; CAPACITY_LEN])
        ensures
            r@ == self.state@.subrange(8, 12),
    {
        let r = [self.state[8], self.state[9], self.state[10], self.state[11]];
        assert(r@ =~= self.state@.subrange(8, 12));
        r
    }

    /// Returns the digest portion of the state (state[0..4]).
    pub fn digest(&self) -> (r: [T; DIGEST_LEN])
        ensures
            r@ == self.state@.subrange(0, 4),
    {
        let r = [self.state[0], self.state[1], self.state[2], self.state[3]];
        assert(r@ =~= self.state@.subrange(0, 4));
        r
    }

    /// Returns rate0 (state[0..4]).
    pub fn rate0(&self) -> (r: [T; DIGEST_LEN])
        ensures
            r@ == self.state@.subrange(0, 4),
    {
        let r = [self.state[0], self.state[1], self.state[2], self.state[3]];
        assert(r@ =~= self.state@.subrange(0, 4));
        r
    }

    /// Returns rate1 (state[4..8]).
    pub fn rate1(&self) -> (r: [T; DIGEST_LEN])
        ensures
            r@ == self.state@.subrange(4, 8),
    {
        let r = [self.state[4], self.state[5], self.state[6], self.state[7]];
        assert(r@ =~= self.state@.subrange(4, 8));
        r
    }
}

impl ControllerCols<Felt> {
    /// Merkle-update new-path flag: `s0 * s1 * s2`.
    ///
    /// Active on controller input rows that insert the new Merkle path into the sibling
    /// table (request/remove side of the running product).
    pub fn f_mu(&self) -> (r: Felt)
        ensures
            r.val() == fmul(fmul(self.s0.val(), self.s1.val()), self.s2.val()),
    {
        self.s0.mul(self.s1).mul(self.s2)
    }

    /// Merkle-verify / old-path flag: `s0 * s1 * (1 - s2)`.
    ///
    /// Active on controller input rows that extract the old Merkle path from the sibling
    /// table (response/add side of the running product).
    pub fn f_mv(&self) -> (r: Felt)
        ensures
            r.val() == fmul(fmul(self.s0.val(), self.s1.val()), fsub(1, self.s2.val())),
    {
        self.s0.mul(self.s1).mul(Felt::one().sub(self.s2))
    }
}

// BITWISE COLUMNS
// ================================================================================================

/// Bitwise chiplet columns (13 columns), viewed from `chiplets[2..15]`.
///
/// Bit decomposition columns (`a_bits`, `b_bits`) are in **little-endian** order:
/// `value = bits[0] + 2*bits[1] + 4*bits[2] + 8*bits[3]`.
pub struct BitwiseCols<T> {
    /// Operation flag: 0 = AND, 1 = XOR.
    pub op_flag: T,
    /// Aggregated input a.
    pub a: T,
    /// Aggregated input b.
    pub b: T,
    /// 4-bit decomposition of a.
    pub a_bits: [T; NUM_DECOMP_BITS],
    /// 4-bit decomposition of b.
    pub b_bits: [T; NUM_DECOMP_BITS],
    /// Previous aggregated output.
    pub prev_output: T,
    /// Current aggregated output.
    pub output: T,
}

impl<T> BitwiseCols<T> {
    /// The columns read from a sequence in trace order.
    pub open spec fn from_seq(s: Seq<T>) -> BitwiseCols<T> {
        BitwiseCols {
            op_flag: s[0],
            a: s[1],
            b: s[2],
            a_bits: [s[3], s[4], s[5], s[6]],
            b_bits: [s[7], s[8], s[9], s[10]],
            prev_output: s[11],
            output: s[12],
        }
    }

    /// The columns in trace order.
    pub open spec fn to_seq(self) -> Seq<T> {
        seq![self.op_flag, self.a, self.b] + self.a_bits@ + self.b_bits@ + seq![
            self.prev_output,
            self.output,
        ]
    }
}

impl<T: Copy> BitwiseCols<T> {
    /// Reads the 13 bitwise columns starting at `offset`.
    pub fn from_slice(row: &[T], offset: usize) -> (r: Self)
        requires
            offset + 13 <= row@.len(),
        ensures
            r.to_seq() == row@.subrange(offset as int, offset + 13),
            r == BitwiseCols::from_seq(row@.subrange(offset as int, offset + 13)),
    {
        let o = offset;
        let r = BitwiseCols {
            op_flag: row[o],
            a: row[o + 1],
            b: row[o + 2],
            a_bits: [row[o + 3], row[o + 4], row[o + 5], row[o + 6]],
            b_bits: [row[o + 7], row[o + 8], row[o + 9], row[o + 10]],
            prev_output: row[o + 11],
            output: row[o + 12],
        };
        assert(r.to_seq() =~= row@.subrange(offset as int, offset + 13));
        r
    }
}

// MEMORY COLUMNS
// ================================================================================================

/// Memory chiplet columns (15 columns), viewed from `chiplets[3..18]`.
///
/// When reading from a new word address (first access to a context/addr pair), the
/// `values` are initialized to zero.
pub struct MemoryCols<T> {
    /// Read/write flag (0 = write, 1 = read).
    pub is_read: T,
    /// Element/word flag (0 = element, 1 = word).
    pub is_word: T,
    /// Memory context ID.
    pub ctx: T,
    /// Word address.
    pub word_addr: T,
    /// First bit of the address index within the word.
    pub idx0: T,
    /// Second bit of the address index within the word.
    pub idx1: T,
    /// Clock cycle of the memory access.
    pub clk: T,
    /// Values stored at this context/word/clock after the operation.
    pub values: [T; WORD_SIZE],
    /// Lower 16 bits of delta.
    pub d0: T,
    /// Upper 16 bits of delta.
    pub d1: T,
    /// Inverse of delta.
    pub d_inv: T,
    /// Flag: same context and same word address as previous operation.
    pub is_same_ctx_and_addr: T,
}

impl<T> MemoryCols<T> {
    /// The columns read from a sequence in trace order.
    pub open spec fn from_seq(s: Seq<T>) -> MemoryCols<T> {
        MemoryCols {
            is_read: s[0],
            is_word: s[1],
            ctx: s[2],
            word_addr: s[3],
            idx0: s[4],
            idx1: s[5],
            clk: s[6],
            values: [s[7], s[8], s[9], s[10]],
            d0: s[11],
            d1: s[12],
            d_inv: s[13],
            is_same_ctx_and_addr: s[14],
        }
    }

    /// The columns in trace order.
    pub open spec fn to_seq(self) -> Seq<T> {
        seq![self.is_read, self.is_word, self.ctx, self.word_addr, self.idx0, self.idx1, self.clk]
            + self.values@ + seq![self.d0, self.d1, self.d_inv, self.is_same_ctx_and_addr]
    }
}

impl<T: Copy> MemoryCols<T> {
    /// Reads the 15 memory columns starting at `offset`.
    pub fn from_slice(row: &[T], offset: usize) -> (r: Self)
        requires
            offset + 15 <= row@.len(),
        ensures
            r.to_seq() == row@.subrange(offset as int, offset + 15),
            r == MemoryCols::from_seq(row@.subrange(offset as int, offset + 15)),
    {
        let o = offset;
        let r = MemoryCols {
            is_read: row[o],
            is_word: row[o + 1],
            ctx: row[o + 2],
            word_addr: row[o + 3],
            idx0: row[o + 4],
            idx1: row[o + 5],
            clk: row[o + 6],
            values: [row[o + 7], row[o + 8], row[o + 9], row[o + 10]],
            d0: row[o + 11],
            d1: row[o + 12],
            d_inv: row[o + 13],
            is_same_ctx_and_addr: row[o + 14],
        };
        assert(r.to_seq() =~= row@.subrange(offset as int, offset + 15));
        r
    }
}

// ACE COLUMNS
// ================================================================================================

/// ACE chiplet columns (16 columns), viewed from `chiplets[4..20]`.
///
/// The ACE (Arithmetic Circuit Evaluator) chiplet evaluates arithmetic circuits over
/// quadratic extension field elements. Each circuit evaluation consists of two phases:
///
/// 1. **READ** (`s_block=0`): loads wire values from memory into the chiplet.
/// 2. **EVAL** (`s_block=1`): evaluates arithmetic gates on loaded wire values.
///
/// The first 12 columns are common to both modes. The last 4 (`mode`) are overlaid
/// and reinterpreted depending on `s_block`:
///
/// ```text
/// mode idx | READ (s_block=0)       | EVAL (s_block=1)
/// ---------+------------------------+-------------------
///  0       | num_eval               | id_2
///  1       | (unused)               | v_2.0
///  2       | m_1 (wire-1 mult)      | v_2.1
///  3       | m_0 (wire-0 mult)      | m_0 (wire-0 mult)
/// ```
pub struct AceCols<T> {
    /// Start-of-circuit flag (1 on the first row of a new circuit evaluation).
    pub s_start: T,
    /// Block selector: 0 = READ (memory loads), 1 = EVAL (gate evaluation).
    pub s_block: T,
    /// Memory context for the current circuit evaluation.
    pub ctx: T,
    /// Memory pointer from which to read the next two wire values or instruction.
    pub ptr: T,
    /// Clock cycle at which the memory read is performed.
    pub clk: T,
    /// Arithmetic operation selector (determines which gate to evaluate in EVAL mode).
    pub eval_op: T,
    /// ID of the first wire (output wire / left operand).
    pub id_0: T,
    /// Value of the first wire (quadratic extension field element).
    pub v_0: QuadFeltExpr<T>,
    /// ID of the second wire (first input / left operand).
    pub id_1: T,
    /// Value of the second wire (quadratic extension field element).
    pub v_1: QuadFeltExpr<T>,
    /// Mode-dependent columns (interpretation depends on `s_block`; see table above).
    pub mode: [T; 4],
}

impl<T> AceCols<T> {
    /// The columns read from a sequence in trace order.
    pub open spec fn from_seq(s: Seq<T>) -> AceCols<T> {
        AceCols {
            s_start: s[0],
            s_block: s[1],
            ctx: s[2],
            ptr: s[3],
            clk: s[4],
            eval_op: s[5],
            id_0: s[6],
            v_0: QuadFeltExpr(s[7], s[8]),
            id_1: s[9],
            v_1: QuadFeltExpr(s[10], s[11]),
            mode: [s[12], s[13], s[14], s[15]],
        }
    }

    /// The columns in trace order.
    pub open spec fn to_seq(self) -> Seq<T> {
        seq![
            self.s_start,
            self.s_block,
            self.ctx,
            self.ptr,
            self.clk,
            self.eval_op,
            self.id_0,
            self.v_0.0,
            self.v_0.1,
            self.id_1,
            self.v_1.0,
            self.v_1.1,
        ] + self.mode@
    }
}

impl<T: Copy> AceCols<T> {
    /// Reads the 16 ACE columns starting at `offset`.
    pub fn from_slice(row: &[T], offset: usize) -> (r: Self)
        requires
            offset + 16 <= row@.len(),
        ensures
            r.to_seq() == row@.subrange(offset as int, offset + 16),
            r == AceCols::from_seq(row@.subrange(offset as int, offset + 16)),
    {
        let o = offset;
        let r = AceCols {
            s_start: row[o],
            s_block: row[o + 1],
            ctx: row[o + 2],
            ptr: row[o + 3],
            clk: row[o + 4],
            eval_op: row[o + 5],
            id_0: row[o + 6],
            v_0: QuadFeltExpr(row[o + 7], row[o + 8]),
            id_1: row[o + 9],
            v_1: QuadFeltExpr(row[o + 10], row[o + 11]),
            mode: [row[o + 12], row[o + 13], row[o + 14], row[o + 15]],
        };
        assert(r.to_seq() =~= row@.subrange(offset as int, offset + 16));
        r
    }

    /// Returns a READ-mode overlay of the mode-dependent columns.
    pub fn read(&self) -> (r: AceReadCols<T>)
        ensures
            r.to_seq() == self.mode@,
    {
        let r = AceReadCols {
            num_eval: self.mode[0],
            unused: self.mode[1],
            m_1: self.mode[2],
            m_0: self.mode[3],
        };
        assert(r.to_seq() =~= self.mode@);
        r
    }

    /// Returns an EVAL-mode overlay of the mode-dependent columns.
    pub fn eval(&self) -> (r: AceEvalCols<T>)
        ensures
            r.to_seq() == self.mode@,
    {
        let r = AceEvalCols {
            id_2: self.mode[0],
            v_2: QuadFeltExpr(self.mode[1], self.mode[2]),
            m_0: self.mode[3],
        };
        assert(r.to_seq() =~= self.mode@);
        r
    }
}

impl AceCols<Felt> {
    /// ACE read flag: `1 - s_block`.
    ///
    /// Active on ACE rows in READ mode (memory word reads for circuit inputs).
    pub fn f_read(&self) -> (r: Felt)
        ensures
            r.val() == fsub(1, self.s_block.val()),
    {
        Felt::one().sub(self.s_block)
    }

    /// ACE eval flag: `s_block`.
    ///
    /// Active on ACE rows in EVAL mode (circuit gate evaluation).
    pub fn f_eval(&self) -> (r: Felt)
        ensures
            r == self.s_block,
    {
        self.s_block
    }
}

/// READ mode overlay for ACE mode-dependent columns (4 columns).
///
/// In READ mode, the chiplet loads wire values from memory. The multiplicity columns
/// (`m_0`, `m_1`) track how many times each wire participates in circuit gates.
pub struct AceReadCols<T> {
    /// Number of EVAL rows that follow this READ block.
    pub num_eval: T,
    /// Unused column (padding for layout alignment with EVAL overlay).
    pub unused: T,
    /// Multiplicity of the second wire (wire 1).
    pub m_1: T,
    /// Multiplicity of the first wire (wire 0).
    pub m_0: T,
}

impl<T> AceReadCols<T> {
    /// The columns in trace order.
    pub open spec fn to_seq(self) -> Seq<T> {
        seq![self.num_eval, self.unused, self.m_1, self.m_0]
    }
}

/// EVAL mode overlay for ACE mode-dependent columns (4 columns).
///
/// In EVAL mode, the chiplet evaluates an arithmetic gate on three wires: two inputs
/// (`id_1`, `id_2`) and one output (`id_0`).
pub struct AceEvalCols<T> {
    /// ID of the third wire (second input / right operand).
    pub id_2: T,
    /// Value of the third wire.
    pub v_2: QuadFeltExpr<T>,
    /// Multiplicity of the first wire (wire 0).
    pub m_0: T,
}

impl<T> AceEvalCols<T> {
    /// The columns in trace order.
    pub open spec fn to_seq(self) -> Seq<T> {
        seq![self.id_2, self.v_2.0, self.v_2.1, self.m_0]
    }
}

/// The READ and EVAL overlays share their last column (`m_0`), and the READ columns
/// `num_eval` and `m_1` lie where EVAL keeps `id_2` and the second half of `v_2`.
pub proof fn lemma_ace_overlays_align<T>(cols: AceCols<T>, read: AceReadCols<T>, eval: AceEvalCols<T>)
    requires
        read.to_seq() == cols.mode@,
        eval.to_seq() == cols.mode@,
    ensures
        read.m_0 == eval.m_0,
        read.num_eval == eval.id_2,
        read.m_1 == eval.v_2.1,
{
    assert(read.to_seq()[3] == eval.to_seq()[3]);
    assert(read.to_seq()[0] == eval.to_seq()[0]);
    assert(read.to_seq()[2] == eval.to_seq()[2]);
}

// KERNEL ROM COLUMNS
// ================================================================================================

/// Kernel ROM chiplet columns (5 columns), viewed from `chiplets[5..10]`.
pub struct KernelRomCols<T> {
    /// First-row-of-hash flag.
    pub s_first: T,
    /// Kernel procedure root digest.
    pub root: [T; WORD_SIZE],
}

impl<T> KernelRomCols<T> {
    /// The columns read from a sequence in trace order.
    pub open spec fn from_seq(s: Seq<T>) -> KernelRomCols<T> {
        KernelRomCols { s_first: s[0], root: [s[1], s[2], s[3], s[4]] }
    }

    /// The columns in trace order.
    pub open spec fn to_seq(self) -> Seq<T> {
        seq![self.s_first] + self.root@
    }
}

impl<T: Copy> KernelRomCols<T> {
    /// Reads the 5 kernel ROM columns starting at `offset`.
    pub fn from_slice(row: &[T], offset: usize) -> (r: Self)
        requires
            offset + 5 <= row@.len(),
        ensures
            r.to_seq() == row@.subrange(offset as int, offset + 5),
            r == KernelRomCols::from_seq(row@.subrange(offset as int, offset + 5)),
    {
        let o = offset;
        let r = KernelRomCols {
            s_first: row[o],
            root: [row[o + 1], row[o + 2], row[o + 3], row[o + 4]],
        };
        assert(r.to_seq() =~= row@.subrange(offset as int, offset + 5));
        r
    }
}

// POSEIDON2 ROUND CONSTANTS
// ================================================================================================

/// Canonical value of Poseidon2 initial external round constant `[round][lane]`.
pub uninterp spec fn poseidon2_ark_ext_initial(round: usize, lane: usize) -> u64;

/// Canonical value of Poseidon2 internal round constant `[index]`.
pub uninterp spec fn poseidon2_ark_int(index: usize) -> u64;

/// Canonical value of Poseidon2 terminal external round constant `[round][lane]`.
pub uninterp spec fn poseidon2_ark_ext_terminal(round: usize, lane: usize) -> u64;

/// Reads `Hasher::ARK_EXT_INITIAL[round][lane]` of miden-core (the Poseidon2 initial
/// external round constants) as its canonical value, which lies below the modulus.
#[verifier::external_body]
fn ark_ext_initial(round: usize, lane: usize) -> (r: u64)
    requires
        round < 4,
        lane < STATE_WIDTH,
    ensures
        r == poseidon2_ark_ext_initial(round, lane),
        r < GOLDILOCKS_PRIME,
{
    Hasher::ARK_EXT_INITIAL[round][lane].as_canonical_u64()
}

/// Reads `Hasher::ARK_INT[index]` of miden-core (the Poseidon2 internal round constants)
/// as its canonical value, which lies below the modulus.
#[verifier::external_body]
pub(crate) fn ark_int(index: usize) -> (r: u64)
    requires
        index < 22,
    ensures
        r == poseidon2_ark_int(index),
        r < GOLDILOCKS_PRIME,
{
    Hasher::ARK_INT[index].as_canonical_u64()
}

/// Reads `Hasher::ARK_EXT_TERMINAL[round][lane]` of miden-core (the Poseidon2 terminal
/// external round constants) as its canonical value, which lies below the modulus.
#[verifier::external_body]
fn ark_ext_terminal(round: usize, lane: usize) -> (r: u64)
    requires
        round < 4,
        lane < STATE_WIDTH,
    ensures
        r == poseidon2_ark_ext_terminal(round, lane),
        r < GOLDILOCKS_PRIME,
{
    Hasher::ARK_EXT_TERMINAL[round][lane].as_canonical_u64()
}

// PERIODIC COLUMNS
// ================================================================================================

/// All chiplet periodic columns (18 columns).
///
/// Aggregates hasher (16 columns) and bitwise (2 columns) periodic values into a single
/// typed view.
#[derive(Clone, Copy)]
pub struct PeriodicCols<T> {
    /// Hasher periodic columns (cycle markers, step selectors, round constants).
    pub hasher: HasherPeriodicCols<T>,
    /// Bitwise periodic columns.
    pub bitwise: BitwisePeriodicCols<T>,
}

/// Hasher chiplet periodic columns (16 columns, period = 16 rows).
///
/// Provides step-type selectors and Poseidon2 round constants for the hasher chiplet.
/// The hasher operates on a 16-row cycle (15 transitions + 1 boundary row).
///
/// | Index | Name           | Description |
/// |-------|----------------|-------------|
/// | 0     | is_init_ext    | 1 on row 0 (init linear + first external round) |
/// | 1     | is_ext         | 1 on rows 1-3, 12-14 (single external round) |
/// | 2     | is_packed_int  | 1 on rows 4-10 (3 packed internal rounds) |
/// | 3     | is_int_ext     | 1 on row 11 (int22 + ext5 merged) |
/// | 4-15  | ark[0..12]     | Shared round constants |
#[derive(Clone, Copy)]
pub struct HasherPeriodicCols<T> {
    /// 1 on row 0 (init linear + first external round).
    pub is_init_ext: T,
    /// 1 on rows 1-3, 12-14 (single external round).
    pub is_ext: T,
    /// 1 on rows 4-10 (3 packed internal rounds).
    pub is_packed_int: T,
    /// 1 on row 11 (int22 + ext5 merged).
    pub is_int_ext: T,
    /// Shared round constants (12 lanes). Carry external round constants on external
    /// rows, and internal round constants in ark[0..2] on packed-internal rows.
    pub ark: [T; STATE_WIDTH],
}

/// Bitwise chiplet periodic columns (2 columns, period = 8 rows).
#[derive(Clone, Copy)]
pub struct BitwisePeriodicCols<T> {
    /// Marks first row of 8-row cycle: `[1, 0, 0, 0, 0, 0, 0, 0]`.
    pub k_first: T,
    /// Marks non-last rows of 8-row cycle: `[1, 1, 1, 1, 1, 1, 1, 0]`.
    pub k_transition: T,
}

/// Value of hasher step selector `sel` (0: init+ext, 1: ext, 2: packed internal,
/// 3: internal+ext) on `row` of the 16-row cycle.
pub open spec fn hasher_selector_value(sel: int, row: int) -> int {
    if sel == 0 {
        if row == 0 { 1 } else { 0 }
    } else if sel == 1 {
        if (1 <= row <= 3) || (12 <= row <= 14) { 1 } else { 0 }
    } else if sel == 2 {
        if 4 <= row <= 10 { 1 } else { 0 }
    } else {
        if row == 11 { 1 } else { 0 }
    }
}

/// Value of round-constant lane `lane` on `row` of the 16-row cycle.
///
/// ```text
/// Row  Transition       Constants
/// 0-3  init+ext1..ext4  ARK_EXT_INITIAL[row]
/// 4-10 3x internal      ARK_INT[3*(row-4) + lane] in lanes 0..3, zero elsewhere
/// 11   int22 + ext5     ARK_EXT_TERMINAL[0]
/// 12-14 ext6-ext8       ARK_EXT_TERMINAL[row - 11]
/// 15   boundary         zero
/// ```
pub open spec fn hasher_ark_value(lane: int, row: int) -> int {
    if 0 <= row <= 3 {
        poseidon2_ark_ext_initial(row as usize, lane as usize) as int
    } else if 4 <= row <= 10 {
        if lane < 3 {
            poseidon2_ark_int((3 * (row - 4) + lane) as usize) as int
        } else {
            0
        }
    } else if 11 <= row <= 14 {
        poseidon2_ark_ext_terminal((row - 11) as usize, lane as usize) as int
    } else {
        0
    }
}

/// Value of bitwise periodic column `col` (0: k_first, 1: k_transition) on `row` of the
/// 8-row cycle.
pub open spec fn bitwise_periodic_value(col: int, row: int) -> int {
    if col == 0 {
        if row == 0 { 1 } else { 0 }
    } else {
        if row < 7 { 1 } else { 0 }
    }
}

/// Value of periodic column `col` (in the order of [`PeriodicCols`]) on `row`.
pub open spec fn periodic_value(col: int, row: int) -> int {
    if col < 4 {
        hasher_selector_value(col, row)
    } else if col < 16 {
        hasher_ark_value(col - 4, row)
    } else {
        bitwise_periodic_value(col - 16, row)
    }
}

/// The column holds `len` rows whose values are those of periodic column `col`.
pub open spec fn is_periodic_column(v: Seq<Felt>, col: int, len: int) -> bool {
    &&& v.len() == len
    &&& forall|row: int| 0 <= row < len ==> #[trigger] v[row].val() == periodic_value(col, row)
}

/// Builds one 16-row hasher selector column.
fn hasher_selector_column(sel: usize) -> (r: Vec<Felt>)
    requires
        sel < 4,
    ensures
        is_periodic_column(r@, sel as int, HASH_CYCLE_LEN as int),
{
    let mut col: Vec<Felt> = Vec::new();
    let mut row: usize = 0;
    while row < HASH_CYCLE_LEN
        invariant
            sel < 4,
            row <= HASH_CYCLE_LEN,
            col@.len() == row,
            forall|j: int| 0 <= j < row ==> #[trigger] col@[j].val() == periodic_value(sel as int, j),
        decreases HASH_CYCLE_LEN - row,
    {
        let on = if sel == 0 {
            row == 0
        } else if sel == 1 {
            (1 <= row && row <= 3) || (12 <= row && row <= 14)
        } else if sel == 2 {
            4 <= row && row <= 10
        } else {
            row == 11
        };
        let v = if on { Felt::one() } else { Felt::zero() };
        col.push(v);
        row = row + 1;
    }
    col
}

/// Builds the 16-row round-constant column of `lane`.
fn hasher_ark_column(lane: usize) -> (r: Vec<Felt>)
    requires
        lane < STATE_WIDTH,
    ensures
        is_periodic_column(r@, lane + 4, HASH_CYCLE_LEN as int),
{
    let mut col: Vec<Felt> = Vec::new();
    let mut row: usize = 0;
    while row < HASH_CYCLE_LEN
        invariant
            lane < STATE_WIDTH,
            row <= HASH_CYCLE_LEN,
            col@.len() == row,
            forall|j: int| 0 <= j < row ==> #[trigger] col@[j].val() == periodic_value(lane + 4, j),
        decreases HASH_CYCLE_LEN - row,
    {
        let value: u64 = if row <= 3 {
            ark_ext_initial(row, lane)
        } else if row <= 10 {
            if lane < 3 {
                ark_int(3 * (row - 4) + lane)
            } else {
                0
            }
        } else if row <= 14 {
            ark_ext_terminal(row - 11, lane)
        } else {
            0
        };
        let v = Felt::new_unchecked(value);
        proof {
            vstd::arithmetic::div_mod::lemma_small_mod(value as nat, p() as nat);
        }
        col.push(v);
        row = row + 1;
    }
    col
}

impl HasherPeriodicCols<Vec<Felt>> {
    /// Generate periodic columns for the Poseidon2 hasher chiplet.
    ///
    /// All columns repeat every 16 rows, matching one permutation cycle. The 4 selector
    /// columns identify the row type; the 12 ark columns carry either external round
    /// constants (on external rows) or internal round constants in `ark[0..3]` (on
    /// packed-internal rows).
    pub fn new() -> (r: Self)
        ensures
            is_periodic_column(r.is_init_ext@, 0, HASH_CYCLE_LEN as int),
            is_periodic_column(r.is_ext@, 1, HASH_CYCLE_LEN as int),
            is_periodic_column(r.is_packed_int@, 2, HASH_CYCLE_LEN as int),
            is_periodic_column(r.is_int_ext@, 3, HASH_CYCLE_LEN as int),
            forall|lane: int|
                0 <= lane < STATE_WIDTH ==> is_periodic_column(
                    #[trigger] r.ark[lane]@,
                    lane + 4,
                    HASH_CYCLE_LEN as int,
                ),
    {
        let ark = [
            hasher_ark_column(0),
            hasher_ark_column(1),
            hasher_ark_column(2),
            hasher_ark_column(3),
            hasher_ark_column(4),
            hasher_ark_column(5),
            hasher_ark_column(6),
            hasher_ark_column(7),
            hasher_ark_column(8),
            hasher_ark_column(9),
            hasher_ark_column(10),
            hasher_ark_column(11),
        ];
        HasherPeriodicCols {
            is_init_ext: hasher_selector_column(0),
            is_ext: hasher_selector_column(1),
            is_packed_int: hasher_selector_column(2),
            is_int_ext: hasher_selector_column(3),
            ark,
        }
    }
}

/// Builds one 8-row bitwise periodic column.
fn bitwise_column(col: usize) -> (r: Vec<Felt>)
    requires
        col < 2,
    ensures
        is_periodic_column(r@, col + 16, BITWISE_CYCLE_LEN as int),
{
    let mut v: Vec<Felt> = Vec::new();
    let mut row: usize = 0;
    while row < BITWISE_CYCLE_LEN
        invariant
            col < 2,
            row <= BITWISE_CYCLE_LEN,
            v@.len() == row,
            forall|j: int| 0 <= j < row ==> #[trigger] v@[j].val() == periodic_value(col + 16, j),
        decreases BITWISE_CYCLE_LEN - row,
    {
        let on = if col == 0 { row == 0 } else { row < 7 };
        v.push(if on { Felt::one() } else { Felt::zero() });
        row = row + 1;
    }
    v
}

impl BitwisePeriodicCols<Vec<Felt>> {
    /// Generate periodic columns for the bitwise chiplet.
    pub fn new() -> (r: Self)
        ensures
            is_periodic_column(r.k_first@, 16, BITWISE_CYCLE_LEN as int),
            is_periodic_column(r.k_transition@, 17, BITWISE_CYCLE_LEN as int),
    {
        BitwisePeriodicCols { k_first: bitwise_column(0), k_transition: bitwise_column(1) }
    }
}

impl PeriodicCols<Vec<Felt>> {
    /// Generate all chiplet periodic columns as a flat list: the 4 hasher selectors, the 12
    /// round-constant lanes, then `k_first` and `k_transition`.
    pub fn periodic_columns() -> (r: Vec<Vec<Felt>>)
        ensures
            r.len() == NUM_PERIODIC_COLUMNS,
            forall|c: int|
                0 <= c < 16 ==> is_periodic_column(#[trigger] r[c]@, c, HASH_CYCLE_LEN as int),
            forall|c: int|
                16 <= c < 18 ==> is_periodic_column(#[trigger] r[c]@, c, BITWISE_CYCLE_LEN as int),
    {
        let mut r: Vec<Vec<Felt>> = Vec::new();
        let mut sel: usize = 0;
        while sel < 4
            invariant
                sel <= 4,
                r.len() == sel,
                forall|c: int|
                    0 <= c < sel ==> is_periodic_column(#[trigger] r[c]@, c, HASH_CYCLE_LEN as int),
            decreases 4 - sel,
        {
            r.push(hasher_selector_column(sel));
            sel = sel + 1;
        }
        let mut lane: usize = 0;
        while lane < STATE_WIDTH
            invariant
                lane <= STATE_WIDTH,
                r.len() == lane + 4,
                forall|c: int|
                    0 <= c < lane + 4 ==> is_periodic_column(
                        #[trigger] r[c]@,
                        c,
                        HASH_CYCLE_LEN as int,
                    ),
            decreases STATE_WIDTH - lane,
        {
            r.push(hasher_ark_column(lane));
            lane = lane + 1;
        }
        let b = BitwisePeriodicCols::new();
        r.push(b.k_first);
        r.push(b.k_transition);
        r
    }
}

/// Total number of periodic columns across all chiplets.
pub const NUM_PERIODIC_COLUMNS: usize = 18;

/// On every row of the hasher cycle each step selector is binary and at most one of them
/// is active; the boundary row (15) carries no selector and no round constant.
pub proof fn lemma_hasher_step_selectors_exclusive(row: int)
    requires
        0 <= row < HASH_CYCLE_LEN,
    ensures
        forall|sel: int| 0 <= sel < 4 ==> #[trigger] hasher_selector_value(sel, row) == 0
            || hasher_selector_value(sel, row) == 1,
        hasher_selector_value(0, row) + hasher_selector_value(1, row) + hasher_selector_value(
            2,
            row,
        ) + hasher_selector_value(3, row) <= 1,
        row == 15 ==> forall|lane: int| #[trigger] hasher_ark_value(lane, row) == 0,
{
}

} // verus!
