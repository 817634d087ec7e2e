//! Column layout types for the main and auxiliary execution traces.
//!
//! These structs provide typed, named access to trace columns. A row of the trace is read
//! into them column by column; the index maps give, for every named column, its position in
//! the row.

use vstd::prelude::*;

use super::chiplets::columns::{
    AceCols, AceEvalCols, AceReadCols, BitwiseCols, ControllerCols, KernelRomCols, MemoryCols,
    PermutationCols,
};
use super::decoder::columns::DecoderCols;
use super::range::columns::RangeCols;
use super::stack::columns::StackCols;
use super::system::columns::SystemCols;
use crate::trace::{AUX_TRACE_WIDTH, TRACE_WIDTH};

verus! {

// MAIN TRACE COLUMN STRUCT
// ================================================================================================

/// Column layout of the main execution trace (72 columns).
///
/// Chiplet columns are a union: their interpretation depends on which chiplet is active.
/// Access goes through typed accessors like [`MainCols::permutation()`],
/// [`MainCols::controller()`], [`MainCols::bitwise()`], etc.
///
/// The `s_perm` column is separated from the chiplets array because it is consumed
/// exclusively by the chiplet selector system, not by any chiplet's constraint code.
pub struct MainCols<T> {
    pub system: SystemCols<T>,
    pub decoder: DecoderCols<T>,
    pub stack: StackCols<T>,
    pub range: RangeCols<T>,
    /// The 20 shared chiplet columns.
    pub chiplets: [T; 20],
    /// Permutation segment selector.
    pub s_perm: T,
}

impl<T> MainCols<T> {
    /// The columns in trace order.
    pub open spec fn to_seq(self) -> Seq<T> {
        self.system.to_seq() + self.decoder.to_seq() + self.stack.to_seq() + self.range.to_seq()
            + self.chiplets@ + seq![self.s_perm]
    }
}

impl<T: Copy> MainCols<T> {
    /// Reads a full main-trace row.
    pub fn from_row(row: &[T]) -> (r: Self)
        requires
            row@.len() == TRACE_WIDTH,
        ensures
            r.to_seq() == row@,
    {
        let system = SystemCols::from_slice(row, 0);
        let decoder = DecoderCols::from_slice(row, 6);
        let stack = StackCols::from_slice(row, 30);
        let range = RangeCols::from_slice(row, 49);
        let chiplets = [
            row[51],
            row[52],
            row[53],
            row[54],
            row[55],
            row[56],
            row[57],
            row[58],
            row[59],
            row[60],
            row[61],
            row[62],
            row[63],
            row[64],
            row[65],
            row[66],
            row[67],
            row[68],
            row[69],
            row[70],
        ];
        let r = MainCols { system, decoder, stack, range, chiplets, s_perm: row[71] };
        assert(chiplets@ =~= row@.subrange(51, 71));
        assert(r.to_seq() =~= row@);
        r
    }

    /// Returns the 6 chiplet selector columns `[s_ctrl, s_perm, s1, s2, s3, s4]`.
    ///
    /// `s_ctrl = chiplets[0]` and `s_perm` are the two physical selectors
    /// for the controller and permutation sub-chiplets. `s1..s4` subdivide the
    /// remaining chiplets under the virtual `s0 = 1 - (s_ctrl + s_perm)`.
    pub fn chiplet_selectors(&self) -> (r: [T; 6])
        ensures
            r@ == seq![
                self.chiplets[0],
                self.s_perm,
                self.chiplets[1],
                self.chiplets[2],
                self.chiplets[3],
                self.chiplets[4],
            ],
    {
        let r = [
            self.chiplets[0],
            self.s_perm,
            self.chiplets[1],
            self.chiplets[2],
            self.chiplets[3],
            self.chiplets[4],
        ];
        assert(r@ =~= seq![
            self.chiplets[0],
            self.s_perm,
            self.chiplets[1],
            self.chiplets[2],
            self.chiplets[3],
            self.chiplets[4],
        ]);
        r
    }

    /// Returns the bitwise chiplet columns (chiplets\[2..15\]).
    pub fn bitwise(&self) -> (r: BitwiseCols<T>)
        ensures
            r.to_seq() == self.chiplets@.subrange(2, 15),
            r == BitwiseCols::from_seq(self.chiplets@.subrange(2, 15)),
    {
        BitwiseCols::from_slice(self.chiplets.as_slice(), 2)
    }

    /// Returns the memory chiplet columns (chiplets\[3..18\]).
    pub fn memory(&self) -> (r: MemoryCols<T>)
        ensures
            r.to_seq() == self.chiplets@.subrange(3, 18),
            r == MemoryCols::from_seq(self.chiplets@.subrange(3, 18)),
    {
        MemoryCols::from_slice(self.chiplets.as_slice(), 3)
    }

    /// Returns the ACE chiplet columns (chiplets\[4..20\]).
    pub fn ace(&self) -> (r: AceCols<T>)
        ensures
            r.to_seq() == self.chiplets@.subrange(4, 20),
            r == AceCols::from_seq(self.chiplets@.subrange(4, 20)),
    {
        AceCols::from_slice(self.chiplets.as_slice(), 4)
    }

    /// Returns the kernel ROM chiplet columns (chiplets\[5..10\]).
    pub fn kernel_rom(&self) -> (r: KernelRomCols<T>)
        ensures
            r.to_seq() == self.chiplets@.subrange(5, 10),
            r == KernelRomCols::from_seq(self.chiplets@.subrange(5, 10)),
    {
        KernelRomCols::from_slice(self.chiplets.as_slice(), 5)
    }

    /// Returns the permutation sub-chiplet columns (chiplets\[1..20\]).
    pub fn permutation(&self) -> (r: PermutationCols<T>)
        ensures
            r.to_seq() == self.chiplets@.subrange(1, 20),
            r == PermutationCols::from_seq(self.chiplets@.subrange(1, 20)),
    {
        PermutationCols::from_slice(self.chiplets.as_slice(), 1)
    }

    /// Returns the controller sub-chiplet columns (chiplets\[1..20\]).
    pub fn controller(&self) -> (r: ControllerCols<T>)
        ensures
            r.to_seq() == self.chiplets@.subrange(1, 20),
    {
        ControllerCols::from_slice(self.chiplets.as_slice(), 1)
    }
}

// CONST INDEX MAP
// ================================================================================================

/// The sequence `[0, 1, ..., n - 1]`.
pub open spec fn index_seq(n: nat) -> Seq<usize> {
    Seq::new(n, |i: int| i as usize)
}

/// Generates an array `[0, 1, 2, ..., N-1]`.
pub fn indices_arr<const N: usize>() -> (r: [usize; N])
    ensures
        r@ == index_seq(N as nat),
{
    let mut arr: [usize; N] = vstd::array::array_fill_for_copy_types(0usize);
    let mut i: usize = 0;
    while i < N
        invariant
            i <= N,
            arr@.len() == N,
            forall|j: int| 0 <= j < i ==> arr@[j] == j,
        decreases N - i,
    {
        arr.set(i, i);
        i = i + 1;
    }
    assert(arr@ =~= index_seq(N as nat));
    arr
}

/// Number of columns in the main trace.
pub const NUM_MAIN_COLS: usize = 72;

/// Number of columns in the auxiliary trace.
pub const NUM_AUX_COLS: usize = 8;

/// Number of system columns.
pub const NUM_SYSTEM_COLS: usize = 6;

/// Number of decoder columns.
pub const NUM_DECODER_COLS: usize = 24;

/// Number of stack columns.
pub const NUM_STACK_COLS: usize = 19;

/// Number of range checker columns.
pub const NUM_RANGE_COLS: usize = 2;

/// Number of bitwise chiplet columns.
pub const NUM_BITWISE_COLS: usize = 13;

/// Number of memory chiplet columns.
pub const NUM_MEMORY_COLS: usize = 15;

/// Number of ACE chiplet columns.
pub const NUM_ACE_COLS: usize = 16;

/// Number of ACE READ overlay columns.
pub const NUM_ACE_READ_COLS: usize = 4;

/// Number of ACE EVAL overlay columns.
pub const NUM_ACE_EVAL_COLS: usize = 4;

/// Number of kernel ROM chiplet columns.
pub const NUM_KERNEL_ROM_COLS: usize = 5;

/// Index map of the main trace: each field holds its column index.
///
/// Example: `main_col_map().decoder.addr == 6`, `main_col_map().stack.top[0] == 30`.
pub fn main_col_map() -> (r: MainCols<usize>)
    ensures
        r.to_seq() == index_seq(NUM_MAIN_COLS as nat),
{
    let idx = indices_arr::<72>();
    MainCols::from_row(idx.as_slice())
}

// AUXILIARY TRACE COLUMN STRUCT
// ================================================================================================

/// Column layout of the auxiliary execution trace (8 columns).
pub struct AuxCols<T> {
    /// Decoder: block stack table running product.
    pub p1_block_stack: T,
    /// Decoder: block hash table running product.
    pub p2_block_hash: T,
    /// Decoder: op group table running product.
    pub p3_op_group: T,
    /// Stack overflow running product.
    pub stack_overflow: T,
    /// Range checker LogUp sum.
    pub range_check: T,
    /// Hash-kernel virtual table bus.
    pub hash_kernel_vtable: T,
    /// Chiplets bus running product.
    pub chiplets_bus: T,
    /// ACE wiring LogUp sum.
    pub ace_wiring: T,
}

impl<T> AuxCols<T> {
    /// The columns in trace order.
    pub open spec fn to_seq(self) -> Seq<T> {
        seq![
            self.p1_block_stack,
            self.p2_block_hash,
            self.p3_op_group,
            self.stack_overflow,
            self.range_check,
            self.hash_kernel_vtable,
            self.chiplets_bus,
            self.ace_wiring,
        ]
    }
}

impl<T: Copy> AuxCols<T> {
    /// Reads a full auxiliary-trace row.
    pub fn from_row(row: &[T]) -> (r: Self)
        requires
            row@.len() == AUX_TRACE_WIDTH,
        ensures
            r.to_seq() == row@,
    {
        let r = AuxCols {
            p1_block_stack: row[0],
            p2_block_hash: row[1],
            p3_op_group: row[2],
            stack_overflow: row[3],
            range_check: row[4],
            hash_kernel_vtable: row[5],
            chiplets_bus: row[6],
            ace_wiring: row[7],
        };
        assert(r.to_seq() =~= row@);
        r
    }
}

/// Index map of the auxiliary trace: each field holds its column index.
pub fn aux_col_map() -> (r: AuxCols<usize>)
    ensures
        r.to_seq() == index_seq(NUM_AUX_COLS as nat),
{
    let idx = indices_arr::<8>();
    AuxCols::from_row(idx.as_slice())
}

// LAWS
// ================================================================================================

/// Every layout struct spans exactly the number of columns its width constant names.
pub proof fn lemma_layout_widths<T>(
    main: MainCols<T>,
    aux: AuxCols<T>,
    bitwise: BitwiseCols<T>,
    memory: MemoryCols<T>,
    ace: AceCols<T>,
    ace_read: AceReadCols<T>,
    ace_eval: AceEvalCols<T>,
    kernel_rom: KernelRomCols<T>,
    permutation: PermutationCols<T>,
    controller: ControllerCols<T>,
)
    ensures
        main.to_seq().len() == NUM_MAIN_COLS,
        main.to_seq().len() == TRACE_WIDTH,
        aux.to_seq().len() == NUM_AUX_COLS,
        aux.to_seq().len() == AUX_TRACE_WIDTH,
        main.system.to_seq().len() == NUM_SYSTEM_COLS,
        main.decoder.to_seq().len() == NUM_DECODER_COLS,
        main.stack.to_seq().len() == NUM_STACK_COLS,
        main.range.to_seq().len() == NUM_RANGE_COLS,
        bitwise.to_seq().len() == NUM_BITWISE_COLS,
        memory.to_seq().len() == NUM_MEMORY_COLS,
        ace.to_seq().len() == NUM_ACE_COLS,
        ace_read.to_seq().len() == NUM_ACE_READ_COLS,
        ace_eval.to_seq().len() == NUM_ACE_EVAL_COLS,
        kernel_rom.to_seq().len() == NUM_KERNEL_ROM_COLS,
        permutation.to_seq().len() == 19,
        controller.to_seq().len() == 19,
{
}

/// The index map locates every column: reading a row into `MainCols` puts at each
/// position `k` of the layout the row entry at the index that the map holds there,
/// and that index is `k` itself.
pub proof fn lemma_main_col_map_locates_columns<T>(
    cols: MainCols<T>,
    map: MainCols<usize>,
    row: Seq<T>,
)
    requires
        cols.to_seq() == row,
        map.to_seq() == index_seq(NUM_MAIN_COLS as nat),
    ensures
        forall|k: int|
            0 <= k < NUM_MAIN_COLS ==> map.to_seq()[k] == k && #[trigger] cols.to_seq()[k]
                == row[map.to_seq()[k] as int],
        map.system.clk == 0,
        map.decoder.addr == 6,
        map.decoder.op_bits[0] == 7,
        map.stack.top[0] == 30,
        map.stack.b0 == 46,
        map.range.multiplicity == 49,
        map.chiplets[0] == 51,
        map.s_perm == 71,
{
    assert(map.to_seq()[0] == map.system.clk);
    assert(map.to_seq()[6] == map.decoder.addr);
    assert(map.to_seq()[7] == map.decoder.op_bits[0]);
    assert(map.to_seq()[30] == map.stack.top[0]);
    assert(map.to_seq()[46] == map.stack.b0);
    assert(map.to_seq()[49] == map.range.multiplicity);
    assert(map.to_seq()[51] == map.chiplets[0]);
    assert(map.to_seq()[71] == map.s_perm);
}

} // verus!
