//! Memory chiplet constraints.
//!
//! The memory chiplet provides linear read-write random access memory.
//! Memory is element-addressable with addresses in range [0, 2^32).
//!
//! ## Column Layout (within chiplet, offset by selectors)
//!
//! | Column    | Purpose                                        |
//! |-----------|------------------------------------------------|
//! | is_read   | Read/write selector: 1=read, 0=write           |
//! | is_word   | Element/word access: 0=element, 1=word         |
//! | ctx       | Context ID                                     |
//! | word_addr | Word address                                   |
//! | idx0, idx1 | Element index bits (0-3)                      |
//! | clk       | Clock cycle of operation                       |
//! | v0-v3     | Memory word values                             |
//! | d0, d1    | Lower/upper 16 bits of the active delta        |
//! | d_inv     | Inverse of the active delta                    |
//! | f_sca     | Same context/addr flag (`is_same_ctx_and_addr`) |

use vstd::prelude::*;

use crate::constraints::chiplets::columns::MemoryCols;
use crate::constraints::chiplets::selectors::ChipletFlags;
use crate::constraints::columns::MainCols;
use crate::constraints::evaluator::{ConstraintEvaluator, bool_check};
use crate::constraints::utils::BoolNot;
use crate::field::{Felt, fadd, fmul, fsub};

verus! {

/// `2^16`.
pub const TWO_POW_16: u32 = 65536;

/// One-hot selector of word element `i` by the index bits: `idx = 2 * idx1 + idx0`.
pub open spec fn element_selected(c: MemoryCols<Felt>, i: int) -> int {
    let idx0 = c.idx0.val();
    let idx1 = c.idx1.val();
    let b0 = if i == 0 || i == 2 { fsub(1, idx0) } else { idx0 };
    let b1 = if i < 2 { fsub(1, idx1) } else { idx1 };
    fmul(b1, b0)
}

/// `not_written[i] = is_read + is_write * is_element * (1 - selected[i])`: one when word
/// element `i` is not the target of a write and must be constrained.
pub open spec fn not_written(c: MemoryCols<Felt>, i: int) -> int {
    let is_read = c.is_read.val();
    let is_element_write = fmul(fsub(1, is_read), fsub(1, c.is_word.val()));
    fadd(is_read, fmul(is_element_write, fsub(1, element_selected(c, i))))
}

/// Compute "not written" flags for each of the 4 word elements.
///
/// Returns `not_written[i]`: 1 when `v[i]` is NOT the write target (must be constrained),
/// 0 when `v[i]` IS being written (unconstrained).
///
/// The three operation modes:
/// - **Read** (`is_read=1`): all flags = 1 (reads don't change any value)
/// - **Word write** (`is_word=1`): all flags = 0 (all 4 elements are written)
/// - **Element write** (`is_word=0, is_read=0`): flag = 0 for the selected element, 1 for the
///   other three
fn compute_not_written_flags(cols: &MemoryCols<Felt>) -> (r: [Felt; 4])
    ensures
        forall|i: int| 0 <= i < 4 ==> #[trigger] r[i].val() == not_written(*cols, i),
{
    let is_read = cols.is_read;
    let is_write = is_read.not();

    let is_word = cols.is_word;
    let is_element = is_word.not();

    // One-hot element selection: selected[i] = 1 when idx = 2*idx1 + idx0 equals i.
    let idx0 = cols.idx0;
    let idx1 = cols.idx1;
    let not_idx0 = idx0.not();
    let not_idx1 = idx1.not();

    let selected = [
        not_idx1.mul(not_idx0),  // element 0: idx = 0b00
        not_idx1.mul(idx0),  // element 1: idx = 0b01
        idx1.mul(not_idx0),  // element 2: idx = 0b10
        idx1.mul(idx0),  // element 3: idx = 0b11
    ];

    // not_written[i] = is_read + is_write * is_element * !selected[i]
    let is_element_write = is_write.mul(is_element);
    let r = [
        is_read.add(is_element_write.mul(selected[0].not())),
        is_read.add(is_element_write.mul(selected[1].not())),
        is_read.add(is_element_write.mul(selected[2].not())),
        is_read.add(is_element_write.mul(selected[3].not())),
    ];
    assert(forall|i: int| 0 <= i < 4 ==> #[trigger] selected[i].val() == element_selected(*cols, i));
    r
}

/// The values of the memory constraints on the window `(c, n)` under `flags`.
pub open spec fn memory_constraint_values(
    c: MemoryCols<Felt>,
    n: MemoryCols<Felt>,
    flags: ChipletFlags<Felt>,
) -> Seq<int> {
    let act = flags.is_active.val();
    let first = flags.next_is_first.val();
    let t = flags.is_transition.val();
    let d_inv_next = n.d_inv.val();
    let ctx_delta = fsub(n.ctx.val(), c.ctx.val());
    let ctx_changed = fmul(ctx_delta, d_inv_next);
    let same_ctx = fsub(1, ctx_changed);
    let addr_delta = fsub(n.word_addr.val(), c.word_addr.val());
    let addr_changed = fmul(addr_delta, d_inv_next);
    let same_addr = fsub(1, addr_changed);
    let f_sca = n.is_same_ctx_and_addr.val();
    let clk_delta = fsub(n.clk.val(), c.clk.val());
    let computed_delta = fadd(
        fmul(ctx_changed, ctx_delta),
        fmul(same_ctx, fadd(fmul(addr_changed, addr_delta), fmul(same_addr, clk_delta))),
    );
    let delta_next = fadd(fmul(n.d1.val(), 65536), n.d0.val());
    let clk_no_change = fsub(1, fmul(clk_delta, d_inv_next));
    let any_write = fadd(fsub(1, c.is_read.val()), fsub(1, n.is_read.val()));
    seq![
        fmul(act, bool_check(c.is_read.val())),
        fmul(act, bool_check(c.is_word.val())),
        fmul(act, bool_check(c.idx0.val())),
        fmul(act, bool_check(c.idx1.val())),
        fmul(act, fmul(c.is_word.val(), c.idx0.val())),
        fmul(act, fmul(c.is_word.val(), c.idx1.val())),
        fmul(first, fmul(not_written(n, 0), n.values[0].val())),
        fmul(first, fmul(not_written(n, 1), n.values[1].val())),
        fmul(first, fmul(not_written(n, 2), n.values[2].val())),
        fmul(first, fmul(not_written(n, 3), n.values[3].val())),
        fmul(t, bool_check(ctx_changed)),
        fmul(t, fmul(same_ctx, ctx_delta)),
        fmul(t, fmul(same_ctx, bool_check(addr_changed))),
        fmul(t, fmul(same_ctx, fmul(same_addr, addr_delta))),
        fmul(t, fsub(f_sca, fmul(same_ctx, same_addr))),
        fmul(t, fsub(computed_delta, delta_next)),
        fmul(t, fmul(f_sca, fmul(clk_no_change, any_write))),
        fmul(t, fmul(not_written(n, 0), fsub(n.values[0].val(), fmul(f_sca, c.values[0].val())))),
        fmul(t, fmul(not_written(n, 1), fsub(n.values[1].val(), fmul(f_sca, c.values[1].val())))),
        fmul(t, fmul(not_written(n, 2), fsub(n.values[2].val(), fmul(f_sca, c.values[2].val())))),
        fmul(t, fmul(not_written(n, 3), fsub(n.values[3].val(), fmul(f_sca, c.values[3].val())))),
    ]
}

/// Enforce all memory chiplet constraints.
///
/// The memory trace is ordered by (ctx, addr, clk). Consecutive rows are compared
/// via deltas to enforce monotonicity of this ordering. A select mechanism
/// using `ctx_changed` and `addr_changed` determines which delta is active: context
/// change takes precedence over address change, which takes precedence over clock change.
#[verifier::rlimit(40)]
pub fn enforce_memory_constraints(
    builder: &mut ConstraintEvaluator,
    local: &MainCols<Felt>,
    next: &MainCols<Felt>,
    flags: &ChipletFlags<Felt>,
)
    ensures
        final(builder).periodic == old(builder).periodic,
        final(builder).is_transition == old(builder).is_transition,
        final(builder).is_first_row == old(builder).is_first_row,
        final(builder).is_last_row == old(builder).is_last_row,
        final(builder).values() == old(builder).values() + memory_constraint_values(
            MemoryCols::from_seq(local.chiplets@.subrange(3, 18)),
            MemoryCols::from_seq(next.chiplets@.subrange(3, 18)),
            *flags,
        ),
{
    let ghost start = builder.values();
    let cols = local.memory();
    let cols_next = next.memory();

    // ==========================================================================
    // BINARY CONSTRAINTS (all rows)
    // ==========================================================================
    // Selectors and indices must be binary.
    let active = flags.is_active;
    builder.assert_bool_when(active, cols.is_read);
    builder.assert_bool_when(active, cols.is_word);
    builder.assert_bool_when(active, cols.idx0);
    builder.assert_bool_when(active, cols.idx1);

    // For word access, idx bits must be zero (only element accesses use idx0/idx1).
    builder.assert_zero_when(active, cols.is_word.mul(cols.idx0));
    builder.assert_zero_when(active, cols.is_word.mul(cols.idx1));

    // not_written[i] = 1 when v'[i] is NOT being written and must be constrained.
    let not_written = compute_not_written_flags(&cols_next);

    // ==========================================================================
    // FIRST-ROW INITIALIZATION
    // ==========================================================================
    // When entering the memory chiplet, values not being written must be zero.
    let first = flags.next_is_first;
    builder.assert_zero_when(first, not_written[0].mul(cols_next.values[0]));
    builder.assert_zero_when(first, not_written[1].mul(cols_next.values[1]));
    builder.assert_zero_when(first, not_written[2].mul(cols_next.values[2]));
    builder.assert_zero_when(first, not_written[3].mul(cols_next.values[3]));

    // ==========================================================================
    // TRANSITION CONSTRAINTS (all rows except last)
    // ==========================================================================
    let t = flags.is_transition;

    // --- delta inverse ---
    // d_inv is shared across all three delta levels (ctx, addr, clk).
    let d_inv_next = cols_next.d_inv;

    // Context: prover sets d_inv = 1/ctx_delta -> ctx_changed = 1.
    let ctx_delta = cols_next.ctx.sub(cols.ctx);
    let ctx_changed = ctx_delta.mul(d_inv_next);
    let same_ctx = ctx_changed.not();
    builder.assert_bool_when(t, ctx_changed);

    // Address: prover sets d_inv = 1/addr_delta -> addr_changed = 1.
    let addr_delta = cols_next.word_addr.sub(cols.word_addr);
    let addr_changed = addr_delta.mul(d_inv_next);
    let same_addr = addr_changed.not();

    // When context is unchanged (same_ctx = 1):
    builder.assert_zero_when(t, same_ctx.mul(ctx_delta));
    builder.assert_zero_when(t, same_ctx.mul(addr_changed.mul(addr_changed.sub(Felt::one()))));
    builder.assert_zero_when(t, same_ctx.mul(same_addr.mul(addr_delta)));

    // --- same context/addr flag ---
    let same_ctx_and_addr = cols_next.is_same_ctx_and_addr;
    builder.assert_eq_when(t, same_ctx_and_addr, same_ctx.mul(same_addr));

    // --- monotonicity ---
    // The priority-selected delta must equal the range-checked decomposition.
    let clk_delta = cols_next.clk.sub(cols.clk);
    let ctx_term = ctx_changed.mul(ctx_delta);
    let addr_term = addr_changed.mul(addr_delta);
    let clk_term = same_addr.mul(clk_delta);
    let computed_delta = ctx_term.add(same_ctx.mul(addr_term.add(clk_term)));
    let delta_next = cols_next.d1.mul(Felt::new_unchecked(TWO_POW_16 as u64)).add(cols_next.d0);
    builder.assert_eq_when(t, computed_delta, delta_next);

    // --- read-only constraint ---
    // When context/addr are unchanged (f_sca'=1) and the clock doesn't advance,
    // both operations must be reads.
    let clk_no_change = Felt::one().sub(clk_delta.mul(d_inv_next));
    let is_write = cols.is_read.not();
    let is_write_next = cols_next.is_read.not();
    let any_write = is_write.add(is_write_next);
    builder.assert_zero_when(t, same_ctx_and_addr.mul(clk_no_change.mul(any_write)));

    // --- value consistency ---
    // Values not being written: v'[i] = f_sca' * v[i].
    let values = cols.values;
    let values_next = cols_next.values;
    builder.assert_zero_when(
        t,
        not_written[0].mul(values_next[0].sub(same_ctx_and_addr.mul(values[0]))),
    );
    builder.assert_zero_when(
        t,
        not_written[1].mul(values_next[1].sub(same_ctx_and_addr.mul(values[1]))),
    );
    builder.assert_zero_when(
        t,
        not_written[2].mul(values_next[2].sub(same_ctx_and_addr.mul(values[2]))),
    );
    builder.assert_zero_when(
        t,
        not_written[3].mul(values_next[3].sub(same_ctx_and_addr.mul(values[3]))),
    );

    proof {
        vstd::arithmetic::div_mod::lemma_small_mod(65536, crate::field::p() as nat);
        assert(builder.values() =~= start + memory_constraint_values(cols, cols_next, *flags));
    }
}

// LAWS
// ================================================================================================

/// The not-written flags follow the three operation modes: on a read every element is
/// constrained; on a word write no element is; on an element write every element but the
/// addressed one (`idx = 2 * idx1 + idx0`) is.
pub proof fn lemma_not_written_modes(c: MemoryCols<Felt>, i: int)
    requires
        c.is_read.val() == 0 || c.is_read.val() == 1,
        c.is_word.val() == 0 || c.is_word.val() == 1,
        c.idx0.val() == 0 || c.idx0.val() == 1,
        c.idx1.val() == 0 || c.idx1.val() == 1,
        0 <= i < 4,
    ensures
        not_written(c, i) == (if c.is_read.val() == 1 || (c.is_word.val() == 0 && 2 * c.idx1.val()
            + c.idx0.val() != i) {
            1int
        } else {
            0int
        }),
{
    let (r, w, i0, i1) = (c.is_read.val(), c.is_word.val(), c.idx0.val(), c.idx1.val());
    let b0 = if i == 0 || i == 2 { fsub(1, i0) } else { i0 };
    let b1 = if i < 2 { fsub(1, i1) } else { i1 };
    assert(b0 == 0 || b0 == 1);
    assert(b1 == 0 || b1 == 1);
    assert(b0 == (if (i == 0 || i == 2) == (i0 == 0) { 1int } else { 0int }));
    assert(b1 == (if (i < 2) == (i1 == 0) { 1int } else { 0int }));
    let sel = element_selected(c, i);
    assert(sel == fmul(b1, b0));
    if b1 == 0 {
        assert(sel == 0);
    } else if b0 == 0 {
        assert(sel == 0);
    } else {
        assert(sel == 1);
    }
    assert(sel == (if 2 * i1 + i0 == i { 1int } else { 0int }));
    let ew = fmul(fsub(1, r), fsub(1, w));
    if r == 1 {
        assert(fsub(1, r) == 0);
        assert(ew == 0);
        assert(fmul(ew, fsub(1, sel)) == 0);
        assert(not_written(c, i) == 1);
    } else if w == 1 {
        assert(fsub(1, w) == 0);
        assert(ew == 0);
        assert(fmul(ew, fsub(1, sel)) == 0);
        assert(not_written(c, i) == 0);
    } else {
        assert(fsub(1, r) == 1 && fsub(1, w) == 1);
        assert(ew == 1);
        if sel == 1 {
            assert(fsub(1, sel) == 0);
            assert(fmul(ew, fsub(1, sel)) == 0);
        } else {
            assert(fsub(1, sel) == 1);
            assert(fmul(ew, fsub(1, sel)) == 1);
        }
    }
}

} // verus!
