//! Permutation sub-chiplet constraints.
//!
//! The permutation sub-chiplet executes Poseidon2 permutations as 16-row cycles.
//! It is active when `s_perm = 1` (the permutation segment selector).
//!
//! ## Sub-modules
//!
//! - [`state`]: Poseidon2 round transition constraints
//!
//! ## Column Layout (via [`PermutationCols`])
//!
//! | Column       | Purpose |
//! |--------------|---------|
//! | w0, w1, w2   | S-box witnesses (same physical columns as hasher selectors) |
//! | h[0..12)     | Poseidon2 state (RATE0, RATE1, CAP) |
//! | multiplicity | Request multiplicity (same physical column as node_index) |
//! | s_perm       | Permutation segment selector (consumed by chiplet selectors) |

pub mod state;

use vstd::prelude::*;

use crate::constraints::chiplets::columns::{
    HasherPeriodicCols, NUM_PERIODIC_COLUMNS, PermutationCols, poseidon2_ark_int,
};
use crate::constraints::chiplets::selectors::ChipletFlags;
use crate::constraints::columns::MainCols;
use crate::constraints::evaluator::{ConstraintEvaluator, vals};
use crate::field::{Felt, fadd, fmul, fsub};
use state::{diag_vals, enforce_permutation_steps, permutation_step_values};

verus! {

/// `is_init_ext + is_ext + is_packed_int + is_int_ext`: one on the rows 0-14 of a
/// permutation cycle, zero on the boundary row 15.
pub open spec fn not_cycle_end(periodic: Seq<int>) -> int {
    fadd(fadd(fadd(periodic[0], periodic[1]), periodic[2]), periodic[3])
}

/// The values of all permutation sub-chiplet constraints on the window `(c, n)` with the
/// periodic values `periodic` of the row and the chiplet flags `flags`.
pub open spec fn permutation_constraint_values(
    c: PermutationCols<Felt>,
    n: PermutationCols<Felt>,
    periodic: Seq<int>,
    flags: ChipletFlags<Felt>,
) -> Seq<int> {
    let act = flags.is_active.val();
    let nce = not_cycle_end(periodic);
    permutation_step_values(
        act,
        vals(c.state@),
        vals(n.state@),
        vals(c.witnesses@),
        periodic.subrange(0, 4),
        periodic.subrange(4, 16),
        diag_vals(),
        poseidon2_ark_int(21) as int,
    ) + seq![
        fmul(act, c._unused[0].val()),
        fmul(act, c._unused[1].val()),
        fmul(act, c._unused[2].val()),
        fmul(act, fmul(nce, fsub(n.multiplicity.val(), c.multiplicity.val()))),
        fmul(flags.next_is_first.val(), nce),
        fmul(flags.is_last.val(), nce),
    ]
}

/// Enforce all permutation sub-chiplet constraints.
///
/// The Poseidon2 step constraints are gated by the chiplet flag alone; the unused
/// controller slots are zero on permutation rows; the multiplicity is constant within a
/// cycle; and a permutation section starts on cycle row 0 and ends on cycle row 15.
pub fn enforce_permutation_constraints(
    builder: &mut ConstraintEvaluator,
    local: &MainCols<Felt>,
    next: &MainCols<Felt>,
    flags: &ChipletFlags<Felt>,
)
    requires
        old(builder).periodic@.len() == NUM_PERIODIC_COLUMNS,
    ensures
        final(builder).periodic == old(builder).periodic,
        final(builder).is_transition == old(builder).is_transition,
        final(builder).is_first_row == old(builder).is_first_row,
        final(builder).is_last_row == old(builder).is_last_row,
        final(builder).values() == old(builder).values() + permutation_constraint_values(
            PermutationCols::from_seq(local.chiplets@.subrange(1, 20)),
            PermutationCols::from_seq(next.chiplets@.subrange(1, 20)),
            vals(old(builder).periodic@),
            *flags,
        ),
{
    let ghost start = builder.values();
    let pv = &builder.periodic;
    let periodic_hasher = HasherPeriodicCols {
        is_init_ext: pv[0],
        is_ext: pv[1],
        is_packed_int: pv[2],
        is_int_ext: pv[3],
        ark: [pv[4], pv[5], pv[6], pv[7], pv[8], pv[9], pv[10], pv[11], pv[12], pv[13], pv[14], pv[15]],
    };
    let ghost pvals = vals(builder.periodic@);

    let cols = local.permutation();
    let cols_next = next.permutation();

    // not_cycle_end: 1 on perm-cycle rows 0-14, 0 on the cycle boundary row 15.
    let not_cycle_end = periodic_hasher.is_init_ext.add(periodic_hasher.is_ext).add(
        periodic_hasher.is_packed_int,
    ).add(periodic_hasher.is_int_ext);

    // --- Poseidon2 permutation step constraints ---
    enforce_permutation_steps(builder, flags.is_active, &cols, &cols_next, &periodic_hasher);

    // --- Structural confinement on perm rows ---
    let padding = cols.unused_padding();
    builder.assert_zero_when(flags.is_active, padding[0]);
    builder.assert_zero_when(flags.is_active, padding[1]);
    builder.assert_zero_when(flags.is_active, padding[2]);

    // --- Multiplicity constancy within perm cycles ---
    builder.assert_zero_when(
        flags.is_active,
        not_cycle_end.mul(cols_next.multiplicity.sub(cols.multiplicity)),
    );

    // --- Cycle boundary alignment ---
    // Entry: the row before the first perm row must be on cycle row 15.
    builder.assert_zero_when(flags.next_is_first, not_cycle_end);
    // Exit: the last permutation row must be on cycle row 15.
    builder.assert_zero_when(flags.is_last, not_cycle_end);

    proof {
        let sel = seq![
            periodic_hasher.is_init_ext.val(),
            periodic_hasher.is_ext.val(),
            periodic_hasher.is_packed_int.val(),
            periodic_hasher.is_int_ext.val(),
        ];
        assert(sel =~= pvals.subrange(0, 4));
        assert(vals(periodic_hasher.ark@) =~= pvals.subrange(4, 16));
        assert(builder.values() =~= start + permutation_constraint_values(
            cols,
            cols_next,
            pvals,
            *flags,
        ));
    }
}

} // verus!
