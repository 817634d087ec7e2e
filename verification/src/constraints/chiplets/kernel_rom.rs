//! Kernel ROM chiplet constraints.
//!
//! The kernel ROM chiplet exposes the digest table used by kernel (system) calls.
//! This module only enforces shape constraints (binary selectors, digest contiguity, and the
//! start-of-block marker). Validity of syscall selection is enforced by decoder and chiplets' bus.
//!
//! ## Column layout (5 columns within chiplet)
//!
//! | Column  | Purpose                                           |
//! |---------|---------------------------------------------------|
//! | sfirst  | 1 = first row of digest block, 0 = continuation   |
//! | r0-r3   | 4-element kernel procedure digest                 |
//!
//! ## Constraints
//!
//! 1. sfirst must be binary
//! 2. Digest contiguity: when sfirst'=0, digest values stay the same
//! 3. First row: when entering kernel ROM, sfirst' must be 1

use vstd::prelude::*;

use crate::constraints::chiplets::columns::KernelRomCols;
use crate::constraints::chiplets::selectors::ChipletFlags;
use crate::constraints::columns::MainCols;
use crate::constraints::evaluator::{ConstraintEvaluator, bool_check};
use crate::constraints::utils::BoolNot;
use crate::field::{Felt, fmul, fsub};

verus! {

/// The values of the kernel ROM constraints on the window `(c, n)` under `flags`.
pub open spec fn kernel_rom_constraint_values(
    c: KernelRomCols<Felt>,
    n: KernelRomCols<Felt>,
    flags: ChipletFlags<Felt>,
) -> Seq<int> {
    let gate = fmul(flags.is_transition.val(), fsub(1, n.s_first.val()));
    seq![
        fmul(flags.is_active.val(), bool_check(c.s_first.val())),
        fmul(gate, fsub(n.root[0].val(), c.root[0].val())),
        fmul(gate, fsub(n.root[1].val(), c.root[1].val())),
        fmul(gate, fsub(n.root[2].val(), c.root[2].val())),
        fmul(gate, fsub(n.root[3].val(), c.root[3].val())),
        fmul(flags.next_is_first.val(), fsub(n.s_first.val(), 1)),
    ]
}

/// Enforce kernel ROM chiplet constraints.
pub fn enforce_kernel_rom_constraints(
    builder: &mut ConstraintEvaluator,
    local: &MainCols<Felt>,
    next: &MainCols<Felt>,
    flags: &ChipletFlags<Felt>,
)
    ensures
        final(builder).periodic == old(builder).periodic,
        final(builder).is_transition == old(builder).is_transition,
        final(builder).is_first_row == old(builder).is_first_row,
        final(builder).is_last_row == old(builder).is_last_row,
        final(builder).values() == old(builder).values() + kernel_rom_constraint_values(
            KernelRomCols::from_seq(local.chiplets@.subrange(5, 10)),
            KernelRomCols::from_seq(next.chiplets@.subrange(5, 10)),
            *flags,
        ),
{
    let ghost start = builder.values();
    let krom = local.kernel_rom();
    let krom_next = next.kernel_rom();

    // sfirst must be binary
    builder.assert_bool_when(flags.is_active, krom.s_first);

    // In all rows but last, ensure that the digest repeats except when the next
    // row is the start of a new digest (i.e., s_first' = 0)
    let gate = flags.is_transition.mul(krom_next.s_first.not());
    builder.assert_eq_when(gate, krom_next.root[0], krom.root[0]);
    builder.assert_eq_when(gate, krom_next.root[1], krom.root[1]);
    builder.assert_eq_when(gate, krom_next.root[2], krom.root[2]);
    builder.assert_eq_when(gate, krom_next.root[3], krom.root[3]);

    // First row of kernel ROM must have sfirst' = 1.
    builder.assert_zero_when(flags.next_is_first, krom_next.s_first.sub(Felt::one()));

    assert(builder.values() =~= start + kernel_rom_constraint_values(krom, krom_next, *flags));
}

} // verus!
