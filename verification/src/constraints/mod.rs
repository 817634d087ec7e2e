//! Constraint-side building blocks: column layouts, operation flags and field helpers.

pub mod bus;
pub mod chiplets;
pub mod columns;
pub mod decoder;
pub mod evaluator;
pub mod ext_field;
pub mod op_flags;
pub mod range;
pub mod stack;
pub mod system;
pub mod utils;

use vstd::prelude::*;

use crate::constraints::bus::indices::{
    B_CHIPLETS, B_HASH_KERNEL, B_RANGE, P1_BLOCK_STACK, P1_STACK, P2_BLOCK_HASH, P3_OP_GROUP, V_WIRING,
};
use crate::constraints::decoder::bus::has_aux;
use crate::constraints::evaluator::ConstraintEvaluator;
use crate::constraints::ext_field::{QuadFeltExpr, q, q_eq_values, q_one};
use crate::field::{Felt, fmul, fsub};
use crate::trace::AUX_TRACE_WIDTH;

verus! {

/// The two constraints `gate * x` asserting that the extension element `x` is zero.
pub open spec fn q_zero_values(gate: int, x: (int, int)) -> Seq<int> {
    seq![fmul(gate, x.0), fmul(gate, x.1)]
}

/// The first-row boundary constraints of the auxiliary columns: the running products start
/// at one and the LogUp sums start at zero.
pub open spec fn bus_first_row_values(builder: ConstraintEvaluator) -> Seq<int> {
    let g = builder.is_first_row.val();
    let col = |i: usize| q(builder.aux@[i as int]);
    q_eq_values(g, col(P1_BLOCK_STACK), q_one()) + q_eq_values(g, col(P2_BLOCK_HASH), q_one())
        + q_eq_values(g, col(P3_OP_GROUP), q_one()) + q_eq_values(g, col(P1_STACK), q_one())
        + q_eq_values(g, col(B_HASH_KERNEL), q_one()) + q_eq_values(g, col(B_CHIPLETS), q_one())
        + q_zero_values(g, col(B_RANGE)) + q_zero_values(g, col(V_WIRING))
}

/// The last-row boundary constraints: each auxiliary column of the row equals its claimed
/// final value, coordinate by coordinate.
pub open spec fn bus_last_row_values(
    g: int,
    cols: Seq<QuadFeltExpr<Felt>>,
    finals: Seq<QuadFeltExpr<Felt>>,
) -> Seq<int> {
    Seq::new(
        2 * cols.len(),
        |j: int|
            if j % 2 == 0 {
                fmul(g, fsub(cols[j / 2].0.val(), finals[j / 2].0.val()))
            } else {
                fmul(g, fsub(cols[j / 2].1.val(), finals[j / 2].1.val()))
            },
    )
}

/// Enforces the first-row boundary constraints of the auxiliary columns.
pub fn enforce_bus_first_row(builder: &mut ConstraintEvaluator)
    requires
        has_aux(*old(builder)),
    ensures
        final(builder).periodic == old(builder).periodic,
        final(builder).is_transition == old(builder).is_transition,
        final(builder).is_first_row == old(builder).is_first_row,
        final(builder).is_last_row == old(builder).is_last_row,
        final(builder).aux == old(builder).aux,
        final(builder).aux_next == old(builder).aux_next,
        final(builder).values() == old(builder).values() + bus_first_row_values(*old(builder)),
{
    let ghost start = builder.values();
    let p1 = builder.aux[P1_BLOCK_STACK];
    let p2 = builder.aux[P2_BLOCK_HASH];
    let p3 = builder.aux[P3_OP_GROUP];
    let s_aux = builder.aux[P1_STACK];
    let b_hk = builder.aux[B_HASH_KERNEL];
    let b_ch = builder.aux[B_CHIPLETS];
    let b_rng = builder.aux[B_RANGE];
    let v_wir = builder.aux[V_WIRING];

    let first = builder.is_first_row;
    let one = QuadFeltExpr::new(Felt::one(), Felt::zero());
    builder.assert_eq_ext_when(first, p1, one);
    builder.assert_eq_ext_when(first, p2, one);
    builder.assert_eq_ext_when(first, p3, one);
    builder.assert_eq_ext_when(first, s_aux, one);
    builder.assert_eq_ext_when(first, b_hk, one);
    builder.assert_eq_ext_when(first, b_ch, one);
    builder.assert_zero_ext_when(first, b_rng);
    builder.assert_zero_ext_when(first, v_wir);
    proof {
        assert(builder.values() =~= start + bus_first_row_values(*old(builder)));
    }
}

/// Enforces the last-row boundary constraints: every auxiliary column of the last row equals
/// its claimed final value `finals[i]`.
pub fn enforce_bus_last_row(builder: &mut ConstraintEvaluator, finals: &[QuadFeltExpr<Felt>])
    requires
        has_aux(*old(builder)),
        finals.len() == AUX_TRACE_WIDTH,
    ensures
        final(builder).periodic == old(builder).periodic,
        final(builder).is_transition == old(builder).is_transition,
        final(builder).is_first_row == old(builder).is_first_row,
        final(builder).is_last_row == old(builder).is_last_row,
        final(builder).aux == old(builder).aux,
        final(builder).aux_next == old(builder).aux_next,
        final(builder).values() == old(builder).values() + bus_last_row_values(
            old(builder).is_last_row.val(),
            old(builder).aux@,
            finals@,
        ),
{
    let ghost start = builder.values();
    let last = builder.is_last_row;
    let mut i: usize = 0;
    while i < AUX_TRACE_WIDTH
        invariant
            i <= AUX_TRACE_WIDTH,
            finals.len() == AUX_TRACE_WIDTH,
            builder.aux == old(builder).aux,
            builder.aux_next == old(builder).aux_next,
            builder.aux.len() == AUX_TRACE_WIDTH,
            builder.periodic == old(builder).periodic,
            builder.is_transition == old(builder).is_transition,
            builder.is_first_row == old(builder).is_first_row,
            builder.is_last_row == old(builder).is_last_row,
            last == old(builder).is_last_row,
            builder.values() == start + bus_last_row_values(
                last.val(),
                old(builder).aux@.take(i as int),
                finals@.take(i as int),
            ),
        decreases AUX_TRACE_WIDTH - i,
    {
        let col = builder.aux[i];
        builder.assert_eq_ext_when(last, col, finals[i]);
        proof {
            let g = last.val();
            assert(bus_last_row_values(g, old(builder).aux@.take(i + 1), finals@.take(i + 1))
                =~= bus_last_row_values(g, old(builder).aux@.take(i as int), finals@.take(i as int))
                + q_eq_values(g, q(col), q(finals@[i as int])));
        }
        i = i + 1;
    }
    proof {
        assert(old(builder).aux@.take(AUX_TRACE_WIDTH as int) =~= old(builder).aux@);
        assert(finals@.take(AUX_TRACE_WIDTH as int) =~= finals@);
    }
}

} // verus!
