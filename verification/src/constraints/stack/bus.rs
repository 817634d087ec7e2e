//! Stack overflow table bus constraint.
//!
//! The overflow table holds the stack elements below the top 16. Each row of the table is
//! `[clk, value, prev]`: the clock cycle at which the element was pushed off the top, the
//! element, and the address of the previous row.

use vstd::prelude::*;

use crate::constraints::bus::indices::P1_STACK;
use crate::constraints::columns::MainCols;
use crate::constraints::decoder::bus::{
    challenges_fit, has_aux, hs, lemma_identity_sides, opf, running_product_values,
};
use crate::constraints::evaluator::{ConstraintEvaluator, vals};
use crate::constraints::ext_field::{
    QuadFeltExpr, lemma_pair_mul_associates, lemma_pair_mul_one, q, q_add, q_add_base, q_eq_values,
    q_mul, q_one, q_scale,
};
use crate::constraints::op_flags::OpFlags;
use crate::constraints::utils::BoolNot;
use crate::field::{Felt, fadd, fmul, fsub, lemma_mod_mod, lemma_unit_gated_eq, p};
use crate::operations::opcodes;
use crate::trace::Challenges;
use crate::trace::challenges::lemma_msg_in_range;
use crate::trace::bus_types::STACK_OVERFLOW_TABLE;

verus! {

/// Encoding of the overflow table row `[clk, value, prev]`.
pub open spec fn overflow_row(ch: Challenges, clk: int, value: int, prev: int) -> (int, int) {
    ch.msg(STACK_OVERFLOW_TABLE as int, seq![clk, value, prev])
}

/// The overflow table is non-empty: `(b0 - 16) * h0`, which is 1 exactly when `b0 != 16`.
pub open spec fn non_empty_overflow(l: MainCols<Felt>) -> int {
    fmul(fsub(l.stack.b0.val(), 16), l.stack.h0.val())
}

/// Response (insertion) side: a right shift pushes `s15` into the table.
pub open spec fn overflow_response(l: MainCols<Felt>, f: OpFlags, ch: Challenges) -> (int, int) {
    let right_shift = f.right_shift.val();
    let row = overflow_row(ch, l.system.clk.val(), l.stack.top[15].val(), l.stack.b1.val());
    q_add_base(q_scale(row, right_shift), fsub(1, right_shift))
}

/// Request (removal) side: a left shift, or a DYNCALL, on a non-empty table pops its last row.
pub open spec fn overflow_request(
    l: MainCols<Felt>,
    n: MainCols<Felt>,
    f: OpFlags,
    ch: Challenges,
) -> (int, int) {
    let b1 = l.stack.b1.val();
    let s15_next = n.stack.top[15].val();
    let row_left = overflow_row(ch, b1, s15_next, n.stack.b1.val());
    let row_dyncall = overflow_row(ch, b1, s15_next, hs(l, 5));
    let left_flag = fmul(f.left_shift.val(), non_empty_overflow(l));
    let dyncall_flag = fmul(opf(f, opcodes::DYNCALL), non_empty_overflow(l));
    q_add_base(
        q_add(q_scale(row_left, left_flag), q_scale(row_dyncall, dyncall_flag)),
        fsub(1, fadd(left_flag, dyncall_flag)),
    )
}

/// Encodes the overflow table row `[clk, value, prev]`.
fn encode_overflow_row(ch: &Challenges, clk: Felt, value: Felt, prev: Felt) -> (r: QuadFeltExpr<Felt>)
    requires
        challenges_fit(*ch),
    ensures
        q(r) == overflow_row(*ch, clk.val(), value.val(), prev.val()),
{
    let elems = [clk, value, prev];
    let r = ch.encode(STACK_OVERFLOW_TABLE, &elems);
    assert(vals(elems@) =~= seq![clk.val(), value.val(), prev.val()]);
    r
}

/// Enforces the stack overflow table bus constraint.
///
/// This constraint tracks overflow table operations using a running product:
/// - Adding rows when right_shift (element pushed off stack position 15)
/// - Removing rows when (left_shift OR dyncall) AND overflow is non-empty
#[verifier::rlimit(30)]
pub fn enforce_bus(
    builder: &mut ConstraintEvaluator,
    local: &MainCols<Felt>,
    next: &MainCols<Felt>,
    op_flags: &OpFlags,
    challenges: &Challenges,
)
    requires
        has_aux(*old(builder)),
        challenges_fit(*challenges),
    ensures
        final(builder).periodic == old(builder).periodic,
        final(builder).is_transition == old(builder).is_transition,
        final(builder).is_first_row == old(builder).is_first_row,
        final(builder).is_last_row == old(builder).is_last_row,
        final(builder).aux == old(builder).aux,
        final(builder).aux_next == old(builder).aux_next,
        final(builder).values() == old(builder).values() + running_product_values(
            *old(builder),
            P1_STACK as int,
            overflow_request(*local, *next, *op_flags, *challenges),
            overflow_response(*local, *op_flags, *challenges),
        ),
{
    let p1_local = builder.aux[P1_STACK];
    let p1_next = builder.aux_next[P1_STACK];

    // Current row values
    let clk = local.system.clk;
    let s15 = local.stack.top[15];
    let b0 = local.stack.b0;
    let b1 = local.stack.b1;
    let h0 = local.stack.h0;
    // Next row values (needed for removal)
    let s15_next = next.stack.top[15];
    let b1_next = next.stack.b1;
    // Hasher state element 5, used by DYNCALL to store the new overflow table pointer.
    let hasher_state_5 = local.decoder.hasher_state[5];

    // Overflow condition: (b0 - 16) * h0 = 1 when overflow is non-empty
    let is_non_empty_overflow = b0.sub(Felt::from_u8(16)).mul(h0);

    let right_shift = op_flags.right_shift();
    let left_shift = op_flags.left_shift();
    let dyncall = op_flags.op_flag(opcodes::DYNCALL);

    // Row value encoding: prefix + beta^0 * clk + beta^1 * val + beta^2 * prev
    let response_row = encode_overflow_row(challenges, clk, s15, b1);
    let request_row_left = encode_overflow_row(challenges, b1, s15_next, b1_next);
    let request_row_dyncall = encode_overflow_row(challenges, b1, s15_next, hasher_state_5);

    // Response: right_shift * response_row + (1 - right_shift)
    let response = response_row.mul_base(right_shift).add_base(right_shift.not());

    // Request: left_flag * left_value + dyncall_flag * dyncall_value + (1 - sum(flags))
    let left_flag = left_shift.mul(is_non_empty_overflow);
    let dyncall_flag = dyncall.mul(is_non_empty_overflow);
    let request_flag_sum = left_flag.add(dyncall_flag);
    let request = request_row_left.mul_base(left_flag).add(request_row_dyncall.mul_base(dyncall_flag)).add_base(
        request_flag_sum.not(),
    );

    let lhs = p1_next.mul(request);
    let rhs = p1_local.mul(response);
    let t = builder.is_transition;
    builder.assert_eq_ext_when(t, lhs, rhs);
}

/// Rows that neither shift the stack right nor pop the overflow table keep its running
/// product: the constraint reduces to `t * (p' - p) = 0`.
pub proof fn lemma_no_shift_keeps_overflow_table(
    builder: ConstraintEvaluator,
    l: MainCols<Felt>,
    n: MainCols<Felt>,
    f: OpFlags,
    ch: Challenges,
)
    requires
        has_aux(builder),
        f.right_shift.val() == 0,
        f.left_shift.val() == 0,
        opf(f, opcodes::DYNCALL) == 0,
    ensures
        running_product_values(
            builder,
            P1_STACK as int,
            overflow_request(l, n, f, ch),
            overflow_response(l, f, ch),
        ) == q_eq_values(
            builder.is_transition.val(),
            q(builder.aux_next@[P1_STACK as int]),
            q(builder.aux@[P1_STACK as int]),
        ),
{
    vstd::arithmetic::div_mod::lemma_small_mod(0, crate::field::p() as nat);
    vstd::arithmetic::div_mod::lemma_small_mod(1, crate::field::p() as nat);
    assert(fsub(1, 0) == 1 && fadd(0, 0) == 0 && fadd(0, 1) == 1);
    assert(overflow_request(l, n, f, ch) == (1int, 0int));
    assert(overflow_response(l, f, ch) == (1int, 0int));
    lemma_identity_sides(builder, P1_STACK as int);
}

/// A left shift on a non-empty overflow table pops its last row: when the table is non-empty
/// (`(b0 - 16) * h0 = 1`), the operation shifts left and is not DYNCALL, the overflow table
/// removes the row `[b1, s15', b1']`, whose value is the element that enters `s15` on the
/// next row and whose link `b1'` becomes the next row's table pointer.
pub proof fn lemma_left_shift_pops_overflow_row(
    l: MainCols<Felt>,
    n: MainCols<Felt>,
    f: OpFlags,
    ch: Challenges,
)
    requires
        f.left_shift.val() == 1,
        non_empty_overflow(l) == 1,
        opf(f, opcodes::DYNCALL) == 0,
    ensures
        overflow_request(l, n, f, ch) == ch.msg(
            STACK_OVERFLOW_TABLE as int,
            seq![l.stack.b1.val(), n.stack.top[15].val(), n.stack.b1.val()],
        ),
{
    let b1 = l.stack.b1.val();
    let s15_next = n.stack.top[15].val();
    let popped = overflow_row(ch, b1, s15_next, n.stack.b1.val());
    let other = overflow_row(ch, b1, s15_next, hs(l, 5));
    lemma_msg_in_range(ch, STACK_OVERFLOW_TABLE as int, seq![b1, s15_next, n.stack.b1.val()]);
    lemma_msg_in_range(ch, STACK_OVERFLOW_TABLE as int, seq![b1, s15_next, hs(l, 5)]);
    vstd::arithmetic::div_mod::lemma_small_mod(0, crate::field::p() as nat);
    vstd::arithmetic::div_mod::lemma_small_mod(1, crate::field::p() as nat);
    vstd::arithmetic::div_mod::lemma_small_mod(popped.0 as nat, crate::field::p() as nat);
    vstd::arithmetic::div_mod::lemma_small_mod(popped.1 as nat, crate::field::p() as nat);
    assert(fmul(1, 1) == 1 && fmul(0, 1) == 0);
    assert(q_scale(popped, 1) == popped);
    assert(q_scale(other, 0) == (0int, 0int));
    assert(q_add(popped, (0int, 0int)) == popped);
    assert(fsub(1, fadd(1, 0)) == 0);
    assert(q_add_base(popped, 0) == popped);
}

/// A right shift pushes a row onto the overflow table: the inserted row is
/// `[clk, s15, b1]`, the element that leaves `s15` with the current clock cycle as its
/// address and the previous table pointer `b1` as its link.
pub proof fn lemma_right_shift_pushes_overflow_row(l: MainCols<Felt>, f: OpFlags, ch: Challenges)
    requires
        f.right_shift.val() == 1,
    ensures
        overflow_response(l, f, ch) == ch.msg(
            STACK_OVERFLOW_TABLE as int,
            seq![l.system.clk.val(), l.stack.top[15].val(), l.stack.b1.val()],
        ),
{
    let row = overflow_row(ch, l.system.clk.val(), l.stack.top[15].val(), l.stack.b1.val());
    lemma_msg_in_range(
        ch,
        STACK_OVERFLOW_TABLE as int,
        seq![l.system.clk.val(), l.stack.top[15].val(), l.stack.b1.val()],
    );
    vstd::arithmetic::div_mod::lemma_small_mod(0, crate::field::p() as nat);
    vstd::arithmetic::div_mod::lemma_small_mod(row.0 as nat, crate::field::p() as nat);
    vstd::arithmetic::div_mod::lemma_small_mod(row.1 as nat, crate::field::p() as nat);
    assert(q_scale(row, 1) == row);
    assert(fsub(1, 1) == 0);
    assert(q_add_base(row, 0) == row);
}

/// On a transition row, the running-product constraint of the overflow table vanishes exactly
/// when `p' * request == p * response`.
proof fn lemma_overflow_constraint_vanishes(
    builder: ConstraintEvaluator,
    request: (int, int),
    response: (int, int),
)
    requires
        has_aux(builder),
        builder.is_transition.val() == 1,
    ensures
        running_product_values(builder, P1_STACK as int, request, response) == seq![0int, 0int]
            <==> q_mul(q(builder.aux_next@[P1_STACK as int]), request) == q_mul(
            q(builder.aux@[P1_STACK as int]),
            response,
        ),
{
    let x = q_mul(q(builder.aux_next@[P1_STACK as int]), request);
    let y = q_mul(q(builder.aux@[P1_STACK as int]), response);
    lemma_mod_mod(x.0);
    lemma_mod_mod(y.0);
    lemma_unit_gated_eq(x.0, y.0);
    lemma_unit_gated_eq(x.1, y.1);
    let v = running_product_values(builder, P1_STACK as int, request, response);
    assert(v[0] == fmul(1, fsub(x.0, y.0)) && v[1] == fmul(1, fsub(x.1, y.1)));
    if v[0] == 0 && v[1] == 0 {
        assert(v =~= seq![0int, 0int]);
    }
}

/// A push undone by a pop leaves the overflow table unchanged. Take two consecutive transitions
/// `r0 -> r1` and `r1 -> r2`, whose constraint evaluators hold the running products
/// `p0 -> p1` and `p1 -> p2`. On `r0` the stack shifts right (a PAD, say) and nothing is
/// popped; on `r1` it shifts left on a non-empty table (a DROP, say), not by DYNCALL, and
/// nothing is pushed; the pop reads back the pushed row: `b1` on `r1` is the clock cycle of
/// `r0`, `s15` on `r2` is `s15` of `r0` and `b1` on `r2` is `b1` of `r0`. When the overflow
/// table constraint vanishes on both transitions and the pushed row's encoding is invertible,
/// `p2 == p0`.
pub proof fn lemma_push_then_pop_restores_overflow_table(
    e0: ConstraintEvaluator,
    e1: ConstraintEvaluator,
    r0: MainCols<Felt>,
    r1: MainCols<Felt>,
    r2: MainCols<Felt>,
    f0: OpFlags,
    f1: OpFlags,
    ch: Challenges,
    inv_row: (int, int),
)
    requires
        has_aux(e0),
        has_aux(e1),
        e0.is_transition.val() == 1,
        e1.is_transition.val() == 1,
        e1.aux@[P1_STACK as int] == e0.aux_next@[P1_STACK as int],
        f0.right_shift.val() == 1,
        f0.left_shift.val() == 0,
        opf(f0, opcodes::DYNCALL) == 0,
        f1.right_shift.val() == 0,
        f1.left_shift.val() == 1,
        non_empty_overflow(r1) == 1,
        opf(f1, opcodes::DYNCALL) == 0,
        r1.stack.b1.val() == r0.system.clk.val(),
        r2.stack.top[15].val() == r0.stack.top[15].val(),
        r2.stack.b1.val() == r0.stack.b1.val(),
        q_mul(
            ch.msg(
                STACK_OVERFLOW_TABLE as int,
                seq![r0.system.clk.val(), r0.stack.top[15].val(), r0.stack.b1.val()],
            ),
            inv_row,
        ) == q_one(),
        running_product_values(
            e0,
            P1_STACK as int,
            overflow_request(r0, r1, f0, ch),
            overflow_response(r0, f0, ch),
        ) == seq![0int, 0int],
        running_product_values(
            e1,
            P1_STACK as int,
            overflow_request(r1, r2, f1, ch),
            overflow_response(r1, f1, ch),
        ) == seq![0int, 0int],
    ensures
        q(e1.aux_next@[P1_STACK as int]) == q(e0.aux@[P1_STACK as int]),
{
    let m = ch.msg(
        STACK_OVERFLOW_TABLE as int,
        seq![r0.system.clk.val(), r0.stack.top[15].val(), r0.stack.b1.val()],
    );
    let p0 = q(e0.aux@[P1_STACK as int]);
    let p1 = q(e0.aux_next@[P1_STACK as int]);
    let p2 = q(e1.aux_next@[P1_STACK as int]);
    e0.aux@[P1_STACK as int].0.lemma_val_range();
    e0.aux@[P1_STACK as int].1.lemma_val_range();
    e0.aux_next@[P1_STACK as int].0.lemma_val_range();
    e0.aux_next@[P1_STACK as int].1.lemma_val_range();
    e1.aux_next@[P1_STACK as int].0.lemma_val_range();
    e1.aux_next@[P1_STACK as int].1.lemma_val_range();
    // the push side of r0 and the pop side of r1 are the same row `m`; the other sides are 1
    lemma_right_shift_pushes_overflow_row(r0, f0, ch);
    lemma_left_shift_pops_overflow_row(r1, r2, f1, ch);
    assert(seq![r1.stack.b1.val(), r2.stack.top[15].val(), r2.stack.b1.val()] =~= seq![
        r0.system.clk.val(),
        r0.stack.top[15].val(),
        r0.stack.b1.val(),
    ]);
    vstd::arithmetic::div_mod::lemma_small_mod(0, p() as nat);
    vstd::arithmetic::div_mod::lemma_small_mod(1, p() as nat);
    assert(fmul(0, non_empty_overflow(r0)) == 0);
    assert(fsub(1, 0) == 1 && fadd(0, 0) == 0 && fadd(0, 1) == 1);
    let row_left = overflow_row(ch, r0.stack.b1.val(), r1.stack.top[15].val(), r1.stack.b1.val());
    let row_dyncall = overflow_row(ch, r0.stack.b1.val(), r1.stack.top[15].val(), hs(r0, 5));
    assert(row_left.0 * 0 == 0 && row_left.1 * 0 == 0) by (nonlinear_arith);
    assert(row_dyncall.0 * 0 == 0 && row_dyncall.1 * 0 == 0) by (nonlinear_arith);
    assert(q_scale(row_left, 0) == (0int, 0int));
    assert(q_scale(row_dyncall, 0) == (0int, 0int));
    assert(overflow_request(r0, r1, f0, ch) == q_one());
    assert(overflow_response(r1, f1, ch) == q_one());
    // p1 == p0 * m and p2 * m == p1
    lemma_overflow_constraint_vanishes(e0, q_one(), m);
    lemma_overflow_constraint_vanishes(e1, m, q_one());
    lemma_pair_mul_one(p1);
    lemma_pair_mul_one(p0);
    lemma_pair_mul_one(p2);
    // so p2 == p2 * (m * inv) == (p2 * m) * inv == (p0 * m) * inv == p0 * (m * inv) == p0
    lemma_pair_mul_associates(p2, m, inv_row);
    lemma_pair_mul_associates(p0, m, inv_row);
}

} // verus!
