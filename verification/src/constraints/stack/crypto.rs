//! Crypto operation constraints.
//!
//! This module enforces the non-bus stack constraints for four crypto-related operations:
//!
//! - **CRYPTOSTREAM**: Encrypts memory words via XOR (i.e. addition in the prime field) with the
//!   Poseidon2 sponge rate. Constraints here enforce pointer advancement and state stability; the
//!   actual memory I/O and XOR happen via the chiplet bus (constrained elsewhere).
//!
//! - **HORNERBASE**: Evaluates a polynomial with base-field coefficients at an extension-field
//!   point, processing 8 coefficients per row via Horner's method.
//!
//! - **HORNEREXT**: Same as HORNERBASE but for polynomials with extension-field coefficients,
//!   processing 4 coefficient pairs per row.
//!
//! - **FRIE2F4**: Performs FRI layer folding, combining 4 extension-field query evaluations into 1,
//!   and verifying the previous layer's folding was correct.

use vstd::prelude::*;

use crate::constraints::columns::MainCols;
use crate::constraints::evaluator::{ConstraintEvaluator, bool_check};
use crate::constraints::ext_field::{
    QuadFeltExpr, lemma_pair_mul_associates, lemma_pair_mul_commutes, lemma_pair_mul_distributes, q,
    q_add, q_add_base, q_eq_values, q_mul, q_scale, q_sub, quad_mul_c0, quad_mul_c1,
};
use crate::constraints::op_flags::OpFlags;
use crate::field::{Felt, fadd, fmul, fsub, lemma_unit_gated_eq, p};
use crate::operations::opcodes;

verus! {

/// `tau^-1` for the fourth root of unity `tau = g^((p-1)/4)` of the Goldilocks field.
pub const TAU_INV: u64 = 18446462594437873665;

/// `tau^-2`.
pub const TAU2_INV: u64 = 18446744069414584320;

/// `tau^-3`.
pub const TAU3_INV: u64 = 281474976710656;

/// The pair of stack values `s[i], s[i + 1]`.
pub open spec fn stack_pair(m: MainCols<Felt>, i: int) -> (int, int) {
    (m.stack.top[i].val(), m.stack.top[i + 1].val())
}

/// The pair of decoder helper values `h[i], h[i + 1]` (`hasher_state[2 + i..]`).
pub open spec fn helper_pair(m: MainCols<Felt>, i: int) -> (int, int) {
    (m.decoder.hasher_state[2 + i].val(), m.decoder.hasher_state[3 + i].val())
}

/// Stack element `i` of a row.
pub open spec fn sv(m: MainCols<Felt>, i: int) -> int {
    m.stack.top[i].val()
}

// CRYPTOSTREAM
// ================================================================================================

/// The CRYPTOSTREAM constraints on the window `(l, n)`, gated by `gate`.
pub open spec fn cryptostream_values(gate: int, l: MainCols<Felt>, n: MainCols<Felt>) -> Seq<int> {
    seq![
        fmul(gate, fsub(sv(n, 8), sv(l, 8))),
        fmul(gate, fsub(sv(n, 9), sv(l, 9))),
        fmul(gate, fsub(sv(n, 10), sv(l, 10))),
        fmul(gate, fsub(sv(n, 11), sv(l, 11))),
        fmul(gate, fsub(sv(n, 12), fadd(sv(l, 12), 8))),
        fmul(gate, fsub(sv(n, 13), fadd(sv(l, 13), 8))),
        fmul(gate, fsub(sv(n, 14), sv(l, 14))),
        fmul(gate, fsub(sv(n, 15), sv(l, 15))),
    ]
}

/// CRYPTOSTREAM: encrypts two memory words via XOR with the Poseidon2 sponge rate.
///
/// The top 8 stack elements (rate/ciphertext) are updated by the chiplet bus, not
/// constrained here. These constraints enforce only:
/// - Capacity elements (s[8..12]) are preserved.
/// - Source and destination pointers (s[12], s[13]) advance by 8 (two words).
/// - Padding elements (s[14..16]) are preserved.
fn enforce_cryptostream_constraints(
    builder: &mut ConstraintEvaluator,
    local: &MainCols<Felt>,
    next: &MainCols<Felt>,
    op_flags: &OpFlags,
)
    ensures
        final(builder).periodic == old(builder).periodic,
        final(builder).is_transition == old(builder).is_transition,
        final(builder).is_first_row == old(builder).is_first_row,
        final(builder).is_last_row == old(builder).is_last_row,
        final(builder).values() == old(builder).values() + cryptostream_values(
            fmul(
                old(builder).is_transition.val(),
                op_flags.flag_of(opcodes::CRYPTOSTREAM as int).val(),
            ),
            *local,
            *next,
        ),
{
    let ghost start = builder.values();
    let gate = builder.is_transition.mul(op_flags.op_flag(opcodes::CRYPTOSTREAM));
    let s = &local.stack.top;
    let s_next = &next.stack.top;
    let eight = Felt::from_u8(8);

    // Capacity preserved.
    builder.assert_eq_when(gate, s_next[8], s[8]);
    builder.assert_eq_when(gate, s_next[9], s[9]);
    builder.assert_eq_when(gate, s_next[10], s[10]);
    builder.assert_eq_when(gate, s_next[11], s[11]);

    // Pointers advance by 8 (one memory word = 4 elements, two words per step).
    builder.assert_eq_when(gate, s_next[12], s[12].add(eight));
    builder.assert_eq_when(gate, s_next[13], s[13].add(eight));

    // Padding preserved.
    builder.assert_eq_when(gate, s_next[14], s[14]);
    builder.assert_eq_when(gate, s_next[15], s[15]);

    assert(builder.values() =~= start + cryptostream_values(gate.val(), *local, *next));
}

// HORNERBASE
// ================================================================================================

/// `alpha`, `alpha^2` and `alpha^3` of a HORNERBASE row (`alpha` in helpers `h0, h1`).
pub open spec fn alpha_powers(l: MainCols<Felt>) -> ((int, int), (int, int), (int, int)) {
    let alpha = helper_pair(l, 0);
    let alpha_sq = q_mul(alpha, alpha);
    (alpha, alpha_sq, q_mul(alpha_sq, alpha))
}

/// The stack-preservation constraints `gate * (s'[i] - s[i])` for `i < 14`.
pub open spec fn preserved_values(gate: int, l: MainCols<Felt>, n: MainCols<Felt>) -> Seq<int> {
    Seq::new(14, |i: int| fmul(gate, fsub(sv(n, i), sv(l, i))))
}

/// The HORNERBASE constraints on the window `(l, n)`: stack preservation (gated by `t * f`),
/// the two intermediate results (gated by `f`) and the accumulator (gated by `t * f`).
pub open spec fn hornerbase_values(f: int, t: int, l: MainCols<Felt>, n: MainCols<Felt>) -> Seq<int> {
    let (alpha, alpha_sq, alpha_cubed) = alpha_powers(l);
    let c = |i: int| sv(l, i);
    let tmp0 = helper_pair(l, 4);
    let tmp1 = helper_pair(l, 2);
    let acc = stack_pair(l, 14);
    let acc_next = stack_pair(n, 14);
    // tmp0 = acc * alpha^2 + (c0 * alpha + c1)
    let tmp0_expected = q_add_base(q_add(q_mul(acc, alpha_sq), q_scale(alpha, c(0))), c(1));
    // tmp1 = tmp0 * alpha^3 + (c2 * alpha^2 + c3 * alpha + c4)
    let tmp1_expected = q_add_base(
        q_add(q_add(q_mul(tmp0, alpha_cubed), q_scale(alpha_sq, c(2))), q_scale(alpha, c(3))),
        c(4),
    );
    // acc' = tmp1 * alpha^3 + (c5 * alpha^2 + c6 * alpha + c7)
    let acc_expected = q_add_base(
        q_add(q_add(q_mul(tmp1, alpha_cubed), q_scale(alpha_sq, c(5))), q_scale(alpha, c(6))),
        c(7),
    );
    preserved_values(fmul(f, t), l, n) + q_eq_values(f, tmp0, tmp0_expected) + q_eq_values(
        f,
        tmp1,
        tmp1_expected,
    ) + q_eq_values(fmul(f, t), acc_next, acc_expected)
}

/// Asserts `s'[i] == s[i]` for `i < 14`, gated by `gate`.
fn assert_stack_preserved(
    builder: &mut ConstraintEvaluator,
    gate: Felt,
    local: &MainCols<Felt>,
    next: &MainCols<Felt>,
)
    ensures
        final(builder).periodic == old(builder).periodic,
        final(builder).is_transition == old(builder).is_transition,
        final(builder).is_first_row == old(builder).is_first_row,
        final(builder).is_last_row == old(builder).is_last_row,
        final(builder).values() == old(builder).values() + preserved_values(
            gate.val(),
            *local,
            *next,
        ),
{
    let ghost start = builder.values();
    let mut i: usize = 0;
    while i < 14
        invariant
            i <= 14,
            builder.periodic == old(builder).periodic,
            builder.is_transition == old(builder).is_transition,
            builder.is_first_row == old(builder).is_first_row,
            builder.is_last_row == old(builder).is_last_row,
            builder.values() == start + Seq::new(
                i as nat,
                |j: int| fmul(gate.val(), fsub(sv(*next, j), sv(*local, j))),
            ),
        decreases 14 - i,
    {
        builder.assert_eq_when(gate, next.stack.top[i], local.stack.top[i]);
        i = i + 1;
        assert(builder.values() =~= start + Seq::new(
            i as nat,
            |j: int| fmul(gate.val(), fsub(sv(*next, j), sv(*local, j))),
        ));
    }
    assert(preserved_values(gate.val(), *local, *next) =~= Seq::new(
        14,
        |j: int| fmul(gate.val(), fsub(sv(*next, j), sv(*local, j))),
    ));
}

/// HORNERBASE: degree-7 polynomial evaluation over the quadratic extension field.
///
/// Evaluates 8 base-field coefficients at an extension-field point alpha using Horner's
/// method, split into three stages for constraint degree reduction. The coefficients are at
/// s[0..8] with c0 being the highest-degree term and c7 the constant term; the accumulator
/// is at s[14..16]; alpha, tmp1 and tmp0 are in the helpers h[0..2], h[2..4], h[4..6].
fn enforce_hornerbase_constraints(
    builder: &mut ConstraintEvaluator,
    local: &MainCols<Felt>,
    next: &MainCols<Felt>,
    op_flags: &OpFlags,
)
    ensures
        final(builder).periodic == old(builder).periodic,
        final(builder).is_transition == old(builder).is_transition,
        final(builder).is_first_row == old(builder).is_first_row,
        final(builder).is_last_row == old(builder).is_last_row,
        final(builder).values() == old(builder).values() + hornerbase_values(
            op_flags.flag_of(opcodes::HORNERBASE as int).val(),
            old(builder).is_transition.val(),
            *local,
            *next,
        ),
{
    let ghost start = builder.values();
    let flag = op_flags.op_flag(opcodes::HORNERBASE);
    let t = builder.is_transition;
    let s = &local.stack.top;
    let s_next = &next.stack.top;
    let helpers = local.decoder.user_op_helpers();

    // Stack registers preserved during transition.
    assert_stack_preserved(builder, flag.mul(t), local, next);

    // Extension element alpha and its powers.
    let alpha = QuadFeltExpr::new(helpers[0], helpers[1]);
    let alpha_sq = alpha.square();
    let alpha_cubed = alpha_sq.mul(alpha);

    // Nondeterministic intermediates from decoder helpers.
    let tmp0 = QuadFeltExpr::new(helpers[4], helpers[5]);
    let tmp1 = QuadFeltExpr::new(helpers[2], helpers[3]);

    // Accumulator.
    let acc = QuadFeltExpr::new(s[14], s[15]);
    let acc_next = QuadFeltExpr::new(s_next[14], s_next[15]);

    // tmp0 = acc * alpha^2 + (c0 * alpha + c1)
    let tmp0_expected = acc.mul(alpha_sq).add(alpha.mul_base(s[0])).add_base(s[1]);
    // tmp1 = tmp0 * alpha^3 + (c2 * alpha^2 + c3 * alpha + c4)
    let tmp1_expected = tmp0.mul(alpha_cubed).add(alpha_sq.mul_base(s[2])).add(
        alpha.mul_base(s[3]),
    ).add_base(s[4]);
    // acc' = tmp1 * alpha^3 + (c5 * alpha^2 + c6 * alpha + c7)
    let acc_expected = tmp1.mul(alpha_cubed).add(alpha_sq.mul_base(s[5])).add(
        alpha.mul_base(s[6]),
    ).add_base(s[7]);

    // Intermediate temporaries match expected polynomial evaluations.
    builder.assert_eq_ext_when(flag, tmp0, tmp0_expected);
    builder.assert_eq_ext_when(flag, tmp1, tmp1_expected);
    // Accumulator updated to next Horner step during transition.
    builder.assert_eq_ext_when(flag.mul(t), acc_next, acc_expected);

    proof {
        assert(helpers[0] == local.decoder.hasher_state[2]);
        assert(helpers[1] == local.decoder.hasher_state[3]);
        assert(helpers[2] == local.decoder.hasher_state[4]);
        assert(helpers[3] == local.decoder.hasher_state[5]);
        assert(helpers[4] == local.decoder.hasher_state[6]);
        assert(helpers[5] == local.decoder.hasher_state[7]);
        assert(builder.values() =~= start + hornerbase_values(flag.val(), t.val(), *local, *next));
    }
}

/// One HORNERBASE step. On a transition row whose HORNERBASE flag is `1`, with `alpha = h[0..2]`,
/// the accumulator `acc = (s14, s15)` and the base-field coefficients `s0..s7` (highest degree
/// first), the three pairs of constraints vanish exactly when
/// - `h[4..6] = acc * alpha^2 + s0 * alpha + s1`,
/// - `h[2..4] = h[4..6] * alpha^3 + s2 * alpha^2 + s3 * alpha + s4`,
/// - `(s14', s15') = h[2..4] * alpha^3 + s5 * alpha^2 + s6 * alpha + s7`.
pub proof fn lemma_hornerbase_step(l: MainCols<Felt>, n: MainCols<Felt>)
    ensures
        ({
            let v = hornerbase_values(1, 1, l, n);
            let s = l.stack.top;
            let alpha = (l.decoder.hasher_state[2].val(), l.decoder.hasher_state[3].val());
            let alpha2 = q_mul(alpha, alpha);
            let alpha3 = q_mul(alpha2, alpha);
            let tmp0 = (l.decoder.hasher_state[6].val(), l.decoder.hasher_state[7].val());
            let tmp1 = (l.decoder.hasher_state[4].val(), l.decoder.hasher_state[5].val());
            let acc = (s[14].val(), s[15].val());
            let acc_next = (n.stack.top[14].val(), n.stack.top[15].val());
            &&& (v[14] == 0 && v[15] == 0) <==> tmp0 == q_add_base(
                q_add(q_mul(acc, alpha2), q_scale(alpha, s[0].val())),
                s[1].val(),
            )
            &&& (v[16] == 0 && v[17] == 0) <==> tmp1 == q_add_base(
                q_add(
                    q_add(q_mul(tmp0, alpha3), q_scale(alpha2, s[2].val())),
                    q_scale(alpha, s[3].val()),
                ),
                s[4].val(),
            )
            &&& (v[18] == 0 && v[19] == 0) <==> acc_next == q_add_base(
                q_add(
                    q_add(q_mul(tmp1, alpha3), q_scale(alpha2, s[5].val())),
                    q_scale(alpha, s[6].val()),
                ),
                s[7].val(),
            )
        }),
{
    let v = hornerbase_values(1, 1, l, n);
    let (alpha, alpha_sq, alpha_cubed) = alpha_powers(l);
    let c = |i: int| sv(l, i);
    let tmp0 = helper_pair(l, 4);
    let tmp1 = helper_pair(l, 2);
    let acc = stack_pair(l, 14);
    let acc_next = stack_pair(n, 14);
    let e0 = q_add_base(q_add(q_mul(acc, alpha_sq), q_scale(alpha, c(0))), c(1));
    let e1 = q_add_base(
        q_add(q_add(q_mul(tmp0, alpha_cubed), q_scale(alpha_sq, c(2))), q_scale(alpha, c(3))),
        c(4),
    );
    let e2 = q_add_base(
        q_add(q_add(q_mul(tmp1, alpha_cubed), q_scale(alpha_sq, c(5))), q_scale(alpha, c(6))),
        c(7),
    );
    assert(fmul(1, 1) == 1) by {
        vstd::arithmetic::div_mod::lemma_small_mod(1, p() as nat);
    }
    assert(v[14] == fmul(1, fsub(tmp0.0, e0.0)));
    assert(v[15] == fmul(1, fsub(tmp0.1, e0.1)));
    assert(v[16] == fmul(1, fsub(tmp1.0, e1.0)));
    assert(v[17] == fmul(1, fsub(tmp1.1, e1.1)));
    assert(v[18] == fmul(1, fsub(acc_next.0, e2.0)));
    assert(v[19] == fmul(1, fsub(acc_next.1, e2.1)));
    l.decoder.hasher_state[4].lemma_val_range();
    l.decoder.hasher_state[5].lemma_val_range();
    l.decoder.hasher_state[6].lemma_val_range();
    l.decoder.hasher_state[7].lemma_val_range();
    n.stack.top[14].lemma_val_range();
    n.stack.top[15].lemma_val_range();
    lemma_unit_gated_eq(tmp0.0, e0.0);
    lemma_unit_gated_eq(tmp0.1, e0.1);
    lemma_unit_gated_eq(tmp1.0, e1.0);
    lemma_unit_gated_eq(tmp1.1, e1.1);
    lemma_unit_gated_eq(acc_next.0, e2.0);
    lemma_unit_gated_eq(acc_next.1, e2.1);
}

// HORNEREXT
// ================================================================================================

/// The HORNEREXT constraints on the window `(l, n)`: stack preservation (gated by `t * f`),
/// the intermediate result (gated by `f`) and the accumulator (gated by `t * f`).
pub open spec fn hornerext_values(f: int, t: int, l: MainCols<Felt>, n: MainCols<Felt>) -> Seq<int> {
    let alpha = helper_pair(l, 0);
    let alpha_sq = q_mul(alpha, alpha);
    let tmp = helper_pair(l, 4);
    let acc = stack_pair(l, 14);
    let acc_next = stack_pair(n, 14);
    let (c0, c1, c2, c3) = (stack_pair(l, 0), stack_pair(l, 2), stack_pair(l, 4), stack_pair(l, 6));
    // tmp = acc * alpha^2 + (c0 * alpha + c1)
    let tmp_expected = q_add(q_add(q_mul(acc, alpha_sq), q_mul(alpha, c0)), c1);
    // acc' = tmp * alpha^2 + (c2 * alpha + c3)
    let acc_expected = q_add(q_add(q_mul(tmp, alpha_sq), q_mul(alpha, c2)), c3);
    preserved_values(fmul(f, t), l, n) + q_eq_values(f, tmp, tmp_expected) + q_eq_values(
        fmul(f, t),
        acc_next,
        acc_expected,
    )
}

/// HORNEREXT: degree-3 polynomial evaluation over the quadratic extension field.
///
/// Same Horner structure as HORNERBASE but with extension-field coefficients (pairs at
/// s[0..8], highest degree first); alpha is in h[0..2] and the intermediate in h[4..6].
fn enforce_hornerext_constraints(
    builder: &mut ConstraintEvaluator,
    local: &MainCols<Felt>,
    next: &MainCols<Felt>,
    op_flags: &OpFlags,
)
    ensures
        final(builder).periodic == old(builder).periodic,
        final(builder).is_transition == old(builder).is_transition,
        final(builder).is_first_row == old(builder).is_first_row,
        final(builder).is_last_row == old(builder).is_last_row,
        final(builder).values() == old(builder).values() + hornerext_values(
            op_flags.flag_of(opcodes::HORNEREXT as int).val(),
            old(builder).is_transition.val(),
            *local,
            *next,
        ),
{
    let ghost start = builder.values();
    let flag = op_flags.op_flag(opcodes::HORNEREXT);
    let t = builder.is_transition;
    let s = &local.stack.top;
    let s_next = &next.stack.top;
    let helpers = local.decoder.user_op_helpers();

    // Stack registers preserved during transition.
    assert_stack_preserved(builder, flag.mul(t), local, next);

    // Extension element alpha and its square.
    let alpha = QuadFeltExpr::new(helpers[0], helpers[1]);
    let alpha_sq = alpha.square();

    // Nondeterministic intermediate from decoder helpers.
    let tmp = QuadFeltExpr::new(helpers[4], helpers[5]);

    // Accumulator.
    let acc = QuadFeltExpr::new(s[14], s[15]);
    let acc_next = QuadFeltExpr::new(s_next[14], s_next[15]);

    // Extension-field coefficient pairs from the stack.
    let c0 = QuadFeltExpr::new(s[0], s[1]);
    let c1 = QuadFeltExpr::new(s[2], s[3]);
    let c2 = QuadFeltExpr::new(s[4], s[5]);
    let c3 = QuadFeltExpr::new(s[6], s[7]);

    // tmp = acc * alpha^2 + (c0 * alpha + c1)
    let tmp_expected = acc.mul(alpha_sq).add(alpha.mul(c0)).add(c1);
    // acc' = tmp * alpha^2 + (c2 * alpha + c3)
    let acc_expected = tmp.mul(alpha_sq).add(alpha.mul(c2)).add(c3);

    builder.assert_eq_ext_when(flag, tmp, tmp_expected);
    builder.assert_eq_ext_when(flag.mul(t), acc_next, acc_expected);

    proof {
        assert(helpers[0] == local.decoder.hasher_state[2]);
        assert(helpers[1] == local.decoder.hasher_state[3]);
        assert(helpers[4] == local.decoder.hasher_state[6]);
        assert(helpers[5] == local.decoder.hasher_state[7]);
        assert(builder.values() =~= start + hornerext_values(flag.val(), t.val(), *local, *next));
    }
}

/// One HORNEREXT step. On a transition row whose HORNEREXT flag is `1`, with `alpha = h[0..2]`,
/// the accumulator `acc = (s14, s15)` and the coefficient pairs `(s0, s1)`, `(s2, s3)`,
/// `(s4, s5)`, `(s6, s7)` (highest degree first):
/// - the intermediate constraints vanish exactly when `h[4..6] = acc * alpha^2 + (s0, s1) * alpha
///   + (s2, s3)`;
/// - the accumulator constraints vanish exactly when `(s14', s15') = h[4..6] * alpha^2 + (s4, s5)
///   * alpha + (s6, s7)`.
pub proof fn lemma_hornerext_step(l: MainCols<Felt>, n: MainCols<Felt>)
    ensures
        ({
            let v = hornerext_values(1, 1, l, n);
            let alpha = (l.decoder.hasher_state[2].val(), l.decoder.hasher_state[3].val());
            let acc = (l.stack.top[14].val(), l.stack.top[15].val());
            let tmp = (l.decoder.hasher_state[6].val(), l.decoder.hasher_state[7].val());
            let c0 = (l.stack.top[0].val(), l.stack.top[1].val());
            let c1 = (l.stack.top[2].val(), l.stack.top[3].val());
            (v[14] == 0 && v[15] == 0) <==> tmp == q_add(
                q_add(q_mul(acc, q_mul(alpha, alpha)), q_mul(c0, alpha)),
                c1,
            )
        }),
        ({
            let v = hornerext_values(1, 1, l, n);
            let alpha = (l.decoder.hasher_state[2].val(), l.decoder.hasher_state[3].val());
            let tmp = (l.decoder.hasher_state[6].val(), l.decoder.hasher_state[7].val());
            let acc_next = (n.stack.top[14].val(), n.stack.top[15].val());
            let c2 = (l.stack.top[4].val(), l.stack.top[5].val());
            let c3 = (l.stack.top[6].val(), l.stack.top[7].val());
            (v[16] == 0 && v[17] == 0) <==> acc_next == q_add(
                q_add(q_mul(tmp, q_mul(alpha, alpha)), q_mul(c2, alpha)),
                c3,
            )
        }),
{
    let v = hornerext_values(1, 1, l, n);
    let alpha = helper_pair(l, 0);
    let alpha_sq = q_mul(alpha, alpha);
    let tmp = helper_pair(l, 4);
    let acc = stack_pair(l, 14);
    let acc_next = stack_pair(n, 14);
    let (c0, c1, c2, c3) = (stack_pair(l, 0), stack_pair(l, 2), stack_pair(l, 4), stack_pair(l, 6));
    let tmp_expected = q_add(q_add(q_mul(acc, alpha_sq), q_mul(c0, alpha)), c1);
    let acc_expected = q_add(q_add(q_mul(tmp, alpha_sq), q_mul(c2, alpha)), c3);
    // the extension product commutes
    assert(q_mul(alpha, c0) == q_mul(c0, alpha)) by {
        assert(alpha.0 * c0.0 + 7 * (alpha.1 * c0.1) == c0.0 * alpha.0 + 7 * (c0.1 * alpha.1))
            by (nonlinear_arith);
        assert(alpha.0 * c0.1 + alpha.1 * c0.0 == c0.0 * alpha.1 + c0.1 * alpha.0)
            by (nonlinear_arith);
    }
    assert(q_mul(alpha, c2) == q_mul(c2, alpha)) by {
        assert(alpha.0 * c2.0 + 7 * (alpha.1 * c2.1) == c2.0 * alpha.0 + 7 * (c2.1 * alpha.1))
            by (nonlinear_arith);
        assert(alpha.0 * c2.1 + alpha.1 * c2.0 == c2.0 * alpha.1 + c2.1 * alpha.0)
            by (nonlinear_arith);
    }
    assert(preserved_values(fmul(1, 1), l, n).len() == 14);
    assert(v[14] == fmul(1, fsub(tmp.0, tmp_expected.0)));
    assert(v[15] == fmul(1, fsub(tmp.1, tmp_expected.1)));
    assert(v[16] == fmul(fmul(1, 1), fsub(acc_next.0, acc_expected.0)));
    assert(v[17] == fmul(fmul(1, 1), fsub(acc_next.1, acc_expected.1)));
    assert(fmul(1, 1) == 1) by {
        vstd::arithmetic::div_mod::lemma_small_mod(1, p() as nat);
    }
    l.decoder.hasher_state[6].lemma_val_range();
    l.decoder.hasher_state[7].lemma_val_range();
    n.stack.top[14].lemma_val_range();
    n.stack.top[15].lemma_val_range();
    lemma_unit_gated_eq(tmp.0, tmp_expected.0);
    lemma_unit_gated_eq(tmp.1, tmp_expected.1);
    lemma_unit_gated_eq(acc_next.0, acc_expected.0);
    lemma_unit_gated_eq(acc_next.1, acc_expected.1);
}

/// A HORNEREXT transition row evaluates four coefficients: when the intermediate and accumulator
/// constraints of a row whose HORNEREXT flag is `1` all vanish, the next accumulator is
/// `acc * alpha^4 + (s0, s1) * alpha^3 + (s2, s3) * alpha^2 + (s4, s5) * alpha + (s6, s7)`.
pub proof fn lemma_hornerext_evaluates(l: MainCols<Felt>, n: MainCols<Felt>)
    ensures
        ({
            let v = hornerext_values(1, 1, l, n);
            let alpha = (l.decoder.hasher_state[2].val(), l.decoder.hasher_state[3].val());
            let alpha2 = q_mul(alpha, alpha);
            let alpha3 = q_mul(alpha2, alpha);
            let alpha4 = q_mul(alpha2, alpha2);
            let acc = (l.stack.top[14].val(), l.stack.top[15].val());
            let acc_next = (n.stack.top[14].val(), n.stack.top[15].val());
            let c0 = (l.stack.top[0].val(), l.stack.top[1].val());
            let c1 = (l.stack.top[2].val(), l.stack.top[3].val());
            let c2 = (l.stack.top[4].val(), l.stack.top[5].val());
            let c3 = (l.stack.top[6].val(), l.stack.top[7].val());
            v[14] == 0 && v[15] == 0 && v[16] == 0 && v[17] == 0 ==> acc_next == q_add(
                q_add(
                    q_add(q_add(q_mul(acc, alpha4), q_mul(c0, alpha3)), q_mul(c1, alpha2)),
                    q_mul(c2, alpha),
                ),
                c3,
            )
        }),
{
    lemma_hornerext_step(l, n);
    let alpha = helper_pair(l, 0);
    let alpha2 = q_mul(alpha, alpha);
    let acc = stack_pair(l, 14);
    let c0 = stack_pair(l, 0);
    let c1 = stack_pair(l, 2);
    let head = q_add(q_mul(acc, alpha2), q_mul(c0, alpha));
    // (acc * a2 + c0 * a + c1) * a2 == acc * a4 + c0 * a3 + c1 * a2
    lemma_pair_mul_distributes(alpha2, head, c1);
    lemma_pair_mul_distributes(alpha2, q_mul(acc, alpha2), q_mul(c0, alpha));
    lemma_pair_mul_associates(acc, alpha2, alpha2);
    lemma_pair_mul_associates(c0, alpha, alpha2);
    lemma_pair_mul_commutes(alpha, alpha2);
}

// FRIE2F4
// ================================================================================================

/// `2 * fold2(a, b, ep) = (a + b) + (a - b) * ep`.
pub open spec fn fold2_doubled(a: (int, int), b: (int, int), ep: (int, int)) -> (int, int) {
    q_add(q_add(a, b), q_mul(q_sub(a, b), ep))
}

/// The first FRIE2F4 constraints: the domain segment flags, the tree index, the tau factor,
/// the domain point and its inverse.
pub open spec fn frie2f4_segment_values(f: int, l: MainCols<Felt>, n: MainCols<Felt>) -> Seq<int> {
    let (g0, g1, g2, g3) = (sv(n, 4), sv(n, 5), sv(n, 6), sv(n, 7));
    let segment_index = fadd(fadd(fadd(g1, g1), g2), fmul(g3, 3));
    let expected_tau = fadd(
        fadd(fadd(g0, fmul(g1, TAU_INV as int)), fmul(g2, TAU2_INV as int)),
        fmul(g3, TAU3_INV as int),
    );
    let tau_factor = sv(n, 9);
    let domain_point = l.decoder.hasher_state[6].val();
    let domain_point_inv = l.decoder.hasher_state[7].val();
    seq![
        fmul(f, bool_check(g0)),
        fmul(f, bool_check(g1)),
        fmul(f, bool_check(g2)),
        fmul(f, bool_check(g3)),
        fmul(f, fsub(fadd(fadd(fadd(g0, g1), g2), g3), 1)),
        fmul(f, fsub(sv(l, 9), fadd(fmul(sv(n, 12), 4), segment_index))),
        fmul(f, fsub(tau_factor, expected_tau)),
        fmul(f, fsub(domain_point, fmul(sv(l, 10), tau_factor))),
        fmul(f, fsub(fmul(domain_point, domain_point_inv), 1)),
    ]
}

/// The FRIE2F4 folding constraints: the evaluation point and its square, the three fold2
/// applications, the previous layer's value, and the state updates for the next layer.
pub open spec fn frie2f4_fold_values(f: int, l: MainCols<Felt>, n: MainCols<Felt>) -> Seq<int> {
    let q0 = stack_pair(l, 0);
    let q2 = stack_pair(l, 2);
    let q1 = stack_pair(l, 4);
    let q3 = stack_pair(l, 6);
    let prev_eval = stack_pair(l, 11);
    let alpha = stack_pair(l, 13);
    let (g0, g1, g2, g3) = (sv(n, 4), sv(n, 5), sv(n, 6), sv(n, 7));
    let domain_point_inv = l.decoder.hasher_state[7].val();
    let eval_point = helper_pair(l, 0);
    let eval_point_sq = helper_pair(l, 2);
    let fold_mid0 = stack_pair(n, 0);
    let fold_mid1 = stack_pair(n, 2);
    let fold_result = stack_pair(n, 13);
    let selected_re = fadd(
        fadd(fadd(fmul(sv(l, 0), g0), fmul(sv(l, 4), g1)), fmul(sv(l, 2), g2)),
        fmul(sv(l, 6), g3),
    );
    let selected_im = fadd(
        fadd(fadd(fmul(sv(l, 1), g0), fmul(sv(l, 5), g1)), fmul(sv(l, 3), g2)),
        fmul(sv(l, 7), g3),
    );
    q_eq_values(f, eval_point, q_scale(alpha, domain_point_inv)) + q_eq_values(
        f,
        eval_point_sq,
        q_mul(eval_point, eval_point),
    ) + q_eq_values(f, q_add(fold_mid0, fold_mid0), fold2_doubled(q0, q2, eval_point))
        + q_eq_values(
        f,
        q_add(fold_mid1, fold_mid1),
        fold2_doubled(q1, q3, q_scale(eval_point, TAU_INV as int)),
    ) + q_eq_values(
        f,
        q_add(fold_result, fold_result),
        fold2_doubled(fold_mid0, fold_mid1, eval_point_sq),
    ) + q_eq_values(f, prev_eval, (selected_re, selected_im)) + seq![
        fmul(f, fsub(sv(n, 8), fmul(sv(l, 10), sv(l, 10)))),
        fmul(f, fsub(sv(n, 11), fmul(sv(n, 8), sv(n, 8)))),
        fmul(f, fsub(sv(n, 10), fadd(sv(l, 15), 8))),
        fmul(f, fsub(sv(n, 12), sv(l, 8))),
    ]
}

/// FRIE2F4, first part: the domain segment flags, the tree index, the tau factor, and the
/// domain point with its inverse.
fn enforce_frie2f4_segment(
    builder: &mut ConstraintEvaluator,
    local: &MainCols<Felt>,
    next: &MainCols<Felt>,
    flag: Felt,
)
    ensures
        final(builder).periodic == old(builder).periodic,
        final(builder).is_transition == old(builder).is_transition,
        final(builder).is_first_row == old(builder).is_first_row,
        final(builder).is_last_row == old(builder).is_last_row,
        final(builder).values() == old(builder).values() + frie2f4_segment_values(
            flag.val(),
            *local,
            *next,
        ),
{
    let ghost start = builder.values();
    let s = &local.stack.top;
    let s_next = &next.stack.top;
    let helpers = local.decoder.user_op_helpers();
    let tau_inv = Felt::new_unchecked(TAU_INV);
    let tau2_inv = Felt::new_unchecked(TAU2_INV);
    let tau3_inv = Felt::new_unchecked(TAU3_INV);
    proof {
        vstd::arithmetic::div_mod::lemma_small_mod(TAU_INV as nat, p() as nat);
        vstd::arithmetic::div_mod::lemma_small_mod(TAU2_INV as nat, p() as nat);
        vstd::arithmetic::div_mod::lemma_small_mod(TAU3_INV as nat, p() as nat);
        assert(helpers[4] == local.decoder.hasher_state[6]);
        assert(helpers[5] == local.decoder.hasher_state[7]);
    }
    let tree_index = s[9];
    let poe = s[10];

    // Determine which coset of the 4-element multiplicative subgroup this query belongs
    // to. The segment flags are one-hot: exactly one is 1.
    let seg_flag_0 = s_next[4];
    let seg_flag_1 = s_next[5];
    let seg_flag_2 = s_next[6];
    let seg_flag_3 = s_next[7];
    builder.assert_bool_when(flag, seg_flag_0);
    builder.assert_bool_when(flag, seg_flag_1);
    builder.assert_bool_when(flag, seg_flag_2);
    builder.assert_bool_when(flag, seg_flag_3);
    builder.assert_eq_when(
        flag,
        seg_flag_0.add(seg_flag_1).add(seg_flag_2).add(seg_flag_3),
        Felt::one(),
    );

    // tree_index = 4 * folded_pos + segment_index, with the bit-reversed mapping
    // flag0 -> 0, flag1 -> 2, flag2 -> 1, flag3 -> 3.
    let folded_pos_next = s_next[12];
    let segment_index = seg_flag_1.double().add(seg_flag_2).add(seg_flag_3.mul(Felt::from_u8(3)));
    builder.assert_eq_when(
        flag,
        tree_index,
        folded_pos_next.mul(Felt::from_u8(4)).add(segment_index),
    );

    // Each segment corresponds to a power of tau^-1.
    let tau_factor = s_next[9];
    let expected_tau = seg_flag_0.add(seg_flag_1.mul(tau_inv)).add(seg_flag_2.mul(tau2_inv)).add(
        seg_flag_3.mul(tau3_inv),
    );
    builder.assert_eq_when(flag, tau_factor, expected_tau);

    // domain_point = poe * tau_factor, with a verified inverse.
    let domain_point = helpers[4];
    let domain_point_inv = helpers[5];
    builder.assert_eq_when(flag, domain_point, poe.mul(tau_factor));
    builder.assert_eq_when(flag, domain_point.mul(domain_point_inv), Felt::one());
    assert(builder.values() =~= start + frie2f4_segment_values(flag.val(), *local, *next));
}

/// FRIE2F4, second part: the evaluation point and its square, the three fold2 applications,
/// the previous layer's value and the state updates for the next layer.
fn enforce_frie2f4_fold(
    builder: &mut ConstraintEvaluator,
    local: &MainCols<Felt>,
    next: &MainCols<Felt>,
    flag: Felt,
)
    ensures
        final(builder).periodic == old(builder).periodic,
        final(builder).is_transition == old(builder).is_transition,
        final(builder).is_first_row == old(builder).is_first_row,
        final(builder).is_last_row == old(builder).is_last_row,
        final(builder).values() == old(builder).values() + frie2f4_fold_values(
            flag.val(),
            *local,
            *next,
        ),
{
    let ghost start = builder.values();
    let s = &local.stack.top;
    let s_next = &next.stack.top;
    let helpers = local.decoder.user_op_helpers();
    let tau_inv = Felt::new_unchecked(TAU_INV);
    proof {
        vstd::arithmetic::div_mod::lemma_small_mod(TAU_INV as nat, p() as nat);
        assert(helpers[0] == local.decoder.hasher_state[2]);
        assert(helpers[1] == local.decoder.hasher_state[3]);
        assert(helpers[2] == local.decoder.hasher_state[4]);
        assert(helpers[3] == local.decoder.hasher_state[5]);
        assert(helpers[5] == local.decoder.hasher_state[7]);
    }

    // Query values in natural order for fold4 (stack order is bit-reversed).
    let q0 = QuadFeltExpr::new(s[0], s[1]);
    let q2 = QuadFeltExpr::new(s[2], s[3]);
    let q1 = QuadFeltExpr::new(s[4], s[5]);
    let q3 = QuadFeltExpr::new(s[6], s[7]);
    let folded_pos = s[8];
    let poe = s[10];
    let prev_eval = QuadFeltExpr::new(s[11], s[12]);
    let alpha = QuadFeltExpr::new(s[13], s[14]);
    let layer_ptr = s[15];
    let seg_flag_0 = s_next[4];
    let seg_flag_1 = s_next[5];
    let seg_flag_2 = s_next[6];
    let seg_flag_3 = s_next[7];
    let domain_point_inv = helpers[5];

    // eval_point = alpha / domain_point = alpha * domain_point_inv (in Fp2).
    let eval_point = QuadFeltExpr::new(helpers[0], helpers[1]);
    builder.assert_eq_ext_when(flag, eval_point, alpha.mul_base(domain_point_inv));

    // eval_point_sq = eval_point^2 (needed for the final fold2 round).
    let eval_point_sq = QuadFeltExpr::new(helpers[2], helpers[3]);
    builder.assert_eq_ext_when(flag, eval_point_sq, eval_point.square());

    // fold4 as three fold2 applications, in the form 2 * result = (a + b) + (a - b) * ep.
    let fold_mid0 = QuadFeltExpr::new(s_next[0], s_next[1]);
    let fold_mid1 = QuadFeltExpr::new(s_next[2], s_next[3]);
    let fold_result = QuadFeltExpr::new(s_next[13], s_next[14]);

    builder.assert_eq_ext_when(flag, fold_mid0.double(), q0.add(q2).add(q0.sub(q2).mul(eval_point)));

    // The second conjugate pair lives on a coset shifted by tau.
    let eval_point_coset = eval_point.mul_base(tau_inv);
    builder.assert_eq_ext_when(
        flag,
        fold_mid1.double(),
        q1.add(q3).add(q1.sub(q3).mul(eval_point_coset)),
    );

    builder.assert_eq_ext_when(
        flag,
        fold_result.double(),
        fold_mid0.add(fold_mid1).add(fold_mid0.sub(fold_mid1).mul(eval_point_sq)),
    );
    let ghost mid = builder.values();

    // The previous layer's folded value equals the query value selected by the segment
    // flags: seg_flag_0 -> q0, seg_flag_1 -> q1, seg_flag_2 -> q2, seg_flag_3 -> q3.
    let selected_re = s[0].mul(seg_flag_0).add(s[4].mul(seg_flag_1)).add(s[2].mul(seg_flag_2)).add(
        s[6].mul(seg_flag_3),
    );
    let selected_im = s[1].mul(seg_flag_0).add(s[5].mul(seg_flag_1)).add(s[3].mul(seg_flag_2)).add(
        s[7].mul(seg_flag_3),
    );
    builder.assert_eq_ext_when(flag, prev_eval, QuadFeltExpr::new(selected_re, selected_im));

    // Domain generator powers for the next layer: poe -> poe^2 -> poe^4.
    let poe_sq = s_next[8];
    let poe_fourth = s_next[11];
    builder.assert_eq_when(flag, poe_sq, poe.mul(poe));
    builder.assert_eq_when(flag, poe_fourth, poe_sq.mul(poe_sq));

    // Advance the layer pointer and preserve the folded position.
    let layer_ptr_next = s_next[10];
    builder.assert_eq_when(flag, layer_ptr_next, layer_ptr.add(Felt::from_u8(8)));
    builder.assert_eq_when(flag, s_next[12], folded_pos);

    assert(builder.values() =~= start + frie2f4_fold_values(flag.val(), *local, *next));
}

/// FRIE2F4: FRI layer folding; folds 4 extension-field query evaluations into 1.
///
/// The fold4 algorithm applies fold2 three times:
///   fold_mid0   = fold2(q0, q2, eval_point)
///   fold_mid1   = fold2(q1, q3, eval_point * tau^-1)
///   fold_result = fold2(fold_mid0, fold_mid1, eval_point_sq)
///
/// where eval_point = alpha / domain_point and domain_point = poe * tau_factor. The
/// operation also checks that the previous layer's folding selected the right query value
/// and advances state for the next layer (poe -> poe^4, layer pointer += 8).
fn enforce_frie2f4_constraints(
    builder: &mut ConstraintEvaluator,
    local: &MainCols<Felt>,
    next: &MainCols<Felt>,
    op_flags: &OpFlags,
)
    ensures
        final(builder).periodic == old(builder).periodic,
        final(builder).is_transition == old(builder).is_transition,
        final(builder).is_first_row == old(builder).is_first_row,
        final(builder).is_last_row == old(builder).is_last_row,
        final(builder).values() == old(builder).values() + (frie2f4_segment_values(
            op_flags.flag_of(opcodes::FRIE2F4 as int).val(),
            *local,
            *next,
        ) + frie2f4_fold_values(op_flags.flag_of(opcodes::FRIE2F4 as int).val(), *local, *next)),
{
    let ghost start = builder.values();
    let flag = op_flags.op_flag(opcodes::FRIE2F4);
    enforce_frie2f4_segment(builder, local, next, flag);
    enforce_frie2f4_fold(builder, local, next, flag);
    proof {
        vstd::seq_lib::lemma_concat_associative(
            start,
            frie2f4_segment_values(flag.val(), *local, *next),
            frie2f4_fold_values(flag.val(), *local, *next),
        );
    }
}

// ENTRY POINT
// ================================================================================================

/// The values of all crypto operation constraints on the window `(l, n)`.
pub open spec fn crypto_constraint_values(
    flags: OpFlags,
    t: int,
    l: MainCols<Felt>,
    n: MainCols<Felt>,
) -> Seq<int> {
    let f_frie = flags.flag_of(opcodes::FRIE2F4 as int).val();
    cryptostream_values(fmul(t, flags.flag_of(opcodes::CRYPTOSTREAM as int).val()), l, n)
        + hornerbase_values(flags.flag_of(opcodes::HORNERBASE as int).val(), t, l, n)
        + hornerext_values(flags.flag_of(opcodes::HORNEREXT as int).val(), t, l, n)
        + frie2f4_segment_values(f_frie, l, n) + frie2f4_fold_values(f_frie, l, n)
}

/// Enforces crypto operation constraints.
pub fn enforce_main(
    builder: &mut ConstraintEvaluator,
    local: &MainCols<Felt>,
    next: &MainCols<Felt>,
    op_flags: &OpFlags,
)
    ensures
        final(builder).periodic == old(builder).periodic,
        final(builder).is_transition == old(builder).is_transition,
        final(builder).is_first_row == old(builder).is_first_row,
        final(builder).is_last_row == old(builder).is_last_row,
        final(builder).values() == old(builder).values() + crypto_constraint_values(
            *op_flags,
            old(builder).is_transition.val(),
            *local,
            *next,
        ),
{
    let ghost start = builder.values();
    let ghost (t, l, n, flags) = (builder.is_transition.val(), *local, *next, *op_flags);
    let ghost a = cryptostream_values(fmul(t, flags.flag_of(opcodes::CRYPTOSTREAM as int).val()), l, n);
    let ghost b = hornerbase_values(flags.flag_of(opcodes::HORNERBASE as int).val(), t, l, n);
    let ghost c = hornerext_values(flags.flag_of(opcodes::HORNEREXT as int).val(), t, l, n);
    let ghost d = frie2f4_segment_values(flags.flag_of(opcodes::FRIE2F4 as int).val(), l, n)
        + frie2f4_fold_values(flags.flag_of(opcodes::FRIE2F4 as int).val(), l, n);
    enforce_cryptostream_constraints(builder, local, next, op_flags);
    enforce_hornerbase_constraints(builder, local, next, op_flags);
    enforce_hornerext_constraints(builder, local, next, op_flags);
    enforce_frie2f4_constraints(builder, local, next, op_flags);
    proof {
        vstd::seq_lib::lemma_concat_associative(start, a, b);
        vstd::seq_lib::lemma_concat_associative(start, a + b, c);
        vstd::seq_lib::lemma_concat_associative(start, a + b + c, d);
        vstd::seq_lib::lemma_concat_associative(
            a + b + c,
            frie2f4_segment_values(flags.flag_of(opcodes::FRIE2F4 as int).val(), l, n),
            frie2f4_fold_values(flags.flag_of(opcodes::FRIE2F4 as int).val(), l, n),
        );
        assert(crypto_constraint_values(flags, t, l, n) == a + b + c + d);
    }
}

} // verus!
