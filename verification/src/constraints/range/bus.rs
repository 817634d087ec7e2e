//! Range checker bus constraint (LogUp).
//!
//! The range checker answers range-check lookups from the stack (four decoder helper columns
//! of u32 operations) and from the memory chiplet (the two delta limbs). Each lookup of a value
//! `v` contributes `1 / (alpha + v)`; the range checker's row contributes
//! `multiplicity / (alpha + value)`. Multiplying through by all denominators gives the
//! polynomial transition constraint enforced here.

use vstd::prelude::*;

use crate::constraints::bus::indices::B_RANGE;
use crate::constraints::chiplets::columns::MemoryCols;
use crate::constraints::chiplets::selectors::ChipletSelectors;
use crate::constraints::columns::MainCols;
use crate::constraints::decoder::bus::{challenges_fit, has_aux};
use crate::constraints::evaluator::ConstraintEvaluator;
use crate::constraints::ext_field::{
    lemma_pair_mul_associates, lemma_pair_mul_commutes, lemma_pair_mul_distributes,
    lemma_pair_mul_one, lemma_pair_scale_is_mul, q, q_add, q_add_base, q_base, q_mul, q_one,
    q_scale, q_sub,
};
use crate::constraints::op_flags::OpFlags;
use crate::field::{
    Felt, fadd, fmul, fsub, lemma_fsub_zero_iff, lemma_mod_add_left, lemma_mod_mod,
    lemma_mod_sub_left, lemma_mod_sub_right, p,
};
use crate::trace::Challenges;
use crate::trace::bus_types::RANGE_CHECK_BUS;

verus! {

/// The value of the LogUp transition expression of the range checker bus on the window
/// `(l, b, b')`: `b' * L - b * L - m * S * M + sflag * (..) + mflag * (..)`, with
/// `L = R * S * M` the product of all denominators.
pub open spec fn range_bus_expr(
    l: MainCols<Felt>,
    b: (int, int),
    b_next: (int, int),
    f: OpFlags,
    ch: Challenges,
    memory_active: int,
) -> (int, int) {
    let alpha = ch.prefix(RANGE_CHECK_BUS as int);
    let mem = MemoryCols::from_seq(l.chiplets@.subrange(3, 18));
    let mv0 = q_add_base(alpha, mem.d0.val());
    let mv1 = q_add_base(alpha, mem.d1.val());
    let sv0 = q_add_base(alpha, l.decoder.hasher_state[2].val());
    let sv1 = q_add_base(alpha, l.decoder.hasher_state[3].val());
    let sv2 = q_add_base(alpha, l.decoder.hasher_state[4].val());
    let sv3 = q_add_base(alpha, l.decoder.hasher_state[5].val());
    let range_check = q_add_base(alpha, l.range.value.val());
    let memory_lookups = q_mul(mv0, mv1);
    let stack_lookups = q_mul(q_mul(q_mul(sv0, sv1), sv2), sv3);
    let lookups = q_mul(q_mul(range_check, stack_lookups), memory_lookups);
    let sflag_rc_mem = q_scale(q_mul(range_check, memory_lookups), f.u32_rc_op.val());
    let mflag_rc_stack = q_scale(q_mul(range_check, stack_lookups), memory_active);
    let b_next_term = q_mul(b_next, lookups);
    let b_term = q_mul(b, lookups);
    let rc_term = q_scale(q_mul(stack_lookups, memory_lookups), l.range.multiplicity.val());
    let s0_term = q_mul(q_mul(q_mul(sflag_rc_mem, sv1), sv2), sv3);
    let s1_term = q_mul(q_mul(q_mul(sflag_rc_mem, sv0), sv2), sv3);
    let s2_term = q_mul(q_mul(q_mul(sflag_rc_mem, sv0), sv1), sv3);
    let s3_term = q_mul(q_mul(q_mul(sflag_rc_mem, sv0), sv1), sv2);
    let m0_term = q_mul(mflag_rc_stack, mv1);
    let m1_term = q_mul(mflag_rc_stack, mv0);
    q_add(q_add(q_add(q_add(q_add(q_add(q_sub(q_sub(b_next_term, b_term), rc_term), s0_term),
        s1_term), s2_term), s3_term), m0_term), m1_term)
}

// THE BALANCE AS FRACTIONS
// ================================================================================================

/// `a * (x * b) == x * (a * b)`.
proof fn lemma_swap_front(a: (int, int), x: (int, int), b: (int, int))
    ensures
        q_mul(a, q_mul(x, b)) == q_mul(x, q_mul(a, b)),
{
    lemma_pair_mul_associates(a, x, b);
    lemma_pair_mul_commutes(a, x);
    lemma_pair_mul_associates(x, a, b);
}

/// `(k * a) * b == k * (a * b)` for a base value `k`.
proof fn lemma_scaled_times(a: (int, int), b: (int, int), k: int)
    ensures
        q_mul(q_scale(a, k), b) == q_scale(q_mul(a, b), k),
{
    lemma_pair_scale_is_mul(a, k);
    lemma_pair_scale_is_mul(q_mul(a, b), k);
    lemma_pair_mul_associates(a, q_base(k), b);
    lemma_pair_mul_commutes(q_base(k), b);
    lemma_pair_mul_associates(a, b, q_base(k));
}

/// With `x * ix == 1`: `(k * ix) * (x * y) == k * y`.
proof fn lemma_cancel(x: (int, int), ix: (int, int), y: (int, int), k: int)
    requires
        q_mul(x, ix) == q_one(),
    ensures
        q_mul(q_scale(ix, k), q_mul(x, y)) == q_scale(y, k),
{
    let kk = q_base(k);
    let ky = q_mul(kk, y);
    lemma_pair_scale_is_mul(ix, k);
    lemma_pair_scale_is_mul(y, k);
    lemma_pair_mul_associates(ix, kk, q_mul(x, y));
    lemma_swap_front(kk, x, y);
    lemma_swap_front(ix, x, ky);
    lemma_pair_mul_associates(x, ix, ky);
    lemma_mod_mod(kk.0 * y.0 + 7 * (kk.1 * y.1));
    lemma_mod_mod(kk.0 * y.1 + kk.1 * y.0);
    lemma_pair_mul_one(ky);
    lemma_pair_mul_commutes(kk, y);
}

/// Products of invertible elements are invertible: `(a * b) * (ia * ib) == 1`.
proof fn lemma_inv_mul(a: (int, int), ia: (int, int), b: (int, int), ib: (int, int))
    requires
        q_mul(a, ia) == q_one(),
        q_mul(b, ib) == q_one(),
    ensures
        q_mul(q_mul(a, b), q_mul(ia, ib)) == q_one(),
{
    lemma_pair_mul_associates(a, b, q_mul(ia, ib));
    lemma_swap_front(b, ia, ib);
    lemma_pair_mul_associates(a, ia, q_one());
    lemma_pair_mul_one(q_one());
}

/// `((a * b) * c) * d == a * ((b * c) * d)`.
proof fn lemma_pull_first(a: (int, int), b: (int, int), c: (int, int), d: (int, int))
    ensures
        q_mul(q_mul(q_mul(a, b), c), d) == q_mul(a, q_mul(q_mul(b, c), d)),
{
    lemma_pair_mul_associates(a, b, c);
    lemma_pair_mul_associates(a, q_mul(b, c), d);
}

/// The product `s0 * s1 * s2 * s3` with each factor pulled to the front.
proof fn lemma_stack_product_split(s0: (int, int), s1: (int, int), s2: (int, int), s3: (int, int))
    ensures
        ({
            let st = q_mul(q_mul(q_mul(s0, s1), s2), s3);
            &&& st == q_mul(s0, q_mul(q_mul(s1, s2), s3))
            &&& st == q_mul(s1, q_mul(q_mul(s0, s2), s3))
            &&& st == q_mul(s2, q_mul(q_mul(s0, s1), s3))
            &&& st == q_mul(s3, q_mul(q_mul(s0, s1), s2))
        }),
{
    let a = q_mul(s0, s1);
    lemma_pull_first(s0, s1, s2, s3);
    lemma_pair_mul_commutes(s0, s1);
    lemma_pull_first(s1, s0, s2, s3);
    lemma_pair_mul_associates(a, s2, s3);
    lemma_pair_mul_commutes(s2, s3);
    lemma_pair_mul_associates(a, s3, s2);
    lemma_pair_mul_commutes(q_mul(a, s3), s2);
    lemma_pair_mul_commutes(q_mul(a, s2), s3);
}

/// A stack removal term `((k * (r * m)) * a) * b) * c`, with `s == x * ((a * b) * c)`, is
/// `(k * ix) * ((r * s) * m)` when `x * ix == 1`.
proof fn lemma_stack_term(
    r: (int, int),
    m: (int, int),
    s: (int, int),
    x: (int, int),
    ix: (int, int),
    a: (int, int),
    b: (int, int),
    c: (int, int),
    k: int,
)
    requires
        q_mul(x, ix) == q_one(),
        s == q_mul(x, q_mul(q_mul(a, b), c)),
    ensures
        q_mul(q_mul(q_mul(q_scale(q_mul(r, m), k), a), b), c) == q_mul(
            q_scale(ix, k),
            q_mul(q_mul(r, s), m),
        ),
{
    let f = q_scale(q_mul(r, m), k);
    let t = q_mul(q_mul(a, b), c);
    let rm = q_mul(r, m);
    lemma_pair_mul_associates(f, a, b);
    lemma_pair_mul_associates(f, q_mul(a, b), c);
    lemma_scaled_times(rm, t, k);
    lemma_swap_front(r, x, t);
    lemma_pair_mul_associates(x, q_mul(r, t), m);
    lemma_pair_mul_associates(r, t, m);
    lemma_pair_mul_commutes(t, m);
    lemma_pair_mul_associates(r, m, t);
    lemma_cancel(x, ix, q_mul(rm, t), k);
}

/// A memory removal term `(k * q) * y` is `(k * ix) * (q * (x * y))` when `x * ix == 1`.
proof fn lemma_memory_term(q0: (int, int), x: (int, int), ix: (int, int), y: (int, int), k: int)
    requires
        q_mul(x, ix) == q_one(),
    ensures
        q_mul(q_scale(q0, k), y) == q_mul(q_scale(ix, k), q_mul(q0, q_mul(x, y))),
{
    lemma_scaled_times(q0, y, k);
    lemma_swap_front(q0, x, y);
    lemma_cancel(x, ix, q_mul(q0, y), k);
}

/// One coordinate of the balance: for a residue `d`,
/// `d - c + a0 + .. + a5` vanishes exactly when `d == c - a0 - .. - a5`.
proof fn lemma_balance_coordinate(d: int, c: int, a0: int, a1: int, a2: int, a3: int, a4: int, a5: int)
    requires
        0 <= d < p(),
    ensures
        (fadd(fadd(fadd(fadd(fadd(fadd(fsub(d, c), a0), a1), a2), a3), a4), a5) == 0) <==> d
            == fsub(fsub(fsub(fsub(fsub(fsub(c, a0), a1), a2), a3), a4), a5),
{
    let y = c - a0 - a1 - a2 - a3 - a4 - a5;
    lemma_mod_add_left(d - c, a0);
    lemma_mod_add_left(d - c + a0, a1);
    lemma_mod_add_left(d - c + a0 + a1, a2);
    lemma_mod_add_left(d - c + a0 + a1 + a2, a3);
    lemma_mod_add_left(d - c + a0 + a1 + a2 + a3, a4);
    lemma_mod_add_left(d - c + a0 + a1 + a2 + a3 + a4, a5);
    lemma_mod_sub_left(c - a0, a1);
    lemma_mod_sub_left(c - a0 - a1, a2);
    lemma_mod_sub_left(c - a0 - a1 - a2, a3);
    lemma_mod_sub_left(c - a0 - a1 - a2 - a3, a4);
    lemma_mod_sub_left(c - a0 - a1 - a2 - a3 - a4, a5);
    let f = fsub(fsub(fsub(fsub(fsub(fsub(c, a0), a1), a2), a3), a4), a5);
    assert(f == y % p());
    assert(d - c + a0 + a1 + a2 + a3 + a4 + a5 == d - y);
    lemma_mod_sub_right(d, y);
    lemma_mod_mod(y);
    lemma_mod_mod(d - f);
    lemma_fsub_zero_iff(d, f);
}

/// The lookup denominator `alpha + x` of the range checker bus, with `alpha` its bus prefix.
pub open spec fn range_denominator(ch: Challenges, x: int) -> (int, int) {
    q_add_base(ch.prefix(RANGE_CHECK_BUS as int), x)
}

/// The range checker's LogUp balance, as fractions. Let `1/(alpha + x)` be an inverse of the
/// lookup denominator `alpha + x`. When the denominators of the range value `v`, of the four
/// helpers `h0..h3` (`hasher_state[2..6]`) and of the memory delta limbs `d0, d1` are invertible,
/// the range bus constraint vanishes exactly when
/// `b' - b = m/(alpha + v) - u32_rc_op/(alpha + h0) - .. - u32_rc_op/(alpha + h3)
/// - memory_active/(alpha + d0) - memory_active/(alpha + d1)`:
/// the range checker's row adds its multiplicity, and every helper of a u32 operation and both
/// delta limbs of an active memory row are looked up once.
pub proof fn lemma_range_bus_balance(
    l: MainCols<Felt>,
    b: (int, int),
    b_next: (int, int),
    f: OpFlags,
    ch: Challenges,
    memory_active: int,
    inv_v: (int, int),
    inv_h0: (int, int),
    inv_h1: (int, int),
    inv_h2: (int, int),
    inv_h3: (int, int),
    inv_d0: (int, int),
    inv_d1: (int, int),
)
    requires
        q_mul(range_denominator(ch, l.range.value.val()), inv_v) == q_one(),
        q_mul(range_denominator(ch, l.decoder.hasher_state[2].val()), inv_h0) == q_one(),
        q_mul(range_denominator(ch, l.decoder.hasher_state[3].val()), inv_h1) == q_one(),
        q_mul(range_denominator(ch, l.decoder.hasher_state[4].val()), inv_h2) == q_one(),
        q_mul(range_denominator(ch, l.decoder.hasher_state[5].val()), inv_h3) == q_one(),
        q_mul(
            range_denominator(ch, MemoryCols::from_seq(l.chiplets@.subrange(3, 18)).d0.val()),
            inv_d0,
        ) == q_one(),
        q_mul(
            range_denominator(ch, MemoryCols::from_seq(l.chiplets@.subrange(3, 18)).d1.val()),
            inv_d1,
        ) == q_one(),
    ensures
        range_bus_expr(l, b, b_next, f, ch, memory_active) == (0int, 0int) <==> q_sub(b_next, b)
            == q_sub(
            q_sub(
                q_sub(
                    q_sub(
                        q_sub(
                            q_sub(
                                q_scale(inv_v, l.range.multiplicity.val()),
                                q_scale(inv_h0, f.u32_rc_op.val()),
                            ),
                            q_scale(inv_h1, f.u32_rc_op.val()),
                        ),
                        q_scale(inv_h2, f.u32_rc_op.val()),
                    ),
                    q_scale(inv_h3, f.u32_rc_op.val()),
                ),
                q_scale(inv_d0, memory_active),
            ),
            q_scale(inv_d1, memory_active),
        ),
{
    let alpha = ch.prefix(RANGE_CHECK_BUS as int);
    let mem = MemoryCols::from_seq(l.chiplets@.subrange(3, 18));
    let u = f.u32_rc_op.val();
    let mv0 = q_add_base(alpha, mem.d0.val());
    let mv1 = q_add_base(alpha, mem.d1.val());
    let sv0 = q_add_base(alpha, l.decoder.hasher_state[2].val());
    let sv1 = q_add_base(alpha, l.decoder.hasher_state[3].val());
    let sv2 = q_add_base(alpha, l.decoder.hasher_state[4].val());
    let sv3 = q_add_base(alpha, l.decoder.hasher_state[5].val());
    let r = q_add_base(alpha, l.range.value.val());
    let mlk = q_mul(mv0, mv1);
    let slk = q_mul(q_mul(q_mul(sv0, sv1), sv2), sv3);
    let rs = q_mul(r, slk);
    let lk = q_mul(rs, mlk);
    let crc = q_scale(inv_v, l.range.multiplicity.val());
    let (c0, c1, c2, c3) = (q_scale(inv_h0, u), q_scale(inv_h1, u), q_scale(inv_h2, u), q_scale(inv_h3, u));
    let (cm0, cm1) = (q_scale(inv_d0, memory_active), q_scale(inv_d1, memory_active));

    // Every term of the constraint is its coefficient times the product `lk` of all denominators.
    lemma_pair_mul_associates(r, slk, mlk);
    lemma_cancel(r, inv_v, q_mul(slk, mlk), l.range.multiplicity.val());
    lemma_stack_product_split(sv0, sv1, sv2, sv3);
    lemma_stack_term(r, mlk, slk, sv0, inv_h0, sv1, sv2, sv3, u);
    lemma_stack_term(r, mlk, slk, sv1, inv_h1, sv0, sv2, sv3, u);
    lemma_stack_term(r, mlk, slk, sv2, inv_h2, sv0, sv1, sv3, u);
    lemma_stack_term(r, mlk, slk, sv3, inv_h3, sv0, sv1, sv2, u);
    lemma_memory_term(rs, mv0, inv_d0, mv1, memory_active);
    lemma_memory_term(rs, mv1, inv_d1, mv0, memory_active);
    lemma_pair_mul_commutes(mv1, mv0);

    // So the constraint is `x * lk`, with `x` the balance `b' - b - m/.. + ..`.
    let d = q_sub(b_next, b);
    let x1 = q_sub(d, crc);
    let x2 = q_add(x1, c0);
    let x3 = q_add(x2, c1);
    let x4 = q_add(x3, c2);
    let x5 = q_add(x4, c3);
    let x6 = q_add(x5, cm0);
    let x = q_add(x6, cm1);
    lemma_pair_mul_distributes(lk, b_next, b);
    lemma_pair_mul_distributes(lk, d, crc);
    lemma_pair_mul_distributes(lk, x1, c0);
    lemma_pair_mul_distributes(lk, x2, c1);
    lemma_pair_mul_distributes(lk, x3, c2);
    lemma_pair_mul_distributes(lk, x4, c3);
    lemma_pair_mul_distributes(lk, x5, cm0);
    lemma_pair_mul_distributes(lk, x6, cm1);
    let e = range_bus_expr(l, b, b_next, f, ch, memory_active);
    assert(e == q_mul(x, lk));

    // `lk` is invertible, so the constraint vanishes exactly when `x` does.
    let is = q_mul(q_mul(q_mul(inv_h0, inv_h1), inv_h2), inv_h3);
    let im = q_mul(inv_d0, inv_d1);
    let il = q_mul(q_mul(inv_v, is), im);
    lemma_inv_mul(sv0, inv_h0, sv1, inv_h1);
    lemma_inv_mul(q_mul(sv0, sv1), q_mul(inv_h0, inv_h1), sv2, inv_h2);
    lemma_inv_mul(q_mul(q_mul(sv0, sv1), sv2), q_mul(q_mul(inv_h0, inv_h1), inv_h2), sv3, inv_h3);
    lemma_inv_mul(mv0, inv_d0, mv1, inv_d1);
    lemma_inv_mul(r, inv_v, slk, is);
    lemma_inv_mul(rs, q_mul(inv_v, is), mlk, im);
    assert(q_mul(lk, il) == q_one());
    lemma_mod_mod(x6.0 + cm1.0);
    lemma_mod_mod(x6.1 + cm1.1);
    lemma_pair_mul_one(x);
    lemma_pair_mul_associates(x, lk, il);
    vstd::arithmetic::div_mod::lemma_small_mod(0, p() as nat);
    assert(q_mul((0int, 0int), il) == (0int, 0int));
    assert(q_mul((0int, 0int), lk) == (0int, 0int));
    assert(e == (0int, 0int) <==> x == (0int, 0int));

    // `x` vanishes exactly when `b' - b` is the sum of the fractions, coordinate by coordinate.
    lemma_mod_mod(b_next.0 - b.0);
    lemma_mod_mod(b_next.1 - b.1);
    lemma_balance_coordinate(d.0, crc.0, c0.0, c1.0, c2.0, c3.0, cm0.0, cm1.0);
    lemma_balance_coordinate(d.1, crc.1, c0.1, c1.1, c2.1, c3.1, cm0.1, cm1.1);
}

/// Enforces the range checker bus constraint for LogUp checks.
///
/// ## Lookups
///
/// - Stack lookups (4): decoder helper columns (the user-op helpers h0..h3)
/// - Memory lookups (2): memory delta limbs (d0, d1)
/// - Range response: range V column with multiplicity range M column
#[verifier::rlimit(40)]
pub fn enforce_bus(
    builder: &mut ConstraintEvaluator,
    local: &MainCols<Felt>,
    op_flags: &OpFlags,
    challenges: &Challenges,
    selectors: &ChipletSelectors<Felt>,
)
    requires
        has_aux(*old(builder)),
        challenges_fit(*challenges),
    ensures
        final(builder).periodic == old(builder).periodic,
        final(builder).is_transition == old(builder).is_transition,
        final(builder).is_first_row == old(builder).is_first_row,
        final(builder).is_last_row == old(builder).is_last_row,
        final(builder).aux == old(builder).aux,
        final(builder).aux_next == old(builder).aux_next,
        ({
            let e = range_bus_expr(
                *local,
                q(old(builder).aux@[B_RANGE as int]),
                q(old(builder).aux_next@[B_RANGE as int]),
                *op_flags,
                *challenges,
                selectors.memory.is_active.val(),
            );
            let t = old(builder).is_transition.val();
            final(builder).values() == old(builder).values().push(fmul(t, e.0)).push(fmul(t, e.1))
        }),
{
    let b_local = builder.aux[B_RANGE];
    let b_next = builder.aux_next[B_RANGE];

    let alpha = challenges.bus_prefix[RANGE_CHECK_BUS];

    // Denominators for LogUp
    let mem = local.memory();
    let mv0 = alpha.add_base(mem.d0);
    let mv1 = alpha.add_base(mem.d1);

    // Stack lookups: sv0-sv3 = alpha + decoder helper columns
    let helpers = local.decoder.user_op_helpers();
    let sv0 = alpha.add_base(helpers[0]);
    let sv1 = alpha.add_base(helpers[1]);
    let sv2 = alpha.add_base(helpers[2]);
    let sv3 = alpha.add_base(helpers[3]);

    // Range check value: alpha + range V column
    let range_check = alpha.add_base(local.range.value);

    // Combined lookup denominators
    let memory_lookups = mv0.mul(mv1);
    let stack_lookups = sv0.mul(sv1).mul(sv2).mul(sv3);
    let lookups = range_check.mul(stack_lookups).mul(memory_lookups);

    // Flags for conditional inclusion
    let u32_rc_op = op_flags.u32_rc_op();
    let sflag_rc_mem = range_check.mul(memory_lookups).mul_base(u32_rc_op);
    let chiplets_memory_flag = selectors.memory.is_active;
    let mflag_rc_stack = range_check.mul(stack_lookups).mul_base(chiplets_memory_flag);

    // LogUp transition constraint terms
    let b_next_term = b_next.mul(lookups);
    let b_term = b_local.mul(lookups);
    let rc_term = stack_lookups.mul(memory_lookups).mul_base(local.range.multiplicity);

    // Stack lookup removal terms
    let s0_term = sflag_rc_mem.mul(sv1).mul(sv2).mul(sv3);
    let s1_term = sflag_rc_mem.mul(sv0).mul(sv2).mul(sv3);
    let s2_term = sflag_rc_mem.mul(sv0).mul(sv1).mul(sv3);
    let s3_term = sflag_rc_mem.mul(sv0).mul(sv1).mul(sv2);

    // Memory lookup removal terms
    let m0_term = mflag_rc_stack.mul(mv1);
    let m1_term = mflag_rc_stack.mul(mv0);

    // b_next * lookups = b * lookups + rc_term - s0_term - s1_term - s2_term - s3_term
    //                    - m0_term - m1_term
    let expr = b_next_term.sub(b_term).sub(rc_term).add(s0_term).add(s1_term).add(s2_term).add(
        s3_term).add(m0_term).add(m1_term);
    let t = builder.is_transition;
    builder.assert_zero_ext_when(t, expr);
}

} // verus!
