//! Stack arithmetic and u32 operation constraints.
//!
//! This module enforces field arithmetic ops
//! (ADD/NEG/MUL/INV/INCR/NOT/AND/OR/EQ/EQZ/EXPACC/EXT2MUL) and u32 arithmetic ops
//! (U32SPLIT/U32ADD/U32ADD3/U32SUB/U32MUL/U32MADD/U32DIV/U32ASSERT2).
//!
//! Every constraint is an equation gated by the sum of the flags of the operations that
//! own it, and, for the constraints that read the next row, by the transition selector.

use vstd::prelude::*;

use crate::constraints::columns::MainCols;
use crate::constraints::decoder::columns::DecoderCols;
use crate::constraints::evaluator::{ConstraintEvaluator, bool_check};
use crate::constraints::op_flags::{OpFlags, encodes_opcode, is_valid_opcode, lemma_flag_of_one_hot};
use crate::constraints::stack::columns::StackCols;
use crate::constraints::ext_field::q_mul;
use crate::field::{
    Felt, fadd, fmul, fsub, lemma_fadd_of_residues, lemma_fmul_of_residues, lemma_fsub_of_residues,
    lemma_fsub_zero_iff, lemma_mod_add_left, lemma_mod_mul_left, lemma_mod_mod, lemma_mod_sub_right,
    lemma_residue_is_reduced, p,
};
use crate::operations::opcodes;

verus! {

/// `2^16`.
pub const TWO_POW_16: u64 = 65536;

/// `2^32`.
pub const TWO_POW_32: u64 = 4294967296;

/// `2^48`.
pub const TWO_POW_48: u64 = 281474976710656;

/// `2^32 - 1`.
pub const TWO_POW_32_MINUS_1: u64 = 4294967295;

/// The sum of the flags of the operations `owners`, accumulated from the left.
pub open spec fn flag_sum(flags: OpFlags, owners: Seq<int>) -> int
    decreases owners.len(),
{
    if owners.len() == 0 {
        0
    } else if owners.len() == 1 {
        flags.flag_of(owners[0]).val()
    } else {
        fadd(flag_sum(flags, owners.drop_last()), flags.flag_of(owners.last()).val())
    }
}

/// The value of an arithmetic constraint: its equation gated by the flags of its owners and,
/// when `transitional`, by the transition selector `t`.
pub open spec fn arith_value(flags: OpFlags, t: int, owners: Seq<int>, transitional: bool, eq: int) -> int {
    if transitional {
        fmul(t, fmul(flag_sum(flags, owners), eq))
    } else {
        fmul(flag_sum(flags, owners), eq)
    }
}

/// The values of the constraints of `table` (owners, transitional, equation).
pub open spec fn arith_values(flags: OpFlags, t: int, table: Seq<(Seq<int>, bool, int)>) -> Seq<int> {
    table.map_values(|e: (Seq<int>, bool, int)| arith_value(flags, t, e.0, e.1, e.2))
}

/// The first stack-arith equations: for each, its owners, whether it reads the next row, and
/// its value on the window `(l, n)`.
pub open spec fn field_table(l: MainCols<Felt>, n: MainCols<Felt>) -> Seq<(Seq<int>, bool, int)> {
    seq![
        // ADD: s0' = s0 + s1
        (seq![opcodes::ADD as int], true, fsub(n.stack.top[0].val(), fadd(l.stack.top[0].val(), l.stack.top[1].val()))),
        // NEG: s0' = -s0
        (seq![opcodes::NEG as int], true, fadd(n.stack.top[0].val(), l.stack.top[0].val())),
        // MUL: s0' = s0 * s1
        (seq![opcodes::MUL as int], true, fsub(n.stack.top[0].val(), fmul(l.stack.top[0].val(), l.stack.top[1].val()))),
        // INV: s0' * s0 = 1
        (seq![opcodes::INV as int], true, fsub(fmul(n.stack.top[0].val(), l.stack.top[0].val()), 1)),
        // INCR: s0' = s0 + 1
        (seq![opcodes::INCR as int], true, fsub(n.stack.top[0].val(), fadd(l.stack.top[0].val(), 1))),
        // NOT: s0 is boolean
        (seq![opcodes::NOT as int], false, bool_check(l.stack.top[0].val())),
        // NOT: s0 + s0' = 1
        (seq![opcodes::NOT as int], true, fsub(fadd(l.stack.top[0].val(), n.stack.top[0].val()), 1)),
        // AND: s0 is boolean
        (seq![opcodes::AND as int], false, bool_check(l.stack.top[0].val())),
        // AND: s1 is boolean
        (seq![opcodes::AND as int], false, bool_check(l.stack.top[1].val())),
        // AND: s0' = s0 * s1
        (seq![opcodes::AND as int], true, fsub(n.stack.top[0].val(), fmul(l.stack.top[0].val(), l.stack.top[1].val()))),
        // OR: s0 is boolean
        (seq![opcodes::OR as int], false, bool_check(l.stack.top[0].val())),
        // OR: s1 is boolean
        (seq![opcodes::OR as int], false, bool_check(l.stack.top[1].val())),
        // OR: s0' = s0 + s1 - s0 * s1
        (seq![opcodes::OR as int], true, fsub(n.stack.top[0].val(), fsub(fadd(l.stack.top[0].val(), l.stack.top[1].val()), fmul(l.stack.top[0].val(), l.stack.top[1].val())))),
    ]
}

/// The second stack-arith equations: for each, its owners, whether it reads the next row, and
/// its value on the window `(l, n)`.
pub open spec fn eq_table(l: MainCols<Felt>, n: MainCols<Felt>) -> Seq<(Seq<int>, bool, int)> {
    seq![
        // EQ: (s0 - s1) * s0' = 0
        (seq![opcodes::EQ as int], true, fmul(fsub(l.stack.top[0].val(), l.stack.top[1].val()), n.stack.top[0].val())),
        // EQ: s0' = 1 - (s0 - s1) * h0
        (seq![opcodes::EQ as int], true, fsub(n.stack.top[0].val(), fsub(1, fmul(fsub(l.stack.top[0].val(), l.stack.top[1].val()), l.decoder.hasher_state[2].val())))),
        // EQZ: s0 * s0' = 0
        (seq![opcodes::EQZ as int], true, fmul(l.stack.top[0].val(), n.stack.top[0].val())),
        // EQZ: s0' = 1 - s0 * h0
        (seq![opcodes::EQZ as int], true, fsub(n.stack.top[0].val(), fsub(1, fmul(l.stack.top[0].val(), l.decoder.hasher_state[2].val())))),
        // EXPACC: exp' = exp^2
        (seq![opcodes::EXPACC as int], true, fsub(n.stack.top[1].val(), fmul(l.stack.top[1].val(), l.stack.top[1].val()))),
        // EXPACC: exp_val = (exp - 1) * bit + 1
        (seq![opcodes::EXPACC as int], true, fsub(l.decoder.hasher_state[2].val(), fadd(fmul(fsub(l.stack.top[1].val(), 1), n.stack.top[0].val()), 1))),
        // EXPACC: acc' = acc * exp_val
        (seq![opcodes::EXPACC as int], true, fsub(n.stack.top[2].val(), fmul(l.stack.top[2].val(), l.decoder.hasher_state[2].val()))),
        // EXPACC: b = 2 * b' + bit
        (seq![opcodes::EXPACC as int], true, fsub(l.stack.top[3].val(), fadd(fmul(n.stack.top[3].val(), 2), n.stack.top[0].val()))),
        // EXPACC: bit is boolean
        (seq![opcodes::EXPACC as int], true, bool_check(n.stack.top[0].val())),
        // EXT2MUL: d0 = b0
        (seq![opcodes::EXT2MUL as int], true, fsub(n.stack.top[0].val(), l.stack.top[0].val())),
        // EXT2MUL: d1 = b1
        (seq![opcodes::EXT2MUL as int], true, fsub(n.stack.top[1].val(), l.stack.top[1].val())),
        // EXT2MUL: c0 = a0 b0 + 7 a1 b1
        (seq![opcodes::EXT2MUL as int], true, fsub(n.stack.top[2].val(), fadd(fmul(l.stack.top[2].val(), l.stack.top[0].val()), fmul(fmul(l.stack.top[3].val(), l.stack.top[1].val()), 7)))),
        // EXT2MUL: c1 = (a0 + a1)(b0 + b1) - a0 b0 - a1 b1
        (seq![opcodes::EXT2MUL as int], true, fsub(n.stack.top[3].val(), fsub(fsub(fmul(fadd(l.stack.top[2].val(), l.stack.top[3].val()), fadd(l.stack.top[0].val(), l.stack.top[1].val())), fmul(l.stack.top[2].val(), l.stack.top[0].val())), fmul(l.stack.top[3].val(), l.stack.top[1].val())))),
    ]
}

/// The third stack-arith equations: for each, its owners, whether it reads the next row, and
/// its value on the window `(l, n)`.
pub open spec fn u32_table(l: MainCols<Felt>, n: MainCols<Felt>) -> Seq<(Seq<int>, bool, int)> {
    seq![
        // U32SPLIT/U32MUL/U32MADD: element validity
        (seq![opcodes::U32SPLIT as int, opcodes::U32MUL as int, opcodes::U32MADD as int], false, fmul(fsub(1, fmul(l.decoder.hasher_state[6].val(), fsub(4294967295, fadd(fmul(l.decoder.hasher_state[5].val(), 65536), l.decoder.hasher_state[4].val())))), fadd(fmul(l.decoder.hasher_state[3].val(), 65536), l.decoder.hasher_state[2].val()))),
        // two-output u32 ops: s0' = v_lo
        (seq![opcodes::U32SPLIT as int, opcodes::U32ADD as int, opcodes::U32ADD3 as int, opcodes::U32MUL as int, opcodes::U32MADD as int], true, fsub(n.stack.top[0].val(), fadd(fmul(l.decoder.hasher_state[3].val(), 65536), l.decoder.hasher_state[2].val()))),
        // two-output u32 ops: s1' = v_hi
        (seq![opcodes::U32SPLIT as int, opcodes::U32ADD as int, opcodes::U32ADD3 as int, opcodes::U32MUL as int, opcodes::U32MADD as int], true, fsub(n.stack.top[1].val(), fadd(fmul(l.decoder.hasher_state[5].val(), 65536), l.decoder.hasher_state[4].val()))),
        // U32SPLIT: s0 = v64
        (seq![opcodes::U32SPLIT as int], false, fsub(l.stack.top[0].val(), fadd(fmul(l.decoder.hasher_state[5].val(), 281474976710656), fadd(fmul(l.decoder.hasher_state[4].val(), 4294967296), fadd(fmul(l.decoder.hasher_state[3].val(), 65536), l.decoder.hasher_state[2].val()))))),
        // U32ADD: s0 + s1 = v48
        (seq![opcodes::U32ADD as int], false, fsub(fadd(l.stack.top[0].val(), l.stack.top[1].val()), fadd(fmul(l.decoder.hasher_state[4].val(), 4294967296), fadd(fmul(l.decoder.hasher_state[3].val(), 65536), l.decoder.hasher_state[2].val())))),
        // U32ADD3: s0 + s1 + s2 = v48
        (seq![opcodes::U32ADD3 as int], false, fsub(fadd(fadd(l.stack.top[0].val(), l.stack.top[1].val()), l.stack.top[2].val()), fadd(fmul(l.decoder.hasher_state[4].val(), 4294967296), fadd(fmul(l.decoder.hasher_state[3].val(), 65536), l.decoder.hasher_state[2].val())))),
        // U32ADD/U32ADD3: h3 = 0
        (seq![opcodes::U32ADD as int, opcodes::U32ADD3 as int], false, l.decoder.hasher_state[5].val()),
    ]
}

/// The last stack-arith equations: for each, its owners, whether it reads the next row, and
/// its value on the window `(l, n)`.
pub open spec fn u32_sub_table(l: MainCols<Felt>, n: MainCols<Felt>) -> Seq<(Seq<int>, bool, int)> {
    seq![
        // U32SUB: s1 = s0 + s1' - s0' * 2^32
        (seq![opcodes::U32SUB as int], true, fsub(l.stack.top[1].val(), fsub(fadd(l.stack.top[0].val(), n.stack.top[1].val()), fmul(n.stack.top[0].val(), 4294967296)))),
        // U32SUB: the borrow s0' is boolean
        (seq![opcodes::U32SUB as int], true, bool_check(n.stack.top[0].val())),
        // U32SUB: s1' = v_lo
        (seq![opcodes::U32SUB as int], true, fsub(n.stack.top[1].val(), fadd(fmul(l.decoder.hasher_state[3].val(), 65536), l.decoder.hasher_state[2].val()))),
        // U32MUL: s0 * s1 = v64
        (seq![opcodes::U32MUL as int], false, fsub(fmul(l.stack.top[0].val(), l.stack.top[1].val()), fadd(fmul(l.decoder.hasher_state[5].val(), 281474976710656), fadd(fmul(l.decoder.hasher_state[4].val(), 4294967296), fadd(fmul(l.decoder.hasher_state[3].val(), 65536), l.decoder.hasher_state[2].val()))))),
        // U32MADD: s0 * s1 + s2 = v64
        (seq![opcodes::U32MADD as int], false, fsub(fadd(fmul(l.stack.top[0].val(), l.stack.top[1].val()), l.stack.top[2].val()), fadd(fmul(l.decoder.hasher_state[5].val(), 281474976710656), fadd(fmul(l.decoder.hasher_state[4].val(), 4294967296), fadd(fmul(l.decoder.hasher_state[3].val(), 65536), l.decoder.hasher_state[2].val()))))),
        // U32DIV: s1 = s0 * s1' + s0'
        (seq![opcodes::U32DIV as int], true, fsub(l.stack.top[1].val(), fadd(fmul(l.stack.top[0].val(), n.stack.top[1].val()), n.stack.top[0].val()))),
        // U32DIV: s1 - s1' = v_lo
        (seq![opcodes::U32DIV as int], true, fsub(fsub(l.stack.top[1].val(), n.stack.top[1].val()), fadd(fmul(l.decoder.hasher_state[3].val(), 65536), l.decoder.hasher_state[2].val()))),
        // U32DIV: s0 - s0' = v_hi + 1
        (seq![opcodes::U32DIV as int], true, fsub(fsub(l.stack.top[0].val(), n.stack.top[0].val()), fadd(fadd(fmul(l.decoder.hasher_state[5].val(), 65536), l.decoder.hasher_state[4].val()), 1))),
        // U32ASSERT2: s0' = v_hi
        (seq![opcodes::U32ASSERT2 as int], true, fsub(n.stack.top[0].val(), fadd(fmul(l.decoder.hasher_state[5].val(), 65536), l.decoder.hasher_state[4].val()))),
        // U32ASSERT2: s1' = v_lo
        (seq![opcodes::U32ASSERT2 as int], true, fsub(n.stack.top[1].val(), fadd(fmul(l.decoder.hasher_state[3].val(), 65536), l.decoder.hasher_state[2].val()))),
    ]
}

/// All stack-arith equations, in assertion order.
pub open spec fn arith_table(l: MainCols<Felt>, n: MainCols<Felt>) -> Seq<(Seq<int>, bool, int)> {
    field_table(l, n) + eq_table(l, n) + u32_table(l, n) + u32_sub_table(l, n)
}

/// Asserts `x` gated by `gate` and, when `transitional`, the transition selector.
fn gated(builder: &mut ConstraintEvaluator, gate: Felt, transitional: bool, x: Felt)
    ensures
        final(builder).periodic == old(builder).periodic,
        final(builder).is_transition == old(builder).is_transition,
        final(builder).is_first_row == old(builder).is_first_row,
        final(builder).is_last_row == old(builder).is_last_row,
        final(builder).values() == old(builder).values().push(
            if transitional {
                fmul(old(builder).is_transition.val(), fmul(gate.val(), x.val()))
            } else {
                fmul(gate.val(), x.val())
            },
        ),
{
    if transitional {
        let t = builder.is_transition;
        builder.assert_zero_when(t, gate.mul(x));
    } else {
        builder.assert_zero_when(gate, x);
    }
}

/// Asserts the equations of `field_table`.
#[verifier::spinoff_prover]
fn enforce_field(
    builder: &mut ConstraintEvaluator,
    local: &MainCols<Felt>,
    next: &MainCols<Felt>,
    op_flags: &OpFlags,
)
    ensures
        final(builder).periodic == old(builder).periodic,
        final(builder).is_transition == old(builder).is_transition,
        final(builder).is_first_row == old(builder).is_first_row,
        final(builder).is_last_row == old(builder).is_last_row,
        final(builder).values() == old(builder).values() + arith_values(
            *op_flags,
            old(builder).is_transition.val(),
            field_table(*local, *next),
        ),
{
    let ghost start = builder.values();
    let s = local.stack.top;
    let sn = next.stack.top;
    // Decoder helper columns: hasher_state[2..8] are user-op helpers.
    let h = local.decoder.user_op_helpers();
    let two = Felt::from_u8(2);
    let seven = Felt::from_u8(7);
    let two_pow_16 = Felt::new_unchecked(TWO_POW_16);
    let two_pow_32 = Felt::new_unchecked(TWO_POW_32);
    let two_pow_48 = Felt::new_unchecked(TWO_POW_48);
    let two_pow_32_minus_1 = Felt::new_unchecked(TWO_POW_32_MINUS_1);
    proof {
        vstd::arithmetic::div_mod::lemma_small_mod(TWO_POW_16 as nat, p() as nat);
        vstd::arithmetic::div_mod::lemma_small_mod(TWO_POW_32 as nat, p() as nat);
        vstd::arithmetic::div_mod::lemma_small_mod(TWO_POW_48 as nat, p() as nat);
        vstd::arithmetic::div_mod::lemma_small_mod(TWO_POW_32_MINUS_1 as nat, p() as nat);
        assert(h[0] == local.decoder.hasher_state[2]);
        assert(h[1] == local.decoder.hasher_state[3]);
        assert(h[2] == local.decoder.hasher_state[4]);
        assert(h[3] == local.decoder.hasher_state[5]);
        assert(h[4] == local.decoder.hasher_state[6]);
    }
    // ADD: s0' = s0 + s1
    gated(builder, op_flags.op_flag(opcodes::ADD), true, sn[0].sub(s[0].add(s[1])));
    // NEG: s0' = -s0
    gated(builder, op_flags.op_flag(opcodes::NEG), true, sn[0].add(s[0]));
    // MUL: s0' = s0 * s1
    gated(builder, op_flags.op_flag(opcodes::MUL), true, sn[0].sub(s[0].mul(s[1])));
    // INV: s0' * s0 = 1
    gated(builder, op_flags.op_flag(opcodes::INV), true, sn[0].mul(s[0]).sub(Felt::one()));
    // INCR: s0' = s0 + 1
    gated(builder, op_flags.op_flag(opcodes::INCR), true, sn[0].sub(s[0].add(Felt::one())));
    // NOT: s0 is boolean
    gated(builder, op_flags.op_flag(opcodes::NOT), false, s[0].mul(s[0].sub(Felt::one())));
    // NOT: s0 + s0' = 1
    gated(builder, op_flags.op_flag(opcodes::NOT), true, s[0].add(sn[0]).sub(Felt::one()));
    // AND: s0 is boolean
    gated(builder, op_flags.op_flag(opcodes::AND), false, s[0].mul(s[0].sub(Felt::one())));
    // AND: s1 is boolean
    gated(builder, op_flags.op_flag(opcodes::AND), false, s[1].mul(s[1].sub(Felt::one())));
    // AND: s0' = s0 * s1
    gated(builder, op_flags.op_flag(opcodes::AND), true, sn[0].sub(s[0].mul(s[1])));
    // OR: s0 is boolean
    gated(builder, op_flags.op_flag(opcodes::OR), false, s[0].mul(s[0].sub(Felt::one())));
    // OR: s1 is boolean
    gated(builder, op_flags.op_flag(opcodes::OR), false, s[1].mul(s[1].sub(Felt::one())));
    // OR: s0' = s0 + s1 - s0 * s1
    gated(builder, op_flags.op_flag(opcodes::OR), true, sn[0].sub(s[0].add(s[1]).sub(s[0].mul(s[1]))));
    proof {
        let tbl = field_table(*local, *next);
        assert forall|i: int| 0 <= i < tbl.len() implies #[trigger] tbl[i].0.len() <= 5 by {}
        reveal_with_fuel(flag_sum, 6);
        assert(builder.values() =~= start + arith_values(
            *op_flags,
            builder.is_transition.val(),
            tbl,
        ));
    }
}

/// Asserts the equations of `eq_table`.
#[verifier::spinoff_prover]
fn enforce_eq(
    builder: &mut ConstraintEvaluator,
    local: &MainCols<Felt>,
    next: &MainCols<Felt>,
    op_flags: &OpFlags,
)
    ensures
        final(builder).periodic == old(builder).periodic,
        final(builder).is_transition == old(builder).is_transition,
        final(builder).is_first_row == old(builder).is_first_row,
        final(builder).is_last_row == old(builder).is_last_row,
        final(builder).values() == old(builder).values() + arith_values(
            *op_flags,
            old(builder).is_transition.val(),
            eq_table(*local, *next),
        ),
{
    let ghost start = builder.values();
    let s = local.stack.top;
    let sn = next.stack.top;
    // Decoder helper columns: hasher_state[2..8] are user-op helpers.
    let h = local.decoder.user_op_helpers();
    let two = Felt::from_u8(2);
    let seven = Felt::from_u8(7);
    let two_pow_16 = Felt::new_unchecked(TWO_POW_16);
    let two_pow_32 = Felt::new_unchecked(TWO_POW_32);
    let two_pow_48 = Felt::new_unchecked(TWO_POW_48);
    let two_pow_32_minus_1 = Felt::new_unchecked(TWO_POW_32_MINUS_1);
    proof {
        vstd::arithmetic::div_mod::lemma_small_mod(TWO_POW_16 as nat, p() as nat);
        vstd::arithmetic::div_mod::lemma_small_mod(TWO_POW_32 as nat, p() as nat);
        vstd::arithmetic::div_mod::lemma_small_mod(TWO_POW_48 as nat, p() as nat);
        vstd::arithmetic::div_mod::lemma_small_mod(TWO_POW_32_MINUS_1 as nat, p() as nat);
        assert(h[0] == local.decoder.hasher_state[2]);
        assert(h[1] == local.decoder.hasher_state[3]);
        assert(h[2] == local.decoder.hasher_state[4]);
        assert(h[3] == local.decoder.hasher_state[5]);
        assert(h[4] == local.decoder.hasher_state[6]);
    }
    // EQ: (s0 - s1) * s0' = 0
    gated(builder, op_flags.op_flag(opcodes::EQ), true, s[0].sub(s[1]).mul(sn[0]));
    // EQ: s0' = 1 - (s0 - s1) * h0
    gated(builder, op_flags.op_flag(opcodes::EQ), true, sn[0].sub(Felt::one().sub(s[0].sub(s[1]).mul(h[0]))));
    // EQZ: s0 * s0' = 0
    gated(builder, op_flags.op_flag(opcodes::EQZ), true, s[0].mul(sn[0]));
    // EQZ: s0' = 1 - s0 * h0
    gated(builder, op_flags.op_flag(opcodes::EQZ), true, sn[0].sub(Felt::one().sub(s[0].mul(h[0]))));
    // EXPACC: exp' = exp^2
    gated(builder, op_flags.op_flag(opcodes::EXPACC), true, sn[1].sub(s[1].mul(s[1])));
    // EXPACC: exp_val = (exp - 1) * bit + 1
    gated(builder, op_flags.op_flag(opcodes::EXPACC), true, h[0].sub(s[1].sub(Felt::one()).mul(sn[0]).add(Felt::one())));
    // EXPACC: acc' = acc * exp_val
    gated(builder, op_flags.op_flag(opcodes::EXPACC), true, sn[2].sub(s[2].mul(h[0])));
    // EXPACC: b = 2 * b' + bit
    gated(builder, op_flags.op_flag(opcodes::EXPACC), true, s[3].sub(sn[3].mul(two).add(sn[0])));
    // EXPACC: bit is boolean
    gated(builder, op_flags.op_flag(opcodes::EXPACC), true, sn[0].mul(sn[0].sub(Felt::one())));
    // EXT2MUL: d0 = b0
    gated(builder, op_flags.op_flag(opcodes::EXT2MUL), true, sn[0].sub(s[0]));
    // EXT2MUL: d1 = b1
    gated(builder, op_flags.op_flag(opcodes::EXT2MUL), true, sn[1].sub(s[1]));
    // EXT2MUL: c0 = a0 b0 + 7 a1 b1
    gated(builder, op_flags.op_flag(opcodes::EXT2MUL), true, sn[2].sub(s[2].mul(s[0]).add(s[3].mul(s[1]).mul(seven))));
    // EXT2MUL: c1 = (a0 + a1)(b0 + b1) - a0 b0 - a1 b1
    gated(builder, op_flags.op_flag(opcodes::EXT2MUL), true, sn[3].sub(s[2].add(s[3]).mul(s[0].add(s[1])).sub(s[2].mul(s[0])).sub(s[3].mul(s[1]))));
    proof {
        let tbl = eq_table(*local, *next);
        assert forall|i: int| 0 <= i < tbl.len() implies #[trigger] tbl[i].0.len() <= 5 by {}
        reveal_with_fuel(flag_sum, 6);
        assert(builder.values() =~= start + arith_values(
            *op_flags,
            builder.is_transition.val(),
            tbl,
        ));
    }
}

/// Asserts the equations of `u32_table`.
#[verifier::spinoff_prover]
fn enforce_u32(
    builder: &mut ConstraintEvaluator,
    local: &MainCols<Felt>,
    next: &MainCols<Felt>,
    op_flags: &OpFlags,
)
    ensures
        final(builder).periodic == old(builder).periodic,
        final(builder).is_transition == old(builder).is_transition,
        final(builder).is_first_row == old(builder).is_first_row,
        final(builder).is_last_row == old(builder).is_last_row,
        final(builder).values() == old(builder).values() + arith_values(
            *op_flags,
            old(builder).is_transition.val(),
            u32_table(*local, *next),
        ),
{
    let ghost start = builder.values();
    let s = local.stack.top;
    let sn = next.stack.top;
    // Decoder helper columns: hasher_state[2..8] are user-op helpers.
    let h = local.decoder.user_op_helpers();
    let two = Felt::from_u8(2);
    let seven = Felt::from_u8(7);
    let two_pow_16 = Felt::new_unchecked(TWO_POW_16);
    let two_pow_32 = Felt::new_unchecked(TWO_POW_32);
    let two_pow_48 = Felt::new_unchecked(TWO_POW_48);
    let two_pow_32_minus_1 = Felt::new_unchecked(TWO_POW_32_MINUS_1);
    proof {
        vstd::arithmetic::div_mod::lemma_small_mod(TWO_POW_16 as nat, p() as nat);
        vstd::arithmetic::div_mod::lemma_small_mod(TWO_POW_32 as nat, p() as nat);
        vstd::arithmetic::div_mod::lemma_small_mod(TWO_POW_48 as nat, p() as nat);
        vstd::arithmetic::div_mod::lemma_small_mod(TWO_POW_32_MINUS_1 as nat, p() as nat);
        assert(h[0] == local.decoder.hasher_state[2]);
        assert(h[1] == local.decoder.hasher_state[3]);
        assert(h[2] == local.decoder.hasher_state[4]);
        assert(h[3] == local.decoder.hasher_state[5]);
        assert(h[4] == local.decoder.hasher_state[6]);
    }
    // U32SPLIT/U32MUL/U32MADD: element validity
    gated(builder, op_flags.op_flag(opcodes::U32SPLIT).add(op_flags.op_flag(opcodes::U32MUL)).add(op_flags.op_flag(opcodes::U32MADD)), false, Felt::one().sub(h[4].mul(two_pow_32_minus_1.sub(h[3].mul(two_pow_16).add(h[2])))).mul(h[1].mul(two_pow_16).add(h[0])));
    // two-output u32 ops: s0' = v_lo
    gated(builder, op_flags.op_flag(opcodes::U32SPLIT).add(op_flags.op_flag(opcodes::U32ADD)).add(op_flags.op_flag(opcodes::U32ADD3)).add(op_flags.op_flag(opcodes::U32MUL)).add(op_flags.op_flag(opcodes::U32MADD)), true, sn[0].sub(h[1].mul(two_pow_16).add(h[0])));
    // two-output u32 ops: s1' = v_hi
    gated(builder, op_flags.op_flag(opcodes::U32SPLIT).add(op_flags.op_flag(opcodes::U32ADD)).add(op_flags.op_flag(opcodes::U32ADD3)).add(op_flags.op_flag(opcodes::U32MUL)).add(op_flags.op_flag(opcodes::U32MADD)), true, sn[1].sub(h[3].mul(two_pow_16).add(h[2])));
    // U32SPLIT: s0 = v64
    gated(builder, op_flags.op_flag(opcodes::U32SPLIT), false, s[0].sub(h[3].mul(two_pow_48).add(h[2].mul(two_pow_32).add(h[1].mul(two_pow_16).add(h[0])))));
    // U32ADD: s0 + s1 = v48
    gated(builder, op_flags.op_flag(opcodes::U32ADD), false, s[0].add(s[1]).sub(h[2].mul(two_pow_32).add(h[1].mul(two_pow_16).add(h[0]))));
    // U32ADD3: s0 + s1 + s2 = v48
    gated(builder, op_flags.op_flag(opcodes::U32ADD3), false, s[0].add(s[1]).add(s[2]).sub(h[2].mul(two_pow_32).add(h[1].mul(two_pow_16).add(h[0]))));
    // U32ADD/U32ADD3: h3 = 0
    gated(builder, op_flags.op_flag(opcodes::U32ADD).add(op_flags.op_flag(opcodes::U32ADD3)), false, h[3]);
    proof {
        let tbl = u32_table(*local, *next);
        assert forall|i: int| 0 <= i < tbl.len() implies #[trigger] tbl[i].0.len() <= 5 by {}
        reveal_with_fuel(flag_sum, 6);
        assert(builder.values() =~= start + arith_values(
            *op_flags,
            builder.is_transition.val(),
            tbl,
        ));
    }
}

/// Asserts the equations of `u32_sub_table`.
#[verifier::spinoff_prover]
fn enforce_u32_sub(
    builder: &mut ConstraintEvaluator,
    local: &MainCols<Felt>,
    next: &MainCols<Felt>,
    op_flags: &OpFlags,
)
    ensures
        final(builder).periodic == old(builder).periodic,
        final(builder).is_transition == old(builder).is_transition,
        final(builder).is_first_row == old(builder).is_first_row,
        final(builder).is_last_row == old(builder).is_last_row,
        final(builder).values() == old(builder).values() + arith_values(
            *op_flags,
            old(builder).is_transition.val(),
            u32_sub_table(*local, *next),
        ),
{
    let ghost start = builder.values();
    let s = local.stack.top;
    let sn = next.stack.top;
    // Decoder helper columns: hasher_state[2..8] are user-op helpers.
    let h = local.decoder.user_op_helpers();
    let two = Felt::from_u8(2);
    let seven = Felt::from_u8(7);
    let two_pow_16 = Felt::new_unchecked(TWO_POW_16);
    let two_pow_32 = Felt::new_unchecked(TWO_POW_32);
    let two_pow_48 = Felt::new_unchecked(TWO_POW_48);
    let two_pow_32_minus_1 = Felt::new_unchecked(TWO_POW_32_MINUS_1);
    proof {
        vstd::arithmetic::div_mod::lemma_small_mod(TWO_POW_16 as nat, p() as nat);
        vstd::arithmetic::div_mod::lemma_small_mod(TWO_POW_32 as nat, p() as nat);
        vstd::arithmetic::div_mod::lemma_small_mod(TWO_POW_48 as nat, p() as nat);
        vstd::arithmetic::div_mod::lemma_small_mod(TWO_POW_32_MINUS_1 as nat, p() as nat);
        assert(h[0] == local.decoder.hasher_state[2]);
        assert(h[1] == local.decoder.hasher_state[3]);
        assert(h[2] == local.decoder.hasher_state[4]);
        assert(h[3] == local.decoder.hasher_state[5]);
        assert(h[4] == local.decoder.hasher_state[6]);
    }
    // U32SUB: s1 = s0 + s1' - s0' * 2^32
    gated(builder, op_flags.op_flag(opcodes::U32SUB), true, s[1].sub(s[0].add(sn[1]).sub(sn[0].mul(two_pow_32))));
    // U32SUB: the borrow s0' is boolean
    gated(builder, op_flags.op_flag(opcodes::U32SUB), true, sn[0].mul(sn[0].sub(Felt::one())));
    // U32SUB: s1' = v_lo
    gated(builder, op_flags.op_flag(opcodes::U32SUB), true, sn[1].sub(h[1].mul(two_pow_16).add(h[0])));
    // U32MUL: s0 * s1 = v64
    gated(builder, op_flags.op_flag(opcodes::U32MUL), false, s[0].mul(s[1]).sub(h[3].mul(two_pow_48).add(h[2].mul(two_pow_32).add(h[1].mul(two_pow_16).add(h[0])))));
    // U32MADD: s0 * s1 + s2 = v64
    gated(builder, op_flags.op_flag(opcodes::U32MADD), false, s[0].mul(s[1]).add(s[2]).sub(h[3].mul(two_pow_48).add(h[2].mul(two_pow_32).add(h[1].mul(two_pow_16).add(h[0])))));
    // U32DIV: s1 = s0 * s1' + s0'
    gated(builder, op_flags.op_flag(opcodes::U32DIV), true, s[1].sub(s[0].mul(sn[1]).add(sn[0])));
    // U32DIV: s1 - s1' = v_lo
    gated(builder, op_flags.op_flag(opcodes::U32DIV), true, s[1].sub(sn[1]).sub(h[1].mul(two_pow_16).add(h[0])));
    // U32DIV: s0 - s0' = v_hi + 1
    gated(builder, op_flags.op_flag(opcodes::U32DIV), true, s[0].sub(sn[0]).sub(h[3].mul(two_pow_16).add(h[2]).add(Felt::one())));
    // U32ASSERT2: s0' = v_hi
    gated(builder, op_flags.op_flag(opcodes::U32ASSERT2), true, sn[0].sub(h[3].mul(two_pow_16).add(h[2])));
    // U32ASSERT2: s1' = v_lo
    gated(builder, op_flags.op_flag(opcodes::U32ASSERT2), true, sn[1].sub(h[1].mul(two_pow_16).add(h[0])));
    proof {
        let tbl = u32_sub_table(*local, *next);
        assert forall|i: int| 0 <= i < tbl.len() implies #[trigger] tbl[i].0.len() <= 5 by {}
        reveal_with_fuel(flag_sum, 6);
        assert(builder.values() =~= start + arith_values(
            *op_flags,
            builder.is_transition.val(),
            tbl,
        ));
    }
}

/// The owners of every equation of `field_table` are distinct valid opcodes.
proof fn lemma_field_owners(l: MainCols<Felt>, n: MainCols<Felt>)
    ensures
        owners_valid(field_table(l, n)),
{
    let tbl = field_table(l, n);
    assert(seq![opcodes::ADD as int].no_duplicates());
    assert(is_valid_opcode(opcodes::ADD as int));
    assert(seq![opcodes::NEG as int].no_duplicates());
    assert(is_valid_opcode(opcodes::NEG as int));
    assert(seq![opcodes::MUL as int].no_duplicates());
    assert(is_valid_opcode(opcodes::MUL as int));
    assert(seq![opcodes::INV as int].no_duplicates());
    assert(is_valid_opcode(opcodes::INV as int));
    assert(seq![opcodes::INCR as int].no_duplicates());
    assert(is_valid_opcode(opcodes::INCR as int));
    assert(seq![opcodes::NOT as int].no_duplicates());
    assert(is_valid_opcode(opcodes::NOT as int));
    assert(seq![opcodes::AND as int].no_duplicates());
    assert(is_valid_opcode(opcodes::AND as int));
    assert(seq![opcodes::OR as int].no_duplicates());
    assert(is_valid_opcode(opcodes::OR as int));
    assert forall|i: int| 0 <= i < tbl.len() implies (#[trigger] tbl[i]).0.no_duplicates()
        && forall|k: int| 0 <= k < tbl[i].0.len() ==> is_valid_opcode(#[trigger] tbl[i].0[k]) by {
    }
}

/// The owners of every equation of `eq_table` are distinct valid opcodes.
proof fn lemma_eq_owners(l: MainCols<Felt>, n: MainCols<Felt>)
    ensures
        owners_valid(eq_table(l, n)),
{
    let tbl = eq_table(l, n);
    assert(seq![opcodes::EQ as int].no_duplicates());
    assert(is_valid_opcode(opcodes::EQ as int));
    assert(seq![opcodes::EQZ as int].no_duplicates());
    assert(is_valid_opcode(opcodes::EQZ as int));
    assert(seq![opcodes::EXPACC as int].no_duplicates());
    assert(is_valid_opcode(opcodes::EXPACC as int));
    assert(seq![opcodes::EXT2MUL as int].no_duplicates());
    assert(is_valid_opcode(opcodes::EXT2MUL as int));
    assert forall|i: int| 0 <= i < tbl.len() implies (#[trigger] tbl[i]).0.no_duplicates()
        && forall|k: int| 0 <= k < tbl[i].0.len() ==> is_valid_opcode(#[trigger] tbl[i].0[k]) by {
    }
}

/// The owners of every equation of `u32_table` are distinct valid opcodes.
proof fn lemma_u32_owners(l: MainCols<Felt>, n: MainCols<Felt>)
    ensures
        owners_valid(u32_table(l, n)),
{
    let tbl = u32_table(l, n);
    assert(seq![opcodes::U32SPLIT as int, opcodes::U32MUL as int, opcodes::U32MADD as int].no_duplicates());
    assert(is_valid_opcode(opcodes::U32SPLIT as int));
    assert(is_valid_opcode(opcodes::U32MUL as int));
    assert(is_valid_opcode(opcodes::U32MADD as int));
    assert(seq![opcodes::U32SPLIT as int, opcodes::U32ADD as int, opcodes::U32ADD3 as int, opcodes::U32MUL as int, opcodes::U32MADD as int].no_duplicates());
    assert(is_valid_opcode(opcodes::U32SPLIT as int));
    assert(is_valid_opcode(opcodes::U32ADD as int));
    assert(is_valid_opcode(opcodes::U32ADD3 as int));
    assert(is_valid_opcode(opcodes::U32MUL as int));
    assert(is_valid_opcode(opcodes::U32MADD as int));
    assert(seq![opcodes::U32SPLIT as int].no_duplicates());
    assert(is_valid_opcode(opcodes::U32SPLIT as int));
    assert(seq![opcodes::U32ADD as int].no_duplicates());
    assert(is_valid_opcode(opcodes::U32ADD as int));
    assert(seq![opcodes::U32ADD3 as int].no_duplicates());
    assert(is_valid_opcode(opcodes::U32ADD3 as int));
    assert(seq![opcodes::U32ADD as int, opcodes::U32ADD3 as int].no_duplicates());
    assert(is_valid_opcode(opcodes::U32ADD as int));
    assert(is_valid_opcode(opcodes::U32ADD3 as int));
    assert forall|i: int| 0 <= i < tbl.len() implies (#[trigger] tbl[i]).0.no_duplicates()
        && forall|k: int| 0 <= k < tbl[i].0.len() ==> is_valid_opcode(#[trigger] tbl[i].0[k]) by {
    }
}

/// The owners of every equation of `u32_sub_table` are distinct valid opcodes.
proof fn lemma_u32_sub_owners(l: MainCols<Felt>, n: MainCols<Felt>)
    ensures
        owners_valid(u32_sub_table(l, n)),
{
    let tbl = u32_sub_table(l, n);
    assert(seq![opcodes::U32SUB as int].no_duplicates());
    assert(is_valid_opcode(opcodes::U32SUB as int));
    assert(seq![opcodes::U32MUL as int].no_duplicates());
    assert(is_valid_opcode(opcodes::U32MUL as int));
    assert(seq![opcodes::U32MADD as int].no_duplicates());
    assert(is_valid_opcode(opcodes::U32MADD as int));
    assert(seq![opcodes::U32DIV as int].no_duplicates());
    assert(is_valid_opcode(opcodes::U32DIV as int));
    assert(seq![opcodes::U32ASSERT2 as int].no_duplicates());
    assert(is_valid_opcode(opcodes::U32ASSERT2 as int));
    assert forall|i: int| 0 <= i < tbl.len() implies (#[trigger] tbl[i]).0.no_duplicates()
        && forall|k: int| 0 <= k < tbl[i].0.len() ==> is_valid_opcode(#[trigger] tbl[i].0[k]) by {
    }
}

/// Enforces stack arith/u32 constraints.
pub fn enforce_main(
    builder: &mut ConstraintEvaluator,
    local: &MainCols<Felt>,
    next: &MainCols<Felt>,
    op_flags: &OpFlags,
)
    ensures
        final(builder).periodic == old(builder).periodic,
        final(builder).is_transition == old(builder).is_transition,
        final(builder).is_first_row == old(builder).is_first_row,
        final(builder).is_last_row == old(builder).is_last_row,
        final(builder).values() == old(builder).values() + arith_values(
            *op_flags,
            old(builder).is_transition.val(),
            arith_table(*local, *next),
        ),
{
    let ghost t = builder.is_transition.val();
    enforce_field(builder, local, next, op_flags);
    enforce_eq(builder, local, next, op_flags);
    enforce_u32(builder, local, next, op_flags);
    enforce_u32_sub(builder, local, next, op_flags);
    proof {
        let (l, n) = (*local, *next);
        assert(arith_values(*op_flags, t, arith_table(l, n)) =~= arith_values(
            *op_flags,
            t,
            field_table(l, n),
        ) + arith_values(*op_flags, t, eq_table(l, n)) + arith_values(
            *op_flags,
            t,
            u32_table(l, n),
        ) + arith_values(*op_flags, t, u32_sub_table(l, n)));
    }
}

// LAWS
// ================================================================================================

/// The owners of every equation of `tbl` are distinct valid opcodes.
pub open spec fn owners_valid(tbl: Seq<(Seq<int>, bool, int)>) -> bool {
    forall|i: int|
        0 <= i < tbl.len() ==> (#[trigger] tbl[i]).0.no_duplicates() && forall|k: int|
            0 <= k < tbl[i].0.len() ==> is_valid_opcode(#[trigger] tbl[i].0[k])
}

/// The value an equation of the table takes on a row of operation `op`: the equation (times
/// the transition selector `t` when it reads the next row) if `op` owns it, else zero.
pub open spec fn selected_value(e: (Seq<int>, bool, int), op: int, t: int) -> int {
    if e.0.contains(op) {
        if e.1 {
            fmul(t, fmul(1, e.2))
        } else {
            fmul(1, e.2)
        }
    } else {
        0
    }
}

/// Every equation of the stack-arith table that `op` owns vanishes in the field.
pub open spec fn owned_equations_hold(l: MainCols<Felt>, n: MainCols<Felt>, op: int) -> bool {
    forall|i: int|
        0 <= i < arith_table(l, n).len() && (#[trigger] arith_table(l, n)[i]).0.contains(op)
            ==> arith_table(l, n)[i].2 % p() == 0
}

/// The field operations ADD, NEG, MUL, INV, INCR, NOT, AND and OR.
pub open spec fn is_field_op(op: int) -> bool {
    ||| op == opcodes::ADD as int
    ||| op == opcodes::NEG as int
    ||| op == opcodes::MUL as int
    ||| op == opcodes::INV as int
    ||| op == opcodes::INCR as int
    ||| op == opcodes::NOT as int
    ||| op == opcodes::AND as int
    ||| op == opcodes::OR as int
}

/// The owner of each equation of the first table.
pub open spec fn field_owners() -> Seq<int> {
    seq![
        opcodes::ADD as int,
        opcodes::NEG as int,
        opcodes::MUL as int,
        opcodes::INV as int,
        opcodes::INCR as int,
        opcodes::NOT as int,
        opcodes::NOT as int,
        opcodes::AND as int,
        opcodes::AND as int,
        opcodes::AND as int,
        opcodes::OR as int,
        opcodes::OR as int,
        opcodes::OR as int,
    ]
}

/// A field operation owns exactly the equations of the first table whose single owner it is.
#[verifier::spinoff_prover]
#[verifier::rlimit(60)]
proof fn lemma_field_op_rows(l: MainCols<Felt>, n: MainCols<Felt>, op: int)
    requires
        is_field_op(op),
    ensures
        forall|i: int|
            0 <= i < arith_table(l, n).len() ==> ((#[trigger] arith_table(l, n)[i]).0.contains(op)
                <==> (i < field_table(l, n).len() && field_table(l, n)[i].0[0] == op)),
        forall|i: int| 0 <= i < field_table(l, n).len() ==> #[trigger] arith_table(l, n)[i] == field_table(l, n)[i],
        field_table(l, n).len() == 13,
{
    let a = field_table(l, n);
    let b = eq_table(l, n);
    let c = u32_table(l, n);
    let d = u32_sub_table(l, n);
    let tbl = arith_table(l, n);
    assert forall|i: int| 0 <= i < tbl.len() implies ((#[trigger] tbl[i]).0.contains(op) <==> (i
        < a.len() && a[i].0[0] == op)) by {
        if i < a.len() {
            assert(tbl[i] == a[i]);
            assert(a[i].0.len() == 1);
            if a[i].0[0] == op {
                assert(a[i].0[0] == op);
            }
        } else if i < a.len() + b.len() {
            assert(tbl[i] == b[i - a.len()]);
        } else if i < a.len() + b.len() + c.len() {
            assert(tbl[i] == c[i - a.len() - b.len()]);
        } else {
            assert(tbl[i] == d[i - a.len() - b.len() - c.len()]);
        }
    }
    assert forall|i: int| 0 <= i < a.len() implies #[trigger] tbl[i] == a[i] by {}
}

/// An index of the first table is one of its thirteen positions.
proof fn lemma_field_index_cases(j: int)
    requires
        0 <= j < 13,
    ensures
        j == 0 || j == 1 || j == 2 || j == 3 || j == 4 || j == 5 || j == 6 || j == 7 || j == 8
            || j == 9 || j == 10 || j == 11 || j == 12,
{
}

/// The single owner of each equation of the first table.
#[verifier::spinoff_prover]
proof fn lemma_field_owner_heads(l: MainCols<Felt>, n: MainCols<Felt>)
    ensures
        forall|i: int| 0 <= i < 13 ==> #[trigger] field_table(l, n)[i].0[0] == field_owners()[i],
{
    assert forall|i: int| 0 <= i < 13 implies #[trigger] field_table(l, n)[i].0[0] == field_owners()[i] by {
        lemma_field_index_cases(i);
    }
}

/// The equations `lo..hi` of the first table are those of `op`.
pub open spec fn owns_field_rows(op: int, lo: int, hi: int) -> bool {
    forall|j: int| 0 <= j < 13 ==> (#[trigger] field_owners()[j] == op <==> lo <= j < hi)
}

/// The owners of the first table: each field operation owns one run of it.
proof fn lemma_field_runs()
    ensures
        owns_field_rows(opcodes::ADD as int, 0, 1),
        owns_field_rows(opcodes::NEG as int, 1, 2),
        owns_field_rows(opcodes::MUL as int, 2, 3),
        owns_field_rows(opcodes::INV as int, 3, 4),
        owns_field_rows(opcodes::INCR as int, 4, 5),
        owns_field_rows(opcodes::NOT as int, 5, 7),
        owns_field_rows(opcodes::AND as int, 7, 10),
        owns_field_rows(opcodes::OR as int, 10, 13),
{
    let f = field_owners();
    assert(f[0] == opcodes::ADD as int && f[1] == opcodes::NEG as int && f[2] == opcodes::MUL as int);
    assert(f[3] == opcodes::INV as int && f[4] == opcodes::INCR as int && f[5] == opcodes::NOT as int);
    assert(f[6] == opcodes::NOT as int && f[7] == opcodes::AND as int && f[8] == opcodes::AND as int);
    assert(f[9] == opcodes::AND as int && f[10] == opcodes::OR as int && f[11] == opcodes::OR as int);
    assert(f[12] == opcodes::OR as int);
    assert forall|j: int| 0 <= j < 13 implies #[trigger] f[j] == f[j] by {
        lemma_field_index_cases(j);
    }
}

/// A field operation that owns the equations `lo..hi` of the first table: its equations hold
/// exactly when those do.
#[verifier::spinoff_prover]
#[verifier::rlimit(60)]
proof fn lemma_owned_range(l: MainCols<Felt>, n: MainCols<Felt>, op: int, lo: int, hi: int)
    requires
        is_field_op(op),
        0 <= lo <= hi <= 13,
        owns_field_rows(op, lo, hi),
    ensures
        owned_equations_hold(l, n, op) <==> forall|j: int|
            lo <= j < hi ==> (#[trigger] arith_table(l, n)[j]).2 % p() == 0,
{
    lemma_field_op_rows(l, n, op);
    lemma_field_owner_heads(l, n);
    let tbl = arith_table(l, n);
    if owned_equations_hold(l, n, op) {
        assert forall|j: int| lo <= j < hi implies (#[trigger] tbl[j]).2 % p() == 0 by {
            assert(field_owners()[j] == op);
            assert(tbl[j].0.contains(op));
        }
    }
    if forall|j: int| lo <= j < hi ==> (#[trigger] tbl[j]).2 % p() == 0 {
        assert forall|i: int| 0 <= i < tbl.len() && (#[trigger] tbl[i]).0.contains(op) implies tbl[i].2
            % p() == 0 by {
            assert(i < 13 && field_owners()[i] == op);
        }
    }
}

/// ADD and MUL hold exactly on the field sum and product.
#[verifier::spinoff_prover]
#[verifier::rlimit(60)]
proof fn lemma_add_mul(l: MainCols<Felt>, n: MainCols<Felt>)
    ensures
        ({
            let (s0, s1, t0) = (l.stack.top[0].val(), l.stack.top[1].val(), n.stack.top[0].val());
            &&& owned_equations_hold(l, n, opcodes::ADD as int) <==> t0 == (s0 + s1) % p()
            &&& owned_equations_hold(l, n, opcodes::MUL as int) <==> t0 == (s0 * s1) % p()
        }),
{
    let (s0, s1, t0) = (l.stack.top[0].val(), l.stack.top[1].val(), n.stack.top[0].val());
    lemma_field_runs();
    let a = field_table(l, n);
    let tbl = arith_table(l, n);
    lemma_field_op_rows(l, n, opcodes::ADD as int);
    n.stack.top[0].lemma_val_range();
    lemma_owned_range(l, n, opcodes::ADD as int, 0, 1);
    lemma_owned_range(l, n, opcodes::MUL as int, 2, 3);
    assert(tbl[0] == a[0] && tbl[2] == a[2]);
    lemma_fsub_zero_iff(t0, fadd(s0, s1));
    lemma_fsub_zero_iff(t0, fmul(s0, s1));
}

/// NEG holds exactly on the field negation.
#[verifier::spinoff_prover]
#[verifier::rlimit(60)]
proof fn lemma_neg(l: MainCols<Felt>, n: MainCols<Felt>)
    ensures
        owned_equations_hold(l, n, opcodes::NEG as int) <==> n.stack.top[0].val() == (0
            - l.stack.top[0].val()) % p(),
{
    let (s0, t0) = (l.stack.top[0].val(), n.stack.top[0].val());
    lemma_field_runs();
    let a = field_table(l, n);
    let tbl = arith_table(l, n);
    lemma_field_op_rows(l, n, opcodes::NEG as int);
    n.stack.top[0].lemma_val_range();
    lemma_owned_range(l, n, opcodes::NEG as int, 1, 2);
    assert(tbl[1] == a[1]);
    // `s0' + s0` vanishes exactly when `s0' == -s0`
    lemma_mod_sub_right(t0, 0 - s0);
    lemma_mod_mod(t0 + s0);
    lemma_fsub_zero_iff(t0, fsub(0, s0));
}

/// INV and INCR hold exactly on an inverse of `s0` and on `s0 + 1`.
#[verifier::spinoff_prover]
proof fn lemma_inv_incr(l: MainCols<Felt>, n: MainCols<Felt>)
    ensures
        ({
            let (s0, t0) = (l.stack.top[0].val(), n.stack.top[0].val());
            &&& owned_equations_hold(l, n, opcodes::INCR as int) <==> t0 == (s0 + 1) % p()
            &&& owned_equations_hold(l, n, opcodes::INV as int) <==> (t0 * s0) % p() == 1
        }),
{
    let (s0, t0) = (l.stack.top[0].val(), n.stack.top[0].val());
    lemma_field_runs();
    let a = field_table(l, n);
    let tbl = arith_table(l, n);
    lemma_field_op_rows(l, n, opcodes::INV as int);
    n.stack.top[0].lemma_val_range();
    lemma_owned_range(l, n, opcodes::INV as int, 3, 4);
    lemma_owned_range(l, n, opcodes::INCR as int, 4, 5);
    assert(tbl[3] == a[3] && tbl[4] == a[4]);
    lemma_fsub_zero_iff(t0, fadd(s0, 1));
    lemma_fsub_zero_iff(fmul(t0, s0), 1);
}

/// NOT holds on a binary `s0` exactly on `1 - s0`.
#[verifier::spinoff_prover]
proof fn lemma_not(l: MainCols<Felt>, n: MainCols<Felt>)
    requires
        l.stack.top[0].val() == 0 || l.stack.top[0].val() == 1,
    ensures
        owned_equations_hold(l, n, opcodes::NOT as int) <==> n.stack.top[0].val() == 1
            - l.stack.top[0].val(),
{
    let (s0, t0) = (l.stack.top[0].val(), n.stack.top[0].val());
    lemma_field_runs();
    let a = field_table(l, n);
    let tbl = arith_table(l, n);
    lemma_field_op_rows(l, n, opcodes::NOT as int);
    n.stack.top[0].lemma_val_range();
    lemma_owned_range(l, n, opcodes::NOT as int, 5, 7);
    assert(tbl[5] == a[5] && tbl[6] == a[6]);
    vstd::arithmetic::div_mod::lemma_small_mod(0, p() as nat);
    vstd::arithmetic::div_mod::lemma_small_mod(1, p() as nat);
    assert(bool_check(s0) == 0);
    lemma_mod_mod(s0 + t0);
    lemma_fsub_zero_iff(fadd(s0, t0), 1);
    if s0 == 1 && t0 == p() - 1 {
        vstd::arithmetic::div_mod::lemma_mod_self_0(p());
    } else {
        lemma_residue_is_reduced(s0 + t0);
    }
}

/// AND and OR hold on binary `s0, s1` exactly on `s0 * s1` and `s0 + s1 - s0 * s1`.
#[verifier::spinoff_prover]
#[verifier::rlimit(60)]
proof fn lemma_and_or(l: MainCols<Felt>, n: MainCols<Felt>)
    requires
        l.stack.top[0].val() == 0 || l.stack.top[0].val() == 1,
        l.stack.top[1].val() == 0 || l.stack.top[1].val() == 1,
    ensures
        ({
            let (s0, s1, t0) = (l.stack.top[0].val(), l.stack.top[1].val(), n.stack.top[0].val());
            &&& owned_equations_hold(l, n, opcodes::AND as int) <==> t0 == s0 * s1
            &&& owned_equations_hold(l, n, opcodes::OR as int) <==> t0 == s0 + s1 - s0 * s1
        }),
{
    let (s0, s1, t0) = (l.stack.top[0].val(), l.stack.top[1].val(), n.stack.top[0].val());
    lemma_field_runs();
    let a = field_table(l, n);
    let tbl = arith_table(l, n);
    lemma_field_op_rows(l, n, opcodes::AND as int);
    n.stack.top[0].lemma_val_range();
    lemma_owned_range(l, n, opcodes::AND as int, 7, 10);
    lemma_owned_range(l, n, opcodes::OR as int, 10, 13);
    assert(tbl[7] == a[7] && tbl[8] == a[8] && tbl[9] == a[9]);
    assert(tbl[10] == a[10] && tbl[11] == a[11] && tbl[12] == a[12]);
    vstd::arithmetic::div_mod::lemma_small_mod(0, p() as nat);
    vstd::arithmetic::div_mod::lemma_small_mod(1, p() as nat);
    vstd::arithmetic::div_mod::lemma_small_mod(2, p() as nat);
    assert(bool_check(s0) == 0 && bool_check(s1) == 0);
    assert(fmul(s0, s1) == s0 * s1);
    assert(fsub(fadd(s0, s1), fmul(s0, s1)) == s0 + s1 - s0 * s1);
    lemma_fsub_zero_iff(t0, s0 * s1);
    lemma_fsub_zero_iff(t0, s0 + s1 - s0 * s1);
}

/// What the field operations compute. On a row of the operation, its stack-arith equations
/// hold exactly when the top of the next row is:
/// - ADD: `s0 + s1`; NEG: `-s0`; MUL: `s0 * s1`; INCR: `s0 + 1` (in the field);
/// - INV: a value whose product with `s0` is `1`;
/// - NOT, for a binary `s0`: `1 - s0`;
/// - AND and OR, for binary `s0, s1`: `s0 * s1` and `s0 + s1 - s0 * s1`.
pub proof fn lemma_field_ops_behaviour(l: MainCols<Felt>, n: MainCols<Felt>)
    ensures
        ({
            let (s0, s1, t0) = (l.stack.top[0].val(), l.stack.top[1].val(), n.stack.top[0].val());
            &&& owned_equations_hold(l, n, opcodes::ADD as int) <==> t0 == (s0 + s1) % p()
            &&& owned_equations_hold(l, n, opcodes::NEG as int) <==> t0 == (0 - s0) % p()
            &&& owned_equations_hold(l, n, opcodes::MUL as int) <==> t0 == (s0 * s1) % p()
            &&& owned_equations_hold(l, n, opcodes::INCR as int) <==> t0 == (s0 + 1) % p()
            &&& owned_equations_hold(l, n, opcodes::INV as int) <==> (t0 * s0) % p() == 1
            &&& (s0 == 0 || s0 == 1) ==> (owned_equations_hold(l, n, opcodes::NOT as int) <==> t0
                == 1 - s0)
            &&& (s0 == 0 || s0 == 1) && (s1 == 0 || s1 == 1) ==> (owned_equations_hold(
                l,
                n,
                opcodes::AND as int,
            ) <==> t0 == s0 * s1)
            &&& (s0 == 0 || s0 == 1) && (s1 == 0 || s1 == 1) ==> (owned_equations_hold(
                l,
                n,
                opcodes::OR as int,
            ) <==> t0 == s0 + s1 - s0 * s1)
        }),
{
    let (s0, s1) = (l.stack.top[0].val(), l.stack.top[1].val());
    lemma_add_mul(l, n);
    lemma_neg(l, n);
    lemma_inv_incr(l, n);
    if s0 == 0 || s0 == 1 {
        lemma_not(l, n);
        if s1 == 0 || s1 == 1 {
            lemma_and_or(l, n);
        }
    }
}

/// EXT2MUL owns exactly the last four equations of the second table.
#[verifier::spinoff_prover]
#[verifier::rlimit(60)]
proof fn lemma_ext2mul_rows(l: MainCols<Felt>, n: MainCols<Felt>)
    ensures
        forall|i: int|
            0 <= i < arith_table(l, n).len() ==> ((#[trigger] arith_table(l, n)[i]).0.contains(
                opcodes::EXT2MUL as int,
            ) <==> 22 <= i < 26),
        forall|i: int| 22 <= i < 26 ==> #[trigger] arith_table(l, n)[i] == eq_table(l, n)[i - 13],
{
    let op = opcodes::EXT2MUL as int;
    let a = field_table(l, n);
    let b = eq_table(l, n);
    let c = u32_table(l, n);
    let d = u32_sub_table(l, n);
    let tbl = arith_table(l, n);
    assert forall|i: int| 0 <= i < tbl.len() implies ((#[trigger] tbl[i]).0.contains(op) <==> 22
        <= i < 26) by {
        if i < a.len() {
            assert(tbl[i] == a[i]);
        } else if i < a.len() + b.len() {
            assert(tbl[i] == b[i - a.len()]);
            if 22 <= i < 26 {
                assert(b[i - 13].0[0] == op);
            }
        } else if i < a.len() + b.len() + c.len() {
            assert(tbl[i] == c[i - a.len() - b.len()]);
        } else {
            assert(tbl[i] == d[i - a.len() - b.len() - c.len()]);
        }
    }
    assert forall|i: int| 22 <= i < 26 implies #[trigger] tbl[i] == b[i - 13] by {}
}

/// What EXT2MUL computes: on its row, its stack-arith equations hold exactly when the next
/// row keeps `b = (s0, s1)` on top and holds the extension product `a * b` of `a = (s2, s3)`
/// and `b` in `s2', s3'`.
#[verifier::spinoff_prover]
#[verifier::rlimit(60)]
pub proof fn lemma_ext2mul_behaviour(l: MainCols<Felt>, n: MainCols<Felt>)
    ensures
        owned_equations_hold(l, n, opcodes::EXT2MUL as int) <==> ({
            let (s0, s1, s2, s3) = (
                l.stack.top[0].val(),
                l.stack.top[1].val(),
                l.stack.top[2].val(),
                l.stack.top[3].val(),
            );
            &&& n.stack.top[0].val() == s0
            &&& n.stack.top[1].val() == s1
            &&& (n.stack.top[2].val(), n.stack.top[3].val()) == q_mul((s2, s3), (s0, s1))
        }),
{
    let (s0, s1, s2, s3) = (
        l.stack.top[0].val(),
        l.stack.top[1].val(),
        l.stack.top[2].val(),
        l.stack.top[3].val(),
    );
    let (t0, t1, t2, t3) = (
        n.stack.top[0].val(),
        n.stack.top[1].val(),
        n.stack.top[2].val(),
        n.stack.top[3].val(),
    );
    let b = eq_table(l, n);
    let tbl = arith_table(l, n);
    lemma_ext2mul_rows(l, n);
    assert(tbl[22] == b[9] && tbl[23] == b[10] && tbl[24] == b[11] && tbl[25] == b[12]);
    l.stack.top[0].lemma_val_range();
    l.stack.top[1].lemma_val_range();
    l.stack.top[2].lemma_val_range();
    l.stack.top[3].lemma_val_range();
    n.stack.top[0].lemma_val_range();
    n.stack.top[1].lemma_val_range();
    n.stack.top[2].lemma_val_range();
    n.stack.top[3].lemma_val_range();
    // first coordinate: a0 b0 + 7 a1 b1
    let c0 = fadd(fmul(s2, s0), fmul(fmul(s3, s1), 7));
    lemma_mod_mul_left(s3 * s1, 7);
    lemma_fadd_of_residues(s2 * s0, s3 * s1 * 7);
    assert(s3 * s1 * 7 == 7 * (s3 * s1)) by (nonlinear_arith);
    assert(c0 == q_mul((s2, s3), (s0, s1)).0);
    // second coordinate, by Karatsuba: (a0 + a1)(b0 + b1) - a0 b0 - a1 b1 = a0 b1 + a1 b0
    let c1 = fsub(fsub(fmul(fadd(s2, s3), fadd(s0, s1)), fmul(s2, s0)), fmul(s3, s1));
    lemma_fmul_of_residues(s2 + s3, s0 + s1);
    lemma_fsub_of_residues((s2 + s3) * (s0 + s1), s2 * s0);
    lemma_mod_mod((s2 + s3) * (s0 + s1) - s2 * s0);
    lemma_fsub_of_residues((s2 + s3) * (s0 + s1) - s2 * s0, s3 * s1);
    assert((s2 + s3) * (s0 + s1) - s2 * s0 - s3 * s1 == s2 * s1 + s3 * s0) by (nonlinear_arith);
    assert(c1 == q_mul((s2, s3), (s0, s1)).1);
    lemma_fsub_zero_iff(t0, s0);
    lemma_fsub_zero_iff(t1, s1);
    lemma_fsub_zero_iff(t2, c0);
    lemma_fsub_zero_iff(t3, c1);
    if owned_equations_hold(l, n, opcodes::EXT2MUL as int) {
        assert(tbl[22].0.contains(opcodes::EXT2MUL as int));
        assert(tbl[23].0.contains(opcodes::EXT2MUL as int));
        assert(tbl[24].0.contains(opcodes::EXT2MUL as int));
        assert(tbl[25].0.contains(opcodes::EXT2MUL as int));
    }
}

/// EXPACC owns exactly the equations `4..9` of the second table.
#[verifier::spinoff_prover]
#[verifier::rlimit(60)]
proof fn lemma_expacc_rows(l: MainCols<Felt>, n: MainCols<Felt>)
    ensures
        forall|i: int|
            0 <= i < arith_table(l, n).len() ==> ((#[trigger] arith_table(l, n)[i]).0.contains(
                opcodes::EXPACC as int,
            ) <==> 17 <= i < 22),
        forall|i: int| 17 <= i < 22 ==> #[trigger] arith_table(l, n)[i] == eq_table(l, n)[i - 13],
{
    let op = opcodes::EXPACC as int;
    let a = field_table(l, n);
    let b = eq_table(l, n);
    let c = u32_table(l, n);
    let d = u32_sub_table(l, n);
    let tbl = arith_table(l, n);
    assert forall|i: int| 0 <= i < tbl.len() implies ((#[trigger] tbl[i]).0.contains(op) <==> 17
        <= i < 22) by {
        if i < a.len() {
            assert(tbl[i] == a[i]);
        } else if i < a.len() + b.len() {
            assert(tbl[i] == b[i - a.len()]);
            if 17 <= i < 22 {
                assert(b[i - 13].0[0] == op);
            }
        } else if i < a.len() + b.len() + c.len() {
            assert(tbl[i] == c[i - a.len() - b.len()]);
        } else {
            assert(tbl[i] == d[i - a.len() - b.len() - c.len()]);
        }
    }
    assert forall|i: int| 17 <= i < 22 implies #[trigger] tbl[i] == b[i - 13] by {}
}

/// What EXPACC computes, one step of square-and-multiply exponentiation. On its row, with
/// `exp = s1`, `acc = s2`, `b = s3`, the helper `h0` and a binary bit `s0'`, its stack-arith
/// equations hold exactly when the next row squares the base (`s1' = exp^2`), the helper is
/// `exp` for a set bit and `1` otherwise, the accumulator is multiplied by it (`s2' = acc *
/// h0`), and the bit is the low bit of `b` (`b = 2 * s3' + s0'`), all in the field.
#[verifier::spinoff_prover]
#[verifier::rlimit(60)]
pub proof fn lemma_expacc_behaviour(l: MainCols<Felt>, n: MainCols<Felt>)
    requires
        n.stack.top[0].val() == 0 || n.stack.top[0].val() == 1,
    ensures
        owned_equations_hold(l, n, opcodes::EXPACC as int) <==> ({
            let (exp, acc, b) = (l.stack.top[1].val(), l.stack.top[2].val(), l.stack.top[3].val());
            let bit = n.stack.top[0].val();
            let h0 = l.decoder.hasher_state[2].val();
            &&& n.stack.top[1].val() == (exp * exp) % p()
            &&& h0 == (if bit == 1 { exp } else { 1 })
            &&& n.stack.top[2].val() == (acc * h0) % p()
            &&& b == (2 * n.stack.top[3].val() + bit) % p()
        }),
{
    let (exp, acc, b) = (l.stack.top[1].val(), l.stack.top[2].val(), l.stack.top[3].val());
    let bit = n.stack.top[0].val();
    let h0 = l.decoder.hasher_state[2].val();
    let e = eq_table(l, n);
    let tbl = arith_table(l, n);
    lemma_expacc_rows(l, n);
    assert(tbl[17] == e[4] && tbl[18] == e[5] && tbl[19] == e[6] && tbl[20] == e[7] && tbl[21] == e[8]);
    l.stack.top[1].lemma_val_range();
    l.stack.top[3].lemma_val_range();
    l.decoder.hasher_state[2].lemma_val_range();
    n.stack.top[1].lemma_val_range();
    n.stack.top[2].lemma_val_range();
    n.stack.top[3].lemma_val_range();
    vstd::arithmetic::div_mod::lemma_small_mod(0, p() as nat);
    vstd::arithmetic::div_mod::lemma_small_mod(1, p() as nat);
    // exp' = exp^2 and acc' = acc * h0
    lemma_fsub_zero_iff(n.stack.top[1].val(), fmul(exp, exp));
    lemma_fsub_zero_iff(n.stack.top[2].val(), fmul(acc, h0));
    // h0 = (exp - 1) * bit + 1: `exp` for a set bit, `1` otherwise
    let sel = fadd(fmul(fsub(exp, 1), bit), 1);
    if bit == 1 {
        lemma_mod_mod(exp - 1);
        lemma_mod_mul_left(exp - 1, 1);
        lemma_mod_add_left(exp - 1, 1);
        lemma_residue_is_reduced(exp);
        assert(sel == exp);
    } else {
        assert(sel == 1);
    }
    lemma_fsub_zero_iff(h0, sel);
    // b = 2 * b' + bit
    let low = fadd(fmul(n.stack.top[3].val(), 2), bit);
    lemma_mod_add_left(n.stack.top[3].val() * 2, bit);
    assert(n.stack.top[3].val() * 2 == 2 * n.stack.top[3].val());
    lemma_fsub_zero_iff(b, low);
    // the bit is binary
    assert(bool_check(bit) == 0) by {
        if bit == 1 {
            assert(fsub(1, 1) == 0);
        }
    }
    if owned_equations_hold(l, n, opcodes::EXPACC as int) {
        assert(tbl[17].0.contains(opcodes::EXPACC as int));
        assert(tbl[18].0.contains(opcodes::EXPACC as int));
        assert(tbl[19].0.contains(opcodes::EXPACC as int));
        assert(tbl[20].0.contains(opcodes::EXPACC as int));
    }
}

/// U32ADD owns exactly the equations `1`, `2`, `4` and `6` of the third table.
#[verifier::spinoff_prover]
#[verifier::rlimit(60)]
proof fn lemma_u32add_rows(l: MainCols<Felt>, n: MainCols<Felt>)
    ensures
        forall|i: int|
            0 <= i < arith_table(l, n).len() ==> ((#[trigger] arith_table(l, n)[i]).0.contains(
                opcodes::U32ADD as int,
            ) <==> (i == 27 || i == 28 || i == 30 || i == 32)),
        forall|i: int| 26 <= i < 33 ==> #[trigger] arith_table(l, n)[i] == u32_table(l, n)[i - 26],
{
    let op = opcodes::U32ADD as int;
    let a = field_table(l, n);
    let b = eq_table(l, n);
    let c = u32_table(l, n);
    let d = u32_sub_table(l, n);
    let tbl = arith_table(l, n);
    assert(c[1].0[1] == op && c[2].0[1] == op && c[4].0[0] == op && c[6].0[0] == op);
    assert forall|i: int| 0 <= i < tbl.len() implies ((#[trigger] tbl[i]).0.contains(op) <==> (i
        == 27 || i == 28 || i == 30 || i == 32)) by {
        if i < a.len() {
            assert(tbl[i] == a[i]);
        } else if i < a.len() + b.len() {
            assert(tbl[i] == b[i - a.len()]);
        } else if i < a.len() + b.len() + c.len() {
            assert(tbl[i] == c[i - a.len() - b.len()]);
        } else {
            assert(tbl[i] == d[i - a.len() - b.len() - c.len()]);
        }
    }
    assert forall|i: int| 26 <= i < 33 implies #[trigger] tbl[i] == c[i - 26] by {}
}

/// What U32ADD computes. On its row, with 32-bit operands `s0, s1` and 16-bit helper limbs
/// `h0..h3` (the limbs the range checker looks up), its stack-arith equations hold exactly when
/// the next row holds the low 32 bits of `s0 + s1` in `s0'` and the carry in `s1'`, and the
/// limbs are the 16-bit halves of `s0'` (`h0, h1`) and of `s1'` (`h2, h3`).
#[verifier::spinoff_prover]
#[verifier::rlimit(80)]
pub proof fn lemma_u32add_behaviour(l: MainCols<Felt>, n: MainCols<Felt>)
    requires
        l.stack.top[0].val() < 0x1_0000_0000,
        l.stack.top[1].val() < 0x1_0000_0000,
        l.decoder.hasher_state[2].val() < 0x10000,
        l.decoder.hasher_state[3].val() < 0x10000,
        l.decoder.hasher_state[4].val() < 0x10000,
        l.decoder.hasher_state[5].val() < 0x10000,
    ensures
        owned_equations_hold(l, n, opcodes::U32ADD as int) <==> ({
            let sum = l.stack.top[0].val() + l.stack.top[1].val();
            let (h0, h1, h2, h3) = (
                l.decoder.hasher_state[2].val(),
                l.decoder.hasher_state[3].val(),
                l.decoder.hasher_state[4].val(),
                l.decoder.hasher_state[5].val(),
            );
            &&& n.stack.top[0].val() == sum % 0x1_0000_0000
            &&& n.stack.top[1].val() == sum / 0x1_0000_0000
            &&& n.stack.top[0].val() == h0 + 0x10000 * h1
            &&& n.stack.top[1].val() == h2 + 0x10000 * h3
        }),
{
    let (s0, s1) = (l.stack.top[0].val(), l.stack.top[1].val());
    let (t0, t1) = (n.stack.top[0].val(), n.stack.top[1].val());
    let (h0, h1, h2, h3) = (
        l.decoder.hasher_state[2].val(),
        l.decoder.hasher_state[3].val(),
        l.decoder.hasher_state[4].val(),
        l.decoder.hasher_state[5].val(),
    );
    let sum = s0 + s1;
    let c = u32_table(l, n);
    let tbl = arith_table(l, n);
    lemma_u32add_rows(l, n);
    assert(tbl[27] == c[1] && tbl[28] == c[2] && tbl[30] == c[4] && tbl[32] == c[6]);
    l.stack.top[0].lemma_val_range();
    l.stack.top[1].lemma_val_range();
    l.decoder.hasher_state[2].lemma_val_range();
    l.decoder.hasher_state[3].lemma_val_range();
    l.decoder.hasher_state[4].lemma_val_range();
    l.decoder.hasher_state[5].lemma_val_range();
    n.stack.top[0].lemma_val_range();
    n.stack.top[1].lemma_val_range();
    // every value below is smaller than p, so the field operations are the integer ones
    let lo = h1 * 65536 + h0;
    let hi = h3 * 65536 + h2;
    let v48 = h2 * 4294967296 + lo;
    lemma_residue_is_reduced(h1 * 65536);
    lemma_residue_is_reduced(h3 * 65536);
    lemma_residue_is_reduced(h2 * 4294967296);
    lemma_residue_is_reduced(lo);
    lemma_residue_is_reduced(hi);
    lemma_residue_is_reduced(v48);
    lemma_residue_is_reduced(sum);
    assert(fmul(h1, 65536) == h1 * 65536 && fmul(h3, 65536) == h3 * 65536);
    assert(fmul(h2, 4294967296) == h2 * 4294967296);
    assert(fadd(fmul(h1, 65536), h0) == lo && fadd(fmul(h3, 65536), h2) == hi);
    assert(fadd(fmul(h2, 4294967296), fadd(fmul(h1, 65536), h0)) == v48);
    assert(fadd(s0, s1) == sum);
    lemma_fsub_zero_iff(t0, lo);
    lemma_fsub_zero_iff(t1, hi);
    lemma_fsub_zero_iff(sum, v48);
    vstd::arithmetic::div_mod::lemma_small_mod(0, p() as nat);
    lemma_residue_is_reduced(h3);
    // `sum == 2^32 * h2 + lo` with `lo < 2^32` splits the sum into its low 32 bits and carry
    if lo < 4294967296 && sum == 4294967296 * h2 + lo {
        vstd::arithmetic::div_mod::lemma_fundamental_div_mod_converse(sum, 4294967296, h2, lo);
    }
    vstd::arithmetic::div_mod::lemma_fundamental_div_mod(sum, 4294967296);
    vstd::arithmetic::div_mod::lemma_mod_bound(sum, 4294967296);
    assert(sum / 4294967296 <= 1) by {
        vstd::arithmetic::div_mod::lemma_div_is_ordered(sum, 8589934591, 4294967296);
    }
    if owned_equations_hold(l, n, opcodes::U32ADD as int) {
        assert(tbl[27].0.contains(opcodes::U32ADD as int));
        assert(tbl[28].0.contains(opcodes::U32ADD as int));
        assert(tbl[30].0.contains(opcodes::U32ADD as int));
        assert(tbl[32].0.contains(opcodes::U32ADD as int));
        assert(h3 == 0);
        assert(lo < 4294967296);
    }
}

/// U32SPLIT owns the first four equations of the third table.
#[verifier::spinoff_prover]
#[verifier::rlimit(60)]
proof fn lemma_u32split_rows(l: MainCols<Felt>, n: MainCols<Felt>)
    ensures
        forall|i: int| 26 <= i < 30 ==> (#[trigger] arith_table(l, n)[i]).0.contains(
            opcodes::U32SPLIT as int,
        ),
        forall|i: int| 26 <= i < 33 ==> #[trigger] arith_table(l, n)[i] == u32_table(l, n)[i - 26],
{
    let op = opcodes::U32SPLIT as int;
    let c = u32_table(l, n);
    let tbl = arith_table(l, n);
    assert forall|i: int| 26 <= i < 33 implies #[trigger] tbl[i] == c[i - 26] by {}
    assert(c[0].0[0] == op && c[1].0[0] == op && c[2].0[0] == op && c[3].0[0] == op);
    assert forall|i: int| 26 <= i < 30 implies (#[trigger] tbl[i]).0.contains(op) by {
        assert(tbl[i] == c[i - 26]);
        assert(c[i - 26].0[0] == op);
    }
}

/// The 64-bit value of the helper limbs: with 16-bit limbs `h0..h3`, the halves
/// `lo = h0 + 2^16 h1` and `hi = h2 + 2^16 h3` are 32-bit values, and when the element validity
/// equation vanishes the field value of `h0 + 2^16 h1 + 2^32 h2 + 2^48 h3` is the integer
/// `hi * 2^32 + lo`, below `p`.
proof fn lemma_valid_limbs(l: MainCols<Felt>, n: MainCols<Felt>)
    requires
        l.decoder.hasher_state[2].val() < 0x10000,
        l.decoder.hasher_state[3].val() < 0x10000,
        l.decoder.hasher_state[4].val() < 0x10000,
        l.decoder.hasher_state[5].val() < 0x10000,
        u32_table(l, n)[0].2 % p() == 0,
    ensures
        ({
            let (h0, h1, h2, h3) = (
                l.decoder.hasher_state[2].val(),
                l.decoder.hasher_state[3].val(),
                l.decoder.hasher_state[4].val(),
                l.decoder.hasher_state[5].val(),
            );
            let lo = h1 * 65536 + h0;
            let hi = h3 * 65536 + h2;
            &&& lo < 4294967296 && hi < 4294967296
            &&& fadd(fmul(h1, 65536), h0) == lo
            &&& fadd(fmul(h3, 65536), h2) == hi
            &&& fadd(fmul(h3, 281474976710656), fadd(fmul(h2, 4294967296), fadd(fmul(h1, 65536), h0)))
                == hi * 4294967296 + lo
            &&& hi * 4294967296 + lo < p()
        }),
{
    let c = u32_table(l, n);
    let (h0, h1, h2, h3, m) = (
        l.decoder.hasher_state[2].val(),
        l.decoder.hasher_state[3].val(),
        l.decoder.hasher_state[4].val(),
        l.decoder.hasher_state[5].val(),
        l.decoder.hasher_state[6].val(),
    );
    l.decoder.hasher_state[2].lemma_val_range();
    l.decoder.hasher_state[3].lemma_val_range();
    l.decoder.hasher_state[4].lemma_val_range();
    l.decoder.hasher_state[5].lemma_val_range();
    let lo = h1 * 65536 + h0;
    let hi = h3 * 65536 + h2;
    let v48 = h2 * 4294967296 + lo;
    lemma_residue_is_reduced(h1 * 65536);
    lemma_residue_is_reduced(h3 * 65536);
    lemma_residue_is_reduced(h2 * 4294967296);
    lemma_residue_is_reduced(lo);
    lemma_residue_is_reduced(hi);
    lemma_residue_is_reduced(v48);
    assert(fmul(h1, 65536) == h1 * 65536 && fmul(h3, 65536) == h3 * 65536);
    assert(fmul(h2, 4294967296) == h2 * 4294967296);
    assert(fadd(fmul(h1, 65536), h0) == lo && fadd(fmul(h3, 65536), h2) == hi);
    assert(fadd(fmul(h2, 4294967296), fadd(fmul(h1, 65536), h0)) == v48);
    // a high half of 2^32 - 1 forces a zero low half, so the value is below p
    if hi == 4294967295 {
        vstd::arithmetic::div_mod::lemma_small_mod(0, p() as nat);
        vstd::arithmetic::div_mod::lemma_small_mod(1, p() as nat);
        assert(fsub(4294967295, hi) == 0);
        assert(m * 0 == 0) by (nonlinear_arith);
        assert(fmul(m, 0) == 0);
        assert(fsub(1, 0) == 1);
        assert(1 * lo == lo);
        assert(c[0].2 == lo);
        assert(lo == 0);
    }
    let v64 = h3 * 281474976710656 + v48;
    assert(v64 == hi * 4294967296 + lo);
    assert(v64 < p()) by {
        assert(hi <= 4294967295);
        if hi == 4294967295 {
            assert(v64 == 4294967295 * 4294967296);
        } else {
            assert(hi * 4294967296 <= 4294967294 * 4294967296) by (nonlinear_arith)
                requires hi <= 4294967294;
        }
    }
    lemma_residue_is_reduced(h3 * 281474976710656);
    lemma_residue_is_reduced(v64);
    assert(fmul(h3, 281474976710656) == h3 * 281474976710656);
}

/// What U32SPLIT computes. On its row, with 16-bit helper limbs `h0..h3` (looked up by the
/// range checker), when its stack-arith equations hold the next row holds the low 32 bits of
/// `s0` in `s0'` and the high 32 bits in `s1'`: the limbs are the true 64-bit decomposition of
/// `s0`, as the element validity equation rules out a decomposition that wraps around `p`.
#[verifier::spinoff_prover]
#[verifier::rlimit(80)]
pub proof fn lemma_u32split_behaviour(l: MainCols<Felt>, n: MainCols<Felt>)
    requires
        l.decoder.hasher_state[2].val() < 0x10000,
        l.decoder.hasher_state[3].val() < 0x10000,
        l.decoder.hasher_state[4].val() < 0x10000,
        l.decoder.hasher_state[5].val() < 0x10000,
        owned_equations_hold(l, n, opcodes::U32SPLIT as int),
    ensures
        n.stack.top[0].val() == l.stack.top[0].val() % 0x1_0000_0000,
        n.stack.top[1].val() == l.stack.top[0].val() / 0x1_0000_0000,
{
    let s0 = l.stack.top[0].val();
    let (t0, t1) = (n.stack.top[0].val(), n.stack.top[1].val());
    let (h0, h1, h2, h3) = (
        l.decoder.hasher_state[2].val(),
        l.decoder.hasher_state[3].val(),
        l.decoder.hasher_state[4].val(),
        l.decoder.hasher_state[5].val(),
    );
    let c = u32_table(l, n);
    let tbl = arith_table(l, n);
    lemma_u32split_rows(l, n);
    assert(tbl[26] == c[0] && tbl[27] == c[1] && tbl[28] == c[2] && tbl[29] == c[3]);
    assert(tbl[26].0.contains(opcodes::U32SPLIT as int));
    assert(tbl[27].0.contains(opcodes::U32SPLIT as int));
    assert(tbl[28].0.contains(opcodes::U32SPLIT as int));
    assert(tbl[29].0.contains(opcodes::U32SPLIT as int));
    l.stack.top[0].lemma_val_range();
    n.stack.top[0].lemma_val_range();
    n.stack.top[1].lemma_val_range();
    lemma_valid_limbs(l, n);
    let lo = h1 * 65536 + h0;
    let hi = h3 * 65536 + h2;
    // the next row holds the two 32-bit halves, and s0 is the 64-bit value of the limbs
    lemma_fsub_zero_iff(t0, lo);
    lemma_fsub_zero_iff(t1, hi);
    lemma_fsub_zero_iff(s0, hi * 4294967296 + lo);
    vstd::arithmetic::div_mod::lemma_fundamental_div_mod_converse(s0, 4294967296, hi, lo);
}

/// U32MUL owns the first three equations of the third table and the fourth of the last.
#[verifier::spinoff_prover]
#[verifier::rlimit(60)]
proof fn lemma_u32mul_rows(l: MainCols<Felt>, n: MainCols<Felt>)
    ensures
        forall|i: int| 26 <= i < 29 ==> (#[trigger] arith_table(l, n)[i]).0.contains(
            opcodes::U32MUL as int,
        ),
        arith_table(l, n)[36].0.contains(opcodes::U32MUL as int),
        forall|i: int| 26 <= i < 33 ==> #[trigger] arith_table(l, n)[i] == u32_table(l, n)[i - 26],
        arith_table(l, n)[36] == u32_sub_table(l, n)[3],
{
    let op = opcodes::U32MUL as int;
    let c = u32_table(l, n);
    let d = u32_sub_table(l, n);
    let tbl = arith_table(l, n);
    assert forall|i: int| 26 <= i < 33 implies #[trigger] tbl[i] == c[i - 26] by {}
    assert(tbl[36] == d[3]);
    assert(c[0].0[1] == op && c[1].0[3] == op && c[2].0[3] == op && d[3].0[0] == op);
    assert forall|i: int| 26 <= i < 29 implies (#[trigger] tbl[i]).0.contains(op) by {
        assert(tbl[i] == c[i - 26]);
        if i == 26 {
            assert(c[0].0[1] == op);
        } else {
            assert(c[i - 26].0[3] == op);
        }
    }
    assert(tbl[36].0[0] == op);
}

/// What U32MUL computes. On its row, with 32-bit operands `s0, s1` and 16-bit helper limbs
/// `h0..h3`, when its stack-arith equations hold the next row holds the low 32 bits of the
/// product `s0 * s1` in `s0'` and its high 32 bits in `s1'`.
#[verifier::spinoff_prover]
#[verifier::rlimit(80)]
pub proof fn lemma_u32mul_behaviour(l: MainCols<Felt>, n: MainCols<Felt>)
    requires
        l.stack.top[0].val() < 0x1_0000_0000,
        l.stack.top[1].val() < 0x1_0000_0000,
        l.decoder.hasher_state[2].val() < 0x10000,
        l.decoder.hasher_state[3].val() < 0x10000,
        l.decoder.hasher_state[4].val() < 0x10000,
        l.decoder.hasher_state[5].val() < 0x10000,
        owned_equations_hold(l, n, opcodes::U32MUL as int),
    ensures
        n.stack.top[0].val() == (l.stack.top[0].val() * l.stack.top[1].val()) % 0x1_0000_0000,
        n.stack.top[1].val() == (l.stack.top[0].val() * l.stack.top[1].val()) / 0x1_0000_0000,
{
    let (s0, s1) = (l.stack.top[0].val(), l.stack.top[1].val());
    let (t0, t1) = (n.stack.top[0].val(), n.stack.top[1].val());
    let (h0, h1, h2, h3) = (
        l.decoder.hasher_state[2].val(),
        l.decoder.hasher_state[3].val(),
        l.decoder.hasher_state[4].val(),
        l.decoder.hasher_state[5].val(),
    );
    let c = u32_table(l, n);
    let d = u32_sub_table(l, n);
    let tbl = arith_table(l, n);
    lemma_u32mul_rows(l, n);
    assert(tbl[26] == c[0] && tbl[27] == c[1] && tbl[28] == c[2] && tbl[36] == d[3]);
    assert(tbl[26].0.contains(opcodes::U32MUL as int));
    assert(tbl[27].0.contains(opcodes::U32MUL as int));
    assert(tbl[28].0.contains(opcodes::U32MUL as int));
    assert(tbl[36].0.contains(opcodes::U32MUL as int));
    assert(d[3].2 % p() == 0);
    l.stack.top[0].lemma_val_range();
    l.stack.top[1].lemma_val_range();
    n.stack.top[0].lemma_val_range();
    n.stack.top[1].lemma_val_range();
    lemma_valid_limbs(l, n);
    let lo = h1 * 65536 + h0;
    let hi = h3 * 65536 + h2;
    // the product of two 32-bit values is below p
    assert(s0 * s1 <= 4294967295 * 4294967295) by (nonlinear_arith)
        requires 0 <= s0 <= 4294967295, 0 <= s1 <= 4294967295;
    assert(0 <= s0 * s1) by (nonlinear_arith)
        requires 0 <= s0, 0 <= s1;
    lemma_residue_is_reduced(s0 * s1);
    assert(fmul(s0, s1) == s0 * s1);
    lemma_fsub_zero_iff(t0, lo);
    lemma_fsub_zero_iff(t1, hi);
    lemma_fsub_zero_iff(s0 * s1, hi * 4294967296 + lo);
    vstd::arithmetic::div_mod::lemma_fundamental_div_mod_converse(s0 * s1, 4294967296, hi, lo);
}

/// U32SUB owns the first three equations of the last table.
#[verifier::spinoff_prover]
#[verifier::rlimit(60)]
proof fn lemma_u32sub_rows(l: MainCols<Felt>, n: MainCols<Felt>)
    ensures
        forall|i: int| 33 <= i < 36 ==> (#[trigger] arith_table(l, n)[i]).0.contains(
            opcodes::U32SUB as int,
        ),
        forall|i: int| 33 <= i < 43 ==> #[trigger] arith_table(l, n)[i] == u32_sub_table(l, n)[i - 33],
{
    let op = opcodes::U32SUB as int;
    let d = u32_sub_table(l, n);
    let tbl = arith_table(l, n);
    assert forall|i: int| 33 <= i < 43 implies #[trigger] tbl[i] == d[i - 33] by {}
    assert(d[0].0[0] == op && d[1].0[0] == op && d[2].0[0] == op);
    assert forall|i: int| 33 <= i < 36 implies (#[trigger] tbl[i]).0.contains(op) by {
        assert(tbl[i] == d[i - 33]);
        assert(d[i - 33].0[0] == op);
    }
}

/// The borrow of a 32-bit subtraction: from `s1 == s0 + r - b * 2^32` in the field, with
/// 32-bit `s0, s1, r` and a binary `b`, `r` is `s1 - s0` modulo `2^32` and `b` is `s1 < s0`.
proof fn lemma_borrow(s0: int, s1: int, b: int, r: int)
    requires
        0 <= s0 < 4294967296,
        0 <= s1 < 4294967296,
        0 <= r < 4294967296,
        b == 0 || b == 1,
        s1 == (s0 + r - b * 4294967296) % p(),
    ensures
        r == (s1 - s0) % 4294967296,
        b == (if s1 < s0 { 1int } else { 0int }),
{
    let x = s0 + r - b * 4294967296;
    if x < 0 {
        vstd::arithmetic::div_mod::lemma_mod_add_multiples_vanish(x, p());
        lemma_residue_is_reduced(x + p());
    } else {
        lemma_residue_is_reduced(x);
    }
    assert(s1 == x);
    if b == 1 {
        vstd::arithmetic::div_mod::lemma_fundamental_div_mod_converse(s1 - s0, 4294967296, -1, r);
    } else {
        vstd::arithmetic::div_mod::lemma_fundamental_div_mod_converse(s1 - s0, 4294967296, 0, r);
    }
}

/// What U32SUB computes. On its row, with 32-bit operands `s0, s1`, 16-bit helper limbs
/// `h0, h1` and a binary borrow `s0'`, when its stack-arith equations hold the next row holds
/// `s1 - s0` modulo `2^32` in `s1'` and the borrow `s0' = 1` exactly when `s1 < s0`.
#[verifier::spinoff_prover]
#[verifier::rlimit(80)]
pub proof fn lemma_u32sub_behaviour(l: MainCols<Felt>, n: MainCols<Felt>)
    requires
        l.stack.top[0].val() < 0x1_0000_0000,
        l.stack.top[1].val() < 0x1_0000_0000,
        l.decoder.hasher_state[2].val() < 0x10000,
        l.decoder.hasher_state[3].val() < 0x10000,
        n.stack.top[0].val() == 0 || n.stack.top[0].val() == 1,
        owned_equations_hold(l, n, opcodes::U32SUB as int),
    ensures
        n.stack.top[1].val() == (l.stack.top[1].val() - l.stack.top[0].val()) % 0x1_0000_0000,
        n.stack.top[0].val() == (if l.stack.top[1].val() < l.stack.top[0].val() {
            1int
        } else {
            0int
        }),
{
    let (s0, s1) = (l.stack.top[0].val(), l.stack.top[1].val());
    let (t0, t1) = (n.stack.top[0].val(), n.stack.top[1].val());
    let (h0, h1) = (l.decoder.hasher_state[2].val(), l.decoder.hasher_state[3].val());
    let d = u32_sub_table(l, n);
    let tbl = arith_table(l, n);
    lemma_u32sub_rows(l, n);
    assert(tbl[33] == d[0] && tbl[35] == d[2]);
    assert(tbl[33].0.contains(opcodes::U32SUB as int));
    assert(tbl[35].0.contains(opcodes::U32SUB as int));
    l.decoder.hasher_state[2].lemma_val_range();
    l.decoder.hasher_state[3].lemma_val_range();
    n.stack.top[1].lemma_val_range();
    // the result is the 32-bit value of its limbs
    let lo = h1 * 65536 + h0;
    lemma_residue_is_reduced(h1 * 65536);
    lemma_residue_is_reduced(lo);
    assert(fmul(h1, 65536) == h1 * 65536);
    assert(fadd(fmul(h1, 65536), h0) == lo);
    lemma_fsub_zero_iff(t1, lo);
    assert(t1 == lo && t1 < 4294967296);
    // s1 == s0 + s1' - s0' * 2^32 in the field
    l.stack.top[0].lemma_val_range();
    l.stack.top[1].lemma_val_range();
    lemma_residue_is_reduced(s0 + t1);
    lemma_residue_is_reduced(4294967296);
    vstd::arithmetic::div_mod::lemma_small_mod(0, p() as nat);
    assert(fmul(t0, 4294967296) == t0 * 4294967296) by {
        if t0 == 1 {
            assert(1 * 4294967296 == 4294967296);
        }
    }
    assert(fadd(s0, t1) == s0 + t1);
    let x = s0 + t1 - t0 * 4294967296;
    assert(fsub(fadd(s0, t1), fmul(t0, 4294967296)) == x % p());
    lemma_mod_mod(x);
    lemma_fsub_zero_iff(s1, x % p());
    lemma_borrow(s0, s1, t0, t1);
}

/// With one-hot flags, the sum of the flags of distinct valid opcodes is one when `op` is
/// among them and zero otherwise.
proof fn lemma_flag_sum_one_hot(flags: OpFlags, owners: Seq<int>, op: int)
    requires
        forall|x: int|
            #![trigger flags.flag_of(x)]
            is_valid_opcode(x) ==> flags.flag_of(x).val() == (if x == op {
                1int
            } else {
                0int
            }),
        owners.no_duplicates(),
        forall|k: int| 0 <= k < owners.len() ==> is_valid_opcode(#[trigger] owners[k]),
    ensures
        flag_sum(flags, owners) == (if owners.contains(op) {
            1int
        } else {
            0int
        }),
    decreases owners.len(),
{
    if owners.len() == 0 {
    } else if owners.len() == 1 {
        assert(flags.flag_of(owners[0]).val() == (if owners[0] == op { 1int } else { 0int }));
        if owners.contains(op) {
            let k = choose|k: int| 0 <= k < owners.len() && owners[k] == op;
            assert(k == 0);
        }
    } else {
        let init = owners.drop_last();
        assert forall|k: int| 0 <= k < init.len() implies is_valid_opcode(#[trigger] init[k]) by {
            assert(init[k] == owners[k]);
        }
        assert(init.no_duplicates()) by {
            assert forall|a: int, b: int| 0 <= a < init.len() && 0 <= b < init.len() && a != b implies init[a] != init[b] by {
                assert(init[a] == owners[a] && init[b] == owners[b]);
            }
        }
        lemma_flag_sum_one_hot(flags, init, op);
        let last = owners.last();
        assert(is_valid_opcode(owners[owners.len() - 1]));
        assert(flags.flag_of(last).val() == (if last == op { 1int } else { 0int }));
        if init.contains(op) {
            let k = choose|k: int| 0 <= k < init.len() && init[k] == op;
            assert(owners[k] == op);
            assert(last != op);
            assert(owners.contains(op));
        } else if last == op {
            assert(owners[owners.len() - 1] == op);
            assert(owners.contains(op));
        } else {
            if owners.contains(op) {
                let k = choose|k: int| 0 <= k < owners.len() && owners[k] == op;
                if k < owners.len() - 1 {
                    assert(init[k] == op);
                }
            }
        }
    }
}

/// Gating a table with one-hot flags keeps the equations owned by `op` and zeroes the others.
proof fn lemma_arith_select_table(flags: OpFlags, t: int, tbl: Seq<(Seq<int>, bool, int)>, op: int)
    requires
        owners_valid(tbl),
        forall|x: int|
            #![trigger flags.flag_of(x)]
            is_valid_opcode(x) ==> flags.flag_of(x).val() == (if x == op {
                1int
            } else {
                0int
            }),
    ensures
        forall|i: int|
            0 <= i < tbl.len() ==> #[trigger] arith_values(flags, t, tbl)[i] == selected_value(
                tbl[i],
                op,
                t,
            ),
{
    assert forall|i: int| 0 <= i < tbl.len() implies #[trigger] arith_values(flags, t, tbl)[i]
        == selected_value(tbl[i], op, t) by {
        let e = tbl[i];
        assert(e.0.no_duplicates());
        lemma_flag_sum_one_hot(flags, e.0, op);
        if !e.0.contains(op) {
            assert(fmul(0, e.2) == 0);
            assert(fmul(t, 0) == 0);
        }
    }
}

/// The owners of every stack-arith equation are distinct valid opcodes.
proof fn lemma_arith_owners(l: MainCols<Felt>, n: MainCols<Felt>)
    ensures
        owners_valid(arith_table(l, n)),
{
    let a = field_table(l, n);
    let b = eq_table(l, n);
    let c = u32_table(l, n);
    let d = u32_sub_table(l, n);
    lemma_field_owners(l, n);
    lemma_eq_owners(l, n);
    lemma_u32_owners(l, n);
    lemma_u32_sub_owners(l, n);
    let tbl = arith_table(l, n);
    assert forall|i: int| 0 <= i < tbl.len() implies (#[trigger] tbl[i]).0.no_duplicates() && forall|k: int|
        0 <= k < tbl[i].0.len() ==> is_valid_opcode(#[trigger] tbl[i].0[k]) by {
        if i < a.len() {
            assert(tbl[i] == a[i]);
        } else if i < a.len() + b.len() {
            assert(tbl[i] == b[i - a.len()]);
        } else if i < a.len() + b.len() + c.len() {
            assert(tbl[i] == c[i - a.len() - b.len()]);
        } else {
            assert(tbl[i] == d[i - a.len() - b.len() - c.len()]);
        }
    }
}

/// On a row whose op bits encode a valid opcode `op`, every stack-arith constraint is its
/// equation (gated by the transition selector `t` where it reads the next row) when `op`
/// owns it, and zero otherwise: the constraints of the row are those of its operation.
pub proof fn lemma_stack_arith_select(
    flags: OpFlags,
    dec: DecoderCols<Felt>,
    stack: StackCols<Felt>,
    next_dec: DecoderCols<Felt>,
    op: int,
    l: MainCols<Felt>,
    n: MainCols<Felt>,
    t: int,
)
    requires
        flags.flags_of(dec, stack, next_dec),
        encodes_opcode(dec, op),
        is_valid_opcode(op),
    ensures
        forall|i: int|
            0 <= i < arith_table(l, n).len() ==> #[trigger] arith_values(
                flags,
                t,
                arith_table(l, n),
            )[i] == selected_value(arith_table(l, n)[i], op, t),
{
    lemma_flag_of_one_hot(flags, dec, stack, next_dec, op);
    lemma_arith_owners(l, n);
    lemma_arith_select_table(flags, t, arith_table(l, n), op);
}

} // verus!
