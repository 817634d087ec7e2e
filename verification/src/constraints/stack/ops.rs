//! Stack operation constraints.
//!
//! This module enforces ops that directly rewrite visible stack items:
//! PAD, DUP*, CLK, SWAP, MOVUP/MOVDN, SWAPW/SWAPDW, conditional swaps, and small
//! system/io stack ops (ASSERT, CALLER, SDEPTH).
//!
//! Stack shifting is enforced in the general stack constraints; here we only cover explicit
//! rewrites of stack positions for these op groups.
//!
//! Every constraint is an equation owned by one operation: on a transition row it is
//! asserted gated by that operation's flag.

use vstd::prelude::*;

use crate::constraints::columns::MainCols;
use crate::constraints::evaluator::{ConstraintEvaluator, bool_check};
use crate::constraints::decoder::columns::DecoderCols;
use crate::constraints::op_flags::{OpFlags, encodes_opcode, lemma_op_flags_one_hot};
use crate::constraints::stack::columns::StackCols;
use crate::constraints::utils::BoolNot;
use crate::field::{Felt, fadd, fmul, fsub, lemma_fsub_zero_iff, p};
use crate::operations::opcodes;

verus! {

/// `c * x + (1 - c) * y`: the value a conditional swap with selector `c` selects.
pub open spec fn cswap_value(c: int, x: int, y: int) -> int {
    fadd(fmul(c, x), fmul(fsub(1, c), y))
}

/// The values of the constraints of `table` on a row with transition selector `t`: each
/// equation gated by the flag of its operation.
pub open spec fn gated_values(flags: OpFlags, t: int, table: Seq<(int, int)>) -> Seq<int> {
    table.map_values(|e: (int, int)| fmul(t, fmul(flags.degree7_op_flags[e.0].val(), e.1)))
}

/// Asserts `x` gated by the transition selector and `flag`.
fn gate_zero(builder: &mut ConstraintEvaluator, flag: Felt, x: Felt)
    ensures
        final(builder).periodic == old(builder).periodic,
        final(builder).is_transition == old(builder).is_transition,
        final(builder).is_first_row == old(builder).is_first_row,
        final(builder).is_last_row == old(builder).is_last_row,
        final(builder).values() == old(builder).values().push(
            fmul(old(builder).is_transition.val(), fmul(flag.val(), x.val())),
        ),
{
    let t = builder.is_transition;
    builder.assert_zero_when(t, flag.mul(x));
}

/// Asserts `x == y` gated by the transition selector and `flag`.
fn gate_eq(builder: &mut ConstraintEvaluator, flag: Felt, x: Felt, y: Felt)
    ensures
        final(builder).periodic == old(builder).periodic,
        final(builder).is_transition == old(builder).is_transition,
        final(builder).is_first_row == old(builder).is_first_row,
        final(builder).is_last_row == old(builder).is_last_row,
        final(builder).values() == old(builder).values().push(
            fmul(old(builder).is_transition.val(), fmul(flag.val(), fsub(x.val(), y.val()))),
        ),
{
    gate_zero(builder, flag, x.sub(y));
}

/// The equations of PAD, DUP{n} and CLK: the new top of the stack. Each entry is the opcode of the
/// operation that owns the equation and the value of the equation on the window `(l, n)`.
pub open spec fn dup_table(l: MainCols<Felt>, n: MainCols<Felt>) -> Seq<(int, int)> {
    seq![
        (opcodes::PAD as int, n.stack.top[0].val()),
        (opcodes::DUP0 as int, fsub(n.stack.top[0].val(), l.stack.top[0].val())),
        (opcodes::DUP1 as int, fsub(n.stack.top[0].val(), l.stack.top[1].val())),
        (opcodes::DUP2 as int, fsub(n.stack.top[0].val(), l.stack.top[2].val())),
        (opcodes::DUP3 as int, fsub(n.stack.top[0].val(), l.stack.top[3].val())),
        (opcodes::DUP4 as int, fsub(n.stack.top[0].val(), l.stack.top[4].val())),
        (opcodes::DUP5 as int, fsub(n.stack.top[0].val(), l.stack.top[5].val())),
        (opcodes::DUP6 as int, fsub(n.stack.top[0].val(), l.stack.top[6].val())),
        (opcodes::DUP7 as int, fsub(n.stack.top[0].val(), l.stack.top[7].val())),
        (opcodes::DUP9 as int, fsub(n.stack.top[0].val(), l.stack.top[9].val())),
        (opcodes::DUP11 as int, fsub(n.stack.top[0].val(), l.stack.top[11].val())),
        (opcodes::DUP13 as int, fsub(n.stack.top[0].val(), l.stack.top[13].val())),
        (opcodes::DUP15 as int, fsub(n.stack.top[0].val(), l.stack.top[15].val())),
        (opcodes::CLK as int, fsub(n.stack.top[0].val(), l.system.clk.val())),
    ]
}

/// The equations of SWAP, MOVUP{n} and MOVDN{n}. Each entry is the opcode of the
/// operation that owns the equation and the value of the equation on the window `(l, n)`.
pub open spec fn mov_table(l: MainCols<Felt>, n: MainCols<Felt>) -> Seq<(int, int)> {
    seq![
        (opcodes::SWAP as int, fsub(n.stack.top[0].val(), l.stack.top[1].val())),
        (opcodes::SWAP as int, fsub(n.stack.top[1].val(), l.stack.top[0].val())),
        (opcodes::MOVUP2 as int, fsub(n.stack.top[0].val(), l.stack.top[2].val())),
        (opcodes::MOVUP3 as int, fsub(n.stack.top[0].val(), l.stack.top[3].val())),
        (opcodes::MOVUP4 as int, fsub(n.stack.top[0].val(), l.stack.top[4].val())),
        (opcodes::MOVUP5 as int, fsub(n.stack.top[0].val(), l.stack.top[5].val())),
        (opcodes::MOVUP6 as int, fsub(n.stack.top[0].val(), l.stack.top[6].val())),
        (opcodes::MOVUP7 as int, fsub(n.stack.top[0].val(), l.stack.top[7].val())),
        (opcodes::MOVUP8 as int, fsub(n.stack.top[0].val(), l.stack.top[8].val())),
        (opcodes::MOVDN2 as int, fsub(n.stack.top[2].val(), l.stack.top[0].val())),
        (opcodes::MOVDN3 as int, fsub(n.stack.top[3].val(), l.stack.top[0].val())),
        (opcodes::MOVDN4 as int, fsub(n.stack.top[4].val(), l.stack.top[0].val())),
        (opcodes::MOVDN5 as int, fsub(n.stack.top[5].val(), l.stack.top[0].val())),
        (opcodes::MOVDN6 as int, fsub(n.stack.top[6].val(), l.stack.top[0].val())),
        (opcodes::MOVDN7 as int, fsub(n.stack.top[7].val(), l.stack.top[0].val())),
        (opcodes::MOVDN8 as int, fsub(n.stack.top[8].val(), l.stack.top[0].val())),
    ]
}

/// The equations of SWAPW, SWAPW2 and SWAPW3: word exchanges. Each entry is the opcode of the
/// operation that owns the equation and the value of the equation on the window `(l, n)`.
pub open spec fn words_table(l: MainCols<Felt>, n: MainCols<Felt>) -> Seq<(int, int)> {
    seq![
        (opcodes::SWAPW as int, fsub(n.stack.top[0].val(), l.stack.top[4].val())),
        (opcodes::SWAPW as int, fsub(n.stack.top[1].val(), l.stack.top[5].val())),
        (opcodes::SWAPW as int, fsub(n.stack.top[2].val(), l.stack.top[6].val())),
        (opcodes::SWAPW as int, fsub(n.stack.top[3].val(), l.stack.top[7].val())),
        (opcodes::SWAPW as int, fsub(n.stack.top[4].val(), l.stack.top[0].val())),
        (opcodes::SWAPW as int, fsub(n.stack.top[5].val(), l.stack.top[1].val())),
        (opcodes::SWAPW as int, fsub(n.stack.top[6].val(), l.stack.top[2].val())),
        (opcodes::SWAPW as int, fsub(n.stack.top[7].val(), l.stack.top[3].val())),
        (opcodes::SWAPW2 as int, fsub(n.stack.top[0].val(), l.stack.top[8].val())),
        (opcodes::SWAPW2 as int, fsub(n.stack.top[1].val(), l.stack.top[9].val())),
        (opcodes::SWAPW2 as int, fsub(n.stack.top[2].val(), l.stack.top[10].val())),
        (opcodes::SWAPW2 as int, fsub(n.stack.top[3].val(), l.stack.top[11].val())),
        (opcodes::SWAPW2 as int, fsub(n.stack.top[8].val(), l.stack.top[0].val())),
        (opcodes::SWAPW2 as int, fsub(n.stack.top[9].val(), l.stack.top[1].val())),
        (opcodes::SWAPW2 as int, fsub(n.stack.top[10].val(), l.stack.top[2].val())),
        (opcodes::SWAPW2 as int, fsub(n.stack.top[11].val(), l.stack.top[3].val())),
        (opcodes::SWAPW3 as int, fsub(n.stack.top[0].val(), l.stack.top[12].val())),
        (opcodes::SWAPW3 as int, fsub(n.stack.top[1].val(), l.stack.top[13].val())),
        (opcodes::SWAPW3 as int, fsub(n.stack.top[2].val(), l.stack.top[14].val())),
        (opcodes::SWAPW3 as int, fsub(n.stack.top[3].val(), l.stack.top[15].val())),
        (opcodes::SWAPW3 as int, fsub(n.stack.top[12].val(), l.stack.top[0].val())),
        (opcodes::SWAPW3 as int, fsub(n.stack.top[13].val(), l.stack.top[1].val())),
        (opcodes::SWAPW3 as int, fsub(n.stack.top[14].val(), l.stack.top[2].val())),
        (opcodes::SWAPW3 as int, fsub(n.stack.top[15].val(), l.stack.top[3].val())),
    ]
}

/// The equations of SWAPDW: the exchange of the first two double-words. Each entry is the
/// opcode of the operation that owns the equation and the value of the equation on the
/// window `(l, n)`.
pub open spec fn dwords_table(l: MainCols<Felt>, n: MainCols<Felt>) -> Seq<(int, int)> {
    seq![
        (opcodes::SWAPDW as int, fsub(n.stack.top[0].val(), l.stack.top[8].val())),
        (opcodes::SWAPDW as int, fsub(n.stack.top[1].val(), l.stack.top[9].val())),
        (opcodes::SWAPDW as int, fsub(n.stack.top[2].val(), l.stack.top[10].val())),
        (opcodes::SWAPDW as int, fsub(n.stack.top[3].val(), l.stack.top[11].val())),
        (opcodes::SWAPDW as int, fsub(n.stack.top[4].val(), l.stack.top[12].val())),
        (opcodes::SWAPDW as int, fsub(n.stack.top[5].val(), l.stack.top[13].val())),
        (opcodes::SWAPDW as int, fsub(n.stack.top[6].val(), l.stack.top[14].val())),
        (opcodes::SWAPDW as int, fsub(n.stack.top[7].val(), l.stack.top[15].val())),
        (opcodes::SWAPDW as int, fsub(n.stack.top[8].val(), l.stack.top[0].val())),
        (opcodes::SWAPDW as int, fsub(n.stack.top[9].val(), l.stack.top[1].val())),
        (opcodes::SWAPDW as int, fsub(n.stack.top[10].val(), l.stack.top[2].val())),
        (opcodes::SWAPDW as int, fsub(n.stack.top[11].val(), l.stack.top[3].val())),
        (opcodes::SWAPDW as int, fsub(n.stack.top[12].val(), l.stack.top[4].val())),
        (opcodes::SWAPDW as int, fsub(n.stack.top[13].val(), l.stack.top[5].val())),
        (opcodes::SWAPDW as int, fsub(n.stack.top[14].val(), l.stack.top[6].val())),
        (opcodes::SWAPDW as int, fsub(n.stack.top[15].val(), l.stack.top[7].val())),
    ]
}

/// The equations of CSWAP and CSWAPW (selector `s0`), ASSERT, CALLER and SDEPTH. Each entry is the opcode of the
/// operation that owns the equation and the value of the equation on the window `(l, n)`.
pub open spec fn cond_table(l: MainCols<Felt>, n: MainCols<Felt>) -> Seq<(int, int)> {
    seq![
        (opcodes::CSWAP as int, bool_check(l.stack.top[0].val())),
        (opcodes::CSWAP as int, fsub(n.stack.top[0].val(), cswap_value(l.stack.top[0].val(), l.stack.top[2].val(), l.stack.top[1].val()))),
        (opcodes::CSWAP as int, fsub(n.stack.top[1].val(), cswap_value(l.stack.top[0].val(), l.stack.top[1].val(), l.stack.top[2].val()))),
        (opcodes::CSWAPW as int, bool_check(l.stack.top[0].val())),
        (opcodes::CSWAPW as int, fsub(n.stack.top[0].val(), cswap_value(l.stack.top[0].val(), l.stack.top[5].val(), l.stack.top[1].val()))),
        (opcodes::CSWAPW as int, fsub(n.stack.top[1].val(), cswap_value(l.stack.top[0].val(), l.stack.top[6].val(), l.stack.top[2].val()))),
        (opcodes::CSWAPW as int, fsub(n.stack.top[2].val(), cswap_value(l.stack.top[0].val(), l.stack.top[7].val(), l.stack.top[3].val()))),
        (opcodes::CSWAPW as int, fsub(n.stack.top[3].val(), cswap_value(l.stack.top[0].val(), l.stack.top[8].val(), l.stack.top[4].val()))),
        (opcodes::CSWAPW as int, fsub(n.stack.top[4].val(), cswap_value(l.stack.top[0].val(), l.stack.top[1].val(), l.stack.top[5].val()))),
        (opcodes::CSWAPW as int, fsub(n.stack.top[5].val(), cswap_value(l.stack.top[0].val(), l.stack.top[2].val(), l.stack.top[6].val()))),
        (opcodes::CSWAPW as int, fsub(n.stack.top[6].val(), cswap_value(l.stack.top[0].val(), l.stack.top[3].val(), l.stack.top[7].val()))),
        (opcodes::CSWAPW as int, fsub(n.stack.top[7].val(), cswap_value(l.stack.top[0].val(), l.stack.top[4].val(), l.stack.top[8].val()))),
        (opcodes::ASSERT as int, fsub(l.stack.top[0].val(), 1)),
        (opcodes::CALLER as int, fsub(n.stack.top[0].val(), l.system.fn_hash[0].val())),
        (opcodes::CALLER as int, fsub(n.stack.top[1].val(), l.system.fn_hash[1].val())),
        (opcodes::CALLER as int, fsub(n.stack.top[2].val(), l.system.fn_hash[2].val())),
        (opcodes::CALLER as int, fsub(n.stack.top[3].val(), l.system.fn_hash[3].val())),
        (opcodes::SDEPTH as int, fsub(n.stack.top[0].val(), l.stack.b0.val())),
    ]
}

/// All stack-ops equations, in assertion order.
pub open spec fn stack_ops_table(l: MainCols<Felt>, n: MainCols<Felt>) -> Seq<(int, int)> {
    dup_table(l, n) + mov_table(l, n) + words_table(l, n) + dwords_table(l, n) + cond_table(
        l,
        n,
    )
}

/// Asserts the equations of PAD, DUP{n} and CLK: the new top of the stack.
fn enforce_dup(
    builder: &mut ConstraintEvaluator,
    local: &MainCols<Felt>,
    next: &MainCols<Felt>,
    op_flags: &OpFlags,
)
    ensures
        final(builder).periodic == old(builder).periodic,
        final(builder).is_transition == old(builder).is_transition,
        final(builder).is_first_row == old(builder).is_first_row,
        final(builder).is_last_row == old(builder).is_last_row,
        final(builder).values() == old(builder).values() + gated_values(
            *op_flags,
            old(builder).is_transition.val(),
            dup_table(*local, *next),
        ),
{
    let ghost start = builder.values();
    let s = local.stack.top;
    let sn = next.stack.top;
    gate_zero(builder, op_flags.op_flag(opcodes::PAD), sn[0]);
    gate_eq(builder, op_flags.op_flag(opcodes::DUP0), sn[0], s[0]);
    gate_eq(builder, op_flags.op_flag(opcodes::DUP1), sn[0], s[1]);
    gate_eq(builder, op_flags.op_flag(opcodes::DUP2), sn[0], s[2]);
    gate_eq(builder, op_flags.op_flag(opcodes::DUP3), sn[0], s[3]);
    gate_eq(builder, op_flags.op_flag(opcodes::DUP4), sn[0], s[4]);
    gate_eq(builder, op_flags.op_flag(opcodes::DUP5), sn[0], s[5]);
    gate_eq(builder, op_flags.op_flag(opcodes::DUP6), sn[0], s[6]);
    gate_eq(builder, op_flags.op_flag(opcodes::DUP7), sn[0], s[7]);
    gate_eq(builder, op_flags.op_flag(opcodes::DUP9), sn[0], s[9]);
    gate_eq(builder, op_flags.op_flag(opcodes::DUP11), sn[0], s[11]);
    gate_eq(builder, op_flags.op_flag(opcodes::DUP13), sn[0], s[13]);
    gate_eq(builder, op_flags.op_flag(opcodes::DUP15), sn[0], s[15]);
    gate_eq(builder, op_flags.op_flag(opcodes::CLK), sn[0], local.system.clk);
    assert(builder.values() =~= start + gated_values(
        *op_flags,
        builder.is_transition.val(),
        dup_table(*local, *next),
    ));
}

/// Asserts the equations of SWAP, MOVUP{n} and MOVDN{n}.
fn enforce_mov(
    builder: &mut ConstraintEvaluator,
    local: &MainCols<Felt>,
    next: &MainCols<Felt>,
    op_flags: &OpFlags,
)
    ensures
        final(builder).periodic == old(builder).periodic,
        final(builder).is_transition == old(builder).is_transition,
        final(builder).is_first_row == old(builder).is_first_row,
        final(builder).is_last_row == old(builder).is_last_row,
        final(builder).values() == old(builder).values() + gated_values(
            *op_flags,
            old(builder).is_transition.val(),
            mov_table(*local, *next),
        ),
{
    let ghost start = builder.values();
    let s = local.stack.top;
    let sn = next.stack.top;
    gate_eq(builder, op_flags.op_flag(opcodes::SWAP), sn[0], s[1]);
    gate_eq(builder, op_flags.op_flag(opcodes::SWAP), sn[1], s[0]);
    gate_eq(builder, op_flags.op_flag(opcodes::MOVUP2), sn[0], s[2]);
    gate_eq(builder, op_flags.op_flag(opcodes::MOVUP3), sn[0], s[3]);
    gate_eq(builder, op_flags.op_flag(opcodes::MOVUP4), sn[0], s[4]);
    gate_eq(builder, op_flags.op_flag(opcodes::MOVUP5), sn[0], s[5]);
    gate_eq(builder, op_flags.op_flag(opcodes::MOVUP6), sn[0], s[6]);
    gate_eq(builder, op_flags.op_flag(opcodes::MOVUP7), sn[0], s[7]);
    gate_eq(builder, op_flags.op_flag(opcodes::MOVUP8), sn[0], s[8]);
    gate_eq(builder, op_flags.op_flag(opcodes::MOVDN2), sn[2], s[0]);
    gate_eq(builder, op_flags.op_flag(opcodes::MOVDN3), sn[3], s[0]);
    gate_eq(builder, op_flags.op_flag(opcodes::MOVDN4), sn[4], s[0]);
    gate_eq(builder, op_flags.op_flag(opcodes::MOVDN5), sn[5], s[0]);
    gate_eq(builder, op_flags.op_flag(opcodes::MOVDN6), sn[6], s[0]);
    gate_eq(builder, op_flags.op_flag(opcodes::MOVDN7), sn[7], s[0]);
    gate_eq(builder, op_flags.op_flag(opcodes::MOVDN8), sn[8], s[0]);
    assert(builder.values() =~= start + gated_values(
        *op_flags,
        builder.is_transition.val(),
        mov_table(*local, *next),
    ));
}

/// Asserts the equations of SWAPW, SWAPW2 and SWAPW3: word exchanges.
fn enforce_words(
    builder: &mut ConstraintEvaluator,
    local: &MainCols<Felt>,
    next: &MainCols<Felt>,
    op_flags: &OpFlags,
)
    ensures
        final(builder).periodic == old(builder).periodic,
        final(builder).is_transition == old(builder).is_transition,
        final(builder).is_first_row == old(builder).is_first_row,
        final(builder).is_last_row == old(builder).is_last_row,
        final(builder).values() == old(builder).values() + gated_values(
            *op_flags,
            old(builder).is_transition.val(),
            words_table(*local, *next),
        ),
{
    let ghost start = builder.values();
    let s = local.stack.top;
    let sn = next.stack.top;
    gate_eq(builder, op_flags.op_flag(opcodes::SWAPW), sn[0], s[4]);
    gate_eq(builder, op_flags.op_flag(opcodes::SWAPW), sn[1], s[5]);
    gate_eq(builder, op_flags.op_flag(opcodes::SWAPW), sn[2], s[6]);
    gate_eq(builder, op_flags.op_flag(opcodes::SWAPW), sn[3], s[7]);
    gate_eq(builder, op_flags.op_flag(opcodes::SWAPW), sn[4], s[0]);
    gate_eq(builder, op_flags.op_flag(opcodes::SWAPW), sn[5], s[1]);
    gate_eq(builder, op_flags.op_flag(opcodes::SWAPW), sn[6], s[2]);
    gate_eq(builder, op_flags.op_flag(opcodes::SWAPW), sn[7], s[3]);
    gate_eq(builder, op_flags.op_flag(opcodes::SWAPW2), sn[0], s[8]);
    gate_eq(builder, op_flags.op_flag(opcodes::SWAPW2), sn[1], s[9]);
    gate_eq(builder, op_flags.op_flag(opcodes::SWAPW2), sn[2], s[10]);
    gate_eq(builder, op_flags.op_flag(opcodes::SWAPW2), sn[3], s[11]);
    gate_eq(builder, op_flags.op_flag(opcodes::SWAPW2), sn[8], s[0]);
    gate_eq(builder, op_flags.op_flag(opcodes::SWAPW2), sn[9], s[1]);
    gate_eq(builder, op_flags.op_flag(opcodes::SWAPW2), sn[10], s[2]);
    gate_eq(builder, op_flags.op_flag(opcodes::SWAPW2), sn[11], s[3]);
    gate_eq(builder, op_flags.op_flag(opcodes::SWAPW3), sn[0], s[12]);
    gate_eq(builder, op_flags.op_flag(opcodes::SWAPW3), sn[1], s[13]);
    gate_eq(builder, op_flags.op_flag(opcodes::SWAPW3), sn[2], s[14]);
    gate_eq(builder, op_flags.op_flag(opcodes::SWAPW3), sn[3], s[15]);
    gate_eq(builder, op_flags.op_flag(opcodes::SWAPW3), sn[12], s[0]);
    gate_eq(builder, op_flags.op_flag(opcodes::SWAPW3), sn[13], s[1]);
    gate_eq(builder, op_flags.op_flag(opcodes::SWAPW3), sn[14], s[2]);
    gate_eq(builder, op_flags.op_flag(opcodes::SWAPW3), sn[15], s[3]);
    assert(builder.values() =~= start + gated_values(
        *op_flags,
        builder.is_transition.val(),
        words_table(*local, *next),
    ));
}

/// Asserts the equations of SWAPDW.
fn enforce_dwords(
    builder: &mut ConstraintEvaluator,
    local: &MainCols<Felt>,
    next: &MainCols<Felt>,
    op_flags: &OpFlags,
)
    ensures
        final(builder).periodic == old(builder).periodic,
        final(builder).is_transition == old(builder).is_transition,
        final(builder).is_first_row == old(builder).is_first_row,
        final(builder).is_last_row == old(builder).is_last_row,
        final(builder).values() == old(builder).values() + gated_values(
            *op_flags,
            old(builder).is_transition.val(),
            dwords_table(*local, *next),
        ),
{
    let ghost start = builder.values();
    let s = local.stack.top;
    let sn = next.stack.top;
    gate_eq(builder, op_flags.op_flag(opcodes::SWAPDW), sn[0], s[8]);
    gate_eq(builder, op_flags.op_flag(opcodes::SWAPDW), sn[1], s[9]);
    gate_eq(builder, op_flags.op_flag(opcodes::SWAPDW), sn[2], s[10]);
    gate_eq(builder, op_flags.op_flag(opcodes::SWAPDW), sn[3], s[11]);
    gate_eq(builder, op_flags.op_flag(opcodes::SWAPDW), sn[4], s[12]);
    gate_eq(builder, op_flags.op_flag(opcodes::SWAPDW), sn[5], s[13]);
    gate_eq(builder, op_flags.op_flag(opcodes::SWAPDW), sn[6], s[14]);
    gate_eq(builder, op_flags.op_flag(opcodes::SWAPDW), sn[7], s[15]);
    gate_eq(builder, op_flags.op_flag(opcodes::SWAPDW), sn[8], s[0]);
    gate_eq(builder, op_flags.op_flag(opcodes::SWAPDW), sn[9], s[1]);
    gate_eq(builder, op_flags.op_flag(opcodes::SWAPDW), sn[10], s[2]);
    gate_eq(builder, op_flags.op_flag(opcodes::SWAPDW), sn[11], s[3]);
    gate_eq(builder, op_flags.op_flag(opcodes::SWAPDW), sn[12], s[4]);
    gate_eq(builder, op_flags.op_flag(opcodes::SWAPDW), sn[13], s[5]);
    gate_eq(builder, op_flags.op_flag(opcodes::SWAPDW), sn[14], s[6]);
    gate_eq(builder, op_flags.op_flag(opcodes::SWAPDW), sn[15], s[7]);
    assert(builder.values() =~= start + gated_values(
        *op_flags,
        builder.is_transition.val(),
        dwords_table(*local, *next),
    ));
}

/// Asserts the equations of CSWAP and CSWAPW (selector `s0`), ASSERT, CALLER and SDEPTH.
fn enforce_cond(
    builder: &mut ConstraintEvaluator,
    local: &MainCols<Felt>,
    next: &MainCols<Felt>,
    op_flags: &OpFlags,
)
    ensures
        final(builder).periodic == old(builder).periodic,
        final(builder).is_transition == old(builder).is_transition,
        final(builder).is_first_row == old(builder).is_first_row,
        final(builder).is_last_row == old(builder).is_last_row,
        final(builder).values() == old(builder).values() + gated_values(
            *op_flags,
            old(builder).is_transition.val(),
            cond_table(*local, *next),
        ),
{
    let ghost start = builder.values();
    let s = local.stack.top;
    let sn = next.stack.top;
    // CSWAP / CSWAPW: conditional swaps using s0 as the selector.
    let cswap_c = s[0];
    let cswap_c_inv = cswap_c.not();
    gate_zero(builder, op_flags.op_flag(opcodes::CSWAP), s[0].mul(s[0].sub(Felt::one())));
    gate_eq(builder, op_flags.op_flag(opcodes::CSWAP), sn[0], cswap_c.mul(s[2]).add(cswap_c_inv.mul(s[1])));
    gate_eq(builder, op_flags.op_flag(opcodes::CSWAP), sn[1], cswap_c.mul(s[1]).add(cswap_c_inv.mul(s[2])));
    gate_zero(builder, op_flags.op_flag(opcodes::CSWAPW), s[0].mul(s[0].sub(Felt::one())));
    gate_eq(builder, op_flags.op_flag(opcodes::CSWAPW), sn[0], cswap_c.mul(s[5]).add(cswap_c_inv.mul(s[1])));
    gate_eq(builder, op_flags.op_flag(opcodes::CSWAPW), sn[1], cswap_c.mul(s[6]).add(cswap_c_inv.mul(s[2])));
    gate_eq(builder, op_flags.op_flag(opcodes::CSWAPW), sn[2], cswap_c.mul(s[7]).add(cswap_c_inv.mul(s[3])));
    gate_eq(builder, op_flags.op_flag(opcodes::CSWAPW), sn[3], cswap_c.mul(s[8]).add(cswap_c_inv.mul(s[4])));
    gate_eq(builder, op_flags.op_flag(opcodes::CSWAPW), sn[4], cswap_c.mul(s[1]).add(cswap_c_inv.mul(s[5])));
    gate_eq(builder, op_flags.op_flag(opcodes::CSWAPW), sn[5], cswap_c.mul(s[2]).add(cswap_c_inv.mul(s[6])));
    gate_eq(builder, op_flags.op_flag(opcodes::CSWAPW), sn[6], cswap_c.mul(s[3]).add(cswap_c_inv.mul(s[7])));
    gate_eq(builder, op_flags.op_flag(opcodes::CSWAPW), sn[7], cswap_c.mul(s[4]).add(cswap_c_inv.mul(s[8])));
    gate_eq(builder, op_flags.op_flag(opcodes::ASSERT), s[0], Felt::one());
    gate_eq(builder, op_flags.op_flag(opcodes::CALLER), sn[0], local.system.fn_hash[0]);
    gate_eq(builder, op_flags.op_flag(opcodes::CALLER), sn[1], local.system.fn_hash[1]);
    gate_eq(builder, op_flags.op_flag(opcodes::CALLER), sn[2], local.system.fn_hash[2]);
    gate_eq(builder, op_flags.op_flag(opcodes::CALLER), sn[3], local.system.fn_hash[3]);
    gate_eq(builder, op_flags.op_flag(opcodes::SDEPTH), sn[0], local.stack.b0);
    assert(builder.values() =~= start + gated_values(
        *op_flags,
        builder.is_transition.val(),
        cond_table(*local, *next),
    ));
}

/// Enforces stack operation constraints for PAD/DUP/CLK/SWAP/MOV/SWAPW/CSWAP, and ASSERT,
/// CALLER and SDEPTH.
///
/// All constraints are gated by the transition selector and by the flag of the operation
/// that owns them.
pub fn enforce_main(
    builder: &mut ConstraintEvaluator,
    local: &MainCols<Felt>,
    next: &MainCols<Felt>,
    op_flags: &OpFlags,
)
    ensures
        final(builder).periodic == old(builder).periodic,
        final(builder).is_transition == old(builder).is_transition,
        final(builder).is_first_row == old(builder).is_first_row,
        final(builder).is_last_row == old(builder).is_last_row,
        final(builder).values() == old(builder).values() + gated_values(
            *op_flags,
            old(builder).is_transition.val(),
            stack_ops_table(*local, *next),
        ),
{
    let ghost start = builder.values();
    let ghost t = builder.is_transition.val();
    enforce_dup(builder, local, next, op_flags);
    enforce_mov(builder, local, next, op_flags);
    enforce_words(builder, local, next, op_flags);
    enforce_dwords(builder, local, next, op_flags);
    enforce_cond(builder, local, next, op_flags);
    proof {
        let (l, n) = (*local, *next);
        assert(gated_values(*op_flags, t, stack_ops_table(l, n)) =~= gated_values(
            *op_flags,
            t,
            dup_table(l, n),
        ) + gated_values(*op_flags, t, mov_table(l, n)) + gated_values(
            *op_flags,
            t,
            words_table(l, n),
        ) + gated_values(*op_flags, t, dwords_table(l, n)) + gated_values(
            *op_flags,
            t,
            cond_table(l, n),
        ));
    }
}

// LAWS
// ================================================================================================

/// Every equation of `dup_table` is owned by a degree-7 operation.
proof fn lemma_dup_owners(l: MainCols<Felt>, n: MainCols<Felt>)
    ensures
        forall|i: int| 0 <= i < dup_table(l, n).len() ==> 0 <= #[trigger] dup_table(l, n)[i].0 < 64,
{
}

/// Every equation of `mov_table` is owned by a degree-7 operation.
proof fn lemma_mov_owners(l: MainCols<Felt>, n: MainCols<Felt>)
    ensures
        forall|i: int| 0 <= i < mov_table(l, n).len() ==> 0 <= #[trigger] mov_table(l, n)[i].0 < 64,
{
}

/// Every equation of `words_table` is owned by a degree-7 operation.
proof fn lemma_words_owners(l: MainCols<Felt>, n: MainCols<Felt>)
    ensures
        forall|i: int| 0 <= i < words_table(l, n).len() ==> 0 <= #[trigger] words_table(l, n)[i].0 < 64,
{
}

/// Every equation of `dwords_table` is owned by a degree-7 operation.
proof fn lemma_dwords_owners(l: MainCols<Felt>, n: MainCols<Felt>)
    ensures
        forall|i: int| 0 <= i < dwords_table(l, n).len() ==> 0 <= #[trigger] dwords_table(l, n)[i].0 < 64,
{
}

/// Every equation of `cond_table` is owned by a degree-7 operation.
proof fn lemma_cond_owners(l: MainCols<Felt>, n: MainCols<Felt>)
    ensures
        forall|i: int| 0 <= i < cond_table(l, n).len() ==> 0 <= #[trigger] cond_table(l, n)[i].0 < 64,
{
}

/// Every stack-ops equation is owned by a degree-7 operation.
proof fn lemma_stack_ops_owners(l: MainCols<Felt>, n: MainCols<Felt>)
    ensures
        forall|i: int|
            0 <= i < stack_ops_table(l, n).len() ==> 0 <= #[trigger] stack_ops_table(l, n)[i].0
                < 64,
{
    let d = dup_table(l, n);
    let m = mov_table(l, n);
    let w = words_table(l, n);
    let dw = dwords_table(l, n);
    let c = cond_table(l, n);
    lemma_dup_owners(l, n);
    lemma_mov_owners(l, n);
    lemma_words_owners(l, n);
    lemma_dwords_owners(l, n);
    lemma_cond_owners(l, n);
    let t = stack_ops_table(l, n);
    assert forall|i: int| 0 <= i < t.len() implies 0 <= #[trigger] t[i].0 < 64 by {
        if i < d.len() {
            assert(t[i] == d[i]);
        } else if i < d.len() + m.len() {
            assert(t[i] == m[i - d.len()]);
        } else if i < d.len() + m.len() + w.len() {
            assert(t[i] == w[i - d.len() - m.len()]);
        } else if i < d.len() + m.len() + w.len() + dw.len() {
            assert(t[i] == dw[i - d.len() - m.len() - w.len()]);
        } else {
            assert(t[i] == c[i - d.len() - m.len() - w.len() - dw.len()]);
        }
    }
}

/// Gating a table by one-hot degree-7 flags keeps the equations owned by `op` and zeroes
/// the others.
proof fn lemma_gated_select(flags: OpFlags, t: int, tbl: Seq<(int, int)>, op: int)
    requires
        forall|i: int| 0 <= i < tbl.len() ==> 0 <= #[trigger] tbl[i].0 < 64,
        forall|j: int|
            0 <= j < 64 ==> #[trigger] flags.degree7_op_flags[j].val() == (if j == op {
                1int
            } else {
                0int
            }),
    ensures
        forall|i: int|
            0 <= i < tbl.len() ==> #[trigger] gated_values(flags, t, tbl)[i] == (if tbl[i].0
                == op {
                fmul(t, fmul(1, tbl[i].1))
            } else {
                0
            }),
        t == 1 ==> ((forall|i: int|
            0 <= i < tbl.len() ==> #[trigger] gated_values(flags, t, tbl)[i] == 0) <==> (forall|
            i: int,
        | 0 <= i < tbl.len() && #[trigger] tbl[i].0 == op ==> tbl[i].1 % p() == 0)),
{
    let g = gated_values(flags, t, tbl);
    assert forall|i: int| 0 <= i < tbl.len() implies #[trigger] g[i] == (if tbl[i].0 == op {
        fmul(t, fmul(1, tbl[i].1))
    } else {
        0
    }) by {
        let e = tbl[i];
        assert(g[i] == fmul(t, fmul(flags.degree7_op_flags[e.0].val(), e.1)));
        assert(flags.degree7_op_flags[e.0].val() == (if e.0 == op { 1int } else { 0int }));
        if e.0 != op {
            assert(fmul(0, e.1) == 0);
            assert(fmul(t, 0) == 0);
        }
    }
    if t == 1 {
        assert forall|i: int| 0 <= i < tbl.len() implies fmul(t, fmul(1, tbl[i].1)) == tbl[i].1
            % p() by {
            vstd::arithmetic::div_mod::lemma_mod_twice(tbl[i].1, p());
        }
        if forall|i: int| 0 <= i < tbl.len() ==> #[trigger] g[i] == 0 {
            assert forall|i: int| 0 <= i < tbl.len() && #[trigger] tbl[i].0 == op implies tbl[i].1
                % p() == 0 by {
                assert(g[i] == 0);
            }
        }
        if forall|i: int| 0 <= i < tbl.len() && #[trigger] tbl[i].0 == op ==> tbl[i].1 % p() == 0 {
            assert forall|i: int| 0 <= i < tbl.len() implies #[trigger] g[i] == 0 by {
                if tbl[i].0 == op {
                    assert(tbl[i].1 % p() == 0);
                }
            }
        }
    }
}

/// On a row whose op bits encode `op`, a stack-ops constraint is its equation (times the
/// transition selector `t`) when `op` owns it, and zero otherwise. So on a transition row
/// (`t = 1`) the constraints vanish exactly when the equations of the row's own operation
/// hold.
pub proof fn lemma_stack_ops_select(
    flags: OpFlags,
    dec: DecoderCols<Felt>,
    stack: StackCols<Felt>,
    next_dec: DecoderCols<Felt>,
    op: int,
    l: MainCols<Felt>,
    n: MainCols<Felt>,
    t: int,
)
    requires
        flags.flags_of(dec, stack, next_dec),
        encodes_opcode(dec, op),
    ensures
        forall|i: int|
            0 <= i < stack_ops_table(l, n).len() ==> #[trigger] gated_values(
                flags,
                t,
                stack_ops_table(l, n),
            )[i] == (if stack_ops_table(l, n)[i].0 == op {
                fmul(t, fmul(1, stack_ops_table(l, n)[i].1))
            } else {
                0
            }),
        t == 1 ==> ((forall|i: int|
            0 <= i < stack_ops_table(l, n).len() ==> #[trigger] gated_values(
                flags,
                t,
                stack_ops_table(l, n),
            )[i] == 0) <==> (forall|i: int|
            0 <= i < stack_ops_table(l, n).len() && #[trigger] stack_ops_table(l, n)[i].0 == op
                ==> stack_ops_table(l, n)[i].1 % p() == 0)),
{
    lemma_op_flags_one_hot(flags, dec, stack, next_dec, op);
    lemma_stack_ops_owners(l, n);
    lemma_gated_select(flags, t, stack_ops_table(l, n), op);
}

/// Every equation of the stack-ops table that `op` owns vanishes in the field.
pub open spec fn stack_owned_hold(l: MainCols<Felt>, n: MainCols<Felt>, op: int) -> bool {
    forall|i: int|
        0 <= i < stack_ops_table(l, n).len() && #[trigger] stack_ops_table(l, n)[i].0 == op
            ==> stack_ops_table(l, n)[i].1 % p() == 0
}

/// The operations of the first table: PAD, DUP{n} and CLK.
pub open spec fn is_dup_op(op: int) -> bool {
    ||| op == opcodes::PAD as int
    ||| op == opcodes::DUP0 as int
    ||| op == opcodes::DUP1 as int
    ||| op == opcodes::DUP2 as int
    ||| op == opcodes::DUP3 as int
    ||| op == opcodes::DUP4 as int
    ||| op == opcodes::DUP5 as int
    ||| op == opcodes::DUP6 as int
    ||| op == opcodes::DUP7 as int
    ||| op == opcodes::DUP9 as int
    ||| op == opcodes::DUP11 as int
    ||| op == opcodes::DUP13 as int
    ||| op == opcodes::DUP15 as int
    ||| op == opcodes::CLK as int
}

/// An index of the first table is one of its fourteen positions.
proof fn lemma_dup_index_cases(j: int)
    requires
        0 <= j < 14,
    ensures
        j == 0 || j == 1 || j == 2 || j == 3 || j == 4 || j == 5 || j == 6 || j == 7 || j == 8
            || j == 9 || j == 10 || j == 11 || j == 12 || j == 13,
{
}

/// The equations of the first table have distinct owners, and no other table has an equation
/// of theirs.
#[verifier::spinoff_prover]
#[verifier::rlimit(100)]
proof fn lemma_dup_rows_distinct(l: MainCols<Felt>, n: MainCols<Felt>)
    ensures
        forall|j: int, k: int|
            0 <= j < 14 && 0 <= k < 14 && #[trigger] dup_table(l, n)[j].0 == #[trigger] dup_table(
                l,
                n,
            )[k].0 ==> j == k,
        forall|j: int| 0 <= j < 14 ==> is_dup_op(#[trigger] dup_table(l, n)[j].0),
        forall|i: int| 0 <= i < mov_table(l, n).len() ==> !is_dup_op(#[trigger] mov_table(l, n)[i].0),
        forall|i: int| 0 <= i < words_table(l, n).len() ==> !is_dup_op(#[trigger] words_table(l, n)[i].0),
        forall|i: int| 0 <= i < dwords_table(l, n).len() ==> !is_dup_op(#[trigger] dwords_table(l, n)[i].0),
        forall|i: int| 0 <= i < cond_table(l, n).len() ==> !is_dup_op(#[trigger] cond_table(l, n)[i].0),
{
    let d = dup_table(l, n);
    assert forall|j: int, k: int|
        0 <= j < 14 && 0 <= k < 14 && #[trigger] d[j].0 == #[trigger] d[k].0 implies j == k by {
        lemma_dup_index_cases(j);
        lemma_dup_index_cases(k);
    }
}

/// A PAD, DUP{n} or CLK operation owns exactly its one equation of the first table.
#[verifier::spinoff_prover]
#[verifier::rlimit(60)]
proof fn lemma_dup_row(l: MainCols<Felt>, n: MainCols<Felt>, op: int, k: int)
    requires
        0 <= k < 14,
        dup_table(l, n)[k].0 == op,
    ensures
        stack_owned_hold(l, n, op) <==> dup_table(l, n)[k].1 % p() == 0,
{
    lemma_dup_rows_distinct(l, n);
    let d = dup_table(l, n);
    let m = mov_table(l, n);
    let w = words_table(l, n);
    let dw = dwords_table(l, n);
    let c = cond_table(l, n);
    let t = stack_ops_table(l, n);
    assert(t[k] == d[k]);
    assert(is_dup_op(op));
    if d[k].1 % p() == 0 {
        assert forall|i: int| 0 <= i < t.len() && #[trigger] t[i].0 == op implies t[i].1 % p() == 0 by {
            if i < d.len() {
                assert(t[i] == d[i]);
            } else if i < d.len() + m.len() {
                assert(t[i] == m[i - d.len()]);
            } else if i < d.len() + m.len() + w.len() {
                assert(t[i] == w[i - d.len() - m.len()]);
            } else if i < d.len() + m.len() + w.len() + dw.len() {
                assert(t[i] == dw[i - d.len() - m.len() - w.len()]);
            } else {
                assert(t[i] == c[i - d.len() - m.len() - w.len() - dw.len()]);
            }
        }
    }
}

/// What PAD, DUP{n} and CLK push: on the operation's row, its stack-ops equations hold
/// exactly when the top of the next row is `0` for PAD, the element `s[n]` of the current row
/// for DUP{n}, and the clock cycle for CLK.
#[verifier::spinoff_prover]
#[verifier::rlimit(60)]
pub proof fn lemma_dup_behaviour(l: MainCols<Felt>, n: MainCols<Felt>)
    ensures
        ({
            let t0 = n.stack.top[0].val();
            &&& stack_owned_hold(l, n, opcodes::PAD as int) <==> t0 == 0
            &&& stack_owned_hold(l, n, opcodes::DUP0 as int) <==> t0 == l.stack.top[0].val()
            &&& stack_owned_hold(l, n, opcodes::DUP1 as int) <==> t0 == l.stack.top[1].val()
            &&& stack_owned_hold(l, n, opcodes::DUP2 as int) <==> t0 == l.stack.top[2].val()
            &&& stack_owned_hold(l, n, opcodes::DUP3 as int) <==> t0 == l.stack.top[3].val()
            &&& stack_owned_hold(l, n, opcodes::DUP4 as int) <==> t0 == l.stack.top[4].val()
            &&& stack_owned_hold(l, n, opcodes::DUP5 as int) <==> t0 == l.stack.top[5].val()
            &&& stack_owned_hold(l, n, opcodes::DUP6 as int) <==> t0 == l.stack.top[6].val()
            &&& stack_owned_hold(l, n, opcodes::DUP7 as int) <==> t0 == l.stack.top[7].val()
            &&& stack_owned_hold(l, n, opcodes::DUP9 as int) <==> t0 == l.stack.top[9].val()
            &&& stack_owned_hold(l, n, opcodes::DUP11 as int) <==> t0 == l.stack.top[11].val()
            &&& stack_owned_hold(l, n, opcodes::DUP13 as int) <==> t0 == l.stack.top[13].val()
            &&& stack_owned_hold(l, n, opcodes::DUP15 as int) <==> t0 == l.stack.top[15].val()
            &&& stack_owned_hold(l, n, opcodes::CLK as int) <==> t0 == l.system.clk.val()
        }),
{
    let t0 = n.stack.top[0].val();
    n.stack.top[0].lemma_val_range();
    lemma_dup_row(l, n, opcodes::PAD as int, 0);
    vstd::arithmetic::div_mod::lemma_small_mod(t0 as nat, p() as nat);
    lemma_dup_row(l, n, opcodes::DUP0 as int, 1);
    l.stack.top[0].lemma_val_range();
    lemma_fsub_zero_iff(t0, l.stack.top[0].val());
    lemma_dup_row(l, n, opcodes::DUP1 as int, 2);
    l.stack.top[1].lemma_val_range();
    lemma_fsub_zero_iff(t0, l.stack.top[1].val());
    lemma_dup_row(l, n, opcodes::DUP2 as int, 3);
    l.stack.top[2].lemma_val_range();
    lemma_fsub_zero_iff(t0, l.stack.top[2].val());
    lemma_dup_row(l, n, opcodes::DUP3 as int, 4);
    l.stack.top[3].lemma_val_range();
    lemma_fsub_zero_iff(t0, l.stack.top[3].val());
    lemma_dup_row(l, n, opcodes::DUP4 as int, 5);
    l.stack.top[4].lemma_val_range();
    lemma_fsub_zero_iff(t0, l.stack.top[4].val());
    lemma_dup_row(l, n, opcodes::DUP5 as int, 6);
    l.stack.top[5].lemma_val_range();
    lemma_fsub_zero_iff(t0, l.stack.top[5].val());
    lemma_dup_row(l, n, opcodes::DUP6 as int, 7);
    l.stack.top[6].lemma_val_range();
    lemma_fsub_zero_iff(t0, l.stack.top[6].val());
    lemma_dup_row(l, n, opcodes::DUP7 as int, 8);
    l.stack.top[7].lemma_val_range();
    lemma_fsub_zero_iff(t0, l.stack.top[7].val());
    lemma_dup_row(l, n, opcodes::DUP9 as int, 9);
    l.stack.top[9].lemma_val_range();
    lemma_fsub_zero_iff(t0, l.stack.top[9].val());
    lemma_dup_row(l, n, opcodes::DUP11 as int, 10);
    l.stack.top[11].lemma_val_range();
    lemma_fsub_zero_iff(t0, l.stack.top[11].val());
    lemma_dup_row(l, n, opcodes::DUP13 as int, 11);
    l.stack.top[13].lemma_val_range();
    lemma_fsub_zero_iff(t0, l.stack.top[13].val());
    lemma_dup_row(l, n, opcodes::DUP15 as int, 12);
    l.stack.top[15].lemma_val_range();
    lemma_fsub_zero_iff(t0, l.stack.top[15].val());
    lemma_dup_row(l, n, opcodes::CLK as int, 13);
    l.system.clk.lemma_val_range();
    lemma_fsub_zero_iff(t0, l.system.clk.val());
}

/// The operations of the move table: SWAP, MOVUP{n} and MOVDN{n}.
pub open spec fn is_mov_op(op: int) -> bool {
    ||| op == opcodes::SWAP as int
    ||| op == opcodes::MOVUP2 as int
    ||| op == opcodes::MOVUP3 as int
    ||| op == opcodes::MOVUP4 as int
    ||| op == opcodes::MOVUP5 as int
    ||| op == opcodes::MOVUP6 as int
    ||| op == opcodes::MOVUP7 as int
    ||| op == opcodes::MOVUP8 as int
    ||| op == opcodes::MOVDN2 as int
    ||| op == opcodes::MOVDN3 as int
    ||| op == opcodes::MOVDN4 as int
    ||| op == opcodes::MOVDN5 as int
    ||| op == opcodes::MOVDN6 as int
    ||| op == opcodes::MOVDN7 as int
    ||| op == opcodes::MOVDN8 as int
}

/// The word operations: SWAPW, SWAPW2, SWAPW3 and SWAPDW.
pub open spec fn is_word_op(op: int) -> bool {
    ||| op == opcodes::SWAPW as int
    ||| op == opcodes::SWAPW2 as int
    ||| op == opcodes::SWAPW3 as int
    ||| op == opcodes::SWAPDW as int
}

/// An index of the move table is one of its sixteen positions.
proof fn lemma_mov_index_cases(j: int)
    requires
        0 <= j < 16,
    ensures
        j == 0 || j == 1 || j == 2 || j == 3 || j == 4 || j == 5 || j == 6 || j == 7 || j == 8
            || j == 9 || j == 10 || j == 11 || j == 12 || j == 13 || j == 14 || j == 15,
{
}

/// The owners of the move table: SWAP owns its first two equations and every other operation
/// one; no other table has an equation of a move or word operation but the word tables.
#[verifier::spinoff_prover]
#[verifier::rlimit(100)]
proof fn lemma_mov_rows(l: MainCols<Felt>, n: MainCols<Felt>)
    ensures
        forall|j: int, k: int|
            0 <= j < 16 && 0 <= k < 16 && #[trigger] mov_table(l, n)[j].0 == #[trigger] mov_table(
                l,
                n,
            )[k].0 ==> j == k || (j < 2 && k < 2),
        forall|j: int| 0 <= j < 16 ==> is_mov_op(#[trigger] mov_table(l, n)[j].0),
        forall|i: int| 0 <= i < dup_table(l, n).len() ==> !is_mov_op(#[trigger] dup_table(l, n)[i].0) && !is_word_op(dup_table(l, n)[i].0),
        forall|i: int| 0 <= i < words_table(l, n).len() ==> !is_mov_op(#[trigger] words_table(l, n)[i].0),
        forall|i: int| 0 <= i < dwords_table(l, n).len() ==> !is_mov_op(#[trigger] dwords_table(l, n)[i].0),
        forall|i: int| 0 <= i < cond_table(l, n).len() ==> !is_mov_op(#[trigger] cond_table(l, n)[i].0) && !is_word_op(cond_table(l, n)[i].0),
        forall|i: int| 0 <= i < 16 ==> !is_word_op(#[trigger] mov_table(l, n)[i].0),
{
    let m = mov_table(l, n);
    assert forall|j: int, k: int|
        0 <= j < 16 && 0 <= k < 16 && #[trigger] m[j].0 == #[trigger] m[k].0 implies j == k || (j < 2
        && k < 2) by {
        lemma_mov_index_cases(j);
        lemma_mov_index_cases(k);
    }
}

/// The move table sits at offset 14 of the stack-ops table.
proof fn lemma_mov_offset(l: MainCols<Felt>, n: MainCols<Felt>)
    ensures
        forall|i: int| 0 <= i < 16 ==> #[trigger] stack_ops_table(l, n)[14 + i] == mov_table(l, n)[i],
{
    let t = stack_ops_table(l, n);
    let m = mov_table(l, n);
    assert forall|i: int| 0 <= i < 16 implies #[trigger] t[14 + i] == m[i] by {}
}

/// A move operation owns exactly the equations `14 + lo .. 14 + hi` of the stack-ops table.
#[verifier::spinoff_prover]
#[verifier::rlimit(60)]
proof fn lemma_mov_run(l: MainCols<Felt>, n: MainCols<Felt>, op: int, lo: int, hi: int)
    requires
        0 <= lo < hi <= 16,
        (2 <= lo && hi == lo + 1) || (lo == 0 && hi == 2),
        mov_table(l, n)[lo].0 == op,
        mov_table(l, n)[hi - 1].0 == op,
    ensures
        stack_owned_hold(l, n, op) <==> forall|i: int|
            lo <= i < hi ==> (#[trigger] mov_table(l, n)[i]).1 % p() == 0,
{
    lemma_mov_rows(l, n);
    lemma_mov_offset(l, n);
    let d = dup_table(l, n);
    let m = mov_table(l, n);
    let w = words_table(l, n);
    let dw = dwords_table(l, n);
    let c = cond_table(l, n);
    let t = stack_ops_table(l, n);
    assert(is_mov_op(op));
    if stack_owned_hold(l, n, op) {
        assert forall|i: int| lo <= i < hi implies (#[trigger] m[i]).1 % p() == 0 by {
            assert(t[14 + i] == m[i]);
        }
    }
    if forall|i: int| lo <= i < hi ==> (#[trigger] m[i]).1 % p() == 0 {
        assert forall|i: int| 0 <= i < t.len() && #[trigger] t[i].0 == op implies t[i].1 % p() == 0 by {
            if i < d.len() {
                assert(t[i] == d[i]);
            } else if i < d.len() + m.len() {
                assert(t[i] == m[i - 14]);
                assert(m[i - 14].0 == m[lo].0);
                assert(lo <= i - 14 < hi);
            } else if i < d.len() + m.len() + w.len() {
                assert(t[i] == w[i - d.len() - m.len()]);
            } else if i < d.len() + m.len() + w.len() + dw.len() {
                assert(t[i] == dw[i - d.len() - m.len() - w.len()]);
            } else {
                assert(t[i] == c[i - d.len() - m.len() - w.len() - dw.len()]);
            }
        }
    }
}

/// What SWAP, MOVUP{n} and MOVDN{n} do: on the operation's row, its stack-ops equations hold
/// exactly when the next row has `s1, s0` on top for SWAP, `s[n]` on top for MOVUP{n}, and
/// `s0` at position `n` for MOVDN{n}.
#[verifier::spinoff_prover]
#[verifier::rlimit(60)]
pub proof fn lemma_mov_behaviour(l: MainCols<Felt>, n: MainCols<Felt>)
    ensures
        ({
            &&& stack_owned_hold(l, n, opcodes::SWAP as int) <==> n.stack.top[0].val()
                == l.stack.top[1].val() && n.stack.top[1].val() == l.stack.top[0].val()
            &&& stack_owned_hold(l, n, opcodes::MOVUP2 as int) <==> n.stack.top[0].val() == l.stack.top[2].val()
            &&& stack_owned_hold(l, n, opcodes::MOVUP3 as int) <==> n.stack.top[0].val() == l.stack.top[3].val()
            &&& stack_owned_hold(l, n, opcodes::MOVUP4 as int) <==> n.stack.top[0].val() == l.stack.top[4].val()
            &&& stack_owned_hold(l, n, opcodes::MOVUP5 as int) <==> n.stack.top[0].val() == l.stack.top[5].val()
            &&& stack_owned_hold(l, n, opcodes::MOVUP6 as int) <==> n.stack.top[0].val() == l.stack.top[6].val()
            &&& stack_owned_hold(l, n, opcodes::MOVUP7 as int) <==> n.stack.top[0].val() == l.stack.top[7].val()
            &&& stack_owned_hold(l, n, opcodes::MOVUP8 as int) <==> n.stack.top[0].val() == l.stack.top[8].val()
            &&& stack_owned_hold(l, n, opcodes::MOVDN2 as int) <==> n.stack.top[2].val() == l.stack.top[0].val()
            &&& stack_owned_hold(l, n, opcodes::MOVDN3 as int) <==> n.stack.top[3].val() == l.stack.top[0].val()
            &&& stack_owned_hold(l, n, opcodes::MOVDN4 as int) <==> n.stack.top[4].val() == l.stack.top[0].val()
            &&& stack_owned_hold(l, n, opcodes::MOVDN5 as int) <==> n.stack.top[5].val() == l.stack.top[0].val()
            &&& stack_owned_hold(l, n, opcodes::MOVDN6 as int) <==> n.stack.top[6].val() == l.stack.top[0].val()
            &&& stack_owned_hold(l, n, opcodes::MOVDN7 as int) <==> n.stack.top[7].val() == l.stack.top[0].val()
            &&& stack_owned_hold(l, n, opcodes::MOVDN8 as int) <==> n.stack.top[8].val() == l.stack.top[0].val()
        }),
{
    let m = mov_table(l, n);
    l.stack.top[0].lemma_val_range();
    l.stack.top[1].lemma_val_range();
    n.stack.top[0].lemma_val_range();
    n.stack.top[1].lemma_val_range();
    lemma_mov_run(l, n, opcodes::SWAP as int, 0, 2);
    lemma_fsub_zero_iff(n.stack.top[0].val(), l.stack.top[1].val());
    lemma_fsub_zero_iff(n.stack.top[1].val(), l.stack.top[0].val());
    assert((forall|i: int| 0 <= i < 2 ==> (#[trigger] m[i]).1 % p() == 0) <==> (m[0].1 % p() == 0
        && m[1].1 % p() == 0));
    lemma_mov_run(l, n, opcodes::MOVUP2 as int, 2, 3);
    l.stack.top[2].lemma_val_range();
    lemma_fsub_zero_iff(n.stack.top[0].val(), l.stack.top[2].val());
    lemma_mov_run(l, n, opcodes::MOVUP3 as int, 3, 4);
    l.stack.top[3].lemma_val_range();
    lemma_fsub_zero_iff(n.stack.top[0].val(), l.stack.top[3].val());
    lemma_mov_run(l, n, opcodes::MOVUP4 as int, 4, 5);
    l.stack.top[4].lemma_val_range();
    lemma_fsub_zero_iff(n.stack.top[0].val(), l.stack.top[4].val());
    lemma_mov_run(l, n, opcodes::MOVUP5 as int, 5, 6);
    l.stack.top[5].lemma_val_range();
    lemma_fsub_zero_iff(n.stack.top[0].val(), l.stack.top[5].val());
    lemma_mov_run(l, n, opcodes::MOVUP6 as int, 6, 7);
    l.stack.top[6].lemma_val_range();
    lemma_fsub_zero_iff(n.stack.top[0].val(), l.stack.top[6].val());
    lemma_mov_run(l, n, opcodes::MOVUP7 as int, 7, 8);
    l.stack.top[7].lemma_val_range();
    lemma_fsub_zero_iff(n.stack.top[0].val(), l.stack.top[7].val());
    lemma_mov_run(l, n, opcodes::MOVUP8 as int, 8, 9);
    l.stack.top[8].lemma_val_range();
    lemma_fsub_zero_iff(n.stack.top[0].val(), l.stack.top[8].val());
    lemma_mov_run(l, n, opcodes::MOVDN2 as int, 9, 10);
    n.stack.top[2].lemma_val_range();
    lemma_fsub_zero_iff(n.stack.top[2].val(), l.stack.top[0].val());
    lemma_mov_run(l, n, opcodes::MOVDN3 as int, 10, 11);
    n.stack.top[3].lemma_val_range();
    lemma_fsub_zero_iff(n.stack.top[3].val(), l.stack.top[0].val());
    lemma_mov_run(l, n, opcodes::MOVDN4 as int, 11, 12);
    n.stack.top[4].lemma_val_range();
    lemma_fsub_zero_iff(n.stack.top[4].val(), l.stack.top[0].val());
    lemma_mov_run(l, n, opcodes::MOVDN5 as int, 12, 13);
    n.stack.top[5].lemma_val_range();
    lemma_fsub_zero_iff(n.stack.top[5].val(), l.stack.top[0].val());
    lemma_mov_run(l, n, opcodes::MOVDN6 as int, 13, 14);
    n.stack.top[6].lemma_val_range();
    lemma_fsub_zero_iff(n.stack.top[6].val(), l.stack.top[0].val());
    lemma_mov_run(l, n, opcodes::MOVDN7 as int, 14, 15);
    n.stack.top[7].lemma_val_range();
    lemma_fsub_zero_iff(n.stack.top[7].val(), l.stack.top[0].val());
    lemma_mov_run(l, n, opcodes::MOVDN8 as int, 15, 16);
    n.stack.top[8].lemma_val_range();
    lemma_fsub_zero_iff(n.stack.top[8].val(), l.stack.top[0].val());
}

/// The owners of the word tables: SWAPW, SWAPW2 and SWAPW3 own eight consecutive equations
/// each, SWAPDW all sixteen of its table; no other table has an equation of theirs.
#[verifier::spinoff_prover]
#[verifier::rlimit(100)]
proof fn lemma_word_rows(l: MainCols<Felt>, n: MainCols<Felt>)
    ensures
        forall|j: int|
            0 <= j < 24 ==> #[trigger] words_table(l, n)[j].0 == (if j < 8 {
                opcodes::SWAPW as int
            } else if j < 16 {
                opcodes::SWAPW2 as int
            } else {
                opcodes::SWAPW3 as int
            }),
        forall|j: int| 0 <= j < 16 ==> #[trigger] dwords_table(l, n)[j].0 == opcodes::SWAPDW as int,
        words_table(l, n).len() == 24,
        dwords_table(l, n).len() == 16,
{
    let w = words_table(l, n);
    assert forall|j: int| 0 <= j < 24 implies #[trigger] w[j].0 == (if j < 8 {
        opcodes::SWAPW as int
    } else if j < 16 {
        opcodes::SWAPW2 as int
    } else {
        opcodes::SWAPW3 as int
    }) by {
        if j < 16 {
            lemma_mov_index_cases(j);
        } else {
            lemma_mov_index_cases(j - 8);
        }
    }
}

/// The word tables sit at offsets 30 and 54 of the stack-ops table.
proof fn lemma_word_offsets(l: MainCols<Felt>, n: MainCols<Felt>)
    ensures
        forall|j: int| 0 <= j < 24 ==> #[trigger] stack_ops_table(l, n)[30 + j] == words_table(l, n)[j],
        forall|j: int| 0 <= j < 16 ==> #[trigger] stack_ops_table(l, n)[54 + j] == dwords_table(l, n)[j],
{
    let t = stack_ops_table(l, n);
    assert forall|j: int| 0 <= j < 24 implies #[trigger] t[30 + j] == words_table(l, n)[j] by {}
    assert forall|j: int| 0 <= j < 16 implies #[trigger] t[54 + j] == dwords_table(l, n)[j] by {}
}

/// SWAPW, SWAPW2 and SWAPW3 each own exactly the equations `lo..hi` of the word table.
#[verifier::spinoff_prover]
#[verifier::rlimit(60)]
proof fn lemma_words_run(l: MainCols<Felt>, n: MainCols<Felt>, op: int, lo: int, hi: int)
    requires
        (op == opcodes::SWAPW as int && lo == 0 && hi == 8) || (op == opcodes::SWAPW2 as int && lo
            == 8 && hi == 16) || (op == opcodes::SWAPW3 as int && lo == 16 && hi == 24),
    ensures
        stack_owned_hold(l, n, op) <==> forall|j: int|
            lo <= j < hi ==> (#[trigger] words_table(l, n)[j]).1 % p() == 0,
{
    let w = words_table(l, n);
    let t = stack_ops_table(l, n);
    if stack_owned_hold(l, n, op) {
        assert(t[30] == w[0]);
        assert(t[31] == w[1]);
        assert(t[32] == w[2]);
        assert(t[33] == w[3]);
        assert(t[34] == w[4]);
        assert(t[35] == w[5]);
        assert(t[36] == w[6]);
        assert(t[37] == w[7]);
        assert(t[38] == w[8]);
        assert(t[39] == w[9]);
        assert(t[40] == w[10]);
        assert(t[41] == w[11]);
        assert(t[42] == w[12]);
        assert(t[43] == w[13]);
        assert(t[44] == w[14]);
        assert(t[45] == w[15]);
        assert(t[46] == w[16]);
        assert(t[47] == w[17]);
        assert(t[48] == w[18]);
        assert(t[49] == w[19]);
        assert(t[50] == w[20]);
        assert(t[51] == w[21]);
        assert(t[52] == w[22]);
        assert(t[53] == w[23]);
        assert forall|j: int| lo <= j < hi implies (#[trigger] w[j]).1 % p() == 0 by {
            if j < 16 {
                lemma_mov_index_cases(j);
            } else {
                lemma_mov_index_cases(j - 8);
            }
            assert(t[30 + j].0 == op);
        }
    }
    if forall|j: int| lo <= j < hi ==> (#[trigger] w[j]).1 % p() == 0 {
        lemma_owned_by_word_op(l, n, op, 30 + lo, 30 + hi);
    }
}

/// SWAPDW owns exactly the equations of the double-word table.
#[verifier::spinoff_prover]
#[verifier::rlimit(60)]
proof fn lemma_dwords_run(l: MainCols<Felt>, n: MainCols<Felt>)
    ensures
        stack_owned_hold(l, n, opcodes::SWAPDW as int) <==> forall|j: int|
            0 <= j < 16 ==> (#[trigger] dwords_table(l, n)[j]).1 % p() == 0,
{
    let op = opcodes::SWAPDW as int;
    let dw = dwords_table(l, n);
    let t = stack_ops_table(l, n);
    if stack_owned_hold(l, n, op) {
        assert(t[54] == dw[0] && t[54].0 == op);
        assert(t[55] == dw[1] && t[55].0 == op);
        assert(t[56] == dw[2] && t[56].0 == op);
        assert(t[57] == dw[3] && t[57].0 == op);
        assert(t[58] == dw[4] && t[58].0 == op);
        assert(t[59] == dw[5] && t[59].0 == op);
        assert(t[60] == dw[6] && t[60].0 == op);
        assert(t[61] == dw[7] && t[61].0 == op);
        assert(t[62] == dw[8] && t[62].0 == op);
        assert(t[63] == dw[9] && t[63].0 == op);
        assert(t[64] == dw[10] && t[64].0 == op);
        assert(t[65] == dw[11] && t[65].0 == op);
        assert(t[66] == dw[12] && t[66].0 == op);
        assert(t[67] == dw[13] && t[67].0 == op);
        assert(t[68] == dw[14] && t[68].0 == op);
        assert(t[69] == dw[15] && t[69].0 == op);
        assert forall|j: int| 0 <= j < 16 implies (#[trigger] dw[j]).1 % p() == 0 by {
            lemma_mov_index_cases(j);
        }
    }
    if forall|j: int| 0 <= j < 16 ==> (#[trigger] dw[j]).1 % p() == 0 {
        lemma_owned_by_word_op(l, n, op, 54, 70);
    }
}

/// A word operation whose equations are the entries `lo..hi` of the stack-ops table: when those
/// vanish, all its equations do.
#[verifier::spinoff_prover]
#[verifier::rlimit(60)]
proof fn lemma_owned_by_word_op(l: MainCols<Felt>, n: MainCols<Felt>, op: int, lo: int, hi: int)
    requires
        (op == opcodes::SWAPW as int && lo == 30 && hi == 38) || (op == opcodes::SWAPW2 as int
            && lo == 38 && hi == 46) || (op == opcodes::SWAPW3 as int && lo == 46 && hi == 54) || (op
            == opcodes::SWAPDW as int && lo == 54 && hi == 70),
        op == opcodes::SWAPDW as int ==> forall|j: int|
            0 <= j < 16 ==> (#[trigger] dwords_table(l, n)[j]).1 % p() == 0,
        op != opcodes::SWAPDW as int ==> forall|j: int|
            lo - 30 <= j < hi - 30 ==> (#[trigger] words_table(l, n)[j]).1 % p() == 0,
    ensures
        stack_owned_hold(l, n, op),
{
    lemma_mov_rows(l, n);
    lemma_word_rows(l, n);
    let d = dup_table(l, n);
    let m = mov_table(l, n);
    let w = words_table(l, n);
    let dw = dwords_table(l, n);
    let c = cond_table(l, n);
    let t = stack_ops_table(l, n);
    assert(is_word_op(op));
    assert forall|i: int| 0 <= i < t.len() && #[trigger] t[i].0 == op implies t[i].1 % p() == 0 by {
        if i < d.len() {
            assert(t[i] == d[i]);
        } else if i < d.len() + m.len() {
            assert(t[i] == m[i - d.len()]);
        } else if i < d.len() + m.len() + w.len() {
            assert(t[i] == w[i - d.len() - m.len()]);
        } else if i < d.len() + m.len() + w.len() + dw.len() {
            assert(t[i] == dw[i - d.len() - m.len() - w.len()]);
        } else {
            assert(t[i] == c[i - d.len() - m.len() - w.len() - dw.len()]);
        }
    }
}

/// The next row exchanges the `width` elements at the top with the `width` elements from
/// position `k`: `s'[j] == s[k + j]` and `s'[k + j] == s[j]` for `j < width`.
pub open spec fn word_exchange(l: MainCols<Felt>, n: MainCols<Felt>, k: int, width: int) -> bool {
    forall|j: int|
        0 <= j < width ==> n.stack.top[j].val() == l.stack.top[k + j].val() && #[trigger] n.stack.top[k
            + j].val() == l.stack.top[j].val()
}

/// SWAPW on its row: its equations hold exactly when words `0` and `1` (elements `0..4` and
/// `4..8`) are exchanged.
#[verifier::spinoff_prover]
#[verifier::rlimit(60)]
proof fn lemma_swapw(l: MainCols<Felt>, n: MainCols<Felt>)
    ensures
        stack_owned_hold(l, n, opcodes::SWAPW as int) <==> word_exchange(l, n, 4, 4),
{
    let w = words_table(l, n);
    lemma_words_run(l, n, opcodes::SWAPW as int, 0, 8);
    l.stack.top[4].lemma_val_range();
    l.stack.top[0].lemma_val_range();
    n.stack.top[0].lemma_val_range();
    n.stack.top[4].lemma_val_range();
    assert(w[0].1 == fsub(n.stack.top[0].val(), l.stack.top[4].val()));
    assert(w[4].1 == fsub(n.stack.top[4].val(), l.stack.top[0].val()));
    lemma_fsub_zero_iff(n.stack.top[0].val(), l.stack.top[4].val());
    lemma_fsub_zero_iff(n.stack.top[4].val(), l.stack.top[0].val());
    l.stack.top[5].lemma_val_range();
    l.stack.top[1].lemma_val_range();
    n.stack.top[1].lemma_val_range();
    n.stack.top[5].lemma_val_range();
    assert(w[1].1 == fsub(n.stack.top[1].val(), l.stack.top[5].val()));
    assert(w[5].1 == fsub(n.stack.top[5].val(), l.stack.top[1].val()));
    lemma_fsub_zero_iff(n.stack.top[1].val(), l.stack.top[5].val());
    lemma_fsub_zero_iff(n.stack.top[5].val(), l.stack.top[1].val());
    l.stack.top[6].lemma_val_range();
    l.stack.top[2].lemma_val_range();
    n.stack.top[2].lemma_val_range();
    n.stack.top[6].lemma_val_range();
    assert(w[2].1 == fsub(n.stack.top[2].val(), l.stack.top[6].val()));
    assert(w[6].1 == fsub(n.stack.top[6].val(), l.stack.top[2].val()));
    lemma_fsub_zero_iff(n.stack.top[2].val(), l.stack.top[6].val());
    lemma_fsub_zero_iff(n.stack.top[6].val(), l.stack.top[2].val());
    l.stack.top[7].lemma_val_range();
    l.stack.top[3].lemma_val_range();
    n.stack.top[3].lemma_val_range();
    n.stack.top[7].lemma_val_range();
    assert(w[3].1 == fsub(n.stack.top[3].val(), l.stack.top[7].val()));
    assert(w[7].1 == fsub(n.stack.top[7].val(), l.stack.top[3].val()));
    lemma_fsub_zero_iff(n.stack.top[3].val(), l.stack.top[7].val());
    lemma_fsub_zero_iff(n.stack.top[7].val(), l.stack.top[3].val());
    if forall|j: int| 0 <= j < 8 ==> (#[trigger] w[j]).1 % p() == 0 {
        assert forall|j: int| 0 <= j < 4 implies n.stack.top[j].val() == l.stack.top[4 + j].val()
            && #[trigger] n.stack.top[4 + j].val() == l.stack.top[j].val() by {
            lemma_mov_index_cases(j);
            assert(w[0 + j].1 % p() == 0 && w[4 + j].1 % p() == 0);
        }
    }
    if word_exchange(l, n, 4, 4) {
        assert forall|j: int| 0 <= j < 8 implies (#[trigger] w[j]).1 % p() == 0 by {
            if j < 4 {
                lemma_mov_index_cases(j - 0);
                assert(n.stack.top[4 + (j - 0)].val() == l.stack.top[j - 0].val());
            } else {
                lemma_mov_index_cases(j - 4);
                assert(n.stack.top[4 + (j - 4)].val() == l.stack.top[j - 4].val());
            }
        }
    }
}

/// SWAPW2 on its row: its equations hold exactly when words `0` and `2` (elements `0..4` and
/// `8..12`) are exchanged.
#[verifier::spinoff_prover]
#[verifier::rlimit(60)]
proof fn lemma_swapw2(l: MainCols<Felt>, n: MainCols<Felt>)
    ensures
        stack_owned_hold(l, n, opcodes::SWAPW2 as int) <==> word_exchange(l, n, 8, 4),
{
    let w = words_table(l, n);
    lemma_words_run(l, n, opcodes::SWAPW2 as int, 8, 16);
    l.stack.top[8].lemma_val_range();
    l.stack.top[0].lemma_val_range();
    n.stack.top[0].lemma_val_range();
    n.stack.top[8].lemma_val_range();
    assert(w[8].1 == fsub(n.stack.top[0].val(), l.stack.top[8].val()));
    assert(w[12].1 == fsub(n.stack.top[8].val(), l.stack.top[0].val()));
    lemma_fsub_zero_iff(n.stack.top[0].val(), l.stack.top[8].val());
    lemma_fsub_zero_iff(n.stack.top[8].val(), l.stack.top[0].val());
    l.stack.top[9].lemma_val_range();
    l.stack.top[1].lemma_val_range();
    n.stack.top[1].lemma_val_range();
    n.stack.top[9].lemma_val_range();
    assert(w[9].1 == fsub(n.stack.top[1].val(), l.stack.top[9].val()));
    assert(w[13].1 == fsub(n.stack.top[9].val(), l.stack.top[1].val()));
    lemma_fsub_zero_iff(n.stack.top[1].val(), l.stack.top[9].val());
    lemma_fsub_zero_iff(n.stack.top[9].val(), l.stack.top[1].val());
    l.stack.top[10].lemma_val_range();
    l.stack.top[2].lemma_val_range();
    n.stack.top[2].lemma_val_range();
    n.stack.top[10].lemma_val_range();
    assert(w[10].1 == fsub(n.stack.top[2].val(), l.stack.top[10].val()));
    assert(w[14].1 == fsub(n.stack.top[10].val(), l.stack.top[2].val()));
    lemma_fsub_zero_iff(n.stack.top[2].val(), l.stack.top[10].val());
    lemma_fsub_zero_iff(n.stack.top[10].val(), l.stack.top[2].val());
    l.stack.top[11].lemma_val_range();
    l.stack.top[3].lemma_val_range();
    n.stack.top[3].lemma_val_range();
    n.stack.top[11].lemma_val_range();
    assert(w[11].1 == fsub(n.stack.top[3].val(), l.stack.top[11].val()));
    assert(w[15].1 == fsub(n.stack.top[11].val(), l.stack.top[3].val()));
    lemma_fsub_zero_iff(n.stack.top[3].val(), l.stack.top[11].val());
    lemma_fsub_zero_iff(n.stack.top[11].val(), l.stack.top[3].val());
    if forall|j: int| 8 <= j < 16 ==> (#[trigger] w[j]).1 % p() == 0 {
        assert forall|j: int| 0 <= j < 4 implies n.stack.top[j].val() == l.stack.top[8 + j].val()
            && #[trigger] n.stack.top[8 + j].val() == l.stack.top[j].val() by {
            lemma_mov_index_cases(j);
            assert(w[8 + j].1 % p() == 0 && w[12 + j].1 % p() == 0);
        }
    }
    if word_exchange(l, n, 8, 4) {
        assert forall|j: int| 8 <= j < 16 implies (#[trigger] w[j]).1 % p() == 0 by {
            if j < 12 {
                lemma_mov_index_cases(j - 8);
                assert(n.stack.top[8 + (j - 8)].val() == l.stack.top[j - 8].val());
            } else {
                lemma_mov_index_cases(j - 12);
                assert(n.stack.top[8 + (j - 12)].val() == l.stack.top[j - 12].val());
            }
        }
    }
}

/// SWAPW3 on its row: its equations hold exactly when words `0` and `3` (elements `0..4` and
/// `12..16`) are exchanged.
#[verifier::spinoff_prover]
#[verifier::rlimit(60)]
proof fn lemma_swapw3(l: MainCols<Felt>, n: MainCols<Felt>)
    ensures
        stack_owned_hold(l, n, opcodes::SWAPW3 as int) <==> word_exchange(l, n, 12, 4),
{
    let w = words_table(l, n);
    lemma_words_run(l, n, opcodes::SWAPW3 as int, 16, 24);
    l.stack.top[12].lemma_val_range();
    l.stack.top[0].lemma_val_range();
    n.stack.top[0].lemma_val_range();
    n.stack.top[12].lemma_val_range();
    assert(w[16].1 == fsub(n.stack.top[0].val(), l.stack.top[12].val()));
    assert(w[20].1 == fsub(n.stack.top[12].val(), l.stack.top[0].val()));
    lemma_fsub_zero_iff(n.stack.top[0].val(), l.stack.top[12].val());
    lemma_fsub_zero_iff(n.stack.top[12].val(), l.stack.top[0].val());
    l.stack.top[13].lemma_val_range();
    l.stack.top[1].lemma_val_range();
    n.stack.top[1].lemma_val_range();
    n.stack.top[13].lemma_val_range();
    assert(w[17].1 == fsub(n.stack.top[1].val(), l.stack.top[13].val()));
    assert(w[21].1 == fsub(n.stack.top[13].val(), l.stack.top[1].val()));
    lemma_fsub_zero_iff(n.stack.top[1].val(), l.stack.top[13].val());
    lemma_fsub_zero_iff(n.stack.top[13].val(), l.stack.top[1].val());
    l.stack.top[14].lemma_val_range();
    l.stack.top[2].lemma_val_range();
    n.stack.top[2].lemma_val_range();
    n.stack.top[14].lemma_val_range();
    assert(w[18].1 == fsub(n.stack.top[2].val(), l.stack.top[14].val()));
    assert(w[22].1 == fsub(n.stack.top[14].val(), l.stack.top[2].val()));
    lemma_fsub_zero_iff(n.stack.top[2].val(), l.stack.top[14].val());
    lemma_fsub_zero_iff(n.stack.top[14].val(), l.stack.top[2].val());
    l.stack.top[15].lemma_val_range();
    l.stack.top[3].lemma_val_range();
    n.stack.top[3].lemma_val_range();
    n.stack.top[15].lemma_val_range();
    assert(w[19].1 == fsub(n.stack.top[3].val(), l.stack.top[15].val()));
    assert(w[23].1 == fsub(n.stack.top[15].val(), l.stack.top[3].val()));
    lemma_fsub_zero_iff(n.stack.top[3].val(), l.stack.top[15].val());
    lemma_fsub_zero_iff(n.stack.top[15].val(), l.stack.top[3].val());
    if forall|j: int| 16 <= j < 24 ==> (#[trigger] w[j]).1 % p() == 0 {
        assert forall|j: int| 0 <= j < 4 implies n.stack.top[j].val() == l.stack.top[12 + j].val()
            && #[trigger] n.stack.top[12 + j].val() == l.stack.top[j].val() by {
            lemma_mov_index_cases(j);
            assert(w[16 + j].1 % p() == 0 && w[20 + j].1 % p() == 0);
        }
    }
    if word_exchange(l, n, 12, 4) {
        assert forall|j: int| 16 <= j < 24 implies (#[trigger] w[j]).1 % p() == 0 by {
            if j < 20 {
                lemma_mov_index_cases(j - 16);
                assert(n.stack.top[12 + (j - 16)].val() == l.stack.top[j - 16].val());
            } else {
                lemma_mov_index_cases(j - 20);
                assert(n.stack.top[12 + (j - 20)].val() == l.stack.top[j - 20].val());
            }
        }
    }
}

/// SWAPDW on its row: its equations hold exactly when words `0` and `2` (elements `0..8` and
/// `8..16`) are exchanged.
#[verifier::spinoff_prover]
#[verifier::rlimit(60)]
proof fn lemma_swapdw(l: MainCols<Felt>, n: MainCols<Felt>)
    ensures
        stack_owned_hold(l, n, opcodes::SWAPDW as int) <==> word_exchange(l, n, 8, 8),
{
    let w = dwords_table(l, n);
    lemma_dwords_run(l, n);
    l.stack.top[8].lemma_val_range();
    l.stack.top[0].lemma_val_range();
    n.stack.top[0].lemma_val_range();
    n.stack.top[8].lemma_val_range();
    assert(w[0].1 == fsub(n.stack.top[0].val(), l.stack.top[8].val()));
    assert(w[8].1 == fsub(n.stack.top[8].val(), l.stack.top[0].val()));
    lemma_fsub_zero_iff(n.stack.top[0].val(), l.stack.top[8].val());
    lemma_fsub_zero_iff(n.stack.top[8].val(), l.stack.top[0].val());
    l.stack.top[9].lemma_val_range();
    l.stack.top[1].lemma_val_range();
    n.stack.top[1].lemma_val_range();
    n.stack.top[9].lemma_val_range();
    assert(w[1].1 == fsub(n.stack.top[1].val(), l.stack.top[9].val()));
    assert(w[9].1 == fsub(n.stack.top[9].val(), l.stack.top[1].val()));
    lemma_fsub_zero_iff(n.stack.top[1].val(), l.stack.top[9].val());
    lemma_fsub_zero_iff(n.stack.top[9].val(), l.stack.top[1].val());
    l.stack.top[10].lemma_val_range();
    l.stack.top[2].lemma_val_range();
    n.stack.top[2].lemma_val_range();
    n.stack.top[10].lemma_val_range();
    assert(w[2].1 == fsub(n.stack.top[2].val(), l.stack.top[10].val()));
    assert(w[10].1 == fsub(n.stack.top[10].val(), l.stack.top[2].val()));
    lemma_fsub_zero_iff(n.stack.top[2].val(), l.stack.top[10].val());
    lemma_fsub_zero_iff(n.stack.top[10].val(), l.stack.top[2].val());
    l.stack.top[11].lemma_val_range();
    l.stack.top[3].lemma_val_range();
    n.stack.top[3].lemma_val_range();
    n.stack.top[11].lemma_val_range();
    assert(w[3].1 == fsub(n.stack.top[3].val(), l.stack.top[11].val()));
    assert(w[11].1 == fsub(n.stack.top[11].val(), l.stack.top[3].val()));
    lemma_fsub_zero_iff(n.stack.top[3].val(), l.stack.top[11].val());
    lemma_fsub_zero_iff(n.stack.top[11].val(), l.stack.top[3].val());
    l.stack.top[12].lemma_val_range();
    l.stack.top[4].lemma_val_range();
    n.stack.top[4].lemma_val_range();
    n.stack.top[12].lemma_val_range();
    assert(w[4].1 == fsub(n.stack.top[4].val(), l.stack.top[12].val()));
    assert(w[12].1 == fsub(n.stack.top[12].val(), l.stack.top[4].val()));
    lemma_fsub_zero_iff(n.stack.top[4].val(), l.stack.top[12].val());
    lemma_fsub_zero_iff(n.stack.top[12].val(), l.stack.top[4].val());
    l.stack.top[13].lemma_val_range();
    l.stack.top[5].lemma_val_range();
    n.stack.top[5].lemma_val_range();
    n.stack.top[13].lemma_val_range();
    assert(w[5].1 == fsub(n.stack.top[5].val(), l.stack.top[13].val()));
    assert(w[13].1 == fsub(n.stack.top[13].val(), l.stack.top[5].val()));
    lemma_fsub_zero_iff(n.stack.top[5].val(), l.stack.top[13].val());
    lemma_fsub_zero_iff(n.stack.top[13].val(), l.stack.top[5].val());
    l.stack.top[14].lemma_val_range();
    l.stack.top[6].lemma_val_range();
    n.stack.top[6].lemma_val_range();
    n.stack.top[14].lemma_val_range();
    assert(w[6].1 == fsub(n.stack.top[6].val(), l.stack.top[14].val()));
    assert(w[14].1 == fsub(n.stack.top[14].val(), l.stack.top[6].val()));
    lemma_fsub_zero_iff(n.stack.top[6].val(), l.stack.top[14].val());
    lemma_fsub_zero_iff(n.stack.top[14].val(), l.stack.top[6].val());
    l.stack.top[15].lemma_val_range();
    l.stack.top[7].lemma_val_range();
    n.stack.top[7].lemma_val_range();
    n.stack.top[15].lemma_val_range();
    assert(w[7].1 == fsub(n.stack.top[7].val(), l.stack.top[15].val()));
    assert(w[15].1 == fsub(n.stack.top[15].val(), l.stack.top[7].val()));
    lemma_fsub_zero_iff(n.stack.top[7].val(), l.stack.top[15].val());
    lemma_fsub_zero_iff(n.stack.top[15].val(), l.stack.top[7].val());
    if forall|j: int| 0 <= j < 16 ==> (#[trigger] w[j]).1 % p() == 0 {
        assert forall|j: int| 0 <= j < 8 implies n.stack.top[j].val() == l.stack.top[8 + j].val()
            && #[trigger] n.stack.top[8 + j].val() == l.stack.top[j].val() by {
            lemma_mov_index_cases(j);
            assert(w[0 + j].1 % p() == 0 && w[8 + j].1 % p() == 0);
        }
    }
    if word_exchange(l, n, 8, 8) {
        assert forall|j: int| 0 <= j < 16 implies (#[trigger] w[j]).1 % p() == 0 by {
            if j < 8 {
                lemma_mov_index_cases(j - 0);
                assert(n.stack.top[8 + (j - 0)].val() == l.stack.top[j - 0].val());
            } else {
                lemma_mov_index_cases(j - 8);
                assert(n.stack.top[8 + (j - 8)].val() == l.stack.top[j - 8].val());
            }
        }
    }
}

/// What the word exchanges do: on the operation's row, its stack-ops equations hold exactly
/// when the next row has the top word exchanged with word 1 (SWAPW), word 2 (SWAPW2) or word 3
/// (SWAPW3), or the top two words exchanged with words 2 and 3 (SWAPDW).
pub proof fn lemma_word_swaps_behaviour(l: MainCols<Felt>, n: MainCols<Felt>)
    ensures
        stack_owned_hold(l, n, opcodes::SWAPW as int) <==> word_exchange(l, n, 4, 4),
        stack_owned_hold(l, n, opcodes::SWAPW2 as int) <==> word_exchange(l, n, 8, 4),
        stack_owned_hold(l, n, opcodes::SWAPW3 as int) <==> word_exchange(l, n, 12, 4),
        stack_owned_hold(l, n, opcodes::SWAPDW as int) <==> word_exchange(l, n, 8, 8),
{
    lemma_swapw(l, n);
    lemma_swapw2(l, n);
    lemma_swapw3(l, n);
    lemma_swapdw(l, n);
}

/// No equation of the PAD/DUP, move, word and double-word tables belongs to CSWAP or CSWAPW.
proof fn lemma_cswap_only_in_cond_table(l: MainCols<Felt>, n: MainCols<Felt>)
    ensures
        forall|i: int| 0 <= i < dup_table(l, n).len() ==> #[trigger] dup_table(l, n)[i].0 != opcodes::CSWAP as int,
        forall|i: int| 0 <= i < mov_table(l, n).len() ==> #[trigger] mov_table(l, n)[i].0 != opcodes::CSWAP as int,
        forall|i: int| 0 <= i < words_table(l, n).len() ==> #[trigger] words_table(l, n)[i].0 != opcodes::CSWAP as int,
        forall|i: int| 0 <= i < dwords_table(l, n).len() ==> #[trigger] dwords_table(l, n)[i].0 != opcodes::CSWAP as int,
        forall|i: int| 0 <= i < dup_table(l, n).len() ==> #[trigger] dup_table(l, n)[i].0 != opcodes::CSWAPW as int,
        forall|i: int| 0 <= i < mov_table(l, n).len() ==> #[trigger] mov_table(l, n)[i].0 != opcodes::CSWAPW as int,
        forall|i: int| 0 <= i < words_table(l, n).len() ==> #[trigger] words_table(l, n)[i].0 != opcodes::CSWAPW as int,
        forall|i: int| 0 <= i < dwords_table(l, n).len() ==> #[trigger] dwords_table(l, n)[i].0 != opcodes::CSWAPW as int,
{
}

/// What CSWAP does: with a binary selector `s0`, the equations that CSWAP owns hold exactly
/// when the top two elements of the next row are `s1, s2` for `s0 = 0` and `s2, s1` for
/// `s0 = 1`. With [`lemma_stack_ops_select`], the stack-ops constraints of a CSWAP
/// transition row vanish exactly then.
pub proof fn lemma_cswap_behaviour(l: MainCols<Felt>, n: MainCols<Felt>)
    requires
        l.stack.top[0].val() == 0 || l.stack.top[0].val() == 1,
    ensures
        (forall|i: int|
            0 <= i < stack_ops_table(l, n).len() && #[trigger] stack_ops_table(l, n)[i].0
                == opcodes::CSWAP as int ==> stack_ops_table(l, n)[i].1 % p() == 0) <==> ({
            let (s0, s1, s2) = (l.stack.top[0].val(), l.stack.top[1].val(), l.stack.top[2].val());
            let (t0, t1) = (n.stack.top[0].val(), n.stack.top[1].val());
            &&& s0 == 0 ==> t0 == s1 && t1 == s2
            &&& s0 == 1 ==> t0 == s2 && t1 == s1
        }),
{
    let (s0, s1, s2) = (l.stack.top[0].val(), l.stack.top[1].val(), l.stack.top[2].val());
    let (t0, t1) = (n.stack.top[0].val(), n.stack.top[1].val());
    l.stack.top[1].lemma_val_range();
    l.stack.top[2].lemma_val_range();
    n.stack.top[0].lemma_val_range();
    n.stack.top[1].lemma_val_range();
    vstd::arithmetic::div_mod::lemma_small_mod(0, p() as nat);
    vstd::arithmetic::div_mod::lemma_small_mod(1, p() as nat);
    vstd::arithmetic::div_mod::lemma_small_mod(s1 as nat, p() as nat);
    vstd::arithmetic::div_mod::lemma_small_mod(s2 as nat, p() as nat);
    assert(fsub(s0, 1) == (if s0 == 0 { p() - 1 } else { 0 })) by {
        if s0 == 0 {
            vstd::arithmetic::div_mod::lemma_mod_add_multiples_vanish(-1, p());
            vstd::arithmetic::div_mod::lemma_small_mod((p() - 1) as nat, p() as nat);
        }
    }
    assert(bool_check(s0) == 0);
    if s0 == 0 {
        assert(fsub(1, s0) == 1);
        assert(fmul(s0, s2) == 0 && fmul(s0, s1) == 0);
        assert(fmul(1, s1) == s1 && fmul(1, s2) == s2);
        assert(fadd(0, s1) == s1 && fadd(0, s2) == s2);
    } else {
        assert(fsub(1, s0) == 0);
        assert(fmul(s0, s2) == s2 && fmul(s0, s1) == s1);
        assert(fmul(0, s1) == 0 && fmul(0, s2) == 0);
        assert(fadd(s1, 0) == s1 && fadd(s2, 0) == s2);
    }
    assert(cswap_value(s0, s2, s1) == (if s0 == 0 { s1 } else { s2 }));
    assert(cswap_value(s0, s1, s2) == (if s0 == 0 { s2 } else { s1 }));
    let e1 = fsub(t0, cswap_value(s0, s2, s1));
    let e2 = fsub(t1, cswap_value(s0, s1, s2));
    lemma_fsub_zero_iff(t0, cswap_value(s0, s2, s1));
    lemma_fsub_zero_iff(t1, cswap_value(s0, s1, s2));

    let d = dup_table(l, n);
    let m = mov_table(l, n);
    let w = words_table(l, n);
    let dw = dwords_table(l, n);
    let c = cond_table(l, n);
    let t = stack_ops_table(l, n);
    let k: int = (d.len() + m.len() + w.len() + dw.len()) as int;
    lemma_cswap_only_in_cond_table(l, n);
    assert(t[k] == c[0] && t[k + 1] == c[1] && t[k + 2] == c[2]);
    vstd::arithmetic::div_mod::lemma_mod_twice(bool_check(s0), p());
    if forall|i: int| 0 <= i < t.len() && #[trigger] t[i].0 == opcodes::CSWAP as int ==> t[i].1 % p() == 0 {
        assert(t[k + 1].0 == opcodes::CSWAP as int);
        assert(t[k + 2].0 == opcodes::CSWAP as int);
    }
    if (s0 == 0 ==> t0 == s1 && t1 == s2) && (s0 == 1 ==> t0 == s2 && t1 == s1) {
        assert forall|i: int| 0 <= i < t.len() && #[trigger] t[i].0 == opcodes::CSWAP as int implies t[i].1 % p() == 0 by {
            if i < d.len() {
                assert(t[i] == d[i]);
            } else if i < d.len() + m.len() {
                assert(t[i] == m[i - d.len()]);
            } else if i < d.len() + m.len() + w.len() {
                assert(t[i] == w[i - d.len() - m.len()]);
            } else if i < k {
                assert(t[i] == dw[i - d.len() - m.len() - w.len()]);
            } else {
                assert(t[i] == c[i - k]);
                assert(i - k <= 2);
            }
        }
    }
}

/// With a binary selector, `c * x + (1 - c) * y` is `x` for `c = 1` and `y` for `c = 0`.
proof fn lemma_cswap_value_binary(c: int, x: int, y: int)
    requires
        c == 0 || c == 1,
        0 <= x < p(),
        0 <= y < p(),
    ensures
        cswap_value(c, x, y) == (if c == 1 { x } else { y }),
{
    vstd::arithmetic::div_mod::lemma_small_mod(0, p() as nat);
    vstd::arithmetic::div_mod::lemma_small_mod(1, p() as nat);
    vstd::arithmetic::div_mod::lemma_small_mod(x as nat, p() as nat);
    vstd::arithmetic::div_mod::lemma_small_mod(y as nat, p() as nat);
    if c == 1 {
        assert(fsub(1, c) == 0);
        assert(fmul(c, x) == x && fmul(0, y) == 0);
    } else {
        assert(fsub(1, c) == 1);
        assert(fmul(c, x) == 0 && fmul(1, y) == y);
    }
}

/// The equations that CSWAPW owns in the stack-ops table, on a row with a binary selector.
#[verifier::spinoff_prover]
#[verifier::rlimit(60)]
proof fn lemma_cswapw_owned(l: MainCols<Felt>, n: MainCols<Felt>)
    requires
        l.stack.top[0].val() == 0 || l.stack.top[0].val() == 1,
    ensures
        (forall|i: int|
            0 <= i < stack_ops_table(l, n).len() && #[trigger] stack_ops_table(l, n)[i].0
                == opcodes::CSWAPW as int ==> stack_ops_table(l, n)[i].1 % p() == 0) <==> (fsub(n.stack.top[0].val(), cswap_value(l.stack.top[0].val(), l.stack.top[5].val(), l.stack.top[1].val())) % p() == 0 && fsub(n.stack.top[1].val(), cswap_value(l.stack.top[0].val(), l.stack.top[6].val(), l.stack.top[2].val())) % p() == 0 && fsub(n.stack.top[2].val(), cswap_value(l.stack.top[0].val(), l.stack.top[7].val(), l.stack.top[3].val())) % p() == 0 && fsub(n.stack.top[3].val(), cswap_value(l.stack.top[0].val(), l.stack.top[8].val(), l.stack.top[4].val())) % p() == 0 && fsub(n.stack.top[4].val(), cswap_value(l.stack.top[0].val(), l.stack.top[1].val(), l.stack.top[5].val())) % p() == 0 && fsub(n.stack.top[5].val(), cswap_value(l.stack.top[0].val(), l.stack.top[2].val(), l.stack.top[6].val())) % p() == 0 && fsub(n.stack.top[6].val(), cswap_value(l.stack.top[0].val(), l.stack.top[3].val(), l.stack.top[7].val())) % p() == 0 && fsub(n.stack.top[7].val(), cswap_value(l.stack.top[0].val(), l.stack.top[4].val(), l.stack.top[8].val())) % p() == 0),
{
    let s0 = l.stack.top[0].val();
    vstd::arithmetic::div_mod::lemma_small_mod(0, p() as nat);
    vstd::arithmetic::div_mod::lemma_small_mod(1, p() as nat);
    assert(fsub(s0, 1) == (if s0 == 0 { p() - 1 } else { 0 })) by {
        if s0 == 0 {
            vstd::arithmetic::div_mod::lemma_mod_add_multiples_vanish(-1, p());
            vstd::arithmetic::div_mod::lemma_small_mod((p() - 1) as nat, p() as nat);
        }
    }
    assert(bool_check(s0) == 0);
    let d = dup_table(l, n);
    let m = mov_table(l, n);
    let w = words_table(l, n);
    let dw = dwords_table(l, n);
    let c = cond_table(l, n);
    let t = stack_ops_table(l, n);
    let k0: int = (d.len() + m.len() + w.len() + dw.len()) as int;
    lemma_cswap_only_in_cond_table(l, n);
    assert forall|j: int| 0 <= j < c.len() implies #[trigger] t[k0 + j] == c[j] by {}
    assert(t[k0 + 3] == c[3] && c[3].0 == opcodes::CSWAPW as int);
    assert(t[k0 + 4] == c[4] && c[4].0 == opcodes::CSWAPW as int);
    assert(t[k0 + 5] == c[5] && c[5].0 == opcodes::CSWAPW as int);
    assert(t[k0 + 6] == c[6] && c[6].0 == opcodes::CSWAPW as int);
    assert(t[k0 + 7] == c[7] && c[7].0 == opcodes::CSWAPW as int);
    assert(t[k0 + 8] == c[8] && c[8].0 == opcodes::CSWAPW as int);
    assert(t[k0 + 9] == c[9] && c[9].0 == opcodes::CSWAPW as int);
    assert(t[k0 + 10] == c[10] && c[10].0 == opcodes::CSWAPW as int);
    assert(t[k0 + 11] == c[11] && c[11].0 == opcodes::CSWAPW as int);
    if forall|j: int| 0 <= j < 8 ==> #[trigger] t[k0 + 4 + j].1 % p() == 0 {
    }
    if fsub(n.stack.top[0].val(), cswap_value(l.stack.top[0].val(), l.stack.top[5].val(), l.stack.top[1].val())) % p() == 0 && fsub(n.stack.top[1].val(), cswap_value(l.stack.top[0].val(), l.stack.top[6].val(), l.stack.top[2].val())) % p() == 0 && fsub(n.stack.top[2].val(), cswap_value(l.stack.top[0].val(), l.stack.top[7].val(), l.stack.top[3].val())) % p() == 0 && fsub(n.stack.top[3].val(), cswap_value(l.stack.top[0].val(), l.stack.top[8].val(), l.stack.top[4].val())) % p() == 0 && fsub(n.stack.top[4].val(), cswap_value(l.stack.top[0].val(), l.stack.top[1].val(), l.stack.top[5].val())) % p() == 0 && fsub(n.stack.top[5].val(), cswap_value(l.stack.top[0].val(), l.stack.top[2].val(), l.stack.top[6].val())) % p() == 0 && fsub(n.stack.top[6].val(), cswap_value(l.stack.top[0].val(), l.stack.top[3].val(), l.stack.top[7].val())) % p() == 0 && fsub(n.stack.top[7].val(), cswap_value(l.stack.top[0].val(), l.stack.top[4].val(), l.stack.top[8].val())) % p() == 0 {
        assert forall|i: int| 0 <= i < t.len() && #[trigger] t[i].0 == opcodes::CSWAPW as int implies t[i].1 % p() == 0 by {
            if i < d.len() {
                assert(t[i] == d[i]);
            } else if i < d.len() + m.len() {
                assert(t[i] == m[i - d.len()]);
            } else if i < d.len() + m.len() + w.len() {
                assert(t[i] == w[i - d.len() - m.len()]);
            } else if i < k0 {
                assert(t[i] == dw[i - d.len() - m.len() - w.len()]);
            } else {
                assert(t[i] == c[i - k0]);
            }
        }
    }
}

/// What CSWAPW does: with a binary selector `s0`, the equations that CSWAPW owns hold exactly
/// when the top eight elements of the next row are `s5..s8, s1..s4` for `s0 = 1` (the two
/// words below the selector swapped) and `s1..s8` for `s0 = 0` (left in place).
pub proof fn lemma_cswapw_behaviour(l: MainCols<Felt>, n: MainCols<Felt>)
    requires
        l.stack.top[0].val() == 0 || l.stack.top[0].val() == 1,
    ensures
        (forall|i: int|
            0 <= i < stack_ops_table(l, n).len() && #[trigger] stack_ops_table(l, n)[i].0
                == opcodes::CSWAPW as int ==> stack_ops_table(l, n)[i].1 % p() == 0) <==> ({
            let s = l.stack.top;
            let t = n.stack.top;
            &&& s[0].val() == 1 ==> (t[0].val() == s[5].val() && t[1].val() == s[6].val() && t[2].val()
                == s[7].val() && t[3].val() == s[8].val() && t[4].val() == s[1].val() && t[5].val()
                == s[2].val() && t[6].val() == s[3].val() && t[7].val() == s[4].val())
            &&& s[0].val() == 0 ==> (t[0].val() == s[1].val() && t[1].val() == s[2].val() && t[2].val()
                == s[3].val() && t[3].val() == s[4].val() && t[4].val() == s[5].val() && t[5].val()
                == s[6].val() && t[6].val() == s[7].val() && t[7].val() == s[8].val())
        }),
{
    lemma_cswapw_owned(l, n);
    let s0 = l.stack.top[0].val();
    assert forall|i: int| 0 <= i < 16 implies 0 <= #[trigger] l.stack.top[i].val() < p() by {
        l.stack.top[i].lemma_val_range();
    }
    assert forall|i: int| 0 <= i < 16 implies 0 <= #[trigger] n.stack.top[i].val() < p() by {
        n.stack.top[i].lemma_val_range();
    }
    lemma_cswap_value_binary(s0, l.stack.top[5].val(), l.stack.top[1].val());
    lemma_fsub_zero_iff(n.stack.top[0].val(), cswap_value(s0, l.stack.top[5].val(), l.stack.top[1].val()));
    lemma_cswap_value_binary(s0, l.stack.top[6].val(), l.stack.top[2].val());
    lemma_fsub_zero_iff(n.stack.top[1].val(), cswap_value(s0, l.stack.top[6].val(), l.stack.top[2].val()));
    lemma_cswap_value_binary(s0, l.stack.top[7].val(), l.stack.top[3].val());
    lemma_fsub_zero_iff(n.stack.top[2].val(), cswap_value(s0, l.stack.top[7].val(), l.stack.top[3].val()));
    lemma_cswap_value_binary(s0, l.stack.top[8].val(), l.stack.top[4].val());
    lemma_fsub_zero_iff(n.stack.top[3].val(), cswap_value(s0, l.stack.top[8].val(), l.stack.top[4].val()));
    lemma_cswap_value_binary(s0, l.stack.top[1].val(), l.stack.top[5].val());
    lemma_fsub_zero_iff(n.stack.top[4].val(), cswap_value(s0, l.stack.top[1].val(), l.stack.top[5].val()));
    lemma_cswap_value_binary(s0, l.stack.top[2].val(), l.stack.top[6].val());
    lemma_fsub_zero_iff(n.stack.top[5].val(), cswap_value(s0, l.stack.top[2].val(), l.stack.top[6].val()));
    lemma_cswap_value_binary(s0, l.stack.top[3].val(), l.stack.top[7].val());
    lemma_fsub_zero_iff(n.stack.top[6].val(), cswap_value(s0, l.stack.top[3].val(), l.stack.top[7].val()));
    lemma_cswap_value_binary(s0, l.stack.top[4].val(), l.stack.top[8].val());
    lemma_fsub_zero_iff(n.stack.top[7].val(), cswap_value(s0, l.stack.top[4].val(), l.stack.top[8].val()));
}

} // verus!
