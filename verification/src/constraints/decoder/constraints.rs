//! Decoder main-trace constraints.
//!
//! These constraints keep the decoder state consistent: the in-span flag, the op bits and
//! their degree-reduction columns, per-operation invariants (SPLIT, LOOP, DYN, REPEAT, END,
//! HALT), the group count, the decoding of the current op group in `h0`, the op index, the
//! batch flags and the block address.

use vstd::prelude::*;

use crate::constraints::columns::MainCols;
use crate::constraints::evaluator::{ConstraintEvaluator, bool_check};
use crate::constraints::decoder::columns::DecoderCols;
use crate::constraints::op_flags::{
    OpFlags, encodes_opcode, is_control_flow, is_valid_opcode, lemma_scalar_flags, opcode_bit,
};
use crate::constraints::utils::{bits_value, horner_eval_bits};
use crate::field::{Felt, fadd, fmul, fsub, p};
use crate::operations::opcodes;

verus! {

/// Number of hasher-table rows per permutation handled by the controller (an input row and
/// an output row): the address step of RESPAN.
pub const CONTROLLER_ROWS_PER_PERMUTATION: u8 = 2;

/// The values of the decoder constraints on the in-span flag, the op bits, the degree-reduction columns and the
/// opcode-group prefixes.
pub open spec fn decoder_span_bits_values(flags: OpFlags, t: int, first: int, last: int, l: MainCols<Felt>, n: MainCols<Felt>) -> Seq<int> {
    seq![
        // Execution starts outside any basic block.
        fmul(first, l.decoder.in_span.val()),
        // The in-span flag is binary.
        bool_check(l.decoder.in_span.val()),
        // After SPAN, next row enters a basic block.
        fmul(t, fmul(flags.flag_of(opcodes::SPAN as int).val(), fsub(n.decoder.in_span.val(), 1))),
        // After RESPAN, next row stays in a basic block.
        fmul(t, fmul(flags.flag_of(opcodes::RESPAN as int).val(), fsub(n.decoder.in_span.val(), 1))),
        // Opcode bit 0 is binary.
        bool_check(l.decoder.op_bits[0].val()),
        // Opcode bit 1 is binary.
        bool_check(l.decoder.op_bits[1].val()),
        // Opcode bit 2 is binary.
        bool_check(l.decoder.op_bits[2].val()),
        // Opcode bit 3 is binary.
        bool_check(l.decoder.op_bits[3].val()),
        // Opcode bit 4 is binary.
        bool_check(l.decoder.op_bits[4].val()),
        // Opcode bit 5 is binary.
        bool_check(l.decoder.op_bits[5].val()),
        // Opcode bit 6 is binary.
        bool_check(l.decoder.op_bits[6].val()),
        // e0 = b6 * (1 - b5) * b4.
        fsub(l.decoder.extra[0].val(), fmul(fmul(l.decoder.op_bits[6].val(), fsub(1, l.decoder.op_bits[5].val())), l.decoder.op_bits[4].val())),
        // e1 = b6 * b5.
        fsub(l.decoder.extra[1].val(), fmul(l.decoder.op_bits[6].val(), l.decoder.op_bits[5].val())),
        // U32 prefix: b0 = 0.
        fmul(fsub(fsub(l.decoder.op_bits[6].val(), l.decoder.extra[1].val()), l.decoder.extra[0].val()), l.decoder.op_bits[0].val()),
        // VeryHi prefix: b0 = 0.
        fmul(l.decoder.extra[1].val(), l.decoder.op_bits[0].val()),
        // VeryHi prefix: b1 = 0.
        fmul(l.decoder.extra[1].val(), l.decoder.op_bits[1].val()),
    ]
}

/// The values of the decoder constraints on the per-operation invariants and the group count.
pub open spec fn decoder_semantics_values(flags: OpFlags, t: int, first: int, last: int, l: MainCols<Felt>, n: MainCols<Felt>) -> Seq<int> {
    seq![
        // SPLIT/LOOP: the branch selector is binary.
        fmul(fadd(flags.flag_of(opcodes::SPLIT as int).val(), flags.flag_of(opcodes::LOOP as int).val()), bool_check(l.stack.top[0].val())),
        // DYN: h4 = 0.
        fmul(flags.flag_of(opcodes::DYN as int).val(), l.decoder.hasher_state[4].val()),
        // DYN: h5 = 0.
        fmul(flags.flag_of(opcodes::DYN as int).val(), l.decoder.hasher_state[5].val()),
        // DYN: h6 = 0.
        fmul(flags.flag_of(opcodes::DYN as int).val(), l.decoder.hasher_state[6].val()),
        // DYN: h7 = 0.
        fmul(flags.flag_of(opcodes::DYN as int).val(), l.decoder.hasher_state[7].val()),
        // REPEAT: the loop condition is one.
        fmul(flags.flag_of(opcodes::REPEAT as int).val(), fsub(l.stack.top[0].val(), 1)),
        // REPEAT: inside an active loop body.
        fmul(flags.flag_of(opcodes::REPEAT as int).val(), fsub(l.decoder.hasher_state[4].val(), 1)),
        // END of a loop: the loop condition is zero.
        fmul(flags.flag_of(opcodes::END as int).val(), fmul(l.decoder.hasher_state[5].val(), l.stack.top[0].val())),
        // END then REPEAT: h0 carries over.
        fmul(fmul(fmul(t, flags.flag_of(opcodes::END as int).val()), flags.repeat_next.val()), fsub(n.decoder.hasher_state[0].val(), l.decoder.hasher_state[0].val())),
        // END then REPEAT: h1 carries over.
        fmul(fmul(fmul(t, flags.flag_of(opcodes::END as int).val()), flags.repeat_next.val()), fsub(n.decoder.hasher_state[1].val(), l.decoder.hasher_state[1].val())),
        // END then REPEAT: h2 carries over.
        fmul(fmul(fmul(t, flags.flag_of(opcodes::END as int).val()), flags.repeat_next.val()), fsub(n.decoder.hasher_state[2].val(), l.decoder.hasher_state[2].val())),
        // END then REPEAT: h3 carries over.
        fmul(fmul(fmul(t, flags.flag_of(opcodes::END as int).val()), flags.repeat_next.val()), fsub(n.decoder.hasher_state[3].val(), l.decoder.hasher_state[3].val())),
        // END then REPEAT: h4 carries over.
        fmul(fmul(fmul(t, flags.flag_of(opcodes::END as int).val()), flags.repeat_next.val()), fsub(n.decoder.hasher_state[4].val(), l.decoder.hasher_state[4].val())),
        // HALT is absorbing.
        fmul(t, fmul(flags.flag_of(opcodes::HALT as int).val(), fsub(flags.halt_next.val(), 1))),
        // In a span, the group count changes by at most one.
        fmul(fmul(t, l.decoder.in_span.val()), bool_check(fsub(l.decoder.group_count.val(), n.decoder.group_count.val()))),
        // A consumed group (not by PUSH) has been fully decoded.
        fmul(fmul(t, l.decoder.in_span.val()), fmul(fsub(l.decoder.group_count.val(), n.decoder.group_count.val()), fmul(fsub(1, flags.flag_of(opcodes::PUSH as int).val()), l.decoder.hasher_state[0].val()))),
    ]
}

/// The values of the decoder constraints on the decoding of `h0`, the op index and its range.
pub open spec fn decoder_groups_values(flags: OpFlags, t: int, first: int, last: int, l: MainCols<Felt>, n: MainCols<Felt>) -> Seq<int> {
    seq![
        // SPAN, RESPAN and PUSH consume one group.
        fmul(t, fmul(fadd(fadd(flags.flag_of(opcodes::SPAN as int).val(), flags.flag_of(opcodes::RESPAN as int).val()), flags.flag_of(opcodes::PUSH as int).val()), fsub(fsub(l.decoder.group_count.val(), n.decoder.group_count.val()), 1))),
        // After consuming a group, the next row is neither END nor RESPAN.
        fmul(t, fmul(fsub(l.decoder.group_count.val(), n.decoder.group_count.val()), fadd(flags.end_next.val(), flags.respan_next.val()))),
        // At END all groups are consumed.
        fmul(flags.flag_of(opcodes::END as int).val(), l.decoder.group_count.val()),
        // h0 = 128 * h0' + op' while h0 is active.
        fmul(t, fmul(fadd(fadd(fadd(flags.flag_of(opcodes::SPAN as int).val(), flags.flag_of(opcodes::RESPAN as int).val()), flags.flag_of(opcodes::PUSH as int).val()), fmul(fmul(l.decoder.in_span.val(), n.decoder.in_span.val()), fsub(1, fsub(l.decoder.group_count.val(), n.decoder.group_count.val())))), fsub(fsub(l.decoder.hasher_state[0].val(), fmul(n.decoder.hasher_state[0].val(), 128)), bits_value(n.decoder.op_bits@) % p()))),
        // Before END or RESPAN, h0 is empty.
        fmul(t, fmul(l.decoder.in_span.val(), fmul(fadd(flags.end_next.val(), flags.respan_next.val()), l.decoder.hasher_state[0].val()))),
        // SPAN/RESPAN reset the op index.
        fmul(t, fmul(fadd(flags.flag_of(opcodes::SPAN as int).val(), flags.flag_of(opcodes::RESPAN as int).val()), n.decoder.op_index.val())),
        // A new group resets the op index.
        fmul(t, fmul(l.decoder.in_span.val(), fmul(fsub(fsub(l.decoder.group_count.val(), n.decoder.group_count.val()), flags.flag_of(opcodes::PUSH as int).val()), n.decoder.op_index.val()))),
        // In the same group, the op index increments.
        fmul(t, fmul(l.decoder.in_span.val(), fmul(n.decoder.in_span.val(), fmul(fsub(1, fsub(fsub(l.decoder.group_count.val(), n.decoder.group_count.val()), flags.flag_of(opcodes::PUSH as int).val())), fsub(n.decoder.op_index.val(), fadd(l.decoder.op_index.val(), 1)))))),
        // The op index lies in [0, 8].
        fmul(fmul(fmul(fmul(fmul(fmul(fmul(fmul(l.decoder.op_index.val(), fsub(l.decoder.op_index.val(), 1)), fsub(l.decoder.op_index.val(), 2)), fsub(l.decoder.op_index.val(), 3)), fsub(l.decoder.op_index.val(), 4)), fsub(l.decoder.op_index.val(), 5)), fsub(l.decoder.op_index.val(), 6)), fsub(l.decoder.op_index.val(), 7)), fsub(l.decoder.op_index.val(), 8)),
    ]
}

/// The values of the decoder constraints on the batch flags and the unused hasher lanes.
pub open spec fn decoder_batch_values(flags: OpFlags, t: int, first: int, last: int, l: MainCols<Felt>, n: MainCols<Felt>) -> Seq<int> {
    seq![
        // Batch flag 0 is binary.
        bool_check(l.decoder.batch_flags[0].val()),
        // Batch flag 1 is binary.
        bool_check(l.decoder.batch_flags[1].val()),
        // Batch flag 2 is binary.
        bool_check(l.decoder.batch_flags[2].val()),
        // During SPAN/RESPAN exactly one batch size is selected.
        fsub(fadd(flags.flag_of(opcodes::SPAN as int).val(), flags.flag_of(opcodes::RESPAN as int).val()), fadd(fadd(fadd(fmul(fmul(fsub(1, l.decoder.batch_flags[0].val()), l.decoder.batch_flags[1].val()), l.decoder.batch_flags[2].val()), fmul(fmul(fsub(1, l.decoder.batch_flags[0].val()), fsub(1, l.decoder.batch_flags[1].val())), l.decoder.batch_flags[2].val())), fmul(fmul(fsub(1, l.decoder.batch_flags[0].val()), l.decoder.batch_flags[1].val()), fsub(1, l.decoder.batch_flags[2].val()))), l.decoder.batch_flags[0].val())),
        // Outside SPAN/RESPAN the batch flags are zero.
        fmul(fsub(1, fadd(flags.flag_of(opcodes::SPAN as int).val(), flags.flag_of(opcodes::RESPAN as int).val())), fadd(fadd(l.decoder.batch_flags[0].val(), l.decoder.batch_flags[1].val()), l.decoder.batch_flags[2].val())),
        // Fewer than 8 groups: h4 = 0.
        fmul(fadd(fadd(fmul(fmul(fsub(1, l.decoder.batch_flags[0].val()), l.decoder.batch_flags[1].val()), l.decoder.batch_flags[2].val()), fmul(fmul(fsub(1, l.decoder.batch_flags[0].val()), fsub(1, l.decoder.batch_flags[1].val())), l.decoder.batch_flags[2].val())), fmul(fmul(fsub(1, l.decoder.batch_flags[0].val()), l.decoder.batch_flags[1].val()), fsub(1, l.decoder.batch_flags[2].val()))), l.decoder.hasher_state[4].val()),
        // Fewer than 8 groups: h5 = 0.
        fmul(fadd(fadd(fmul(fmul(fsub(1, l.decoder.batch_flags[0].val()), l.decoder.batch_flags[1].val()), l.decoder.batch_flags[2].val()), fmul(fmul(fsub(1, l.decoder.batch_flags[0].val()), fsub(1, l.decoder.batch_flags[1].val())), l.decoder.batch_flags[2].val())), fmul(fmul(fsub(1, l.decoder.batch_flags[0].val()), l.decoder.batch_flags[1].val()), fsub(1, l.decoder.batch_flags[2].val()))), l.decoder.hasher_state[5].val()),
        // Fewer than 8 groups: h6 = 0.
        fmul(fadd(fadd(fmul(fmul(fsub(1, l.decoder.batch_flags[0].val()), l.decoder.batch_flags[1].val()), l.decoder.batch_flags[2].val()), fmul(fmul(fsub(1, l.decoder.batch_flags[0].val()), fsub(1, l.decoder.batch_flags[1].val())), l.decoder.batch_flags[2].val())), fmul(fmul(fsub(1, l.decoder.batch_flags[0].val()), l.decoder.batch_flags[1].val()), fsub(1, l.decoder.batch_flags[2].val()))), l.decoder.hasher_state[6].val()),
        // Fewer than 8 groups: h7 = 0.
        fmul(fadd(fadd(fmul(fmul(fsub(1, l.decoder.batch_flags[0].val()), l.decoder.batch_flags[1].val()), l.decoder.batch_flags[2].val()), fmul(fmul(fsub(1, l.decoder.batch_flags[0].val()), fsub(1, l.decoder.batch_flags[1].val())), l.decoder.batch_flags[2].val())), fmul(fmul(fsub(1, l.decoder.batch_flags[0].val()), l.decoder.batch_flags[1].val()), fsub(1, l.decoder.batch_flags[2].val()))), l.decoder.hasher_state[7].val()),
        // Fewer than 4 groups: h2 = 0.
        fmul(fadd(fmul(fmul(fsub(1, l.decoder.batch_flags[0].val()), l.decoder.batch_flags[1].val()), l.decoder.batch_flags[2].val()), fmul(fmul(fsub(1, l.decoder.batch_flags[0].val()), fsub(1, l.decoder.batch_flags[1].val())), l.decoder.batch_flags[2].val())), l.decoder.hasher_state[2].val()),
        // Fewer than 4 groups: h3 = 0.
        fmul(fadd(fmul(fmul(fsub(1, l.decoder.batch_flags[0].val()), l.decoder.batch_flags[1].val()), l.decoder.batch_flags[2].val()), fmul(fmul(fsub(1, l.decoder.batch_flags[0].val()), fsub(1, l.decoder.batch_flags[1].val())), l.decoder.batch_flags[2].val())), l.decoder.hasher_state[3].val()),
    ]
}

/// The values of the decoder constraints on the block address, the control-flow split and the last row.
pub open spec fn decoder_addr_values(flags: OpFlags, t: int, first: int, last: int, l: MainCols<Felt>, n: MainCols<Felt>) -> Seq<int> {
    seq![
        // One group: h1 = 0.
        fmul(fmul(fmul(fsub(1, l.decoder.batch_flags[0].val()), l.decoder.batch_flags[1].val()), l.decoder.batch_flags[2].val()), l.decoder.hasher_state[1].val()),
        // Inside a basic block the address stays.
        fmul(t, fmul(l.decoder.in_span.val(), fsub(n.decoder.addr.val(), l.decoder.addr.val()))),
        // RESPAN moves the address to the next controller pair.
        fmul(t, fmul(flags.flag_of(opcodes::RESPAN as int).val(), fsub(n.decoder.addr.val(), fadd(l.decoder.addr.val(), 2)))),
        // HALT: the address is zero.
        fmul(flags.flag_of(opcodes::HALT as int).val(), l.decoder.addr.val()),
        // Every row is in a basic block or a control-flow operation.
        fsub(fadd(l.decoder.in_span.val(), flags.control_flow.val()), 1),
        // The last row is HALT.
        fmul(last, fsub(flags.flag_of(opcodes::HALT as int).val(), 1)),
    ]
}

/// The values of all decoder constraints on the window `(l, n)`, with the operation flags
/// of `l`, the row selectors `t` (transition), `first` and `last`.
pub open spec fn decoder_constraint_values(flags: OpFlags, t: int, first: int, last: int, l: MainCols<Felt>, n: MainCols<Felt>) -> Seq<int> {
    decoder_span_bits_values(flags, t, first, last, l, n) + decoder_semantics_values(flags, t, first, last, l, n) + decoder_groups_values(flags, t, first, last, l, n)
        + decoder_batch_values(flags, t, first, last, l, n) + decoder_addr_values(flags, t, first, last, l, n)
}

/// Asserts the decoder constraints on the in-span flag, the op bits, the degree-reduction columns and the
/// opcode-group prefixes.
#[verifier::spinoff_prover]
fn enforce_span_bits(
    builder: &mut ConstraintEvaluator,
    local: &MainCols<Felt>,
    next: &MainCols<Felt>,
    op_flags: &OpFlags,
)
    ensures
        final(builder).periodic == old(builder).periodic,
        final(builder).is_transition == old(builder).is_transition,
        final(builder).is_first_row == old(builder).is_first_row,
        final(builder).is_last_row == old(builder).is_last_row,
        final(builder).values() == old(builder).values() + decoder_span_bits_values(
            *op_flags,
            old(builder).is_transition.val(),
            old(builder).is_first_row.val(),
            old(builder).is_last_row.val(),
            *local,
            *next,
        ),
{
    let ghost start = builder.values();
    let dec = &local.decoder;
    let dec_n = &next.decoder;
    let t = builder.is_transition;
    let first = builder.is_first_row;
    let last = builder.is_last_row;
    // Execution starts outside any basic block.
    builder.assert_zero(first.mul(dec.in_span));
    // The in-span flag is binary.
    builder.assert_zero(dec.in_span.mul(dec.in_span.sub(Felt::one())));
    // After SPAN, next row enters a basic block.
    builder.assert_zero(t.mul(op_flags.op_flag(opcodes::SPAN).mul(dec_n.in_span.sub(Felt::one()))));
    // After RESPAN, next row stays in a basic block.
    builder.assert_zero(t.mul(op_flags.op_flag(opcodes::RESPAN).mul(dec_n.in_span.sub(Felt::one()))));
    // Opcode bit 0 is binary.
    builder.assert_zero(dec.op_bits[0].mul(dec.op_bits[0].sub(Felt::one())));
    // Opcode bit 1 is binary.
    builder.assert_zero(dec.op_bits[1].mul(dec.op_bits[1].sub(Felt::one())));
    // Opcode bit 2 is binary.
    builder.assert_zero(dec.op_bits[2].mul(dec.op_bits[2].sub(Felt::one())));
    // Opcode bit 3 is binary.
    builder.assert_zero(dec.op_bits[3].mul(dec.op_bits[3].sub(Felt::one())));
    // Opcode bit 4 is binary.
    builder.assert_zero(dec.op_bits[4].mul(dec.op_bits[4].sub(Felt::one())));
    // Opcode bit 5 is binary.
    builder.assert_zero(dec.op_bits[5].mul(dec.op_bits[5].sub(Felt::one())));
    // Opcode bit 6 is binary.
    builder.assert_zero(dec.op_bits[6].mul(dec.op_bits[6].sub(Felt::one())));
    // e0 = b6 * (1 - b5) * b4.
    builder.assert_zero(dec.extra[0].sub(dec.op_bits[6].mul(Felt::one().sub(dec.op_bits[5])).mul(dec.op_bits[4])));
    // e1 = b6 * b5.
    builder.assert_zero(dec.extra[1].sub(dec.op_bits[6].mul(dec.op_bits[5])));
    // U32 prefix: b0 = 0.
    builder.assert_zero(dec.op_bits[6].sub(dec.extra[1]).sub(dec.extra[0]).mul(dec.op_bits[0]));
    // VeryHi prefix: b0 = 0.
    builder.assert_zero(dec.extra[1].mul(dec.op_bits[0]));
    // VeryHi prefix: b1 = 0.
    builder.assert_zero(dec.extra[1].mul(dec.op_bits[1]));
    proof {
        vstd::arithmetic::div_mod::lemma_small_mod(128, p() as nat);
        assert(builder.values() =~= start + decoder_span_bits_values(
            *op_flags,
            t.val(),
            first.val(),
            last.val(),
            *local,
            *next,
        ));
    }
}

/// Asserts the decoder constraints on the per-operation invariants and the group count.
#[verifier::spinoff_prover]
fn enforce_semantics(
    builder: &mut ConstraintEvaluator,
    local: &MainCols<Felt>,
    next: &MainCols<Felt>,
    op_flags: &OpFlags,
)
    ensures
        final(builder).periodic == old(builder).periodic,
        final(builder).is_transition == old(builder).is_transition,
        final(builder).is_first_row == old(builder).is_first_row,
        final(builder).is_last_row == old(builder).is_last_row,
        final(builder).values() == old(builder).values() + decoder_semantics_values(
            *op_flags,
            old(builder).is_transition.val(),
            old(builder).is_first_row.val(),
            old(builder).is_last_row.val(),
            *local,
            *next,
        ),
{
    let ghost start = builder.values();
    let dec = &local.decoder;
    let dec_n = &next.decoder;
    let t = builder.is_transition;
    let first = builder.is_first_row;
    let last = builder.is_last_row;
    // SPLIT/LOOP: the branch selector is binary.
    builder.assert_zero(op_flags.op_flag(opcodes::SPLIT).add(op_flags.op_flag(opcodes::LOOP)).mul(local.stack.top[0].mul(local.stack.top[0].sub(Felt::one()))));
    // DYN: h4 = 0.
    builder.assert_zero(op_flags.op_flag(opcodes::DYN).mul(dec.hasher_state[4]));
    // DYN: h5 = 0.
    builder.assert_zero(op_flags.op_flag(opcodes::DYN).mul(dec.hasher_state[5]));
    // DYN: h6 = 0.
    builder.assert_zero(op_flags.op_flag(opcodes::DYN).mul(dec.hasher_state[6]));
    // DYN: h7 = 0.
    builder.assert_zero(op_flags.op_flag(opcodes::DYN).mul(dec.hasher_state[7]));
    // REPEAT: the loop condition is one.
    builder.assert_zero(op_flags.op_flag(opcodes::REPEAT).mul(local.stack.top[0].sub(Felt::one())));
    // REPEAT: inside an active loop body.
    builder.assert_zero(op_flags.op_flag(opcodes::REPEAT).mul(dec.hasher_state[4].sub(Felt::one())));
    // END of a loop: the loop condition is zero.
    builder.assert_zero(op_flags.op_flag(opcodes::END).mul(dec.hasher_state[5].mul(local.stack.top[0])));
    // END then REPEAT: h0 carries over.
    builder.assert_zero(t.mul(op_flags.op_flag(opcodes::END)).mul(op_flags.repeat_next).mul(dec_n.hasher_state[0].sub(dec.hasher_state[0])));
    // END then REPEAT: h1 carries over.
    builder.assert_zero(t.mul(op_flags.op_flag(opcodes::END)).mul(op_flags.repeat_next).mul(dec_n.hasher_state[1].sub(dec.hasher_state[1])));
    // END then REPEAT: h2 carries over.
    builder.assert_zero(t.mul(op_flags.op_flag(opcodes::END)).mul(op_flags.repeat_next).mul(dec_n.hasher_state[2].sub(dec.hasher_state[2])));
    // END then REPEAT: h3 carries over.
    builder.assert_zero(t.mul(op_flags.op_flag(opcodes::END)).mul(op_flags.repeat_next).mul(dec_n.hasher_state[3].sub(dec.hasher_state[3])));
    // END then REPEAT: h4 carries over.
    builder.assert_zero(t.mul(op_flags.op_flag(opcodes::END)).mul(op_flags.repeat_next).mul(dec_n.hasher_state[4].sub(dec.hasher_state[4])));
    // HALT is absorbing.
    builder.assert_zero(t.mul(op_flags.op_flag(opcodes::HALT).mul(op_flags.halt_next.sub(Felt::one()))));
    // In a span, the group count changes by at most one.
    builder.assert_zero(t.mul(dec.in_span).mul(dec.group_count.sub(dec_n.group_count).mul(dec.group_count.sub(dec_n.group_count).sub(Felt::one()))));
    // A consumed group (not by PUSH) has been fully decoded.
    builder.assert_zero(t.mul(dec.in_span).mul(dec.group_count.sub(dec_n.group_count).mul(Felt::one().sub(op_flags.op_flag(opcodes::PUSH)).mul(dec.hasher_state[0]))));
    proof {
        vstd::arithmetic::div_mod::lemma_small_mod(128, p() as nat);
        assert(builder.values() =~= start + decoder_semantics_values(
            *op_flags,
            t.val(),
            first.val(),
            last.val(),
            *local,
            *next,
        ));
    }
}

/// Asserts the decoder constraints on the decoding of `h0`, the op index and its range.
#[verifier::spinoff_prover]
fn enforce_groups(
    builder: &mut ConstraintEvaluator,
    local: &MainCols<Felt>,
    next: &MainCols<Felt>,
    op_flags: &OpFlags,
)
    ensures
        final(builder).periodic == old(builder).periodic,
        final(builder).is_transition == old(builder).is_transition,
        final(builder).is_first_row == old(builder).is_first_row,
        final(builder).is_last_row == old(builder).is_last_row,
        final(builder).values() == old(builder).values() + decoder_groups_values(
            *op_flags,
            old(builder).is_transition.val(),
            old(builder).is_first_row.val(),
            old(builder).is_last_row.val(),
            *local,
            *next,
        ),
{
    let ghost start = builder.values();
    let dec = &local.decoder;
    let dec_n = &next.decoder;
    let t = builder.is_transition;
    let first = builder.is_first_row;
    let last = builder.is_last_row;
    let op_next = horner_eval_bits(&dec_n.op_bits);
    // SPAN, RESPAN and PUSH consume one group.
    builder.assert_zero(t.mul(op_flags.op_flag(opcodes::SPAN).add(op_flags.op_flag(opcodes::RESPAN)).add(op_flags.op_flag(opcodes::PUSH)).mul(dec.group_count.sub(dec_n.group_count).sub(Felt::one()))));
    // After consuming a group, the next row is neither END nor RESPAN.
    builder.assert_zero(t.mul(dec.group_count.sub(dec_n.group_count).mul(op_flags.end_next.add(op_flags.respan_next))));
    // At END all groups are consumed.
    builder.assert_zero(op_flags.op_flag(opcodes::END).mul(dec.group_count));
    // h0 = 128 * h0' + op' while h0 is active.
    builder.assert_zero(t.mul(op_flags.op_flag(opcodes::SPAN).add(op_flags.op_flag(opcodes::RESPAN)).add(op_flags.op_flag(opcodes::PUSH)).add(dec.in_span.mul(dec_n.in_span).mul(Felt::one().sub(dec.group_count.sub(dec_n.group_count)))).mul(dec.hasher_state[0].sub(dec_n.hasher_state[0].mul(Felt::from_u8(128))).sub(op_next))));
    // Before END or RESPAN, h0 is empty.
    builder.assert_zero(t.mul(dec.in_span.mul(op_flags.end_next.add(op_flags.respan_next).mul(dec.hasher_state[0]))));
    // SPAN/RESPAN reset the op index.
    builder.assert_zero(t.mul(op_flags.op_flag(opcodes::SPAN).add(op_flags.op_flag(opcodes::RESPAN)).mul(dec_n.op_index)));
    // A new group resets the op index.
    builder.assert_zero(t.mul(dec.in_span.mul(dec.group_count.sub(dec_n.group_count).sub(op_flags.op_flag(opcodes::PUSH)).mul(dec_n.op_index))));
    // In the same group, the op index increments.
    builder.assert_zero(t.mul(dec.in_span.mul(dec_n.in_span.mul(Felt::one().sub(dec.group_count.sub(dec_n.group_count).sub(op_flags.op_flag(opcodes::PUSH))).mul(dec_n.op_index.sub(dec.op_index.add(Felt::one())))))));
    // The op index lies in [0, 8].
    builder.assert_zero(dec.op_index.mul(dec.op_index.sub(Felt::one())).mul(dec.op_index.sub(Felt::from_u8(2))).mul(dec.op_index.sub(Felt::from_u8(3))).mul(dec.op_index.sub(Felt::from_u8(4))).mul(dec.op_index.sub(Felt::from_u8(5))).mul(dec.op_index.sub(Felt::from_u8(6))).mul(dec.op_index.sub(Felt::from_u8(7))).mul(dec.op_index.sub(Felt::from_u8(8))));
    proof {
        vstd::arithmetic::div_mod::lemma_small_mod(128, p() as nat);
        assert(builder.values() =~= start + decoder_groups_values(
            *op_flags,
            t.val(),
            first.val(),
            last.val(),
            *local,
            *next,
        ));
    }
}

/// Asserts the decoder constraints on the batch flags and the unused hasher lanes.
#[verifier::spinoff_prover]
fn enforce_batch(
    builder: &mut ConstraintEvaluator,
    local: &MainCols<Felt>,
    next: &MainCols<Felt>,
    op_flags: &OpFlags,
)
    ensures
        final(builder).periodic == old(builder).periodic,
        final(builder).is_transition == old(builder).is_transition,
        final(builder).is_first_row == old(builder).is_first_row,
        final(builder).is_last_row == old(builder).is_last_row,
        final(builder).values() == old(builder).values() + decoder_batch_values(
            *op_flags,
            old(builder).is_transition.val(),
            old(builder).is_first_row.val(),
            old(builder).is_last_row.val(),
            *local,
            *next,
        ),
{
    let ghost start = builder.values();
    let dec = &local.decoder;
    let dec_n = &next.decoder;
    let t = builder.is_transition;
    let first = builder.is_first_row;
    let last = builder.is_last_row;
    // Batch flag 0 is binary.
    builder.assert_zero(dec.batch_flags[0].mul(dec.batch_flags[0].sub(Felt::one())));
    // Batch flag 1 is binary.
    builder.assert_zero(dec.batch_flags[1].mul(dec.batch_flags[1].sub(Felt::one())));
    // Batch flag 2 is binary.
    builder.assert_zero(dec.batch_flags[2].mul(dec.batch_flags[2].sub(Felt::one())));
    // During SPAN/RESPAN exactly one batch size is selected.
    builder.assert_zero(op_flags.op_flag(opcodes::SPAN).add(op_flags.op_flag(opcodes::RESPAN)).sub(Felt::one().sub(dec.batch_flags[0]).mul(dec.batch_flags[1]).mul(dec.batch_flags[2]).add(Felt::one().sub(dec.batch_flags[0]).mul(Felt::one().sub(dec.batch_flags[1])).mul(dec.batch_flags[2])).add(Felt::one().sub(dec.batch_flags[0]).mul(dec.batch_flags[1]).mul(Felt::one().sub(dec.batch_flags[2]))).add(dec.batch_flags[0])));
    // Outside SPAN/RESPAN the batch flags are zero.
    builder.assert_zero(Felt::one().sub(op_flags.op_flag(opcodes::SPAN).add(op_flags.op_flag(opcodes::RESPAN))).mul(dec.batch_flags[0].add(dec.batch_flags[1]).add(dec.batch_flags[2])));
    // Fewer than 8 groups: h4 = 0.
    builder.assert_zero(Felt::one().sub(dec.batch_flags[0]).mul(dec.batch_flags[1]).mul(dec.batch_flags[2]).add(Felt::one().sub(dec.batch_flags[0]).mul(Felt::one().sub(dec.batch_flags[1])).mul(dec.batch_flags[2])).add(Felt::one().sub(dec.batch_flags[0]).mul(dec.batch_flags[1]).mul(Felt::one().sub(dec.batch_flags[2]))).mul(dec.hasher_state[4]));
    // Fewer than 8 groups: h5 = 0.
    builder.assert_zero(Felt::one().sub(dec.batch_flags[0]).mul(dec.batch_flags[1]).mul(dec.batch_flags[2]).add(Felt::one().sub(dec.batch_flags[0]).mul(Felt::one().sub(dec.batch_flags[1])).mul(dec.batch_flags[2])).add(Felt::one().sub(dec.batch_flags[0]).mul(dec.batch_flags[1]).mul(Felt::one().sub(dec.batch_flags[2]))).mul(dec.hasher_state[5]));
    // Fewer than 8 groups: h6 = 0.
    builder.assert_zero(Felt::one().sub(dec.batch_flags[0]).mul(dec.batch_flags[1]).mul(dec.batch_flags[2]).add(Felt::one().sub(dec.batch_flags[0]).mul(Felt::one().sub(dec.batch_flags[1])).mul(dec.batch_flags[2])).add(Felt::one().sub(dec.batch_flags[0]).mul(dec.batch_flags[1]).mul(Felt::one().sub(dec.batch_flags[2]))).mul(dec.hasher_state[6]));
    // Fewer than 8 groups: h7 = 0.
    builder.assert_zero(Felt::one().sub(dec.batch_flags[0]).mul(dec.batch_flags[1]).mul(dec.batch_flags[2]).add(Felt::one().sub(dec.batch_flags[0]).mul(Felt::one().sub(dec.batch_flags[1])).mul(dec.batch_flags[2])).add(Felt::one().sub(dec.batch_flags[0]).mul(dec.batch_flags[1]).mul(Felt::one().sub(dec.batch_flags[2]))).mul(dec.hasher_state[7]));
    // Fewer than 4 groups: h2 = 0.
    builder.assert_zero(Felt::one().sub(dec.batch_flags[0]).mul(dec.batch_flags[1]).mul(dec.batch_flags[2]).add(Felt::one().sub(dec.batch_flags[0]).mul(Felt::one().sub(dec.batch_flags[1])).mul(dec.batch_flags[2])).mul(dec.hasher_state[2]));
    // Fewer than 4 groups: h3 = 0.
    builder.assert_zero(Felt::one().sub(dec.batch_flags[0]).mul(dec.batch_flags[1]).mul(dec.batch_flags[2]).add(Felt::one().sub(dec.batch_flags[0]).mul(Felt::one().sub(dec.batch_flags[1])).mul(dec.batch_flags[2])).mul(dec.hasher_state[3]));
    proof {
        vstd::arithmetic::div_mod::lemma_small_mod(128, p() as nat);
        assert(builder.values() =~= start + decoder_batch_values(
            *op_flags,
            t.val(),
            first.val(),
            last.val(),
            *local,
            *next,
        ));
    }
}

/// Asserts the decoder constraints on the block address, the control-flow split and the last row.
#[verifier::spinoff_prover]
fn enforce_addr(
    builder: &mut ConstraintEvaluator,
    local: &MainCols<Felt>,
    next: &MainCols<Felt>,
    op_flags: &OpFlags,
)
    ensures
        final(builder).periodic == old(builder).periodic,
        final(builder).is_transition == old(builder).is_transition,
        final(builder).is_first_row == old(builder).is_first_row,
        final(builder).is_last_row == old(builder).is_last_row,
        final(builder).values() == old(builder).values() + decoder_addr_values(
            *op_flags,
            old(builder).is_transition.val(),
            old(builder).is_first_row.val(),
            old(builder).is_last_row.val(),
            *local,
            *next,
        ),
{
    let ghost start = builder.values();
    let dec = &local.decoder;
    let dec_n = &next.decoder;
    let t = builder.is_transition;
    let first = builder.is_first_row;
    let last = builder.is_last_row;
    // One group: h1 = 0.
    builder.assert_zero(Felt::one().sub(dec.batch_flags[0]).mul(dec.batch_flags[1]).mul(dec.batch_flags[2]).mul(dec.hasher_state[1]));
    // Inside a basic block the address stays.
    builder.assert_zero(t.mul(dec.in_span.mul(dec_n.addr.sub(dec.addr))));
    // RESPAN moves the address to the next controller pair.
    builder.assert_zero(t.mul(op_flags.op_flag(opcodes::RESPAN).mul(dec_n.addr.sub(dec.addr.add(Felt::from_u8(2))))));
    // HALT: the address is zero.
    builder.assert_zero(op_flags.op_flag(opcodes::HALT).mul(dec.addr));
    // Every row is in a basic block or a control-flow operation.
    builder.assert_zero(dec.in_span.add(op_flags.control_flow).sub(Felt::one()));
    // The last row is HALT.
    builder.assert_zero(last.mul(op_flags.op_flag(opcodes::HALT).sub(Felt::one())));
    proof {
        vstd::arithmetic::div_mod::lemma_small_mod(128, p() as nat);
        assert(builder.values() =~= start + decoder_addr_values(
            *op_flags,
            t.val(),
            first.val(),
            last.val(),
            *local,
            *next,
        ));
    }
}

/// Enforces decoder main-trace constraints (entry point).
pub fn enforce_main(
    builder: &mut ConstraintEvaluator,
    local: &MainCols<Felt>,
    next: &MainCols<Felt>,
    op_flags: &OpFlags,
)
    ensures
        final(builder).periodic == old(builder).periodic,
        final(builder).is_transition == old(builder).is_transition,
        final(builder).is_first_row == old(builder).is_first_row,
        final(builder).is_last_row == old(builder).is_last_row,
        final(builder).values() == old(builder).values() + decoder_constraint_values(
            *op_flags,
            old(builder).is_transition.val(),
            old(builder).is_first_row.val(),
            old(builder).is_last_row.val(),
            *local,
            *next,
        ),
{
    let ghost (t, first, last) = (
        builder.is_transition.val(),
        builder.is_first_row.val(),
        builder.is_last_row.val(),
    );
    enforce_span_bits(builder, local, next, op_flags);
    enforce_semantics(builder, local, next, op_flags);
    enforce_groups(builder, local, next, op_flags);
    enforce_batch(builder, local, next, op_flags);
    enforce_addr(builder, local, next, op_flags);
    proof {
        let (flags, l, n) = (*op_flags, *local, *next);
        assert(decoder_constraint_values(flags, t, first, last, l, n) =~= decoder_span_bits_values(
            flags,
            t,
            first,
            last,
            l,
            n,
        ) + decoder_semantics_values(flags, t, first, last, l, n) + decoder_groups_values(
            flags,
            t,
            first,
            last,
            l,
            n,
        ) + decoder_batch_values(flags, t, first, last, l, n) + decoder_addr_values(
            flags,
            t,
            first,
            last,
            l,
            n,
        ));
    }
}

// LAWS
// ================================================================================================

/// The value of seven binary op bits, least significant first.
pub open spec fn op_bits_value(dec: DecoderCols<Felt>) -> int {
    let b = dec.op_bits;
    b[0].val() + 2 * b[1].val() + 4 * b[2].val() + 8 * b[3].val() + 16 * b[4].val() + 32
        * b[5].val() + 64 * b[6].val()
}

/// Seven bits compose an opcode below 128 whose bits, ranges and low residues they give.
proof fn lemma_bits_compose(b0: u8, b1: u8, b2: u8, b3: u8, b4: u8, b5: u8, b6: u8)
    by (bit_vector)
    requires
        b0 <= 1,
        b1 <= 1,
        b2 <= 1,
        b3 <= 1,
        b4 <= 1,
        b5 <= 1,
        b6 <= 1,
    ensures
        ({
            let x = b0 + 2 * b1 + 4 * b2 + 8 * b3 + 16 * b4 + 32 * b5 + 64 * b6;
            &&& x < 128
            &&& x % 2 == b0
            &&& (x / 2) % 2 == b1
            &&& (x / 4) % 2 == b2
            &&& (x / 8) % 2 == b3
            &&& (x / 16) % 2 == b4
            &&& (x / 32) % 2 == b5
            &&& (x / 64) % 2 == b6
            &&& x % 4 == b0 + 2 * b1
            &&& (x < 64 <==> b6 == 0)
            &&& (64 <= x < 80 <==> (b6 == 1 && b5 == 0 && b4 == 0))
            &&& (80 <= x < 96 <==> (b6 == 1 && b5 == 0 && b4 == 1))
            &&& (96 <= x <==> (b6 == 1 && b5 == 1))
        }),
{
}

/// On a row whose op bits are binary and where the decoder constraints vanish, the op bits
/// encode a valid opcode: the degree-reduction columns hold their products, u32 opcodes
/// are even and the opcodes of the highest group are multiples of four. The operation flags
/// of such a row are then one-hot.
#[verifier::spinoff_prover]
#[verifier::rlimit(60)]
pub proof fn lemma_decoder_opcode_valid(
    flags: OpFlags,
    t: int,
    first: int,
    last: int,
    l: MainCols<Felt>,
    n: MainCols<Felt>,
)
    requires
        forall|j: int|
            0 <= j < decoder_constraint_values(flags, t, first, last, l, n).len()
                ==> #[trigger] decoder_constraint_values(flags, t, first, last, l, n)[j] == 0,
        forall|k: int|
            0 <= k < 7 ==> (#[trigger] l.decoder.op_bits[k].val() == 0
                || l.decoder.op_bits[k].val() == 1),
    ensures
        encodes_opcode(l.decoder, op_bits_value(l.decoder)),
        is_valid_opcode(op_bits_value(l.decoder)),
{
    let all = decoder_constraint_values(flags, t, first, last, l, n);
    let v = decoder_span_bits_values(flags, t, first, last, l, n);
    assert forall|j: int| 0 <= j < 16 implies #[trigger] v[j] == 0 by {
        assert(all[j] == v[j]);
    }
    let dec = l.decoder;
    let b = dec.op_bits;
    let (b0, b1, b2, b3, b4, b5, b6) = (
        b[0].val(),
        b[1].val(),
        b[2].val(),
        b[3].val(),
        b[4].val(),
        b[5].val(),
        b[6].val(),
    );
    assert(b0 == 0 || b0 == 1);
    assert(b1 == 0 || b1 == 1);
    assert(b2 == 0 || b2 == 1);
    assert(b3 == 0 || b3 == 1);
    assert(b4 == 0 || b4 == 1);
    assert(b5 == 0 || b5 == 1);
    assert(b6 == 0 || b6 == 1);
    lemma_bits_compose(b0 as u8, b1 as u8, b2 as u8, b3 as u8, b4 as u8, b5 as u8, b6 as u8);
    let op = op_bits_value(dec);
    let e0 = dec.extra[0].val();
    let e1 = dec.extra[1].val();
    dec.extra[0].lemma_val_range();
    dec.extra[1].lemma_val_range();
    // e0 = b6 * (1 - b5) * b4 and e1 = b6 * b5 on binary bits
    assert(v[11] == 0 && v[12] == 0 && v[13] == 0 && v[14] == 0 && v[15] == 0);
    let p0 = fmul(fmul(b6, fsub(1, b5)), b4);
    let p1 = fmul(b6, b5);
    assert(fsub(1, b5) == 1 - b5);
    assert(fmul(b6, fsub(1, b5)) == b6 * (1 - b5)) by {
        if b6 == 0 {
        } else {
        }
    }
    assert(p0 == (if b6 == 1 && b5 == 0 && b4 == 1 { 1int } else { 0int })) by {
        if b6 == 1 && b5 == 0 {
            assert(fmul(b6, fsub(1, b5)) == 1);
        } else {
            assert(fmul(b6, fsub(1, b5)) == 0);
        }
    }
    assert(p1 == (if b6 == 1 && b5 == 1 { 1int } else { 0int })) by {
        if b6 == 1 {
        } else {
        }
    }
    assert(fsub(e0, p0) == 0);
    assert(fsub(e1, p1) == 0);
    assert(e0 == p0);
    assert(e1 == p1);
    assert forall|k: int| 0 <= k < 7 implies #[trigger] dec.op_bits@[k].val() == (if opcode_bit(
        op,
        k,
    ) {
        1int
    } else {
        0int
    }) by {
        assert(dec.op_bits@[k] == b[k]);
    }
    assert(opcode_bit(op, 6) == (b6 == 1));
    assert(opcode_bit(op, 5) == (b5 == 1));
    assert(opcode_bit(op, 4) == (b4 == 1));
    // the U32 group is even and the highest group a multiple of four
    if 64 <= op < 80 {
        assert(fsub(fsub(b6, e1), e0) == 1);
        assert(fmul(1, b0) == b0);
        assert(b0 == 0);
    }
    if 96 <= op {
        assert(e1 == 1);
        assert(fmul(1, b0) == b0);
        assert(fmul(1, b1) == b1);
        assert(b0 == 0 && b1 == 0);
    }
}

/// Every row is either inside a basic block or a control-flow operation, never both: on a
/// row encoding a valid opcode `op` whose decoder constraints vanish, the in-span flag is zero
/// for the control-flow operations and one for every other operation.
pub proof fn lemma_in_span_excludes_control_flow(
    flags: OpFlags,
    t: int,
    first: int,
    last: int,
    l: MainCols<Felt>,
    n: MainCols<Felt>,
    op: int,
)
    requires
        forall|j: int|
            0 <= j < decoder_constraint_values(flags, t, first, last, l, n).len()
                ==> #[trigger] decoder_constraint_values(flags, t, first, last, l, n)[j] == 0,
        flags.flags_of(l.decoder, l.stack, n.decoder),
        encodes_opcode(l.decoder, op),
        is_valid_opcode(op),
    ensures
        l.decoder.in_span.val() == (if is_control_flow(op) {
            0int
        } else {
            1int
        }),
{
    let all = decoder_constraint_values(flags, t, first, last, l, n);
    let tail = decoder_addr_values(flags, t, first, last, l, n);
    let k = all.len() - 2;
    assert(all[k] == tail[4]);
    assert(tail[4] == 0);
    lemma_scalar_flags(flags, l.decoder, l.stack, n.decoder, op);
    let sp = l.decoder.in_span.val();
    let cf = flags.control_flow.val();
    l.decoder.in_span.lemma_val_range();
    vstd::arithmetic::div_mod::lemma_small_mod(0, p() as nat);
    vstd::arithmetic::div_mod::lemma_small_mod(sp as nat, p() as nat);
    assert(fsub(fadd(sp, cf), 1) == 0);
    if cf == 1 {
        if sp == p() - 1 {
            vstd::arithmetic::div_mod::lemma_mod_self_0(p());
            vstd::arithmetic::div_mod::lemma_mod_add_multiples_vanish(-1, p());
            vstd::arithmetic::div_mod::lemma_small_mod((p() - 1) as nat, p() as nat);
        } else {
            vstd::arithmetic::div_mod::lemma_small_mod((sp + 1) as nat, p() as nat);
        }
    } else {
        assert(cf == 0);
        if sp == 0 {
            vstd::arithmetic::div_mod::lemma_mod_add_multiples_vanish(-1, p());
            vstd::arithmetic::div_mod::lemma_small_mod((p() - 1) as nat, p() as nat);
        } else {
            vstd::arithmetic::div_mod::lemma_small_mod((sp - 1) as nat, p() as nat);
        }
    }
}

} // verus!
