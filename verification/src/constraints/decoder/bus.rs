//! Decoder bus constraints (p1/p2/p3).
//!
//! This module enforces the running-product relations for the decoder's three auxiliary tables:
//! - p1: block stack (nesting and call context)
//! - p2: block hash queue (blocks awaiting execution)
//! - p3: op group queue (groups produced by SPAN/RESPAN)
//!
//! ## What is enforced here
//! - The per-row running-product equation for each table: `pX' * requests = pX * responses`.
//! - The request/response terms are built from per-opcode insert/remove messages.
//!
//! ## What is *not* enforced here
//! - Initial/final boundary conditions: the first row holds the identity element and the last
//!   row is constrained by the claimed final values of the auxiliary columns.
//!
//! ## Message encoding
//! Each table message is encoded as `bus_prefix[table] + sum_i beta^i * element[i]`.

use vstd::prelude::*;

use crate::constraints::bus::indices::{P1_BLOCK_STACK, P2_BLOCK_HASH, P3_OP_GROUP};
use crate::constraints::columns::MainCols;
use crate::constraints::evaluator::{ConstraintEvaluator, vals};
use crate::constraints::ext_field::{
    QuadFeltExpr, q, q_add, q_add_base, q_eq_values, q_mul, q_one, q_scale, q_sub,
};
use crate::constraints::op_flags::{OpFlags, bit_weight};
use crate::constraints::utils::BoolNot;
use crate::field::{Felt, fadd, fmul, fsub};
use crate::operations::opcodes;
use crate::trace::bus_types::{BLOCK_HASH_TABLE, BLOCK_STACK_TABLE, NUM_BUS_TYPES, OP_GROUP_TABLE};
use crate::trace::challenges::lemma_msg_in_range;
use crate::trace::{AUX_TRACE_WIDTH, Challenges};

verus! {

/// Weights for opcode bit decoding: b0 + 2*b1 + ... + 64*b6.
const OP_BIT_WEIGHTS: [u16; 7] = [1, 2, 4, 8, 16, 32, 64];

/// The widest decoder message: a block stack entry with its call context.
pub const DECODER_MESSAGE_WIDTH: usize = 10;

// SPEC HELPERS
// ================================================================================================

/// Value of hasher state element `i` of a row.
pub open spec fn hs(m: MainCols<Felt>, i: int) -> int {
    m.decoder.hasher_state[i].val()
}

/// Value of the operation flag of `op`.
pub open spec fn opf(f: OpFlags, op: u8) -> int {
    f.flag_of(op as int).val()
}

/// The challenges can encode every decoder message.
pub open spec fn challenges_fit(ch: Challenges) -> bool {
    &&& ch.bus_prefix.len() == NUM_BUS_TYPES
    &&& ch.beta_powers.len() >= DECODER_MESSAGE_WIDTH
}

/// The evaluator holds full auxiliary rows.
pub open spec fn has_aux(builder: ConstraintEvaluator) -> bool {
    &&& builder.aux.len() == AUX_TRACE_WIDTH
    &&& builder.aux_next.len() == AUX_TRACE_WIDTH
}

/// The running-product constraint `p' * request = p * response` of aux column `col`,
/// asserted on transition rows.
pub open spec fn running_product_values(
    builder: ConstraintEvaluator,
    col: int,
    request: (int, int),
    response: (int, int),
) -> Seq<int> {
    q_eq_values(
        builder.is_transition.val(),
        q_mul(q(builder.aux_next@[col]), request),
        q_mul(q(builder.aux@[col]), response),
    )
}

/// Encoding of the block stack entry `[block_id, parent_id, is_loop]`.
pub open spec fn bst_simple(ch: Challenges, block_id: int, parent_id: int, is_loop: int) -> (int, int) {
    ch.msg(BLOCK_STACK_TABLE as int, seq![block_id, parent_id, is_loop])
}

/// Encoding of the block stack entry
/// `[block_id, parent_id, is_loop, ctx, depth, overflow, fn_hash[0..4]]`.
pub open spec fn bst_full(
    ch: Challenges,
    block_id: int,
    parent_id: int,
    is_loop: int,
    ctx: int,
    depth: int,
    overflow: int,
    fh: Seq<int>,
) -> (int, int) {
    ch.msg(
        BLOCK_STACK_TABLE as int,
        seq![block_id, parent_id, is_loop, ctx, depth, overflow, fh[0], fh[1], fh[2], fh[3]],
    )
}

/// The function hash of a row.
pub open spec fn fn_hash_vals(m: MainCols<Felt>) -> Seq<int> {
    vals(m.system.fn_hash@)
}

// BLOCK STACK TABLE (p1)
// ================================================================================================

/// Response (insertion) side of the block stack table on the window `(l, n)`.
pub open spec fn block_stack_response(
    l: MainCols<Felt>,
    n: MainCols<Felt>,
    f: OpFlags,
    ch: Challenges,
) -> (int, int) {
    let addr = l.decoder.addr.val();
    let addr_n = n.decoder.addr.val();
    let msg_simple = bst_simple(ch, addr_n, addr, 0);
    let msg_loop = bst_simple(ch, addr_n, addr, l.stack.top[0].val());
    let msg_respan = bst_simple(ch, addr_n, hs(n, 1), 0);
    let ctx = l.system.ctx.val();
    let msg_call = bst_full(
        ch, addr_n, addr, 0, ctx, l.stack.b0.val(), l.stack.b1.val(), fn_hash_vals(l));
    let msg_dyncall = bst_full(ch, addr_n, addr, 0, ctx, hs(l, 4), hs(l, 5), fn_hash_vals(l));
    let flag_sum = fadd(fadd(fadd(fadd(fadd(fadd(fadd(fadd(
        opf(f, opcodes::JOIN), opf(f, opcodes::SPLIT)), opf(f, opcodes::SPAN)),
        opf(f, opcodes::DYN)), opf(f, opcodes::LOOP)), opf(f, opcodes::RESPAN)),
        opf(f, opcodes::CALL)), opf(f, opcodes::SYSCALL)), opf(f, opcodes::DYNCALL));
    let insertions = q_add(q_add(q_add(q_add(q_add(q_add(q_add(q_add(
        q_scale(msg_simple, opf(f, opcodes::JOIN)),
        q_scale(msg_simple, opf(f, opcodes::SPLIT))),
        q_scale(msg_simple, opf(f, opcodes::SPAN))),
        q_scale(msg_simple, opf(f, opcodes::DYN))),
        q_scale(msg_loop, opf(f, opcodes::LOOP))),
        q_scale(msg_respan, opf(f, opcodes::RESPAN))),
        q_scale(msg_call, opf(f, opcodes::CALL))),
        q_scale(msg_call, opf(f, opcodes::SYSCALL))),
        q_scale(msg_dyncall, opf(f, opcodes::DYNCALL)));
    q_add_base(insertions, fsub(1, flag_sum))
}

/// Request (removal) side of the block stack table on the window `(l, n)`.
pub open spec fn block_stack_request(
    l: MainCols<Felt>,
    n: MainCols<Felt>,
    f: OpFlags,
    ch: Challenges,
) -> (int, int) {
    let addr = l.decoder.addr.val();
    let addr_n = n.decoder.addr.val();
    let is_end = opf(f, opcodes::END);
    let is_respan = opf(f, opcodes::RESPAN);
    let u_respan = q_scale(bst_simple(ch, addr, hs(n, 1), 0), is_respan);
    let is_simple_end = fsub(fsub(1, hs(l, 6)), hs(l, 7));
    let u_end_simple = q_scale(bst_simple(ch, addr, addr_n, hs(l, 5)), fmul(is_end, is_simple_end));
    let msg_end_call = bst_full(
        ch,
        addr,
        addr_n,
        hs(l, 5),
        n.system.ctx.val(),
        n.stack.b0.val(),
        n.stack.b1.val(),
        fn_hash_vals(n),
    );
    let u_end_call = q_scale(msg_end_call, fmul(is_end, fadd(hs(l, 6), hs(l, 7))));
    let removals = q_add(q_add(u_end_simple, u_end_call), u_respan);
    q_add_base(removals, fsub(1, fadd(is_end, is_respan)))
}

// BLOCK HASH TABLE (p2)
// ================================================================================================

/// Encoding of the block hash entry `[parent_id, hash[0..4], is_first_child, is_loop_body]`.
pub open spec fn bht_msg(
    ch: Challenges,
    parent: int,
    h: (int, int, int, int),
    first_child: int,
    loop_body: int,
) -> (int, int) {
    ch.msg(BLOCK_HASH_TABLE as int, seq![parent, h.0, h.1, h.2, h.3, first_child, loop_body])
}

/// The first half `h[0..4]` of the hasher state of a row.
pub open spec fn first_half(m: MainCols<Felt>) -> (int, int, int, int) {
    (hs(m, 0), hs(m, 1), hs(m, 2), hs(m, 3))
}

/// The second half `h[4..8]` of the hasher state of a row.
pub open spec fn second_half(m: MainCols<Felt>) -> (int, int, int, int) {
    (hs(m, 4), hs(m, 5), hs(m, 6), hs(m, 7))
}

/// `s * a + (1 - s) * b`, the child that SPLIT selects.
pub open spec fn select(s: int, a: int, b: int) -> int {
    fadd(fmul(s, a), fmul(fsub(1, s), b))
}

/// Response (insertion) side of the block hash table on the window `(l, n)`.
pub open spec fn block_hash_response(
    l: MainCols<Felt>,
    n: MainCols<Felt>,
    f: OpFlags,
    ch: Challenges,
) -> (int, int) {
    let parent = n.decoder.addr.val();
    let s0 = l.stack.top[0].val();
    let left = first_half(l);
    let right = second_half(l);
    let msg_left = bht_msg(ch, parent, left, 1, 0);
    let msg_right = bht_msg(ch, parent, right, 0, 0);
    let split = (
        select(s0, left.0, right.0),
        select(s0, left.1, right.1),
        select(s0, left.2, right.2),
        select(s0, left.3, right.3),
    );
    let msg_split = bht_msg(ch, parent, split, 0, 0);
    let msg_loop = bht_msg(ch, parent, left, 0, 1);
    let msg_call_like = bht_msg(ch, parent, left, 0, 0);
    let v_loop = q_scale(q_add(q_scale(msg_loop, s0), q_sub(q_one(), (s0, 0))), opf(f, opcodes::LOOP));
    let flag_sum = fadd(fadd(fadd(fadd(fadd(fadd(fadd(
        opf(f, opcodes::JOIN), opf(f, opcodes::SPLIT)), opf(f, opcodes::LOOP)),
        opf(f, opcodes::REPEAT)), opf(f, opcodes::DYN)), opf(f, opcodes::DYNCALL)),
        opf(f, opcodes::CALL)), opf(f, opcodes::SYSCALL));
    let insertions = q_add(q_add(q_add(q_add(q_add(q_add(q_add(
        q_scale(q_mul(msg_left, msg_right), opf(f, opcodes::JOIN)),
        q_scale(msg_split, opf(f, opcodes::SPLIT))),
        v_loop),
        q_scale(msg_loop, opf(f, opcodes::REPEAT))),
        q_scale(msg_call_like, opf(f, opcodes::DYN))),
        q_scale(msg_call_like, opf(f, opcodes::DYNCALL))),
        q_scale(msg_call_like, opf(f, opcodes::CALL))),
        q_scale(msg_call_like, opf(f, opcodes::SYSCALL)));
    q_add_base(insertions, fsub(1, flag_sum))
}

/// Request (removal) side of the block hash table on the window `(l, n)`: END removes the
/// block, which is a first child unless the next operation is END, REPEAT or HALT.
pub open spec fn block_hash_request(
    l: MainCols<Felt>,
    n: MainCols<Felt>,
    f: OpFlags,
    ch: Challenges,
) -> (int, int) {
    let is_end = opf(f, opcodes::END);
    let not_first = fadd(fadd(f.end_next.val(), f.repeat_next.val()), f.halt_next.val());
    let msg_end = bht_msg(ch, n.decoder.addr.val(), first_half(l), fsub(1, not_first), hs(l, 4));
    q_add_base(q_scale(msg_end, is_end), fsub(1, is_end))
}

// OP GROUP TABLE (p3)
// ================================================================================================

/// Encoding of the op group entry `[block_id, group_count, op_value]`.
pub open spec fn ogt_msg(ch: Challenges, block_id: int, group_count: int, value: int) -> (int, int) {
    ch.msg(OP_GROUP_TABLE as int, seq![block_id, group_count, value])
}

/// The insertion message of group `i` (1..8) of a SPAN/RESPAN row:
/// `[addr', group_count - i, h_i]`.
pub open spec fn group_msg(l: MainCols<Felt>, n: MainCols<Felt>, ch: Challenges, i: int) -> (int, int) {
    ogt_msg(ch, n.decoder.addr.val(), fsub(l.decoder.group_count.val(), i), hs(l, i))
}

/// The opcode value `b0 + 2*b1 + ... + 64*b6` of a row's op bits, summed in bit order.
pub open spec fn opcode_value(m: MainCols<Felt>, k: int) -> int
    decreases k,
{
    if k <= 0 {
        0
    } else {
        fadd(opcode_value(m, k - 1), fmul(m.decoder.op_bits[k - 1].val(), bit_weight(k - 1)))
    }
}

/// Response (insertion) side of the op group table on the window `(l, n)`.
pub open spec fn op_group_response(
    l: MainCols<Felt>,
    n: MainCols<Felt>,
    ch: Challenges,
) -> (int, int) {
    let c0 = l.decoder.batch_flags[0].val();
    let c1 = l.decoder.batch_flags[1].val();
    let c2 = l.decoder.batch_flags[2].val();
    let f_g8 = c0;
    let f_g4 = fmul(fmul(fsub(1, c0), c1), fsub(1, c2));
    let f_g2 = fmul(fmul(fsub(1, c0), fsub(1, c1)), c2);
    let v = |i: int| group_msg(l, n, ch, i);
    let prod_3 = q_mul(q_mul(v(1), v(2)), v(3));
    let prod_7 = q_mul(q_mul(q_mul(q_mul(q_mul(q_mul(v(1), v(2)), v(3)), v(4)), v(5)), v(6)), v(7));
    q_add(
        q_add(q_add(q_scale(v(1), f_g2), q_scale(prod_3, f_g4)), q_scale(prod_7, f_g8)),
        q_sub(q_one(), (fadd(fadd(f_g2, f_g4), f_g8), 0)),
    )
}

/// Request (removal) side of the op group table on the window `(l, n)`: inside a span, a
/// decrement of the group count removes the group `h0' * 128 + opcode'` (or `s0'` for PUSH).
pub open spec fn op_group_request(
    l: MainCols<Felt>,
    n: MainCols<Felt>,
    f: OpFlags,
    ch: Challenges,
) -> (int, int) {
    let gc = l.decoder.group_count.val();
    let f_dg = fmul(l.decoder.in_span.val(), fsub(gc, n.decoder.group_count.val()));
    let is_push = opf(f, opcodes::PUSH);
    let non_push = fadd(fmul(hs(n, 0), 128), opcode_value(n, 7));
    let value = fadd(fmul(is_push, n.stack.top[0].val()), fmul(fsub(1, is_push), non_push));
    let u = ogt_msg(ch, l.decoder.addr.val(), gc, value);
    q_add_base(q_scale(u, f_dg), fsub(1, f_dg))
}

// MESSAGE ENCODERS
// ================================================================================================

/// Encodes `[block_id, parent_id, is_loop]` on the block stack table.
fn encode_bst_simple(ch: &Challenges, block_id: Felt, parent_id: Felt, is_loop: Felt) -> (r: QuadFeltExpr<Felt>)
    requires
        challenges_fit(*ch),
    ensures
        q(r) == bst_simple(*ch, block_id.val(), parent_id.val(), is_loop.val()),
{
    let elems = [block_id, parent_id, is_loop];
    let r = ch.encode(BLOCK_STACK_TABLE, &elems);
    assert(vals(elems@) =~= seq![block_id.val(), parent_id.val(), is_loop.val()]);
    r
}

/// Encodes `[block_id, parent_id, is_loop, ctx, depth, overflow, fn_hash[0..4]]` on the block
/// stack table.
fn encode_bst_full(
    ch: &Challenges,
    block_id: Felt,
    parent_id: Felt,
    is_loop: Felt,
    ctx: Felt,
    depth: Felt,
    overflow: Felt,
    fh: [Felt; 4],
) -> (r: QuadFeltExpr<Felt>)
    requires
        challenges_fit(*ch),
    ensures
        q(r) == bst_full(
            *ch,
            block_id.val(),
            parent_id.val(),
            is_loop.val(),
            ctx.val(),
            depth.val(),
            overflow.val(),
            vals(fh@),
        ),
{
    let elems = [block_id, parent_id, is_loop, ctx, depth, overflow, fh[0], fh[1], fh[2], fh[3]];
    let r = ch.encode(BLOCK_STACK_TABLE, &elems);
    assert(vals(elems@) =~= seq![
        block_id.val(),
        parent_id.val(),
        is_loop.val(),
        ctx.val(),
        depth.val(),
        overflow.val(),
        vals(fh@)[0],
        vals(fh@)[1],
        vals(fh@)[2],
        vals(fh@)[3],
    ]);
    r
}

/// Encodes `[parent_id, hash[0..4], is_first_child, is_loop_body]` on the block hash table.
fn encode_bht(
    ch: &Challenges,
    parent: Felt,
    hash: [Felt; 4],
    first_child: Felt,
    loop_body: Felt,
) -> (r: QuadFeltExpr<Felt>)
    requires
        challenges_fit(*ch),
    ensures
        q(r) == bht_msg(
            *ch,
            parent.val(),
            (hash[0].val(), hash[1].val(), hash[2].val(), hash[3].val()),
            first_child.val(),
            loop_body.val(),
        ),
{
    let elems = [parent, hash[0], hash[1], hash[2], hash[3], first_child, loop_body];
    let r = ch.encode(BLOCK_HASH_TABLE, &elems);
    assert(vals(elems@) =~= seq![
        parent.val(),
        hash[0].val(),
        hash[1].val(),
        hash[2].val(),
        hash[3].val(),
        first_child.val(),
        loop_body.val(),
    ]);
    r
}

/// Encodes `[block_id, group_count, op_value]` on the op group table.
fn encode_ogt(ch: &Challenges, block_id: Felt, group_count: Felt, value: Felt) -> (r: QuadFeltExpr<Felt>)
    requires
        challenges_fit(*ch),
    ensures
        q(r) == ogt_msg(*ch, block_id.val(), group_count.val(), value.val()),
{
    let elems = [block_id, group_count, value];
    let r = ch.encode(OP_GROUP_TABLE, &elems);
    assert(vals(elems@) =~= seq![block_id.val(), group_count.val(), value.val()]);
    r
}

// ENTRY POINTS
// ================================================================================================

/// Enforces all decoder bus constraints (p1, p2, p3).
pub fn enforce_bus(
    builder: &mut ConstraintEvaluator,
    local: &MainCols<Felt>,
    next: &MainCols<Felt>,
    op_flags: &OpFlags,
    challenges: &Challenges,
)
    requires
        has_aux(*old(builder)),
        challenges_fit(*challenges),
    ensures
        final(builder).periodic == old(builder).periodic,
        final(builder).is_transition == old(builder).is_transition,
        final(builder).is_first_row == old(builder).is_first_row,
        final(builder).is_last_row == old(builder).is_last_row,
        final(builder).aux == old(builder).aux,
        final(builder).aux_next == old(builder).aux_next,
        final(builder).values() == old(builder).values() + running_product_values(
            *old(builder),
            P1_BLOCK_STACK as int,
            block_stack_request(*local, *next, *op_flags, *challenges),
            block_stack_response(*local, *next, *op_flags, *challenges),
        ) + running_product_values(
            *old(builder),
            P2_BLOCK_HASH as int,
            block_hash_request(*local, *next, *op_flags, *challenges),
            block_hash_response(*local, *next, *op_flags, *challenges),
        ) + running_product_values(
            *old(builder),
            P3_OP_GROUP as int,
            op_group_request(*local, *next, *op_flags, *challenges),
            op_group_response(*local, *next, *challenges),
        ),
{
    enforce_block_stack_table_constraint(builder, local, next, op_flags, challenges);
    enforce_block_hash_table_constraint(builder, local, next, op_flags, challenges);
    enforce_op_group_table_constraint(builder, local, next, op_flags, challenges);
}

/// Enforces the block stack table (p1) bus constraint.
///
/// The block stack table tracks block nesting state. Entries are added when blocks start
/// and removed when blocks end or transition (RESPAN).
///
/// Context fields are populated as follows:
/// - JOIN/SPLIT/SPAN/DYN/RESPAN: ctx/depth/overflow/fn_hash are zero and is_loop = 0.
/// - LOOP: is_loop = s0 (other context fields still zero).
/// - CALL/SYSCALL: ctx/system_ctx, depth=stack_b0, overflow=stack_b1, fn_hash[0..3].
/// - DYNCALL: ctx/system_ctx, depth=h4, overflow=h5, fn_hash[0..3].
///
/// ```text
/// p1' * (u_end + u_respan + 1 - (f_end + f_respan)) =
/// p1 * (v_join + v_split + v_loop + v_span + v_respan + v_dyn + v_dyncall + v_call + v_syscall
///       + 1 - (f_join + f_split + f_loop + f_span + f_respan + f_dyn + f_dyncall + f_call + f_syscall))
/// ```
#[verifier::rlimit(40)]
pub fn enforce_block_stack_table_constraint(
    builder: &mut ConstraintEvaluator,
    local: &MainCols<Felt>,
    next: &MainCols<Felt>,
    op_flags: &OpFlags,
    challenges: &Challenges,
)
    requires
        has_aux(*old(builder)),
        challenges_fit(*challenges),
    ensures
        final(builder).periodic == old(builder).periodic,
        final(builder).is_transition == old(builder).is_transition,
        final(builder).is_first_row == old(builder).is_first_row,
        final(builder).is_last_row == old(builder).is_last_row,
        final(builder).aux == old(builder).aux,
        final(builder).aux_next == old(builder).aux_next,
        final(builder).values() == old(builder).values() + running_product_values(
            *old(builder),
            P1_BLOCK_STACK as int,
            block_stack_request(*local, *next, *op_flags, *challenges),
            block_stack_response(*local, *next, *op_flags, *challenges),
        ),
{
    let p1_local = builder.aux[P1_BLOCK_STACK];
    let p1_next = builder.aux_next[P1_BLOCK_STACK];

    // Block addresses
    let addr_local = local.decoder.addr;
    let addr_next = next.decoder.addr;
    // Hasher state element 1 (for RESPAN parent_id)
    let h1_next = next.decoder.hasher_state[1];
    // Stack top (for LOOP is_loop condition)
    let s0 = local.stack.top[0];
    // Context info for CALL/SYSCALL/DYNCALL insertions (from current row)
    let ctx_local = local.system.ctx;
    let b0_local = local.stack.b0;
    let b1_local = local.stack.b1;
    let fn_hash_local = local.system.fn_hash;
    // Hasher state for DYNCALL (h4, h5 contain post-shift stack state)
    let h4_local = local.decoder.hasher_state[4];
    let h5_local = local.decoder.hasher_state[5];
    // Flags for END context detection
    let is_loop_flag = local.decoder.hasher_state[5];
    let is_call_flag = local.decoder.hasher_state[6];
    let is_syscall_flag = local.decoder.hasher_state[7];
    // Context info for END after CALL/SYSCALL (from next row)
    let ctx_next = next.system.ctx;
    let b0_next = next.stack.b0;
    let b1_next = next.stack.b1;
    let fn_hash_next = next.system.fn_hash;

    let zero = Felt::zero();
    let is_join = op_flags.op_flag(opcodes::JOIN);
    let is_split = op_flags.op_flag(opcodes::SPLIT);
    let is_span = op_flags.op_flag(opcodes::SPAN);
    let is_dyn = op_flags.op_flag(opcodes::DYN);
    let is_loop = op_flags.op_flag(opcodes::LOOP);
    let is_respan = op_flags.op_flag(opcodes::RESPAN);
    let is_call = op_flags.op_flag(opcodes::CALL);
    let is_syscall = op_flags.op_flag(opcodes::SYSCALL);
    let is_dyncall = op_flags.op_flag(opcodes::DYNCALL);
    let is_end = op_flags.op_flag(opcodes::END);

    // JOIN/SPLIT/SPAN/DYN: insert(addr', addr, 0, 0, 0, 0, 0, 0, 0, 0)
    let msg_simple = encode_bst_simple(challenges, addr_next, addr_local, zero);
    let v_join = msg_simple.mul_base(is_join);
    let v_split = msg_simple.mul_base(is_split);
    let v_span = msg_simple.mul_base(is_span);
    let v_dyn = msg_simple.mul_base(is_dyn);
    // LOOP: insert(addr', addr, s0, 0, 0, 0, 0, 0, 0, 0)
    let msg_loop = encode_bst_simple(challenges, addr_next, addr_local, s0);
    let v_loop = msg_loop.mul_base(is_loop);
    // RESPAN: insert(addr', h1', 0, 0, 0, 0, 0, 0, 0, 0)
    let msg_respan_insert = encode_bst_simple(challenges, addr_next, h1_next, zero);
    let v_respan = msg_respan_insert.mul_base(is_respan);
    // CALL/SYSCALL: insert(addr', addr, 0, ctx, b0, b1, fn_hash[0..4])
    let msg_call = encode_bst_full(
        challenges, addr_next, addr_local, zero, ctx_local, b0_local, b1_local, fn_hash_local);
    let v_call = msg_call.mul_base(is_call);
    let v_syscall = msg_call.mul_base(is_syscall);
    // DYNCALL: insert(addr', addr, 0, ctx, h4, h5, fn_hash[0..4])
    let msg_dyncall = encode_bst_full(
        challenges, addr_next, addr_local, zero, ctx_local, h4_local, h5_local, fn_hash_local);
    let v_dyncall = msg_dyncall.mul_base(is_dyncall);

    let insert_flag_sum = is_join.add(is_split).add(is_span).add(is_dyn).add(is_loop).add(
        is_respan).add(is_call).add(is_syscall).add(is_dyncall);
    let insertion_sum = v_join.add(v_split).add(v_span).add(v_dyn).add(v_loop).add(v_respan).add(
        v_call).add(v_syscall).add(v_dyncall);
    // Response side: insertion_sum + (1 - insert_flag_sum)
    let response = insertion_sum.add_base(insert_flag_sum.not());

    // RESPAN removal: remove(addr, h1', 0, 0, 0, 0, 0, 0, 0, 0)
    let msg_respan_remove = encode_bst_simple(challenges, addr_local, h1_next, zero);
    let u_respan = msg_respan_remove.mul_base(is_respan);
    // END for simple blocks: remove(addr, addr', is_loop_flag, 0, 0, 0, 0, 0, 0, 0)
    let is_simple_end = Felt::one().sub(is_call_flag).sub(is_syscall_flag);
    let msg_end_simple = encode_bst_simple(challenges, addr_local, addr_next, is_loop_flag);
    let end_simple_gate = is_end.mul(is_simple_end);
    let u_end_simple = msg_end_simple.mul_base(end_simple_gate);
    // END for CALL/SYSCALL: remove(addr, addr', is_loop_flag, ctx', b0', b1', fn_hash'[0..4])
    let is_call_or_syscall = is_call_flag.add(is_syscall_flag);
    let msg_end_call = encode_bst_full(
        challenges, addr_local, addr_next, is_loop_flag, ctx_next, b0_next, b1_next, fn_hash_next);
    let end_call_gate = is_end.mul(is_call_or_syscall);
    let u_end_call = msg_end_call.mul_base(end_call_gate);
    let u_end = u_end_simple.add(u_end_call);
    let remove_flag_sum = is_end.add(is_respan);
    let removal_sum = u_end.add(u_respan);
    // Request side: removal_sum + (1 - remove_flag_sum)
    let request = removal_sum.add_base(remove_flag_sum.not());

    // p1' * request = p1 * response
    let lhs = p1_next.mul(request);
    let rhs = p1_local.mul(response);
    let t = builder.is_transition;
    builder.assert_eq_ext_when(t, lhs, rhs);
}

/// Enforces the block hash table (p2) bus constraint.
///
/// The block hash table tracks blocks awaiting execution.
///
/// Message layout: `[parent_id, hash[0..3], is_first_child, is_loop_body]`.
/// - JOIN: inserts two children (left and right halves of the hasher state).
/// - SPLIT: inserts one child selected by s0 (left if s0=1, right if s0=0).
/// - LOOP/REPEAT: inserts loop body hash with is_loop_body = 1.
/// - DYN/DYNCALL/CALL/SYSCALL: insert the single child hash from h0..h3.
/// - END: removes the parent hash from h0..h3 using is_first_child/is_loop_body.
///
/// ```text
/// p2' * request = p2 * response
/// request = f_end * msg_end + (1 - f_end)
/// ```
#[verifier::rlimit(40)]
pub fn enforce_block_hash_table_constraint(
    builder: &mut ConstraintEvaluator,
    local: &MainCols<Felt>,
    next: &MainCols<Felt>,
    op_flags: &OpFlags,
    challenges: &Challenges,
)
    requires
        has_aux(*old(builder)),
        challenges_fit(*challenges),
    ensures
        final(builder).periodic == old(builder).periodic,
        final(builder).is_transition == old(builder).is_transition,
        final(builder).is_first_row == old(builder).is_first_row,
        final(builder).is_last_row == old(builder).is_last_row,
        final(builder).aux == old(builder).aux,
        final(builder).aux_next == old(builder).aux_next,
        final(builder).values() == old(builder).values() + running_product_values(
            *old(builder),
            P2_BLOCK_HASH as int,
            block_hash_request(*local, *next, *op_flags, *challenges),
            block_hash_response(*local, *next, *op_flags, *challenges),
        ),
{
    let p2_local = builder.aux[P2_BLOCK_HASH];
    let p2_next = builder.aux_next[P2_BLOCK_HASH];

    // Parent block ID (next row's address for all insertions)
    let parent_id = next.decoder.addr;
    let h = local.decoder.hasher_state;
    let left = [h[0], h[1], h[2], h[3]];
    let right = [h[4], h[5], h[6], h[7]];
    // Stack top (for SPLIT and LOOP conditions)
    let s0 = local.stack.top[0];
    // is_loop_body flag for END (stored at hasher_state[4])
    let is_loop_body_flag = h[4];
    // A block is a first child unless the next operation is END, REPEAT or HALT.
    let is_not_first_child = op_flags.end_next().add(op_flags.repeat_next()).add(op_flags.halt_next());
    let is_first_child = is_not_first_child.not();

    let zero = Felt::zero();
    let one = Felt::one();
    let is_join = op_flags.op_flag(opcodes::JOIN);
    let is_split = op_flags.op_flag(opcodes::SPLIT);
    let is_loop = op_flags.op_flag(opcodes::LOOP);
    let is_repeat = op_flags.op_flag(opcodes::REPEAT);
    let is_dyn = op_flags.op_flag(opcodes::DYN);
    let is_dyncall = op_flags.op_flag(opcodes::DYNCALL);
    let is_call = op_flags.op_flag(opcodes::CALL);
    let is_syscall = op_flags.op_flag(opcodes::SYSCALL);
    let is_end = op_flags.op_flag(opcodes::END);

    // JOIN: Insert both children
    let msg_join_left = encode_bht(challenges, parent_id, left, one, zero);
    let msg_join_right = encode_bht(challenges, parent_id, right, zero, zero);
    let v_join = msg_join_left.mul(msg_join_right).mul_base(is_join);

    // SPLIT: Insert selected child based on s0
    let not_s0 = s0.not();
    let split = [
        s0.mul(h[0]).add(not_s0.mul(h[4])),
        s0.mul(h[1]).add(not_s0.mul(h[5])),
        s0.mul(h[2]).add(not_s0.mul(h[6])),
        s0.mul(h[3]).add(not_s0.mul(h[7])),
    ];
    let msg_split = encode_bht(challenges, parent_id, split, zero, zero);
    let v_split = msg_split.mul_base(is_split);

    // LOOP: Conditionally insert body if s0=1
    let msg_loop = encode_bht(challenges, parent_id, left, zero, one);
    let ef_one = QuadFeltExpr::new(one, zero);
    let v_loop = msg_loop.mul_base(s0).add(ef_one.sub(QuadFeltExpr::new(s0, zero))).mul_base(
        is_loop,
    );
    // REPEAT: Insert loop body
    let msg_repeat = encode_bht(challenges, parent_id, left, zero, one);
    let v_repeat = msg_repeat.mul_base(is_repeat);
    // DYN/DYNCALL/CALL/SYSCALL: Insert child hash from first half
    let msg_call_like = encode_bht(challenges, parent_id, left, zero, zero);
    let v_dyn = msg_call_like.mul_base(is_dyn);
    let v_dyncall = msg_call_like.mul_base(is_dyncall);
    let v_call = msg_call_like.mul_base(is_call);
    let v_syscall = msg_call_like.mul_base(is_syscall);

    let insert_flag_sum = is_join.add(is_split).add(is_loop).add(is_repeat).add(is_dyn).add(
        is_dyncall).add(is_call).add(is_syscall);
    let response = v_join.add(v_split).add(v_loop).add(v_repeat).add(v_dyn).add(v_dyncall).add(
        v_call).add(v_syscall).add_base(insert_flag_sum.not());

    // END: Remove the block
    let msg_end = encode_bht(challenges, parent_id, left, is_first_child, is_loop_body_flag);
    let u_end = msg_end.mul_base(is_end);
    let request = u_end.add_base(is_end.not());

    // p2' * request = p2 * response
    let lhs = p2_next.mul(request);
    let rhs = p2_local.mul(response);
    let t = builder.is_transition;
    builder.assert_eq_ext_when(t, lhs, rhs);
}

/// Enforces the op group table (p3) bus constraint.
///
/// The op group table tracks operation groups within span blocks. Groups are added
/// when entering a span and removed as operations are executed.
///
/// Message layout: `[block_id, group_count, op_value]`.
/// - Inserts happen on SPAN/RESPAN. Batch flags choose how many groups are emitted: g1 emits none,
///   g2 emits h1, g4 emits h1..h3, g8 emits h1..h7.
/// - Removals happen when group_count decrements inside a span (sp=1, gc' < gc). The removed
///   op_value is h0' * 128 + opcode' for non-PUSH, or s0' for PUSH.
///
/// ```text
/// p3' * (f_dg * u + 1 - f_dg) = p3 * (f_g1 + f_g2 * v_1 + f_g4 * prod(v_1..3) + f_g8 * prod(v_1..7)
///                                    + 1 - (f_span + f_respan))
/// ```
///
/// The rest term omits the explicit `f_span`/`f_respan` gating: the decoder constraints make all
/// batch flags zero outside SPAN/RESPAN rows.
#[verifier::rlimit(60)]
pub fn enforce_op_group_table_constraint(
    builder: &mut ConstraintEvaluator,
    local: &MainCols<Felt>,
    next: &MainCols<Felt>,
    op_flags: &OpFlags,
    challenges: &Challenges,
)
    requires
        has_aux(*old(builder)),
        challenges_fit(*challenges),
    ensures
        final(builder).periodic == old(builder).periodic,
        final(builder).is_transition == old(builder).is_transition,
        final(builder).is_first_row == old(builder).is_first_row,
        final(builder).is_last_row == old(builder).is_last_row,
        final(builder).aux == old(builder).aux,
        final(builder).aux_next == old(builder).aux_next,
        final(builder).values() == old(builder).values() + running_product_values(
            *old(builder),
            P3_OP_GROUP as int,
            op_group_request(*local, *next, *op_flags, *challenges),
            op_group_response(*local, *next, *challenges),
        ),
{
    let p3_local = builder.aux[P3_OP_GROUP];
    let p3_next = builder.aux_next[P3_OP_GROUP];

    // Block ID (next row's address for insertions, current for removals)
    let block_id_insert = next.decoder.addr;
    let block_id_remove = local.decoder.addr;
    let gc = local.decoder.group_count;
    let gc_next = next.decoder.group_count;
    let h = local.decoder.hasher_state;
    let c0 = local.decoder.batch_flags[0];
    let c1 = local.decoder.batch_flags[1];
    let c2 = local.decoder.batch_flags[2];
    // For removal: h0' and s0' from next row
    let h0_next = next.decoder.hasher_state[0];
    let s0_next = next.stack.top[0];
    let sp = local.decoder.in_span;

    let is_push = op_flags.op_flag(opcodes::PUSH);

    // OP_BATCH_8_GROUPS = [1, 0, 0] -> f_g8 = c0
    // OP_BATCH_4_GROUPS = [0, 1, 0] -> f_g4 = (1-c0) * c1 * (1-c2)
    // OP_BATCH_2_GROUPS = [0, 0, 1] -> f_g2 = (1-c0) * (1-c1) * c2
    let f_g8 = c0;
    let not_c0 = c0.not();
    let f_g4 = not_c0.mul(c1).mul(c2.not());
    let f_g2 = not_c0.mul(c1.not()).mul(c2);

    // v_i = msg(block_id', gc - i, h_i)
    let v_1 = encode_ogt(challenges, block_id_insert, gc.sub(Felt::from_u8(1)), h[1]);
    let v_2 = encode_ogt(challenges, block_id_insert, gc.sub(Felt::from_u8(2)), h[2]);
    let v_3 = encode_ogt(challenges, block_id_insert, gc.sub(Felt::from_u8(3)), h[3]);
    let v_4 = encode_ogt(challenges, block_id_insert, gc.sub(Felt::from_u8(4)), h[4]);
    let v_5 = encode_ogt(challenges, block_id_insert, gc.sub(Felt::from_u8(5)), h[5]);
    let v_6 = encode_ogt(challenges, block_id_insert, gc.sub(Felt::from_u8(6)), h[6]);
    let v_7 = encode_ogt(challenges, block_id_insert, gc.sub(Felt::from_u8(7)), h[7]);

    let prod_3 = v_1.mul(v_2).mul(v_3);
    let prod_7 = v_1.mul(v_2).mul(v_3).mul(v_4).mul(v_5).mul(v_6).mul(v_7);

    let ef_one = QuadFeltExpr::new(Felt::one(), Felt::zero());
    let flag_sum = f_g2.add(f_g4).add(f_g8);
    let response = v_1.mul_base(f_g2).add(prod_3.mul_base(f_g4)).add(prod_7.mul_base(f_g8)).add(
        ef_one.sub(QuadFeltExpr::new(flag_sum, Felt::zero())),
    );

    // f_dg = sp * (gc - gc'): non-zero when inside a span and the group count decreased
    let f_dg = sp.mul(gc.sub(gc_next));

    // op_code' = b0' + 2*b1' + ... + 64*b6'
    let mut op_code_next = Felt::zero();
    assert(OP_BIT_WEIGHTS@ =~= seq![1u16, 2, 4, 8, 16, 32, 64]);
    let mut i: usize = 0;
    while i < 7
        invariant
            i <= 7,
            op_code_next.val() == opcode_value(*next, i as int),
            OP_BIT_WEIGHTS@ == seq![1u16, 2, 4, 8, 16, 32, 64],
        decreases 7 - i,
    {
        let bit = next.decoder.op_bits[i];
        op_code_next = op_code_next.add(bit.mul(Felt::from_u16(OP_BIT_WEIGHTS[i])));
        i = i + 1;
    }

    // u = (h0' * 128 + op_code') * (1 - is_push) + s0' * is_push
    let group_value_non_push = h0_next.mul(Felt::from_u8(128)).add(op_code_next);
    let group_value = is_push.mul(s0_next).add(is_push.not().mul(group_value_non_push));
    let u = encode_ogt(challenges, block_id_remove, gc, group_value);
    // Request formula: f_dg * u + (1 - f_dg)
    let request = u.mul_base(f_dg).add_base(f_dg.not());

    // p3' * request = p3 * response
    let lhs = p3_next.mul(request);
    let rhs = p3_local.mul(response);
    let t = builder.is_transition;
    builder.assert_eq_ext_when(t, lhs, rhs);
}

// LAWS
// ================================================================================================

/// Multiplying a running product by the identity leaves it unchanged: `x * 1 = x`.
pub proof fn lemma_q_mul_one(x: QuadFeltExpr<Felt>)
    ensures
        q_mul(q(x), (1, 0)) == q(x),
{
    x.0.lemma_val_range();
    x.1.lemma_val_range();
    vstd::arithmetic::div_mod::lemma_small_mod(x.0.val() as nat, crate::field::p() as nat);
    vstd::arithmetic::div_mod::lemma_small_mod(x.1.val() as nat, crate::field::p() as nat);
}

/// With both sides of the running product equal to the identity, the constraint of aux
/// column `col` says that the column keeps its value: `t * (p' - p) = 0`.
pub proof fn lemma_identity_sides(builder: ConstraintEvaluator, col: int)
    requires
        0 <= col < builder.aux.len(),
        0 <= col < builder.aux_next.len(),
    ensures
        running_product_values(builder, col, (1, 0), (1, 0)) == q_eq_values(
            builder.is_transition.val(),
            q(builder.aux_next@[col]),
            q(builder.aux@[col]),
        ),
{
    lemma_q_mul_one(builder.aux_next@[col]);
    lemma_q_mul_one(builder.aux@[col]);
}

/// Rows that touch no decoder table keep the three running products: when none of the
/// control-flow operations that insert into or remove from the block stack and block hash
/// tables is executed, no batch flag is set and the group count does not drop inside a span,
/// each table's constraint reduces to `t * (p' - p) = 0`.
pub proof fn lemma_idle_row_keeps_decoder_tables(
    builder: ConstraintEvaluator,
    l: MainCols<Felt>,
    n: MainCols<Felt>,
    f: OpFlags,
    ch: Challenges,
)
    requires
        has_aux(builder),
        opf(f, opcodes::JOIN) == 0,
        opf(f, opcodes::SPLIT) == 0,
        opf(f, opcodes::SPAN) == 0,
        opf(f, opcodes::DYN) == 0,
        opf(f, opcodes::LOOP) == 0,
        opf(f, opcodes::RESPAN) == 0,
        opf(f, opcodes::CALL) == 0,
        opf(f, opcodes::SYSCALL) == 0,
        opf(f, opcodes::DYNCALL) == 0,
        opf(f, opcodes::REPEAT) == 0,
        opf(f, opcodes::END) == 0,
        l.decoder.batch_flags[0].val() == 0,
        l.decoder.batch_flags[1].val() == 0,
        l.decoder.batch_flags[2].val() == 0,
        fmul(l.decoder.in_span.val(), fsub(l.decoder.group_count.val(), n.decoder.group_count.val()))
            == 0,
    ensures
        running_product_values(
            builder,
            P1_BLOCK_STACK as int,
            block_stack_request(l, n, f, ch),
            block_stack_response(l, n, f, ch),
        ) == q_eq_values(
            builder.is_transition.val(),
            q(builder.aux_next@[P1_BLOCK_STACK as int]),
            q(builder.aux@[P1_BLOCK_STACK as int]),
        ),
        running_product_values(
            builder,
            P2_BLOCK_HASH as int,
            block_hash_request(l, n, f, ch),
            block_hash_response(l, n, f, ch),
        ) == q_eq_values(
            builder.is_transition.val(),
            q(builder.aux_next@[P2_BLOCK_HASH as int]),
            q(builder.aux@[P2_BLOCK_HASH as int]),
        ),
        running_product_values(
            builder,
            P3_OP_GROUP as int,
            op_group_request(l, n, f, ch),
            op_group_response(l, n, ch),
        ) == q_eq_values(
            builder.is_transition.val(),
            q(builder.aux_next@[P3_OP_GROUP as int]),
            q(builder.aux@[P3_OP_GROUP as int]),
        ),
{
    vstd::arithmetic::div_mod::lemma_small_mod(0, crate::field::p() as nat);
    vstd::arithmetic::div_mod::lemma_small_mod(1, crate::field::p() as nat);
    assert(fsub(1, 0) == 1 && fadd(0, 0) == 0 && fsub(0, 0) == 0 && fadd(0, 1) == 1);
    assert(block_stack_request(l, n, f, ch) == (1int, 0int));
    assert(block_stack_response(l, n, f, ch) == (1int, 0int));
    assert(block_hash_request(l, n, f, ch) == (1int, 0int));
    assert(block_hash_response(l, n, f, ch) == (1int, 0int));
    assert(op_group_request(l, n, f, ch) == (1int, 0int));
    assert(op_group_response(l, n, ch) == (1int, 0int));
    lemma_identity_sides(builder, P1_BLOCK_STACK as int);
    lemma_identity_sides(builder, P2_BLOCK_HASH as int);
    lemma_identity_sides(builder, P3_OP_GROUP as int);
}

/// `x * 0 = (0, 0)`, `x * 1 = x` and `(0, 0) + x = x` for an extension element of residues.
proof fn lemma_q_unit_facts(x: (int, int))
    requires
        0 <= x.0 < crate::field::p(),
        0 <= x.1 < crate::field::p(),
    ensures
        q_scale(x, 0) == (0int, 0int),
        q_scale(x, 1) == x,
        q_add((0int, 0int), x) == x,
        q_add(x, (0int, 0int)) == x,
        q_add_base(x, 0) == x,
{
    vstd::arithmetic::div_mod::lemma_small_mod(0, crate::field::p() as nat);
    vstd::arithmetic::div_mod::lemma_small_mod(x.0 as nat, crate::field::p() as nat);
    vstd::arithmetic::div_mod::lemma_small_mod(x.1 as nat, crate::field::p() as nat);
}

/// With a binary selector, `select` picks its first value for 1 and its second for 0.
proof fn lemma_select_binary(s: int, a: int, b: int)
    requires
        s == 0 || s == 1,
        0 <= a < crate::field::p(),
        0 <= b < crate::field::p(),
    ensures
        select(s, a, b) == (if s == 1 { a } else { b }),
{
    vstd::arithmetic::div_mod::lemma_small_mod(0, crate::field::p() as nat);
    vstd::arithmetic::div_mod::lemma_small_mod(1, crate::field::p() as nat);
    vstd::arithmetic::div_mod::lemma_small_mod(a as nat, crate::field::p() as nat);
    vstd::arithmetic::div_mod::lemma_small_mod(b as nat, crate::field::p() as nat);
    if s == 1 {
        assert(fsub(1, s) == 0);
        assert(fmul(s, a) == a && fmul(0, b) == 0);
    } else {
        assert(fsub(1, s) == 1);
        assert(fmul(s, a) == 0 && fmul(1, b) == b);
    }
}

/// SPLIT queues the branch that its condition selects: on a row whose only block-hash
/// insertion flag is SPLIT, with a binary condition `s0`, the block hash table receives
/// the message `[addr', h0, h1, h2, h3, 0, 0]` (the true branch) when `s0 = 1`, and
/// `[addr', h4, h5, h6, h7, 0, 0]` (the false branch) when `s0 = 0`.
pub proof fn lemma_split_queues_selected_branch(
    l: MainCols<Felt>,
    n: MainCols<Felt>,
    f: OpFlags,
    ch: Challenges,
)
    requires
        opf(f, opcodes::SPLIT) == 1,
        opf(f, opcodes::JOIN) == 0,
        opf(f, opcodes::LOOP) == 0,
        opf(f, opcodes::REPEAT) == 0,
        opf(f, opcodes::DYN) == 0,
        opf(f, opcodes::DYNCALL) == 0,
        opf(f, opcodes::CALL) == 0,
        opf(f, opcodes::SYSCALL) == 0,
        l.stack.top[0].val() == 0 || l.stack.top[0].val() == 1,
    ensures
        block_hash_response(l, n, f, ch) == (if l.stack.top[0].val() == 1 {
            ch.msg(
                BLOCK_HASH_TABLE as int,
                seq![n.decoder.addr.val(), hs(l, 0), hs(l, 1), hs(l, 2), hs(l, 3), 0, 0],
            )
        } else {
            ch.msg(
                BLOCK_HASH_TABLE as int,
                seq![n.decoder.addr.val(), hs(l, 4), hs(l, 5), hs(l, 6), hs(l, 7), 0, 0],
            )
        }),
{
    let s0 = l.stack.top[0].val();
    let parent = n.decoder.addr.val();
    let left = first_half(l);
    let right = second_half(l);
    vstd::arithmetic::div_mod::lemma_small_mod(0, crate::field::p() as nat);
    vstd::arithmetic::div_mod::lemma_small_mod(1, crate::field::p() as nat);
    assert forall|i: int| 0 <= i < 8 implies 0 <= #[trigger] hs(l, i) < crate::field::p() by {
        l.decoder.hasher_state[i].lemma_val_range();
    }
    lemma_select_binary(s0, hs(l, 0), hs(l, 4));
    lemma_select_binary(s0, hs(l, 1), hs(l, 5));
    lemma_select_binary(s0, hs(l, 2), hs(l, 6));
    lemma_select_binary(s0, hs(l, 3), hs(l, 7));
    assert(select(s0, hs(l, 0), hs(l, 4)) == (if s0 == 1 { hs(l, 0) } else { hs(l, 4) }));
    assert(select(s0, hs(l, 1), hs(l, 5)) == (if s0 == 1 { hs(l, 1) } else { hs(l, 5) }));
    assert(select(s0, hs(l, 2), hs(l, 6)) == (if s0 == 1 { hs(l, 2) } else { hs(l, 6) }));
    assert(select(s0, hs(l, 3), hs(l, 7)) == (if s0 == 1 { hs(l, 3) } else { hs(l, 7) }));
    let split = (
        select(s0, left.0, right.0),
        select(s0, left.1, right.1),
        select(s0, left.2, right.2),
        select(s0, left.3, right.3),
    );
    let msg_left = bht_msg(ch, parent, left, 1, 0);
    let msg_right = bht_msg(ch, parent, right, 0, 0);
    let msg_split = bht_msg(ch, parent, split, 0, 0);
    let msg_loop = bht_msg(ch, parent, left, 0, 1);
    let msg_call_like = bht_msg(ch, parent, left, 0, 0);
    let joined = q_mul(msg_left, msg_right);
    let v_loop_inner = q_add(q_scale(msg_loop, s0), q_sub(q_one(), (s0, 0)));
    lemma_msg_in_range(ch, BLOCK_HASH_TABLE as int, seq![parent, split.0, split.1, split.2, split.3, 0, 0]);
    lemma_msg_in_range(ch, BLOCK_HASH_TABLE as int, seq![parent, left.0, left.1, left.2, left.3, 0, 1]);
    lemma_msg_in_range(ch, BLOCK_HASH_TABLE as int, seq![parent, left.0, left.1, left.2, left.3, 0, 0]);
    vstd::arithmetic::div_mod::lemma_mod_bound(joined.0, crate::field::p());
    lemma_q_unit_facts(msg_split);
    lemma_q_unit_facts(msg_loop);
    lemma_q_unit_facts(msg_call_like);
    assert(q_scale(joined, 0) == (0int, 0int));
    assert(q_scale(v_loop_inner, 0) == (0int, 0int));
    assert(fsub(1, 1) == 0);
    assert(msg_split == (if s0 == 1 {
        ch.msg(BLOCK_HASH_TABLE as int, seq![parent, hs(l, 0), hs(l, 1), hs(l, 2), hs(l, 3), 0, 0])
    } else {
        ch.msg(BLOCK_HASH_TABLE as int, seq![parent, hs(l, 4), hs(l, 5), hs(l, 6), hs(l, 7), 0, 0])
    }));
}

/// JOIN queues both children: on a row whose only block-hash insertion flag is JOIN, the
/// block hash table receives `[addr', h0, h1, h2, h3, 1, 0]` (the left child, marked as the
/// first child) and `[addr', h4, h5, h6, h7, 0, 0]` (the right child), as the product of
/// their messages.
pub proof fn lemma_join_queues_both_children(
    l: MainCols<Felt>,
    n: MainCols<Felt>,
    f: OpFlags,
    ch: Challenges,
)
    requires
        opf(f, opcodes::JOIN) == 1,
        opf(f, opcodes::SPLIT) == 0,
        opf(f, opcodes::LOOP) == 0,
        opf(f, opcodes::REPEAT) == 0,
        opf(f, opcodes::DYN) == 0,
        opf(f, opcodes::DYNCALL) == 0,
        opf(f, opcodes::CALL) == 0,
        opf(f, opcodes::SYSCALL) == 0,
    ensures
        block_hash_response(l, n, f, ch) == q_mul(
            ch.msg(
                BLOCK_HASH_TABLE as int,
                seq![n.decoder.addr.val(), hs(l, 0), hs(l, 1), hs(l, 2), hs(l, 3), 1, 0],
            ),
            ch.msg(
                BLOCK_HASH_TABLE as int,
                seq![n.decoder.addr.val(), hs(l, 4), hs(l, 5), hs(l, 6), hs(l, 7), 0, 0],
            ),
        ),
{
    let s0 = l.stack.top[0].val();
    let parent = n.decoder.addr.val();
    let left = first_half(l);
    let right = second_half(l);
    let split = (
        select(s0, left.0, right.0),
        select(s0, left.1, right.1),
        select(s0, left.2, right.2),
        select(s0, left.3, right.3),
    );
    let msg_left = bht_msg(ch, parent, left, 1, 0);
    let msg_right = bht_msg(ch, parent, right, 0, 0);
    let msg_split = bht_msg(ch, parent, split, 0, 0);
    let msg_loop = bht_msg(ch, parent, left, 0, 1);
    let msg_call_like = bht_msg(ch, parent, left, 0, 0);
    let joined = q_mul(msg_left, msg_right);
    let v_loop_inner = q_add(q_scale(msg_loop, s0), q_sub(q_one(), (s0, 0)));
    vstd::arithmetic::div_mod::lemma_small_mod(0, crate::field::p() as nat);
    vstd::arithmetic::div_mod::lemma_small_mod(1, crate::field::p() as nat);
    lemma_msg_in_range(ch, BLOCK_HASH_TABLE as int, seq![parent, split.0, split.1, split.2, split.3, 0, 0]);
    lemma_msg_in_range(ch, BLOCK_HASH_TABLE as int, seq![parent, left.0, left.1, left.2, left.3, 0, 1]);
    lemma_msg_in_range(ch, BLOCK_HASH_TABLE as int, seq![parent, left.0, left.1, left.2, left.3, 0, 0]);
    vstd::arithmetic::div_mod::lemma_mod_bound(joined.0, crate::field::p());
    vstd::arithmetic::div_mod::lemma_mod_bound(joined.1, crate::field::p());
    lemma_q_unit_facts(joined);
    lemma_q_unit_facts(msg_split);
    lemma_q_unit_facts(msg_loop);
    lemma_q_unit_facts(msg_call_like);
    vstd::arithmetic::div_mod::lemma_mod_bound(v_loop_inner.0, crate::field::p());
    assert(q_scale(v_loop_inner, 0) == (0int, 0int)) by {
        assert(v_loop_inner.0 * 0 == 0 && v_loop_inner.1 * 0 == 0) by (nonlinear_arith);
    }
    assert(fsub(1, 1) == 0);
}

/// LOOP enters its body only when the condition holds: on a row whose only block-hash
/// insertion flag is LOOP, with a binary condition `s0`, the block hash table receives
/// `[addr', h0, h1, h2, h3, 0, 1]` (the body, marked as a loop body) when `s0 = 1` and nothing
/// (the neutral factor `1`) when `s0 = 0`.
pub proof fn lemma_loop_queues_body_when_entered(
    l: MainCols<Felt>,
    n: MainCols<Felt>,
    f: OpFlags,
    ch: Challenges,
)
    requires
        opf(f, opcodes::LOOP) == 1,
        opf(f, opcodes::JOIN) == 0,
        opf(f, opcodes::SPLIT) == 0,
        opf(f, opcodes::REPEAT) == 0,
        opf(f, opcodes::DYN) == 0,
        opf(f, opcodes::DYNCALL) == 0,
        opf(f, opcodes::CALL) == 0,
        opf(f, opcodes::SYSCALL) == 0,
        l.stack.top[0].val() == 0 || l.stack.top[0].val() == 1,
    ensures
        block_hash_response(l, n, f, ch) == (if l.stack.top[0].val() == 1 {
            ch.msg(
                BLOCK_HASH_TABLE as int,
                seq![n.decoder.addr.val(), hs(l, 0), hs(l, 1), hs(l, 2), hs(l, 3), 0, 1],
            )
        } else {
            q_one()
        }),
{
    let s0 = l.stack.top[0].val();
    let parent = n.decoder.addr.val();
    let left = first_half(l);
    let right = second_half(l);
    let split = (
        select(s0, left.0, right.0),
        select(s0, left.1, right.1),
        select(s0, left.2, right.2),
        select(s0, left.3, right.3),
    );
    let msg_left = bht_msg(ch, parent, left, 1, 0);
    let msg_right = bht_msg(ch, parent, right, 0, 0);
    let msg_split = bht_msg(ch, parent, split, 0, 0);
    let msg_loop = bht_msg(ch, parent, left, 0, 1);
    let msg_call_like = bht_msg(ch, parent, left, 0, 0);
    let joined = q_mul(msg_left, msg_right);
    let v_loop_inner = q_add(q_scale(msg_loop, s0), q_sub(q_one(), (s0, 0)));
    vstd::arithmetic::div_mod::lemma_small_mod(0, crate::field::p() as nat);
    vstd::arithmetic::div_mod::lemma_small_mod(1, crate::field::p() as nat);
    lemma_msg_in_range(ch, BLOCK_HASH_TABLE as int, seq![parent, split.0, split.1, split.2, split.3, 0, 0]);
    lemma_msg_in_range(ch, BLOCK_HASH_TABLE as int, seq![parent, left.0, left.1, left.2, left.3, 0, 1]);
    lemma_msg_in_range(ch, BLOCK_HASH_TABLE as int, seq![parent, left.0, left.1, left.2, left.3, 0, 0]);
    vstd::arithmetic::div_mod::lemma_mod_bound(joined.0, crate::field::p());
    vstd::arithmetic::div_mod::lemma_mod_bound(joined.1, crate::field::p());
    lemma_q_unit_facts(joined);
    lemma_q_unit_facts(msg_split);
    lemma_q_unit_facts(msg_loop);
    lemma_q_unit_facts(msg_call_like);
    assert(fsub(1, 0) == 1 && fsub(0, 0) == 0 && fsub(1, 1) == 0 && fadd(0, 1) == 1);
    if s0 == 1 {
        assert(q_sub(q_one(), (s0, 0)) == (0int, 0int));
        assert(v_loop_inner == msg_loop);
    } else {
        assert(q_sub(q_one(), (s0, 0)) == q_one());
        assert(q_scale(msg_loop, s0) == (0int, 0int));
        assert(v_loop_inner == q_one());
        lemma_q_unit_facts(q_one());
    }
    lemma_q_unit_facts(v_loop_inner);
    assert(fadd(fadd(fadd(fadd(fadd(fadd(fadd(0, 0), 1), 0), 0), 0), 0), 0) == 1);
}

} // verus!
