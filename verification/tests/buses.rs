//! Bus (auxiliary trace) constraints on concrete windows.

use miden_air::constraints::chiplets::selectors::{ChipletFlags, ChipletSelectors};
use miden_air::constraints::columns::MainCols;
use miden_air::{
    NUM_PUBLIC_VALUES, ReductionError, air_public_values, kernel_digest_elements, kernel_proc_message,
    kernel_reduced_from_var_len, program_hash_message,
};
use miden_air::constraints::{enforce_bus_first_row, enforce_bus_last_row};
use miden_air::constraints::decoder::bus as decoder_bus;
use miden_air::constraints::evaluator::ConstraintEvaluator;
use miden_air::constraints::ext_field::QuadFeltExpr;
use miden_air::constraints::op_flags::{OpFlags, generate_test_row};
use miden_air::constraints::range::bus as range_bus;
use miden_air::constraints::stack::bus as stack_bus;
use miden_air::field::Felt;
use miden_air::operations::opcodes;
use miden_air::trace::bus_types::{
    BLOCK_HASH_TABLE, BLOCK_STACK_TABLE, CHIPLETS_BUS, NUM_BUS_TYPES, OP_GROUP_TABLE, RANGE_CHECK_BUS, STACK_OVERFLOW_TABLE,
};
use miden_air::trace::{AUX_TRACE_WIDTH, Challenges};

fn f(v: u64) -> Felt {
    Felt::new_unchecked(v)
}

fn qf(c0: u64, c1: u64) -> QuadFeltExpr<Felt> {
    QuadFeltExpr::new(f(c0), f(c1))
}

fn q_one() -> QuadFeltExpr<Felt> {
    qf(1, 0)
}

/// Challenges with distinct prefixes per bus and the powers of `beta = 3 + 5u`.
fn challenges() -> Challenges {
    let bus_prefix = (0..NUM_BUS_TYPES as u64).map(|b| qf(1000 + 17 * b, 29 + b)).collect();
    let beta = qf(3, 5);
    let mut beta_powers = vec![q_one()];
    for _ in 1..16 {
        let last = *beta_powers.last().unwrap();
        beta_powers.push(last.mul(beta));
    }
    Challenges { bus_prefix, beta_powers }
}

fn evaluator(aux: Vec<QuadFeltExpr<Felt>>, aux_next: Vec<QuadFeltExpr<Felt>>) -> ConstraintEvaluator {
    let mut ev = ConstraintEvaluator::new(Vec::new(), Felt::one(), Felt::zero(), Felt::zero());
    ev.set_permutation(aux, aux_next);
    ev
}

fn same_pair(a: QuadFeltExpr<Felt>, b: QuadFeltExpr<Felt>) -> bool {
    a.0 == b.0 && a.1 == b.1
}

fn flags(local: &MainCols<Felt>, next: &MainCols<Felt>) -> OpFlags {
    OpFlags::new(&local.decoder, &local.stack, &next.decoder)
}

#[test]
fn challenges_encode_is_prefix_plus_weighted_elements() {
    let ch = challenges();
    let m = ch.encode(BLOCK_STACK_TABLE, &[f(2), f(9)]);
    // prefix + 1 * 2 + beta * 9 = (1017 + 2 + 27, 30 + 45)
    assert!(same_pair(m, qf(1046, 75)));
    // the prefix alone for an empty message
    assert!(same_pair(ch.encode(OP_GROUP_TABLE, &[]), qf(1051, 32)));
}

#[test]
fn join_inserts_into_block_stack_and_block_hash_tables() {
    let ch = challenges();
    let mut local = generate_test_row(opcodes::JOIN as usize);
    local.decoder.addr = f(8);
    for i in 0..8 {
        local.decoder.hasher_state[i] = f(100 + i as u64);
    }
    let mut next = generate_test_row(0);
    next.decoder.addr = f(40);
    let op_flags = flags(&local, &next);

    let p1 = qf(7, 11);
    let p2 = qf(13, 2);
    let p3 = qf(5, 6);
    let msg_stack = ch.encode(BLOCK_STACK_TABLE, &[f(40), f(8), Felt::zero()]);
    let left = ch.encode(BLOCK_HASH_TABLE, &[f(40), f(100), f(101), f(102), f(103), Felt::one(), Felt::zero()]);
    let right =
        ch.encode(BLOCK_HASH_TABLE, &[f(40), f(104), f(105), f(106), f(107), Felt::zero(), Felt::zero()]);
    let mut aux = vec![q_one(); AUX_TRACE_WIDTH];
    aux[0] = p1;
    aux[1] = p2;
    aux[2] = p3;
    let mut aux_next = vec![q_one(); AUX_TRACE_WIDTH];
    aux_next[0] = p1.mul(msg_stack);
    aux_next[1] = p2.mul(left.mul(right));
    aux_next[2] = p3;

    let mut ev = evaluator(aux.clone(), aux_next.clone());
    decoder_bus::enforce_bus(&mut ev, &local, &next, &op_flags, &ch);
    assert_eq!(ev.constraints.len(), 6);
    assert!(ev.is_satisfied());

    // a block stack entry with the wrong parent is caught
    aux_next[0] = p1.mul(ch.encode(BLOCK_STACK_TABLE, &[f(40), f(9), Felt::zero()]));
    let mut ev = evaluator(aux, aux_next);
    decoder_bus::enforce_block_stack_table_constraint(&mut ev, &local, &next, &op_flags, &ch);
    assert!(!ev.is_satisfied());
}

#[test]
fn end_removes_from_block_stack_and_block_hash_tables() {
    let ch = challenges();
    let mut local = generate_test_row(opcodes::END as usize);
    local.decoder.addr = f(40);
    for i in 0..4 {
        local.decoder.hasher_state[i] = f(100 + i as u64);
    }
    // a simple block (not a loop body, not a call)
    let mut next = generate_test_row(opcodes::NOOP as usize);
    next.decoder.addr = f(8);
    let op_flags = flags(&local, &next);

    let p1 = qf(7, 11);
    let p2 = qf(13, 2);
    let msg_stack = ch.encode(BLOCK_STACK_TABLE, &[f(40), f(8), Felt::zero()]);
    // the next operation is not END/REPEAT/HALT: the block is a first child
    let msg_hash = ch.encode(BLOCK_HASH_TABLE, &[f(8), f(100), f(101), f(102), f(103), Felt::one(), Felt::zero()]);
    let mut aux = vec![q_one(); AUX_TRACE_WIDTH];
    aux[0] = p1.mul(msg_stack);
    aux[1] = p2.mul(msg_hash);
    let mut aux_next = vec![q_one(); AUX_TRACE_WIDTH];
    aux_next[0] = p1;
    aux_next[1] = p2;

    let mut ev = evaluator(aux, aux_next);
    decoder_bus::enforce_block_stack_table_constraint(&mut ev, &local, &next, &op_flags, &ch);
    decoder_bus::enforce_block_hash_table_constraint(&mut ev, &local, &next, &op_flags, &ch);
    assert!(ev.is_satisfied());
}

#[test]
fn span_with_two_groups_inserts_one_op_group() {
    let ch = challenges();
    let mut local = generate_test_row(opcodes::SPAN as usize);
    local.decoder.group_count = f(2);
    local.decoder.hasher_state[1] = f(77);
    // OP_BATCH_2_GROUPS = [0, 0, 1]
    local.decoder.batch_flags[2] = Felt::one();
    let mut next = generate_test_row(0);
    next.decoder.addr = f(16);
    let op_flags = flags(&local, &next);

    let p3 = qf(9, 4);
    let v1 = ch.encode(OP_GROUP_TABLE, &[f(16), f(1), f(77)]);
    let mut aux = vec![q_one(); AUX_TRACE_WIDTH];
    aux[2] = p3;
    let mut aux_next = vec![q_one(); AUX_TRACE_WIDTH];
    aux_next[2] = p3.mul(v1);
    let mut ev = evaluator(aux, aux_next);
    decoder_bus::enforce_op_group_table_constraint(&mut ev, &local, &next, &op_flags, &ch);
    assert!(ev.is_satisfied());
}

#[test]
fn executing_a_group_removes_it_from_the_op_group_table() {
    let ch = challenges();
    // inside a span, the group count drops from 3 to 2: the group h0' * 128 + opcode' leaves
    let mut local = generate_test_row(opcodes::NOOP as usize);
    local.decoder.addr = f(16);
    local.decoder.in_span = Felt::one();
    local.decoder.group_count = f(3);
    let mut next = generate_test_row(opcodes::ADD as usize);
    next.decoder.group_count = f(2);
    next.decoder.hasher_state[0] = f(5);
    let op_flags = flags(&local, &next);

    let value = 5 * 128 + opcodes::ADD as u64;
    let u = ch.encode(OP_GROUP_TABLE, &[f(16), f(3), f(value)]);
    let r = qf(9, 4);
    let mut aux = vec![q_one(); AUX_TRACE_WIDTH];
    aux[2] = r.mul(u);
    let mut aux_next = vec![q_one(); AUX_TRACE_WIDTH];
    aux_next[2] = r;
    let mut ev = evaluator(aux.clone(), aux_next.clone());
    decoder_bus::enforce_op_group_table_constraint(&mut ev, &local, &next, &op_flags, &ch);
    assert!(ev.is_satisfied());

    // removing the group without its opcode is caught
    let wrong = ch.encode(OP_GROUP_TABLE, &[f(16), f(3), f(5 * 128)]);
    aux[2] = r.mul(wrong);
    let mut ev = evaluator(aux, aux_next);
    decoder_bus::enforce_op_group_table_constraint(&mut ev, &local, &next, &op_flags, &ch);
    assert!(!ev.is_satisfied());
}

// STACK OVERFLOW TABLE
// ================================================================================================

#[test]
fn right_shift_pushes_into_the_overflow_table() {
    let ch = challenges();
    let mut local = generate_test_row(opcodes::PAD as usize);
    local.system.clk = f(6);
    local.stack.top[15] = f(9);
    local.stack.b0 = f(16);
    local.stack.b1 = f(3);
    let next = generate_test_row(0);
    let op_flags = flags(&local, &next);
    assert_eq!(op_flags.right_shift(), Felt::one());

    let p = qf(21, 8);
    let row = ch.encode(STACK_OVERFLOW_TABLE, &[f(6), f(9), f(3)]);
    let mut aux = vec![q_one(); AUX_TRACE_WIDTH];
    aux[3] = p;
    let mut aux_next = vec![q_one(); AUX_TRACE_WIDTH];
    aux_next[3] = p.mul(row);
    let mut ev = evaluator(aux.clone(), aux_next.clone());
    stack_bus::enforce_bus(&mut ev, &local, &next, &op_flags, &ch);
    assert_eq!(ev.constraints.len(), 2);
    assert!(ev.is_satisfied());

    // leaving the table unchanged is caught
    aux_next[3] = p;
    let mut ev = evaluator(aux, aux_next);
    stack_bus::enforce_bus(&mut ev, &local, &next, &op_flags, &ch);
    assert!(!ev.is_satisfied());
}

#[test]
fn left_shift_on_an_empty_overflow_table_removes_nothing() {
    let ch = challenges();
    let mut local = generate_test_row(opcodes::DROP as usize);
    // depth 16: (b0 - 16) * h0 = 0
    local.stack.b0 = f(16);
    local.stack.h0 = f(5);
    let next = generate_test_row(0);
    let op_flags = flags(&local, &next);
    assert_eq!(op_flags.left_shift(), Felt::one());

    let p = qf(21, 8);
    let mut aux = vec![q_one(); AUX_TRACE_WIDTH];
    aux[3] = p;
    let mut aux_next = vec![q_one(); AUX_TRACE_WIDTH];
    aux_next[3] = p;
    let mut ev = evaluator(aux, aux_next);
    stack_bus::enforce_bus(&mut ev, &local, &next, &op_flags, &ch);
    assert!(ev.is_satisfied());
}

// RANGE CHECKER BUS
// ================================================================================================

fn no_chiplet() -> ChipletFlags<Felt> {
    ChipletFlags { is_active: Felt::zero(), is_transition: Felt::zero(), is_last: Felt::zero(), next_is_first: Felt::zero() }
}

fn selectors(memory_active: bool) -> ChipletSelectors<Felt> {
    let mut memory = no_chiplet();
    if memory_active {
        memory.is_active = Felt::one();
    }
    ChipletSelectors {
        controller: no_chiplet(),
        permutation: no_chiplet(),
        bitwise: no_chiplet(),
        memory,
        ace: no_chiplet(),
        kernel_rom: no_chiplet(),
    }
}

#[test]
fn range_bus_is_steady_without_lookups() {
    let ch = challenges();
    let local = generate_test_row(0);
    let next = generate_test_row(0);
    let op_flags = flags(&local, &next);
    let b = qf(4, 4);
    let mut aux = vec![q_one(); AUX_TRACE_WIDTH];
    aux[4] = b;
    let mut aux_next = vec![q_one(); AUX_TRACE_WIDTH];
    aux_next[4] = b;
    let mut ev = evaluator(aux.clone(), aux_next.clone());
    range_bus::enforce_bus(&mut ev, &local, &op_flags, &ch, &selectors(false));
    assert_eq!(ev.constraints.len(), 2);
    assert!(ev.is_satisfied());

    aux_next[4] = qf(5, 4);
    let mut ev = evaluator(aux, aux_next);
    range_bus::enforce_bus(&mut ev, &local, &op_flags, &ch, &selectors(false));
    assert!(!ev.is_satisfied());
}

#[test]
fn range_bus_records_the_logup_expression() {
    // A range checker row answering the value 5 with multiplicity 2 on a memory row:
    // (b' - b) * R * S * M - 2 * S * M + mflag * R * S * (mv1 + mv0).
    let ch = challenges();
    let mut local = generate_test_row(0);
    local.range.value = f(5);
    local.range.multiplicity = f(2);
    local.chiplets[14] = f(7); // memory d0
    local.chiplets[15] = f(1); // memory d1
    let next = generate_test_row(0);
    let op_flags = flags(&local, &next);
    let b = qf(4, 4);
    let b_next = qf(10, 1);
    let mut aux = vec![q_one(); AUX_TRACE_WIDTH];
    aux[4] = b;
    let mut aux_next = vec![q_one(); AUX_TRACE_WIDTH];
    aux_next[4] = b_next;
    let mut ev = evaluator(aux, aux_next);
    range_bus::enforce_bus(&mut ev, &local, &op_flags, &ch, &selectors(true));

    let alpha = ch.bus_prefix[RANGE_CHECK_BUS];
    let mv0 = alpha.add_base(f(7));
    let mv1 = alpha.add_base(f(1));
    let sv = alpha; // all helpers are zero
    let r = alpha.add_base(f(5));
    let m = mv0.mul(mv1);
    let s = sv.mul(sv).mul(sv).mul(sv);
    let lookups = r.mul(s).mul(m);
    let mflag = r.mul(s);
    let expected = b_next
        .mul(lookups)
        .sub(b.mul(lookups))
        .sub(s.mul(m).mul_base(f(2)))
        .add(mflag.mul(mv1))
        .add(mflag.mul(mv0));
    assert_eq!(ev.constraints[0], expected.0);
    assert_eq!(ev.constraints[1], expected.1);
}

#[test]
fn noop_rows_keep_the_decoder_and_overflow_tables() {
    let ch = challenges();
    let local = generate_test_row(opcodes::NOOP as usize);
    let next = generate_test_row(opcodes::NOOP as usize);
    let op_flags = flags(&local, &next);
    let aux: Vec<QuadFeltExpr<Felt>> = (0..AUX_TRACE_WIDTH as u64).map(|i| qf(3 + i, 9 * i)).collect();
    let mut ev = evaluator(aux.clone(), aux.clone());
    decoder_bus::enforce_bus(&mut ev, &local, &next, &op_flags, &ch);
    stack_bus::enforce_bus(&mut ev, &local, &next, &op_flags, &ch);
    assert_eq!(ev.constraints.len(), 8);
    assert!(ev.is_satisfied());

    // any change of a running product on such a row is caught
    for col in 0..4 {
        let mut changed = aux.clone();
        changed[col] = changed[col].add(qf(1, 0));
        let mut ev = evaluator(aux.clone(), changed);
        decoder_bus::enforce_bus(&mut ev, &local, &next, &op_flags, &ch);
        stack_bus::enforce_bus(&mut ev, &local, &next, &op_flags, &ch);
        assert!(!ev.is_satisfied());
    }
}

// BOUNDARY CONSTRAINTS
// ================================================================================================

fn boundary_evaluator(first: bool, last: bool, aux: Vec<QuadFeltExpr<Felt>>) -> ConstraintEvaluator {
    let sel = |b: bool| if b { Felt::one() } else { Felt::zero() };
    let mut ev = ConstraintEvaluator::new(Vec::new(), Felt::zero(), sel(first), sel(last));
    ev.set_permutation(aux.clone(), aux);
    ev
}

#[test]
fn running_products_start_at_one_and_sums_at_zero() {
    let zero = qf(0, 0);
    let start = vec![q_one(), q_one(), q_one(), q_one(), zero, q_one(), q_one(), zero];
    let mut ev = boundary_evaluator(true, false, start.clone());
    enforce_bus_first_row(&mut ev);
    assert_eq!(ev.constraints.len(), 16);
    assert!(ev.is_satisfied());

    // a LogUp sum that starts at one is caught
    let mut wrong = start.clone();
    wrong[4] = q_one();
    let mut ev = boundary_evaluator(true, false, wrong.clone());
    enforce_bus_first_row(&mut ev);
    assert!(!ev.is_satisfied());

    // off the first row the boundary constraints are void
    let mut ev = boundary_evaluator(false, false, wrong);
    enforce_bus_first_row(&mut ev);
    assert!(ev.is_satisfied());
}

#[test]
fn last_row_matches_claimed_finals() {
    let cols: Vec<QuadFeltExpr<Felt>> = (0..AUX_TRACE_WIDTH as u64).map(|i| qf(i * i, 2 * i + 1)).collect();
    let mut ev = boundary_evaluator(false, true, cols.clone());
    enforce_bus_last_row(&mut ev, &cols);
    assert_eq!(ev.constraints.len(), 16);
    assert!(ev.is_satisfied());

    let mut finals = cols.clone();
    finals[6] = qf(1, 1);
    let mut ev = boundary_evaluator(false, true, cols);
    enforce_bus_last_row(&mut ev, &finals);
    assert!(!ev.is_satisfied());
    // the mismatch is recorded on column 6: (36 - 1, 13 - 1)
    assert_eq!(ev.constraints[12], f(35));
    assert_eq!(ev.constraints[13], f(12));
}

// BOUNDARY MESSAGES OF THE PUBLIC INPUTS
// ================================================================================================

#[test]
fn program_hash_message_encodes_the_root_block() {
    let ch = challenges();
    let h = [f(1), f(2), f(3), f(4)];
    let expected = ch.encode(BLOCK_HASH_TABLE, &[Felt::zero(), f(1), f(2), f(3), f(4), Felt::zero(), Felt::zero()]);
    assert!(same_pair(program_hash_message(&ch, &h), expected));
}

#[test]
fn kernel_digests_reduce_to_the_product_of_init_messages() {
    let ch = challenges();
    let d1 = [f(5), f(6), f(7), f(8)];
    let d2 = [f(9), f(10), f(11), f(12)];
    let m1 = ch.encode(CHIPLETS_BUS, &[f(48), f(5), f(6), f(7), f(8)]);
    assert!(same_pair(kernel_proc_message(&ch, &d1), m1));
    let m2 = kernel_proc_message(&ch, &d2);

    let felts: Vec<Felt> = d1.iter().chain(d2.iter()).copied().collect();
    let r = kernel_reduced_from_var_len(&ch, &[felts]).unwrap();
    assert!(same_pair(r, q_one().mul(m1).mul(m2)));

    // no kernel procedures: the empty product
    let r = kernel_reduced_from_var_len(&ch, &[Vec::new()]).unwrap();
    assert!(same_pair(r, q_one()));
}

#[test]
fn kernel_reduction_rejects_malformed_inputs() {
    let ch = challenges();
    assert_eq!(kernel_reduced_from_var_len(&ch, &[]).unwrap_err(), ReductionError::VarLenSliceCount(0));
    assert_eq!(
        kernel_reduced_from_var_len(&ch, &[Vec::new(), Vec::new()]).unwrap_err(),
        ReductionError::VarLenSliceCount(2)
    );
    assert_eq!(
        kernel_reduced_from_var_len(&ch, &[vec![f(1); 5]]).unwrap_err(),
        ReductionError::KernelDigestLength(5)
    );
}

#[test]
fn public_values_follow_the_fixed_layout() {
    let hash = [f(1), f(2), f(3), f(4)];
    let mut inputs = [Felt::zero(); 16];
    let mut outputs = [Felt::zero(); 16];
    for i in 0..16 {
        inputs[i] = f(100 + i as u64);
        outputs[i] = f(200 + i as u64);
    }
    let state = [f(7), f(8), f(9), f(10)];
    let pv = air_public_values(&hash, &inputs, &outputs, &state);
    assert_eq!(pv.len(), NUM_PUBLIC_VALUES);
    assert_eq!(pv[0], f(1));
    assert_eq!(pv[4], f(100));
    assert_eq!(pv[19], f(115));
    assert_eq!(pv[20], f(200));
    assert_eq!(pv[35], f(215));
    assert_eq!(pv[36], f(7));
    assert_eq!(pv[39], f(10));

    let digests = [[f(1), f(2), f(3), f(4)], [f(5), f(6), f(7), f(8)]];
    let flat = kernel_digest_elements(&digests);
    assert_eq!(flat, (1..=8).map(f).collect::<Vec<_>>());
    assert!(kernel_digest_elements(&[]).is_empty());
}
