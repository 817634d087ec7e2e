//! Constraint evaluation on concrete rows.

use miden_air::constraints::chiplets::ace::enforce_ace_constraints_all_rows;
use miden_air::constraints::chiplets::bitwise::enforce_bitwise_constraints;
use miden_air::constraints::chiplets::columns::PeriodicCols;
use miden_air::constraints::chiplets::kernel_rom::enforce_kernel_rom_constraints;
use miden_air::constraints::chiplets::memory::enforce_memory_constraints;
use miden_air::constraints::chiplets::selectors::ChipletFlags;
use miden_air::constraints::columns::MainCols;
use miden_air::constraints::decoder::constraints as decoder;
use miden_air::constraints::evaluator::ConstraintEvaluator;
use miden_air::constraints::ext_field::{QuadFeltAirBuilder, QuadFeltExpr};
use miden_air::constraints::op_flags::{OpFlags, generate_test_row};
use miden_air::constraints::stack::{arith, ops};
use miden_air::field::Felt;
use miden_air::operations::opcodes;
use miden_air::trace::TRACE_WIDTH;

fn f(v: u64) -> Felt {
    Felt::new_unchecked(v)
}

fn zero_row() -> MainCols<Felt> {
    MainCols::from_row(&vec![Felt::zero(); TRACE_WIDTH])
}

fn periodic_row(row: usize) -> Vec<Felt> {
    PeriodicCols::periodic_columns().iter().map(|c| c[row % c.len()]).collect()
}

fn evaluator(row: usize) -> ConstraintEvaluator {
    ConstraintEvaluator::new(periodic_row(row), Felt::one(), Felt::zero(), Felt::zero())
}

fn chiplet_flags(active: u64, transition: u64, last: u64, next_is_first: u64) -> ChipletFlags<Felt> {
    ChipletFlags {
        is_active: f(active),
        is_transition: f(transition),
        is_last: f(last),
        next_is_first: f(next_is_first),
    }
}

// BITWISE
// ================================================================================================

/// The 8 rows of an honest bitwise cycle (and the first row of the next one).
fn bitwise_cycle(a: u32, b: u32, op: u64) -> Vec<MainCols<Felt>> {
    let mut rows = Vec::new();
    let mut prev_out: u64 = 0;
    for i in 0..8 {
        let shift = 28 - 4 * i;
        let agg_a = (a as u64) >> shift;
        let agg_b = (b as u64) >> shift;
        let la = agg_a & 0xF;
        let lb = agg_b & 0xF;
        let res = if op == 0 { la & lb } else { la ^ lb };
        let out = prev_out * 16 + res;
        let mut row = zero_row();
        row.chiplets[2] = f(op);
        row.chiplets[3] = f(agg_a);
        row.chiplets[4] = f(agg_b);
        for k in 0..4 {
            row.chiplets[5 + k] = f((la >> k) & 1);
            row.chiplets[9 + k] = f((lb >> k) & 1);
        }
        row.chiplets[13] = f(prev_out);
        row.chiplets[14] = f(out);
        rows.push(row);
        prev_out = out;
    }
    rows.push(zero_row());
    rows
}

fn bitwise_cycle_ok(rows: &[MainCols<Felt>]) -> bool {
    let flags = chiplet_flags(1, 1, 0, 0);
    (0..8).all(|i| {
        let mut ev = evaluator(i);
        enforce_bitwise_constraints(&mut ev, &rows[i], &rows[i + 1], &flags);
        assert_eq!(ev.constraints.len(), 17);
        ev.is_satisfied()
    })
}

#[test]
fn bitwise_and_cycle_satisfies_constraints() {
    let (a, b) = (0x1234_5678u32, 0x0F0F_F0F0u32);
    let rows = bitwise_cycle(a, b, 0);
    assert!(bitwise_cycle_ok(&rows));
    assert_eq!(rows[7].bitwise().output.as_canonical_u64(), (a & b) as u64);
}

#[test]
fn bitwise_xor_cycle_satisfies_constraints() {
    let (a, b) = (0xDEAD_BEEFu32, 0x0123_4567u32);
    let rows = bitwise_cycle(a, b, 1);
    assert!(bitwise_cycle_ok(&rows));
    assert_eq!(rows[7].bitwise().output.as_canonical_u64(), (a ^ b) as u64);
}

#[test]
fn bitwise_wrong_output_violates_constraints() {
    let mut rows = bitwise_cycle(0xFFFF_0000, 0x00FF_FF00, 0);
    rows[7].chiplets[14] = rows[7].chiplets[14].add(Felt::one());
    assert!(!bitwise_cycle_ok(&rows));
}

#[test]
fn bitwise_inactive_chiplet_has_no_constraint() {
    let mut row = zero_row();
    row.chiplets[2] = f(5); // non-binary op flag
    let mut ev = evaluator(0);
    enforce_bitwise_constraints(&mut ev, &row, &zero_row(), &chiplet_flags(0, 0, 0, 0));
    assert!(ev.is_satisfied());
    let mut ev = evaluator(0);
    enforce_bitwise_constraints(&mut ev, &row, &zero_row(), &chiplet_flags(1, 0, 0, 0));
    // op_flag * (op_flag - 1) = 20
    assert_eq!(ev.constraints[0], f(20));
}

// KERNEL ROM
// ================================================================================================

fn krom_row(s_first: u64, root: [u64; 4]) -> MainCols<Felt> {
    let mut row = zero_row();
    row.chiplets[5] = f(s_first);
    for i in 0..4 {
        row.chiplets[6 + i] = f(root[i]);
    }
    row
}

#[test]
fn kernel_rom_digest_repeats() {
    let local = krom_row(1, [1, 2, 3, 4]);
    let next = krom_row(0, [1, 2, 3, 4]);
    let mut ev = evaluator(0);
    enforce_kernel_rom_constraints(&mut ev, &local, &next, &chiplet_flags(1, 1, 0, 0));
    assert_eq!(ev.constraints.len(), 6);
    assert!(ev.is_satisfied());

    let changed = krom_row(0, [1, 2, 3, 5]);
    let mut ev = evaluator(0);
    enforce_kernel_rom_constraints(&mut ev, &local, &changed, &chiplet_flags(1, 1, 0, 0));
    assert!(!ev.is_satisfied());
    assert_eq!(ev.constraints[4], f(1));

    // a new digest block may change the digest
    let new_block = krom_row(1, [9, 9, 9, 9]);
    let mut ev = evaluator(0);
    enforce_kernel_rom_constraints(&mut ev, &local, &new_block, &chiplet_flags(1, 1, 0, 0));
    assert!(ev.is_satisfied());
}

#[test]
fn kernel_rom_first_row_must_start_a_block() {
    let mut ev = evaluator(0);
    enforce_kernel_rom_constraints(
        &mut ev,
        &zero_row(),
        &krom_row(0, [0; 4]),
        &chiplet_flags(0, 0, 0, 1),
    );
    assert!(!ev.is_satisfied());
    assert_eq!(ev.constraints[5], Felt::zero().sub(Felt::one()));
}

// MEMORY
// ================================================================================================

#[test]
fn memory_zero_rows_satisfy_constraints() {
    let mut ev = evaluator(0);
    enforce_memory_constraints(&mut ev, &zero_row(), &zero_row(), &chiplet_flags(1, 0, 0, 1));
    assert_eq!(ev.constraints.len(), 21);
    assert!(ev.is_satisfied());
}

#[test]
fn memory_word_access_with_index_bits_is_rejected() {
    let mut row = zero_row();
    row.chiplets[4] = Felt::one(); // is_word
    row.chiplets[7] = Felt::one(); // idx0
    let mut ev = evaluator(0);
    enforce_memory_constraints(&mut ev, &row, &zero_row(), &chiplet_flags(1, 0, 0, 0));
    assert!(!ev.is_satisfied());
    assert_eq!(ev.constraints[4], Felt::one());
}

#[test]
fn memory_first_row_read_of_nonzero_value_is_rejected() {
    // entering the memory chiplet with a read of a nonzero value
    let mut next = zero_row();
    next.chiplets[3] = Felt::one(); // is_read
    next.chiplets[10] = f(7); // v0
    let mut ev = evaluator(0);
    enforce_memory_constraints(&mut ev, &zero_row(), &next, &chiplet_flags(0, 0, 0, 1));
    assert!(!ev.is_satisfied());
    assert_eq!(ev.constraints[6], f(7));
}

// ACE
// ================================================================================================

#[test]
fn ace_eval_row_add() {
    // EVAL row: op = 1 (ADD), v0 = v1 + v2
    let mut row = zero_row();
    row.chiplets[5] = Felt::one(); // s_block (EVAL)
    row.chiplets[9] = Felt::one(); // eval_op = 1
    row.chiplets[10] = f(3); // id_0
    row.chiplets[11] = f(11); // v_0.0
    row.chiplets[12] = f(13); // v_0.1
    row.chiplets[14] = f(5); // v_1.0
    row.chiplets[15] = f(6); // v_1.1
    row.chiplets[17] = f(6); // v_2.0
    row.chiplets[18] = f(7); // v_2.1
    let mut ev = evaluator(0);
    enforce_ace_constraints_all_rows(&mut ev, &row, &row, &chiplet_flags(1, 0, 0, 0));
    assert_eq!(ev.constraints.len(), 20);
    assert!(ev.is_satisfied());

    // a wrong sum is caught
    row.chiplets[11] = f(12);
    let mut ev = evaluator(0);
    enforce_ace_constraints_all_rows(&mut ev, &row, &row, &chiplet_flags(1, 0, 0, 0));
    assert!(!ev.is_satisfied());
}

#[test]
fn ace_eval_row_mul() {
    // EVAL row: op = 0 (MUL), v0 = v1 * v2 in F_p[u]/(u^2 - 7)
    // (2 + 3u)(4 + 5u) = (8 + 7 * 15) + (10 + 12)u = 113 + 22u
    let mut row = zero_row();
    row.chiplets[5] = Felt::one();
    row.chiplets[11] = f(113);
    row.chiplets[12] = f(22);
    row.chiplets[14] = f(2);
    row.chiplets[15] = f(3);
    row.chiplets[17] = f(4);
    row.chiplets[18] = f(5);
    let mut ev = evaluator(0);
    enforce_ace_constraints_all_rows(&mut ev, &row, &row, &chiplet_flags(1, 0, 0, 0));
    assert!(ev.is_satisfied());
}

#[test]
fn ace_eval_row_sub() {
    // EVAL row: op = -1 (SUB), v0 = v1 - v2, wrapping modulo p
    let mut row = zero_row();
    row.chiplets[5] = Felt::one();
    row.chiplets[9] = Felt::zero().sub(Felt::one()); // eval_op = -1
    row.chiplets[11] = f(4); // 9 - 5
    row.chiplets[12] = Felt::zero().sub(f(2)); // 1 - 3
    row.chiplets[14] = f(9);
    row.chiplets[15] = f(1);
    row.chiplets[17] = f(5);
    row.chiplets[18] = f(3);
    let mut ev = evaluator(0);
    enforce_ace_constraints_all_rows(&mut ev, &row, &row, &chiplet_flags(1, 0, 0, 0));
    assert!(ev.is_satisfied());

    // the sum in place of the difference is caught
    row.chiplets[11] = f(14);
    let mut ev = evaluator(0);
    enforce_ace_constraints_all_rows(&mut ev, &row, &row, &chiplet_flags(1, 0, 0, 0));
    assert!(!ev.is_satisfied());
}

// STACK OPS AND ARITHMETIC
// ================================================================================================

fn with_stack(mut row: MainCols<Felt>, values: &[u64]) -> MainCols<Felt> {
    for (i, v) in values.iter().enumerate() {
        row.stack.top[i] = f(*v);
    }
    row
}

fn eval_stack(local: &MainCols<Felt>, next: &MainCols<Felt>) -> (ConstraintEvaluator, ConstraintEvaluator) {
    let flags = OpFlags::new(&local.decoder, &local.stack, &next.decoder);
    let mut ops_ev = evaluator(0);
    ops::enforce_main(&mut ops_ev, local, next, &flags);
    let mut arith_ev = evaluator(0);
    arith::enforce_main(&mut arith_ev, local, next, &flags);
    (ops_ev, arith_ev)
}

#[test]
fn stack_swap_constraints() {
    let local = with_stack(generate_test_row(opcodes::SWAP as usize), &[5, 7, 9]);
    let next = with_stack(generate_test_row(0), &[7, 5, 9]);
    let (ops_ev, arith_ev) = eval_stack(&local, &next);
    assert!(ops_ev.is_satisfied());
    assert!(arith_ev.is_satisfied());

    let wrong = with_stack(generate_test_row(0), &[5, 7, 9]);
    let (ops_ev, _) = eval_stack(&local, &wrong);
    assert!(!ops_ev.is_satisfied());
}

#[test]
fn stack_dup2_constraint() {
    let local = with_stack(generate_test_row(opcodes::DUP2 as usize), &[1, 2, 3]);
    let next = with_stack(generate_test_row(0), &[3, 1, 2, 3]);
    let (ops_ev, _) = eval_stack(&local, &next);
    assert!(ops_ev.is_satisfied());
    let next = with_stack(generate_test_row(0), &[2, 1, 2, 3]);
    let (ops_ev, _) = eval_stack(&local, &next);
    assert!(!ops_ev.is_satisfied());
}

#[test]
fn stack_add_and_incr_constraints() {
    let local = with_stack(generate_test_row(opcodes::ADD as usize), &[20, 22]);
    let next = with_stack(generate_test_row(0), &[42]);
    let (_, arith_ev) = eval_stack(&local, &next);
    assert!(arith_ev.is_satisfied());
    let next = with_stack(generate_test_row(0), &[43]);
    let (_, arith_ev) = eval_stack(&local, &next);
    assert!(!arith_ev.is_satisfied());

    let local = with_stack(generate_test_row(opcodes::INCR as usize), &[41]);
    let next = with_stack(generate_test_row(0), &[42]);
    let (_, arith_ev) = eval_stack(&local, &next);
    assert!(arith_ev.is_satisfied());
}

#[test]
fn stack_u32add_constraints() {
    // 0xFFFF_FFFF + 2 = 0x1_0000_0001: v_lo = 1, v_hi = 1
    let mut local = with_stack(generate_test_row(opcodes::U32ADD as usize), &[0xFFFF_FFFF, 2]);
    // helpers h0..h3 (hasher_state[2..6]): limbs of 0x1_0000_0001
    local.decoder.hasher_state[2] = f(1); // h0: bits 0..16
    local.decoder.hasher_state[3] = f(0); // h1: bits 16..32
    local.decoder.hasher_state[4] = f(1); // h2: bits 32..48
    local.decoder.hasher_state[5] = f(0); // h3: bits 48..64
    let next = with_stack(generate_test_row(0), &[1, 1]);
    let (_, arith_ev) = eval_stack(&local, &next);
    assert!(arith_ev.is_satisfied());
}

// DECODER
// ================================================================================================

#[test]
fn decoder_noop_inside_span() {
    let mut local = generate_test_row(opcodes::NOOP as usize);
    local.decoder.in_span = Felt::one();
    local.decoder.group_count = Felt::one();
    let mut next = generate_test_row(opcodes::NOOP as usize);
    next.decoder.in_span = Felt::one();
    next.decoder.group_count = Felt::one();
    next.decoder.op_index = Felt::one();
    let flags = OpFlags::new(&local.decoder, &local.stack, &next.decoder);
    let mut ev = evaluator(0);
    decoder::enforce_main(&mut ev, &local, &next, &flags);
    assert_eq!(ev.constraints.len(), 58);
    assert!(ev.is_satisfied());

    // the op index must increment inside a group
    next.decoder.op_index = f(2);
    let mut ev = evaluator(0);
    decoder::enforce_main(&mut ev, &local, &next, &flags);
    assert!(!ev.is_satisfied());
}

#[test]
fn decoder_rejects_invalid_u32_opcode() {
    // opcode 65 is odd inside the U32 group
    let local = generate_test_row(65);
    let next = generate_test_row(0);
    let flags = OpFlags::new(&local.decoder, &local.stack, &next.decoder);
    let mut ev = evaluator(0);
    decoder::enforce_main(&mut ev, &local, &next, &flags);
    assert!(!ev.is_satisfied());
    // the U32-prefix constraint b0 = 0 is the one violated among the op-bit constraints
    assert_eq!(ev.constraints[13], Felt::one());
}

// EXTENSION FIELD ASSERTIONS
// ================================================================================================

#[test]
fn quad_assert_eq_records_both_coordinates() {
    let mut ev = evaluator(0);
    ev.assert_eq_quad(QuadFeltExpr::new(f(5), f(9)), QuadFeltExpr::new(f(3), f(9)));
    assert_eq!(ev.constraints, vec![f(2), Felt::zero()]);
    assert!(!ev.is_satisfied());
}

// PERMUTATION
// ================================================================================================

use miden_air::constraints::chiplets::permutation::enforce_permutation_constraints;
use miden_core::chiplets::hasher::{Hasher, apply_permutation, apply_round};

fn to_own(x: miden_core::Felt) -> Felt {
    Felt::new_unchecked(x.as_canonical_u64())
}

/// The 16 rows of an honest Poseidon2 permutation cycle: the state before each row's step,
/// with the S-box witnesses of the packed internal rows.
fn permutation_cycle(input: [miden_core::Felt; 12]) -> (Vec<MainCols<Felt>>, [miden_core::Felt; 12]) {
    let mut st = input;
    let mut rows = Vec::new();
    for r in 0..16 {
        let mut w = [miden_core::ZERO; 3];
        let before = st;
        if r == 0 {
            apply_round(&mut st, 0);
            apply_round(&mut st, 1);
        } else if r <= 3 {
            apply_round(&mut st, r + 1);
        } else if r <= 10 {
            for k in 0..3 {
                let step = 5 + 3 * (r - 4) + k;
                w[k] = (st[0] + Hasher::ARK_INT[step - 5]).exp_u64(7);
                apply_round(&mut st, step);
            }
        } else if r == 11 {
            w[0] = (st[0] + Hasher::ARK_INT[21]).exp_u64(7);
            apply_round(&mut st, 26);
            apply_round(&mut st, 27);
        } else if r <= 14 {
            apply_round(&mut st, r + 16);
        }
        let mut row = zero_row();
        for k in 0..3 {
            row.chiplets[1 + k] = to_own(w[k]);
        }
        for i in 0..12 {
            row.chiplets[4 + i] = to_own(before[i]);
        }
        row.chiplets[16] = Felt::one(); // multiplicity
        rows.push(row);
    }
    (rows, st)
}

fn permutation_cycle_ok(rows: &[MainCols<Felt>]) -> bool {
    let flags = chiplet_flags(1, 1, 0, 0);
    let zero = zero_row();
    (0..16).all(|r| {
        let next = if r < 15 { &rows[r + 1] } else { &zero };
        let mut ev = evaluator(r);
        enforce_permutation_constraints(&mut ev, &rows[r], next, &flags);
        assert_eq!(ev.constraints.len(), 61);
        ev.is_satisfied()
    })
}

#[test]
fn poseidon2_cycle_satisfies_permutation_constraints() {
    let input: [miden_core::Felt; 12] =
        core::array::from_fn(|i| miden_core::Felt::new_unchecked(i as u64 * 1000 + 7));
    let (rows, out) = permutation_cycle(input);
    let mut expected = input;
    apply_permutation(&mut expected);
    assert_eq!(out, expected);
    // the last row of the cycle holds the permutation's output
    for i in 0..12 {
        assert_eq!(rows[15].chiplets[4 + i], to_own(expected[i]));
    }
    assert!(permutation_cycle_ok(&rows));
}

#[test]
fn poseidon2_cycle_with_wrong_witness_is_rejected() {
    let input: [miden_core::Felt; 12] = core::array::from_fn(|i| miden_core::Felt::new_unchecked(i as u64));
    let (mut rows, _) = permutation_cycle(input);
    rows[5].chiplets[2] = rows[5].chiplets[2].add(Felt::one());
    assert!(!permutation_cycle_ok(&rows));
}

#[test]
fn poseidon2_cycle_with_changed_multiplicity_is_rejected() {
    let input: [miden_core::Felt; 12] = core::array::from_fn(|i| miden_core::Felt::new_unchecked(3 * i as u64));
    let (mut rows, _) = permutation_cycle(input);
    rows[9].chiplets[16] = f(2);
    assert!(!permutation_cycle_ok(&rows));
}

// CRYPTO OPERATIONS
// ================================================================================================

use miden_air::constraints::stack::crypto;

fn horner_rows(alpha: (u64, u64), tmp1: (u64, u64), tmp0: (u64, u64), acc_next: (u64, u64)) -> (MainCols<Felt>, MainCols<Felt>) {
    let mut local = with_stack(generate_test_row(opcodes::HORNERBASE as usize), &[1, 2, 3, 4, 5, 6, 7, 8]);
    local.decoder.hasher_state[2] = f(alpha.0);
    local.decoder.hasher_state[3] = f(alpha.1);
    local.decoder.hasher_state[4] = f(tmp1.0);
    local.decoder.hasher_state[5] = f(tmp1.1);
    local.decoder.hasher_state[6] = f(tmp0.0);
    local.decoder.hasher_state[7] = f(tmp0.1);
    let mut next = with_stack(generate_test_row(0), &[1, 2, 3, 4, 5, 6, 7, 8]);
    next.stack.top[14] = f(acc_next.0);
    next.stack.top[15] = f(acc_next.1);
    (local, next)
}

fn crypto_ok(local: &MainCols<Felt>, next: &MainCols<Felt>) -> bool {
    let flags = OpFlags::new(&local.decoder, &local.stack, &next.decoder);
    let mut ev = evaluator(0);
    crypto::enforce_main(&mut ev, local, next, &flags);
    ev.is_satisfied()
}

#[test]
fn hornerbase_evaluates_at_base_point() {
    // 1*2^7 + 2*2^6 + ... + 8 = 502, through tmp0 = 4 and tmp1 = 57
    let (local, next) = horner_rows((2, 0), (57, 0), (4, 0), (502, 0));
    assert!(crypto_ok(&local, &next));
    let (local, next) = horner_rows((2, 0), (57, 0), (4, 0), (503, 0));
    assert!(!crypto_ok(&local, &next));
}

#[test]
fn hornerbase_evaluates_at_extension_point() {
    // at alpha = u (u^2 = 7): sum c_i u^(7-i) = 932 + 532u
    let (local, next) = horner_rows((0, 1), (75, 18), (2, 1), (932, 532));
    assert!(crypto_ok(&local, &next));
}

#[test]
fn cryptostream_advances_pointers() {
    let mut vals = [0u64; 16];
    for i in 0..16 {
        vals[i] = 100 + i as u64;
    }
    let local = with_stack(generate_test_row(opcodes::CRYPTOSTREAM as usize), &vals);
    let mut next_vals = vals;
    next_vals[12] += 8;
    next_vals[13] += 8;
    next_vals[0] = 0; // the rate is rewritten through the bus
    let next = with_stack(generate_test_row(0), &next_vals);
    assert!(crypto_ok(&local, &next));
    let next = with_stack(generate_test_row(0), &vals);
    assert!(!crypto_ok(&local, &next));
}
