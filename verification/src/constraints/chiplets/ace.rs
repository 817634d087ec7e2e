//! ACE (Arithmetic Circuit Evaluation) chiplet constraints.
//!
//! The ACE chiplet reduces the number of cycles required when recursively verifying
//! a STARK proof by evaluating arithmetic circuits and ensuring they evaluate to zero.
//!
//! ## Operation Phases
//!
//! 1. **READ blocks**: Load extension field elements from memory and assign node IDs
//! 2. **EVAL blocks**: Execute arithmetic operations on previously loaded nodes
//!
//! ## Column Layout (within chiplet, offset by selectors)
//!
//! | Column    | Purpose                                        |
//! |-----------|------------------------------------------------|
//! | sstart    | Section start flag (1 = first row of section)  |
//! | sblock    | Block selector (0=READ, 1=EVAL)                |
//! | ctx       | Memory access context                          |
//! | ptr       | Memory pointer (+4 in READ, +1 in EVAL)        |
//! | clk       | Memory access clock cycle                      |
//! | op        | Operation type (-1=SUB, 0=MUL, 1=ADD)          |
//! | id0       | Result node ID                                 |
//! | v0_0/v0_1 | Result node value (extension field)            |
//! | id1       | First operand node ID                          |
//! | v1_0/v1_1 | First operand value                            |
//! | id2/n_eval| Second operand ID (EVAL) / num evals (READ)    |
//! | v2_0      | Second operand value (coefficient 0)           |
//! | v2_1/m1   | Second operand (EVAL) / multiplicity (READ)    |
//! | m0        | Wire bus multiplicity for node 0               |

use vstd::prelude::*;

use crate::constraints::chiplets::columns::AceCols;
use crate::constraints::chiplets::selectors::ChipletFlags;
use crate::constraints::columns::MainCols;
use crate::constraints::evaluator::{ConstraintEvaluator, bool_check};
use crate::constraints::ext_field::{QuadFeltExpr, quad_mul_c0, quad_mul_c1};
use crate::constraints::utils::BoolNot;
use crate::field::{Felt, fadd, fmul, fsub, p};

verus! {

/// Coordinate `k` (0 or 1) of an extension element given by its two coordinates.
pub open spec fn coord(x: QuadFeltExpr<Felt>, k: int) -> int {
    if k == 0 {
        x.0.val()
    } else {
        x.1.val()
    }
}

/// Coordinate `k` of the result an EVAL row must hold:
/// `(linear - nonlinear) * op^2 + nonlinear`, with `linear = v1 + v2 * op` and
/// `nonlinear = v1 * v2` in the extension field.
pub open spec fn ace_expected(c: AceCols<Felt>, k: int) -> int {
    let op = c.eval_op.val();
    let v1 = c.v_1;
    let v2 = QuadFeltExpr(c.mode[1], c.mode[2]);
    let linear = fadd(coord(v1, k), fmul(coord(v2, k), op));
    let nonlinear = if k == 0 {
        quad_mul_c0(v1.0.val(), v1.1.val(), v2.0.val(), v2.1.val())
    } else {
        quad_mul_c1(v1.0.val(), v1.1.val(), v2.0.val(), v2.1.val())
    };
    fadd(fmul(fsub(linear, nonlinear), fmul(op, op)), nonlinear)
}

/// The values of the ACE constraints on the window `(c, n)` under `flags`.
pub open spec fn ace_constraint_values(
    c: AceCols<Felt>,
    n: AceCols<Felt>,
    flags: ChipletFlags<Felt>,
) -> Seq<int> {
    let act = flags.is_active.val();
    let t = flags.is_transition.val();
    let last = flags.is_last.val();
    let s_start = c.s_start.val();
    let s_start_next = n.s_start.val();
    let s_transition = fsub(1, s_start_next);
    let f_eval = c.s_block.val();
    let f_eval_next = n.s_block.val();
    let f_read = fsub(1, f_eval);
    let f_read_next = fsub(1, f_eval_next);
    let section = fmul(t, s_transition);
    let selected = fadd(fmul(f_read_next, n.mode[0].val()), fmul(f_eval_next, n.id_0.val()));
    let eval_gate = fmul(act, f_eval);
    let op = c.eval_op.val();
    let f_end = fadd(last, fmul(t, s_start_next));
    seq![
        fmul(flags.next_is_first.val(), fsub(s_start_next, 1)),
        fmul(act, bool_check(s_start)),
        fmul(act, bool_check(f_eval)),
        fmul(last, s_start),
        fmul(t, fmul(s_start, s_start_next)),
        fmul(act, fmul(s_start, f_eval)),
        fmul(t, fmul(s_transition, fmul(f_eval, f_read_next))),
        fmul(section, fsub(n.ctx.val(), c.ctx.val())),
        fmul(section, fsub(n.clk.val(), c.clk.val())),
        fmul(section, fsub(n.ptr.val(), fadd(fadd(c.ptr.val(), fmul(f_read, 4)), f_eval))),
        fmul(section, fsub(c.id_0.val(), fadd(fadd(n.id_0.val(), fadd(f_read, f_read)), f_eval))),
        fmul(act, fmul(f_read, fsub(c.id_1.val(), fsub(c.id_0.val(), 1)))),
        fmul(t, fmul(f_read, fsub(selected, c.mode[0].val()))),
        fmul(eval_gate, fmul(op, fsub(fmul(op, op), 1))),
        fmul(eval_gate, fsub(c.v_0.0.val(), ace_expected(c, 0))),
        fmul(eval_gate, fsub(c.v_0.1.val(), ace_expected(c, 1))),
        fmul(f_end, f_read),
        fmul(f_end, fsub(c.v_0.0.val(), 0)),
        fmul(f_end, fsub(c.v_0.1.val(), 0)),
        fmul(f_end, c.id_0.val()),
    ]
}

/// The second operand of an EVAL row: `v2 = (mode[1], mode[2])`.
pub open spec fn eval_operand(c: AceCols<Felt>) -> QuadFeltExpr<Felt> {
    QuadFeltExpr(c.mode[1], c.mode[2])
}

/// A residue `e` that `fmul(1, v - e)` sends to zero equals `v`.
proof fn lemma_gate_pins(v: int, e: int)
    requires
        0 <= v < p(),
        0 <= e < p(),
        fmul(1, fsub(v, e)) == 0,
    ensures
        v == e,
{
    let d = v - e;
    vstd::arithmetic::div_mod::lemma_mod_twice(d, p());
    assert(fmul(1, fsub(v, e)) == (d % p()) % p());
    if d > 0 {
        vstd::arithmetic::div_mod::lemma_small_mod(d as nat, p() as nat);
    } else if d < 0 {
        vstd::arithmetic::div_mod::lemma_mod_add_multiples_vanish(d, p());
        vstd::arithmetic::div_mod::lemma_small_mod((d + p()) as nat, p() as nat);
    }
}

/// `op^2 = 1` for `op = 1` and for `op = -1`.
proof fn lemma_unit_square(op: int)
    requires
        op == 1 || op == p() - 1,
    ensures
        fmul(op, op) == 1,
{
    vstd::arithmetic::div_mod::lemma_small_mod(1, p() as nat);
    assert((p() - 1) * (p() - 1) == p() * (p() - 2) + 1) by (nonlinear_arith);
    vstd::arithmetic::div_mod::lemma_mod_multiples_vanish(p() - 2, 1, p());
}

/// `((l - n) * 1) + n = l` on residues.
proof fn lemma_blend_unit(l: int, n: int)
    requires
        0 <= l < p(),
    ensures
        fadd(fmul(fsub(l, n), 1), n) == l,
{
    let d = (l - n) % p();
    vstd::arithmetic::div_mod::lemma_mod_twice(l - n, p());
    assert(fmul(fsub(l, n), 1) == d);
    vstd::arithmetic::div_mod::lemma_add_mod_noop(l - n, n, p());
    vstd::arithmetic::div_mod::lemma_mod_twice(n, p());
    vstd::arithmetic::div_mod::lemma_add_mod_noop(d, n, p());
    vstd::arithmetic::div_mod::lemma_small_mod(l as nat, p() as nat);
}

/// `(l - n) * 0 + n = n` on residues.
proof fn lemma_blend_zero(l: int, n: int)
    requires
        0 <= n < p(),
    ensures
        fadd(fmul(fsub(l, n), 0), n) == n,
{
    vstd::arithmetic::div_mod::lemma_small_mod(0, p() as nat);
    vstd::arithmetic::div_mod::lemma_small_mod(n as nat, p() as nat);
}

/// `a + b * op` is `a + b` for `op = 1` and `a - b` for `op = -1`.
proof fn lemma_linear_by_op(a: int, b: int, op: int)
    requires
        0 <= b < p(),
        op == 1 || op == p() - 1,
    ensures
        op == 1 ==> fadd(a, fmul(b, op)) == fadd(a, b),
        op == p() - 1 ==> fadd(a, fmul(b, op)) == fsub(a, b),
{
    if op == 1 {
        vstd::arithmetic::div_mod::lemma_small_mod(b as nat, p() as nat);
    } else {
        vstd::arithmetic::div_mod::lemma_add_mod_noop_right(a, b * (p() - 1), p());
        assert(a + b * (p() - 1) == p() * b + (a - b)) by (nonlinear_arith);
        vstd::arithmetic::div_mod::lemma_mod_multiples_vanish(b, a - b, p());
    }
}

/// The result an EVAL row must hold, for each of the three operations.
proof fn lemma_ace_expected_by_op(c: AceCols<Felt>, k: int)
    requires
        k == 0 || k == 1,
    ensures
        0 <= ace_expected(c, k) < p(),
        c.eval_op.val() == 0 ==> ace_expected(c, k) == (if k == 0 {
            quad_mul_c0(c.v_1.0.val(), c.v_1.1.val(), c.mode[1].val(), c.mode[2].val())
        } else {
            quad_mul_c1(c.v_1.0.val(), c.v_1.1.val(), c.mode[1].val(), c.mode[2].val())
        }),
        c.eval_op.val() == 1 ==> ace_expected(c, k) == fadd(coord(c.v_1, k), coord(eval_operand(c), k)),
        c.eval_op.val() == p() - 1 ==> ace_expected(c, k) == fsub(coord(c.v_1, k), coord(eval_operand(c), k)),
{
    c.mode[1].lemma_val_range();
    c.mode[2].lemma_val_range();
    let op = c.eval_op.val();
    let a = coord(c.v_1, k);
    let b = coord(eval_operand(c), k);
    let linear = fadd(a, fmul(b, op));
    let nonlinear = if k == 0 {
        quad_mul_c0(c.v_1.0.val(), c.v_1.1.val(), c.mode[1].val(), c.mode[2].val())
    } else {
        quad_mul_c1(c.v_1.0.val(), c.v_1.1.val(), c.mode[1].val(), c.mode[2].val())
    };
    assert(0 <= b < p());
    assert(0 <= linear < p());
    assert(0 <= nonlinear < p());
    if op == 0 {
        vstd::arithmetic::div_mod::lemma_small_mod(0, p() as nat);
        assert(fmul(op, op) == 0);
        lemma_blend_zero(linear, nonlinear);
    } else if op == 1 || op == p() - 1 {
        lemma_unit_square(op);
        lemma_blend_unit(linear, nonlinear);
        lemma_linear_by_op(a, b, op);
    }
}

/// What an EVAL row computes: on a row where the ACE chiplet is active and the block is an
/// EVAL block, once the two result constraints vanish the result node `v0` holds `v1 * v2`
/// for `op = 0`, `v1 + v2` for `op = 1`, and `v1 - v2` for `op = -1`, in the extension field.
pub proof fn lemma_ace_eval_computes(c: AceCols<Felt>, n: AceCols<Felt>, flags: ChipletFlags<Felt>)
    requires
        flags.is_active.val() == 1,
        c.s_block.val() == 1,
        ace_constraint_values(c, n, flags)[14] == 0,
        ace_constraint_values(c, n, flags)[15] == 0,
    ensures
        c.eval_op.val() == 0 ==> {
            &&& c.v_0.0.val() == quad_mul_c0(c.v_1.0.val(), c.v_1.1.val(), c.mode[1].val(), c.mode[2].val())
            &&& c.v_0.1.val() == quad_mul_c1(c.v_1.0.val(), c.v_1.1.val(), c.mode[1].val(), c.mode[2].val())
        },
        c.eval_op.val() == 1 ==> {
            &&& c.v_0.0.val() == fadd(c.v_1.0.val(), c.mode[1].val())
            &&& c.v_0.1.val() == fadd(c.v_1.1.val(), c.mode[2].val())
        },
        c.eval_op.val() == p() - 1 ==> {
            &&& c.v_0.0.val() == fsub(c.v_1.0.val(), c.mode[1].val())
            &&& c.v_0.1.val() == fsub(c.v_1.1.val(), c.mode[2].val())
        },
{
    vstd::arithmetic::div_mod::lemma_small_mod(1, p() as nat);
    assert(fmul(1, 1) == 1);
    c.v_0.0.lemma_val_range();
    c.v_0.1.lemma_val_range();
    lemma_ace_expected_by_op(c, 0);
    lemma_ace_expected_by_op(c, 1);
    lemma_gate_pins(c.v_0.0.val(), ace_expected(c, 0));
    lemma_gate_pins(c.v_0.1.val(), ace_expected(c, 1));
}

/// Enforce ACE chiplet constraints that apply to all rows.
#[verifier::rlimit(80)]
pub fn enforce_ace_constraints_all_rows(
    builder: &mut ConstraintEvaluator,
    local: &MainCols<Felt>,
    next: &MainCols<Felt>,
    flags: &ChipletFlags<Felt>,
)
    ensures
        final(builder).periodic == old(builder).periodic,
        final(builder).is_transition == old(builder).is_transition,
        final(builder).is_first_row == old(builder).is_first_row,
        final(builder).is_last_row == old(builder).is_last_row,
        final(builder).values() == old(builder).values() + ace_constraint_values(
            AceCols::from_seq(local.chiplets@.subrange(4, 20)),
            AceCols::from_seq(next.chiplets@.subrange(4, 20)),
            *flags,
        ),
{
    let ghost start = builder.values();
    let local = local.ace();
    let next = next.ace();

    let ace_flag = flags.is_active;
    let ace_transition = flags.is_transition;
    let ace_last = flags.is_last;

    // Derived section flags
    let s_start = local.s_start;
    let s_start_next = next.s_start;
    let s_transition = s_start_next.not();

    // First row of ACE must have sstart' = 1
    builder.assert_zero_when(flags.next_is_first, s_start_next.sub(Felt::one()));

    // When ACE is active, section flags must be boolean.
    builder.assert_bool_when(ace_flag, local.s_start);
    builder.assert_bool_when(ace_flag, local.s_block);

    let f_eval = local.s_block;
    let f_eval_next = next.s_block;
    let f_read = f_eval.not();
    let f_read_next = f_eval_next.not();

    // Last row of ACE chiplet cannot be section start
    builder.assert_zero_when(ace_last, s_start);

    // Prevent consecutive section starts within ACE chiplet
    builder.assert_zero_when(ace_transition, s_start.mul(s_start_next));

    // Sections must start with READ blocks (not EVAL)
    builder.assert_zero_when(ace_flag, s_start.mul(f_eval));

    // EVAL blocks cannot be followed by READ blocks within same section
    builder.assert_zero_when(ace_transition, s_transition.mul(f_eval.mul(f_read_next)));

    // Within-section transitions: context, clock, pointer, and node ID consistency.
    let section = ace_transition.mul(s_transition);

    // clk and ctx are stable
    builder.assert_eq_when(section, next.ctx, local.ctx);
    builder.assert_eq_when(section, next.clk, local.clk);

    // Memory pointer increments: ptr' = ptr + 4 * f_read + f_eval
    let expected_ptr = local.ptr.add(f_read.mul(Felt::from_u8(4))).add(f_eval);
    builder.assert_eq_when(section, next.ptr, expected_ptr);

    // Node ID decrements: id0 = id0' + 2 * f_read + f_eval
    let expected_id0 = next.id_0.add(f_read.double()).add(f_eval);
    builder.assert_eq_when(section, local.id_0, expected_id0);

    // In READ block, the two node IDs should be consecutive (id1 = id0 - 1)
    builder.assert_zero_when(ace_flag, f_read.mul(local.id_1.sub(local.id_0.sub(Felt::one()))));

    // READ->EVAL transition occurs when n_eval matches the first EVAL id0:
    // f_read * (f_read' * n_eval' + f_eval' * id0' - n_eval) = 0
    let selected = f_read_next.mul(next.read().num_eval).add(f_eval_next.mul(next.id_0));
    builder.assert_zero_when(ace_transition, f_read.mul(selected.sub(local.read().num_eval)));

    // EVAL block: op ternary validity and arithmetic operation result.
    let eval_gate = ace_flag.mul(f_eval);
    let op = local.eval_op;
    let op_square = op.square();
    // op * (op^2 - 1) = op (op - 1) (op + 1)
    builder.assert_zero_when(eval_gate, op.mul(op_square.sub(Felt::one())));

    // Operations in the extension field F_p[x]/(x^2 - 7):
    // - op = -1: Subtraction (v0 = v1 - v2)
    // - op =  0: Multiplication (v0 = v1 * v2)
    // - op =  1: Addition (v0 = v1 + v2)
    let v0 = local.v_0;
    let v1 = local.v_1;
    let v2 = local.eval().v_2;
    // Linear operation: v1 + op * v2 (ADD when op = 1, SUB when op = -1)
    let linear = v1.add(v2.mul_base(op));
    // Non-linear operation: multiplication in the extension field
    let nonlinear = v1.mul(v2);
    // result = op^2 * (linear - nonlinear) + nonlinear
    let expected = linear.sub(nonlinear).mul_base(op_square).add(nonlinear);
    builder.assert_eq_when(eval_gate, v0.0, expected.0);
    builder.assert_eq_when(eval_gate, v0.1, expected.1);

    // At section end (last ACE row or section boundary): result value and node ID are zero,
    // and the section ends with an EVAL block.
    let f_end = ace_last.add(ace_transition.mul(s_start_next));
    builder.assert_zero_when(f_end, f_read);
    builder.assert_eq_when(f_end, v0.0, Felt::zero());
    builder.assert_eq_when(f_end, v0.1, Felt::zero());
    builder.assert_zero_when(f_end, local.id_0);

    proof {
        vstd::arithmetic::div_mod::lemma_small_mod(4, crate::field::p() as nat);
        assert(expected.0.val() == ace_expected(local, 0));
        assert(expected.1.val() == ace_expected(local, 1));
        assert(builder.values() =~= start + ace_constraint_values(local, next, *flags));
    }
}

} // verus!
