//! Bitwise chiplet constraints.
//!
//! The bitwise chiplet handles AND and XOR operations on 32-bit values.
//! Each operation spans 8 rows, processing 4 bits per row.
//!
//! ## Periodic Columns
//!
//! The bitwise chiplet uses two periodic patterns over 8 rows:
//! - `k_first`: [1, 0, 0, 0, 0, 0, 0, 0] - marks first row of cycle
//! - `k_transition`: [1, 1, 1, 1, 1, 1, 1, 0] - marks non-last rows
//!
//! ## Column Layout (within chiplet, offset by selectors)
//!
//! | Column    | Purpose                           |
//! |-----------|-----------------------------------|
//! | op_flag   | Operation type: 0=AND, 1=XOR      |
//! | a         | Aggregated value of input a       |
//! | b         | Aggregated value of input b       |
//! | a_limb[4] | 4-bit decomposition of a          |
//! | b_limb[4] | 4-bit decomposition of b          |
//! | zp        | Previous aggregated output        |
//! | z         | Current aggregated output         |

use vstd::prelude::*;

use crate::constraints::chiplets::columns::{BitwiseCols, NUM_PERIODIC_COLUMNS};
use crate::constraints::chiplets::selectors::ChipletFlags;
use crate::constraints::columns::MainCols;
use crate::constraints::evaluator::{ConstraintEvaluator, bool_check};
use crate::constraints::utils::{bits_value, horner_eval_bits};
use crate::field::{Felt, fadd, fmul, fsub, p};

verus! {

/// Index of the `k_first` periodic column.
pub const K_FIRST_COL: usize = 16;

/// Index of the `k_transition` periodic column.
pub const K_TRANSITION_COL: usize = 17;

/// `x0 + 2 x1 + 4 x2 + 8 x3`: the value of four little-endian limbs.
pub open spec fn nibble(x0: int, x1: int, x2: int, x3: int) -> int {
    x0 + 2 * x1 + 4 * x2 + 8 * x3
}

/// The value of four little-endian bit columns, as aggregated in the field.
pub open spec fn limbs_value(l: [Felt; 4]) -> int {
    nibble(l[0].val(), l[1].val(), l[2].val(), l[3].val()) % p()
}

/// Bit `i` of the AND of two limbs: `a_i * b_i`.
pub open spec fn and_bit(a: [Felt; 4], b: [Felt; 4], i: int) -> int {
    fmul(a[i].val(), b[i].val())
}

/// Bit `i` of the XOR of two limbs: `a_i + b_i - 2 * (a_i * b_i)`.
pub open spec fn xor_bit(a: [Felt; 4], b: [Felt; 4], i: int) -> int {
    fsub(fadd(a[i].val(), b[i].val()), fadd(and_bit(a, b, i), and_bit(a, b, i)))
}

/// The aggregated AND of the limbs of a row.
pub open spec fn and_value(a: [Felt; 4], b: [Felt; 4]) -> int {
    nibble(and_bit(a, b, 0), and_bit(a, b, 1), and_bit(a, b, 2), and_bit(a, b, 3)) % p()
}

/// The aggregated XOR of the limbs of a row.
pub open spec fn xor_value(a: [Felt; 4], b: [Felt; 4]) -> int {
    nibble(xor_bit(a, b, 0), xor_bit(a, b, 1), xor_bit(a, b, 2), xor_bit(a, b, 3)) % p()
}

/// The output a row must hold: `zp * 16 + a_and_b + op_flag * (a_xor_b - a_and_b)`.
pub open spec fn expected_output(c: BitwiseCols<Felt>) -> int {
    let and_v = and_value(c.a_bits, c.b_bits);
    let xor_v = xor_value(c.a_bits, c.b_bits);
    fadd(fadd(fmul(c.prev_output.val(), 16), and_v), fmul(c.op_flag.val(), fsub(xor_v, and_v)))
}

/// The value of bitwise constraint `j` (of 17) on the window `(c, n)`, gated by the chiplet
/// flag `flag`, with the periodic values `k_first` and `k_transition` of the row.
pub open spec fn bitwise_constraint_value(
    c: BitwiseCols<Felt>,
    n: BitwiseCols<Felt>,
    flag: int,
    k_first: int,
    k_transition: int,
    j: int,
) -> int {
    let op = c.op_flag.val();
    let x = if j == 0 {
        // op_flag is binary
        bool_check(op)
    } else if j == 1 {
        // op_flag is constant within the cycle
        fmul(k_transition, fsub(op, n.op_flag.val()))
    } else if 2 <= j < 6 {
        // the limbs of a are binary
        bool_check(c.a_bits[j - 2].val())
    } else if 6 <= j < 10 {
        // the limbs of b are binary
        bool_check(c.b_bits[j - 6].val())
    } else if j == 10 {
        // first row: a is its limbs
        fmul(k_first, fsub(c.a.val(), limbs_value(c.a_bits)))
    } else if j == 11 {
        // first row: b is its limbs
        fmul(k_first, fsub(c.b.val(), limbs_value(c.b_bits)))
    } else if j == 12 {
        // first row: no previous output
        fmul(k_first, c.prev_output.val())
    } else if j == 13 {
        // a' = 16 a + limbs(a')
        fmul(k_transition, fsub(n.a.val(), fadd(fmul(c.a.val(), 16), limbs_value(n.a_bits))))
    } else if j == 14 {
        // b' = 16 b + limbs(b')
        fmul(k_transition, fsub(n.b.val(), fadd(fmul(c.b.val(), 16), limbs_value(n.b_bits))))
    } else if j == 15 {
        // the output carries over to the next row
        fmul(k_transition, fsub(c.output.val(), n.prev_output.val()))
    } else {
        // z = 16 zp + (a AND b) or (a XOR b)
        fsub(c.output.val(), expected_output(c))
    };
    fmul(flag, x)
}

/// The values of the 17 bitwise constraints on the window `(c, n)`, in assertion order.
pub open spec fn bitwise_constraint_values(
    c: BitwiseCols<Felt>,
    n: BitwiseCols<Felt>,
    flag: int,
    k_first: int,
    k_transition: int,
) -> Seq<int> {
    Seq::new(17, |j: int| bitwise_constraint_value(c, n, flag, k_first, k_transition, j))
}

/// Aggregates four limbs with Horner's method; its value is `limbs_value`.
fn aggregate(limbs: &[Felt; 4]) -> (r: Felt)
    ensures
        r.val() == nibble(limbs[0].val(), limbs[1].val(), limbs[2].val(), limbs[3].val())
            % p(),
{
    let r = horner_eval_bits(limbs);
    proof {
        reveal_with_fuel(bits_value, 5);
        let s = limbs@;
        assert(s.drop_first().drop_first().drop_first().drop_first().len() == 0);
        assert(bits_value(s) == s[0].val() + 2 * (s[1].val() + 2 * (s[2].val() + 2 * (
        s[3].val() + 2 * 0))));
    }
    r
}

/// Enforce all bitwise chiplet constraints.
///
/// This enforces:
/// 1. Operation flag constraints (binary, constant within cycle)
/// 2. Input decomposition constraints (binary bits, aggregation)
/// 3. Output aggregation constraints
///
/// Every constraint is gated on the bitwise chiplet being active.
#[verifier::spinoff_prover]
#[verifier::rlimit(40)]
pub fn enforce_bitwise_constraints(
    builder: &mut ConstraintEvaluator,
    local: &MainCols<Felt>,
    next: &MainCols<Felt>,
    flags: &ChipletFlags<Felt>,
)
    requires
        old(builder).periodic@.len() == NUM_PERIODIC_COLUMNS,
    ensures
        final(builder).periodic == old(builder).periodic,
        final(builder).is_transition == old(builder).is_transition,
        final(builder).is_first_row == old(builder).is_first_row,
        final(builder).is_last_row == old(builder).is_last_row,
        final(builder).values() == old(builder).values() + bitwise_constraint_values(
            BitwiseCols::from_seq(local.chiplets@.subrange(2, 15)),
            BitwiseCols::from_seq(next.chiplets@.subrange(2, 15)),
            flags.is_active.val(),
            old(builder).periodic@[K_FIRST_COL as int].val(),
            old(builder).periodic@[K_TRANSITION_COL as int].val(),
        ),
{
    let ghost start = builder.values();
    let k_first = builder.periodic[K_FIRST_COL];
    let k_transition = builder.periodic[K_TRANSITION_COL];

    let bitwise_flag = flags.is_active;

    let cols = local.bitwise();
    let cols_next = next.bitwise();
    let sixteen = Felt::from_u8(16);

    // ==========================================================================
    // OPERATION FLAG CONSTRAINTS
    // ==========================================================================

    // op_flag must be binary (0 for AND, 1 for XOR)
    let op_flag = cols.op_flag;
    builder.assert_bool_when(bitwise_flag, op_flag);

    // op_flag must remain constant within the 8-row cycle (can only change when k1=0)
    let op_flag_next = cols_next.op_flag;
    builder.assert_zero_when(bitwise_flag, k_transition.mul(op_flag.sub(op_flag_next)));

    // ==========================================================================
    // INPUT DECOMPOSITION CONSTRAINTS
    // ==========================================================================
    let (a, a_bits) = (cols.a, cols.a_bits);
    let (b, b_bits) = (cols.b, cols.b_bits);

    // Bit decomposition columns must be binary
    builder.assert_bool_when(bitwise_flag, a_bits[0]);
    builder.assert_bool_when(bitwise_flag, a_bits[1]);
    builder.assert_bool_when(bitwise_flag, a_bits[2]);
    builder.assert_bool_when(bitwise_flag, a_bits[3]);
    builder.assert_bool_when(bitwise_flag, b_bits[0]);
    builder.assert_bool_when(bitwise_flag, b_bits[1]);
    builder.assert_bool_when(bitwise_flag, b_bits[2]);
    builder.assert_bool_when(bitwise_flag, b_bits[3]);

    // First row of cycle (k0=1): input aggregation must match, and previous output must
    // be zero.
    let a_expected = aggregate(&a_bits);
    builder.assert_zero_when(bitwise_flag, k_first.mul(a.sub(a_expected)));
    let b_expected = aggregate(&b_bits);
    builder.assert_zero_when(bitwise_flag, k_first.mul(b.sub(b_expected)));
    builder.assert_zero_when(bitwise_flag, k_first.mul(cols.prev_output));

    // Transition rows (k1=1): a' = 16*a + agg(a'_bits), b' = 16*b + agg(b'_bits)
    let (a_next, a_next_bits) = (cols_next.a, cols_next.a_bits);
    let (b_next, b_next_bits) = (cols_next.b, cols_next.b_bits);
    let a_next_expected = a.mul(sixteen).add(aggregate(&a_next_bits));
    builder.assert_zero_when(bitwise_flag, k_transition.mul(a_next.sub(a_next_expected)));
    let b_next_expected = b.mul(sixteen).add(aggregate(&b_next_bits));
    builder.assert_zero_when(bitwise_flag, k_transition.mul(b_next.sub(b_next_expected)));

    // ==========================================================================
    // OUTPUT AGGREGATION CONSTRAINTS
    // ==========================================================================

    // Transition rows (k1=1): output_prev' = output
    let output = cols.output;
    let prev_output_next = cols_next.prev_output;
    builder.assert_zero_when(bitwise_flag, k_transition.mul(output.sub(prev_output_next)));

    // Every row: output = 16*output_prev + bitwise_result

    // AND of 4-bit limbs: sum(2^i * (a[i] * b[i]))
    let a_and_b_bits = [
        a_bits[0].mul(b_bits[0]),
        a_bits[1].mul(b_bits[1]),
        a_bits[2].mul(b_bits[2]),
        a_bits[3].mul(b_bits[3]),
    ];
    let a_and_b = aggregate(&a_and_b_bits);

    // XOR of 4-bit limbs: sum(2^i * (a[i] + b[i] - 2*a[i]*b[i]))
    let a_xor_b_bits = [
        a_bits[0].add(b_bits[0]).sub(a_and_b_bits[0].double()),
        a_bits[1].add(b_bits[1]).sub(a_and_b_bits[1].double()),
        a_bits[2].add(b_bits[2]).sub(a_and_b_bits[2].double()),
        a_bits[3].add(b_bits[3]).sub(a_and_b_bits[3].double()),
    ];
    let a_xor_b = aggregate(&a_xor_b_bits);

    // z = zp * 16 + a_and_b + op_flag * (a_xor_b - a_and_b)
    let zp = cols.prev_output;
    let expected_z = zp.mul(sixteen).add(a_and_b).add(op_flag.mul(a_xor_b.sub(a_and_b)));

    let z = cols.output;
    builder.assert_zero_when(bitwise_flag, z.sub(expected_z));

    proof {
        let c = BitwiseCols::from_seq(local.chiplets@.subrange(2, 15));
        assert(cols == c);
        assert(expected_z.val() == expected_output(c));
        assert(a_expected.val() == limbs_value(c.a_bits));
        assert(b_expected.val() == limbs_value(c.b_bits));
        assert(builder.values() =~= start + bitwise_constraint_values(
            c,
            BitwiseCols::from_seq(next.chiplets@.subrange(2, 15)),
            flags.is_active.val(),
            k_first.val(),
            k_transition.val(),
        ));
    }
}

// LAWS
// ================================================================================================

/// The integer value of four limbs: `l0 + 2 l1 + 4 l2 + 8 l3`.
pub open spec fn limbs_int(l: [Felt; 4]) -> int {
    nibble(l[0].val(), l[1].val(), l[2].val(), l[3].val())
}

/// Every limb is zero or one.
pub open spec fn limbs_binary(l: [Felt; 4]) -> bool {
    forall|k: int| 0 <= k < 4 ==> (#[trigger] l[k].val() == 0 || l[k].val() == 1)
}

/// The limbs and the operation flag of a row are binary.
pub open spec fn row_binary(c: BitwiseCols<Felt>) -> bool {
    &&& limbs_binary(c.a_bits)
    &&& limbs_binary(c.b_bits)
    &&& (c.op_flag.val() == 0 || c.op_flag.val() == 1)
}

/// All bitwise constraints of the window `(c, n)` vanish on an active bitwise row with the
/// periodic values `k_first` and `k_transition`.
pub open spec fn window_holds(
    c: BitwiseCols<Felt>,
    n: BitwiseCols<Felt>,
    k_first: int,
    k_transition: int,
) -> bool {
    forall|j: int|
        0 <= j < 17 ==> #[trigger] bitwise_constraint_values(c, n, 1, k_first, k_transition)[j]
            == 0
}

/// `k_first` on row `i` of the 8-row cycle.
pub open spec fn k_first_at(i: int) -> int {
    if i == 0 {
        1
    } else {
        0
    }
}

/// `k_transition` on row `i` of the 8-row cycle.
pub open spec fn k_transition_at(i: int) -> int {
    if i < 7 {
        1
    } else {
        0
    }
}

/// An 8-row bitwise cycle `rows[0..8]`, followed by the next row `rows[8]`, whose windows
/// all satisfy the constraints and whose limbs and operation flags are binary.
pub open spec fn cycle_holds(rows: Seq<BitwiseCols<Felt>>) -> bool {
    &&& rows.len() == 9
    &&& forall|i: int|
        0 <= i < 8 ==> window_holds(
            #[trigger] rows[i],
            rows[i + 1],
            k_first_at(i),
            k_transition_at(i),
        ) && row_binary(rows[i])
}

/// The input `a` aggregated over rows `0..=i`: four more bits per row, most significant first.
pub open spec fn agg_a(rows: Seq<BitwiseCols<Felt>>, i: int) -> int
    decreases i,
{
    if i <= 0 {
        limbs_int(rows[0].a_bits)
    } else {
        16 * agg_a(rows, i - 1) + limbs_int(rows[i].a_bits)
    }
}

/// The input `b` aggregated over rows `0..=i`.
pub open spec fn agg_b(rows: Seq<BitwiseCols<Felt>>, i: int) -> int
    decreases i,
{
    if i <= 0 {
        limbs_int(rows[0].b_bits)
    } else {
        16 * agg_b(rows, i - 1) + limbs_int(rows[i].b_bits)
    }
}

/// `16^k`.
pub open spec fn pow16(k: nat) -> int
    decreases k,
{
    if k == 0 {
        1
    } else {
        16 * pow16((k - 1) as nat)
    }
}

/// The AND (`op = 0`) or XOR (`op = 1`) of two 32-bit values.
pub open spec fn bitwise_result(op: int, x: int, y: int) -> int {
    if op == 0 {
        (x as u32 & y as u32) as int
    } else {
        (x as u32 ^ y as u32) as int
    }
}

/// The limb bits of AND and XOR: on binary limbs, the bitwise AND of the limb values is the
/// aggregation of the products, and their XOR the aggregation of `a + b - 2ab`.
proof fn lemma_limb_ops(a0: u32, a1: u32, a2: u32, a3: u32, b0: u32, b1: u32, b2: u32, b3: u32)
    by (bit_vector)
    requires
        a0 <= 1,
        a1 <= 1,
        a2 <= 1,
        a3 <= 1,
        b0 <= 1,
        b1 <= 1,
        b2 <= 1,
        b3 <= 1,
    ensures
        a0 * b0 + 2 * (a1 * b1) + 4 * (a2 * b2) + 8 * (a3 * b3) == ((a0 + 2 * a1 + 4 * a2 + 8
            * a3) as u32 & (b0 + 2 * b1 + 4 * b2 + 8 * b3) as u32),
        (a0 + b0 - 2 * (a0 * b0)) + 2 * (a1 + b1 - 2 * (a1 * b1)) + 4 * (a2 + b2 - 2 * (a2 * b2))
            + 8 * (a3 + b3 - 2 * (a3 * b3)) == ((a0 + 2 * a1 + 4 * a2 + 8 * a3) as u32 ^ (b0 + 2
            * b1 + 4 * b2 + 8 * b3) as u32),
{
}

/// Shifting four more bits in commutes with AND and XOR.
proof fn lemma_shift_ops(x: u32, y: u32, la: u32, lb: u32)
    by (bit_vector)
    requires
        x < 0x1000_0000,
        y < 0x1000_0000,
        la < 16,
        lb < 16,
    ensures
        ((x * 16 + la) as u32 & (y * 16 + lb) as u32) == (x & y) * 16 + (la & lb),
        ((x * 16 + la) as u32 ^ (y * 16 + lb) as u32) == (x ^ y) * 16 + (la ^ lb),
        (x & y) < 0x1000_0000,
        (x ^ y) < 0x1000_0000,
        (la & lb) < 16,
        (la ^ lb) < 16,
{
}

/// On binary `a`, `b`: `a * b` and `a + b - 2ab` in the field are the integer values.
proof fn lemma_binary_bit_ops(a: int, b: int)
    requires
        a == 0 || a == 1,
        b == 0 || b == 1,
    ensures
        fmul(a, b) == a * b,
        fsub(fadd(a, b), fadd(fmul(a, b), fmul(a, b))) == a + b - 2 * (a * b),
        0 <= a * b <= 1,
        0 <= a + b - 2 * (a * b) <= 1,
{
}

/// `1 * x` in the field is `x` for a residue `x`.
proof fn lemma_one_mul(x: int)
    requires
        0 <= x < p(),
    ensures
        fmul(1, x) == x,
{
}

/// A vanishing difference of two residues means they are equal.
proof fn lemma_sub_zero(x: int, y: int)
    requires
        0 <= x < p(),
        0 <= y < p(),
        fsub(x, y) == 0,
    ensures
        x == y,
{
}

/// The AND and XOR aggregations of a row with binary limbs.
proof fn lemma_row_results(c: BitwiseCols<Felt>)
    requires
        row_binary(c),
    ensures
        0 <= limbs_int(c.a_bits) < 16,
        0 <= limbs_int(c.b_bits) < 16,
        and_value(c.a_bits, c.b_bits) == (limbs_int(c.a_bits) as u32 & limbs_int(
            c.b_bits,
        ) as u32),
        xor_value(c.a_bits, c.b_bits) == (limbs_int(c.a_bits) as u32 ^ limbs_int(
            c.b_bits,
        ) as u32),
        limbs_value(c.a_bits) == limbs_int(c.a_bits),
        limbs_value(c.b_bits) == limbs_int(c.b_bits),
{
    let (a, b) = (c.a_bits, c.b_bits);
    assert(a[0].val() == 0 || a[0].val() == 1);
    assert(a[1].val() == 0 || a[1].val() == 1);
    assert(a[2].val() == 0 || a[2].val() == 1);
    assert(a[3].val() == 0 || a[3].val() == 1);
    assert(b[0].val() == 0 || b[0].val() == 1);
    assert(b[1].val() == 0 || b[1].val() == 1);
    assert(b[2].val() == 0 || b[2].val() == 1);
    assert(b[3].val() == 0 || b[3].val() == 1);
    lemma_binary_bit_ops(a[0].val(), b[0].val());
    lemma_binary_bit_ops(a[1].val(), b[1].val());
    lemma_binary_bit_ops(a[2].val(), b[2].val());
    lemma_binary_bit_ops(a[3].val(), b[3].val());
    let (a0, a1, a2, a3) = (a[0].val() as u32, a[1].val() as u32, a[2].val() as u32, a[3].val() as u32);
    let (b0, b1, b2, b3) = (b[0].val() as u32, b[1].val() as u32, b[2].val() as u32, b[3].val() as u32);
    lemma_limb_ops(a0, a1, a2, a3, b0, b1, b2, b3);
    let la = limbs_int(a);
    let lb = limbs_int(b);
    assert(0 <= la < 16 && 0 <= lb < 16);
}

/// The first-row constraints: `a` and `b` are their limbs and the previous output is zero.
proof fn lemma_bitwise_first_row(c: BitwiseCols<Felt>, n: BitwiseCols<Felt>, kt: int)
    requires
        window_holds(c, n, 1, kt),
        row_binary(c),
    ensures
        c.a.val() == limbs_int(c.a_bits),
        c.b.val() == limbs_int(c.b_bits),
        c.prev_output.val() == 0,
{
    let v = bitwise_constraint_values(c, n, 1, 1, kt);
    c.a.lemma_val_range();
    c.b.lemma_val_range();
    c.prev_output.lemma_val_range();
    lemma_row_results(c);
    assert(v[10] == 0 && v[11] == 0 && v[12] == 0);
    lemma_one_mul(fsub(c.a.val(), limbs_value(c.a_bits)));
    lemma_one_mul(fsub(c.b.val(), limbs_value(c.b_bits)));
    lemma_one_mul(c.prev_output.val());
    lemma_sub_zero(c.a.val(), limbs_int(c.a_bits));
    lemma_sub_zero(c.b.val(), limbs_int(c.b_bits));
}

/// The transition constraints: inputs shift in the next limbs, the output carries over and
/// the operation flag stays.
proof fn lemma_bitwise_transition(c: BitwiseCols<Felt>, n: BitwiseCols<Felt>, kf: int)
    requires
        window_holds(c, n, kf, 1),
    ensures
        n.a.val() == (16 * c.a.val() + limbs_value(n.a_bits)) % p(),
        n.b.val() == (16 * c.b.val() + limbs_value(n.b_bits)) % p(),
        n.prev_output.val() == c.output.val(),
        n.op_flag.val() == c.op_flag.val(),
{
    let v = bitwise_constraint_values(c, n, 1, kf, 1);
    c.a.lemma_val_range();
    c.b.lemma_val_range();
    c.output.lemma_val_range();
    c.op_flag.lemma_val_range();
    n.a.lemma_val_range();
    n.b.lemma_val_range();
    n.prev_output.lemma_val_range();
    n.op_flag.lemma_val_range();
    assert(v[1] == 0 && v[13] == 0 && v[14] == 0 && v[15] == 0);
    let na = fadd(fmul(c.a.val(), 16), limbs_value(n.a_bits));
    let nb = fadd(fmul(c.b.val(), 16), limbs_value(n.b_bits));
    lemma_one_mul(fsub(c.op_flag.val(), n.op_flag.val()));
    lemma_one_mul(fsub(n.a.val(), na));
    lemma_one_mul(fsub(n.b.val(), nb));
    lemma_one_mul(fsub(c.output.val(), n.prev_output.val()));
    lemma_sub_zero(c.op_flag.val(), n.op_flag.val());
    lemma_sub_zero(n.a.val(), na);
    lemma_sub_zero(n.b.val(), nb);
    lemma_sub_zero(c.output.val(), n.prev_output.val());
    vstd::arithmetic::div_mod::lemma_add_mod_noop(c.a.val() * 16, limbs_value(n.a_bits), p());
    vstd::arithmetic::div_mod::lemma_add_mod_noop(c.b.val() * 16, limbs_value(n.b_bits), p());
    vstd::arithmetic::div_mod::lemma_mod_twice(limbs_value(n.a_bits), p());
    vstd::arithmetic::div_mod::lemma_mod_twice(limbs_value(n.b_bits), p());
}

/// The output constraint: `z = 16 * zp + (a AND b)` or `z = 16 * zp + (a XOR b)` on the
/// limbs of the row.
proof fn lemma_bitwise_output(c: BitwiseCols<Felt>, n: BitwiseCols<Felt>, kf: int, kt: int)
    requires
        window_holds(c, n, kf, kt),
        row_binary(c),
    ensures
        c.output.val() == (16 * c.prev_output.val() + bitwise_result(
            c.op_flag.val(),
            limbs_int(c.a_bits),
            limbs_int(c.b_bits),
        )) % p(),
{
    let v = bitwise_constraint_values(c, n, 1, kf, kt);
    c.prev_output.lemma_val_range();
    c.output.lemma_val_range();
    lemma_row_results(c);
    assert(v[16] == 0);
    let e = expected_output(c);
    lemma_one_mul(fsub(c.output.val(), e));
    lemma_sub_zero(c.output.val(), e);
    let and_v = and_value(c.a_bits, c.b_bits);
    let xor_v = xor_value(c.a_bits, c.b_bits);
    let zp16 = fmul(c.prev_output.val(), 16);
    vstd::arithmetic::div_mod::lemma_add_mod_noop(c.prev_output.val() * 16, and_v, p());
    vstd::arithmetic::div_mod::lemma_small_mod(and_v as nat, p() as nat);
    vstd::arithmetic::div_mod::lemma_small_mod(xor_v as nat, p() as nat);
    if c.op_flag.val() == 0 {
        assert(fmul(0, fsub(xor_v, and_v)) == 0);
        vstd::arithmetic::div_mod::lemma_mod_twice(zp16 + and_v, p());
        assert(e == (16 * c.prev_output.val() + and_v) % p());
    } else {
        let d = fsub(xor_v, and_v);
        lemma_one_mul(d);
        vstd::arithmetic::div_mod::lemma_add_mod_noop(zp16 + and_v, xor_v - and_v, p());
        vstd::arithmetic::div_mod::lemma_add_mod_noop(
            c.prev_output.val() * 16 + and_v,
            xor_v - and_v,
            p(),
        );
        vstd::arithmetic::div_mod::lemma_mod_twice(c.prev_output.val() * 16 + and_v, p());
        assert(e == (16 * c.prev_output.val() + xor_v) % p());
    }
}

/// `16^k` is at most `2^28` for `k <= 7`.
proof fn lemma_pow16_bound(k: nat)
    requires
        k <= 7,
    ensures
        1 <= pow16(k) <= 0x1000_0000,
{
    reveal_with_fuel(pow16, 8);
    if k == 0 {
    } else if k == 1 {
    } else if k == 2 {
    } else if k == 3 {
    } else if k == 4 {
    } else if k == 5 {
    } else if k == 6 {
    } else {
    }
}

/// Rows `0..=i` of a valid cycle: `a` and `b` hold the inputs aggregated so far, the
/// operation flag is that of the first row, and the output is the AND or XOR of the
/// aggregated inputs.
proof fn lemma_bitwise_prefix(rows: Seq<BitwiseCols<Felt>>, i: int)
    requires
        cycle_holds(rows),
        0 <= i < 8,
    ensures
        0 <= agg_a(rows, i) < pow16((i + 1) as nat),
        0 <= agg_b(rows, i) < pow16((i + 1) as nat),
        rows[i].a.val() == agg_a(rows, i),
        rows[i].b.val() == agg_b(rows, i),
        rows[i].op_flag.val() == rows[0].op_flag.val(),
        rows[i].output.val() == bitwise_result(
            rows[0].op_flag.val(),
            agg_a(rows, i),
            agg_b(rows, i),
        ),
    decreases i,
{
    let c = rows[i];
    assert(window_holds(rows[i], rows[i + 1], k_first_at(i), k_transition_at(i)) && row_binary(
        rows[i],
    ));
    lemma_row_results(c);
    lemma_bitwise_output(c, rows[i + 1], k_first_at(i), k_transition_at(i));
    let la = limbs_int(c.a_bits);
    let lb = limbs_int(c.b_bits);
    let op = c.op_flag.val();
    if i == 0 {
        lemma_bitwise_first_row(c, rows[1], 1);
        assert(pow16(1) == 16) by {
            reveal_with_fuel(pow16, 2);
        }
        let (xa, xb) = (la as u32, lb as u32);
        assert((xa & xb) < 16 && (xa ^ xb) < 16) by (bit_vector)
            requires
                xa < 16,
                xb < 16,
        ;
        let r = bitwise_result(op, la, lb);
        vstd::arithmetic::div_mod::lemma_small_mod(r as nat, p() as nat);
    } else {
        lemma_bitwise_prefix(rows, i - 1);
        let pr = rows[i - 1];
        assert(window_holds(rows[i - 1], rows[i], k_first_at(i - 1), k_transition_at(i - 1)));
        lemma_bitwise_transition(pr, c, k_first_at(i - 1));
        lemma_pow16_bound(i as nat);
        let a_prev = agg_a(rows, i - 1);
        let b_prev = agg_b(rows, i - 1);
        assert(agg_a(rows, i) == 16 * a_prev + la);
        assert(agg_b(rows, i) == 16 * b_prev + lb);
        assert(pow16((i + 1) as nat) == 16 * pow16(i as nat));
        let (x, y, xa, xb) = (a_prev as u32, b_prev as u32, la as u32, lb as u32);
        lemma_shift_ops(x, y, xa, xb);
        vstd::arithmetic::div_mod::lemma_small_mod((16 * a_prev + la) as nat, p() as nat);
        vstd::arithmetic::div_mod::lemma_small_mod((16 * b_prev + lb) as nat, p() as nat);
        let prev_out = bitwise_result(op, a_prev, b_prev);
        let r = bitwise_result(op, la, lb);
        assert(prev_out < 0x1000_0000 && r < 16);
        vstd::arithmetic::div_mod::lemma_small_mod((16 * prev_out + r) as nat, p() as nat);
    }
}

/// An 8-row bitwise cycle whose constraints vanish, with binary limbs and operation flag,
/// computes the AND (`op_flag = 0`) or XOR (`op_flag = 1`) of two 32-bit values: on the
/// last row of the cycle, `a` and `b` hold the inputs, both below `2^32`, and `z` holds the
/// result; the operation flag is the same on every row.
pub proof fn lemma_bitwise_cycle_computes(rows: Seq<BitwiseCols<Felt>>)
    requires
        cycle_holds(rows),
    ensures
        rows[7].a.val() < 0x1_0000_0000,
        rows[7].b.val() < 0x1_0000_0000,
        rows[7].op_flag.val() == rows[0].op_flag.val(),
        rows[7].output.val() == bitwise_result(
            rows[7].op_flag.val(),
            rows[7].a.val(),
            rows[7].b.val(),
        ),
{
    lemma_bitwise_prefix(rows, 7);
    assert(pow16(8) == 0x1_0000_0000) by {
        reveal_with_fuel(pow16, 9);
    }
}

} // verus!
