//! Permutation chiplet state transition constraints.
//!
//! This module enforces the Poseidon2 permutation constraints for the permutation sub-chiplet.
//! The permutation operates on a 16-row cycle with five types of steps:
//!
//! - **Row 0 (init+ext1)**: Merged init linear layer + first external round
//! - **Rows 1-3, 12-14 (external)**: Single external round: add RCs, S-box^7, M_E
//! - **Rows 4-10 (packed internal)**: 3 internal rounds packed per row using witnesses as S-box
//!   outputs
//! - **Row 11 (int+ext)**: Last internal round + first trailing external round
//! - **Row 15 (boundary)**: No step constraint (cycle boundary, final permutation state)
//!
//! ## Poseidon2 Parameters
//!
//! - State width: 12 field elements
//! - External rounds: 8 (4 initial + 4 terminal)
//! - Internal rounds: 22
//! - S-box: x^7

use vstd::prelude::*;

use miden_core::chiplets::hasher::Hasher;

use crate::constraints::chiplets::columns::{
    HasherPeriodicCols, PermutationCols, ark_int, poseidon2_ark_int,
};
use crate::constraints::evaluator::{ConstraintEvaluator, vals};
use crate::field::{Felt, GOLDILOCKS_PRIME, fadd, fmul, fsub, p};
use crate::trace::STATE_WIDTH;

verus! {

// POSEIDON2 INTERNAL DIAGONAL
// ================================================================================================

/// Canonical value of entry `lane` of the Poseidon2 internal-layer diagonal.
pub uninterp spec fn poseidon2_mat_diag(lane: usize) -> u64;

/// Reads `Hasher::MAT_DIAG[lane]` of miden-core (the diagonal of the Poseidon2 internal
/// linear layer) as its canonical value, which lies below the modulus.
#[verifier::external_body]
fn mat_diag_entry(lane: usize) -> (r: u64)
    requires
        lane < STATE_WIDTH,
    ensures
        r == poseidon2_mat_diag(lane),
        r < GOLDILOCKS_PRIME,
{
    Hasher::MAT_DIAG[lane].as_canonical_u64()
}

/// The diagonal of the internal linear layer as field elements.
fn mat_diag() -> (r: [Felt; STATE_WIDTH])
    ensures
        forall|i: int| 0 <= i < STATE_WIDTH ==> #[trigger] r[i].val() == poseidon2_mat_diag(i as usize),
{
    let mut r = [Felt::zero(); STATE_WIDTH];
    let mut i: usize = 0;
    while i < STATE_WIDTH
        invariant
            i <= STATE_WIDTH,
            forall|j: int| 0 <= j < i ==> #[trigger] r[j].val() == poseidon2_mat_diag(j as usize),
        decreases STATE_WIDTH - i,
    {
        let v = mat_diag_entry(i);
        proof {
            vstd::arithmetic::div_mod::lemma_small_mod(v as nat, p() as nat);
        }
        r[i] = Felt::new_unchecked(v);
        i = i + 1;
    }
    r
}

/// The internal-layer diagonal as residues.
pub open spec fn diag_vals() -> Seq<int> {
    Seq::new(12, |i: int| poseidon2_mat_diag(i as usize) as int)
}

// SPECIFICATION OF THE ROUND FUNCTIONS
// ================================================================================================

/// The 4x4 matrix M4 of the external layer, on residues:
/// `[2 3 1 1; 1 2 3 1; 1 1 2 3; 3 1 1 2]`, evaluated with the additions of the constraint code.
pub open spec fn m4(x: Seq<int>) -> Seq<int> {
    let (a, b, c, d) = (x[0], x[1], x[2], x[3]);
    let t01 = fadd(a, b);
    let t23 = fadd(c, d);
    let t0123 = fadd(t01, t23);
    let t01123 = fadd(t0123, b);
    let t01233 = fadd(t0123, d);
    seq![fadd(t01123, t01), fadd(t01123, fadd(c, c)), fadd(t01233, t23), fadd(t01233, fadd(a, a))]
}

/// The column-wise sums of three M4 block outputs, added to every element of the blocks.
pub open spec fn ext_mix(b0: Seq<int>, b1: Seq<int>, b2: Seq<int>) -> Seq<int> {
    let st0 = fadd(fadd(b0[0], b1[0]), b2[0]);
    let st1 = fadd(fadd(b0[1], b1[1]), b2[1]);
    let st2 = fadd(fadd(b0[2], b1[2]), b2[2]);
    let st3 = fadd(fadd(b0[3], b1[3]), b2[3]);
    seq![
        fadd(b0[0], st0),
        fadd(b0[1], st1),
        fadd(b0[2], st2),
        fadd(b0[3], st3),
        fadd(b1[0], st0),
        fadd(b1[1], st1),
        fadd(b1[2], st2),
        fadd(b1[3], st3),
        fadd(b2[0], st0),
        fadd(b2[1], st1),
        fadd(b2[2], st2),
        fadd(b2[3], st3),
    ]
}

/// The external linear layer M_E: M4 on each 4-element block, then the column-wise sums of
/// the blocks added to every element.
#[verifier::opaque]
pub open spec fn matmul_external(s: Seq<int>) -> Seq<int> {
    ext_mix(m4(s.subrange(0, 4)), m4(s.subrange(4, 8)), m4(s.subrange(8, 12)))
}

/// The sum of the elements of a state, in the field.
pub open spec fn state_sum(s: Seq<int>) -> int
    decreases s.len(),
{
    if s.len() == 0 {
        0
    } else {
        fadd(state_sum(s.drop_last()), s.last())
    }
}

/// The internal linear layer M_I = I + diag(d) on residues: `s[i] * d[i] + sum(s)`.
#[verifier::opaque]
pub open spec fn matmul_internal(s: Seq<int>, d: Seq<int>) -> Seq<int> {
    Seq::new(12, |i: int| fadd(fmul(s[i], d[i]), state_sum(s)))
}

/// The S-box `x^7`, as `(x^2)^2 * (x^2 * x)`.
#[verifier::opaque]
pub open spec fn sbox(x: int) -> int {
    let x2 = fmul(x, x);
    fmul(fmul(x2, x2), fmul(x2, x))
}

/// One external round: add the round constants, apply the S-box to every lane, then M_E.
pub open spec fn external_round(s: Seq<int>, ark: Seq<int>) -> Seq<int> {
    matmul_external(Seq::new(12, |i: int| sbox(fadd(s[i], ark[i]))))
}

/// The initial linear layer followed by the first external round: `M_E(S(M_E(h) + ark))`.
pub open spec fn init_plus_ext(h: Seq<int>, ark: Seq<int>) -> Seq<int> {
    external_round(matmul_external(h), ark)
}

/// One internal round: add the round constant to lane 0, apply the S-box to lane 0, then M_I.
pub open spec fn internal_round(s: Seq<int>, c: int, d: Seq<int>) -> Seq<int> {
    matmul_internal(s.update(0, sbox(fadd(s[0], c))), d)
}

/// The state after `k` packed internal rounds whose lane-0 S-box outputs are the witnesses
/// `w`: each round puts the witness in lane 0, then applies M_I.
pub open spec fn packed_state(h: Seq<int>, w: Seq<int>, d: Seq<int>, k: nat) -> Seq<int>
    decreases k,
{
    if k == 0 {
        h
    } else {
        let s = packed_state(h, w, d, (k - 1) as nat);
        matmul_internal(s.update(0, w[k - 1]), d)
    }
}

/// The witness check of packed round `k`: `w_k - (s_k[0] + c_k)^7`.
pub open spec fn packed_check(h: Seq<int>, w: Seq<int>, c: Seq<int>, d: Seq<int>, k: nat) -> int {
    fsub(w[k as int], sbox(fadd(packed_state(h, w, d, k)[0], c[k as int])))
}

/// `k` internal rounds with the constants `c`.
pub open spec fn internal_rounds(h: Seq<int>, c: Seq<int>, d: Seq<int>, k: nat) -> Seq<int>
    decreases k,
{
    if k == 0 {
        h
    } else {
        internal_round(internal_rounds(h, c, d, (k - 1) as nat), c[k - 1], d)
    }
}

// LINEAR ALGEBRA HELPERS
// ================================================================================================

/// Applies the 4x4 matrix M4 used in Poseidon2's external linear layer.
fn matmul_m4(input: [Felt; 4]) -> (r: [Felt; 4])
    ensures
        vals(r@) == m4(vals(input@)),
{
    let (a, b, c, d) = (input[0], input[1], input[2], input[3]);
    let t01 = a.add(b);
    let t23 = c.add(d);
    let t0123 = t01.add(t23);
    let t01123 = t0123.add(b);
    let t01233 = t0123.add(d);

    let out0 = t01123.add(t01);
    let out1 = t01123.add(c.double());
    let out2 = t01233.add(t23);
    let out3 = t01233.add(a.double());

    let r = [out0, out1, out2, out3];
    assert(vals(r@) =~= m4(vals(input@)));
    r
}

/// Adds the column-wise sums of three M4 block outputs to every element of the blocks.
fn mix_blocks(b0: &[Felt; 4], b1: &[Felt; 4], b2: &[Felt; 4]) -> (r: [Felt; STATE_WIDTH])
    ensures
        vals(r@) == ext_mix(vals(b0@), vals(b1@), vals(b2@)),
{
    // Compute cross-block sums
    let stored0 = b0[0].add(b1[0]).add(b2[0]);
    let stored1 = b0[1].add(b1[1]).add(b2[1]);
    let stored2 = b0[2].add(b1[2]).add(b2[2]);
    let stored3 = b0[3].add(b1[3]).add(b2[3]);

    // Add sums to each element
    let r = [
        b0[0].add(stored0),
        b0[1].add(stored1),
        b0[2].add(stored2),
        b0[3].add(stored3),
        b1[0].add(stored0),
        b1[1].add(stored1),
        b1[2].add(stored2),
        b1[3].add(stored3),
        b2[0].add(stored0),
        b2[1].add(stored1),
        b2[2].add(stored2),
        b2[3].add(stored3),
    ];
    assert(vals(r@) =~= ext_mix(vals(b0@), vals(b1@), vals(b2@)));
    r
}

/// Applies the external linear layer M_E to the state.
///
/// The external layer consists of:
/// 1. Apply M4 to each 4-element block
/// 2. Add cross-block sums to each element
fn apply_matmul_external(state: &[Felt; STATE_WIDTH]) -> (r: [Felt; STATE_WIDTH])
    ensures
        vals(r@) == matmul_external(vals(state@)),
{
    let ghost s = vals(state@);
    // Apply M4 to each 4-element block
    let q0 = [state[0], state[1], state[2], state[3]];
    let q1 = [state[4], state[5], state[6], state[7]];
    let q2 = [state[8], state[9], state[10], state[11]];
    assert(vals(q0@) =~= s.subrange(0, 4));
    assert(vals(q1@) =~= s.subrange(4, 8));
    assert(vals(q2@) =~= s.subrange(8, 12));
    let b0 = matmul_m4(q0);
    let b1 = matmul_m4(q1);
    let b2 = matmul_m4(q2);
    let r = mix_blocks(&b0, &b1, &b2);
    assert(vals(r@) == matmul_external(s)) by {
        reveal(matmul_external);
    }
    r
}

/// Sums the elements of a state.
fn sum_array(state: &[Felt; STATE_WIDTH]) -> (r: Felt)
    ensures
        r.val() == state_sum(vals(state@)),
{
    let mut acc = Felt::zero();
    let mut i: usize = 0;
    while i < STATE_WIDTH
        invariant
            i <= STATE_WIDTH,
            acc.val() == state_sum(vals(state@).subrange(0, i as int)),
        decreases STATE_WIDTH - i,
    {
        let ghost prev = vals(state@).subrange(0, i as int);
        acc = acc.add(state[i]);
        proof {
            let next = vals(state@).subrange(0, i + 1);
            assert(next.drop_last() =~= prev);
            assert(next.last() == state[i as int].val());
        }
        i = i + 1;
    }
    assert(vals(state@).subrange(0, 12) =~= vals(state@));
    acc
}

/// Applies the internal linear layer M_I to the state.
///
/// M_I = I + diag(MAT_DIAG) where all rows share the same sum.
fn apply_matmul_internal(
    state: &[Felt; STATE_WIDTH],
    mat_diag: &[Felt; STATE_WIDTH],
) -> (r: [Felt; STATE_WIDTH])
    ensures
        vals(r@) == matmul_internal(vals(state@), vals(mat_diag@)),
{
    // Sum of all state elements
    let sum = sum_array(state);
    proof {
        reveal(matmul_internal);
    }
    // result[i] = state[i] * MAT_DIAG[i] + sum
    let mut r = [Felt::zero(); STATE_WIDTH];
    let mut i: usize = 0;
    while i < STATE_WIDTH
        invariant
            i <= STATE_WIDTH,
            sum.val() == state_sum(vals(state@)),
            forall|j: int|
                0 <= j < 12 ==> #[trigger] matmul_internal(vals(state@), vals(mat_diag@))[j]
                    == fadd(fmul(vals(state@)[j], vals(mat_diag@)[j]), state_sum(vals(state@))),
            forall|j: int|
                0 <= j < i ==> #[trigger] r[j].val() == matmul_internal(
                    vals(state@),
                    vals(mat_diag@),
                )[j],
        decreases STATE_WIDTH - i,
    {
        r[i] = state[i].mul(mat_diag[i]).add(sum);
        i = i + 1;
    }
    assert(vals(r@) =~= matmul_internal(vals(state@), vals(mat_diag@))) by {
        reveal(matmul_internal);
    }
    r
}

/// The S-box `x^7`.
fn exp7(x: Felt) -> (r: Felt)
    ensures
        r.val() == sbox(x.val()),
{
    let x2 = x.mul(x);
    let r = x2.mul(x2).mul(x2.mul(x));
    assert(r.val() == sbox(x.val())) by {
        reveal(sbox);
    }
    r
}

// PACKED ROUND HELPERS
// ================================================================================================

/// Adds the round constants to the state, then applies the S-box to every lane.
fn add_rc_sbox(state: &[Felt; STATE_WIDTH], ark: &[Felt; STATE_WIDTH]) -> (r: [Felt; STATE_WIDTH])
    ensures
        forall|i: int|
            0 <= i < STATE_WIDTH ==> #[trigger] r[i].val() == sbox(fadd(state[i].val(), ark[i].val())),
{
    let mut r = [Felt::zero(); STATE_WIDTH];
    let mut i: usize = 0;
    while i < STATE_WIDTH
        invariant
            i <= STATE_WIDTH,
            forall|j: int|
                0 <= j < i ==> #[trigger] r[j].val() == sbox(fadd(state[j].val(), ark[j].val())),
        decreases STATE_WIDTH - i,
    {
        r[i] = exp7(state[i].add(ark[i]));
        i = i + 1;
    }
    r
}

/// Computes the expected next state for the merged init linear + first external round.
///
/// h' = M_E(S(M_E(h) + ark_ext))
pub fn apply_init_plus_ext(
    h: &[Felt; STATE_WIDTH],
    ark_ext: &[Felt; STATE_WIDTH],
) -> (r: [Felt; STATE_WIDTH])
    ensures
        vals(r@) == init_plus_ext(vals(h@), vals(ark_ext@)),
{
    // Apply M_E to get the pre-round state
    let pre = apply_matmul_external(h);
    // Add round constants, apply S-box, apply M_E
    let with_sbox = add_rc_sbox(&pre, ark_ext);
    let r = apply_matmul_external(&with_sbox);
    assert(vals(with_sbox@) =~= Seq::new(
        12,
        |i: int| sbox(fadd(vals(pre@)[i], vals(ark_ext@)[i])),
    ));
    r
}

/// Computes the expected next state of one external round: `M_E(S(h + ark))`.
fn apply_external_round(
    h: &[Felt; STATE_WIDTH],
    ark: &[Felt; STATE_WIDTH],
) -> (r: [Felt; STATE_WIDTH])
    ensures
        vals(r@) == external_round(vals(h@), vals(ark@)),
{
    let with_sbox = add_rc_sbox(h, ark);
    assert(vals(with_sbox@) =~= Seq::new(12, |i: int| sbox(fadd(vals(h@)[i], vals(ark@)[i]))));
    apply_matmul_external(&with_sbox)
}

/// Computes the expected next state and witness checks for 3 packed internal rounds.
///
/// Each internal round applies: add RC to lane 0, S-box lane 0, then M_I.
/// The S-box output for each round is provided as an explicit witness (w0, w1, w2),
/// which keeps the intermediate states affine.
///
/// Returns:
/// - `next_state`: expected state after all 3 rounds
/// - `witness_checks`: 3 expressions that must be zero: `wk - (y(k)_0 + ark_int[k])^7`
pub fn apply_packed_internals(
    h: &[Felt; STATE_WIDTH],
    w: &[Felt; 3],
    ark_int: &[Felt; 3],
    mat_diag: &[Felt; STATE_WIDTH],
) -> (r: ([Felt; STATE_WIDTH], [Felt; 3]))
    ensures
        vals(r.0@) == packed_state(vals(h@), vals(w@), vals(mat_diag@), 3),
        forall|k: int|
            0 <= k < 3 ==> #[trigger] r.1[k].val() == packed_check(
                vals(h@),
                vals(w@),
                vals(ark_int@),
                vals(mat_diag@),
                k as nat,
            ),
{
    let ghost (hs, ws, cs, ds) = (vals(h@), vals(w@), vals(ark_int@), vals(mat_diag@));
    let mut state = *h;
    let mut witness_checks = [Felt::zero(); 3];

    let mut k: usize = 0;
    while k < 3
        invariant
            k <= 3,
            hs == vals(h@),
            ws == vals(w@),
            cs == vals(ark_int@),
            ds == vals(mat_diag@),
            vals(state@) == packed_state(hs, ws, ds, k as nat),
            forall|j: int|
                0 <= j < k ==> #[trigger] witness_checks[j].val() == packed_check(
                    hs,
                    ws,
                    cs,
                    ds,
                    j as nat,
                ),
        decreases 3 - k,
    {
        // Witness check: wk = (state[0] + ark_int[k])^7
        let sbox_input = state[0].add(ark_int[k]);
        witness_checks[k] = w[k].sub(exp7(sbox_input));

        // Substitute witness for lane 0 and apply M_I
        state[0] = w[k];
        proof {
            assert(vals(state@) =~= packed_state(hs, ws, ds, k as nat).update(0, ws[k as int]));
        }
        state = apply_matmul_internal(&state, mat_diag);
        k = k + 1;
    }

    (state, witness_checks)
}

/// Computes the expected next state and witness check for one internal round followed
/// by one external round.
///
/// Used for the int22+ext5 merged row (row 11). The internal round constant ARK_INT[21]
/// is passed as a concrete value rather than read from a periodic column.
///
/// Returns:
/// - `next_state`: expected state after int + ext
/// - `witness_check`: `w0 - (h[0] + ark_int_const)^7`
pub fn apply_internal_plus_ext(
    h: &[Felt; STATE_WIDTH],
    w0: &Felt,
    ark_int_const: Felt,
    ark_ext: &[Felt; STATE_WIDTH],
    mat_diag: &[Felt; STATE_WIDTH],
) -> (r: ([Felt; STATE_WIDTH], Felt))
    ensures
        vals(r.0@) == external_round(
            matmul_internal(vals(h@).update(0, w0.val()), vals(mat_diag@)),
            vals(ark_ext@),
        ),
        r.1.val() == fsub(w0.val(), sbox(fadd(h[0].val(), ark_int_const.val()))),
{
    // Internal round: witness check and state update
    let sbox_input = h[0].add(ark_int_const);
    let witness_check = w0.sub(exp7(sbox_input));

    let mut int_state = *h;
    int_state[0] = *w0;
    assert(vals(int_state@) =~= vals(h@).update(0, w0.val()));
    let intermediate = apply_matmul_internal(&int_state, mat_diag);

    // External round: add RC, S-box all lanes, M_E
    let next_state = apply_external_round(&intermediate, ark_ext);

    (next_state, witness_check)
}

// CONSTRAINT HELPERS
// ================================================================================================

/// Lane-wise state constraints `gate * (hn[i] - expected[i])`.
pub open spec fn lane_values(gate: int, hn: Seq<int>, expected: Seq<int>) -> Seq<int> {
    Seq::new(12, |i: int| fmul(gate, fsub(hn[i], expected[i])))
}

/// The witness-zeroing constraints of a permutation row: `w0` off packed-internal and
/// int+ext rows, `w1`, `w2` off packed-internal rows.
pub open spec fn witness_zero_values(gate: int, w: Seq<int>, sel: Seq<int>) -> Seq<int> {
    let g_w0 = fmul(gate, fsub(fsub(1, sel[2]), sel[3]));
    let g_w12 = fmul(gate, fsub(1, sel[2]));
    seq![fmul(g_w0, w[0]), fmul(g_w12, w[1]), fmul(g_w12, w[2])]
}

/// The three packed witness checks, gated by `gate`.
pub open spec fn packed_check_values(
    gate: int,
    h: Seq<int>,
    w: Seq<int>,
    c: Seq<int>,
    d: Seq<int>,
) -> Seq<int> {
    Seq::new(3, |k: int| fmul(gate, packed_check(h, w, c, d, k as nat)))
}

/// The values of the Poseidon2 step constraints of a permutation row, gated by `gate`, with
/// state `h`, next state `hn`, witnesses `w`, step selectors `sel` (init+ext, ext, packed
/// internal, int+ext), round constants `ark`, internal diagonal `d` and the constant `ark21`
/// of the last internal round.
pub open spec fn permutation_step_values(
    gate: int,
    h: Seq<int>,
    hn: Seq<int>,
    w: Seq<int>,
    sel: Seq<int>,
    ark: Seq<int>,
    d: Seq<int>,
    ark21: int,
) -> Seq<int> {
    let g_packed = fmul(gate, sel[2]);
    let g_int_ext = fmul(gate, sel[3]);
    witness_zero_values(gate, w, sel) + lane_values(fmul(gate, sel[0]), hn, init_plus_ext(h, ark))
        + lane_values(fmul(gate, sel[1]), hn, external_round(h, ark)) + packed_check_values(
        g_packed,
        h,
        w,
        ark.subrange(0, 3),
        d,
    ) + lane_values(g_packed, hn, packed_state(h, w, d, 3)) + seq![
        fmul(g_int_ext, fsub(w[0], sbox(fadd(h[0], ark21)))),
    ] + lane_values(g_int_ext, hn, external_round(matmul_internal(h.update(0, w[0]), d), ark))
}

/// Asserts `h_next == expected` lane by lane, gated by `gate`.
fn assert_state_eq(
    builder: &mut ConstraintEvaluator,
    gate: Felt,
    h_next: &[Felt; STATE_WIDTH],
    expected: &[Felt; STATE_WIDTH],
)
    ensures
        final(builder).periodic == old(builder).periodic,
        final(builder).is_transition == old(builder).is_transition,
        final(builder).is_first_row == old(builder).is_first_row,
        final(builder).is_last_row == old(builder).is_last_row,
        final(builder).values() == old(builder).values() + lane_values(
            gate.val(),
            vals(h_next@),
            vals(expected@),
        ),
{
    let ghost start = builder.values();
    let mut i: usize = 0;
    while i < STATE_WIDTH
        invariant
            i <= STATE_WIDTH,
            builder.periodic == old(builder).periodic,
            builder.is_transition == old(builder).is_transition,
            builder.is_first_row == old(builder).is_first_row,
            builder.is_last_row == old(builder).is_last_row,
            builder.values() == start + Seq::new(
                i as nat,
                |j: int| fmul(gate.val(), fsub(h_next[j].val(), expected[j].val())),
            ),
        decreases STATE_WIDTH - i,
    {
        builder.assert_eq_when(gate, h_next[i], expected[i]);
        i = i + 1;
        assert(builder.values() =~= start + Seq::new(
            i as nat,
            |j: int| fmul(gate.val(), fsub(h_next[j].val(), expected[j].val())),
        ));
    }
    assert(lane_values(gate.val(), vals(h_next@), vals(expected@)) =~= Seq::new(
        12,
        |j: int| fmul(gate.val(), fsub(h_next[j].val(), expected[j].val())),
    ));
}

/// Enforces Poseidon2 permutation step constraints on the 16-row packed cycle.
///
/// These constraints are gated by `perm_gate`, so they only fire on permutation segment
/// rows.
///
/// ## Step Types
///
/// 1. **Init+ext1 (row 0)**: `h' = M_E(S(M_E(h) + ark))`
/// 2. **Single ext (rows 1-3, 12-14)**: `h' = M_E(S(h + ark))`
/// 3. **Packed 3x internal (rows 4-10)**: witnesses + affine next-state
/// 4. **Int+ext (row 11)**: witness + `h' = M_E(S(y + ark))`
/// 5. **Boundary (row 15)**: No constraint
///
/// The witness columns `w[0..2]` correspond to the S-box outputs on permutation rows.
pub fn enforce_permutation_steps(
    builder: &mut ConstraintEvaluator,
    perm_gate: Felt,
    cols: &PermutationCols<Felt>,
    cols_next: &PermutationCols<Felt>,
    periodic: &HasherPeriodicCols<Felt>,
)
    ensures
        final(builder).periodic == old(builder).periodic,
        final(builder).is_transition == old(builder).is_transition,
        final(builder).is_first_row == old(builder).is_first_row,
        final(builder).is_last_row == old(builder).is_last_row,
        final(builder).values() == old(builder).values() + permutation_step_values(
            perm_gate.val(),
            vals(cols.state@),
            vals(cols_next.state@),
            vals(cols.witnesses@),
            seq![
                periodic.is_init_ext.val(),
                periodic.is_ext.val(),
                periodic.is_packed_int.val(),
                periodic.is_int_ext.val(),
            ],
            vals(periodic.ark@),
            diag_vals(),
            poseidon2_ark_int(21) as int,
        ),
{
    let ghost start = builder.values();
    let h = &cols.state;
    let h_next = &cols_next.state;
    let w = &cols.witnesses;

    // Step-type selectors
    let is_init_ext = periodic.is_init_ext;
    let is_ext = periodic.is_ext;
    let is_packed_int = periodic.is_packed_int;
    let is_int_ext = periodic.is_int_ext;

    // Shared round constants
    let ark = &periodic.ark;

    // Constants of the hasher: the internal diagonal and the last internal round constant.
    let mat_diag = mat_diag();
    let ark_int_21_value = ark_int(21);
    proof {
        vstd::arithmetic::div_mod::lemma_small_mod(ark_int_21_value as nat, p() as nat);
        assert(vals(mat_diag@) =~= diag_vals());
    }
    let ark_int_21 = Felt::new_unchecked(ark_int_21_value);

    // 0. Unused witness zeroing: w0 on rows that are neither packed-int nor int+ext, w1 and
    // w2 on rows that are not packed-int.
    builder.assert_zero_when(perm_gate.mul(Felt::one().sub(is_packed_int).sub(is_int_ext)), w[0]);
    let w12_gate = perm_gate.mul(Felt::one().sub(is_packed_int));
    builder.assert_zero_when(w12_gate, w[1]);
    builder.assert_zero_when(w12_gate, w[2]);
    let ghost hs = vals(h@);
    let ghost hn = vals(h_next@);
    let ghost ws = vals(w@);
    let ghost sel = seq![is_init_ext.val(), is_ext.val(), is_packed_int.val(), is_int_ext.val()];
    let ghost arks = vals(ark@);
    let ghost g = perm_gate.val();
    let ghost ark21 = poseidon2_ark_int(21) as int;
    assert(vals(w@)[0] == w[0].val() && vals(w@)[1] == w[1].val() && vals(w@)[2] == w[2].val());
    assert(builder.values() =~= start + witness_zero_values(g, ws, sel));

    // 1. Init+ext1 (row 0): h' = M_E(S(M_E(h) + ark))
    let expected = apply_init_plus_ext(h, ark);
    assert_state_eq(builder, perm_gate.mul(is_init_ext), h_next, &expected);
    let ghost part1 = witness_zero_values(g, ws, sel) + lane_values(
        fmul(g, sel[0]),
        hn,
        init_plus_ext(hs, arks),
    );
    assert(builder.values() =~= start + part1);

    // 2. Single external round (rows 1-3, 12-14): h' = M_E(S(h + ark))
    let expected = apply_external_round(h, ark);
    assert_state_eq(builder, perm_gate.mul(is_ext), h_next, &expected);
    let ghost part2 = part1 + lane_values(fmul(g, sel[1]), hn, external_round(hs, arks));
    assert(builder.values() =~= start + part2);

    // 3. Packed 3x internal (rows 4-10): witness checks + affine next-state.
    // ark[0..2] hold the 3 internal round constants on packed-int rows.
    let ark_int_3 = [ark[0], ark[1], ark[2]];
    let (expected, witness_checks) = apply_packed_internals(h, w, &ark_int_3, &mat_diag);
    let packed_gate = perm_gate.mul(is_packed_int);
    builder.assert_zero_when(packed_gate, witness_checks[0]);
    builder.assert_zero_when(packed_gate, witness_checks[1]);
    builder.assert_zero_when(packed_gate, witness_checks[2]);
    proof {
        assert(vals(ark_int_3@) =~= arks.subrange(0, 3));
        assert(builder.values() =~= start + part2 + packed_check_values(
            fmul(g, sel[2]),
            hs,
            ws,
            arks.subrange(0, 3),
            diag_vals(),
        ));
    }
    assert_state_eq(builder, packed_gate, h_next, &expected);
    let ghost part3 = part2 + packed_check_values(
        fmul(g, sel[2]),
        hs,
        ws,
        arks.subrange(0, 3),
        diag_vals(),
    ) + lane_values(fmul(g, sel[2]), hn, packed_state(hs, ws, diag_vals(), 3));
    assert(builder.values() =~= start + part3);

    // 4. Int+ext merged (row 11): 1 internal (ARK_INT[21]) + 1 external round.
    let (expected, witness_check) = apply_internal_plus_ext(h, &w[0], ark_int_21, ark, &mat_diag);
    let int_ext_gate = perm_gate.mul(is_int_ext);
    builder.assert_zero_when(int_ext_gate, witness_check);
    assert(vals(h@)[0] == h[0].val());
    assert(builder.values() =~= start + part3 + seq![
        fmul(fmul(g, sel[3]), fsub(ws[0], sbox(fadd(hs[0], ark21)))),
    ]);
    assert_state_eq(builder, int_ext_gate, h_next, &expected);

    proof {
        assert(builder.values() =~= start + permutation_step_values(
            perm_gate.val(),
            vals(h@),
            vals(h_next@),
            vals(w@),
            seq![is_init_ext.val(), is_ext.val(), is_packed_int.val(), is_int_ext.val()],
            vals(ark@),
            diag_vals(),
            poseidon2_ark_int(21) as int,
        ));
    }
}

// LAWS
// ================================================================================================

/// When the witness checks of the first `k` packed rounds vanish, the packed state is the
/// state after `k` internal Poseidon2 rounds.
proof fn lemma_packed_prefix(h: Seq<int>, w: Seq<int>, c: Seq<int>, d: Seq<int>, k: nat)
    requires
        k <= 3,
        w.len() == 3,
        forall|j: int| 0 <= j < 3 ==> 0 <= #[trigger] w[j] < p(),
        forall|j: nat| j < k ==> #[trigger] packed_check(h, w, c, d, j) == 0,
    ensures
        packed_state(h, w, d, k) == internal_rounds(h, c, d, k),
    decreases k,
{
    if k > 0 {
        let j = (k - 1) as nat;
        assert(packed_check(h, w, c, d, j) == 0);
        lemma_packed_prefix(h, w, c, d, j);
        let s = packed_state(h, w, d, j);
        let y = sbox(fadd(s[0], c[j as int]));
        assert(0 <= y < p()) by {
            reveal(sbox);
        }
        assert(w[j as int] == y);
    }
}

/// Three packed internal rows are three internal Poseidon2 rounds: when the three witness
/// checks vanish (the witnesses are the lane-0 S-box outputs), the expected next state of a
/// packed row is the state after three full internal rounds with the row's round constants.
pub proof fn lemma_packed_internals_are_rounds(h: Seq<int>, w: Seq<int>, c: Seq<int>, d: Seq<int>)
    requires
        w.len() == 3,
        forall|j: int| 0 <= j < 3 ==> 0 <= #[trigger] w[j] < p(),
        forall|k: nat| k < 3 ==> #[trigger] packed_check(h, w, c, d, k) == 0,
    ensures
        packed_state(h, w, d, 3) == internal_rounds(h, c, d, 3),
{
    lemma_packed_prefix(h, w, c, d, 3);
}

/// The merged row is one internal round followed by one external round: when its witness
/// check vanishes, its expected next state is `external_round(internal_round(h, c), ark)`.
pub proof fn lemma_internal_plus_ext_is_rounds(
    h: Seq<int>,
    w0: int,
    c: int,
    ark: Seq<int>,
    d: Seq<int>,
)
    requires
        0 <= w0 < p(),
        h.len() == 12,
        fsub(w0, sbox(fadd(h[0], c))) == 0,
    ensures
        external_round(matmul_internal(h.update(0, w0), d), ark) == external_round(
            internal_round(h, c, d),
            ark,
        ),
{
    let y = sbox(fadd(h[0], c));
    assert(0 <= y < p()) by {
        reveal(sbox);
    }
    assert(w0 == y);
}

} // verus!
