//! Semantic row-kind flags for the controller sub-chiplet.
//!
//! [`ControllerFlags`] is a pure naming layer over compositions of the hasher-internal
//! sub-selectors `(s0, s1, s2)` on the current and next rows.
//!
//! ## Selector encoding (current row, within controller rows)
//!
//! | s0 | s1 | s2 | Row type | Flag |
//! |----|----|----|----------|------|
//! |  1 |  0 |  0 | Sponge input (LINEAR_HASH / 2-to-1 / HPERM) | `is_sponge_input` |
//! |  1 |  0 |  1 | MP input (Merkle path verify) | `is_merkle_input` |
//! |  1 |  1 |  0 | MV input (old-path Merkle root update) | `is_merkle_input` / `is_mv_input` |
//! |  1 |  1 |  1 | MU input (new-path Merkle root update) | `is_merkle_input` |
//! |  0 |  0 |  0 | HOUT output (return digest) | `is_hout` / `is_output` |
//! |  0 |  0 |  1 | SOUT output (return full state) | `is_sout` / `is_output` |
//! |  0 |  1 |  * | Padding (inactive slot) | `is_padding` |

use vstd::prelude::*;

use crate::constraints::chiplets::columns::ControllerCols;
use crate::constraints::utils::BoolNot;
use crate::field::{
    Felt, fadd, fmul, fsub, lemma_fadd_of_residues, lemma_fmul_of_residues, lemma_fsub_of_residues,
    lemma_residue_is_reduced, p,
};

verus! {

/// Named compositions of the controller sub-selectors `(s0, s1, s2)` on the current
/// and next rows.
pub struct ControllerFlags<E> {
    /// Input row: `s0` (deg 1). Covers all input operations (sponge + Merkle variants).
    pub is_input: E,
    /// Output row: `(1-s0)*(1-s1)` (deg 2). Covers HOUT and SOUT.
    pub is_output: E,
    /// Padding row: `(1-s0)*s1` (deg 2). Inactive controller slot.
    pub is_padding: E,
    /// Sponge input row (LINEAR_HASH / 2-to-1 / HPERM): `s0*(1-s1)*(1-s2)` (deg 3).
    pub is_sponge_input: E,
    /// Any Merkle input row (MP/MV/MU): `s0*(s1+s2-s1*s2)` (deg 3).
    pub is_merkle_input: E,
    /// HOUT (return digest) output: `(1-s0)*(1-s1)*(1-s2)` (deg 3).
    pub is_hout: E,
    /// SOUT (return full state) output: `(1-s0)*(1-s1)*s2` (deg 3).
    pub is_sout: E,
    /// Next row is an output row: `(1-s0')*(1-s1')` (deg 2).
    pub is_output_next: E,
    /// Next row is a padding row: `(1-s0')*s1'` (deg 2).
    pub is_padding_next: E,
    /// Next row is a sponge input: `s0'*(1-s1')*(1-s2')` (deg 3).
    pub is_sponge_input_next: E,
    /// Next row is any Merkle input (MP/MV/MU): `s0'*(s1'+s2'-s1'*s2')` (deg 3).
    pub is_merkle_input_next: E,
    /// Next row is an MV input: `s0'*s1'*(1-s2')` (deg 3).
    pub is_mv_input_next: E,
}

/// `s1 OR s2` written arithmetically: `s1 + s2 - s1*s2`.
pub open spec fn or_expr(s1: int, s2: int) -> int {
    fsub(fadd(s1, s2), fmul(s1, s2))
}

/// A sub-selector value that is 0 or 1.
pub open spec fn is_bit(x: int) -> bool {
    x == 0 || x == 1
}

/// The row-kind flags of a controller row, as they relate to its sub-selectors `(s0, s1, s2)`:
/// input, output and padding add up to one; an input row is a sponge input or a Merkle input,
/// and an output row is HOUT or SOUT; each flag is 0 or 1 and is set exactly on the selector
/// patterns of the encoding table.
pub open spec fn controller_flags_partition(s0: int, s1: int, s2: int) -> bool {
    let is_output = fmul(fsub(1, s0), fsub(1, s1));
    let is_padding = fmul(fsub(1, s0), s1);
    let is_sponge = fmul(fmul(s0, fsub(1, s1)), fsub(1, s2));
    let is_merkle = fmul(s0, or_expr(s1, s2));
    let is_hout = fmul(fmul(fsub(1, s0), fsub(1, s1)), fsub(1, s2));
    let is_sout = fmul(fmul(fsub(1, s0), fsub(1, s1)), s2);
    &&& fadd(fadd(s0, is_output), is_padding) == 1
    &&& fadd(is_sponge, is_merkle) == s0
    &&& fadd(is_hout, is_sout) == is_output
    &&& is_bit(is_output) && is_bit(is_padding) && is_bit(is_sponge)
    &&& is_bit(is_merkle) && is_bit(is_hout) && is_bit(is_sout)
    &&& (is_sponge == 1 <==> (s0 == 1 && s1 == 0 && s2 == 0))
    &&& (is_merkle == 1 <==> (s0 == 1 && (s1 == 1 || s2 == 1)))
    &&& (is_hout == 1 <==> (s0 == 0 && s1 == 0 && s2 == 0))
    &&& (is_sout == 1 <==> (s0 == 0 && s1 == 0 && s2 == 1))
    &&& (is_padding == 1 <==> (s0 == 0 && s1 == 1))
}

/// The row-kind flags partition the controller rows: on binary sub-selectors the flags
/// that [`ControllerFlags::new`] computes satisfy [`controller_flags_partition`].
pub proof fn lemma_controller_flags_partition(s0: int, s1: int, s2: int)
    requires
        is_bit(s0),
        is_bit(s1),
        is_bit(s2),
    ensures
        controller_flags_partition(s0, s1, s2),
{
    vstd::arithmetic::div_mod::lemma_small_mod(0, p() as nat);
    vstd::arithmetic::div_mod::lemma_small_mod(1, p() as nat);
    vstd::arithmetic::div_mod::lemma_small_mod(2, p() as nat);
    assert(fsub(1, 0) == 1 && fsub(1, 1) == 0);
    assert(fmul(0, 0) == 0 && fmul(0, 1) == 0 && fmul(1, 0) == 0 && fmul(1, 1) == 1);
    assert(fadd(0, 0) == 0 && fadd(0, 1) == 1 && fadd(1, 0) == 1 && fadd(1, 1) == 2);
    assert(fsub(0, 0) == 0 && fsub(1, 0) == 1 && fsub(2, 1) == 1);
    assert(or_expr(0, 0) == 0 && or_expr(0, 1) == 1 && or_expr(1, 0) == 1 && or_expr(1, 1) == 1);
    assert(controller_flags_partition(0, 0, 0));
    assert(controller_flags_partition(0, 0, 1));
    assert(controller_flags_partition(0, 1, 0));
    assert(controller_flags_partition(0, 1, 1));
    assert(controller_flags_partition(1, 0, 0));
    assert(controller_flags_partition(1, 0, 1));
    assert(controller_flags_partition(1, 1, 0));
    assert(controller_flags_partition(1, 1, 1));
}

/// The flags that [`ControllerFlags::new`] computes from the sub-selectors of the current row
/// `cols` and of the next row `cols_next`.
pub open spec fn controller_flags_of(
    r: ControllerFlags<Felt>,
    cols: ControllerCols<Felt>,
    cols_next: ControllerCols<Felt>,
) -> bool {
    let (s0, s1, s2) = (cols.s0.val(), cols.s1.val(), cols.s2.val());
    let (n0, n1, n2) = (cols_next.s0.val(), cols_next.s1.val(), cols_next.s2.val());
    &&& r.is_input == cols.s0
    &&& r.is_output.val() == fmul(fsub(1, s0), fsub(1, s1))
    &&& r.is_padding.val() == fmul(fsub(1, s0), s1)
    &&& r.is_sponge_input.val() == fmul(fmul(s0, fsub(1, s1)), fsub(1, s2))
    &&& r.is_merkle_input.val() == fmul(s0, or_expr(s1, s2))
    &&& r.is_hout.val() == fmul(fmul(fsub(1, s0), fsub(1, s1)), fsub(1, s2))
    &&& r.is_sout.val() == fmul(fmul(fsub(1, s0), fsub(1, s1)), s2)
    &&& r.is_output_next.val() == fmul(fsub(1, n0), fsub(1, n1))
    &&& r.is_padding_next.val() == fmul(fsub(1, n0), n1)
    &&& r.is_sponge_input_next.val() == fmul(fmul(n0, fsub(1, n1)), fsub(1, n2))
    &&& r.is_merkle_input_next.val() == fmul(n0, or_expr(n1, n2))
    &&& r.is_mv_input_next.val() == fmul(fmul(n0, n1), fsub(1, n2))
}

/// The row-kind identities of the controller flags, for any field values of the
/// sub-selectors: input, output and padding add up to one; sponge and Merkle inputs add up to
/// the input flag; HOUT and SOUT add up to the output flag. The next-row flags are the
/// current-row flags computed from the next row, and the next-row MV flag is the next row's
/// `f_mv`.
pub proof fn lemma_controller_flag_identities(
    f: ControllerFlags<Felt>,
    g: ControllerFlags<Felt>,
    cols: ControllerCols<Felt>,
    cols_next: ControllerCols<Felt>,
    cols_after: ControllerCols<Felt>,
)
    requires
        controller_flags_of(f, cols, cols_next),
        controller_flags_of(g, cols_next, cols_after),
    ensures
        fadd(fadd(f.is_input.val(), f.is_output.val()), f.is_padding.val()) == 1,
        fadd(f.is_sponge_input.val(), f.is_merkle_input.val()) == f.is_input.val(),
        fadd(f.is_hout.val(), f.is_sout.val()) == f.is_output.val(),
        f.is_output_next.val() == g.is_output.val(),
        f.is_padding_next.val() == g.is_padding.val(),
        f.is_sponge_input_next.val() == g.is_sponge_input.val(),
        f.is_merkle_input_next.val() == g.is_merkle_input.val(),
        f.is_mv_input_next.val() == fmul(
            fmul(cols_next.s0.val(), cols_next.s1.val()),
            fsub(1, cols_next.s2.val()),
        ),
{
    let (s0, s1, s2) = (cols.s0.val(), cols.s1.val(), cols.s2.val());
    cols.s0.lemma_val_range();
    cols.s1.lemma_val_range();
    cols.s2.lemma_val_range();
    lemma_residue_is_reduced(s0);
    lemma_residue_is_reduced(s1);
    lemma_residue_is_reduced(s2);
    lemma_residue_is_reduced(1);
    // 1 - s_i as residues
    lemma_fsub_of_residues(1, s0);
    lemma_fsub_of_residues(1, s1);
    lemma_fsub_of_residues(1, s2);
    let a = 1 - s0;
    let b = 1 - s1;
    let c = 1 - s2;
    // output, padding
    lemma_fmul_of_residues(a, b);
    lemma_fmul_of_residues(a, s1);
    let out = fmul(fsub(1, s0), fsub(1, s1));
    assert(out == (a * b) % p());
    assert(fmul(fsub(1, s0), s1) == (a * s1) % p());
    lemma_fadd_of_residues(s0, a * b);
    lemma_fadd_of_residues(s0 + a * b, a * s1);
    assert(s0 + a * b + a * s1 == 1) by (nonlinear_arith)
        requires
            a == 1 - s0,
            b == 1 - s1,
    ;
    // sponge + merkle
    lemma_fmul_of_residues(s0, b);
    lemma_fmul_of_residues(s0 * b, c);
    lemma_fadd_of_residues(s1, s2);
    lemma_fmul_of_residues(s1, s2);
    lemma_fsub_of_residues(s1 + s2, s1 * s2);
    assert(or_expr(s1, s2) == (s1 + s2 - s1 * s2) % p());
    lemma_fmul_of_residues(s0, s1 + s2 - s1 * s2);
    lemma_fadd_of_residues(s0 * b * c, s0 * (s1 + s2 - s1 * s2));
    assert(s0 * b * c + s0 * (s1 + s2 - s1 * s2) == s0) by (nonlinear_arith)
        requires
            b == 1 - s1,
            c == 1 - s2,
    ;
    // hout + sout
    lemma_fmul_of_residues(a * b, c);
    lemma_fmul_of_residues(a * b, s2);
    lemma_fadd_of_residues(a * b * c, a * b * s2);
    assert(a * b * c + a * b * s2 == a * b) by (nonlinear_arith)
        requires
            c == 1 - s2,
    ;
}

impl ControllerFlags<Felt> {
    /// Build all row-kind flags from the current and next row's sub-selector columns.
    pub fn new(cols: &ControllerCols<Felt>, cols_next: &ControllerCols<Felt>) -> (r: Self)
        ensures
            controller_flags_of(r, *cols, *cols_next),
    {
        // --- Current row ---
        let s0 = cols.s0;
        let s1 = cols.s1;
        let s2 = cols.s2;
        let not_s0 = s0.not();
        let not_s1 = s1.not();
        let not_s2 = s2.not();

        let is_input = s0;
        let is_output = not_s0.mul(not_s1);
        let is_padding = not_s0.mul(s1);
        let is_sponge_input = s0.mul(not_s1).mul(not_s2);
        let is_merkle_input = s0.mul(s1.add(s2).sub(s1.mul(s2)));
        let is_hout = is_output.mul(not_s2);
        let is_sout = is_output.mul(s2);

        // --- Next row ---
        let s0n = cols_next.s0;
        let s1n = cols_next.s1;
        let s2n = cols_next.s2;
        let not_s0n = s0n.not();
        let not_s1n = s1n.not();
        let not_s2n = s2n.not();

        let is_output_next = not_s0n.mul(not_s1n);
        let is_padding_next = not_s0n.mul(s1n);
        let is_sponge_input_next = s0n.mul(not_s1n).mul(not_s2n);
        let is_merkle_input_next = s0n.mul(s1n.add(s2n).sub(s1n.mul(s2n)));
        let is_mv_input_next = s0n.mul(s1n).mul(not_s2n);

        ControllerFlags {
            is_input,
            is_output,
            is_padding,
            is_sponge_input,
            is_merkle_input,
            is_hout,
            is_sout,
            is_output_next,
            is_padding_next,
            is_sponge_input_next,
            is_merkle_input_next,
            is_mv_input_next,
        }
    }
}

} // verus!
