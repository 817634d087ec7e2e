//! Field, extension-field and helper arithmetic.

use miden_air::constraints::chiplets::columns::ControllerCols;
use miden_air::constraints::chiplets::hasher_control::flags::ControllerFlags;
use miden_air::constraints::columns::MainCols;
use miden_air::constraints::ext_field::QuadFeltExpr;
use miden_air::constraints::utils::{BoolNot, horner_eval_bits};
use miden_air::field::{Felt, GOLDILOCKS_PRIME};
use miden_air::node_builder::NodeBuilder;
use miden_air::trace::TRACE_WIDTH;

fn f(v: u64) -> Felt {
    Felt::new_unchecked(v)
}

#[test]
fn felt_arithmetic_wraps_modulo_p() {
    let p_minus_1 = GOLDILOCKS_PRIME - 1;
    assert_eq!(f(p_minus_1).add(f(2)).as_canonical_u64(), 1);
    assert_eq!(f(3).sub(f(5)).as_canonical_u64(), GOLDILOCKS_PRIME - 2);
    assert_eq!(f(5).neg().as_canonical_u64(), GOLDILOCKS_PRIME - 5);
    assert_eq!(f(p_minus_1).mul(f(p_minus_1)).as_canonical_u64(), 1);
    assert_eq!(f(1 << 32).mul(f(1 << 32)).as_canonical_u64(), (1u64 << 32) - 1);
    assert_eq!(f(7).double().as_canonical_u64(), 14);
    assert_eq!(f(12).square().as_canonical_u64(), 144);
    // non-canonical words denote their residue
    assert_eq!(f(GOLDILOCKS_PRIME + 3), f(3));
    assert_eq!(f(u64::MAX).as_canonical_u64(), u64::MAX - GOLDILOCKS_PRIME);
    assert_eq!(Felt::from_u8(200).as_canonical_u64(), 200);
    assert_eq!(Felt::from_u16(60000).as_canonical_u64(), 60000);
    assert_eq!(Felt::from_u64(GOLDILOCKS_PRIME).as_canonical_u64(), 0);
}

#[test]
fn bool_not_and_horner() {
    assert_eq!(Felt::one().not(), Felt::zero());
    assert_eq!(Felt::zero().not(), Felt::one());
    assert_eq!(f(3).not(), Felt::zero().sub(f(2)));
    // little-endian bits 1, 0, 1, 1 -> 1 + 4 + 8
    let bits = [f(1), f(0), f(1), f(1)];
    assert_eq!(horner_eval_bits(&bits).as_canonical_u64(), 13);
    let seven_bits = [f(0), f(1), f(0), f(1), f(0), f(1), f(1)];
    assert_eq!(horner_eval_bits(&seven_bits).as_canonical_u64(), 0b1101010);
}

#[test]
fn quad_extension_arithmetic() {
    let a = QuadFeltExpr::new(f(2), f(3));
    let b = QuadFeltExpr::new(f(4), f(5));
    // (2 + 3u)(4 + 5u) = 8 + 15 * 7 + (10 + 12)u
    let prod = a.ext_mul(b);
    assert_eq!(prod.into_parts(), [f(113), f(22)]);
    assert_eq!(a.mul(b).into_parts(), [f(113), f(22)]);
    // (2 + 3u)^2 = 4 + 9 * 7 + 12u
    assert_eq!(a.square().into_parts(), [f(67), f(12)]);
    assert_eq!(a.double().into_parts(), [f(4), f(6)]);
    assert_eq!(a.add(b).into_parts(), [f(6), f(8)]);
    assert_eq!(b.sub(a).into_parts(), [f(2), f(2)]);
    assert_eq!(a.add_base(f(10)).into_parts(), [f(12), f(3)]);
    assert_eq!(a.sub_base(f(1)).into_parts(), [f(1), f(3)]);
    assert_eq!(a.mul_base(f(3)).into_parts(), [f(6), f(9)]);
    let converted: QuadFeltExpr<Felt> = a.into_expr();
    assert_eq!(converted.into_parts(), [f(2), f(3)]);
    // u^2 = 7
    let u = QuadFeltExpr::new(Felt::zero(), Felt::one());
    assert_eq!(u.square().into_parts(), [f(7), Felt::zero()]);
}

#[test]
fn extension_product_laws_on_values() {
    let x = QuadFeltExpr::new(f(3), f(11));
    let y = QuadFeltExpr::new(f(17), Felt::zero().sub(f(5)));
    let z = QuadFeltExpr::new(f(1 << 40), f(9));
    let one_ef = QuadFeltExpr::new(Felt::one(), Felt::zero());
    assert_eq!(x.ext_mul(y).into_parts(), y.ext_mul(x).into_parts());
    assert_eq!(x.ext_mul(y).ext_mul(z).into_parts(), x.ext_mul(y.ext_mul(z)).into_parts());
    assert_eq!(x.ext_mul(one_ef).into_parts(), x.into_parts());
    assert_eq!(x.ext_mul(y.add(z)).into_parts(), x.ext_mul(y).add(x.ext_mul(z)).into_parts());
}

fn controller(s0: u64, s1: u64, s2: u64) -> ControllerCols<Felt> {
    let mut row = MainCols::from_row(&vec![Felt::zero(); TRACE_WIDTH]);
    row.chiplets[1] = f(s0);
    row.chiplets[2] = f(s1);
    row.chiplets[3] = f(s2);
    row.controller()
}

#[test]
fn controller_flags_of_row_kinds() {
    // sponge input, followed by an output row (HOUT)
    let flags = ControllerFlags::new(&controller(1, 0, 0), &controller(0, 0, 0));
    assert_eq!(flags.is_input, Felt::one());
    assert_eq!(flags.is_sponge_input, Felt::one());
    assert_eq!(flags.is_merkle_input, Felt::zero());
    assert_eq!(flags.is_output, Felt::zero());
    assert_eq!(flags.is_padding, Felt::zero());
    assert_eq!(flags.is_output_next, Felt::one());
    assert_eq!(flags.is_padding_next, Felt::zero());

    // SOUT output row followed by padding
    let flags = ControllerFlags::new(&controller(0, 0, 1), &controller(0, 1, 0));
    assert_eq!(flags.is_output, Felt::one());
    assert_eq!(flags.is_sout, Felt::one());
    assert_eq!(flags.is_hout, Felt::zero());
    assert_eq!(flags.is_padding_next, Felt::one());

    // Merkle (MV) input next
    let flags = ControllerFlags::new(&controller(0, 1, 0), &controller(1, 1, 0));
    assert_eq!(flags.is_padding, Felt::one());
    assert_eq!(flags.is_merkle_input_next, Felt::one());
    assert_eq!(flags.is_mv_input_next, Felt::one());
    assert_eq!(flags.is_sponge_input_next, Felt::zero());
}

#[test]
fn controller_flag_identities_hold_for_any_selector_values() {
    let cols = controller(5, 9, 13);
    let next = controller(2, 7, 11);
    let flags = ControllerFlags::new(&cols, &next);
    assert_eq!(flags.is_input.add(flags.is_output).add(flags.is_padding), Felt::one());
    assert_eq!(flags.is_sponge_input.add(flags.is_merkle_input), flags.is_input);
    assert_eq!(flags.is_hout.add(flags.is_sout), flags.is_output);
    let next_flags = ControllerFlags::new(&next, &cols);
    assert_eq!(flags.is_output_next, next_flags.is_output);
    assert_eq!(flags.is_padding_next, next_flags.is_padding);
    assert_eq!(flags.is_sponge_input_next, next_flags.is_sponge_input);
    assert_eq!(flags.is_merkle_input_next, next_flags.is_merkle_input);
    assert_eq!(flags.is_mv_input_next, next.f_mv());
}

#[test]
fn chiplet_overlays_share_columns() {
    let mut row = MainCols::from_row(&vec![Felt::zero(); TRACE_WIDTH]);
    for i in 0..20 {
        row.chiplets[i] = f(100 + i as u64);
    }
    row.s_perm = f(7);
    assert_eq!(row.chiplet_selectors(), [f(100), f(7), f(101), f(102), f(103), f(104)]);
    assert_eq!(row.bitwise().op_flag, f(102));
    assert_eq!(row.memory().is_read, f(103));
    assert_eq!(row.ace().s_start, f(104));
    assert_eq!(row.kernel_rom().s_first, f(105));
    let perm = row.permutation();
    let ctrl = row.controller();
    assert_eq!(perm.witnesses[0], ctrl.s0);
    assert_eq!(perm.state, ctrl.state);
    assert_eq!(perm.multiplicity, ctrl.node_index);
    assert_eq!(ctrl.rate()[0], f(104));
    assert_eq!(ctrl.digest(), ctrl.rate0());
    assert_eq!(perm.capacity(), ctrl.capacity());
    assert_eq!(perm.rate1(), ctrl.rate1());
    let ace = row.ace();
    assert_eq!(ace.read().m_0, ace.eval().m_0);
    assert_eq!(ace.f_eval(), f(105));
    assert_eq!(ace.f_read(), Felt::one().sub(f(105)));
}

#[test]
fn node_builder_builds_with_settings() {
    let builder = NodeBuilder::new(std::path::PathBuf::from("/tmp/node"))
        .with_block_interval(std::time::Duration::from_millis(100))
        .with_batch_interval(std::time::Duration::from_millis(50))
        .with_rpc_port(1234);
    drop(builder);
}
