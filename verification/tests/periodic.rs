//! Tests for the chiplet periodic columns.

use miden_air::constraints::chiplets::columns::{
    BitwisePeriodicCols, HasherPeriodicCols, NUM_PERIODIC_COLUMNS, PeriodicCols,
};
use miden_air::field::Felt;
use miden_air::trace::{HASH_CYCLE_LEN, STATE_WIDTH};
use miden_core::chiplets::hasher::Hasher;

fn same(a: Felt, b: miden_core::Felt) -> bool {
    a.as_canonical_u64() == b.as_canonical_u64()
}

#[test]
fn periodic_columns_dimensions() {
    let cols = PeriodicCols::periodic_columns();
    assert_eq!(cols.len(), NUM_PERIODIC_COLUMNS);

    let (hasher_cols, bitwise_cols) = cols.split_at(size_of::<HasherPeriodicCols<u8>>());
    for col in hasher_cols {
        assert_eq!(col.len(), HASH_CYCLE_LEN);
    }
    for col in bitwise_cols {
        assert_eq!(col.len(), 8);
    }
}

#[test]
fn hasher_step_selectors_are_exclusive() {
    let h = HasherPeriodicCols::new();
    let one = Felt::one();
    let zero = Felt::zero();
    for row in 0..HASH_CYCLE_LEN {
        let init_ext = h.is_init_ext[row];
        let ext = h.is_ext[row];
        let packed_int = h.is_packed_int[row];
        let int_ext = h.is_int_ext[row];

        // Each selector is binary.
        assert_eq!(init_ext.mul(init_ext.sub(one)), zero);
        assert_eq!(ext.mul(ext.sub(one)), zero);
        assert_eq!(packed_int.mul(packed_int.sub(one)), zero);
        assert_eq!(int_ext.mul(int_ext.sub(one)), zero);

        // At most one selector is active per row.
        let sum = init_ext.add(ext).add(packed_int).add(int_ext);
        assert!(sum == zero || sum == one, "row {row}: sum = {sum:?}");
    }
}

#[test]
fn external_round_constants_correct() {
    let h = HasherPeriodicCols::new();

    // Row 0: ARK_EXT_INITIAL[0]
    for lane in 0..STATE_WIDTH {
        assert!(same(h.ark[lane][0], Hasher::ARK_EXT_INITIAL[0][lane]));
    }

    // Rows 1-3: ARK_EXT_INITIAL[1..3]
    for r in 1..=3 {
        for lane in 0..STATE_WIDTH {
            assert!(same(h.ark[lane][r], Hasher::ARK_EXT_INITIAL[r][lane]));
        }
    }

    // Row 11: ARK_EXT_TERMINAL[0]
    for lane in 0..STATE_WIDTH {
        assert!(same(h.ark[lane][11], Hasher::ARK_EXT_TERMINAL[0][lane]));
    }

    // Rows 12-14: ARK_EXT_TERMINAL[1..3]
    for r in 12..=14 {
        for lane in 0..STATE_WIDTH {
            assert!(same(h.ark[lane][r], Hasher::ARK_EXT_TERMINAL[r - 11][lane]));
        }
    }
}

#[test]
fn internal_round_constants_correct() {
    let h = HasherPeriodicCols::new();

    // Rows 4-10: packed internal round constants in ark[0..2]
    for triple in 0..7_usize {
        let row = 4 + triple;
        for k in 0..3 {
            let ark_idx = triple * 3 + k;
            assert!(
                same(h.ark[k][row], Hasher::ARK_INT[ark_idx]),
                "mismatch at row {row}, int constant {k} (ARK_INT[{ark_idx}])"
            );
        }
        // ark[3..12] must be zero on packed-internal rows
        for lane in 3..STATE_WIDTH {
            assert_eq!(
                h.ark[lane][row],
                Felt::zero(),
                "ark[{lane}] nonzero at packed-int row {row}"
            );
        }
    }
}

#[test]
fn boundary_row_all_zero() {
    let h = HasherPeriodicCols::new();
    for (lane, col) in h.ark.iter().enumerate() {
        assert_eq!(col[15], Felt::zero(), "ark column {lane} nonzero at row 15");
    }
}

/// The bitwise cycle markers: `k_first` on row 0 only, `k_transition` on rows 0..7.
#[test]
fn bitwise_periodic_columns_values() {
    let b = BitwisePeriodicCols::new();
    let expected_first = [1u64, 0, 0, 0, 0, 0, 0, 0];
    let expected_transition = [1u64, 1, 1, 1, 1, 1, 1, 0];
    for row in 0..8 {
        assert_eq!(b.k_first[row].as_canonical_u64(), expected_first[row]);
        assert_eq!(b.k_transition[row].as_canonical_u64(), expected_transition[row]);
    }
}

/// The flat list holds the hasher columns in order, then the bitwise ones.
#[test]
fn periodic_columns_order() {
    let cols = PeriodicCols::periodic_columns();
    let h = HasherPeriodicCols::new();
    let b = BitwisePeriodicCols::new();
    assert_eq!(cols[0], h.is_init_ext);
    assert_eq!(cols[1], h.is_ext);
    assert_eq!(cols[2], h.is_packed_int);
    assert_eq!(cols[3], h.is_int_ext);
    for lane in 0..STATE_WIDTH {
        assert_eq!(cols[4 + lane], h.ark[lane]);
    }
    assert_eq!(cols[16], b.k_first);
    assert_eq!(cols[17], b.k_transition);
    // a round constant is not simply zero: the wrapper reads the real table
    assert!(same(cols[4][0], Hasher::ARK_EXT_INITIAL[0][0]));
    assert_ne!(cols[4][0], Felt::zero());
}
