use miden_air::constraints::columns::main_col_map;
use miden_air::trace::{
    ACE_CHIPLET_WIRING_BUS_OFFSET, ADDR_COL_IDX, B0_COL_IDX, B1_COL_IDX, CHIPLETS_BUS_AUX_TRACE_OFFSET,
    CHIPLETS_OFFSET, CLK_COL_IDX, CTX_COL_IDX, DECODER_AUX_TRACE_OFFSET, DECODER_TRACE_OFFSET,
    FN_HASH_OFFSET, GROUP_COUNT_COL_IDX, H0_COL_IDX, HASHER_STATE_OFFSET,
    HASH_KERNEL_VTABLE_AUX_TRACE_OFFSET, IN_SPAN_COL_IDX, M_COL_IDX, OP_BATCH_FLAGS_OFFSET,
    OP_BITS_EXTRA_COLS_OFFSET, OP_BITS_OFFSET, OP_INDEX_COL_IDX, RANGE_CHECK_AUX_TRACE_OFFSET,
    STACK_AUX_TRACE_OFFSET, STACK_TOP_OFFSET, STACK_TRACE_OFFSET, V_COL_IDX,
};

#[test]
fn col_map_system() {
    let map = main_col_map();
    assert_eq!(map.system.clk, CLK_COL_IDX);
    assert_eq!(map.system.ctx, CTX_COL_IDX);
    assert_eq!(map.system.fn_hash[0], FN_HASH_OFFSET);
    assert_eq!(map.system.fn_hash[3], FN_HASH_OFFSET + 3);
}

#[test]
fn col_map_decoder() {
    let map = main_col_map();
    assert_eq!(map.decoder.addr, DECODER_TRACE_OFFSET + ADDR_COL_IDX);
    assert_eq!(map.decoder.op_bits[0], DECODER_TRACE_OFFSET + OP_BITS_OFFSET);
    assert_eq!(map.decoder.op_bits[6], DECODER_TRACE_OFFSET + OP_BITS_OFFSET + 6);
    assert_eq!(map.decoder.hasher_state[0], DECODER_TRACE_OFFSET + HASHER_STATE_OFFSET);
    assert_eq!(map.decoder.in_span, DECODER_TRACE_OFFSET + IN_SPAN_COL_IDX);
    assert_eq!(map.decoder.group_count, DECODER_TRACE_OFFSET + GROUP_COUNT_COL_IDX);
    assert_eq!(map.decoder.op_index, DECODER_TRACE_OFFSET + OP_INDEX_COL_IDX);
    assert_eq!(map.decoder.batch_flags[0], DECODER_TRACE_OFFSET + OP_BATCH_FLAGS_OFFSET);
    assert_eq!(map.decoder.extra[0], DECODER_TRACE_OFFSET + OP_BITS_EXTRA_COLS_OFFSET);
}

#[test]
fn col_map_stack() {
    let map = main_col_map();
    assert_eq!(map.stack.top[0], STACK_TRACE_OFFSET + STACK_TOP_OFFSET);
    assert_eq!(map.stack.top[15], STACK_TRACE_OFFSET + 15);
    assert_eq!(map.stack.b0, STACK_TRACE_OFFSET + B0_COL_IDX);
    assert_eq!(map.stack.b1, STACK_TRACE_OFFSET + B1_COL_IDX);
    assert_eq!(map.stack.h0, STACK_TRACE_OFFSET + H0_COL_IDX);
}

#[test]
fn col_map_range() {
    let map = main_col_map();
    assert_eq!(map.range.multiplicity, M_COL_IDX);
    assert_eq!(map.range.value, V_COL_IDX);
}

#[test]
fn col_map_chiplets() {
    let map = main_col_map();
    assert_eq!(map.chiplets[0], CHIPLETS_OFFSET);
    assert_eq!(map.chiplets[19], CHIPLETS_OFFSET + 19);
    // s_perm is a separate field after chiplets[0..20]
    assert_eq!(map.s_perm, CHIPLETS_OFFSET + 20);
}

#[test]
fn aux_col_map() {
    let map = miden_air::constraints::columns::aux_col_map();
    assert_eq!(map.p1_block_stack, DECODER_AUX_TRACE_OFFSET);
    assert_eq!(map.p2_block_hash, DECODER_AUX_TRACE_OFFSET + 1);
    assert_eq!(map.p3_op_group, DECODER_AUX_TRACE_OFFSET + 2);
    assert_eq!(map.stack_overflow, STACK_AUX_TRACE_OFFSET);
    assert_eq!(map.range_check, RANGE_CHECK_AUX_TRACE_OFFSET);
    assert_eq!(map.hash_kernel_vtable, HASH_KERNEL_VTABLE_AUX_TRACE_OFFSET);
    assert_eq!(map.chiplets_bus, CHIPLETS_BUS_AUX_TRACE_OFFSET);
    assert_eq!(map.ace_wiring, ACE_CHIPLET_WIRING_BUS_OFFSET);
}
