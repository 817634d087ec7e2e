use miden_air::field::Felt;
use miden_air::trace::{
    ACE_INIT_LABEL, BITWISE_AND_LABEL, BITWISE_XOR_LABEL, KERNEL_PROC_CALL_LABEL,
    KERNEL_PROC_INIT_LABEL, MEMORY_READ_ELEMENT_LABEL, MEMORY_READ_WORD_LABEL,
    MEMORY_WRITE_ELEMENT_LABEL, MEMORY_WRITE_WORD_LABEL,
};

#[test]
fn test_operation_labels() {
    // Verify operation labels match expected values
    assert_eq!(Felt::from_u8(BITWISE_AND_LABEL), Felt::new_unchecked(2));
    assert_eq!(Felt::from_u8(BITWISE_XOR_LABEL), Felt::new_unchecked(6));
    assert_eq!(MEMORY_WRITE_ELEMENT_LABEL, 4);
    assert_eq!(MEMORY_READ_ELEMENT_LABEL, 12);
    assert_eq!(MEMORY_WRITE_WORD_LABEL, 20);
    assert_eq!(MEMORY_READ_WORD_LABEL, 28);
}

#[test]
fn test_memory_label_formula() {
    // Verify: label = 4 + 8*is_read + 16*is_word
    fn label(is_read: u64, is_word: u64) -> u64 {
        4 + 8 * is_read + 16 * is_word
    }

    assert_eq!(label(0, 0), MEMORY_WRITE_ELEMENT_LABEL as u64); // 4
    assert_eq!(label(1, 0), MEMORY_READ_ELEMENT_LABEL as u64); // 12
    assert_eq!(label(0, 1), MEMORY_WRITE_WORD_LABEL as u64); // 20
    assert_eq!(label(1, 1), MEMORY_READ_WORD_LABEL as u64); // 28
}

#[test]
fn test_ace_label() {
    // ACE label: selector = [1, 1, 1, 0], reversed = [0, 1, 1, 1] = 7, +1 = 8
    assert_eq!(Felt::from_u8(ACE_INIT_LABEL), Felt::new_unchecked(8));
}

#[test]
fn test_kernel_rom_labels() {
    // Kernel ROM call label: selector = [1, 1, 1, 1, 0 | 0], reversed = [0, 0, 1, 1, 1, 1] =
    // 15, +1 = 16
    assert_eq!(Felt::from_u8(KERNEL_PROC_CALL_LABEL), Felt::new_unchecked(16));

    // Kernel ROM init label: selector = [1, 1, 1, 1, 0 | 1], reversed = [1, 0, 1, 1, 1, 1] =
    // 47, +1 = 48
    assert_eq!(Felt::from_u8(KERNEL_PROC_INIT_LABEL), Felt::new_unchecked(48));
}
