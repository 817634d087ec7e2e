//! Operation codes of the VM instruction set.

pub mod opcodes;
