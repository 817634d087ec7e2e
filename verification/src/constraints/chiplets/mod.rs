//! Chiplets: column layouts, activity flags and main-trace constraints.
//!
//! Constraints are implemented for the bitwise, memory, ACE and kernel ROM chiplets.

pub mod ace;
pub mod bitwise;
pub mod columns;
pub mod hasher_control;
pub mod kernel_rom;
pub mod memory;
pub mod permutation;
pub mod selectors;
