//! stack columns of the main trace.

pub mod arith;
pub mod bus;
pub mod columns;
pub mod crypto;
pub mod ops;
