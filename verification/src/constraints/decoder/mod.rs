//! decoder columns of the main trace.

pub mod bus;
pub mod columns;
pub mod constraints;
