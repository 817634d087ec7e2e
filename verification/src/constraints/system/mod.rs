//! system columns of the main trace.

pub mod columns;
