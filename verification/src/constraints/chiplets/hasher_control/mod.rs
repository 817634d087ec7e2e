//! Row-kind flags of the hasher controller sub-chiplet.

pub mod flags;
