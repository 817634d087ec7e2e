//! Auxiliary trace column indices.

use vstd::prelude::*;

verus! {

/// Block stack table (decoder control flow).
pub const P1_BLOCK_STACK: usize = 0;

/// Block hash table (decoder digest tracking).
pub const P2_BLOCK_HASH: usize = 1;

/// Op group table (decoder operation batching).
pub const P3_OP_GROUP: usize = 2;

/// Stack overflow table (stack p1).
pub const P1_STACK: usize = 3;

/// Range checker bus.
pub const B_RANGE: usize = 4;

/// Hash kernel bus: sibling table + ACE memory + log_precompile.
pub const B_HASH_KERNEL: usize = 5;

/// Main chiplets bus.
pub const B_CHIPLETS: usize = 6;

/// Wiring bus for ACE circuit connections.
pub const V_WIRING: usize = 7;

} // verus!
