//! Bus types: the index of each bus's prefix in [`Challenges::bus_prefix`](super::Challenges).
//!
//! Every message on a bus is encoded as `bus_prefix[bus] + sum_i beta^i * element[i]`; the
//! prefix separates the domains of the buses, so a message sent on one bus never matches a
//! message of another.

use vstd::prelude::*;

verus! {

/// Chiplets bus: requests from the stack and decoder, responses from the chiplets.
pub const CHIPLETS_BUS: usize = 0;

/// Block stack table (decoder p1).
pub const BLOCK_STACK_TABLE: usize = 1;

/// Block hash table (decoder p2).
pub const BLOCK_HASH_TABLE: usize = 2;

/// Op group table (decoder p3).
pub const OP_GROUP_TABLE: usize = 3;

/// Stack overflow table.
pub const STACK_OVERFLOW_TABLE: usize = 4;

/// Sibling table of the Merkle root updates.
pub const SIBLING_TABLE: usize = 5;

/// Range checker bus.
pub const RANGE_CHECK_BUS: usize = 6;

/// Transcript of the precompile log.
pub const LOG_PRECOMPILE_TRANSCRIPT: usize = 7;

/// ACE wiring bus.
pub const ACE_WIRING_BUS: usize = 8;

/// Link between the hasher controller and the permutation rows.
pub const HASHER_PERM_LINK: usize = 9;

/// Number of bus types.
pub const NUM_BUS_TYPES: usize = 10;

} // verus!
