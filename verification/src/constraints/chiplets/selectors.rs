//! Chiplet activity flags.

use vstd::prelude::*;

verus! {

/// Activity flags of one chiplet on the current row of the trace.
///
/// The chiplet selector system derives them from the selector columns: whether the chiplet
/// is active on the row, whether the row transitions inside the chiplet, whether it is the
/// chiplet's last row, and whether the next row is the chiplet's first.
pub struct ChipletFlags<E> {
    /// The chiplet is active on the current row.
    pub is_active: E,
    /// The chiplet is active on the current row and on the next one.
    pub is_transition: E,
    /// The current row is the last row of the chiplet.
    pub is_last: E,
    /// The next row is the first row of the chiplet.
    pub next_is_first: E,
}

/// The activity flags of every chiplet on the current row.
pub struct ChipletSelectors<E> {
    /// Hasher controller rows.
    pub controller: ChipletFlags<E>,
    /// Hasher permutation rows.
    pub permutation: ChipletFlags<E>,
    /// Bitwise chiplet.
    pub bitwise: ChipletFlags<E>,
    /// Memory chiplet.
    pub memory: ChipletFlags<E>,
    /// ACE chiplet.
    pub ace: ChipletFlags<E>,
    /// Kernel ROM chiplet.
    pub kernel_rom: ChipletFlags<E>,
}

} // verus!
