//! The part of a configuration space that a snapshot carries.
use crate::bar::{PciBar, PciBarRegionType};
use vstd::prelude::*;

verus! {

/// An in-flight BAR move inside [`PciConfigurationState::pending_bar_reprogram`], kept in the
/// shape in which snapshots travel between versions: a reader replays it as `old_base` ->
/// `new_base`.
#[derive(Clone, Copy, Debug)]
pub struct BarReprogrammingParams {
    /// The BAR slot being reprogrammed (expansion ROM = ROM_BAR_IDX; the
    /// low/primary slot for a 64-bit BAR). Identifies the BAR across the
    /// whole relocation, unlike the addresses, which a later config write
    /// can change again. Snapshots that predate the field carry 0 here.
    pub bar_idx: usize,
    pub old_base: u64,
    pub new_base: u64,
    pub len: u64,
    pub region_type: PciBarRegionType,
}

/// Everything of a configuration space that outlives a snapshot.
pub struct PciConfigurationState {
    pub registers: Vec<u32>,
    pub writable_bits: Vec<u32>,
    pub bars: Vec<PciBar>,
    pub rom_bar_addr: u32,
    pub rom_bar_size: u32,
    pub rom_bar_used: bool,
    pub last_capability: Option<(usize, usize)>,
    pub msix_cap_reg_idx: Option<usize>,
    /// The BARs that were released (`old_base`) and not yet installed again at their
    /// config-space target (`new_base`).
    pub pending_bar_reprogram: Vec<BarReprogrammingParams>,
}

} // verus!
