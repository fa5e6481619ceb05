//! Why a configuration space refuses a BAR or a capability.
use vstd::prelude::*;

verus! {

#[derive(PartialEq, Eq, Structural, Clone, Copy, Debug)]
pub enum Error {
    /// The region at the address (first) of the size (second) does not fit.
    BarAddressInvalid(u64, u64),
    /// The BAR is already in use.
    BarInUse(usize),
    /// A 64-bit BAR takes two slots, of which the upper one is already in use.
    BarInUse64(usize),
    /// There is no such BAR.
    BarInvalid(usize),
    /// A 64-bit BAR takes two slots, of which the upper one does not exist.
    BarInvalid64(usize),
    /// The size of the BAR is not a power of two.
    BarSizeInvalid(u64),
    /// Empty capabilities are invalid.
    CapabilityEmpty,
    /// The length of the capability is invalid.
    CapabilityLengthInvalid(usize),
    /// The capability of this size does not fit.
    CapabilitySpaceFull(usize),
    /// Failed to decode a 32-bit BAR size.
    Decode32BarSize,
    /// Failed to decode a 64-bit BAR size.
    Decode64BarSize,
    /// Failed to encode a 32-bit BAR size.
    Encode32BarSize,
    /// Failed to encode a 64-bit BAR size.
    Encode64BarSize,
    /// The expansion ROM at the address (first) of the size (second) does not fit.
    RomBarAddressInvalid(u64, u64),
    /// The expansion ROM is already in use.
    RomBarInUse(usize),
    /// The index is not that of the expansion ROM.
    RomBarInvalid(usize),
    /// The size of the expansion ROM is not a power of two.
    RomBarSizeInvalid(u64),
}

} // verus!
