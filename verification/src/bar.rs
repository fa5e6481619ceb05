//! Base address registers (BARs): their types, their description and the encoding of their size.
use vstd::prelude::*;

verus! {

/// The kind of region that a BAR decodes; see pci_regs.h in the Linux kernel.
///
/// Its number is that of `get_register_value`, not the position of the variant.
#[derive(Copy, Clone, PartialEq, Eq, Structural, Debug)]
pub enum PciBarRegionType {
    Memory32BitRegion,
    IoRegion,
    Memory64BitRegion,
}

impl PciBarRegionType {
    /// The type bits in the low end of the register of such a BAR.
    pub open spec fn flags(self) -> u32 {
        match self {
            PciBarRegionType::Memory32BitRegion => 0x00,
            PciBarRegionType::IoRegion => 0x01,
            PciBarRegionType::Memory64BitRegion => 0x04,
        }
    }

    pub fn get_register_value(self) -> (value: u32)
        ensures
            value == self.flags(),
    {
        match self {
            PciBarRegionType::Memory32BitRegion => 0x00,
            PciBarRegionType::IoRegion => 0x01,
            PciBarRegionType::Memory64BitRegion => 0x04,
        }
    }
}

/// The kind of region that a device resource describes.
#[derive(Copy, Clone, PartialEq, Eq, Structural, Debug)]
pub enum PciBarType {
    Io,
    Mmio32,
    Mmio64,
}

impl From<PciBarType> for PciBarRegionType {
    fn from(type_: PciBarType) -> (region_type: Self) {
        match type_ {
            PciBarType::Io => PciBarRegionType::IoRegion,
            PciBarType::Mmio32 => PciBarRegionType::Memory32BitRegion,
            PciBarType::Mmio64 => PciBarRegionType::Memory64BitRegion,
        }
    }
}

impl vstd::std_specs::convert::FromSpecImpl<PciBarType> for PciBarRegionType {
    open spec fn obeys_from_spec() -> bool {
        true
    }

    open spec fn from_spec(type_: PciBarType) -> Self {
        match type_ {
            PciBarType::Io => PciBarRegionType::IoRegion,
            PciBarType::Mmio32 => PciBarRegionType::Memory32BitRegion,
            PciBarType::Mmio64 => PciBarRegionType::Memory64BitRegion,
        }
    }
}

impl From<PciBarRegionType> for PciBarType {
    fn from(val: PciBarRegionType) -> (type_: Self) {
        match val {
            PciBarRegionType::IoRegion => PciBarType::Io,
            PciBarRegionType::Memory32BitRegion => PciBarType::Mmio32,
            PciBarRegionType::Memory64BitRegion => PciBarType::Mmio64,
        }
    }
}

impl vstd::std_specs::convert::FromSpecImpl<PciBarRegionType> for PciBarType {
    open spec fn obeys_from_spec() -> bool {
        true
    }

    open spec fn from_spec(val: PciBarRegionType) -> Self {
        match val {
            PciBarRegionType::IoRegion => PciBarType::Io,
            PciBarRegionType::Memory32BitRegion => PciBarType::Mmio32,
            PciBarRegionType::Memory64BitRegion => PciBarType::Mmio64,
        }
    }
}

/// Whether reads of a BAR's region are free of side effects.
///
/// Its number is that of `get_register_value`, not the position of the variant.
#[derive(Copy, Clone, PartialEq, Eq, Structural, Debug)]
pub enum PciBarPrefetchable {
    NotPrefetchable,
    Prefetchable,
}

impl PciBarPrefetchable {
    /// The prefetchable bit in the register of a memory BAR.
    pub open spec fn flags(self) -> u32 {
        match self {
            PciBarPrefetchable::NotPrefetchable => 0x00,
            PciBarPrefetchable::Prefetchable => 0x08,
        }
    }

    pub fn get_register_value(self) -> (value: u32)
        ensures
            value == self.flags(),
    {
        match self {
            PciBarPrefetchable::NotPrefetchable => 0x00,
            PciBarPrefetchable::Prefetchable => 0x08,
        }
    }
}

impl From<PciBarPrefetchable> for bool {
    fn from(val: PciBarPrefetchable) -> (b: Self) {
        match val {
            PciBarPrefetchable::NotPrefetchable => false,
            PciBarPrefetchable::Prefetchable => true,
        }
    }
}

impl vstd::std_specs::convert::FromSpecImpl<PciBarPrefetchable> for bool {
    open spec fn obeys_from_spec() -> bool {
        true
    }

    open spec fn from_spec(val: PciBarPrefetchable) -> Self {
        val == PciBarPrefetchable::Prefetchable
    }
}

/// What the configuration keeps of one BAR slot.
#[derive(Debug, Clone, Copy)]
pub struct PciBar {
    /// The register value that the guest was last seen to program.
    pub addr: u32,
    /// The encoded size, or one half of it for a 64-bit BAR.
    pub size: u32,
    pub used: bool,
    /// The type of the region; a 64-bit BAR carries it in its lower slot alone.
    pub region_type: Option<PciBarRegionType>,
}

impl PciBar {
    /// A slot that no BAR occupies.
    pub open spec fn unused() -> PciBar {
        PciBar { addr: 0, size: 0, used: false, region_type: None }
    }
}

impl Default for PciBar {
    fn default() -> (bar: Self)
        ensures
            bar == PciBar::unused(),
    {
        PciBar { addr: 0, size: 0, used: false, region_type: None }
    }
}

/// Describes a region that a device asks to have behind one of its BARs.
#[derive(Copy, Clone)]
pub struct PciBarConfiguration {
    pub addr: u64,
    pub size: u64,
    pub idx: usize,
    pub region_type: PciBarRegionType,
    pub prefetchable: PciBarPrefetchable,
}

impl Default for PciBarConfiguration {
    fn default() -> (config: Self)
        ensures
            config == (PciBarConfiguration {
                idx: 0,
                addr: 0,
                size: 0,
                region_type: PciBarRegionType::Memory64BitRegion,
                prefetchable: PciBarPrefetchable::NotPrefetchable,
            }),
    {
        PciBarConfiguration {
            idx: 0,
            addr: 0,
            size: 0,
            region_type: PciBarRegionType::Memory64BitRegion,
            prefetchable: PciBarPrefetchable::NotPrefetchable,
        }
    }
}

impl PciBarConfiguration {
    pub fn new(
        idx: usize,
        size: u64,
        region_type: PciBarRegionType,
        prefetchable: PciBarPrefetchable,
    ) -> (config: Self)
        ensures
            config == (PciBarConfiguration { idx, addr: 0, size, region_type, prefetchable }),
    {
        PciBarConfiguration { idx, addr: 0, size, region_type, prefetchable }
    }

    #[must_use]
    pub fn set_index(self, idx: usize) -> (config: Self)
        ensures
            config == (PciBarConfiguration { idx, ..self }),
    {
        PciBarConfiguration { idx, ..self }
    }

    #[must_use]
    pub fn set_address(self, addr: u64) -> (config: Self)
        ensures
            config == (PciBarConfiguration { addr, ..self }),
    {
        PciBarConfiguration { addr, ..self }
    }

    #[must_use]
    pub fn set_size(self, size: u64) -> (config: Self)
        ensures
            config == (PciBarConfiguration { size, ..self }),
    {
        PciBarConfiguration { size, ..self }
    }

    #[must_use]
    pub fn set_region_type(self, region_type: PciBarRegionType) -> (config: Self)
        ensures
            config == (PciBarConfiguration { region_type, ..self }),
    {
        PciBarConfiguration { region_type, ..self }
    }

    #[must_use]
    pub fn set_prefetchable(self, prefetchable: PciBarPrefetchable) -> (config: Self)
        ensures
            config == (PciBarConfiguration { prefetchable, ..self }),
    {
        PciBarConfiguration { prefetchable, ..self }
    }

    pub fn idx(&self) -> (idx: usize)
        ensures
            idx == self.idx,
    {
        self.idx
    }

    pub fn addr(&self) -> (addr: u64)
        ensures
            addr == self.addr,
    {
        self.addr
    }

    pub fn size(&self) -> (size: u64)
        ensures
            size == self.size,
    {
        self.size
    }

    pub fn region_type(&self) -> (region_type: PciBarRegionType)
        ensures
            region_type == self.region_type,
    {
        self.region_type
    }

    pub fn prefetchable(&self) -> (prefetchable: PciBarPrefetchable)
        ensures
            prefetchable == self.prefetchable,
    {
        self.prefetchable
    }
}

/// The 32-bit two's complement of `x`, which is how a BAR register reports a size; zero has none.
pub open spec fn complement_32(x: u32) -> Option<u32> {
    if x > 0 {
        Some((0x1_0000_0000 - x) as u32)
    } else {
        None
    }
}

/// The 64-bit two's complement of `x`; zero has none.
pub open spec fn complement_64(x: u64) -> Option<u64> {
    if x > 0 {
        Some((0x1_0000_0000_0000_0000 - x) as u64)
    } else {
        None
    }
}

/// The value that a 32-bit BAR of `bar_size` bytes reports for its size.
pub fn encode_32_bits_bar_size(bar_size: u32) -> (encoded: Option<u32>)
    ensures
        encoded == complement_32(bar_size),
{
    if bar_size > 0 {
        assert(bar_size > 0 ==> !((bar_size - 1) as u32) == 0x1_0000_0000 - bar_size)
            by (bit_vector);
        return Some(!(bar_size - 1));
    }
    None
}

/// The number of bytes that a 32-bit BAR spans, from the value that it reports for its size.
pub fn decode_32_bits_bar_size(bar_size: u32) -> (decoded: Option<u32>)
    ensures
        decoded == complement_32(bar_size),
{
    if bar_size > 0 {
        assert(bar_size > 0 ==> !bar_size + 1 == 0x1_0000_0000 - bar_size) by (bit_vector);
        return Some(!bar_size + 1);
    }
    None
}

/// The values that the upper and the lower register of a 64-bit BAR of `bar_size` bytes report
/// for its size.
pub fn encode_64_bits_bar_size(bar_size: u64) -> (encoded: Option<(u32, u32)>)
    ensures
        encoded == match complement_64(bar_size) {
            Some(size) => Some((crate::bits::high_dword(size), crate::bits::low_dword(size))),
            None => None,
        },
{
    if bar_size > 0 {
        assert(bar_size > 0 ==> !((bar_size - 1) as u64) == 0x1_0000_0000_0000_0000 - bar_size)
            by (bit_vector);
        let result: u64 = !(bar_size - 1);
        proof {
            crate::bits::lemma_split(result);
        }
        let result_hi: u32 = (result >> 32u64) as u32;
        let result_lo: u32 = (result & 0xffff_ffff) as u32;
        return Some((result_hi, result_lo));
    }
    None
}

/// The number of bytes that a 64-bit BAR spans, from the values that its two registers report
/// for its size.
pub fn decode_64_bits_bar_size(bar_size_hi: u32, bar_size_lo: u32) -> (decoded: Option<u64>)
    ensures
        decoded == complement_64(crate::bits::join_dwords(bar_size_hi, bar_size_lo)),
{
    let bar_size: u64 = ((bar_size_hi as u64) << 32u64) | (bar_size_lo as u64);
    proof {
        crate::bits::lemma_join(bar_size_hi, bar_size_lo);
    }
    if bar_size > 0 {
        assert(bar_size > 0 ==> !bar_size + 1 == 0x1_0000_0000_0000_0000 - bar_size)
            by (bit_vector);
        return Some(!bar_size + 1);
    }
    None
}

} // verus!
