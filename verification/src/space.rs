//! A mathematical model of a configuration space, and what each operation does to it.
use crate::bar::{PciBar, PciBarConfiguration, PciBarRegionType};
use crate::bits;
use crate::capability::PciCapabilityId;
use crate::class::PciHeaderType;
use crate::error::Error;
use crate::device::{BarRelocationStatus, InstallParams, Plan, ReleaseParams};
use crate::state::{BarReprogrammingParams, PciConfigurationState};
use vstd::arithmetic::power2::*;
use vstd::prelude::*;

verus! {

/// The number of 32-bit registers in the config space, 4096 bytes.
pub const NUM_CONFIGURATION_REGISTERS: usize = 1024;

pub const COMMAND_REG: usize = 1;

pub const COMMAND_REG_IO_SPACE_MASK: u32 = 0x0000_0001;

pub const COMMAND_REG_MEMORY_SPACE_MASK: u32 = 0x0000_0002;

pub const STATUS_REG: usize = 1;

pub const STATUS_REG_CAPABILITIES_USED_MASK: u32 = 0x0010_0000;

pub const BAR0_REG: usize = 4;

pub const ROM_BAR_REG: usize = 12;

/// The slot that stands for the expansion ROM.
pub const ROM_BAR_IDX: usize = 6;

pub const BAR_IO_ADDR_MASK: u32 = 0xffff_fffc;

pub const BAR_MEM_ADDR_MASK: u32 = 0xffff_fff0;

pub const ROM_BAR_ADDR_MASK: u32 = 0xffff_f800;

pub const MSI_CAPABILITY_REGISTER_MASK: u32 = 0x0071_0000;

pub const MSIX_CAPABILITY_REGISTER_MASK: u32 = 0xc000_0000;

pub const NUM_BAR_REGS: usize = 6;

/// The number of slots that can move: the BARs and the expansion ROM.
pub const NUM_SLOTS: usize = 7;

pub const CAPABILITY_LIST_HEAD_OFFSET: usize = 0x34;

pub const FIRST_CAPABILITY_OFFSET: usize = 0x40;

pub const CAPABILITY_MAX_OFFSET: usize = 192;

pub const INTERRUPT_LINE_PIN_REG: usize = 15;

/// A BAR address change detected on a config-register write: the slot, the
/// new target read from the just-written registers, and the BAR's size and
/// type. The release side takes the released-from address from the mapping
/// bookkeeping, so no old base travels here.
#[derive(Clone, Copy, Debug)]
pub struct BarReprogramming {
    pub bar_idx: usize,
    pub new_base: u64,
    pub len: u64,
    pub region_type: PciBarRegionType,
}

/// Where a BAR slot stands between two mappings.
pub enum BarState {
    /// Never seeded: nothing mapped, nothing pending.
    Boot,
    /// Live at the address.
    Mapped(u64),
    /// Torn down at the address, awaiting install at the address the guest last wrote.
    Released(u64),
    /// Restored mid-move: live at the old address, with the move still pending.
    RestoredInflight(u64),
}

/// The contents of a configuration space and the bookkeeping around it.
///
/// `mapped[slot]` is the address that the BAR of `slot` is mapped at, and `pending[slot]` the
/// address that it was released from, for the six BARs and, in the last place, the expansion
/// ROM. A 64-bit BAR is tracked on its lower slot.
#[verifier::ext_equal]
pub struct ConfigSpace {
    pub registers: Seq<u32>,
    pub writable_bits: Seq<u32>,
    pub bars: Seq<PciBar>,
    pub rom_bar_addr: u32,
    pub rom_bar_size: u32,
    pub rom_bar_used: bool,
    /// The byte offset and the size of the last capability.
    pub last_capability: Option<(usize, usize)>,
    pub msix_cap_reg_idx: Option<usize>,
    /// The message control writes not taken yet, where MSI-X is attached.
    pub msix: Option<Seq<u16>>,
    pub mapped: Seq<Option<u64>>,
    pub pending: Seq<Option<u64>>,
}

// The register file.
impl ConfigSpace {
    /// How many entries each part has.
    pub open spec fn shape(self) -> bool {
        &&& self.registers.len() == NUM_CONFIGURATION_REGISTERS
        &&& self.writable_bits.len() == NUM_CONFIGURATION_REGISTERS
        &&& self.bars.len() == NUM_BAR_REGS
        &&& self.mapped.len() == NUM_SLOTS
        &&& self.pending.len() == NUM_SLOTS
    }

    /// What a guest reads from a register: all ones where there is none.
    pub open spec fn read(self, reg_idx: int) -> u32 {
        if 0 <= reg_idx < NUM_CONFIGURATION_REGISTERS {
            self.registers[reg_idx]
        } else {
            0xffff_ffff
        }
    }

    /// Whether a write of `value` to a register asks for the size of the BAR behind it.
    pub open spec fn asks_size(reg_idx: int, value: u32) -> bool {
        if BAR0_REG <= reg_idx < BAR0_REG + NUM_BAR_REGS {
            value == 0xffff_ffff
        } else {
            reg_idx == ROM_BAR_REG && value & ROM_BAR_ADDR_MASK == ROM_BAR_ADDR_MASK
        }
    }

    /// The encoded size of the BAR behind a register.
    pub open spec fn size_behind(self, reg_idx: int) -> u32 {
        if reg_idx == ROM_BAR_REG {
            self.rom_bar_size
        } else {
            self.bars[reg_idx - BAR0_REG].size
        }
    }

    /// What a register holds after a write of `value` to the whole of it: the read-only bits
    /// stay, the others take `value`, or the encoded size where that was asked for.
    pub open spec fn dword_after(self, reg_idx: int, value: u32) -> u32 {
        let writable = self.writable_bits[reg_idx];
        let taken = if Self::asks_size(reg_idx, value) {
            writable & self.size_behind(reg_idx)
        } else {
            writable
        };
        (self.registers[reg_idx] & !writable) | (value & taken)
    }

    /// A write to a whole register.
    pub open spec fn write_dword(self, reg_idx: int, value: u32) -> ConfigSpace {
        ConfigSpace {
            registers: self.registers.update(reg_idx, self.dword_after(reg_idx, value)),
            ..self
        }
    }

    /// A write to some lanes of a register: of those bits, the writable ones take `value`.
    pub open spec fn write_lanes(self, reg_idx: int, value: u32, lanes: u32) -> ConfigSpace {
        if 0 <= reg_idx < NUM_CONFIGURATION_REGISTERS {
            ConfigSpace {
                registers: self.registers.update(
                    reg_idx,
                    bits::merge(
                        self.registers[reg_idx],
                        value,
                        lanes & self.writable_bits[reg_idx],
                    ),
                ),
                ..self
            }
        } else {
            self
        }
    }

    /// A write of two bytes; one that is not aligned to two bytes changes nothing.
    pub open spec fn write_word(self, offset: int, value: u16) -> ConfigSpace {
        if offset % 4 == 0 {
            self.write_lanes(offset / 4, value as u32, 0x0000_ffff)
        } else if offset % 4 == 2 {
            self.write_lanes(offset / 4, (value * 0x1_0000) as u32, 0xffff_0000)
        } else {
            self
        }
    }

    /// A write of one byte.
    pub open spec fn write_byte(self, offset: int, value: u8) -> ConfigSpace {
        self.write_lanes(
            offset / 4,
            bits::byte_in_lane(offset, value),
            bits::byte_lane(offset),
        )
    }

    /// One byte set, whether the guest may write it or not.
    pub open spec fn put_byte(self, offset: int, value: u8) -> ConfigSpace {
        if 0 <= offset < 4 * NUM_CONFIGURATION_REGISTERS {
            ConfigSpace {
                registers: self.registers.update(
                    offset / 4,
                    bits::merge(
                        self.registers[offset / 4],
                        bits::byte_in_lane(offset, value),
                        bits::byte_lane(offset),
                    ),
                ),
                ..self
            }
        } else {
            self
        }
    }

    /// Consecutive bytes set, from `offset` on.
    pub open spec fn put_bytes(self, offset: int, bytes: Seq<u8>) -> ConfigSpace
        decreases bytes.len(),
    {
        if bytes.len() == 0 {
            self
        } else {
            self.put_bytes(offset, bytes.drop_last()).put_byte(
                offset + bytes.len() - 1,
                bytes.last(),
            )
        }
    }

    /// The byte at `offset`.
    pub open spec fn byte_at(self, offset: int) -> u8 {
        bits::byte_of(self.registers[offset / 4], offset % 4)
    }

    /// The interrupt line and pin set; `pin` counts from zero for INTA.
    pub open spec fn with_irq(self, line: u8, pin: int) -> ConfigSpace {
        let old = self.registers[INTERRUPT_LINE_PIN_REG as int];
        ConfigSpace {
            registers: self.registers.update(
                INTERRUPT_LINE_PIN_REG as int,
                (old / 0x1_0000 * 0x1_0000 + (pin + 1) * 0x100 + line) as u32,
            ),
            ..self
        }
    }
}

// The BARs as the guest sees them.
impl ConfigSpace {
    /// The bit of the COMMAND register that enables decoding of a region: I/O space for I/O
    /// BARs, memory space for the other BARs and the expansion ROM.
    pub open spec fn decode_mask(region_type: PciBarRegionType) -> u32 {
        if region_type == PciBarRegionType::IoRegion {
            COMMAND_REG_IO_SPACE_MASK
        } else {
            COMMAND_REG_MEMORY_SPACE_MASK
        }
    }

    /// Whether the guest lets the device decode regions of this type.
    pub open spec fn decode_enabled(self, region_type: PciBarRegionType) -> bool {
        self.registers[COMMAND_REG as int] & Self::decode_mask(region_type) != 0
    }

    /// The type of the region behind a slot, where a BAR starts there.
    pub open spec fn region_type(self, slot: int) -> Option<PciBarRegionType> {
        if slot == ROM_BAR_IDX {
            if self.rom_bar_used {
                Some(PciBarRegionType::Memory32BitRegion)
            } else {
                None
            }
        } else if 0 <= slot < NUM_BAR_REGS {
            self.bars[slot].region_type
        } else {
            None
        }
    }

    /// Whether a 64-bit BAR starts at the slot.
    pub open spec fn is_64_bit(self, slot: int) -> bool {
        self.region_type(slot) == Some(PciBarRegionType::Memory64BitRegion)
    }

    /// The last BAR slot has no neighbour to hold an upper half, so no 64-bit BAR starts there.
    pub open spec fn paired(self) -> bool {
        !self.is_64_bit(NUM_BAR_REGS - 1)
    }

    /// The address bits of a register.
    pub open spec fn address_bits(self, reg_idx: int) -> u32 {
        self.registers[reg_idx] & self.writable_bits[reg_idx]
    }

    /// The address that the registers of a slot ask for.
    pub open spec fn bar_target(self, slot: int) -> u64 {
        if slot == ROM_BAR_IDX {
            self.address_bits(ROM_BAR_REG as int) as u64
        } else if self.is_64_bit(slot) {
            bits::join_dwords(
                self.address_bits(BAR0_REG + slot + 1),
                self.address_bits(BAR0_REG + slot),
            )
        } else {
            self.address_bits(BAR0_REG + slot) as u64
        }
    }

    /// The address that the guest was last seen to program for a BAR.
    pub open spec fn bar_addr(self, slot: int) -> u64 {
        let low = self.bars[slot].addr & self.writable_bits[BAR0_REG + slot];
        if self.is_64_bit(slot) {
            bits::join_dwords(self.bars[slot + 1].addr, low)
        } else {
            low as u64
        }
    }

    /// The number of bytes that an encoded 32-bit size stands for.
    pub open spec fn len_32(size: u32) -> Option<u64> {
        match crate::bar::complement_32(size) {
            Some(len) => Some(len as u64),
            None => None,
        }
    }

    /// The number of bytes that the two halves of an encoded 64-bit size stand for.
    pub open spec fn len_64(size_hi: u32, size_lo: u32) -> Option<u64> {
        crate::bar::complement_64(bits::join_dwords(size_hi, size_lo))
    }

    /// The number of bytes behind a slot.
    pub open spec fn bar_len(self, slot: int) -> Option<u64> {
        if slot == ROM_BAR_IDX {
            Self::len_32(self.rom_bar_size)
        } else {
            match self.bars[slot].region_type {
                None => None,
                Some(PciBarRegionType::Memory64BitRegion) => Self::len_64(
                    self.bars[slot + 1].size,
                    self.bars[slot].size,
                ),
                Some(_) => Self::len_32(self.bars[slot].size),
            }
        }
    }

    /// The number of bytes behind a slot, or zero where it is not known.
    pub open spec fn bar_len_or_zero(self, slot: int) -> u64 {
        match self.bar_len(slot) {
            Some(len) => len,
            None => 0,
        }
    }

    /// The bits of a BAR register that hold its address.
    pub open spec fn address_mask(region_type: PciBarRegionType) -> u32 {
        if region_type == PciBarRegionType::IoRegion {
            BAR_IO_ADDR_MASK
        } else {
            BAR_MEM_ADDR_MASK
        }
    }

    /// The bits of a BAR register that tell its type.
    pub open spec fn type_bits(config: PciBarConfiguration) -> u32 {
        if config.region_type == PciBarRegionType::IoRegion {
            config.region_type.flags()
        } else {
            config.prefetchable.flags() | config.region_type.flags()
        }
    }

    /// What the register of a new BAR holds.
    pub open spec fn bar_register(config: PciBarConfiguration) -> u32 {
        (bits::low_dword(config.addr) & Self::address_mask(config.region_type))
            | Self::type_bits(config)
    }

    /// Why a BAR cannot be added as `config` describes it, if it cannot.
    pub open spec fn bar_refusal(self, config: PciBarConfiguration) -> Option<Error> {
        let idx = config.idx as int;
        let wide = config.region_type == PciBarRegionType::Memory64BitRegion;
        if idx >= NUM_BAR_REGS {
            Some(Error::BarInvalid(config.idx))
        } else if self.bars[idx].used {
            Some(Error::BarInUse(config.idx))
        } else if !is_pow2(config.size as int) {
            Some(Error::BarSizeInvalid(config.size))
        } else if config.addr + config.size - 1 > (if wide { u64::MAX } else { u32::MAX as u64 }) {
            Some(Error::BarAddressInvalid(config.addr, config.size))
        } else if !wide && config.size == 0x1_0000_0000 {
            Some(Error::Encode32BarSize)
        } else if wide && idx == NUM_BAR_REGS - 1 {
            Some(Error::BarInvalid64(config.idx))
        } else if wide && self.bars[idx + 1].used {
            Some(Error::BarInUse64(config.idx))
        } else {
            None
        }
    }

    /// The upper half of a 64-bit BAR set up in the slot after the one that it starts at.
    pub open spec fn with_upper_half(self, config: PciBarConfiguration) -> ConfigSpace {
        let above = config.idx + 1;
        let addr_hi = bits::high_dword(config.addr);
        let size = crate::bar::complement_64(config.size)->0;
        ConfigSpace {
            registers: self.registers.update(BAR0_REG + above, addr_hi),
            writable_bits: self.writable_bits.update(BAR0_REG + above, 0xffff_ffff),
            bars: self.bars.update(
                above,
                PciBar {
                    addr: addr_hi,
                    size: bits::high_dword(size),
                    used: true,
                    ..self.bars[above]
                },
            ),
            ..self
        }
    }

    /// A BAR set up as `config` describes it, in one slot or, for a 64-bit one, in two.
    pub open spec fn with_bar(self, config: PciBarConfiguration) -> ConfigSpace {
        let idx = config.idx as int;
        let wide = config.region_type == PciBarRegionType::Memory64BitRegion;
        let size = if wide {
            bits::low_dword(crate::bar::complement_64(config.size)->0)
        } else {
            crate::bar::complement_32(config.size as u32)->0
        };
        let base = if wide {
            self.with_upper_half(config)
        } else {
            self
        };
        ConfigSpace {
            registers: base.registers.update(BAR0_REG + idx, Self::bar_register(config)),
            writable_bits: base.writable_bits.update(
                BAR0_REG + idx,
                Self::address_mask(config.region_type),
            ),
            bars: base.bars.update(
                idx,
                PciBar {
                    addr: Self::bar_register(config),
                    size,
                    used: true,
                    region_type: Some(config.region_type),
                },
            ),
            mapped: base.mapped.update(idx, Some(config.addr)),
            ..base
        }
    }

    /// Why an expansion ROM cannot be added as `config` describes it, if it cannot.
    pub open spec fn rom_refusal(self, config: PciBarConfiguration) -> Option<Error> {
        if self.rom_bar_used {
            Some(Error::RomBarInUse(config.idx))
        } else if !is_pow2(config.size as int) {
            Some(Error::RomBarSizeInvalid(config.size))
        } else if config.idx != ROM_BAR_IDX {
            Some(Error::RomBarInvalid(config.idx))
        } else if config.addr + config.size - 1 > u32::MAX {
            Some(Error::RomBarAddressInvalid(config.addr, config.size))
        } else if config.size == 0x1_0000_0000 {
            Some(Error::Encode32BarSize)
        } else {
            None
        }
    }

    /// The register of the expansion ROM set up.
    pub open spec fn with_rom_register(self, config: PciBarConfiguration, active: u32) -> ConfigSpace {
        let register = bits::low_dword(config.addr) | active;
        ConfigSpace {
            registers: self.registers.update(ROM_BAR_REG as int, register),
            writable_bits: self.writable_bits.update(ROM_BAR_REG as int, ROM_BAR_ADDR_MASK),
            rom_bar_addr: register,
            ..self
        }
    }

    /// An expansion ROM set up as `config` describes it.
    pub open spec fn with_rom(self, config: PciBarConfiguration, active: u32) -> ConfigSpace {
        ConfigSpace {
            rom_bar_size: crate::bar::complement_32(config.size as u32)->0,
            rom_bar_used: true,
            mapped: self.mapped.update(ROM_BAR_IDX as int, Some(config.addr)),
            ..self.with_rom_register(config, active)
        }
    }
}

// The capability list.
impl ConfigSpace {
    /// Where the next capability goes.
    pub open spec fn capability_offset(self) -> int {
        match self.last_capability {
            Some((offset, len)) => bits::align_dword(offset + len),
            None => FIRST_CAPABILITY_OFFSET as int,
        }
    }

    /// Whether the offset of the next capability is a number that the machine can hold.
    pub open spec fn has_capability_offset(self) -> bool {
        match self.last_capability {
            Some((offset, len)) => offset + len + 3 <= usize::MAX,
            None => true,
        }
    }

    /// The byte that will point to the next capability.
    pub open spec fn capability_link(self) -> int {
        match self.last_capability {
            Some((offset, _)) => offset + 1,
            None => CAPABILITY_LIST_HEAD_OFFSET as int,
        }
    }

    /// What the capability list answers to a capability with this content: the error, or the
    /// offset that it is put at.
    pub open spec fn capability_result(self, content: Seq<u8>) -> Result<usize, Error> {
        if content.len() == 0 {
            Err(Error::CapabilityEmpty)
        } else if self.capability_offset() + content.len() > CAPABILITY_MAX_OFFSET {
            Err(Error::CapabilitySpaceFull(content.len() as usize))
        } else {
            Ok(self.capability_offset() as usize)
        }
    }

    /// The bits of a capability's first register that the guest may write, where the capability
    /// has such bits.
    pub open spec fn capability_mask(id: PciCapabilityId) -> Option<u32> {
        match id {
            PciCapabilityId::MessageSignalledInterrupts => Some(MSI_CAPABILITY_REGISTER_MASK),
            PciCapabilityId::MsiX => Some(MSIX_CAPABILITY_REGISTER_MASK),
            _ => None,
        }
    }

    /// The status register tells that there is a capability list.
    pub open spec fn with_capability_list(self) -> ConfigSpace {
        ConfigSpace {
            registers: self.registers.update(
                STATUS_REG as int,
                self.registers[STATUS_REG as int] | STATUS_REG_CAPABILITIES_USED_MASK,
            ),
            ..self
        }
    }

    /// A capability appended: linked, headed by its identifier and a null next pointer, and
    /// followed by its content.
    pub open spec fn with_capability(self, id: PciCapabilityId, content: Seq<u8>) -> ConfigSpace {
        let offset = self.capability_offset();
        let written = self.with_capability_list().put_byte(
            self.capability_link(),
            offset as u8,
        ).put_byte(offset, id.code()).put_byte(offset + 1, 0).put_bytes(offset + 2, content);
        ConfigSpace {
            writable_bits: match Self::capability_mask(id) {
                Some(mask) => self.writable_bits.update(offset / 4, mask),
                None => self.writable_bits,
            },
            last_capability: Some((offset as usize, content.len() as usize)),
            msix_cap_reg_idx: if id == PciCapabilityId::MsiX {
                Some((offset / 4) as usize)
            } else {
                self.msix_cap_reg_idx
            },
            ..written
        }
    }
}

// Construction and snapshots.
impl ConfigSpace {
    /// The identification registers of a fresh space; every other register reads zero.
    pub open spec fn fresh_register(
        vendor_id: u16,
        device_id: u16,
        revision_id: u8,
        class: u8,
        subclass: u8,
        interface: u8,
        header_type: PciHeaderType,
        subsystem_vendor_id: u16,
        subsystem_id: u16,
        reg_idx: int,
    ) -> u32 {
        if reg_idx == 0 {
            (device_id * 0x1_0000 + vendor_id) as u32
        } else if reg_idx == 2 {
            (class * 0x100_0000 + subclass * 0x1_0000 + interface * 0x100 + revision_id) as u32
        } else if reg_idx == 3 {
            match header_type {
                PciHeaderType::Device => 0x0000_0000,
                PciHeaderType::Bridge => 0x0001_0000,
            }
        } else if reg_idx == 11 {
            (subsystem_id * 0x1_0000 + subsystem_vendor_id) as u32
        } else {
            0
        }
    }

    /// The bits of a fresh space that the guest may write: the command register, the cache line
    /// size, the interrupt line and, for a bridge, the memory window and the bridge control.
    pub open spec fn fresh_writable_bits(header_type: PciHeaderType, reg_idx: int) -> u32 {
        if reg_idx == 1 {
            0x0000_ffff
        } else if reg_idx == 3 {
            0x0000_00ff
        } else if reg_idx == 9 {
            match header_type {
                PciHeaderType::Device => 0x0000_0000,
                PciHeaderType::Bridge => 0xfff0_fff0,
            }
        } else if reg_idx == 15 {
            match header_type {
                PciHeaderType::Device => 0x0000_00ff,
                PciHeaderType::Bridge => 0xffff_00ff,
            }
        } else {
            0
        }
    }

    /// A space with no BAR and no capability.
    pub open spec fn fresh(
        vendor_id: u16,
        device_id: u16,
        revision_id: u8,
        class: u8,
        subclass: u8,
        interface: u8,
        header_type: PciHeaderType,
        subsystem_vendor_id: u16,
        subsystem_id: u16,
        msix: Option<Seq<u16>>,
    ) -> ConfigSpace {
        ConfigSpace {
            registers: Seq::new(
                NUM_CONFIGURATION_REGISTERS as nat,
                |reg_idx: int|
                    Self::fresh_register(
                        vendor_id,
                        device_id,
                        revision_id,
                        class,
                        subclass,
                        interface,
                        header_type,
                        subsystem_vendor_id,
                        subsystem_id,
                        reg_idx,
                    ),
            ),
            writable_bits: Seq::new(
                NUM_CONFIGURATION_REGISTERS as nat,
                |reg_idx: int| Self::fresh_writable_bits(header_type, reg_idx),
            ),
            bars: Seq::new(NUM_BAR_REGS as nat, |slot: int| PciBar::unused()),
            rom_bar_addr: 0,
            rom_bar_size: 0,
            rom_bar_used: false,
            last_capability: None,
            msix_cap_reg_idx: None,
            msix,
            mapped: Seq::new(NUM_SLOTS as nat, |slot: int| None),
            pending: Seq::new(NUM_SLOTS as nat, |slot: int| None),
        }
    }

    /// The registers and BARs of a snapshot, with nothing mapped and nothing pending.
    pub open spec fn loaded(state: PciConfigurationState, msix: Option<Seq<u16>>) -> ConfigSpace {
        ConfigSpace {
            registers: state.registers@,
            writable_bits: state.writable_bits@,
            bars: state.bars@,
            rom_bar_addr: state.rom_bar_addr,
            rom_bar_size: state.rom_bar_size,
            rom_bar_used: state.rom_bar_used,
            last_capability: state.last_capability,
            msix_cap_reg_idx: state.msix_cap_reg_idx,
            msix,
            mapped: Seq::new(NUM_SLOTS as nat, |slot: int| None),
            pending: Seq::new(NUM_SLOTS as nat, |slot: int| None),
        }
    }

    /// Whether a snapshot has the parts of a configuration space.
    pub open spec fn loadable(state: PciConfigurationState) -> bool {
        let space = Self::loaded(state, None);
        space.shape() && space.paired()
    }

    /// The address that a restored BAR is materialized at, unless a move of it is in flight.
    pub open spec fn settled_addr(self, slot: int) -> Option<u64> {
        if self.region_type(slot) is None {
            None
        } else if slot == ROM_BAR_IDX {
            Some((self.rom_bar_addr & ROM_BAR_ADDR_MASK) as u64)
        } else {
            Some(self.bar_addr(slot))
        }
    }

    /// Every declared BAR mapped at its config-space address, nothing pending.
    pub open spec fn settled(self) -> ConfigSpace {
        ConfigSpace {
            mapped: Seq::new(NUM_SLOTS as nat, |slot: int| self.settled_addr(slot)),
            pending: Seq::new(NUM_SLOTS as nat, |slot: int| None),
            ..self
        }
    }

    /// Whether an in-flight move of a snapshot can be one of the BAR at `slot`: of its type, and
    /// to the address that its registers ask for.
    pub open spec fn is_move_of(self, params: BarReprogrammingParams, slot: int) -> bool {
        &&& self.region_type(slot) == Some(params.region_type)
        &&& self.bar_target(slot) == params.new_base
    }

    /// The lowest slot, from `from` on, that an in-flight move can be one of.
    pub open spec fn first_move_of(self, params: BarReprogrammingParams, from: int) -> Option<int>
        decreases NUM_SLOTS - from,
    {
        if from >= NUM_SLOTS {
            None
        } else if self.is_move_of(params, from) {
            Some(from)
        } else {
            self.first_move_of(params, from + 1)
        }
    }

    /// The slot that an in-flight move of a snapshot belongs to: the recorded one where it fits
    /// the move, else the lowest that does.
    pub open spec fn moved_slot(self, params: BarReprogrammingParams) -> Option<int> {
        if self.is_move_of(params, params.bar_idx as int) {
            Some(params.bar_idx as int)
        } else {
            self.first_move_of(params, 0)
        }
    }

    /// A BAR mapped at the address that it is to be released from.
    pub open spec fn with_inflight(self, slot: int, base: u64) -> ConfigSpace {
        ConfigSpace {
            mapped: self.mapped.update(slot, Some(base)),
            pending: self.pending.update(slot, Some(base)),
            ..self
        }
    }

    /// The in-flight moves of a snapshot laid over the settled BARs; one that belongs to no BAR
    /// is dropped.
    pub open spec fn with_moves(self, moves: Seq<BarReprogrammingParams>) -> ConfigSpace
        decreases moves.len(),
    {
        if moves.len() == 0 {
            self
        } else {
            let before = self.with_moves(moves.drop_last());
            match self.moved_slot(moves.last()) {
                Some(slot) => before.with_inflight(slot, moves.last().old_base),
                None => before,
            }
        }
    }

    /// The space that a snapshot restores to.
    pub open spec fn restored(state: PciConfigurationState, msix: Option<Seq<u16>>) -> ConfigSpace {
        Self::loaded(state, msix).settled().with_moves(state.pending_bar_reprogram@)
    }

    /// The record of the move that is in flight at `slot`.
    pub open spec fn inflight_move(self, slot: int) -> BarReprogrammingParams {
        BarReprogrammingParams {
            bar_idx: slot as usize,
            old_base: self.pending[slot]->0,
            new_base: self.bar_target(slot),
            len: self.bar_len_or_zero(slot),
            region_type: match self.region_type(slot) {
                Some(region_type) => region_type,
                None => PciBarRegionType::Memory32BitRegion,
            },
        }
    }

    /// The records of the moves that are in flight at the first `n` slots.
    pub open spec fn inflight_moves(self, n: nat) -> Seq<BarReprogrammingParams>
        decreases n,
    {
        if n == 0 {
            Seq::empty()
        } else {
            let before = self.inflight_moves((n - 1) as nat);
            if self.pending[n - 1] is Some {
                before.push(self.inflight_move(n - 1))
            } else {
                before
            }
        }
    }

    /// Whether `state` is the snapshot of this space.
    pub open spec fn is_saved_as(self, state: PciConfigurationState) -> bool {
        &&& state.registers@ == self.registers
        &&& state.writable_bits@ == self.writable_bits
        &&& state.bars@ == self.bars
        &&& state.rom_bar_addr == self.rom_bar_addr
        &&& state.rom_bar_size == self.rom_bar_size
        &&& state.rom_bar_used == self.rom_bar_used
        &&& state.last_capability == self.last_capability
        &&& state.msix_cap_reg_idx == self.msix_cap_reg_idx
        &&& state.pending_bar_reprogram@ == self.inflight_moves(NUM_SLOTS as nat)
    }
}

// Guest writes and the moves that they start.
impl ConfigSpace {
    /// Where the slot stands.
    pub open spec fn bar_state(self, slot: int) -> BarState {
        match (self.mapped[slot], self.pending[slot]) {
            (None, None) => BarState::Boot,
            (Some(addr), None) => BarState::Mapped(addr),
            (None, Some(base)) => BarState::Released(base),
            (Some(_), Some(base)) => BarState::RestoredInflight(base),
        }
    }

    /// Whether the BAR is torn down and not installed again.
    pub open spec fn is_released(self, slot: int) -> bool {
        self.bar_state(slot) is Released
    }

    /// Whether a four-byte write of `value` programs another address than the register had. The
    /// BAR registers take part when they hold the address of a BAR of one slot, or the upper half
    /// of that of a 64-bit BAR: there the upper half completes the address, so that a change of
    /// either half counts. `self` is the space with the register written.
    pub open spec fn moves(self, reg_idx: int, value: u32) -> bool {
        let mask = self.writable_bits[reg_idx];
        let slot = reg_idx - BAR0_REG;
        if Self::asks_size(reg_idx, value) {
            false
        } else if 0 <= slot < NUM_BAR_REGS {
            match self.bars[slot].region_type {
                Some(PciBarRegionType::Memory64BitRegion) => false,
                Some(_) => value & mask != self.bars[slot].addr & mask,
                None => self.is_64_bit(slot - 1) && (self.address_bits(reg_idx - 1)
                    != self.bars[slot - 1].addr & self.writable_bits[reg_idx - 1] || value & mask
                    != self.bars[slot].addr & mask),
            }
        } else {
            reg_idx == ROM_BAR_REG && value & mask != self.rom_bar_addr & mask
        }
    }

    /// Whether the register holds the upper half of the address of a 64-bit BAR: the BAR starts
    /// at the slot below, and none starts at the register's own slot.
    pub open spec fn is_upper_half(self, reg_idx: int) -> bool {
        &&& BAR0_REG < reg_idx < BAR0_REG + NUM_BAR_REGS
        &&& self.bars[reg_idx - BAR0_REG].region_type is None
        &&& self.is_64_bit(reg_idx - BAR0_REG - 1)
    }

    /// The number of bytes behind the BAR that a write to this register moves.
    pub open spec fn moved_len(self, reg_idx: int) -> Option<u64> {
        if reg_idx == ROM_BAR_REG {
            Self::len_32(self.rom_bar_size)
        } else {
            let slot = reg_idx - BAR0_REG;
            if self.is_upper_half(reg_idx) {
                Self::len_64(self.bars[slot].size, self.bars[slot - 1].size)
            } else {
                Self::len_32(self.bars[slot].size)
            }
        }
    }

    /// The move that a four-byte write of `value` asks for, where it asks for one.
    pub open spec fn reprogramming(self, reg_idx: int, value: u32) -> Option<BarReprogramming> {
        let target = value & self.writable_bits[reg_idx];
        let len = self.moved_len(reg_idx)->0;
        if !self.moves(reg_idx, value) {
            None
        } else if reg_idx == ROM_BAR_REG {
            Some(
                BarReprogramming {
                    bar_idx: ROM_BAR_IDX,
                    new_base: target as u64,
                    len,
                    region_type: PciBarRegionType::Memory32BitRegion,
                },
            )
        } else if self.is_upper_half(reg_idx) {
            Some(
                BarReprogramming {
                    bar_idx: (reg_idx - BAR0_REG - 1) as usize,
                    new_base: bits::join_dwords(target, self.address_bits(reg_idx - 1)),
                    len,
                    region_type: PciBarRegionType::Memory64BitRegion,
                },
            )
        } else {
            Some(
                BarReprogramming {
                    bar_idx: (reg_idx - BAR0_REG) as usize,
                    new_base: target as u64,
                    len,
                    region_type: self.bars[reg_idx - BAR0_REG].region_type->0,
                },
            )
        }
    }

    /// The programmed addresses follow the registers, where a write moves a BAR.
    pub open spec fn follow(self, reg_idx: int, value: u32) -> ConfigSpace {
        let slot = reg_idx - BAR0_REG;
        if !self.moves(reg_idx, value) {
            self
        } else if reg_idx == ROM_BAR_REG {
            ConfigSpace { rom_bar_addr: value, ..self }
        } else {
            let bars = self.bars.update(slot, PciBar { addr: value, ..self.bars[slot] });
            ConfigSpace {
                bars: if self.is_upper_half(reg_idx) {
                    bars.update(
                        slot - 1,
                        PciBar { addr: self.registers[reg_idx - 1], ..self.bars[slot - 1] },
                    )
                } else {
                    bars
                },
                ..self
            }
        }
    }

    /// A move begun: a mapped BAR is released; one that is released already stays so, with the
    /// address that it was released from.
    pub open spec fn begin_move(self, reprogramming: Option<BarReprogramming>) -> ConfigSpace {
        match reprogramming {
            Some(params) => {
                let slot = params.bar_idx as int;
                match self.mapped[slot] {
                    Some(base) => ConfigSpace {
                        mapped: self.mapped.update(slot, None),
                        pending: self.pending.update(slot, Some(base)),
                        ..self
                    },
                    None => self,
                }
            },
            None => self,
        }
    }

    /// What beginning a move asks for: the release of a mapped BAR and, where the guest lets its
    /// space be decoded, the install at the new address.
    pub open spec fn begin_move_plan(self, reprogramming: Option<BarReprogramming>) -> Plan {
        match reprogramming {
            Some(params) => match self.mapped[params.bar_idx as int] {
                Some(base) => Plan {
                    release: seq![
                        ReleaseParams {
                            bar_idx: params.bar_idx,
                            base,
                            len: params.len,
                            region_type: params.region_type,
                        },
                    ],
                    install: if self.decode_enabled(params.region_type) {
                        seq![
                            InstallParams {
                                bar_idx: params.bar_idx,
                                old_base: base,
                                new_base: params.new_base,
                                len: params.len,
                                region_type: params.region_type,
                            },
                        ]
                    } else {
                        Seq::empty()
                    },
                },
                None => Plan::nothing(),
            },
            None => Plan::nothing(),
        }
    }

    /// Whether the BAR at `slot` has a pending move in the space that `space_mask` enables.
    pub open spec fn awaits(self, space_mask: u32, slot: int) -> bool {
        &&& self.pending[slot] is Some
        &&& self.region_type(slot) is Some
        &&& Self::decode_mask(self.region_type(slot)->0) == space_mask
    }

    /// Every BAR with a pending move in the space torn down where it still was mapped.
    pub open spec fn drained(self, space_mask: u32) -> ConfigSpace {
        ConfigSpace {
            mapped: Seq::new(
                NUM_SLOTS as nat,
                |slot: int|
                    if self.awaits(space_mask, slot) {
                        None
                    } else {
                        self.mapped[slot]
                    },
            ),
            ..self
        }
    }

    /// The release that completes a pending move of the BAR at `slot`.
    pub open spec fn pending_release(self, slot: int) -> ReleaseParams {
        ReleaseParams {
            bar_idx: slot as usize,
            base: self.mapped[slot]->0,
            len: self.bar_len_or_zero(slot),
            region_type: self.region_type(slot)->0,
        }
    }

    /// The install that completes a pending move of the BAR at `slot`: at the address that its
    /// registers ask for now.
    pub open spec fn pending_install(self, slot: int) -> InstallParams {
        InstallParams {
            bar_idx: slot as usize,
            old_base: self.pending[slot]->0,
            new_base: self.bar_target(slot),
            len: self.bar_len_or_zero(slot),
            region_type: self.region_type(slot)->0,
        }
    }

    /// What completes the pending moves of the space at the first `n` slots: the release of those
    /// still mapped, and the install of all of them.
    pub open spec fn drain_plan(self, space_mask: u32, n: nat) -> Plan
        decreases n,
    {
        if n == 0 {
            Plan::nothing()
        } else {
            let slot = n - 1;
            let before = self.drain_plan(space_mask, (n - 1) as nat);
            if self.awaits(space_mask, slot) {
                Plan {
                    release: if self.mapped[slot] is Some {
                        before.release.push(self.pending_release(slot))
                    } else {
                        before.release
                    },
                    install: before.install.push(self.pending_install(slot)),
                }
            } else {
                before
            }
        }
    }

    /// Whether the guest has just enabled a space, `command` being the COMMAND register before.
    pub open spec fn enables(self, command: u32, space_mask: u32) -> bool {
        &&& command & space_mask == 0
        &&& self.registers[COMMAND_REG as int] & space_mask != 0
    }

    /// The pending moves of a space drained, if the guest has just enabled it.
    pub open spec fn after_edge(self, command: u32, space_mask: u32) -> ConfigSpace {
        if self.enables(command, space_mask) {
            self.drained(space_mask)
        } else {
            self
        }
    }

    /// What the pending moves of a space need, if the guest has just enabled it.
    pub open spec fn edge_plan(self, command: u32, space_mask: u32) -> Plan {
        if self.enables(command, space_mask) {
            self.drain_plan(space_mask, NUM_SLOTS as nat)
        } else {
            Plan::nothing()
        }
    }

    /// The pending moves of both spaces drained, as far as the guest has just enabled them.
    pub open spec fn after_edges(self, command: u32) -> ConfigSpace {
        self.after_edge(command, COMMAND_REG_IO_SPACE_MASK).after_edge(
            command,
            COMMAND_REG_MEMORY_SPACE_MASK,
        )
    }

    /// What the pending moves of both spaces need, as far as the guest has just enabled them.
    pub open spec fn edges_plan(self, command: u32) -> Plan {
        self.edge_plan(command, COMMAND_REG_IO_SPACE_MASK).followed_by(
            self.after_edge(command, COMMAND_REG_IO_SPACE_MASK).edge_plan(
                command,
                COMMAND_REG_MEMORY_SPACE_MASK,
            ),
        )
    }

    /// The message control word that a write hands to MSI-X: the upper two bytes of the
    /// capability's first register, written alone or with the rest of it.
    pub open spec fn msg_ctl_of(self, reg_idx: int, offset: int, data: Seq<u8>) -> Option<u16> {
        if self.msix is None || self.msix_cap_reg_idx is None || self.msix_cap_reg_idx->0
            != reg_idx {
            None
        } else if offset == 2 && data.len() == 2 {
            Some(bits::le_u16(data))
        } else if offset == 0 && data.len() == 4 {
            Some(bits::le_u16(data.skip(2)))
        } else {
            None
        }
    }

    /// The message control word of a write handed to MSI-X.
    pub open spec fn with_msg_ctl(self, msg_ctl: Option<u16>) -> ConfigSpace {
        match msg_ctl {
            Some(value) => ConfigSpace { msix: Some(self.msix->0.push(value)), ..self },
            None => self,
        }
    }

    /// The register file after a guest write; only writes of one, two and four bytes reach it.
    pub open spec fn with_data(self, reg_idx: int, offset: int, data: Seq<u8>) -> ConfigSpace {
        if data.len() == 1 {
            self.write_byte(reg_idx * 4 + offset, data[0])
        } else if data.len() == 2 {
            self.write_word(reg_idx * 4 + offset, bits::le_u16(data))
        } else if data.len() == 4 {
            self.write_dword(reg_idx, bits::le_u32(data))
        } else {
            self
        }
    }

    /// Whether a guest write stays within one register.
    pub open spec fn in_register(offset: int, data: Seq<u8>) -> bool {
        offset + data.len() <= 4
    }

    /// The space with the bytes of a guest write in place, but no BAR moved yet.
    pub open spec fn stored(self, reg_idx: int, offset: int, data: Seq<u8>) -> ConfigSpace {
        self.with_msg_ctl(self.msg_ctl_of(reg_idx, offset, data)).with_data(reg_idx, offset, data)
    }

    /// The move that a guest write asks for; `self` is the space with its bytes in place.
    pub open spec fn detected(self, reg_idx: int, data: Seq<u8>) -> Option<BarReprogramming> {
        if data.len() == 4 {
            self.reprogramming(reg_idx, bits::le_u32(data))
        } else {
            None
        }
    }

    /// The space with the bytes of a guest write in place and the programmed addresses
    /// following them.
    pub open spec fn followed(self, reg_idx: int, offset: int, data: Seq<u8>) -> ConfigSpace {
        let stored = self.stored(reg_idx, offset, data);
        if data.len() == 4 {
            stored.follow(reg_idx, bits::le_u32(data))
        } else {
            stored
        }
    }

    /// The space with the move begun that a guest write asks for.
    pub open spec fn begun(self, reg_idx: int, offset: int, data: Seq<u8>) -> ConfigSpace {
        self.followed(reg_idx, offset, data).begin_move(
            self.stored(reg_idx, offset, data).detected(reg_idx, data),
        )
    }

    /// A guest write of `data` to a register, from the byte `offset` of it on.
    pub open spec fn after_write(self, reg_idx: int, offset: int, data: Seq<u8>) -> ConfigSpace {
        if Self::in_register(offset, data) {
            self.begun(reg_idx, offset, data).after_edges(self.registers[COMMAND_REG as int])
        } else {
            self
        }
    }

    /// What a guest write asks to be released and installed.
    pub open spec fn write_plan(self, reg_idx: int, offset: int, data: Seq<u8>) -> Plan {
        if Self::in_register(offset, data) {
            self.followed(reg_idx, offset, data).begin_move_plan(
                self.stored(reg_idx, offset, data).detected(reg_idx, data),
            ).followed_by(
                self.begun(reg_idx, offset, data).edges_plan(self.registers[COMMAND_REG as int]),
            )
        } else {
            Plan::nothing()
        }
    }

    /// The outcome of an install noted: a BAR that was installed is mapped at its new address
    /// with nothing pending, one that was not stays as it is.
    pub open spec fn after_status(self, slot: int, status: BarRelocationStatus) -> ConfigSpace {
        match status {
            BarRelocationStatus::Applied { base } => ConfigSpace {
                mapped: self.mapped.update(slot, Some(base)),
                pending: self.pending.update(slot, None),
                ..self
            },
            BarRelocationStatus::Pending => self,
        }
    }
}

// Well-formedness.
impl ConfigSpace {
    /// Whether the size behind a BAR register that a guest can move a BAR by is known.
    pub open spec fn size_known(self, slot: int) -> bool {
        let bar = self.bars[slot];
        match bar.region_type {
            Some(PciBarRegionType::Memory64BitRegion) => true,
            Some(_) => bar.size != 0,
            None => self.is_64_bit(slot - 1) ==> bar.size != 0 || self.bars[slot - 1].size != 0,
        }
    }

    /// Whether the size behind every register that a guest can move a BAR by is known.
    pub open spec fn sizes_known(self) -> bool {
        &&& self.writable_bits[ROM_BAR_REG as int] != 0 ==> self.rom_bar_size != 0
        &&& forall|slot: int| 0 <= slot < NUM_BAR_REGS ==> #[trigger] self.size_known(slot)
    }

    /// What holds of a BAR slot: a BAR that starts there is in use, and the guest can write its
    /// address; the upper half of a 64-bit BAR occupies the slot after.
    pub open spec fn slot_wf(self, slot: int) -> bool {
        &&& self.bars[slot].region_type matches Some(region_type) ==> {
            &&& self.bars[slot].used
            &&& self.writable_bits[BAR0_REG + slot] == Self::address_mask(region_type)
        }
        &&& self.bars[slot].region_type == Some(PciBarRegionType::Memory64BitRegion) ==> {
            &&& slot + 1 < NUM_BAR_REGS
            &&& self.bars[slot + 1].used
            &&& self.bars[slot + 1].region_type is None
            &&& self.writable_bits[BAR0_REG + slot + 1] == 0xffff_ffff
        }
    }

    /// What holds of the mapping of a slot: only a declared BAR is mapped or pending, and one that
    /// is both is pending from the address that it is mapped at.
    pub open spec fn mapping_wf(self, slot: int) -> bool {
        &&& self.region_type(slot) is None ==> self.mapped[slot] is None && self.pending[slot]
            is None
        &&& self.mapped[slot] is Some && self.pending[slot] is Some ==> self.mapped[slot]
            == self.pending[slot]
    }

    /// What holds of the end of the capability list: it lies in the area for capabilities.
    pub open spec fn capabilities_wf(self) -> bool {
        match self.last_capability {
            Some((offset, len)) => {
                &&& FIRST_CAPABILITY_OFFSET <= offset
                &&& offset % 4 == 0
                &&& 1 <= len
                &&& offset + len <= CAPABILITY_MAX_OFFSET
            },
            None => true,
        }
    }

    /// What holds of the expansion ROM: the guest can write its address, and it has a size only
    /// where there is one.
    pub open spec fn rom_wf(self) -> bool {
        if self.rom_bar_used {
            self.writable_bits[ROM_BAR_REG as int] == ROM_BAR_ADDR_MASK
        } else {
            self.rom_bar_size == 0
        }
    }

    /// What every operation keeps.
    pub open spec fn wf(self) -> bool {
        &&& self.shape()
        &&& self.paired()
        &&& self.rom_wf()
        &&& self.capabilities_wf()
        &&& forall|slot: int| 0 <= slot < NUM_BAR_REGS ==> #[trigger] self.slot_wf(slot)
        &&& forall|slot: int| 0 <= slot < NUM_SLOTS ==> #[trigger] self.mapping_wf(slot)
    }

    /// Whether `after` is well formed where this space is, and knows the sizes that it knows.
    pub open spec fn kept_by(self, after: ConfigSpace) -> bool {
        &&& self.paired() ==> after.paired()
        &&& self.wf() ==> after.wf()
        &&& self.wf() && self.sizes_known() ==> after.sizes_known()
    }

    /// Whether a guest write can be carried out: it addresses a register by a number that the
    /// machine can hold, one of the whole register addresses one that exists, and the size of a
    /// BAR that it moves is known.
    pub open spec fn accepts_write(self, reg_idx: int, offset: int, data: Seq<u8>) -> bool {
        &&& self.paired()
        &&& offset + data.len() <= usize::MAX
        &&& Self::in_register(offset, data) && (data.len() == 1 || data.len() == 2) ==> reg_idx * 4
            + offset <= usize::MAX
        &&& Self::in_register(offset, data) && data.len() == 4 ==> {
            let stored = self.stored(reg_idx, offset, data);
            &&& reg_idx < NUM_CONFIGURATION_REGISTERS
            &&& stored.moves(reg_idx, bits::le_u32(data)) ==> stored.moved_len(reg_idx) is Some
        }
    }
}

} // verus!
