//! The configuration space of a PCI function.
use crate::bar::{
    decode_32_bits_bar_size, decode_64_bits_bar_size, encode_32_bits_bar_size,
    encode_64_bits_bar_size, PciBar, PciBarConfiguration, PciBarRegionType,
};
use crate::bits;
use crate::capability::{PciCapability, PciCapabilityId};
use crate::class::{PciClassCode, PciHeaderType, PciProgrammingInterface, PciSubclass};
use crate::device::{BarRelocation, BarRelocationStatus, InstallParams, ReleaseParams};
use crate::error::Error;
use crate::interrupt::{MsixConfig, PciInterruptPin};
use crate::invariants;
use crate::space::{
    BarReprogramming, ConfigSpace, BAR0_REG, BAR_IO_ADDR_MASK, BAR_MEM_ADDR_MASK,
    CAPABILITY_LIST_HEAD_OFFSET, CAPABILITY_MAX_OFFSET, COMMAND_REG, COMMAND_REG_IO_SPACE_MASK,
    COMMAND_REG_MEMORY_SPACE_MASK, FIRST_CAPABILITY_OFFSET, INTERRUPT_LINE_PIN_REG,
    MSIX_CAPABILITY_REGISTER_MASK, MSI_CAPABILITY_REGISTER_MASK, NUM_BAR_REGS,
    NUM_CONFIGURATION_REGISTERS, NUM_SLOTS, ROM_BAR_ADDR_MASK, ROM_BAR_IDX, ROM_BAR_REG,
    STATUS_REG, STATUS_REG_CAPABILITIES_USED_MASK,
};
use crate::state::{BarReprogrammingParams, PciConfigurationState};
use vstd::prelude::*;

verus! {

pub const PCI_CONFIGURATION_ID: &'static str = "pci_configuration";

/// Contains the configuration space of a PCI node.
///
/// See the [overview](https://en.wikipedia.org/wiki/PCI_configuration_space).
/// The configuration space is accessed with DWORD reads and writes from the guest.
pub struct PciConfiguration {
    registers: [u32; NUM_CONFIGURATION_REGISTERS],
    // Writable bits for each register.
    writable_bits: [u32; NUM_CONFIGURATION_REGISTERS],
    bars: [PciBar; NUM_BAR_REGS],
    rom_bar_addr: u32,
    rom_bar_size: u32,
    rom_bar_used: bool,
    // Contains the byte offset and size of the last capability.
    last_capability: Option<(usize, usize)>,
    msix_cap_reg_idx: Option<usize>,
    msix_config: Option<MsixConfig>,
    // The guest-physical address the BAR is currently mapped at, or `None` while the BAR is
    // released awaiting install. For a 64-bit BAR the bookkeeping lives only on the LOW/primary
    // slot (the one carrying the type); the high slot stays `None`. It follows relocation
    // *outcomes*: it is updated to a new address only when an install actually succeeded (see
    // `on_bar_relocation_status`).
    mapped_addr: [Option<u64>; NUM_BAR_REGS],
    // Same as `mapped_addr` but for the expansion ROM BAR.
    rom_mapped_addr: Option<u64>,
    // BAR slots that were released and not yet re-installed, mapped to the
    // address they were released from. Installed on the 0->1 transition of
    // the enable bit for each BAR's space (IOSE for IO
    // BARs, MSE for memory BARs and the ROM). Indexed by slot (ROM at
    // ROM_BAR_IDX), `None` where no move is pending.
    pending_relocation: [Option<u64>; NUM_SLOTS],
}

impl View for PciConfiguration {
    type V = ConfigSpace;

    closed spec fn view(&self) -> ConfigSpace {
        ConfigSpace {
            registers: self.registers@,
            writable_bits: self.writable_bits@,
            bars: self.bars@,
            rom_bar_addr: self.rom_bar_addr,
            rom_bar_size: self.rom_bar_size,
            rom_bar_used: self.rom_bar_used,
            last_capability: self.last_capability,
            msix_cap_reg_idx: self.msix_cap_reg_idx,
            msix: msix_view(self.msix_config),
            mapped: self.mapped_addr@.push(self.rom_mapped_addr),
            pending: self.pending_relocation@,
        }
    }
}

impl PciConfiguration {
    /// Every configuration space has all of its parts.
    pub broadcast proof fn lemma_shape(&self)
        ensures
            #[trigger] self@.shape(),
    {
    }

    /// Makes the configuration space of a node, or restores it from `state`.
    pub fn new(
        vendor_id: u16,
        device_id: u16,
        revision_id: u8,
        class_code: PciClassCode,
        subclass: &dyn PciSubclass,
        programming_interface: Option<&dyn PciProgrammingInterface>,
        header_type: PciHeaderType,
        subsystem_vendor_id: u16,
        subsystem_id: u16,
        msix_config: Option<MsixConfig>,
        state: Option<PciConfigurationState>,
    ) -> (config: Self)
        requires
            state matches Some(state) ==> ConfigSpace::loadable(state),
        ensures
            config@ == match state {
                Some(state) => ConfigSpace::restored(state, msix_view(msix_config)),
                None => ConfigSpace::fresh(
                    vendor_id,
                    device_id,
                    revision_id,
                    class_code.register_value(),
                    subclass.register_value(),
                    match programming_interface {
                        Some(pi) => pi.register_value(),
                        None => 0,
                    },
                    header_type,
                    subsystem_vendor_id,
                    subsystem_id,
                    msix_view(msix_config),
                ),
            },
            state is None ==> config@.wf() && config@.sizes_known(),
            state matches Some(state) ==> config@.paired() && ConfigSpace::loaded(
                state,
                msix_view(msix_config),
            ).kept_by(config@),
    {
        match state {
            Some(state) => {
                proof {
                    invariants::restored_is_wf(state, msix_view(msix_config));
                }
                Self::restore(state, msix_config)
            },
            None => {
                proof {
                    invariants::fresh_is_wf(
                        vendor_id,
                        device_id,
                        revision_id,
                        class_code.register_value(),
                        subclass.register_value(),
                        match programming_interface {
                            Some(pi) => pi.register_value(),
                            None => 0,
                        },
                        header_type,
                        subsystem_vendor_id,
                        subsystem_id,
                        msix_view(msix_config),
                    );
                }
                let pi: u8 = match programming_interface {
                    Some(pi) => pi.get_register_value(),
                    None => 0,
                };
                Self::fresh(
                    vendor_id,
                    device_id,
                    revision_id,
                    class_code.get_register_value(),
                    subclass.get_register_value(),
                    pi,
                    header_type,
                    subsystem_vendor_id,
                    subsystem_id,
                    msix_config,
                )
            },
        }
    }

    /// A configuration space at fresh boot, with its class register given by its bytes.
    fn fresh(
        vendor_id: u16,
        device_id: u16,
        revision_id: u8,
        class: u8,
        subclass: u8,
        pi: u8,
        header_type: PciHeaderType,
        subsystem_vendor_id: u16,
        subsystem_id: u16,
        msix_config: Option<MsixConfig>,
    ) -> (config: Self)
        ensures
            config@ == ConfigSpace::fresh(
                vendor_id,
                device_id,
                revision_id,
                class,
                subclass,
                pi,
                header_type,
                subsystem_vendor_id,
                subsystem_id,
                msix_view(msix_config),
            ),
    {
        let mut registers: [u32; NUM_CONFIGURATION_REGISTERS] = [0u32;NUM_CONFIGURATION_REGISTERS];
        let mut writable_bits: [u32; NUM_CONFIGURATION_REGISTERS] =
            [0u32;NUM_CONFIGURATION_REGISTERS];
        proof {
            bits::lemma_two_words(device_id, vendor_id);
            bits::lemma_two_words(subsystem_id, subsystem_vendor_id);
            bits::lemma_four_bytes(class, subclass, pi, revision_id);
        }
        registers[0] = ((device_id as u32) << 16u32) | (vendor_id as u32);
        writable_bits[1] = 0x0000_ffff;  // Status (r/o), command (r/w)
        registers[2] = ((class as u32) << 24u32) | ((subclass as u32) << 16u32) | ((pi as u32)
            << 8u32) | (revision_id as u32);
        writable_bits[3] = 0x0000_00ff;  // Cacheline size (r/w)
        match header_type {
            PciHeaderType::Device => {
                registers[3] = 0x0000_0000;  // Header type 0 (device)
                writable_bits[15] = 0x0000_00ff;  // Interrupt line (r/w)
            },
            PciHeaderType::Bridge => {
                registers[3] = 0x0001_0000;  // Header type 1 (bridge)
                writable_bits[9] = 0xfff0_fff0;  // Memory base and limit
                writable_bits[15] = 0xffff_00ff;  // Bridge control (r/w), interrupt line (r/w)
            },
        }
        registers[11] = ((subsystem_id as u32) << 16u32) | (subsystem_vendor_id as u32);
        let unused: PciBar = PciBar::default();

        PciConfiguration {
            registers,
            writable_bits,
            bars: [unused;NUM_BAR_REGS],
            rom_bar_addr: 0,
            rom_bar_size: 0,
            rom_bar_used: false,
            last_capability: None,
            msix_cap_reg_idx: None,
            msix_config,
            // The `add_pci_bar`/`add_pci_rom_bar` calls that follow seed these.
            mapped_addr: [None;NUM_BAR_REGS],
            rom_mapped_addr: None,
            pending_relocation: [None;NUM_SLOTS],
        }
    }

    /// A configuration space restored from a snapshot.
    fn restore(state: PciConfigurationState, msix_config: Option<MsixConfig>) -> (config: Self)
        requires
            ConfigSpace::loadable(state),
        ensures
            config@ == ConfigSpace::restored(state, msix_view(msix_config)),
    {
        let ghost loaded = ConfigSpace::loaded(state, msix_view(msix_config));
        let mut config: PciConfiguration = PciConfiguration {
            registers: Self::to_registers(&state.registers),
            writable_bits: Self::to_registers(&state.writable_bits),
            bars: Self::to_bars(&state.bars),
            rom_bar_addr: state.rom_bar_addr,
            rom_bar_size: state.rom_bar_size,
            rom_bar_used: state.rom_bar_used,
            last_capability: state.last_capability,
            msix_cap_reg_idx: state.msix_cap_reg_idx,
            msix_config,
            mapped_addr: [None;NUM_BAR_REGS],
            rom_mapped_addr: None,
            pending_relocation: [None;NUM_SLOTS],
        };
        assert(config@ =~= loaded);

        // Restore maps every BAR at its device-tree resource address,
        // which equals the config-space address except for BARs with an
        // in-flight move (the resource is only updated when a move
        // commits). Seed "every declared BAR mapped at its config
        // address, nothing pending" first, then overlay the serialized
        // in-flight moves.
        let mut bar_num: usize = 0;
        while bar_num < NUM_BAR_REGS
            invariant
                bar_num <= NUM_BAR_REGS,
                loaded.shape(),
                loaded.paired(),
                config@.mapped.len() == NUM_SLOTS,
                config@ == (ConfigSpace { mapped: config@.mapped, ..loaded }),
                forall|slot: int|
                    0 <= slot < bar_num ==> #[trigger] config@.mapped[slot] == loaded.settled_addr(
                        slot,
                    ),
                forall|slot: int|
                    bar_num <= slot < NUM_SLOTS ==> #[trigger] config@.mapped[slot] is None,
            decreases NUM_BAR_REGS - bar_num,
        {
            // A BAR's primary slot is the only one carrying a type;
            // the high half of a 64-bit BAR is `used` but stays `None`,
            // matching `add_pci_bar`'s boot-time seeding.
            if config.bars[bar_num].region_type.is_some() {
                let addr: u64 = config.get_bar_addr(bar_num);
                config.set_mapped_addr(bar_num, Some(addr));
            }
            bar_num = bar_num + 1;
        }
        if config.rom_bar_used {
            let addr: u64 = (config.rom_bar_addr & ROM_BAR_ADDR_MASK) as u64;
            config.set_mapped_addr(ROM_BAR_IDX, Some(addr));
        }
        let ghost settled = loaded.settled();
        assert(config@ =~= settled) by {
            assert(config@.mapped =~= settled.mapped);
            assert(config@.pending =~= settled.pending);
        }

        // A serialized in-flight move means the BAR was restored at the
        // address it was RELEASED from (`old_base`, the resource
        // address), not at the config-space target the guest wrote. Seed
        // `mapped_addr` with the released-from base and mark the slot
        // pending, so the guest's decode-enable edge replays the move
        // (release at old_base, install at the config target).
        let ghost moves = state.pending_bar_reprogram@;
        assert(moves.take(0) =~= Seq::empty());
        let mut i: usize = 0;
        while i < state.pending_bar_reprogram.len()
            invariant
                i <= moves.len(),
                moves == state.pending_bar_reprogram@,
                settled.shape(),
                config@ == settled.with_moves(moves.take(i as int)),
            decreases moves.len() - i,
        {
            let params: BarReprogrammingParams = state.pending_bar_reprogram[i];
            proof {
                invariants::lemma_with_moves_keeps(settled, moves.take(i as int));
                lemma_moved_slot_same(settled, config@, params);
                assert(moves.take(i + 1).drop_last() =~= moves.take(i as int));
                assert(moves.take(i + 1).last() == params);
            }
            if let Some(slot) = config.resolve_pending_slot(&params) {
                config.set_mapped_addr(slot, Some(params.old_base));
                config.pending_relocation[slot] = Some(params.old_base);
            }
            i = i + 1;
        }
        assert(moves.take(i as int) =~= moves);

        config
    }

    fn to_registers(values: &Vec<u32>) -> (registers: [u32; NUM_CONFIGURATION_REGISTERS])
        requires
            values@.len() == NUM_CONFIGURATION_REGISTERS,
        ensures
            registers@ == values@,
    {
        let mut registers: [u32; NUM_CONFIGURATION_REGISTERS] = [0u32;NUM_CONFIGURATION_REGISTERS];
        let mut i: usize = 0;
        while i < NUM_CONFIGURATION_REGISTERS
            invariant
                i <= NUM_CONFIGURATION_REGISTERS,
                values@.len() == NUM_CONFIGURATION_REGISTERS,
                forall|j: int| 0 <= j < i ==> registers@[j] == values@[j],
            decreases NUM_CONFIGURATION_REGISTERS - i,
        {
            registers[i] = values[i];
            i = i + 1;
        }
        assert(registers@ =~= values@);
        registers
    }

    fn to_bars(values: &Vec<PciBar>) -> (bars: [PciBar; NUM_BAR_REGS])
        requires
            values@.len() == NUM_BAR_REGS,
        ensures
            bars@ == values@,
    {
        let bars: [PciBar; NUM_BAR_REGS] = [
            values[0],
            values[1],
            values[2],
            values[3],
            values[4],
            values[5],
        ];
        assert(bars@ =~= values@);
        bars
    }

    /// Maps a restored `pending_bar_reprogram` entry to the BAR slot it
    /// describes. Trust `bar_idx` when it is consistent with the entry;
    /// snapshots that predate it carry 0, so fall back to
    /// scanning for the slot whose config-space target matches the recorded
    /// move.
    fn resolve_pending_slot(&self, params: &BarReprogrammingParams) -> (slot: Option<usize>)
        ensures
            match slot {
                Some(slot) => slot < NUM_SLOTS && self@.moved_slot(*params) == Some(slot as int),
                None => self@.moved_slot(*params) is None,
            },
    {
        if self.is_move_of(params, params.bar_idx) {
            return Some(params.bar_idx);
        }
        let mut slot: usize = 0;
        while slot < NUM_SLOTS
            invariant
                slot <= NUM_SLOTS,
                self@.first_move_of(*params, 0) == self@.first_move_of(*params, slot as int),
                !self@.is_move_of(*params, params.bar_idx as int),
            decreases NUM_SLOTS - slot,
        {
            if self.is_move_of(params, slot) {
                return Some(slot);
            }
            slot = slot + 1;
        }
        None
    }

    fn is_move_of(&self, params: &BarReprogrammingParams, slot: usize) -> (matches: bool)
        ensures
            matches == self@.is_move_of(*params, slot as int),
            matches ==> slot < NUM_SLOTS,
    {
        match self.bar_region_type(slot) {
            Some(region_type) => region_type == params.region_type && self.bar_target(slot)
                == params.new_base,
            None => false,
        }
    }

    /// What a snapshot carries of this space.
    pub fn state(&self) -> (state: PciConfigurationState)
        requires
            self@.paired(),
        ensures
            self@.is_saved_as(state),
    {
        // Serialize the in-flight moves as released-from base (old_base) to
        // current config-space target (new_base).
        let mut pending_bar_reprogram: Vec<BarReprogrammingParams> = Vec::new();
        let mut slot: usize = 0;
        while slot < NUM_SLOTS
            invariant
                slot <= NUM_SLOTS,
                self@.paired(),
                pending_bar_reprogram@ == self@.inflight_moves(slot as nat),
            decreases NUM_SLOTS - slot,
        {
            if let Some(released_from) = self.pending_relocation[slot] {
                let len: u64 = match self.bar_len(slot) {
                    Some(len) => len,
                    None => 0,
                };
                let region_type: PciBarRegionType = match self.bar_region_type(slot) {
                    Some(region_type) => region_type,
                    None => PciBarRegionType::Memory32BitRegion,
                };
                pending_bar_reprogram.push(
                    BarReprogrammingParams {
                        bar_idx: slot,
                        old_base: released_from,
                        new_base: self.bar_target(slot),
                        len,
                        region_type,
                    },
                );
            }
            slot = slot + 1;
        }
        PciConfigurationState {
            registers: vstd::slice::slice_to_vec(self.registers.as_slice()),
            writable_bits: vstd::slice::slice_to_vec(self.writable_bits.as_slice()),
            bars: vstd::slice::slice_to_vec(self.bars.as_slice()),
            rom_bar_addr: self.rom_bar_addr,
            rom_bar_size: self.rom_bar_size,
            rom_bar_used: self.rom_bar_used,
            last_capability: self.last_capability,
            msix_cap_reg_idx: self.msix_cap_reg_idx,
            pending_bar_reprogram,
        }
    }

    /// The name under which snapshots of a configuration space are kept.
    pub fn id(&self) -> (id: String)
        ensures
            id@ == PCI_CONFIGURATION_ID@,
            id@ == "pci_configuration"@,
    {
        PCI_CONFIGURATION_ID.to_string()
    }

    /// Hands out the message control words that the guest wrote to the MSI-X capability since the
    /// last call, oldest first.
    pub fn take_msix_msg_ctl(&mut self) -> (writes: Vec<u16>)
        ensures
            match old(self)@.msix {
                Some(msix) => {
                    &&& writes@ == msix
                    &&& final(self)@ == (ConfigSpace {
                        msix: Some(Seq::empty()),
                        ..old(self)@
                    })
                },
                None => writes@ == Seq::<u16>::empty() && final(self)@ == old(self)@,
            },
            old(self)@.kept_by(final(self)@),
    {
        let writes: Vec<u16> = match &mut self.msix_config {
            Some(msix_config) => msix_config.take_msg_ctl(),
            None => Vec::new(),
        };
        proof {
            invariants::registers_keep_wf(old(self)@, self@);
        }
        writes
    }

    /// Reads a 32bit register from `reg_idx` in the register map.
    pub fn read_reg(&self, reg_idx: usize) -> (value: u32)
        ensures
            value == self@.read(reg_idx as int),
    {
        if reg_idx < NUM_CONFIGURATION_REGISTERS {
            self.registers[reg_idx]
        } else {
            0xffff_ffff
        }
    }

    /// Writes a 32bit register to `reg_idx` in the register map.
    pub fn write_reg(&mut self, reg_idx: usize, value: u32)
        requires
            reg_idx < NUM_CONFIGURATION_REGISTERS,
        ensures
            final(self)@ == old(self)@.write_dword(reg_idx as int, value),
            old(self)@.kept_by(final(self)@),
    {
        let writable: u32 = self.writable_bits[reg_idx];
        let mut mask: u32 = writable;

        if BAR0_REG <= reg_idx && reg_idx < BAR0_REG + NUM_BAR_REGS {
            // Handle very specific case where the BAR is being written with
            // all 1's to retrieve the BAR size during next BAR reading.
            if value == 0xffff_ffff {
                mask = mask & self.bars[reg_idx - BAR0_REG].size;
            }
        } else if reg_idx == ROM_BAR_REG {
            // Handle very specific case where the BAR is being written with
            // all 1's on bits 31-11 to retrieve the BAR size during next BAR
            // reading.
            if value & ROM_BAR_ADDR_MASK == ROM_BAR_ADDR_MASK {
                mask = mask & self.rom_bar_size;
            }
        }
        self.registers[reg_idx] = (self.registers[reg_idx] & !writable) | (value & mask);
        proof {
            invariants::registers_keep_wf(old(self)@, self@);
        }
    }

    /// Writes a 16bit word to `offset`. `offset` must be 16bit aligned.
    pub fn write_word(&mut self, offset: usize, value: u16)
        ensures
            final(self)@ == old(self)@.write_word(offset as int, value),
            old(self)@.kept_by(final(self)@),
    {
        let shift: u32 = match offset % 4 {
            0 => 0,
            2 => 16,
            _ => {
                return;
            },
        };
        let reg_idx: usize = offset / 4;

        if reg_idx < NUM_CONFIGURATION_REGISTERS {
            let writable_mask: u32 = self.writable_bits[reg_idx];
            let mask: u32 = (0xffffu32 << shift) & writable_mask;
            let shifted_value: u32 = ((value as u32) << shift) & writable_mask;
            let register: u32 = self.registers[reg_idx];
            proof {
                bits::lemma_word_lane(register, value, writable_mask);
            }
            self.registers[reg_idx] = register & !mask | shifted_value;
            proof {
                invariants::registers_keep_wf(old(self)@, self@);
            }
        }
    }

    /// Writes a byte to `offset`.
    pub fn write_byte(&mut self, offset: usize, value: u8)
        ensures
            final(self)@ == old(self)@.write_byte(offset as int, value),
            old(self)@.kept_by(final(self)@),
    {
        self.write_byte_internal(offset, value, true);
    }

    /// Writes a byte to `offset`, optionally enforcing read-only bits.
    fn write_byte_internal(&mut self, offset: usize, value: u8, apply_writable_mask: bool)
        ensures
            apply_writable_mask ==> final(self)@ == old(self)@.write_byte(offset as int, value),
            !apply_writable_mask ==> final(self)@ == old(self)@.put_byte(offset as int, value),
            old(self)@.kept_by(final(self)@),
    {
        let shift: u32 = (offset % 4) as u32 * 8;
        let reg_idx: usize = offset / 4;

        if reg_idx < NUM_CONFIGURATION_REGISTERS {
            let writable_mask: u32 = if apply_writable_mask {
                self.writable_bits[reg_idx]
            } else {
                0xffff_ffff
            };
            let mask: u32 = (0xffu32 << shift) & writable_mask;
            let shifted_value: u32 = ((value as u32) << shift) & writable_mask;
            let register: u32 = self.registers[reg_idx];
            proof {
                bits::lemma_byte_lane(register, value, writable_mask, offset as int);
            }
            self.registers[reg_idx] = register & !mask | shifted_value;
            proof {
                invariants::registers_keep_wf(old(self)@, self@);
            }
        }
    }

    pub fn read_config_register(&self, reg_idx: usize) -> (value: u32)
        ensures
            value == self@.read(reg_idx as int),
    {
        self.read_reg(reg_idx)
    }

    /// Configures the IRQ line and pin used by this device.
    pub fn set_irq(&mut self, line: u8, pin: PciInterruptPin)
        ensures
            final(self)@ == old(self)@.with_irq(line, pin.number() as int),
            old(self)@.kept_by(final(self)@),
    {
        // `pin` is 1-based in the pci config space.
        let pin_idx: u32 = pin.get_number() + 1;
        let register: u32 = self.registers[INTERRUPT_LINE_PIN_REG];
        assert(pin_idx <= 4 ==> (register & 0xffff_0000) | (pin_idx << 8u32) | (line as u32) == register
            / 0x1_0000 * 0x1_0000 + pin_idx * 0x100 + line) by (bit_vector);
        self.registers[INTERRUPT_LINE_PIN_REG] = (register & 0xffff_0000) | (pin_idx << 8u32) | (
        line as u32);
        proof {
            invariants::registers_keep_wf(old(self)@, self@);
        }
    }

    /// Adds a region specified by `config`.  Configures the specified BAR(s) to
    /// report this region and size to the guest kernel.  Enforces a few constraints
    /// (i.e, region size must be power of two, register not already used).
    pub fn add_pci_bar(&mut self, config: &PciBarConfiguration) -> (result: Result<(), Error>)
        ensures
            match old(self)@.bar_refusal(*config) {
                Some(error) => result == Err::<(), Error>(error) && final(self)@ == old(self)@,
                None => result == Ok::<(), Error>(()) && final(self)@ == old(self)@.with_bar(
                    *config,
                ),
            },
            old(self)@.kept_by(final(self)@),
    {
        let bar_idx: usize = config.idx;

        if bar_idx >= NUM_BAR_REGS {
            return Err(Error::BarInvalid(bar_idx));
        }
        let reg_idx: usize = BAR0_REG + bar_idx;

        if self.bars[bar_idx].used {
            return Err(Error::BarInUse(bar_idx));
        }
        if !bits::is_power_of_two(config.size) {
            return Err(Error::BarSizeInvalid(config.size));
        }
        proof {
            bits::lemma_pow2_below(config.size);
            bits::lemma_split(config.addr);
            bits::lemma_split(config.size);
        }
        let end_addr: u64 = match config.addr.checked_add(config.size - 1) {
            Some(end_addr) => end_addr,
            None => {
                return Err(Error::BarAddressInvalid(config.addr, config.size));
            },
        };
        match config.region_type {
            PciBarRegionType::Memory32BitRegion | PciBarRegionType::IoRegion => {
                if end_addr > 0xffff_ffff {
                    return Err(Error::BarAddressInvalid(config.addr, config.size));
                }
                // Encode the BAR size as expected by the software running in
                // the guest.
                match encode_32_bits_bar_size(config.size as u32) {
                    Some(size) => {
                        self.bars[bar_idx].size = size;
                    },
                    None => {
                        return Err(Error::Encode32BarSize);
                    },
                }
            },
            PciBarRegionType::Memory64BitRegion => {
                if bar_idx + 1 >= NUM_BAR_REGS {
                    return Err(Error::BarInvalid64(bar_idx));
                }
                if self.bars[bar_idx + 1].used {
                    return Err(Error::BarInUse64(bar_idx));
                }
                // Encode the BAR size as expected by the software running in
                // the guest.
                let (bar_size_hi, bar_size_lo) = match encode_64_bits_bar_size(config.size) {
                    Some(size) => size,
                    None => {
                        return Err(Error::Encode64BarSize);
                    },
                };

                self.registers[reg_idx + 1] = (config.addr >> 32u64) as u32;
                self.writable_bits[reg_idx + 1] = 0xffff_ffff;
                self.bars[bar_idx + 1].addr = self.registers[reg_idx + 1];
                self.bars[bar_idx].size = bar_size_lo;
                self.bars[bar_idx + 1].size = bar_size_hi;
                self.bars[bar_idx + 1].used = true;
            },
        }

        let (mask, lower_bits): (u32, u32) = match config.region_type {
            PciBarRegionType::Memory32BitRegion | PciBarRegionType::Memory64BitRegion => (
                BAR_MEM_ADDR_MASK,
                config.prefetchable.get_register_value() | config.region_type.get_register_value(),
            ),
            PciBarRegionType::IoRegion => (
                BAR_IO_ADDR_MASK,
                config.region_type.get_register_value(),
            ),
        };

        self.registers[reg_idx] = ((config.addr as u32) & mask) | lower_bits;
        self.writable_bits[reg_idx] = mask;
        self.bars[bar_idx].addr = self.registers[reg_idx];
        self.bars[bar_idx].used = true;
        self.bars[bar_idx].region_type = Some(config.region_type);

        // The BAR is mapped (allocator/bus/guest-physical mapping) at its
        // initial address.
        self.mapped_addr[bar_idx] = Some(config.addr);
        proof {
            assert(self@ =~= old(self)@.with_bar(*config));
            invariants::bar_keeps_wf(old(self)@, *config);
        }

        Ok(())
    }

    /// Adds rom expansion BAR.
    pub fn add_pci_rom_bar(&mut self, config: &PciBarConfiguration, active: u32) -> (result: Result<
        (),
        Error,
    >)
        ensures
            match old(self)@.rom_refusal(*config) {
                Some(Error::Encode32BarSize) => {
                    &&& result == Err::<(), Error>(Error::Encode32BarSize)
                    &&& final(self)@ == old(self)@.with_rom_register(*config, active)
                },
                Some(error) => result == Err::<(), Error>(error) && final(self)@ == old(self)@,
                None => result == Ok::<(), Error>(()) && final(self)@ == old(self)@.with_rom(
                    *config,
                    active,
                ),
            },
            old(self)@.paired() ==> final(self)@.paired(),
            old(self)@.wf() ==> final(self)@.wf(),
            result != Err::<(), Error>(Error::Encode32BarSize) ==> old(self)@.kept_by(
                final(self)@,
            ),
    {
        let bar_idx: usize = config.idx;
        let reg_idx: usize = ROM_BAR_REG;

        if self.rom_bar_used {
            return Err(Error::RomBarInUse(bar_idx));
        }
        if !bits::is_power_of_two(config.size) {
            return Err(Error::RomBarSizeInvalid(config.size));
        }
        if bar_idx != ROM_BAR_IDX {
            return Err(Error::RomBarInvalid(bar_idx));
        }
        proof {
            bits::lemma_pow2_below(config.size);
            bits::lemma_split(config.addr);
            bits::lemma_split(config.size);
        }
        let end_addr: u64 = match config.addr.checked_add(config.size - 1) {
            Some(end_addr) => end_addr,
            None => {
                return Err(Error::RomBarAddressInvalid(config.addr, config.size));
            },
        };
        if end_addr > 0xffff_ffff {
            return Err(Error::RomBarAddressInvalid(config.addr, config.size));
        }

        self.registers[reg_idx] = (config.addr as u32) | active;
        self.writable_bits[reg_idx] = ROM_BAR_ADDR_MASK;
        self.rom_bar_addr = self.registers[reg_idx];
        self.rom_bar_size = match encode_32_bits_bar_size(config.size as u32) {
            Some(size) => size,
            None => {
                proof {
                    invariants::rom_register_keeps_wf(old(self)@, *config, active);
                }
                return Err(Error::Encode32BarSize);
            },
        };
        self.rom_bar_used = true;

        // The ROM BAR is mapped (allocator/bus/guest-physical mapping) at
        // its initial address.
        self.rom_mapped_addr = Some(config.addr);
        proof {
            invariants::rom_keeps_wf(old(self)@, *config, active);
        }

        Ok(())
    }

    /// Returns the address of the given BAR region.
    pub fn get_bar_addr(&self, bar_num: usize) -> (addr: u64)
        requires
            bar_num < NUM_BAR_REGS,
            self@.is_64_bit(bar_num as int) ==> bar_num < NUM_BAR_REGS - 1,
        ensures
            addr == self@.bar_addr(bar_num as int),
    {
        let bar_idx: usize = BAR0_REG + bar_num;

        let mut addr: u64 = (self.bars[bar_num].addr & self.writable_bits[bar_idx]) as u64;

        if let Some(PciBarRegionType::Memory64BitRegion) = self.bars[bar_num].region_type {
            proof {
                bits::lemma_join(self.bars[bar_num + 1].addr, addr as u32);
            }
            addr = addr | ((self.bars[bar_num + 1].addr as u64) << 32u64);
        }

        addr
    }

    /// Adds the capability `cap_data` to the list of capabilities.
    /// `cap_data` holds what follows the two-byte PCI capability header (type, next);
    /// the header is generated automatically based on `cap_data.id()`.
    pub fn add_capability(&mut self, cap_data: &dyn PciCapability) -> (result: Result<
        usize,
        Error,
    >)
        requires
            cap_data.content().len() > 0 ==> old(self)@.has_capability_offset(),
        ensures
            result == old(self)@.capability_result(cap_data.content()),
            final(self)@ == if result is Ok {
                old(self)@.with_capability(cap_data.kind(), cap_data.content())
            } else {
                old(self)@
            },
            old(self)@.kept_by(final(self)@),
    {
        self.add_capability_content(cap_data.id(), cap_data.bytes())
    }

    /// Adds a capability of type `id`, whose two-byte header is followed by `content`, to the list
    /// of capabilities.
    ///
    /// The next capability goes to the first dword boundary at or after `content.len()` bytes from
    /// the start of this one, header included. Where the length of `content` is not one or two more
    /// than a multiple of four, the header of the next capability therefore takes the place of the
    /// last bytes of `content`; see `laws::new_capability_content`.
    pub fn add_capability_content(&mut self, id: PciCapabilityId, content: &[u8]) -> (result:
        Result<usize, Error>)
        requires
            content@.len() > 0 ==> old(self)@.has_capability_offset(),
        ensures
            result == old(self)@.capability_result(content@),
            final(self)@ == if result is Ok {
                old(self)@.with_capability(id, content@)
            } else {
                old(self)@
            },
            old(self)@.kept_by(final(self)@),
    {
        let total_len: usize = content.len();
        // Check that the length is valid.
        if total_len == 0 {
            return Err(Error::CapabilityEmpty);
        }
        let (cap_offset, tail_offset): (usize, usize) = match self.last_capability {
            Some((offset, len)) => (Self::next_dword(offset, len), offset + 1),
            None => (FIRST_CAPABILITY_OFFSET, CAPABILITY_LIST_HEAD_OFFSET),
        };
        let end_offset: usize = match cap_offset.checked_add(total_len) {
            Some(end_offset) => end_offset,
            None => {
                return Err(Error::CapabilitySpaceFull(total_len));
            },
        };
        if end_offset > CAPABILITY_MAX_OFFSET {
            return Err(Error::CapabilitySpaceFull(total_len));
        }
        self.registers[STATUS_REG] = self.registers[STATUS_REG] | STATUS_REG_CAPABILITIES_USED_MASK;
        self.write_byte_internal(tail_offset, cap_offset as u8, false);
        self.write_byte_internal(cap_offset, id.get_register_value(), false);
        self.write_byte_internal(cap_offset + 1, 0, false);  // Next pointer.
        let ghost headed = self@;
        assert(headed.put_bytes(cap_offset + 2, content@.take(0)) == headed);
        let mut i: usize = 0;
        while i < total_len
            invariant
                total_len == content@.len(),
                cap_offset + total_len <= CAPABILITY_MAX_OFFSET,
                i <= total_len,
                self@ == headed.put_bytes(cap_offset + 2, content@.take(i as int)),
            decreases total_len - i,
        {
            self.write_byte_internal(cap_offset + i + 2, content[i], false);
            proof {
                let next = content@.take(i + 1);
                assert(next.drop_last() == content@.take(i as int));
                assert(next.last() == content@[i as int]);
            }
            i = i + 1;
        }
        proof {
            assert(content@.take(total_len as int) == content@);
            invariants::lemma_put_bytes_keeps(headed, cap_offset + 2, content@);
        }
        self.last_capability = Some((cap_offset, total_len));

        match id {
            PciCapabilityId::MessageSignalledInterrupts => {
                self.writable_bits[cap_offset / 4] = MSI_CAPABILITY_REGISTER_MASK;
            },
            PciCapabilityId::MsiX => {
                self.msix_cap_reg_idx = Some(cap_offset / 4);
                self.writable_bits[cap_offset / 4] = MSIX_CAPABILITY_REGISTER_MASK;
            },
            _ => {},
        }
        proof {
            invariants::capability_keeps_wf(old(self)@, id, content@);
        }

        Ok(cap_offset)
    }

    // Find the next aligned offset after the one given.
    fn next_dword(offset: usize, len: usize) -> (next: usize)
        requires
            offset + len + 3 <= usize::MAX,
        ensures
            next == bits::align_dword(offset + len),
    {
        let next: usize = offset + len;
        let above: usize = next + 3;
        assert(above & !3usize == above / 4 * 4) by (bit_vector);
        above & !3usize
    }

    /// The COMMAND-register enabling bit for BAR's space: IOSE for IO
    /// BARs, MSE for 32/64-bit memory BARs and the expansion ROM.
    fn decode_mask(region_type: PciBarRegionType) -> (mask: u32)
        ensures
            mask == ConfigSpace::decode_mask(region_type),
    {
        match region_type {
            PciBarRegionType::IoRegion => COMMAND_REG_IO_SPACE_MASK,
            _ => COMMAND_REG_MEMORY_SPACE_MASK,
        }
    }

    fn decode_enabled(&self, region_type: PciBarRegionType) -> (enabled: bool)
        ensures
            enabled == self@.decode_enabled(region_type),
    {
        self.registers[COMMAND_REG] & Self::decode_mask(region_type) != 0
    }

    /// Returns the currently-mapped address for a BAR slot (ROM_BAR_IDX for
    /// the ROM BAR), or `None` while the BAR is released.
    fn mapped_addr(&self, slot: usize) -> (addr: Option<u64>)
        requires
            slot < NUM_SLOTS,
        ensures
            addr == self@.mapped[slot as int],
    {
        if slot == ROM_BAR_IDX {
            self.rom_mapped_addr
        } else {
            self.mapped_addr[slot]
        }
    }

    fn set_mapped_addr(&mut self, slot: usize, addr: Option<u64>)
        requires
            slot < NUM_SLOTS,
        ensures
            final(self)@ == (ConfigSpace {
                mapped: old(self)@.mapped.update(slot as int, addr),
                ..old(self)@
            }),
    {
        if slot == ROM_BAR_IDX {
            self.rom_mapped_addr = addr;
        } else {
            self.mapped_addr[slot] = addr;
        }
    }

    /// The install target for a BAR slot, assembled from the live
    /// guest-visible registers (masked by the writable bits, both dwords
    /// for a 64-bit BAR). Deliberately NOT the `bars[].addr` shadow: the
    /// shadow lags the registers when the guest writes the high dword of a
    /// 64-bit BAR first, or rewrites an address while the BAR is released.
    fn bar_target(&self, slot: usize) -> (target: u64)
        requires
            slot < NUM_SLOTS,
        ensures
            target == self@.bar_target(slot as int),
    {
        if slot == ROM_BAR_IDX {
            return (self.registers[ROM_BAR_REG] & self.writable_bits[ROM_BAR_REG]) as u64;
        }
        let reg_idx: usize = BAR0_REG + slot;
        let mut addr: u64 = (self.registers[reg_idx] & self.writable_bits[reg_idx]) as u64;
        if let Some(PciBarRegionType::Memory64BitRegion) = self.bars[slot].region_type {
            let high: u32 = self.registers[reg_idx + 1] & self.writable_bits[reg_idx + 1];
            proof {
                bits::lemma_join(high, addr as u32);
            }
            addr = addr | ((high as u64) << 32u64);
        }

        addr
    }

    fn bar_len(&self, slot: usize) -> (len: Option<u64>)
        requires
            slot < NUM_SLOTS,
            self@.paired(),
        ensures
            len == self@.bar_len(slot as int),
    {
        if slot == ROM_BAR_IDX {
            return Self::len_32(self.rom_bar_size);
        }
        match self.bars[slot].region_type {
            None => None,
            Some(PciBarRegionType::Memory64BitRegion) => decode_64_bits_bar_size(
                self.bars[slot + 1].size,
                self.bars[slot].size,
            ),
            Some(_) => Self::len_32(self.bars[slot].size),
        }
    }

    // The number of bytes that an encoded 32-bit size stands for.
    fn len_32(size: u32) -> (len: Option<u64>)
        ensures
            len == ConfigSpace::len_32(size),
    {
        match decode_32_bits_bar_size(size) {
            Some(len) => Some(len as u64),
            None => None,
        }
    }

    fn bar_region_type(&self, slot: usize) -> (region_type: Option<PciBarRegionType>)
        ensures
            region_type == self@.region_type(slot as int),
    {
        if slot == ROM_BAR_IDX {
            // The expansion ROM is a 32-bit memory region.
            if self.rom_bar_used {
                Some(PciBarRegionType::Memory32BitRegion)
            } else {
                None
            }
        } else if slot < NUM_BAR_REGS {
            self.bars[slot].region_type
        } else {
            None
        }
    }

    fn detect_bar_reprogramming(&mut self, reg_idx: usize, data: &[u8]) -> (reprogramming: Option<
        BarReprogramming,
    >)
        requires
            data@.len() == 4 ==> {
                &&& reg_idx < NUM_CONFIGURATION_REGISTERS
                &&& old(self)@.moves(reg_idx as int, bits::le_u32(data@)) ==> old(self)@.moved_len(
                    reg_idx as int,
                ) is Some
            },
        ensures
            reprogramming == old(self)@.detected(reg_idx as int, data@),
            final(self)@ == if data@.len() == 4 {
                old(self)@.follow(reg_idx as int, bits::le_u32(data@))
            } else {
                old(self)@
            },
    {
        if data.len() != 4 {
            return None;
        }
        let value: u32 = bits::read_u32(data);

        let mask: u32 = self.writable_bits[reg_idx];
        if BAR0_REG <= reg_idx && reg_idx < BAR0_REG + NUM_BAR_REGS {
            // Ignore the case where the BAR size is being asked for.
            if value == 0xffff_ffff {
                return None;
            }
            let bar_idx: usize = reg_idx - BAR0_REG;
            // Handle special case where the address being written is
            // different from the address initially provided. This is a
            // BAR reprogramming case which needs to be properly caught.
            match self.bars[bar_idx].region_type {
                Some(bar_type) => {
                    // In case of 64 bits memory BAR, we don't do anything until
                    // the upper BAR is modified, otherwise we would be moving the
                    // BAR to a wrong location in memory.
                    if bar_type == PciBarRegionType::Memory64BitRegion {
                        return None;
                    }
                    // Ignore the case where the value is unchanged.
                    if (value & mask) == (self.bars[bar_idx].addr & mask) {
                        return None;
                    }
                    let new_base: u64 = (value & mask) as u64;
                    let len: u64 = Self::len_32(self.bars[bar_idx].size).unwrap();

                    self.bars[bar_idx].addr = value;

                    return Some(BarReprogramming { bar_idx, new_base, len, region_type: bar_type });
                },
                None => {
                    if bar_idx == 0 {
                        return None;
                    }
                    // Only the slot above the start of a 64 bits memory BAR holds
                    // the upper half of an address.
                    match self.bars[bar_idx - 1].region_type {
                        Some(PciBarRegionType::Memory64BitRegion) => {},
                        _ => {
                            return None;
                        },
                    }
                    let low: u32 = self.registers[reg_idx - 1] & self.writable_bits[reg_idx - 1];
                    if low == (self.bars[bar_idx - 1].addr & self.writable_bits[reg_idx - 1]) && (
                    value & mask) == (self.bars[bar_idx].addr & mask) {
                        return None;
                    }
                    proof {
                        bits::lemma_join(value & mask, low);
                    }
                    let new_base: u64 = (((value & mask) as u64) << 32u64) | (low as u64);
                    let len: u64 = decode_64_bits_bar_size(
                        self.bars[bar_idx].size,
                        self.bars[bar_idx - 1].size,
                    ).unwrap();

                    self.bars[bar_idx].addr = value;
                    self.bars[bar_idx - 1].addr = self.registers[reg_idx - 1];

                    // This branch fires on the HIGH-dword write; the BAR's
                    // canonical slot (the one carrying the type) is the
                    // LOW/primary one.
                    return Some(
                        BarReprogramming {
                            bar_idx: bar_idx - 1,
                            new_base,
                            len,
                            region_type: PciBarRegionType::Memory64BitRegion,
                        },
                    );
                },
            }
        } else if reg_idx == ROM_BAR_REG && (value & mask) != (self.rom_bar_addr & mask) {
            // Ignore the case where the BAR size is being asked for.
            if value & ROM_BAR_ADDR_MASK == ROM_BAR_ADDR_MASK {
                return None;
            }
            let new_base: u64 = (value & mask) as u64;
            let len: u64 = Self::len_32(self.rom_bar_size).unwrap();

            self.rom_bar_addr = value;

            return Some(
                BarReprogramming {
                    bar_idx: ROM_BAR_IDX,
                    new_base,
                    len,
                    region_type: PciBarRegionType::Memory32BitRegion,
                },
            );
        }
        None
    }

    /// Emits the deferred installs for every pending BAR of the space whose
    /// enable bit is set. Only a successful install unpends a slot, so a failed one
    /// is retried at the guest's next decode-enable edge.
    fn drain_pending_relocation(&mut self, space_mask: u32, reloc: &mut BarRelocation)
        requires
            old(self)@.paired(),
        ensures
            final(self)@ == old(self)@.drained(space_mask),
            final(reloc)@ == old(reloc)@.followed_by(
                old(self)@.drain_plan(space_mask, NUM_SLOTS as nat),
            ),
    {
        let ghost before = self@;
        let ghost plan = reloc@;
        assert(plan.followed_by(before.drain_plan(space_mask, 0)) =~= plan);
        let mut slot: usize = 0;
        while slot < NUM_SLOTS
            invariant
                slot <= NUM_SLOTS,
                before.paired(),
                before.shape(),
                self@.mapped.len() == NUM_SLOTS,
                self@ == (ConfigSpace { mapped: self@.mapped, ..before }),
                forall|s: int|
                    0 <= s < NUM_SLOTS ==> #[trigger] self@.mapped[s] == if s < slot
                        && before.awaits(space_mask, s) {
                        None
                    } else {
                        before.mapped[s]
                    },
                reloc@ == plan.followed_by(before.drain_plan(space_mask, slot as nat)),
            decreases NUM_SLOTS - slot,
        {
            if let Some(old_base) = self.pending_relocation[slot] {
                if let Some(region_type) = self.bar_region_type(slot) {
                    if Self::decode_mask(region_type) == space_mask {
                        let len: u64 = match self.bar_len(slot) {
                            Some(len) => len,
                            None => 0,
                        };

                        // A restored in-flight move (see `PciConfiguration::new`) left
                        // the BAR mapped at its released-from address: replay the
                        // release first so the whole move runs here exactly as it would
                        // have run on the snapshot source.
                        if let Some(mapped) = self.mapped_addr(slot) {
                            reloc.release.push(
                                ReleaseParams { bar_idx: slot, base: mapped, len, region_type },
                            );
                            self.set_mapped_addr(slot, None);
                        }
                        // The BAR belongs to the PCI segment whose MMIO window held the
                        // address it was released from; carry that base so the install
                        // confines the new range to the same segment window.

                        let new_base: u64 = self.bar_target(slot);
                        reloc.install.push(
                            InstallParams { bar_idx: slot, old_base, new_base, len, region_type },
                        );
                    }
                }
            }
            slot = slot + 1;
            assert(reloc@ =~= plan.followed_by(before.drain_plan(space_mask, slot as nat)));
        }
    }

    /// Drain the BAR unblocked by a COMMAND enable (IOSE/MSE 0->1) into
    /// `reloc`.
    pub fn drain_command_decode_edge(&mut self, command_before: u32, reloc: &mut BarRelocation)
        requires
            old(self)@.paired(),
        ensures
            final(self)@ == old(self)@.after_edges(command_before),
            final(reloc)@ == old(reloc)@.followed_by(old(self)@.edges_plan(command_before)),
            final(reloc).release@ == old(reloc).release@ + old(self)@.edges_plan(
                command_before,
            ).release,
            final(reloc).install@ == old(reloc).install@ + old(self)@.edges_plan(
                command_before,
            ).install,
            old(self)@.kept_by(final(self)@),
    {
        proof {
            invariants::edges_keep_wf(self@, command_before);
        }
        let ghost before = self@;
        let ghost plan = reloc@;
        let command_after: u32 = self.registers[COMMAND_REG];
        if command_before & COMMAND_REG_IO_SPACE_MASK == 0 && command_after
            & COMMAND_REG_IO_SPACE_MASK != 0 {
            self.drain_pending_relocation(COMMAND_REG_IO_SPACE_MASK, reloc);
        }
        assert(reloc@ =~= plan.followed_by(
            before.edge_plan(command_before, COMMAND_REG_IO_SPACE_MASK),
        ));
        if command_before & COMMAND_REG_MEMORY_SPACE_MASK == 0 && command_after
            & COMMAND_REG_MEMORY_SPACE_MASK != 0 {
            self.drain_pending_relocation(COMMAND_REG_MEMORY_SPACE_MASK, reloc);
        }
        assert(reloc@ =~= plan.followed_by(before.edges_plan(command_before)));
    }

    /// Whether a four-byte write of `value` programs another address for the BAR behind a register.
    pub fn moves(&self, reg_idx: usize, value: u32) -> (moves: bool)
        requires
            reg_idx < NUM_CONFIGURATION_REGISTERS,
        ensures
            moves == self@.moves(reg_idx as int, value),
            moves == self@.write_dword(reg_idx as int, value).moves(reg_idx as int, value),
    {
        let mask: u32 = self.writable_bits[reg_idx];
        if BAR0_REG <= reg_idx && reg_idx < BAR0_REG + NUM_BAR_REGS {
            if value == 0xffff_ffff {
                return false;
            }
            let bar_idx: usize = reg_idx - BAR0_REG;
            match self.bars[bar_idx].region_type {
                Some(PciBarRegionType::Memory64BitRegion) => false,
                Some(_) => value & mask != self.bars[bar_idx].addr & mask,
                None => {
                    if bar_idx == 0 {
                        return false;
                    }
                    let low_mask: u32 = self.writable_bits[reg_idx - 1];
                    match self.bars[bar_idx - 1].region_type {
                        Some(PciBarRegionType::Memory64BitRegion) => self.registers[reg_idx - 1]
                            & low_mask != self.bars[bar_idx - 1].addr & low_mask || value & mask
                            != self.bars[bar_idx].addr & mask,
                        _ => false,
                    }
                },
            }
        } else {
            reg_idx == ROM_BAR_REG && value & ROM_BAR_ADDR_MASK != ROM_BAR_ADDR_MASK && value & mask
                != self.rom_bar_addr & mask
        }
    }

    /// Whether the size of the BAR that a write to a register moves is known.
    fn has_moved_len(&self, reg_idx: usize) -> (known: bool)
        requires
            BAR0_REG <= reg_idx < BAR0_REG + NUM_BAR_REGS || reg_idx == ROM_BAR_REG,
        ensures
            known == self@.moved_len(reg_idx as int) is Some,
    {
        if reg_idx == ROM_BAR_REG {
            return self.rom_bar_size != 0;
        }
        let bar_idx: usize = reg_idx - BAR0_REG;
        if bar_idx > 0 && self.bars[bar_idx].region_type.is_none() {
            if let Some(PciBarRegionType::Memory64BitRegion) = self.bars[bar_idx - 1].region_type {
                return self.bars[bar_idx].size != 0 || self.bars[bar_idx - 1].size != 0;
            }
        }
        self.bars[bar_idx].size != 0
    }

    /// Tells whether `write_config_register` can carry out a write: it addresses a register by a
    /// number that the machine can hold, one of the whole register addresses one that exists, and
    /// the size of a BAR that it moves is known.
    pub fn accepts_write(&self, reg_idx: usize, offset: u64, data: &[u8]) -> (accepted: bool)
        ensures
            accepted == self@.accepts_write(reg_idx as int, offset as int, data@),
    {
        if let Some(PciBarRegionType::Memory64BitRegion) = self.bars[NUM_BAR_REGS
            - 1].region_type {
            return false;
        }
        let end: u128 = offset as u128 + data.len() as u128;
        if end > usize::MAX as u128 {
            return false;
        }
        if end > 4 {
            return true;
        }
        match data.len() {
            1 | 2 => reg_idx as u128 * 4 + offset as u128 <= usize::MAX as u128,
            4 => reg_idx < NUM_CONFIGURATION_REGISTERS && (!self.moves(reg_idx, bits::read_u32(data))
                || self.has_moved_len(reg_idx)),
            _ => true,
        }
    }

    /// Carries out a guest write of `data` to a register, from the byte `offset` of it on, and
    /// returns what it asks to be released and installed.
    pub fn write_config_register(&mut self, reg_idx: usize, offset: u64, data: &[u8]) -> (reloc:
        BarRelocation)
        requires
            old(self)@.accepts_write(reg_idx as int, offset as int, data@),
        ensures
            final(self)@ == old(self)@.after_write(reg_idx as int, offset as int, data@),
            reloc@ == old(self)@.write_plan(reg_idx as int, offset as int, data@),
            reloc.release@ == old(self)@.write_plan(
                reg_idx as int,
                offset as int,
                data@,
            ).release,
            reloc.install@ == old(self)@.write_plan(
                reg_idx as int,
                offset as int,
                data@,
            ).install,
            old(self)@.kept_by(final(self)@),
    {
        if offset as usize + data.len() > 4 {
            return BarRelocation::default();
        }
        let ghost before = self@;
        // Handle potential write to MSI-X message control register
        if let Some(msix_cap_reg_idx) = self.msix_cap_reg_idx {
            if let Some(msix_config) = &mut self.msix_config {
                if msix_cap_reg_idx == reg_idx && offset == 2 && data.len() == 2 {
                    msix_config.set_msg_ctl(bits::read_u16(data));
                } else if msix_cap_reg_idx == reg_idx && offset == 0 && data.len() == 4 {
                    proof {
                        bits::lemma_upper_word(data@);
                    }
                    msix_config.set_msg_ctl((bits::read_u32(data) >> 16u32) as u16);
                }
            }
        }
        assert(self@ == before.with_msg_ctl(
            before.msg_ctl_of(reg_idx as int, offset as int, data@),
        ));

        // Capture the COMMAND register before the write so decode-enable
        // (IOSE/MSE 0->1) edges can be detected below.
        let command_before: u32 = self.registers[COMMAND_REG];

        match data.len() {
            1 => self.write_byte(reg_idx * 4 + offset as usize, data[0]),
            2 => {
                proof {
                    bits::lemma_le_u16(data@);
                }
                self.write_word(
                    reg_idx * 4 + offset as usize,
                    (data[0] as u16) | ((data[1] as u16) << 8u16),
                )
            },
            4 => self.write_reg(reg_idx, bits::read_u32(data)),
            _ => (),
        }
        assert(self@ == before.stored(reg_idx as int, offset as int, data@));

        let mut reloc: BarRelocation = BarRelocation::default();

        // Case 1: a BAR address was reprogrammed by this write.
        let reprogramming: Option<BarReprogramming> = self.detect_bar_reprogramming(reg_idx, data);
        let ghost followed = self@;
        assert(followed == before.followed(reg_idx as int, offset as int, data@));
        if let Some(params) = reprogramming {
            let slot: usize = params.bar_idx;

            if let Some(mapped) = self.mapped_addr(slot) {
                // Mapped: release the old BAR range eagerly and mark the
                // slot pending. Install is in the same plan if decode is on
                // (immediate move), else the decode-enable edge. mapped_addr
                // advances only on a successful install outcome.
                reloc.release.push(
                    ReleaseParams {
                        bar_idx: slot,
                        base: mapped,
                        len: params.len,
                        region_type: params.region_type,
                    },
                );
                self.set_mapped_addr(slot, None);
                self.pending_relocation[slot] = Some(mapped);

                if self.decode_enabled(params.region_type) {
                    reloc.install.push(
                        InstallParams {
                            bar_idx: slot,
                            // Released from `mapped`; confines the install to the
                            // PCI segment that address belongs to.
                            old_base: mapped,
                            new_base: params.new_base,
                            len: params.len,
                            region_type: params.region_type,
                        },
                    );
                }
            }
            // else: already released. Nothing to emit; the install target
            // is read from the live registers at drain time, and the
            // recorded released-from base stays intact.

        }
        assert(self@ == followed.begin_move(reprogramming));
        assert(reloc@ =~= followed.begin_move_plan(reprogramming));

        // Case 2: commit each space whose decode bit rose 0->1 (shared with the
        // VFIO mirror). A non-COMMAND write sees no space enabling,
        // so this is a no-op.
        self.drain_command_decode_edge(command_before, &mut reloc);
        proof {
            invariants::write_keeps_wf(before, reg_idx as int, offset as int, data@);
        }

        reloc
    }

    /// Reconciles the mapping bookkeeping with an install status.
    /// `mapped_addr` advances ONLY here, on success. A failed install leaves
    /// the slot pending and unmapped -- nothing lies about being mapped --
    /// and it is re-emitted at the guest's next enabling the space.
    pub fn on_bar_relocation_status(&mut self, bar_idx: usize, status: BarRelocationStatus)
        requires
            bar_idx < NUM_SLOTS,
        ensures
            final(self)@ == old(self)@.after_status(bar_idx as int, status),
            (status is Applied ==> old(self)@.region_type(bar_idx as int) is Some)
                ==> old(self)@.kept_by(final(self)@),
    {
        proof {
            invariants::status_keeps_wf(self@, bar_idx as int, status);
        }
        match status {
            BarRelocationStatus::Applied { base } => {
                self.set_mapped_addr(bar_idx, Some(base));
                self.pending_relocation[bar_idx] = None;
            },
            BarRelocationStatus::Pending => {
                // The slot was marked pending when its release was emitted
                // and stays so; nothing is mapped.
            },
        }
    }

    /// Returns true while the BAR is released awaiting install: its
    /// allocator range, bus range and guest-physical mappings are already
    /// torn down, so teardown paths (e.g. `free_bars`) must skip it.
    ///
    /// `pending_relocation` alone is not the right test: a restored
    /// in-flight move is pending AND mapped (the restore path materializes
    /// the BAR at its released-from base), so its ranges are live and
    /// teardown must NOT skip it -- hence the `mapped_addr` check.
    pub fn is_bar_released(&self, bar_idx: usize) -> (released: bool)
        requires
            bar_idx < NUM_SLOTS,
        ensures
            released == self@.is_released(bar_idx as int),
    {
        self.pending_relocation[bar_idx].is_some() && self.mapped_addr(bar_idx).is_none()
    }
}

/// The message control writes that are not taken yet, where MSI-X is attached.
pub open spec fn msix_view(msix_config: Option<MsixConfig>) -> Option<Seq<u16>> {
    match msix_config {
        Some(msix) => Some(msix@),
        None => None,
    }
}

/// The slot of a move does not depend on the bookkeeping.
proof fn lemma_moved_slot_same(a: ConfigSpace, b: ConfigSpace, params: BarReprogrammingParams)
    requires
        b == (ConfigSpace { mapped: b.mapped, pending: b.pending, ..a }),
    ensures
        a.moved_slot(params) == b.moved_slot(params),
{
    lemma_first_move_of_same(a, b, params, 0);
    assert(a.is_move_of(params, params.bar_idx as int) == b.is_move_of(
        params,
        params.bar_idx as int,
    ));
}

proof fn lemma_first_move_of_same(
    a: ConfigSpace,
    b: ConfigSpace,
    params: BarReprogrammingParams,
    from: int,
)
    requires
        b == (ConfigSpace { mapped: b.mapped, pending: b.pending, ..a }),
    ensures
        a.first_move_of(params, from) == b.first_move_of(params, from),
    decreases NUM_SLOTS - from,
{
    if from < NUM_SLOTS {
        lemma_first_move_of_same(a, b, params, from + 1);
        assert(a.is_move_of(params, from) == b.is_move_of(params, from));
    }
}

} // verus!
