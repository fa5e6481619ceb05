use pci::space::{BAR0_REG, COMMAND_REG, ROM_BAR_IDX, ROM_BAR_REG};
use pci::{
    BarRelocation, BarRelocationStatus, MsixConfig, PciBarConfiguration, PciBarPrefetchable,
    PciBarRegionType, PciCapabilityId, PciClassCode, PciConfiguration, PciConfigurationState,
    PciHeaderType, PciMassStorageSubclass,
};

fn configuration(
    msix: Option<MsixConfig>,
    state: Option<PciConfigurationState>,
) -> PciConfiguration {
    PciConfiguration::new(
        0x1af4,
        0x1042,
        0x01,
        PciClassCode::MassStorage,
        &PciMassStorageSubclass::NvmController,
        None,
        PciHeaderType::Device,
        0x1af4,
        0x1100,
        msix,
        state,
    )
}

fn bar(idx: usize, addr: u64, size: u64, region_type: PciBarRegionType) -> PciBarConfiguration {
    PciBarConfiguration::new(idx, size, region_type, PciBarPrefetchable::NotPrefetchable)
        .set_address(addr)
}

fn source() -> PciConfiguration {
    let mut cfg = configuration(None, None);
    cfg.add_pci_bar(&bar(0, 0xe000_0000, 0x1000, PciBarRegionType::Memory32BitRegion)).unwrap();
    cfg.add_pci_bar(&bar(2, 0x10_0000_0000, 0x4000, PciBarRegionType::Memory64BitRegion)).unwrap();
    cfg.add_pci_rom_bar(
        &bar(ROM_BAR_IDX, 0xfeb0_0000, 0x1_0000, PciBarRegionType::Memory32BitRegion),
        1,
    )
    .unwrap();
    cfg.add_capability_content(PciCapabilityId::MsiX, &[0x03, 0x00]).unwrap();
    cfg
}

fn write(cfg: &mut PciConfiguration, reg_idx: usize, value: u32) -> BarRelocation {
    cfg.write_config_register(reg_idx, 0, &value.to_le_bytes())
}

fn summary(reloc: &BarRelocation) -> (Vec<(usize, u64, u64)>, Vec<(usize, u64, u64, u64)>) {
    (
        reloc.release.iter().map(|r| (r.bar_idx, r.base, r.len)).collect(),
        reloc.install.iter().map(|i| (i.bar_idx, i.old_base, i.new_base, i.len)).collect(),
    )
}

#[test]
fn settled_space_is_saved_and_restored() {
    let mut cfg = source();
    let state = cfg.state();
    assert_eq!(state.registers.len(), 1024);
    assert_eq!(state.writable_bits.len(), 1024);
    assert_eq!(state.bars.len(), 6);
    assert_eq!(state.registers[4], 0xe000_0000);
    assert_eq!(state.writable_bits[4], 0xffff_fff0);
    assert_eq!(state.bars[0].size, 0xffff_f000);
    assert_eq!(state.bars[2].region_type, Some(PciBarRegionType::Memory64BitRegion));
    assert!(state.bars[3].used && state.bars[3].region_type.is_none());
    assert_eq!(state.rom_bar_addr, 0xfeb0_0001);
    assert_eq!(state.rom_bar_size, 0xffff_0000);
    assert!(state.rom_bar_used);
    assert_eq!(state.last_capability, Some((0x40, 2)));
    assert_eq!(state.msix_cap_reg_idx, Some(0x10));
    assert!(state.pending_bar_reprogram.is_empty());

    let mut restored = configuration(Some(MsixConfig::new()), Some(state));
    for reg_idx in 0..1024usize {
        assert_eq!(restored.read_reg(reg_idx), cfg.read_reg(reg_idx));
    }
    assert_eq!(restored.get_bar_addr(2), 0x10_0000_0000);
    // Both act alike from here on.
    for (reg_idx, value) in [(4usize, 0xd000_0000u32), (12, 0xfea0_0000), (7, 0x20), (1, 2)] {
        let expected = write(&mut cfg, reg_idx, value);
        assert_eq!(summary(&write(&mut restored, reg_idx, value)), summary(&expected));
    }
    // MSI-X is found where it was.
    restored.write_config_register(0x10, 2, &[0x03, 0x80]);
    assert_eq!(restored.take_msix_msg_ctl(), vec![0x8003]);
    assert_eq!(restored.add_capability_content(PciCapabilityId::VendorSpecific, &[1]), Ok(0x44));
}

#[test]
fn move_in_flight_is_saved_and_replayed() {
    let mut cfg = source();
    write(&mut cfg, BAR0_REG, 0xd000_0000);
    write(&mut cfg, BAR0_REG + 2, 0x8000_0000);
    write(&mut cfg, BAR0_REG + 3, 0x20);
    let state = cfg.state();
    let moves: Vec<(usize, u64, u64, u64, PciBarRegionType)> = state
        .pending_bar_reprogram
        .iter()
        .map(|p| (p.bar_idx, p.old_base, p.new_base, p.len, p.region_type))
        .collect();
    assert_eq!(
        moves,
        vec![
            (0, 0xe000_0000, 0xd000_0000, 0x1000, PciBarRegionType::Memory32BitRegion),
            (2, 0x10_0000_0000, 0x20_8000_0000, 0x4000, PciBarRegionType::Memory64BitRegion),
        ]
    );

    let mut restored = configuration(None, Some(state));
    // Live where they were released from, so not released.
    assert!(cfg.is_bar_released(0) && cfg.is_bar_released(2));
    assert!(!restored.is_bar_released(0) && !restored.is_bar_released(2));
    // A snapshot of the restored space carries the same moves.
    assert_eq!(restored.state().pending_bar_reprogram.len(), 2);

    let on_source = write(&mut cfg, COMMAND_REG, 2);
    let on_target = write(&mut restored, COMMAND_REG, 2);
    assert_eq!(
        summary(&on_source),
        (
            vec![],
            vec![
                (0, 0xe000_0000, 0xd000_0000, 0x1000),
                (2, 0x10_0000_0000, 0x20_8000_0000, 0x4000),
            ]
        )
    );
    assert_eq!(
        summary(&on_target),
        (
            vec![(0, 0xe000_0000, 0x1000), (2, 0x10_0000_0000, 0x4000)],
            summary(&on_source).1
        )
    );
    assert!(restored.is_bar_released(0) && restored.is_bar_released(2));
    restored.on_bar_relocation_status(0, BarRelocationStatus::Applied { base: 0xd000_0000 });
    assert!(!restored.is_bar_released(0));
}

#[test]
fn rewritten_address_of_a_restored_move() {
    let mut cfg = source();
    write(&mut cfg, BAR0_REG, 0xd000_0000);
    let mut restored = configuration(None, Some(cfg.state()));
    let reloc = write(&mut restored, BAR0_REG, 0xd100_0000);
    assert_eq!(summary(&reloc), (vec![(0, 0xe000_0000, 0x1000)], vec![]));
    assert!(restored.is_bar_released(0));
    let reloc = write(&mut restored, COMMAND_REG, 2);
    assert_eq!(summary(&reloc), (vec![], vec![(0, 0xe000_0000, 0xd100_0000, 0x1000)]));
}

#[test]
fn move_without_a_slot_is_found_by_its_target() {
    let mut cfg = source();
    write(&mut cfg, ROM_BAR_REG, 0xfea0_0000);
    let mut state = cfg.state();
    assert_eq!(state.pending_bar_reprogram.len(), 1);
    assert_eq!(state.pending_bar_reprogram[0].bar_idx, ROM_BAR_IDX);
    state.pending_bar_reprogram[0].bar_idx = 0;
    let mut restored = configuration(None, Some(state));
    let reloc = write(&mut restored, COMMAND_REG, 2);
    assert_eq!(
        summary(&reloc),
        (
            vec![(ROM_BAR_IDX, 0xfeb0_0000, 0x1_0000)],
            vec![(ROM_BAR_IDX, 0xfeb0_0000, 0xfea0_0000, 0x1_0000)]
        )
    );
}

#[test]
fn move_of_no_bar_is_dropped() {
    let mut cfg = source();
    write(&mut cfg, BAR0_REG, 0xd000_0000);
    let mut state = cfg.state();
    state.pending_bar_reprogram[0].new_base = 0xd000_1000;
    let mut restored = configuration(None, Some(state));
    assert!(write(&mut restored, COMMAND_REG, 2).is_empty());
    assert!(!restored.is_bar_released(0));
    // The BAR counts as live at its config-space address.
    let reloc = write(&mut restored, BAR0_REG, 0xc000_0000);
    assert_eq!(
        summary(&reloc),
        (vec![(0, 0xd000_0000, 0x1000)], vec![(0, 0xd000_0000, 0xc000_0000, 0x1000)])
    );
}

#[test]
fn move_with_a_slot_out_of_range_is_found_too() {
    let mut cfg = source();
    write(&mut cfg, BAR0_REG, 0xd000_0000);
    let mut state = cfg.state();
    state.pending_bar_reprogram[0].bar_idx = 99;
    let mut restored = configuration(None, Some(state));
    assert_eq!(write(&mut restored, COMMAND_REG, 2).release.len(), 1);
}
