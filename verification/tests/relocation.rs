use pci::space::{BAR0_REG, COMMAND_REG, ROM_BAR_IDX, ROM_BAR_REG};
use pci::{
    BarRelocation, BarRelocationStatus, PciBarConfiguration, PciBarPrefetchable,
    PciBarRegionType, PciClassCode, PciConfiguration, PciHeaderType, PciMassStorageSubclass,
};

const IO: u16 = 1;
const MEMORY: u16 = 2;

fn device() -> PciConfiguration {
    PciConfiguration::new(
        0x1af4,
        0x1042,
        0x01,
        PciClassCode::MassStorage,
        &PciMassStorageSubclass::NvmController,
        None,
        PciHeaderType::Device,
        0x1af4,
        0x1100,
        None,
        None,
    )
}

fn bar(idx: usize, addr: u64, size: u64, region_type: PciBarRegionType) -> PciBarConfiguration {
    PciBarConfiguration::new(idx, size, region_type, PciBarPrefetchable::NotPrefetchable)
        .set_address(addr)
}

fn device_with_bars() -> PciConfiguration {
    let mut cfg = device();
    cfg.add_pci_bar(&bar(0, 0xe000_0000, 0x1000, PciBarRegionType::Memory32BitRegion)).unwrap();
    cfg.add_pci_bar(&bar(1, 0xc000, 0x40, PciBarRegionType::IoRegion)).unwrap();
    cfg.add_pci_bar(&bar(2, 0x10_0000_0000, 0x4000, PciBarRegionType::Memory64BitRegion)).unwrap();
    cfg.add_pci_bar(&bar(4, 0xe100_0000, 0x1000, PciBarRegionType::Memory32BitRegion)).unwrap();
    cfg.add_pci_rom_bar(
        &bar(ROM_BAR_IDX, 0xfeb0_0000, 0x1_0000, PciBarRegionType::Memory32BitRegion),
        0,
    )
    .unwrap();
    cfg
}

fn write(cfg: &mut PciConfiguration, reg_idx: usize, value: u32) -> BarRelocation {
    cfg.write_config_register(reg_idx, 0, &value.to_le_bytes())
}

fn command(cfg: &mut PciConfiguration, value: u16) -> BarRelocation {
    cfg.write_config_register(COMMAND_REG, 0, &value.to_le_bytes())
}

fn releases(reloc: &BarRelocation) -> Vec<(usize, u64, u64, PciBarRegionType)> {
    reloc.release.iter().map(|r| (r.bar_idx, r.base, r.len, r.region_type)).collect()
}

fn installs(reloc: &BarRelocation) -> Vec<(usize, u64, u64, u64, PciBarRegionType)> {
    reloc
        .install
        .iter()
        .map(|i| (i.bar_idx, i.old_base, i.new_base, i.len, i.region_type))
        .collect()
}

#[test]
fn enabling_decode_at_boot_moves_nothing() {
    let mut cfg = device_with_bars();
    assert!(command(&mut cfg, IO | MEMORY).is_empty());
    assert!(command(&mut cfg, 0).is_empty());
    assert!(command(&mut cfg, MEMORY).is_empty());
    for slot in 0..7usize {
        assert!(!cfg.is_bar_released(slot));
    }
}

#[test]
fn move_is_deferred_until_decode() {
    let mut cfg = device_with_bars();
    let reloc = write(&mut cfg, BAR0_REG, 0xd000_0000);
    assert_eq!(
        releases(&reloc),
        vec![(0, 0xe000_0000, 0x1000, PciBarRegionType::Memory32BitRegion)]
    );
    assert!(reloc.install.is_empty());
    assert!(cfg.is_bar_released(0));
    assert_eq!(cfg.get_bar_addr(0), 0xd000_0000);

    // I/O decoding is of no use to a memory BAR.
    assert!(command(&mut cfg, IO).is_empty());
    let reloc = command(&mut cfg, IO | MEMORY);
    assert!(reloc.release.is_empty());
    assert_eq!(
        installs(&reloc),
        vec![(0, 0xe000_0000, 0xd000_0000, 0x1000, PciBarRegionType::Memory32BitRegion)]
    );
    assert!(cfg.is_bar_released(0));
    cfg.on_bar_relocation_status(0, BarRelocationStatus::Applied { base: 0xd000_0000 });
    assert!(!cfg.is_bar_released(0));

    // The next move starts from there.
    assert!(command(&mut cfg, 0).is_empty());
    let reloc = write(&mut cfg, BAR0_REG, 0xc000_0000);
    assert_eq!(
        releases(&reloc),
        vec![(0, 0xd000_0000, 0x1000, PciBarRegionType::Memory32BitRegion)]
    );
}

#[test]
fn move_is_immediate_under_decode() {
    let mut cfg = device_with_bars();
    assert!(command(&mut cfg, MEMORY).is_empty());
    let reloc = write(&mut cfg, BAR0_REG, 0xd000_0000);
    assert_eq!(
        releases(&reloc),
        vec![(0, 0xe000_0000, 0x1000, PciBarRegionType::Memory32BitRegion)]
    );
    assert_eq!(
        installs(&reloc),
        vec![(0, 0xe000_0000, 0xd000_0000, 0x1000, PciBarRegionType::Memory32BitRegion)]
    );
    // The outcome is not known yet.
    assert!(cfg.is_bar_released(0));
    cfg.on_bar_relocation_status(0, BarRelocationStatus::Applied { base: 0xd000_0000 });
    assert!(!cfg.is_bar_released(0));
}

#[test]
fn rewritten_address_of_a_released_bar() {
    let mut cfg = device_with_bars();
    assert_eq!(write(&mut cfg, BAR0_REG, 0xd000_0000).release.len(), 1);
    assert!(write(&mut cfg, BAR0_REG, 0xd100_0000).is_empty());
    assert!(write(&mut cfg, BAR0_REG, 0xd200_0000).is_empty());
    assert!(cfg.is_bar_released(0));
    let reloc = command(&mut cfg, MEMORY);
    assert_eq!(
        installs(&reloc),
        vec![(0, 0xe000_0000, 0xd200_0000, 0x1000, PciBarRegionType::Memory32BitRegion)]
    );
}

#[test]
fn failed_install_is_tried_again() {
    let mut cfg = device_with_bars();
    write(&mut cfg, BAR0_REG, 0xd000_0000);
    assert_eq!(command(&mut cfg, MEMORY).install.len(), 1);
    cfg.on_bar_relocation_status(0, BarRelocationStatus::Pending);
    assert!(cfg.is_bar_released(0));
    // Only a write that enables decoding anew counts.
    assert!(command(&mut cfg, MEMORY).is_empty());
    assert!(command(&mut cfg, 0).is_empty());
    let reloc = command(&mut cfg, MEMORY);
    assert!(reloc.release.is_empty());
    assert_eq!(
        installs(&reloc),
        vec![(0, 0xe000_0000, 0xd000_0000, 0x1000, PciBarRegionType::Memory32BitRegion)]
    );
    cfg.on_bar_relocation_status(0, BarRelocationStatus::Applied { base: 0xd000_0000 });
    assert!(command(&mut cfg, 0).is_empty());
    assert!(command(&mut cfg, MEMORY).is_empty());
}

#[test]
fn pending_outcome_of_a_mapped_bar() {
    let mut cfg = device_with_bars();
    cfg.on_bar_relocation_status(0, BarRelocationStatus::Pending);
    assert!(!cfg.is_bar_released(0));
}

#[test]
fn bars_change_places() {
    let mut cfg = device_with_bars();
    assert!(command(&mut cfg, IO | MEMORY).is_empty());
    assert!(command(&mut cfg, 0).is_empty());
    let first = write(&mut cfg, BAR0_REG, 0xe100_0000);
    let second = write(&mut cfg, BAR0_REG + 4, 0xe000_0000);
    assert_eq!(
        releases(&first),
        vec![(0, 0xe000_0000, 0x1000, PciBarRegionType::Memory32BitRegion)]
    );
    assert_eq!(
        releases(&second),
        vec![(4, 0xe100_0000, 0x1000, PciBarRegionType::Memory32BitRegion)]
    );
    assert!(first.install.is_empty() && second.install.is_empty());
    let reloc = command(&mut cfg, MEMORY);
    assert!(reloc.release.is_empty());
    assert_eq!(
        installs(&reloc),
        vec![
            (0, 0xe000_0000, 0xe100_0000, 0x1000, PciBarRegionType::Memory32BitRegion),
            (4, 0xe100_0000, 0xe000_0000, 0x1000, PciBarRegionType::Memory32BitRegion),
        ]
    );
}

#[test]
fn spaces_are_enabled_apart() {
    let mut cfg = device_with_bars();
    write(&mut cfg, BAR0_REG, 0xd000_0000);
    let reloc = write(&mut cfg, BAR0_REG + 1, 0xd000);
    assert_eq!(releases(&reloc), vec![(1, 0xc000, 0x40, PciBarRegionType::IoRegion)]);
    let reloc = command(&mut cfg, IO);
    assert_eq!(installs(&reloc), vec![(1, 0xc000, 0xd000, 0x40, PciBarRegionType::IoRegion)]);
    let reloc = command(&mut cfg, IO | MEMORY);
    assert_eq!(
        installs(&reloc),
        vec![(0, 0xe000_0000, 0xd000_0000, 0x1000, PciBarRegionType::Memory32BitRegion)]
    );
}

#[test]
fn spaces_are_enabled_at_once() {
    let mut cfg = device_with_bars();
    write(&mut cfg, BAR0_REG, 0xd000_0000);
    write(&mut cfg, BAR0_REG + 1, 0xd000);
    write(&mut cfg, ROM_BAR_REG, 0xfea0_0000);
    let reloc = cfg.write_config_register(COMMAND_REG, 0, &[0x07]);
    assert_eq!(
        installs(&reloc),
        vec![
            (1, 0xc000, 0xd000, 0x40, PciBarRegionType::IoRegion),
            (0, 0xe000_0000, 0xd000_0000, 0x1000, PciBarRegionType::Memory32BitRegion),
            (
                ROM_BAR_IDX,
                0xfeb0_0000,
                0xfea0_0000,
                0x1_0000,
                PciBarRegionType::Memory32BitRegion
            ),
        ]
    );
}

#[test]
fn wide_bar_waits_for_its_upper_half() {
    let mut cfg = device_with_bars();
    assert!(write(&mut cfg, BAR0_REG + 2, 0x8000_0000).is_empty());
    assert!(!cfg.is_bar_released(2));
    let reloc = write(&mut cfg, BAR0_REG + 3, 0x20);
    assert_eq!(
        releases(&reloc),
        vec![(2, 0x10_0000_0000, 0x4000, PciBarRegionType::Memory64BitRegion)]
    );
    assert!(cfg.is_bar_released(2));
    assert_eq!(cfg.get_bar_addr(2), 0x20_8000_0000);
    let reloc = command(&mut cfg, MEMORY);
    assert_eq!(
        installs(&reloc),
        vec![(2, 0x10_0000_0000, 0x20_8000_0000, 0x4000, PciBarRegionType::Memory64BitRegion)]
    );
}

#[test]
fn wide_bar_moves_by_its_lower_half_alone() {
    let mut cfg = device_with_bars();
    assert!(write(&mut cfg, BAR0_REG + 2, 0x8000_0000).is_empty());
    let reloc = write(&mut cfg, BAR0_REG + 3, 0x10);
    assert_eq!(reloc.release.len(), 1);
    assert_eq!(cfg.get_bar_addr(2), 0x10_8000_0000);
    // Written back as it was, it does not move again.
    assert!(write(&mut cfg, BAR0_REG + 2, 0x8000_0004).is_empty());
    assert!(write(&mut cfg, BAR0_REG + 3, 0x10).is_empty());
}

#[test]
fn wide_bar_with_the_upper_half_first() {
    let mut cfg = device_with_bars();
    assert_eq!(write(&mut cfg, BAR0_REG + 3, 0x20).release.len(), 1);
    assert!(write(&mut cfg, BAR0_REG + 2, 0x4000_0000).is_empty());
    // The install goes by the registers as they are now.
    let reloc = command(&mut cfg, MEMORY);
    assert_eq!(
        installs(&reloc),
        vec![(2, 0x10_0000_0000, 0x20_4000_0000, 0x4000, PciBarRegionType::Memory64BitRegion)]
    );
}

#[test]
fn rom_moves() {
    let mut cfg = device_with_bars();
    assert!(command(&mut cfg, MEMORY).is_empty());
    // The same address with another enable bit is no move.
    assert!(write(&mut cfg, ROM_BAR_REG, 0xfeb0_0001).is_empty());
    let reloc = write(&mut cfg, ROM_BAR_REG, 0xfea0_0001);
    assert_eq!(
        releases(&reloc),
        vec![(ROM_BAR_IDX, 0xfeb0_0000, 0x1_0000, PciBarRegionType::Memory32BitRegion)]
    );
    assert_eq!(
        installs(&reloc),
        vec![(
            ROM_BAR_IDX,
            0xfeb0_0000,
            0xfea0_0000,
            0x1_0000,
            PciBarRegionType::Memory32BitRegion
        )]
    );
    assert!(cfg.is_bar_released(ROM_BAR_IDX));
    cfg.on_bar_relocation_status(
        ROM_BAR_IDX,
        BarRelocationStatus::Applied { base: 0xfea0_0000 },
    );
    assert!(!cfg.is_bar_released(ROM_BAR_IDX));
}

#[test]
fn partial_writes_move_no_bar() {
    let mut cfg = device_with_bars();
    assert!(cfg.write_config_register(BAR0_REG, 2, &[0x00, 0xd0]).is_empty());
    assert!(cfg.write_config_register(BAR0_REG, 3, &[0xc0]).is_empty());
    assert_eq!(cfg.read_reg(BAR0_REG), 0xc000_0000);
    assert!(!cfg.is_bar_released(0));
    assert_eq!(cfg.get_bar_addr(0), 0xe000_0000);
}

#[test]
fn size_requests_move_no_bar() {
    let mut cfg = device_with_bars();
    for reg_idx in [4usize, 5, 6, 7, 8, 12] {
        assert!(write(&mut cfg, reg_idx, 0xffff_ffff).is_empty());
    }
    assert!(command(&mut cfg, IO | MEMORY).is_empty());
    for slot in 0..7usize {
        assert!(!cfg.is_bar_released(slot));
    }
}

#[test]
fn decode_edge_drained_from_outside() {
    let mut cfg = device_with_bars();
    write(&mut cfg, BAR0_REG, 0xd000_0000);
    cfg.write_reg(COMMAND_REG, 2);
    let mut reloc = BarRelocation::default();
    cfg.drain_command_decode_edge(2, &mut reloc);
    assert!(reloc.is_empty());
    cfg.drain_command_decode_edge(0, &mut reloc);
    assert_eq!(
        installs(&reloc),
        vec![(0, 0xe000_0000, 0xd000_0000, 0x1000, PciBarRegionType::Memory32BitRegion)]
    );
}

#[test]
fn unused_register_above_a_bar_moves_nothing() {
    let mut cfg = device();
    cfg.add_pci_bar(&bar(0, 0xe000_0000, 0x1000, PciBarRegionType::Memory32BitRegion)).unwrap();
    assert!(write(&mut cfg, BAR0_REG, 0xffff_ffff).is_empty());
    assert!(write(&mut cfg, BAR0_REG + 1, 0).is_empty());
    assert!(!cfg.is_bar_released(0));
    assert_eq!(cfg.get_bar_addr(0), 0xe000_0000);
    assert!(write(&mut cfg, BAR0_REG, 0xe000_0000).is_empty());
}

#[test]
fn writes_that_move_a_bar() {
    let mut cfg = device_with_bars();
    assert!(cfg.moves(BAR0_REG, 0xd000_0000));
    assert!(!cfg.moves(BAR0_REG, 0xe000_0008));
    assert!(!cfg.moves(BAR0_REG, 0xffff_ffff));
    assert!(!cfg.moves(BAR0_REG + 2, 0x8000_0000));
    assert!(!cfg.moves(BAR0_REG + 3, 0x10));
    assert!(cfg.moves(BAR0_REG + 3, 0x20));
    assert!(!cfg.moves(BAR0_REG + 5, 0x20));
    assert!(cfg.moves(ROM_BAR_REG, 0xfea0_0000));
    assert!(!cfg.moves(ROM_BAR_REG, 0xffff_f800));
    assert!(!cfg.moves(COMMAND_REG, 2));
    // The lower half of a wide BAR counts with the upper one.
    assert!(write(&mut cfg, BAR0_REG + 2, 0x8000_0000).is_empty());
    assert!(cfg.moves(BAR0_REG + 3, 0x10));
}
