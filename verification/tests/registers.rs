use pci::{
    MsixConfig, PciBarConfiguration, PciBarPrefetchable, PciBarRegionType, PciCapabilityId,
    PciClassCode, PciConfiguration, PciHeaderType, PciInterruptPin, PciNetworkControllerSubclass,
    PCI_CONFIGURATION_ID,
};

fn node(header_type: PciHeaderType, msix: Option<MsixConfig>) -> PciConfiguration {
    PciConfiguration::new(
        0x1af4,
        0x1041,
        0x02,
        PciClassCode::NetworkController,
        &PciNetworkControllerSubclass::EthernetController,
        None,
        header_type,
        0x1af4,
        0x1100,
        msix,
        None,
    )
}

#[test]
fn fresh_device_registers() {
    let cfg = node(PciHeaderType::Device, None);
    assert_eq!(cfg.read_reg(0), 0x1041_1af4);
    assert_eq!(cfg.read_reg(1), 0);
    assert_eq!(cfg.read_reg(2), 0x0200_0002);
    assert_eq!(cfg.read_reg(3), 0);
    assert_eq!(cfg.read_reg(11), 0x1100_1af4);
    for reg_idx in [4usize, 5, 6, 7, 8, 9, 10, 12, 13, 14, 15, 16, 500, 1023] {
        assert_eq!(cfg.read_reg(reg_idx), 0);
    }
}

#[test]
fn fresh_bridge_registers() {
    let mut cfg = node(PciHeaderType::Bridge, None);
    assert_eq!(cfg.read_reg(3), 0x0001_0000);
    cfg.write_reg(9, 0xffff_fffe);
    assert_eq!(cfg.read_reg(9), 0xfff0_fff0);
    cfg.write_reg(15, 0xffff_ffff);
    assert_eq!(cfg.read_reg(15), 0xffff_00ff);
}

#[test]
fn missing_register_reads_all_ones() {
    let cfg = node(PciHeaderType::Device, None);
    assert_eq!(cfg.read_reg(1024), 0xffff_ffff);
    assert_eq!(cfg.read_config_register(usize::MAX), 0xffff_ffff);
    assert_eq!(cfg.read_config_register(0), 0x1041_1af4);
}

#[test]
fn read_only_bits_keep_their_value() {
    let mut cfg = node(PciHeaderType::Device, None);
    cfg.write_reg(0, 0xdead_beef);
    assert_eq!(cfg.read_reg(0), 0x1041_1af4);
    cfg.write_reg(1, 0xffff_ffff);
    assert_eq!(cfg.read_reg(1), 0x0000_ffff);
    cfg.write_reg(3, 0x1234_5678);
    assert_eq!(cfg.read_reg(3), 0x0000_0078);
    cfg.write_reg(15, 0x1234_5678);
    assert_eq!(cfg.read_reg(15), 0x0000_0078);
}

#[test]
fn words_and_bytes_write_their_lanes() {
    let mut cfg = node(PciHeaderType::Device, None);
    cfg.write_word(4, 0xa5c3);
    assert_eq!(cfg.read_reg(1), 0x0000_a5c3);
    // The upper half of the register is read-only.
    cfg.write_word(6, 0xffff);
    assert_eq!(cfg.read_reg(1), 0x0000_a5c3);
    // Neither an odd offset nor one past the end does anything.
    cfg.write_word(5, 0x1111);
    cfg.write_word(7, 0x1111);
    cfg.write_word(4096, 0x1111);
    assert_eq!(cfg.read_reg(1), 0x0000_a5c3);
    cfg.write_byte(5, 0x7e);
    assert_eq!(cfg.read_reg(1), 0x0000_7ec3);
    cfg.write_byte(4, 0x01);
    assert_eq!(cfg.read_reg(1), 0x0000_7e01);
    cfg.write_byte(6, 0xff);
    cfg.write_byte(4096, 0xff);
    assert_eq!(cfg.read_reg(1), 0x0000_7e01);
}

#[test]
fn bytes_in_a_row_write_a_register() {
    let mut whole = node(PciHeaderType::Bridge, None);
    let mut parts = node(PciHeaderType::Bridge, None);
    whole.write_reg(15, 0x8765_4321);
    parts.write_byte(60, 0x21);
    parts.write_byte(61, 0x43);
    parts.write_byte(62, 0x65);
    parts.write_byte(63, 0x87);
    assert_eq!(whole.read_reg(15), 0x8765_0021);
    assert_eq!(parts.read_reg(15), whole.read_reg(15));
}

#[test]
fn bytes_in_any_order_write_a_register() {
    let bytes = 0x8765_4321u32.to_le_bytes();
    let mut whole = node(PciHeaderType::Bridge, None);
    whole.write_reg(15, 0x8765_4321);
    for order in [[3usize, 2, 1, 0], [1, 3, 0, 2], [2, 0, 3, 1]] {
        let mut parts = node(PciHeaderType::Bridge, None);
        for lane in order {
            parts.write_byte(60 + lane, bytes[lane]);
        }
        assert_eq!(parts.read_reg(15), whole.read_reg(15));
    }
}

#[test]
fn words_in_either_order_write_a_register() {
    let mut whole = node(PciHeaderType::Bridge, None);
    let mut ascending = node(PciHeaderType::Bridge, None);
    let mut descending = node(PciHeaderType::Bridge, None);
    whole.write_reg(15, 0x8765_4321);
    ascending.write_word(60, 0x4321);
    ascending.write_word(62, 0x8765);
    descending.write_word(62, 0x8765);
    descending.write_word(60, 0x4321);
    assert_eq!(whole.read_reg(15), 0x8765_0021);
    assert_eq!(ascending.read_reg(15), 0x8765_0021);
    assert_eq!(descending.read_reg(15), 0x8765_0021);
}

#[test]
fn memory_window_of_a_bridge() {
    let mut cfg = node(PciHeaderType::Bridge, None);
    assert!(cfg.accepts_write(9, 0, &[0x10, 0, 0x20, 0]));
    assert!(cfg.write_config_register(9, 0, &[0x10, 0, 0x20, 0]).is_empty());
    assert_eq!(cfg.read_reg(9), 0x0020_0010);
    assert!(cfg.write_config_register(9, 0, &[0x30, 0, 0x40, 0]).is_empty());
    assert_eq!(cfg.read_reg(9), 0x0040_0030);
}

#[test]
fn writes_that_cannot_be_carried_out() {
    let mut cfg = node(PciHeaderType::Device, None);
    assert!(cfg.accepts_write(1023, 0, &[0; 4]));
    assert!(!cfg.accepts_write(1024, 0, &[0; 4]));
    assert!(cfg.accepts_write(1024, 0, &[0; 2]));
    assert!(!cfg.accepts_write(usize::MAX, 0, &[0; 2]));
    assert!(cfg.accepts_write(usize::MAX, 0, &[0; 3]));
    assert!(cfg.accepts_write(usize::MAX, 4, &[0]));
    assert!(!cfg.accepts_write(0, u64::MAX, &[0]));
    // The register of an expansion ROM of no size cannot be moved.
    let rom = PciBarConfiguration::new(
        6,
        0x1_0000_0000,
        PciBarRegionType::Memory32BitRegion,
        PciBarPrefetchable::NotPrefetchable,
    );
    assert!(cfg.accepts_write(12, 0, &[0, 0, 0, 0xfe]));
    assert!(cfg.add_pci_rom_bar(&rom, 0).is_err());
    assert!(!cfg.accepts_write(12, 0, &[0, 0, 0, 0xfe]));
    assert!(cfg.accepts_write(12, 0, &[0, 0, 0, 0]));
    assert!(cfg.accepts_write(12, 0, &[0xff; 4]));
}

#[test]
fn guest_writes_of_each_width() {
    let mut cfg = node(PciHeaderType::Device, None);
    assert!(cfg.write_config_register(3, 0, &[0x40, 0, 0, 0]).is_empty());
    assert_eq!(cfg.read_reg(3), 0x0000_0040);
    assert!(cfg.write_config_register(3, 0, &[0x20, 0x33]).is_empty());
    assert_eq!(cfg.read_reg(3), 0x0000_0020);
    assert!(cfg.write_config_register(3, 0, &[0x10]).is_empty());
    assert_eq!(cfg.read_reg(3), 0x0000_0010);
    // Three bytes at once reach no register, and neither does nothing at all.
    assert!(cfg.write_config_register(3, 0, &[0x77, 0x77, 0x77]).is_empty());
    assert!(cfg.write_config_register(3, 1, &[]).is_empty());
    assert_eq!(cfg.read_reg(3), 0x0000_0010);
}

#[test]
fn write_past_its_register_is_ignored() {
    let mut cfg = node(PciHeaderType::Device, None);
    assert!(cfg.write_config_register(3, 1, &[0xff, 0xff, 0xff, 0xff]).is_empty());
    assert!(cfg.write_config_register(3, 3, &[0xff, 0xff]).is_empty());
    assert!(cfg.write_config_register(3, 0, &[0xff; 5]).is_empty());
    assert_eq!(cfg.read_reg(3), 0);
    assert_eq!(cfg.read_reg(4), 0);
}

#[test]
fn irq_line_and_pin() {
    let mut cfg = node(PciHeaderType::Bridge, None);
    cfg.write_reg(15, 0x0102_00aa);
    assert_eq!(cfg.read_reg(15), 0x0102_00aa);
    cfg.set_irq(11, PciInterruptPin::IntA);
    assert_eq!(cfg.read_reg(15), 0x0102_010b);
    cfg.set_irq(5, PciInterruptPin::IntD);
    assert_eq!(cfg.read_reg(15), 0x0102_0405);
    assert_eq!(PciInterruptPin::IntB.get_number(), 1);
    assert_eq!(PciInterruptPin::IntC.get_number(), 2);
}

#[test]
fn message_control_writes_reach_msix() {
    let mut cfg = node(PciHeaderType::Device, Some(MsixConfig::new()));
    let content: [u8; 10] = [0x03, 0x00, 0, 0, 0, 0, 0, 0x80, 0, 0];
    let offset = cfg.add_capability_content(PciCapabilityId::MsiX, &content).unwrap();
    assert_eq!(offset, 0x40);
    let reg_idx = offset / 4;
    assert_eq!(cfg.read_reg(reg_idx), 0x0003_0011);
    assert!(cfg.take_msix_msg_ctl().is_empty());

    // The word alone, and the word with the rest of its register.
    assert!(cfg.write_config_register(reg_idx, 2, &[0x03, 0xc0]).is_empty());
    assert_eq!(cfg.read_reg(reg_idx), 0xc003_0011);
    assert!(cfg.write_config_register(reg_idx, 0, &[0x11, 0x22, 0x34, 0x8a]).is_empty());
    assert_eq!(cfg.read_reg(reg_idx), 0x8003_0011);
    // A byte of it, its lower half and another register do not count.
    cfg.write_config_register(reg_idx, 3, &[0x40]);
    cfg.write_config_register(reg_idx, 0, &[0x01, 0x02]);
    cfg.write_config_register(reg_idx + 1, 0, &[1, 2, 3, 4]);
    assert_eq!(cfg.take_msix_msg_ctl(), vec![0xc003, 0x8a34]);
    assert!(cfg.take_msix_msg_ctl().is_empty());
}

#[test]
fn message_control_without_msix_is_not_kept() {
    let mut cfg = node(PciHeaderType::Device, None);
    let offset = cfg.add_capability_content(PciCapabilityId::MsiX, &[0x03, 0x00]).unwrap();
    cfg.write_config_register(offset / 4, 2, &[0x03, 0xc0]);
    assert_eq!(cfg.read_reg(offset / 4), 0xc003_0011);
    assert!(cfg.take_msix_msg_ctl().is_empty());
}

#[test]
fn every_register_can_be_written() {
    let mut cfg = node(PciHeaderType::Device, None);
    let bar = PciBarConfiguration::new(
        0,
        0x1000,
        PciBarRegionType::Memory32BitRegion,
        PciBarPrefetchable::NotPrefetchable,
    );
    cfg.add_pci_bar(&bar.set_address(0xe000_0000)).unwrap();
    for reg_idx in 0..1024usize {
        cfg.write_config_register(reg_idx, 0, &[0x10, 0x20, 0x30, 0x40]);
        cfg.write_config_register(reg_idx, 2, &[0x10, 0x20]);
        cfg.write_config_register(reg_idx, 3, &[0x10]);
    }
    assert_eq!(cfg.read_reg(0), 0x1041_1af4);
    assert_eq!(cfg.read_reg(4), 0x1010_2010);
}

#[test]
fn snapshots_go_by_a_name() {
    let cfg = node(PciHeaderType::Device, None);
    assert_eq!(cfg.id(), "pci_configuration");
    assert_eq!(PCI_CONFIGURATION_ID, "pci_configuration");
}
