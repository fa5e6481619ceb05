use pci::space::{BAR0_REG, ROM_BAR_IDX, ROM_BAR_REG};
use pci::{
    decode_32_bits_bar_size, decode_64_bits_bar_size, Error, PciBarConfiguration,
    PciBarPrefetchable, PciBarRegionType, PciClassCode, PciConfiguration, PciHeaderType,
    PciMassStorageSubclass,
};

fn device() -> PciConfiguration {
    PciConfiguration::new(
        0x1af4,
        0x1042,
        0x01,
        PciClassCode::MassStorage,
        &PciMassStorageSubclass::NvmController,
        None,
        PciHeaderType::Device,
        0x1af4,
        0x1100,
        None,
        None,
    )
}

fn bar(idx: usize, addr: u64, size: u64, region_type: PciBarRegionType) -> PciBarConfiguration {
    PciBarConfiguration::new(idx, size, region_type, PciBarPrefetchable::NotPrefetchable)
        .set_address(addr)
}

fn memory_32(idx: usize, addr: u64, size: u64) -> PciBarConfiguration {
    bar(idx, addr, size, PciBarRegionType::Memory32BitRegion)
}

fn memory_64(idx: usize, addr: u64, size: u64) -> PciBarConfiguration {
    bar(idx, addr, size, PciBarRegionType::Memory64BitRegion)
}

fn io(idx: usize, addr: u64, size: u64) -> PciBarConfiguration {
    bar(idx, addr, size, PciBarRegionType::IoRegion)
}

#[test]
fn bar_registers_show_address_and_type() {
    let mut cfg = device();
    cfg.add_pci_bar(&memory_32(0, 0xe000_0000, 0x1000)).unwrap();
    cfg.add_pci_bar(&io(1, 0xc000, 0x40)).unwrap();
    cfg.add_pci_bar(
        &memory_64(2, 0x12_3456_0000, 0x1_0000)
            .set_prefetchable(PciBarPrefetchable::Prefetchable),
    )
    .unwrap();
    cfg.add_pci_bar(
        &memory_32(4, 0xd000_0000, 0x100).set_prefetchable(PciBarPrefetchable::Prefetchable),
    )
    .unwrap();
    // The prefetchable bit belongs to memory BARs.
    cfg.add_pci_bar(&io(5, 0xd000, 0x10).set_prefetchable(PciBarPrefetchable::Prefetchable))
        .unwrap();
    assert_eq!(cfg.read_reg(BAR0_REG), 0xe000_0000);
    assert_eq!(cfg.read_reg(BAR0_REG + 1), 0x0000_c001);
    assert_eq!(cfg.read_reg(BAR0_REG + 2), 0x3456_000c);
    assert_eq!(cfg.read_reg(BAR0_REG + 3), 0x0000_0012);
    assert_eq!(cfg.read_reg(BAR0_REG + 4), 0xd000_0008);
    assert_eq!(cfg.read_reg(BAR0_REG + 5), 0x0000_d001);
    assert_eq!(cfg.get_bar_addr(0), 0xe000_0000);
    assert_eq!(cfg.get_bar_addr(1), 0xc000);
    assert_eq!(cfg.get_bar_addr(2), 0x12_3456_0000);
    assert_eq!(cfg.get_bar_addr(4), 0xd000_0000);
    assert_eq!(cfg.get_bar_addr(5), 0xd000);
    for slot in 0..7usize {
        assert!(!cfg.is_bar_released(slot));
    }
}

#[test]
fn bar_address_is_rounded_down() {
    let mut cfg = device();
    cfg.add_pci_bar(&memory_32(0, 0xe000_0018, 0x8)).unwrap();
    cfg.add_pci_bar(&io(1, 0xc007, 0x4)).unwrap();
    cfg.add_pci_bar(&memory_64(2, 0x1_0000_001f, 0x20)).unwrap();
    assert_eq!(cfg.get_bar_addr(0), 0xe000_0010);
    assert_eq!(cfg.get_bar_addr(1), 0xc004);
    assert_eq!(cfg.get_bar_addr(2), 0x1_0000_0010);
}

#[test]
fn size_of_memory_bar() {
    let mut cfg = device();
    cfg.add_pci_bar(&memory_32(0, 0xe000_0000, 0x1000)).unwrap();
    assert!(cfg.write_config_register(BAR0_REG, 0, &[0xff; 4]).is_empty());
    assert_eq!(cfg.read_reg(BAR0_REG), 0xffff_f000);
    assert_eq!(decode_32_bits_bar_size(cfg.read_reg(BAR0_REG) & 0xffff_fff0), Some(0x1000));
    // The address comes back when the guest writes it back, and nothing has moved.
    assert!(cfg.write_config_register(BAR0_REG, 0, &[0, 0, 0, 0xe0]).is_empty());
    assert_eq!(cfg.read_reg(BAR0_REG), 0xe000_0000);
    assert_eq!(cfg.get_bar_addr(0), 0xe000_0000);
}

#[test]
fn size_of_io_bar() {
    let mut cfg = device();
    cfg.add_pci_bar(&io(3, 0xc000, 0x4)).unwrap();
    cfg.write_reg(BAR0_REG + 3, 0xffff_ffff);
    assert_eq!(cfg.read_reg(BAR0_REG + 3), 0xffff_fffd);
    assert_eq!(decode_32_bits_bar_size(cfg.read_reg(BAR0_REG + 3) & 0xffff_fffc), Some(4));
}

#[test]
fn size_of_64_bit_bar() {
    let mut cfg = device();
    cfg.add_pci_bar(&memory_64(4, 0x40_0000_0000, 0x2_0000_0000)).unwrap();
    cfg.write_reg(BAR0_REG + 4, 0xffff_ffff);
    cfg.write_reg(BAR0_REG + 5, 0xffff_ffff);
    let lo = cfg.read_reg(BAR0_REG + 4);
    let hi = cfg.read_reg(BAR0_REG + 5);
    assert_eq!((hi, lo), (0xffff_fffe, 0x0000_0004));
    assert_eq!(decode_64_bits_bar_size(hi, lo & 0xffff_fff0), Some(0x2_0000_0000));
}

#[test]
fn size_below_the_address_bits_is_not_told() {
    let mut cfg = device();
    cfg.add_pci_bar(&memory_32(0, 0xe000_0000, 0x8)).unwrap();
    cfg.write_reg(BAR0_REG, 0xffff_ffff);
    assert_eq!(decode_32_bits_bar_size(cfg.read_reg(BAR0_REG) & 0xffff_fff0), Some(16));
}

#[test]
fn unused_bar_tells_no_size() {
    let mut cfg = device();
    cfg.write_reg(BAR0_REG + 2, 0xffff_ffff);
    assert_eq!(cfg.read_reg(BAR0_REG + 2), 0);
    assert_eq!(cfg.get_bar_addr(2), 0);
}

#[test]
fn bar_in_use() {
    let mut cfg = device();
    cfg.add_pci_bar(&memory_64(0, 0x1_0000_0000, 0x1000)).unwrap();
    assert_eq!(cfg.add_pci_bar(&memory_32(0, 0, 0x1000)), Err(Error::BarInUse(0)));
    // The upper half of the BAR occupies the slot after it.
    assert_eq!(cfg.add_pci_bar(&memory_32(1, 0, 0x1000)), Err(Error::BarInUse(1)));
    assert_eq!(cfg.get_bar_addr(0), 0x1_0000_0000);
}

#[test]
fn upper_half_in_use() {
    let mut cfg = device();
    cfg.add_pci_bar(&memory_32(3, 0xe000_0000, 0x1000)).unwrap();
    assert_eq!(cfg.add_pci_bar(&memory_64(2, 0, 0x1000)), Err(Error::BarInUse64(2)));
    assert_eq!(cfg.read_reg(BAR0_REG + 2), 0);
    cfg.add_pci_bar(&memory_32(2, 0xd000_0000, 0x1000)).unwrap();
}

#[test]
fn upper_half_missing() {
    let mut cfg = device();
    assert_eq!(cfg.add_pci_bar(&memory_64(5, 0, 0x1000)), Err(Error::BarInvalid64(5)));
    cfg.add_pci_bar(&memory_32(5, 0, 0x1000)).unwrap();
}

#[test]
fn bar_size_must_be_a_power_of_two() {
    let mut cfg = device();
    assert_eq!(cfg.add_pci_bar(&memory_32(0, 0, 0x1001)), Err(Error::BarSizeInvalid(0x1001)));
    assert_eq!(cfg.add_pci_bar(&memory_32(0, 0, 0)), Err(Error::BarSizeInvalid(0)));
    assert_eq!(
        cfg.add_pci_bar(&memory_64(0, 0, u64::MAX)),
        Err(Error::BarSizeInvalid(u64::MAX))
    );
}

#[test]
fn bar_must_fit_its_address_space() {
    let mut cfg = device();
    assert_eq!(
        cfg.add_pci_bar(&memory_32(0, 0xffff_f000, 0x2000)),
        Err(Error::BarAddressInvalid(0xffff_f000, 0x2000))
    );
    assert_eq!(
        cfg.add_pci_bar(&io(0, 0x1_0000_0000, 0x10)),
        Err(Error::BarAddressInvalid(0x1_0000_0000, 0x10))
    );
    assert_eq!(
        cfg.add_pci_bar(&memory_64(0, u64::MAX, 0x2)),
        Err(Error::BarAddressInvalid(u64::MAX, 2))
    );
    assert_eq!(
        cfg.add_pci_bar(&memory_32(0, u64::MAX, 0x2)),
        Err(Error::BarAddressInvalid(u64::MAX, 2))
    );
    // The last region of the space still fits.
    cfg.add_pci_bar(&memory_32(0, 0xffff_f000, 0x1000)).unwrap();
    cfg.add_pci_bar(&memory_64(2, 0xffff_ffff_ffff_f000, 0x1000)).unwrap();
}

#[test]
fn bar_of_the_whole_32_bit_space_has_no_encoding() {
    let mut cfg = device();
    assert_eq!(
        cfg.add_pci_bar(&memory_32(0, 0, 0x1_0000_0000)),
        Err(Error::Encode32BarSize)
    );
    assert_eq!(cfg.read_reg(BAR0_REG), 0);
    cfg.add_pci_bar(&memory_64(0, 0, 0x1_0000_0000)).unwrap();
}

#[test]
fn rom_register_and_size() {
    let mut cfg = device();
    cfg.add_pci_rom_bar(&memory_32(ROM_BAR_IDX, 0xfeb0_0000, 0x1_0000), 1).unwrap();
    assert_eq!(cfg.read_reg(ROM_BAR_REG), 0xfeb0_0001);
    assert!(!cfg.is_bar_released(ROM_BAR_IDX));
    // Ones in all address bits ask for the size, whatever the other bits are.
    assert!(cfg.write_config_register(ROM_BAR_REG, 0, &[0xfe, 0xff, 0xff, 0xff]).is_empty());
    assert_eq!(cfg.read_reg(ROM_BAR_REG), 0xffff_0001);
    assert_eq!(decode_32_bits_bar_size(cfg.read_reg(ROM_BAR_REG) & 0xffff_f800), Some(0x1_0000));
}

#[test]
fn rom_is_refused() {
    let mut cfg = device();
    assert_eq!(
        cfg.add_pci_rom_bar(&memory_32(ROM_BAR_IDX, 0, 0x801), 0),
        Err(Error::RomBarSizeInvalid(0x801))
    );
    assert_eq!(
        cfg.add_pci_rom_bar(&memory_32(3, 0, 0x800), 0),
        Err(Error::RomBarInvalid(3))
    );
    assert_eq!(
        cfg.add_pci_rom_bar(&memory_32(ROM_BAR_IDX, 0xffff_f800, 0x1000), 0),
        Err(Error::RomBarAddressInvalid(0xffff_f800, 0x1000))
    );
    assert_eq!(
        cfg.add_pci_rom_bar(&memory_32(ROM_BAR_IDX, u64::MAX, 0x1000), 0),
        Err(Error::RomBarAddressInvalid(u64::MAX, 0x1000))
    );
    assert_eq!(cfg.read_reg(ROM_BAR_REG), 0);
    cfg.add_pci_rom_bar(&memory_32(ROM_BAR_IDX, 0xfeb0_0000, 0x800), 0).unwrap();
    assert_eq!(
        cfg.add_pci_rom_bar(&memory_32(ROM_BAR_IDX, 0, 0x800), 0),
        Err(Error::RomBarInUse(ROM_BAR_IDX))
    );
}

#[test]
fn rom_of_the_whole_32_bit_space_leaves_its_register() {
    let mut cfg = device();
    assert_eq!(
        cfg.add_pci_rom_bar(&memory_32(ROM_BAR_IDX, 0, 0x1_0000_0000), 1),
        Err(Error::Encode32BarSize)
    );
    assert_eq!(cfg.read_reg(ROM_BAR_REG), 1);
    cfg.add_pci_rom_bar(&memory_32(ROM_BAR_IDX, 0xfeb0_0000, 0x800), 0).unwrap();
    assert_eq!(cfg.read_reg(ROM_BAR_REG), 0xfeb0_0000);
}

#[test]
fn added_bar_leaves_the_others() {
    let mut cfg = device();
    cfg.add_pci_bar(&memory_32(0, 0xe000_0000, 0x1000)).unwrap();
    cfg.add_pci_bar(&memory_64(1, 0x1_0000_0000, 0x1000)).unwrap();
    assert_eq!(cfg.get_bar_addr(0), 0xe000_0000);
    assert_eq!(cfg.read_reg(BAR0_REG), 0xe000_0000);
    cfg.add_pci_bar(&memory_32(3, 0xd000_0000, 0x1000)).unwrap();
    assert_eq!(cfg.get_bar_addr(1), 0x1_0000_0000);
    assert_eq!(cfg.read_reg(BAR0_REG + 2), 1);
}

#[test]
fn bar_index_out_of_range() {
    let mut cfg = device();
    assert_eq!(cfg.add_pci_bar(&memory_32(6, 0, 0x1000)), Err(Error::BarInvalid(6)));
    assert_eq!(cfg.add_pci_bar(&memory_64(7, 0, 0x1001)), Err(Error::BarInvalid(7)));
    assert_eq!(
        cfg.add_pci_bar(&memory_32(usize::MAX, 0, 0x1000)),
        Err(Error::BarInvalid(usize::MAX))
    );
    for reg_idx in 4..13usize {
        if reg_idx != 11 {
            assert_eq!(cfg.read_reg(reg_idx), 0);
        }
    }
}
