use pci::bits::is_power_of_two;
use pci::{
    decode_32_bits_bar_size, decode_64_bits_bar_size, encode_32_bits_bar_size,
    encode_64_bits_bar_size, BarRelocation, InstallParams, PciBar, PciBarConfiguration,
    PciBarPrefetchable, PciBarRegionType, PciBarType, PciBridgeSubclass, PciCapabilityId,
    PciClassCode, PciExpressCapabilityId, PciMassStorageSubclass, PciMultimediaSubclass,
    PciNetworkControllerSubclass, PciSerialBusSubClass, PciSubclass, ReleaseParams,
};

#[test]
fn class_codes() {
    assert_eq!(PciClassCode::TooOld.get_register_value(), 0x00);
    assert_eq!(PciClassCode::MassStorage.get_register_value(), 0x01);
    assert_eq!(PciClassCode::BridgeDevice.get_register_value(), 0x06);
    assert_eq!(PciClassCode::SerialBusController.get_register_value(), 0x0c);
    assert_eq!(PciClassCode::DataAcquisitionSignalProcessing.get_register_value(), 0x10);
    assert_eq!(PciClassCode::Other.get_register_value(), 0xff);
}

#[test]
fn subclass_codes() {
    assert_eq!(PciMultimediaSubclass::AudioController.get_register_value(), 0x01);
    assert_eq!(PciMultimediaSubclass::Other.get_register_value(), 0x80);
    assert_eq!(PciBridgeSubclass::HostBridge.get_register_value(), 0x00);
    assert_eq!(PciBridgeSubclass::InfiniBrandToPciHostBridge.get_register_value(), 0x0a);
    assert_eq!(PciBridgeSubclass::OtherBridgeDevice.get_register_value(), 0x80);
    assert_eq!(PciSerialBusSubClass::Usb.get_register_value(), 0x03);
    assert_eq!(PciMassStorageSubclass::ScsiStorage.get_register_value(), 0x00);
    assert_eq!(PciMassStorageSubclass::MassStorage.get_register_value(), 0x80);
    assert_eq!(PciNetworkControllerSubclass::EthernetController.get_register_value(), 0x00);
}

#[test]
fn capability_codes_round_trip() {
    for code in 0..=0x14u8 {
        assert_eq!(PciCapabilityId::from(code).get_register_value(), code);
    }
    for code in 0x15..=0xffu8 {
        assert_eq!(PciCapabilityId::from(code), PciCapabilityId::ListId);
    }
    assert_eq!(PciCapabilityId::from(0x11), PciCapabilityId::MsiX);
    assert_eq!(PciCapabilityId::from(0x05), PciCapabilityId::MessageSignalledInterrupts);
    assert_eq!(PciCapabilityId::PciEnhancedAllocation.get_register_value(), 0x14);
}

#[test]
fn express_capability_codes_round_trip() {
    for code in 0..=0x2eu16 {
        assert_eq!(PciExpressCapabilityId::from(code).get_register_value(), code);
    }
    assert_eq!(PciExpressCapabilityId::from(0xffff).get_register_value(), 0xffff);
    for code in [0x2fu16, 0x30, 0x1000, 0xfffe] {
        assert_eq!(PciExpressCapabilityId::from(code), PciExpressCapabilityId::Reserved);
    }
}

#[test]
fn region_types_convert_both_ways() {
    let pairs = [
        (PciBarType::Io, PciBarRegionType::IoRegion),
        (PciBarType::Mmio32, PciBarRegionType::Memory32BitRegion),
        (PciBarType::Mmio64, PciBarRegionType::Memory64BitRegion),
    ];
    for (bar_type, region_type) in pairs {
        assert_eq!(PciBarRegionType::from(bar_type), region_type);
        assert_eq!(PciBarType::from(region_type), bar_type);
    }
    assert_eq!(PciBarRegionType::Memory32BitRegion.get_register_value(), 0);
    assert_eq!(PciBarRegionType::IoRegion.get_register_value(), 1);
    assert_eq!(PciBarRegionType::Memory64BitRegion.get_register_value(), 4);
}

#[test]
fn prefetchable_converts_to_bool() {
    assert!(bool::from(PciBarPrefetchable::Prefetchable));
    assert!(!bool::from(PciBarPrefetchable::NotPrefetchable));
    assert_eq!(PciBarPrefetchable::Prefetchable.get_register_value(), 8);
    assert_eq!(PciBarPrefetchable::NotPrefetchable.get_register_value(), 0);
}

#[test]
fn sizes_of_32_bits() {
    assert_eq!(encode_32_bits_bar_size(0x1000), Some(0xffff_f000));
    assert_eq!(encode_32_bits_bar_size(1), Some(0xffff_ffff));
    assert_eq!(encode_32_bits_bar_size(0x8000_0000), Some(0x8000_0000));
    assert_eq!(encode_32_bits_bar_size(0), None);
    assert_eq!(decode_32_bits_bar_size(0xffff_f000), Some(0x1000));
    assert_eq!(decode_32_bits_bar_size(0xffff_ffff), Some(1));
    assert_eq!(decode_32_bits_bar_size(0), None);
}

#[test]
fn sizes_of_64_bits() {
    assert_eq!(encode_64_bits_bar_size(0x4000), Some((0xffff_ffff, 0xffff_c000)));
    assert_eq!(encode_64_bits_bar_size(0x2_0000_0000), Some((0xffff_fffe, 0)));
    assert_eq!(encode_64_bits_bar_size(0), None);
    assert_eq!(decode_64_bits_bar_size(0xffff_ffff, 0xffff_c000), Some(0x4000));
    assert_eq!(decode_64_bits_bar_size(0xffff_fffe, 0), Some(0x2_0000_0000));
    assert_eq!(decode_64_bits_bar_size(0, 0), None);
}

#[test]
fn encoded_sizes_decode() {
    for shift in 0..32u32 {
        let size = 1u32 << shift;
        assert_eq!(decode_32_bits_bar_size(encode_32_bits_bar_size(size).unwrap()), Some(size));
    }
    for shift in 0..64u32 {
        let size = 1u64 << shift;
        let (hi, lo) = encode_64_bits_bar_size(size).unwrap();
        assert_eq!(decode_64_bits_bar_size(hi, lo), Some(size));
    }
}

#[test]
fn powers_of_two() {
    assert!(!is_power_of_two(0));
    assert!(is_power_of_two(1));
    assert!(is_power_of_two(0x8000_0000_0000_0000));
    assert!(!is_power_of_two(3));
    assert!(!is_power_of_two(0x1001));
    assert!(!is_power_of_two(u64::MAX));
}

#[test]
fn bar_configuration_builders() {
    let config = PciBarConfiguration::default();
    assert_eq!(config.idx(), 0);
    assert_eq!(config.addr(), 0);
    assert_eq!(config.size(), 0);
    assert_eq!(config.region_type(), PciBarRegionType::Memory64BitRegion);
    assert_eq!(config.prefetchable(), PciBarPrefetchable::NotPrefetchable);
    let config = config
        .set_index(3)
        .set_address(0xf000_0000)
        .set_size(0x2000)
        .set_region_type(PciBarRegionType::IoRegion)
        .set_prefetchable(PciBarPrefetchable::Prefetchable);
    assert_eq!(config.idx(), 3);
    assert_eq!(config.addr(), 0xf000_0000);
    assert_eq!(config.size(), 0x2000);
    assert_eq!(config.region_type(), PciBarRegionType::IoRegion);
    assert_eq!(config.prefetchable(), PciBarPrefetchable::Prefetchable);
    let config = PciBarConfiguration::new(
        2,
        0x100,
        PciBarRegionType::Memory32BitRegion,
        PciBarPrefetchable::Prefetchable,
    );
    assert_eq!(config.idx(), 2);
    assert_eq!(config.addr(), 0);
    assert_eq!(config.size(), 0x100);
    assert_eq!(config.region_type(), PciBarRegionType::Memory32BitRegion);
    assert_eq!(config.prefetchable(), PciBarPrefetchable::Prefetchable);
}

#[test]
fn unused_bar() {
    let bar = PciBar::default();
    assert_eq!(bar.addr, 0);
    assert_eq!(bar.size, 0);
    assert!(!bar.used);
    assert!(bar.region_type.is_none());
}

#[test]
fn empty_plans() {
    let mut reloc = BarRelocation::default();
    assert!(reloc.is_empty());
    reloc.release.push(ReleaseParams {
        bar_idx: 0,
        base: 0x1000,
        len: 0x100,
        region_type: PciBarRegionType::IoRegion,
    });
    assert!(!reloc.is_empty());
    let mut reloc = BarRelocation::default();
    reloc.install.push(InstallParams {
        bar_idx: 0,
        old_base: 0x1000,
        new_base: 0x2000,
        len: 0x100,
        region_type: PciBarRegionType::IoRegion,
    });
    assert!(!reloc.is_empty());
}
