use pci::space::CAPABILITY_LIST_HEAD_OFFSET;
use pci::{
    Error, PciBarConfiguration, PciBarPrefetchable, PciBarRegionType, PciCapability,
    PciCapabilityId, PciClassCode, PciConfiguration, PciHeaderType, PciMultimediaSubclass,
};

fn device() -> PciConfiguration {
    PciConfiguration::new(
        0x1234,
        0x5678,
        0x1,
        PciClassCode::MultimediaController,
        &PciMultimediaSubclass::VideoController,
        None,
        PciHeaderType::Device,
        0xabcd,
        0x2468,
        None,
        None,
    )
}

fn byte_at(cfg: &PciConfiguration, offset: usize) -> u8 {
    cfg.read_reg(offset / 4).to_le_bytes()[offset % 4]
}

fn walk(cfg: &PciConfiguration) -> Vec<usize> {
    let mut offsets = Vec::new();
    let mut offset = byte_at(cfg, CAPABILITY_LIST_HEAD_OFFSET) as usize;
    while offset != 0 {
        offsets.push(offset);
        offset = byte_at(cfg, offset + 1) as usize;
    }
    offsets
}

#[test]
fn no_capabilities() {
    let cfg = device();
    assert_eq!(cfg.read_reg(1), 0);
    assert!(walk(&cfg).is_empty());
}

#[test]
fn capability_header_and_content() {
    let mut cfg = device();
    let offset = cfg
        .add_capability_content(PciCapabilityId::PowerManagement, &[0x11, 0x22, 0x33, 0x44, 0x55])
        .unwrap();
    assert_eq!(offset, 0x40);
    assert_eq!(cfg.read_reg(1), 0x0010_0000);
    assert_eq!(cfg.read_reg(0x40 / 4), 0x2211_0001);
    assert_eq!(cfg.read_reg(0x44 / 4), 0x0055_4433);
    assert_eq!(cfg.read_reg(0x48 / 4), 0);
    assert_eq!(walk(&cfg), vec![0x40]);
}

#[test]
fn capabilities_are_listed_in_order() {
    let mut cfg = device();
    let first = cfg.add_capability_content(PciCapabilityId::VendorSpecific, &[1]).unwrap();
    let second = cfg
        .add_capability_content(PciCapabilityId::PciExpress, &[1, 2, 3, 4, 5, 6])
        .unwrap();
    let third = cfg
        .add_capability_content(PciCapabilityId::MessageSignalledInterrupts, &[0x80, 0])
        .unwrap();
    assert_eq!((first, second, third), (0x40, 0x44, 0x4c));
    assert_eq!(walk(&cfg), vec![first, second, third]);
    assert_eq!(byte_at(&cfg, first), 0x09);
    assert_eq!(byte_at(&cfg, second), 0x10);
    assert_eq!(byte_at(&cfg, third), 0x05);
    assert_eq!(byte_at(&cfg, second + 2), 1);
    assert_eq!(byte_at(&cfg, second + 7), 6);
}

#[test]
fn content_of_an_earlier_capability() {
    for len in 1..=8usize {
        let content = vec![0xee; len];
        let mut cfg = device();
        let first = cfg.add_capability_content(PciCapabilityId::PciX, &content).unwrap();
        let next = cfg.add_capability_content(PciCapabilityId::VendorSpecific, &[1, 2]).unwrap();
        let intact = (0..len).all(|i| byte_at(&cfg, first + 2 + i) == 0xee);
        assert_eq!(intact, len % 4 == 1 || len % 4 == 2);
        assert_eq!(byte_at(&cfg, first), 0x07);
        assert_eq!(byte_at(&cfg, next), 0x09);
        assert_eq!(walk(&cfg), vec![first, next]);
    }
}

#[test]
fn guest_cannot_change_the_list() {
    let mut cfg = device();
    cfg.add_capability_content(PciCapabilityId::MessageSignalledInterrupts, &[0x80, 0]).unwrap();
    cfg.add_capability_content(PciCapabilityId::MsiX, &[0x03, 0]).unwrap();
    cfg.add_capability_content(PciCapabilityId::VendorSpecific, &[0xaa]).unwrap();
    let offsets = walk(&cfg);
    assert_eq!(offsets.len(), 3);
    for reg_idx in 13..1024usize {
        cfg.write_config_register(reg_idx, 0, &[0xff; 4]);
        cfg.write_config_register(reg_idx, 0, &[0xff; 2]);
        cfg.write_config_register(reg_idx, 1, &[0xff]);
    }
    assert_eq!(walk(&cfg), offsets);
    // What the guest may write of MSI and MSI-X is in their message control.
    assert_eq!(cfg.read_reg(0x40 / 4), 0x00f1_4405);
    assert_eq!(cfg.read_reg(0x44 / 4), 0xc003_4811);
    assert_eq!(cfg.read_reg(0x48 / 4), 0x00aa_0009);
}

#[test]
fn bars_leave_the_list() {
    let mut cfg = device();
    cfg.add_capability_content(PciCapabilityId::VendorSpecific, &[0xaa]).unwrap();
    let bar = PciBarConfiguration::new(
        4,
        0x1000,
        PciBarRegionType::Memory64BitRegion,
        PciBarPrefetchable::NotPrefetchable,
    );
    cfg.add_pci_bar(&bar).unwrap();
    cfg.add_pci_rom_bar(&bar.set_index(6), 0).unwrap();
    assert_eq!(walk(&cfg), vec![0x40]);
    cfg.add_capability_content(PciCapabilityId::VendorSpecific, &[0xbb]).unwrap();
    assert_eq!(walk(&cfg), vec![0x40, 0x44]);
}

#[test]
fn empty_capability() {
    let mut cfg = device();
    assert_eq!(
        cfg.add_capability_content(PciCapabilityId::VendorSpecific, &[]),
        Err(Error::CapabilityEmpty)
    );
    assert_eq!(cfg.read_reg(1), 0);
    assert!(walk(&cfg).is_empty());
}

#[test]
fn full_capability_area() {
    let mut cfg = device();
    assert_eq!(
        cfg.add_capability_content(PciCapabilityId::VendorSpecific, &[0; 129]),
        Err(Error::CapabilitySpaceFull(129))
    );
    assert!(walk(&cfg).is_empty());
    assert_eq!(cfg.add_capability_content(PciCapabilityId::VendorSpecific, &[0; 120]), Ok(0x40));
    assert_eq!(
        cfg.add_capability_content(PciCapabilityId::VendorSpecific, &[0; 9]),
        Err(Error::CapabilitySpaceFull(9))
    );
    assert_eq!(cfg.add_capability_content(PciCapabilityId::VendorSpecific, &[0; 8]), Ok(0xb8));
    assert_eq!(
        cfg.add_capability_content(PciCapabilityId::VendorSpecific, &[0; 1]),
        Err(Error::CapabilitySpaceFull(1))
    );
    assert_eq!(walk(&cfg), vec![0x40, 0xb8]);
}

#[test]
fn whole_capability_area() {
    let mut cfg = device();
    assert_eq!(cfg.add_capability_content(PciCapabilityId::VendorSpecific, &[7; 128]), Ok(0x40));
    assert_eq!(byte_at(&cfg, 193), 7);
    assert_eq!(byte_at(&cfg, 194), 0);
}

struct Msi {
    content: Vec<u8>,
}

impl PciCapability for Msi {
    fn bytes(&self) -> &[u8] {
        &self.content
    }

    fn id(&self) -> PciCapabilityId {
        PciCapabilityId::MessageSignalledInterrupts
    }
}

#[test]
fn capability_of_a_user() {
    let mut cfg = device();
    let msi = Msi { content: vec![0x80, 0x01, 0xaa, 0xbb, 0xcc, 0xdd] };
    assert_eq!(cfg.add_capability(&msi), Ok(0x40));
    assert_eq!(cfg.read_reg(0x40 / 4), 0x0180_0005);
    assert_eq!(cfg.read_reg(0x44 / 4), 0xddcc_bbaa);
    assert_eq!(cfg.add_capability(&Msi { content: vec![] }), Err(Error::CapabilityEmpty));
    cfg.write_reg(0x40 / 4, 0xffff_ffff);
    assert_eq!(cfg.read_reg(0x40 / 4), 0x01f1_0005);
}
