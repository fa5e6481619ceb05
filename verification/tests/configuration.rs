use pci::space::CAPABILITY_LIST_HEAD_OFFSET;
use pci::{
    PciCapability, PciCapabilityId, PciClassCode, PciConfiguration, PciHeaderType,
    PciMultimediaSubclass, PciProgrammingInterface,
};

struct TestCap {
    bytes: [u8; 2],
}

impl TestCap {
    fn new(len: u8, foo: u8) -> TestCap {
        TestCap { bytes: [len, foo] }
    }
}

impl PciCapability for TestCap {
    fn bytes(&self) -> &[u8] {
        &self.bytes
    }

    fn id(&self) -> PciCapabilityId {
        PciCapabilityId::VendorSpecific
    }
}

#[test]
fn add_capability() {
    let mut cfg = PciConfiguration::new(
        0x1234,
        0x5678,
        0x1,
        PciClassCode::MultimediaController,
        &PciMultimediaSubclass::AudioController,
        None,
        PciHeaderType::Device,
        0xABCD,
        0x2468,
        None,
        None,
    );

    // Add two capabilities with different contents.
    let cap1 = TestCap::new(4, 0xAA);
    let cap1_offset = cfg.add_capability(&cap1).unwrap();
    assert_eq!(cap1_offset % 4, 0);

    let cap2 = TestCap::new(0x04, 0x55);
    let cap2_offset = cfg.add_capability(&cap2).unwrap();
    assert_eq!(cap2_offset % 4, 0);

    // The capability list head should be pointing to cap1.
    let cap_ptr = cfg.read_reg(CAPABILITY_LIST_HEAD_OFFSET / 4) & 0xFF;
    assert_eq!(cap1_offset, cap_ptr as usize);

    // Verify the contents of the capabilities.
    let cap1_data = cfg.read_reg(cap1_offset / 4);
    assert_eq!(cap1_data & 0xFF, 0x09); // capability ID
    assert_eq!((cap1_data >> 8) & 0xFF, cap2_offset as u32); // next capability pointer
    assert_eq!((cap1_data >> 16) & 0xFF, 0x04); // cap1.len
    assert_eq!((cap1_data >> 24) & 0xFF, 0xAA); // cap1.foo

    let cap2_data = cfg.read_reg(cap2_offset / 4);
    assert_eq!(cap2_data & 0xFF, 0x09); // capability ID
    assert_eq!((cap2_data >> 8) & 0xFF, 0x00); // next capability pointer
    assert_eq!((cap2_data >> 16) & 0xFF, 0x04); // cap2.len
    assert_eq!((cap2_data >> 24) & 0xFF, 0x55); // cap2.foo
}

#[derive(Copy, Clone)]
enum TestPi {
    Test,
}

impl PciProgrammingInterface for TestPi {
    fn get_register_value(&self) -> u8 {
        match self {
            TestPi::Test => 0x5a,
        }
    }
}

#[test]
fn class_code() {
    let cfg = PciConfiguration::new(
        0x1234,
        0x5678,
        0x1,
        PciClassCode::MultimediaController,
        &PciMultimediaSubclass::AudioController,
        Some(&TestPi::Test),
        PciHeaderType::Device,
        0xABCD,
        0x2468,
        None,
        None,
    );

    let class_reg = cfg.read_reg(2);
    let class_code = (class_reg >> 24) & 0xFF;
    let subclass = (class_reg >> 16) & 0xFF;
    let prog_if = (class_reg >> 8) & 0xFF;
    assert_eq!(class_code, 0x04);
    assert_eq!(subclass, 0x01);
    assert_eq!(prog_if, 0x5a);
}
