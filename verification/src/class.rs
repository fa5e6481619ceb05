//! Class, subclass and header codes of a PCI function.
use vstd::prelude::*;

verus! {

/// Represents the types of PCI headers allowed in the configuration registers.
#[derive(Copy, Clone)]
pub enum PciHeaderType {
    Device,
    Bridge,
}

/// Classes of PCI nodes.
///
/// The number of a class is that of `get_register_value`, not the position of the variant.
#[derive(Copy, Clone)]
pub enum PciClassCode {
    TooOld,
    MassStorage,
    NetworkController,
    DisplayController,
    MultimediaController,
    MemoryController,
    BridgeDevice,
    SimpleCommunicationController,
    BaseSystemPeripheral,
    InputDevice,
    DockingStation,
    Processor,
    SerialBusController,
    WirelessController,
    IntelligentIoController,
    EncryptionController,
    DataAcquisitionSignalProcessing,
    Other,
}

impl PciClassCode {
    /// The base class byte that stands for this class in the class register.
    pub open spec fn register_value(self) -> u8 {
        match self {
            PciClassCode::TooOld => 0x00,
            PciClassCode::MassStorage => 0x01,
            PciClassCode::NetworkController => 0x02,
            PciClassCode::DisplayController => 0x03,
            PciClassCode::MultimediaController => 0x04,
            PciClassCode::MemoryController => 0x05,
            PciClassCode::BridgeDevice => 0x06,
            PciClassCode::SimpleCommunicationController => 0x07,
            PciClassCode::BaseSystemPeripheral => 0x08,
            PciClassCode::InputDevice => 0x09,
            PciClassCode::DockingStation => 0x0a,
            PciClassCode::Processor => 0x0b,
            PciClassCode::SerialBusController => 0x0c,
            PciClassCode::WirelessController => 0x0d,
            PciClassCode::IntelligentIoController => 0x0e,
            PciClassCode::EncryptionController => 0x0f,
            PciClassCode::DataAcquisitionSignalProcessing => 0x10,
            PciClassCode::Other => 0xff,
        }
    }

    pub fn get_register_value(self) -> (value: u8)
        ensures
            value == self.register_value(),
    {
        match self {
            PciClassCode::TooOld => 0x00,
            PciClassCode::MassStorage => 0x01,
            PciClassCode::NetworkController => 0x02,
            PciClassCode::DisplayController => 0x03,
            PciClassCode::MultimediaController => 0x04,
            PciClassCode::MemoryController => 0x05,
            PciClassCode::BridgeDevice => 0x06,
            PciClassCode::SimpleCommunicationController => 0x07,
            PciClassCode::BaseSystemPeripheral => 0x08,
            PciClassCode::InputDevice => 0x09,
            PciClassCode::DockingStation => 0x0a,
            PciClassCode::Processor => 0x0b,
            PciClassCode::SerialBusController => 0x0c,
            PciClassCode::WirelessController => 0x0d,
            PciClassCode::IntelligentIoController => 0x0e,
            PciClassCode::EncryptionController => 0x0f,
            PciClassCode::DataAcquisitionSignalProcessing => 0x10,
            PciClassCode::Other => 0xff,
        }
    }
}

/// A PCI subclass. Each class in `PciClassCode` can specify a unique set of subclasses. This trait
/// is implemented by each subclass. It allows use of a trait object to generate configurations.
pub trait PciSubclass {
    /// The subclass byte, as a function of the subclass alone.
    closed spec fn register_value(&self) -> u8 {
        arbitrary()
    }

    /// Convert this subclass to its value in the class register.
    fn get_register_value(&self) -> (value: u8)
        ensures
            value == self.register_value(),
    ;
}

/// Subclasses of the MultimediaController class.
///
/// The number of a subclass is that of `get_register_value`, not the position of the variant.
#[derive(Copy, Clone)]
pub enum PciMultimediaSubclass {
    VideoController,
    AudioController,
    TelephonyDevice,
    AudioDevice,
    Other,
}

impl PciSubclass for PciMultimediaSubclass {
    open spec fn register_value(&self) -> u8 {
        match self {
            PciMultimediaSubclass::VideoController => 0x00,
            PciMultimediaSubclass::AudioController => 0x01,
            PciMultimediaSubclass::TelephonyDevice => 0x02,
            PciMultimediaSubclass::AudioDevice => 0x03,
            PciMultimediaSubclass::Other => 0x80,
        }
    }

    fn get_register_value(&self) -> (value: u8) {
        match self {
            PciMultimediaSubclass::VideoController => 0x00,
            PciMultimediaSubclass::AudioController => 0x01,
            PciMultimediaSubclass::TelephonyDevice => 0x02,
            PciMultimediaSubclass::AudioDevice => 0x03,
            PciMultimediaSubclass::Other => 0x80,
        }
    }
}

/// Subclasses of the BridgeDevice class.
///
/// The number of a subclass is that of `get_register_value`, not the position of the variant.
#[derive(Copy, Clone)]
pub enum PciBridgeSubclass {
    HostBridge,
    IsaBridge,
    EisaBridge,
    McaBridge,
    PciToPciBridge,
    PcmciaBridge,
    NuBusBridge,
    CardBusBridge,
    RacEwayBridge,
    PciToPciSemiTransparentBridge,
    InfiniBrandToPciHostBridge,
    OtherBridgeDevice,
}

impl PciSubclass for PciBridgeSubclass {
    open spec fn register_value(&self) -> u8 {
        match self {
            PciBridgeSubclass::HostBridge => 0x00,
            PciBridgeSubclass::IsaBridge => 0x01,
            PciBridgeSubclass::EisaBridge => 0x02,
            PciBridgeSubclass::McaBridge => 0x03,
            PciBridgeSubclass::PciToPciBridge => 0x04,
            PciBridgeSubclass::PcmciaBridge => 0x05,
            PciBridgeSubclass::NuBusBridge => 0x06,
            PciBridgeSubclass::CardBusBridge => 0x07,
            PciBridgeSubclass::RacEwayBridge => 0x08,
            PciBridgeSubclass::PciToPciSemiTransparentBridge => 0x09,
            PciBridgeSubclass::InfiniBrandToPciHostBridge => 0x0a,
            PciBridgeSubclass::OtherBridgeDevice => 0x80,
        }
    }

    fn get_register_value(&self) -> (value: u8) {
        match self {
            PciBridgeSubclass::HostBridge => 0x00,
            PciBridgeSubclass::IsaBridge => 0x01,
            PciBridgeSubclass::EisaBridge => 0x02,
            PciBridgeSubclass::McaBridge => 0x03,
            PciBridgeSubclass::PciToPciBridge => 0x04,
            PciBridgeSubclass::PcmciaBridge => 0x05,
            PciBridgeSubclass::NuBusBridge => 0x06,
            PciBridgeSubclass::CardBusBridge => 0x07,
            PciBridgeSubclass::RacEwayBridge => 0x08,
            PciBridgeSubclass::PciToPciSemiTransparentBridge => 0x09,
            PciBridgeSubclass::InfiniBrandToPciHostBridge => 0x0a,
            PciBridgeSubclass::OtherBridgeDevice => 0x80,
        }
    }
}

/// Subclasses of the SerialBusController class.
///
/// The number of a subclass is that of `get_register_value`, not the position of the variant.
#[derive(Copy, Clone)]
pub enum PciSerialBusSubClass {
    Firewire,
    Accessbus,
    Ssa,
    Usb,
}

impl PciSubclass for PciSerialBusSubClass {
    open spec fn register_value(&self) -> u8 {
        match self {
            PciSerialBusSubClass::Firewire => 0x00,
            PciSerialBusSubClass::Accessbus => 0x01,
            PciSerialBusSubClass::Ssa => 0x02,
            PciSerialBusSubClass::Usb => 0x03,
        }
    }

    fn get_register_value(&self) -> (value: u8) {
        match self {
            PciSerialBusSubClass::Firewire => 0x00,
            PciSerialBusSubClass::Accessbus => 0x01,
            PciSerialBusSubClass::Ssa => 0x02,
            PciSerialBusSubClass::Usb => 0x03,
        }
    }
}

/// Subclasses of the MassStorage class.
///
/// The number of a subclass is that of `get_register_value`, not the position of the variant.
#[derive(Copy, Clone)]
pub enum PciMassStorageSubclass {
    ScsiStorage,
    IdeInterface,
    FloppyController,
    IpiController,
    RaidController,
    AtaController,
    SataController,
    SerialScsiController,
    NvmController,
    MassStorage,
}

impl PciSubclass for PciMassStorageSubclass {
    open spec fn register_value(&self) -> u8 {
        match self {
            PciMassStorageSubclass::ScsiStorage => 0x00,
            PciMassStorageSubclass::IdeInterface => 0x01,
            PciMassStorageSubclass::FloppyController => 0x02,
            PciMassStorageSubclass::IpiController => 0x03,
            PciMassStorageSubclass::RaidController => 0x04,
            PciMassStorageSubclass::AtaController => 0x05,
            PciMassStorageSubclass::SataController => 0x06,
            PciMassStorageSubclass::SerialScsiController => 0x07,
            PciMassStorageSubclass::NvmController => 0x08,
            PciMassStorageSubclass::MassStorage => 0x80,
        }
    }

    fn get_register_value(&self) -> (value: u8) {
        match self {
            PciMassStorageSubclass::ScsiStorage => 0x00,
            PciMassStorageSubclass::IdeInterface => 0x01,
            PciMassStorageSubclass::FloppyController => 0x02,
            PciMassStorageSubclass::IpiController => 0x03,
            PciMassStorageSubclass::RaidController => 0x04,
            PciMassStorageSubclass::AtaController => 0x05,
            PciMassStorageSubclass::SataController => 0x06,
            PciMassStorageSubclass::SerialScsiController => 0x07,
            PciMassStorageSubclass::NvmController => 0x08,
            PciMassStorageSubclass::MassStorage => 0x80,
        }
    }
}

/// Subclasses of the NetworkController class.
///
/// The number of a subclass is that of `get_register_value`, not the position of the variant.
#[derive(Copy, Clone)]
pub enum PciNetworkControllerSubclass {
    EthernetController,
    TokenRingController,
    FddiController,
    AtmController,
    IsdnController,
    WorldFipController,
    PicmgController,
    InfinibandController,
    FabricController,
    NetworkController,
}

impl PciSubclass for PciNetworkControllerSubclass {
    open spec fn register_value(&self) -> u8 {
        match self {
            PciNetworkControllerSubclass::EthernetController => 0x00,
            PciNetworkControllerSubclass::TokenRingController => 0x01,
            PciNetworkControllerSubclass::FddiController => 0x02,
            PciNetworkControllerSubclass::AtmController => 0x03,
            PciNetworkControllerSubclass::IsdnController => 0x04,
            PciNetworkControllerSubclass::WorldFipController => 0x05,
            PciNetworkControllerSubclass::PicmgController => 0x06,
            PciNetworkControllerSubclass::InfinibandController => 0x07,
            PciNetworkControllerSubclass::FabricController => 0x08,
            PciNetworkControllerSubclass::NetworkController => 0x80,
        }
    }

    fn get_register_value(&self) -> (value: u8) {
        match self {
            PciNetworkControllerSubclass::EthernetController => 0x00,
            PciNetworkControllerSubclass::TokenRingController => 0x01,
            PciNetworkControllerSubclass::FddiController => 0x02,
            PciNetworkControllerSubclass::AtmController => 0x03,
            PciNetworkControllerSubclass::IsdnController => 0x04,
            PciNetworkControllerSubclass::WorldFipController => 0x05,
            PciNetworkControllerSubclass::PicmgController => 0x06,
            PciNetworkControllerSubclass::InfinibandController => 0x07,
            PciNetworkControllerSubclass::FabricController => 0x08,
            PciNetworkControllerSubclass::NetworkController => 0x80,
        }
    }
}

/// A register-level programming interface of a class and subclass.
///
/// Each combination of `PciClassCode` and `PciSubclass` can specify a
/// set of register-level programming interfaces.
/// This trait is implemented by each programming interface.
/// It allows use of a trait object to generate configurations.
pub trait PciProgrammingInterface {
    /// The programming interface byte, as a function of the interface alone.
    closed spec fn register_value(&self) -> u8 {
        arbitrary()
    }

    /// Convert this programming interface to its value in the class register.
    fn get_register_value(&self) -> (value: u8)
        ensures
            value == self.register_value(),
    ;
}

} // verus!
