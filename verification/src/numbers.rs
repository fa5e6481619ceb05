//! The numbers that stand for classes, capabilities, regions and pins in configuration space.
use crate::bar::{PciBarPrefetchable, PciBarRegionType, PciBarType};
use crate::capability::{PciCapabilityId, PciExpressCapabilityId};
use crate::class::{
    PciBridgeSubclass, PciClassCode, PciMassStorageSubclass, PciMultimediaSubclass,
    PciNetworkControllerSubclass, PciSerialBusSubClass, PciSubclass,
};
use crate::interrupt::PciInterruptPin;
use vstd::prelude::*;
use vstd::std_specs::convert::FromSpec;

verus! {

/// The numbers of the classes.
pub proof fn class_numbers()
    ensures
        PciClassCode::TooOld.register_value() == 0x00,
        PciClassCode::MassStorage.register_value() == 0x01,
        PciClassCode::NetworkController.register_value() == 0x02,
        PciClassCode::DisplayController.register_value() == 0x03,
        PciClassCode::MultimediaController.register_value() == 0x04,
        PciClassCode::MemoryController.register_value() == 0x05,
        PciClassCode::BridgeDevice.register_value() == 0x06,
        PciClassCode::SimpleCommunicationController.register_value() == 0x07,
        PciClassCode::BaseSystemPeripheral.register_value() == 0x08,
        PciClassCode::InputDevice.register_value() == 0x09,
        PciClassCode::DockingStation.register_value() == 0x0a,
        PciClassCode::Processor.register_value() == 0x0b,
        PciClassCode::SerialBusController.register_value() == 0x0c,
        PciClassCode::WirelessController.register_value() == 0x0d,
        PciClassCode::IntelligentIoController.register_value() == 0x0e,
        PciClassCode::EncryptionController.register_value() == 0x0f,
        PciClassCode::DataAcquisitionSignalProcessing.register_value() == 0x10,
        PciClassCode::Other.register_value() == 0xff,
{
}

/// The numbers of the subclasses of multimedia controllers.
pub proof fn multimedia_numbers()
    ensures
        PciMultimediaSubclass::VideoController.register_value() == 0x00,
        PciMultimediaSubclass::AudioController.register_value() == 0x01,
        PciMultimediaSubclass::TelephonyDevice.register_value() == 0x02,
        PciMultimediaSubclass::AudioDevice.register_value() == 0x03,
        PciMultimediaSubclass::Other.register_value() == 0x80,
{
}

/// The numbers of the subclasses of bridges.
pub proof fn bridge_numbers()
    ensures
        PciBridgeSubclass::HostBridge.register_value() == 0x00,
        PciBridgeSubclass::IsaBridge.register_value() == 0x01,
        PciBridgeSubclass::EisaBridge.register_value() == 0x02,
        PciBridgeSubclass::McaBridge.register_value() == 0x03,
        PciBridgeSubclass::PciToPciBridge.register_value() == 0x04,
        PciBridgeSubclass::PcmciaBridge.register_value() == 0x05,
        PciBridgeSubclass::NuBusBridge.register_value() == 0x06,
        PciBridgeSubclass::CardBusBridge.register_value() == 0x07,
        PciBridgeSubclass::RacEwayBridge.register_value() == 0x08,
        PciBridgeSubclass::PciToPciSemiTransparentBridge.register_value() == 0x09,
        PciBridgeSubclass::InfiniBrandToPciHostBridge.register_value() == 0x0a,
        PciBridgeSubclass::OtherBridgeDevice.register_value() == 0x80,
{
}

/// The numbers of the subclasses of serial bus controllers.
pub proof fn serial_bus_numbers()
    ensures
        PciSerialBusSubClass::Firewire.register_value() == 0x00,
        PciSerialBusSubClass::Accessbus.register_value() == 0x01,
        PciSerialBusSubClass::Ssa.register_value() == 0x02,
        PciSerialBusSubClass::Usb.register_value() == 0x03,
{
}

/// The numbers of the subclasses of mass storage.
pub proof fn mass_storage_numbers()
    ensures
        PciMassStorageSubclass::ScsiStorage.register_value() == 0x00,
        PciMassStorageSubclass::IdeInterface.register_value() == 0x01,
        PciMassStorageSubclass::FloppyController.register_value() == 0x02,
        PciMassStorageSubclass::IpiController.register_value() == 0x03,
        PciMassStorageSubclass::RaidController.register_value() == 0x04,
        PciMassStorageSubclass::AtaController.register_value() == 0x05,
        PciMassStorageSubclass::SataController.register_value() == 0x06,
        PciMassStorageSubclass::SerialScsiController.register_value() == 0x07,
        PciMassStorageSubclass::NvmController.register_value() == 0x08,
        PciMassStorageSubclass::MassStorage.register_value() == 0x80,
{
}

/// The numbers of the subclasses of network controllers.
pub proof fn network_numbers()
    ensures
        PciNetworkControllerSubclass::EthernetController.register_value() == 0x00,
        PciNetworkControllerSubclass::TokenRingController.register_value() == 0x01,
        PciNetworkControllerSubclass::FddiController.register_value() == 0x02,
        PciNetworkControllerSubclass::AtmController.register_value() == 0x03,
        PciNetworkControllerSubclass::IsdnController.register_value() == 0x04,
        PciNetworkControllerSubclass::WorldFipController.register_value() == 0x05,
        PciNetworkControllerSubclass::PicmgController.register_value() == 0x06,
        PciNetworkControllerSubclass::InfinibandController.register_value() == 0x07,
        PciNetworkControllerSubclass::FabricController.register_value() == 0x08,
        PciNetworkControllerSubclass::NetworkController.register_value() == 0x80,
{
}

/// The numbers of the capabilities.
pub proof fn capability_numbers()
    ensures
        PciCapabilityId::ListId.code() == 0x00,
        PciCapabilityId::PowerManagement.code() == 0x01,
        PciCapabilityId::AcceleratedGraphicsPort.code() == 0x02,
        PciCapabilityId::VitalProductData.code() == 0x03,
        PciCapabilityId::SlotIdentification.code() == 0x04,
        PciCapabilityId::MessageSignalledInterrupts.code() == 0x05,
        PciCapabilityId::CompactPciHotSwap.code() == 0x06,
        PciCapabilityId::PciX.code() == 0x07,
        PciCapabilityId::HyperTransport.code() == 0x08,
        PciCapabilityId::VendorSpecific.code() == 0x09,
        PciCapabilityId::Debugport.code() == 0x0a,
        PciCapabilityId::CompactPciCentralResourceControl.code() == 0x0b,
        PciCapabilityId::PciStandardHotPlugController.code() == 0x0c,
        PciCapabilityId::BridgeSubsystemVendorDeviceId.code() == 0x0d,
        PciCapabilityId::AgpTargetPciPcibridge.code() == 0x0e,
        PciCapabilityId::SecureDevice.code() == 0x0f,
        PciCapabilityId::PciExpress.code() == 0x10,
        PciCapabilityId::MsiX.code() == 0x11,
        PciCapabilityId::SataDataIndexConf.code() == 0x12,
        PciCapabilityId::PciAdvancedFeatures.code() == 0x13,
        PciCapabilityId::PciEnhancedAllocation.code() == 0x14,
{
}

/// The numbers of the PCI Express capabilities.
pub proof fn express_capability_numbers()
    ensures
        PciExpressCapabilityId::NullCapability.code() == 0x0000,
        PciExpressCapabilityId::AdvancedErrorReporting.code() == 0x0001,
        PciExpressCapabilityId::VirtualChannelMultiFunctionVirtualChannelNotPresent.code() == 0x0002,
        PciExpressCapabilityId::DeviceSerialNumber.code() == 0x0003,
        PciExpressCapabilityId::PowerBudgeting.code() == 0x0004,
        PciExpressCapabilityId::RootComplexLinkDeclaration.code() == 0x0005,
        PciExpressCapabilityId::RootComplexInternalLinkControl.code() == 0x0006,
        PciExpressCapabilityId::RootComplexEventCollectorEndpointAssociation.code() == 0x0007,
        PciExpressCapabilityId::MultiFunctionVirtualChannel.code() == 0x0008,
        PciExpressCapabilityId::VirtualChannelMultiFunctionVirtualChannelPresent.code() == 0x0009,
        PciExpressCapabilityId::RootComplexRegisterBlock.code() == 0x000a,
        PciExpressCapabilityId::VendorSpecificExtendedCapability.code() == 0x000b,
        PciExpressCapabilityId::ConfigurationAccessCorrelation.code() == 0x000c,
        PciExpressCapabilityId::AccessControlServices.code() == 0x000d,
        PciExpressCapabilityId::AlternativeRoutingIdentificationInterpretation.code() == 0x000e,
        PciExpressCapabilityId::AddressTranslationServices.code() == 0x000f,
        PciExpressCapabilityId::SingleRootIoVirtualization.code() == 0x0010,
        PciExpressCapabilityId::DeprecatedMultiRootIoVirtualization.code() == 0x0011,
        PciExpressCapabilityId::Multicast.code() == 0x0012,
        PciExpressCapabilityId::PageRequestInterface.code() == 0x0013,
        PciExpressCapabilityId::ReservedForAmd.code() == 0x0014,
        PciExpressCapabilityId::ResizeableBar.code() == 0x0015,
        PciExpressCapabilityId::DynamicPowerAllocation.code() == 0x0016,
        PciExpressCapabilityId::ThpRequester.code() == 0x0017,
        PciExpressCapabilityId::LatencyToleranceReporting.code() == 0x0018,
        PciExpressCapabilityId::SecondaryPciExpress.code() == 0x0019,
        PciExpressCapabilityId::ProtocolMultiplexing.code() == 0x001a,
        PciExpressCapabilityId::ProcessAddressSpaceId.code() == 0x001b,
        PciExpressCapabilityId::LnRequester.code() == 0x001c,
        PciExpressCapabilityId::DownstreamPortContainment.code() == 0x001d,
        PciExpressCapabilityId::L1PmSubstates.code() == 0x001e,
        PciExpressCapabilityId::PrecisionTimeMeasurement.code() == 0x001f,
        PciExpressCapabilityId::PciExpressOverMphy.code() == 0x0020,
        PciExpressCapabilityId::FRSQueueing.code() == 0x0021,
        PciExpressCapabilityId::ReadinessTimeReporting.code() == 0x0022,
        PciExpressCapabilityId::DesignatedVendorSpecificExtendedCapability.code() == 0x0023,
        PciExpressCapabilityId::VfResizeableBar.code() == 0x0024,
        PciExpressCapabilityId::DataLinkFeature.code() == 0x0025,
        PciExpressCapabilityId::PhysicalLayerSixteenGts.code() == 0x0026,
        PciExpressCapabilityId::LaneMarginingAtTheReceiver.code() == 0x0027,
        PciExpressCapabilityId::HierarchyId.code() == 0x0028,
        PciExpressCapabilityId::NativePcieEnclosureManagement.code() == 0x0029,
        PciExpressCapabilityId::PhysicalLayerThirtyTwoGts.code() == 0x002a,
        PciExpressCapabilityId::AlternateProtocol.code() == 0x002b,
        PciExpressCapabilityId::SystemFirmwareIntermediary.code() == 0x002c,
        PciExpressCapabilityId::ShadowFunctions.code() == 0x002d,
        PciExpressCapabilityId::DataObjectExchange.code() == 0x002e,
        PciExpressCapabilityId::Reserved.code() == 0x002f,
        PciExpressCapabilityId::ExtendedCapabilitiesAbsence.code() == 0xffff,
{
}

/// Every number of a capability stands for that capability, and every other number for the list.
pub proof fn capability_of_number(number: u8)
    ensures
        number == 0x00 ==> <PciCapabilityId as FromSpec<u8>>::from_spec(number)
            == PciCapabilityId::ListId,
        number == 0x01 ==> <PciCapabilityId as FromSpec<u8>>::from_spec(number)
            == PciCapabilityId::PowerManagement,
        number == 0x02 ==> <PciCapabilityId as FromSpec<u8>>::from_spec(number)
            == PciCapabilityId::AcceleratedGraphicsPort,
        number == 0x03 ==> <PciCapabilityId as FromSpec<u8>>::from_spec(number)
            == PciCapabilityId::VitalProductData,
        number == 0x04 ==> <PciCapabilityId as FromSpec<u8>>::from_spec(number)
            == PciCapabilityId::SlotIdentification,
        number == 0x05 ==> <PciCapabilityId as FromSpec<u8>>::from_spec(number)
            == PciCapabilityId::MessageSignalledInterrupts,
        number == 0x06 ==> <PciCapabilityId as FromSpec<u8>>::from_spec(number)
            == PciCapabilityId::CompactPciHotSwap,
        number == 0x07 ==> <PciCapabilityId as FromSpec<u8>>::from_spec(number)
            == PciCapabilityId::PciX,
        number == 0x08 ==> <PciCapabilityId as FromSpec<u8>>::from_spec(number)
            == PciCapabilityId::HyperTransport,
        number == 0x09 ==> <PciCapabilityId as FromSpec<u8>>::from_spec(number)
            == PciCapabilityId::VendorSpecific,
        number == 0x0a ==> <PciCapabilityId as FromSpec<u8>>::from_spec(number)
            == PciCapabilityId::Debugport,
        number == 0x0b ==> <PciCapabilityId as FromSpec<u8>>::from_spec(number)
            == PciCapabilityId::CompactPciCentralResourceControl,
        number == 0x0c ==> <PciCapabilityId as FromSpec<u8>>::from_spec(number)
            == PciCapabilityId::PciStandardHotPlugController,
        number == 0x0d ==> <PciCapabilityId as FromSpec<u8>>::from_spec(number)
            == PciCapabilityId::BridgeSubsystemVendorDeviceId,
        number == 0x0e ==> <PciCapabilityId as FromSpec<u8>>::from_spec(number)
            == PciCapabilityId::AgpTargetPciPcibridge,
        number == 0x0f ==> <PciCapabilityId as FromSpec<u8>>::from_spec(number)
            == PciCapabilityId::SecureDevice,
        number == 0x10 ==> <PciCapabilityId as FromSpec<u8>>::from_spec(number)
            == PciCapabilityId::PciExpress,
        number == 0x11 ==> <PciCapabilityId as FromSpec<u8>>::from_spec(number)
            == PciCapabilityId::MsiX,
        number == 0x12 ==> <PciCapabilityId as FromSpec<u8>>::from_spec(number)
            == PciCapabilityId::SataDataIndexConf,
        number == 0x13 ==> <PciCapabilityId as FromSpec<u8>>::from_spec(number)
            == PciCapabilityId::PciAdvancedFeatures,
        number == 0x14 ==> <PciCapabilityId as FromSpec<u8>>::from_spec(number)
            == PciCapabilityId::PciEnhancedAllocation,
        number > 0x14 ==> <PciCapabilityId as FromSpec<u8>>::from_spec(number)
            == PciCapabilityId::ListId,
{
}

/// Every number of a PCI Express capability stands for that capability, and every other number is reserved.
pub proof fn express_capability_of_number(number: u16)
    ensures
        number == 0x0000 ==> <PciExpressCapabilityId as FromSpec<u16>>::from_spec(number)
            == PciExpressCapabilityId::NullCapability,
        number == 0x0001 ==> <PciExpressCapabilityId as FromSpec<u16>>::from_spec(number)
            == PciExpressCapabilityId::AdvancedErrorReporting,
        number == 0x0002 ==> <PciExpressCapabilityId as FromSpec<u16>>::from_spec(number)
            == PciExpressCapabilityId::VirtualChannelMultiFunctionVirtualChannelNotPresent,
        number == 0x0003 ==> <PciExpressCapabilityId as FromSpec<u16>>::from_spec(number)
            == PciExpressCapabilityId::DeviceSerialNumber,
        number == 0x0004 ==> <PciExpressCapabilityId as FromSpec<u16>>::from_spec(number)
            == PciExpressCapabilityId::PowerBudgeting,
        number == 0x0005 ==> <PciExpressCapabilityId as FromSpec<u16>>::from_spec(number)
            == PciExpressCapabilityId::RootComplexLinkDeclaration,
        number == 0x0006 ==> <PciExpressCapabilityId as FromSpec<u16>>::from_spec(number)
            == PciExpressCapabilityId::RootComplexInternalLinkControl,
        number == 0x0007 ==> <PciExpressCapabilityId as FromSpec<u16>>::from_spec(number)
            == PciExpressCapabilityId::RootComplexEventCollectorEndpointAssociation,
        number == 0x0008 ==> <PciExpressCapabilityId as FromSpec<u16>>::from_spec(number)
            == PciExpressCapabilityId::MultiFunctionVirtualChannel,
        number == 0x0009 ==> <PciExpressCapabilityId as FromSpec<u16>>::from_spec(number)
            == PciExpressCapabilityId::VirtualChannelMultiFunctionVirtualChannelPresent,
        number == 0x000a ==> <PciExpressCapabilityId as FromSpec<u16>>::from_spec(number)
            == PciExpressCapabilityId::RootComplexRegisterBlock,
        number == 0x000b ==> <PciExpressCapabilityId as FromSpec<u16>>::from_spec(number)
            == PciExpressCapabilityId::VendorSpecificExtendedCapability,
        number == 0x000c ==> <PciExpressCapabilityId as FromSpec<u16>>::from_spec(number)
            == PciExpressCapabilityId::ConfigurationAccessCorrelation,
        number == 0x000d ==> <PciExpressCapabilityId as FromSpec<u16>>::from_spec(number)
            == PciExpressCapabilityId::AccessControlServices,
        number == 0x000e ==> <PciExpressCapabilityId as FromSpec<u16>>::from_spec(number)
            == PciExpressCapabilityId::AlternativeRoutingIdentificationInterpretation,
        number == 0x000f ==> <PciExpressCapabilityId as FromSpec<u16>>::from_spec(number)
            == PciExpressCapabilityId::AddressTranslationServices,
        number == 0x0010 ==> <PciExpressCapabilityId as FromSpec<u16>>::from_spec(number)
            == PciExpressCapabilityId::SingleRootIoVirtualization,
        number == 0x0011 ==> <PciExpressCapabilityId as FromSpec<u16>>::from_spec(number)
            == PciExpressCapabilityId::DeprecatedMultiRootIoVirtualization,
        number == 0x0012 ==> <PciExpressCapabilityId as FromSpec<u16>>::from_spec(number)
            == PciExpressCapabilityId::Multicast,
        number == 0x0013 ==> <PciExpressCapabilityId as FromSpec<u16>>::from_spec(number)
            == PciExpressCapabilityId::PageRequestInterface,
        number == 0x0014 ==> <PciExpressCapabilityId as FromSpec<u16>>::from_spec(number)
            == PciExpressCapabilityId::ReservedForAmd,
        number == 0x0015 ==> <PciExpressCapabilityId as FromSpec<u16>>::from_spec(number)
            == PciExpressCapabilityId::ResizeableBar,
        number == 0x0016 ==> <PciExpressCapabilityId as FromSpec<u16>>::from_spec(number)
            == PciExpressCapabilityId::DynamicPowerAllocation,
        number == 0x0017 ==> <PciExpressCapabilityId as FromSpec<u16>>::from_spec(number)
            == PciExpressCapabilityId::ThpRequester,
        number == 0x0018 ==> <PciExpressCapabilityId as FromSpec<u16>>::from_spec(number)
            == PciExpressCapabilityId::LatencyToleranceReporting,
        number == 0x0019 ==> <PciExpressCapabilityId as FromSpec<u16>>::from_spec(number)
            == PciExpressCapabilityId::SecondaryPciExpress,
        number == 0x001a ==> <PciExpressCapabilityId as FromSpec<u16>>::from_spec(number)
            == PciExpressCapabilityId::ProtocolMultiplexing,
        number == 0x001b ==> <PciExpressCapabilityId as FromSpec<u16>>::from_spec(number)
            == PciExpressCapabilityId::ProcessAddressSpaceId,
        number == 0x001c ==> <PciExpressCapabilityId as FromSpec<u16>>::from_spec(number)
            == PciExpressCapabilityId::LnRequester,
        number == 0x001d ==> <PciExpressCapabilityId as FromSpec<u16>>::from_spec(number)
            == PciExpressCapabilityId::DownstreamPortContainment,
        number == 0x001e ==> <PciExpressCapabilityId as FromSpec<u16>>::from_spec(number)
            == PciExpressCapabilityId::L1PmSubstates,
        number == 0x001f ==> <PciExpressCapabilityId as FromSpec<u16>>::from_spec(number)
            == PciExpressCapabilityId::PrecisionTimeMeasurement,
        number == 0x0020 ==> <PciExpressCapabilityId as FromSpec<u16>>::from_spec(number)
            == PciExpressCapabilityId::PciExpressOverMphy,
        number == 0x0021 ==> <PciExpressCapabilityId as FromSpec<u16>>::from_spec(number)
            == PciExpressCapabilityId::FRSQueueing,
        number == 0x0022 ==> <PciExpressCapabilityId as FromSpec<u16>>::from_spec(number)
            == PciExpressCapabilityId::ReadinessTimeReporting,
        number == 0x0023 ==> <PciExpressCapabilityId as FromSpec<u16>>::from_spec(number)
            == PciExpressCapabilityId::DesignatedVendorSpecificExtendedCapability,
        number == 0x0024 ==> <PciExpressCapabilityId as FromSpec<u16>>::from_spec(number)
            == PciExpressCapabilityId::VfResizeableBar,
        number == 0x0025 ==> <PciExpressCapabilityId as FromSpec<u16>>::from_spec(number)
            == PciExpressCapabilityId::DataLinkFeature,
        number == 0x0026 ==> <PciExpressCapabilityId as FromSpec<u16>>::from_spec(number)
            == PciExpressCapabilityId::PhysicalLayerSixteenGts,
        number == 0x0027 ==> <PciExpressCapabilityId as FromSpec<u16>>::from_spec(number)
            == PciExpressCapabilityId::LaneMarginingAtTheReceiver,
        number == 0x0028 ==> <PciExpressCapabilityId as FromSpec<u16>>::from_spec(number)
            == PciExpressCapabilityId::HierarchyId,
        number == 0x0029 ==> <PciExpressCapabilityId as FromSpec<u16>>::from_spec(number)
            == PciExpressCapabilityId::NativePcieEnclosureManagement,
        number == 0x002a ==> <PciExpressCapabilityId as FromSpec<u16>>::from_spec(number)
            == PciExpressCapabilityId::PhysicalLayerThirtyTwoGts,
        number == 0x002b ==> <PciExpressCapabilityId as FromSpec<u16>>::from_spec(number)
            == PciExpressCapabilityId::AlternateProtocol,
        number == 0x002c ==> <PciExpressCapabilityId as FromSpec<u16>>::from_spec(number)
            == PciExpressCapabilityId::SystemFirmwareIntermediary,
        number == 0x002d ==> <PciExpressCapabilityId as FromSpec<u16>>::from_spec(number)
            == PciExpressCapabilityId::ShadowFunctions,
        number == 0x002e ==> <PciExpressCapabilityId as FromSpec<u16>>::from_spec(number)
            == PciExpressCapabilityId::DataObjectExchange,
        number == 0x002f ==> <PciExpressCapabilityId as FromSpec<u16>>::from_spec(number)
            == PciExpressCapabilityId::Reserved,
        number == 0xffff ==> <PciExpressCapabilityId as FromSpec<u16>>::from_spec(number)
            == PciExpressCapabilityId::ExtendedCapabilitiesAbsence,
        0x002f <= number < 0xffff ==> <PciExpressCapabilityId as FromSpec<u16>>::from_spec(number)
            == PciExpressCapabilityId::Reserved,
{
}

/// The numbers of a BAR's type and of a prefetchable region, and the latter as a truth value.
pub proof fn region_numbers()
    ensures
        PciBarRegionType::Memory32BitRegion.flags() == 0,
        PciBarRegionType::IoRegion.flags() == 1,
        PciBarRegionType::Memory64BitRegion.flags() == 4,
        PciBarPrefetchable::NotPrefetchable.flags() == 0,
        PciBarPrefetchable::Prefetchable.flags() == 8,
        <bool as FromSpec<PciBarPrefetchable>>::from_spec(PciBarPrefetchable::Prefetchable),
        !<bool as FromSpec<PciBarPrefetchable>>::from_spec(PciBarPrefetchable::NotPrefetchable),
{
}

/// The types of a BAR's region and of the resource behind it that stand for each other.
pub proof fn region_types()
    ensures
        <PciBarRegionType as FromSpec<PciBarType>>::from_spec(PciBarType::Io)
            == PciBarRegionType::IoRegion,
        <PciBarRegionType as FromSpec<PciBarType>>::from_spec(PciBarType::Mmio32)
            == PciBarRegionType::Memory32BitRegion,
        <PciBarRegionType as FromSpec<PciBarType>>::from_spec(PciBarType::Mmio64)
            == PciBarRegionType::Memory64BitRegion,
        <PciBarType as FromSpec<PciBarRegionType>>::from_spec(PciBarRegionType::IoRegion)
            == PciBarType::Io,
        <PciBarType as FromSpec<PciBarRegionType>>::from_spec(PciBarRegionType::Memory32BitRegion)
            == PciBarType::Mmio32,
        <PciBarType as FromSpec<PciBarRegionType>>::from_spec(PciBarRegionType::Memory64BitRegion)
            == PciBarType::Mmio64,
{
}

/// The numbers of the interrupt pins, counted from zero.
pub proof fn pin_numbers()
    ensures
        PciInterruptPin::IntA.number() == 0,
        PciInterruptPin::IntB.number() == 1,
        PciInterruptPin::IntC.number() == 2,
        PciInterruptPin::IntD.number() == 3,
{
}

} // verus!
