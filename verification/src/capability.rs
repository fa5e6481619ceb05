//! Identifiers of the capabilities that a configuration space can list.
use vstd::prelude::*;

verus! {

/// Types of PCI capabilities.
///
/// The number of a type is that of `get_register_value`, not the position of the variant.
#[derive(PartialEq, Eq, Structural, Copy, Clone, Debug)]
pub enum PciCapabilityId {
    ListId,
    PowerManagement,
    AcceleratedGraphicsPort,
    VitalProductData,
    SlotIdentification,
    MessageSignalledInterrupts,
    CompactPciHotSwap,
    PciX,
    HyperTransport,
    VendorSpecific,
    Debugport,
    CompactPciCentralResourceControl,
    PciStandardHotPlugController,
    BridgeSubsystemVendorDeviceId,
    AgpTargetPciPcibridge,
    SecureDevice,
    PciExpress,
    MsiX,
    SataDataIndexConf,
    PciAdvancedFeatures,
    PciEnhancedAllocation,
}

impl PciCapabilityId {
    /// The byte that identifies this capability in configuration space.
    pub open spec fn code(self) -> u8 {
        match self {
            PciCapabilityId::ListId => 0x00,
            PciCapabilityId::PowerManagement => 0x01,
            PciCapabilityId::AcceleratedGraphicsPort => 0x02,
            PciCapabilityId::VitalProductData => 0x03,
            PciCapabilityId::SlotIdentification => 0x04,
            PciCapabilityId::MessageSignalledInterrupts => 0x05,
            PciCapabilityId::CompactPciHotSwap => 0x06,
            PciCapabilityId::PciX => 0x07,
            PciCapabilityId::HyperTransport => 0x08,
            PciCapabilityId::VendorSpecific => 0x09,
            PciCapabilityId::Debugport => 0x0a,
            PciCapabilityId::CompactPciCentralResourceControl => 0x0b,
            PciCapabilityId::PciStandardHotPlugController => 0x0c,
            PciCapabilityId::BridgeSubsystemVendorDeviceId => 0x0d,
            PciCapabilityId::AgpTargetPciPcibridge => 0x0e,
            PciCapabilityId::SecureDevice => 0x0f,
            PciCapabilityId::PciExpress => 0x10,
            PciCapabilityId::MsiX => 0x11,
            PciCapabilityId::SataDataIndexConf => 0x12,
            PciCapabilityId::PciAdvancedFeatures => 0x13,
            PciCapabilityId::PciEnhancedAllocation => 0x14,
        }
    }

    pub fn get_register_value(self) -> (value: u8)
        ensures
            value == self.code(),
    {
        match self {
            PciCapabilityId::ListId => 0x00,
            PciCapabilityId::PowerManagement => 0x01,
            PciCapabilityId::AcceleratedGraphicsPort => 0x02,
            PciCapabilityId::VitalProductData => 0x03,
            PciCapabilityId::SlotIdentification => 0x04,
            PciCapabilityId::MessageSignalledInterrupts => 0x05,
            PciCapabilityId::CompactPciHotSwap => 0x06,
            PciCapabilityId::PciX => 0x07,
            PciCapabilityId::HyperTransport => 0x08,
            PciCapabilityId::VendorSpecific => 0x09,
            PciCapabilityId::Debugport => 0x0a,
            PciCapabilityId::CompactPciCentralResourceControl => 0x0b,
            PciCapabilityId::PciStandardHotPlugController => 0x0c,
            PciCapabilityId::BridgeSubsystemVendorDeviceId => 0x0d,
            PciCapabilityId::AgpTargetPciPcibridge => 0x0e,
            PciCapabilityId::SecureDevice => 0x0f,
            PciCapabilityId::PciExpress => 0x10,
            PciCapabilityId::MsiX => 0x11,
            PciCapabilityId::SataDataIndexConf => 0x12,
            PciCapabilityId::PciAdvancedFeatures => 0x13,
            PciCapabilityId::PciEnhancedAllocation => 0x14,
        }
    }
}

impl From<u8> for PciCapabilityId {
    fn from(c: u8) -> (id: Self) {
        match c {
            0x00 => PciCapabilityId::ListId,
            0x01 => PciCapabilityId::PowerManagement,
            0x02 => PciCapabilityId::AcceleratedGraphicsPort,
            0x03 => PciCapabilityId::VitalProductData,
            0x04 => PciCapabilityId::SlotIdentification,
            0x05 => PciCapabilityId::MessageSignalledInterrupts,
            0x06 => PciCapabilityId::CompactPciHotSwap,
            0x07 => PciCapabilityId::PciX,
            0x08 => PciCapabilityId::HyperTransport,
            0x09 => PciCapabilityId::VendorSpecific,
            0x0a => PciCapabilityId::Debugport,
            0x0b => PciCapabilityId::CompactPciCentralResourceControl,
            0x0c => PciCapabilityId::PciStandardHotPlugController,
            0x0d => PciCapabilityId::BridgeSubsystemVendorDeviceId,
            0x0e => PciCapabilityId::AgpTargetPciPcibridge,
            0x0f => PciCapabilityId::SecureDevice,
            0x10 => PciCapabilityId::PciExpress,
            0x11 => PciCapabilityId::MsiX,
            0x12 => PciCapabilityId::SataDataIndexConf,
            0x13 => PciCapabilityId::PciAdvancedFeatures,
            0x14 => PciCapabilityId::PciEnhancedAllocation,
            _ => PciCapabilityId::ListId,
        }
    }
}

impl vstd::std_specs::convert::FromSpecImpl<u8> for PciCapabilityId {
    open spec fn obeys_from_spec() -> bool {
        true
    }

    open spec fn from_spec(c: u8) -> Self {
        match c {
            0x00 => PciCapabilityId::ListId,
            0x01 => PciCapabilityId::PowerManagement,
            0x02 => PciCapabilityId::AcceleratedGraphicsPort,
            0x03 => PciCapabilityId::VitalProductData,
            0x04 => PciCapabilityId::SlotIdentification,
            0x05 => PciCapabilityId::MessageSignalledInterrupts,
            0x06 => PciCapabilityId::CompactPciHotSwap,
            0x07 => PciCapabilityId::PciX,
            0x08 => PciCapabilityId::HyperTransport,
            0x09 => PciCapabilityId::VendorSpecific,
            0x0a => PciCapabilityId::Debugport,
            0x0b => PciCapabilityId::CompactPciCentralResourceControl,
            0x0c => PciCapabilityId::PciStandardHotPlugController,
            0x0d => PciCapabilityId::BridgeSubsystemVendorDeviceId,
            0x0e => PciCapabilityId::AgpTargetPciPcibridge,
            0x0f => PciCapabilityId::SecureDevice,
            0x10 => PciCapabilityId::PciExpress,
            0x11 => PciCapabilityId::MsiX,
            0x12 => PciCapabilityId::SataDataIndexConf,
            0x13 => PciCapabilityId::PciAdvancedFeatures,
            0x14 => PciCapabilityId::PciEnhancedAllocation,
            _ => PciCapabilityId::ListId,
        }
    }
}

/// Types of PCI Express capabilities.
///
/// The number of a type is that of `get_register_value`, not the position of the variant.
#[derive(PartialEq, Eq, Structural, Copy, Clone, Debug)]
pub enum PciExpressCapabilityId {
    NullCapability,
    AdvancedErrorReporting,
    VirtualChannelMultiFunctionVirtualChannelNotPresent,
    DeviceSerialNumber,
    PowerBudgeting,
    RootComplexLinkDeclaration,
    RootComplexInternalLinkControl,
    RootComplexEventCollectorEndpointAssociation,
    MultiFunctionVirtualChannel,
    VirtualChannelMultiFunctionVirtualChannelPresent,
    RootComplexRegisterBlock,
    VendorSpecificExtendedCapability,
    ConfigurationAccessCorrelation,
    AccessControlServices,
    AlternativeRoutingIdentificationInterpretation,
    AddressTranslationServices,
    SingleRootIoVirtualization,
    DeprecatedMultiRootIoVirtualization,
    Multicast,
    PageRequestInterface,
    ReservedForAmd,
    ResizeableBar,
    DynamicPowerAllocation,
    ThpRequester,
    LatencyToleranceReporting,
    SecondaryPciExpress,
    ProtocolMultiplexing,
    ProcessAddressSpaceId,
    LnRequester,
    DownstreamPortContainment,
    L1PmSubstates,
    PrecisionTimeMeasurement,
    PciExpressOverMphy,
    FRSQueueing,
    ReadinessTimeReporting,
    DesignatedVendorSpecificExtendedCapability,
    VfResizeableBar,
    DataLinkFeature,
    PhysicalLayerSixteenGts,
    LaneMarginingAtTheReceiver,
    HierarchyId,
    NativePcieEnclosureManagement,
    PhysicalLayerThirtyTwoGts,
    AlternateProtocol,
    SystemFirmwareIntermediary,
    ShadowFunctions,
    DataObjectExchange,
    Reserved,
    ExtendedCapabilitiesAbsence,
}

impl PciExpressCapabilityId {
    /// The number that identifies this capability in extended configuration space.
    pub open spec fn code(self) -> u16 {
        match self {
            PciExpressCapabilityId::NullCapability => 0x0000,
            PciExpressCapabilityId::AdvancedErrorReporting => 0x0001,
            PciExpressCapabilityId::VirtualChannelMultiFunctionVirtualChannelNotPresent => 0x0002,
            PciExpressCapabilityId::DeviceSerialNumber => 0x0003,
            PciExpressCapabilityId::PowerBudgeting => 0x0004,
            PciExpressCapabilityId::RootComplexLinkDeclaration => 0x0005,
            PciExpressCapabilityId::RootComplexInternalLinkControl => 0x0006,
            PciExpressCapabilityId::RootComplexEventCollectorEndpointAssociation => 0x0007,
            PciExpressCapabilityId::MultiFunctionVirtualChannel => 0x0008,
            PciExpressCapabilityId::VirtualChannelMultiFunctionVirtualChannelPresent => 0x0009,
            PciExpressCapabilityId::RootComplexRegisterBlock => 0x000a,
            PciExpressCapabilityId::VendorSpecificExtendedCapability => 0x000b,
            PciExpressCapabilityId::ConfigurationAccessCorrelation => 0x000c,
            PciExpressCapabilityId::AccessControlServices => 0x000d,
            PciExpressCapabilityId::AlternativeRoutingIdentificationInterpretation => 0x000e,
            PciExpressCapabilityId::AddressTranslationServices => 0x000f,
            PciExpressCapabilityId::SingleRootIoVirtualization => 0x0010,
            PciExpressCapabilityId::DeprecatedMultiRootIoVirtualization => 0x0011,
            PciExpressCapabilityId::Multicast => 0x0012,
            PciExpressCapabilityId::PageRequestInterface => 0x0013,
            PciExpressCapabilityId::ReservedForAmd => 0x0014,
            PciExpressCapabilityId::ResizeableBar => 0x0015,
            PciExpressCapabilityId::DynamicPowerAllocation => 0x0016,
            PciExpressCapabilityId::ThpRequester => 0x0017,
            PciExpressCapabilityId::LatencyToleranceReporting => 0x0018,
            PciExpressCapabilityId::SecondaryPciExpress => 0x0019,
            PciExpressCapabilityId::ProtocolMultiplexing => 0x001a,
            PciExpressCapabilityId::ProcessAddressSpaceId => 0x001b,
            PciExpressCapabilityId::LnRequester => 0x001c,
            PciExpressCapabilityId::DownstreamPortContainment => 0x001d,
            PciExpressCapabilityId::L1PmSubstates => 0x001e,
            PciExpressCapabilityId::PrecisionTimeMeasurement => 0x001f,
            PciExpressCapabilityId::PciExpressOverMphy => 0x0020,
            PciExpressCapabilityId::FRSQueueing => 0x0021,
            PciExpressCapabilityId::ReadinessTimeReporting => 0x0022,
            PciExpressCapabilityId::DesignatedVendorSpecificExtendedCapability => 0x0023,
            PciExpressCapabilityId::VfResizeableBar => 0x0024,
            PciExpressCapabilityId::DataLinkFeature => 0x0025,
            PciExpressCapabilityId::PhysicalLayerSixteenGts => 0x0026,
            PciExpressCapabilityId::LaneMarginingAtTheReceiver => 0x0027,
            PciExpressCapabilityId::HierarchyId => 0x0028,
            PciExpressCapabilityId::NativePcieEnclosureManagement => 0x0029,
            PciExpressCapabilityId::PhysicalLayerThirtyTwoGts => 0x002a,
            PciExpressCapabilityId::AlternateProtocol => 0x002b,
            PciExpressCapabilityId::SystemFirmwareIntermediary => 0x002c,
            PciExpressCapabilityId::ShadowFunctions => 0x002d,
            PciExpressCapabilityId::DataObjectExchange => 0x002e,
            PciExpressCapabilityId::Reserved => 0x002f,
            PciExpressCapabilityId::ExtendedCapabilitiesAbsence => 0xffff,
        }
    }

    pub fn get_register_value(self) -> (value: u16)
        ensures
            value == self.code(),
    {
        match self {
            PciExpressCapabilityId::NullCapability => 0x0000,
            PciExpressCapabilityId::AdvancedErrorReporting => 0x0001,
            PciExpressCapabilityId::VirtualChannelMultiFunctionVirtualChannelNotPresent => 0x0002,
            PciExpressCapabilityId::DeviceSerialNumber => 0x0003,
            PciExpressCapabilityId::PowerBudgeting => 0x0004,
            PciExpressCapabilityId::RootComplexLinkDeclaration => 0x0005,
            PciExpressCapabilityId::RootComplexInternalLinkControl => 0x0006,
            PciExpressCapabilityId::RootComplexEventCollectorEndpointAssociation => 0x0007,
            PciExpressCapabilityId::MultiFunctionVirtualChannel => 0x0008,
            PciExpressCapabilityId::VirtualChannelMultiFunctionVirtualChannelPresent => 0x0009,
            PciExpressCapabilityId::RootComplexRegisterBlock => 0x000a,
            PciExpressCapabilityId::VendorSpecificExtendedCapability => 0x000b,
            PciExpressCapabilityId::ConfigurationAccessCorrelation => 0x000c,
            PciExpressCapabilityId::AccessControlServices => 0x000d,
            PciExpressCapabilityId::AlternativeRoutingIdentificationInterpretation => 0x000e,
            PciExpressCapabilityId::AddressTranslationServices => 0x000f,
            PciExpressCapabilityId::SingleRootIoVirtualization => 0x0010,
            PciExpressCapabilityId::DeprecatedMultiRootIoVirtualization => 0x0011,
            PciExpressCapabilityId::Multicast => 0x0012,
            PciExpressCapabilityId::PageRequestInterface => 0x0013,
            PciExpressCapabilityId::ReservedForAmd => 0x0014,
            PciExpressCapabilityId::ResizeableBar => 0x0015,
            PciExpressCapabilityId::DynamicPowerAllocation => 0x0016,
            PciExpressCapabilityId::ThpRequester => 0x0017,
            PciExpressCapabilityId::LatencyToleranceReporting => 0x0018,
            PciExpressCapabilityId::SecondaryPciExpress => 0x0019,
            PciExpressCapabilityId::ProtocolMultiplexing => 0x001a,
            PciExpressCapabilityId::ProcessAddressSpaceId => 0x001b,
            PciExpressCapabilityId::LnRequester => 0x001c,
            PciExpressCapabilityId::DownstreamPortContainment => 0x001d,
            PciExpressCapabilityId::L1PmSubstates => 0x001e,
            PciExpressCapabilityId::PrecisionTimeMeasurement => 0x001f,
            PciExpressCapabilityId::PciExpressOverMphy => 0x0020,
            PciExpressCapabilityId::FRSQueueing => 0x0021,
            PciExpressCapabilityId::ReadinessTimeReporting => 0x0022,
            PciExpressCapabilityId::DesignatedVendorSpecificExtendedCapability => 0x0023,
            PciExpressCapabilityId::VfResizeableBar => 0x0024,
            PciExpressCapabilityId::DataLinkFeature => 0x0025,
            PciExpressCapabilityId::PhysicalLayerSixteenGts => 0x0026,
            PciExpressCapabilityId::LaneMarginingAtTheReceiver => 0x0027,
            PciExpressCapabilityId::HierarchyId => 0x0028,
            PciExpressCapabilityId::NativePcieEnclosureManagement => 0x0029,
            PciExpressCapabilityId::PhysicalLayerThirtyTwoGts => 0x002a,
            PciExpressCapabilityId::AlternateProtocol => 0x002b,
            PciExpressCapabilityId::SystemFirmwareIntermediary => 0x002c,
            PciExpressCapabilityId::ShadowFunctions => 0x002d,
            PciExpressCapabilityId::DataObjectExchange => 0x002e,
            PciExpressCapabilityId::Reserved => 0x002f,
            PciExpressCapabilityId::ExtendedCapabilitiesAbsence => 0xffff,
        }
    }
}

impl From<u16> for PciExpressCapabilityId {
    fn from(c: u16) -> (id: Self) {
        match c {
            0x0000 => PciExpressCapabilityId::NullCapability,
            0x0001 => PciExpressCapabilityId::AdvancedErrorReporting,
            0x0002 => PciExpressCapabilityId::VirtualChannelMultiFunctionVirtualChannelNotPresent,
            0x0003 => PciExpressCapabilityId::DeviceSerialNumber,
            0x0004 => PciExpressCapabilityId::PowerBudgeting,
            0x0005 => PciExpressCapabilityId::RootComplexLinkDeclaration,
            0x0006 => PciExpressCapabilityId::RootComplexInternalLinkControl,
            0x0007 => PciExpressCapabilityId::RootComplexEventCollectorEndpointAssociation,
            0x0008 => PciExpressCapabilityId::MultiFunctionVirtualChannel,
            0x0009 => PciExpressCapabilityId::VirtualChannelMultiFunctionVirtualChannelPresent,
            0x000a => PciExpressCapabilityId::RootComplexRegisterBlock,
            0x000b => PciExpressCapabilityId::VendorSpecificExtendedCapability,
            0x000c => PciExpressCapabilityId::ConfigurationAccessCorrelation,
            0x000d => PciExpressCapabilityId::AccessControlServices,
            0x000e => PciExpressCapabilityId::AlternativeRoutingIdentificationInterpretation,
            0x000f => PciExpressCapabilityId::AddressTranslationServices,
            0x0010 => PciExpressCapabilityId::SingleRootIoVirtualization,
            0x0011 => PciExpressCapabilityId::DeprecatedMultiRootIoVirtualization,
            0x0012 => PciExpressCapabilityId::Multicast,
            0x0013 => PciExpressCapabilityId::PageRequestInterface,
            0x0014 => PciExpressCapabilityId::ReservedForAmd,
            0x0015 => PciExpressCapabilityId::ResizeableBar,
            0x0016 => PciExpressCapabilityId::DynamicPowerAllocation,
            0x0017 => PciExpressCapabilityId::ThpRequester,
            0x0018 => PciExpressCapabilityId::LatencyToleranceReporting,
            0x0019 => PciExpressCapabilityId::SecondaryPciExpress,
            0x001a => PciExpressCapabilityId::ProtocolMultiplexing,
            0x001b => PciExpressCapabilityId::ProcessAddressSpaceId,
            0x001c => PciExpressCapabilityId::LnRequester,
            0x001d => PciExpressCapabilityId::DownstreamPortContainment,
            0x001e => PciExpressCapabilityId::L1PmSubstates,
            0x001f => PciExpressCapabilityId::PrecisionTimeMeasurement,
            0x0020 => PciExpressCapabilityId::PciExpressOverMphy,
            0x0021 => PciExpressCapabilityId::FRSQueueing,
            0x0022 => PciExpressCapabilityId::ReadinessTimeReporting,
            0x0023 => PciExpressCapabilityId::DesignatedVendorSpecificExtendedCapability,
            0x0024 => PciExpressCapabilityId::VfResizeableBar,
            0x0025 => PciExpressCapabilityId::DataLinkFeature,
            0x0026 => PciExpressCapabilityId::PhysicalLayerSixteenGts,
            0x0027 => PciExpressCapabilityId::LaneMarginingAtTheReceiver,
            0x0028 => PciExpressCapabilityId::HierarchyId,
            0x0029 => PciExpressCapabilityId::NativePcieEnclosureManagement,
            0x002a => PciExpressCapabilityId::PhysicalLayerThirtyTwoGts,
            0x002b => PciExpressCapabilityId::AlternateProtocol,
            0x002c => PciExpressCapabilityId::SystemFirmwareIntermediary,
            0x002d => PciExpressCapabilityId::ShadowFunctions,
            0x002e => PciExpressCapabilityId::DataObjectExchange,
            0xffff => PciExpressCapabilityId::ExtendedCapabilitiesAbsence,
            _ => PciExpressCapabilityId::Reserved,
        }
    }
}

impl vstd::std_specs::convert::FromSpecImpl<u16> for PciExpressCapabilityId {
    open spec fn obeys_from_spec() -> bool {
        true
    }

    open spec fn from_spec(c: u16) -> Self {
        match c {
            0x0000 => PciExpressCapabilityId::NullCapability,
            0x0001 => PciExpressCapabilityId::AdvancedErrorReporting,
            0x0002 => PciExpressCapabilityId::VirtualChannelMultiFunctionVirtualChannelNotPresent,
            0x0003 => PciExpressCapabilityId::DeviceSerialNumber,
            0x0004 => PciExpressCapabilityId::PowerBudgeting,
            0x0005 => PciExpressCapabilityId::RootComplexLinkDeclaration,
            0x0006 => PciExpressCapabilityId::RootComplexInternalLinkControl,
            0x0007 => PciExpressCapabilityId::RootComplexEventCollectorEndpointAssociation,
            0x0008 => PciExpressCapabilityId::MultiFunctionVirtualChannel,
            0x0009 => PciExpressCapabilityId::VirtualChannelMultiFunctionVirtualChannelPresent,
            0x000a => PciExpressCapabilityId::RootComplexRegisterBlock,
            0x000b => PciExpressCapabilityId::VendorSpecificExtendedCapability,
            0x000c => PciExpressCapabilityId::ConfigurationAccessCorrelation,
            0x000d => PciExpressCapabilityId::AccessControlServices,
            0x000e => PciExpressCapabilityId::AlternativeRoutingIdentificationInterpretation,
            0x000f => PciExpressCapabilityId::AddressTranslationServices,
            0x0010 => PciExpressCapabilityId::SingleRootIoVirtualization,
            0x0011 => PciExpressCapabilityId::DeprecatedMultiRootIoVirtualization,
            0x0012 => PciExpressCapabilityId::Multicast,
            0x0013 => PciExpressCapabilityId::PageRequestInterface,
            0x0014 => PciExpressCapabilityId::ReservedForAmd,
            0x0015 => PciExpressCapabilityId::ResizeableBar,
            0x0016 => PciExpressCapabilityId::DynamicPowerAllocation,
            0x0017 => PciExpressCapabilityId::ThpRequester,
            0x0018 => PciExpressCapabilityId::LatencyToleranceReporting,
            0x0019 => PciExpressCapabilityId::SecondaryPciExpress,
            0x001a => PciExpressCapabilityId::ProtocolMultiplexing,
            0x001b => PciExpressCapabilityId::ProcessAddressSpaceId,
            0x001c => PciExpressCapabilityId::LnRequester,
            0x001d => PciExpressCapabilityId::DownstreamPortContainment,
            0x001e => PciExpressCapabilityId::L1PmSubstates,
            0x001f => PciExpressCapabilityId::PrecisionTimeMeasurement,
            0x0020 => PciExpressCapabilityId::PciExpressOverMphy,
            0x0021 => PciExpressCapabilityId::FRSQueueing,
            0x0022 => PciExpressCapabilityId::ReadinessTimeReporting,
            0x0023 => PciExpressCapabilityId::DesignatedVendorSpecificExtendedCapability,
            0x0024 => PciExpressCapabilityId::VfResizeableBar,
            0x0025 => PciExpressCapabilityId::DataLinkFeature,
            0x0026 => PciExpressCapabilityId::PhysicalLayerSixteenGts,
            0x0027 => PciExpressCapabilityId::LaneMarginingAtTheReceiver,
            0x0028 => PciExpressCapabilityId::HierarchyId,
            0x0029 => PciExpressCapabilityId::NativePcieEnclosureManagement,
            0x002a => PciExpressCapabilityId::PhysicalLayerThirtyTwoGts,
            0x002b => PciExpressCapabilityId::AlternateProtocol,
            0x002c => PciExpressCapabilityId::SystemFirmwareIntermediary,
            0x002d => PciExpressCapabilityId::ShadowFunctions,
            0x002e => PciExpressCapabilityId::DataObjectExchange,
            0xffff => PciExpressCapabilityId::ExtendedCapabilitiesAbsence,
            _ => PciExpressCapabilityId::Reserved,
        }
    }
}

/// A PCI capability list. Devices can optionally specify capabilities in their configuration space.
pub trait PciCapability {
    /// What follows the two header bytes (identifier, next pointer), as a function of the
    /// capability alone.
    closed spec fn content(&self) -> Seq<u8> {
        arbitrary()
    }

    /// The type of the capability, as a function of the capability alone.
    closed spec fn kind(&self) -> PciCapabilityId {
        arbitrary()
    }

    fn bytes(&self) -> (bytes: &[u8])
        ensures
            bytes@ == self.content(),
    ;

    fn id(&self) -> (id: PciCapabilityId)
        ensures
            id == self.kind(),
    ;
}

} // verus!
