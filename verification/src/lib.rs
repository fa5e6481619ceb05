//! The configuration space of a PCI function, as a virtual machine monitor emulates it: the
//! register file that the guest reads and writes, the BARs and capabilities behind it, and the
//! bookkeeping that moves a BAR when the guest gives it another address.
//!
//! [`space::ConfigSpace`] is the mathematical model that the contracts speak of, and
//! [`configuration::PciConfiguration`] the executable configuration space. What holds across
//! several operations is stated and proved in [`laws`], what holds of the moves of a BAR in
//! [`relocation`], and what holds of saving and restoring in [`snapshot`]. What each operation does,
//! in terms of bytes, addresses and sizes alone, is stated in [`effects`], [`moves`], [`records`]
//! and [`numbers`].
pub mod bar;
pub mod bits;
pub mod capability;
pub mod class;
pub mod configuration;
pub mod device;
pub mod effects;
pub mod error;
pub mod interrupt;
pub mod invariants;
pub mod laws;
pub mod moves;
pub mod numbers;
pub mod records;
pub mod relocation;
pub mod snapshot;
pub mod space;
pub mod state;

pub use bar::{
    decode_32_bits_bar_size, decode_64_bits_bar_size, encode_32_bits_bar_size,
    encode_64_bits_bar_size, PciBar, PciBarConfiguration, PciBarPrefetchable, PciBarRegionType,
    PciBarType,
};
pub use capability::{PciCapability, PciCapabilityId, PciExpressCapabilityId};
pub use class::{
    PciBridgeSubclass, PciClassCode, PciHeaderType, PciMassStorageSubclass, PciMultimediaSubclass,
    PciNetworkControllerSubclass, PciProgrammingInterface, PciSerialBusSubClass, PciSubclass,
};
pub use configuration::{PciConfiguration, PCI_CONFIGURATION_ID};
pub use device::{BarRelocation, BarRelocationStatus, InstallParams, ReleaseParams};
pub use error::Error;
pub use interrupt::{MsixConfig, PciInterruptPin};
pub use state::{BarReprogrammingParams, PciConfigurationState};
