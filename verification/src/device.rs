//! The plans that move a BAR from one guest-physical location to another.
use crate::bar::PciBarRegionType;
use vstd::prelude::*;

verus! {

/// Describes a BAR mapping that must be released (its old guest-physical
/// location torn down) because the guest reprogrammed the BAR address while
/// the decode bit of its space was off, or as the release half of an
/// immediate (decode-on) relocation.
#[derive(Clone, Copy, Debug)]
pub struct ReleaseParams {
    /// The BAR slot being released (the low/primary slot for a 64-bit BAR,
    /// ROM_BAR_IDX for the expansion ROM).
    pub bar_idx: usize,
    /// The address the BAR is currently materialized at.
    pub base: u64,
    pub len: u64,
    pub region_type: PciBarRegionType,
}

/// Describes a BAR mapping that must be installed at its new guest-physical
/// location. The device-side commit derives the released-from
/// address from its own records, which the release is forbidden to mutate;
/// `old_base` travels here only to anchor the *allocator* to the BAR's
/// PCI segment (see the field doc) and is not consumed by the device side.
#[derive(Clone, Copy, Debug)]
pub struct InstallParams {
    /// The BAR slot being installed (the low/primary slot for a 64-bit BAR,
    /// ROM_BAR_IDX for the expansion ROM).
    pub bar_idx: usize,
    /// The address the BAR was released from. Its MMIO allocator window is
    /// the device's PCI segment aperture: a device cannot decode outside its
    /// own segment, so the install must allocate `new_base` from that same
    /// window and reject a target that falls outside it.
    pub old_base: u64,
    pub new_base: u64,
    pub len: u64,
    pub region_type: PciBarRegionType,
}

/// A relocation plan emitted by `write_config_register`. Because release and
/// install happen on *different* config-register writes when the decode bit
/// is off (release on the BAR address change, install on the decode-enable
/// edge), a single write can produce releases, installs, or both (the
/// immediate decode-on case).
#[derive(Clone, Debug)]
pub struct BarRelocation {
    pub release: Vec<ReleaseParams>,
    pub install: Vec<InstallParams>,
}

/// The steps of a relocation plan, in order.
#[verifier::ext_equal]
pub struct Plan {
    pub release: Seq<ReleaseParams>,
    pub install: Seq<InstallParams>,
}

impl Plan {
    /// The plan that asks for nothing.
    pub open spec fn nothing() -> Plan {
        Plan { release: Seq::empty(), install: Seq::empty() }
    }

    /// The steps of this plan followed by those of `next`.
    pub open spec fn followed_by(self, next: Plan) -> Plan {
        Plan { release: self.release + next.release, install: self.install + next.install }
    }
}

impl View for BarRelocation {
    type V = Plan;

    open spec fn view(&self) -> Plan {
        Plan { release: self.release@, install: self.install@ }
    }
}

impl Default for BarRelocation {
    fn default() -> (reloc: Self)
        ensures
            reloc@ == Plan::nothing(),
            reloc.release@.len() == 0,
            reloc.install@.len() == 0,
    {
        BarRelocation { release: Vec::new(), install: Vec::new() }
    }
}

impl BarRelocation {
    pub fn is_empty(&self) -> (empty: bool)
        ensures
            empty == (self@ == Plan::nothing()),
            empty == (self.release@.len() == 0 && self.install@.len() == 0),
    {
        proof {
            if self.release@.len() == 0 && self.install@.len() == 0 {
                assert(self@ =~= Plan::nothing());
            }
        }
        self.release.is_empty() && self.install.is_empty()
    }
}

/// Outcome of an attempted BAR install, reported back to the device so its
/// config-space bookkeeping can follow what actually happened.
#[derive(Clone, Copy, Debug)]
pub enum BarRelocationStatus {
    /// The BAR is now mapped at `base`.
    Applied { base: u64 },
    /// The install failed and the BAR is currently not mapped anywhere. It
    /// stays pending and is retried at the guest's next decode-enable edge.
    Pending,
}

} // verus!
