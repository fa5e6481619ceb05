//! How a PCI function signals interrupts.
use vstd::prelude::*;

verus! {

/// The interrupt pin that a function is wired to.
#[derive(Copy, Clone)]
pub enum PciInterruptPin {
    IntA,
    IntB,
    IntC,
    IntD,
}

impl PciInterruptPin {
    /// The number of the pin, counted from zero.
    pub open spec fn number(self) -> u32 {
        match self {
            PciInterruptPin::IntA => 0,
            PciInterruptPin::IntB => 1,
            PciInterruptPin::IntC => 2,
            PciInterruptPin::IntD => 3,
        }
    }

    pub fn get_number(self) -> (number: u32)
        ensures
            number == self.number(),
    {
        match self {
            PciInterruptPin::IntA => 0,
            PciInterruptPin::IntB => 1,
            PciInterruptPin::IntC => 2,
            PciInterruptPin::IntD => 3,
        }
    }
}

/// The values that the guest wrote to the message control word of the MSI-X capability, in the
/// order of the writes, until the interrupt layer takes them.
pub struct MsixConfig {
    msg_ctl: Vec<u16>,
}

impl View for MsixConfig {
    type V = Seq<u16>;

    closed spec fn view(&self) -> Seq<u16> {
        self.msg_ctl@
    }
}

impl MsixConfig {
    pub fn new() -> (msix: Self)
        ensures
            msix@ == Seq::<u16>::empty(),
    {
        MsixConfig { msg_ctl: Vec::new() }
    }

    /// Records a write of `reg` to the message control word.
    pub fn set_msg_ctl(&mut self, reg: u16)
        ensures
            final(self)@ == old(self)@.push(reg),
    {
        self.msg_ctl.push(reg);
    }

    /// Hands out the recorded writes, oldest first, and forgets them.
    pub fn take_msg_ctl(&mut self) -> (writes: Vec<u16>)
        ensures
            writes@ == old(self)@,
            final(self)@ == Seq::<u16>::empty(),
    {
        let mut writes: Vec<u16> = Vec::new();
        core::mem::swap(&mut writes, &mut self.msg_ctl);
        writes
    }
}

} // verus!
