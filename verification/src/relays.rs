//! The two power relays at the rotator.
use vstd::prelude::*;

verus! {

/// Which of the rotator's two power relays are closed: the drive (PTZ) and the
/// low-noise amplifier (LNA).
#[derive(Clone, Copy, Debug, PartialEq, Eq, Structural)]
pub struct Relays {
    pub ptz: bool,
    pub lna: bool,
}

impl Relays {
    /// Both relays open.
    pub fn new() -> (r: Relays)
        ensures
            r == (Relays { ptz: false, lna: false }),
    {
        Relays { ptz: false, lna: false }
    }

    /// Closes the drive's relay.
    pub fn ptz_on(&mut self)
        ensures
            *final(self) == (Relays { ptz: true, lna: old(self).lna }),
    {
        self.ptz = true;
    }

    /// Opens the drive's relay.
    pub fn ptz_off(&mut self)
        ensures
            *final(self) == (Relays { ptz: false, lna: old(self).lna }),
    {
        self.ptz = false;
    }

    /// Closes the amplifier's relay.
    pub fn lna_on(&mut self)
        ensures
            *final(self) == (Relays { ptz: old(self).ptz, lna: true }),
    {
        self.lna = true;
    }

    /// Opens the amplifier's relay.
    pub fn lna_off(&mut self)
        ensures
            *final(self) == (Relays { ptz: old(self).ptz, lna: false }),
    {
        self.lna = false;
    }

    /// Whether the drive has power.
    pub fn is_ptz_on(&self) -> (r: bool)
        ensures
            r == self.ptz,
    {
        self.ptz
    }

    /// Whether the amplifier has power.
    pub fn is_lna_on(&self) -> (r: bool)
        ensures
            r == self.lna,
    {
        self.lna
    }
}

} // verus!
