//! The strobe channel of the five-pixel hex fixture.

use vstd::prelude::*;

verus! {

/// The fixture's strobe modes.
#[derive(Clone, Copy, Debug, PartialEq, Eq, Structural)]
pub enum PxHex5Strobe {
    NoStrobe,
    Strobe,
    StrobePuls,
    StrobeRandom,
}

impl PxHex5Strobe {
    /// The mode's label as a sequence of characters.
    pub open spec fn label(&self) -> Seq<char> {
        match self {
            PxHex5Strobe::NoStrobe => "Strobe Off"@,
            PxHex5Strobe::Strobe => "Strobe"@,
            PxHex5Strobe::StrobePuls => "Strobe Puls"@,
            PxHex5Strobe::StrobeRandom => "Strobe Random"@,
        }
    }

    /// The lowest byte of the band that the fixture reads as this mode.
    pub open spec fn band(&self) -> int {
        match self {
            PxHex5Strobe::NoStrobe => 0,
            PxHex5Strobe::Strobe => 64,
            PxHex5Strobe::StrobePuls => 128,
            PxHex5Strobe::StrobeRandom => 192,
        }
    }

    /// The mode's label.
    pub fn name(&self) -> (name: &'static str)
        ensures
            name@ == self.label(),
    {
        match self {
            PxHex5Strobe::NoStrobe => "Strobe Off",
            PxHex5Strobe::Strobe => "Strobe",
            PxHex5Strobe::StrobePuls => "Strobe Puls",
            PxHex5Strobe::StrobeRandom => "Strobe Random",
        }
    }
}

impl Default for PxHex5Strobe {
    fn default() -> (strobe: PxHex5Strobe)
        ensures
            strobe == PxHex5Strobe::NoStrobe,
    {
        PxHex5Strobe::NoStrobe
    }
}

/// The strobe setting of one fixture: a mode and a rate within the mode.
#[derive(Clone, Copy, Debug, PartialEq, Eq, Structural)]
pub struct PxHex5 {
    pub strobe: PxHex5Strobe,
    pub strobe_value: u8,
}

impl PxHex5 {
    /// The byte that selects the mode and rate: nothing without strobe,
    /// else the rate counted up from the start of the mode's band.
    pub open spec fn dmx_value(&self) -> int {
        match self.strobe {
            PxHex5Strobe::NoStrobe => 0,
            _ => self.strobe.band() + self.strobe_value,
        }
    }

    /// Whether the setting's byte exists: the rate must not lead past 255.
    pub open spec fn fits(&self) -> bool {
        self.dmx_value() <= 255
    }

    /// The byte to put on the fixture's strobe channel.
    pub fn to_dmx_value(&self) -> (value: u8)
        requires
            self.fits(),
        ensures
            value as int == self.dmx_value(),
    {
        match self.strobe {
            PxHex5Strobe::NoStrobe => 0,
            PxHex5Strobe::Strobe => 64 + self.strobe_value,
            PxHex5Strobe::StrobePuls => 128 + self.strobe_value,
            PxHex5Strobe::StrobeRandom => 192 + self.strobe_value,
        }
    }
}

impl Default for PxHex5 {
    fn default() -> (setting: PxHex5)
        ensures
            setting == (PxHex5 { strobe: PxHex5Strobe::NoStrobe, strobe_value: 0 }),
    {
        PxHex5 { strobe: PxHex5Strobe::NoStrobe, strobe_value: 0 }
    }
}

} // verus!
