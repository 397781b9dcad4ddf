//! The universe buffer as it travels between the composer and the relay.

use vstd::prelude::*;

verus! {

/// Number of channel slots in one universe.
pub const UNIVERSE_SIZE: usize = 512;

/// One snapshot of the universe, the unit that is sent to the relay.
#[derive(Clone, Debug)]
pub struct DmxMessage {
    pub buffer: Vec<u8>,
}

impl DmxMessage {
    /// Whether the buffer holds exactly one universe.
    pub open spec fn is_frame(&self) -> bool {
        self.buffer@.len() == UNIVERSE_SIZE
    }

    /// A complete frame with every slot at zero.
    pub fn blank() -> (message: DmxMessage)
        ensures
            message.is_frame(),
            forall|i: int| 0 <= i < UNIVERSE_SIZE ==> message.buffer@[i] == 0,
    {
        let mut buffer: Vec<u8> = Vec::new();
        while buffer.len() < UNIVERSE_SIZE
            invariant
                buffer@.len() <= UNIVERSE_SIZE,
                forall|i: int| 0 <= i < buffer@.len() ==> buffer@[i] == 0,
            decreases UNIVERSE_SIZE - buffer@.len(),
        {
            buffer.push(0);
        }
        DmxMessage { buffer }
    }

    /// Tells a complete frame from a buffer of any other length.
    pub fn is_complete(&self) -> (complete: bool)
        ensures
            complete == self.is_frame(),
    {
        self.buffer.len() == UNIVERSE_SIZE
    }
}

impl Default for DmxMessage {
    fn default() -> (message: DmxMessage)
        ensures
            message.buffer@.len() == 0,
    {
        DmxMessage { buffer: Vec::new() }
    }
}

/// A six-colour fixture setting.
#[derive(Clone, Copy, Debug)]
pub struct DmxColor {
    pub rgb: [u8; 3],
    pub white: u8,
    pub amber: u8,
    pub uv: u8,
}

impl DmxColor {
    /// The twelve channel bytes of the fixture as a sequence: the six colours,
    /// two channels held at full, four held at zero.
    pub open spec fn dmx_spec(self) -> Seq<u8> {
        seq![
            self.rgb@[0],
            self.rgb@[1],
            self.rgb@[2],
            self.white,
            self.amber,
            self.uv,
            0xffu8,
            0xffu8,
            0u8,
            0u8,
            0u8,
            0u8,
        ]
    }

    /// Lays the colour out as the fixture's twelve channel bytes.
    pub fn dmx(self) -> (out: [u8; 12])
        ensures
            out@ == self.dmx_spec(),
    {
        let out: [u8; 12] = [
            self.rgb[0],
            self.rgb[1],
            self.rgb[2],
            self.white,
            self.amber,
            self.uv,
            0xff,
            0xff,
            0x00,
            0x00,
            0x00,
            0x00,
        ];
        assert(out@ =~= self.dmx_spec());
        out
    }
}

impl Default for DmxColor {
    fn default() -> (color: DmxColor)
        ensures
            color.rgb@ == seq![0u8, 0u8, 0u8],
            color.white == 0,
            color.amber == 0,
            color.uv == 0,
    {
        let color = DmxColor { rgb: [0, 0, 0], white: 0, amber: 0, uv: 0 };
        assert(color.rgb@ =~= seq![0u8, 0u8, 0u8]);
        color
    }
}

} // verus!
