//! A channel's curve together with how strongly and how late it plays.

use crate::channel::{ChannelWidget, Curve, LEVEL_SPAN};
use vstd::prelude::*;

verus! {

/// The gain that passes a curve's value on unchanged. Gains are thousandths.
pub const GAIN_ONE: u32 = 1000;

/// A full curve value under unit gain: `LEVEL_SPAN` times `GAIN_ONE`.
pub const FULL_SCALE: u64 = 100_000_000;

/// The byte that a curve value of `value` out of `LEVEL_SPAN` gives under a
/// gain of `gain` thousandths: the product scaled to 255, rounded down and
/// held at 255.
pub open spec fn channel_byte(value: int, gain: int) -> u8 {
    let scaled = value * gain * 255 / (FULL_SCALE as int);
    if scaled > 255 {
        255u8
    } else if scaled < 0 {
        0u8
    } else {
        scaled as u8
    }
}

/// Computes the byte for a curve value under a gain.
pub fn to_channel_byte(value: u32, gain: u32) -> (byte: u8)
    ensures
        byte == channel_byte(value as int, gain as int),
{
    assert(0 <= value * gain * 255 <= 0xffff_ffff * 0xffff_ffff * 255 && 0 <= value * gain
        <= 0xffff_ffff * 0xffff_ffff) by (nonlinear_arith)
        requires
            0 <= value <= 0xffff_ffff,
            0 <= gain <= 0xffff_ffff,
    ;
    let product: u128 = value as u128 * gain as u128 * 255;
    let scaled: u128 = product / (FULL_SCALE as u128);
    if scaled > 255 {
        255
    } else {
        scaled as u8
    }
}

/// One channel of a device: its curve, a gain in thousandths and an offset
/// in phase steps.
#[derive(Clone, Debug)]
pub struct Timeline {
    pub channel: ChannelWidget,
    pub gain: u32,
    pub offset: u32,
}

/// What a timeline is, apart from how it is stored.
pub struct TimelineModel {
    pub curve: Curve,
    pub gain: u32,
    pub offset: u32,
}

impl TimelineModel {
    /// The timeline's invariant: its curve is well-formed.
    pub open spec fn wf(self) -> bool {
        self.curve.wf()
    }

    /// The channel byte when the device stands at `time`.
    pub open spec fn byte_at(self, time: int) -> u8 {
        channel_byte(self.curve.value(time + self.offset), self.gain as int)
    }

    /// The timeline after its curve was evaluated for device time `time`.
    pub open spec fn sampled(self, time: int) -> TimelineModel {
        TimelineModel { curve: self.curve.updated(time + self.offset), ..self }
    }
}

impl View for Timeline {
    type V = TimelineModel;

    open spec fn view(&self) -> TimelineModel {
        TimelineModel { curve: self.channel@, gain: self.gain, offset: self.offset }
    }
}

/// The models of a row of timelines.
pub open spec fn timeline_models(timelines: Seq<Timeline>) -> Seq<TimelineModel> {
    timelines.map_values(|t: Timeline| t@)
}

/// Whether every timeline of a row is well-formed.
pub open spec fn timelines_wf(timelines: Seq<TimelineModel>) -> bool {
    forall|i: int| 0 <= i < timelines.len() ==> (#[trigger] timelines[i]).wf()
}

impl Timeline {
    /// A timeline with the standard curve at full gain and no offset.
    pub fn new() -> (timeline: Timeline)
        ensures
            timeline@.wf(),
            timeline@ == Timeline::fresh(),
    {
        Timeline { channel: ChannelWidget::new(), gain: GAIN_ONE, offset: 0 }
    }

    /// What `new` returns.
    pub open spec fn fresh() -> TimelineModel {
        TimelineModel { curve: ChannelWidget::fresh(), gain: GAIN_ONE, offset: 0 }
    }

    /// Evaluates the curve for the device time and gives the channel byte.
    pub fn sample(&mut self, time: u32) -> (byte: u8)
        requires
            old(self)@.wf(),
        ensures
            byte == old(self)@.byte_at(time as int),
            final(self)@ == old(self)@.sampled(time as int),
            final(self)@.wf(),
    {
        let value: u32 = self.channel.update(time as u64 + self.offset as u64);
        to_channel_byte(value, self.gain)
    }
}

} // verus!
