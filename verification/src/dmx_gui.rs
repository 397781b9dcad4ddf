//! What the panels of the editor do to a device's channels. Each function
//! takes what the person at the panel did and changes the channels; drawing
//! the panel is not done here.

use crate::channel::{Curve, CurveEvent, EditError, event_outcome, CYCLE};
use crate::dmx_device::px_hex_5::{PxHex5, PxHex5Strobe};
use crate::timeline::{timeline_models, timelines_wf, Timeline, TimelineModel, GAIN_ONE};
use vstd::prelude::*;

verus! {

/// Why a panel left the device as it was.
#[derive(Clone, Copy, Debug, PartialEq, Eq, Structural)]
pub enum GuiError {
    /// The device has no channel of that number.
    NoChannel,
    /// The device's kind has no such control.
    Unsupported,
    /// A curve refused the edit.
    Edit(EditError),
}

/// The strobe channel's byte while the strobe button is up.
pub const STROBE_IDLE: u8 = 33;

/// The highest strobe rate that the panel offers.
pub const STROBE_RATES: u8 = 31;

/// The percentage that a slider shows for `value` on a scale up to
/// `value_range`, rounded down.
pub open spec fn percent_of(value: u8, value_range: u8) -> int {
    value as int * 100 / value_range as int
}

/// The value on a scale up to `value_range` that a slider at `percent`
/// stands for, rounded down and held at the top of the scale.
pub open spec fn from_percent(percent: u8, value_range: u8) -> u8 {
    if percent as int * value_range as int / 100 > value_range {
        value_range
    } else {
        (percent as int * value_range as int / 100) as u8
    }
}

/// The value after a slider was shown: where the pointer holds the slider,
/// the value that the slider's percentage stands for, else the old value.
pub open spec fn slider_value(value: u8, value_range: u8, held: Option<u8>) -> u8 {
    match held {
        Some(percent) => from_percent(percent, value_range),
        None => value,
    }
}

/// The percentage that a slider shows for a value.
pub fn slider_position(value: u8, value_range: u8) -> (percent: u32)
    requires
        value_range > 0,
    ensures
        percent as int == percent_of(value, value_range),
{
    (value as u32 * 100) / (value_range as u32)
}

/// Lets a slider set a value. `held` is the slider's percentage while the
/// pointer holds it.
pub fn slider_percent(value: &mut u8, value_range: u8, held: Option<u8>)
    ensures
        *final(value) == slider_value(*old(value), value_range, held),
{
    match held {
        Some(percent) => {
            assert(percent * value_range <= 255 * 255) by (nonlinear_arith)
                requires
                    0 <= percent <= 255,
                    0 <= value_range <= 255,
            ;
            let scaled: u32 = (percent as u32 * value_range as u32) / 100;
            *value = if scaled > value_range as u32 {
                value_range
            } else {
                scaled as u8
            };
        },
        None => {},
    }
}

/// One thing that the person at the panel of a generic device did.
#[derive(Clone, Copy, Debug, PartialEq, Eq, Structural)]
pub enum GenericEvent {
    /// A new cycle length, in microseconds.
    Cycle(u64),
    /// A channel's value was set by hand.
    Value { channel: usize, value: u8 },
    /// A channel's curve was switched on or off.
    Toggle { channel: usize },
    /// A channel's gain was set, in thousandths.
    Gain { channel: usize, gain: u32 },
    /// A channel's offset was set, in phase steps.
    Offset { channel: usize, offset: u32 },
    /// A channel's curve was edited.
    Curve { channel: usize, event: CurveEvent },
}

impl GenericEvent {
    /// The channel that the event is about, if it is about one.
    pub open spec fn channel(self) -> Option<usize> {
        match self {
            GenericEvent::Cycle(_) => None,
            GenericEvent::Value { channel, .. } => Some(channel),
            GenericEvent::Toggle { channel } => Some(channel),
            GenericEvent::Gain { channel, .. } => Some(channel),
            GenericEvent::Offset { channel, .. } => Some(channel),
            GenericEvent::Curve { channel, .. } => Some(channel),
        }
    }
}

/// What the panel of a generic device shows and changes.
pub struct GenericModel {
    pub cycle_length: u64,
    pub values: Seq<u8>,
    pub timelines: Seq<TimelineModel>,
}

/// The timeline after an event that is about it.
pub open spec fn timeline_after(timeline: TimelineModel, event: GenericEvent) -> TimelineModel {
    match event {
        GenericEvent::Toggle { .. } => TimelineModel {
            curve: Curve { enabled: !timeline.curve.enabled, ..timeline.curve },
            ..timeline
        },
        GenericEvent::Gain { gain, .. } => TimelineModel {
            gain: if gain > GAIN_ONE {
                GAIN_ONE
            } else {
                gain
            },
            ..timeline
        },
        GenericEvent::Offset { offset, .. } => TimelineModel {
            offset: if offset > CYCLE {
                CYCLE
            } else {
                offset
            },
            ..timeline
        },
        GenericEvent::Curve { event, .. } => TimelineModel {
            curve: timeline.curve.after_event(event),
            ..timeline
        },
        _ => timeline,
    }
}

impl GenericModel {
    /// The panel's invariant: one well-formed timeline for each value.
    pub open spec fn wf(self) -> bool {
        &&& self.timelines.len() == self.values.len()
        &&& timelines_wf(self.timelines)
    }

    /// The channels after one event. An event about a channel that is not
    /// there changes nothing.
    pub open spec fn after(self, event: GenericEvent) -> GenericModel {
        match event.channel() {
            None => match event {
                GenericEvent::Cycle(cycle_length) => GenericModel { cycle_length, ..self },
                _ => self,
            },
            Some(channel) => if channel < self.values.len() {
                GenericModel {
                    values: match event {
                        GenericEvent::Value { value, .. } => self.values.update(
                            channel as int,
                            value,
                        ),
                        _ => self.values,
                    },
                    timelines: self.timelines.update(
                        channel as int,
                        timeline_after(self.timelines[channel as int], event),
                    ),
                    ..self
                }
            } else {
                self
            },
        }
    }

    /// Whether one event is carried out, and if not, why.
    pub open spec fn outcome(self, event: GenericEvent) -> Result<(), GuiError> {
        match event.channel() {
            None => Ok(()),
            Some(channel) => if channel < self.values.len() {
                match event {
                    GenericEvent::Curve { event, .. } => {
                        let curve = self.timelines[channel as int].curve;
                        match event_outcome(curve.points, curve.next_id, event) {
                            Ok(_) => Ok(()),
                            Err(e) => Err(GuiError::Edit(e)),
                        }
                    },
                    _ => Ok(()),
                }
            } else {
                Err(GuiError::NoChannel)
            },
        }
    }
}

/// The panel's view of a device's cycle length, values and timelines.
pub open spec fn panel_model(
    cycle_length: u64,
    values: Seq<u8>,
    timelines: Seq<Timeline>,
) -> GenericModel {
    GenericModel { cycle_length, values, timelines: timeline_models(timelines) }
}

/// No event at the panel breaks the channels: there is still one
/// well-formed timeline for each value.
pub proof fn lemma_panel_event_keeps_wf(panel: GenericModel, event: GenericEvent)
    requires
        panel.wf(),
    ensures
        panel.after(event).wf(),
        panel.after(event).values.len() == panel.values.len(),
{
    let after = panel.after(event);
    assert forall|k: int| 0 <= k < after.timelines.len() implies (
    #[trigger] after.timelines[k]).wf() by {
        assert(panel.timelines[k].wf());
        match event {
            GenericEvent::Curve { event, .. } => {
                crate::curve_facts::lemma_event_keeps_valid(panel.timelines[k].curve, event);
            },
            _ => {},
        }
    }
}

/// Carries out one event at the panel of a generic device.
pub fn generic_gui(
    cycle_length: &mut u64,
    values: &mut Vec<u8>,
    timelines: &mut Vec<Timeline>,
    event: &GenericEvent,
) -> (outcome: Result<(), GuiError>)
    requires
        panel_model(*old(cycle_length), old(values)@, old(timelines)@).wf(),
    ensures
        panel_model(*final(cycle_length), final(values)@, final(timelines)@) == panel_model(*old(cycle_length), old(values)@, old(timelines)@).after(*event),
        outcome == panel_model(*old(cycle_length), old(values)@, old(timelines)@).outcome(*event),
        panel_model(*final(cycle_length), final(values)@, final(timelines)@).wf(),
{
    let ghost before = panel_model(*cycle_length, values@, timelines@);
    let mut outcome: Result<(), GuiError> = Ok(());
    match *event {
        GenericEvent::Cycle(length) => {
            *cycle_length = length;
        },
        GenericEvent::Value { channel, value } => {
            if channel < values.len() {
                values[channel] = value;
            } else {
                outcome = Err(GuiError::NoChannel);
            }
        },
        GenericEvent::Toggle { channel } => {
            if channel < values.len() {
                assert(before.timelines[channel as int] == timelines@[channel as int]@);
                let enabled: bool = timelines[channel].channel.is_enabled();
                timelines[channel].channel.set_enabled(!enabled);
            } else {
                outcome = Err(GuiError::NoChannel);
            }
        },
        GenericEvent::Gain { channel, gain } => {
            if channel < values.len() {
                assert(before.timelines[channel as int] == timelines@[channel as int]@);
                timelines[channel].gain = if gain > GAIN_ONE {
                    GAIN_ONE
                } else {
                    gain
                };
            } else {
                outcome = Err(GuiError::NoChannel);
            }
        },
        GenericEvent::Offset { channel, offset } => {
            if channel < values.len() {
                assert(before.timelines[channel as int] == timelines@[channel as int]@);
                timelines[channel].offset = if offset > CYCLE {
                    CYCLE
                } else {
                    offset
                };
            } else {
                outcome = Err(GuiError::NoChannel);
            }
        },
        GenericEvent::Curve { channel, event } => {
            if channel < values.len() {
                assert(before.timelines[channel as int] == timelines@[channel as int]@);
                match timelines[channel].channel.ui(&event) {
                    Ok(_) => {},
                    Err(e) => {
                        outcome = Err(GuiError::Edit(e));
                    },
                }
            } else {
                outcome = Err(GuiError::NoChannel);
            }
        },
    }
    proof {
        let after = panel_model(*cycle_length, values@, timelines@);
        match event.channel() {
            Some(channel) => {
                if channel < before.values.len() {
                    assert(after.timelines[channel as int] == timelines@[channel as int]@);
                    assert forall|k: int| 0 <= k < after.timelines.len() implies (
                    #[trigger] after.timelines[k]) == before.after(*event).timelines[k] by {
                        assert(after.timelines[k] == timelines@[k]@);
                        assert(before.timelines[k] == old(timelines)@[k]@);
                    }
                }
            },
            None => {},
        }
        assert(after.timelines =~= before.after(*event).timelines);
        assert(after.values =~= before.after(*event).values);
        lemma_panel_event_keeps_wf(before, *event);
    }
    outcome
}

/// The smoke machine's channels and switch after its panel was shown: the
/// machine runs while the button is held, and the slider sets the first
/// channel. A machine without channels is left alone.
pub open spec fn smoke_after(
    values: Seq<u8>,
    enabled: bool,
    deploy: bool,
    intensity: Option<u8>,
) -> (Seq<u8>, bool) {
    if values.len() == 0 {
        (values, enabled)
    } else {
        (values.update(0, slider_value(values[0], 255, intensity)), deploy)
    }
}

/// Shows the smoke machine's panel: `deploy` tells whether the button is
/// held, `intensity` is the slider's percentage while the pointer holds it.
pub fn smoke(values: &mut Vec<u8>, enabled: &mut bool, deploy: bool, intensity: Option<u8>)
    ensures
        (final(values)@, *final(enabled)) == smoke_after(
            old(values)@,
            *old(enabled),
            deploy,
            intensity,
        ),
{
    if values.len() == 0 {
        return ;
    }
    *enabled = deploy;
    let mut level: u8 = values[0];
    slider_percent(&mut level, 255, intensity);
    values[0] = level;
}

/// What the person at the panel of the five-pixel hex fixture did while the
/// panel was shown once. Sliders give their percentage while the pointer
/// holds them.
#[derive(Clone, Copy, Debug)]
pub struct PxHexInput {
    pub master: Option<u8>,
    /// Red, green and blue as picked, where the colour was edited.
    pub color: Option<(u8, u8, u8)>,
    pub white: Option<u8>,
    pub amber: Option<u8>,
    pub uv: Option<u8>,
    /// The strobe mode as picked, where it was picked.
    pub strobe: Option<PxHex5Strobe>,
    pub strobe_rate: Option<u8>,
    /// Whether the strobe button is held.
    pub strobe_held: bool,
}

/// The strobe setting after the panel was shown. The rate slider is there
/// only while a strobe mode is picked.
pub open spec fn px_hex_setting(setting: PxHex5, input: PxHexInput) -> PxHex5 {
    let strobe = match input.strobe {
        Some(picked) => picked,
        None => setting.strobe,
    };
    PxHex5 {
        strobe,
        strobe_value: if strobe != PxHex5Strobe::NoStrobe {
            slider_value(setting.strobe_value, STROBE_RATES, input.strobe_rate)
        } else {
            setting.strobe_value
        },
    }
}

/// Whether the strobe button sends the setting's byte.
pub open spec fn px_hex_strobes(setting: PxHex5, input: PxHexInput) -> bool {
    px_hex_setting(setting, input).strobe != PxHex5Strobe::NoStrobe && input.strobe_held
}

/// The fixture's channels after the panel was shown: three colours, white,
/// amber, ultraviolet, the master and the strobe byte; later channels stay.
pub open spec fn px_hex_values(values: Seq<u8>, setting: PxHex5, input: PxHexInput) -> Seq<u8> {
    Seq::new(
        values.len(),
        |i: int|
            if i == 0 {
                match input.color {
                    Some(rgb) => rgb.0,
                    None => values[0],
                }
            } else if i == 1 {
                match input.color {
                    Some(rgb) => rgb.1,
                    None => values[1],
                }
            } else if i == 2 {
                match input.color {
                    Some(rgb) => rgb.2,
                    None => values[2],
                }
            } else if i == 3 {
                slider_value(values[3], 255, input.white)
            } else if i == 4 {
                slider_value(values[4], 255, input.amber)
            } else if i == 5 {
                slider_value(values[5], 255, input.uv)
            } else if i == 6 {
                slider_value(values[6], 255, input.master)
            } else if i == 7 {
                if px_hex_strobes(setting, input) {
                    px_hex_setting(setting, input).dmx_value() as u8
                } else {
                    STROBE_IDLE
                }
            } else {
                values[i]
            },
    )
}

/// Shows the panel of the five-pixel hex fixture.
pub fn px_hex(values: &mut Vec<u8>, inner_data: &mut PxHex5, input: &PxHexInput)
    requires
        old(values)@.len() >= 8,
        px_hex_strobes(*old(inner_data), *input) ==> px_hex_setting(*old(inner_data), *input).fits(),
    ensures
        final(values)@ == px_hex_values(old(values)@, *old(inner_data), *input),
        *final(inner_data) == px_hex_setting(*old(inner_data), *input),
{
    let mut master: u8 = values[6];
    slider_percent(&mut master, 255, input.master);
    values[6] = master;
    match input.color {
        Some(rgb) => {
            values[0] = rgb.0;
            values[1] = rgb.1;
            values[2] = rgb.2;
        },
        None => {},
    }
    let mut white: u8 = values[3];
    slider_percent(&mut white, 255, input.white);
    values[3] = white;
    let mut amber: u8 = values[4];
    slider_percent(&mut amber, 255, input.amber);
    values[4] = amber;
    let mut uv: u8 = values[5];
    slider_percent(&mut uv, 255, input.uv);
    values[5] = uv;
    match input.strobe {
        Some(picked) => {
            inner_data.strobe = picked;
        },
        None => {},
    }
    if inner_data.strobe != PxHex5Strobe::NoStrobe {
        let mut rate: u8 = inner_data.strobe_value;
        slider_percent(&mut rate, STROBE_RATES, input.strobe_rate);
        inner_data.strobe_value = rate;
        if input.strobe_held {
            values[7] = inner_data.to_dmx_value();
        } else {
            values[7] = STROBE_IDLE;
        }
    } else {
        values[7] = STROBE_IDLE;
    }
    assert(values@ =~= px_hex_values(old(values)@, *old(inner_data), *input));
}

} // verus!
