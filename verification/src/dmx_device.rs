//! A device: some channels at an address of the universe, each either set by
//! hand or driven by a curve.

pub mod px_hex_5;

use crate::channel::CYCLE;
use crate::dmx_gui::{generic_gui, smoke, smoke_after, GenericEvent, GenericModel, GuiError};
use crate::message::DmxMessage;
use crate::timeline::{timeline_models, timelines_wf, Timeline, TimelineModel};
use vstd::prelude::*;

verus! {

/// The length of a new device's cycle: ten seconds, in microseconds.
pub const DEFAULT_CYCLE_LENGTH: u64 = 10_000_000;

/// The most channels that a device can have: a whole universe.
pub const MAX_SIZE: u16 = 512;

/// Where a device sits in the universe: its first slot, counted from zero,
/// and the number of its slots.
#[derive(Clone, Copy, Debug, PartialEq, Eq, Structural)]
pub struct DmxAddress {
    pub address: u16,
    pub size: u16,
}

impl Default for DmxAddress {
    fn default() -> (address: DmxAddress)
        ensures
            address == (DmxAddress { address: 0, size: 0 }),
    {
        DmxAddress { address: 0, size: 0 }
    }
}

/// The kinds of device.
#[derive(Clone, Copy, Debug, PartialEq, Eq, Structural)]
pub enum DmxDeviceType {
    Generic,
    HeroSpot90,
    ShowBarTri,
    PxHex5,
    Af250,
}

impl DmxDeviceType {
    /// The kind's label as a sequence of characters.
    pub open spec fn label(&self) -> Seq<char> {
        match self {
            DmxDeviceType::Generic => "Generic"@,
            DmxDeviceType::HeroSpot90 => "Hero S"@,
            DmxDeviceType::ShowBarTri => "Show Bar Tri"@,
            DmxDeviceType::PxHex5 => "5 Px Hex"@,
            DmxDeviceType::Af250 => "Af 250 Smoke"@,
        }
    }

    /// The kind of device that the menu makes for an entry of this kind.
    /// The five-pixel hex fixture has no panel of its own and is made as a
    /// generic device.
    pub open spec fn made_as(&self) -> DmxDeviceType {
        match self {
            DmxDeviceType::PxHex5 => DmxDeviceType::Generic,
            kind => *kind,
        }
    }

    /// Picks the kind of device that the menu makes for an entry.
    pub fn menu_choice(&self) -> (kind: DmxDeviceType)
        ensures
            kind == self.made_as(),
    {
        match self {
            DmxDeviceType::PxHex5 => DmxDeviceType::Generic,
            kind => *kind,
        }
    }

    /// The kind's label.
    pub fn name(&self) -> (name: &'static str)
        ensures
            name@ == self.label(),
    {
        match self {
            DmxDeviceType::Generic => "Generic",
            DmxDeviceType::HeroSpot90 => "Hero S",
            DmxDeviceType::ShowBarTri => "Show Bar Tri",
            DmxDeviceType::PxHex5 => "5 Px Hex",
            DmxDeviceType::Af250 => "Af 250 Smoke",
        }
    }
}

/// One thing that the person at a device's panel did.
#[derive(Debug)]
pub enum DeviceEvent {
    /// The device got a new name.
    Rename(String),
    /// The device was asked to go.
    Delete,
    /// The address field was set. It counts slots from 1.
    Address(u16),
    /// The number of channels was set.
    Size(u16),
    /// The button that enables and disables the device was pressed.
    Toggle,
    /// Something happened at the panel of a generic device.
    Generic(GenericEvent),
    /// The smoke machine's panel was shown: whether its button is held, and
    /// its slider's percentage while the pointer holds it.
    Smoke { deploy: bool, intensity: Option<u8> },
}

/// A device.
#[derive(Debug)]
pub struct DmxDevice {
    enabled: bool,
    dmx_address: DmxAddress,
    name: String,
    cycle_length: u64,
    timelines: Vec<Timeline>,
    values: Vec<u8>,
    time: u32,
    dmx_type: DmxDeviceType,
}

/// What a device is, apart from how it is stored.
pub struct DeviceModel {
    /// Whether the device writes into the universe.
    pub enabled: bool,
    /// Where it writes.
    pub address: DmxAddress,
    /// The name that the person at the editor gave it.
    pub name: Seq<char>,
    /// The time that one cycle of its curves takes, in microseconds.
    pub cycle_length: u64,
    /// One timeline for each channel.
    pub timelines: Seq<TimelineModel>,
    /// One byte for each channel.
    pub values: Seq<u8>,
    /// Where the device stands in its cycle, in phase steps.
    pub time: u32,
    /// The kind of device.
    pub dmx_type: DmxDeviceType,
}

/// How far a device moves through its cycle in `dt` microseconds, in phase
/// steps, rounded down.
pub open spec fn phase_advance(cycle_length: u64, dt: u64) -> int {
    CYCLE as int * dt as int / cycle_length as int
}

impl DeviceModel {
    /// The device's invariant: as many timelines as values, each with a
    /// well-formed curve, a time within the cycle, short of its end, and an
    /// address that is a slot of the universe.
    pub open spec fn wf(self) -> bool {
        &&& self.timelines.len() == self.values.len()
        &&& timelines_wf(self.timelines)
        &&& self.time < CYCLE
        &&& self.address.address < MAX_SIZE
    }

    /// Whether the device's range lies within the universe: it starts at a
    /// slot of the universe and does not run past the last.
    pub open spec fn in_universe(self) -> bool {
        &&& self.address.address < MAX_SIZE
        &&& self.address.address + self.address.size <= MAX_SIZE
    }

    /// Where the device stands after `dt` microseconds: as far on as the
    /// time takes it, wrapped around the cycle. A device without a cycle
    /// length never leaves the start.
    pub open spec fn next_time(self, dt: u64) -> u32 {
        if self.cycle_length == 0 {
            0
        } else {
            ((self.time + phase_advance(self.cycle_length, dt)) % (CYCLE as int)) as u32
        }
    }

    /// The value of channel `i` once the device stands at `time`: the byte
    /// of its curve where the curve drives the channel, else the byte that
    /// was there.
    pub open spec fn value_at(self, i: int, time: u32) -> u8 {
        if self.timelines[i].curve.enabled {
            self.timelines[i].byte_at(time as int)
        } else {
            self.values[i]
        }
    }

    /// The timeline of channel `i` once the device stands at `time`.
    pub open spec fn timeline_at(self, i: int, time: u32) -> TimelineModel {
        if self.timelines[i].curve.enabled {
            self.timelines[i].sampled(time as int)
        } else {
            self.timelines[i]
        }
    }

    /// The device after `dt` microseconds.
    pub open spec fn ticked(self, dt: u64) -> DeviceModel {
        let time = self.next_time(dt);
        DeviceModel {
            time,
            values: Seq::new(self.values.len(), |i: int| self.value_at(i, time)),
            timelines: Seq::new(self.timelines.len(), |i: int| self.timeline_at(i, time)),
            ..self
        }
    }

    /// The channels as the panel of a generic device sees them.
    pub open spec fn panel(self) -> GenericModel {
        GenericModel {
            cycle_length: self.cycle_length,
            values: self.values,
            timelines: self.timelines,
        }
    }

    /// The last slot, counted from zero, at which a device of this size
    /// can start and still end within the universe.
    pub open spec fn last_slot(self) -> u16 {
        if self.address.size >= MAX_SIZE {
            0
        } else if self.address.size == 0 {
            (MAX_SIZE - 1) as u16
        } else {
            (MAX_SIZE - self.address.size) as u16
        }
    }

    /// The most channels that a device at this address can have and still
    /// end within the universe.
    pub open spec fn room(self) -> u16 {
        if self.address.address >= MAX_SIZE {
            0
        } else {
            (MAX_SIZE - self.address.address) as u16
        }
    }

    /// The slot, counted from zero, that the address field's number stands
    /// for. The field counts from 1, and the device is held where its range
    /// still ends within the universe.
    pub open spec fn slot_for(self, shown: u16) -> u16 {
        if shown < 1 {
            0
        } else if shown - 1 > self.last_slot() {
            self.last_slot()
        } else {
            (shown - 1) as u16
        }
    }

    /// The device with `size` channels, as many at most as the universe has
    /// room for behind the device's address: the channels that were there
    /// stay, new ones start at zero with the standard curve.
    pub open spec fn resized(self, size: u16) -> DeviceModel {
        let size = if size > self.room() {
            self.room()
        } else {
            size
        };
        DeviceModel {
            address: DmxAddress { size, ..self.address },
            values: Seq::new(
                size as nat,
                |i: int|
                    if i < self.values.len() {
                        self.values[i]
                    } else {
                        0u8
                    },
            ),
            timelines: Seq::new(
                size as nat,
                |i: int|
                    if i < self.timelines.len() {
                        self.timelines[i]
                    } else {
                        Timeline::fresh()
                    },
            ),
            ..self
        }
    }

    /// Whether the device's panel has the control that the event comes
    /// from. Only a generic device shows its size and its channels, only the
    /// smoke machine its own panel, and the smoke machine has no button to
    /// enable it.
    pub open spec fn supports(self, event: DeviceEvent) -> bool {
        match event {
            DeviceEvent::Size(_) => self.dmx_type == DmxDeviceType::Generic,
            DeviceEvent::Generic(_) => self.dmx_type == DmxDeviceType::Generic,
            DeviceEvent::Smoke { .. } => self.dmx_type == DmxDeviceType::Af250,
            DeviceEvent::Toggle => self.dmx_type != DmxDeviceType::Af250,
            _ => true,
        }
    }

    /// The device after one event at its panel. An event from a control
    /// that the panel does not have changes nothing.
    pub open spec fn after(self, event: DeviceEvent) -> DeviceModel {
        if !self.supports(event) {
            self
        } else {
            match event {
                DeviceEvent::Rename(name) => DeviceModel { name: name@, ..self },
                DeviceEvent::Delete => self,
                DeviceEvent::Address(shown) => DeviceModel {
                    address: DmxAddress { address: self.slot_for(shown), ..self.address },
                    ..self
                },
                DeviceEvent::Size(size) => self.resized(size),
                DeviceEvent::Toggle => DeviceModel { enabled: !self.enabled, ..self },
                DeviceEvent::Generic(e) => {
                    let panel = self.panel().after(e);
                    DeviceModel {
                        cycle_length: panel.cycle_length,
                        values: panel.values,
                        timelines: panel.timelines,
                        ..self
                    }
                },
                DeviceEvent::Smoke { deploy, intensity } => {
                    let (values, enabled) = smoke_after(
                        self.values,
                        self.enabled,
                        deploy,
                        intensity,
                    );
                    DeviceModel { values, enabled, ..self }
                },
            }
        }
    }

    /// What the panel answers to one event: whether the device is to be
    /// deleted, or why the event was not carried out.
    pub open spec fn outcome(self, event: DeviceEvent) -> Result<bool, GuiError> {
        if !self.supports(event) {
            Err(GuiError::Unsupported)
        } else {
            match event {
                DeviceEvent::Delete => Ok(true),
                DeviceEvent::Generic(e) => match self.panel().outcome(e) {
                    Ok(_) => Ok(false),
                    Err(e) => Err(e),
                },
                _ => Ok(false),
            }
        }
    }

    /// Whether the device has a part in a universe of `slots` slots: it is
    /// enabled, it holds as many values as its address says, and its range
    /// lies within the universe.
    pub open spec fn writes(self, slots: int) -> bool {
        &&& self.enabled
        &&& self.address.size == self.values.len()
        &&& self.address.address + self.address.size <= slots
    }

    /// Whether slot `slot` lies in the device's range.
    pub open spec fn covers(self, slot: int) -> bool {
        self.address.address <= slot < self.address.address + self.address.size
    }

    /// The universe after the device has written into it.
    pub open spec fn written(self, buffer: Seq<u8>) -> Seq<u8> {
        if self.writes(buffer.len() as int) {
            Seq::new(
                buffer.len(),
                |slot: int|
                    if self.covers(slot) {
                        self.values[slot - self.address.address]
                    } else {
                        buffer[slot]
                    },
            )
        } else {
            buffer
        }
    }
}

/// A well-formed device is well-formed after any time has passed.
pub proof fn lemma_tick_keeps_wf(device: DeviceModel, dt: u64)
    requires
        device.wf(),
    ensures
        device.ticked(dt).wf(),
{
    let after = device.ticked(dt);
    assert forall|i: int| 0 <= i < after.timelines.len() implies (#[trigger] after.timelines[i]).wf() by {
        assert(device.timelines[i].wf());
    }
}

/// No event at a device's panel pushes the device out of the universe: a
/// range that ended within the universe still does. Setting the address
/// brings any device of a universe's size at most into the universe, and
/// so does setting the size.
pub proof fn lemma_event_keeps_in_universe(device: DeviceModel, event: DeviceEvent)
    requires
        device.wf(),
    ensures
        device.after(event).address.address < MAX_SIZE,
        device.in_universe() ==> device.after(event).in_universe(),
        event is Address && device.address.size <= MAX_SIZE ==> device.after(event).in_universe(),
        event is Size && device.supports(event) ==> device.after(event).in_universe(),
{
}

/// Time does not push a device out of the universe either.
pub proof fn lemma_tick_keeps_in_universe(device: DeviceModel, dt: u64)
    ensures
        device.ticked(dt).address == device.address,
        device.in_universe() ==> device.ticked(dt).in_universe(),
{
}

/// No event at a device's panel breaks the device.
pub proof fn lemma_event_keeps_wf(device: DeviceModel, event: DeviceEvent)
    requires
        device.wf(),
    ensures
        device.after(event).wf(),
{
    let after = device.after(event);
    if device.supports(event) {
        match event {
            DeviceEvent::Size(size) => {
                assert forall|i: int| 0 <= i < after.timelines.len() implies (
                #[trigger] after.timelines[i]).wf() by {
                    if i < device.timelines.len() {
                        assert(device.timelines[i].wf());
                    }
                }
            },
            DeviceEvent::Generic(e) => {
                crate::dmx_gui::lemma_panel_event_keeps_wf(device.panel(), e);
            },
            _ => {},
        }
    }
}

impl View for DmxDevice {
    type V = DeviceModel;

    closed spec fn view(&self) -> DeviceModel {
        DeviceModel {
            enabled: self.enabled,
            address: self.dmx_address,
            name: self.name@,
            cycle_length: self.cycle_length,
            timelines: timeline_models(self.timelines@),
            values: self.values@,
            time: self.time,
            dmx_type: self.dmx_type,
        }
    }
}

impl Default for DmxDevice {
    /// A generic device without channels, disabled and named "Device".
    fn default() -> (device: DmxDevice)
        ensures
            device@ == (DeviceModel { name: "Device"@, ..DmxDevice::fresh(DmxDeviceType::Generic) }),
            device@.wf(),
            device@.in_universe(),
    {
        let device = DmxDevice {
            enabled: false,
            dmx_address: DmxAddress { address: 0, size: 0 },
            name: "Device".to_owned(),
            cycle_length: DEFAULT_CYCLE_LENGTH,
            timelines: Vec::new(),
            values: Vec::new(),
            time: 0,
            dmx_type: DmxDeviceType::Generic,
        };
        assert(device@.timelines =~= DmxDevice::fresh(DmxDeviceType::Generic).timelines);
        assert(device@.values =~= DmxDevice::fresh(DmxDeviceType::Generic).values);
        device
    }
}

impl DmxDevice {
    /// What `new` returns for a kind of device. The smoke machine comes with
    /// its one channel; every other kind starts without channels.
    pub open spec fn fresh(dmx_type: DmxDeviceType) -> DeviceModel {
        DeviceModel {
            enabled: false,
            address: DmxAddress {
                address: 0,
                size: if dmx_type == DmxDeviceType::Af250 {
                    1
                } else {
                    0
                },
            },
            name: dmx_type.label(),
            cycle_length: DEFAULT_CYCLE_LENGTH,
            timelines: if dmx_type == DmxDeviceType::Af250 {
                seq![Timeline::fresh()]
            } else {
                Seq::empty()
            },
            values: if dmx_type == DmxDeviceType::Af250 {
                seq![0u8]
            } else {
                Seq::empty()
            },
            time: 0,
            dmx_type,
        }
    }

    /// Makes a device of the given kind, disabled and named after its kind.
    pub fn new(dmx_type: DmxDeviceType) -> (device: DmxDevice)
        ensures
            device@ == DmxDevice::fresh(dmx_type),
            device@.wf(),
            device@.in_universe(),
    {
        let mut values: Vec<u8> = Vec::new();
        let mut timelines: Vec<Timeline> = Vec::new();
        let mut dmx_address = DmxAddress { address: 0, size: 0 };
        match dmx_type {
            DmxDeviceType::Af250 => {
                dmx_address = DmxAddress { address: 0, size: 1 };
                values.push(0);
                timelines.push(Timeline::new());
            },
            _ => {},
        }
        let device = DmxDevice {
            enabled: false,
            dmx_address,
            name: dmx_type.name().to_owned(),
            cycle_length: DEFAULT_CYCLE_LENGTH,
            timelines,
            values,
            time: 0,
            dmx_type,
        };
        assert(device@.timelines =~= DmxDevice::fresh(dmx_type).timelines);
        assert(device@.values =~= DmxDevice::fresh(dmx_type).values);
        device
    }

    /// Moves the device `dt` microseconds on and lets every curve that
    /// drives its channel set the channel's value.
    pub fn tick(&mut self, dt: u64)
        requires
            old(self)@.wf(),
        ensures
            final(self)@ == old(self)@.ticked(dt),
            final(self)@.wf(),
    {
        self.time = if self.cycle_length == 0 {
            0
        } else {
            let advance: u128 = (CYCLE as u128 * dt as u128) / (self.cycle_length as u128);
            let reached: u128 = self.time as u128 + advance;
            (reached % (CYCLE as u128)) as u32
        };
        let time: u32 = self.time;
        let count: usize = self.values.len();
        let mut i: usize = 0;
        while i < count
            invariant
                old(self)@.wf(),
                time == old(self)@.next_time(dt),
                count == self.values@.len(),
                count == self.timelines@.len(),
                i <= count,
                self@.time == time,
                self@.enabled == old(self)@.enabled,
                self@.address == old(self)@.address,
                self@.name == old(self)@.name,
                self@.cycle_length == old(self)@.cycle_length,
                self@.dmx_type == old(self)@.dmx_type,
                self@.values.len() == old(self)@.values.len(),
                self@.timelines.len() == old(self)@.timelines.len(),
                forall|k: int|
                    0 <= k < i ==> #[trigger] self@.values[k] == old(self)@.value_at(k, time),
                forall|k: int|
                    0 <= k < i ==> #[trigger] self@.timelines[k] == old(self)@.timeline_at(k, time),
                forall|k: int| i <= k < count ==> #[trigger] self@.values[k] == old(self)@.values[k],
                forall|k: int|
                    i <= k < count ==> #[trigger] self@.timelines[k] == old(self)@.timelines[k],
            decreases count - i,
        {
            let ghost before = self@;
            assert(before.timelines[i as int] == self.timelines@[i as int]@);
            assert(before.timelines[i as int] == old(self)@.timelines[i as int]);
            assert(before.values[i as int] == old(self)@.values[i as int]);
            if self.timelines[i].channel.is_enabled() {
                let byte: u8 = self.timelines[i].sample(time);
                self.values[i] = byte;
            }
            assert(self@.timelines[i as int] == self.timelines@[i as int]@);
            assert forall|k: int| 0 <= k < count && k != i implies #[trigger] self@.timelines[k]
                == before.timelines[k] && self@.values[k] == before.values[k] by {
                assert(self@.timelines[k] == self.timelines@[k]@);
            }
            i += 1;
        }
        assert(self@.values =~= old(self)@.ticked(dt).values);
        assert(self@.timelines =~= old(self)@.ticked(dt).timelines);
    }

    /// Copies the device's values to its place in the universe, if the
    /// device has a part in it.
    pub fn write_into(&self, dmx_message: &mut DmxMessage)
        ensures
            final(dmx_message).buffer@ == self@.written(old(dmx_message).buffer@),
    {
        let size: usize = self.dmx_address.size as usize;
        let base: usize = self.dmx_address.address as usize;
        if self.enabled && size == self.values.len() && base + size <= dmx_message.buffer.len() {
            let mut i: usize = 0;
            while i < size
                invariant
                    size == self.values@.len(),
                    size == self.dmx_address.size,
                    base == self.dmx_address.address,
                    base + size <= dmx_message.buffer@.len(),
                    dmx_message.buffer@.len() == old(dmx_message).buffer@.len(),
                    i <= size,
                    forall|slot: int|
                        0 <= slot < dmx_message.buffer@.len() ==> dmx_message.buffer@[slot] == if base
                            <= slot < base + i {
                            self.values@[slot - base]
                        } else {
                            old(dmx_message).buffer@[slot]
                        },
                decreases size - i,
            {
                dmx_message.buffer[base + i] = self.values[i];
                i += 1;
            }
            assert(dmx_message.buffer@ =~= self@.written(old(dmx_message).buffer@));
        }
    }

    /// One step of the device: `tick`, then `write_into`.
    pub fn update(&mut self, dmx_message: &mut DmxMessage, dt: u64)
        requires
            old(self)@.wf(),
        ensures
            final(self)@ == old(self)@.ticked(dt),
            final(self)@.wf(),
            final(dmx_message).buffer@ == final(self)@.written(old(dmx_message).buffer@),
    {
        self.tick(dt);
        self.write_into(dmx_message);
    }

    /// Builds a device from stored parts, if they make a well-formed
    /// device. It stands at the start of its cycle.
    pub fn from_parts(
        enabled: bool,
        dmx_address: DmxAddress,
        name: String,
        cycle_length: u64,
        timelines: Vec<Timeline>,
        values: Vec<u8>,
        dmx_type: DmxDeviceType,
    ) -> (device: Option<DmxDevice>)
        ensures
            device.is_some() == (timelines@.len() == values@.len() && timelines_wf(
                timeline_models(timelines@),
            ) && dmx_address.address < MAX_SIZE),
            device.is_some() ==> device.unwrap()@ == (DeviceModel {
                enabled,
                address: dmx_address,
                name: name@,
                cycle_length,
                timelines: timeline_models(timelines@),
                values: values@,
                time: 0,
                dmx_type,
            }) && device.unwrap()@.wf(),
    {
        if timelines.len() != values.len() || dmx_address.address >= MAX_SIZE {
            return None;
        }
        let mut i: usize = 0;
        while i < timelines.len()
            invariant
                i <= timelines@.len(),
                forall|k: int| 0 <= k < i ==> (#[trigger] timeline_models(timelines@)[k]).wf(),
            decreases timelines@.len() - i,
        {
            assert(timeline_models(timelines@)[i as int] == timelines@[i as int]@);
            if !timelines[i].channel.is_valid() {
                return None;
            }
            i += 1;
        }
        Some(
            DmxDevice {
                enabled,
                dmx_address,
                name,
                cycle_length,
                timelines,
                values,
                time: 0,
                dmx_type,
            },
        )
    }

    /// The device that `restore` makes of stored parts: the address held
    /// at the last slot of the universe, and one timeline for each value,
    /// the stored one where there is one with a well-formed curve, else a
    /// new one.
    pub open spec fn restored(
        enabled: bool,
        dmx_address: DmxAddress,
        name: Seq<char>,
        cycle_length: u64,
        timelines: Seq<TimelineModel>,
        values: Seq<u8>,
        dmx_type: DmxDeviceType,
    ) -> DeviceModel {
        DeviceModel {
            enabled,
            address: DmxAddress {
                address: if dmx_address.address >= MAX_SIZE {
                    (MAX_SIZE - 1) as u16
                } else {
                    dmx_address.address
                },
                ..dmx_address
            },
            name,
            cycle_length,
            timelines: Seq::new(
                values.len(),
                |i: int|
                    if i < timelines.len() && timelines[i].wf() {
                        timelines[i]
                    } else {
                        Timeline::fresh()
                    },
            ),
            values,
            time: 0,
            dmx_type,
        }
    }

    /// Builds a device from stored parts, whatever they are. Parts that
    /// make a well-formed device are kept as they are. Of others the values
    /// are kept, and the address and the timelines are brought in line. It
    /// stands at the start of its cycle.
    pub fn restore(
        enabled: bool,
        dmx_address: DmxAddress,
        name: String,
        cycle_length: u64,
        timelines: Vec<Timeline>,
        values: Vec<u8>,
        dmx_type: DmxDeviceType,
    ) -> (device: DmxDevice)
        ensures
            device@.wf(),
            device@ == DmxDevice::restored(
                enabled,
                dmx_address,
                name@,
                cycle_length,
                timeline_models(timelines@),
                values@,
                dmx_type,
            ),
            timelines@.len() == values@.len() && timelines_wf(timeline_models(timelines@))
                && dmx_address.address < MAX_SIZE ==> device@.address == dmx_address
                && device@.timelines == timeline_models(timelines@),
    {
        let ghost stored = timeline_models(timelines@);
        let ghost goal = DmxDevice::restored(
            enabled,
            dmx_address,
            name@,
            cycle_length,
            stored,
            values@,
            dmx_type,
        );
        let mut timelines = timelines;
        let count: usize = values.len();
        if timelines.len() > count {
            timelines.truncate(count);
        }
        let kept: usize = timelines.len();
        let mut i: usize = 0;
        while i < kept
            invariant
                kept == timelines@.len(),
                kept <= count,
                kept <= stored.len(),
                count == values@.len(),
                i <= kept,
                goal.timelines.len() == count,
                forall|k: int| 0 <= k < i ==> (#[trigger] timelines@[k])@ == goal.timelines[k],
                forall|k: int| i <= k < kept ==> (#[trigger] timelines@[k])@ == stored[k],
                forall|k: int|
                    0 <= k < count ==> #[trigger] goal.timelines[k] == if k < stored.len()
                        && stored[k].wf() {
                        stored[k]
                    } else {
                        Timeline::fresh()
                    },
            decreases kept - i,
        {
            if !timelines[i].channel.is_valid() {
                timelines.set(i, Timeline::new());
            }
            i += 1;
        }
        while timelines.len() < count
            invariant
                kept <= timelines@.len() <= count,
                kept == stored.len() || kept == count,
                kept <= stored.len(),
                count == values@.len(),
                goal.timelines.len() == count,
                forall|k: int|
                    0 <= k < timelines@.len() ==> (#[trigger] timelines@[k])@ == goal.timelines[k],
                forall|k: int|
                    0 <= k < count ==> #[trigger] goal.timelines[k] == if k < stored.len()
                        && stored[k].wf() {
                        stored[k]
                    } else {
                        Timeline::fresh()
                    },
            decreases count - timelines@.len(),
        {
            timelines.push(Timeline::new());
        }
        let address: u16 = if dmx_address.address >= MAX_SIZE {
            MAX_SIZE - 1
        } else {
            dmx_address.address
        };
        let device = DmxDevice {
            enabled,
            dmx_address: DmxAddress { address, size: dmx_address.size },
            name,
            cycle_length,
            timelines,
            values,
            time: 0,
            dmx_type,
        };
        proof {
            assert forall|k: int| 0 <= k < device@.timelines.len() implies (
            #[trigger] device@.timelines[k]) == goal.timelines[k] by {
                assert(device@.timelines[k] == device.timelines@[k]@);
            }
            assert(device@.timelines =~= goal.timelines);
            assert forall|k: int| 0 <= k < device@.timelines.len() implies (
            #[trigger] device@.timelines[k]).wf() by {
                assert(device@.timelines[k] == goal.timelines[k]);
            }
            if stored.len() == count && timelines_wf(stored) {
                assert(goal.timelines =~= stored);
            }
        }
        device
    }

    /// Whether the device writes into the universe.
    pub fn is_enabled(&self) -> (enabled: bool)
        ensures
            enabled == self@.enabled,
    {
        self.enabled
    }

    /// Lets the device write into the universe, or keeps it out.
    pub fn set_enabled(&mut self, enabled: bool)
        ensures
            final(self)@ == (DeviceModel { enabled, ..old(self)@ }),
    {
        self.enabled = enabled;
    }

    /// The device's name.
    pub fn name(&self) -> (name: &String)
        ensures
            name@ == self@.name,
    {
        &self.name
    }

    /// The kind of device.
    pub fn dmx_type(&self) -> (dmx_type: DmxDeviceType)
        ensures
            dmx_type == self@.dmx_type,
    {
        self.dmx_type
    }

    /// Where the device sits in the universe.
    pub fn address(&self) -> (address: DmxAddress)
        ensures
            address == self@.address,
    {
        self.dmx_address
    }

    /// The time that one cycle takes, in microseconds.
    pub fn cycle_length(&self) -> (cycle_length: u64)
        ensures
            cycle_length == self@.cycle_length,
    {
        self.cycle_length
    }

    /// Where the device stands in its cycle, in phase steps.
    pub fn time(&self) -> (time: u32)
        ensures
            time == self@.time,
    {
        self.time
    }

    /// The channels' values.
    pub fn values(&self) -> (values: &Vec<u8>)
        ensures
            values@ == self@.values,
    {
        &self.values
    }

    /// The channels' timelines.
    pub fn timelines(&self) -> (timelines: &Vec<Timeline>)
        ensures
            timeline_models(timelines@) == self@.timelines,
    {
        &self.timelines
    }

    /// Gives the device `size` channels, as many at most as the universe
    /// has room for behind the device's address.
    pub fn set_size(&mut self, size: u16)
        requires
            old(self)@.wf(),
        ensures
            final(self)@ == old(self)@.resized(size),
            final(self)@.wf(),
            final(self)@.in_universe(),
    {
        let room: u16 = if self.dmx_address.address >= MAX_SIZE {
            0
        } else {
            MAX_SIZE - self.dmx_address.address
        };
        let size: u16 = if size > room {
            room
        } else {
            size
        };
        let count: usize = size as usize;
        self.dmx_address.size = size;
        if self.values.len() > count {
            self.values.truncate(count);
            self.timelines.truncate(count);
        }
        while self.values.len() < count
            invariant
                old(self)@.wf(),
                self.values@.len() == self.timelines@.len(),
                self.values@.len() <= count,
                old(self)@.values.len() <= count ==> self.values@.len() >= old(self)@.values.len(),
                old(self)@.values.len() > count ==> self.values@.len() == count,
                old(self)@.values.len() == old(self)@.timelines.len(),
                self@.enabled == old(self)@.enabled,
                self@.address == (DmxAddress { size, ..old(self)@.address }),
                self@.name == old(self)@.name,
                self@.cycle_length == old(self)@.cycle_length,
                self@.dmx_type == old(self)@.dmx_type,
                self@.time == old(self)@.time,
                forall|k: int|
                    0 <= k < self.values@.len() ==> #[trigger] self.values@[k] == if k < old(
                        self,
                    )@.values.len() {
                        old(self)@.values[k]
                    } else {
                        0u8
                    },
                forall|k: int|
                    0 <= k < self.timelines@.len() ==> (#[trigger] self.timelines@[k])@ == if k
                        < old(self)@.timelines.len() {
                        old(self)@.timelines[k]
                    } else {
                        Timeline::fresh()
                    },
            decreases count - self.values@.len(),
        {
            self.values.push(0);
            self.timelines.push(Timeline::new());
        }
        proof {
            let goal = old(self)@.resized(size);
            assert(self@.values.len() == count);
            assert(self@.values =~= goal.values);
            assert forall|k: int| 0 <= k < self@.timelines.len() implies (
            #[trigger] self@.timelines[k]) == goal.timelines[k] by {
                assert(self@.timelines[k] == self.timelines@[k]@);
            }
            assert(self@.timelines =~= goal.timelines);
            assert forall|k: int| 0 <= k < self@.timelines.len() implies (
            #[trigger] self@.timelines[k]).wf() by {
                if k < old(self)@.timelines.len() {
                    assert(old(self)@.timelines[k].wf());
                }
            }
        }
    }

    /// Carries out one event at the device's panel and tells whether the
    /// device is to be deleted.
    pub fn gui(&mut self, event: &DeviceEvent) -> (outcome: Result<bool, GuiError>)
        requires
            old(self)@.wf(),
        ensures
            final(self)@ == old(self)@.after(*event),
            outcome == old(self)@.outcome(*event),
            final(self)@.wf(),
            final(self)@.address.address < MAX_SIZE,
            old(self)@.in_universe() ==> final(self)@.in_universe(),
    {
        proof {
            lemma_event_keeps_in_universe(old(self)@, *event);
        }
        match event {
            DeviceEvent::Rename(name) => {
                self.name = name.clone();
                Ok(false)
            },
            DeviceEvent::Delete => Ok(true),
            DeviceEvent::Address(shown) => {
                let shown: u16 = *shown;
                let size: u16 = self.dmx_address.size;
                let last_slot: u16 = if size >= MAX_SIZE {
                    0
                } else if size == 0 {
                    MAX_SIZE - 1
                } else {
                    MAX_SIZE - size
                };
                self.dmx_address.address = if shown < 1 {
                    0
                } else if shown - 1 > last_slot {
                    last_slot
                } else {
                    shown - 1
                };
                Ok(false)
            },
            DeviceEvent::Size(size) => {
                match self.dmx_type {
                    DmxDeviceType::Generic => {
                        self.set_size(*size);
                        Ok(false)
                    },
                    _ => Err(GuiError::Unsupported),
                }
            },
            DeviceEvent::Toggle => {
                match self.dmx_type {
                    DmxDeviceType::Af250 => Err(GuiError::Unsupported),
                    _ => {
                        self.enabled = !self.enabled;
                        Ok(false)
                    },
                }
            },
            DeviceEvent::Generic(e) => {
                match self.dmx_type {
                    DmxDeviceType::Generic => {
                        match generic_gui(
                            &mut self.cycle_length,
                            &mut self.values,
                            &mut self.timelines,
                            e,
                        ) {
                            Ok(_) => Ok(false),
                            Err(e) => Err(e),
                        }
                    },
                    _ => Err(GuiError::Unsupported),
                }
            },
            DeviceEvent::Smoke { deploy, intensity } => {
                match self.dmx_type {
                    DmxDeviceType::Af250 => {
                        smoke(&mut self.values, &mut self.enabled, *deploy, *intensity);
                        Ok(false)
                    },
                    _ => Err(GuiError::Unsupported),
                }
            },
        }
    }
}

} // verus!
