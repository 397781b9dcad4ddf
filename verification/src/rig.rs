//! All devices of a show, and the one that the editor has open.

use crate::dmx_device::{DeviceEvent, DeviceModel, DmxDevice, DmxDeviceType};
use crate::dmx_gui::GuiError;
use crate::message::DmxMessage;
use crate::universe::{compose, device_models, devices_wf, universe};
use vstd::prelude::*;

verus! {

/// The devices in the order in which they write, and the selection.
#[derive(Debug)]
pub struct Rig {
    devices: Vec<DmxDevice>,
    selected_device: Option<usize>,
}

/// What a rig is, apart from how it is stored.
pub struct RigModel {
    pub devices: Seq<DeviceModel>,
    pub selected: Option<usize>,
}

/// The device as "enable all" leaves it: the smoke machine stays off.
pub open spec fn enabled_by_all(device: DeviceModel) -> DeviceModel {
    if device.dmx_type != DmxDeviceType::Af250 {
        DeviceModel { enabled: true, ..device }
    } else {
        device
    }
}

impl RigModel {
    /// The rig's invariant: well-formed devices, and a selection that is
    /// one of them.
    pub open spec fn wf(self) -> bool {
        &&& devices_wf(self.devices)
        &&& match self.selected {
            Some(i) => i < self.devices.len(),
            None => true,
        }
    }

    /// The rig after `dt` microseconds.
    pub open spec fn ticked(self, dt: u64) -> RigModel {
        RigModel { devices: self.devices.map_values(|d: DeviceModel| d.ticked(dt)), ..self }
    }

    /// The rig after "enable all".
    pub open spec fn all_enabled(self) -> RigModel {
        RigModel { devices: self.devices.map_values(|d: DeviceModel| enabled_by_all(d)), ..self }
    }

    /// The rig after "disable all".
    pub open spec fn all_disabled(self) -> RigModel {
        RigModel {
            devices: self.devices.map_values(|d: DeviceModel| DeviceModel { enabled: false, ..d }),
            ..self
        }
    }

    /// The rig after one event at the panel of the selected device. A
    /// device that is deleted leaves the rig, and nothing is selected then.
    pub open spec fn after(self, event: DeviceEvent) -> RigModel {
        match self.selected {
            None => self,
            Some(i) => if self.devices[i as int].outcome(event) == Ok::<bool, GuiError>(true) {
                RigModel { devices: self.devices.remove(i as int), selected: None }
            } else {
                RigModel {
                    devices: self.devices.update(i as int, self.devices[i as int].after(event)),
                    ..self
                }
            },
        }
    }

    /// What the panel of the selected device answers to one event.
    pub open spec fn outcome(self, event: DeviceEvent) -> Result<bool, GuiError> {
        match self.selected {
            None => Ok(false),
            Some(i) => self.devices[i as int].outcome(event),
        }
    }
}

impl View for Rig {
    type V = RigModel;

    closed spec fn view(&self) -> RigModel {
        RigModel { devices: device_models(self.devices@), selected: self.selected_device }
    }
}

impl Rig {
    /// A rig without devices.
    pub fn new() -> (rig: Rig)
        ensures
            rig@ == (RigModel { devices: Seq::empty(), selected: None }),
            rig@.wf(),
    {
        let rig = Rig { devices: Vec::new(), selected_device: None };
        assert(rig@.devices =~= Seq::empty());
        rig
    }

    /// The devices in the order in which they write.
    pub fn devices(&self) -> (devices: &Vec<DmxDevice>)
        ensures
            device_models(devices@) == self@.devices,
    {
        &self.devices
    }

    /// The place of the device that the editor has open.
    pub fn selected_device(&self) -> (selected: Option<usize>)
        ensures
            selected == self@.selected,
    {
        self.selected_device
    }

    /// Puts a device behind the others.
    pub fn push(&mut self, device: DmxDevice)
        requires
            old(self)@.wf(),
            device@.wf(),
        ensures
            final(self)@ == (RigModel {
                devices: old(self)@.devices.push(device@),
                ..old(self)@
            }),
            final(self)@.wf(),
    {
        self.devices.push(device);
        assert(self@.devices =~= old(self)@.devices.push(device@));
    }

    /// Makes the device that the menu offers under the given kind and puts
    /// it behind the others.
    pub fn add_device(&mut self, entry: DmxDeviceType)
        requires
            old(self)@.wf(),
        ensures
            final(self)@ == (RigModel {
                devices: old(self)@.devices.push(DmxDevice::fresh(entry.made_as())),
                ..old(self)@
            }),
            final(self)@.wf(),
    {
        self.push(DmxDevice::new(entry.menu_choice()));
    }

    /// Opens the device at the given place in the editor, if there is one.
    pub fn select(&mut self, index: usize)
        requires
            old(self)@.wf(),
        ensures
            final(self)@ == (RigModel {
                selected: if index < old(self)@.devices.len() {
                    Some(index)
                } else {
                    old(self)@.selected
                },
                ..old(self)@
            }),
            final(self)@.wf(),
    {
        if index < self.devices.len() {
            self.selected_device = Some(index);
        }
    }

    /// Enables every device but the smoke machines.
    pub fn enable_all(&mut self)
        requires
            old(self)@.wf(),
        ensures
            final(self)@ == old(self)@.all_enabled(),
            final(self)@.wf(),
    {
        let count: usize = self.devices.len();
        let mut i: usize = 0;
        while i < count
            invariant
                old(self)@.wf(),
                count == self.devices@.len(),
                count == old(self)@.devices.len(),
                i <= count,
                self@.selected == old(self)@.selected,
                forall|k: int|
                    0 <= k < i ==> #[trigger] self@.devices[k] == enabled_by_all(
                        old(self)@.devices[k],
                    ),
                forall|k: int| i <= k < count ==> #[trigger] self@.devices[k] == old(self)@.devices[k],
            decreases count - i,
        {
            let ghost before = self@;
            assert(before.devices[i as int] == self.devices@[i as int]@);
            match self.devices[i].dmx_type() {
                DmxDeviceType::Af250 => {},
                _ => {
                    self.devices[i].set_enabled(true);
                },
            }
            assert(self@.devices[i as int] == self.devices@[i as int]@);
            assert forall|k: int| 0 <= k < count && k != i implies #[trigger] self@.devices[k]
                == before.devices[k] by {
                assert(self@.devices[k] == self.devices@[k]@);
            }
            i += 1;
        }
        assert(self@.devices =~= old(self)@.all_enabled().devices);
        assert forall|k: int| 0 <= k < count implies (#[trigger] self@.devices[k]).wf() by {
            assert(old(self)@.devices[k].wf());
        }
    }

    /// Disables every device.
    pub fn disable_all(&mut self)
        requires
            old(self)@.wf(),
        ensures
            final(self)@ == old(self)@.all_disabled(),
            final(self)@.wf(),
    {
        let count: usize = self.devices.len();
        let mut i: usize = 0;
        while i < count
            invariant
                old(self)@.wf(),
                count == self.devices@.len(),
                count == old(self)@.devices.len(),
                i <= count,
                self@.selected == old(self)@.selected,
                forall|k: int|
                    0 <= k < i ==> #[trigger] self@.devices[k] == (DeviceModel {
                        enabled: false,
                        ..old(self)@.devices[k]
                    }),
                forall|k: int| i <= k < count ==> #[trigger] self@.devices[k] == old(self)@.devices[k],
            decreases count - i,
        {
            let ghost before = self@;
            assert(before.devices[i as int] == self.devices@[i as int]@);
            self.devices[i].set_enabled(false);
            assert(self@.devices[i as int] == self.devices@[i as int]@);
            assert forall|k: int| 0 <= k < count && k != i implies #[trigger] self@.devices[k]
                == before.devices[k] by {
                assert(self@.devices[k] == self.devices@[k]@);
            }
            i += 1;
        }
        assert(self@.devices =~= old(self)@.all_disabled().devices);
        assert forall|k: int| 0 <= k < count implies (#[trigger] self@.devices[k]).wf() by {
            assert(old(self)@.devices[k].wf());
        }
    }

    /// One frame of the show: every device moves `dt` microseconds on, then
    /// all of them compose the universe.
    pub fn update(&mut self, dt: u64) -> (message: DmxMessage)
        requires
            old(self)@.wf(),
        ensures
            final(self)@ == old(self)@.ticked(dt),
            final(self)@.wf(),
            message.is_frame(),
            message.buffer@ == universe(final(self)@.devices),
    {
        let count: usize = self.devices.len();
        let mut i: usize = 0;
        while i < count
            invariant
                old(self)@.wf(),
                count == self.devices@.len(),
                count == old(self)@.devices.len(),
                i <= count,
                self@.selected == old(self)@.selected,
                forall|k: int|
                    0 <= k < i ==> #[trigger] self@.devices[k] == old(self)@.devices[k].ticked(dt),
                forall|k: int| i <= k < count ==> #[trigger] self@.devices[k] == old(self)@.devices[k],
            decreases count - i,
        {
            let ghost before = self@;
            assert(before.devices[i as int] == self.devices@[i as int]@);
            assert(old(self)@.devices[i as int].wf());
            self.devices[i].tick(dt);
            assert(self@.devices[i as int] == self.devices@[i as int]@);
            assert forall|k: int| 0 <= k < count && k != i implies #[trigger] self@.devices[k]
                == before.devices[k] by {
                assert(self@.devices[k] == self.devices@[k]@);
            }
            i += 1;
        }
        assert(self@.devices =~= old(self)@.ticked(dt).devices);
        assert forall|k: int| 0 <= k < count implies (#[trigger] self@.devices[k]).wf() by {
            assert(old(self)@.devices[k].wf());
            crate::dmx_device::lemma_tick_keeps_wf(old(self)@.devices[k], dt);
        }
        compose(&self.devices)
    }

    /// Carries out one event at the panel of the selected device. A device
    /// that asks to be deleted leaves the rig.
    pub fn gui(&mut self, event: &DeviceEvent) -> (outcome: Result<bool, GuiError>)
        requires
            old(self)@.wf(),
        ensures
            final(self)@ == old(self)@.after(*event),
            outcome == old(self)@.outcome(*event),
            final(self)@.wf(),
    {
        match self.selected_device {
            None => Ok(false),
            Some(i) => {
                assert(self@.devices[i as int] == self.devices@[i as int]@);
                assert(self@.devices[i as int].wf());
                let outcome: Result<bool, GuiError> = self.devices[i].gui(event);
                let delete: bool = match outcome {
                    Ok(delete) => delete,
                    Err(_) => false,
                };
                if delete {
                    self.devices.remove(i);
                    self.selected_device = None;
                    proof {
                        let goal = old(self)@.after(*event);
                        assert forall|k: int| 0 <= k < self@.devices.len() implies (
                        #[trigger] self@.devices[k]) == goal.devices[k] by {
                            assert(self@.devices[k] == self.devices@[k]@);
                            if k < i {
                                assert(old(self)@.devices[k] == old(self).devices@[k]@);
                            } else {
                                assert(old(self)@.devices[k + 1] == old(self).devices@[k + 1]@);
                            }
                        }
                        assert(self@.devices =~= goal.devices);
                        assert forall|k: int| 0 <= k < self@.devices.len() implies (
                        #[trigger] self@.devices[k]).wf() by {
                            if k < i {
                                assert(old(self)@.devices[k].wf());
                            } else {
                                assert(old(self)@.devices[k + 1].wf());
                            }
                        }
                    }
                } else {
                    proof {
                        let goal = old(self)@.after(*event);
                        assert forall|k: int| 0 <= k < self@.devices.len() implies (
                        #[trigger] self@.devices[k]) == goal.devices[k] by {
                            assert(self@.devices[k] == self.devices@[k]@);
                            assert(old(self)@.devices[k] == old(self).devices@[k]@);
                        }
                        assert(self@.devices =~= goal.devices);
                        assert forall|k: int| 0 <= k < self@.devices.len() implies (
                        #[trigger] self@.devices[k]).wf() by {
                            assert(old(self)@.devices[k].wf());
                        }
                    }
                }
                outcome
            },
        }
    }
}

} // verus!
