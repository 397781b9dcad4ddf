//! The universe as the devices compose it: every slot holds the byte of the
//! last device that writes there, and zero where none does.

use crate::dmx_device::{DeviceModel, DmxDevice};
use crate::message::{DmxMessage, UNIVERSE_SIZE};
use vstd::prelude::*;

verus! {

/// Whether the device writes to the slot of a whole universe.
pub open spec fn writes_slot(device: DeviceModel, slot: int) -> bool {
    device.writes(UNIVERSE_SIZE as int) && device.covers(slot)
}

/// The last of the first `n` devices that writes to the slot, if any does.
pub open spec fn last_writer(devices: Seq<DeviceModel>, slot: int, n: nat) -> Option<int>
    decreases n,
{
    if n == 0 {
        None
    } else if writes_slot(devices[n - 1], slot) {
        Some(n - 1)
    } else {
        last_writer(devices, slot, (n - 1) as nat)
    }
}

/// The byte in the slot once the first `n` devices have written.
pub open spec fn slot_value(devices: Seq<DeviceModel>, slot: int, n: nat) -> u8 {
    match last_writer(devices, slot, n) {
        Some(k) => devices[k].values[slot - devices[k].address.address],
        None => 0u8,
    }
}

/// The universe once the first `n` devices have written.
pub open spec fn universe_of(devices: Seq<DeviceModel>, n: nat) -> Seq<u8> {
    Seq::new(UNIVERSE_SIZE as nat, |slot: int| slot_value(devices, slot, n))
}

/// The universe that the devices compose.
pub open spec fn universe(devices: Seq<DeviceModel>) -> Seq<u8> {
    universe_of(devices, devices.len())
}

/// The models of a row of devices.
pub open spec fn device_models(devices: Seq<DmxDevice>) -> Seq<DeviceModel> {
    devices.map_values(|d: DmxDevice| d@)
}

/// Whether every device of a row is well-formed.
pub open spec fn devices_wf(devices: Seq<DeviceModel>) -> bool {
    forall|i: int| 0 <= i < devices.len() ==> (#[trigger] devices[i]).wf()
}

/// One more device writes over the universe of those before it.
pub proof fn lemma_universe_step(devices: Seq<DeviceModel>, n: nat)
    requires
        n < devices.len(),
    ensures
        universe_of(devices, n + 1) == devices[n as int].written(universe_of(devices, n)),
{
    let device = devices[n as int];
    let before = universe_of(devices, n);
    assert(universe_of(devices, n + 1) =~= device.written(before));
}

/// Composes the universe: starts from zero in every slot and lets each
/// device in turn write its values.
pub fn compose(devices: &Vec<DmxDevice>) -> (message: DmxMessage)
    ensures
        message.is_frame(),
        message.buffer@ == universe(device_models(devices@)),
{
    let mut message = DmxMessage::blank();
    let ghost models = device_models(devices@);
    assert(message.buffer@ =~= universe_of(models, 0));
    let mut i: usize = 0;
    while i < devices.len()
        invariant
            i <= devices@.len(),
            models == device_models(devices@),
            message.buffer@ == universe_of(models, i as nat),
        decreases devices@.len() - i,
    {
        proof {
            lemma_universe_step(models, i as nat);
            assert(models[i as int] == devices@[i as int]@);
        }
        devices[i].write_into(&mut message);
        i += 1;
    }
    message
}

/// A disabled device leaves no trace: whatever values it holds, and
/// wherever it sits, the universe is the same, and every slot holds zero or
/// a byte of some other device.
pub proof fn lemma_disabled_device_is_absent(
    devices: Seq<DeviceModel>,
    k: int,
    other: DeviceModel,
)
    requires
        0 <= k < devices.len(),
        !devices[k].enabled,
        !other.enabled,
    ensures
        universe(devices.update(k, other)) == universe(devices),
        forall|slot: int|
            0 <= slot < UNIVERSE_SIZE ==> #[trigger] universe(devices)[slot] == 0 || exists|j: int|
                0 <= j < devices.len() && j != k && writes_slot(devices[j], slot) && universe(
                    devices,
                )[slot] == devices[j].values[slot - devices[j].address.address],
{
    let changed = devices.update(k, other);
    assert forall|slot: int| 0 <= slot < UNIVERSE_SIZE implies universe(changed)[slot] == universe(
        devices,
    )[slot] by {
        lemma_last_writer_skips_disabled(devices, k, other, slot, devices.len());
    }
    assert(universe(changed) =~= universe(devices));
    assert forall|slot: int| 0 <= slot < UNIVERSE_SIZE implies #[trigger] universe(devices)[slot]
        == 0 || exists|j: int|
        0 <= j < devices.len() && j != k && writes_slot(devices[j], slot) && universe(
            devices,
        )[slot] == devices[j].values[slot - devices[j].address.address] by {
        lemma_last_writer_writes(devices, slot, devices.len());
        match last_writer(devices, slot, devices.len()) {
            Some(j) => {
                assert(writes_slot(devices[j], slot));
            },
            None => {},
        }
    }
}

/// The last writer of a slot is one of the devices, and it writes there.
pub proof fn lemma_last_writer_writes(devices: Seq<DeviceModel>, slot: int, n: nat)
    requires
        n <= devices.len(),
    ensures
        match last_writer(devices, slot, n) {
            Some(j) => 0 <= j < n && writes_slot(devices[j], slot),
            None => forall|j: int| 0 <= j < n ==> !writes_slot(#[trigger] devices[j], slot),
        },
    decreases n,
{
    if n > 0 && !writes_slot(devices[n - 1], slot) {
        lemma_last_writer_writes(devices, slot, (n - 1) as nat);
    }
}

/// Replacing a disabled device by another disabled device changes no slot.
proof fn lemma_last_writer_skips_disabled(
    devices: Seq<DeviceModel>,
    k: int,
    other: DeviceModel,
    slot: int,
    n: nat,
)
    requires
        0 <= k < devices.len(),
        !devices[k].enabled,
        !other.enabled,
        n <= devices.len(),
    ensures
        last_writer(devices.update(k, other), slot, n) == last_writer(devices, slot, n),
        slot_value(devices.update(k, other), slot, n) == slot_value(devices, slot, n),
    decreases n,
{
    if n > 0 {
        lemma_last_writer_skips_disabled(devices, k, other, slot, (n - 1) as nat);
        lemma_last_writer_writes(devices, slot, n);
    }
}

/// A slot that no device writes to holds zero.
pub proof fn lemma_unwritten_slot_is_zero(devices: Seq<DeviceModel>, slot: int)
    requires
        0 <= slot < UNIVERSE_SIZE,
        forall|j: int| 0 <= j < devices.len() ==> !writes_slot(#[trigger] devices[j], slot),
    ensures
        universe(devices)[slot] == 0,
{
    lemma_last_writer_writes(devices, slot, devices.len());
}

/// Where two devices write to the same slot, the later one wins: the slot
/// holds the byte of the last device that writes there, whatever any
/// earlier device holds.
pub proof fn lemma_later_device_wins(devices: Seq<DeviceModel>, i: int, j: int, slot: int)
    requires
        0 <= i < j < devices.len(),
        0 <= slot < UNIVERSE_SIZE,
        writes_slot(devices[i], slot),
        writes_slot(devices[j], slot),
        forall|k: int| j < k < devices.len() ==> !writes_slot(#[trigger] devices[k], slot),
    ensures
        universe(devices)[slot] == devices[j].values[slot - devices[j].address.address],
{
    lemma_last_writer_is(devices, j, slot, devices.len());
}

/// The last writer is the device after which no device writes to the slot.
proof fn lemma_last_writer_is(devices: Seq<DeviceModel>, j: int, slot: int, n: nat)
    requires
        0 <= j < n <= devices.len(),
        writes_slot(devices[j], slot),
        forall|k: int| j < k < devices.len() ==> !writes_slot(#[trigger] devices[k], slot),
    ensures
        last_writer(devices, slot, n) == Some(j),
    decreases n,
{
    if n - 1 > j {
        lemma_last_writer_is(devices, j, slot, (n - 1) as nat);
    }
}

/// Of two devices, the second wins wherever both write.
pub proof fn lemma_second_of_two_wins(first: DeviceModel, second: DeviceModel, slot: int)
    requires
        0 <= slot < UNIVERSE_SIZE,
        writes_slot(first, slot),
        writes_slot(second, slot),
    ensures
        universe(seq![first, second])[slot] == second.values[slot - second.address.address],
{
    lemma_later_device_wins(seq![first, second], 0, 1, slot);
}

} // verus!
