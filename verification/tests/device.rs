use dmx_engine::channel::{ChannelWidget, ControlPoint, CurveEvent, EditError, CYCLE};
use dmx_engine::dmx_device::{
    DeviceEvent, DmxAddress, DmxDevice, DmxDeviceType, DEFAULT_CYCLE_LENGTH,
};
use dmx_engine::dmx_gui::{GenericEvent, GuiError};
use dmx_engine::message::DmxMessage;
use dmx_engine::timeline::{to_channel_byte, Timeline, GAIN_ONE};
use dmx_engine::universe::compose;

fn raw(count: usize) -> Vec<Timeline> {
    (0..count).map(|_| Timeline::new()).collect()
}

fn device(address: u16, size: u16, enabled: bool, values: Vec<u8>) -> DmxDevice {
    DmxDevice::from_parts(
        enabled,
        DmxAddress { address, size },
        "test".to_string(),
        DEFAULT_CYCLE_LENGTH,
        raw(values.len()),
        values,
        DmxDeviceType::Generic,
    )
    .unwrap()
}

fn driven(gain: u32, offset: u32) -> DmxDevice {
    let mut channel = ChannelWidget::new();
    channel.set_enabled(true);
    DmxDevice::from_parts(
        true,
        DmxAddress { address: 0, size: 2 },
        "driven".to_string(),
        DEFAULT_CYCLE_LENGTH,
        vec![Timeline { channel, gain, offset }, Timeline::new()],
        vec![7, 9],
        DmxDeviceType::Generic,
    )
    .unwrap()
}

#[test]
fn device_at_slot_ten() {
    // Address range (10, 3), enabled, values 1, 2, 3.
    let devices = vec![device(10, 3, true, vec![1, 2, 3])];
    let universe = compose(&devices);
    assert_eq!(universe.buffer.len(), 512);
    assert_eq!(universe.buffer[10], 1);
    assert_eq!(universe.buffer[11], 2);
    assert_eq!(universe.buffer[12], 3);
    assert_eq!(universe.buffer[9], 0);
    assert_eq!(universe.buffer[13], 0);
    assert_eq!(universe.buffer.iter().filter(|b| **b != 0).count(), 3);
}

#[test]
fn disabled_device_leaves_no_trace() {
    let with = compose(&vec![
        device(0, 2, true, vec![5, 6]),
        device(1, 3, false, vec![200, 201, 202]),
    ]);
    let other = compose(&vec![
        device(0, 2, true, vec![5, 6]),
        device(1, 3, false, vec![1, 1, 1]),
    ]);
    let without = compose(&vec![device(0, 2, true, vec![5, 6])]);
    assert_eq!(with.buffer, without.buffer);
    assert_eq!(with.buffer, other.buffer);
    assert_eq!(&with.buffer[0..4], &[5, 6, 0, 0]);
    let alone = compose(&vec![device(40, 2, false, vec![9, 9])]);
    assert!(alone.buffer.iter().all(|b| *b == 0));
}

#[test]
fn later_device_wins_the_overlap() {
    let devices = vec![
        device(10, 4, true, vec![1, 2, 3, 4]),
        device(12, 4, true, vec![50, 60, 70, 80]),
    ];
    let first = compose(&devices);
    assert_eq!(&first.buffer[9..17], &[0, 1, 2, 50, 60, 70, 80, 0]);
    for _ in 0..5 {
        assert_eq!(compose(&devices).buffer, first.buffer);
    }
    let swapped = vec![
        device(12, 4, true, vec![50, 60, 70, 80]),
        device(10, 4, true, vec![1, 2, 3, 4]),
    ];
    assert_eq!(&compose(&swapped).buffer[9..17], &[0, 1, 2, 3, 4, 70, 80, 0]);
}

#[test]
fn a_disabled_device_between_two_writers() {
    let devices = vec![
        device(0, 3, true, vec![1, 1, 1]),
        device(0, 3, false, vec![2, 2, 2]),
        device(1, 1, true, vec![3]),
    ];
    assert_eq!(&compose(&devices).buffer[0..4], &[1, 3, 1, 0]);
}

#[test]
fn misconfigured_devices_are_skipped() {
    // The address says four channels, the device holds three.
    let short = DmxDevice::from_parts(
        true,
        DmxAddress { address: 0, size: 4 },
        "short".to_string(),
        DEFAULT_CYCLE_LENGTH,
        raw(3),
        vec![1, 2, 3],
        DmxDeviceType::Generic,
    )
    .unwrap();
    // The range runs past the end of the universe.
    let past = device(510, 3, true, vec![7, 8, 9]);
    let fits = device(509, 3, true, vec![4, 5, 6]);
    let universe = compose(&vec![short, past, fits]);
    assert_eq!(&universe.buffer[0..4], &[0, 0, 0, 0]);
    assert_eq!(&universe.buffer[508..512], &[0, 4, 5, 6]);
}

#[test]
fn write_into_shorter_buffers() {
    let d = device(2, 2, true, vec![8, 9]);
    let mut exact = DmxMessage { buffer: vec![1, 1, 1, 1] };
    d.write_into(&mut exact);
    assert_eq!(exact.buffer, vec![1, 1, 8, 9]);
    let mut short = DmxMessage { buffer: vec![1, 1, 1] };
    d.write_into(&mut short);
    assert_eq!(short.buffer, vec![1, 1, 1]);
    let mut empty = DmxMessage::default();
    d.write_into(&mut empty);
    assert!(empty.buffer.is_empty());
}

#[test]
fn a_full_universe_device() {
    let values: Vec<u8> = (0..512).map(|i| (i % 251) as u8).collect();
    let d = device(0, 512, true, values.clone());
    assert_eq!(compose(&vec![d]).buffer, values);
}

#[test]
fn stored_devices_are_checked() {
    assert!(DmxDevice::from_parts(
        true,
        DmxAddress { address: 0, size: 1 },
        "odd".to_string(),
        1,
        raw(2),
        vec![1],
        DmxDeviceType::Generic,
    )
    .is_none());
    let d = DmxDevice::from_parts(
        true,
        DmxAddress { address: 3, size: 1 },
        "fine".to_string(),
        77,
        raw(1),
        vec![1],
        DmxDeviceType::HeroSpot90,
    )
    .unwrap();
    assert!(d.is_enabled());
    assert_eq!(d.address(), DmxAddress { address: 3, size: 1 });
    assert_eq!(d.name(), "fine");
    assert_eq!(d.cycle_length(), 77);
    assert_eq!(d.values(), &vec![1]);
    assert_eq!(d.timelines().len(), 1);
    assert_eq!(d.time(), 0);
    assert_eq!(d.dmx_type(), DmxDeviceType::HeroSpot90);
}

#[test]
fn new_devices() {
    let generic = DmxDevice::new(DmxDeviceType::Generic);
    assert!(!generic.is_enabled());
    assert_eq!(generic.name(), "Generic");
    assert_eq!(generic.address(), DmxAddress { address: 0, size: 0 });
    assert_eq!(generic.cycle_length(), 10_000_000);
    assert!(generic.values().is_empty());
    assert!(generic.timelines().is_empty());
    assert_eq!(generic.time(), 0);

    let smoke = DmxDevice::new(DmxDeviceType::Af250);
    assert!(!smoke.is_enabled());
    assert_eq!(smoke.name(), "Af 250 Smoke");
    assert_eq!(smoke.address(), DmxAddress { address: 0, size: 1 });
    assert_eq!(smoke.values(), &vec![0]);
    assert_eq!(smoke.timelines().len(), 1);
    assert_eq!(smoke.timelines()[0].gain, GAIN_ONE);
    assert_eq!(smoke.timelines()[0].offset, 0);
    assert!(!smoke.timelines()[0].channel.is_enabled());
    assert_eq!(smoke.dmx_type(), DmxDeviceType::Af250);

    let other = DmxDevice::default();
    assert_eq!(other.name(), "Device");
    assert_eq!(other.dmx_type(), DmxDeviceType::Generic);
    assert!(other.values().is_empty());
    assert!(!other.is_enabled());
}

#[test]
fn device_type_names() {
    assert_eq!(DmxDeviceType::Generic.name(), "Generic");
    assert_eq!(DmxDeviceType::HeroSpot90.name(), "Hero S");
    assert_eq!(DmxDeviceType::ShowBarTri.name(), "Show Bar Tri");
    assert_eq!(DmxDeviceType::PxHex5.name(), "5 Px Hex");
    assert_eq!(DmxDeviceType::Af250.name(), "Af 250 Smoke");
    assert_eq!(DmxDeviceType::PxHex5.menu_choice(), DmxDeviceType::Generic);
    assert_eq!(DmxDeviceType::Af250.menu_choice(), DmxDeviceType::Af250);
    assert_eq!(DmxDeviceType::HeroSpot90.menu_choice(), DmxDeviceType::HeroSpot90);
}

#[test]
fn time_moves_with_the_cycle_length() {
    // One second of a ten second cycle is a tenth of the cycle.
    let mut d = device(0, 1, true, vec![0]);
    d.tick(1_000_000);
    assert_eq!(d.time(), 100_000);
    d.tick(16_667);
    assert_eq!(d.time(), 101_666);
    d.tick(0);
    assert_eq!(d.time(), 101_666);
}

#[test]
fn time_wraps_around_the_cycle() {
    // A whole cycle leads back to the start.
    let mut d = device(0, 1, true, vec![0]);
    d.tick(10_000_000);
    assert_eq!(d.time(), 0);
    // One and a half cycles lead half a cycle on.
    d.tick(15_000_000);
    assert_eq!(d.time(), 500_000);
    // Past the end by a quarter of a cycle.
    d.tick(7_500_000);
    assert_eq!(d.time(), 250_000);
    d.tick(7_499_990);
    assert_eq!(d.time(), 999_999);
    d.tick(10);
    assert_eq!(d.time(), 0);
    d.tick(9_999_999);
    assert_eq!(d.time(), 999_999);
    d.tick(20);
    assert_eq!(d.time(), 1);
}

#[test]
fn time_wraps_after_the_longest_wait() {
    // u64::MAX microseconds of a ten second cycle are 1_844_674_407_370_955_161
    // steps, which end 955_161 steps into a cycle.
    let mut d = device(0, 1, true, vec![0]);
    d.tick(u64::MAX);
    assert_eq!(d.time(), 955_161);
    d.tick(u64::MAX);
    assert_eq!(d.time(), 910_322);
}

#[test]
fn curves_follow_the_wrapped_time() {
    let mut d = driven(1000, 0);
    // Eleven seconds of a ten second cycle: phase 100, the peak.
    d.tick(11_000_000);
    assert_eq!(d.time(), 100_000);
    assert_eq!(d.values()[0], 91);
}

#[test]
fn no_cycle_length_no_movement() {
    let mut d = DmxDevice::from_parts(
        true,
        DmxAddress { address: 0, size: 0 },
        "still".to_string(),
        0,
        vec![],
        vec![],
        DmxDeviceType::Generic,
    )
    .unwrap();
    d.tick(5_000_000);
    assert_eq!(d.time(), 0);
}

#[test]
fn channel_byte_formula() {
    assert_eq!(to_channel_byte(100_000, 1000), 255);
    assert_eq!(to_channel_byte(0, 1000), 0);
    assert_eq!(to_channel_byte(68_000, 1000), 173);
    assert_eq!(to_channel_byte(68_000, 500), 86);
    assert_eq!(to_channel_byte(36_000, 1000), 91);
    assert_eq!(to_channel_byte(100_000, 0), 0);
    assert_eq!(to_channel_byte(100_000, 2000), 255);
    assert_eq!(to_channel_byte(u32::MAX, u32::MAX), 255);
    assert_eq!(to_channel_byte(392, 1000), 0);
    assert_eq!(to_channel_byte(393, 1000), 1);
}

#[test]
fn curves_drive_their_channels() {
    let mut d = driven(1000, 0);
    // After one second the device stands at phase 100, the peak of the
    // standard curve: level 64, value 0.36, byte 91.
    d.tick(1_000_000);
    assert_eq!(d.values(), &vec![91, 9]);
    assert_eq!(d.timelines()[0].channel.current_time(), 100_000);
    assert_eq!(d.timelines()[0].channel.current_point(), (100_000, 64_000));
    assert_eq!(d.timelines()[1].channel.current_time(), 0);
    let mut message = DmxMessage::blank();
    d.update(&mut message, 0);
    assert_eq!(&message.buffer[0..3], &[91, 9, 0]);
}

#[test]
fn gain_and_offset_apply() {
    let mut half = driven(500, 0);
    half.tick(1_000_000);
    assert_eq!(half.values()[0], 45);
    // An offset of 450 from phase 100 reaches phase 550: level 32.
    let mut late = driven(1000, 450_000);
    late.tick(1_000_000);
    assert_eq!(late.values()[0], 173);
    assert_eq!(late.timelines()[0].channel.current_time(), 550_000);
    // The offset wraps with the cycle.
    let mut wrapped = driven(1000, 950_000);
    wrapped.tick(1_000_000);
    assert_eq!(wrapped.values()[0], 173);
    assert_eq!(wrapped.timelines()[0].channel.current_time(), 50_000);
}

#[test]
fn disabled_devices_still_follow_their_curves() {
    let mut d = driven(1000, 0);
    d.set_enabled(false);
    let mut message = DmxMessage::blank();
    d.update(&mut message, 1_000_000);
    assert_eq!(d.values()[0], 91);
    assert!(message.buffer.iter().all(|b| *b == 0));
}

#[test]
fn resizing_keeps_what_fits() {
    let mut d = device(5, 3, true, vec![1, 2, 3]);
    d.set_size(5);
    assert_eq!(d.values(), &vec![1, 2, 3, 0, 0]);
    assert_eq!(d.timelines().len(), 5);
    assert_eq!(d.address(), DmxAddress { address: 5, size: 5 });
    assert_eq!(
        d.timelines()[4].channel.control_points(),
        ChannelWidget::new().control_points()
    );
    d.set_size(2);
    assert_eq!(d.values(), &vec![1, 2]);
    assert_eq!(d.timelines().len(), 2);
    d.set_size(0);
    assert!(d.values().is_empty());
    // Behind slot 5 the universe has room for 507 channels.
    d.set_size(9999);
    assert_eq!(d.values().len(), 507);
    assert_eq!(d.address(), DmxAddress { address: 5, size: 507 });
    let mut first = device(0, 1, true, vec![9]);
    first.set_size(600);
    assert_eq!(first.address(), DmxAddress { address: 0, size: 512 });
    assert_eq!(first.values().len(), 512);
    assert_eq!(first.values()[0], 9);
}

fn restored(address: u16, size: u16, timelines: Vec<Timeline>, values: Vec<u8>) -> DmxDevice {
    DmxDevice::restore(
        true,
        DmxAddress { address, size },
        "stored".to_string(),
        5_000_000,
        timelines,
        values,
        DmxDeviceType::Generic,
    )
}

#[test]
fn stored_addresses_are_brought_into_the_universe() {
    for (stored, held) in [(0u16, 0u16), (511, 511), (512, 511), (600, 511), (u16::MAX, 511)] {
        let d = restored(stored, 0, vec![], vec![]);
        assert_eq!(d.address(), DmxAddress { address: held, size: 0 });
    }
    assert!(DmxDevice::from_parts(
        true,
        DmxAddress { address: 512, size: 0 },
        "outside".to_string(),
        1,
        vec![],
        vec![],
        DmxDeviceType::Generic,
    )
    .is_none());
    assert!(DmxDevice::from_parts(
        true,
        DmxAddress { address: 511, size: 0 },
        "inside".to_string(),
        1,
        vec![],
        vec![],
        DmxDeviceType::Generic,
    )
    .is_some());
}

#[test]
fn the_address_stays_a_slot_after_any_event() {
    let mut d = restored(512, 0, vec![], vec![]);
    assert_eq!(d.gui(&DeviceEvent::Size(5)), Ok(false));
    assert_eq!(d.address(), DmxAddress { address: 511, size: 1 });
    let mut too_long = restored(600, 2, raw(2), vec![1, 2]);
    assert_eq!(too_long.address(), DmxAddress { address: 511, size: 2 });
    assert_eq!(compose(&vec![restored(600, 2, raw(2), vec![1, 2])]).buffer, vec![0u8; 512]);
    too_long.set_size(2);
    assert_eq!(too_long.address(), DmxAddress { address: 511, size: 1 });
    assert_eq!(too_long.values(), &vec![1]);
    assert_eq!(&compose(&vec![too_long]).buffer[510..512], &[0, 1]);
}

#[test]
fn restoring_keeps_a_well_formed_device() {
    let mut channel = ChannelWidget::new();
    channel.set_enabled(true);
    channel.add_point(300_000, 5_000).unwrap();
    let points = channel.control_points().clone();
    let d = restored(
        7,
        2,
        vec![Timeline { channel, gain: 250, offset: 9 }, Timeline::new()],
        vec![3, 4],
    );
    assert!(d.is_enabled());
    assert_eq!(d.name(), "stored");
    assert_eq!(d.cycle_length(), 5_000_000);
    assert_eq!(d.address(), DmxAddress { address: 7, size: 2 });
    assert_eq!(d.values(), &vec![3, 4]);
    assert_eq!(d.time(), 0);
    assert_eq!(d.timelines().len(), 2);
    assert_eq!(d.timelines()[0].gain, 250);
    assert_eq!(d.timelines()[0].offset, 9);
    assert!(d.timelines()[0].channel.is_enabled());
    assert_eq!(d.timelines()[0].channel.control_points(), &points);
    assert_eq!(d.timelines()[0].channel.next_id(), 4);
}

#[test]
fn restoring_pairs_timelines_with_values() {
    let marked = || Timeline { channel: ChannelWidget::new(), gain: 1, offset: 2 };
    // More timelines than values: the first ones stay.
    let d = restored(0, 1, vec![marked(), marked(), marked()], vec![8]);
    assert_eq!(d.values(), &vec![8]);
    assert_eq!(d.timelines().len(), 1);
    assert_eq!(d.timelines()[0].gain, 1);
    // Fewer: new ones follow.
    let d = restored(0, 3, vec![marked()], vec![8, 9, 10]);
    assert_eq!(d.values(), &vec![8, 9, 10]);
    assert_eq!(d.timelines().len(), 3);
    assert_eq!(d.timelines()[0].gain, 1);
    assert_eq!(d.timelines()[0].offset, 2);
    assert_eq!(d.timelines()[1].gain, GAIN_ONE);
    assert_eq!(d.timelines()[2].offset, 0);
    // The address says four channels, the device holds three: it is kept
    // so, and has no part in the universe.
    let d = restored(0, 4, vec![], vec![1, 2, 3]);
    assert_eq!(d.address(), DmxAddress { address: 0, size: 4 });
    assert_eq!(compose(&vec![d]).buffer, vec![0u8; 512]);
}

#[test]
fn the_panel_keeps_the_range_within_the_universe() {
    let mut d = DmxDevice::new(DmxDeviceType::Generic);
    assert_eq!(d.gui(&DeviceEvent::Size(512)), Ok(false));
    assert_eq!(d.gui(&DeviceEvent::Address(512)), Ok(false));
    assert_eq!(d.address(), DmxAddress { address: 0, size: 512 });
    assert_eq!(d.gui(&DeviceEvent::Size(3)), Ok(false));
    assert_eq!(d.gui(&DeviceEvent::Address(512)), Ok(false));
    assert_eq!(d.address(), DmxAddress { address: 509, size: 3 });
    assert_eq!(d.gui(&DeviceEvent::Address(100)), Ok(false));
    assert_eq!(d.address(), DmxAddress { address: 99, size: 3 });
    assert_eq!(d.gui(&DeviceEvent::Size(512)), Ok(false));
    assert_eq!(d.address(), DmxAddress { address: 99, size: 413 });
    assert_eq!(d.values().len(), 413);
    assert_eq!(d.gui(&DeviceEvent::Address(1)), Ok(false));
    assert_eq!(d.gui(&DeviceEvent::Size(0)), Ok(false));
    assert_eq!(d.gui(&DeviceEvent::Address(700)), Ok(false));
    assert_eq!(d.address(), DmxAddress { address: 511, size: 0 });
    assert_eq!(d.gui(&DeviceEvent::Size(5)), Ok(false));
    assert_eq!(d.address(), DmxAddress { address: 511, size: 1 });
    // A stored device that is too long for its place comes back in.
    let mut stored = device(510, 3, true, vec![7, 8, 9]);
    assert_eq!(stored.gui(&DeviceEvent::Address(511)), Ok(false));
    assert_eq!(stored.address(), DmxAddress { address: 509, size: 3 });
}

#[test]
fn panel_renames_and_deletes() {
    let mut d = device(0, 1, false, vec![4]);
    assert_eq!(d.gui(&DeviceEvent::Rename("front left".to_string())), Ok(false));
    assert_eq!(d.name(), "front left");
    assert_eq!(d.gui(&DeviceEvent::Delete), Ok(true));
    assert_eq!(d.name(), "front left");
    assert_eq!(d.values(), &vec![4]);
}

#[test]
fn panel_address_counts_from_one() {
    let mut d = device(0, 1, false, vec![4]);
    for (shown, slot) in [(1u16, 0u16), (2, 1), (512, 511), (513, 511), (0, 0), (u16::MAX, 511)] {
        assert_eq!(d.gui(&DeviceEvent::Address(shown)), Ok(false));
        assert_eq!(d.address(), DmxAddress { address: slot, size: 1 });
    }
}

#[test]
fn panel_size_and_toggle() {
    let mut d = device(0, 1, false, vec![4]);
    assert_eq!(d.gui(&DeviceEvent::Size(3)), Ok(false));
    assert_eq!(d.values(), &vec![4, 0, 0]);
    assert_eq!(d.gui(&DeviceEvent::Toggle), Ok(false));
    assert!(d.is_enabled());
    assert_eq!(d.gui(&DeviceEvent::Toggle), Ok(false));
    assert!(!d.is_enabled());
}

#[test]
fn panels_fail_closed() {
    let mut smoke = DmxDevice::new(DmxDeviceType::Af250);
    assert_eq!(smoke.gui(&DeviceEvent::Toggle), Err(GuiError::Unsupported));
    assert!(!smoke.is_enabled());
    assert_eq!(smoke.gui(&DeviceEvent::Size(4)), Err(GuiError::Unsupported));
    assert_eq!(smoke.values().len(), 1);
    assert_eq!(
        smoke.gui(&DeviceEvent::Generic(GenericEvent::Cycle(5))),
        Err(GuiError::Unsupported)
    );
    assert_eq!(smoke.cycle_length(), 10_000_000);

    for kind in [DmxDeviceType::HeroSpot90, DmxDeviceType::ShowBarTri, DmxDeviceType::PxHex5] {
        let mut d = DmxDevice::new(kind);
        assert_eq!(d.gui(&DeviceEvent::Size(4)), Err(GuiError::Unsupported));
        assert_eq!(
            d.gui(&DeviceEvent::Generic(GenericEvent::Cycle(5))),
            Err(GuiError::Unsupported)
        );
        assert_eq!(
            d.gui(&DeviceEvent::Smoke { deploy: true, intensity: None }),
            Err(GuiError::Unsupported)
        );
        assert!(d.values().is_empty());
        assert!(!d.is_enabled());
        assert_eq!(d.gui(&DeviceEvent::Toggle), Ok(false));
        assert!(d.is_enabled());
    }

    let mut generic = DmxDevice::new(DmxDeviceType::Generic);
    assert_eq!(
        generic.gui(&DeviceEvent::Smoke { deploy: true, intensity: Some(50) }),
        Err(GuiError::Unsupported)
    );
    assert!(!generic.is_enabled());
}

#[test]
fn smoke_panel_runs_the_machine_while_held() {
    let mut smoke = DmxDevice::new(DmxDeviceType::Af250);
    assert_eq!(
        smoke.gui(&DeviceEvent::Smoke { deploy: true, intensity: Some(50) }),
        Ok(false)
    );
    assert!(smoke.is_enabled());
    assert_eq!(smoke.values(), &vec![127]);
    assert_eq!(
        smoke.gui(&DeviceEvent::Smoke { deploy: false, intensity: None }),
        Ok(false)
    );
    assert!(!smoke.is_enabled());
    assert_eq!(smoke.values(), &vec![127]);
}

#[test]
fn generic_panel_through_the_device() {
    let mut d = device(0, 2, false, vec![4, 5]);
    assert_eq!(
        d.gui(&DeviceEvent::Generic(GenericEvent::Value { channel: 1, value: 99 })),
        Ok(false)
    );
    assert_eq!(d.values(), &vec![4, 99]);
    assert_eq!(
        d.gui(&DeviceEvent::Generic(GenericEvent::Value { channel: 2, value: 99 })),
        Err(GuiError::NoChannel)
    );
    assert_eq!(
        d.gui(&DeviceEvent::Generic(GenericEvent::Curve {
            channel: 0,
            event: CurveEvent::Remove { id: 0 }
        })),
        Err(GuiError::Edit(EditError::InvalidOperation))
    );
    assert_eq!(
        d.gui(&DeviceEvent::Generic(GenericEvent::Curve {
            channel: 0,
            event: CurveEvent::Click { phase: 500_000, level: 1_000 }
        })),
        Ok(false)
    );
    assert_eq!(
        d.timelines()[0].channel.control_points()[2],
        ControlPoint { phase: 500_000, level: 1_000, id: 3 }
    );
    assert_eq!(d.timelines()[0].channel.control_points()[3].phase, CYCLE);
    assert_eq!(d.gui(&DeviceEvent::Generic(GenericEvent::Cycle(2_000_000))), Ok(false));
    assert_eq!(d.cycle_length(), 2_000_000);
}
