use dmx_engine::channel::ChannelWidget;
use dmx_engine::dmx_device::{
    DeviceEvent, DmxAddress, DmxDevice, DmxDeviceType, DEFAULT_CYCLE_LENGTH,
};
use dmx_engine::dmx_gui::{GenericEvent, GuiError};
use dmx_engine::rig::Rig;
use dmx_engine::timeline::Timeline;

fn device(address: u16, enabled: bool, values: Vec<u8>, kind: DmxDeviceType) -> DmxDevice {
    DmxDevice::from_parts(
        enabled,
        DmxAddress { address, size: values.len() as u16 },
        "test".to_string(),
        DEFAULT_CYCLE_LENGTH,
        (0..values.len()).map(|_| Timeline::new()).collect(),
        values,
        kind,
    )
    .unwrap()
}

#[test]
fn an_empty_rig_is_dark() {
    let mut rig = Rig::new();
    assert!(rig.devices().is_empty());
    assert_eq!(rig.selected_device(), None);
    let frame = rig.update(16_667);
    assert_eq!(frame.buffer, vec![0u8; 512]);
    assert_eq!(rig.gui(&DeviceEvent::Delete), Ok(false));
    assert_eq!(rig.gui(&DeviceEvent::Toggle), Ok(false));
    rig.select(0);
    assert_eq!(rig.selected_device(), None);
}

#[test]
fn a_frame_ticks_and_composes() {
    let mut rig = Rig::new();
    rig.push(device(10, true, vec![1, 2, 3], DmxDeviceType::Generic));
    let mut channel = ChannelWidget::new();
    channel.set_enabled(true);
    rig.push(
        DmxDevice::from_parts(
            true,
            DmxAddress { address: 12, size: 1 },
            "curve".to_string(),
            DEFAULT_CYCLE_LENGTH,
            vec![Timeline { channel, gain: 1000, offset: 0 }],
            vec![0],
            DmxDeviceType::Generic,
        )
        .unwrap(),
    );
    let frame = rig.update(1_000_000);
    assert_eq!(&frame.buffer[9..14], &[0, 1, 2, 91, 0]);
    assert_eq!(rig.devices()[0].time(), 100_000);
    assert_eq!(rig.devices()[1].time(), 100_000);
    assert_eq!(rig.devices()[1].values(), &vec![91]);
    // Half a second on: phase 150, level 64 * 850 / 900 = 60.444, byte 100.
    let frame = rig.update(500_000);
    assert_eq!(&frame.buffer[9..14], &[0, 1, 2, 100, 0]);
    assert_eq!(rig.update(0).buffer, frame.buffer);
}

#[test]
fn enable_all_leaves_the_smoke_machine() {
    let mut rig = Rig::new();
    rig.push(device(0, false, vec![1], DmxDeviceType::Generic));
    rig.push(device(1, false, vec![2], DmxDeviceType::Af250));
    rig.push(device(2, false, vec![3], DmxDeviceType::PxHex5));
    rig.enable_all();
    assert!(rig.devices()[0].is_enabled());
    assert!(!rig.devices()[1].is_enabled());
    assert!(rig.devices()[2].is_enabled());
    assert_eq!(&rig.update(0).buffer[0..4], &[1, 0, 3, 0]);
    rig.disable_all();
    assert!(rig.devices().iter().all(|d| !d.is_enabled()));
    assert_eq!(rig.update(0).buffer, vec![0u8; 512]);
}

#[test]
fn disable_all_stops_a_running_smoke_machine() {
    let mut rig = Rig::new();
    rig.push(device(1, true, vec![2], DmxDeviceType::Af250));
    rig.enable_all();
    assert!(rig.devices()[0].is_enabled());
    rig.disable_all();
    assert!(!rig.devices()[0].is_enabled());
}

#[test]
fn the_menu_makes_devices() {
    let mut rig = Rig::new();
    for entry in [
        DmxDeviceType::Generic,
        DmxDeviceType::HeroSpot90,
        DmxDeviceType::ShowBarTri,
        DmxDeviceType::PxHex5,
        DmxDeviceType::Af250,
    ] {
        rig.add_device(entry);
    }
    let kinds: Vec<DmxDeviceType> = rig.devices().iter().map(|d| d.dmx_type()).collect();
    assert_eq!(
        kinds,
        vec![
            DmxDeviceType::Generic,
            DmxDeviceType::HeroSpot90,
            DmxDeviceType::ShowBarTri,
            DmxDeviceType::Generic,
            DmxDeviceType::Af250,
        ]
    );
    assert_eq!(rig.devices()[3].name(), "Generic");
    assert_eq!(rig.devices()[4].values(), &vec![0]);
    assert_eq!(rig.selected_device(), None);
}

#[test]
fn the_selected_device_gets_the_events() {
    let mut rig = Rig::new();
    rig.push(device(0, false, vec![1], DmxDeviceType::Generic));
    rig.push(device(1, false, vec![2], DmxDeviceType::Generic));
    rig.select(1);
    assert_eq!(rig.selected_device(), Some(1));
    rig.select(2);
    assert_eq!(rig.selected_device(), Some(1));
    assert_eq!(rig.gui(&DeviceEvent::Toggle), Ok(false));
    assert!(!rig.devices()[0].is_enabled());
    assert!(rig.devices()[1].is_enabled());
    assert_eq!(
        rig.gui(&DeviceEvent::Generic(GenericEvent::Value { channel: 0, value: 77 })),
        Ok(false)
    );
    assert_eq!(rig.devices()[1].values(), &vec![77]);
    assert_eq!(rig.devices()[0].values(), &vec![1]);
    assert_eq!(
        rig.gui(&DeviceEvent::Smoke { deploy: true, intensity: None }),
        Err(GuiError::Unsupported)
    );
    assert_eq!(rig.selected_device(), Some(1));
    assert_eq!(rig.devices().len(), 2);
}

#[test]
fn a_deleted_device_leaves_the_rig() {
    let mut rig = Rig::new();
    rig.push(device(0, true, vec![1], DmxDeviceType::Generic));
    rig.push(device(1, true, vec![2], DmxDeviceType::Generic));
    rig.push(device(2, true, vec![3], DmxDeviceType::Generic));
    rig.select(1);
    assert_eq!(rig.gui(&DeviceEvent::Delete), Ok(true));
    assert_eq!(rig.selected_device(), None);
    assert_eq!(rig.devices().len(), 2);
    assert_eq!(rig.devices()[0].values(), &vec![1]);
    assert_eq!(rig.devices()[1].values(), &vec![3]);
    assert_eq!(&rig.update(0).buffer[0..4], &[1, 0, 3, 0]);
    assert_eq!(rig.gui(&DeviceEvent::Delete), Ok(false));
    assert_eq!(rig.devices().len(), 2);
}
