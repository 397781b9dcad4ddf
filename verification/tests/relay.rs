use dmx_engine::message::{DmxColor, DmxMessage, UNIVERSE_SIZE};
use dmx_engine::relay::{
    adapter_payload, Connection, ConnectionState, RelayAction, RelayEvent, ADAPTER_WINDOW,
};

fn frame(seed: u8) -> DmxMessage {
    DmxMessage { buffer: (0..512u32).map(|i| (i as u8).wrapping_mul(3).wrapping_add(seed)).collect() }
}

fn receiving(window: usize) -> Connection {
    let mut connection = Connection::new(window);
    assert!(matches!(connection.on_event(RelayEvent::Opened), RelayAction::Receive));
    connection
}

fn written(action: RelayAction) -> Vec<u8> {
    match action {
        RelayAction::Write(bytes) => bytes,
        other => panic!("no write: {:?}", other),
    }
}

#[test]
fn blank_frame_is_zero() {
    let blank = DmxMessage::blank();
    assert_eq!(blank.buffer, vec![0u8; 512]);
    assert!(blank.is_complete());
    assert!(!DmxMessage::default().is_complete());
    assert!(DmxMessage::default().buffer.is_empty());
    assert!(!DmxMessage { buffer: vec![0; 511] }.is_complete());
    assert!(!DmxMessage { buffer: vec![0; 513] }.is_complete());
    assert_eq!(UNIVERSE_SIZE, 512);
}

#[test]
fn colour_layout() {
    let color = DmxColor { rgb: [1, 2, 3], white: 4, amber: 5, uv: 6 };
    assert_eq!(color.dmx(), [1, 2, 3, 4, 5, 6, 0xff, 0xff, 0, 0, 0, 0]);
    assert_eq!(DmxColor::default().dmx(), [0, 0, 0, 0, 0, 0, 0xff, 0xff, 0, 0, 0, 0]);
}

#[test]
fn payload_is_the_head_of_a_complete_frame() {
    let f = frame(1);
    assert_eq!(adapter_payload(f.clone(), 128), Some(f.buffer[..128].to_vec()));
    assert_eq!(adapter_payload(f.clone(), 512), Some(f.buffer.clone()));
    assert_eq!(adapter_payload(f.clone(), 0), Some(vec![]));
    assert_eq!(adapter_payload(f.clone(), 513), None);
    assert_eq!(adapter_payload(DmxMessage { buffer: vec![1; 10] }, 128), None);
    assert_eq!(adapter_payload(DmxMessage { buffer: vec![1; 10] }, 5), None);
    assert_eq!(adapter_payload(DmxMessage { buffer: vec![1; 513] }, 128), None);
    assert_eq!(adapter_payload(DmxMessage::default(), 0), None);
}

#[test]
fn a_connection_opens() {
    let mut connection = Connection::new(ADAPTER_WINDOW);
    assert_eq!(connection.state(), ConnectionState::Connected);
    assert_eq!(connection.window(), 128);
    assert!(matches!(connection.on_event(RelayEvent::Frame(frame(0))), RelayAction::Hold));
    assert_eq!(connection.state(), ConnectionState::Connected);
    assert!(matches!(connection.on_event(RelayEvent::Opened), RelayAction::Receive));
    assert_eq!(connection.state(), ConnectionState::Receiving);
    assert_eq!(Connection::new(4000).window(), 512);
    assert_eq!(Connection::new(0).window(), 0);
}

#[test]
fn wrong_length_is_dropped_and_the_next_frame_goes_through() {
    let mut connection = receiving(ADAPTER_WINDOW);
    let action = connection.on_event(RelayEvent::Frame(DmxMessage { buffer: vec![9; 10] }));
    assert!(matches!(action, RelayAction::Receive));
    assert_eq!(connection.state(), ConnectionState::Receiving);
    let good = frame(7);
    let bytes = written(connection.on_event(RelayEvent::Frame(good.clone())));
    assert_eq!(bytes, good.buffer[..128].to_vec());
    assert_eq!(connection.state(), ConnectionState::Forwarding);
    assert!(matches!(connection.on_event(RelayEvent::Written(true)), RelayAction::Receive));
    assert_eq!(connection.state(), ConnectionState::Receiving);
}

#[test]
fn what_cannot_be_read_is_dropped() {
    let mut connection = receiving(ADAPTER_WINDOW);
    assert!(matches!(connection.on_event(RelayEvent::Garbled), RelayAction::Receive));
    assert!(matches!(connection.on_event(RelayEvent::Other), RelayAction::Receive));
    assert_eq!(connection.state(), ConnectionState::Receiving);
    assert!(matches!(connection.on_event(RelayEvent::Opened), RelayAction::Hold));
    assert!(matches!(connection.on_event(RelayEvent::Written(true)), RelayAction::Hold));
    assert_eq!(connection.state(), ConnectionState::Receiving);
}

#[test]
fn two_connections_write_whole_frames() {
    let mut left = receiving(512);
    let mut right = receiving(512);
    let a = frame(1);
    let b = frame(2);
    let mut sink: Vec<Vec<u8>> = Vec::new();
    // Both frames arrive before either write is done.
    let from_left = left.on_event(RelayEvent::Frame(a.clone()));
    let from_right = right.on_event(RelayEvent::Frame(b.clone()));
    sink.push(written(from_right));
    assert!(matches!(right.on_event(RelayEvent::Written(true)), RelayAction::Receive));
    sink.push(written(from_left));
    assert!(matches!(left.on_event(RelayEvent::Written(true)), RelayAction::Receive));
    assert_eq!(sink.len(), 2);
    assert_eq!(sink[0], b.buffer);
    assert_eq!(sink[1], a.buffer);
    assert_eq!(left.state(), ConnectionState::Receiving);
    assert_eq!(right.state(), ConnectionState::Receiving);
}

#[test]
fn no_second_write_before_the_first_is_done() {
    let mut connection = receiving(ADAPTER_WINDOW);
    written(connection.on_event(RelayEvent::Frame(frame(1))));
    for event in [
        RelayEvent::Frame(frame(2)),
        RelayEvent::Garbled,
        RelayEvent::Other,
        RelayEvent::Opened,
        RelayEvent::Failed,
    ] {
        assert!(matches!(connection.on_event(event), RelayAction::Hold));
        assert_eq!(connection.state(), ConnectionState::Forwarding);
    }
    assert!(matches!(connection.on_event(RelayEvent::Written(true)), RelayAction::Receive));
    assert_eq!(connection.state(), ConnectionState::Receiving);
}

#[test]
fn a_failed_write_does_not_end_the_connection() {
    let mut connection = receiving(ADAPTER_WINDOW);
    written(connection.on_event(RelayEvent::Frame(frame(1))));
    assert!(matches!(connection.on_event(RelayEvent::Written(false)), RelayAction::Receive));
    assert_eq!(connection.state(), ConnectionState::Receiving);
    let next = frame(3);
    assert_eq!(
        written(connection.on_event(RelayEvent::Frame(next.clone()))),
        next.buffer[..128].to_vec()
    );
}

#[test]
fn a_failed_connection_is_over() {
    let mut connection = receiving(ADAPTER_WINDOW);
    assert!(matches!(connection.on_event(RelayEvent::Failed), RelayAction::Stop));
    assert_eq!(connection.state(), ConnectionState::Closed);
    for event in [
        RelayEvent::Frame(frame(2)),
        RelayEvent::Garbled,
        RelayEvent::Other,
        RelayEvent::Opened,
        RelayEvent::Written(true),
        RelayEvent::Failed,
    ] {
        assert!(matches!(connection.on_event(event), RelayAction::Stop));
        assert_eq!(connection.state(), ConnectionState::Closed);
    }
    let mut early = Connection::new(ADAPTER_WINDOW);
    assert!(matches!(early.on_event(RelayEvent::Failed), RelayAction::Stop));
    assert_eq!(early.state(), ConnectionState::Closed);
    // The other connection goes on.
    let mut other = receiving(ADAPTER_WINDOW);
    written(other.on_event(RelayEvent::Frame(frame(4))));
}

#[test]
fn frames_are_forwarded_in_the_order_received() {
    let mut connection = receiving(4);
    let mut sink: Vec<Vec<u8>> = Vec::new();
    for seed in 0..5u8 {
        sink.push(written(connection.on_event(RelayEvent::Frame(frame(seed)))));
        connection.on_event(RelayEvent::Written(true));
    }
    for seed in 0..5u8 {
        assert_eq!(sink[seed as usize], frame(seed).buffer[..4].to_vec());
    }
}
