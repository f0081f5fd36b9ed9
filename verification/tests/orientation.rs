use domers::orientation::{
    classify_datagram, parse_datagram_fields, required_datagram_length, DatagramKind,
    OrientationInputState, RawQuaternion,
};

fn datagram(device_id: u8, device_type: u8, length: usize) -> Vec<u8> {
    let mut bytes = vec![0; length];
    bytes[0] = device_id;
    if length > 5 {
        bytes[5] = device_type;
    }
    bytes
}

fn wand_datagram(
    device_id: u8,
    timestamp: i32,
    device_type: u8,
    quaternion: [i16; 4],
    action_flag: u8,
) -> Vec<u8> {
    let mut bytes = datagram(device_id, device_type, required_datagram_length(device_type));
    bytes[1..5].copy_from_slice(&timestamp.to_le_bytes());
    bytes[6..8].copy_from_slice(&quaternion[0].to_le_bytes());
    bytes[8..10].copy_from_slice(&quaternion[1].to_le_bytes());
    bytes[10..12].copy_from_slice(&quaternion[2].to_le_bytes());
    bytes[12..14].copy_from_slice(&quaternion[3].to_le_bytes());
    if device_type != 2 {
        bytes[14] = action_flag;
    }
    bytes
}

#[test]
fn classifies_known_lengths() {
    assert_eq!(
        classify_datagram(&datagram(42, 1, 15)),
        Some(DatagramKind::WandV1)
    );
    assert_eq!(
        classify_datagram(&datagram(42, 2, 17)),
        Some(DatagramKind::Poi)
    );
    assert_eq!(
        classify_datagram(&datagram(42, 3, 15)),
        Some(DatagramKind::WandV2)
    );
    assert_eq!(
        classify_datagram(&datagram(42, 4, 15)),
        Some(DatagramKind::Wristband)
    );
}

#[test]
fn rejects_short_or_unknown_packets() {
    assert_eq!(classify_datagram(&datagram(42, 1, 14)), None);
    assert_eq!(classify_datagram(&datagram(42, 9, 15)), None);
    assert_eq!(classify_datagram(&[1, 2, 3, 4, 5]), None);
}

#[test]
fn parses_fixed_point_quaternion_and_action_flag() {
    let bytes = wand_datagram(7, 1_234, 1, [16_384, 1_638, -3_276, 8_192], 3);
    let parsed = parse_datagram_fields(&bytes).expect("valid datagram");
    assert_eq!(parsed.device_id, 7);
    assert_eq!(parsed.timestamp, 1_234);
    assert_eq!(parsed.kind, DatagramKind::WandV1);
    assert_eq!(parsed.action_flag, 3);
    assert_eq!(
        parsed.orientation,
        RawQuaternion {
            w: 16_384,
            x: 1_638,
            y: -3_276,
            z: 8_192
        }
    );
    assert_eq!(parsed.avg_distance_short, None);
}

#[test]
fn poi_reads_speed_and_ignores_action_flag() {
    let mut bytes = wand_datagram(9, -5, 2, [0, 0, 0, 16_384], 0);
    bytes[14] = 3;
    bytes[15..17].copy_from_slice(&1_000u16.to_le_bytes());
    let parsed = parse_datagram_fields(&bytes).expect("valid datagram");
    assert_eq!(parsed.kind, DatagramKind::Poi);
    assert_eq!(parsed.timestamp, -5);
    assert_eq!(parsed.action_flag, 0);
    assert_eq!(parsed.avg_distance_short, Some(1_000));
}

#[test]
fn required_lengths_by_type() {
    assert_eq!(required_datagram_length(1), 15);
    assert_eq!(required_datagram_length(2), 17);
    assert_eq!(required_datagram_length(4), 15);
    assert_eq!(required_datagram_length(0), 6);
}

#[test]
fn tracks_devices_actions_calibration_and_timeout() {
    let mut state = OrientationInputState::new();
    assert_eq!(
        state.process_datagram(&wand_datagram(3, 100, 1, [16_384, 0, 0, 0], 0), 1_000),
        Some(DatagramKind::WandV1)
    );
    assert_eq!(state.device_count(), 1);
    let devices = state.devices();
    assert_eq!(devices[0].device_id, 3);
    assert_eq!(devices[0].calibration_origin, RawQuaternion::identity());

    state.process_datagram(&wand_datagram(3, 200, 1, [0, 16_384, 0, 0], 2), 1_100);
    let device = state.devices()[0];
    assert_eq!(device.timestamp, 200);
    assert_eq!(device.action_flag, 2);
    assert_eq!(
        device.current_orientation,
        RawQuaternion {
            w: 0,
            x: 16_384,
            y: 0,
            z: 0
        }
    );

    // An older timestamp within a second is ignored.
    state.process_datagram(&wand_datagram(3, 150, 1, [0, 0, 16_384, 0], 0), 1_200);
    assert_eq!(state.devices()[0].timestamp, 200);

    state.calibrate_all();
    let device = state.devices()[0];
    assert_eq!(device.calibration_origin, device.current_orientation);

    state.remove_stale_devices(1_500);
    assert_eq!(state.device_count(), 1);
    state.remove_stale_devices(5_000);
    assert_eq!(state.device_count(), 0);
}

#[test]
fn malformed_datagram_changes_nothing() {
    let mut state = OrientationInputState::new();
    assert_eq!(state.process_datagram(&[1, 2, 3], 10), None);
    assert_eq!(state.device_count(), 0);
    assert!(!state.only_poi());
}

#[test]
fn poi_only_devices_are_reported() {
    let mut state = OrientationInputState::new();
    state.process_datagram(&wand_datagram(1, 1, 2, [16_384, 0, 0, 0], 0), 10);
    assert!(state.only_poi());
    state.process_datagram(&wand_datagram(2, 1, 1, [16_384, 0, 0, 0], 0), 10);
    assert!(!state.only_poi());
}

#[test]
fn devices_are_listed_by_id() {
    let mut state = OrientationInputState::new();
    state.process_datagram(&wand_datagram(200, 1, 4, [16_384, 0, 0, 0], 0), 10);
    state.process_datagram(&wand_datagram(5, 1, 3, [16_384, 0, 0, 0], 0), 10);
    state.process_datagram(&wand_datagram(77, 1, 1, [16_384, 0, 0, 0], 0), 10);
    let ids: Vec<u8> = state.devices().iter().map(|d| d.device_id).collect();
    assert_eq!(ids, vec![5, 77, 200]);
    assert_eq!(state.device_count(), 3);
}
