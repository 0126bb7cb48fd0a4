use hack_and_hike::network::ReceiveOutcome;
use hack_and_hike::network::{
    default_channel, default_config, wrapping_inc, Channel, MacAddress, NetworkState, RssiDbm,
    Status, MAX_PEERS,
};
use hack_and_hike::protocol::{Capabilities, DeviceId, Packet, PacketKind, PACKET_BYTES};

fn id(last: u8) -> DeviceId {
    DeviceId::try_from_bytes([0x24, 0x0A, 0xC4, 0x00, 0x00, last]).unwrap()
}

#[test]
fn device_id_rejects_all_zero() {
    assert!(DeviceId::try_from_bytes([0; 6]).is_err());
    let ok = DeviceId::try_from_bytes([0, 0, 0, 0, 0, 1]).unwrap();
    assert_eq!(ok.bytes(), [0, 0, 0, 0, 0, 1]);
}

#[test]
fn beacon_encodes_to_documented_layout() {
    let packet = Packet::beacon(id(7), 0x0102_0304, 0xAABB_CCDD);
    let bytes = packet.encode();
    assert_eq!(bytes.len(), PACKET_BYTES);
    assert_eq!(&bytes[0..4], b"HNHN");
    assert_eq!(bytes[4], 1);
    assert_eq!(bytes[5], 1);
    assert_eq!(&bytes[8..14], &[0x24, 0x0A, 0xC4, 0x00, 0x00, 7]);
    assert_eq!(&bytes[14..18], &[0x04, 0x03, 0x02, 0x01]);
    assert_eq!(&bytes[18..22], &[0xDD, 0xCC, 0xBB, 0xAA]);
    assert_eq!(&bytes[22..26], &[7, 0, 0, 0]);
    assert!(bytes[26..32].iter().all(|b| *b == 0));
}

#[test]
fn decode_gives_back_encoded_packet() {
    let packet = Packet::beacon(id(9), 42, 1234);
    let decoded = Packet::decode(&packet.encode()).unwrap();
    assert_eq!(decoded, packet);
    assert_eq!(decoded.kind, PacketKind::Beacon);
    assert_eq!(decoded.capabilities.bits(), Capabilities::local().bits());
}

#[test]
fn decode_rejects_bad_frames() {
    let good = Packet::beacon(id(1), 1, 1).encode();
    assert!(Packet::decode(&good[..31]).is_none());
    let mut bad_magic = good;
    bad_magic[0] = b'X';
    assert!(Packet::decode(&bad_magic).is_none());
    let mut bad_version = good;
    bad_version[4] = 2;
    assert!(Packet::decode(&bad_version).is_none());
    let mut bad_kind = good;
    bad_kind[5] = 9;
    assert!(Packet::decode(&bad_kind).is_none());
    let mut zero_id = good;
    for b in &mut zero_id[8..14] {
        *b = 0;
    }
    assert!(Packet::decode(&zero_id).is_none());
}

#[test]
fn capabilities_bits() {
    assert_eq!(Capabilities::imu().bits(), 1);
    assert_eq!(Capabilities::audio().bits(), 2);
    assert_eq!(Capabilities::display().bits(), 4);
    assert_eq!(Capabilities::local().bits(), 7);
    assert_eq!(Capabilities::from_bits(0x55).bits(), 0x55);
}

#[test]
fn channel_and_config() {
    assert_eq!(default_channel().number(), 6);
    assert_eq!(Channel::new(14).number(), 14);
    let config = default_config();
    assert_eq!(config.beacon_period_ms, 250);
    assert_eq!(config.peer_timeout_ms, 1000);
    assert_eq!(config.channel.number(), 6);
}

#[test]
fn rssi_raw_byte_is_signed() {
    assert_eq!(RssiDbm::from_radio_raw(224).dbm(), -32);
    assert_eq!(RssiDbm::from_radio_raw(0).dbm(), 0);
    assert_eq!(RssiDbm::from_radio_raw(127).dbm(), 127);
    assert_eq!(RssiDbm::from_radio_raw(128).dbm(), -128);
}

#[test]
fn mac_address_keeps_bytes() {
    assert_eq!(MacAddress::new([1, 2, 3, 4, 5, 6]).bytes(), [1, 2, 3, 4, 5, 6]);
}

#[test]
fn wrapping_counter() {
    assert_eq!(wrapping_inc(5), 6);
    assert_eq!(wrapping_inc(u32::MAX), 0);
}

#[test]
fn beacons_count_up() {
    let mut state = NetworkState::new(id(1), default_config());
    let first = state.next_beacon(10);
    let second = state.next_beacon(20);
    assert_eq!(first.sequence, 1);
    assert_eq!(second.sequence, 2);
    assert_eq!(first.uptime_ms, 10);
    assert_eq!(first.device_id, id(1));
}

#[test]
fn received_peer_appears_in_snapshot() {
    let mut state = NetworkState::new(id(1), default_config());
    state.mark_ready();
    let empty = state.snapshot(0);
    assert_eq!(empty.status, Status::Ready);
    assert_eq!(empty.peer_count(), 0);

    let is_new = state.record_receive(Packet::beacon(id(2), 5, 100), RssiDbm::from_radio_raw(200), 100);
    assert!(is_new);
    let again = state.record_receive(Packet::beacon(id(2), 6, 200), RssiDbm::from_radio_raw(210), 300);
    assert!(!again);

    let snapshot = state.snapshot(350);
    assert_eq!(snapshot.status, Status::PeerPresent);
    assert_eq!(snapshot.peer_count(), 1);
    let peers = snapshot.peers();
    assert_eq!(peers.len(), 1);
    assert_eq!(peers[0].device_id, id(2));
    assert_eq!(peers[0].rssi_dbm.dbm(), -46);
    assert_eq!(peers[0].age_ms, 50);
    assert_eq!(snapshot.rx_packets, 2);
}

#[test]
fn silent_peer_expires_after_timeout() {
    let mut state = NetworkState::new(id(1), default_config());
    state.mark_ready();
    state.record_receive(Packet::beacon(id(3), 1, 0), RssiDbm::from_radio_raw(190), 0);
    assert_eq!(state.snapshot(1000).peer_count(), 1);
    let later = state.snapshot(1001);
    assert_eq!(later.peer_count(), 0);
    assert_eq!(later.status, Status::Ready);
}

#[test]
fn full_table_evicts_oldest_peer() {
    let mut state = NetworkState::new(id(1), default_config());
    state.mark_ready();
    for k in 0..MAX_PEERS {
        let now = 10 * k as u64;
        state.record_receive(Packet::beacon(id(10 + k as u8), 1, 0), RssiDbm::from_radio_raw(200), now);
    }
    assert_eq!(state.snapshot(95).peer_count(), MAX_PEERS);
    state.record_receive(Packet::beacon(id(99), 1, 0), RssiDbm::from_radio_raw(200), 100);
    let snapshot = state.snapshot(100);
    assert_eq!(snapshot.peer_count(), MAX_PEERS);
    assert_eq!(snapshot.peer_evictions, 1);
    let peers = snapshot.peers();
    assert!(peers.iter().any(|p| p.device_id == id(99)));
    assert!(!peers.iter().any(|p| p.device_id == id(10)));
}

#[test]
fn fault_status_stays_in_snapshot() {
    let mut state = NetworkState::new(id(1), default_config());
    state.mark_fault();
    assert_eq!(state.snapshot(0).status, Status::Fault);
}

#[test]
fn send_and_invalid_counters() {
    let mut state = NetworkState::new(id(1), default_config());
    state.record_send_ok();
    state.record_send_error();
    state.record_invalid_receive();
    let snapshot = state.snapshot(0);
    assert_eq!(snapshot.tx_packets, 1);
    assert_eq!(snapshot.tx_errors, 1);
    assert_eq!(snapshot.rx_invalid, 1);
}

#[test]
fn received_frames_are_classified() {
    let mut state = NetworkState::new(id(1), default_config());
    let rssi = RssiDbm::from_radio_raw(200);
    assert_eq!(state.receive_frame(b"garbage", rssi, 0), ReceiveOutcome::Invalid);
    assert_eq!(state.receive_frame(&Packet::beacon(id(1), 1, 0).encode(), rssi, 0), ReceiveOutcome::Own);
    assert_eq!(state.receive_frame(&Packet::beacon(id(4), 1, 0).encode(), rssi, 5), ReceiveOutcome::New);
    assert_eq!(state.receive_frame(&Packet::beacon(id(4), 2, 0).encode(), rssi, 9), ReceiveOutcome::Known);
    let snapshot = state.snapshot(10);
    assert_eq!(snapshot.rx_invalid, 1);
    assert_eq!(snapshot.rx_packets, 2);
    assert_eq!(snapshot.peer_count(), 1);
}

#[test]
fn a_new_peer_in_a_full_table_reports_the_eviction() {
    let mut state = NetworkState::new(id(1), default_config());
    let rssi = RssiDbm::from_radio_raw(200);
    for k in 0..10u8 {
        let frame = Packet::beacon(id(10 + k), 1, 0).encode();
        assert_eq!(state.receive_frame(&frame, rssi, 100 + k as u64), ReceiveOutcome::New);
    }
    let frame = Packet::beacon(id(40), 1, 0).encode();
    assert_eq!(state.receive_frame(&frame, rssi, 200), ReceiveOutcome::Replaced);
    let snapshot = state.snapshot(200);
    assert_eq!(snapshot.peer_evictions, 1);
    assert_eq!(snapshot.peer_count(), 10);
    assert!(snapshot.peers().iter().all(|p| p.device_id != id(10)));
}
