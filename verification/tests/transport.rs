//! Flow control, framing, cells, sessions, handshake and timing tests.

use nyx::aead::{aead_open, aead_seal};
use nyx::cell::{decode_cell, encode_cell, Cell, CELL_SIZE};
use nyx::flow::FlowController;
use nyx::frame::{
    build_settings_frame, decode_frame, decode_varint, encode_frame, encode_varint,
    parse_settings_frame, Frame, FrameType,
};
use nyx::noise::NoiseHandshake;
use nyx::session::{pcr_rekey, ReplayWindow, Session, SessionKey};
use nyx::settings::{handle_inbound_frame, StreamSettings, SETTING_LOW_POWER, SETTING_MAX_STREAMS};
use nyx::timing::{cover_packet, release_delay_ms, DelayQueue, Packet, TimingConfig};
use nyx::NyxError;
use rand::Rng;

#[test]
fn flow_control_reserve_release() {
    let mut fc = FlowController::new(65536);
    assert!(fc.reserve(40000).is_ok());
    assert!(fc.reserve(30000).is_err());
    fc.release(40000);
    assert!(fc.reserve(30000).is_ok());
}

#[test]
fn flow_control_window_update() {
    let mut fc = FlowController::new(1000);
    // stay at or above half: no update owed
    assert_eq!(fc.on_data_received(400).unwrap(), None);
    // drop below half: window snaps back to the initial size
    assert_eq!(fc.on_data_received(200).unwrap(), Some(600));
    // overrun is a violation
    let mut fc2 = FlowController::new(10);
    assert_eq!(
        fc2.on_data_received(11),
        Err(NyxError::FlowControlViolation)
    );
}

#[test]
fn settings_merge_overrides_only_present_ids() {
    let mut current = StreamSettings::new();
    current.set_value(SETTING_LOW_POWER, 0);
    current.set_value(SETTING_MAX_STREAMS, 100);
    let inbound = vec![(SETTING_LOW_POWER, 1u64)];
    let changed = current.apply(&inbound);
    assert!(changed);
    assert_eq!(current.get(SETTING_LOW_POWER), Some(1));
    assert_eq!(current.get(SETTING_MAX_STREAMS), Some(100));
    assert_eq!(current.low_power_preference(), 1);
}

#[test]
fn settings_empty_merge_is_noop() {
    let mut current = StreamSettings::new();
    current.set_value(SETTING_MAX_STREAMS, 7);
    let changed = current.apply(&Vec::new());
    assert!(!changed);
    assert_eq!(current.get(SETTING_MAX_STREAMS), Some(7));
    assert_eq!(current.get(SETTING_LOW_POWER), None);
}

#[test]
fn settings_frame_round_trip() {
    let entries = vec![(1u16, 1u64), (2u16, 100u64), (0x1234u16, 0xDEADBEEFCAFEBABEu64)];
    let bytes = build_settings_frame(&entries);
    assert_eq!(bytes.len(), 30);
    let parsed = parse_settings_frame(&bytes).unwrap();
    assert_eq!(parsed, entries);
}

#[test]
fn settings_frame_rejects_ragged_length() {
    let bytes = vec![0u8; 15];
    assert_eq!(parse_settings_frame(&bytes), Err(NyxError::FrameMalformed));
}

#[test]
fn inbound_frame_merges_and_reports_event() {
    let mut settings = StreamSettings::new();
    settings.set_value(SETTING_LOW_POWER, 0);
    let frame = build_settings_frame(&vec![(SETTING_LOW_POWER, 1u64)]);
    let changed = handle_inbound_frame(&mut settings, &frame).unwrap();
    assert!(changed);
    assert_eq!(settings.low_power_preference(), 1);
}

#[test]
fn varint_round_trip() {
    for &v in &[0u64, 1, 127, 128, 300, 0xFFFF_FFFF, u64::MAX] {
        let mut buf = Vec::new();
        encode_varint(v, &mut buf);
        let (decoded, used) = decode_varint(&buf, 0).unwrap();
        assert_eq!(decoded, v);
        assert_eq!(used, buf.len());
    }
}

#[test]
fn frame_round_trip() {
    let f = Frame {
        frame_type: FrameType::Data,
        stream_id: 300,
        payload: vec![1, 2, 3, 4, 5],
    };
    let mut buf = Vec::new();
    encode_frame(&f, &mut buf);
    let (g, used) = match decode_frame(&buf, 0) {
        Ok(p) => p,
        Err(e) => panic!("decode failed: {:?}", e),
    };
    assert_eq!(used, buf.len());
    assert_eq!(g.frame_type, FrameType::Data);
    assert_eq!(g.stream_id, 300);
    assert_eq!(g.payload, vec![1, 2, 3, 4, 5]);
}

#[test]
fn frame_rejects_truncation_and_bad_type() {
    let f = Frame {
        frame_type: FrameType::Ping,
        stream_id: 7,
        payload: vec![9; 10],
    };
    let mut buf = Vec::new();
    encode_frame(&f, &mut buf);
    let truncated = buf[..buf.len() - 1].to_vec();
    assert!(matches!(decode_frame(&truncated, 0), Err(NyxError::FrameMalformed)));
    let bad_type = vec![99u8, 0, 0];
    assert!(matches!(decode_frame(&bad_type, 0), Err(NyxError::FrameMalformed)));
}

#[test]
fn cell_is_always_1280_bytes() {
    let cell = Cell {
        version: 1,
        flags: 0,
        epoch: 0xA1B2C3D4,
        nonce: vec![7; 12],
        ciphertext: vec![42; 1246],
        tag: vec![9; 16],
    };
    let bytes = encode_cell(&cell);
    assert_eq!(bytes.len(), CELL_SIZE);
    let back = decode_cell(&bytes).unwrap();
    assert_eq!(back.version, 1);
    assert_eq!(back.epoch, 0xA1B2C3D4);
    assert_eq!(back.nonce, vec![7; 12]);
    assert_eq!(back.tag, vec![9; 16]);
    assert!(matches!(decode_cell(&vec![0u8; 100]), Err(NyxError::FrameMalformed)));
}

#[test]
fn aead_seal_open_round_trip() {
    let key = vec![3u8; 32];
    let nonce = vec![5u8; 12];
    let aad = vec![1u8, 2];
    let pt = vec![10u8, 20, 30];
    let ct = aead_seal(&key, &nonce, &aad, &pt);
    assert_eq!(ct.len(), pt.len() + 16);
    assert_eq!(aead_open(&key, &nonce, &aad, &ct), Some(pt.clone()));
    // a flipped byte fails authentication
    let mut bad = ct.clone();
    bad[0] ^= 1;
    assert_eq!(aead_open(&key, &nonce, &aad, &bad), None);
}

#[test]
fn pcr_rekey_zeroizes_and_replaces() {
    let mut key = SessionKey(vec![7u8; 32]);
    let next = pcr_rekey(&mut key);
    assert_eq!(key.0, vec![0u8; 32]);
    assert_eq!(next.0.len(), 32);
    assert_ne!(next.0, vec![7u8; 32]);
}

#[test]
fn replay_window_rejects_seen_and_stale() {
    let mut w = ReplayWindow::new();
    assert!(w.check_and_update(5).is_ok());
    assert_eq!(w.check_and_update(5), Err(NyxError::ReplayDetected));
    assert!(w.check_and_update(100).is_ok());
    // 5 has fallen out of the 64-wide window
    assert_eq!(w.check_and_update(6), Err(NyxError::ReplayDetected));
    assert!(w.check_and_update(99).is_ok());
}

#[test]
fn session_nonces_move_forward_and_replays_are_rejected() {
    let k1 = SessionKey(vec![1u8; 32]);
    let k2 = SessionKey(vec![2u8; 32]);
    let mut alice = Session::new(1, k1, k2, 0, true);
    let mut bob = Session::new(1, SessionKey(vec![2u8; 32]), SessionKey(vec![1u8; 32]), 0, false);
    let aad = Vec::new();
    let (n0, ct0) = alice.seal(&aad, &vec![1, 2, 3]).unwrap();
    let (n1, ct1) = alice.seal(&aad, &vec![4, 5, 6]).unwrap();
    assert_eq!(n0, 0);
    assert_eq!(n1, 1);
    assert_eq!(bob.open(n0, &aad, &ct0).unwrap(), vec![1, 2, 3]);
    assert_eq!(bob.open(n1, &aad, &ct1).unwrap(), vec![4, 5, 6]);
    // replaying the same nonce and ciphertext is rejected
    assert_eq!(bob.open(n0, &aad, &ct0), Err(NyxError::ReplayDetected));
    // a tampered ciphertext under a fresh nonce is an integrity failure
    let (n2, mut ct2) = alice.seal(&aad, &vec![7]).unwrap();
    ct2[0] ^= 1;
    assert_eq!(bob.open(n2, &aad, &ct2), Err(NyxError::HandshakeFailed));
}

#[test]
fn noise_round_trip() {
    let mut initiator = NoiseHandshake::new_initiator().expect("initiator");
    let mut responder = NoiseHandshake::new_responder().expect("responder");

    let msg1 = initiator.write_message(&b"test".to_vec()).expect("write msg1");
    let payload1 = responder.read_message(&msg1).expect("read msg1");
    assert_eq!(payload1, b"test".to_vec());

    let msg2 = responder.write_message(&b"hello".to_vec()).expect("write msg2");
    let payload2 = initiator.read_message(&msg2).expect("read msg2");
    assert_eq!(payload2, b"hello".to_vec());

    let msg3 = initiator.write_message(&b"done".to_vec()).expect("write msg3");
    let payload3 = responder.read_message(&msg3).expect("read msg3");
    assert_eq!(payload3, b"done".to_vec());

    let (atx, arx) = initiator.session_keys().expect("initiator keys");
    let (btx, brx) = responder.session_keys().expect("responder keys");
    assert_eq!(atx.0, brx.0);
    assert_eq!(arx.0, btx.0);
    assert_ne!(atx.0, arx.0);
}

#[test]
fn noise_out_of_turn_message_fails() {
    let mut responder = NoiseHandshake::new_responder().expect("responder");
    // a responder never writes the first message
    assert_eq!(
        responder.write_message(&b"x".to_vec()),
        Err(NyxError::HandshakeFailed)
    );
}

#[test]
fn timing_defaults_and_delay_clamp() {
    let config = TimingConfig::default();
    assert_eq!(config.mean_ms, 20);
    assert_eq!(config.sigma_ms, 10);
    assert_eq!(release_delay_ms(15, -100), 0);
    assert_eq!(release_delay_ms(15, 5), 20);
    assert_eq!(release_delay_ms(15, 0), 15);
}

#[test]
fn delays_within_expected_distribution() {
    // mean 15 ms, sigma 5 ms: the sampled release delay stays within
    // [0, 60] ms (mean + ~9 sigma, for test stability)
    let mut rng = rand::thread_rng();
    let noise: f64 = rng.sample(rand_distr::Normal::new(0.0, 5.0).unwrap());
    let delay = release_delay_ms(15, noise as i64);
    assert!(delay <= 60, "elapsed {}ms too large", delay);
}

#[test]
fn delay_queue_releases_in_deadline_order() {
    let mut q = DelayQueue::new(16);
    q.enqueue(50, Packet(vec![1])).unwrap();
    q.enqueue(10, Packet(vec![2])).unwrap();
    q.enqueue(30, Packet(vec![3])).unwrap();
    // nothing due yet
    assert!(q.pop_due(5).is_none());
    let (d1, p1) = q.pop_due(100).unwrap();
    assert_eq!((d1, p1.0), (10, vec![2]));
    let (d2, p2) = q.pop_due(100).unwrap();
    assert_eq!((d2, p2.0), (30, vec![3]));
    let (d3, p3) = q.pop_due(100).unwrap();
    assert_eq!((d3, p3.0), (50, vec![1]));
    assert!(q.pop_due(100).is_none());
}

#[test]
fn delay_queue_blocks_only_on_capacity() {
    let mut q = DelayQueue::new(1);
    assert!(q.enqueue(1000, Packet(vec![1])).is_ok());
    // a full queue refuses immediately, whatever the delay is
    assert!(q.enqueue(0, Packet(vec![2])).is_err());
}

#[test]
fn cover_packets_are_full_cells() {
    let pkt = cover_packet();
    assert_eq!(pkt.0.len(), nyx::cell::CELL_SIZE);
    assert!(pkt.0.iter().all(|&b| b == 0));
}

#[test]
fn rekey_rotates_keys_and_restarts_counters() {
    let mut alice = Session::new(7, SessionKey(vec![1u8; 32]), SessionKey(vec![2u8; 32]), 0, true);
    let mut bob = Session::new(7, SessionKey(vec![2u8; 32]), SessionKey(vec![1u8; 32]), 0, false);
    let aad = Vec::new();
    let (n0, ct0) = alice.seal(&aad, &vec![1]).unwrap();
    assert_eq!(bob.open(n0, &aad, &ct0).unwrap(), vec![1]);
    alice.rekey().unwrap();
    bob.rekey().unwrap();
    // counters restart under the new epoch and keys; traffic still flows
    let (m0, dt0) = alice.seal(&aad, &vec![9, 9]).unwrap();
    assert_eq!(m0, 0);
    assert_eq!(bob.open(m0, &aad, &dt0).unwrap(), vec![9, 9]);
    // the old-epoch ciphertext no longer opens under the rotated keys
    let mut carol = Session::new(7, SessionKey(vec![2u8; 32]), SessionKey(vec![1u8; 32]), 0, false);
    carol.rekey().unwrap();
    assert!(carol.open(n0, &aad, &ct0).is_err());
}
