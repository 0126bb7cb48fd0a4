use hack_and_hike::audio::{
    i16_from_le, saturating_mix, unsigned_abs, AudioBlockInfo, CaptureAssembler, LatestAudio,
    PitchSemitones, PlaybackEngine, PlaybackSettings, TempoBpm, BLOCK_FRAMES, BLOCK_SAMPLES,
};
use hack_and_hike::board::{backlight_code, logical_display_point, merge_bits};
use hack_and_hike::diagnostics::RuntimeCounters;
use hack_and_hike::models::ImuDisplay;
use hack_and_hike::service_inputs::{Cpu0Inputs, ImuSnapshot};
use hack_and_hike::slots::EDGE_CAPACITY;
use hack_and_hike::touch::{
    decode_sample, take_latest_point, try_take_edge, TouchChannel, TouchEdge, TouchPoint,
    TouchSample, TouchTracker,
};

#[test]
fn touch_decode_rotates_into_display() {
    assert_eq!(decode_sample(false, [1, 0, 0, 0, 0]), TouchSample::ReadError);
    assert_eq!(decode_sample(true, [0, 0, 10, 0, 20]), TouchSample::Up);
    assert_eq!(
        decode_sample(true, [1, 0x00, 10, 0x00, 20]),
        TouchSample::Down(TouchPoint { x: 309, y: 219 })
    );
    assert_eq!(
        decode_sample(true, [1, 0x81, 0x3F, 0xF0, 0xEF]),
        TouchSample::Down(TouchPoint { x: 0, y: 0 })
    );
    assert_eq!(decode_sample(true, [1, 0x01, 0x40, 0x00, 0x00]), TouchSample::ReadError);
    assert_eq!(decode_sample(true, [1, 0x00, 0x00, 0x00, 0xF0]), TouchSample::ReadError);
}

#[test]
fn touch_tracker_edges_alternate() {
    let mut tracker = TouchTracker::new();
    let a = TouchPoint { x: 10, y: 20 };
    let b = TouchPoint { x: 11, y: 20 };
    let step = tracker.step(TouchSample::Down(a));
    assert_eq!(step.edge, Some(TouchEdge::Pressed(a)));
    assert_eq!(step.point, Some(a));
    let step = tracker.step(TouchSample::Down(a));
    assert_eq!(step.edge, None);
    assert_eq!(step.point, None);
    let step = tracker.step(TouchSample::Down(b));
    assert_eq!(step.edge, None);
    assert_eq!(step.point, Some(b));
    let step = tracker.step(TouchSample::ReadError);
    assert!(step.read_error);
    assert!(tracker.pressed);
    let step = tracker.step(TouchSample::Up);
    assert_eq!(step.edge, Some(TouchEdge::Released(b)));
    let step = tracker.step(TouchSample::Up);
    assert_eq!(step.edge, None);
}

#[test]
fn touch_channel_keeps_edge_order_up_to_capacity() {
    let mut channel = TouchChannel::new();
    for k in 0..EDGE_CAPACITY {
        assert!(channel.try_publish_edge(TouchEdge::Pressed(TouchPoint { x: k as u16, y: 0 })));
    }
    assert!(!channel.try_publish_edge(TouchEdge::Released(TouchPoint { x: 99, y: 0 })));
    for k in 0..EDGE_CAPACITY {
        assert_eq!(
            try_take_edge(&mut channel),
            Some(TouchEdge::Pressed(TouchPoint { x: k as u16, y: 0 }))
        );
    }
    assert_eq!(try_take_edge(&mut channel), None);
}

#[test]
fn touch_point_is_replace_latest() {
    let mut channel = TouchChannel::new();
    assert_eq!(take_latest_point(&mut channel), None);
    channel.publish_point(TouchPoint { x: 1, y: 1 });
    channel.publish_point(TouchPoint { x: 2, y: 3 });
    assert_eq!(take_latest_point(&mut channel), Some(TouchPoint { x: 2, y: 3 }));
    assert_eq!(take_latest_point(&mut channel), None);
}

#[test]
fn inputs_start_empty_and_collapse_to_newest() {
    let mut inputs = Cpu0Inputs::from_static_services();
    assert_eq!(inputs.touch.next_edge(), None);
    assert_eq!(inputs.touch.take_latest_point(), None);
    assert_eq!(inputs.imu.take_latest(), None);
    assert!(inputs.network.take_latest().is_none());
    let mut block = [0i16; BLOCK_SAMPLES];
    let latest = LatestAudio::new();
    assert_eq!(inputs.audio.copy_latest_interleaved(Some(&latest), &mut block), None);

    let display = ImuDisplay::starting();
    inputs.imu.publish(ImuSnapshot { revision: 1, display });
    inputs.imu.publish(ImuSnapshot { revision: 2, display });
    assert_eq!(inputs.imu.take_latest().map(|s| s.revision), Some(2));
    assert_eq!(inputs.imu.take_latest(), None);
}

#[test]
fn audio_block_published_and_copied() {
    let mut inputs = Cpu0Inputs::new();
    let mut samples = [0i16; BLOCK_SAMPLES];
    samples[0] = -5;
    samples[1023] = 7;
    let mut latest = LatestAudio::new();
    let sequence = latest.publish(&samples, 5, 7);
    assert_eq!(sequence, 1);
    let mut out = [1i16; BLOCK_SAMPLES];
    assert_eq!(inputs.audio.copy_latest_interleaved(None, &mut out), None);
    assert_eq!(out[0], 1);
    let info = inputs.audio.copy_latest_interleaved(Some(&latest), &mut out).unwrap();
    assert_eq!(info, AudioBlockInfo { sequence: 1, peak_left: 5, peak_right: 7 });
    assert_eq!(out[0], -5);
    assert_eq!(out[1023], 7);
    assert_eq!(out[500], 0);
}

#[test]
fn latest_audio_sequence_counts() {
    let mut latest = LatestAudio::new();
    let block = [3i16; BLOCK_SAMPLES];
    assert_eq!(latest.publish(&block, 3, 3), 1);
    assert_eq!(latest.publish(&block, 3, 3), 2);
}

#[test]
fn capture_assembles_block_with_peaks() {
    let mut assembler = CaptureAssembler::new();
    let mut finished = None;
    for frame in 0..BLOCK_FRAMES {
        let left: i16 = if frame == 3 { -300 } else { 10 };
        let right: i16 = if frame == 9 { 1200 } else { -20 };
        let l = left.to_le_bytes();
        let r = right.to_le_bytes();
        let out = assembler.push_frame([l[0], l[1], r[0], r[1]]);
        if frame + 1 < BLOCK_FRAMES {
            assert_eq!(out, None);
        } else {
            finished = out;
        }
    }
    assert_eq!(finished, Some((300, 1200)));
    let samples = assembler.samples();
    assert_eq!(samples[6], -300);
    assert_eq!(samples[19], 1200);
    assert_eq!(samples[0], 10);
    assert_eq!(samples[1], -20);
}

#[test]
fn sample_arithmetic() {
    assert_eq!(saturating_mix(30000, 10000), i16::MAX);
    assert_eq!(saturating_mix(-30000, -10000), i16::MIN);
    assert_eq!(saturating_mix(100, -50), 50);
    assert_eq!(i16_from_le(0x34, 0x12), 0x1234);
    assert_eq!(i16_from_le(0xFF, 0xFF), -1);
    assert_eq!(unsigned_abs(i16::MIN), 32768);
    assert_eq!(unsigned_abs(-7), 7);
}

#[test]
fn playback_settings_bounds() {
    assert!(TempoBpm::new(59).is_none());
    assert_eq!(TempoBpm::new(60).unwrap().get(), 60);
    assert!(TempoBpm::new(181).is_none());
    assert_eq!(TempoBpm::default_tempo().get(), 120);
    assert!(PitchSemitones::new(13).is_none());
    assert_eq!(PitchSemitones::new(-12).unwrap().get(), -12);
    assert_eq!(PitchSemitones::center().get(), 0);
    let settings = PlaybackSettings::default_settings();
    assert!(!settings.melody_playing);
    assert_eq!(settings.tempo.get(), 120);
}

#[test]
fn playback_frames_are_duplicated_stereo() {
    let mut engine = PlaybackEngine::new();
    assert_eq!(engine.pending_len(), 0);
    let mut bytes = [0u8; 6];
    let n = engine.fill(&mut bytes, &[0x0102, -2]);
    assert_eq!(n, 6);
    assert_eq!(bytes, [0x02, 0x01, 0x02, 0x01, 0xFE, 0xFF]);
    assert_eq!(engine.pending_len(), 2);
    let settings = PlaybackSettings::default_settings();
    assert_eq!(PlaybackEngine::frame_sample(settings, 1000, 5), 5);
}

#[test]
fn board_encodings() {
    assert_eq!(logical_display_point(0, 0), (319, 239));
    assert_eq!(logical_display_point(319, 239), (0, 0));
    assert_eq!(backlight_code(0), 0x15);
    assert_eq!(backlight_code(1), 0x15);
    assert_eq!(backlight_code(100), 0x1C);
    assert_eq!(backlight_code(255), 0x1C);
    assert_eq!(backlight_code(50), 0x18);
    assert_eq!(merge_bits(0b1010_1010, 0b0000_1111, 0b0101_0101), 0b1010_0101);
}

#[test]
fn counters_wrap() {
    let mut counters = RuntimeCounters::new();
    counters.record_touch_edge_drop();
    counters.record_network_rx_packet();
    counters.record_network_rx_packet();
    let snapshot = counters.snapshot();
    assert_eq!(snapshot.touch_edge_drops, 1);
    assert_eq!(snapshot.network_rx_packets, 2);
    assert_eq!(snapshot.audio_capture_errors, 0);
}

#[test]
fn touch_run_through_channel_alternates_and_stays_on_panel() {
    let mut tracker = TouchTracker::new();
    let mut channel = TouchChannel::new();
    let reads: [(bool, [u8; 5]); 7] = [
        (true, [1, 0x00, 10, 0x00, 20]),
        (true, [1, 0x00, 12, 0x00, 20]),
        (false, [0; 5]),
        (true, [1, 0x0F, 0xFF, 0x00, 20]),
        (true, [0, 0, 0, 0, 0]),
        (true, [1, 0x01, 0x00, 0x00, 0x10]),
        (true, [0, 0, 0, 0, 0]),
    ];
    for (read_ok, data) in reads {
        let step = tracker.step(decode_sample(read_ok, data));
        if let Some(point) = step.point {
            channel.publish_point(point);
        }
        if let Some(edge) = step.edge {
            assert!(channel.try_publish_edge(edge));
        }
    }
    let mut edges = Vec::new();
    while let Some(edge) = try_take_edge(&mut channel) {
        edges.push(edge);
    }
    assert_eq!(
        edges,
        vec![
            TouchEdge::Pressed(TouchPoint { x: 309, y: 219 }),
            TouchEdge::Released(TouchPoint { x: 307, y: 219 }),
            TouchEdge::Pressed(TouchPoint { x: 63, y: 223 }),
            TouchEdge::Released(TouchPoint { x: 63, y: 223 }),
        ]
    );
    let last = take_latest_point(&mut channel).unwrap();
    assert!(last.x < 320 && last.y < 240);
    assert_eq!(take_latest_point(&mut channel), None);
}

#[test]
fn split_fill_writes_what_one_fill_writes() {
    let samples = [0x0102i16, -2, 0x7FFF, 5];
    let mut whole = PlaybackEngine::new();
    let mut one = [0u8; 14];
    whole.fill(&mut one, &samples);

    let mut split = PlaybackEngine::new();
    let mut first = [0u8; 5];
    split.fill(&mut first, &samples[..2]);
    let mut second = [0u8; 9];
    split.fill(&mut second, &samples[2..]);
    assert_eq!([&first[..], &second[..]].concat(), one.to_vec());
    assert_eq!(split.pending_len(), whole.pending_len());
}
