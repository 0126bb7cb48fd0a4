use hack_and_hike::audio::{LatestAudio, BLOCK_SAMPLES};
use hack_and_hike::logger::LogStore;
use hack_and_hike::models::{
    quantize_waveform, AppModel, ImuDisplay, LogModel, NetworkModel, ViewId, ViewTransition,
    WaveformModel, LOG_VISIBLE_LINES,
};
use hack_and_hike::network::{default_config, NetworkState};
use hack_and_hike::protocol::DeviceId;
use hack_and_hike::service_inputs::{Cpu0Inputs, ImuSnapshot};

fn network_snapshot(revision_bumps: u32) -> hack_and_hike::network::Snapshot {
    let id = DeviceId::try_from_bytes([1, 2, 3, 4, 5, 6]).unwrap();
    let mut state = NetworkState::new(id, default_config());
    for _ in 0..revision_bumps {
        state.bump_revision();
    }
    state.snapshot(0)
}

#[test]
fn view_numbers() {
    for (n, view) in ViewId::all().iter().enumerate() {
        assert_eq!(view.as_i32(), n as i32);
        assert_eq!(ViewId::from_i32(n as i32), Some(*view));
    }
    assert_eq!(ViewId::from_i32(5), None);
    assert_eq!(ViewId::from_i32(-1), None);
}

#[test]
fn quantize_scales_and_clamps() {
    assert_eq!(quantize_waveform(1024, 1024), 48);
    assert_eq!(quantize_waveform(512, 1024), 24);
    assert_eq!(quantize_waveform(-512, 1024), -24);
    assert_eq!(quantize_waveform(-21, 1024), 0);
    assert_eq!(quantize_waveform(30000, 1024), 48);
    assert_eq!(quantize_waveform(-30000, 1024), -48);
}

#[test]
fn network_model_refreshes_on_period_and_revision() {
    let mut inputs = Cpu0Inputs::new();
    let mut model = NetworkModel::new(0);
    model.mark_dirty();
    assert!(model.take_display().is_none());
    inputs.network.publish(network_snapshot(1));
    model.update_if_due(100, &mut inputs.network);
    assert!(model.take_display().is_none());
    model.update_if_due(200, &mut inputs.network);
    let shown = model.take_display().unwrap();
    assert_eq!(shown.revision, 1);
    assert!(model.take_display().is_none());
    inputs.network.publish(network_snapshot(1));
    model.update_if_due(400, &mut inputs.network);
    assert!(model.take_display().is_none());
    model.mark_dirty();
    assert_eq!(model.take_display().map(|s| s.revision), Some(1));
}

#[test]
fn waveform_model_builds_columns() {
    let mut inputs = Cpu0Inputs::new();
    let mut model = WaveformModel::new(0);
    assert!(model.take_frame().is_some());
    let mut block = [0i16; BLOCK_SAMPLES];
    block[0] = 2048;
    block[3] = -1024;
    block[8] = -100;
    block[10] = 50;
    let mut latest = LatestAudio::new();
    latest.publish(&block, 2048, 1024);
    model.update_if_due(32, &mut inputs.audio, None);
    assert_eq!(model.take_frame(), None);
    model.update_if_due(64, &mut inputs.audio, Some(&latest));
    let frame = model.take_frame().unwrap();
    assert_eq!(frame.left[0], 48);
    assert_eq!(frame.right[0], -48);
    assert_eq!(frame.left[1], -2);
    assert_eq!(frame.left[2], 0);
    assert_eq!(model.take_frame(), None);
    model.update_if_due(96, &mut inputs.audio, Some(&latest));
    assert_eq!(model.take_frame(), None);
}

#[test]
fn log_model_shows_trailing_lines() {
    let mut store = LogStore::new();
    for k in 0..30u8 {
        let line = [b'a' + (k % 26), b'\n'];
        store.push_back(&line);
    }
    let mut model = LogModel::new(0);
    model.refresh(&store);
    let text = model.take_text().unwrap().to_string();
    assert_eq!(text.lines().count(), LOG_VISIBLE_LINES);
    assert!(text.starts_with('h'));
    assert!(text.ends_with("d\n"));
    assert_eq!(model.take_text(), None);
}

#[test]
fn app_model_routes_by_active_view() {
    let mut inputs = Cpu0Inputs::new();
    let mut store = LogStore::new();
    store.push_back(b"[INFO] ready\n");
    let mut app = AppModel::new(0, &store);
    assert_eq!(app.active_view(), ViewId::Log);
    let shown = app.with_log_text(|text| text.len());
    assert_eq!(shown, Some(13));
    assert_eq!(app.with_log_text(|text| text.len()), None);
    assert_eq!(app.take_imu_display(), None);

    app.request_view(1);
    assert_eq!(app.active_view(), ViewId::Imu);
    let mut display = ImuDisplay::starting();
    display.roll_deg = 12;
    inputs.imu.publish(ImuSnapshot { revision: 7, display });
    app.update(40, &mut inputs.network, &mut inputs.imu, &mut inputs.audio, None, &store);
    assert_eq!(app.take_imu_display().map(|d| d.roll_deg), Some(12));
    assert_eq!(app.take_imu_display(), None);
    app.note_slint_redraw(true);
    assert_eq!(app.take_imu_display().map(|d| d.roll_deg), Some(12));

    app.request_view(9);
    assert_eq!(app.active_view(), ViewId::Imu);
    app.request_view(3);
    assert_eq!(app.active_view(), ViewId::Sound);
    assert_eq!(app.take_waveform_frame(), None);
    assert!(app.take_network_display().is_none());
}

#[test]
fn view_transition_only_when_views_differ() {
    assert!(ViewTransition::between(ViewId::Imu, ViewId::Imu).is_none());
    let t = ViewTransition::between(ViewId::Log, ViewId::Network).unwrap();
    assert_eq!(t.from, ViewId::Log);
    assert_eq!(t.to, ViewId::Network);
}
