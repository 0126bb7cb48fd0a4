use hack_and_hike::imu::{bit_count_u32, bit_count_u8};
use hack_and_hike::memory::{update_cpu0_stack_watermark, update_cpu1_stack_watermark};
use hack_and_hike::imu::{
    decode_mag_frame, mag_usable, sample_timing, sensor_time, status_for, MagStatus, MagTracker,
    ReadErrors, Status, Trim, MAX_FUSION_SAMPLE_GAP_TICKS, NOMINAL_FUSION_TICKS,
};
use hack_and_hike::memory::{
    cpu0_stack_snapshot, init_cpu0_stack_watermark, init_cpu1_stack_watermark, pressure_for,
    report, scan_stack_watermark, AllocatorStats, HeapMonitor, HeapPressure, HeapSnapshot,
    StackSnapshot, STACK_WATERMARK_PATTERN,
};

fn stats(size: usize, used: usize, allocated: u64, freed: u64) -> AllocatorStats {
    AllocatorStats { size, current_usage: used, max_usage: used, total_allocated: allocated, total_freed: freed }
}

fn snapshot(free_internal: usize, allocated: u64, freed: u64) -> HeapSnapshot {
    let size = 200 * 1024;
    HeapSnapshot::capture(
        stats(size, size - free_internal, allocated, freed),
        stats(8 << 20, 1 << 20, 0, 0),
        StackSnapshot { size: 64 * 1024, headroom: 40 * 1024 },
        30 * 1024,
        0x4000_0000,
        0x4001_0000,
        20 * 1024,
    )
}

#[test]
fn watermark_range_avoids_guard_and_live_stack() {
    let w = init_cpu0_stack_watermark(0x3FC8_0000, 0x3FC9_0000, 0x3FC8_F000).unwrap();
    assert_eq!(w.start, 0x3FC8_0100);
    assert_eq!(w.end, 0x3FC8_EF00);
    assert_eq!(w.min_headroom, 0xEF00);

    let unaligned = init_cpu0_stack_watermark(0x1001, 0x2000, 0x1F03).unwrap();
    assert_eq!(unaligned.start, 0x1104);
    assert_eq!(unaligned.end, 0x1E00);

    assert_eq!(init_cpu0_stack_watermark(0x1000, 0x2000, 0x1150), None);
}

#[test]
fn cpu1_watermark_needs_registered_stack() {
    assert_eq!(init_cpu1_stack_watermark(0, 0x2000, 0x1F00), None);
    assert_eq!(init_cpu1_stack_watermark(0x2000, 0x2000, 0x1F00), None);
    assert!(init_cpu1_stack_watermark(0x1000, 0x2000, 0x1F00).is_some());
}

#[test]
fn scan_finds_deepest_use() {
    let p = STACK_WATERMARK_PATTERN;
    let words = [p, p, 0x1234, p];
    assert_eq!(scan_stack_watermark(0x1000, 0x1100, 0x1110, &words), Some(0x108));
    assert_eq!(scan_stack_watermark(0x1000, 0x1100, 0x1110, &[p, p, p, p]), Some(0x110));
    assert_eq!(scan_stack_watermark(0x1000, 0, 0x1110, &[]), None);
    assert_eq!(scan_stack_watermark(0x1000, 0x1110, 0x1110, &[]), None);
}

#[test]
fn stack_snapshot_saturates() {
    let s = cpu0_stack_snapshot(0x1500, 0x1000, 0x2000);
    assert_eq!(s.size, 0x1000);
    assert_eq!(s.headroom, 0x500);
    assert_eq!(cpu0_stack_snapshot(0x0F00, 0x1000, 0x0800).headroom, 0);
}

#[test]
fn pressure_thresholds() {
    assert_eq!(pressure_for(16 * 1024), HeapPressure::Critical);
    assert_eq!(pressure_for(16 * 1024 + 1), HeapPressure::Low);
    assert_eq!(pressure_for(32 * 1024), HeapPressure::Low);
    assert_eq!(pressure_for(32 * 1024 + 1), HeapPressure::Normal);
}

#[test]
fn report_in_kib() {
    let r = report(&snapshot(100 * 1024, 0, 0));
    assert_eq!(r.internal_free_kib, 100);
    assert_eq!(r.internal_size_kib, 200);
    assert_eq!(r.psram_free_kib, 7 * 1024);
    assert_eq!(r.cpu1_stack_kib, 64);
    assert_eq!(r.cpu1_min_kib, 20);
}

#[test]
fn monitor_reports_pressure_changes_and_periods() {
    let mut monitor = HeapMonitor::new(0, snapshot(100 * 1024, 1000, 500));
    assert_eq!(monitor.pressure, HeapPressure::Normal);
    let quiet = monitor.poll(1000, snapshot(90 * 1024, 1100, 600));
    assert_eq!(quiet.pressure_changed, None);
    assert_eq!(quiet.periodic, None);
    let low = monitor.poll(2000, snapshot(20 * 1024, 1200, 700));
    assert_eq!(low.pressure_changed, Some(HeapPressure::Low));
    assert!(!monitor.periodic_due(9999));
    assert!(monitor.periodic_due(10_000));
    let periodic = monitor.poll(10_000, snapshot(50 * 1024, 5000, 4000)).periodic.unwrap();
    assert_eq!(periodic.allocated_delta, 4000);
    assert_eq!(periodic.freed_delta, 3500);
    assert_eq!(periodic.min_internal_free, 20 * 1024);
    assert_eq!(monitor.pressure, HeapPressure::Normal);
}

#[test]
fn activity_window_reports_overlap() {
    let mut monitor = HeapMonitor::new(0, snapshot(100 * 1024, 0, 0));
    assert!(monitor.end_activity(snapshot(100 * 1024, 0, 0)).is_none());
    monitor.begin_activity("render", snapshot(100 * 1024, 10, 10));
    let activity = monitor.end_activity(snapshot(99 * 1024, 1034, 10)).unwrap();
    assert_eq!(activity.label, "render");
    assert_eq!(activity.allocated, 1024);
    assert_eq!(activity.freed, 0);
    assert_eq!(activity.live_delta, 1024);
    assert!(activity.retained);
    monitor.begin_activity("idle", snapshot(100 * 1024, 10, 10));
    assert!(monitor.end_activity(snapshot(100 * 1024, 10, 10)).is_none());
    assert_eq!(monitor.min_internal_free, 99 * 1024);
}

#[test]
fn trim_from_registers() {
    let trim = Trim::from_registers([0xFE, 0x02], [0x34, 0x12, 0x80, 0x7F], [
        0x10, 0x20, 0x30, 0x40, 0x50, 0xE0, 0x70, 0x80, 0xF0, 0x99,
    ]);
    assert_eq!(trim.dig_x1, -2);
    assert_eq!(trim.dig_y1, 2);
    assert_eq!(trim.dig_x2, -128);
    assert_eq!(trim.dig_y2, 127);
    assert_eq!(trim.dig_z4, 0x1234);
    assert_eq!(trim.dig_z2, 0x2010);
    assert_eq!(trim.dig_z1, 0x4030);
    assert_eq!(trim.dig_xyz1, 0x6050);
    assert_eq!(trim.dig_z3, -32656);
    assert_eq!(trim.dig_xy2, -16);
    assert_eq!(trim.dig_xy1, 0x99);
}

#[test]
fn mag_frame_fields() {
    let raw = decode_mag_frame([0xF8, 0xFF, 0x10, 0x00, 0xFE, 0xFF, 0x09, 0x01]);
    assert_eq!(raw.x, -1);
    assert_eq!(raw.y, 2);
    assert_eq!(raw.z, -1);
    assert_eq!(raw.rhall, 0x109 / 4);
    assert!(raw.data_ready);
    let overflow = decode_mag_frame([0x00, 0x80, 0, 0, 0, 0, 0, 0]);
    assert_eq!(overflow.x, -4096);
    let trim = Trim::from_registers([0; 2], [0; 4], [1, 0, 1, 0, 1, 0, 0, 0, 0, 0]);
    assert!(mag_usable(raw, trim));
    assert!(!mag_usable(overflow, trim));
    let no_trim = Trim::from_registers([0; 2], [0; 4], [0; 10]);
    assert!(!mag_usable(raw, no_trim));
}

#[test]
fn sensor_time_steps() {
    assert_eq!(sensor_time(0x01, 0x02, 0x03), 0x030201);
    let first = sample_timing(None, 1000);
    assert_eq!(first.integration_ticks, NOMINAL_FUSION_TICKS);
    assert!(!first.timing_gap);
    let normal = sample_timing(Some(1000), 1256);
    assert_eq!(normal.integration_ticks, 256);
    assert!(!normal.timing_gap);
    let wrapped = sample_timing(Some(0xFF_FF00), 0x40);
    assert_eq!(wrapped.integration_ticks, 0x140);
    let gap = sample_timing(Some(0), MAX_FUSION_SAMPLE_GAP_TICKS + 1);
    assert!(gap.timing_gap);
    assert_eq!(gap.integration_ticks, NOMINAL_FUSION_TICKS);
    assert!(sample_timing(Some(5), 5).timing_gap);
}

#[test]
fn magnetometer_needs_good_run_before_ready() {
    let mut mag = MagTracker::new(true, 0);
    assert_eq!(mag.status, MagStatus::Learning);
    assert!(!mag.accept_vector(10, true, false, false));
    assert_eq!(mag.status, MagStatus::Learning);
    for k in 0..7 {
        assert!(!mag.accept_vector(20 + k, true, true, true));
    }
    assert_eq!(mag.status, MagStatus::Learning);
    assert!(mag.accept_vector(30, true, true, true));
    assert_eq!(mag.status, MagStatus::Ready);
    assert!(!mag.accept_vector(31, true, true, false));
    assert_eq!(mag.status, MagStatus::Ready);
    assert!(mag.accept_vector(32, true, true, true));
}

#[test]
fn magnetometer_disturbed_after_bad_run() {
    let mut mag = MagTracker::new(true, 0);
    for _ in 0..29 {
        mag.invalid_frame();
    }
    assert_eq!(mag.status, MagStatus::Learning);
    mag.invalid_frame();
    assert_eq!(mag.status, MagStatus::Disturbed);
    assert_eq!(status_for(mag.status), Status::Degraded);
}

#[test]
fn magnetometer_goes_stale_and_retries() {
    let mut mag = MagTracker::new(true, 0);
    assert!(mag.finish_sample(999, true));
    assert!(!mag.finish_sample(1000, true));
    assert_eq!(mag.status, MagStatus::Missing);

    let mut absent = MagTracker::new(false, 0);
    assert!(!absent.retry_due(4999));
    assert!(absent.retry_due(5000));
    assert!(!absent.retry_due(5001));
    absent.recovered(6000);
    assert!(absent.present);
    assert_eq!(absent.status, MagStatus::Learning);
    assert_eq!(status_for(absent.status), Status::Running);
}

#[test]
fn magnetometer_new_frames() {
    let mut mag = MagTracker::new(true, 0);
    assert!(mag.take_frame([1; 8]));
    assert!(!mag.take_frame([1; 8]));
    assert!(mag.take_frame([2; 8]));
}

#[test]
fn read_errors_trigger_reinit() {
    let mut errors = ReadErrors::new();
    for _ in 0..9 {
        assert!(!errors.record_error());
    }
    assert!(errors.record_error());
    errors.record_ok();
    assert_eq!(errors.consecutive, 0);
}

#[test]
fn status_numbers() {
    assert_eq!(Status::Fault.as_i32(), 3);
    assert_eq!(MagStatus::Disturbed.as_i32(), 3);
    assert_eq!(MagStatus::Missing.as_i32(), 0);
}

#[test]
fn bit_counts() {
    assert_eq!(bit_count_u32(0), 0);
    assert_eq!(bit_count_u32(u32::MAX), 32);
    assert_eq!(bit_count_u32(0b1011_0000), 3);
    assert_eq!(bit_count_u8(0xFF), 8);
    assert_eq!(bit_count_u8(0x81), 2);
}

#[test]
fn watermark_updates_keep_recorded_value_without_paint() {
    let p = STACK_WATERMARK_PATTERN;
    assert_eq!(update_cpu0_stack_watermark(77, 0x1000, 0, 0, &[]), 77);
    assert_eq!(update_cpu0_stack_watermark(77, 0x1000, 0x1100, 0x1108, &[0, p]), 0x100);
    assert_eq!(update_cpu1_stack_watermark(5, 0x1000, 0x1100, 0x1108, &[p, p]), 0x108);
}
