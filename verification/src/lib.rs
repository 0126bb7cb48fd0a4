//! Verified core logic of the Hack & Hike firmware for the M5Stack CoreS3 Lite.
//!
//! The modules hold the parts of the firmware that compute: the ESP-NOW wire
//! protocol and peer table, the cross-core hand-over endpoints, the log
//! history rings, the presentation models, the touch and IMU decision logic,
//! the audio sample framing, the stack watermark and heap pressure policy,
//! and the board's register encodings. Hardware access, floating-point
//! sensor fusion and the async executors live outside this crate.

pub mod protocol;
pub mod network;
pub mod ring;
pub mod diagnostics;
pub mod board;
pub mod slots;
pub mod touch;
pub mod audio;
pub mod service_inputs;
pub mod waveform;
pub mod logger;
pub mod models;
pub mod memory;
pub mod imu;
pub mod live_views;
pub mod screen;
pub mod front_log;
