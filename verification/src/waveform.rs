//! Geometry of the microphone waveform view.
//!
//! Each channel is drawn as `POINTS` columns, two pixels wide, each showing
//! the loudest sample of `FRAMES_PER_POINT` consecutive frames, scaled to at
//! most `AMPLITUDE_PIXELS` above or below the centre line.

use vstd::prelude::*;

verus! {

/// Columns per channel.
pub const POINTS: usize = 128;
/// Captured frames summarised by one column.
pub const FRAMES_PER_POINT: usize = 4;
/// Largest distance of a trace from the centre line, in pixels.
pub const AMPLITUDE_PIXELS: i32 = 48;
/// Width of one channel's canvas: two pixels per column.
pub const CANVAS_WIDTH: usize = 256;
/// Height of one channel's canvas.
pub const CANVAS_HEIGHT: usize = 97;
/// Row of the centre line within a canvas.
pub const CENTER_Y: i32 = 48;
/// Left edge of the canvases on the screen.
pub const CANVAS_X: usize = 54;
/// Top of the left channel's canvas.
pub const LEFT_CANVAS_Y: usize = 20;
/// Top of the right channel's canvas.
pub const RIGHT_CANVAS_Y: usize = 138;

/// One rendered waveform: the pixel offset of each column from the centre
/// line, for both channels.
#[derive(Clone, Copy, Debug, PartialEq, Eq)]
pub struct WaveformFrame {
    /// Left channel columns.
    pub left: [i8; POINTS],
    /// Right channel columns.
    pub right: [i8; POINTS],
}

impl WaveformFrame {
    /// A flat line on both channels.
    pub fn silent() -> (r: WaveformFrame)
        ensures
            forall|i: int| 0 <= i < POINTS ==> r.left@[i] == 0 && r.right@[i] == 0,
    {
        WaveformFrame { left: [0; POINTS], right: [0; POINTS] }
    }
}

} // verus!
