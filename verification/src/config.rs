use vstd::prelude::*;

verus! {

/// Number of phase bins around the virtual wheel.
pub const STROBE_BINS: usize = 240;

/// Upper bound on samples buffered between the audio callback and the UI loop.
/// If the consumer falls behind, the oldest samples are dropped.
pub const MAX_QUEUED_SAMPLES: usize = 19_200;

/// Event-poll / frame budget in milliseconds (~60 fps).
pub const FRAME_POLL_MS: u64 = 16;

/// Clamp for the transpose control, in semitones.
pub const TRANSPOSE_LIMIT: i32 = 12;

/// Frames a candidate must stay the winner before the first lock.
pub const DETECT_HOLD_FRAMES: u32 = 4;

/// Frames a *different* string must stay the winner before it replaces the
/// current selection.
pub const DETECT_SWITCH_FRAMES: u32 = 16;

} // verus!
