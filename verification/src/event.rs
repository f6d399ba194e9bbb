//! Gesture readings, as the input side hands them over.

use vstd::prelude::*;

verus! {

/// Fingers moving together. `dx` and `dy` are cumulative since the gesture
/// began.
#[derive(Clone, Copy, PartialEq, Eq, Structural, Debug)]
pub struct SwipeGesture {
    pub fingers: i32,
    pub dx: i32,
    pub dy: i32,
}

/// Fingers moving relative to each other. `dx`, `dy` and `scale` are
/// cumulative since the gesture began; `scale` is in thousandths.
#[derive(Clone, Copy, PartialEq, Eq, Structural, Debug)]
pub struct PinchGesture {
    pub fingers: i32,
    pub dx: i32,
    pub dy: i32,
    pub scale: u32,
}

/// Fingers resting in place since `begin_time`.
#[derive(Clone, Copy, PartialEq, Eq, Structural, Debug)]
pub struct HoldGesture {
    pub fingers: i32,
    pub begin_time: u32,
}

/// One step of the input stream.
#[derive(Clone, Copy, PartialEq, Eq, Structural, Debug)]
pub enum GestureEvent {
    /// A gesture with this many fingers begins.
    Begin { fingers: i32 },
    /// A swipe in progress reports a new reading.
    Swipe(SwipeGesture),
    /// A pinch in progress reports a new reading.
    Pinch(PinchGesture),
    /// A hold ends at `time`.
    HoldEnd { gesture: HoldGesture, time: u32 },
    /// A swipe or pinch ends.
    End,
}

} // verus!
