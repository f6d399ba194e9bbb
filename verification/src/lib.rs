//! Gesture trigger matching.
//!
//! Continuous multi-touch readings (swipe, pinch, shear, hold) are classified
//! into discrete firings of configured triggers. All quantities are integers:
//! displacements are in device units of the caller's choosing, scales are in
//! thousandths (see [`common::SCALE_UNIT`]), times are in device ticks.

pub mod common;
pub mod event;
pub mod trigger;
pub mod dispatcher;
pub mod debug;
