//! Triggers and the predicates that decide whether a reading satisfies one.

use vstd::prelude::*;
use crate::common::{magnitude, Direction, PinchDirection, SCALE_UNIT};
use crate::event::{HoldGesture, PinchGesture, SwipeGesture};

verus! {

/// A configured pattern that a gesture reading may satisfy.
#[derive(Clone, Copy, PartialEq, Eq, Structural, Debug)]
pub enum Trigger {
    /// Fingers move together in one direction.
    Swipe(CardinalTrigger),
    /// Fingers move toward or away from each other.
    Pinch(PinchTrigger),
    /// Fingers move in different directions, usually the thumb against the
    /// resting digits. The direction is the thumb's, the distance is the
    /// relative movement. Read from the same readings as a pinch.
    Shear(CardinalTrigger),
    /// Fingers rest in place; reported only when the hold ends.
    Hold(HoldTrigger),
}

/// A trigger in a direction over a distance: swipes and shears.
#[derive(Clone, Copy, PartialEq, Eq, Structural, Debug)]
pub struct CardinalTrigger {
    pub fingers: i32,
    pub direction: Direction,
    /// Least displacement along one axis, in the units of the readings.
    pub distance: u32,
    pub repeated: bool,
}

#[derive(Clone, Copy, PartialEq, Eq, Structural, Debug)]
pub struct PinchTrigger {
    pub fingers: i32,
    pub direction: PinchDirection,
    /// Ratio by which the scale has to change, in thousandths; at least
    /// `SCALE_UNIT`.
    pub scale: u32,
    pub repeated: bool,
}

#[derive(Clone, Copy, PartialEq, Eq, Structural, Debug)]
pub struct HoldTrigger {
    pub fingers: i32,
    /// Least duration, in device ticks.
    pub time: u32,
}

/// The reading against which a trigger measures the current one.
#[derive(Clone, Copy, PartialEq, Eq, Structural, Debug)]
pub struct Origin {
    pub x: i32,
    pub y: i32,
    pub scale: u32,
}

/// The larger of the displacement's magnitudes along the two axes.
pub open spec fn reach(dx: int, dy: int) -> int {
    if magnitude(dx) >= magnitude(dy) {
        magnitude(dx)
    } else {
        magnitude(dy)
    }
}

/// Time elapsed from `begin` to `now`, zero where `now` is the earlier.
pub open spec fn elapsed(begin: u32, now: u32) -> int {
    if now >= begin {
        now - begin
    } else {
        0
    }
}

impl CardinalTrigger {
    /// Whether a reading `(dx, dy)` of `fingers` fingers satisfies this
    /// trigger, measured from `o`: the finger counts agree, the displacement
    /// lies in the trigger's cone, and along one axis at least it is as long
    /// as the trigger's distance.
    pub open spec fn accepts(self, fingers: i32, dx: i32, dy: i32, o: Origin) -> bool {
        &&& self.fingers == fingers
        &&& self.direction.accepts(dx - o.x, dy - o.y)
        &&& reach(dx - o.x, dy - o.y) >= self.distance
    }

    fn matches_reading(&self, fingers: i32, dx: i32, dy: i32, o: Origin) -> (hit: bool)
        ensures
            hit == self.accepts(fingers, dx, dy, o),
    {
        let rx: i64 = dx as i64 - o.x as i64;
        let ry: i64 = dy as i64 - o.y as i64;
        let ax: i64 = if rx < 0 { -rx } else { rx };
        let ay: i64 = if ry < 0 { -ry } else { ry };
        let least: i64 = self.distance as i64;
        self.fingers == fingers && self.direction.matches(rx, ry) && (ax >= least || ay >= least)
    }

    /// Decides whether the swipe reading `gest`, measured from `o`, satisfies
    /// this trigger.
    pub fn matches_swipe(&self, gest: &SwipeGesture, o: Origin) -> (hit: bool)
        ensures
            hit == self.accepts(gest.fingers, gest.dx, gest.dy, o),
    {
        self.matches_reading(gest.fingers, gest.dx, gest.dy, o)
    }

    /// Decides whether the pinch reading `gest`, read as the motion of one
    /// finger and measured from `o`, satisfies this trigger.
    pub fn matches_shear(&self, gest: &PinchGesture, o: Origin) -> (hit: bool)
        ensures
            hit == self.accepts(gest.fingers, gest.dx, gest.dy, o),
    {
        self.matches_reading(gest.fingers, gest.dx, gest.dy, o)
    }
}

impl PinchTrigger {
    /// Whether the pinch reading `gest` satisfies this trigger, measured from
    /// the scale `origin`. With all three scales in thousandths, `In` asks
    /// that `origin * self.scale <= gest.scale` and `Out` that
    /// `origin / self.scale >= gest.scale`, both as exact ratios.
    pub open spec fn accepts(self, gest: PinchGesture, origin: u32) -> bool {
        &&& self.fingers == gest.fingers
        &&& match self.direction {
            PinchDirection::In => origin * self.scale <= gest.scale * SCALE_UNIT,
            PinchDirection::Out => origin * SCALE_UNIT >= gest.scale * self.scale,
        }
    }

    /// Decides whether the pinch reading `gest`, measured from the scale
    /// `origin`, satisfies this trigger.
    pub fn matches(&self, gest: &PinchGesture, origin: u32) -> (hit: bool)
        ensures
            hit == self.accepts(*gest, origin),
    {
        let from: u64 = origin as u64;
        let ratio: u64 = self.scale as u64;
        let now: u64 = gest.scale as u64;
        let unit: u64 = SCALE_UNIT as u64;
        proof {
            assert(from * ratio <= 0xffff_ffff * 0xffff_ffff) by (nonlinear_arith)
                requires
                    from <= 0xffff_ffff,
                    ratio <= 0xffff_ffff,
            ;
            assert(now * ratio <= 0xffff_ffff * 0xffff_ffff) by (nonlinear_arith)
                requires
                    now <= 0xffff_ffff,
                    ratio <= 0xffff_ffff,
            ;
        }
        self.fingers == gest.fingers && match self.direction {
            PinchDirection::In => from * ratio <= now * unit,
            PinchDirection::Out => from * unit >= now * ratio,
        }
    }
}

impl HoldTrigger {
    /// Whether a hold `gest` that is observed at `ctime` satisfies this
    /// trigger.
    pub open spec fn accepts(self, gest: HoldGesture, ctime: u32) -> bool {
        self.fingers == gest.fingers && elapsed(gest.begin_time, ctime) >= self.time
    }

    /// Decides whether the hold `gest`, observed at `ctime`, has lasted as
    /// long as this trigger asks. A `ctime` before the hold's beginning counts
    /// as no time elapsed.
    pub fn matches(&self, gest: &HoldGesture, ctime: u32) -> (hit: bool)
        ensures
            hit == self.accepts(*gest, ctime),
    {
        self.fingers == gest.fingers && ctime.saturating_sub(gest.begin_time) >= self.time
    }
}

impl Trigger {
    /// The finger count that the trigger asks for.
    pub open spec fn finger_count(self) -> i32 {
        match self {
            Trigger::Swipe(s) => s.fingers,
            Trigger::Pinch(p) => p.fingers,
            Trigger::Shear(s) => s.fingers,
            Trigger::Hold(h) => h.fingers,
        }
    }

    /// The direction and distance of a swipe or a shear.
    pub open spec fn cardinal(self) -> Option<CardinalTrigger> {
        match self {
            Trigger::Swipe(s) => Some(s),
            Trigger::Shear(s) => Some(s),
            _ => None,
        }
    }

    /// Whether the trigger may fire more than once in a gesture. A hold
    /// counts as repeating: it is reported once only, when it ends.
    pub open spec fn repeats(self) -> bool {
        match self {
            Trigger::Swipe(s) => s.repeated,
            Trigger::Pinch(p) => p.repeated,
            Trigger::Shear(s) => s.repeated,
            Trigger::Hold(_) => true,
        }
    }

    /// The parameters are in range: a positive finger count, and for a pinch
    /// a ratio of one or more.
    pub open spec fn wf(self) -> bool {
        &&& self.finger_count() > 0
        &&& match self {
            Trigger::Pinch(p) => p.scale >= SCALE_UNIT,
            _ => true,
        }
    }

    pub fn fingers(&self) -> (n: i32)
        ensures
            n == self.finger_count(),
    {
        match self {
            Trigger::Swipe(s) => s.fingers,
            Trigger::Pinch(p) => p.fingers,
            Trigger::Shear(s) => s.fingers,
            Trigger::Hold(h) => h.fingers,
        }
    }

    pub fn repeated(&self) -> (again: bool)
        ensures
            again == self.repeats(),
    {
        match self {
            Trigger::Swipe(s) => s.repeated,
            Trigger::Pinch(p) => p.repeated,
            Trigger::Shear(s) => s.repeated,
            Trigger::Hold(_) => true,
        }
    }

    pub fn direction(&self) -> (d: Option<Direction>)
        ensures
            d == match *self {
                Trigger::Swipe(s) => Some(s.direction),
                Trigger::Pinch(_) => None,
                Trigger::Shear(s) => Some(s.direction),
                Trigger::Hold(_) => None,
            },
    {
        match self {
            Trigger::Swipe(s) => Some(s.direction),
            Trigger::Pinch(_) => None,
            Trigger::Shear(s) => Some(s.direction),
            Trigger::Hold(_) => None,
        }
    }
}

/// A cardinal trigger is satisfied exactly when the finger counts agree, the
/// displacement from the origin lies in its cone, and the longer of the two
/// axis displacements has reached its distance. In particular it is not
/// satisfied while that displacement is shorter, whatever the direction.
pub proof fn cardinal_fires_at_distance(
    t: CardinalTrigger,
    fingers: i32,
    dx: i32,
    dy: i32,
    o: Origin,
)
    ensures
        reach(dx - o.x, dy - o.y) < t.distance ==> !t.accepts(fingers, dx, dy, o),
        t.fingers == fingers && t.direction.accepts(dx - o.x, dy - o.y) ==> (t.accepts(
            fingers,
            dx,
            dy,
            o,
        ) <==> reach(dx - o.x, dy - o.y) >= t.distance),
        reach(dx - o.x, dy - o.y) >= t.distance <==> (magnitude(dx - o.x) >= t.distance
            || magnitude(dy - o.y) >= t.distance),
{
}

/// A pinch trigger of ratio one or more, measured from a positive scale,
/// fires inward when the scale has grown by the ratio, outward when it has
/// shrunk by it, and not at all strictly between the two; inward and outward
/// cannot both fire unless the ratio is exactly one.
pub proof fn pinch_dead_zone(t: PinchTrigger, gest: PinchGesture, origin: u32)
    requires
        t.fingers == gest.fingers,
        t.scale >= SCALE_UNIT,
        origin > 0,
    ensures
        t.direction == PinchDirection::In ==> (t.accepts(gest, origin) <==> gest.scale * SCALE_UNIT
            >= origin * t.scale),
        t.direction == PinchDirection::Out ==> (t.accepts(gest, origin) <==> gest.scale * t.scale
            <= origin * SCALE_UNIT),
        origin * SCALE_UNIT < gest.scale * t.scale && gest.scale * SCALE_UNIT < origin * t.scale
            ==> !t.accepts(gest, origin),
        t.scale > SCALE_UNIT ==> !(origin * t.scale <= gest.scale * SCALE_UNIT && origin
            * SCALE_UNIT >= gest.scale * t.scale),
{
    let s = t.scale as int;
    let g = gest.scale as int;
    let o = origin as int;
    if s > 1000 && o * s <= g * 1000 && o * 1000 >= g * s {
        assert(false) by (nonlinear_arith)
            requires
                s > 1000,
                o > 0,
                g >= 0,
                o * s <= g * 1000,
                o * 1000 >= g * s,
        ;
    }
}

/// A hold observed before it began, or before its least duration has passed,
/// does not satisfy a trigger that asks for a positive duration; one observed
/// at `begin_time + time` or later does.
pub proof fn hold_needs_its_duration(t: HoldTrigger, gest: HoldGesture, ctime: u32)
    requires
        t.fingers == gest.fingers,
    ensures
        t.time > 0 && ctime < gest.begin_time ==> !t.accepts(gest, ctime),
        ctime < gest.begin_time + t.time && t.time > 0 ==> !t.accepts(gest, ctime),
        ctime >= gest.begin_time + t.time ==> t.accepts(gest, ctime),
{
}

} // verus!
