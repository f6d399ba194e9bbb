//! A fixed catalog that covers every kind of trigger, and a replay of
//! recorded events against it, for looking at what the engine does.

use vstd::prelude::*;
use crate::common::{Direction, PinchDirection};
use crate::dispatcher::{
    fired_is_ascending_and_exact, lemma_run_one_more, Dispatcher, DispatcherState,
};
use crate::event::GestureEvent;
use crate::trigger::{CardinalTrigger, HoldTrigger, PinchTrigger, Trigger};

verus! {

/// Distance of the debug catalog's swipes and shears.
pub const DEBUG_DISTANCE: u32 = 100;

/// Ratio of the debug catalog's pinches: 1.3, in thousandths.
pub const DEBUG_SCALE: u32 = 1300;

/// Duration of the debug catalog's holds.
pub const DEBUG_HOLD_TIME: u32 = 50;

pub open spec fn debug_cardinal(fingers: i32, direction: Direction, repeated: bool)
    -> CardinalTrigger {
    CardinalTrigger { fingers, direction, distance: DEBUG_DISTANCE, repeated }
}

pub open spec fn debug_pinch(fingers: i32, direction: PinchDirection, repeated: bool)
    -> PinchTrigger {
    PinchTrigger { fingers, direction, scale: DEBUG_SCALE, repeated }
}

/// The ten motion triggers for one finger count and one repeat policy: the
/// four swipes, the two pinches, the four shears.
pub open spec fn debug_group(fingers: i32, repeated: bool) -> Seq<Trigger> {
    seq![
        Trigger::Swipe(debug_cardinal(fingers, Direction::Up, repeated)),
        Trigger::Swipe(debug_cardinal(fingers, Direction::Down, repeated)),
        Trigger::Swipe(debug_cardinal(fingers, Direction::Left, repeated)),
        Trigger::Swipe(debug_cardinal(fingers, Direction::Right, repeated)),
        Trigger::Pinch(debug_pinch(fingers, PinchDirection::In, repeated)),
        Trigger::Pinch(debug_pinch(fingers, PinchDirection::Out, repeated)),
        Trigger::Shear(debug_cardinal(fingers, Direction::Up, repeated)),
        Trigger::Shear(debug_cardinal(fingers, Direction::Down, repeated)),
        Trigger::Shear(debug_cardinal(fingers, Direction::Left, repeated)),
        Trigger::Shear(debug_cardinal(fingers, Direction::Right, repeated)),
    ]
}

/// The triggers for one finger count: the one-shot group, the repeating
/// group, and a hold.
pub open spec fn debug_block(fingers: i32) -> Seq<Trigger> {
    debug_group(fingers, false) + debug_group(fingers, true) + seq![
        Trigger::Hold(HoldTrigger { fingers, time: DEBUG_HOLD_TIME }),
    ]
}

/// The debug catalog: the blocks for two, three and four fingers.
pub open spec fn debug_catalog() -> Seq<Trigger> {
    debug_block(2) + debug_block(3) + debug_block(4)
}

/// The triggers at the given catalog indices, in the order of the indices.
pub open spec fn named(catalog: Seq<Trigger>, indices: Seq<usize>) -> Seq<Trigger> {
    indices.map_values(|i: usize| catalog[i as int])
}

/// The triggers that fire while `st` takes `events` one after the other:
/// event by event, and within one event in catalog order.
pub open spec fn trace(st: DispatcherState, events: Seq<GestureEvent>) -> Seq<Trigger>
    decreases events.len(),
{
    if events.len() == 0 {
        Seq::empty()
    } else {
        trace(st, events.drop_last()) + named(
            st.catalog,
            st.run(events.drop_last()).fired(events.last()),
        )
    }
}

fn push_debug_group(ts: &mut Vec<Trigger>, fingers: i32, repeated: bool)
    ensures
        final(ts)@ == old(ts)@ + debug_group(fingers, repeated),
{
    ts.push(Trigger::Swipe(cardinal(fingers, Direction::Up, repeated)));
    ts.push(Trigger::Swipe(cardinal(fingers, Direction::Down, repeated)));
    ts.push(Trigger::Swipe(cardinal(fingers, Direction::Left, repeated)));
    ts.push(Trigger::Swipe(cardinal(fingers, Direction::Right, repeated)));
    ts.push(Trigger::Pinch(pinch(fingers, PinchDirection::In, repeated)));
    ts.push(Trigger::Pinch(pinch(fingers, PinchDirection::Out, repeated)));
    ts.push(Trigger::Shear(cardinal(fingers, Direction::Up, repeated)));
    ts.push(Trigger::Shear(cardinal(fingers, Direction::Down, repeated)));
    ts.push(Trigger::Shear(cardinal(fingers, Direction::Left, repeated)));
    ts.push(Trigger::Shear(cardinal(fingers, Direction::Right, repeated)));
    proof {
        assert(ts@ =~= old(ts)@ + debug_group(fingers, repeated));
    }
}

fn cardinal(fingers: i32, direction: Direction, repeated: bool) -> (t: CardinalTrigger)
    ensures
        t == debug_cardinal(fingers, direction, repeated),
{
    CardinalTrigger { fingers, direction, distance: DEBUG_DISTANCE, repeated }
}

fn pinch(fingers: i32, direction: PinchDirection, repeated: bool) -> (t: PinchTrigger)
    ensures
        t == debug_pinch(fingers, direction, repeated),
{
    PinchTrigger { fingers, direction, scale: DEBUG_SCALE, repeated }
}

fn push_debug_block(ts: &mut Vec<Trigger>, fingers: i32)
    ensures
        final(ts)@ == old(ts)@ + debug_block(fingers),
{
    push_debug_group(ts, fingers, false);
    push_debug_group(ts, fingers, true);
    ts.push(Trigger::Hold(HoldTrigger { fingers, time: DEBUG_HOLD_TIME }));
    proof {
        assert(ts@ =~= old(ts)@ + debug_block(fingers));
    }
}

/// Builds the debug catalog: 63 triggers, 21 for each of two, three and four
/// fingers.
pub fn debug_triggers() -> (ts: Vec<Trigger>)
    ensures
        ts@ == debug_catalog(),
        ts@.len() == 63,
{
    let mut ts: Vec<Trigger> = Vec::new();
    push_debug_block(&mut ts, 2);
    push_debug_block(&mut ts, 3);
    push_debug_block(&mut ts, 4);
    proof {
        assert(ts@ =~= debug_catalog());
    }
    ts
}

/// Replays `events` against a fresh dispatcher over the debug catalog and
/// returns the triggers that fired, in the order in which they fired.
pub fn debug_events(events: &Vec<GestureEvent>) -> (log: Vec<Trigger>)
    ensures
        log@ == trace(DispatcherState::initial(debug_catalog()), events@),
{
    let ghost start = DispatcherState::initial(debug_catalog());
    let mut engine = Dispatcher::new(debug_triggers());
    let mut log: Vec<Trigger> = Vec::new();
    let mut j: usize = 0;
    proof {
        assert(events@.take(0) =~= Seq::empty());
    }
    while j < events.len()
        invariant
            j <= events@.len(),
            start == DispatcherState::initial(debug_catalog()),
            start.wf(),
            engine@ == start.run(events@.take(j as int)),
            engine@.wf(),
            engine@.catalog == start.catalog,
            log@ == trace(start, events@.take(j as int)),
        decreases events@.len() - j,
    {
        let ghost before = engine@;
        let ghost logged = log@;
        let fired = engine.dispatch(&events[j]);
        proof {
            fired_is_ascending_and_exact(before, events@[j as int]);
            lemma_run_one_more(start, events@, j as int);
            assert(events@.take(j + 1).drop_last() =~= events@.take(j as int));
        }
        let mut k: usize = 0;
        while k < fired.len()
            invariant
                k <= fired@.len(),
                engine@.catalog == start.catalog,
                forall|m: int|
                    0 <= m < fired@.len() ==> (#[trigger] fired@[m]) < start.catalog.len(),
                log@ == logged + named(start.catalog, fired@.take(k as int)),
            decreases fired@.len() - k,
        {
            match engine.trigger(fired[k]) {
                Some(t) => {
                    log.push(t);
                },
                None => {},
            }
            proof {
                assert(fired@.take(k + 1) =~= fired@.take(k as int).push(fired@[k as int]));
                assert(log@ =~= logged + named(start.catalog, fired@.take(k + 1)));
            }
            k += 1;
        }
        proof {
            assert(fired@.take(fired@.len() as int) =~= fired@);
        }
        j += 1;
    }
    proof {
        assert(events@.take(events@.len() as int) =~= events@);
    }
    log
}

} // verus!
