//! The dispatcher: turns a stream of gesture events into the catalog indices
//! of the triggers that fire on each.

use vstd::prelude::*;
use crate::common::SCALE_UNIT;
use crate::event::{GestureEvent, PinchGesture, SwipeGesture};
use crate::trigger::{reach, CardinalTrigger, Origin, Trigger};

verus! {

/// What the dispatcher keeps for one trigger of the catalog while a gesture
/// is in progress.
#[derive(Clone, Copy, PartialEq, Eq, Structural, Debug)]
pub struct Slot {
    /// The reading from which the trigger measures.
    pub origin: Origin,
    /// The trigger has fired in this gesture and does not re-arm.
    pub spent: bool,
}

/// The slot of a trigger when a gesture begins: the origin is the gesture's
/// own first reading, and the trigger is armed.
pub open spec fn fresh_slot() -> Slot {
    Slot { origin: Origin { x: 0, y: 0, scale: SCALE_UNIT }, spent: false }
}

/// Whether the event is a reading of the trigger's kind that satisfies the
/// trigger, measured from `o`. A pinch reading is held against pinch and
/// shear triggers alike; a hold is held against hold triggers when it ends.
pub open spec fn satisfied(t: Trigger, o: Origin, e: GestureEvent) -> bool {
    match (t, e) {
        (Trigger::Swipe(c), GestureEvent::Swipe(g)) => c.accepts(g.fingers, g.dx, g.dy, o),
        (Trigger::Pinch(p), GestureEvent::Pinch(g)) => p.accepts(g, o.scale),
        (Trigger::Shear(c), GestureEvent::Pinch(g)) => c.accepts(g.fingers, g.dx, g.dy, o),
        (Trigger::Hold(h), GestureEvent::HoldEnd { gesture, time }) => h.accepts(gesture, time),
        _ => false,
    }
}

/// The origin of a repeating trigger after it fired on `e`: the reading that
/// made it fire.
pub open spec fn rebased(o: Origin, e: GestureEvent) -> Origin {
    match e {
        GestureEvent::Swipe(g) => Origin { x: g.dx, y: g.dy, scale: o.scale },
        GestureEvent::Pinch(g) => Origin { x: g.dx, y: g.dy, scale: g.scale },
        _ => o,
    }
}

/// The dispatcher as a mathematical value.
pub struct DispatcherState {
    /// The configured triggers, in configuration order.
    pub catalog: Seq<Trigger>,
    /// One slot for each trigger, under the trigger's index.
    pub slots: Seq<Slot>,
    /// The finger count of the gesture in progress, if there is one.
    pub active: Option<i32>,
}

impl DispatcherState {
    pub open spec fn wf(self) -> bool {
        self.catalog.len() == self.slots.len() && self.catalog.len() <= usize::MAX
    }

    /// The dispatcher before any event: no gesture is in progress.
    pub open spec fn initial(catalog: Seq<Trigger>) -> DispatcherState {
        DispatcherState {
            catalog,
            slots: Seq::new(catalog.len(), |i: int| fresh_slot()),
            active: None,
        }
    }

    /// Whether the trigger at index `i` fires on `e`: it belongs to the
    /// gesture in progress by its finger count, it is armed, and the event
    /// satisfies it.
    pub open spec fn fires(self, e: GestureEvent, i: int) -> bool {
        &&& 0 <= i < self.catalog.len()
        &&& self.active == Some(self.catalog[i].finger_count())
        &&& !self.slots[i].spent
        &&& satisfied(self.catalog[i], self.slots[i].origin, e)
    }

    /// The slot of the trigger at index `i` after `e`. A beginning or an end
    /// leaves every slot fresh. A reading changes the slot of a trigger that
    /// fires on it: a repeating trigger measures from this reading on and
    /// stays armed, any other is spent.
    pub open spec fn slot_after(self, e: GestureEvent, i: int) -> Slot {
        match e {
            GestureEvent::Swipe(_) | GestureEvent::Pinch(_) => if self.fires(e, i) {
                if self.catalog[i].repeats() {
                    Slot { origin: rebased(self.slots[i].origin, e), spent: false }
                } else {
                    Slot { origin: self.slots[i].origin, spent: true }
                }
            } else {
                self.slots[i]
            },
            _ => fresh_slot(),
        }
    }

    /// The finger count of the gesture in progress after `e`.
    pub open spec fn active_after(self, e: GestureEvent) -> Option<i32> {
        match e {
            GestureEvent::Begin { fingers } => Some(fingers),
            GestureEvent::Swipe(_) | GestureEvent::Pinch(_) => self.active,
            _ => None,
        }
    }

    /// The dispatcher after `e`.
    pub open spec fn step(self, e: GestureEvent) -> DispatcherState {
        DispatcherState {
            catalog: self.catalog,
            slots: Seq::new(self.slots.len(), |i: int| self.slot_after(e, i)),
            active: self.active_after(e),
        }
    }

    /// The indices below `n` of the triggers that fire on `e`, ascending.
    pub open spec fn fired_below(self, e: GestureEvent, n: nat) -> Seq<usize>
        decreases n,
    {
        if n == 0 {
            Seq::empty()
        } else if self.fires(e, n - 1) {
            self.fired_below(e, (n - 1) as nat).push((n - 1) as usize)
        } else {
            self.fired_below(e, (n - 1) as nat)
        }
    }

    /// The indices of the triggers that fire on `e`, ascending.
    pub open spec fn fired(self, e: GestureEvent) -> Seq<usize> {
        self.fired_below(e, self.catalog.len())
    }

    /// The dispatcher after the events of `events`, in their order.
    pub open spec fn run(self, events: Seq<GestureEvent>) -> DispatcherState
        decreases events.len(),
    {
        if events.len() == 0 {
            self
        } else {
            self.run(events.drop_last()).step(events.last())
        }
    }

    /// The trigger at index `i` cannot fire: it is spent, or no gesture is in
    /// progress.
    pub open spec fn dormant(self, i: int) -> bool {
        self.slots[i].spent || self.active is None
    }
}

/// The stateful engine. It owns the catalog, which never changes, and one
/// slot for each of its triggers.
pub struct Dispatcher {
    catalog: Vec<Trigger>,
    slots: Vec<Slot>,
    active: Option<i32>,
}

impl View for Dispatcher {
    type V = DispatcherState;

    closed spec fn view(&self) -> DispatcherState {
        DispatcherState { catalog: self.catalog@, slots: self.slots@, active: self.active }
    }
}

fn is_satisfied(t: &Trigger, o: Origin, e: &GestureEvent) -> (hit: bool)
    ensures
        hit == satisfied(*t, o, *e),
{
    match (t, e) {
        (Trigger::Swipe(c), GestureEvent::Swipe(g)) => c.matches_swipe(g, o),
        (Trigger::Pinch(p), GestureEvent::Pinch(g)) => p.matches(g, o.scale),
        (Trigger::Shear(c), GestureEvent::Pinch(g)) => c.matches_shear(g, o),
        (Trigger::Hold(h), GestureEvent::HoldEnd { gesture, time }) => h.matches(gesture, *time),
        _ => false,
    }
}

fn rebase(o: Origin, e: &GestureEvent) -> (r: Origin)
    ensures
        r == rebased(o, *e),
{
    match e {
        GestureEvent::Swipe(g) => Origin { x: g.dx, y: g.dy, scale: o.scale },
        GestureEvent::Pinch(g) => Origin { x: g.dx, y: g.dy, scale: g.scale },
        _ => o,
    }
}

impl Dispatcher {
    /// A dispatcher over `catalog`, with no gesture in progress.
    pub fn new(catalog: Vec<Trigger>) -> (d: Dispatcher)
        ensures
            d@ == DispatcherState::initial(catalog@),
            d@.wf(),
    {
        let mut slots: Vec<Slot> = Vec::new();
        let n: usize = catalog.len();
        let mut i: usize = 0;
        while i < n
            invariant
                i <= n,
                n == catalog@.len(),
                slots@.len() == i,
                forall|k: int| 0 <= k < i ==> slots@[k] == fresh_slot(),
            decreases n - i,
        {
            slots.push(Slot { origin: Origin { x: 0, y: 0, scale: SCALE_UNIT }, spent: false });
            i += 1;
        }
        let d = Dispatcher { catalog, slots, active: None };
        proof {
            assert(d@.slots =~= DispatcherState::initial(catalog@).slots);
        }
        d
    }

    /// The number of triggers in the catalog.
    pub fn len(&self) -> (n: usize)
        ensures
            n == self@.catalog.len(),
    {
        self.catalog.len()
    }

    /// The trigger at `index` of the catalog, if there is one.
    pub fn trigger(&self, index: usize) -> (t: Option<Trigger>)
        ensures
            index < self@.catalog.len() ==> t == Some(self@.catalog[index as int]),
            index >= self@.catalog.len() ==> t is None,
    {
        if index < self.catalog.len() {
            Some(self.catalog[index])
        } else {
            None
        }
    }

    /// Takes one event and returns the catalog indices of the triggers that
    /// fire on it, in ascending order: each trigger that fires is listed, once,
    /// and no other. The catalog stays as it is; the slots and the gesture in
    /// progress change as [`DispatcherState::step`] says.
    pub fn dispatch(&mut self, event: &GestureEvent) -> (fired: Vec<usize>)
        requires
            old(self)@.wf(),
        ensures
            final(self)@.wf(),
            final(self)@ == old(self)@.step(*event),
            fired@ == old(self)@.fired(*event),
            forall|a: int, b: int| 0 <= a < b < fired@.len() ==> fired@[a] < fired@[b],
            forall|k: int|
                0 <= k < fired@.len() ==> old(self)@.fires(*event, (#[trigger] fired@[k]) as int),
            forall|i: int|
                #[trigger] old(self)@.fires(*event, i) ==> fired@.contains(i as usize),
    {
        let ghost before = self@;
        let mut fired: Vec<usize> = Vec::new();
        let n: usize = self.catalog.len();
        let mut i: usize = 0;
        while i < n
            invariant
                i <= n,
                n == before.catalog.len(),
                before.wf(),
                self.catalog@ == before.catalog,
                self.active == before.active,
                self.slots@.len() == n,
                fired@ == before.fired_below(*event, i as nat),
                forall|k: int| 0 <= k < i ==> self.slots@[k] == before.slot_after(*event, k),
                forall|k: int| i <= k < n ==> self.slots@[k] == before.slots[k],
            decreases n - i,
        {
            let t: Trigger = self.catalog[i];
            let slot: Slot = self.slots[i];
            let in_gesture: bool = match self.active {
                Some(f) => f == t.fingers(),
                None => false,
            };
            let hit: bool = in_gesture && !slot.spent && is_satisfied(&t, slot.origin, event);
            assert(hit == before.fires(*event, i as int));
            let next: Slot = match event {
                GestureEvent::Swipe(_) | GestureEvent::Pinch(_) => if hit {
                    if t.repeated() {
                        Slot { origin: rebase(slot.origin, event), spent: false }
                    } else {
                        Slot { origin: slot.origin, spent: true }
                    }
                } else {
                    slot
                },
                _ => Slot { origin: Origin { x: 0, y: 0, scale: SCALE_UNIT }, spent: false },
            };
            self.slots.set(i, next);
            if hit {
                fired.push(i);
            }
            i += 1;
        }
        self.active = match event {
            GestureEvent::Begin { fingers } => Some(*fingers),
            GestureEvent::Swipe(_) | GestureEvent::Pinch(_) => self.active,
            _ => None,
        };
        proof {
            assert(self@.slots =~= before.step(*event).slots);
            fired_is_ascending_and_exact(before, *event);
        }
        fired
    }
}

proof fn lemma_fired_below(st: DispatcherState, e: GestureEvent, n: nat)
    requires
        n <= st.catalog.len() <= usize::MAX,
    ensures
        forall|k: int|
            0 <= k < st.fired_below(e, n).len() ==> (#[trigger] st.fired_below(e, n)[k]) < n
                && st.fires(e, st.fired_below(e, n)[k] as int),
        forall|a: int, b: int|
            0 <= a < b < st.fired_below(e, n).len() ==> st.fired_below(e, n)[a] < st.fired_below(
                e,
                n,
            )[b],
        forall|i: int|
            0 <= i < n && #[trigger] st.fires(e, i) ==> st.fired_below(e, n).contains(i as usize),
    decreases n,
{
    if n > 0 {
        let m = (n - 1) as nat;
        lemma_fired_below(st, e, m);
        let rest = st.fired_below(e, m);
        let all = st.fired_below(e, n);
        if st.fires(e, n - 1) {
            assert(all == rest.push(m as usize));
            assert forall|i: int| 0 <= i < n && #[trigger] st.fires(e, i) implies all.contains(
                i as usize,
            ) by {
                if i < m {
                    assert(rest.contains(i as usize));
                    let k = choose|k: int| 0 <= k < rest.len() && rest[k] == i as usize;
                    assert(all[k] == i as usize);
                } else {
                    assert(all[rest.len() as int] == i as usize);
                }
            }
        }
    }
}

/// On every event the fired indices come in strictly ascending catalog
/// order, each index that is listed is that of a trigger that fires on the
/// event, and each trigger that fires on it is listed.
pub proof fn fired_is_ascending_and_exact(st: DispatcherState, e: GestureEvent)
    requires
        st.wf(),
    ensures
        forall|a: int, b: int|
            0 <= a < b < st.fired(e).len() ==> st.fired(e)[a] < st.fired(e)[b],
        forall|k: int|
            0 <= k < st.fired(e).len() ==> st.fires(e, (#[trigger] st.fired(e)[k]) as int),
        forall|i: int| #[trigger] st.fires(e, i) ==> st.fired(e).contains(i as usize),
{
    lemma_fired_below(st, e, st.catalog.len());
}

/// A run keeps the catalog and the dispatcher's validity.
pub proof fn lemma_run_keeps_catalog(st: DispatcherState, events: Seq<GestureEvent>)
    requires
        st.wf(),
    ensures
        st.run(events).wf(),
        st.run(events).catalog == st.catalog,
    decreases events.len(),
{
    if events.len() > 0 {
        lemma_run_keeps_catalog(st, events.drop_last());
    }
}

/// A run over the first `j + 1` events is the run over the first `j`,
/// followed by the step on the event at `j`.
pub proof fn lemma_run_one_more(st: DispatcherState, events: Seq<GestureEvent>, j: int)
    requires
        0 <= j < events.len(),
    ensures
        st.run(events.take(j + 1)) == st.run(events.take(j)).step(events[j]),
{
    assert(events.take(j + 1).drop_last() =~= events.take(j));
}

proof fn lemma_dormant_until_begin(
    st: DispatcherState,
    events: Seq<GestureEvent>,
    i: int,
    j: int,
    k: int,
)
    requires
        st.wf(),
        0 <= i < st.catalog.len(),
        0 <= j <= k <= events.len(),
        st.run(events.take(j)).dormant(i),
        forall|m: int| j <= m < k ==> !(#[trigger] events[m] is Begin),
    ensures
        st.run(events.take(k)).dormant(i),
    decreases k - j,
{
    if j < k {
        lemma_dormant_until_begin(st, events, i, j, k - 1);
        lemma_run_one_more(st, events, k - 1);
        lemma_run_keeps_catalog(st, events.take(k - 1));
        assert(!(events[k - 1] is Begin));
    }
}

/// A trigger that does not repeat fires at most once between the beginning
/// of a gesture and the next: where it fires on the event at `j`, it does
/// not fire on a later event at `k`, unless a gesture began in between.
pub proof fn one_shot_fires_at_most_once(
    st: DispatcherState,
    events: Seq<GestureEvent>,
    i: int,
    j: int,
    k: int,
)
    requires
        st.wf(),
        0 <= i < st.catalog.len(),
        !st.catalog[i].repeats(),
        0 <= j < k < events.len(),
        forall|m: int| j < m < k ==> !(#[trigger] events[m] is Begin),
        st.run(events.take(j)).fires(events[j], i),
    ensures
        !st.run(events.take(k)).fires(events[k], i),
{
    lemma_run_keeps_catalog(st, events.take(j));
    lemma_run_one_more(st, events, j);
    lemma_dormant_until_begin(st, events, i, j + 1, k);
    lemma_run_keeps_catalog(st, events.take(k));
}

/// A repeating trigger that fires on a reading measures from that reading
/// afterwards and stays armed; a trigger that does not fire on a reading
/// keeps its slot.
pub proof fn firing_rebases_a_repeating_trigger(st: DispatcherState, e: GestureEvent, i: int)
    requires
        st.wf(),
        0 <= i < st.catalog.len(),
        e is Swipe || e is Pinch,
    ensures
        st.fires(e, i) && st.catalog[i].repeats() ==> st.step(e).slots[i] == (Slot {
            origin: rebased(st.slots[i].origin, e),
            spent: false,
        }),
        st.fires(e, i) && !st.catalog[i].repeats() ==> st.step(e).slots[i].spent,
        !st.fires(e, i) ==> st.step(e).slots[i] == st.slots[i],
{
}

/// The finger count of the reading that the event carries, if it carries
/// one.
pub open spec fn reading_fingers(e: GestureEvent) -> Option<i32> {
    match e {
        GestureEvent::Swipe(g) => Some(g.fingers),
        GestureEvent::Pinch(g) => Some(g.fingers),
        GestureEvent::HoldEnd { gesture, time } => Some(gesture.fingers),
        _ => None,
    }
}

/// A reading whose finger count is not positive satisfies no trigger whose
/// parameters are in range, and neither does an event without a reading.
pub proof fn malformed_reading_never_matches(t: Trigger, o: Origin, e: GestureEvent)
    requires
        t.wf(),
        match reading_fingers(e) {
            Some(n) => n <= 0,
            None => true,
        },
    ensures
        !satisfied(t, o, e),
{
}

/// The reading `(dx, dy)` as an event of the kind that the trigger is held
/// against: a pinch for a shear (at scale one), a swipe otherwise.
pub open spec fn reading_for(t: Trigger, fingers: i32, dx: i32, dy: i32) -> GestureEvent {
    match t {
        Trigger::Shear(_) => GestureEvent::Pinch(
            PinchGesture { fingers, dx, dy, scale: SCALE_UNIT },
        ),
        _ => GestureEvent::Swipe(SwipeGesture { fingers, dx, dy }),
    }
}

/// While a gesture is in progress, an armed swipe trigger of the gesture's
/// finger count does not fire on a swipe reading of that finger count as long
/// as the longer axis displacement from its origin is below its distance, and
/// fires as soon as that displacement has reached the distance, provided that
/// the displacement lies in the trigger's cone. The same holds of a shear
/// trigger and a pinch reading.
pub proof fn armed_cardinal_fires_at_distance(
    st: DispatcherState,
    i: int,
    c: CardinalTrigger,
    fingers: i32,
    dx: i32,
    dy: i32,
)
    requires
        st.wf(),
        0 <= i < st.catalog.len(),
        st.catalog[i].cardinal() == Some(c),
        st.active == Some(c.fingers),
        fingers == c.fingers,
        !st.slots[i].spent,
    ensures
        ({
            let o = st.slots[i].origin;
            let e = reading_for(st.catalog[i], fingers, dx, dy);
            &&& reach(dx - o.x, dy - o.y) < c.distance ==> !st.fires(e, i)
            &&& reach(dx - o.x, dy - o.y) >= c.distance && c.direction.accepts(dx - o.x, dy - o.y)
                ==> st.fires(e, i)
            &&& !c.direction.accepts(dx - o.x, dy - o.y) ==> !st.fires(e, i)
        }),
{
}

} // verus!
