use wzmach::common::{Direction, PinchDirection};
use wzmach::debug::{debug_events, debug_triggers};
use wzmach::dispatcher::Dispatcher;
use wzmach::event::{GestureEvent, HoldGesture, PinchGesture, SwipeGesture};
use wzmach::trigger::{CardinalTrigger, HoldTrigger, PinchTrigger, Trigger};

fn swipe(fingers: i32, dx: i32, dy: i32) -> GestureEvent {
    GestureEvent::Swipe(SwipeGesture { fingers, dx, dy })
}

fn pinch(fingers: i32, dx: i32, dy: i32, scale: u32) -> GestureEvent {
    GestureEvent::Pinch(PinchGesture { fingers, dx, dy, scale })
}

fn hold_end(fingers: i32, begin_time: u32, time: u32) -> GestureEvent {
    GestureEvent::HoldEnd { gesture: HoldGesture { fingers, begin_time }, time }
}

fn right(fingers: i32, repeated: bool) -> Trigger {
    Trigger::Swipe(CardinalTrigger { fingers, direction: Direction::Right, distance: 100, repeated })
}

#[test]
fn nothing_fires_before_a_gesture_begins() {
    let mut d = Dispatcher::new(vec![right(3, false)]);
    assert_eq!(d.dispatch(&swipe(3, 100, 0)), Vec::<usize>::new());
    assert_eq!(d.dispatch(&GestureEvent::Begin { fingers: 3 }), Vec::<usize>::new());
    assert_eq!(d.dispatch(&swipe(3, 100, 0)), vec![0]);
}

#[test]
fn one_shot_fires_once_in_a_gesture() {
    let mut d = Dispatcher::new(vec![right(3, false)]);
    d.dispatch(&GestureEvent::Begin { fingers: 3 });
    assert_eq!(d.dispatch(&swipe(3, 50, 0)), Vec::<usize>::new());
    assert_eq!(d.dispatch(&swipe(3, 120, 0)), vec![0]);
    assert_eq!(d.dispatch(&swipe(3, 130, 0)), Vec::<usize>::new());
    assert_eq!(d.dispatch(&swipe(3, 400, 0)), Vec::<usize>::new());
    assert_eq!(d.dispatch(&GestureEvent::End), Vec::<usize>::new());
    assert_eq!(d.dispatch(&swipe(3, 400, 0)), Vec::<usize>::new());
    d.dispatch(&GestureEvent::Begin { fingers: 3 });
    assert_eq!(d.dispatch(&swipe(3, 100, 0)), vec![0]);
}

#[test]
fn repeated_swipe_fires_every_hundred() {
    let mut d = Dispatcher::new(vec![right(3, true)]);
    d.dispatch(&GestureEvent::Begin { fingers: 3 });
    let mut n: i32 = 1;
    while n <= 30 {
        let fired = d.dispatch(&swipe(3, 10 * n, 0));
        if n == 10 || n == 20 || n == 30 {
            assert_eq!(fired, vec![0], "event {}", n);
        } else {
            assert_eq!(fired, Vec::<usize>::new(), "event {}", n);
        }
        n += 1;
    }
}

#[test]
fn repeated_swipe_measures_from_the_firing_reading() {
    let mut d = Dispatcher::new(vec![right(3, true)]);
    d.dispatch(&GestureEvent::Begin { fingers: 3 });
    assert_eq!(d.dispatch(&swipe(3, 130, 0)), vec![0]);
    assert_eq!(d.dispatch(&swipe(3, 229, 0)), Vec::<usize>::new());
    assert_eq!(d.dispatch(&swipe(3, 230, 0)), vec![0]);
}

#[test]
fn fired_indices_ascend() {
    let catalog = vec![
        right(3, true),
        right(2, true),
        right(3, false),
        Trigger::Swipe(CardinalTrigger { fingers: 3, direction: Direction::Up, distance: 100, repeated: true }),
        Trigger::Swipe(CardinalTrigger { fingers: 3, direction: Direction::Right, distance: 50, repeated: true }),
        Trigger::Shear(CardinalTrigger { fingers: 3, direction: Direction::Right, distance: 50, repeated: true }),
    ];
    let mut d = Dispatcher::new(catalog);
    assert_eq!(d.len(), 6);
    d.dispatch(&GestureEvent::Begin { fingers: 3 });
    assert_eq!(d.dispatch(&swipe(3, 60, 0)), vec![4]);
    assert_eq!(d.dispatch(&swipe(3, 100, 0)), vec![0, 2]);
    // Up measures from the beginning, the others from where they fired
    assert_eq!(d.dispatch(&swipe(3, 200, -200)), vec![3]);
    d.dispatch(&GestureEvent::End);
    d.dispatch(&GestureEvent::Begin { fingers: 3 });
    // on the diagonal Up and Right both fire
    assert_eq!(d.dispatch(&swipe(3, 100, -100)), vec![0, 2, 3, 4]);
}

#[test]
fn update_of_another_finger_count_fires_nothing() {
    let mut d = Dispatcher::new(vec![right(2, true), right(3, true)]);
    d.dispatch(&GestureEvent::Begin { fingers: 3 });
    assert_eq!(d.dispatch(&swipe(2, 100, 0)), Vec::<usize>::new());
    assert_eq!(d.dispatch(&swipe(0, 100, 0)), Vec::<usize>::new());
    assert_eq!(d.dispatch(&swipe(-3, 100, 0)), Vec::<usize>::new());
    assert_eq!(d.dispatch(&swipe(3, 100, 0)), vec![1]);
}

#[test]
fn pinch_update_is_held_against_pinch_and_shear() {
    let catalog = vec![
        Trigger::Pinch(PinchTrigger { fingers: 2, direction: PinchDirection::In, scale: 1300, repeated: true }),
        Trigger::Pinch(PinchTrigger { fingers: 2, direction: PinchDirection::Out, scale: 1300, repeated: false }),
        Trigger::Shear(CardinalTrigger { fingers: 2, direction: Direction::Down, distance: 100, repeated: false }),
        Trigger::Swipe(CardinalTrigger { fingers: 2, direction: Direction::Down, distance: 100, repeated: false }),
    ];
    let mut d = Dispatcher::new(catalog);
    d.dispatch(&GestureEvent::Begin { fingers: 2 });
    assert_eq!(d.dispatch(&pinch(2, 0, 0, 1299)), Vec::<usize>::new());
    assert_eq!(d.dispatch(&pinch(2, 0, 100, 1300)), vec![0, 2]);
    // the repeating pinch now measures from 1.3: 1.69 is the next step
    assert_eq!(d.dispatch(&pinch(2, 0, 300, 1689)), Vec::<usize>::new());
    assert_eq!(d.dispatch(&pinch(2, 0, 300, 1690)), vec![0]);
    // the one-shot outward pinch still measures from 1.0
    assert_eq!(d.dispatch(&pinch(2, 0, 300, 770)), Vec::<usize>::new());
    assert_eq!(d.dispatch(&pinch(2, 0, 300, 769)), vec![1]);
    assert_eq!(d.dispatch(&pinch(2, 0, 300, 500)), Vec::<usize>::new());
}

#[test]
fn hold_fires_when_it_ends() {
    let catalog = vec![
        Trigger::Hold(HoldTrigger { fingers: 3, time: 50 }),
        Trigger::Hold(HoldTrigger { fingers: 3, time: 500 }),
        Trigger::Hold(HoldTrigger { fingers: 4, time: 50 }),
    ];
    let mut d = Dispatcher::new(catalog);
    d.dispatch(&GestureEvent::Begin { fingers: 3 });
    assert_eq!(d.dispatch(&hold_end(3, 1000, 1050)), vec![0]);
    // the gesture is over
    assert_eq!(d.dispatch(&hold_end(3, 1000, 1050)), Vec::<usize>::new());
    d.dispatch(&GestureEvent::Begin { fingers: 3 });
    assert_eq!(d.dispatch(&hold_end(3, 1000, 1049)), Vec::<usize>::new());
    d.dispatch(&GestureEvent::Begin { fingers: 3 });
    assert_eq!(d.dispatch(&hold_end(3, 1000, 1500)), vec![0, 1]);
    d.dispatch(&GestureEvent::Begin { fingers: 3 });
    assert_eq!(d.dispatch(&hold_end(3, 1000, 10)), Vec::<usize>::new());
}

#[test]
fn trigger_by_index() {
    let d = Dispatcher::new(vec![right(2, true), right(3, false)]);
    assert_eq!(d.trigger(0), Some(right(2, true)));
    assert_eq!(d.trigger(1), Some(right(3, false)));
    assert_eq!(d.trigger(2), None);
}

#[test]
fn empty_catalog_fires_nothing() {
    let mut d = Dispatcher::new(Vec::new());
    assert_eq!(d.len(), 0);
    assert_eq!(d.dispatch(&GestureEvent::Begin { fingers: 3 }), Vec::<usize>::new());
    assert_eq!(d.dispatch(&swipe(3, 100, 0)), Vec::<usize>::new());
}

#[test]
fn debug_catalog_layout() {
    let ts = debug_triggers();
    assert_eq!(ts.len(), 63);
    assert_eq!(
        ts[0],
        Trigger::Swipe(CardinalTrigger { fingers: 2, direction: Direction::Up, distance: 100, repeated: false })
    );
    assert_eq!(
        ts[3],
        Trigger::Swipe(CardinalTrigger { fingers: 2, direction: Direction::Right, distance: 100, repeated: false })
    );
    assert_eq!(
        ts[4],
        Trigger::Pinch(PinchTrigger { fingers: 2, direction: PinchDirection::In, scale: 1300, repeated: false })
    );
    assert_eq!(
        ts[9],
        Trigger::Shear(CardinalTrigger { fingers: 2, direction: Direction::Right, distance: 100, repeated: false })
    );
    assert_eq!(
        ts[15],
        Trigger::Pinch(PinchTrigger { fingers: 2, direction: PinchDirection::Out, scale: 1300, repeated: true })
    );
    assert_eq!(ts[20], Trigger::Hold(HoldTrigger { fingers: 2, time: 50 }));
    assert_eq!(
        ts[21],
        Trigger::Swipe(CardinalTrigger { fingers: 3, direction: Direction::Up, distance: 100, repeated: false })
    );
    assert_eq!(ts[41], Trigger::Hold(HoldTrigger { fingers: 3, time: 50 }));
    assert_eq!(ts[62], Trigger::Hold(HoldTrigger { fingers: 4, time: 50 }));
}

#[test]
fn debug_replay_lists_fired_triggers_in_order() {
    let events = vec![
        GestureEvent::Begin { fingers: 3 },
        swipe(3, 50, 0),
        swipe(3, 100, 0),
        swipe(3, 150, 0),
        swipe(3, 200, 0),
        GestureEvent::End,
        GestureEvent::Begin { fingers: 4 },
        hold_end(4, 10, 60),
    ];
    let once = Trigger::Swipe(CardinalTrigger { fingers: 3, direction: Direction::Right, distance: 100, repeated: false });
    let again = Trigger::Swipe(CardinalTrigger { fingers: 3, direction: Direction::Right, distance: 100, repeated: true });
    let hold = Trigger::Hold(HoldTrigger { fingers: 4, time: 50 });
    assert_eq!(debug_events(&events), vec![once, again, again, hold]);
    assert_eq!(debug_events(&Vec::new()), Vec::<Trigger>::new());
}
