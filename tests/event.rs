use std::collections::HashSet;
use std::time::{Duration, Instant};

use concurrent_event::dispatch::all_completed;
use concurrent_event::handler::{EventHandler, StatefulEventHandler, StatelessEventHandler};
use concurrent_event::id::HandlerId;
use concurrent_event::Event;

#[test]
fn empty_emit() {
    let mut ev = Event::<i32, StatelessEventHandler<i32, fn(i32)>>::new();
    assert!(ev.emit(5));
}

fn setup_single_handler_event(
) -> (Event<i32, StatefulEventHandler<i32, i32, impl Fn(i32, &mut i32) + Send>>, HandlerId) {
    let mut ev = Event::<i32, StatefulEventHandler<i32, i32, _>>::new();
    let handler = StatefulEventHandler::new(|arg, state: &mut i32| *state += arg, 0);
    let id = ev.add_handler(handler);
    (ev, id)
}

#[test]
fn single_handler_single_event() {
    let (mut ev, id) = setup_single_handler_event();
    assert!(ev.emit(5));

    let new_state = *ev.get_handler(id).unwrap().state();
    assert_eq!(5, new_state);
}

#[test]
fn single_handler_multiple_events() {
    let (mut ev, id) = setup_single_handler_event();
    assert!(ev.emit(5));
    assert!(ev.emit(3));

    let new_state = *ev.get_handler(id).unwrap().state();
    assert_eq!(8, new_state);
}

#[test]
fn multiple_handlers_multiple_events() {
    let mut ev = Event::<i32, StatefulEventHandler<i32, i32, fn(i32, &mut i32)>>::new();
    let h1 = StatefulEventHandler::new((|arg, state| *state += arg) as fn(i32, &mut i32), 0);
    let h2 = StatefulEventHandler::new((|arg, state| *state *= arg) as fn(i32, &mut i32), 1);
    let id1 = ev.add_handler(h1);
    let id2 = ev.add_handler(h2);

    assert!(ev.emit(3));
    assert!(ev.emit(5));

    let new_state_1 = *ev.get_handler(id1).unwrap().state();
    let new_state_2 = *ev.get_handler(id2).unwrap().state();
    assert_eq!(8, new_state_1);
    assert_eq!(15, new_state_2);
}

#[test]
fn boxed_handler() {
    let mut ev = Event::<i32, Box<dyn EventHandler<i32>>>::new();
    let handler = Box::new(StatelessEventHandler::new(|_: i32| {}));
    ev.add_handler(handler);
    ev.emit(7);
}

#[test]
fn parallel_execution() {
    let mut ev = Event::<(), StatelessEventHandler<(), _>>::new();
    let duration = Duration::from_millis(16);
    let handler_count = 32;

    for _ in 0..handler_count {
        ev.add_handler(StatelessEventHandler::new(move |_| {
            let _ = crossbeam::channel::after(duration).recv();
        }));
    }

    let before = Instant::now();
    assert!(ev.emit(()));
    let elapsed = before.elapsed();

    assert!(elapsed < duration * (handler_count / 2));
}

#[test]
fn awaits() {
    let mut ev = Event::<(), StatefulEventHandler<(), bool, _>>::new();
    let handler = StatefulEventHandler::new(|_: (), s: &mut bool| *s = true, false);
    let id = ev.add_handler(handler);

    assert!(ev.emit(()));

    let state = *ev.get_handler(id).unwrap().state();
    assert!(state);
}

struct PanicState {
    panicked: bool,
    calmed: bool,
}

impl PanicState {
    fn new() -> PanicState {
        PanicState { panicked: false, calmed: false }
    }
}

#[test]
fn panicking() {
    let mut ev = Event::<(), StatefulEventHandler<(), PanicState, _>>::new();
    let handler = StatefulEventHandler::new(
        |_: (), s: &mut PanicState| {
            if s.panicked {
                s.calmed = true;
            } else {
                s.panicked = true;
                panic!("(╯°□°）╯︵ ┻━┻");
            }
        },
        PanicState::new(),
    );
    let id = ev.add_handler(handler);

    assert!(!ev.emit(()));
    assert!(ev.emit(()));

    let new_state = ev.get_handler(id).unwrap().state();
    assert!(new_state.calmed);
}

#[test]
fn stateless_handlers_all_succeed() {
    for n in [0usize, 1, 2, 7] {
        let mut ev = Event::<u8, StatelessEventHandler<u8, _>>::new();
        for _ in 0..n {
            ev.add_handler(StatelessEventHandler::new(|_: u8| {}));
        }
        assert!(ev.emit(1));
        assert!(ev.emit(2));
    }
}

#[test]
fn failure_of_one_handler_spares_the_others() {
    let mut ev = Event::<i32, StatefulEventHandler<i32, i32, fn(i32, &mut i32)>>::new();
    let good = StatefulEventHandler::new((|arg, state| *state += arg) as fn(i32, &mut i32), 0);
    let bad = StatefulEventHandler::new(
        (|arg, _state| {
            if arg > 0 {
                panic!("refusing a positive argument");
            }
        }) as fn(i32, &mut i32),
        0,
    );
    let good_id = ev.add_handler(good);
    ev.add_handler(bad);

    assert!(!ev.emit(4));
    assert!(!ev.emit(6));
    assert!(ev.emit(-1));
    assert_eq!(9, *ev.get_handler(good_id).unwrap().state());
}

#[test]
fn identifiers_do_not_repeat() {
    let mut ev = Event::<u8, StatelessEventHandler<u8, _>>::new();
    let mut seen = HashSet::new();
    for _ in 0..2000 {
        let id = ev.add_handler(StatelessEventHandler::new(|_: u8| {}));
        assert!(seen.insert(id));
    }
    assert_eq!(2000, seen.len());
}

#[test]
fn identifier_equality_is_byte_equality() {
    let mut ev = Event::<u8, StatelessEventHandler<u8, _>>::new();
    let nop = |_: u8| {};
    let a = ev.add_handler(StatelessEventHandler::new(nop));
    let b = ev.add_handler(StatelessEventHandler::new(nop));
    let a_copy = a;
    assert!(a == a_copy);
    assert!(a.same_as(&a_copy));
    assert!(a != b);
    assert!(!a.same_as(&b));
}

#[test]
fn lookup_of_unknown_identifier_is_absent() {
    let mut other = Event::<u8, StatelessEventHandler<u8, _>>::new();
    let foreign = other.add_handler(StatelessEventHandler::new(|_: u8| {}));

    let mut ev = Event::<u8, StatelessEventHandler<u8, _>>::new();
    assert!(ev.get_handler(foreign).is_none());
    ev.add_handler(StatelessEventHandler::new(|_: u8| {}));
    assert!(ev.get_handler(foreign).is_none());
    assert!(other.get_handler(foreign).is_some());
}

#[test]
fn emit_without_handlers_changes_nothing() {
    let mut ev = Event::<i32, StatefulEventHandler<i32, i32, fn(i32, &mut i32)>>::new();
    let mut other = Event::<i32, StatefulEventHandler<i32, i32, fn(i32, &mut i32)>>::new();
    let id = other.add_handler(StatefulEventHandler::new(
        (|arg, state| *state += arg) as fn(i32, &mut i32),
        0,
    ));
    assert!(ev.emit(42));
    assert!(ev.emit(-42));
    assert!(ev.get_handler(id).is_none());
}

#[test]
fn boxed_registration_keeps_handler_state() {
    let mut ev = Event::<i32, Box<StatefulEventHandler<i32, i32, fn(i32, &mut i32)>>>::new();
    let id = ev.add_handler_boxed(StatefulEventHandler::new(
        (|arg, state| *state -= arg) as fn(i32, &mut i32),
        10,
    ));
    assert!(ev.emit(3));
    assert!(ev.emit(4));
    assert_eq!(3, *ev.get_handler(id).unwrap().state());
}

#[test]
fn handlers_of_different_kinds_share_one_event() {
    let mut ev = Event::<i32, Box<dyn EventHandler<i32>>>::new();
    let counter = StatefulEventHandler::new(|arg: i32, state: &mut i32| *state += arg, 0);
    ev.add_handler(Box::new(counter));
    ev.add_handler(Box::new(StatelessEventHandler::new(|_: i32| {})));
    assert!(ev.emit(2));
    assert!(ev.emit(3));
}

#[test]
fn all_completed_folds_outcomes() {
    assert!(all_completed(&[]));
    assert!(all_completed(&[true, true, true]));
    assert!(!all_completed(&[true, false, true]));
    assert!(!all_completed(&[false]));
}

#[test]
fn identifiers_from_bytes_compare_by_bytes() {
    let a = HandlerId::from_bytes([7u8; 32]);
    let b = HandlerId::from_bytes([7u8; 32]);
    let mut other = [7u8; 32];
    other[31] = 8;
    let c = HandlerId::from_bytes(other);
    assert!(a == b);
    assert!(a.same_as(&b));
    assert!(a != c);
    assert!(!c.same_as(&a));

    let ev = Event::<u8, StatelessEventHandler<u8, fn(u8)>>::new();
    assert!(ev.get_handler(a).is_none());
}
