use led_counter::{counter_frame, next_counter, Action, Controller, Mode, MAX_COUNTER};

const SEC: u64 = 1_000_000;

fn shown(a: Action) -> Option<[led_counter::Rgb; 256]> {
    match a {
        Action::Show(f) => Some(f),
        _ => None,
    }
}

#[test]
fn increment_wraps_at_the_bound() {
    assert_eq!(next_counter(MAX_COUNTER), 0);
    assert_eq!(next_counter(99_999_999), 0);
    assert_eq!(next_counter(41), 42);
    assert_eq!(next_counter(u64::MAX - 1), 0);
}

#[test]
fn press_edge_increments_and_redraws() {
    let mut c = Controller::boot(41, 0);
    let a = c.step(true, SEC);
    assert_eq!(c.counter, 42);
    assert_eq!(shown(a), Some(counter_frame(42)));
    assert_eq!(c.last_activity, SEC);
    // The flag still set at the next poll is no new press.
    assert!(matches!(c.step(true, 2 * SEC), Action::Nothing));
    assert_eq!(c.counter, 42);
    // Released, then pressed again.
    assert!(matches!(c.step(false, 3 * SEC), Action::Nothing));
    assert!(shown(c.step(true, 4 * SEC)).is_some());
    assert_eq!(c.counter, 43);
}

#[test]
fn idle_persists_once_sleeps_and_wakes_on_press() {
    let mut c = Controller::boot(7, 0);
    // Ten seconds exactly is not yet idle.
    assert!(matches!(c.step(false, 10 * SEC), Action::Nothing));
    assert_eq!(c.mode, Mode::Active);
    // More than ten whole seconds: one persistence write, then sleep.
    let a = c.step(false, 11 * SEC);
    assert!(matches!(a, Action::Sleep(7)));
    assert_eq!(c.mode, Mode::Sleeping);
    // Spurious wakes change nothing and write nothing.
    for t in 12..20 {
        assert!(matches!(c.step(false, t * SEC), Action::Nothing));
        assert_eq!(c.mode, Mode::Sleeping);
    }
    // A press wakes, increments by one and redraws.
    match c.step(true, 30 * SEC) {
        Action::Wake(f) => assert_eq!(f, counter_frame(8)),
        _ => panic!("expected a wake"),
    }
    assert_eq!(c.counter, 8);
    assert_eq!(c.mode, Mode::Active);
    assert_eq!(c.last_activity, 30 * SEC);
    // The press that woke the device is not counted again.
    assert!(matches!(c.step(true, 31 * SEC), Action::Nothing));
    assert_eq!(c.counter, 8);
}

#[test]
fn wake_wraps_the_counter() {
    let mut c = Controller::boot(99_999_999, 0);
    assert!(matches!(c.step(false, 20 * SEC), Action::Sleep(99_999_999)));
    assert!(matches!(c.step(true, 21 * SEC), Action::Wake(_)));
    assert_eq!(c.counter, 0);
}
