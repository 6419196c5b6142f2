use vstd::prelude::*;
use crate::font::{Rgb, NUM_PIXELS};
use crate::render::{num_to_pixels, rendered};
use crate::wiring::{logical_array_to_zig_zag, wired};

verus! {

/// The largest counter value the display shows; one more wraps to 0.
pub const MAX_COUNTER: u64 = 99_999_999;

/// Seconds of inactivity after which the counter is persisted and the device
/// sleeps; the idle transition happens once more than this many whole seconds
/// have passed.
pub const IDLE_SECS: u64 = 10;

/// Clock ticks (microseconds) per second.
pub const TICKS_PER_SEC: u64 = 1_000_000;

/// The counter after one press: one more, wrapping past `MAX_COUNTER` to 0.
pub open spec fn next_count(c: u64) -> u64 {
    if c >= MAX_COUNTER {
        0
    } else {
        (c + 1) as u64
    }
}

/// Whether more than `IDLE_SECS` whole seconds lie between `last` and `now`.
pub open spec fn idle_elapsed(last: u64, now: u64) -> bool {
    now >= last && (now - last) / TICKS_PER_SEC as int > IDLE_SECS
}

/// The wiring-order frame that displays `c`.
pub open spec fn frame_of(c: u64) -> Seq<Rgb> {
    wired(rendered(c as int))
}

/// Increments the counter, wrapping past `MAX_COUNTER` to 0.
pub fn next_counter(c: u64) -> (r: u64)
    ensures
        r == next_count(c),
        r <= MAX_COUNTER,
{
    if c >= MAX_COUNTER {
        0
    } else {
        c + 1
    }
}

/// The frame, in wiring order, that displays `c`.
pub fn counter_frame(c: u64) -> (r: [Rgb; NUM_PIXELS])
    ensures
        r@ == frame_of(c),
{
    logical_array_to_zig_zag(num_to_pixels(c))
}

/// Whether the display is on and polled, or blanked and blocked until a
/// hardware wake event.
#[derive(Clone, Copy, Debug, PartialEq, Eq, Structural)]
pub enum Mode {
    Active,
    Sleeping,
}

/// What the device does after a step of the controller.
#[derive(Clone, Copy, Debug)]
pub enum Action {
    /// Nothing.
    Nothing,
    /// Output this wiring-order frame.
    Show([Rgb; NUM_PIXELS]),
    /// Persist this counter value, output a blank frame, then block until a
    /// wake event.
    Sleep(u64),
    /// Output this wiring-order frame, then wait a short settle delay before
    /// polling again.
    Wake([Rgb; NUM_PIXELS]),
}

/// Whether `a` outputs the frame of `c` (as `Show`).
pub open spec fn shows(a: Action, c: u64) -> bool {
    match a {
        Action::Show(f) => f@ == frame_of(c),
        _ => false,
    }
}

/// Whether `a` outputs the frame of `c` after waking (as `Wake`).
pub open spec fn wakes_with(a: Action, c: u64) -> bool {
    match a {
        Action::Wake(f) => f@ == frame_of(c),
        _ => false,
    }
}

/// The counter's lifecycle: presses, the idle timeout and sleep.
#[derive(Clone, Copy, Debug)]
pub struct Controller {
    /// The counter shown and persisted.
    pub counter: u64,
    /// Active or sleeping.
    pub mode: Mode,
    /// The button flag's value at the previous poll.
    pub button_was_pressed: bool,
    /// Clock reading (microseconds) of the last counter change, or of boot.
    pub last_activity: u64,
}

impl Controller {
    /// The state at boot: active, showing nothing yet, with the counter read
    /// from storage and the activity clock started at `now`.
    pub fn boot(stored: u64, now: u64) -> (r: Controller)
        ensures
            r.counter == stored,
            r.mode == Mode::Active,
            !r.button_was_pressed,
            r.last_activity == now,
    {
        Controller { counter: stored, mode: Mode::Active, button_was_pressed: false, last_activity: now }
    }

    /// One step: `pressed` is the button flag just taken (and cleared) and
    /// `now` the clock reading.
    ///
    /// While active, a press (flag set now, clear at the previous poll)
    /// increments the counter and shows it; otherwise, once more than
    /// `IDLE_SECS` seconds have passed since the last change, the counter is
    /// persisted and the device goes to sleep. While sleeping, a press wakes
    /// the device, increments the counter and shows it; a wake without a press
    /// changes nothing.
    pub fn step(&mut self, pressed: bool, now: u64) -> (r: Action)
        ensures
            old(self).mode == Mode::Active && pressed && !old(self).button_was_pressed ==> {
                &&& final(self).counter == next_count(old(self).counter)
                &&& final(self).mode == Mode::Active
                &&& final(self).button_was_pressed
                &&& final(self).last_activity == now
                &&& shows(r, final(self).counter)
            },
            old(self).mode == Mode::Active && !(pressed && !old(self).button_was_pressed) ==> {
                &&& final(self).counter == old(self).counter
                &&& final(self).button_was_pressed == pressed
                &&& final(self).last_activity == old(self).last_activity
                &&& if idle_elapsed(old(self).last_activity, now) {
                    final(self).mode == Mode::Sleeping && r == Action::Sleep(old(self).counter)
                } else {
                    final(self).mode == Mode::Active && r == Action::Nothing
                }
            },
            old(self).mode == Mode::Sleeping && pressed ==> {
                &&& final(self).counter == next_count(old(self).counter)
                &&& final(self).mode == Mode::Active
                &&& final(self).button_was_pressed
                &&& final(self).last_activity == now
                &&& wakes_with(r, final(self).counter)
            },
            old(self).mode == Mode::Sleeping && !pressed ==> *final(self) == *old(self) && r
                == Action::Nothing,
    {
        match self.mode {
            Mode::Active => {
                if pressed && !self.button_was_pressed {
                    self.counter = next_counter(self.counter);
                    self.button_was_pressed = true;
                    self.last_activity = now;
                    Action::Show(counter_frame(self.counter))
                } else {
                    self.button_was_pressed = pressed;
                    if now >= self.last_activity && (now - self.last_activity) / TICKS_PER_SEC
                        > IDLE_SECS {
                        self.mode = Mode::Sleeping;
                        Action::Sleep(self.counter)
                    } else {
                        Action::Nothing
                    }
                }
            },
            Mode::Sleeping => {
                if pressed {
                    self.counter = next_counter(self.counter);
                    self.mode = Mode::Active;
                    self.button_was_pressed = true;
                    self.last_activity = now;
                    Action::Wake(counter_frame(self.counter))
                } else {
                    Action::Nothing
                }
            },
        }
    }
}

} // verus!
