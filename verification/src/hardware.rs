//! The devices beside the screen: a countdown timer paced by the wall clock
//! and the sixteen-key keyboard with its wait for the next key.

use std::time::{Duration, Instant};
use vstd::prelude::*;

verus! {

/// A point on the monotonic clock. Nothing of its inside is visible to
/// proofs.
#[verifier::external_type_specification]
#[verifier::external_body]
pub struct ExInstant(Instant);

/// `Instant::now` reads the monotonic clock. What it returns depends on when
/// it is called, so nothing is claimed of it.
pub assume_specification[ Instant::now ]() -> Instant
;

/// `Instant::elapsed` measures the time from the instant to now, and gives
/// zero should the clock read earlier than the instant. What it returns
/// depends on when it is called, so nothing is claimed of it.
pub assume_specification[ Instant::elapsed ](instant: &Instant) -> Duration
;

/// `Duration::as_micros` gives the whole microseconds in a duration. The
/// duration is opaque here, so nothing is claimed of the number.
pub assume_specification[ Duration::as_micros ](duration: &Duration) -> u128
;

/// Microseconds in one period of the 60 Hz timers.
pub const TIMER_TICK_MICROS: u128 = 16_666;

/// An 8-bit register that counts down to zero at 60 Hz, however often it is
/// asked to. It reads the time off a clock of its own, in microseconds since
/// the timer was made.
pub struct Timer {
    register: u8,
    clock: Instant,
    start_tick_time: u128,
}

/// What a timer is to a contract.
pub struct TimerView {
    /// The value of the register.
    pub remaining: u8,
    /// When the period that is running began, on the timer's clock.
    pub tick_start: u128,
}

impl TimerView {
    /// A timer set to `time` at the time `now`: a new period begins.
    pub open spec fn set(time: u8, now: u128) -> TimerView {
        TimerView { remaining: time, tick_start: now }
    }

    /// Whether a countdown at the time `now` takes one off the register:
    /// the register is not zero and a whole period has passed.
    pub open spec fn due(self, now: u128) -> bool {
        self.remaining > 0 && now - self.tick_start >= TIMER_TICK_MICROS
    }

    /// The timer after a countdown at the time `now`: one less in the
    /// register and a new period if the countdown was due, else no change.
    pub open spec fn countdown(self, now: u128) -> TimerView {
        if self.due(now) {
            TimerView { remaining: (self.remaining - 1) as u8, tick_start: now }
        } else {
            self
        }
    }

    /// The timer after one countdown at each of `times`, first to last.
    pub open spec fn countdowns(self, times: Seq<u128>) -> TimerView
        decreases times.len(),
    {
        if times.len() == 0 {
            self
        } else {
            self.countdowns(times.drop_last()).countdown(times.last())
        }
    }
}

/// Whether each of `times` comes a period or more after the one before it,
/// and the first a period or more after `start`.
pub open spec fn a_period_apart(start: u128, times: Seq<u128>) -> bool {
    &&& times.len() > 0 ==> times[0] - start >= TIMER_TICK_MICROS
    &&& forall|k: int|
        0 < k < times.len() ==> #[trigger] times[k] - times[k - 1] >= TIMER_TICK_MICROS
}

/// Countdowns that come a period or more apart take one off the register
/// each, until it is zero.
pub proof fn lemma_paced_countdowns(timer: TimerView, times: Seq<u128>)
    requires
        a_period_apart(timer.tick_start, times),
    ensures
        timer.countdowns(times).remaining == if times.len() <= timer.remaining {
            timer.remaining - times.len()
        } else {
            0
        },
        0 < times.len() <= timer.remaining ==> timer.countdowns(times).tick_start == times.last(),
    decreases times.len(),
{
    if times.len() > 0 {
        let earlier = times.drop_last();
        assert(a_period_apart(timer.tick_start, earlier)) by {
            assert forall|k: int| 0 < k < earlier.len() implies #[trigger] earlier[k] - earlier[k
                - 1] >= TIMER_TICK_MICROS by {
                assert(times[k] - times[k - 1] >= TIMER_TICK_MICROS);
            }
        }
        lemma_paced_countdowns(timer, earlier);
        if earlier.len() > 0 {
            assert(earlier.last() == times[times.len() - 2]);
        }
    }
}

/// Countdowns that come before the period is over change nothing, however
/// many they are.
pub proof fn lemma_hasty_countdowns(timer: TimerView, times: Seq<u128>)
    requires
        forall|k: int| 0 <= k < times.len() ==> times[k] - timer.tick_start < TIMER_TICK_MICROS,
    ensures
        timer.countdowns(times) == timer,
    decreases times.len(),
{
    if times.len() > 0 {
        lemma_hasty_countdowns(timer, times.drop_last());
    }
}

impl View for Timer {
    type V = TimerView;

    closed spec fn view(&self) -> TimerView {
        TimerView { remaining: self.register, tick_start: self.start_tick_time }
    }
}

impl Default for Timer {
    /// A timer at zero, with its clock started.
    fn default() -> (timer: Self)
        ensures
            timer@ == TimerView::set(0, 0),
    {
        Timer { register: 0, clock: Instant::now(), start_tick_time: 0 }
    }
}

impl Timer {
    /// The time on the timer's clock.
    fn now(&self) -> u128 {
        self.clock.elapsed().as_micros()
    }

    /// Counts down by one if the register is not zero and a period has
    /// passed on the clock since the last countdown or setting, and says
    /// whether it did. A countdown begins a new period.
    pub fn countdown(&mut self) -> (ticked: bool)
        ensures
            ticked ==> old(self)@.remaining > 0 && final(self)@.remaining == old(self)@.remaining
                - 1 && final(self)@.tick_start - old(self)@.tick_start >= TIMER_TICK_MICROS,
            !ticked ==> final(self)@ == old(self)@,
    {
        if self.register > 0 {
            let now: u128 = self.now();
            self.countdown_at(now)
        } else {
            false
        }
    }

    /// The countdown for a given reading of the clock.
    pub fn countdown_at(&mut self, now: u128) -> (ticked: bool)
        ensures
            ticked == old(self)@.due(now),
            final(self)@ == old(self)@.countdown(now),
    {
        if self.register > 0 && now >= self.start_tick_time && now - self.start_tick_time
            >= TIMER_TICK_MICROS {
            self.register -= 1;
            self.start_tick_time = now;
            return true;
        }
        false
    }

    /// Sets the register and begins a new period.
    pub fn set_time(&mut self, time: u8)
        ensures
            final(self)@.remaining == time,
    {
        let now: u128 = self.now();
        self.set_time_at(time, now);
    }

    /// The setting for a given reading of the clock.
    pub fn set_time_at(&mut self, time: u8, now: u128)
        ensures
            final(self)@ == TimerView::set(time, now),
    {
        self.register = time;
        self.start_tick_time = now;
    }

    /// The value of the register.
    pub fn get_remaining(&self) -> (remaining: u8)
        ensures
            remaining == self@.remaining,
    {
        self.register
    }
}

/// The keys, named by the hexadecimal digit on them.
#[derive(Clone, Copy, Debug, PartialEq, Eq, Structural)]
pub enum Key {
    Key0,
    Key1,
    Key2,
    Key3,
    Key4,
    Key5,
    Key6,
    Key7,
    Key8,
    Key9,
    KeyA,
    KeyB,
    KeyC,
    KeyD,
    KeyE,
    KeyF,
}

impl Key {
    /// The digit on the key.
    pub open spec fn digit(self) -> u8 {
        match self {
            Key::Key0 => 0x0,
            Key::Key1 => 0x1,
            Key::Key2 => 0x2,
            Key::Key3 => 0x3,
            Key::Key4 => 0x4,
            Key::Key5 => 0x5,
            Key::Key6 => 0x6,
            Key::Key7 => 0x7,
            Key::Key8 => 0x8,
            Key::Key9 => 0x9,
            Key::KeyA => 0xA,
            Key::KeyB => 0xB,
            Key::KeyC => 0xC,
            Key::KeyD => 0xD,
            Key::KeyE => 0xE,
            Key::KeyF => 0xF,
        }
    }

    /// The digit on the key.
    #[verifier::when_used_as_spec(digit)]
    pub fn value(self) -> (digit: u8)
        ensures
            digit == self.digit(),
            digit < KEY_COUNT,
    {
        match self {
            Key::Key0 => 0x0,
            Key::Key1 => 0x1,
            Key::Key2 => 0x2,
            Key::Key3 => 0x3,
            Key::Key4 => 0x4,
            Key::Key5 => 0x5,
            Key::Key6 => 0x6,
            Key::Key7 => 0x7,
            Key::Key8 => 0x8,
            Key::Key9 => 0x9,
            Key::KeyA => 0xA,
            Key::KeyB => 0xB,
            Key::KeyC => 0xC,
            Key::KeyD => 0xD,
            Key::KeyE => 0xE,
            Key::KeyF => 0xF,
        }
    }
}

/// Keys on the keyboard.
pub const KEY_COUNT: usize = 16;

/// The keyboard: which keys are down, and the wait for the next key.
pub struct Keyboard {
    keys: [bool; KEY_COUNT],
    waiting_input: bool,
    last_pressed: Option<u8>,
}

/// What a keyboard is to a contract.
pub struct KeyboardView {
    /// For each of the sixteen keys, whether it is down.
    pub pressed: Seq<bool>,
    /// Whether the machine waits for a key.
    pub waiting: bool,
    /// The key that came while the machine waited, until it is taken.
    pub latched: Option<u8>,
}

impl KeyboardView {
    /// A keyboard that nobody has touched.
    pub open spec fn idle() -> KeyboardView {
        KeyboardView { pressed: Seq::new(KEY_COUNT as nat, |k: int| false), waiting: false, latched: None }
    }

    /// Sixteen keys; a key is latched only during a wait, and is one of
    /// the sixteen.
    pub open spec fn well_formed(self) -> bool {
        &&& self.pressed.len() == KEY_COUNT
        &&& self.latched matches Some(key) ==> self.waiting && key < KEY_COUNT
    }

    /// The keyboard after `key` goes down. During a wait the first key
    /// that comes is latched, and stays.
    pub open spec fn press(self, key: u8) -> KeyboardView {
        KeyboardView {
            pressed: self.pressed.update(key as int, true),
            waiting: self.waiting,
            latched: if self.waiting && self.latched is None {
                Some(key)
            } else {
                self.latched
            },
        }
    }

    /// The keyboard after `key` comes up.
    pub open spec fn unpress(self, key: u8) -> KeyboardView {
        KeyboardView { pressed: self.pressed.update(key as int, false), ..self }
    }

    /// The key that a request gets: the latched one, if the machine was
    /// waiting.
    pub open spec fn requested_key(self) -> Option<u8> {
        if self.waiting {
            self.latched
        } else {
            None
        }
    }

    /// The keyboard after a request for a key: the wait is over if a key
    /// was latched, and begins or goes on if none was.
    pub open spec fn request(self) -> KeyboardView {
        if self.waiting && self.latched is Some {
            KeyboardView { waiting: false, latched: None, ..self }
        } else {
            KeyboardView { waiting: true, ..self }
        }
    }
}

/// A request on a fresh keyboard gets no key and begins the wait. A key
/// that goes down during the wait is what the next request gets, and ends
/// the wait; a key that goes down after it, or one that comes up, does not
/// take its place. A request during a wait in which no key came gets none,
/// and the wait goes on.
pub proof fn lemma_key_wait(keyboard: KeyboardView, key: u8, other: u8)
    requires
        keyboard.well_formed(),
        key < KEY_COUNT,
        other < KEY_COUNT,
    ensures
        KeyboardView::idle().requested_key() is None,
        KeyboardView::idle().request().waiting,
        KeyboardView::idle().request().latched is None,
        keyboard.waiting && keyboard.latched is None ==> {
            &&& keyboard.requested_key() is None
            &&& keyboard.request() == keyboard
            &&& keyboard.press(key).requested_key() == Some(key)
            &&& !keyboard.press(key).request().waiting
            &&& keyboard.press(key).request().latched is None
            &&& keyboard.press(key).press(other).requested_key() == Some(key)
            &&& keyboard.press(key).unpress(other).requested_key() == Some(key)
        },
        keyboard.unpress(key).latched == keyboard.latched,
        keyboard.unpress(key).waiting == keyboard.waiting,
        keyboard.press(key).well_formed(),
        keyboard.unpress(key).well_formed(),
        keyboard.request().well_formed(),
{
}

impl View for Keyboard {
    type V = KeyboardView;

    closed spec fn view(&self) -> KeyboardView {
        KeyboardView {
            pressed: self.keys@,
            waiting: self.waiting_input,
            latched: match self.last_pressed {
                Some(key) if self.waiting_input && key < KEY_COUNT => Some(key),
                _ => None,
            },
        }
    }
}

impl Default for Keyboard {
    /// A keyboard with no key down and no wait.
    fn default() -> (keyboard: Self)
        ensures
            keyboard@ == KeyboardView::idle(),
    {
        let keyboard = Keyboard { keys: [false; KEY_COUNT], waiting_input: false, last_pressed: None };
        assert(keyboard@.pressed =~= KeyboardView::idle().pressed);
        keyboard
    }
}

impl Keyboard {
    /// Every keyboard is well formed.
    pub proof fn lemma_well_formed(&self)
        ensures
            self@.well_formed(),
    {
    }

    /// A key is latched only during a wait, and is one of the sixteen.
    #[verifier::type_invariant]
    spec fn inv(&self) -> bool {
        self.last_pressed matches Some(key) ==> self.waiting_input && key < KEY_COUNT
    }

    /// Records that `key` went down.
    pub fn press_key(&mut self, key: Key)
        ensures
            final(self)@ == old(self)@.press(key.digit()),
    {
        proof {
            use_type_invariant(&*self);
        }
        let key: u8 = key.value();
        self.keys[key as usize] = true;
        if self.waiting_input && self.last_pressed.is_none() {
            self.last_pressed = Some(key);
        }
    }

    /// Records that `key` came up.
    pub fn unpress_key(&mut self, key: Key)
        ensures
            final(self)@ == old(self)@.unpress(key.digit()),
    {
        proof {
            use_type_invariant(&*self);
        }
        let key: u8 = key.value();
        self.keys[key as usize] = false;
    }

    /// Whether the key with the digit `key` is down.
    pub fn is_key_pressed(&self, key: u8) -> (pressed: bool)
        requires
            key < KEY_COUNT,
        ensures
            pressed == self@.pressed[key as int],
    {
        self.keys[key as usize]
    }

    /// Asks for the next key. The first request begins a wait and gets
    /// none; a later one gets the key that came meanwhile, if one did, and
    /// ends the wait.
    pub fn get_key(&mut self) -> (key: Option<u8>)
        ensures
            key == old(self)@.requested_key(),
            final(self)@ == old(self)@.request(),
            key matches Some(digit) ==> digit < KEY_COUNT,
    {
        proof {
            use_type_invariant(&*self);
        }
        if self.waiting_input && self.last_pressed.is_some() {
            let key: Option<u8> = self.last_pressed;
            self.last_pressed = None;
            self.waiting_input = false;
            key
        } else {
            self.waiting_input = true;
            None
        }
    }

    /// Whether the machine waits for a key.
    pub fn is_waiting(&self) -> (waiting: bool)
        ensures
            waiting == self@.waiting,
    {
        self.waiting_input
    }

    /// The key that came during the wait and was not taken yet.
    pub fn last_pressed(&self) -> (key: Option<u8>)
        ensures
            key == self@.latched,
    {
        proof {
            use_type_invariant(self);
        }
        self.last_pressed
    }
}

} // verus!
