//! The machine's two timers: the delay timer, which programs read, and the
//! sound timer, which asks for a beep whenever it counts down.

use crate::hardware::{TimerView, TIMER_TICK_MICROS};
use vstd::prelude::*;

verus! {

/// Whether a register went from `before` to `after` by counting down once.
pub open spec fn ticked(before: u8, after: u8) -> bool {
    before > 0 && after == before - 1
}

/// What a timer of the machine does: it counts down, by one at most.
pub trait Timer {
    /// The value of the timer's register.
    spec fn register(&self) -> u8;

    /// Lets the timer count down if its time has come.
    fn countdown(&mut self)
        ensures
            final(self).register() == old(self).register() || ticked(
                old(self).register(),
                final(self).register(),
            ),
    ;
}

/// The delay timer.
pub struct Delay {
    timer: crate::hardware::Timer,
}

/// The sound timer. Each time it counts down it raises a flag that asks for
/// a beep; the flag stays up until it is taken.
pub struct Sound {
    timer: crate::hardware::Timer,
    beep: bool,
}

/// What a sound timer is to a contract.
pub struct SoundView {
    /// The register and its period.
    pub timer: TimerView,
    /// Whether a beep was asked for and not taken yet.
    pub beep: bool,
}

impl SoundView {
    /// The sound timer after a countdown at the time `now`: it counts down
    /// as every timer does, and asks for a beep if it did.
    pub open spec fn countdown(self, now: u128) -> SoundView {
        SoundView { timer: self.timer.countdown(now), beep: self.beep || self.timer.due(now) }
    }

    /// The sound timer after the beep is taken.
    pub open spec fn silenced(self) -> SoundView {
        SoundView { beep: false, ..self }
    }
}

/// A beep is asked for exactly when the sound timer counts down: after a
/// countdown on a timer that owed no beep, the flag is up if the register
/// went down by one, and down if nothing changed. Once the beep is taken
/// the flag is down, and a countdown less than a period after the one that
/// raised it does not raise it again.
pub proof fn lemma_beep_at_each_countdown(sound: SoundView, now: u128, later: u128)
    requires
        !sound.beep,
    ensures
        sound.countdown(now).beep <==> ticked(
            sound.timer.remaining,
            sound.countdown(now).timer.remaining,
        ),
        !sound.countdown(now).beep ==> sound.countdown(now) == sound,
        !sound.countdown(now).silenced().beep,
        sound.countdown(now).beep && later - now < TIMER_TICK_MICROS ==> sound.countdown(
            now,
        ).silenced().countdown(later) == sound.countdown(now).silenced(),
{
}

impl View for Delay {
    type V = TimerView;

    closed spec fn view(&self) -> TimerView {
        self.timer@
    }
}

impl Default for Delay {
    /// A delay timer at zero.
    fn default() -> (delay: Self)
        ensures
            delay@ == TimerView::set(0, 0),
    {
        Delay { timer: Default::default() }
    }
}

impl Delay {
    /// Sets the register and begins a new period.
    pub fn set_time(&mut self, time: u8)
        ensures
            final(self)@.remaining == time,
    {
        self.timer.set_time(time);
    }

    /// The setting for a given reading of the timer's clock.
    pub fn set_time_at(&mut self, time: u8, now: u128)
        ensures
            final(self)@ == TimerView::set(time, now),
    {
        self.timer.set_time_at(time, now);
    }

    /// The countdown for a given reading of the timer's clock.
    pub fn countdown_at(&mut self, now: u128)
        ensures
            final(self)@ == old(self)@.countdown(now),
    {
        self.timer.countdown_at(now);
    }

    /// The value of the register.
    pub fn get_remaining(&self) -> (remaining: u8)
        ensures
            remaining == self@.remaining,
    {
        self.timer.get_remaining()
    }
}

impl Timer for Delay {
    open spec fn register(&self) -> u8 {
        self@.remaining
    }

    /// Counts down by one if the register is not zero and a period has
    /// passed on the clock since the last countdown or setting.
    fn countdown(&mut self)
        ensures
            final(self)@ == old(self)@ || (ticked(old(self)@.remaining, final(self)@.remaining)
                && final(self)@.tick_start - old(self)@.tick_start >= TIMER_TICK_MICROS),
    {
        self.timer.countdown();
    }
}

impl View for Sound {
    type V = SoundView;

    closed spec fn view(&self) -> SoundView {
        SoundView { timer: self.timer@, beep: self.beep }
    }
}

impl Default for Sound {
    /// A silent sound timer at zero.
    fn default() -> (sound: Self)
        ensures
            sound@ == (SoundView { timer: TimerView::set(0, 0), beep: false }),
    {
        Sound { timer: Default::default(), beep: false }
    }
}

impl Sound {
    /// Whether a beep was asked for and not taken yet.
    pub open spec fn beep_pending(&self) -> bool {
        self@.beep
    }

    /// Sets the register and begins a new period.
    pub fn set_time(&mut self, time: u8)
        ensures
            final(self)@.timer.remaining == time,
            final(self)@.beep == old(self)@.beep,
    {
        self.timer.set_time(time);
    }

    /// The setting for a given reading of the timer's clock.
    pub fn set_time_at(&mut self, time: u8, now: u128)
        ensures
            final(self)@ == (SoundView { timer: TimerView::set(time, now), ..old(self)@ }),
    {
        self.timer.set_time_at(time, now);
    }

    /// The countdown for a given reading of the timer's clock.
    pub fn countdown_at(&mut self, now: u128)
        ensures
            final(self)@ == old(self)@.countdown(now),
    {
        if self.timer.countdown_at(now) {
            self.beep = true;
        }
    }

    /// The value of the register.
    pub fn get_remaining(&self) -> (remaining: u8)
        ensures
            remaining == self@.timer.remaining,
    {
        self.timer.get_remaining()
    }

    /// Whether the timer counted down since this was last asked. Asking
    /// resets the flag.
    pub fn must_beep(&mut self) -> (beep: bool)
        ensures
            beep == old(self)@.beep,
            final(self)@ == old(self)@.silenced(),
    {
        if self.beep {
            self.beep = false;
            return true;
        }
        false
    }
}

impl Timer for Sound {
    open spec fn register(&self) -> u8 {
        self@.timer.remaining
    }

    /// Counts down as every timer does, and asks for a beep if it did.
    fn countdown(&mut self)
        ensures
            final(self)@ == old(self)@ || (ticked(
                old(self)@.timer.remaining,
                final(self)@.timer.remaining,
            ) && final(self)@.timer.tick_start - old(self)@.timer.tick_start >= TIMER_TICK_MICROS
                && final(self)@.beep),
    {
        if self.timer.countdown() {
            self.beep = true;
        }
    }
}

} // verus!
