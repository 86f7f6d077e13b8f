//! The delay and sound timers: two independent 8-bit down-counters.

use vstd::prelude::*;

verus! {

#[derive(Debug)]
pub struct Timers {
    delay_timer: u8,
    sound_timer: u8,
}

/// One tick of a down-counter that stops at zero.
pub open spec fn ticked(counter: u8) -> u8 {
    if counter > 0 {
        (counter - 1) as u8
    } else {
        0
    }
}

impl Timers {
    /// The current value of the delay timer.
    pub closed spec fn delay(&self) -> u8 {
        self.delay_timer
    }

    /// The current value of the sound timer.
    pub closed spec fn sound(&self) -> u8 {
        self.sound_timer
    }

    /// Both timers at zero.
    pub fn new() -> (timers: Timers)
        ensures
            timers.delay() == 0,
            timers.sound() == 0,
    {
        Timers { delay_timer: 0, sound_timer: 0 }
    }

    pub fn get_delay_timer(&self) -> (value: u8)
        ensures
            value == self.delay(),
    {
        self.delay_timer
    }

    pub fn set_delay_timer(&mut self, value: u8)
        ensures
            final(self).delay() == value,
            final(self).sound() == old(self).sound(),
    {
        self.delay_timer = value;
    }

    pub fn get_sound_timer(&self) -> (value: u8)
        ensures
            value == self.sound(),
    {
        self.sound_timer
    }

    pub fn set_sound_timer(&mut self, value: u8)
        ensures
            final(self).sound() == value,
            final(self).delay() == old(self).delay(),
    {
        self.sound_timer = value;
    }

    /// Counts each timer down by one, independently, stopping at zero.
    pub fn decrement_timers(&mut self)
        ensures
            final(self).delay() == ticked(old(self).delay()),
            final(self).sound() == ticked(old(self).sound()),
    {
        if self.delay_timer > 0 {
            self.delay_timer -= 1;
        }
        if self.sound_timer > 0 {
            self.sound_timer -= 1;
        }
    }
}

} // verus!
