//! The blinking of a caret.
use vstd::prelude::*;

verus! {

/// Milliseconds between two changes of a blinking caret.
pub const BLINK_MS: u64 = 530;

/// A caret that blinks.
#[derive(Debug, Clone, Copy, PartialEq, Eq, Structural)]
pub struct Blink {
    pub on: bool,
    /// Counts the restarts: a timer that was started before the last one stops.
    pub epoch: u64,
}

impl Blink {
    /// A caret that is shown.
    pub fn new() -> (b: Blink)
        ensures
            b.on,
            b.epoch == 0,
    {
        Blink { on: true, epoch: 0 }
    }

    /// Shows the caret and starts a new timer, whose number it gives.
    pub fn reset_blink(&mut self) -> (epoch: u64)
        requires
            old(self).epoch < u64::MAX,
        ensures
            final(self).on,
            final(self).epoch == old(self).epoch + 1,
            epoch == final(self).epoch,
    {
        self.on = true;
        self.epoch = self.epoch + 1;
        self.epoch
    }

    /// The timer with the number `epoch` has run out. Says whether it goes on: only the one that
    /// was started last does, and changes whether the caret is shown.
    pub fn tick(&mut self, epoch: u64) -> (go_on: bool)
        ensures
            go_on == (epoch == old(self).epoch),
            final(self).epoch == old(self).epoch,
            final(self).on == if go_on { !old(self).on } else { old(self).on },
    {
        if self.epoch != epoch {
            return false;
        }
        self.on = !self.on;
        true
    }
}

/// A restart stops every timer that was started before: a tick of one changes nothing.
pub proof fn restart_stops_timers(before: Blink, after: Blink, epoch: u64)
    requires
        after.epoch == before.epoch + 1,
        epoch <= before.epoch,
    ensures
        epoch != after.epoch,
{
}

} // verus!
