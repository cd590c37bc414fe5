//! A countdown clock that reads the system's monotonic clock.

use std::time::Duration;
use std::time::Instant;
use vstd::prelude::*;

verus! {

/// `std::time::Instant`, a reading of the monotonic clock. Nothing is known
/// of what a reading holds.
#[verifier::external_type_specification]
#[verifier::external_body]
pub struct ExInstant(Instant);

/// `Instant::now` reads the clock. Nothing is claimed of the reading.
pub assume_specification[ Instant::now ]() -> Instant
;

/// `Instant::elapsed` gives the time since the reading was taken. Nothing is
/// claimed of the amount.
pub assume_specification[ Instant::elapsed ](since: &Instant) -> Duration
;

/// `Duration::as_millis` gives the whole milliseconds of a duration. Nothing
/// is claimed of the number.
pub assume_specification[ Duration::as_millis ](span: &Duration) -> u128
;

/// What is left of `stored` milliseconds once `elapsed` have gone by: the
/// difference, or zero if more time has gone by than was stored.
pub open spec fn left_after(stored: nat, elapsed: nat) -> nat {
    if elapsed >= stored {
        0
    } else {
        (stored - elapsed) as nat
    }
}

/// A player's clock. It is either stopped, holding the milliseconds that are
/// left, or running, holding what was left when it was started and the clock
/// reading of that moment.
pub struct CountdownTimer {
    remaining: usize,
    start: Option<Instant>,
}

impl CountdownTimer {
    /// The milliseconds that were left when the timer was last stopped or
    /// made.
    pub closed spec fn stored(&self) -> nat {
        self.remaining as nat
    }

    /// Whether the timer is counting down.
    pub closed spec fn running(&self) -> bool {
        self.start is Some
    }

    /// A stopped timer with `millis` milliseconds left.
    pub fn new(millis: usize) -> (timer: CountdownTimer)
        ensures
            !timer.running(),
            timer.stored() == millis,
    {
        CountdownTimer { remaining: millis, start: None }
    }

    /// Whether the timer is counting down.
    pub fn is_running(&self) -> (running: bool)
        ensures
            running == self.running(),
    {
        self.start.is_some()
    }

    /// Starts a stopped timer at the present moment.
    pub fn start(&mut self)
        requires
            !old(self).running(),
        ensures
            final(self).running(),
            final(self).stored() == old(self).stored(),
    {
        self.start = Some(Instant::now());
    }

    /// Stops a running timer of which it is known that `elapsed`
    /// milliseconds have gone by since it was started.
    pub fn stop_after(&mut self, elapsed: u128)
        requires
            old(self).running(),
        ensures
            !final(self).running(),
            final(self).stored() == left_after(old(self).stored(), elapsed as nat),
    {
        self.remaining = self.remaining_after(elapsed);
        self.start = None;
    }

    /// Stops a running timer and takes the time since its start off what was
    /// left, down to zero at most. How much that is depends on the clock.
    pub fn stop(&mut self)
        requires
            old(self).running(),
        ensures
            !final(self).running(),
            final(self).stored() <= old(self).stored(),
    {
        let elapsed: u128 = self.elapsed_millis();
        self.stop_after(elapsed);
    }

    /// The milliseconds since a running timer was started, which depend on
    /// the clock; zero for a stopped one.
    fn elapsed_millis(&self) -> (elapsed: u128)
        ensures
            !self.running() ==> elapsed == 0,
    {
        match &self.start {
            Some(since) => since.elapsed().as_millis(),
            None => 0,
        }
    }

    /// What is left on the timer if `elapsed` milliseconds have gone by since
    /// it was started. A stopped timer shows what it stores, whatever
    /// `elapsed` is.
    pub fn remaining_after(&self, elapsed: u128) -> (left: usize)
        ensures
            left == if self.running() {
                left_after(self.stored(), elapsed as nat)
            } else {
                self.stored()
            },
    {
        if self.start.is_none() {
            self.remaining
        } else if elapsed >= self.remaining as u128 {
            0
        } else {
            self.remaining - (elapsed as usize)
        }
    }

    /// What is left on the timer at the present moment. Asking changes
    /// nothing. A stopped timer shows what it stores; a running one shows
    /// that less the time since its start, which depends on the clock, and
    /// never less than zero.
    pub fn remaining(&self) -> (left: usize)
        ensures
            left <= self.stored(),
            !self.running() ==> left == self.stored(),
    {
        let elapsed: u128 = self.elapsed_millis();
        self.remaining_after(elapsed)
    }
}

/// The minutes and seconds that a clock face shows for `millis`
/// milliseconds: whole seconds, split at sixty.
pub fn clock_face(millis: usize) -> (face: (usize, usize))
    ensures
        face.0 == millis / 1000 / 60,
        face.1 == (millis / 1000) % 60,
{
    let seconds: usize = millis / 1000;
    (seconds / 60, seconds % 60)
}

/// While a timer runs, what it shows never grows as time goes by, never
/// exceeds what was stored and never falls below zero: once as much time has
/// gone by as was stored it stays at zero.
pub proof fn lemma_remaining_never_grows(stored: nat, earlier: nat, later: nat)
    requires
        earlier <= later,
    ensures
        left_after(stored, later) <= left_after(stored, earlier) <= stored,
        left_after(stored, 0) == stored,
        later >= stored ==> left_after(stored, later) == 0,
{
}

} // verus!
