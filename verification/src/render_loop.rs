//! The decisions of the render loop.
//!
//! The loop draws, waits for input until the next tick is due, and then
//! either quits or carries on, with a tick if one is due. What it waits for
//! and what it does next are decided here; the drawing, the waiting and the
//! clock belong to the caller. Times are nanoseconds on the caller's clock.

use vstd::prelude::*;

verus! {

/// What the terminal reported while the loop waited.
#[derive(Debug, Clone, Copy, PartialEq, Eq)]
pub enum Input {
    /// Nothing happened before the wait ran out.
    Idle,
    /// The key with this character was pressed.
    Key(char),
    /// Something else happened.
    Other,
}

/// What the loop does next.
#[derive(Debug, Clone, Copy, PartialEq, Eq)]
pub enum Step {
    /// Leave the loop.
    Quit,
    /// Advance the chart, then draw again.
    Tick,
    /// Draw again.
    Wait,
}

/// The key that ends the loop.
pub const QUIT_KEY: char = 'q';

/// The loop's clock: how long a tick lasts and when the last one took place.
#[derive(Debug, Clone, Copy, PartialEq, Eq)]
pub struct Ticker {
    pub tick_rate: u128,
    pub last_tick: u128,
}

/// The time that has passed between `last_tick` and `now`; none if the clock
/// stands before the last tick.
pub open spec fn elapsed(last_tick: u128, now: u128) -> int {
    if now >= last_tick {
        now - last_tick
    } else {
        0
    }
}

/// How long to wait for input: what is left of the current tick.
pub open spec fn timeout_of(t: Ticker, now: u128) -> int {
    if elapsed(t.last_tick, now) <= t.tick_rate {
        t.tick_rate - elapsed(t.last_tick, now)
    } else {
        0
    }
}

/// What follows the wait: the quit key ends the loop; otherwise a tick takes
/// place if a whole tick has passed since the last one.
pub open spec fn step_of(t: Ticker, input: Input, now: u128) -> Step {
    if input == Input::Key(QUIT_KEY) {
        Step::Quit
    } else if elapsed(t.last_tick, now) >= t.tick_rate {
        Step::Tick
    } else {
        Step::Wait
    }
}

/// The clock after the step: a tick sets the time of the last tick to `now`.
pub open spec fn after_step(t: Ticker, input: Input, now: u128) -> Ticker {
    if step_of(t, input, now) == Step::Tick {
        Ticker { tick_rate: t.tick_rate, last_tick: now }
    } else {
        t
    }
}

impl Ticker {
    /// A clock whose ticks last `tick_rate` and whose last tick was at `now`.
    pub fn new(tick_rate: u128, now: u128) -> (t: Ticker)
        ensures
            t == (Ticker { tick_rate, last_tick: now }),
    {
        Ticker { tick_rate, last_tick: now }
    }

    fn since_last(&self, now: u128) -> (e: u128)
        ensures
            e == elapsed(self.last_tick, now),
    {
        if now >= self.last_tick {
            now - self.last_tick
        } else {
            0
        }
    }

    /// How long to wait for input at `now`.
    pub fn timeout(&self, now: u128) -> (wait: u128)
        ensures
            wait == timeout_of(*self, now),
    {
        let e = self.since_last(now);
        if e <= self.tick_rate {
            self.tick_rate - e
        } else {
            0
        }
    }

    /// Decides what follows a wait that ended at `now` with `input`.
    pub fn step(&mut self, input: Input, now: u128) -> (step: Step)
        ensures
            step == step_of(*old(self), input, now),
            *final(self) == after_step(*old(self), input, now),
    {
        let quit = match input {
            Input::Key(c) => c == QUIT_KEY,
            _ => false,
        };
        if quit {
            Step::Quit
        } else if self.since_last(now) >= self.tick_rate {
            self.last_tick = now;
            Step::Tick
        } else {
            Step::Wait
        }
    }
}

/// A step never waits longer than a tick, and after a wait of the full
/// timeout with no quit key the tick is due.
pub proof fn lemma_timeout_reaches_tick(t: Ticker, now: u128, later: u128, input: Input)
    requires
        now >= t.last_tick,
        later >= now + timeout_of(t, now),
        input != Input::Key(QUIT_KEY),
    ensures
        timeout_of(t, now) <= t.tick_rate,
        step_of(t, input, later) == Step::Tick,
{
}

} // verus!
