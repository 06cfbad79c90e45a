//! The logic loop's pacing: when a simulation tick is due, how far a late
//! loop may catch up in one round, and when the backlog is given up. Times
//! are nanoseconds since the session started.
use vstd::prelude::*;

use crate::damage::Rect;
use crate::refresh::NANOS_PER_SECOND;

verus! {

/// Ticks one round of the loop may run to catch up before it gives up the
/// backlog.
pub const MAX_CATCHUP_TICKS: usize = 4;

/// The simulation clock: when the next logic tick is due, and the interval
/// between ticks.
#[derive(Clone, Copy, Debug, PartialEq, Eq)]
pub struct Pacer {
    pub next_tick: u128,
    pub interval: u128,
}

impl Pacer {
    /// A clock ticking `sim_hz` times a second whose first tick is due at
    /// `start`.
    pub fn new(start: u128, sim_hz: u32) -> (p: Pacer)
        requires
            sim_hz > 0,
        ensures
            p.next_tick == start,
            p.interval == NANOS_PER_SECOND / (sim_hz as u128),
    {
        Pacer { next_tick: start, interval: NANOS_PER_SECOND / (sim_hz as u128) }
    }

    /// Whether the round's tick after `ran` ticks runs at `now`: one is due
    /// and the round has not spent its catch-up budget.
    pub fn due(&self, now: u128, ran: usize) -> (r: bool)
        ensures
            r == (now >= self.next_tick && ran < MAX_CATCHUP_TICKS),
    {
        now >= self.next_tick && ran < MAX_CATCHUP_TICKS
    }

    /// A tick ran: the next one is due one interval after it.
    pub fn advance(&mut self)
        requires
            old(self).next_tick + old(self).interval <= u128::MAX,
        ensures
            final(self).next_tick == old(self).next_tick + old(self).interval,
            final(self).interval == old(self).interval,
    {
        self.next_tick = self.next_tick + self.interval;
    }

    /// Ends a round of `ran` ticks at `now`. A round that spent its budget
    /// and is still behind gives up its backlog: the next tick is then one
    /// interval from `now`. Returns whether the backlog was given up.
    pub fn settle(&mut self, now: u128, ran: usize) -> (dropped: bool)
        requires
            now + old(self).interval <= u128::MAX,
        ensures
            dropped == (ran == MAX_CATCHUP_TICKS && now >= old(self).next_tick),
            final(self).interval == old(self).interval,
            final(self).next_tick == if dropped {
                now + old(self).interval
            } else {
                old(self).next_tick as int
            },
    {
        if ran == MAX_CATCHUP_TICKS && now >= self.next_tick {
            self.next_tick = now + self.interval;
            true
        } else {
            false
        }
    }

    /// How long the loop sleeps at `now` before the next tick is due.
    pub fn sleep_for(&self, now: u128) -> (wait: u128)
        ensures
            wait == if self.next_tick > now {
                self.next_tick - now
            } else {
                0
            },
    {
        if self.next_tick > now {
            self.next_tick - now
        } else {
            0
        }
    }
}


/// Which frames of a guest repaint in full: its first frame repaints the
/// whole render, and the first present after a reload is a forced full
/// refresh.
#[derive(Clone, Copy, Debug, PartialEq, Eq)]
pub struct FrameState {
    pub first_frame: bool,
    pub force_refresh: bool,
}

impl FrameState {
    /// A guest just loaded at start-up.
    pub fn new() -> (f: FrameState)
        ensures
            f.first_frame,
            !f.force_refresh,
    {
        FrameState { first_frame: true, force_refresh: false }
    }

    /// A new guest replaced the running one.
    pub fn reloaded(&mut self)
        ensures
            final(self).first_frame,
            final(self).force_refresh,
    {
        self.first_frame = true;
        self.force_refresh = true;
    }

    /// The damage to present after a round of `ran` ticks whose latest tick
    /// reported `damage`: the whole `render` for a guest's first frame.
    pub fn round_damage(&mut self, ran: usize, damage: Vec<Rect>, render: Rect) -> (d: Vec<Rect>)
        ensures
            ran > 0 && old(self).first_frame ==> d@ == seq![render] && !final(self).first_frame,
            !(ran > 0 && old(self).first_frame) ==> d@ == damage@ && final(self).first_frame
                == old(self).first_frame,
            final(self).force_refresh == old(self).force_refresh,
    {
        if ran > 0 && self.first_frame {
            self.first_frame = false;
            vec![render]
        } else {
            damage
        }
    }

    /// A refresh reached the panel: nothing more is forced.
    pub fn presented(&mut self)
        ensures
            !final(self).force_refresh,
            final(self).first_frame == old(self).first_frame,
    {
        self.force_refresh = false;
    }
}

} // verus!
