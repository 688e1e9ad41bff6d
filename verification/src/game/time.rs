use vstd::prelude::*;

use vstd::arithmetic::div_mod::{
    lemma_breakdown, lemma_div_is_ordered, lemma_div_pos_is_pos, lemma_fundamental_div_mod,
    lemma_fundamental_div_mod_converse_div, lemma_fundamental_div_mod_converse_mod,
    lemma_mod_bound,
};

use crate::game::Command;

verus! {

/// Duration of one simulation tick, in milliseconds of real time.
pub const TICK_DURATION_MILLIS: u32 = 10;

/// The largest total of simulated milliseconds that the clock can record:
/// the day counter is a `u32`, so a day count above `u32::MAX` cannot be
/// represented.
pub open spec fn max_total_millis() -> int {
    4294967295int * 86400000 + 86399999
}

/// Represents the current in-game time.
/// This should advance relative to real-time in accordance with game speed setting.
#[derive(Clone, Copy)]
pub struct TimeState {
    /// Game speed as a multiple of real time.
    /// Min: 1, Max: 3600 (1 in-game hr/sec)
    pub speed: u32,
    pub day: u32,
    pub second: u32,
    pub millis: u32,
}

impl TimeState {
    /// The clock is well formed: the second of the day stays below one full
    /// day and the millisecond remainder below one full second.
    pub open spec fn wf(self) -> bool {
        self.second < 86400 && self.millis < 1000
    }

    /// The total of simulated milliseconds that the clock has accumulated.
    pub open spec fn total_millis(self) -> int {
        (self.day * 86400 + self.second) * 1000 + self.millis
    }

    /// The clock after `m` further simulated milliseconds, written directly
    /// with division and remainder: this is the unique well-formed clock
    /// whose total is `self.total_millis() + m`.
    pub open spec fn advanced_by(self, m: int) -> TimeState {
        let t = self.total_millis() + m;
        TimeState {
            speed: self.speed,
            day: (t / 86400000) as u32,
            second: ((t / 1000) % 86400) as u32,
            millis: (t % 1000) as u32,
        }
    }

    pub fn new() -> (t: Self)
        ensures
            t == (TimeState { speed: 1, day: 0, second: 0, millis: 0 }),
            t.wf(),
            t.total_millis() == 0,
    {
        Self { speed: 1, day: 0, second: 0, millis: 0 }
    }

    /// Adds `millis` simulated milliseconds, rolling the remainder into whole
    /// seconds and whole seconds into days. Total over all calls is preserved:
    /// the final (day, second, millis) always account for exactly the sum of
    /// every elapsed amount.
    pub fn advance(&mut self, millis: u32)
        requires
            old(self).wf(),
            old(self).total_millis() + millis <= max_total_millis(),
        ensures
            *final(self) == old(self).advanced_by(millis as int),
            final(self).wf(),
            final(self).total_millis() == old(self).total_millis() + millis,
            final(self).speed == old(self).speed,
    {
        let mut rem: u64 = self.millis as u64 + millis as u64;

        while rem >= 1000
            invariant
                old(self).wf(),
                self.speed == old(self).speed,
                self.day == old(self).day,
                self.second * 1000 + rem == old(self).second * 1000 + old(self).millis + millis,
            decreases rem,
        {
            self.second = self.second + 1;
            rem = rem - 1000;
        }
        self.millis = rem as u32;

        while self.second >= 86400
            invariant
                old(self).wf(),
                old(self).total_millis() + millis <= max_total_millis(),
                self.speed == old(self).speed,
                self.millis < 1000,
                self.total_millis() == old(self).total_millis() + millis,
            decreases self.second,
        {
            self.day = self.day + 1;
            self.second = self.second - 86400;
        }

        proof {
            lemma_clock_fields(
                self.day as int,
                self.second as int,
                self.millis as int,
                old(self).total_millis() + millis,
            );
        }
    }

    /// One simulation tick: the clock advances by the tick duration scaled by
    /// the current speed. The command slot is ignored here; commands act on
    /// the surrounding simulation state, not on the clock itself.
    pub fn step(self, _cmd: Option<Command>) -> (r: Self)
        requires
            self.wf(),
            TICK_DURATION_MILLIS * self.speed <= u32::MAX,
            self.total_millis() + TICK_DURATION_MILLIS * self.speed <= max_total_millis(),
        ensures
            r == self.advanced_by(TICK_DURATION_MILLIS * self.speed),
            r.wf(),
            r.total_millis() == self.total_millis() + TICK_DURATION_MILLIS * self.speed,
            r.speed == self.speed,
    {
        let mut t = self;
        t.advance(TICK_DURATION_MILLIS * t.speed);
        t
    }
}

/// A well-formed clock reading is determined by its total: day, second and
/// millisecond remainder are the quotients and remainders of the total.
pub proof fn lemma_clock_fields(d: int, s: int, r: int, t: int)
    requires
        0 <= d,
        0 <= s < 86400,
        0 <= r < 1000,
        t == (d * 86400 + s) * 1000 + r,
    ensures
        d == t / 86400000,
        s == (t / 1000) % 86400,
        r == t % 1000,
{
    lemma_fundamental_div_mod_converse_div(t, 86400000, d, s * 1000 + r);
    lemma_fundamental_div_mod_converse_div(t, 1000, d * 86400 + s, r);
    lemma_fundamental_div_mod_converse_mod(t, 1000, d * 86400 + s, r);
    lemma_fundamental_div_mod_converse_mod(t / 1000, 86400, d, s);
}

/// Advancing a well-formed clock within capacity yields a well-formed clock
/// whose total grew by exactly the elapsed amount, at unchanged speed.
pub proof fn lemma_advanced_by_total(t: TimeState, m: int)
    requires
        t.wf(),
        0 <= m,
        t.total_millis() + m <= max_total_millis(),
    ensures
        t.advanced_by(m).wf(),
        t.advanced_by(m).total_millis() == t.total_millis() + m,
        t.advanced_by(m).speed == t.speed,
{
    let tot = t.total_millis() + m;
    lemma_fundamental_div_mod(tot, 86400000);
    lemma_breakdown(tot, 1000, 86400);
    lemma_mod_bound(tot, 1000);
    lemma_div_pos_is_pos(tot, 1000);
    lemma_mod_bound(tot / 1000, 86400);
    lemma_div_pos_is_pos(tot, 86400000);
    lemma_div_is_ordered(tot, max_total_millis(), 86400000);
    lemma_fundamental_div_mod_converse_div(max_total_millis(), 86400000, 4294967295, 86399999);
}

} // verus!
