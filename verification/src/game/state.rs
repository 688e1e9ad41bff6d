use vstd::prelude::*;

use vstd::arithmetic::div_mod::{
    lemma_breakdown, lemma_div_is_ordered, lemma_div_pos_is_pos, lemma_fundamental_div_mod,
    lemma_fundamental_div_mod_converse_div, lemma_mod_bound,
};

use crate::game::time::{lemma_clock_fields, max_total_millis};
use crate::game::Command;

verus! {

/// Duration of one simulation tick, in milliseconds of real time.
pub const TICK_DURATION_MILLIS: u32 = 10;

/// The authoritative simulation state: a score counter, the speed setting
/// and the in-game clock, stamped with a monotonic tick counter.
#[derive(Clone, Copy)]
pub struct GameState {
    pub points: u32,
    /// Game speed as a multiple of real time.
    /// Min: 1, Max: 3600 (1 in-game hr/sec)
    pub speed: u32,
    pub tick: u128,
    pub time: TimeState,
}

impl GameState {
    /// The state is well formed when its clock is.
    pub open spec fn wf(self) -> bool {
        self.time.wf()
    }

    /// One tick of the transition, as a value: the tick counter grows by one,
    /// the clock advances by the tick duration scaled by the current speed,
    /// and then the command, if present, takes effect.
    pub open spec fn stepped(self, cmd: Option<Command>) -> GameState {
        let advanced = GameState {
            points: self.points,
            speed: self.speed,
            tick: (self.tick + 1) as u128,
            time: self.time.advanced_by(TICK_DURATION_MILLIS * self.speed),
        };
        match cmd {
            Option::Some(Command::AddPoint) => GameState {
                points: (self.points + 1) as u32,
                ..advanced
            },
            Option::Some(Command::SetSpeed { speed }) => GameState { speed, ..advanced },
            Option::None => advanced,
        }
    }

    /// The inputs on which one tick stays within machine bounds: the tick
    /// counter, the scaled tick duration, the clock's day capacity and, when
    /// a point is scored, the score counter must not overflow.
    pub open spec fn step_ok(self, cmd: Option<Command>) -> bool {
        &&& self.wf()
        &&& self.tick < u128::MAX
        &&& TICK_DURATION_MILLIS * self.speed <= u32::MAX
        &&& self.time.total_millis() + TICK_DURATION_MILLIS * self.speed <= max_total_millis()
        &&& (cmd == Option::<Command>::Some(Command::AddPoint) ==> self.points < u32::MAX)
    }

    /// The freshly created simulation state, as a value.
    pub open spec fn new_spec() -> GameState {
        GameState { points: 0, speed: 1, tick: 0, time: TimeState::new_spec() }
    }

    pub fn new() -> (s: Self)
        ensures
            s == Self::new_spec(),
            s.wf(),
    {
        GameState { points: 0, speed: 1, tick: 0, time: TimeState::new() }
    }

    /// The pure transition: consumes at most one command per tick. The tick
    /// counter increases by exactly one; the clock advances before the
    /// command takes effect, so a speed change acts from the next tick on.
    /// Out-of-range speeds are accepted as given.
    pub fn step(self, cmd: Option<Command>) -> (r: Self)
        requires
            self.step_ok(cmd),
        ensures
            r == self.stepped(cmd),
            r.wf(),
    {
        let mut s = self;
        s.tick = s.tick + 1;
        s.time.advance(TICK_DURATION_MILLIS * s.speed);
        if let Some(c) = cmd {
            match c {
                Command::AddPoint => {
                    s.points = s.points + 1;
                }
                Command::SetSpeed { speed } => {
                    s.speed = speed;
                }
            }
        }
        s
    }
}

/// Represents the current in-game time.
/// This should advance relative to real-time in accordance with game speed
/// setting. This representation counts down the milliseconds left until the
/// next whole second.
#[derive(Clone, Copy)]
pub struct TimeState {
    pub day: u32,
    pub second: u32,
    /// Milliseconds left until `second` rolls over; always in 1..=1000.
    pub next_second: u32,
}

impl TimeState {
    /// The clock is well formed: the second of the day stays below one full
    /// day and the countdown within one full second.
    pub open spec fn wf(self) -> bool {
        self.second < 86400 && 1 <= self.next_second <= 1000
    }

    /// The total of simulated milliseconds that the clock has accumulated.
    pub open spec fn total_millis(self) -> int {
        (self.day * 86400 + self.second) * 1000 + 1000 - self.next_second
    }

    /// The clock after `m` further simulated milliseconds: the unique
    /// well-formed clock whose total is `self.total_millis() + m`.
    pub open spec fn advanced_by(self, m: int) -> TimeState {
        let t = self.total_millis() + m;
        TimeState {
            day: (t / 86400000) as u32,
            second: ((t / 1000) % 86400) as u32,
            next_second: (1000 - t % 1000) as u32,
        }
    }

    /// The freshly started clock, as a value.
    pub open spec fn new_spec() -> TimeState {
        TimeState { day: 0, second: 0, next_second: 1000 }
    }

    pub fn new() -> (t: Self)
        ensures
            t == Self::new_spec(),
            t.wf(),
            t.total_millis() == 0,
    {
        Self { day: 0, second: 0, next_second: 1000 }
    }

    /// Adds `millis` simulated milliseconds, consuming the countdown into
    /// whole seconds and rolling whole seconds into days. The total over all
    /// calls is preserved: the final (day, second, countdown) account for
    /// exactly the sum of every elapsed amount.
    pub fn advance(&mut self, millis: u32)
        requires
            old(self).wf(),
            old(self).total_millis() + millis <= max_total_millis(),
        ensures
            *final(self) == old(self).advanced_by(millis as int),
            final(self).wf(),
            final(self).total_millis() == old(self).total_millis() + millis,
    {
        let mut m: u32 = millis;

        while self.next_second <= m
            invariant
                old(self).wf(),
                self.day == old(self).day,
                1 <= self.next_second <= 1000,
                self.second * 1000 + 1000 - self.next_second + m == old(self).second * 1000 + 1000
                    - old(self).next_second + millis,
            decreases m,
        {
            self.second = self.second + 1;
            m = m - self.next_second;
            self.next_second = 1000;
        }

        self.next_second = self.next_second - m;

        while self.second >= 86400
            invariant
                old(self).wf(),
                old(self).total_millis() + millis <= max_total_millis(),
                1 <= self.next_second <= 1000,
                self.total_millis() == old(self).total_millis() + millis,
            decreases self.second,
        {
            self.day = self.day + 1;
            self.second = self.second - 86400;
        }

        proof {
            lemma_clock_fields(
                self.day as int,
                self.second as int,
                1000 - self.next_second as int,
                old(self).total_millis() + millis,
            );
        }
    }
}

/// Advancing a well-formed countdown clock within capacity yields a
/// well-formed clock whose total grew by exactly the elapsed amount.
pub proof fn lemma_advanced_by_total(t: TimeState, m: int)
    requires
        t.wf(),
        0 <= m,
        t.total_millis() + m <= max_total_millis(),
    ensures
        t.advanced_by(m).wf(),
        t.advanced_by(m).total_millis() == t.total_millis() + m,
{
    let tot = t.total_millis() + m;
    lemma_fundamental_div_mod(tot, 86400000);
    lemma_breakdown(tot, 1000, 86400);
    lemma_mod_bound(tot, 1000);
    lemma_div_pos_is_pos(tot, 1000);
    lemma_mod_bound(tot / 1000, 86400);
    lemma_div_pos_is_pos(tot, 86400000);
    lemma_div_is_ordered(tot, max_total_millis(), 86400000);
    lemma_fundamental_div_mod_converse_div(max_total_millis(), 86400000, 4294967295, 86399999);
}

} // verus!
