use vstd::prelude::*;

pub mod state;
pub mod time;

use vstd::arithmetic::div_mod::{
    lemma_div_is_ordered, lemma_fundamental_div_mod, lemma_fundamental_div_mod_converse_div,
    lemma_mod_bound,
};

use crate::game::state::{lemma_advanced_by_total, GameState, TICK_DURATION_MILLIS};

verus! {

/// An externally issued intent, delivered to the simulation through the
/// inbox and consumed by at most one tick.
#[derive(Clone, Copy)]
pub enum Command {
    AddPoint,
    SetSpeed { speed: u32 },
}

/// The view of the world exposed by the game API. The RenderState should only
/// include information which is known by the player. Hidden state should be
/// kept within GameState.
#[derive(Clone, Copy)]
pub struct RenderState {
    pub tick: u128,
    pub points: u32,
    pub speed: u32,
    pub day: u32,
    pub second: u32,
}

/// The snapshot derived from a simulation state.
pub open spec fn render_of(s: GameState) -> RenderState {
    RenderState {
        tick: s.tick,
        points: s.points,
        speed: s.speed,
        day: s.time.day,
        second: s.time.second,
    }
}

impl<'a> From<&'a GameState> for RenderState {
    fn from(state: &'a GameState) -> (r: Self) {
        RenderState {
            tick: state.tick,
            points: state.points,
            speed: state.speed,
            day: state.time.day,
            second: state.time.second,
        }
    }
}

impl<'a> vstd::std_specs::convert::FromSpecImpl<&'a GameState> for RenderState {
    open spec fn obeys_from_spec() -> bool {
        true
    }

    open spec fn from_spec(state: &'a GameState) -> RenderState {
        render_of(*state)
    }
}

/// The command the next tick consumes: the front of the inbox, if any.
pub open spec fn tick_command(q: Seq<Command>) -> Option<Command> {
    if q.len() > 0 {
        Option::Some(q[0])
    } else {
        Option::None
    }
}

/// The inbox once the next tick has polled it.
pub open spec fn tick_rest(q: Seq<Command>) -> Seq<Command> {
    if q.len() > 0 {
        q.drop_first()
    } else {
        q
    }
}

/// The simulation state and inbox after a batch of `k` ticks, each tick
/// consuming at most the front command of the inbox.
pub open spec fn batch(s: GameState, q: Seq<Command>, k: nat) -> (GameState, Seq<Command>)
    decreases k,
{
    if k == 0 {
        (s, q)
    } else {
        batch(s.stepped(tick_command(q)), tick_rest(q), (k - 1) as nat)
    }
}

/// Every tick of a batch of `k` ticks stays within machine bounds.
pub open spec fn batch_ok(s: GameState, q: Seq<Command>, k: nat) -> bool
    decreases k,
{
    k > 0 ==> {
        &&& s.step_ok(tick_command(q))
        &&& batch_ok(s.stepped(tick_command(q)), tick_rest(q), (k - 1) as nat)
    }
}

/// Unrolling one more tick at the end of a batch.
pub proof fn lemma_batch_snoc(s: GameState, q: Seq<Command>, k: nat)
    ensures
        batch(s, q, k + 1) == (
        (
            batch(s, q, k).0.stepped(tick_command(batch(s, q, k).1)),
            tick_rest(batch(s, q, k).1),
        )),
    decreases k,
{
    if k == 0 {
        assert(batch(s, q, 1) == batch(s.stepped(tick_command(q)), tick_rest(q), 0));
    } else {
        lemma_batch_snoc(s.stepped(tick_command(q)), tick_rest(q), (k - 1) as nat);
        assert(batch(s, q, k + 1) == batch(s.stepped(tick_command(q)), tick_rest(q), k));
    }
}

/// Commands are consumed one per tick, from the front of the inbox, in FIFO
/// order, and none on a tick that finds the inbox empty: after `k` ticks the
/// inbox holds exactly the commands beyond the first `k`.
pub proof fn lemma_batch_fifo(s: GameState, q: Seq<Command>, k: nat)
    ensures
        batch(s, q, k).1 == if k <= q.len() {
            q.skip(k as int)
        } else {
            Seq::<Command>::empty()
        },
    decreases k,
{
    if k == 0 {
        assert(q.skip(0) =~= q);
    } else {
        lemma_batch_fifo(s.stepped(tick_command(q)), tick_rest(q), (k - 1) as nat);
        if q.len() > 0 {
            if k <= q.len() {
                assert(q.drop_first().skip(k - 1) =~= q.skip(k as int));
            }
        } else {
            assert(batch(s, q, k).1 =~= Seq::<Command>::empty());
        }
    }
}

/// The tick counter counts the ticks: across a batch of `k` ticks within
/// machine bounds it grows by exactly `k`, one per tick duration of
/// accumulated lag.
pub proof fn lemma_batch_tick_count(s: GameState, q: Seq<Command>, k: nat)
    requires
        batch_ok(s, q, k),
    ensures
        batch(s, q, k).0.tick == s.tick + k,
    decreases k,
{
    if k > 0 {
        lemma_batch_tick_count(s.stepped(tick_command(q)), tick_rest(q), (k - 1) as nat);
    }
}

/// How many of the queued commands score a point.
pub open spec fn count_add_points(q: Seq<Command>) -> int
    decreases q.len(),
{
    if q.len() == 0 {
        0
    } else {
        (if q[0] is AddPoint {
            1int
        } else {
            0int
        }) + count_add_points(q.drop_first())
    }
}

/// Each tick applies at most one command's effect: across a batch the score
/// grows by exactly the number of point-scoring commands consumed from the
/// inbox.
pub proof fn lemma_batch_points(s: GameState, q: Seq<Command>, k: nat)
    requires
        batch_ok(s, q, k),
    ensures
        batch(s, q, k).0.points == s.points + count_add_points(q) - count_add_points(
            batch(s, q, k).1,
        ),
    decreases k,
{
    if k > 0 {
        lemma_batch_points(s.stepped(tick_command(q)), tick_rest(q), (k - 1) as nat);
    }
}

proof fn lemma_count_all_add(q: Seq<Command>)
    requires
        forall|i: int| 0 <= i < q.len() ==> q[i] is AddPoint,
    ensures
        count_add_points(q) == q.len(),
    decreases q.len(),
{
    if q.len() > 0 {
        lemma_count_all_add(q.drop_first());
    }
}

/// Enqueuing `k` point commands and letting a batch of at least `k` ticks
/// drain them leaves the score exactly `k` higher: one command per tick,
/// each applied once.
pub proof fn lemma_add_points_scored(s: GameState, q: Seq<Command>, k: nat)
    requires
        batch_ok(s, q, k),
        q.len() <= k,
        forall|i: int| 0 <= i < q.len() ==> q[i] is AddPoint,
    ensures
        batch(s, q, k).0.points == s.points + q.len(),
{
    lemma_batch_points(s, q, k);
    lemma_batch_fifo(s, q, k);
    lemma_count_all_add(q);
}

/// A speed command takes effect from the tick that consumes it: that tick
/// stores the new speed, and the following tick advances simulated time by
/// the tick duration scaled by the new value, whatever command it consumes.
pub proof fn lemma_set_speed_takes_effect(s: GameState, v: u32, cmd: Option<Command>)
    requires
        s.step_ok(Option::Some(Command::SetSpeed { speed: v })),
        s.stepped(Option::Some(Command::SetSpeed { speed: v })).step_ok(cmd),
    ensures
        s.stepped(Option::Some(Command::SetSpeed { speed: v })).speed == v,
        s.stepped(Option::Some(Command::SetSpeed { speed: v })).stepped(cmd).time.total_millis()
            == s.stepped(Option::Some(Command::SetSpeed { speed: v })).time.total_millis()
            + TICK_DURATION_MILLIS * v,
{
    let s2 = s.stepped(Option::Some(Command::SetSpeed { speed: v }));
    lemma_advanced_by_total(s2.time, (TICK_DURATION_MILLIS * v) as int);
}

/// The lifecycle of the loop controller: it runs once started, and stops for
/// good when the worker observes that the inbox was torn down.
#[derive(Clone, Copy, PartialEq, Eq, Structural)]
pub enum Phase {
    NotStarted,
    Running,
    Stopped,
}

/// The loop controller: a command inbox filled by producers, the simulation
/// state owned by the worker together with its wall-clock lag accumulator,
/// and the published snapshot slot that readers poll.
///
/// The controller is modelled as one value whose operations are the events
/// of the running system: producers enqueue with `apply` and read with
/// `get_state`, dropping every producer handle is `close`, and each pass of
/// the worker's loop is `run_iteration` with the wall-clock time it measured.
pub struct Game {
    pub phase: Phase,
    /// Whether a producer handle to the inbox is still alive.
    pub connected: bool,
    pub cmd_queue: Vec<Command>,
    pub state: GameState,
    /// Wall-clock milliseconds not yet converted into ticks.
    pub lag: u64,
    pub render_state: Option<RenderState>,
}

impl Game {
    pub open spec fn wf(self) -> bool {
        &&& self.state.wf()
        &&& (self.phase == Phase::Running ==> self.lag < TICK_DURATION_MILLIS)
        &&& (self.phase == Phase::Stopped ==> !self.connected)
    }

    /// Whole ticks owed once `elapsed` further milliseconds of wall time
    /// have been accumulated.
    pub open spec fn pending_ticks(self, elapsed: u64) -> nat {
        ((self.lag + elapsed) / (TICK_DURATION_MILLIS as int)) as nat
    }

    /// How many ticks the next iteration executes: every tick owed, unless
    /// the inbox is disconnected and drains first.
    pub open spec fn batch_len(self, elapsed: u64) -> nat {
        if self.connected || self.cmd_queue@.len() >= self.pending_ticks(elapsed) {
            self.pending_ticks(elapsed)
        } else {
            self.cmd_queue@.len()
        }
    }

    /// Whether the next iteration observes the disconnect and stops: the
    /// inbox is torn down and some owed tick finds it empty.
    pub open spec fn stops(self, elapsed: u64) -> bool {
        !self.connected && self.cmd_queue@.len() < self.pending_ticks(elapsed)
    }

    pub fn new() -> (g: Self)
        ensures
            g.phase == Phase::NotStarted,
            g.connected,
            g.cmd_queue@ == Seq::<Command>::empty(),
            g.state == GameState::new_spec(),
            g.lag == 0,
            g.render_state is None,
            g.wf(),
    {
        Game {
            phase: Phase::NotStarted,
            connected: true,
            cmd_queue: Vec::new(),
            state: GameState::new(),
            lag: 0,
            render_state: None,
        }
    }

    /// Brings the worker to life: the controller moves from NotStarted to
    /// Running with a fresh simulation state and no accumulated lag. No
    /// snapshot is published yet. Must be called at most once.
    pub fn start(&mut self)
        requires
            old(self).wf(),
            old(self).phase == Phase::NotStarted,
        ensures
            final(self).wf(),
            final(self).phase == Phase::Running,
            final(self).connected == old(self).connected,
            final(self).cmd_queue == old(self).cmd_queue,
            final(self).state == GameState::new_spec(),
            final(self).lag == 0,
            final(self).render_state == old(self).render_state,
    {
        self.phase = Phase::Running;
        self.state = GameState::new();
        self.lag = 0;
    }

    /// Enqueues a command for later consumption, at most one per tick, in
    /// FIFO order. Non-blocking. Policy: calling this before `start`, or
    /// once the inbox is torn down, is a caller lifecycle error and is
    /// excluded by contract — the running harness surfaces it loudly instead
    /// of silently dropping the command.
    pub fn apply(&mut self, cmd: Command)
        requires
            old(self).wf(),
            old(self).phase == Phase::Running,
            old(self).connected,
        ensures
            final(self).wf(),
            final(self).cmd_queue@ == old(self).cmd_queue@.push(cmd),
            final(self).phase == old(self).phase,
            final(self).connected == old(self).connected,
            final(self).state == old(self).state,
            final(self).lag == old(self).lag,
            final(self).render_state == old(self).render_state,
    {
        self.cmd_queue.push(cmd);
    }

    /// Returns the most recently published snapshot, or `None` when the
    /// worker has not yet completed a tick batch. Non-blocking: never waits
    /// for the worker.
    pub fn get_state(&self) -> (r: Option<RenderState>)
        ensures
            r == self.render_state,
    {
        self.render_state
    }

    /// Every producer handle is dropped: no further command can arrive, and
    /// the worker will observe the disconnect at its next empty poll of the
    /// inbox. Commands already queued are still consumed first.
    pub fn close(&mut self)
        requires
            old(self).wf(),
            old(self).phase == Phase::Running,
            old(self).connected,
        ensures
            final(self).wf(),
            !final(self).connected,
            final(self).phase == old(self).phase,
            final(self).cmd_queue == old(self).cmd_queue,
            final(self).state == old(self).state,
            final(self).lag == old(self).lag,
            final(self).render_state == old(self).render_state,
    {
        self.connected = false;
    }

    /// One pass of the worker's loop, given the wall-clock milliseconds
    /// elapsed since the previous pass: the lag accumulator grows by the
    /// elapsed time; while at least one tick duration of lag remains, the
    /// worker polls the inbox without blocking, performs one step consuming
    /// at most the front command, and pays one tick duration off the lag;
    /// when the batch is done a fresh snapshot is published. A tick that
    /// finds the inbox empty and disconnected instead stops the worker for
    /// good: the partial batch is abandoned and nothing is republished.
    pub fn run_iteration(&mut self, elapsed_millis: u64)
        requires
            old(self).wf(),
            old(self).phase == Phase::Running,
            old(self).lag + elapsed_millis <= u64::MAX,
            batch_ok(old(self).state, old(self).cmd_queue@, old(self).batch_len(elapsed_millis)),
        ensures
            final(self).wf(),
            final(self).connected == old(self).connected,
            final(self).state == batch(
                old(self).state,
                old(self).cmd_queue@,
                old(self).batch_len(elapsed_millis),
            ).0,
            final(self).cmd_queue@ == batch(
                old(self).state,
                old(self).cmd_queue@,
                old(self).batch_len(elapsed_millis),
            ).1,
            final(self).lag == old(self).lag + elapsed_millis - TICK_DURATION_MILLIS * old(
                self,
            ).batch_len(elapsed_millis),
            !old(self).stops(elapsed_millis) ==> final(self).phase == Phase::Running
                && final(self).render_state == Option::Some(render_of(final(self).state)),
            old(self).stops(elapsed_millis) ==> final(self).phase == Phase::Stopped
                && final(self).render_state == old(self).render_state,
    {
        let ghost g0 = *old(self);
        let ghost q0 = old(self).cmd_queue@;
        let ghost n = g0.pending_ticks(elapsed_millis);
        let ghost m = g0.batch_len(elapsed_millis);

        self.lag = self.lag + elapsed_millis;
        let ghost mut e: nat = 0;

        while self.lag >= TICK_DURATION_MILLIS as u64
            invariant
                g0 == *old(self),
                g0.wf(),
                g0.phase == Phase::Running,
                g0.lag + elapsed_millis <= u64::MAX,
                n == g0.pending_ticks(elapsed_millis),
                m == g0.batch_len(elapsed_millis),
                batch_ok(g0.state, q0, m),
                q0 == g0.cmd_queue@,
                e <= m <= n,
                self.phase == Phase::Running,
                self.connected == g0.connected,
                self.render_state == g0.render_state,
                self.state.wf(),
                self.lag == g0.lag + elapsed_millis - TICK_DURATION_MILLIS * e,
                self.state == batch(g0.state, q0, e).0,
                self.cmd_queue@ == batch(g0.state, q0, e).1,
                batch_ok(self.state, self.cmd_queue@, (m - e) as nat),
            decreases self.lag,
        {
            proof {
                // One more whole tick duration of lag remains, so e < n.
                lemma_fundamental_div_mod_converse_div(
                    TICK_DURATION_MILLIS * (e + 1),
                    TICK_DURATION_MILLIS as int,
                    e as int + 1,
                    0,
                );
                lemma_div_is_ordered(
                    TICK_DURATION_MILLIS * (e + 1),
                    g0.lag + elapsed_millis,
                    TICK_DURATION_MILLIS as int,
                );
                lemma_batch_fifo(g0.state, q0, e);
            }
            let ghost q_e = self.cmd_queue@;
            let cmd: Option<Command>;
            if self.cmd_queue.len() > 0 {
                proof {
                    assert(e < m);
                }
                cmd = Some(self.cmd_queue.remove(0));
                proof {
                    assert(self.cmd_queue@ =~= tick_rest(q_e));
                }
            } else if self.connected {
                proof {
                    assert(e < m);
                }
                cmd = None;
            } else {
                self.phase = Phase::Stopped;
                proof {
                    assert(e == m);
                    assert(g0.stops(elapsed_millis));
                }
                return;
            }
            proof {
                assert(cmd == tick_command(q_e));
            }
            self.state = self.state.step(cmd);
            self.lag = self.lag - TICK_DURATION_MILLIS as u64;
            proof {
                e = e + 1;
                lemma_batch_snoc(g0.state, q0, (e - 1) as nat);
            }
        }

        proof {
            // Less than one tick duration of lag remains, so every owed tick ran.
            lemma_fundamental_div_mod(g0.lag + elapsed_millis, TICK_DURATION_MILLIS as int);
            lemma_mod_bound(g0.lag + elapsed_millis, TICK_DURATION_MILLIS as int);
            assert(e == m);
        }
        self.render_state = Some(RenderState::from(&self.state));
    }
}

} // verus!
