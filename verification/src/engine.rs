use vstd::prelude::*;

use vstd::arithmetic::div_mod::{
    lemma_div_is_ordered, lemma_fundamental_div_mod, lemma_fundamental_div_mod_converse_div,
    lemma_mod_bound,
};

verus! {

/// Duration of one simulation tick, in milliseconds of real time.
pub const TICK_DURATION_MILLIS: u64 = 10;

/// An externally issued intent, delivered through the inbox and consumed by
/// at most one tick.
#[derive(Clone, Copy)]
pub enum Command {
    AddPoint,
}

/// The read-only snapshot published after every tick batch.
#[derive(Clone, Copy)]
pub struct RenderState {
    pub tick: u128,
    pub points: u32,
}

/// The simulation state: a score counter stamped with a monotonic tick
/// counter.
#[derive(Clone, Copy)]
pub struct GameState {
    pub tick: u128,
    pub points: u32,
}

impl GameState {
    /// One tick of the transition, as a value: the tick counter grows by one
    /// and the command, if present, takes effect.
    pub open spec fn stepped(self, cmd: Option<Command>) -> GameState {
        let advanced = GameState { tick: (self.tick + 1) as u128, points: self.points };
        match cmd {
            Option::Some(Command::AddPoint) => GameState {
                points: (self.points + 1) as u32,
                ..advanced
            },
            Option::None => advanced,
        }
    }

    /// The inputs on which one tick stays within machine bounds.
    pub open spec fn step_ok(self, cmd: Option<Command>) -> bool {
        &&& self.tick < u128::MAX
        &&& (cmd == Option::<Command>::Some(Command::AddPoint) ==> self.points < u32::MAX)
    }

    /// The freshly created simulation state, as a value.
    pub open spec fn new_spec() -> GameState {
        GameState { tick: 0, points: 0 }
    }

    pub fn new() -> (s: Self)
        ensures
            s == Self::new_spec(),
    {
        GameState { tick: 0, points: 0 }
    }

    /// The pure transition: consumes at most one command per tick; the tick
    /// counter increases by exactly one.
    pub fn step(self, cmd: Option<Command>) -> (r: Self)
        requires
            self.step_ok(cmd),
        ensures
            r == self.stepped(cmd),
    {
        let mut s = self;
        s.tick = s.tick + 1;
        if let Some(c) = cmd {
            match c {
                Command::AddPoint => {
                    s.points = s.points + 1;
                }
            }
        }
        s
    }
}

/// The snapshot derived from a simulation state.
pub open spec fn render_of(s: GameState) -> RenderState {
    RenderState { tick: s.tick, points: s.points }
}

impl From<GameState> for RenderState {
    fn from(state: GameState) -> (r: Self) {
        RenderState { tick: state.tick, points: state.points }
    }
}

impl vstd::std_specs::convert::FromSpecImpl<GameState> for RenderState {
    open spec fn obeys_from_spec() -> bool {
        true
    }

    open spec fn from_spec(state: GameState) -> RenderState {
        render_of(state)
    }
}

/// The command the next tick consumes: the front of the inbox, if any.
pub open spec fn tick_command(q: Seq<Command>) -> Option<Command> {
    if q.len() > 0 {
        Option::Some(q[0])
    } else {
        Option::None
    }
}

/// The inbox once the next tick has polled it.
pub open spec fn tick_rest(q: Seq<Command>) -> Seq<Command> {
    if q.len() > 0 {
        q.drop_first()
    } else {
        q
    }
}

/// The simulation state and inbox after a batch of `k` ticks, each tick
/// consuming at most the front command of the inbox.
pub open spec fn batch(s: GameState, q: Seq<Command>, k: nat) -> (GameState, Seq<Command>)
    decreases k,
{
    if k == 0 {
        (s, q)
    } else {
        batch(s.stepped(tick_command(q)), tick_rest(q), (k - 1) as nat)
    }
}

/// Every tick of a batch of `k` ticks stays within machine bounds.
pub open spec fn batch_ok(s: GameState, q: Seq<Command>, k: nat) -> bool
    decreases k,
{
    k > 0 ==> {
        &&& s.step_ok(tick_command(q))
        &&& batch_ok(s.stepped(tick_command(q)), tick_rest(q), (k - 1) as nat)
    }
}

/// Unrolling one more tick at the end of a batch.
pub proof fn lemma_batch_snoc(s: GameState, q: Seq<Command>, k: nat)
    ensures
        batch(s, q, k + 1) == (
        (
            batch(s, q, k).0.stepped(tick_command(batch(s, q, k).1)),
            tick_rest(batch(s, q, k).1),
        )),
    decreases k,
{
    if k == 0 {
        assert(batch(s, q, 1) == batch(s.stepped(tick_command(q)), tick_rest(q), 0));
    } else {
        lemma_batch_snoc(s.stepped(tick_command(q)), tick_rest(q), (k - 1) as nat);
        assert(batch(s, q, k + 1) == batch(s.stepped(tick_command(q)), tick_rest(q), k));
    }
}

/// The loop controller of the early engine: a command inbox, the simulation
/// state owned by the worker together with its wall-clock lag accumulator,
/// and the published snapshot slot that readers poll.
///
/// The controller is modelled as one value whose operations are the events
/// of the running system: callers enqueue with `apply` and read with
/// `get_state`, and each pass of the worker's loop is `run_iteration` with
/// the wall-clock time it measured.
pub struct Engine {
    /// Whether `start` has brought the worker and its inbox to life.
    pub started: bool,
    pub cmd_queue: Vec<Command>,
    pub state: GameState,
    /// Wall-clock milliseconds not yet converted into ticks.
    pub lag: u64,
    pub render_state: Option<RenderState>,
}

impl Engine {
    /// Whole ticks owed once `elapsed` further milliseconds of wall time
    /// have been accumulated.
    pub open spec fn pending_ticks(self, elapsed: u64) -> nat {
        ((self.lag + elapsed) / (TICK_DURATION_MILLIS as int)) as nat
    }

    pub fn new() -> (e: Self)
        ensures
            !e.started,
            e.cmd_queue@ == Seq::<Command>::empty(),
            e.state == GameState::new_spec(),
            e.lag == 0,
            e.render_state is None,
    {
        Engine {
            started: false,
            cmd_queue: Vec::new(),
            state: GameState::new(),
            lag: 0,
            render_state: None,
        }
    }

    /// Brings the worker to life with a fresh simulation state, an empty
    /// inbox and no accumulated lag. No snapshot is published yet. Must be
    /// called at most once.
    pub fn start(&mut self)
        requires
            !old(self).started,
        ensures
            final(self).started,
            final(self).cmd_queue@ == Seq::<Command>::empty(),
            final(self).state == GameState::new_spec(),
            final(self).lag == 0,
            final(self).render_state == old(self).render_state,
    {
        self.started = true;
        self.cmd_queue = Vec::new();
        self.state = GameState::new();
        self.lag = 0;
    }

    /// Enqueues a command for later consumption, at most one per tick, in
    /// FIFO order. Non-blocking. Policy: before `start` there is no inbox
    /// and the command is silently dropped.
    pub fn apply(&mut self, cmd: Command)
        ensures
            final(self).cmd_queue@ == if old(self).started {
                old(self).cmd_queue@.push(cmd)
            } else {
                old(self).cmd_queue@
            },
            final(self).started == old(self).started,
            final(self).state == old(self).state,
            final(self).lag == old(self).lag,
            final(self).render_state == old(self).render_state,
    {
        if self.started {
            self.cmd_queue.push(cmd);
        }
    }

    /// Returns the most recently published snapshot, or `None` when the
    /// worker has not yet completed a tick batch. Non-blocking: never waits
    /// for the worker.
    pub fn get_state(&self) -> (r: Option<RenderState>)
        ensures
            r == self.render_state,
    {
        self.render_state
    }

    /// One pass of the worker's loop, given the wall-clock milliseconds
    /// elapsed since the previous pass: the lag accumulator grows by the
    /// elapsed time; while at least one tick duration of lag remains, the
    /// worker polls the inbox without blocking, performs one step consuming
    /// at most the front command, and pays one tick duration off the lag;
    /// then a fresh snapshot is published.
    pub fn run_iteration(&mut self, elapsed_millis: u64)
        requires
            old(self).started,
            old(self).lag + elapsed_millis <= u64::MAX,
            batch_ok(
                old(self).state,
                old(self).cmd_queue@,
                old(self).pending_ticks(elapsed_millis),
            ),
        ensures
            final(self).started,
            final(self).state == batch(
                old(self).state,
                old(self).cmd_queue@,
                old(self).pending_ticks(elapsed_millis),
            ).0,
            final(self).cmd_queue@ == batch(
                old(self).state,
                old(self).cmd_queue@,
                old(self).pending_ticks(elapsed_millis),
            ).1,
            final(self).lag == old(self).lag + elapsed_millis - TICK_DURATION_MILLIS * old(
                self,
            ).pending_ticks(elapsed_millis),
            final(self).lag < TICK_DURATION_MILLIS,
            final(self).render_state == Option::Some(render_of(final(self).state)),
    {
        let ghost g0 = *old(self);
        let ghost q0 = old(self).cmd_queue@;
        let ghost n = g0.pending_ticks(elapsed_millis);

        self.lag = self.lag + elapsed_millis;
        let ghost mut e: nat = 0;

        while self.lag >= TICK_DURATION_MILLIS
            invariant
                g0 == *old(self),
                g0.lag + elapsed_millis <= u64::MAX,
                n == g0.pending_ticks(elapsed_millis),
                batch_ok(g0.state, q0, n),
                q0 == g0.cmd_queue@,
                e <= n,
                self.started,
                self.render_state == g0.render_state,
                self.lag == g0.lag + elapsed_millis - TICK_DURATION_MILLIS * e,
                self.state == batch(g0.state, q0, e).0,
                self.cmd_queue@ == batch(g0.state, q0, e).1,
                batch_ok(self.state, self.cmd_queue@, (n - e) as nat),
            decreases self.lag,
        {
            proof {
                // One more whole tick duration of lag remains, so e < n.
                lemma_fundamental_div_mod_converse_div(
                    TICK_DURATION_MILLIS * (e + 1),
                    TICK_DURATION_MILLIS as int,
                    e as int + 1,
                    0,
                );
                lemma_div_is_ordered(
                    TICK_DURATION_MILLIS * (e + 1),
                    g0.lag + elapsed_millis,
                    TICK_DURATION_MILLIS as int,
                );
            }
            let ghost q_e = self.cmd_queue@;
            let cmd: Option<Command>;
            if self.cmd_queue.len() > 0 {
                cmd = Some(self.cmd_queue.remove(0));
                proof {
                    assert(self.cmd_queue@ =~= tick_rest(q_e));
                }
            } else {
                cmd = None;
            }
            proof {
                assert(cmd == tick_command(q_e));
            }
            self.state = self.state.step(cmd);
            self.lag = self.lag - TICK_DURATION_MILLIS;
            proof {
                e = e + 1;
                lemma_batch_snoc(g0.state, q0, (e - 1) as nat);
            }
        }

        proof {
            // Less than one tick duration of lag remains, so every owed tick ran.
            lemma_fundamental_div_mod(g0.lag + elapsed_millis, TICK_DURATION_MILLIS as int);
            lemma_mod_bound(g0.lag + elapsed_millis, TICK_DURATION_MILLIS as int);
            assert(e == n);
        }
        self.render_state = Some(RenderState::from(self.state));
    }
}

} // verus!
