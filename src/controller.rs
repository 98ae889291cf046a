use vstd::arithmetic::div_mod::{
    lemma_add_mod_noop,
    lemma_add_mod_noop_right,
    lemma_fundamental_div_mod,
    lemma_fundamental_div_mod_converse,
    lemma_small_mod,
};
use vstd::prelude::*;

verus! {

/// Number of running poses the runner cycles through.
pub const POSE_COUNT: usize = 10;

/// Wall-clock time, in nanoseconds, between two pose advances (ten a second).
pub const POSE_PERIOD_NANOS: u64 = 100_000_000;

/// How far one tick with move-right held carries the runner, in half-units.
pub const RIGHT_STEP_HALVES: i64 = 2;

/// How far one tick with move-left held carries the runner back, in half-units.
pub const LEFT_STEP_HALVES: i64 = 1;

/// The movement keys held during one tick.
#[derive(Clone, Copy, Debug, PartialEq, Eq, Structural)]
pub struct InputSnapshot {
    pub move_left: bool,
    pub move_right: bool,
}

/// The mathematical state of the runner.
pub struct RunnerView {
    /// Horizontal position, in half-units.
    pub position_halves: int,
    /// Index of the pose shown.
    pub pose: nat,
    /// Time gathered towards the next pose advance, in nanoseconds.
    pub residual_nanos: nat,
}

impl RunnerView {
    pub open spec fn wf(self) -> bool {
        &&& self.pose < POSE_COUNT
        &&& self.residual_nanos < POSE_PERIOD_NANOS
        &&& fits_i64(self.position_halves)
    }
}

pub open spec fn fits_i64(x: int) -> bool {
    i64::MIN <= x <= i64::MAX
}

/// Net movement of one tick, in half-units.
pub open spec fn step_halves(input: InputSnapshot) -> int {
    (if input.move_right { RIGHT_STEP_HALVES as int } else { 0 }) - (if input.move_left {
        LEFT_STEP_HALVES as int
    } else {
        0
    })
}

/// How many times the pose threshold is reached when `elapsed` nanoseconds are
/// added to `residual` gathered ones.
pub open spec fn advances(residual: nat, elapsed: nat) -> nat {
    (residual + elapsed) / (POSE_PERIOD_NANOS as nat)
}

/// The state after one tick.
pub open spec fn tick_view(v: RunnerView, elapsed: nat, input: InputSnapshot) -> RunnerView {
    RunnerView {
        position_halves: v.position_halves + step_halves(input),
        pose: (v.pose + advances(v.residual_nanos, elapsed)) % (POSE_COUNT as nat),
        residual_nanos: (v.residual_nanos + elapsed) % (POSE_PERIOD_NANOS as nat),
    }
}

/// The runner's state: where it stands, which pose it shows, and the time
/// gathered towards the next pose.
pub struct SimulationState {
    position_halves: i64,
    pose: usize,
    residual_nanos: u64,
}

impl View for SimulationState {
    type V = RunnerView;

    closed spec fn view(&self) -> RunnerView {
        RunnerView {
            position_halves: self.position_halves as int,
            pose: self.pose as nat,
            residual_nanos: self.residual_nanos as nat,
        }
    }
}

fn step_of(input: InputSnapshot) -> (r: i64)
    ensures
        r == step_halves(input),
{
    let mut step: i64 = 0;
    if input.move_right {
        step = step + RIGHT_STEP_HALVES;
    }
    if input.move_left {
        step = step - LEFT_STEP_HALVES;
    }
    step
}

impl SimulationState {
    pub open spec fn wf(&self) -> bool {
        self@.wf()
    }

    /// The runner at position 0, showing the first pose.
    pub fn new() -> (r: SimulationState)
        ensures
            r.wf(),
            r@ == (RunnerView { position_halves: 0, pose: 0, residual_nanos: 0 }),
    {
        SimulationState { position_halves: 0, pose: 0, residual_nanos: 0 }
    }

    /// The runner at a given position (in half-units), showing a given pose.
    pub fn starting_at(position_halves: i64, pose: usize) -> (r: SimulationState)
        requires
            pose < POSE_COUNT,
        ensures
            r.wf(),
            r@ == (RunnerView {
                position_halves: position_halves as int,
                pose: pose as nat,
                residual_nanos: 0,
            }),
    {
        SimulationState { position_halves, pose, residual_nanos: 0 }
    }

    pub fn position_halves(&self) -> (r: i64)
        ensures
            r == self@.position_halves,
    {
        self.position_halves
    }

    pub fn pose(&self) -> (r: usize)
        ensures
            r == self@.pose,
    {
        self.pose
    }

    pub fn residual_nanos(&self) -> (r: u64)
        ensures
            r == self@.residual_nanos,
    {
        self.residual_nanos
    }

    /// Whether the position after a tick with `input` still fits in an `i64`.
    pub fn can_update(&self, input: InputSnapshot) -> (r: bool)
        ensures
            r == fits_i64(self@.position_halves + step_halves(input)),
    {
        let step = step_of(input);
        if step >= 0 {
            self.position_halves <= i64::MAX - step
        } else {
            self.position_halves >= i64::MIN - step
        }
    }

    /// One tick: move by the keys held, and advance the pose once for each
    /// full period gathered, wrapping past the last pose to the first.
    pub fn update(&mut self, elapsed_nanos: u64, input: InputSnapshot)
        requires
            old(self).wf(),
            fits_i64(old(self)@.position_halves + step_halves(input)),
        ensures
            final(self).wf(),
            final(self)@ == tick_view(old(self)@, elapsed_nanos as nat, input),
    {
        let step = step_of(input);
        self.position_halves = self.position_halves + step;

        let whole: u64 = elapsed_nanos / POSE_PERIOD_NANOS;
        let part: u64 = elapsed_nanos % POSE_PERIOD_NANOS;
        let mut residual: u64 = self.residual_nanos + part;
        let mut count: u64 = whole;
        // Time that reaches the period exactly counts as an advance, so a
        // second of ticks advances the pose ten times.
        if residual >= POSE_PERIOD_NANOS {
            residual = residual - POSE_PERIOD_NANOS;
            count = count + 1;
        }
        let ghost r0 = old(self).residual_nanos as int;
        let ghost p0 = old(self).pose as int;
        proof {
            let p = POSE_PERIOD_NANOS as int;
            lemma_fundamental_div_mod(elapsed_nanos as int, p);
            assert(r0 + elapsed_nanos == p * count + residual) by (nonlinear_arith)
                requires
                    elapsed_nanos as int == p * whole + part,
                    (residual == r0 + part && count == whole) || (residual == r0 + part - p
                        && count == whole + 1),
            ;
            lemma_fundamental_div_mod_converse(r0 + elapsed_nanos, p, count as int, residual as int);
            lemma_small_mod(p0 as nat, POSE_COUNT as nat);
            lemma_small_mod((count % 10) as nat, POSE_COUNT as nat);
            lemma_add_mod_noop(p0, count as int, POSE_COUNT as int);
        }
        self.residual_nanos = residual;
        let poses = POSE_COUNT as u64;
        self.pose = ((self.pose as u64 + count % poses) % poses) as usize;
    }
}

/// The state after a run of ticks, each given as its elapsed nanoseconds and
/// the keys held.
pub open spec fn run(v: RunnerView, ticks: Seq<(nat, InputSnapshot)>) -> RunnerView
    decreases ticks.len(),
{
    if ticks.len() == 0 {
        v
    } else {
        let last = ticks.last();
        tick_view(run(v, ticks.drop_last()), last.0, last.1)
    }
}

/// Total time elapsed over a run of ticks.
pub open spec fn total_elapsed(ticks: Seq<(nat, InputSnapshot)>) -> nat
    decreases ticks.len(),
{
    if ticks.len() == 0 {
        0
    } else {
        total_elapsed(ticks.drop_last()) + ticks.last().0
    }
}

/// Number of pose advances over a run of ticks, counted tick by tick.
pub open spec fn advances_over(v: RunnerView, ticks: Seq<(nat, InputSnapshot)>) -> nat
    decreases ticks.len(),
{
    if ticks.len() == 0 {
        0
    } else {
        let before = run(v, ticks.drop_last());
        advances_over(v, ticks.drop_last()) + advances(before.residual_nanos, ticks.last().0)
    }
}

/// Over any run of ticks, the pose advances once for each full period of the
/// time gathered, and the pose shown is the first one moved on by that many
/// advances, modulo the number of poses; it stays a valid pose index.
pub proof fn lemma_pose_after_ticks(v: RunnerView, ticks: Seq<(nat, InputSnapshot)>)
    requires
        v.pose < POSE_COUNT,
        v.residual_nanos < POSE_PERIOD_NANOS,
    ensures
        advances_over(v, ticks) == advances(v.residual_nanos, total_elapsed(ticks)),
        run(v, ticks).pose == (v.pose + advances_over(v, ticks)) % (POSE_COUNT as nat),
        run(v, ticks).pose < POSE_COUNT,
        run(v, ticks).residual_nanos == (v.residual_nanos + total_elapsed(ticks)) % (
        POSE_PERIOD_NANOS as nat),
    decreases ticks.len(),
{
    let p = POSE_PERIOD_NANOS as int;
    let m = POSE_COUNT as int;
    if ticks.len() == 0 {
        lemma_small_mod(v.pose, POSE_COUNT as nat);
        lemma_small_mod(v.residual_nanos, POSE_PERIOD_NANOS as nat);
        lemma_fundamental_div_mod_converse(v.residual_nanos as int, p, 0, v.residual_nanos as int);
    } else {
        let init = ticks.drop_last();
        let e = ticks.last().0 as int;
        lemma_pose_after_ticks(v, init);
        let before = run(v, init);
        let total = (v.residual_nanos + total_elapsed(init)) as int;
        let q = total / p;
        let r = total % p;
        let a = (r + e) / p;
        lemma_fundamental_div_mod(total, p);
        lemma_fundamental_div_mod(r + e, p);
        let r2 = (r + e) % p;
        assert(total + e == p * (q + a) + r2) by (nonlinear_arith)
            requires
                total == p * q + r,
                r + e == p * a + r2,
        ;
        lemma_fundamental_div_mod_converse(total + e, p, q + a, r2);
        lemma_add_mod_noop_right(a, (v.pose + advances_over(v, init)) as int, m);
    }
}

/// Holding the same keys for every tick of a run moves the runner by the step
/// of those keys once per tick: two half-units (1.0) a tick with move-right
/// alone, back one half-unit (0.5) a tick with move-left alone, one half-unit
/// forward with both, and not at all with neither, however long the run.
pub proof fn lemma_position_with_held_keys(
    v: RunnerView,
    ticks: Seq<(nat, InputSnapshot)>,
    input: InputSnapshot,
)
    requires
        forall|i: int| 0 <= i < ticks.len() ==> #[trigger] ticks[i].1 == input,
    ensures
        run(v, ticks).position_halves == v.position_halves + step_halves(input) * ticks.len(),
        input.move_right && !input.move_left ==> run(v, ticks).position_halves == v.position_halves
            + 2 * ticks.len(),
        !input.move_right && input.move_left ==> run(v, ticks).position_halves == v.position_halves
            - ticks.len(),
        input.move_right && input.move_left ==> run(v, ticks).position_halves == v.position_halves
            + ticks.len(),
        !input.move_right && !input.move_left ==> run(v, ticks).position_halves
            == v.position_halves,
    decreases ticks.len(),
{
    if ticks.len() > 0 {
        let init = ticks.drop_last();
        assert forall|i: int| 0 <= i < init.len() implies #[trigger] init[i].1 == input by {
            assert(init[i] == ticks[i]);
        }
        lemma_position_with_held_keys(v, init, input);
        assert(ticks.last().1 == ticks[ticks.len() - 1].1);
        assert(step_halves(input) * ticks.len() == step_halves(input) * init.len() + step_halves(
            input,
        )) by (nonlinear_arith)
            requires
                ticks.len() == init.len() + 1,
        ;
    }
}

} // verus!
