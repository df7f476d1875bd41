//! The stochastic Lotka-Volterra simulator: a discrete-event walk through
//! the phase plane.
//!
//! Each step draws one uniform value from the unit interval and selects at
//! most one of four competing events by cumulative-probability thresholds,
//! checked in a fixed priority order: prey birth, predator death, prey
//! death, predator birth. Populations are whole individuals; rates and the
//! time increment are fixed-point numbers at scale [`UNIT`], and the unit
//! draw is a fixed-point number `u / UNIT`. Every threshold comparison is
//! exact integer arithmetic, so the walk is a pure function of the
//! parameters and the draw sequence.

use vstd::prelude::*;

use rand::Rng;

use crate::fixed::{POP_LIMIT, RATE_LIMIT, UNIT};

verus! {

/// Parameters of the stochastic simulation.
///
/// The four rates and the time increment store the real value multiplied by
/// [`UNIT`]; populations are plain counts of individuals.
#[derive(Debug, Clone, Copy, PartialEq, Eq, Structural)]
pub struct LotkaVolterraParams {
    /// Prey birth rate (α), fixed-point.
    pub alpha: u64,
    /// Prey death rate per predator encounter (β), fixed-point.
    pub beta: u64,
    /// Predator birth rate per encounter (γ), fixed-point.
    pub gamma: u64,
    /// Predator death rate (δ), fixed-point.
    pub delta: u64,
    /// Time increment of one step (dt), fixed-point.
    pub dt: u64,
    /// Number of steps to simulate.
    pub n: usize,
    /// Initial prey population, in whole individuals.
    pub initial_prey: i64,
    /// Initial predator population, in whole individuals.
    pub initial_predator: i64,
    /// The walk never rejects a negative population count: a negative
    /// initial count is accepted and recorded as it evolves (from
    /// non-negative whole counts the walk cannot cross zero on its own; see
    /// [`lemma_nonnegative_stays`]). Set this to clamp both populations at
    /// zero after every step instead.
    pub clamp_at_zero: bool,
}

impl LotkaVolterraParams {
    /// The machine bounds under which every threshold product of the walk
    /// fits in an `i128` and the populations fit in an `i64`: rates and the
    /// time increment at most [`RATE_LIMIT`], and each initial population far
    /// enough from [`POP_LIMIT`] that `n` single steps cannot leave it.
    pub open spec fn wf(self) -> bool {
        &&& self.alpha <= RATE_LIMIT
        &&& self.beta <= RATE_LIMIT
        &&& self.gamma <= RATE_LIMIT
        &&& self.delta <= RATE_LIMIT
        &&& self.dt <= RATE_LIMIT
        &&& vstd::math::abs(self.initial_prey as int) + self.n <= POP_LIMIT
        &&& vstd::math::abs(self.initial_predator as int) + self.n <= POP_LIMIT
    }
}

impl Default for LotkaVolterraParams {
    /// The stock stochastic run: populations of 2000 on both sides, a
    /// small time increment and a million steps, without clamping.
    fn default() -> (d: Self)
        ensures
            d.alpha == 10_000u64,
            d.beta == 10u64,
            d.gamma == 10u64,
            d.delta == 10_000u64,
            d.dt == 1_000u64,
            d.n == 1_000_000usize,
            d.initial_prey == 2000i64,
            d.initial_predator == 2000i64,
            !d.clamp_at_zero,
            d.wf(),
    {
        Self {
            // 0.01, 0.00001, 0.00001, 0.01 and 0.001 at the fixed-point
            // scale.
            alpha: 10_000,
            beta: 10,
            gamma: 10,
            delta: 10_000,
            dt: 1_000,
            n: 1_000_000,
            initial_prey: 2000,
            initial_predator: 2000,
            clamp_at_zero: false,
        }
    }
}

/// The event classes a single step can fire, or none.
#[derive(Debug, Clone, Copy, PartialEq, Eq, Structural)]
pub enum Event {
    /// A prey is born: prey grows by one.
    PreyBirth,
    /// A predator dies: predators shrink by one.
    PredatorDeath,
    /// A prey is eaten: prey shrinks by one.
    PreyDeath,
    /// A predator is born: predators grow by one.
    PredatorBirth,
    /// The draw fell past every threshold: the populations stand still.
    NoEvent,
}

/// One recorded state of the walk: a point of the phase plane.
#[derive(Debug, Clone, Copy, PartialEq, Eq, Structural)]
pub struct PhasePoint {
    /// Prey population, in whole individuals.
    pub prey: i64,
    /// Predator population, in whole individuals.
    pub predator: i64,
}

impl View for PhasePoint {
    type V = (int, int);

    open spec fn view(&self) -> (int, int) {
        (self.prey as int, self.predator as int)
    }
}

/// Cumulative threshold of the first event (prey birth): `α·prey·dt`,
/// at scale `UNIT²`.
pub open spec fn threshold_prey_birth(p: LotkaVolterraParams, prey: int) -> int {
    p.alpha * prey * p.dt
}

/// Cumulative threshold of the second event (predator death): adds
/// `δ·predators·dt`.
pub open spec fn threshold_predator_death(p: LotkaVolterraParams, prey: int, pred: int) -> int {
    threshold_prey_birth(p, prey) + p.delta * pred * p.dt
}

/// Cumulative threshold of the third event (prey death): adds
/// `β·prey·predators·dt`.
pub open spec fn threshold_prey_death(p: LotkaVolterraParams, prey: int, pred: int) -> int {
    threshold_predator_death(p, prey, pred) + p.beta * prey * pred * p.dt
}

/// Cumulative threshold of the fourth event (predator birth): adds
/// `γ·prey·predators·dt`.
pub open spec fn threshold_predator_birth(p: LotkaVolterraParams, prey: int, pred: int) -> int {
    threshold_prey_death(p, prey, pred) + p.gamma * prey * pred * p.dt
}

/// Which event a unit draw `u / UNIT` fires in state `(prey, pred)`: the
/// first event, in priority order, whose cumulative threshold the draw does
/// not exceed. The draw and the thresholds are compared at scale `UNIT²`.
pub open spec fn spec_select_event(
    p: LotkaVolterraParams,
    prey: int,
    pred: int,
    u: int,
) -> Event {
    if u * (UNIT as int) <= threshold_prey_birth(p, prey) {
        Event::PreyBirth
    } else if u * (UNIT as int) <= threshold_predator_death(p, prey, pred) {
        Event::PredatorDeath
    } else if u * (UNIT as int) <= threshold_prey_death(p, prey, pred) {
        Event::PreyDeath
    } else if u * (UNIT as int) <= threshold_predator_birth(p, prey, pred) {
        Event::PredatorBirth
    } else {
        Event::NoEvent
    }
}

/// The state after an event fires, clamped at zero when asked to.
pub open spec fn spec_apply_event(e: Event, prey: int, pred: int, clamp: bool) -> (int, int) {
    let moved = match e {
        Event::PreyBirth => (prey + 1, pred),
        Event::PredatorDeath => (prey, pred - 1),
        Event::PreyDeath => (prey - 1, pred),
        Event::PredatorBirth => (prey, pred + 1),
        Event::NoEvent => (prey, pred),
    };
    if clamp {
        (if moved.0 < 0 { 0int } else { moved.0 }, if moved.1 < 0 { 0int } else { moved.1 })
    } else {
        moved
    }
}

/// One full step of the walk: select an event for the draw, apply it.
pub open spec fn spec_step(p: LotkaVolterraParams, prey: int, pred: int, u: int) -> (int, int) {
    spec_apply_event(spec_select_event(p, prey, pred, u), prey, pred, p.clamp_at_zero)
}

/// The state after the first `k` draws of `draws` have been consumed,
/// starting from `(prey, pred)`.
pub open spec fn spec_state(
    p: LotkaVolterraParams,
    prey: int,
    pred: int,
    draws: Seq<u64>,
    k: int,
) -> (int, int)
    decreases k,
{
    if k <= 0 {
        (prey, pred)
    } else {
        let prev = spec_state(p, prey, pred, draws, k - 1);
        spec_step(p, prev.0, prev.1, draws[k - 1] as int)
    }
}

/// The whole recorded walk for a draw sequence: the initial state followed
/// by one state per draw.
pub open spec fn spec_trajectory(
    p: LotkaVolterraParams,
    prey: int,
    pred: int,
    draws: Seq<u64>,
) -> Seq<(int, int)> {
    Seq::new(draws.len() + 1, |i: int| spec_state(p, prey, pred, draws, i))
}

/// Two consecutive phase points are related by one step of the walk under
/// some unit draw.
pub open spec fn is_step(p: LotkaVolterraParams, before: (int, int), after: (int, int)) -> bool {
    exists|u: int|
        0 <= u < (UNIT as int) && after == #[trigger] spec_step(p, before.0, before.1, u)
}

/// Every trajectory holds exactly one point per draw plus the initial
/// point, and its first point is the initial state, whatever the
/// parameters and draws are.
pub proof fn lemma_trajectory_shape(
    p: LotkaVolterraParams,
    prey: int,
    pred: int,
    draws: Seq<u64>,
)
    ensures
        spec_trajectory(p, prey, pred, draws).len() == draws.len() + 1,
        spec_trajectory(p, prey, pred, draws)[0] == (prey, pred),
{
}

/// Each point of a trajectory after the first is exactly one step of the
/// walk away from its predecessor, under the draw consumed at that step: the
/// walk applies events strictly in draw order.
pub proof fn lemma_trajectory_step(
    p: LotkaVolterraParams,
    prey: int,
    pred: int,
    draws: Seq<u64>,
    i: int,
)
    requires
        0 <= i < draws.len(),
    ensures
        spec_trajectory(p, prey, pred, draws)[i + 1] == spec_step(
            p,
            spec_trajectory(p, prey, pred, draws)[i].0,
            spec_trajectory(p, prey, pred, draws)[i].1,
            draws[i] as int,
        ),
{
    assert(spec_state(p, prey, pred, draws, i + 1) == spec_step(
        p,
        spec_state(p, prey, pred, draws, i).0,
        spec_state(p, prey, pred, draws, i).1,
        draws[i] as int,
    ));
}

/// The four event classes are checked in a fixed priority order — prey
/// birth, then predator death, then prey death, then predator birth — and
/// the first cumulative threshold the draw does not exceed decides; a draw
/// beyond every threshold moves nothing. While both populations are
/// non-negative the thresholds are non-decreasing in that order, so the
/// bands between consecutive thresholds map to the events exactly. (Once a
/// population has gone negative a threshold can fall below its predecessor
/// and the earlier event shadows the band.)
pub proof fn lemma_event_priority(p: LotkaVolterraParams, prey: int, pred: int, u: int)
    requires
        prey >= 0,
        pred >= 0,
    ensures
        u * (UNIT as int) <= threshold_prey_birth(p, prey) ==> spec_select_event(p, prey, pred, u)
            == Event::PreyBirth,
        threshold_prey_birth(p, prey) < u * (UNIT as int) <= threshold_predator_death(
            p,
            prey,
            pred,
        ) ==> spec_select_event(p, prey, pred, u) == Event::PredatorDeath,
        threshold_predator_death(p, prey, pred) < u * (UNIT as int) <= threshold_prey_death(
            p,
            prey,
            pred,
        ) ==> spec_select_event(p, prey, pred, u) == Event::PreyDeath,
        threshold_prey_death(p, prey, pred) < u * (UNIT as int) <= threshold_predator_birth(
            p,
            prey,
            pred,
        ) ==> spec_select_event(p, prey, pred, u) == Event::PredatorBirth,
        threshold_predator_birth(p, prey, pred) < u * (UNIT as int) ==> spec_select_event(
            p,
            prey,
            pred,
            u,
        ) == Event::NoEvent,
{
    assert(0 <= (p.alpha as int) * prey * (p.dt as int)) by (nonlinear_arith)
        requires
            0 <= p.alpha,
            0 <= prey,
            0 <= p.dt,
    ;
    assert(0 <= (p.delta as int) * pred * (p.dt as int)) by (nonlinear_arith)
        requires
            0 <= p.delta,
            0 <= pred,
            0 <= p.dt,
    ;
    assert(0 <= (p.beta as int) * prey * pred * (p.dt as int)) by (nonlinear_arith)
        requires
            0 <= p.beta,
            0 <= prey,
            0 <= pred,
            0 <= p.dt,
    ;
    assert(0 <= (p.gamma as int) * prey * pred * (p.dt as int)) by (nonlinear_arith)
        requires
            0 <= p.gamma,
            0 <= prey,
            0 <= pred,
            0 <= p.dt,
    ;
}

/// A step never pushes a non-negative whole population below zero: a death
/// event can fire only when its band between two consecutive thresholds is
/// non-empty, and at population zero the band collapses (the death term of
/// the cumulative sum is zero). So negative counts can only enter a walk
/// through a negative initial population, and the zero-clamp option only
/// matters for such starts.
pub proof fn lemma_nonnegative_stays(p: LotkaVolterraParams, prey: int, pred: int, u: int)
    requires
        prey >= 0,
        pred >= 0,
    ensures
        spec_step(p, prey, pred, u).0 >= 0,
        spec_step(p, prey, pred, u).1 >= 0,
{
    if pred == 0 {
        assert((p.delta as int) * pred * (p.dt as int) == 0) by (nonlinear_arith)
            requires
                pred == 0,
        ;
        assert(threshold_predator_death(p, prey, pred) == threshold_prey_birth(p, prey));
    }
    if prey == 0 {
        assert((p.beta as int) * prey * pred * (p.dt as int) == 0) by (nonlinear_arith)
            requires
                prey == 0,
        ;
        assert(threshold_prey_death(p, prey, pred) == threshold_predator_death(p, prey, pred));
    }
}

/// From non-negative whole starting populations, every point of every
/// trajectory is non-negative whatever the draws were: negative counts can
/// only enter a walk through a negative initial population.
pub proof fn lemma_trajectory_nonnegative(
    p: LotkaVolterraParams,
    prey: int,
    pred: int,
    draws: Seq<u64>,
    i: int,
)
    requires
        prey >= 0,
        pred >= 0,
        0 <= i < spec_trajectory(p, prey, pred, draws).len(),
    ensures
        spec_trajectory(p, prey, pred, draws)[i].0 >= 0,
        spec_trajectory(p, prey, pred, draws)[i].1 >= 0,
    decreases i,
{
    if i > 0 {
        lemma_trajectory_nonnegative(p, prey, pred, draws, i - 1);
        lemma_nonnegative_stays(
            p,
            spec_state(p, prey, pred, draws, i - 1).0,
            spec_state(p, prey, pred, draws, i - 1).1,
            draws[i - 1] as int,
        );
    }
}

/// For non-negative whole starting populations the zero-clamp option
/// changes nothing: since such a walk never crosses zero, clamping at zero
/// is the identity on every step, and the two trajectories coincide
/// point for point.
pub proof fn lemma_clamp_inert_for_nonnegative_start(
    p: LotkaVolterraParams,
    prey: int,
    pred: int,
    draws: Seq<u64>,
)
    requires
        !p.clamp_at_zero,
        prey >= 0,
        pred >= 0,
    ensures
        spec_trajectory((LotkaVolterraParams { clamp_at_zero: true, ..p }), prey, pred, draws)
            == spec_trajectory(p, prey, pred, draws),
{
    let pc = LotkaVolterraParams { clamp_at_zero: true, ..p };
    assert forall|i: int| 0 <= i <= draws.len() implies spec_state(pc, prey, pred, draws, i)
        == spec_state(p, prey, pred, draws, i) by {
        lemma_state_clamp_inert(p, prey, pred, draws, i);
    }
    assert(spec_trajectory(pc, prey, pred, draws) =~= spec_trajectory(p, prey, pred, draws));
}

/// Helper induction for [`lemma_clamp_inert_for_nonnegative_start`]: after
/// any number of steps the clamped and the unclamped walk sit on the same
/// non-negative state.
proof fn lemma_state_clamp_inert(p: LotkaVolterraParams, prey: int, pred: int, draws: Seq<u64>, i: int)
    requires
        !p.clamp_at_zero,
        prey >= 0,
        pred >= 0,
        0 <= i,
    ensures
        spec_state(
            (LotkaVolterraParams { clamp_at_zero: true, ..p }),
            prey,
            pred,
            draws,
            i,
        ) == spec_state(p, prey, pred, draws, i),
        spec_state(p, prey, pred, draws, i).0 >= 0,
        spec_state(p, prey, pred, draws, i).1 >= 0,
    decreases i,
{
    let pc = LotkaVolterraParams { clamp_at_zero: true, ..p };
    if i > 0 {
        lemma_state_clamp_inert(p, prey, pred, draws, i - 1);
        let prev = spec_state(p, prey, pred, draws, i - 1);
        let u = draws[i - 1] as int;
        lemma_nonnegative_stays(p, prev.0, prev.1, u);
        // The thresholds read only the rates and the time increment, which
        // the clamped parameter set shares, so both walks select the same
        // event; and clamping a non-negative result at zero is the
        // identity.
        assert(spec_select_event(pc, prev.0, prev.1, u) == spec_select_event(p, prev.0, prev.1, u));
    }
}

/// Selects the event a unit draw fires in the given state, by exact
/// integer comparison of the draw against the four cumulative thresholds.
fn select_event(p: &LotkaVolterraParams, prey: i64, predator: i64, u: u64) -> (e: Event)
    requires
        p.wf(),
        -POP_LIMIT <= prey <= POP_LIMIT,
        -POP_LIMIT <= predator <= POP_LIMIT,
        u < UNIT,
    ensures
        e == spec_select_event(*p, prey as int, predator as int, u as int),
{
    let a: i128 = p.alpha as i128;
    let b: i128 = p.beta as i128;
    let g: i128 = p.gamma as i128;
    let de: i128 = p.delta as i128;
    let dt: i128 = p.dt as i128;
    let pr: i128 = prey as i128;
    let pd: i128 = predator as i128;
    proof {
        assert(-1000000000000000000 <= (a as int) * (pr as int) <= 1000000000000000000)
            by (nonlinear_arith)
            requires
                0 <= a <= 1000000000,
                -1000000000 <= pr <= 1000000000,
        ;
        assert(-1000000000000000000 <= (de as int) * (pd as int) <= 1000000000000000000)
            by (nonlinear_arith)
            requires
                0 <= de <= 1000000000,
                -1000000000 <= pd <= 1000000000,
        ;
        assert(-1000000000000000000 <= (b as int) * (pr as int) <= 1000000000000000000)
            by (nonlinear_arith)
            requires
                0 <= b <= 1000000000,
                -1000000000 <= pr <= 1000000000,
        ;
        assert(-1000000000000000000 <= (g as int) * (pr as int) <= 1000000000000000000)
            by (nonlinear_arith)
            requires
                0 <= g <= 1000000000,
                -1000000000 <= pr <= 1000000000,
        ;
    }
    let ap: i128 = a * pr;
    let dq: i128 = de * pd;
    let bp: i128 = b * pr;
    let gp: i128 = g * pr;
    proof {
        assert(-1000000000000000000000000000 <= (bp as int) * (pd as int)
            <= 1000000000000000000000000000) by (nonlinear_arith)
            requires
                -1000000000000000000 <= bp <= 1000000000000000000,
                -1000000000 <= pd <= 1000000000,
        ;
        assert(-1000000000000000000000000000 <= (gp as int) * (pd as int)
            <= 1000000000000000000000000000) by (nonlinear_arith)
            requires
                -1000000000000000000 <= gp <= 1000000000000000000,
                -1000000000 <= pd <= 1000000000,
        ;
    }
    let bpq: i128 = bp * pd;
    let gpq: i128 = gp * pd;
    proof {
        assert(-1000000000000000000000000000 <= (ap as int) * (dt as int)
            <= 1000000000000000000000000000) by (nonlinear_arith)
            requires
                -1000000000000000000 <= ap <= 1000000000000000000,
                0 <= dt <= 1000000000,
        ;
        assert(-1000000000000000000000000000 <= (dq as int) * (dt as int)
            <= 1000000000000000000000000000) by (nonlinear_arith)
            requires
                -1000000000000000000 <= dq <= 1000000000000000000,
                0 <= dt <= 1000000000,
        ;
        assert(-1000000000000000000000000000000000000 <= (bpq as int) * (dt as int)
            <= 1000000000000000000000000000000000000) by (nonlinear_arith)
            requires
                -1000000000000000000000000000 <= bpq <= 1000000000000000000000000000,
                0 <= dt <= 1000000000,
        ;
        assert(-1000000000000000000000000000000000000 <= (gpq as int) * (dt as int)
            <= 1000000000000000000000000000000000000) by (nonlinear_arith)
            requires
                -1000000000000000000000000000 <= gpq <= 1000000000000000000000000000,
                0 <= dt <= 1000000000,
        ;
    }
    let c1: i128 = ap * dt;
    let c2: i128 = c1 + dq * dt;
    let c3: i128 = c2 + bpq * dt;
    let c4: i128 = c3 + gpq * dt;
    let lhs: i128 = (u as i128) * (UNIT as i128);
    if lhs <= c1 {
        Event::PreyBirth
    } else if lhs <= c2 {
        Event::PredatorDeath
    } else if lhs <= c3 {
        Event::PreyDeath
    } else if lhs <= c4 {
        Event::PredatorBirth
    } else {
        Event::NoEvent
    }
}

/// Applies one event to the state, clamping at zero when the parameters ask
/// for it.
fn apply_event(p: &LotkaVolterraParams, e: Event, prey: i64, predator: i64) -> (r: (i64, i64))
    requires
        -POP_LIMIT <= prey <= POP_LIMIT,
        -POP_LIMIT <= predator <= POP_LIMIT,
    ensures
        (r.0 as int, r.1 as int) == spec_apply_event(
            e,
            prey as int,
            predator as int,
            p.clamp_at_zero,
        ),
{
    let moved: (i64, i64) = match e {
        Event::PreyBirth => (prey + 1, predator),
        Event::PredatorDeath => (prey, predator - 1),
        Event::PreyDeath => (prey - 1, predator),
        Event::PredatorBirth => (prey, predator + 1),
        Event::NoEvent => (prey, predator),
    };
    if p.clamp_at_zero {
        (if moved.0 < 0 { 0i64 } else { moved.0 }, if moved.1 < 0 { 0i64 } else { moved.1 })
    } else {
        moved
    }
}

/// One full step of the walk on machine integers.
fn step_once(p: &LotkaVolterraParams, prey: i64, predator: i64, u: u64) -> (r: (i64, i64))
    requires
        p.wf(),
        -POP_LIMIT < prey < POP_LIMIT,
        -POP_LIMIT < predator < POP_LIMIT,
        u < UNIT,
    ensures
        (r.0 as int, r.1 as int) == spec_step(*p, prey as int, predator as int, u as int),
{
    let e = select_event(p, prey, predator, u);
    apply_event(p, e, prey, predator)
}

#[verifier::external_type_specification]
#[verifier::external_body]
pub struct ExThreadRng(rand::rngs::ThreadRng);

/// Relies on `rand::rng`: a handle to the thread-local random generator.
/// Nothing is assumed about the values it will produce.
#[verifier::external_body]
fn fresh_rng() -> rand::rngs::ThreadRng {
    rand::rng()
}

/// Relies on `Rng::random_range` over `0..bound`: returns a value of that
/// range, so strictly below `bound`. The call panics only on an empty
/// range, which the precondition excludes; nothing is assumed about which
/// value comes back.
#[verifier::external_body]
fn draw_below(rng: &mut rand::rngs::ThreadRng, bound: u64) -> (r: u64)
    requires
        bound > 0,
    ensures
        r < bound,
{
    rng.random_range(0..bound)
}

/// Runs the walk on a caller-supplied sequence of unit draws, one per step:
/// the whole output is a pure function of the parameters and the draws, so
/// a fixed draw sequence reproduces the identical trajectory.
///
/// Every entry of `draws` is a fixed-point number `u / UNIT` of the unit
/// interval.
pub fn solve_stochastic_with_draws(params: &LotkaVolterraParams, draws: &Vec<u64>) -> (r: Vec<
    PhasePoint,
>)
    requires
        params.wf(),
        draws@.len() == params.n,
        forall|i: int| 0 <= i < draws@.len() ==> #[trigger] draws@[i] < UNIT,
    ensures
        r@.len() == params.n + 1,
        forall|i: int|
            0 <= i < r@.len() ==> #[trigger] r@[i]@ == spec_trajectory(
                *params,
                params.initial_prey as int,
                params.initial_predator as int,
                draws@,
            )[i],
{
    let ghost prey0: int = params.initial_prey as int;
    let ghost pred0: int = params.initial_predator as int;
    let mut points: Vec<PhasePoint> = Vec::new();
    let mut prey: i64 = params.initial_prey;
    let mut predator: i64 = params.initial_predator;
    points.push(PhasePoint { prey, predator });
    let mut k: usize = 0;
    while k < params.n
        invariant
            params.wf(),
            draws@.len() == params.n,
            forall|i: int| 0 <= i < draws@.len() ==> #[trigger] draws@[i] < UNIT,
            k <= params.n,
            points@.len() == k + 1,
            prey0 == params.initial_prey as int,
            pred0 == params.initial_predator as int,
            (prey as int, predator as int) == spec_state(*params, prey0, pred0, draws@, k as int),
            forall|i: int|
                0 <= i <= k ==> #[trigger] points@[i]@ == spec_state(
                    *params,
                    prey0,
                    pred0,
                    draws@,
                    i,
                ),
            vstd::math::abs(prey as int) <= vstd::math::abs(prey0) + k,
            vstd::math::abs(predator as int) <= vstd::math::abs(pred0) + k,
        decreases params.n - k,
    {
        let u: u64 = draws[k];
        let next: (i64, i64) = step_once(params, prey, predator, u);
        proof {
            assert(spec_state(*params, prey0, pred0, draws@, k as int + 1) == spec_step(
                *params,
                spec_state(*params, prey0, pred0, draws@, k as int).0,
                spec_state(*params, prey0, pred0, draws@, k as int).1,
                draws@[k as int] as int,
            ));
        }
        prey = next.0;
        predator = next.1;
        points.push(PhasePoint { prey, predator });
        k = k + 1;
    }
    points
}

/// Runs the walk for `n` steps with fresh draws from the thread-local
/// random generator, recording the initial point and the state after every
/// step, fired or not.
///
/// The output always holds exactly `n + 1` points, starts at the initial
/// populations, and each point follows from its predecessor by one step of
/// the walk under some unit draw; which draws come back is up to the
/// generator.
pub fn solve_stochastic_lotka_volterra(params: &LotkaVolterraParams) -> (r: Vec<PhasePoint>)
    requires
        params.wf(),
    ensures
        r@.len() == params.n + 1,
        r@[0]@ == (params.initial_prey as int, params.initial_predator as int),
        forall|i: int| 0 <= i < params.n ==> is_step(*params, #[trigger] r@[i]@, r@[i + 1]@),
{
    let ghost prey0: int = params.initial_prey as int;
    let ghost pred0: int = params.initial_predator as int;
    let mut rng = fresh_rng();
    let mut points: Vec<PhasePoint> = Vec::new();
    let mut prey: i64 = params.initial_prey;
    let mut predator: i64 = params.initial_predator;
    points.push(PhasePoint { prey, predator });
    let mut k: usize = 0;
    while k < params.n
        invariant
            params.wf(),
            k <= params.n,
            points@.len() == k + 1,
            prey0 == params.initial_prey as int,
            pred0 == params.initial_predator as int,
            points@[0]@ == (prey0, pred0),
            points@[k as int]@ == (prey as int, predator as int),
            forall|i: int|
                0 <= i < k ==> is_step(*params, #[trigger] points@[i]@, points@[i + 1]@),
            vstd::math::abs(prey as int) <= vstd::math::abs(prey0) + k,
            vstd::math::abs(predator as int) <= vstd::math::abs(pred0) + k,
        decreases params.n - k,
    {
        let ghost before: (int, int) = (prey as int, predator as int);
        let u: u64 = draw_below(&mut rng, UNIT);
        let next: (i64, i64) = step_once(params, prey, predator, u);
        prey = next.0;
        predator = next.1;
        points.push(PhasePoint { prey, predator });
        proof {
            assert(points@[k as int]@ == before);
            assert(points@[k as int + 1]@ == spec_step(*params, before.0, before.1, u as int));
            assert(is_step(*params, points@[k as int]@, points@[k as int + 1]@));
        }
        k = k + 1;
    }
    points
}

} // verus!
