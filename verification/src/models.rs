//! Parameters and governing equations of the deterministic Lotka-Volterra
//! model.
//!
//! Every rate, time and population here is a fixed-point number at scale
//! [`crate::fixed::UNIT`]. The adaptive numerical integration itself runs on
//! machine reals outside this crate; what this module pins down exactly is
//! the parameter set, its validation, and the right-hand side of the
//! differential system evaluated without rounding.

use vstd::prelude::*;
use vstd::string::StringExecFns;

use crate::error::SimulationError;
use crate::fixed::{RATE_LIMIT, STATE_LIMIT, UNIT};

verus! {

/// The parameters of the deterministic Lotka-Volterra run: the four rates of
/// the differential system, the initial populations, and the time window.
///
/// Each field stores the real value multiplied by [`UNIT`]. Negative values
/// are representable so that the validation layer can reject them rather
/// than silently losing them in a conversion.
#[derive(Debug, Clone, Copy, PartialEq, Eq, Structural)]
pub struct LotkaVolterraParameters {
    /// Prey birth rate (the α of the model).
    pub alpha: i64,
    /// Predation rate: how fast prey die to predators (β).
    pub beta: i64,
    /// Predator reproduction rate per predation (δ).
    pub delta: i64,
    /// Predator death rate (γ).
    pub gamma: i64,
    /// Initial prey population.
    pub initial_prey: i64,
    /// Initial predator population.
    pub initial_predator: i64,
    /// Start of the simulated time window.
    pub t_start: i64,
    /// End of the simulated time window.
    pub t_end: i64,
}

/// A parameter set the simulation accepts: every rate, population and time
/// non-negative, and the time window not inverted.
pub open spec fn params_valid(p: LotkaVolterraParameters) -> bool {
    &&& p.alpha >= 0
    &&& p.beta >= 0
    &&& p.delta >= 0
    &&& p.gamma >= 0
    &&& p.initial_prey >= 0
    &&& p.initial_predator >= 0
    &&& p.t_start >= 0
    &&& p.t_end >= 0
    &&& p.t_end >= p.t_start
}

impl Default for LotkaVolterraParameters {
    /// The stock parameter set: a slow-growing prey population of 2000 facing
    /// 2000 predators over a long time window.
    fn default() -> (d: Self)
        ensures
            d.alpha == 10_000i64,
            d.beta == 10i64,
            d.delta == 10i64,
            d.gamma == 10_000i64,
            d.initial_prey == 2_000_000_000i64,
            d.initial_predator == 2_000_000_000i64,
            d.t_start == 0i64,
            d.t_end == 8_000_000_000i64,
            params_valid(d),
    {
        Self {
            // 0.01, 0.00001, 0.00001 and 0.01 at the fixed-point scale.
            alpha: 10_000,
            beta: 10,
            delta: 10,
            gamma: 10_000,
            // Populations of 2000 and a window of [0, 8000] at the scale.
            initial_prey: 2_000_000_000,
            initial_predator: 2_000_000_000,
            t_start: 0,
            t_end: 8_000_000_000,
        }
    }
}

/// Rejects a parameter set with any negative entry or an inverted time
/// window, with the exact message the interactive front end shows; accepts
/// every other set. The core never validates on its own: callers run this
/// before handing parameters to a solver.
pub fn validate_params(params: &LotkaVolterraParameters) -> (r: Result<(), SimulationError>)
    ensures
        r is Ok <==> params_valid(*params),
        (match r {
            Ok(_) => true,
            Err(e) => match e {
                SimulationError::InvalidParameter(m) => m@ == "All parameters must be non-negative."@,
                _ => false,
            },
        }),
{
    if params.alpha < 0 || params.beta < 0 || params.delta < 0 || params.gamma < 0
        || params.initial_prey < 0 || params.initial_predator < 0 || params.t_start < 0
        || params.t_end < 0 || params.t_end < params.t_start {
        Err(
            SimulationError::InvalidParameter(
                String::from_str("All parameters must be non-negative."),
            ),
        )
    } else {
        Ok(())
    }
}

/// The right-hand side of `d(prey)/dt = α·prey − β·prey·predator` for
/// fixed-point populations, as an exact integer at scale `UNIT³`.
pub open spec fn prey_rate(p: LotkaVolterraParameters, prey: int, pred: int) -> int {
    p.alpha * prey * (UNIT as int) - p.beta * prey * pred
}

/// The right-hand side of `d(predator)/dt = δ·prey·predator − γ·predator`
/// for fixed-point populations, as an exact integer at scale `UNIT³`.
pub open spec fn predator_rate(p: LotkaVolterraParameters, prey: int, pred: int) -> int {
    p.delta * prey * pred - p.gamma * pred * (UNIT as int)
}

/// With both coupling rates at zero the system decouples: the prey
/// derivative reduces to exactly `α·prey` and the predator derivative to
/// exactly `−γ·predator` (scaled), independent of the other population —
/// each side then evolves as a pure exponential of its own rate.
pub proof fn lemma_decoupled_rates(p: LotkaVolterraParameters, prey: int, pred: int)
    requires
        p.beta == 0,
        p.delta == 0,
    ensures
        prey_rate(p, prey, pred) == p.alpha * prey * (UNIT as int),
        predator_rate(p, prey, pred) == -(p.gamma * pred * (UNIT as int)),
{
    assert((p.beta as int) * prey * pred == 0) by (nonlinear_arith)
        requires
            p.beta == 0,
    ;
    assert((p.delta as int) * prey * pred == 0) by (nonlinear_arith)
        requires
            p.delta == 0,
    ;
}

/// The differential system `d(prey)/dt = α·prey − β·prey·predator`,
/// `d(predator)/dt = δ·prey·predator − γ·predator`, bundled with its
/// parameters.
pub struct LotkaVolterraSystem {
    /// The rates the right-hand side is evaluated with.
    pub params: LotkaVolterraParameters,
}

impl LotkaVolterraSystem {
    /// Creates the system with the provided parameters.
    pub fn new(params: LotkaVolterraParameters) -> (s: Self)
        ensures
            s.params == params,
    {
        Self { params }
    }

    /// Evaluates the right-hand side of the system exactly.
    ///
    /// `prey` and `predator` are fixed-point populations at scale [`UNIT`];
    /// the two results are the time derivatives of the model as exact
    /// integers at scale `UNIT³` (so no rounding happens here). Both
    /// coupling terms use the same `prey·predator` product, as the model
    /// demands.
    pub fn system(&self, prey: i64, predator: i64) -> (r: (i128, i128))
        requires
            0 <= self.params.alpha <= RATE_LIMIT,
            0 <= self.params.beta <= RATE_LIMIT,
            0 <= self.params.delta <= RATE_LIMIT,
            0 <= self.params.gamma <= RATE_LIMIT,
            -STATE_LIMIT <= prey <= STATE_LIMIT,
            -STATE_LIMIT <= predator <= STATE_LIMIT,
        ensures
            r.0 == prey_rate(self.params, prey as int, predator as int),
            r.1 == predator_rate(self.params, prey as int, predator as int),
    {
        let a: i128 = self.params.alpha as i128;
        let b: i128 = self.params.beta as i128;
        let de: i128 = self.params.delta as i128;
        let g: i128 = self.params.gamma as i128;
        let p: i128 = prey as i128;
        let q: i128 = predator as i128;
        let u: i128 = UNIT as i128;
        proof {
            assert(-1000000000000000000000 <= (a as int) * (p as int) <= 1000000000000000000000)
                by (nonlinear_arith)
                requires
                    0 <= a <= 1000000000,
                    -1000000000000 <= p <= 1000000000000,
            ;
            assert(-1000000000000000000000 <= (b as int) * (p as int) <= 1000000000000000000000)
                by (nonlinear_arith)
                requires
                    0 <= b <= 1000000000,
                    -1000000000000 <= p <= 1000000000000,
            ;
            assert(-1000000000000000000000 <= (de as int) * (p as int) <= 1000000000000000000000)
                by (nonlinear_arith)
                requires
                    0 <= de <= 1000000000,
                    -1000000000000 <= p <= 1000000000000,
            ;
            assert(-1000000000000000000000 <= (g as int) * (q as int) <= 1000000000000000000000)
                by (nonlinear_arith)
                requires
                    0 <= g <= 1000000000,
                    -1000000000000 <= q <= 1000000000000,
            ;
        }
        let ap: i128 = a * p;
        let bp: i128 = b * p;
        let dp: i128 = de * p;
        let gq: i128 = g * q;
        proof {
            assert(-1000000000000000000000000000 <= (ap as int) * (u as int)
                <= 1000000000000000000000000000) by (nonlinear_arith)
                requires
                    -1000000000000000000000 <= ap <= 1000000000000000000000,
                    0 <= u <= 1000000,
            ;
            assert(-1000000000000000000000000000000000 <= (bp as int) * (q as int)
                <= 1000000000000000000000000000000000) by (nonlinear_arith)
                requires
                    -1000000000000000000000 <= bp <= 1000000000000000000000,
                    -1000000000000 <= q <= 1000000000000,
            ;
            assert(-1000000000000000000000000000000000 <= (dp as int) * (q as int)
                <= 1000000000000000000000000000000000) by (nonlinear_arith)
                requires
                    -1000000000000000000000 <= dp <= 1000000000000000000000,
                    -1000000000000 <= q <= 1000000000000,
            ;
            assert(-1000000000000000000000000000 <= (gq as int) * (u as int)
                <= 1000000000000000000000000000) by (nonlinear_arith)
                requires
                    -1000000000000000000000 <= gq <= 1000000000000000000000,
                    0 <= u <= 1000000,
            ;
        }
        let prey_growth: i128 = ap * u;
        let predation: i128 = bp * q;
        let reproduction: i128 = dp * q;
        let predator_decay: i128 = gq * u;
        (prey_growth - predation, reproduction - predator_decay)
    }
}

} // verus!
