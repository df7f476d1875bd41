use lotka_volterra::fixed::UNIT;
use lotka_volterra::stochastic::{
    solve_stochastic_lotka_volterra, solve_stochastic_with_draws, LotkaVolterraParams, PhasePoint,
};

// Rates and dt below are fixed-point values at scale UNIT = 1_000_000:
// 10_000 stands for 0.01, 10 for 0.00001, 1_000 for 0.001, and so on.

#[test]
fn test_stochastic_solver_generates_data() {
    let params = LotkaVolterraParams {
        alpha: 10_000,
        beta: 10,
        gamma: 10,
        delta: 10_000,
        dt: 1_000,
        n: 1000,
        initial_prey: 2000,
        initial_predator: 2000,
        clamp_at_zero: false,
    };

    let result = solve_stochastic_lotka_volterra(&params);
    assert!(
        !result.is_empty(),
        "Stochastic solver should generate non-empty data."
    );
}

#[test]
fn test_stochastic_solver_initial_conditions() {
    let params = LotkaVolterraParams {
        alpha: 100_000,
        beta: 20_000,
        gamma: 20_000,
        delta: 100_000,
        dt: 10_000,
        n: 100,
        initial_prey: 100,
        initial_predator: 50,
        clamp_at_zero: false,
    };

    let result = solve_stochastic_with_draws(&params, &fixed_draws(100));
    assert_eq!(
        result[0],
        PhasePoint {
            prey: 100,
            predator: 50
        },
        "Initial values should match the input parameters."
    );
}

/// A deterministic stand-in draw sequence for tests that only look at the
/// shape of the output.
fn fixed_draws(n: usize) -> Vec<u64> {
    let mut draws = Vec::with_capacity(n);
    let mut x: u64 = 123_456;
    for _ in 0..n {
        x = (x * 48_271) % 999_983;
        draws.push(x % UNIT);
    }
    draws
}

#[test]
fn test_scenario_thousand_steps() {
    // alpha 0.01, beta 0.00001, gamma 0.00001, delta 0.01, dt 0.001.
    let params = LotkaVolterraParams {
        alpha: 10_000,
        beta: 10,
        gamma: 10,
        delta: 10_000,
        dt: 1_000,
        n: 1000,
        initial_prey: 2000,
        initial_predator: 2000,
        clamp_at_zero: false,
    };

    let result = solve_stochastic_lotka_volterra(&params);
    assert_eq!(result.len(), 1001);
    assert_eq!(
        result[0],
        PhasePoint {
            prey: 2000,
            predator: 2000
        }
    );
    // Each step fires an event with probability about 0.12, so a run of a
    // thousand steps in which nothing ever happens is all but impossible.
    assert!(
        result.iter().any(|p| *p != result[0]),
        "A thousand steps should fire at least one event."
    );
}

#[test]
fn test_default_stochastic_parameters() {
    let d = LotkaVolterraParams::default();
    assert_eq!(d.alpha, 10_000);
    assert_eq!(d.beta, 10);
    assert_eq!(d.gamma, 10);
    assert_eq!(d.delta, 10_000);
    assert_eq!(d.dt, 1_000);
    assert_eq!(d.n, 1_000_000);
    assert_eq!(d.initial_prey, 2000);
    assert_eq!(d.initial_predator, 2000);
    assert!(!d.clamp_at_zero);
}

#[test]
fn test_output_length_is_steps_plus_one() {
    let params = LotkaVolterraParams {
        alpha: 10_000,
        beta: 10,
        gamma: 10,
        delta: 10_000,
        dt: 1_000,
        n: 7,
        initial_prey: 30,
        initial_predator: 8,
        clamp_at_zero: false,
    };
    assert_eq!(solve_stochastic_lotka_volterra(&params).len(), 8);
    assert_eq!(
        solve_stochastic_with_draws(&params, &fixed_draws(7)).len(),
        8
    );
}

#[test]
fn test_zero_steps_single_point() {
    let params = LotkaVolterraParams {
        alpha: 10_000,
        beta: 10,
        gamma: 10,
        delta: 10_000,
        dt: 1_000,
        n: 0,
        initial_prey: 5,
        initial_predator: 3,
        clamp_at_zero: false,
    };
    let result = solve_stochastic_lotka_volterra(&params);
    assert_eq!(
        result,
        vec![PhasePoint {
            prey: 5,
            predator: 3
        }]
    );
}

#[test]
fn test_event_priority_with_fixed_draws() {
    // alpha 0.01, beta 0.0001, gamma 0.0001, delta 0.01, dt 0.1: starting
    // from (100, 50) the cumulative thresholds are 0.1, 0.15, 0.2 and 0.25,
    // and each draw below lands in the band of the next event class in
    // priority order; the last draw lies beyond every threshold.
    let params = LotkaVolterraParams {
        alpha: 10_000,
        beta: 100,
        gamma: 100,
        delta: 10_000,
        dt: 100_000,
        n: 5,
        initial_prey: 100,
        initial_predator: 50,
        clamp_at_zero: false,
    };
    // Draws as fixed-point fractions of the unit interval.
    let draws = vec![50_000, 120_000, 180_000, 220_000, 900_000];

    let result = solve_stochastic_with_draws(&params, &draws);

    let expected: Vec<PhasePoint> = [
        (100, 50), // initial point
        (101, 50), // prey birth
        (101, 49), // predator death
        (100, 49), // prey death
        (100, 50), // predator birth
        (100, 50), // no event
    ]
    .iter()
    .map(|&(prey, predator)| PhasePoint { prey, predator })
    .collect();
    assert_eq!(result, expected);
}

#[test]
fn test_with_draws_is_reproducible() {
    let params = LotkaVolterraParams {
        alpha: 100_000,
        beta: 20_000,
        gamma: 20_000,
        delta: 100_000,
        dt: 10_000,
        n: 250,
        initial_prey: 100,
        initial_predator: 50,
        clamp_at_zero: false,
    };
    let draws = fixed_draws(250);
    let first = solve_stochastic_with_draws(&params, &draws);
    let second = solve_stochastic_with_draws(&params, &draws);
    assert_eq!(first, second);
}

#[test]
fn test_death_band_empty_at_zero_population() {
    // With no predators the predator-death band collapses (its threshold
    // equals the prey-birth threshold), so the predator count never crosses
    // zero from a non-negative start: a draw inside the former band fires
    // prey birth instead.
    let params = LotkaVolterraParams {
        alpha: 10_000,
        beta: 0,
        gamma: 0,
        delta: 1_000_000,
        dt: 1_000_000,
        n: 1,
        initial_prey: 10,
        initial_predator: 0,
        clamp_at_zero: false,
    };
    // 0.5 is beyond the prey-birth threshold 0.01 * 10 * 1.0 = 0.1, and the
    // predator-death band, despite delta = 1.0, is empty: no event fires.
    let result = solve_stochastic_with_draws(&params, &vec![500_000]);
    assert_eq!(
        result[1],
        PhasePoint {
            prey: 10,
            predator: 0
        }
    );
}

#[test]
fn test_negative_initial_population_is_recorded() {
    // A negative initial count is accepted and carried through unchanged
    // when no event fires.
    let params = LotkaVolterraParams {
        alpha: 0,
        beta: 0,
        gamma: 0,
        delta: 0,
        dt: 1_000_000,
        n: 2,
        initial_prey: 10,
        initial_predator: -2,
        clamp_at_zero: false,
    };
    let result = solve_stochastic_with_draws(&params, &vec![500_000, 500_000]);
    assert_eq!(
        result[2],
        PhasePoint {
            prey: 10,
            predator: -2
        }
    );
}

#[test]
fn test_clamp_at_zero_floors_population() {
    // Same run with clamping on: the negative count is raised to zero at
    // the first step.
    let params = LotkaVolterraParams {
        alpha: 0,
        beta: 0,
        gamma: 0,
        delta: 0,
        dt: 1_000_000,
        n: 2,
        initial_prey: 10,
        initial_predator: -2,
        clamp_at_zero: true,
    };
    let result = solve_stochastic_with_draws(&params, &vec![500_000, 500_000]);
    assert_eq!(
        result[0],
        PhasePoint {
            prey: 10,
            predator: -2
        }
    );
    assert_eq!(result[1], PhasePoint { prey: 10, predator: 0 });
    assert_eq!(result[2], PhasePoint { prey: 10, predator: 0 });
}
