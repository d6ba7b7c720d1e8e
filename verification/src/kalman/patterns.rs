//! Pattern-specific filters on the adaptive skeleton, and the factory
//! that maps a pattern id to its filter.
//!
//! Each pattern fixes its dimension, transition, observation row and
//! noise levels; everything is in fixed-point units.

use vstd::prelude::*;

use crate::fixed::{
    fadd64, fmul64, fneg64, fdiv64, fsub64, tdiv64, fp_add, fp_div, fp_ln, fp_ln_spec, fp_mul,
    fp_neg, fp_sub, div_trunc,
};
use crate::kalman::filter::{
    AdaptiveKalmanFilter, predict_x_fun, predict_p_fun, s_fun, update_x_fun, update_p_fun,
    window_after_fun,
};
use crate::kalman::matrix::at2;
use crate::types::Regime;

verus! {

/// Why a filter operation was refused.
#[derive(Clone, Copy, Debug, PartialEq, Eq, Structural)]
pub enum FilterError {
    /// The pattern id has no registered filter.
    UnsupportedPattern,
    /// A partial update carried no usable observation.
    NoValidObservation,
}

/// Half-time line inference lag. State
/// `[ft_position, velocity, ht_influence]`; the half-time influence is
/// coupled into the velocity and decays at 0.95 per step.
pub struct HalfTimeInferenceKF {
    pub base: AdaptiveKalmanFilter,
    /// Fraction of a half-time move that propagates to the full-time
    /// line: 0.7.
    pub propagation_coef: i64,
}

impl HalfTimeInferenceKF {
    pub open spec fn wf(&self) -> bool {
        self.base.wf() && self.base.state_dim == 3
    }

    /// The transition matrix this pattern uses for time step `dt`.
    pub open spec fn f_spec(dt: i64) -> Seq<i64> {
        seq![
            1_000_000i64, dt, tdiv64(fmul64(dt, dt), 2i64),
            0i64, 1_000_000i64, dt,
            0i64, 0i64, 950_000i64,
        ]
    }

    pub fn new(dt: i64) -> (r: Self)
        ensures
            r.wf(),
            r.base.dt == dt,
            r.base.f@ == Self::f_spec(dt),
            r.base.h@ == seq![1_000_000i64, 0i64, 0i64],
            forall|i: int| 0 <= i < 3 ==> r.base.x@[i] == 0i64,
            forall|i: int, j: int| 0 <= i < 3 && 0 <= j < 3
                ==> at2(r.base.p@, 3, i, j) == if i == j { 100_000_000i64 } else { 0i64 },
            forall|i: int, j: int| 0 <= i < 3 && 0 <= j < 3
                ==> at2(r.base.q_quiet@, 3, i, j) == if i == j {
                    if i == 2 { 10_000i64 } else { 1_000i64 }
                } else {
                    0i64
                },
            at2(r.base.q_steam@, 3, 2, 2) == 500_000i64,
            r.base.r == 50_000i64,
            r.base.current_regime == Regime::Quiet,
            r.base.velocity_window@ == Seq::<i64>::empty(),
            r.propagation_coef == 700_000i64,
    {
        let mut base = AdaptiveKalmanFilter::new(dt, 3);
        let hdt2 = div_trunc(fp_mul(dt, dt), 2);
        let mut f: Vec<i64> = Vec::new();
        f.push(1_000_000);
        f.push(dt);
        f.push(hdt2);
        f.push(0);
        f.push(1_000_000);
        f.push(dt);
        f.push(0);
        f.push(0);
        f.push(950_000);
        proof {
            assert(f@ =~= Self::f_spec(dt));
        }
        base.f = f;
        let mut h: Vec<i64> = Vec::new();
        h.push(1_000_000);
        h.push(0);
        h.push(0);
        proof {
            assert(h@ =~= seq![1_000_000i64, 0i64, 0i64]);
        }
        base.h = h;
        let ghost q_before = base.q_quiet@;
        base.q_quiet.set(8, 10_000);
        base.q_steam.set(8, 500_000);
        proof {
            assert forall|i: int, j: int| 0 <= i < 3 && 0 <= j < 3
                implies at2(base.q_quiet@, 3, i, j) == if i == j {
                    if i == 2 { 10_000i64 } else { 1_000i64 }
                } else {
                    0i64
                } by {
                if i * 3 + j != 8 {
                    assert(at2(base.q_quiet@, 3, i, j) == at2(q_before, 3, i, j));
                } else {
                    assert(i == 2 && j == 2) by (nonlinear_arith)
                        requires 0 <= i < 3, 0 <= j < 3, i * 3 + j == 8;
                }
            }
        }
        HalfTimeInferenceKF { base, propagation_coef: 700_000 }
    }

    /// Fold a half-time delta and a full-time observation into the
    /// filter: the half-time influence component is set to
    /// `ht_delta * 0.7`, the full-time price drives a measurement
    /// update, and the new velocity feeds regime detection.
    pub fn update_with_both_markets(&mut self, ht_delta: i64, ft_price: i64) -> (applied: bool)
        requires
            old(self).wf(),
        ensures
            final(self).wf(),
            ({
                let o = old(self).base;
                let x1 = o.x@.update(2, fmul64(ht_delta, old(self).propagation_coef));
                let applied_spec = s_fun(o.p@, o.h@, o.r, 3) > 0;
                let x2 = if applied_spec {
                    update_x_fun(o.p@, o.h@, o.r, x1, ft_price, 3)
                } else {
                    x1
                };
                &&& applied == applied_spec
                &&& final(self).base.x@ == x2
                &&& final(self).base.p@ == if applied_spec {
                    update_p_fun(o.p@, o.h@, o.r, 3)
                } else {
                    o.p@
                }
                &&& final(self).base.velocity_window@ == window_after_fun(
                    o.velocity_window@,
                    o.regime_window_size as int,
                    crate::fixed::sat64(crate::fixed::mag_spec(x2[1] as int)) as i64,
                )
                &&& final(self).propagation_coef == old(self).propagation_coef
                &&& final(self).base.f@ == o.f@
                &&& final(self).base.h@ == o.h@
            }),
    {
        let influence = fp_mul(ht_delta, self.propagation_coef);
        self.base.x.set(2, influence);
        let applied = self.base.update(ft_price);
        let velocity = self.base.x[1];
        self.base.detect_regime(velocity);
        applied
    }

    /// Predicted full-time total: position plus half-time influence.
    pub fn predict_ft_total(&self) -> (r: i64)
        requires
            self.wf(),
        ensures
            r == fadd64(self.base.x@[0], self.base.x@[2]),
    {
        fp_add(self.base.x[0], self.base.x[2])
    }

    /// Regime, velocity and half-time influence in one read.
    pub fn get_regime_info(&self) -> (r: (Regime, i64, i64))
        requires
            self.wf(),
        ensures
            r.0 == self.base.current_regime,
            r.1 == self.base.x@[1],
            r.2 == self.base.x@[2],
    {
        (self.base.current_regime, self.base.x[1], self.base.x[2])
    }

    /// Copy of the three state components.
    pub fn get_state_vector(&self) -> (r: Vec<i64>)
        requires
            self.wf(),
        ensures
            r@ == self.base.x@,
    {
        self.base.state_snapshot()
    }
}

/// Steam propagation path over the causal chain moneyline → spread →
/// total → props. One state component per market; observations arrive
/// per market and are folded in one at a time with per-market
/// observation noise.
pub struct PropagationPathKF {
    pub base: AdaptiveKalmanFilter,
    /// Observation noise per market index.
    pub obs_noise: Vec<i64>,
}

/// The four markets on the propagation path, in causal order.
#[derive(Clone, Copy, Debug, PartialEq, Eq, Structural)]
pub enum PathMarket {
    Moneyline,
    Spread,
    Total,
    Props,
}

impl PathMarket {
    pub open spec fn index_spec(&self) -> int {
        match self {
            PathMarket::Moneyline => 0,
            PathMarket::Spread => 1,
            PathMarket::Total => 2,
            PathMarket::Props => 3,
        }
    }

    pub fn index(&self) -> (r: usize)
        ensures
            r == self.index_spec(),
            r < 4,
    {
        match self {
            PathMarket::Moneyline => 0,
            PathMarket::Spread => 1,
            PathMarket::Total => 2,
            PathMarket::Props => 3,
        }
    }
}

/// A unit observation row: one unit at `idx`, zero elsewhere.
pub open spec fn unit_row(n: int, idx: int) -> Seq<i64> {
    Seq::new(n as nat, |j: int| if j == idx { 1_000_000i64 } else { 0i64 })
}

/// One sequential scalar update of the propagation filter: state and
/// covariance after folding in price `z` for market `idx`.
pub open spec fn path_step(
    x: Seq<i64>,
    p: Seq<i64>,
    noise: Seq<i64>,
    idx: int,
    z: i64,
) -> (Seq<i64>, Seq<i64>) {
    let h = unit_row(4, idx);
    let r = noise[idx];
    if s_fun(p, h, r, 4) > 0 {
        (update_x_fun(p, h, r, x, z, 4), update_p_fun(p, h, r, 4))
    } else {
        (x, p)
    }
}

/// Folding a whole list of `(market, price)` observations, in order.
pub open spec fn path_fold(
    x: Seq<i64>,
    p: Seq<i64>,
    noise: Seq<i64>,
    obs: Seq<(PathMarket, i64)>,
) -> (Seq<i64>, Seq<i64>)
    decreases obs.len(),
{
    if obs.len() == 0 {
        (x, p)
    } else {
        let stepped = path_step(x, p, noise, obs[0].0.index_spec(), obs[0].1);
        path_fold(stepped.0, stepped.1, noise, obs.subrange(1, obs.len() as int))
    }
}

impl PropagationPathKF {
    pub open spec fn wf(&self) -> bool {
        self.base.wf() && self.base.state_dim == 4 && self.obs_noise.len() == 4
    }

    /// The causal transition matrix: each market inherits a fixed
    /// fraction of its parent's move (30%, 20%, 10% down the chain).
    pub open spec fn f_spec(dt: i64) -> Seq<i64> {
        seq![
            1_000_000i64, dt, 0i64, 0i64,
            300_000i64, 1_000_000i64, dt, 0i64,
            0i64, 200_000i64, 1_000_000i64, dt,
            0i64, 0i64, 100_000i64, 1_000_000i64,
        ]
    }

    pub fn new(dt: i64) -> (r: Self)
        ensures
            r.wf(),
            r.base.dt == dt,
            r.base.f@ == Self::f_spec(dt),
            r.obs_noise@ == seq![10_000i64, 20_000i64, 50_000i64, 100_000i64],
            forall|i: int| 0 <= i < 4 ==> r.base.x@[i] == 0i64,
            forall|i: int| 0 <= i < 4 ==> r.base.h@[i] == 0i64,
            forall|i: int, j: int| 0 <= i < 4 && 0 <= j < 4
                ==> at2(r.base.p@, 4, i, j) == if i == j { 100_000_000i64 } else { 0i64 },
            r.base.r == 50_000i64,
            forall|i: int, j: int| 0 <= i < 4 && 0 <= j < 4
                ==> at2(r.base.q_steam@, 4, i, j) == if i == j { 500_000i64 } else { 0i64 },
            forall|i: int, j: int| 0 <= i < 4 && 0 <= j < 4
                ==> at2(r.base.q_quiet@, 4, i, j) == if i == j { 5_000i64 } else { 0i64 },
            r.base.current_regime == Regime::Quiet,
    {
        let mut base = AdaptiveKalmanFilter::new(dt, 4);
        let mut f: Vec<i64> = Vec::new();
        f.push(1_000_000);
        f.push(dt);
        f.push(0);
        f.push(0);
        f.push(300_000);
        f.push(1_000_000);
        f.push(dt);
        f.push(0);
        f.push(0);
        f.push(200_000);
        f.push(1_000_000);
        f.push(dt);
        f.push(0);
        f.push(0);
        f.push(100_000);
        f.push(1_000_000);
        proof {
            assert(f@ =~= Self::f_spec(dt));
        }
        base.f = f;
        base.q_steam = crate::kalman::matrix::mat_diag(4, 500_000);
        base.q_quiet = crate::kalman::matrix::mat_diag(4, 5_000);
        let mut noise: Vec<i64> = Vec::new();
        noise.push(10_000);
        noise.push(20_000);
        noise.push(50_000);
        noise.push(100_000);
        proof {
            assert(noise@ =~= seq![10_000i64, 20_000i64, 50_000i64, 100_000i64]);
        }
        PropagationPathKF { base, obs_noise: noise }
    }

    /// Fold in the markets that were actually observed, one scalar
    /// update each, in the order given. Fails if the list is empty.
    pub fn update_partial_observation(&mut self, observed: &Vec<(PathMarket, i64)>)
        -> (r: Result<(), FilterError>)
        requires
            old(self).wf(),
        ensures
            final(self).wf(),
            r == if observed@.len() == 0 {
                Err::<(), FilterError>(FilterError::NoValidObservation)
            } else {
                Ok::<(), FilterError>(())
            },
            ({
                let folded = path_fold(
                    old(self).base.x@, old(self).base.p@, old(self).obs_noise@, observed@);
                &&& final(self).base.x@ == folded.0
                &&& final(self).base.p@ == folded.1
            }),
            final(self).obs_noise@ == old(self).obs_noise@,
            final(self).base.f@ == old(self).base.f@,
            final(self).base.current_regime == old(self).base.current_regime,
            final(self).base.velocity_window@ == old(self).base.velocity_window@,
    {
        proof {
            assert(observed@.subrange(0, observed@.len() as int) =~= observed@);
        }
        if observed.len() == 0 {
            proof {
                assert(path_fold(
                    old(self).base.x@, old(self).base.p@, old(self).obs_noise@, observed@)
                    == (old(self).base.x@, old(self).base.p@));
            }
            return Err(FilterError::NoValidObservation);
        }
        let mut k: usize = 0;
        while k < observed.len()
            invariant
                self.wf(),
                k <= observed.len(),
                self.obs_noise@ == old(self).obs_noise@,
                self.base.f@ == old(self).base.f@,
                self.base.dt == old(self).base.dt,
                self.base.state_dim == 4,
                self.base.current_regime == old(self).base.current_regime,
                self.base.velocity_window@ == old(self).base.velocity_window@,
                self.base.velocity_threshold == old(self).base.velocity_threshold,
                self.base.regime_window_size == old(self).base.regime_window_size,
                path_fold(
                    old(self).base.x@, old(self).base.p@, old(self).obs_noise@, observed@)
                    == path_fold(
                        self.base.x@, self.base.p@, self.obs_noise@,
                        observed@.subrange(k as int, observed@.len() as int)),
            decreases observed.len() - k,
        {
            let (market, price) = observed[k];
            let idx = market.index();
            let mut h: Vec<i64> = Vec::new();
            let mut j: usize = 0;
            while j < 4
                invariant
                    j <= 4,
                    h.len() == j,
                    idx == market.index_spec(),
                    forall|j2: int| 0 <= j2 < j
                        ==> h@[j2] == if j2 == idx { 1_000_000i64 } else { 0i64 },
                decreases 4 - j,
            {
                let v: i64 = if j == idx {
                    1_000_000
                } else {
                    0
                };
                h.push(v);
                j = j + 1;
            }
            proof {
                assert(h@ =~= unit_row(4, idx as int));
            }
            let ghost pre_x = self.base.x@;
            let ghost pre_p = self.base.p@;
            self.base.h = h;
            self.base.r = self.obs_noise[idx];
            let _ = self.base.update(price);
            proof {
                let stepped = path_step(pre_x, pre_p, self.obs_noise@, idx as int, price);
                assert(self.base.x@ == stepped.0);
                assert(self.base.p@ == stepped.1);
                let rest = observed@.subrange(k as int, observed@.len() as int);
                assert(rest[0] == observed@[k as int]);
                assert(rest.subrange(1, rest.len() as int)
                    =~= observed@.subrange(k as int + 1, observed@.len() as int));
            }
            k = k + 1;
        }
        proof {
            assert(observed@.subrange(observed@.len() as int, observed@.len() as int)
                =~= Seq::<(PathMarket, i64)>::empty());
        }
        Ok(())
    }

    /// Crude propagation delay between two markets: covariance between
    /// them over the source's velocity proxy, floored at 0.1.
    pub fn get_propagation_delay(&self, from: PathMarket, to: PathMarket) -> (r: i64)
        requires
            self.wf(),
        ensures
            r == Self::delay_spec(self.base.p@, self.base.x@, from, to),
    {
        let fi = from.index();
        let ti = to.index();
        let cov = self.base.p[fi * 4 + ti];
        let vel: i64 = if fi + 1 < 4 {
            self.base.x[fi + 1]
        } else {
            100_000
        };
        let denom = fp_add(vel, 1);
        let q: i64 = if denom > 0 {
            fp_div(cov, denom)
        } else if denom < 0 {
            let nd = fp_neg(denom);
            fp_div(fp_neg(cov), nd)
        } else {
            100_000
        };
        if q >= 100_000 {
            q
        } else {
            100_000
        }
    }

    /// What `get_propagation_delay` returns, as a formula over the
    /// covariance and state.
    pub open spec fn delay_spec(p: Seq<i64>, x: Seq<i64>, from: PathMarket, to: PathMarket)
        -> i64 {
        let fi = from.index_spec();
        let ti = to.index_spec();
        let cov = at2(p, 4, fi, ti);
        let vel = if fi + 1 < 4 {
            x[fi + 1]
        } else {
            100_000i64
        };
        let denom = fadd64(vel, 1i64);
        let q = if denom > 0 {
            fdiv64(cov, denom)
        } else if denom < 0 {
            fdiv64(fneg64(cov), fneg64(denom))
        } else {
            100_000i64
        };
        if q >= 100_000 {
            q
        } else {
            100_000i64
        }
    }

    /// Copy of the four market positions.
    pub fn get_market_positions(&self) -> (r: Vec<i64>)
        requires
            self.wf(),
        ensures
            r@ == self.base.x@,
    {
        self.base.state_snapshot()
    }
}

/// In-play velocity convexity: late-game acceleration. State
/// `[position, velocity, acceleration, time_remaining]`; when time is
/// running out the transition couples `-k / time_remaining` from the
/// clock into the acceleration.
pub struct VelocityConvexityKF {
    pub base: AdaptiveKalmanFilter,
    /// Acceleration coefficient: 0.5 points/s² late in the game.
    pub accel_coefficient: i64,
}

impl VelocityConvexityKF {
    pub open spec fn wf(&self) -> bool {
        self.base.wf() && self.base.state_dim == 4
    }

    pub open spec fn f_spec(dt: i64) -> Seq<i64> {
        seq![
            1_000_000i64, dt, tdiv64(fmul64(dt, dt), 2i64), 0i64,
            0i64, 1_000_000i64, dt, 0i64,
            0i64, 0i64, 1_000_000i64, 0i64,
            0i64, 0i64, 0i64, 1_000_000i64,
        ]
    }

    pub fn new(dt: i64) -> (r: Self)
        ensures
            r.wf(),
            r.base.dt == dt,
            r.base.f@ == Self::f_spec(dt),
            r.base.h@ == seq![1_000_000i64, 0i64, 0i64, 0i64],
            forall|i: int| 0 <= i < 4 ==> r.base.x@[i] == 0i64,
            forall|i: int, j: int| 0 <= i < 4 && 0 <= j < 4
                ==> at2(r.base.p@, 4, i, j) == if i == j { 100_000_000i64 } else { 0i64 },
            forall|i: int, j: int| 0 <= i < 4 && 0 <= j < 4
                ==> at2(r.base.q_quiet@, 4, i, j) == if i == j { 1_000i64 } else { 0i64 },
            at2(r.base.q_steam@, 4, 2, 2) == 1_000_000i64,
            r.base.r == 50_000i64,
            r.accel_coefficient == 500_000i64,
            r.base.current_regime == Regime::Quiet,
    {
        let mut base = AdaptiveKalmanFilter::new(dt, 4);
        let hdt2 = div_trunc(fp_mul(dt, dt), 2);
        let mut f: Vec<i64> = Vec::new();
        f.push(1_000_000);
        f.push(dt);
        f.push(hdt2);
        f.push(0);
        f.push(0);
        f.push(1_000_000);
        f.push(dt);
        f.push(0);
        f.push(0);
        f.push(0);
        f.push(1_000_000);
        f.push(0);
        f.push(0);
        f.push(0);
        f.push(0);
        f.push(1_000_000);
        proof {
            assert(f@ =~= Self::f_spec(dt));
        }
        base.f = f;
        let mut h: Vec<i64> = Vec::new();
        h.push(1_000_000);
        h.push(0);
        h.push(0);
        h.push(0);
        proof {
            assert(h@ =~= seq![1_000_000i64, 0i64, 0i64, 0i64]);
        }
        base.h = h;
        base.q_steam.set(10, 1_000_000);
        VelocityConvexityKF { base, accel_coefficient: 500_000 }
    }

    /// Predict after injecting the time remaining: the clock becomes
    /// the fourth state component, and when positive it feeds
    /// `-k / time_remaining` into the acceleration coupling.
    pub fn predict_with_time(&mut self, time_remaining: i64)
        requires
            old(self).wf(),
        ensures
            final(self).wf(),
            ({
                let o = old(self).base;
                let f1 = if time_remaining > 0 {
                    o.f@.update(11, fneg64(fdiv64(old(self).accel_coefficient, time_remaining)))
                } else {
                    o.f@
                };
                let x1 = o.x@.update(3, time_remaining);
                &&& final(self).base.f@ == f1
                &&& final(self).base.x@ == predict_x_fun(f1, x1, 4)
                &&& final(self).base.p@ == predict_p_fun(
                    f1,
                    o.p@,
                    if o.current_regime == Regime::Steam { o.q_steam@ } else { o.q_quiet@ },
                    4,
                )
            }),
            final(self).accel_coefficient == old(self).accel_coefficient,
            final(self).base.current_regime == old(self).base.current_regime,
    {
        self.base.x.set(3, time_remaining);
        if time_remaining > 0 {
            let coupling = fp_neg(fp_div(self.accel_coefficient, time_remaining));
            self.base.f.set(11, coupling);
        }
        self.base.predict();
    }

    /// Late-game opportunity: with under five minutes on the clock,
    /// project the position five seconds ahead; it is actionable only
    /// when the position variance is below 0.01.
    pub fn detect_late_game_opportunity(&self) -> (r: Option<i64>)
        requires
            self.wf(),
        ensures
            r == Self::late_game_spec(self.base.x@, self.base.p@),
    {
        let time_remaining = self.base.x[3];
        if time_remaining < 300_000_000 {
            let pred = fp_add(
                self.base.x[0],
                fp_add(
                    fp_mul(self.base.x[1], 5_000_000),
                    fp_mul(self.base.x[2], 12_500_000),
                ),
            );
            let variance = self.base.p[0];
            if variance < 10_000 {
                return Some(pred);
            }
            return None;
        }
        None
    }

    /// What `detect_late_game_opportunity` returns.
    pub open spec fn late_game_spec(x: Seq<i64>, p: Seq<i64>) -> Option<i64> {
        if x[3] < 300_000_000 && at2(p, 4, 0, 0) < 10_000 {
            Some(fadd64(x[0], fadd64(fmul64(x[1], 5_000_000i64), fmul64(x[2], 12_500_000i64))))
        } else {
            None
        }
    }

    /// Position, velocity and acceleration.
    pub fn get_convexity_metrics(&self) -> (r: (i64, i64, i64))
        requires
            self.wf(),
        ensures
            r.0 == self.base.x@[0],
            r.1 == self.base.x@[1],
            r.2 == self.base.x@[2],
    {
        (self.base.x[0], self.base.x[1], self.base.x[2])
    }
}

/// Micro-suspension window. State `[p_active, suspension_flag]` with a
/// near-absorbing transition; the observation is a cross-book binary
/// suspension sensor.
pub struct MicroSuspensionKF {
    pub base: AdaptiveKalmanFilter,
    /// Probability above which suspension counts as imminent: 0.95.
    pub suspension_threshold: i64,
}

impl MicroSuspensionKF {
    pub open spec fn wf(&self) -> bool {
        self.base.wf() && self.base.state_dim == 2
    }

    pub fn new(dt: i64) -> (r: Self)
        ensures
            r.wf(),
            r.base.dt == dt,
            r.base.f@ == seq![999_000i64, 1_000i64, 0i64, 1_000_000i64],
            r.base.h@ == seq![0i64, 1_000_000i64],
            r.base.r == 1_000i64,
            forall|i: int| 0 <= i < 2 ==> r.base.x@[i] == 0i64,
            forall|i: int, j: int| 0 <= i < 2 && 0 <= j < 2
                ==> at2(r.base.p@, 2, i, j) == if i == j { 100_000_000i64 } else { 0i64 },
            forall|i: int, j: int| 0 <= i < 2 && 0 <= j < 2
                ==> at2(r.base.q_quiet@, 2, i, j) == if i == j { 1_000i64 } else { 0i64 },
            r.suspension_threshold == 950_000i64,
            r.base.current_regime == Regime::Quiet,
    {
        let mut base = AdaptiveKalmanFilter::new(dt, 2);
        let mut f: Vec<i64> = Vec::new();
        f.push(999_000);
        f.push(1_000);
        f.push(0);
        f.push(1_000_000);
        proof {
            assert(f@ =~= seq![999_000i64, 1_000i64, 0i64, 1_000_000i64]);
        }
        base.f = f;
        let mut h: Vec<i64> = Vec::new();
        h.push(0);
        h.push(1_000_000);
        proof {
            assert(h@ =~= seq![0i64, 1_000_000i64]);
        }
        base.h = h;
        base.r = 1_000;
        MicroSuspensionKF { base, suspension_threshold: 950_000 }
    }

    /// Fold in a cross-book status observation: one unit when any book
    /// is suspended, zero otherwise.
    pub fn update_status(&mut self, is_any_suspended: bool) -> (applied: bool)
        requires
            old(self).wf(),
        ensures
            final(self).wf(),
            ({
                let o = old(self).base;
                let z: i64 = if is_any_suspended { 1_000_000i64 } else { 0i64 };
                let applied_spec = s_fun(o.p@, o.h@, o.r, 2) > 0;
                &&& applied == applied_spec
                &&& final(self).base.x@ == if applied_spec {
                    update_x_fun(o.p@, o.h@, o.r, o.x@, z, 2)
                } else {
                    o.x@
                }
                &&& final(self).base.p@ == if applied_spec {
                    update_p_fun(o.p@, o.h@, o.r, 2)
                } else {
                    o.p@
                }
            }),
            final(self).suspension_threshold == old(self).suspension_threshold,
    {
        let z: i64 = if is_any_suspended {
            1_000_000
        } else {
            0
        };
        self.base.update(z)
    }

    /// Estimated arbitrage window before the market freezes, in
    /// fixed-point milliseconds: `-ln(p_active) * 500 ms`, zero when
    /// suspension is not yet probable.
    pub fn get_arbitrage_window(&self) -> (r: i64)
        requires
            self.wf(),
        ensures
            r == Self::window_spec(self.base.x@),
    {
        let suspension_prob = self.base.x[1];
        if suspension_prob < 500_000 {
            return 0;
        }
        let p_active = fp_sub(1_000_000, suspension_prob);
        if p_active > 0 {
            let w = fp_mul(fp_neg(fp_ln(p_active)), 500_000_000);
            if w >= 0 {
                w
            } else {
                0
            }
        } else {
            0
        }
    }

    /// What `get_arbitrage_window` returns.
    pub open spec fn window_spec(x: Seq<i64>) -> i64 {
        let suspension_prob = x[1];
        if suspension_prob < 500_000 {
            0i64
        } else {
            let p_active = fsub64(1_000_000i64, suspension_prob);
            if p_active > 0 {
                let w = fmul64(fneg64(fp_ln_spec(p_active)), 500_000_000i64);
                if w >= 0 {
                    w
                } else {
                    0i64
                }
            } else {
                0i64
            }
        }
    }

    /// Whether suspension is imminent.
    pub fn is_suspension_imminent(&self) -> (r: bool)
        requires
            self.wf(),
        ensures
            r == (self.base.x@[1] > self.suspension_threshold),
    {
        self.base.x[1] > self.suspension_threshold
    }
}

/// A pattern filter, as a tagged variant with a shared surface.
pub enum PatternFilter {
    HtInference(HalfTimeInferenceKF),
    Propagation(PropagationPathKF),
    VelocityConvexity(VelocityConvexityKF),
    MicroSuspension(MicroSuspensionKF),
}

impl PatternFilter {
    pub open spec fn wf(&self) -> bool {
        match self {
            PatternFilter::HtInference(kf) => kf.wf(),
            PatternFilter::Propagation(kf) => kf.wf(),
            PatternFilter::VelocityConvexity(kf) => kf.wf(),
            PatternFilter::MicroSuspension(kf) => kf.wf(),
        }
    }

    pub open spec fn base_spec(&self) -> AdaptiveKalmanFilter {
        match self {
            PatternFilter::HtInference(kf) => kf.base,
            PatternFilter::Propagation(kf) => kf.base,
            PatternFilter::VelocityConvexity(kf) => kf.base,
            PatternFilter::MicroSuspension(kf) => kf.base,
        }
    }

    /// Predict step of whichever filter this is.
    pub fn predict(&mut self)
        requires
            old(self).wf(),
        ensures
            final(self).wf(),
            final(self).base_spec().x@ == old(self).base_spec().predict_x_spec(),
            final(self).base_spec().p@ == old(self).base_spec().predict_p_spec(),
            final(self).base_spec().f@ == old(self).base_spec().f@,
            final(self).base_spec().h@ == old(self).base_spec().h@,
            final(self).base_spec().q_quiet@ == old(self).base_spec().q_quiet@,
            final(self).base_spec().q_steam@ == old(self).base_spec().q_steam@,
            final(self).base_spec().r == old(self).base_spec().r,
            final(self).base_spec().state_dim == old(self).base_spec().state_dim,
            final(self).base_spec().current_regime == old(self).base_spec().current_regime,
    {
        match self {
            PatternFilter::HtInference(kf) => kf.base.predict(),
            PatternFilter::Propagation(kf) => kf.base.predict(),
            PatternFilter::VelocityConvexity(kf) => kf.base.predict(),
            PatternFilter::MicroSuspension(kf) => kf.base.predict(),
        }
    }

    /// Scalar measurement update of whichever filter this is.
    pub fn update(&mut self, z: i64) -> (applied: bool)
        requires
            old(self).wf(),
        ensures
            final(self).wf(),
            applied == (old(self).base_spec().s_spec() > 0),
            applied ==> final(self).base_spec().x@ == old(self).base_spec().update_x_spec(z),
            applied ==> final(self).base_spec().p@ == old(self).base_spec().update_p_spec(),
            !applied ==> final(self).base_spec().x@ == old(self).base_spec().x@
                && final(self).base_spec().p@ == old(self).base_spec().p@,
            final(self).base_spec().f@ == old(self).base_spec().f@,
            final(self).base_spec().h@ == old(self).base_spec().h@,
            final(self).base_spec().q_quiet@ == old(self).base_spec().q_quiet@,
            final(self).base_spec().q_steam@ == old(self).base_spec().q_steam@,
            final(self).base_spec().r == old(self).base_spec().r,
            final(self).base_spec().state_dim == old(self).base_spec().state_dim,
            final(self).base_spec().current_regime == old(self).base_spec().current_regime,
    {
        match self {
            PatternFilter::HtInference(kf) => kf.base.update(z),
            PatternFilter::Propagation(kf) => kf.base.update(z),
            PatternFilter::VelocityConvexity(kf) => kf.base.update(z),
            PatternFilter::MicroSuspension(kf) => kf.base.update(z),
        }
    }

    /// Current regime.
    pub fn regime(&self) -> (r: Regime)
        ensures
            r == self.base_spec().current_regime,
    {
        match self {
            PatternFilter::HtInference(kf) => kf.base.regime(),
            PatternFilter::Propagation(kf) => kf.base.regime(),
            PatternFilter::VelocityConvexity(kf) => kf.base.regime(),
            PatternFilter::MicroSuspension(kf) => kf.base.regime(),
        }
    }

    /// Position variance.
    pub fn position_uncertainty(&self) -> (r: i64)
        requires
            self.wf(),
        ensures
            r == at2(self.base_spec().p@, self.base_spec().state_dim as int, 0, 0),
    {
        match self {
            PatternFilter::HtInference(kf) => kf.base.get_position_uncertainty(),
            PatternFilter::Propagation(kf) => kf.base.get_position_uncertainty(),
            PatternFilter::VelocityConvexity(kf) => kf.base.get_position_uncertainty(),
            PatternFilter::MicroSuspension(kf) => kf.base.get_position_uncertainty(),
        }
    }

    /// Copy of the state vector.
    pub fn state_snapshot(&self) -> (r: Vec<i64>)
        requires
            self.wf(),
        ensures
            r@ == self.base_spec().x@,
    {
        match self {
            PatternFilter::HtInference(kf) => kf.base.state_snapshot(),
            PatternFilter::Propagation(kf) => kf.base.state_snapshot(),
            PatternFilter::VelocityConvexity(kf) => kf.base.state_snapshot(),
            PatternFilter::MicroSuspension(kf) => kf.base.state_snapshot(),
        }
    }
}

/// The state dimension each pattern uses.
pub open spec fn pattern_dim(pattern_id: u16) -> int {
    if pattern_id == 51 {
        3
    } else if pattern_id == 68 || pattern_id == 75 {
        4
    } else {
        2
    }
}

/// A zero state vector.
pub open spec fn zero_x(n: int) -> Seq<i64> {
    Seq::new(n as nat, |i: int| 0i64)
}

/// A diagonal matrix as a flat row-major sequence.
pub open spec fn diag_mat(n: int, c: i64) -> Seq<i64> {
    crate::kalman::matrix::seq2(n, |i: int, j: int| if i == j { c } else { 0i64 })
}

/// Each pattern's transition matrix for a time step.
pub open spec fn pattern_f(pattern_id: u16, dt: i64) -> Seq<i64> {
    if pattern_id == 51 {
        HalfTimeInferenceKF::f_spec(dt)
    } else if pattern_id == 68 {
        PropagationPathKF::f_spec(dt)
    } else if pattern_id == 75 {
        VelocityConvexityKF::f_spec(dt)
    } else {
        seq![999_000i64, 1_000i64, 0i64, 1_000_000i64]
    }
}

/// Each pattern's observation row.
pub open spec fn pattern_h(pattern_id: u16) -> Seq<i64> {
    if pattern_id == 51 {
        seq![1_000_000i64, 0i64, 0i64]
    } else if pattern_id == 68 {
        zero_x(4)
    } else if pattern_id == 75 {
        seq![1_000_000i64, 0i64, 0i64, 0i64]
    } else {
        seq![0i64, 1_000_000i64]
    }
}

/// Each pattern's quiet-regime process noise.
pub open spec fn pattern_q_quiet(pattern_id: u16) -> Seq<i64> {
    if pattern_id == 51 {
        crate::kalman::matrix::seq2(
            3,
            |i: int, j: int| if i == j {
                if i == 2 { 10_000i64 } else { 1_000i64 }
            } else {
                0i64
            },
        )
    } else if pattern_id == 68 {
        diag_mat(4, 5_000)
    } else if pattern_id == 75 {
        diag_mat(4, 1_000)
    } else {
        diag_mat(2, 1_000)
    }
}

/// Each pattern's scalar observation noise.
pub open spec fn pattern_r(pattern_id: u16) -> i64 {
    if pattern_id == 56 {
        1_000i64
    } else {
        50_000i64
    }
}

/// Registry from pattern id to filter constructor.
pub struct KalmanFilterFactory;

impl KalmanFilterFactory {
    /// Create the filter for a pattern id: 51 half-time inference, 68
    /// propagation path, 75 velocity convexity, 56 micro-suspension.
    /// Every other id is unsupported.
    pub fn create_filter(pattern_id: u16, dt: i64) -> (r: Result<PatternFilter, FilterError>)
        ensures
            (pattern_id == 51 || pattern_id == 68 || pattern_id == 75 || pattern_id == 56)
                == r.is_ok(),
            r.is_err() ==> r == Err::<PatternFilter, FilterError>(FilterError::UnsupportedPattern),
            r is Ok ==> (r->Ok_0).wf(),
            pattern_id == 51 ==> (r->Ok_0) is HtInference,
            pattern_id == 68 ==> (r->Ok_0) is Propagation,
            pattern_id == 75 ==> (r->Ok_0) is VelocityConvexity,
            pattern_id == 56 ==> (r->Ok_0) is MicroSuspension,
            r is Ok ==> ({
                let b = (r->Ok_0).base_spec();
                &&& b.state_dim == pattern_dim(pattern_id)
                &&& b.x@ == zero_x(pattern_dim(pattern_id))
                &&& b.p@ == diag_mat(pattern_dim(pattern_id), 100_000_000)
                &&& b.f@ == pattern_f(pattern_id, dt)
                &&& b.h@ == pattern_h(pattern_id)
                &&& b.q_quiet@ == pattern_q_quiet(pattern_id)
                &&& b.r == pattern_r(pattern_id)
                &&& b.current_regime == Regime::Quiet
            }),
    {
        if pattern_id == 51 {
            let kf = HalfTimeInferenceKF::new(dt);
proof {
                assert(kf.base.x@ =~= zero_x(3));
                assert forall|kk: int| 0 <= kk < 9
                    implies kf.base.p@[kk] == diag_mat(3, 100_000_000)[kk] by {
                    crate::kalman::matrix::lemma_flat_index(3, kk);
                    assert(at2(kf.base.p@, 3, kk / 3, kk % 3)
                        == if kk / 3 == kk % 3 { 100_000_000i64 } else { 0i64 });
                }
                assert(kf.base.p@ =~= diag_mat(3, 100_000_000));
                assert forall|kk: int| 0 <= kk < 9
                    implies kf.base.q_quiet@[kk] == pattern_q_quiet(51)[kk] by {
                    crate::kalman::matrix::lemma_flat_index(3, kk);
                    let ii = kk / 3;
                    let jj = kk % 3;
                    assert(at2(kf.base.q_quiet@, 3, ii, jj)
                        == if ii == jj { if ii == 2 { 10_000i64 } else { 1_000i64 } } else { 0i64 });
                }
                assert(kf.base.q_quiet@ =~= pattern_q_quiet(51));
                assert(kf.base.h@ =~= pattern_h(51));
                assert(kf.base.f@ =~= pattern_f(51, dt));
            }
            Ok(PatternFilter::HtInference(kf))
        } else if pattern_id == 68 {
            let kf = PropagationPathKF::new(dt);
proof {
                assert(kf.base.x@ =~= zero_x(4));
                assert forall|kk: int| 0 <= kk < 16
                    implies kf.base.p@[kk] == diag_mat(4, 100_000_000)[kk] by {
                    crate::kalman::matrix::lemma_flat_index(4, kk);
                    assert(at2(kf.base.p@, 4, kk / 4, kk % 4)
                        == if kk / 4 == kk % 4 { 100_000_000i64 } else { 0i64 });
                }
                assert(kf.base.p@ =~= diag_mat(4, 100_000_000));
                assert forall|kk: int| 0 <= kk < 16
                    implies kf.base.q_quiet@[kk] == pattern_q_quiet(68)[kk] by {
                    crate::kalman::matrix::lemma_flat_index(4, kk);
                    let ii = kk / 4;
                    let jj = kk % 4;
                    assert(at2(kf.base.q_quiet@, 4, ii, jj)
                        == if ii == jj { 5_000i64 } else { 0i64 });
                }
                assert(kf.base.q_quiet@ =~= pattern_q_quiet(68));
                assert(kf.base.h@ =~= pattern_h(68));
                assert(kf.base.f@ =~= pattern_f(68, dt));
            }
            Ok(PatternFilter::Propagation(kf))
        } else if pattern_id == 75 {
            let kf = VelocityConvexityKF::new(dt);
proof {
                assert(kf.base.x@ =~= zero_x(4));
                assert forall|kk: int| 0 <= kk < 16
                    implies kf.base.p@[kk] == diag_mat(4, 100_000_000)[kk] by {
                    crate::kalman::matrix::lemma_flat_index(4, kk);
                    assert(at2(kf.base.p@, 4, kk / 4, kk % 4)
                        == if kk / 4 == kk % 4 { 100_000_000i64 } else { 0i64 });
                }
                assert(kf.base.p@ =~= diag_mat(4, 100_000_000));
                assert forall|kk: int| 0 <= kk < 16
                    implies kf.base.q_quiet@[kk] == pattern_q_quiet(75)[kk] by {
                    crate::kalman::matrix::lemma_flat_index(4, kk);
                    let ii = kk / 4;
                    let jj = kk % 4;
                    assert(at2(kf.base.q_quiet@, 4, ii, jj)
                        == if ii == jj { 1_000i64 } else { 0i64 });
                }
                assert(kf.base.q_quiet@ =~= pattern_q_quiet(75));
                assert(kf.base.h@ =~= pattern_h(75));
                assert(kf.base.f@ =~= pattern_f(75, dt));
            }
            Ok(PatternFilter::VelocityConvexity(kf))
        } else if pattern_id == 56 {
            let kf = MicroSuspensionKF::new(dt);
proof {
                assert(kf.base.x@ =~= zero_x(2));
                assert forall|kk: int| 0 <= kk < 4
                    implies kf.base.p@[kk] == diag_mat(2, 100_000_000)[kk] by {
                    crate::kalman::matrix::lemma_flat_index(2, kk);
                    assert(at2(kf.base.p@, 2, kk / 2, kk % 2)
                        == if kk / 2 == kk % 2 { 100_000_000i64 } else { 0i64 });
                }
                assert(kf.base.p@ =~= diag_mat(2, 100_000_000));
                assert forall|kk: int| 0 <= kk < 4
                    implies kf.base.q_quiet@[kk] == pattern_q_quiet(56)[kk] by {
                    crate::kalman::matrix::lemma_flat_index(2, kk);
                    let ii = kk / 2;
                    let jj = kk % 2;
                    assert(at2(kf.base.q_quiet@, 2, ii, jj)
                        == if ii == jj { 1_000i64 } else { 0i64 });
                }
                assert(kf.base.q_quiet@ =~= pattern_q_quiet(56));
                assert(kf.base.h@ =~= pattern_h(56));
                assert(kf.base.f@ =~= pattern_f(56, dt));
            }
            Ok(PatternFilter::MicroSuspension(kf))
        } else {
            Err(FilterError::UnsupportedPattern)
        }
    }
}

} // verus!
