//! Player-prop to team-total beta skew.
//!
//! High-usage player props move team totals with a measurable beta.
//! A two-state filter tracks each line's level and velocity, a
//! recursive least-squares estimator tracks the beta between a prop's
//! moves and its team total's moves, and an opportunity fires when the
//! total lags the move the beta predicts.

use vstd::prelude::*;

use crate::fixed::{
    fadd64, fsub64, fmul64, fdiv64, sat64, mag_spec, tdiv64, fp_exp_neg_spec, fp_add,
    fp_sub, fp_mul, fp_div, fp_abs, fp_exp_neg, fp_sqrt, sqrt64, div_trunc,
};

verus! {

/// Two-state line filter over `[price, velocity]`, all scalars in
/// fixed point.
#[derive(Clone, Copy, Debug, PartialEq, Eq, Structural)]
pub struct KalmanFilter2D {
    pub s0: i64,
    pub s1: i64,
    pub c00: i64,
    pub c01: i64,
    pub c10: i64,
    pub c11: i64,
    pub process_noise: i64,
    pub observation_noise: i64,
    pub last_time_ns: u64,
}

/// The filter after a kinematic predict over `dt` fixed-point seconds:
/// the level absorbs the velocity, and the covariance grows by
/// `F P Fᵀ` plus the process noise (a tenth of it on the velocity).
pub open spec fn kf2_predict(kf: KalmanFilter2D, dt: i64) -> KalmanFilter2D {
    let n00 = fadd64(
        fadd64(fadd64(kf.c00, fmul64(dt, kf.c10)), fmul64(fadd64(kf.c01, fmul64(dt, kf.c11)), dt)),
        kf.process_noise,
    );
    let n01 = fadd64(kf.c01, fmul64(dt, kf.c11));
    let n10 = fadd64(kf.c10, fmul64(kf.c11, dt));
    let n11 = fadd64(kf.c11, tdiv64(kf.process_noise, 10i64));
    KalmanFilter2D {
        s0: fadd64(kf.s0, fmul64(kf.s1, dt)),
        s1: kf.s1,
        c00: n00,
        c01: n01,
        c10: n10,
        c11: n11,
        ..kf
    }
}

/// The filter after folding in an observation at `timestamp_ns`:
/// first predicted forward over the elapsed time, then corrected by
/// the scalar gain `P h / S`; a non-positive residual variance skips
/// the correction.
pub open spec fn kf2_update(kf: KalmanFilter2D, observation: i64, timestamp_ns: u64)
    -> KalmanFilter2D {
    let pre = if kf.last_time_ns > 0 && timestamp_ns > kf.last_time_ns {
        kf2_predict(kf, ns_to_fixed_seconds((timestamp_ns - kf.last_time_ns) as u64))
    } else {
        kf
    };
    let residual = fsub64(observation, pre.s0);
    let s = fadd64(pre.c00, pre.observation_noise);
    if s <= 0 {
        KalmanFilter2D { last_time_ns: timestamp_ns, ..pre }
    } else {
        let k0 = fdiv64(pre.c00, s);
        let k1 = fdiv64(pre.c10, s);
        let om0 = fsub64(1_000_000i64, k0);
        KalmanFilter2D {
            s0: fadd64(pre.s0, fmul64(k0, residual)),
            s1: fadd64(pre.s1, fmul64(k1, residual)),
            c00: fmul64(om0, pre.c00),
            c01: fmul64(om0, pre.c01),
            c10: fsub64(pre.c10, fmul64(k1, pre.c00)),
            c11: fsub64(pre.c11, fmul64(k1, pre.c01)),
            last_time_ns: timestamp_ns,
            ..pre
        }
    }
}

/// Nanoseconds as fixed-point seconds (microsecond resolution).
pub open spec fn ns_to_fixed_seconds(dt_ns: u64) -> i64 {
    if dt_ns / 1000 > i64::MAX {
        i64::MAX
    } else {
        (dt_ns / 1000) as i64
    }
}

impl KalmanFilter2D {
    /// Fresh filter around an initial level, unit covariance.
    pub fn new(initial_price: i64, process_noise: i64, observation_noise: i64) -> (r: Self)
        ensures
            r.s0 == initial_price,
            r.s1 == 0,
            r.c00 == 1_000_000 && r.c11 == 1_000_000 && r.c01 == 0 && r.c10 == 0,
            r.process_noise == process_noise,
            r.observation_noise == observation_noise,
            r.last_time_ns == 0,
    {
        KalmanFilter2D {
            s0: initial_price,
            s1: 0,
            c00: 1_000_000,
            c01: 0,
            c10: 0,
            c11: 1_000_000,
            process_noise,
            observation_noise,
            last_time_ns: 0,
        }
    }

    /// Predict forward over `dt` fixed-point seconds.
    pub fn predict(&mut self, dt: i64)
        ensures
            *final(self) == kf2_predict(*old(self), dt),
    {
        let n00 = fp_add(
            fp_add(
                fp_add(self.c00, fp_mul(dt, self.c10)),
                fp_mul(fp_add(self.c01, fp_mul(dt, self.c11)), dt),
            ),
            self.process_noise,
        );
        let n01 = fp_add(self.c01, fp_mul(dt, self.c11));
        let n10 = fp_add(self.c10, fp_mul(self.c11, dt));
        let n11 = fp_add(self.c11, div_trunc(self.process_noise, 10));
        self.s0 = fp_add(self.s0, fp_mul(self.s1, dt));
        self.c00 = n00;
        self.c01 = n01;
        self.c10 = n10;
        self.c11 = n11;
    }

    /// Fold in an observation stamped `timestamp_ns`.
    pub fn update(&mut self, observation: i64, timestamp_ns: u64)
        ensures
            *final(self) == kf2_update(*old(self), observation, timestamp_ns),
    {
        if self.last_time_ns > 0 && timestamp_ns > self.last_time_ns {
            let dt_ns = timestamp_ns - self.last_time_ns;
            let scaled = dt_ns / 1000;
            let dt: i64 = if scaled > i64::MAX as u64 {
                i64::MAX
            } else {
                scaled as i64
            };
            self.predict(dt);
        }
        let residual = fp_sub(observation, self.s0);
        let s = fp_add(self.c00, self.observation_noise);
        if s <= 0 {
            self.last_time_ns = timestamp_ns;
            return;
        }
        let k0 = fp_div(self.c00, s);
        let k1 = fp_div(self.c10, s);
        let om0 = fp_sub(1_000_000, k0);
        self.s0 = fp_add(self.s0, fp_mul(k0, residual));
        self.s1 = fp_add(self.s1, fp_mul(k1, residual));
        let nc00 = fp_mul(om0, self.c00);
        let nc01 = fp_mul(om0, self.c01);
        let nc10 = fp_sub(self.c10, fp_mul(k1, self.c00));
        let nc11 = fp_sub(self.c11, fp_mul(k1, self.c01));
        self.c00 = nc00;
        self.c01 = nc01;
        self.c10 = nc10;
        self.c11 = nc11;
        self.last_time_ns = timestamp_ns;
    }

    pub fn get_price(&self) -> (r: i64)
        ensures
            r == self.s0,
    {
        self.s0
    }

    pub fn get_velocity(&self) -> (r: i64)
        ensures
            r == self.s1,
    {
        self.s1
    }
}

/// Scalar recursive least squares for the beta coefficient.
#[derive(Clone, Copy, Debug, PartialEq, Eq, Structural)]
pub struct RecursiveLeastSquares {
    pub beta: i64,
    pub p: i64,
    /// Forgetting factor in fixed point, strictly positive.
    pub lambda: i64,
    pub n: u32,
}

/// The estimator after one `(x, y)` observation: gain
/// `K = P x / (λ + P x²)`, then `β += K (y - β x)` and
/// `P ← (P - K x P) / λ`; a non-positive denominator skips the step.
pub open spec fn rls_update_spec(rls: RecursiveLeastSquares, x: i64, y: i64)
    -> RecursiveLeastSquares {
    let denom = fadd64(rls.lambda, fmul64(fmul64(rls.p, x), x));
    if denom <= 0 || rls.lambda <= 0 {
        RecursiveLeastSquares {
            n: if rls.n < u32::MAX { (rls.n + 1) as u32 } else { u32::MAX },
            ..rls
        }
    } else {
        let k = fdiv64(fmul64(rls.p, x), denom);
        let error = fsub64(y, fmul64(rls.beta, x));
        RecursiveLeastSquares {
            beta: fadd64(rls.beta, fmul64(k, error)),
            p: fdiv64(fsub64(rls.p, fmul64(fmul64(k, x), rls.p)), rls.lambda),
            n: if rls.n < u32::MAX { (rls.n + 1) as u32 } else { u32::MAX },
            ..rls
        }
    }
}

impl RecursiveLeastSquares {
    /// Fresh estimator: beta one half, wide-open covariance.
    pub fn new(lambda: i64) -> (r: Self)
        ensures
            r.beta == 500_000,
            r.p == 1_000_000_000_000,
            r.lambda == lambda,
            r.n == 0,
    {
        RecursiveLeastSquares { beta: 500_000, p: 1_000_000_000_000, lambda, n: 0 }
    }

    /// Fold one `(x, y)` observation into the beta estimate.
    pub fn update(&mut self, x: i64, y: i64)
        ensures
            *final(self) == rls_update_spec(*old(self), x, y),
    {
        let denom = fp_add(self.lambda, fp_mul(fp_mul(self.p, x), x));
        if denom <= 0 || self.lambda <= 0 {
            if self.n < u32::MAX {
                self.n = self.n + 1;
            }
            return;
        }
        let k = fp_div(fp_mul(self.p, x), denom);
        let error = fp_sub(y, fp_mul(self.beta, x));
        self.beta = fp_add(self.beta, fp_mul(k, error));
        self.p = fp_div(fp_sub(self.p, fp_mul(fp_mul(k, x), self.p)), self.lambda);
        if self.n < u32::MAX {
            self.n = self.n + 1;
        }
    }

    pub fn get_beta(&self) -> (r: i64)
        ensures
            r == self.beta,
    {
        self.beta
    }

    /// Uncertainty: the square root of the covariance (zero when the
    /// covariance has gone negative).
    pub fn get_uncertainty(&self) -> (r: i64)
        ensures
            r == if self.p >= 0 {
                sqrt64(self.p) as i64
            } else {
                0i64
            },
    {
        if self.p >= 0 {
            fp_sqrt(self.p)
        } else {
            0
        }
    }
}

/// Thresholds for beta-skew detection, fixed point.
#[derive(Clone, Copy, Debug, PartialEq, Eq, Structural)]
pub struct Pattern73Config {
    /// Minimum absolute gap in points: 0.5.
    pub min_gap_threshold: i64,
    /// Minimum gap as a fraction of the total: 0.02.
    pub min_gap_fraction: i64,
    /// Largest propagation half-life considered, in fixed-point
    /// milliseconds: 5000.
    pub max_half_life_ms: i64,
    /// Observations required before the beta is trusted: 10.
    pub min_beta_observations: u32,
    /// Kalman process noise: 0.01.
    pub kalman_process_noise: i64,
    /// Kalman observation noise: 0.1.
    pub kalman_observation_noise: i64,
    /// Recursive least-squares forgetting factor: 0.95.
    pub rls_forgetting_factor: i64,
    /// Minimum usage rate of a player worth modelling: 0.2.
    pub min_usage_rate: i64,
}

impl Pattern73Config {
    pub fn new_default() -> (r: Self)
        ensures
            r.min_gap_threshold == 500_000,
            r.min_gap_fraction == 20_000,
            r.max_half_life_ms == 5_000_000_000,
            r.min_beta_observations == 10,
            r.kalman_process_noise == 10_000,
            r.kalman_observation_noise == 100_000,
            r.rls_forgetting_factor == 950_000,
            r.min_usage_rate == 200_000,
    {
        Pattern73Config {
            min_gap_threshold: 500_000,
            min_gap_fraction: 20_000,
            max_half_life_ms: 5_000_000_000,
            min_beta_observations: 10,
            kalman_process_noise: 10_000,
            kalman_observation_noise: 100_000,
            rls_forgetting_factor: 950_000,
            min_usage_rate: 200_000,
        }
    }
}

/// The gap decision for one pair of lines: the beta-predicted team
/// move, discounted by how much of the half-life has already elapsed,
/// against the actual total. Fires exactly when both the absolute gap
/// and its fraction of the total reach their thresholds.
pub open spec fn beta_gap_spec(
    beta: i64,
    player_change: i64,
    team_total: i64,
    elapsed_ms: i64,
    half_life_ms: i64,
    config: Pattern73Config,
) -> Option<(i64, i64)> {
    let predicted_change = fmul64(beta, player_change);
    let decay = if half_life_ms > 0 && elapsed_ms >= 0 {
        fsub64(1_000_000i64, fp_exp_neg_spec(fdiv64(elapsed_ms, half_life_ms)))
    } else {
        0i64
    };
    let gap = fmul64(predicted_change, decay);
    let gap_mag = sat64(mag_spec(gap as int)) as i64;
    let total_mag = sat64(mag_spec(team_total as int)) as i64;
    if total_mag > 0 && gap_mag >= config.min_gap_threshold
        && fdiv64(gap_mag, total_mag) >= config.min_gap_fraction {
        Some((gap, fdiv64(gap_mag, total_mag)))
    } else {
        None
    }
}

/// Evaluate the gap decision.
pub fn detect_beta_gap(
    beta: i64,
    player_change: i64,
    team_total: i64,
    elapsed_ms: i64,
    half_life_ms: i64,
    config: &Pattern73Config,
) -> (r: Option<(i64, i64)>)
    ensures
        r == beta_gap_spec(beta, player_change, team_total, elapsed_ms, half_life_ms, *config),
{
    let predicted_change = fp_mul(beta, player_change);
    let decay: i64 = if half_life_ms > 0 && elapsed_ms >= 0 {
        fp_sub(1_000_000, fp_exp_neg(fp_div(elapsed_ms, half_life_ms)))
    } else {
        0
    };
    let gap = fp_mul(predicted_change, decay);
    let gap_mag = fp_abs(gap);
    let total_mag = fp_abs(team_total);
    if total_mag > 0 && gap_mag >= config.min_gap_threshold {
        let fraction = fp_div(gap_mag, total_mag);
        if fraction >= config.min_gap_fraction {
            return Some((gap, fraction));
        }
        return None;
    }
    None
}

/// A detected beta-skew opportunity.
pub struct BetaSkewOpportunity {
    pub player_id: String,
    pub team_id: String,
    pub current_player_price: i64,
    pub current_team_total: i64,
    pub beta: i64,
    pub gap: i64,
    pub gap_fraction: i64,
    /// Opportunity strength in fixed point, capped at one.
    pub strength: i64,
    /// One for over, minus one for under.
    pub direction: i8,
    pub timestamp_ns: u64,
}

/// One tracked player prop.
pub struct PlayerPropState {
    pub market_id: String,
    pub player_id: String,
    pub team_id: String,
    pub kalman: KalmanFilter2D,
    pub prev_price: i64,
    pub has_prev: bool,
    pub last_price: i64,
    pub last_update_ns: u64,
}

/// One tracked team total.
pub struct TeamTotalState {
    pub market_id: String,
    pub team_id: String,
    pub kalman: KalmanFilter2D,
    pub prev_total: i64,
    pub has_prev: bool,
    pub last_total: i64,
    pub last_update_ns: u64,
}

/// The beta link between one player and their team.
pub struct BetaRelationship {
    pub player_id: String,
    pub team_id: String,
    pub rls: RecursiveLeastSquares,
    pub usage_rate: i64,
    pub last_update_ns: u64,
}

/// The beta-skew engine: per-player and per-team line filters, beta
/// estimators per pair, and the detected opportunities.
pub struct Pattern73Engine {
    pub player_props: Vec<PlayerPropState>,
    pub team_totals: Vec<TeamTotalState>,
    pub beta_relationships: Vec<BetaRelationship>,
    pub config: Pattern73Config,
    pub opportunities: Vec<BetaSkewOpportunity>,
}

impl Pattern73Engine {
    pub fn new(config: Pattern73Config) -> (r: Self)
        ensures
            r.player_props@.len() == 0,
            r.team_totals@.len() == 0,
            r.beta_relationships@.len() == 0,
            r.opportunities@.len() == 0,
            r.config == config,
    {
        Pattern73Engine {
            player_props: Vec::new(),
            team_totals: Vec::new(),
            beta_relationships: Vec::new(),
            config,
            opportunities: Vec::new(),
        }
    }

    fn find_player(&self, player_id: &str, team_id: &str) -> (r: Option<usize>)
        ensures
            r is Some ==> (r->0) < self.player_props@.len(),
    {
        let pid = player_id.to_owned();
        let tid = team_id.to_owned();
        let mut i: usize = 0;
        while i < self.player_props.len()
            invariant
                i <= self.player_props.len(),
            decreases self.player_props.len() - i,
        {
            let hit = self.player_props[i].player_id == pid
                && self.player_props[i].team_id == tid;
            if hit {
                return Some(i);
            }
            i = i + 1;
        }
        None
    }

    fn find_team(&self, team_id: &str) -> (r: Option<usize>)
        ensures
            r is Some ==> (r->0) < self.team_totals@.len(),
    {
        let tid = team_id.to_owned();
        let mut i: usize = 0;
        while i < self.team_totals.len()
            invariant
                i <= self.team_totals.len(),
            decreases self.team_totals.len() - i,
        {
            if self.team_totals[i].team_id == tid {
                return Some(i);
            }
            i = i + 1;
        }
        None
    }

    fn find_beta(&self, player_id: &str, team_id: &str) -> (r: Option<usize>)
        ensures
            r is Some ==> (r->0) < self.beta_relationships@.len(),
    {
        let pid = player_id.to_owned();
        let tid = team_id.to_owned();
        let mut i: usize = 0;
        while i < self.beta_relationships.len()
            invariant
                i <= self.beta_relationships.len(),
            decreases self.beta_relationships.len() - i,
        {
            let hit = self.beta_relationships[i].player_id == pid
                && self.beta_relationships[i].team_id == tid;
            if hit {
                return Some(i);
            }
            i = i + 1;
        }
        None
    }

    /// Fold in a player-prop observation: the player's line filter
    /// absorbs it, the beta to their team is refreshed from the most
    /// recent prop and total moves, and the pair is screened for an
    /// opportunity.
    pub fn update_player_prop(&mut self, market_id: &str, player_id: &str, team_id: &str,
        price: i64, timestamp_ns: u64, usage_rate: i64)
        ensures
            final(self).config == old(self).config,
            old(self).opportunities@.len() <= final(self).opportunities@.len(),
    {
        let idx = match self.find_player(player_id, team_id) {
            Some(i) => i,
            None => {
                let st = PlayerPropState {
                    market_id: market_id.to_owned(),
                    player_id: player_id.to_owned(),
                    team_id: team_id.to_owned(),
                    kalman: KalmanFilter2D::new(
                        price,
                        self.config.kalman_process_noise,
                        self.config.kalman_observation_noise,
                    ),
                    prev_price: price,
                    has_prev: false,
                    last_price: price,
                    last_update_ns: timestamp_ns,
                };
                self.player_props.push(st);
                self.player_props.len() - 1
            },
        };
        let (mut kalman, old_last) = {
            let st = &self.player_props[idx];
            (st.kalman, st.last_price)
        };
        kalman.update(price, timestamp_ns);
        let updated = PlayerPropState {
            market_id: market_id.to_owned(),
            player_id: player_id.to_owned(),
            team_id: team_id.to_owned(),
            kalman,
            prev_price: old_last,
            has_prev: true,
            last_price: price,
            last_update_ns: timestamp_ns,
        };
        self.player_props.set(idx, updated);
        self.update_beta_relationship(player_id, team_id, usage_rate);
        self.detect_opportunities(player_id, team_id, timestamp_ns);
    }

    /// Fold in a team-total observation.
    pub fn update_team_total(&mut self, market_id: &str, team_id: &str, total: i64,
        timestamp_ns: u64)
        ensures
            final(self).config == old(self).config,
            final(self).opportunities@ == old(self).opportunities@,
            final(self).beta_relationships@ == old(self).beta_relationships@,
            final(self).player_props@ == old(self).player_props@,
    {
        let idx = match self.find_team(team_id) {
            Some(i) => i,
            None => {
                let st = TeamTotalState {
                    market_id: market_id.to_owned(),
                    team_id: team_id.to_owned(),
                    kalman: KalmanFilter2D::new(
                        total,
                        self.config.kalman_process_noise,
                        self.config.kalman_observation_noise,
                    ),
                    prev_total: total,
                    has_prev: false,
                    last_total: total,
                    last_update_ns: timestamp_ns,
                };
                self.team_totals.push(st);
                self.team_totals.len() - 1
            },
        };
        let (mut kalman, old_last) = {
            let st = &self.team_totals[idx];
            (st.kalman, st.last_total)
        };
        kalman.update(total, timestamp_ns);
        let updated = TeamTotalState {
            market_id: market_id.to_owned(),
            team_id: team_id.to_owned(),
            kalman,
            prev_total: old_last,
            has_prev: true,
            last_total: total,
            last_update_ns: timestamp_ns,
        };
        self.team_totals.set(idx, updated);
    }

    /// Refresh the beta between a player and their team from the two
    /// lines' most recent moves. Skipped for low-usage players and for
    /// pairs without two observations on each side, and when either
    /// recent move is under a hundredth of a point.
    pub fn update_beta_relationship(&mut self, player_id: &str, team_id: &str, usage_rate: i64)
        ensures
            final(self).config == old(self).config,
            final(self).opportunities@ == old(self).opportunities@,
            final(self).player_props@ == old(self).player_props@,
            final(self).team_totals@ == old(self).team_totals@,
    {
        if usage_rate < self.config.min_usage_rate {
            return;
        }
        let (player_change, player_ts) = match self.find_player(player_id, team_id) {
            Some(i) => {
                let st = &self.player_props[i];
                if !st.has_prev {
                    return;
                }
                (fp_sub(st.last_price, st.prev_price), st.last_update_ns)
            },
            None => {
                return;
            },
        };
        let team_change = match self.find_team(team_id) {
            Some(i) => {
                let st = &self.team_totals[i];
                if !st.has_prev {
                    return;
                }
                fp_sub(st.last_total, st.prev_total)
            },
            None => {
                return;
            },
        };
        if fp_abs(player_change) <= 10_000 || fp_abs(team_change) <= 10_000 {
            return;
        }
        let idx = match self.find_beta(player_id, team_id) {
            Some(i) => i,
            None => {
                let rel = BetaRelationship {
                    player_id: player_id.to_owned(),
                    team_id: team_id.to_owned(),
                    rls: RecursiveLeastSquares::new(self.config.rls_forgetting_factor),
                    usage_rate,
                    last_update_ns: 0,
                };
                self.beta_relationships.push(rel);
                self.beta_relationships.len() - 1
            },
        };
        let mut rls = self.beta_relationships[idx].rls;
        rls.update(player_change, team_change);
        let updated = BetaRelationship {
            player_id: player_id.to_owned(),
            team_id: team_id.to_owned(),
            rls,
            usage_rate,
            last_update_ns: player_ts,
        };
        self.beta_relationships.set(idx, updated);
    }

    /// Screen a pair for an opportunity: the beta must rest on enough
    /// observations and a tight enough uncertainty, and the gap
    /// decision must fire.
    pub fn detect_opportunities(&mut self, player_id: &str, team_id: &str, timestamp_ns: u64)
        ensures
            final(self).config == old(self).config,
            final(self).player_props@ == old(self).player_props@,
            final(self).team_totals@ == old(self).team_totals@,
            final(self).beta_relationships@ == old(self).beta_relationships@,
            old(self).opportunities@.is_prefix_of(final(self).opportunities@),
            final(self).opportunities@.len() <= old(self).opportunities@.len() + 1,
    {
        let (player_change, player_price) = match self.find_player(player_id, team_id) {
            Some(i) => {
                let st = &self.player_props[i];
                if !st.has_prev {
                    return;
                }
                (fp_sub(st.last_price, st.prev_price), st.last_price)
            },
            None => {
                return;
            },
        };
        let (team_total, team_ts) = match self.find_team(team_id) {
            Some(i) => {
                let st = &self.team_totals[i];
                (st.last_total, st.last_update_ns)
            },
            None => {
                return;
            },
        };
        let (beta, n, uncertainty) = match self.find_beta(player_id, team_id) {
            Some(i) => {
                let rel = &self.beta_relationships[i];
                (rel.rls.get_beta(), rel.rls.n, rel.rls.get_uncertainty())
            },
            None => {
                return;
            },
        };
        if n < self.config.min_beta_observations {
            return;
        }
        if uncertainty > 500_000 {
            return;
        }
        // A fixed two-second propagation half-life stands in until a
        // per-team estimate exists.
        let half_life_ms: i64 = 2_000_000_000;
        if half_life_ms > self.config.max_half_life_ms {
            return;
        }
        let elapsed_ms: i64 = if timestamp_ns >= team_ts {
            let d = (timestamp_ns - team_ts) / 1_000_000;
            if d > 1_000_000_000 {
                1_000_000_000_000_000
            } else {
                (d as i64) * 1_000_000
            }
        } else {
            0
        };
        if let Some((gap, gap_fraction)) = detect_beta_gap(
            beta, player_change, team_total, elapsed_ms, half_life_ms, &self.config) {
            let strength_raw = fp_div(gap_fraction,
                if self.config.min_gap_fraction > 0 { self.config.min_gap_fraction } else { 1 });
            let strength = if strength_raw > 1_000_000 {
                1_000_000
            } else {
                strength_raw
            };
            let opportunity = BetaSkewOpportunity {
                player_id: player_id.to_owned(),
                team_id: team_id.to_owned(),
                current_player_price: player_price,
                current_team_total: team_total,
                beta,
                gap,
                gap_fraction,
                strength,
                direction: if gap > 0 {
                    1
                } else {
                    -1
                },
                timestamp_ns,
            };
            self.opportunities.push(opportunity);
        }
    }

    /// The detected opportunities.
    pub fn get_opportunities(&self) -> (r: &Vec<BetaSkewOpportunity>)
        ensures
            r@ == self.opportunities@,
    {
        &self.opportunities
    }

    /// Drop opportunities older than `max_age_ns` at `now_ns`.
    pub fn clear_old_opportunities(&mut self, now_ns: u64, max_age_ns: u64)
        ensures
            final(self).config == old(self).config,
            forall|i: int| 0 <= i < final(self).opportunities@.len()
                ==> (#[trigger] final(self).opportunities@[i]).timestamp_ns <= now_ns
                    && now_ns - final(self).opportunities@[i].timestamp_ns < max_age_ns,
    {
        let mut kept: Vec<BetaSkewOpportunity> = Vec::new();
        let mut i: usize = 0;
        while i < self.opportunities.len()
            invariant
                i <= self.opportunities.len(),
                forall|j: int| 0 <= j < kept@.len()
                    ==> (#[trigger] kept@[j]).timestamp_ns <= now_ns
                        && now_ns - kept@[j].timestamp_ns < max_age_ns,
            decreases self.opportunities.len() - i,
        {
            let fresh = {
                let o = &self.opportunities[i];
                o.timestamp_ns <= now_ns && now_ns - o.timestamp_ns < max_age_ns
            };
            if fresh {
                let o = &self.opportunities[i];
                kept.push(BetaSkewOpportunity {
                    player_id: o.player_id.clone(),
                    team_id: o.team_id.clone(),
                    current_player_price: o.current_player_price,
                    current_team_total: o.current_team_total,
                    beta: o.beta,
                    gap: o.gap,
                    gap_fraction: o.gap_fraction,
                    strength: o.strength,
                    direction: o.direction,
                    timestamp_ns: o.timestamp_ns,
                });
            }
            i = i + 1;
        }
        self.opportunities = kept;
    }

    /// The beta currently estimated for a pair, if any.
    pub fn get_beta_relationship(&self, player_id: &str, team_id: &str) -> (r: Option<i64>) {
        match self.find_beta(player_id, team_id) {
            Some(i) => Some(self.beta_relationships[i].rls.get_beta()),
            None => None,
        }
    }
}

} // verus!
