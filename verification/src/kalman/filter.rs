//! The shared adaptive Kalman skeleton.
//!
//! State vector `x`, covariance `P`, transition `F`, a single scalar
//! observation row `H`, regime-dependent process noise `Q`, and scalar
//! observation noise `R`, all in saturating fixed-point units. The
//! predict step is `x <- F x`, `P <- F P Fᵀ + Q(regime)`; the update
//! step uses the Joseph form `P <- (I - K H) P (I - K H)ᵀ + K R Kᵀ`
//! with a one-unit ridge on the innovation variance. After either step
//! the covariance is symmetrized exactly, so `P = Pᵀ` holds as a
//! theorem, not a hope. A non-positive innovation variance skips the
//! update and counts a degradation instead; the predicted state is
//! retained.

use vstd::prelude::*;

use crate::fixed::{
    fadd64, fdiv64, fmul64, fsub64, tdiv64, fp_add, fp_div, fp_mul, fp_abs, div_trunc, sat64,
    mag_spec,
};
use crate::kalman::matrix::{
    at2, dot64, row_of, add_seq, mm_entry, mul_seq, seq2, sym_seq, transpose_seq,
    lemma_flat_index, dot_vec, mat_add, mat_diag, mat_identity, mat_mul, mat_symmetrize,
    mat_transpose, mat_vec_mul, MAX_DIM,
};
use crate::types::Regime;

verus! {


/// The same quantities as free functions of the raw field values, so
/// that composite filters can describe intermediate states exactly.
pub open spec fn predict_x_fun(f: Seq<i64>, x: Seq<i64>, n: int) -> Seq<i64> {
    Seq::new(n as nat, |i: int| dot64(row_of(f, n, i), x, n))
}

pub open spec fn predict_p_fun(f: Seq<i64>, p: Seq<i64>, q: Seq<i64>, n: int) -> Seq<i64> {
    sym_seq(add_seq(mul_seq(mul_seq(f, p, n), transpose_seq(f, n), n), q, n), n)
}

pub open spec fn ph_fun(p: Seq<i64>, h: Seq<i64>, n: int) -> Seq<i64> {
    Seq::new(n as nat, |i: int| dot64(row_of(p, n, i), h, n))
}

pub open spec fn s_fun(p: Seq<i64>, h: Seq<i64>, r: i64, n: int) -> i64 {
    fadd64(fadd64(dot64(h, ph_fun(p, h, n), n), r), 1i64)
}

pub open spec fn gain_fun(p: Seq<i64>, h: Seq<i64>, r: i64, n: int) -> Seq<i64> {
    Seq::new(n as nat, |i: int| fdiv64(ph_fun(p, h, n)[i], s_fun(p, h, r, n)))
}

pub open spec fn innovation_fun(h: Seq<i64>, x: Seq<i64>, z: i64, n: int) -> i64 {
    fsub64(z, dot64(h, x, n))
}

pub open spec fn update_x_fun(p: Seq<i64>, h: Seq<i64>, r: i64, x: Seq<i64>, z: i64, n: int)
    -> Seq<i64> {
    Seq::new(
        n as nat,
        |i: int| fadd64(x[i], fmul64(gain_fun(p, h, r, n)[i], innovation_fun(h, x, z, n))),
    )
}

pub open spec fn joseph_a_fun(p: Seq<i64>, h: Seq<i64>, r: i64, n: int) -> Seq<i64> {
    seq2(
        n,
        |i: int, j: int| fsub64(
            if i == j { 1_000_000i64 } else { 0i64 },
            fmul64(gain_fun(p, h, r, n)[i], h[j]),
        ),
    )
}

pub open spec fn krk_fun(p: Seq<i64>, h: Seq<i64>, r: i64, n: int) -> Seq<i64> {
    seq2(n, |i: int, j: int| fmul64(fmul64(gain_fun(p, h, r, n)[i], r), gain_fun(p, h, r, n)[j]))
}

pub open spec fn update_p_fun(p: Seq<i64>, h: Seq<i64>, r: i64, n: int) -> Seq<i64> {
    let a = joseph_a_fun(p, h, r, n);
    sym_seq(add_seq(mul_seq(mul_seq(a, p, n), transpose_seq(a, n), n), krk_fun(p, h, r, n), n), n)
}

/// The velocity window after pushing magnitude `m`, capped at `size`.
pub open spec fn window_after_fun(w: Seq<i64>, size: int, m: i64) -> Seq<i64> {
    let pushed = w.push(m);
    if pushed.len() > size {
        pushed.subrange(1, pushed.len() as int)
    } else {
        pushed
    }
}

/// Adaptive Kalman filter with regime detection.
pub struct AdaptiveKalmanFilter {
    /// Time step between updates, fixed-point seconds.
    pub dt: i64,
    /// State dimension, between 1 and 4.
    pub state_dim: usize,
    /// State vector, length `state_dim`.
    pub x: Vec<i64>,
    /// Covariance, row-major `state_dim * state_dim`.
    pub p: Vec<i64>,
    /// Transition matrix, row-major.
    pub f: Vec<i64>,
    /// Observation row: the scalar observation is `h · x`.
    pub h: Vec<i64>,
    /// Process noise in the quiet regime.
    pub q_quiet: Vec<i64>,
    /// Process noise in the steam regime.
    pub q_steam: Vec<i64>,
    /// Scalar observation noise.
    pub r: i64,
    /// Current detected regime.
    pub current_regime: Regime,
    /// Rolling window of velocity magnitudes.
    pub velocity_window: Vec<i64>,
    /// Mean-velocity threshold that flips quiet to steam.
    pub velocity_threshold: i64,
    /// Length of the velocity window.
    pub regime_window_size: usize,
    /// Updates skipped because the innovation variance was not positive.
    pub degraded_updates: u64,
}

/// One scalar-observation Joseph-form measurement step over raw state
/// and covariance: gain `P Hᵀ / S` with the ridged innovation variance
/// `S = H P Hᵀ + R + 1`, state `x + K y`, covariance
/// `(I - K H) P (I - K H)ᵀ + K R Kᵀ` symmetrized exactly. Returns the
/// new state, the new covariance, and whether the step was applied
/// (a non-positive `S` leaves both unchanged).
pub fn scalar_joseph_step(x: &Vec<i64>, p: &Vec<i64>, h: &Vec<i64>, r: i64, n: usize, z: i64)
    -> (res: (Vec<i64>, Vec<i64>, bool))
    requires
        1 <= n <= MAX_DIM,
        x.len() == n,
        p.len() == n * n,
        h.len() == n,
    ensures
        res.2 == (s_fun(p@, h@, r, n as int) > 0),
        !res.2 ==> res.0@ == x@ && res.1@ == p@,
        res.2 ==> res.0@ == update_x_fun(p@, h@, r, x@, z, n as int),
        res.2 ==> res.1@ == update_p_fun(p@, h@, r, n as int),
        res.2 ==> forall|i: int, j: int| 0 <= i < n && 0 <= j < n
            ==> at2(res.1@, n as int, i, j) == at2(res.1@, n as int, j, i),
        res.0.len() == n,
        res.1.len() == n * n,
{
    let ghost n_int = n as int;
    let ph = mat_vec_mul(p, h, n);
    proof {
        assert(ph@ =~= ph_fun(p@, h@, n_int));
    }
    let hph = dot_vec(h, &ph, n);
    let s = fp_add(fp_add(hph, r), 1);
    if s <= 0 {
        let x2 = copy_i64_vec(x);
        let p2 = copy_i64_vec(p);
        return (x2, p2, false);
    }
    let y = {
        let hx = dot_vec(h, x, n);
        crate::fixed::fp_sub(z, hx)
    };
    // Gain K = P Hᵀ / S.
    let mut gain: Vec<i64> = Vec::new();
    let mut i: usize = 0;
    while i < n
        invariant
            0 < n <= MAX_DIM,
            ph.len() == n,
            s > 0,
            i <= n,
            gain.len() == i,
            forall|k: int| 0 <= k < i ==> gain@[k] == fdiv64(ph@[k], s),
        decreases n - i,
    {
        let g = fp_div(ph[i], s);
        gain.push(g);
        i = i + 1;
    }
    proof {
        assert(s == s_fun(p@, h@, r, n_int));
        assert(gain@ =~= gain_fun(p@, h@, r, n_int));
    }
    // State update x <- x + K y.
    let mut new_x: Vec<i64> = Vec::new();
    let mut i2: usize = 0;
    while i2 < n
        invariant
            0 < n <= MAX_DIM,
            x.len() == n,
            gain.len() == n,
            i2 <= n,
            new_x.len() == i2,
            forall|k: int| 0 <= k < i2
                ==> new_x@[k] == fadd64(x@[k], fmul64(gain@[k], y)),
        decreases n - i2,
    {
        let term = fp_mul(gain[i2], y);
        let v = fp_add(x[i2], term);
        new_x.push(v);
        i2 = i2 + 1;
    }
    proof {
        assert(y == innovation_fun(h@, x@, z, n_int));
        assert(new_x@ =~= update_x_fun(p@, h@, r, x@, z, n_int));
    }
    // Joseph form: A = I - K H.
    let a = build_outer(&gain, h, n);
    proof {
        assert forall|kk: int| 0 <= kk < n_int * n_int
            implies a@[kk] == joseph_a_fun(p@, h@, r, n_int)[kk] by {
            lemma_flat_index(n_int, kk);
            assert(at2(a@, n_int, kk / n_int, kk % n_int)
                == fsub64(
                    if kk / n_int == kk % n_int { 1_000_000i64 } else { 0i64 },
                    fmul64(gain@[kk / n_int], h@[kk % n_int])));
        }
        assert(a@ =~= joseph_a_fun(p@, h@, r, n_int));
    }
    let ap = mat_mul(&a, p, n);
    let at = mat_transpose(&a, n);
    proof {
        assert forall|kk: int| 0 <= kk < n_int * n_int
            implies ap@[kk] == mul_seq(a@, p@, n_int)[kk] by {
            lemma_flat_index(n_int, kk);
            assert(at2(ap@, n_int, kk / n_int, kk % n_int)
                == mm_entry(a@, p@, n_int, kk / n_int, kk % n_int));
        }
        assert(ap@ =~= mul_seq(a@, p@, n_int));
        assert forall|kk: int| 0 <= kk < n_int * n_int
            implies at@[kk] == transpose_seq(a@, n_int)[kk] by {
            lemma_flat_index(n_int, kk);
            assert(at2(at@, n_int, kk / n_int, kk % n_int)
                == at2(a@, n_int, kk % n_int, kk / n_int));
        }
        assert(at@ =~= transpose_seq(a@, n_int));
    }
    let apat = mat_mul(&ap, &at, n);
    proof {
        assert forall|kk: int| 0 <= kk < n_int * n_int
            implies apat@[kk] == mul_seq(ap@, at@, n_int)[kk] by {
            lemma_flat_index(n_int, kk);
            assert(at2(apat@, n_int, kk / n_int, kk % n_int)
                == mm_entry(ap@, at@, n_int, kk / n_int, kk % n_int));
        }
        assert(apat@ =~= mul_seq(ap@, at@, n_int));
    }
    let krk = build_krk(&gain, r, n);
    proof {
        assert forall|kk: int| 0 <= kk < n_int * n_int
            implies krk@[kk] == krk_fun(p@, h@, r, n_int)[kk] by {
            lemma_flat_index(n_int, kk);
            assert(at2(krk@, n_int, kk / n_int, kk % n_int)
                == fmul64(fmul64(gain@[kk / n_int], r), gain@[kk % n_int]));
        }
        assert(krk@ =~= krk_fun(p@, h@, r, n_int));
    }
    let summed = mat_add(&apat, &krk, n);
    proof {
        assert(summed@ =~= add_seq(apat@, krk@, n_int));
    }
    let new_p = mat_symmetrize(&summed, n);
    proof {
        assert forall|kk: int| 0 <= kk < n_int * n_int
            implies new_p@[kk] == sym_seq(summed@, n_int)[kk] by {
            lemma_flat_index(n_int, kk);
            assert(at2(new_p@, n_int, kk / n_int, kk % n_int)
                == crate::fixed::favg64(
                    at2(summed@, n_int, kk / n_int, kk % n_int),
                    at2(summed@, n_int, kk % n_int, kk / n_int)));
        }
        assert(new_p@ =~= sym_seq(summed@, n_int));
        assert(new_p@ == update_p_fun(p@, h@, r, n_int));
    }
    (new_x, new_p, true)
}

fn copy_i64_vec(v: &Vec<i64>) -> (r: Vec<i64>)
    ensures
        r@ == v@,
{
    let mut r: Vec<i64> = Vec::new();
    let mut i: usize = 0;
    while i < v.len()
        invariant
            i <= v.len(),
            r.len() == i,
            forall|k: int| 0 <= k < i ==> r@[k] == v@[k],
        decreases v.len() - i,
    {
        r.push(v[i]);
        i = i + 1;
    }
    proof {
        assert(r@ =~= v@);
    }
    r
}

impl AdaptiveKalmanFilter {
    /// Shape well-formedness: every matrix matches the state dimension.
    pub open spec fn wf(&self) -> bool {
        &&& 1 <= self.state_dim <= MAX_DIM
        &&& self.x.len() == self.state_dim
        &&& self.p.len() == self.state_dim * self.state_dim
        &&& self.f.len() == self.state_dim * self.state_dim
        &&& self.h.len() == self.state_dim
        &&& self.q_quiet.len() == self.state_dim * self.state_dim
        &&& self.q_steam.len() == self.state_dim * self.state_dim
        &&& 1 <= self.regime_window_size <= 1_000_000
        &&& self.velocity_window.len() <= self.regime_window_size
    }

    /// The process noise the current regime selects.
    pub open spec fn q_of_regime(&self) -> Seq<i64> {
        if self.current_regime == Regime::Steam {
            self.q_steam@
        } else {
            self.q_quiet@
        }
    }

    /// Predicted state: `F x`.
    pub open spec fn predict_x_spec(&self) -> Seq<i64> {
        predict_x_fun(self.f@, self.x@, self.state_dim as int)
    }

    /// Predicted covariance: symmetrized `F P Fᵀ + Q(regime)`.
    pub open spec fn predict_p_spec(&self) -> Seq<i64> {
        predict_p_fun(self.f@, self.p@, self.q_of_regime(), self.state_dim as int)
    }

    /// `P Hᵀ` as a vector.
    pub open spec fn ph_spec(&self) -> Seq<i64> {
        ph_fun(self.p@, self.h@, self.state_dim as int)
    }

    /// Innovation variance `H P Hᵀ + R` plus a one-unit ridge.
    pub open spec fn s_spec(&self) -> i64 {
        s_fun(self.p@, self.h@, self.r, self.state_dim as int)
    }

    /// Kalman gain `P Hᵀ / S`.
    pub open spec fn gain_spec(&self) -> Seq<i64> {
        gain_fun(self.p@, self.h@, self.r, self.state_dim as int)
    }

    /// Innovation `z - H x`.
    pub open spec fn innovation_spec(&self, z: i64) -> i64 {
        innovation_fun(self.h@, self.x@, z, self.state_dim as int)
    }

    /// Updated state: `x + K y`.
    pub open spec fn update_x_spec(&self, z: i64) -> Seq<i64> {
        update_x_fun(self.p@, self.h@, self.r, self.x@, z, self.state_dim as int)
    }

    /// `I - K H`.
    pub open spec fn joseph_a_spec(&self) -> Seq<i64> {
        joseph_a_fun(self.p@, self.h@, self.r, self.state_dim as int)
    }

    /// `K R Kᵀ`.
    pub open spec fn krk_spec(&self) -> Seq<i64> {
        krk_fun(self.p@, self.h@, self.r, self.state_dim as int)
    }

    /// Updated covariance: symmetrized Joseph form
    /// `(I - K H) P (I - K H)ᵀ + K R Kᵀ`.
    pub open spec fn update_p_spec(&self) -> Seq<i64> {
        update_p_fun(self.p@, self.h@, self.r, self.state_dim as int)
    }

    /// Fresh filter: zero state, high initial uncertainty (100 on the
    /// covariance diagonal), identity transition, zero observation row,
    /// process noise 0.001 quiet / 0.1 steam, observation noise 0.05,
    /// quiet regime, velocity threshold 0.3 over a window of 10.
    pub fn new(dt: i64, state_dim: usize) -> (r: Self)
        requires
            1 <= state_dim <= MAX_DIM,
        ensures
            r.wf(),
            r.dt == dt,
            r.state_dim == state_dim,
            forall|i: int| 0 <= i < state_dim ==> r.x@[i] == 0i64,
            forall|i: int, j: int| 0 <= i < state_dim && 0 <= j < state_dim
                ==> at2(r.p@, state_dim as int, i, j) == if i == j { 100_000_000i64 } else { 0i64 },
            forall|i: int, j: int| 0 <= i < state_dim && 0 <= j < state_dim
                ==> at2(r.f@, state_dim as int, i, j) == if i == j { 1_000_000i64 } else { 0i64 },
            forall|i: int| 0 <= i < state_dim ==> r.h@[i] == 0i64,
            forall|i: int, j: int| 0 <= i < state_dim && 0 <= j < state_dim
                ==> at2(r.q_quiet@, state_dim as int, i, j) == if i == j { 1_000i64 } else { 0i64 },
            forall|i: int, j: int| 0 <= i < state_dim && 0 <= j < state_dim
                ==> at2(r.q_steam@, state_dim as int, i, j) == if i == j { 100_000i64 } else { 0i64 },
            r.r == 50_000i64,
            r.current_regime == Regime::Quiet,
            r.velocity_window@ == Seq::<i64>::empty(),
            r.velocity_threshold == 300_000i64,
            r.regime_window_size == 10,
            r.degraded_updates == 0,
    {
        let mut x: Vec<i64> = Vec::new();
        let mut h: Vec<i64> = Vec::new();
        let mut i: usize = 0;
        while i < state_dim
            invariant
                i <= state_dim,
                x.len() == i,
                h.len() == i,
                forall|k: int| 0 <= k < i ==> x@[k] == 0i64,
                forall|k: int| 0 <= k < i ==> h@[k] == 0i64,
            decreases state_dim - i,
        {
            x.push(0);
            h.push(0);
            i = i + 1;
        }
        AdaptiveKalmanFilter {
            dt,
            state_dim,
            x,
            p: mat_diag(state_dim, 100_000_000),
            f: mat_identity(state_dim),
            h,
            q_quiet: mat_diag(state_dim, 1_000),
            q_steam: mat_diag(state_dim, 100_000),
            r: 50_000,
            current_regime: Regime::Quiet,
            velocity_window: Vec::new(),
            velocity_threshold: 300_000,
            regime_window_size: 10,
            degraded_updates: 0,
        }
    }

    /// Predict step with the regime-specific process noise.
    pub fn predict(&mut self)
        requires
            old(self).wf(),
        ensures
            final(self).wf(),
            final(self).x@ == old(self).predict_x_spec(),
            final(self).p@ == old(self).predict_p_spec(),
            forall|i: int, j: int|
                0 <= i < old(self).state_dim && 0 <= j < old(self).state_dim
                ==> at2(final(self).p@, old(self).state_dim as int, i, j)
                    == at2(final(self).p@, old(self).state_dim as int, j, i),
            final(self).dt == old(self).dt,
            final(self).state_dim == old(self).state_dim,
            final(self).f@ == old(self).f@,
            final(self).h@ == old(self).h@,
            final(self).q_quiet@ == old(self).q_quiet@,
            final(self).q_steam@ == old(self).q_steam@,
            final(self).r == old(self).r,
            final(self).current_regime == old(self).current_regime,
            final(self).velocity_window@ == old(self).velocity_window@,
            final(self).velocity_threshold == old(self).velocity_threshold,
            final(self).regime_window_size == old(self).regime_window_size,
            final(self).degraded_updates == old(self).degraded_updates,
    {
        let n = self.state_dim;
        let ghost n_int = n as int;
        let new_x = mat_vec_mul(&self.f, &self.x, n);
        proof {
            assert(new_x@ =~= old(self).predict_x_spec());
        }
        let fp = mat_mul(&self.f, &self.p, n);
        let ft = mat_transpose(&self.f, n);
        proof {
            assert forall|kk: int| 0 <= kk < n_int * n_int
                implies fp@[kk] == mul_seq(old(self).f@, old(self).p@, n_int)[kk] by {
                lemma_flat_index(n_int, kk);
                assert(at2(fp@, n_int, kk / n_int, kk % n_int)
                    == mm_entry(old(self).f@, old(self).p@, n_int, kk / n_int, kk % n_int));
            }
            assert(fp@ =~= mul_seq(old(self).f@, old(self).p@, n_int));
            assert forall|kk: int| 0 <= kk < n_int * n_int
                implies ft@[kk] == transpose_seq(old(self).f@, n_int)[kk] by {
                lemma_flat_index(n_int, kk);
                assert(at2(ft@, n_int, kk / n_int, kk % n_int)
                    == at2(old(self).f@, n_int, kk % n_int, kk / n_int));
            }
            assert(ft@ =~= transpose_seq(old(self).f@, n_int));
        }
        let fpft = mat_mul(&fp, &ft, n);
        proof {
            assert forall|kk: int| 0 <= kk < n_int * n_int
                implies fpft@[kk] == mul_seq(fp@, ft@, n_int)[kk] by {
                lemma_flat_index(n_int, kk);
                assert(at2(fpft@, n_int, kk / n_int, kk % n_int)
                    == mm_entry(fp@, ft@, n_int, kk / n_int, kk % n_int));
            }
            assert(fpft@ =~= mul_seq(fp@, ft@, n_int));
        }
        let q = if matches!(self.current_regime, Regime::Steam) {
            &self.q_steam
        } else {
            &self.q_quiet
        };
        let summed = mat_add(&fpft, q, n);
        proof {
            assert(summed@ =~= add_seq(fpft@, old(self).q_of_regime(), n_int));
        }
        let new_p = mat_symmetrize(&summed, n);
        proof {
            assert forall|kk: int| 0 <= kk < n_int * n_int
                implies new_p@[kk] == sym_seq(summed@, n_int)[kk] by {
                lemma_flat_index(n_int, kk);
                assert(at2(new_p@, n_int, kk / n_int, kk % n_int)
                    == crate::fixed::favg64(
                        at2(summed@, n_int, kk / n_int, kk % n_int),
                        at2(summed@, n_int, kk % n_int, kk / n_int)));
            }
            assert(new_p@ =~= sym_seq(summed@, n_int));
            assert(new_p@ == old(self).predict_p_spec());
        }
        self.x = new_x;
        self.p = new_p;
    }

    /// Update step with a scalar observation `z`. Returns whether the
    /// update was applied: when the ridged innovation variance is not
    /// positive the update is skipped, the predicted state is retained,
    /// and the degradation counter advances.
    pub fn update(&mut self, z: i64) -> (applied: bool)
        requires
            old(self).wf(),
        ensures
            final(self).wf(),
            applied == (old(self).s_spec() > 0),
            !applied ==> final(self).x@ == old(self).x@
                && final(self).p@ == old(self).p@
                && final(self).degraded_updates
                    == if old(self).degraded_updates < u64::MAX {
                        (old(self).degraded_updates + 1) as u64
                    } else {
                        u64::MAX
                    },
            applied ==> final(self).x@ == old(self).update_x_spec(z)
                && final(self).p@ == old(self).update_p_spec()
                && final(self).degraded_updates == old(self).degraded_updates,
            applied ==> forall|i: int, j: int|
                0 <= i < old(self).state_dim && 0 <= j < old(self).state_dim
                ==> at2(final(self).p@, old(self).state_dim as int, i, j)
                    == at2(final(self).p@, old(self).state_dim as int, j, i),
            final(self).dt == old(self).dt,
            final(self).state_dim == old(self).state_dim,
            final(self).f@ == old(self).f@,
            final(self).h@ == old(self).h@,
            final(self).q_quiet@ == old(self).q_quiet@,
            final(self).q_steam@ == old(self).q_steam@,
            final(self).r == old(self).r,
            final(self).current_regime == old(self).current_regime,
            final(self).velocity_window@ == old(self).velocity_window@,
            final(self).velocity_threshold == old(self).velocity_threshold,
            final(self).regime_window_size == old(self).regime_window_size,
    {
        let n = self.state_dim;
        let (new_x, new_p, applied) = scalar_joseph_step(
            &self.x, &self.p, &self.h, self.r, n, z);
        if !applied {
            if self.degraded_updates < u64::MAX {
                self.degraded_updates = self.degraded_updates + 1;
            }
            return false;
        }
        self.x = new_x;
        self.p = new_p;
        true
    }

    /// Window of the last `regime_window_size` velocity magnitudes
    /// after pushing `m`.
    pub open spec fn window_after(&self, m: i64) -> Seq<i64> {
        window_after_fun(self.velocity_window@, self.regime_window_size as int, m)
    }

    /// Mean of the window, truncating.
    pub open spec fn window_mean(w: Seq<i64>) -> i64 {
        tdiv64(win_sum(w, w.len() as int), w.len() as i64)
    }

    /// Feed one observed velocity into regime detection: its magnitude
    /// enters the rolling window, and once the window is full the
    /// regime flips to steam exactly when the window mean exceeds the
    /// threshold, else to quiet.
    pub fn detect_regime(&mut self, observed_velocity: i64)
        requires
            old(self).wf(),
        ensures
            final(self).wf(),
            final(self).velocity_window@
                == old(self).window_after(sat64(mag_spec(observed_velocity as int)) as i64),
            final(self).current_regime == if final(self).velocity_window.len()
                >= old(self).regime_window_size {
                if Self::window_mean(final(self).velocity_window@) > old(self).velocity_threshold {
                    Regime::Steam
                } else {
                    Regime::Quiet
                }
            } else {
                old(self).current_regime
            },
            final(self).x@ == old(self).x@,
            final(self).p@ == old(self).p@,
            final(self).f@ == old(self).f@,
            final(self).h@ == old(self).h@,
            final(self).q_quiet@ == old(self).q_quiet@,
            final(self).q_steam@ == old(self).q_steam@,
            final(self).r == old(self).r,
            final(self).dt == old(self).dt,
            final(self).state_dim == old(self).state_dim,
            final(self).velocity_threshold == old(self).velocity_threshold,
            final(self).regime_window_size == old(self).regime_window_size,
            final(self).degraded_updates == old(self).degraded_updates,
    {
        let m = fp_abs(observed_velocity);
        self.velocity_window.push(m);
        if self.velocity_window.len() > self.regime_window_size {
            self.velocity_window.remove(0);
            proof {
                assert(self.velocity_window@ =~= old(self).window_after(m));
            }
        }
        if self.velocity_window.len() >= self.regime_window_size {
            let len = self.velocity_window.len();
            let total = window_sum(&self.velocity_window);
            let avg = div_trunc(total, len as i64);
            self.current_regime = if avg > self.velocity_threshold {
                Regime::Steam
            } else {
                Regime::Quiet
            };
        }
    }

    /// Estimated velocity: the second state component, where there is
    /// one.
    pub fn get_velocity(&self) -> (r: i64)
        requires
            self.wf(),
        ensures
            r == if self.state_dim > 1 {
                self.x@[1]
            } else {
                0i64
            },
    {
        if self.state_dim > 1 {
            self.x[1]
        } else {
            0
        }
    }

    /// Estimated position: the first state component.
    pub fn get_position(&self) -> (r: i64)
        requires
            self.wf(),
        ensures
            r == self.x@[0],
    {
        self.x[0]
    }

    /// Position variance: the leading covariance entry.
    pub fn get_position_uncertainty(&self) -> (r: i64)
        requires
            self.wf(),
        ensures
            r == at2(self.p@, self.state_dim as int, 0, 0),
    {
        proof {
            assert(self.state_dim * self.state_dim >= 1) by (nonlinear_arith)
                requires self.state_dim >= 1;
        }
        self.p[0]
    }

    /// Copy of the state vector.
    pub fn state_snapshot(&self) -> (r: Vec<i64>)
        requires
            self.wf(),
        ensures
            r@ == self.x@,
    {
        let mut r: Vec<i64> = Vec::new();
        let mut i: usize = 0;
        while i < self.x.len()
            invariant
                i <= self.x.len(),
                r.len() == i,
                forall|k: int| 0 <= k < i ==> r@[k] == self.x@[k],
            decreases self.x.len() - i,
        {
            r.push(self.x[i]);
            i = i + 1;
        }
        proof {
            assert(r@ =~= self.x@);
        }
        r
    }

    /// Current regime.
    pub fn regime(&self) -> (r: Regime)
        ensures
            r == self.current_regime,
    {
        self.current_regime
    }

    /// Set or clear the externally signalled suspension. Clearing a
    /// suspension returns the filter to the quiet regime; detection
    /// will re-derive steam from the velocity window.
    pub fn set_suspended(&mut self, suspended: bool)
        ensures
            final(self).current_regime == if suspended {
                Regime::Suspended
            } else if old(self).current_regime == Regime::Suspended {
                Regime::Quiet
            } else {
                old(self).current_regime
            },
            final(self).x@ == old(self).x@,
            final(self).p@ == old(self).p@,
            final(self).velocity_window@ == old(self).velocity_window@,
            final(self).state_dim == old(self).state_dim,
            final(self).f@ == old(self).f@,
            final(self).h@ == old(self).h@,
            final(self).q_quiet@ == old(self).q_quiet@,
            final(self).q_steam@ == old(self).q_steam@,
            final(self).r == old(self).r,
            final(self).dt == old(self).dt,
            final(self).velocity_threshold == old(self).velocity_threshold,
            final(self).regime_window_size == old(self).regime_window_size,
            final(self).degraded_updates == old(self).degraded_updates,
    {
        if suspended {
            self.current_regime = Regime::Suspended;
        } else if matches!(self.current_regime, Regime::Suspended) {
            self.current_regime = Regime::Quiet;
        }
    }
}

/// Saturating sum of the first `k` entries of a window.
pub open spec fn win_sum(w: Seq<i64>, k: int) -> i64
    decreases k,
{
    if k <= 0 {
        0i64
    } else {
        fadd64(win_sum(w, k - 1), w[k - 1])
    }
}

fn window_sum(w: &Vec<i64>) -> (r: i64)
    ensures
        r == win_sum(w@, w.len() as int),
{
    let mut acc: i64 = 0;
    let mut k: usize = 0;
    while k < w.len()
        invariant
            k <= w.len(),
            acc == win_sum(w@, k as int),
        decreases w.len() - k,
    {
        acc = fp_add(acc, w[k]);
        k = k + 1;
    }
    acc
}

/// Build `I - k hᵀ` (row `i`, column `j`: `1_ij - k[i] h[j]`).
fn build_outer(k: &Vec<i64>, h: &Vec<i64>, n: usize) -> (m: Vec<i64>)
    requires
        0 < n <= MAX_DIM,
        k.len() == n,
        h.len() == n,
    ensures
        m.len() == n * n,
        forall|i: int, j: int| 0 <= i < n && 0 <= j < n
            ==> at2(m@, n as int, i, j)
                == fsub64(if i == j { 1_000_000i64 } else { 0i64 }, fmul64(k@[i], h@[j])),
{
    let mut m: Vec<i64> = Vec::new();
    let mut i: usize = 0;
    while i < n
        invariant
            0 < n <= MAX_DIM,
            k.len() == n,
            h.len() == n,
            i <= n,
            m.len() == i * n,
            forall|i2: int, j2: int| 0 <= i2 < i && 0 <= j2 < n
                ==> at2(m@, n as int, i2, j2)
                    == fsub64(if i2 == j2 { 1_000_000i64 } else { 0i64 }, fmul64(k@[i2], h@[j2])),
        decreases n - i,
    {
        let mut j: usize = 0;
        while j < n
            invariant
                0 < n <= MAX_DIM,
                k.len() == n,
                h.len() == n,
                i < n,
                j <= n,
                m.len() == i * n + j,
                forall|i2: int, j2: int| 0 <= i2 < i && 0 <= j2 < n
                    ==> at2(m@, n as int, i2, j2)
                        == fsub64(
                            if i2 == j2 { 1_000_000i64 } else { 0i64 },
                            fmul64(k@[i2], h@[j2])),
                forall|j2: int| 0 <= j2 < j
                    ==> at2(m@, n as int, i as int, j2)
                        == fsub64(
                            if i as int == j2 { 1_000_000i64 } else { 0i64 },
                            fmul64(k@[i as int], h@[j2])),
            decreases n - j,
        {
            let ident: i64 = if i == j {
                1_000_000
            } else {
                0
            };
            let v = crate::fixed::fp_sub(ident, fp_mul(k[i], h[j]));
            let ghost prev = m@;
            m.push(v);
            proof {
                assert forall|i2: int, j2: int|
                    0 <= i2 < n && 0 <= j2 < n && (i2 < i || (i2 == i && j2 < j + 1))
                    implies at2(m@, n as int, i2, j2)
                        == fsub64(
                            if i2 == j2 { 1_000_000i64 } else { 0i64 },
                            fmul64(k@[i2], h@[j2])) by {
                    lemma_rm_order(n as int, i as int, j as int, i2, j2);
                    if i2 == i as int && j2 == j as int {
                        assert(at2(m@, n as int, i2, j2) == v);
                    } else {
                        assert(at2(m@, n as int, i2, j2) == prev[i2 * n + j2]);
                        assert(at2(prev, n as int, i2, j2)
                            == fsub64(
                                if i2 == j2 { 1_000_000i64 } else { 0i64 },
                                fmul64(k@[i2], h@[j2])));
                    }
                }
            }
            j = j + 1;
        }
        i = i + 1;
        proof {
            assert(i * n == (i - 1) * n + n) by (nonlinear_arith);
        }
    }
    proof {
        assert(n * n == (n - 1) * n + n) by (nonlinear_arith)
            requires n >= 1;
    }
    m
}

/// Build `K R Kᵀ` (entry `(i, j)`: `(k[i] * r) * k[j]`).
fn build_krk(k: &Vec<i64>, r: i64, n: usize) -> (m: Vec<i64>)
    requires
        0 < n <= MAX_DIM,
        k.len() == n,
    ensures
        m.len() == n * n,
        forall|i: int, j: int| 0 <= i < n && 0 <= j < n
            ==> at2(m@, n as int, i, j) == fmul64(fmul64(k@[i], r), k@[j]),
{
    let mut m: Vec<i64> = Vec::new();
    let mut i: usize = 0;
    while i < n
        invariant
            0 < n <= MAX_DIM,
            k.len() == n,
            i <= n,
            m.len() == i * n,
            forall|i2: int, j2: int| 0 <= i2 < i && 0 <= j2 < n
                ==> at2(m@, n as int, i2, j2) == fmul64(fmul64(k@[i2], r), k@[j2]),
        decreases n - i,
    {
        let mut j: usize = 0;
        while j < n
            invariant
                0 < n <= MAX_DIM,
                k.len() == n,
                i < n,
                j <= n,
                m.len() == i * n + j,
                forall|i2: int, j2: int| 0 <= i2 < i && 0 <= j2 < n
                    ==> at2(m@, n as int, i2, j2) == fmul64(fmul64(k@[i2], r), k@[j2]),
                forall|j2: int| 0 <= j2 < j
                    ==> at2(m@, n as int, i as int, j2)
                        == fmul64(fmul64(k@[i as int], r), k@[j2]),
            decreases n - j,
        {
            let v = fp_mul(fp_mul(k[i], r), k[j]);
            let ghost prev = m@;
            m.push(v);
            proof {
                assert forall|i2: int, j2: int|
                    0 <= i2 < n && 0 <= j2 < n && (i2 < i || (i2 == i && j2 < j + 1))
                    implies at2(m@, n as int, i2, j2)
                        == fmul64(fmul64(k@[i2], r), k@[j2]) by {
                    lemma_rm_order(n as int, i as int, j as int, i2, j2);
                    if i2 == i as int && j2 == j as int {
                        assert(at2(m@, n as int, i2, j2) == v);
                    } else {
                        assert(at2(m@, n as int, i2, j2) == prev[i2 * n + j2]);
                        assert(at2(prev, n as int, i2, j2) == fmul64(fmul64(k@[i2], r), k@[j2]));
                    }
                }
            }
            j = j + 1;
        }
        i = i + 1;
        proof {
            assert(i * n == (i - 1) * n + n) by (nonlinear_arith);
        }
    }
    proof {
        assert(n * n == (n - 1) * n + n) by (nonlinear_arith)
            requires n >= 1;
    }
    m
}

proof fn lemma_rm_order(n: int, i: int, j: int, i2: int, j2: int)
    by (nonlinear_arith)
    requires
        0 < n,
        0 <= j < n,
        0 <= j2 < n,
        0 <= i,
        0 <= i2,
    ensures
        i2 < i ==> i2 * n + j2 < i * n + j,
        (i2 == i && j2 < j) ==> i2 * n + j2 < i * n + j,
        (i2 * n + j2 == i * n + j) ==> (i2 == i && j2 == j),
        0 <= i * n + j,
        0 <= i2 * n + j2,
        i * n + j < (i + 1) * n,
{
}

} // verus!
