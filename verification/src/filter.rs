//! The Kalman filter: configuration, predict, update, step.
//!
//! `predict` is the time update `x' = (F dt) x + B u`,
//! `P' = (F dt) P (F dt)^T + Q`; `update` is the measurement correction with
//! gain `K = P H^T S^-1` for the innovation covariance
//! `S = H P H^T + R`. Both are pure; `step` runs them in order on the
//! filter's committed state and commits the pair only on full success.

use vstd::prelude::*;

use crate::inverse::{det_v, inverse_v, invert, invert_fits};
use crate::matrix::{
    clone_mat, clone_vec, identity, identity_v, mat_add, mat_add_fits, mat_add_v, mat_mul,
    mat_mul_fits, mat_mul_v, mat_sub, mat_sub_fits, mat_sub_v, mat_vec_fits, mat_vec_mul,
    mat_vec_v, mat_wf, mv, scalar_mul, scalar_mul_fits, scalar_mul_v, transpose, transpose_v,
    vec_add, vec_add_fits, vec_add_v, vec_sub, vec_sub_fits, vec_sub_v, vec_wf, vv, zero_mat,
    zero_mat_v, zero_vec, zero_vec_v, MatV,
};
use crate::rational::{Rat, RatV};

verus! {

/// The one error of the filter: time did not move forward, or the
/// innovation covariance is singular.
#[derive(Debug)]
pub struct TransitionError {}

/// The control vector actually applied: the given one, or zero when absent.
pub open spec fn control_or_zero(u: Option<Vec<Rat>>, k: int) -> Seq<RatV> {
    match u {
        Some(v) => vv(v@),
        None => zero_vec_v(k as nat),
    }
}

/// A linear Kalman filter with fixed state dimension `n`, measurement
/// dimension `m` and control dimension `k`, over exact rational scalars.
pub struct KalmanFilter {
    pub transition_model: Vec<Vec<Rat>>,
    pub measurement_model: Vec<Vec<Rat>>,
    pub process_noise: Vec<Vec<Rat>>,
    pub state: Vec<Rat>,
    pub covariance: Vec<Vec<Rat>>,
    pub input_model: Vec<Vec<Rat>>,
}

impl KalmanFilter {
    /// State dimension.
    pub open spec fn n(self) -> int {
        self.transition_model@.len() as int
    }

    /// Measurement dimension.
    pub open spec fn m(self) -> int {
        self.measurement_model@.len() as int
    }

    /// Control dimension.
    pub open spec fn k(self) -> int {
        self.input_model@[0]@.len() as int
    }

    /// Dimensions agree and every scalar is well formed.
    pub open spec fn wf(self) -> bool {
        &&& self.n() >= 1
        &&& self.m() >= 1
        &&& self.k() >= 1
        &&& mat_wf(mv(self.transition_model@), self.n(), self.n())
        &&& mat_wf(mv(self.measurement_model@), self.m(), self.n())
        &&& mat_wf(mv(self.process_noise@), self.n(), self.n())
        &&& mat_wf(mv(self.input_model@), self.n(), self.k())
        &&& self.state@.len() == self.n()
        &&& vec_wf(vv(self.state@))
        &&& mat_wf(mv(self.covariance@), self.n(), self.n())
    }

    /// The per-step transition operator: the transition model scaled by the
    /// elapsed time.
    pub open spec fn transition_v(self, dt: RatV) -> MatV {
        scalar_mul_v(mv(self.transition_model@), dt)
    }

    /// The predicted state `(F dt) x + B u`.
    pub open spec fn predict_state_v(self, x: Seq<RatV>, dt: RatV, u: Seq<RatV>) -> Seq<RatV> {
        vec_add_v(
            mat_vec_v(self.transition_v(dt), x),
            mat_vec_v(mv(self.input_model@), u),
        )
    }

    /// The predicted covariance `(F dt) P (F dt)^T + Q`.
    pub open spec fn predict_cov_v(self, p: MatV, dt: RatV) -> MatV {
        let f = self.transition_v(dt);
        mat_add_v(
            mat_mul_v(mat_mul_v(f, p, self.n()), transpose_v(f, self.n()), self.n()),
            mv(self.process_noise@),
        )
    }

    /// All intermediate products of `predict` fit in `i128`.
    pub open spec fn predict_fits(self, x: Seq<RatV>, p: MatV, dt: RatV, u: Seq<RatV>) -> bool {
        let f = self.transition_v(dt);
        let fp = mat_mul_v(f, p, self.n());
        let ft = transpose_v(f, self.n());
        &&& scalar_mul_fits(mv(self.transition_model@), dt)
        &&& mat_vec_fits(f, x)
        &&& mat_vec_fits(mv(self.input_model@), u)
        &&& vec_add_fits(mat_vec_v(f, x), mat_vec_v(mv(self.input_model@), u))
        &&& mat_mul_fits(f, p, self.n())
        &&& mat_mul_fits(fp, ft, self.n())
        &&& mat_add_fits(mat_mul_v(fp, ft, self.n()), mv(self.process_noise@))
    }

    /// The innovation `z - H x`.
    pub open spec fn innovation_v(self, x: Seq<RatV>, z: Seq<RatV>) -> Seq<RatV> {
        vec_sub_v(z, mat_vec_v(mv(self.measurement_model@), x))
    }

    /// The innovation covariance `S = H P H^T + R`.
    pub open spec fn innovation_cov_v(self, p: MatV, rn: MatV) -> MatV {
        let h = mv(self.measurement_model@);
        let ht = transpose_v(h, self.n());
        mat_add_v(mat_mul_v(mat_mul_v(h, p, self.n()), ht, self.m()), rn)
    }

    /// The Kalman gain `K = P H^T S^-1`.
    pub open spec fn gain_v(self, p: MatV, s: MatV) -> MatV {
        let ht = transpose_v(mv(self.measurement_model@), self.n());
        mat_mul_v(mat_mul_v(p, ht, self.m()), inverse_v(s), self.m())
    }

    /// The corrected state `x + K (z - H x)`.
    pub open spec fn update_state_v(self, x: Seq<RatV>, p: MatV, z: Seq<RatV>, rn: MatV) -> Seq<
        RatV,
    > {
        let s = self.innovation_cov_v(p, rn);
        let kg = self.gain_v(p, s);
        vec_add_v(x, mat_vec_v(kg, self.innovation_v(x, z)))
    }

    /// The corrected covariance `(I - K H) P`.
    pub open spec fn update_cov_v(self, p: MatV, rn: MatV) -> MatV {
        let s = self.innovation_cov_v(p, rn);
        let kg = self.gain_v(p, s);
        mat_mul_v(
            mat_sub_v(identity_v(self.n() as nat), mat_mul_v(kg, mv(self.measurement_model@), self.n())),
            p,
            self.n(),
        )
    }

    /// All intermediate products of `update` fit in `i128`. Past the
    /// innovation covariance, bounds are asked only when it is nonsingular:
    /// nothing more is computed when it is singular.
    pub open spec fn update_fits(self, x: Seq<RatV>, p: MatV, z: Seq<RatV>, rn: MatV) -> bool {
        let h = mv(self.measurement_model@);
        let ht = transpose_v(h, self.n());
        let hp = mat_mul_v(h, p, self.n());
        let s = self.innovation_cov_v(p, rn);
        &&& mat_vec_fits(h, x)
        &&& vec_sub_fits(z, mat_vec_v(h, x))
        &&& mat_mul_fits(h, p, self.n())
        &&& mat_mul_fits(hp, ht, self.m())
        &&& mat_add_fits(mat_mul_v(hp, ht, self.m()), rn)
        &&& invert_fits(s)
        &&& (det_v(s).is_zero() || {
            let sinv = inverse_v(s);
            let pht = mat_mul_v(p, ht, self.m());
            let kg = self.gain_v(p, s);
            let y = self.innovation_v(x, z);
            let kh = mat_mul_v(kg, h, self.n());
            &&& mat_mul_fits(p, ht, self.m())
            &&& mat_mul_fits(pht, sinv, self.m())
            &&& mat_vec_fits(kg, y)
            &&& vec_add_fits(x, mat_vec_v(kg, y))
            &&& mat_mul_fits(kg, h, self.n())
            &&& mat_sub_fits(identity_v(self.n() as nat), kh)
            &&& mat_mul_fits(mat_sub_v(identity_v(self.n() as nat), kh), p, self.n())
        })
    }

    /// Builds a filter from its three model matrices. The state starts at
    /// zero with identity covariance, and the control-input model is the
    /// zero mapping from a one-dimensional control.
    pub fn new(
        transition_model: Vec<Vec<Rat>>,
        measurement_model: Vec<Vec<Rat>>,
        process_noise: Vec<Vec<Rat>>,
    ) -> (r: KalmanFilter)
        requires
            transition_model@.len() >= 1,
            measurement_model@.len() >= 1,
            mat_wf(mv(transition_model@), transition_model@.len() as int, transition_model@.len() as int),
            mat_wf(mv(measurement_model@), measurement_model@.len() as int, transition_model@.len() as int),
            mat_wf(mv(process_noise@), transition_model@.len() as int, transition_model@.len() as int),
        ensures
            r.wf(),
            r.n() == transition_model@.len(),
            r.m() == measurement_model@.len(),
            r.k() == 1,
            r.transition_model@ == transition_model@,
            r.measurement_model@ == measurement_model@,
            r.process_noise@ == process_noise@,
            vv(r.state@) == zero_vec_v(transition_model@.len()),
            mv(r.covariance@) == identity_v(transition_model@.len()),
            mv(r.input_model@) == zero_mat_v(transition_model@.len(), 1),
    {
        let n = transition_model.len();
        let state = zero_vec(n);
        let covariance = identity(n);
        let input_model = zero_mat(n, 1);
        proof {
            assert(mv(input_model@)[0] == vv(input_model@[0]@));
            assert(mv(input_model@)[0].len() == 1);
        }
        KalmanFilter {
            transition_model,
            measurement_model,
            process_noise,
            state,
            covariance,
            input_model,
        }
    }

    /// Returns the filter with its state and covariance overridden.
    pub fn with_state(self, state: Vec<Rat>, covariance: Vec<Vec<Rat>>) -> (r: KalmanFilter)
        requires
            self.wf(),
            state@.len() == self.n(),
            vec_wf(vv(state@)),
            mat_wf(mv(covariance@), self.n(), self.n()),
        ensures
            r.wf(),
            r.state@ == state@,
            r.covariance@ == covariance@,
            r.transition_model@ == self.transition_model@,
            r.measurement_model@ == self.measurement_model@,
            r.process_noise@ == self.process_noise@,
            r.input_model@ == self.input_model@,
    {
        KalmanFilter { state, covariance, ..self }
    }

    /// Returns the filter with its control-input model overridden.
    pub fn with_input_model(self, model: Vec<Vec<Rat>>) -> (r: KalmanFilter)
        requires
            self.wf(),
            model@.len() == self.n(),
            model@[0]@.len() >= 1,
            mat_wf(mv(model@), self.n(), model@[0]@.len() as int),
        ensures
            r.wf(),
            r.input_model@ == model@,
            r.state@ == self.state@,
            r.covariance@ == self.covariance@,
            r.transition_model@ == self.transition_model@,
            r.measurement_model@ == self.measurement_model@,
            r.process_noise@ == self.process_noise@,
    {
        KalmanFilter { input_model: model, ..self }
    }

    /// The time update. Pure: reads the models, mutates nothing. Fails
    /// exactly when `dt <= 0`.
    pub fn predict(
        &self,
        current: (Vec<Rat>, Vec<Vec<Rat>>),
        dt: Rat,
        u: Option<Vec<Rat>>,
    ) -> (r: Result<(Vec<Rat>, Vec<Vec<Rat>>), TransitionError>)
        requires
            self.wf(),
            current.0@.len() == self.n(),
            vec_wf(vv(current.0@)),
            mat_wf(mv(current.1@), self.n(), self.n()),
            dt@.wf(),
            u is Some ==> (u->Some_0)@.len() == self.k() && vec_wf(vv((u->Some_0)@)),
            dt@.is_pos() ==> self.predict_fits(
                vv(current.0@),
                mv(current.1@),
                dt@,
                control_or_zero(u, self.k()),
            ),
        ensures
            r is Err <==> !dt@.is_pos(),
            r is Ok ==> vv(r->Ok_0.0@) == self.predict_state_v(
                vv(current.0@),
                dt@,
                control_or_zero(u, self.k()),
            ),
            r is Ok ==> mv(r->Ok_0.1@) == self.predict_cov_v(mv(current.1@), dt@),
            r is Ok ==> r->Ok_0.0@.len() == self.n() && vec_wf(vv(r->Ok_0.0@)),
            r is Ok ==> mat_wf(mv(r->Ok_0.1@), self.n(), self.n()),
    {
        if dt.num <= 0 {
            return Err(TransitionError {  });
        }
        let n = self.transition_model.len();
        let k = self.input_model[0].len();
        let f = scalar_mul(&self.transition_model, dt, n, n);
        let fx = mat_vec_mul(&f, &current.0, n, n);
        let uvec = match u {
            Some(v) => v,
            None => zero_vec(k),
        };
        let bu = mat_vec_mul(&self.input_model, &uvec, n, k);
        let new_state = vec_add(&fx, &bu);
        let fp = mat_mul(&f, &current.1, n, n, n);
        let ft = transpose(&f, n, n);
        let fpft = mat_mul(&fp, &ft, n, n, n);
        let new_cov = mat_add(&fpft, &self.process_noise, n, n);
        Ok((new_state, new_cov))
    }

    /// The measurement correction. Pure: reads the models, mutates nothing.
    /// Fails exactly when the innovation covariance is singular.
    pub fn update(
        &self,
        current: (Vec<Rat>, Vec<Vec<Rat>>),
        observation: (Vec<Rat>, Vec<Vec<Rat>>),
    ) -> (r: Result<(Vec<Rat>, Vec<Vec<Rat>>), TransitionError>)
        requires
            self.wf(),
            current.0@.len() == self.n(),
            vec_wf(vv(current.0@)),
            mat_wf(mv(current.1@), self.n(), self.n()),
            observation.0@.len() == self.m(),
            vec_wf(vv(observation.0@)),
            mat_wf(mv(observation.1@), self.m(), self.m()),
            self.update_fits(vv(current.0@), mv(current.1@), vv(observation.0@), mv(observation.1@)),
        ensures
            r is Err <==> det_v(
                self.innovation_cov_v(mv(current.1@), mv(observation.1@)),
            ).is_zero(),
            r is Ok ==> vv(r->Ok_0.0@) == self.update_state_v(
                vv(current.0@),
                mv(current.1@),
                vv(observation.0@),
                mv(observation.1@),
            ),
            r is Ok ==> mv(r->Ok_0.1@) == self.update_cov_v(mv(current.1@), mv(observation.1@)),
            r is Ok ==> r->Ok_0.0@.len() == self.n() && vec_wf(vv(r->Ok_0.0@)),
            r is Ok ==> mat_wf(mv(r->Ok_0.1@), self.n(), self.n()),
    {
        let n = self.transition_model.len();
        let m = self.measurement_model.len();
        let hx = mat_vec_mul(&self.measurement_model, &current.0, m, n);
        let y = vec_sub(&observation.0, &hx);
        let hp = mat_mul(&self.measurement_model, &current.1, m, n, n);
        let ht = transpose(&self.measurement_model, m, n);
        let hpht = mat_mul(&hp, &ht, m, n, m);
        let s = mat_add(&hpht, &observation.1, m, m);
        let sinv = match invert(&s) {
            None => {
                return Err(TransitionError {  });
            },
            Some(v) => v,
        };
        let pht = mat_mul(&current.1, &ht, n, n, m);
        let kg = mat_mul(&pht, &sinv, n, m, m);
        let ky = mat_vec_mul(&kg, &y, n, m);
        let new_state = vec_add(&current.0, &ky);
        let kh = mat_mul(&kg, &self.measurement_model, n, m, n);
        let idn = identity(n);
        let ikh = mat_sub(&idn, &kh, n, n);
        let new_cov = mat_mul(&ikh, &current.1, n, n, n);
        Ok((new_state, new_cov))
    }

    /// One full cycle: predict over `dt`, then update with the observation,
    /// committing the new state and covariance only when both stages
    /// succeed. On any failure the committed state is exactly what it was.
    pub fn step(
        &mut self,
        dt: Rat,
        observation: (Vec<Rat>, Vec<Vec<Rat>>),
        u: Option<Vec<Rat>>,
    ) -> (r: Result<(Vec<Rat>, Vec<Vec<Rat>>), TransitionError>)
        requires
            old(self).wf(),
            dt@.wf(),
            observation.0@.len() == old(self).m(),
            vec_wf(vv(observation.0@)),
            mat_wf(mv(observation.1@), old(self).m(), old(self).m()),
            u is Some ==> (u->Some_0)@.len() == old(self).k() && vec_wf(vv((u->Some_0)@)),
            dt@.is_pos() ==> old(self).predict_fits(
                vv(old(self).state@),
                mv(old(self).covariance@),
                dt@,
                control_or_zero(u, old(self).k()),
            ),
            dt@.is_pos() ==> old(self).update_fits(
                old(self).predict_state_v(
                    vv(old(self).state@),
                    dt@,
                    control_or_zero(u, old(self).k()),
                ),
                old(self).predict_cov_v(mv(old(self).covariance@), dt@),
                vv(observation.0@),
                mv(observation.1@),
            ),
        ensures
            !dt@.is_pos() ==> r is Err && *final(self) == *old(self),
            dt@.is_pos() && det_v(
                old(self).innovation_cov_v(
                    old(self).predict_cov_v(mv(old(self).covariance@), dt@),
                    mv(observation.1@),
                ),
            ).is_zero() ==> r is Err && *final(self) == *old(self),
            r is Ok <==> dt@.is_pos() && !det_v(
                old(self).innovation_cov_v(
                    old(self).predict_cov_v(mv(old(self).covariance@), dt@),
                    mv(observation.1@),
                ),
            ).is_zero(),
            r is Ok ==> vv(final(self).state@) == old(self).update_state_v(
                old(self).predict_state_v(
                    vv(old(self).state@),
                    dt@,
                    control_or_zero(u, old(self).k()),
                ),
                old(self).predict_cov_v(mv(old(self).covariance@), dt@),
                vv(observation.0@),
                mv(observation.1@),
            ) && mv(final(self).covariance@) == old(self).update_cov_v(
                old(self).predict_cov_v(mv(old(self).covariance@), dt@),
                mv(observation.1@),
            ),
            r is Ok ==> vv(r->Ok_0.0@) == vv(final(self).state@) && mv(r->Ok_0.1@) == mv(
                final(self).covariance@,
            ),
            final(self).transition_model@ == old(self).transition_model@,
            final(self).measurement_model@ == old(self).measurement_model@,
            final(self).process_noise@ == old(self).process_noise@,
            final(self).input_model@ == old(self).input_model@,
            r is Err ==> *final(self) == *old(self),
            final(self).wf(),
    {
        let cur_state = clone_vec(&self.state);
        let cur_cov = clone_mat(&self.covariance);
        let predicted = match self.predict((cur_state, cur_cov), dt, u) {
            Err(e) => {
                return Err(e);
            },
            Ok(p) => p,
        };
        let corrected = match self.update(predicted, observation) {
            Err(e) => {
                return Err(e);
            },
            Ok(c) => c,
        };
        let (new_state, new_cov) = corrected;
        self.state = clone_vec(&new_state);
        self.covariance = clone_mat(&new_cov);
        Ok((new_state, new_cov))
    }
}


impl Default for KalmanFilter {
    /// A one-dimensional filter: identity transition, zero measurement
    /// model, identity process noise, zero state, identity covariance,
    /// zero control-input mapping.
    fn default() -> (r: KalmanFilter)
        ensures
            r.wf(),
            r.n() == 1,
            r.m() == 1,
            r.k() == 1,
            mv(r.transition_model@) == identity_v(1),
            mv(r.measurement_model@) == zero_mat_v(1, 1),
            mv(r.process_noise@) == identity_v(1),
            vv(r.state@) == zero_vec_v(1),
            mv(r.covariance@) == identity_v(1),
            mv(r.input_model@) == zero_mat_v(1, 1),
    {
        let input_model = zero_mat(1, 1);
        proof {
            assert(mv(input_model@)[0] == vv(input_model@[0]@));
            assert(mv(input_model@)[0].len() == 1);
        }
        KalmanFilter {
            transition_model: identity(1),
            measurement_model: zero_mat(1, 1),
            process_noise: identity(1),
            state: zero_vec(1),
            covariance: identity(1),
            input_model,
        }
    }
}

} // verus!
