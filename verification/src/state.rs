//! The (estimate, covariance) pair a filter carries between cycles.

use vstd::prelude::*;

use crate::matrix::{identity, identity_v, mat_wf, mv, vec_wf, vv, zero_vec, zero_vec_v};
use crate::rational::Rat;

verus! {

/// A state estimate together with its uncertainty.
pub struct State {
    pub estimate: Vec<Rat>,
    pub covariance: Vec<Vec<Rat>>,
}

impl State {
    /// Dimensions agree and every scalar is well formed.
    pub open spec fn wf(self) -> bool {
        &&& vec_wf(vv(self.estimate@))
        &&& mat_wf(
            mv(self.covariance@),
            self.estimate@.len() as int,
            self.estimate@.len() as int,
        )
    }

    /// Packs an (estimate, covariance) pair.
    pub fn new(initial: (Vec<Rat>, Vec<Vec<Rat>>)) -> (r: State)
        ensures
            r.estimate@ == initial.0@,
            r.covariance@ == initial.1@,
    {
        State { estimate: initial.0, covariance: initial.1 }
    }
}

impl Default for State {
    /// A one-dimensional state at zero with identity covariance.
    fn default() -> (r: State)
        ensures
            vv(r.estimate@) == zero_vec_v(1),
            mv(r.covariance@) == identity_v(1),
            r.estimate@.len() == 1,
            r.wf(),
    {
        State { estimate: zero_vec(1), covariance: identity(1) }
    }
}

} // verus!
