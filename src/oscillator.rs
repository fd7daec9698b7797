//! The damped-oscillator stage. Its integrator works in floating point and is
//! supplied by the caller; this module keeps the stage's log of targets and
//! positions.

use vstd::prelude::*;

use crate::parameters::DampenedOscillatorParameters;

verus! {

/// A point mass pulled toward a moving target.
pub trait Follower: Sized {
    /// A follower set up as `parameters` describe.
    fn configure(parameters: &DampenedOscillatorParameters) -> Self;

    /// Moves one time step toward `target` and returns the new position.
    fn follow(&mut self, target: i64) -> i64;
}

/// The damped-oscillator stage around a follower.
pub struct Oscillator<F> {
    follower: F,
    ins: Ghost<Seq<i64>>,
    outs: Ghost<Seq<i64>>,
}

impl<F: Follower> Oscillator<F> {
    /// The targets received so far, oldest first.
    pub closed spec fn inputs(&self) -> Seq<i64> {
        self.ins@
    }

    /// The positions emitted so far, oldest first.
    pub closed spec fn outputs(&self) -> Seq<i64> {
        self.outs@
    }

    /// One position per target.
    pub closed spec fn wf(&self) -> bool {
        self.outs@.len() == self.ins@.len()
    }

    pub fn next(&mut self, val: i64) -> (r: i64)
        requires
            old(self).wf(),
        ensures
            final(self).wf(),
            final(self).inputs() == old(self).inputs().push(val),
            final(self).outputs() == old(self).outputs().push(r),
    {
        let r = self.follower.follow(val);
        self.ins = Ghost(self.ins@.push(val));
        self.outs = Ghost(self.outs@.push(r));
        r
    }
}

impl DampenedOscillatorParameters {
    pub fn apply<F: Follower>(self) -> (r: Oscillator<F>)
        ensures
            r.wf(),
            r.inputs() == Seq::<i64>::empty(),
            r.outputs() == Seq::<i64>::empty(),
    {
        Oscillator { follower: F::configure(&self), ins: Ghost(Seq::empty()), outs: Ghost(Seq::empty()) }
    }
}

} // verus!
