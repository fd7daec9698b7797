//! The parameters that describe each kind of stage.

use vstd::prelude::*;

verus! {

/// Reproduces its input.
#[derive(Clone, Copy, Debug)]
pub struct IdentityParameters;

/// A PID controller; gains, limits and set point in thousandths. The stage's
/// output is the controller's rectified terms plus `offset`.
#[derive(Clone, Copy, Debug)]
pub struct PIDParameters {
    pub kp: i64,
    pub ki: i64,
    pub kd: i64,
    pub p_limit: i64,
    pub i_limit: i64,
    pub d_limit: i64,
    pub setpoint: i64,
    pub offset: u32,
}

/// A critically damped oscillator that follows its input; mass, spring
/// constant, time step and initial target in thousandths.
#[derive(Clone, Copy, Debug)]
pub struct DampenedOscillatorParameters {
    pub m: i64,
    pub k: i64,
    pub dt: i64,
    pub target: i64,
}

/// Clips every sample into `[min, max]` (both in thousandths).
#[derive(Clone, Copy, Debug)]
pub struct ClipParameters {
    pub min: i64,
    pub max: i64,
}

/// Forces to zero every sample below `val` (in thousandths).
#[derive(Clone, Copy, Debug)]
pub struct AtLeastParameters {
    pub val: i64,
}

/// Repeats each input `n` times before it asks for a new one.
#[derive(Clone, Copy, Debug)]
pub struct SupersampleParameters {
    pub n: usize,
}

/// Drops `n` inputs before it passes the next one on.
#[derive(Clone, Copy, Debug)]
pub struct SubsampleParameters {
    pub n: usize,
}

/// Running mean over a window of the last `n` inputs.
#[derive(Clone, Copy, Debug)]
pub struct AverageParameters {
    pub n: usize,
}

} // verus!
