//! One position of the chain: a stage of any kind, and the parameters that
//! build it.

use vstd::prelude::*;

use crate::average::Average;
use crate::oscillator::{Follower, Oscillator};
use crate::parameters::{
    AtLeastParameters, AverageParameters, ClipParameters, DampenedOscillatorParameters,
    IdentityParameters, PIDParameters, SubsampleParameters, SupersampleParameters,
};
use crate::pid::{report_chars, report_text, Controller, PID};
use crate::text::{concat, decimal, decimal_text, sample_chars, sample_text};
use crate::rate::{repeats, Subsample, Supersample};
use crate::stages::{AtLeast, Clip, Identity};

verus! {

/// The description of one stage.
#[derive(Clone, Copy, Debug)]
pub enum OperationParameters {
    Identity(IdentityParameters),
    PID(PIDParameters),
    DampenedOscillator(DampenedOscillatorParameters),
    Clip(ClipParameters),
    AtLeast(AtLeastParameters),
    Supersample(SupersampleParameters),
    Subsample(SubsampleParameters),
    Average(AverageParameters),
}

/// Whether a description can be built: a clip needs a non-empty range, an
/// average a window of at least one.
pub open spec fn buildable(op: OperationParameters) -> bool {
    match op {
        OperationParameters::Clip(p) => p.min <= p.max,
        OperationParameters::Average(p) => p.n > 0,
        _ => true,
    }
}

/// A description that builds a stage.
pub trait Operation<C: Controller, F: Follower>: Sized {
    /// The description as one of the stage kinds.
    spec fn describes(&self) -> OperationParameters;

    /// Builds the stage; `None` when the description cannot be built.
    fn apply(self) -> (r: Option<Stage<C, F>>)
        ensures
            r is Some <==> buildable(self.describes()),
            r matches Some(s) ==> s.built_from(self.describes());
}

impl<C: Controller, F: Follower> Operation<C, F> for OperationParameters {
    open spec fn describes(&self) -> OperationParameters {
        *self
    }

    fn apply(self) -> (r: Option<Stage<C, F>>) {
        Stage::build(self)
    }
}

/// The live state of one stage.
pub enum Stage<C, F> {
    Identity(Identity),
    PID(PID<C>),
    DampenedOscillator(Oscillator<F>),
    Clip(Clip),
    AtLeast(AtLeast),
    Supersample(Supersample),
    Subsample(Subsample),
    Average(Average),
}

impl<C: Controller, F: Follower> Stage<C, F> {
    pub open spec fn inputs(&self) -> Seq<i64> {
        match self {
            Stage::Identity(s) => s.inputs(),
            Stage::PID(s) => s.inputs(),
            Stage::DampenedOscillator(s) => s.inputs(),
            Stage::Clip(s) => s.inputs(),
            Stage::AtLeast(s) => s.inputs(),
            Stage::Supersample(s) => s.inputs(),
            Stage::Subsample(s) => s.inputs(),
            Stage::Average(s) => s.inputs(),
        }
    }

    pub open spec fn outputs(&self) -> Seq<i64> {
        match self {
            Stage::Identity(s) => s.outputs(),
            Stage::PID(s) => s.outputs(),
            Stage::DampenedOscillator(s) => s.outputs(),
            Stage::Clip(s) => s.outputs(),
            Stage::AtLeast(s) => s.outputs(),
            Stage::Supersample(s) => s.outputs(),
            Stage::Subsample(s) => s.outputs(),
            Stage::Average(s) => s.outputs(),
        }
    }

    pub open spec fn wf(&self) -> bool {
        match self {
            Stage::Identity(_) => true,
            Stage::PID(s) => s.wf(),
            Stage::DampenedOscillator(s) => s.wf(),
            Stage::Clip(s) => s.wf(),
            Stage::AtLeast(_) => true,
            Stage::Supersample(s) => s.wf(),
            Stage::Subsample(s) => s.wf(),
            Stage::Average(s) => s.wf(),
        }
    }

    /// A supersample that still owes repeats of its last input.
    pub open spec fn owes_repeat(&self) -> bool {
        match self {
            Stage::Supersample(s) => s.outputs().len() < s.inputs().len() * repeats(s.factor()),
            _ => false,
        }
    }

    /// How many more inputs a subsample drops before it emits; zero for the
    /// other kinds.
    pub open spec fn remaining(&self) -> int {
        match self {
            Stage::Subsample(s) => s.factor() - s.pending(),
            _ => 0,
        }
    }

    /// A fresh stage built from `op`.
    pub open spec fn built_from(&self, op: OperationParameters) -> bool {
        &&& self.wf()
        &&& self.inputs() == Seq::<i64>::empty()
        &&& self.outputs() == Seq::<i64>::empty()
        &&& match (self, op) {
            (Stage::Identity(_), OperationParameters::Identity(_)) => true,
            (Stage::PID(s), OperationParameters::PID(p)) => s.offset() == p.offset,
            (Stage::DampenedOscillator(_), OperationParameters::DampenedOscillator(_)) => true,
            (Stage::Clip(s), OperationParameters::Clip(p)) => s.min() == p.min && s.max() == p.max,
            (Stage::AtLeast(s), OperationParameters::AtLeast(p)) => s.threshold() == p.val,
            (Stage::Supersample(s), OperationParameters::Supersample(p)) => s.factor() == p.n,
            (Stage::Subsample(s), OperationParameters::Subsample(p)) => s.factor() == p.n && s.pending() == 0,
            (Stage::Average(s), OperationParameters::Average(p)) => s.size() == p.n,
            _ => false,
        }
    }

    /// Builds the stage that `op` describes; `None` when it cannot be built.
    pub fn build(op: OperationParameters) -> (r: Option<Stage<C, F>>)
        ensures
            r is Some <==> buildable(op),
            r matches Some(s) ==> s.built_from(op),
    {
        match op {
            OperationParameters::Identity(p) => Some(Stage::Identity(p.apply())),
            OperationParameters::PID(p) => Some(Stage::PID(p.apply())),
            OperationParameters::DampenedOscillator(p) => Some(Stage::DampenedOscillator(p.apply())),
            OperationParameters::Clip(p) => match p.apply() {
                Some(c) => Some(Stage::Clip(c)),
                None => None,
            },
            OperationParameters::AtLeast(p) => Some(Stage::AtLeast(p.apply())),
            OperationParameters::Supersample(p) => Some(Stage::Supersample(p.apply())),
            OperationParameters::Subsample(p) => Some(Stage::Subsample(p.apply())),
            OperationParameters::Average(p) => match p.apply() {
                Some(a) => Some(Stage::Average(a)),
                None => None,
            },
        }
    }

    /// The line that tells the stage's state after it emitted `v`.
    pub open spec fn state_chars(&self, v: i64) -> Seq<char> {
        match self {
            Stage::Identity(_) => Seq::empty(),
            Stage::PID(s) => report_chars(s.terms().last()),
            Stage::DampenedOscillator(_) => "DampenedOscillator: {\"pos\": "@ + sample_chars(v as int) + "}\n"@,
            Stage::Clip(s) => "Clip: {\"min\": "@ + sample_chars(s.min()) + ", \"max\": "@ + sample_chars(s.max())
                + "}\n"@,
            Stage::AtLeast(s) => "AtLeast: {\"val\": "@ + sample_chars(s.threshold()) + "}\n"@,
            Stage::Supersample(s) => "Supersample: {\"n\": "@ + decimal(s.factor()) + "}\n"@,
            Stage::Subsample(s) => "Subsample: {\"n\": "@ + decimal(s.factor()) + "}\n"@,
            Stage::Average(s) => "Average: {\"n\": "@ + decimal(s.size()) + "}\n"@,
        }
    }

    /// What the stage reports after it emitted `v`: its state, then the value
    /// it passed on. The identity stage reports nothing.
    pub open spec fn report_lines(&self, v: i64) -> Seq<Seq<char>> {
        match self {
            Stage::Identity(_) => Seq::empty(),
            _ => seq![self.state_chars(v), ">:"@ + sample_chars(v as int) + "\n"@],
        }
    }

    /// The text of `state_chars(v)`.
    pub fn state_text(&self, v: i64) -> (r: String)
        requires
            self.wf(),
            self.outputs().len() > 0,
        ensures
            r@ == self.state_chars(v),
    {
        match self {
            Stage::Identity(_) => String::new(),
            Stage::PID(s) => report_text(s.last_terms()),
            Stage::DampenedOscillator(_) => {
                let r = concat("DampenedOscillator: {\"pos\": ", sample_text(v).as_str());
                concat(r.as_str(), "}\n")
            },
            Stage::Clip(s) => {
                let (min, max) = s.range();
                let r = concat("Clip: {\"min\": ", sample_text(min).as_str());
                let r = concat(r.as_str(), ", \"max\": ");
                let r = concat(r.as_str(), sample_text(max).as_str());
                concat(r.as_str(), "}\n")
            },
            Stage::AtLeast(s) => {
                let r = concat("AtLeast: {\"val\": ", sample_text(s.threshold_value()).as_str());
                concat(r.as_str(), "}\n")
            },
            Stage::Supersample(s) => {
                let r = concat("Supersample: {\"n\": ", decimal_text(s.n() as u64).as_str());
                concat(r.as_str(), "}\n")
            },
            Stage::Subsample(s) => {
                let r = concat("Subsample: {\"n\": ", decimal_text(s.n() as u64).as_str());
                concat(r.as_str(), "}\n")
            },
            Stage::Average(s) => {
                let r = concat("Average: {\"n\": ", decimal_text(s.window_size() as u64).as_str());
                concat(r.as_str(), "}\n")
            },
        }
    }

    /// Whether the stage reports at all (the identity stage does not).
    pub fn reports(&self) -> (r: bool)
        ensures
            r == !(*self is Identity),
    {
        match self {
            Stage::Identity(_) => false,
            _ => true,
        }
    }

    /// Whether the next output can come without a new input.
    pub fn has_repeat(&self) -> (r: bool)
        requires
            self.wf(),
        ensures
            r == self.owes_repeat(),
    {
        match self {
            Stage::Supersample(s) => {
                proof {
                    s.lemma_outputs_bounded();
                }
                !s.needs_input()
            },
            _ => false,
        }
    }

    /// Emits the next output without taking an input.
    pub fn repeat(&mut self) -> (r: i64)
        requires
            old(self).wf(),
            old(self).owes_repeat(),
        ensures
            final(self).wf(),
            final(self).inputs() == old(self).inputs(),
            final(self).outputs() == old(self).outputs().push(r),
            r == old(self).inputs().last(),
    {
        match self {
            Stage::Supersample(s) => s.repeat(),
            _ => 0,
        }
    }

    /// Feeds one input; returns the output it gives, if any (only a subsample
    /// that is still dropping gives none).
    pub fn step(&mut self, val: i64) -> (r: Option<i64>)
        requires
            old(self).wf(),
            !old(self).owes_repeat(),
        ensures
            final(self).wf(),
            !(*old(self) is Subsample) ==> r is Some,
            final(self).inputs() == old(self).inputs().push(val),
            r matches Some(o) ==> final(self).outputs() == old(self).outputs().push(o),
            r is None ==> final(self).outputs() == old(self).outputs(),
            r is None ==> 0 <= final(self).remaining() < old(self).remaining(),
            r is None ==> !final(self).owes_repeat(),
    {
        match self {
            Stage::Identity(s) => Some(s.next(val)),
            Stage::PID(s) => Some(s.next(val)),
            Stage::DampenedOscillator(s) => Some(s.next(val)),
            Stage::Clip(s) => Some(s.next(val)),
            Stage::AtLeast(s) => Some(s.next(val)),
            Stage::Supersample(s) => {
                proof {
                    s.lemma_outputs_bounded();
                }
                Some(s.accept(val))
            },
            Stage::Subsample(s) => s.accept(val),
            Stage::Average(s) => Some(s.next(val)),
        }
    }
}

} // verus!
