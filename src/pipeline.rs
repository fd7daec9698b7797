//! The chain of stages between the sensor and the sink: built from a list of
//! descriptions, and pulled one output at a time.

use vstd::prelude::*;
use std::sync::mpsc::Sender;

use crate::monitor::{clone_sender, Monitor};
use crate::oscillator::Follower;
use crate::pid::{report_text, Controller};
use crate::parameters::{
    AverageParameters, ClipParameters, DampenedOscillatorParameters, PIDParameters,
    SubsampleParameters, SupersampleParameters,
};
use crate::stage::{buildable, OperationParameters, Stage};
use crate::text::{concat, sample_text};

verus! {

/// Where the samples come from.
#[derive(Debug, PartialEq, Eq)]
pub enum Input {
    /// The Raspberry Pi's CPU temperature.
    RPiCpuTemp,
    /// A program that prints one number.
    External(String),
}

/// Where the chain's output goes.
#[derive(Debug, PartialEq, Eq)]
pub enum Output {
    /// The hardware PWM line.
    PWM,
    /// A program that takes the value as its argument.
    External(String),
}

/// A whole control loop: input, stages in order, output, and the period of
/// the loop in milliseconds.
pub struct Pipeline {
    pub input: Input,
    pub operations: Vec<OperationParameters>,
    pub output: Output,
    pub sample_rate: u64,
}

/// The stages of the built-in loop, used when no configuration is given:
/// `Average(5)`, a PID with offset 30, `Clip(30, 100)`, `Supersample(100)`,
/// two damped oscillators, `Clip(30, 100)` and `Subsample(4)`.
pub open spec fn default_operations() -> Seq<OperationParameters> {
    seq![
        OperationParameters::Average(AverageParameters { n: 5 }),
        OperationParameters::PID(PIDParameters {
            kp: 2000,
            ki: 2000,
            kd: 5000,
            p_limit: 100_000,
            i_limit: 10_000,
            d_limit: 30_000,
            setpoint: 35_000,
            offset: 30,
        }),
        OperationParameters::Clip(ClipParameters { min: 30_000, max: 100_000 }),
        OperationParameters::Supersample(SupersampleParameters { n: 100 }),
        OperationParameters::DampenedOscillator(DampenedOscillatorParameters { m: 500, k: 2000, dt: 250, target: 0 }),
        OperationParameters::DampenedOscillator(DampenedOscillatorParameters { m: 1000, k: 1000, dt: 250, target: 0 }),
        OperationParameters::Clip(ClipParameters { min: 30_000, max: 100_000 }),
        OperationParameters::Subsample(SubsampleParameters { n: 4 }),
    ]
}

impl Pipeline {
    /// The built-in loop: CPU temperature in, the default stages, PWM out,
    /// one tick per second.
    pub fn default_pipeline() -> (r: Pipeline)
        ensures
            r.input == Input::RPiCpuTemp,
            r.output == Output::PWM,
            r.sample_rate == 1000,
            r.operations@ == default_operations(),
    {
        let mut operations: Vec<OperationParameters> = Vec::new();
        operations.push(OperationParameters::Average(AverageParameters { n: 5 }));
        operations.push(OperationParameters::PID(PIDParameters {
            kp: 2000,
            ki: 2000,
            kd: 5000,
            p_limit: 100_000,
            i_limit: 10_000,
            d_limit: 30_000,
            setpoint: 35_000,
            offset: 30,
        }));
        operations.push(OperationParameters::Clip(ClipParameters { min: 30_000, max: 100_000 }));
        operations.push(OperationParameters::Supersample(SupersampleParameters { n: 100 }));
        operations.push(OperationParameters::DampenedOscillator(DampenedOscillatorParameters { m: 500, k: 2000, dt: 250, target: 0 }));
        operations.push(OperationParameters::DampenedOscillator(DampenedOscillatorParameters { m: 1000, k: 1000, dt: 250, target: 0 }));
        operations.push(OperationParameters::Clip(ClipParameters { min: 30_000, max: 100_000 }));
        operations.push(OperationParameters::Subsample(SubsampleParameters { n: 4 }));
        let r = Pipeline { input: Input::RPiCpuTemp, operations, output: Output::PWM, sample_rate: 1000 };
        proof {
            assert(r.operations@ =~= default_operations());
        }
        r
    }

    /// Builds the chain of this pipeline's stages (see `Chain::assemble`).
    pub fn assemble<C: Controller, F: Follower>(&self, tx: Option<&Sender<String>>) -> (r: Result<Chain<C, F>, ConfigError>)
        ensures
            r is Ok <==> forall|i: int| 0 <= i < self.operations@.len() ==> buildable(#[trigger] self.operations@[i]),
            r matches Ok(c) ==> {
                &&& c.wf()
                &&& c.stages().len() == self.operations@.len()
                &&& c.samples() == Seq::<i64>::empty()
                &&& c.answers() == Seq::<Option<i64>>::empty()
                &&& !c.exhausted()
                &&& c.monitored() == (tx is Some)
                &&& forall|i: int| 0 <= i < self.operations@.len() ==> #[trigger] c.stages()[i].built_from(self.operations@[i])
                &&& forall|i: int| 0 <= i < self.operations@.len() ==> (#[trigger] c.monitors()[i] matches Some(m) ==> m.sent()
                    == Seq::<Seq<char>>::empty())
            },
            r matches Err(e) ==> {
                &&& e.stage < self.operations@.len()
                &&& !buildable(self.operations@[e.stage as int])
                &&& forall|i: int| 0 <= i < e.stage ==> buildable(#[trigger] self.operations@[i])
            },
    {
        Chain::assemble(&self.operations, tx)
    }
}

/// An output that runs a program with the value as its argument.
#[derive(Debug, PartialEq, Eq)]
pub struct External {
    pub cmd: String,
}

/// The source of the samples.
pub trait Sensor {
    /// The next sample in thousandths, or `None` when there are no more.
    fn next_sample(&mut self) -> Option<i64>;
}

/// The description at position `stage` cannot be built.
#[derive(Clone, Copy, Debug, PartialEq, Eq)]
pub struct ConfigError {
    pub stage: usize,
}

/// Stage `j` of `stages` is well formed and has taken exactly the outputs of
/// stage `j - 1`.
pub open spec fn follows<C: Controller, F: Follower>(stages: Seq<Stage<C, F>>, j: int) -> bool {
    &&& stages[j].wf()
    &&& stages[j].inputs() == stages[j - 1].outputs()
}

/// The live chain of stages.
pub struct Chain<C, F> {
    stages: Vec<Stage<C, F>>,
    done: bool,
    monitors: Vec<Option<Monitor>>,
    monitored: Ghost<bool>,
    fed: Ghost<Seq<i64>>,
    answers: Ghost<Seq<Option<i64>>>,
}

impl<C: Controller, F: Follower> Chain<C, F> {
    /// The stages, in order.
    pub closed spec fn stages(&self) -> Seq<Stage<C, F>> {
        self.stages@
    }

    /// The samples taken from the sensor so far, oldest first.
    pub closed spec fn samples(&self) -> Seq<i64> {
        self.fed@
    }

    /// The monitor of each stage, in order.
    pub closed spec fn monitors(&self) -> Seq<Option<Monitor>> {
        self.monitors@
    }

    /// Whether the stages report to a monitoring channel.
    pub closed spec fn monitored(&self) -> bool {
        self.monitored@
    }

    /// Either every stage has a monitor or none has; stage `j`'s is tagged `j`.
    pub open spec fn tagged(&self) -> bool {
        forall|j: int| 0 <= j < self.stages().len() ==> {
            &&& (#[trigger] self.monitors()[j] is Some) == self.monitored()
            &&& self.monitors()[j] matches Some(m) ==> m.id() == j
        }
    }

    /// Every answer of the sensor so far, oldest first.
    pub closed spec fn answers(&self) -> Seq<Option<i64>> {
        self.answers@
    }

    /// The sensor has answered `None`; the chain will never ask it again.
    pub closed spec fn exhausted(&self) -> bool {
        self.done
    }

    pub fn is_exhausted(&self) -> (r: bool)
        ensures
            r == self.exhausted(),
    {
        self.done
    }

    /// The samples are the sensor's answers up to the first `None`, which is
    /// the last answer.
    pub closed spec fn shape(&self) -> bool {
        &&& self.monitors@.len() == self.stages@.len()
        &&& self.answers@.len() == self.fed@.len() + if self.done { 1int } else { 0 }
        &&& forall|i: int| 0 <= i < self.fed@.len() ==> self.answers@[i] == Some(#[trigger] self.fed@[i])
        &&& self.done ==> self.answers@.last() is None
    }

    /// What position `k` has been handed: the samples for the first stage,
    /// the outputs of stage `k - 1` for the others and for the chain's end.
    pub open spec fn received(&self, k: int) -> Seq<i64> {
        if k == 0 {
            self.samples()
        } else {
            self.stages()[k - 1].outputs()
        }
    }

    /// Stage `k` is well formed and has taken exactly what it was handed.
    pub open spec fn linked(&self, k: int) -> bool {
        &&& self.stages()[k].wf()
        &&& self.stages()[k].inputs() == self.received(k)
    }

    pub open spec fn wf(&self) -> bool {
        &&& self.shape()
        &&& self.tagged()
        &&& forall|k: int| 0 <= k < self.stages().len() ==> #[trigger] self.linked(k)
    }

    /// What the chain has emitted so far, oldest first.
    pub open spec fn outputs(&self) -> Seq<i64> {
        self.received(self.stages().len() as int)
    }

    /// Builds the stages that `operations` describe, in their order, each with
    /// a monitor tagged with its position when `tx` is given. Fails on the
    /// first description that cannot be built.
    pub fn assemble(operations: &Vec<OperationParameters>, tx: Option<&Sender<String>>) -> (r: Result<
        Chain<C, F>,
        ConfigError,
    >)
        ensures
            r is Ok <==> forall|i: int| 0 <= i < operations@.len() ==> buildable(#[trigger] operations@[i]),
            r matches Ok(c) ==> {
                &&& c.wf()
                &&& c.stages().len() == operations@.len()
                &&& c.samples() == Seq::<i64>::empty()
                &&& c.answers() == Seq::<Option<i64>>::empty()
                &&& !c.exhausted()
                &&& c.monitored() == (tx is Some)
                &&& forall|i: int| 0 <= i < operations@.len() ==> #[trigger] c.stages()[i].built_from(operations@[i])
                &&& forall|i: int| 0 <= i < operations@.len() ==> (#[trigger] c.monitors()[i] matches Some(m) ==> m.sent()
                    == Seq::<Seq<char>>::empty())
            },
            r matches Err(e) ==> {
                &&& e.stage < operations@.len()
                &&& !buildable(operations@[e.stage as int])
                &&& forall|i: int| 0 <= i < e.stage ==> buildable(#[trigger] operations@[i])
            },
    {
        let mut stages: Vec<Stage<C, F>> = Vec::new();
        let mut monitors: Vec<Option<Monitor>> = Vec::new();
        let mut i: usize = 0;
        while i < operations.len()
            invariant
                i <= operations@.len(),
                stages@.len() == i,
                monitors@.len() == i,
                forall|j: int| 0 <= j < i ==> (#[trigger] monitors@[j] is Some) == (tx is Some),
                forall|j: int| 0 <= j < i ==> (#[trigger] monitors@[j] matches Some(m) ==> m.id() == j && m.sent()
                    == Seq::<Seq<char>>::empty()),
                forall|j: int| 0 <= j < i ==> buildable(#[trigger] operations@[j]),
                forall|j: int| 0 <= j < i ==> #[trigger] stages@[j].built_from(operations@[j]),
            decreases operations@.len() - i,
        {
            match Stage::build(operations[i]) {
                Some(s) => stages.push(s),
                None => {
                    return Err(ConfigError { stage: i });
                },
            }
            let monitor = match tx {
                Some(t) => Some(Monitor::new(i, clone_sender(t))),
                None => None,
            };
            monitors.push(monitor);
            i = i + 1;
        }
        let c = Chain { stages, done: false, monitors, monitored: Ghost(tx is Some), fed: Ghost(Seq::empty()), answers: Ghost(Seq::empty()) };
        proof {
            assert forall|k: int| 0 <= k < c.stages().len() implies #[trigger] c.linked(k) by {
                assert(c.stages()[k].built_from(operations@[k]));
                if k > 0 {
                    assert(c.stages()[k - 1].built_from(operations@[k - 1]));
                }
            }
        }
        Ok(c)
    }

    /// Reports what stage `k` did after it emitted `v`: its state line, then
    /// the value it passed on (see `Stage::report_lines`), each prefixed with
    /// `k` by the stage's monitor.
    fn report(&mut self, k: usize, v: i64)
        requires
            old(self).shape(),
            old(self).tagged(),
            k < old(self).stages().len(),
            old(self).stages()[k as int].wf(),
            old(self).stages()[k as int].outputs().len() > 0,
        ensures
            final(self).shape(),
            final(self).tagged(),
            final(self).stages() == old(self).stages(),
            final(self).samples() == old(self).samples(),
            final(self).answers() == old(self).answers(),
            final(self).exhausted() == old(self).exhausted(),
            final(self).monitored() == old(self).monitored(),
            forall|j: int| 0 <= j < old(self).stages().len() && j != k ==> final(self).monitors()[j] == old(self).monitors()[j],
            old(self).monitors()[k as int] is None ==> final(self).monitors()[k as int] is None,
            old(self).monitors()[k as int] matches Some(m) ==> final(self).monitors()[k as int] matches Some(n) && n.id()
                == m.id() && n.sent() == m.sent() + old(self).stages()[k as int].report_lines(v).map_values(
                |l: Seq<char>| m.line_chars(l),
            ),
    {
        let reports = self.stages[k].reports();
        let state = if reports {
            self.stages[k].state_text(v)
        } else {
            String::new()
        };
        proof {
            assert(self.monitors()[k as int] is Some == self.monitored());
        }
        match &mut self.monitors[k] {
            Some(m) => {
                if reports {
                    let ghost m0 = *m;
                    let value = sample_text(v);
                    let line = concat(">:", value.as_str());
                    let line = concat(line.as_str(), "\n");
                    let ghost state_chars = state@;
                    let ghost line_chars = line@;
                    let _ = m.send(state);
                    let _ = m.send(line);
                    proof {
                        assert(m.sent() =~= m0.sent() + old(self).stages()[k as int].report_lines(v).map_values(
                            |l: Seq<char>| m0.line_chars(l),
                        ));
                    }
                } else {
                    proof {
                        assert(m.sent() =~= m.sent() + old(self).stages()[k as int].report_lines(v).map_values(
                            |l: Seq<char>| m.line_chars(l),
                        ));
                    }
                }
            },
            None => {},
        }
    }

    /// Takes the sensor's answer: a sample becomes the next input of the
    /// first stage and is returned; `None` ends the chain for good.
    pub fn receive(&mut self, sample: Option<i64>) -> (r: Option<i64>)
        requires
            old(self).shape(),
            !old(self).exhausted(),
        ensures
            final(self).shape(),
            final(self).stages() == old(self).stages(),
            final(self).monitors() == old(self).monitors(),
            final(self).monitored() == old(self).monitored(),
            final(self).answers() == old(self).answers().push(sample),
            r == sample,
            sample is None ==> final(self).exhausted() && final(self).samples() == old(self).samples(),
            sample matches Some(v) ==> !final(self).exhausted() && final(self).samples() == old(self).samples().push(v),
    {
        self.answers = Ghost(self.answers@.push(sample));
        match sample {
            Some(v) => {
                self.fed = Ghost(self.fed@.push(v));
            },
            None => {
                self.done = true;
            },
        }
        sample
    }

    /// The next value handed to position `k`: the sensor's answer for the
    /// first stage, the next output of stage `k - 1` otherwise.
    fn take<S: Sensor>(&mut self, k: usize, sensor: &mut S) -> (r: Option<i64>)
        requires
            old(self).wf(),
            !old(self).exhausted(),
            k <= old(self).stages().len(),
        ensures
            final(self).shape(),
            final(self).tagged(),
            final(self).monitored() == old(self).monitored(),
            final(self).stages().len() == old(self).stages().len(),
            forall|j: int| k <= j < old(self).stages().len() ==> final(self).stages()[j] == old(self).stages()[j],
            forall|j: int| 0 <= j < old(self).stages().len() && j != k ==> #[trigger] final(self).linked(j),
            r matches Some(v) ==> final(self).received(k as int) == old(self).received(k as int).push(v),
            r is None ==> final(self).received(k as int) == old(self).received(k as int),
            r is None <==> final(self).exhausted(),
            old(self).answers().is_prefix_of(final(self).answers()),
            k > 0 && old(self).stages()[k - 1].owes_repeat() ==> r == Some(old(self).stages()[k - 1].inputs().last())
                && final(self).answers() == old(self).answers(),
        decreases 2 * k,
    {
        let ghost pre = self.stages@;
        let r = if k == 0 {
            let sample = sensor.next_sample();
            self.receive(sample)
        } else {
            self.advance(k - 1, sensor)
        };
        proof {
            assert forall|j: int| 0 <= j < old(self).stages().len() && j != k implies #[trigger] self.linked(j) by {
                if j > k {
                    assert(old(self).linked(j));
                    assert(follows(pre, j));
                    assert(self.stages()[j] == pre[j]);
                    assert(self.stages()[j - 1] == pre[j - 1]);
                    assert(follows(self.stages(), j));
                }
            }
        }
        r
    }

    /// The next output of stage `k`.
    fn advance<S: Sensor>(&mut self, k: usize, sensor: &mut S) -> (r: Option<i64>)
        requires
            old(self).wf(),
            !old(self).exhausted(),
            k < old(self).stages().len(),
        ensures
            final(self).shape(),
            final(self).tagged(),
            final(self).monitored() == old(self).monitored(),
            final(self).stages().len() == old(self).stages().len(),
            forall|j: int| k < j < old(self).stages().len() ==> final(self).stages()[j] == old(self).stages()[j],
            forall|j: int| 0 <= j < old(self).stages().len() && j != k + 1 ==> #[trigger] final(self).linked(j),
            r matches Some(v) ==> final(self).stages()[k as int].outputs() == old(self).stages()[k as int].outputs().push(v),
            r is None ==> final(self).stages()[k as int].outputs() == old(self).stages()[k as int].outputs(),
            r is None <==> final(self).exhausted(),
            old(self).answers().is_prefix_of(final(self).answers()),
            old(self).stages()[k as int].owes_repeat() ==> r == Some(old(self).stages()[k as int].inputs().last())
                && final(self).answers() == old(self).answers(),
        decreases 2 * k + 1,
    {
        proof {
            assert(self.linked(k as int));
        }
        if self.stages[k].has_repeat() {
            let v = self.stages[k].repeat();
            proof {
                assert forall|j: int| 0 <= j < old(self).stages().len() && j != k + 1 implies #[trigger] self.linked(j) by {
                    assert(old(self).linked(j));
                }
            }
            let ghost before = *self;
            self.report(k, v);
            proof {
                assert forall|j: int| 0 <= j < old(self).stages().len() && j != k + 1 implies #[trigger] self.linked(j) by {
                    assert(before.linked(j));
                }
            }
            return Some(v);
        }
        loop
            invariant
                self.wf(),
                !self.exhausted(),
                self.monitored() == old(self).monitored(),
                k < self.stages().len(),
                self.stages().len() == old(self).stages().len(),
                !self.stages()[k as int].owes_repeat(),
                !old(self).stages()[k as int].owes_repeat(),
                forall|j: int| k < j < old(self).stages().len() ==> self.stages()[j] == old(self).stages()[j],
                self.stages()[k as int].outputs() == old(self).stages()[k as int].outputs(),
                old(self).answers().is_prefix_of(self.answers()),
            decreases self.stages()[k as int].remaining(),
        {
            let ghost pre = self.stages@;
            let ghost pre_answers = self.answers@;
            proof {
                assert(self.linked(k as int));
                assert forall|j: int| 0 < j < pre.len() implies #[trigger] follows(pre, j) by {
                    assert(self.linked(j));
                }
            }
            let v = match self.take(k, sensor) {
                Some(v) => v,
                None => {
                    proof {
                        assert(self.stages()[k as int] == pre[k as int]);
                        assert(self.linked(k as int));
                        assert(old(self).answers().is_prefix_of(self.answers())) by {
                            assert(old(self).answers() =~= self.answers().subrange(0, old(self).answers().len() as int)) by {
                                assert(pre_answers.subrange(0, old(self).answers().len() as int) =~= old(self).answers());
                                assert(self.answers().subrange(0, pre_answers.len() as int) =~= pre_answers);
                            }
                        }
                    }
                    return None;
                },
            };
            let ghost mid = self.stages@;
            let ghost took = *self;
            proof {
                assert(self.stages()[k as int] == pre[k as int]);
                assert(self.stages()[k as int].wf());
                assert(old(self).answers().is_prefix_of(self.answers())) by {
                    assert(old(self).answers() =~= self.answers().subrange(0, old(self).answers().len() as int)) by {
                        assert(pre_answers.subrange(0, old(self).answers().len() as int) =~= old(self).answers());
                        assert(self.answers().subrange(0, pre_answers.len() as int) =~= pre_answers);
                    }
                }
            }
            let o = self.stages[k].step(v);
            proof {
                assert(self.stages@ == mid.update(k as int, self.stages@[k as int]));
                assert forall|j: int| 0 <= j < self.stages().len() && j != k + 1 implies #[trigger] self.linked(j) by {
                    if j != k as int {
                        assert(self.stages()[j] == mid[j]);
                        if j > 0 && j - 1 != k as int {
                            assert(self.stages()[j - 1] == mid[j - 1]);
                        }
                        if j < k {
                            assert(took.linked(j));
                            assert(self.samples() == took.samples());
                        }
                        if j > k + 1 {
                            assert(follows(pre, j));
                            assert(self.stages()[j] == pre[j]);
                            assert(self.stages()[j - 1] == pre[j - 1]);
                            assert(follows(self.stages(), j));
                        }
                    }
                }
                if o is None {
                    if k + 1 < self.stages().len() {
                        assert(follows(pre, k + 1));
                        assert(self.stages()[k + 1] == pre[k + 1]);
                        assert(follows(self.stages(), k + 1));
                        assert(self.linked(k + 1));
                    }
                }
            }
            match o {
                Some(o) => {
                    let ghost before = *self;
                    self.report(k, o);
                    proof {
                        assert forall|j: int| 0 <= j < old(self).stages().len() && j != k + 1 implies #[trigger] self.linked(j) by {
                            assert(before.linked(j));
                        }
                    }
                    return Some(o);
                },
                None => {},
            }
        }
    }

    /// Pulls the chain's next output: from the sensor through every stage in
    /// order. A supersample that still owes repeats answers without asking
    /// anything upstream. Once the sensor has answered `None`, every pull is
    /// `None` and the sensor is not asked again.
    pub fn pull<S: Sensor>(&mut self, sensor: &mut S) -> (r: Option<i64>)
        requires
            old(self).wf(),
        ensures
            final(self).wf(),
            final(self).stages().len() == old(self).stages().len(),
            r matches Some(v) ==> final(self).outputs() == old(self).outputs().push(v),
            r is None ==> final(self).outputs() == old(self).outputs(),
            r is None <==> final(self).exhausted(),
            final(self).exhausted() ==> final(self).answers().len() > 0 && final(self).answers().last() is None,
            !final(self).exhausted() ==> forall|i: int| 0 <= i < final(self).answers().len() ==> #[trigger] final(self).answers()[i] is Some,
            final(self).monitored() == old(self).monitored(),
            old(self).exhausted() ==> final(self).answers() == old(self).answers() && final(self).stages()
                == old(self).stages() && final(self).monitors() == old(self).monitors(),
            old(self).answers().is_prefix_of(final(self).answers()),
            !old(self).exhausted() && old(self).stages().len() > 0 && old(self).stages().last().owes_repeat() ==> r
                == Some(old(self).stages().last().inputs().last()) && final(self).answers() == old(self).answers(),
    {
        if self.done {
            return None;
        }
        let k = self.stages.len();
        let r = self.take(k, sensor);
        proof {
            if !self.done {
                assert forall|i: int| 0 <= i < self.answers@.len() implies #[trigger] self.answers@[i] is Some by {
                    assert(self.answers@[i] == Some(self.fed@[i]));
                }
            }
        }
        r
    }
}

} // verus!
