use std::cell::Cell;
use std::rc::Rc;

use pifan::oscillator::Follower;
use pifan::parameters::{
    AverageParameters, ClipParameters, DampenedOscillatorParameters, IdentityParameters,
    PIDParameters, SubsampleParameters, SupersampleParameters,
};
use pifan::pid::{Controller, Terms};
use pifan::pipeline::{Chain, ConfigError, Input, Output, Pipeline, Sensor};
use pifan::stage::OperationParameters;

struct Samples {
    values: Vec<i64>,
    next: usize,
    asked: Rc<Cell<usize>>,
}

impl Samples {
    fn new(values: &[i64]) -> Samples {
        Samples { values: values.to_vec(), next: 0, asked: Rc::new(Cell::new(0)) }
    }
}

impl Sensor for Samples {
    fn next_sample(&mut self) -> Option<i64> {
        self.asked.set(self.asked.get() + 1);
        let r = self.values.get(self.next).copied();
        self.next += 1;
        r
    }
}

/// Proportional-only controller with gain -1: its term is minus the reading.
struct Negate;

impl Controller for Negate {
    fn configure(_parameters: &PIDParameters) -> Self {
        Negate
    }

    fn control(&mut self, measurement: i64) -> Terms {
        Terms { p: -measurement, i: 0, d: 0 }
    }
}

/// Jumps straight to its target.
struct Jump;

impl Follower for Jump {
    fn configure(_parameters: &DampenedOscillatorParameters) -> Self {
        Jump
    }

    fn follow(&mut self, target: i64) -> i64 {
        target
    }
}

fn chain(ops: Vec<OperationParameters>) -> Chain<Negate, Jump> {
    Chain::assemble(&ops, None).ok().unwrap()
}

fn drain(c: &mut Chain<Negate, Jump>, s: &mut Samples) -> Vec<i64> {
    let mut out = Vec::new();
    while let Some(v) = c.pull(s) {
        out.push(v);
    }
    out
}

#[test]
fn average_pipeline_scenario() {
    let mut c = chain(vec![OperationParameters::Average(AverageParameters { n: 3 })]);
    let mut s = Samples::new(&[10_000, 20_000, 30_000, 40_000]);
    assert_eq!(drain(&mut c, &mut s), vec![10_000, 15_000, 20_000, 30_000]);
}

#[test]
fn empty_chain_is_the_sensor() {
    let mut c = chain(vec![]);
    let mut s = Samples::new(&[1, 2, 3]);
    assert_eq!(drain(&mut c, &mut s), vec![1, 2, 3]);
}

#[test]
fn exhausted_chain_never_asks_the_sensor_again() {
    let mut c = chain(vec![OperationParameters::Identity(IdentityParameters)]);
    let mut s = Samples::new(&[5]);
    let asked = s.asked.clone();
    assert_eq!(c.pull(&mut s), Some(5));
    assert_eq!(c.pull(&mut s), None);
    assert_eq!(c.pull(&mut s), None);
    assert_eq!(c.pull(&mut s), None);
    assert_eq!(asked.get(), 2);
}

#[test]
fn supersample_then_subsample_in_chain() {
    let mut c = chain(vec![
        OperationParameters::Supersample(SupersampleParameters { n: 2 }),
        OperationParameters::Subsample(SubsampleParameters { n: 2 }),
    ]);
    let mut s = Samples::new(&[1, 2, 3, 4, 5, 6]);
    // 1 1 2 2 3 3 4 4 5 5 6 6 -> every third
    assert_eq!(drain(&mut c, &mut s), vec![2, 3, 5, 6]);
}

#[test]
fn supersample_pulls_upstream_once_per_n_outputs() {
    let mut c = chain(vec![OperationParameters::Supersample(SupersampleParameters { n: 4 })]);
    let mut s = Samples::new(&[7, 8]);
    let asked = s.asked.clone();
    for _ in 0..4 {
        assert_eq!(c.pull(&mut s), Some(7));
    }
    assert_eq!(asked.get(), 1);
    assert_eq!(c.pull(&mut s), Some(8));
    assert_eq!(asked.get(), 2);
}

#[test]
fn subsample_drives_upstream_n_extra_times() {
    let mut c = chain(vec![
        OperationParameters::Identity(IdentityParameters),
        OperationParameters::Subsample(SubsampleParameters { n: 3 }),
    ]);
    let mut s = Samples::new(&[1, 2, 3, 4, 5, 6, 7, 8, 9]);
    let asked = s.asked.clone();
    assert_eq!(c.pull(&mut s), Some(4));
    assert_eq!(asked.get(), 4);
    assert_eq!(c.pull(&mut s), Some(8));
    assert_eq!(c.pull(&mut s), None);
}

#[test]
fn pid_and_clip_in_chain() {
    let mut c = chain(vec![
        OperationParameters::PID(PIDParameters {
            kp: 1000,
            ki: 0,
            kd: 0,
            p_limit: 0,
            i_limit: 0,
            d_limit: 0,
            setpoint: 0,
            offset: 30,
        }),
        OperationParameters::Clip(ClipParameters { min: 30_000, max: 100_000 }),
    ]);
    let mut s = Samples::new(&[45_500, 1_000_000, -5]);
    // Negate gives p = -reading: 45 units, capped at 100, then nothing.
    assert_eq!(drain(&mut c, &mut s), vec![75_000, 100_000, 30_000]);
}

#[test]
fn oscillator_stage_uses_the_follower() {
    let mut c = chain(vec![OperationParameters::DampenedOscillator(DampenedOscillatorParameters {
        m: 1000,
        k: 1000,
        dt: 250,
        target: 0,
    })]);
    let mut s = Samples::new(&[3, 4]);
    assert_eq!(drain(&mut c, &mut s), vec![3, 4]);
}

#[test]
fn assemble_reports_first_invalid_stage() {
    let ops = vec![
        OperationParameters::Identity(IdentityParameters),
        OperationParameters::Average(AverageParameters { n: 0 }),
        OperationParameters::Clip(ClipParameters { min: 5, max: 1 }),
    ];
    let r: Result<Chain<Negate, Jump>, ConfigError> = Chain::assemble(&ops, None);
    assert_eq!(r.err(), Some(ConfigError { stage: 1 }));
}

#[test]
fn default_pipeline_has_eight_stages() {
    let p = Pipeline::default_pipeline();
    assert_eq!(p.operations.len(), 8);
    assert_eq!(p.input, Input::RPiCpuTemp);
    assert_eq!(p.output, Output::PWM);
    assert_eq!(p.sample_rate, 1000);
    let c: Result<Chain<Negate, Jump>, ConfigError> = p.assemble(None);
    assert!(c.is_ok());
}

#[test]
fn monitored_chain_reports_state_then_output() {
    let (tx, rx) = std::sync::mpsc::channel();
    let ops = vec![
        OperationParameters::Identity(IdentityParameters),
        OperationParameters::Clip(ClipParameters { min: 0, max: 50_000 }),
    ];
    let mut c: Chain<Negate, Jump> = Chain::assemble(&ops, Some(&tx)).ok().unwrap();
    let mut s = Samples::new(&[60_500]);
    assert_eq!(c.pull(&mut s), Some(50_000));
    let lines: Vec<String> = rx.try_iter().collect();
    assert_eq!(
        lines,
        vec![
            "1: Clip: {\"min\": 0.000, \"max\": 50.000}\n".to_string(),
            "1: >:50.000\n".to_string()
        ]
    );
}

#[test]
fn monitored_pid_reports_terms_before_output() {
    let (tx, rx) = std::sync::mpsc::channel();
    let ops = vec![OperationParameters::PID(PIDParameters {
        kp: 1000,
        ki: 0,
        kd: 0,
        p_limit: 0,
        i_limit: 0,
        d_limit: 0,
        setpoint: 0,
        offset: 30,
    })];
    let mut c: Chain<Negate, Jump> = Chain::assemble(&ops, Some(&tx)).ok().unwrap();
    let mut s = Samples::new(&[12_250]);
    assert_eq!(c.pull(&mut s), Some(42_000));
    let lines: Vec<String> = rx.try_iter().collect();
    assert_eq!(
        lines,
        vec![
            "0: PID: {\"P\": 12.250, \"I\": 0.000, \"D\": 0.000}\n".to_string(),
            "0: >:42.000\n".to_string()
        ]
    );
}

#[test]
fn supersample_stream_ends_after_repeats() {
    let mut c = chain(vec![OperationParameters::Supersample(SupersampleParameters { n: 3 })]);
    let mut s = Samples::new(&[1_000, 2_000]);
    assert_eq!(drain(&mut c, &mut s), vec![1_000, 1_000, 1_000, 2_000, 2_000, 2_000]);
    assert!(c.is_exhausted());
}

#[test]
fn subsample_of_four_on_one_to_ten() {
    let mut c = chain(vec![OperationParameters::Subsample(SubsampleParameters { n: 4 })]);
    let input: Vec<i64> = (1..=10).map(|x| x * 1000).collect();
    let mut s = Samples::new(&input);
    assert_eq!(c.pull(&mut s), Some(5_000));
    assert_eq!(c.pull(&mut s), Some(10_000));
    assert_eq!(c.pull(&mut s), None);
}

#[test]
fn subsample_trailing_group_emits_nothing() {
    let mut c = chain(vec![OperationParameters::Subsample(SubsampleParameters { n: 2 })]);
    let mut s = Samples::new(&[1_000, 2_000, 3_000, 4_000]);
    assert_eq!(c.pull(&mut s), Some(3_000));
    assert_eq!(c.pull(&mut s), None);
}

#[test]
fn average_stream_ends_with_sensor() {
    let mut c = chain(vec![OperationParameters::Average(AverageParameters { n: 5 })]);
    let mut s = Samples::new(&[42_500]);
    assert_eq!(c.pull(&mut s), Some(42_500));
    assert_eq!(c.pull(&mut s), None);
    assert_eq!(c.pull(&mut s), None);
    assert_eq!(s.asked.get(), 2);
}

#[test]
fn exhausted_chain_sends_no_report() {
    let (tx, rx) = std::sync::mpsc::channel();
    let ops = vec![OperationParameters::Clip(ClipParameters { min: 0, max: 1_000 })];
    let mut c: Chain<Negate, Jump> = Chain::assemble(&ops, Some(&tx)).ok().unwrap();
    let mut s = Samples::new(&[]);
    assert_eq!(c.pull(&mut s), None);
    assert_eq!(c.pull(&mut s), None);
    assert_eq!(rx.try_iter().count(), 0);
}

#[test]
fn identity_stage_reports_nothing() {
    let (tx, rx) = std::sync::mpsc::channel();
    let ops = vec![OperationParameters::Identity(IdentityParameters)];
    let mut c: Chain<Negate, Jump> = Chain::assemble(&ops, Some(&tx)).ok().unwrap();
    let mut s = Samples::new(&[7]);
    assert_eq!(c.pull(&mut s), Some(7));
    assert_eq!(rx.try_iter().count(), 0);
}

#[test]
fn receive_records_sensor_answer() {
    let mut c = chain(vec![]);
    assert_eq!(c.receive(Some(4)), Some(4));
    assert!(!c.is_exhausted());
    assert_eq!(c.receive(None), None);
    assert!(c.is_exhausted());
}

#[test]
fn each_stage_reports_under_its_position() {
    let (tx, rx) = std::sync::mpsc::channel();
    let ops = vec![
        OperationParameters::AtLeast(pifan::parameters::AtLeastParameters { val: 1_000 }),
        OperationParameters::Average(AverageParameters { n: 2 }),
        OperationParameters::Supersample(SupersampleParameters { n: 1 }),
        OperationParameters::Subsample(SubsampleParameters { n: 0 }),
    ];
    let mut c: Chain<Negate, Jump> = Chain::assemble(&ops, Some(&tx)).ok().unwrap();
    let mut s = Samples::new(&[2_000]);
    assert_eq!(c.pull(&mut s), Some(2_000));
    let lines: Vec<String> = rx.try_iter().collect();
    assert_eq!(
        lines,
        vec![
            "0: AtLeast: {\"val\": 1.000}\n",
            "0: >:2.000\n",
            "1: Average: {\"n\": 2}\n",
            "1: >:2.000\n",
            "2: Supersample: {\"n\": 1}\n",
            "2: >:2.000\n",
            "3: Subsample: {\"n\": 0}\n",
            "3: >:2.000\n",
        ]
    );
}
