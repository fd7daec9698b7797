use pifan::parameters::{
    AtLeastParameters, AverageParameters, ClipParameters, IdentityParameters, SubsampleParameters,
    SupersampleParameters,
};
use pifan::pid::{pid_output, Terms};

fn run_average(n: usize, input: &[i64]) -> Vec<i64> {
    let mut avg = AverageParameters { n }.apply().unwrap();
    input.iter().map(|v| avg.next(*v)).collect()
}

#[test]
fn average_partial_then_ring_mean() {
    assert_eq!(
        run_average(3, &[10_000, 20_000, 30_000, 40_000]),
        vec![10_000, 15_000, 20_000, 30_000]
    );
}

#[test]
fn average_of_constant_stays_constant() {
    for n in 1..6 {
        let out = run_average(n, &[42_500; 12]);
        assert!(out.iter().all(|v| *v == 42_500));
    }
    let out = run_average(4, &[-7_001; 9]);
    assert!(out.iter().all(|v| *v == -7_001));
}

#[test]
fn average_window_of_one_passes_through() {
    assert_eq!(run_average(1, &[3, -8, 11]), vec![3, -8, 11]);
}

#[test]
fn average_mean_truncates_toward_zero() {
    assert_eq!(run_average(2, &[1, 2, 4]), vec![1, 1, 3]);
    assert_eq!(run_average(2, &[-1, -2, -4]), vec![-1, -1, -3]);
}

#[test]
fn average_window_wraps_several_times() {
    assert_eq!(
        run_average(2, &[0, 10, 20, 30, 40, 50]),
        vec![0, 5, 15, 25, 35, 45]
    );
}

#[test]
fn average_extreme_values_do_not_overflow() {
    assert_eq!(run_average(2, &[i64::MAX, i64::MAX]), vec![i64::MAX, i64::MAX]);
    assert_eq!(run_average(2, &[i64::MIN, i64::MIN]), vec![i64::MIN, i64::MIN]);
}

#[test]
fn average_of_zero_window_is_refused() {
    assert!(AverageParameters { n: 0 }.apply().is_none());
}

#[test]
fn clip_boundaries_and_far_values() {
    let mut clip = ClipParameters { min: 30_000, max: 100_000 }.apply().unwrap();
    assert_eq!(clip.next(29_999), 30_000);
    assert_eq!(clip.next(100_001), 100_000);
    assert_eq!(clip.next(30_000), 30_000);
    assert_eq!(clip.next(100_000), 100_000);
    assert_eq!(clip.next(55_555), 55_555);
    assert_eq!(clip.next(i64::MIN), 30_000);
    assert_eq!(clip.next(i64::MAX), 100_000);
    assert_eq!(clip.next(-5_000), 30_000);
}

#[test]
fn clip_output_always_within_range() {
    let mut clip = ClipParameters { min: -2_500, max: 7_250 }.apply().unwrap();
    for v in (-20_000..20_000).step_by(37) {
        let out = clip.next(v);
        assert!(-2_500 <= out && out <= 7_250);
    }
}

#[test]
fn clip_with_empty_range_is_refused() {
    assert!(ClipParameters { min: 2, max: 1 }.apply().is_none());
    assert!(ClipParameters { min: 1, max: 1 }.apply().is_some());
}

#[test]
fn at_least_forces_low_values_to_zero() {
    let mut at_least = AtLeastParameters { val: 20_000 }.apply();
    assert_eq!(at_least.next(19_999), 0);
    assert_eq!(at_least.next(20_000), 20_000);
    assert_eq!(at_least.next(65_432), 65_432);
    assert_eq!(at_least.next(-1), 0);
}

#[test]
fn identity_passes_through() {
    let mut id = IdentityParameters.apply();
    assert_eq!(id.next(-12_345), -12_345);
    assert_eq!(id.next(0), 0);
}

fn run_supersample(n: usize, input: &[i64], outputs: usize) -> Vec<i64> {
    let mut st = SupersampleParameters { n }.apply();
    let mut it = input.iter();
    let mut out = Vec::new();
    while out.len() < outputs {
        if st.needs_input() {
            match it.next() {
                Some(v) => out.push(st.accept(*v)),
                None => break,
            }
        } else {
            out.push(st.repeat());
        }
    }
    out
}

#[test]
fn supersample_repeats_each_input() {
    assert_eq!(
        run_supersample(3, &[1, 2, 3], 100),
        vec![1, 1, 1, 2, 2, 2, 3, 3, 3]
    );
}

#[test]
fn supersample_of_one_and_zero_pass_through() {
    assert_eq!(run_supersample(1, &[5, 6, 7], 100), vec![5, 6, 7]);
    assert_eq!(run_supersample(0, &[5, 6, 7], 100), vec![5, 6, 7]);
}

#[test]
fn supersample_asks_for_input_only_when_repeats_are_done() {
    let mut st = SupersampleParameters { n: 2 }.apply();
    assert!(st.needs_input());
    assert_eq!(st.accept(9), 9);
    assert!(!st.needs_input());
    assert_eq!(st.repeat(), 9);
    assert!(st.needs_input());
}

fn run_subsample(n: usize, input: &[i64]) -> Vec<i64> {
    let mut st = SubsampleParameters { n }.apply();
    input.iter().filter_map(|v| st.accept(*v)).collect()
}

#[test]
fn subsample_keeps_every_n_plus_first() {
    let input: Vec<i64> = (1..=12).collect();
    assert_eq!(run_subsample(2, &input), vec![3, 6, 9, 12]);
    assert_eq!(run_subsample(3, &input), vec![4, 8, 12]);
}

#[test]
fn subsample_of_zero_passes_through() {
    assert_eq!(run_subsample(0, &[4, 5, 6]), vec![4, 5, 6]);
}

#[test]
fn subsample_incomplete_group_emits_nothing() {
    assert_eq!(run_subsample(4, &[1, 2, 3, 4]), Vec::<i64>::new());
    assert_eq!(run_subsample(4, &[1, 2, 3, 4, 5, 6]), vec![5]);
}

#[test]
fn pid_output_rectifies_negative_terms() {
    let t = Terms { p: -12_500, i: -3_000, d: 4_000 };
    assert_eq!(pid_output(t, 30), 45_000);
}

#[test]
fn pid_output_ignores_positive_terms() {
    let t = Terms { p: 50_000, i: 1, d: 999_999 };
    assert_eq!(pid_output(t, 30), 30_000);
}

#[test]
fn pid_output_truncates_to_whole_units() {
    let t = Terms { p: -999, i: -999, d: 0 };
    assert_eq!(pid_output(t, 0), 1_000);
}

#[test]
fn pid_output_caps_at_one_hundred_above_offset() {
    let t = Terms { p: i64::MIN, i: i64::MIN, d: i64::MIN };
    assert_eq!(pid_output(t, 30), 130_000);
    assert_eq!(pid_output(t, u32::MAX), (u32::MAX as i64 + 100) * 1000);
}

#[test]
fn pid_output_stays_in_offset_range() {
    for p in (-300_000..300_000).step_by(7_919) {
        for d in [-150_000, -1, 0, 1, 150_000] {
            let out = pid_output(Terms { p, i: -p / 3, d }, 17);
            assert!(17_000 <= out && out <= 117_000);
        }
    }
}
