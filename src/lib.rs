//! A configurable control loop: a sensor sample runs through a chain of stream
//! stages and the result is pushed to an actuator, while every stage can report
//! its state to live observers.
//!
//! Samples are fixed-point numbers: an `i64` counts thousandths of a unit, so
//! `29_999` stands for `29.999`.

pub mod average;
pub mod hub;
pub mod monitor;
pub mod oscillator;
pub mod parameters;
pub mod pid;
pub mod pipeline;
pub mod rate;
pub mod scheduler;
pub mod stage;
pub mod stages;
pub mod text;
