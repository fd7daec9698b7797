//! The decisions of the sampling loop: which values reach the sink, and when
//! the loop stops. The loop itself (sleeping, pulling, pushing) runs outside.

use vstd::prelude::*;

verus! {

/// A sample (in thousandths) rounded to hundredths, halves away from zero.
pub open spec fn hundredths(v: int) -> int {
    if v >= 0 {
        (v + 5) / 10
    } else {
        -((-v + 5) / 10)
    }
}

/// Whether `v` reaches the sink after `last` was forwarded: it is the first
/// value, or it rounds to other hundredths.
pub open spec fn forwards(last: Option<i64>, v: i64) -> bool {
    match last {
        None => true,
        Some(l) => hundredths(l as int) != hundredths(v as int),
    }
}

/// What the loop does with one pulled sample.
#[derive(Clone, Copy, Debug, PartialEq, Eq)]
pub enum Action {
    /// Push this value to the sink.
    Forward(i64),
    /// Leave the sink as it is.
    Skip,
    /// End the loop.
    Stop,
}

/// The state of the sampling loop.
pub struct Scheduler {
    last: Option<i64>,
    stopped: bool,
}

impl Scheduler {
    /// The value most recently forwarded, if any.
    pub closed spec fn last_forwarded(&self) -> Option<i64> {
        self.last
    }

    pub closed spec fn is_stopped(&self) -> bool {
        self.stopped
    }

    /// A running loop that has forwarded nothing yet.
    pub fn new() -> (r: Scheduler)
        ensures
            r.last_forwarded() is None,
            !r.is_stopped(),
    {
        Scheduler { last: None, stopped: false }
    }

    pub fn stopped(&self) -> (r: bool)
        ensures
            r == self.is_stopped(),
    {
        self.stopped
    }

    fn rounded(v: i64) -> (r: i64)
        ensures
            r == hundredths(v as int),
    {
        if v >= 0 {
            ((v as i128 + 5) / 10) as i64
        } else {
            (-((-(v as i128) + 5) / 10)) as i64
        }
    }

    /// Whether `v` would be forwarded: it is the first value, or its rounding
    /// to hundredths differs from that of the last value forwarded.
    pub fn changes_output(&self, v: i64) -> (r: bool)
        ensures
            r == forwards(self.last_forwarded(), v),
    {
        match self.last {
            None => true,
            Some(last) => Self::rounded(last) != Self::rounded(v),
        }
    }

    /// Decides what to do with the outcome of one pull of the chain: stop when
    /// it is exhausted, else forward the value if it changes the output.
    pub fn on_sample(&mut self, sample: Option<i64>) -> (r: Action)
        ensures
            old(self).is_stopped() || sample is None ==> r == Action::Stop && final(self).is_stopped()
                && final(self).last_forwarded() == old(self).last_forwarded(),
            !old(self).is_stopped() && sample is Some ==> !final(self).is_stopped(),
            !old(self).is_stopped() && sample is Some && forwards(old(self).last_forwarded(), sample->Some_0)
                ==> r == Action::Forward(sample->Some_0) && final(self).last_forwarded() == sample,
            !old(self).is_stopped() && sample is Some && !forwards(old(self).last_forwarded(), sample->Some_0)
                ==> r == Action::Skip && final(self).last_forwarded() == old(self).last_forwarded(),
    {
        if self.stopped {
            return Action::Stop;
        }
        match sample {
            None => {
                self.stopped = true;
                Action::Stop
            },
            Some(v) => {
                if self.changes_output(v) {
                    self.last = Some(v);
                    Action::Forward(v)
                } else {
                    Action::Skip
                }
            },
        }
    }

    /// The sink refused a value: the loop ends.
    pub fn on_sink_failure(&mut self)
        ensures
            final(self).is_stopped(),
            final(self).last_forwarded() == old(self).last_forwarded(),
    {
        self.stopped = true;
    }
}

} // verus!
