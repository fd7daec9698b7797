//! The PID stage. The controller itself is supplied by the caller; this
//! module owns what the stage makes of the controller's terms.

use vstd::prelude::*;

use crate::parameters::PIDParameters;
use crate::text::{concat, magnitude_chars, magnitude_text};

verus! {

/// The proportional, integral and derivative terms of one control step, in
/// thousandths.
#[derive(Clone, Copy, Debug)]
pub struct Terms {
    pub p: i64,
    pub i: i64,
    pub d: i64,
}

/// A PID controller: one control step per measurement.
pub trait Controller: Sized {
    /// A controller set up as `parameters` describe.
    fn configure(parameters: &PIDParameters) -> Self;

    /// The terms for the next measurement (in thousandths).
    fn control(&mut self, measurement: i64) -> Terms;
}

/// A term counts only by the magnitude of its negative part.
pub open spec fn rectified(t: int) -> int {
    if t < 0 {
        -t
    } else {
        0
    }
}

/// The whole units of the rectified terms' sum, at most 100.
pub open spec fn drive(t: Terms) -> int {
    let units = (rectified(t.p as int) + rectified(t.i as int) + rectified(t.d as int)) / 1000;
    if units > 100 {
        100
    } else {
        units
    }
}

/// The stage's output for the terms `t`: `offset` plus the drive, in thousandths.
pub open spec fn pid_value(t: Terms, offset: u32) -> int {
    (offset + drive(t)) * 1000
}

/// Rectifies the terms, truncates their sum to whole units, caps it at 100 and
/// adds `offset`.
pub fn pid_output(t: Terms, offset: u32) -> (r: i64)
    ensures
        r == pid_value(t, offset),
        offset * 1000 <= r <= (offset + 100) * 1000,
{
    let p: i128 = if t.p < 0 { -(t.p as i128) } else { 0 };
    let i: i128 = if t.i < 0 { -(t.i as i128) } else { 0 };
    let d: i128 = if t.d < 0 { -(t.d as i128) } else { 0 };
    let units = (p + i + d) / 1000;
    let capped: i64 = if units > 100 { 100 } else { units as i64 };
    (offset as i64 + capped) * 1000
}

/// The magnitude of a term's negative part, as `pid_output` counts it.
pub fn rectify(t: i64) -> (r: u64)
    ensures
        r == rectified(t as int),
{
    if t < 0 {
        (-(t as i128)) as u64
    } else {
        0
    }
}

/// The report of a control step: the rectified terms as a JSON object,
/// `PID: {"P": 1.500, "I": 0.000, "D": 0.250}` and a newline.
pub open spec fn report_chars(t: Terms) -> Seq<char> {
    seq!['P', 'I', 'D', ':', ' ', '{', '"', 'P', '"', ':', ' '] + magnitude_chars(rectified(t.p as int) as nat)
        + seq![',', ' ', '"', 'I', '"', ':', ' '] + magnitude_chars(rectified(t.i as int) as nat)
        + seq![',', ' ', '"', 'D', '"', ':', ' '] + magnitude_chars(rectified(t.d as int) as nat)
        + seq!['}', '\n']
}

/// The text of `report_chars(t)`.
pub fn report_text(t: Terms) -> (r: String)
    ensures
        r@ == report_chars(t),
{
    let p = magnitude_text(rectify(t.p));
    let i = magnitude_text(rectify(t.i));
    let d = magnitude_text(rectify(t.d));
    proof {
        reveal_strlit("PID: {\"P\": ");
        reveal_strlit(", \"I\": ");
        reveal_strlit(", \"D\": ");
        reveal_strlit("}\n");
    }
    let r = concat("PID: {\"P\": ", p.as_str());
    let r = concat(r.as_str(), ", \"I\": ");
    let r = concat(r.as_str(), i.as_str());
    let r = concat(r.as_str(), ", \"D\": ");
    let r = concat(r.as_str(), d.as_str());
    let r = concat(r.as_str(), "}\n");
    proof {
        assert(r@ =~= report_chars(t));
    }
    r
}

/// Whatever the terms, the PID stage's output lies in `[offset, offset + 100]`
/// (in thousandths).
pub proof fn lemma_pid_in_range(t: Terms, offset: u32)
    ensures
        offset * 1000 <= pid_value(t, offset) <= (offset + 100) * 1000,
{
}

/// A PID stage: a controller and the offset added to its drive.
pub struct PID<C> {
    controller: C,
    offset: u32,
    last: Terms,
    ins: Ghost<Seq<i64>>,
    terms: Ghost<Seq<Terms>>,
}

impl<C: Controller> PID<C> {
    /// The values received so far, oldest first.
    pub closed spec fn inputs(&self) -> Seq<i64> {
        self.ins@
    }

    /// The controller's terms for each input so far.
    pub closed spec fn terms(&self) -> Seq<Terms> {
        self.terms@
    }

    pub closed spec fn offset(&self) -> u32 {
        self.offset
    }

    /// One set of terms per input; the last ones kept for reports.
    pub closed spec fn wf(&self) -> bool {
        &&& self.terms@.len() == self.ins@.len()
        &&& self.terms@.len() > 0 ==> self.last == self.terms@.last()
    }

    /// The terms of the last control step.
    pub fn last_terms(&self) -> (r: Terms)
        requires
            self.wf(),
            self.terms().len() > 0,
        ensures
            r == self.terms().last(),
    {
        self.last
    }

    /// The values emitted so far, oldest first.
    pub open spec fn outputs(&self) -> Seq<i64> {
        self.terms().map_values(|t: Terms| pid_value(t, self.offset()) as i64)
    }

    /// Runs one control step on `val`.
    pub fn next(&mut self, val: i64) -> (r: i64)
        requires
            old(self).wf(),
        ensures
            final(self).wf(),
            final(self).outputs() == old(self).outputs().push(r),
            final(self).offset() == old(self).offset(),
            final(self).inputs() == old(self).inputs().push(val),
            final(self).terms().len() == old(self).terms().len() + 1,
            final(self).terms().drop_last() == old(self).terms(),
            r == pid_value(final(self).terms().last(), final(self).offset()),
            old(self).offset() * 1000 <= r <= (old(self).offset() + 100) * 1000,
    {
        let t = self.controller.control(val);
        self.last = t;
        self.ins = Ghost(self.ins@.push(val));
        self.terms = Ghost(self.terms@.push(t));
        proof {
            assert(self.terms@.drop_last() =~= old(self).terms@);
        }
        let r = pid_output(t, self.offset);
        proof {
            assert(self.outputs() =~= old(self).outputs().push(r));
        }
        r
    }
}

impl PIDParameters {
    pub fn apply<C: Controller>(self) -> (r: PID<C>)
        ensures
            r.wf(),
            r.offset() == self.offset,
            r.inputs() == Seq::<i64>::empty(),
            r.terms() == Seq::<Terms>::empty(),
            r.outputs() == Seq::<i64>::empty(),
    {
        let r = PID {
            controller: C::configure(&self),
            offset: self.offset,
            last: Terms { p: 0, i: 0, d: 0 },
            ins: Ghost(Seq::empty()),
            terms: Ghost(Seq::empty()),
        };
        proof {
            assert(r.outputs() =~= Seq::<i64>::empty());
        }
        r
    }
}

} // verus!
