//! The stream stages. Each one turns the values it receives from upstream
//! into the values it hands downstream; its contract states the outputs as a
//! function of a ghost log of the inputs.

use vstd::prelude::*;

use crate::parameters::{AtLeastParameters, ClipParameters, IdentityParameters};

verus! {

/// What `Clip` makes of `v`: first capped at `max`, then raised to `min`.
pub open spec fn clipped(min: int, max: int, v: int) -> int {
    let capped = if v > max { max } else { v };
    if capped < min { min } else { capped }
}

/// What `AtLeast` makes of `v`: zero below the threshold, `v` otherwise.
pub open spec fn at_least(threshold: int, v: int) -> int {
    if v < threshold { 0 } else { v }
}

/// The identity stage.
pub struct Identity {
    ins: Ghost<Seq<i64>>,
}

impl Identity {
    /// The values received so far, oldest first.
    pub closed spec fn inputs(&self) -> Seq<i64> {
        self.ins@
    }

    /// The values emitted so far, oldest first.
    pub open spec fn outputs(&self) -> Seq<i64> {
        self.inputs()
    }

    pub fn next(&mut self, val: i64) -> (r: i64)
        ensures
            r == val,
            final(self).inputs() == old(self).inputs().push(val),
            final(self).outputs() == old(self).outputs().push(r),
    {
        self.ins = Ghost(self.ins@.push(val));
        val
    }
}

impl IdentityParameters {
    pub fn apply(self) -> (r: Identity)
        ensures
            r.inputs() == Seq::<i64>::empty(),
    {
        Identity { ins: Ghost(Seq::empty()) }
    }
}

/// Clips its input into a fixed range.
pub struct Clip {
    max: i64,
    min: i64,
    ins: Ghost<Seq<i64>>,
}

impl Clip {
    /// The values received so far, oldest first.
    pub closed spec fn inputs(&self) -> Seq<i64> {
        self.ins@
    }

    pub closed spec fn min(&self) -> int {
        self.min as int
    }

    pub closed spec fn max(&self) -> int {
        self.max as int
    }

    pub closed spec fn wf(&self) -> bool {
        self.min <= self.max
    }

    /// The range, as `(min, max)`.
    pub fn range(&self) -> (r: (i64, i64))
        ensures
            r.0 == self.min(),
            r.1 == self.max(),
    {
        (self.min, self.max)
    }

    /// The values emitted so far, oldest first.
    pub open spec fn outputs(&self) -> Seq<i64> {
        self.inputs().map_values(|v: i64| clipped(self.min(), self.max(), v as int) as i64)
    }

    pub fn next(&mut self, val: i64) -> (r: i64)
        ensures
            r as int == clipped(old(self).min(), old(self).max(), val as int),
            old(self).wf() ==> old(self).min() <= r <= old(self).max(),
            final(self).min() == old(self).min(),
            final(self).max() == old(self).max(),
            final(self).wf() == old(self).wf(),
            final(self).inputs() == old(self).inputs().push(val),
            final(self).outputs() == old(self).outputs().push(r),
    {
        let mut tmp = val;
        if tmp > self.max {
            tmp = self.max;
        }
        if tmp < self.min {
            tmp = self.min;
        }
        self.ins = Ghost(self.ins@.push(val));
        proof {
            assert(self.outputs() =~= old(self).outputs().push(tmp));
        }
        tmp
    }
}

impl ClipParameters {
    /// A clip whose range is empty (`min > max`) is refused.
    pub fn apply(self) -> (r: Option<Clip>)
        ensures
            r is Some <==> self.min <= self.max,
            r matches Some(c) ==> c.wf() && c.min() == self.min && c.max() == self.max
                && c.inputs() == Seq::<i64>::empty() && c.outputs() == Seq::<i64>::empty(),
    {
        if self.min <= self.max {
            let c = Clip { max: self.max, min: self.min, ins: Ghost(Seq::empty()) };
            proof {
                assert(c.outputs() =~= Seq::<i64>::empty());
            }
            Some(c)
        } else {
            None
        }
    }
}

/// Passes on values at or above a threshold and forces the others to zero.
pub struct AtLeast {
    val: i64,
    ins: Ghost<Seq<i64>>,
}

impl AtLeast {
    /// The values received so far, oldest first.
    pub closed spec fn inputs(&self) -> Seq<i64> {
        self.ins@
    }

    pub closed spec fn threshold(&self) -> int {
        self.val as int
    }

    pub fn threshold_value(&self) -> (r: i64)
        ensures
            r == self.threshold(),
    {
        self.val
    }

    /// The values emitted so far, oldest first.
    pub open spec fn outputs(&self) -> Seq<i64> {
        self.inputs().map_values(|v: i64| at_least(self.threshold(), v as int) as i64)
    }

    pub fn next(&mut self, val: i64) -> (r: i64)
        ensures
            r as int == at_least(old(self).threshold(), val as int),
            final(self).threshold() == old(self).threshold(),
            final(self).inputs() == old(self).inputs().push(val),
            final(self).outputs() == old(self).outputs().push(r),
    {
        self.ins = Ghost(self.ins@.push(val));
        let r = if val < self.val {
            0
        } else {
            val
        };
        proof {
            assert(self.outputs() =~= old(self).outputs().push(r));
        }
        r
    }
}

impl AtLeastParameters {
    pub fn apply(self) -> (r: AtLeast)
        ensures
            r.threshold() == self.val,
            r.inputs() == Seq::<i64>::empty(),
            r.outputs() == Seq::<i64>::empty(),
    {
        let a = AtLeast { val: self.val, ins: Ghost(Seq::empty()) };
        proof {
            assert(a.outputs() =~= Seq::<i64>::empty());
        }
        a
    }
}

/// Whatever the input, a well-formed clip's output lies in its range.
pub proof fn lemma_clip_in_range(min: int, max: int, v: int)
    requires
        min <= max,
    ensures
        min <= clipped(min, max, v) <= max,
{
}

} // verus!
