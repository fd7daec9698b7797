//! The running mean over a window of the most recent inputs, kept in a ring
//! buffer and summed afresh on each tick.

use vstd::prelude::*;
use vstd::arithmetic::div_mod::{lemma_div_is_ordered, lemma_div_multiples_vanish};

use crate::parameters::AverageParameters;

verus! {

/// The sum of a sequence of samples.
pub open spec fn sum(s: Seq<i64>) -> int
    decreases s.len(),
{
    if s.len() == 0 {
        0
    } else {
        sum(s.drop_last()) + s.last() as int
    }
}

/// Integer division that rounds toward zero, as fixed-point truncation does.
pub open spec fn div_toward_zero(a: int, b: int) -> int {
    if a >= 0 {
        a / b
    } else {
        -((-a) / b)
    }
}

/// The mean of a non-empty sequence, truncated toward zero.
pub open spec fn mean(s: Seq<i64>) -> int {
    div_toward_zero(sum(s), s.len() as int)
}

/// The last `n` elements of `s`, or all of them when there are fewer.
pub open spec fn window(s: Seq<i64>, n: nat) -> Seq<i64> {
    if s.len() <= n {
        s
    } else {
        s.subrange(s.len() - n, s.len() as int)
    }
}

/// What `Average(n)` emits for the inputs `s`: at each tick the mean of the
/// window that ends there.
pub open spec fn averaged(n: nat, s: Seq<i64>) -> Seq<int> {
    Seq::new(s.len(), |j: int| mean(window(s.take(j + 1), n)))
}

/// `w` turned so that its element `0` stands at position `i`.
pub open spec fn rotated(w: Seq<i64>, i: int) -> Seq<i64> {
    Seq::new(w.len(), |p: int| if p < i { w[w.len() - i + p] } else { w[p - i] })
}

proof fn lemma_sum_concat(a: Seq<i64>, b: Seq<i64>)
    ensures
        sum(a + b) == sum(a) + sum(b),
    decreases b.len(),
{
    if b.len() == 0 {
        assert(a + b =~= a);
    } else {
        lemma_sum_concat(a, b.drop_last());
        assert((a + b).drop_last() =~= a + b.drop_last());
    }
}

proof fn lemma_sum_rotated(w: Seq<i64>, i: int)
    requires
        0 <= i <= w.len(),
    ensures
        sum(rotated(w, i)) == sum(w),
{
    let k = w.len() - i;
    let front = w.subrange(0, k);
    let back = w.subrange(k, w.len() as int);
    assert(rotated(w, i) =~= back + front);
    assert(w =~= front + back);
    lemma_sum_concat(back, front);
    lemma_sum_concat(front, back);
}

proof fn lemma_sum_bounds(s: Seq<i64>)
    ensures
        -(s.len() as int) * 0x8000_0000_0000_0000 <= sum(s) <= (s.len() as int) * 0x7fff_ffff_ffff_ffff,
    decreases s.len(),
{
    if s.len() > 0 {
        lemma_sum_bounds(s.drop_last());
    }
}

proof fn lemma_mean_bounds(s: Seq<i64>)
    requires
        s.len() > 0,
    ensures
        i64::MIN <= mean(s) <= i64::MAX,
{
    let t = sum(s);
    let l = s.len() as int;
    lemma_sum_bounds(s);
    if t >= 0 {
        lemma_div_is_ordered(t, l * 0x7fff_ffff_ffff_ffff, l);
        lemma_div_multiples_vanish(0x7fff_ffff_ffff_ffff, l);
        assert(l * 0x7fff_ffff_ffff_ffff == l * 0x7fff_ffff_ffff_ffff);
        assert(0 <= t / l);
    } else {
        lemma_div_is_ordered(-t, l * 0x8000_0000_0000_0000, l);
        lemma_div_multiples_vanish(0x8000_0000_0000_0000, l);
        assert(0 <= (-t) / l);
    }
}

proof fn lemma_sum_constant(s: Seq<i64>, v: i64)
    requires
        forall|i: int| 0 <= i < s.len() ==> s[i] == v,
    ensures
        sum(s) == s.len() * v,
    decreases s.len(),
{
    if s.len() > 0 {
        lemma_sum_constant(s.drop_last(), v);
        assert(sum(s) == (s.len() - 1) * v + v);
        assert((s.len() - 1) * v + v == s.len() * v) by (nonlinear_arith);
    }
}

/// Fed a constant stream of `v`, `Average(n)` emits `v` on every tick, from the
/// first on: it has reached `v` within `n` ticks and stays there.
pub proof fn lemma_average_of_constant(n: nat, s: Seq<i64>, v: i64)
    requires
        n > 0,
        forall|i: int| 0 <= i < s.len() ==> s[i] == v,
    ensures
        forall|j: int| 0 <= j < s.len() ==> averaged(n, s)[j] == v,
{
    assert forall|j: int| 0 <= j < s.len() implies averaged(n, s)[j] == v by {
        let w = window(s.take(j + 1), n);
        assert(forall|i: int| 0 <= i < w.len() ==> w[i] == v);
        lemma_sum_constant(w, v);
        let l = w.len() as int;
        assert(l > 0);
        if v >= 0 {
            lemma_div_multiples_vanish(v as int, l);
            assert(l * v == v * l) by (nonlinear_arith);
            assert(l * v >= 0) by (nonlinear_arith)
                requires l > 0, v >= 0;
        } else {
            lemma_div_multiples_vanish(-v, l);
            assert(-(l * v) == l * (-v)) by (nonlinear_arith);
            assert(l * v < 0) by (nonlinear_arith)
                requires l > 0, v < 0;
        }
    }
}

/// A running mean over the last `n` inputs.
pub struct Average {
    n: usize,
    index: usize,
    prev_vals: Vec<i64>,
    ins: Ghost<Seq<i64>>,
}

impl Average {
    /// The values received so far, oldest first.
    pub closed spec fn inputs(&self) -> Seq<i64> {
        self.ins@
    }

    /// The values emitted so far, oldest first.
    pub closed spec fn outputs(&self) -> Seq<i64> {
        averaged(self.n as nat, self.ins@).map_values(|m: int| m as i64)
    }

    /// The size of the window.
    pub closed spec fn size(&self) -> nat {
        self.n as nat
    }

    pub fn window_size(&self) -> (r: usize)
        ensures
            r == self.size(),
    {
        self.n
    }

    /// The ring buffer holds the window turned by the write index.
    pub closed spec fn wf(&self) -> bool {
        &&& self.n > 0
        &&& self.index < self.n
        &&& self.ins@.len() < self.n ==> self.index == 0
        &&& self.prev_vals@ == rotated(window(self.ins@, self.n as nat), self.index as int)
    }

    /// Takes the next input and returns the mean of the window that ends with it.
    pub fn next(&mut self, val: i64) -> (r: i64)
        requires
            old(self).wf(),
        ensures
            final(self).wf(),
            final(self).size() == old(self).size(),
            final(self).inputs() == old(self).inputs().push(val),
            r == mean(window(final(self).inputs(), final(self).size())),
            r == averaged(final(self).size(), final(self).inputs()).last(),
            final(self).outputs() == old(self).outputs().push(r),
    {
        let ghost w_old = window(self.ins@, self.n as nat);
        let ghost ins_new = self.ins@.push(val);
        let ghost w_new = window(ins_new, self.n as nat);
        if self.prev_vals.len() < self.n {
            self.prev_vals.push(val);
            proof {
                assert(self.ins@.len() < self.n);
                assert(w_old == self.ins@);
                assert(w_new =~= ins_new);
                assert(self.prev_vals@ =~= rotated(w_new, 0));
            }
        } else {
            let i = self.index;
            self.prev_vals.set(i, val);
            self.index = if i + 1 == self.n { 0 } else { i + 1 };
            proof {
                let n = self.n as int;
                let k = self.index as int;
                assert(w_old.len() == n);
                assert(w_new =~= w_old.subrange(1, n).push(val));
                if i + 1 == n {
                    assert(k == 0);
                } else {
                    assert(k == i + 1);
                }
                assert forall|p: int| 0 <= p < n implies #[trigger] self.prev_vals@[p] == rotated(
                    w_new,
                    k,
                )[p] by {
                    if p == i {
                    } else if p < i {
                        assert(rotated(w_old, i as int)[p] == w_old[n - i + p]);
                    } else {
                        assert(rotated(w_old, i as int)[p] == w_old[p - i]);
                    }
                }
                assert(self.prev_vals@ =~= rotated(w_new, k));
            }
        }
        self.ins = Ghost(ins_new);
        proof {
            assert(ins_new.take(ins_new.len() as int) =~= ins_new);
            lemma_sum_rotated(w_new, self.index as int);
            lemma_mean_bounds(w_new);
        }
        let len = self.prev_vals.len();
        let mut total: i128 = 0;
        let mut j: usize = 0;
        while j < len
            invariant
                len == self.prev_vals@.len(),
                j <= len,
                total == sum(self.prev_vals@.take(j as int)),
                -(j as int) * 0x8000_0000_0000_0000 <= total <= (j as int) * 0x7fff_ffff_ffff_ffff,
            decreases len - j,
        {
            proof {
                assert(self.prev_vals@.take(j as int + 1).drop_last() =~= self.prev_vals@.take(j as int));
            }
            total = total + self.prev_vals[j] as i128;
            j = j + 1;
        }
        proof {
            assert(self.prev_vals@.take(len as int) =~= self.prev_vals@);
        }
        let count = len as i128;
        let m = if total >= 0 {
            total / count
        } else {
            -((-total) / count)
        };
        proof {
            let n = self.n as nat;
            assert forall|j: int| 0 <= j < old(self).ins@.len() implies #[trigger] averaged(n, ins_new)[j]
                == averaged(n, old(self).ins@)[j] by {
                assert(ins_new.take(j + 1) =~= old(self).ins@.take(j + 1));
            }
            assert(self.outputs() =~= old(self).outputs().push(m as i64));
        }
        m as i64
    }
}

impl AverageParameters {
    /// A window of size zero is refused.
    pub fn apply(self) -> (r: Option<Average>)
        ensures
            r is Some <==> self.n > 0,
            r matches Some(a) ==> a.wf() && a.size() == self.n && a.inputs() == Seq::<i64>::empty()
                && a.outputs() == Seq::<i64>::empty(),
    {
        if self.n == 0 {
            None
        } else {
            let a = Average { n: self.n, index: 0, prev_vals: Vec::new(), ins: Ghost(Seq::empty()) };
            proof {
                assert(a.prev_vals@ =~= rotated(window(a.ins@, a.n as nat), 0));
                assert(a.outputs() =~= Seq::<i64>::empty());
            }
            Some(a)
        }
    }
}

} // verus!
