//! The stages that change the rate of the stream: `Supersample` repeats each
//! input, `Subsample` drops inputs between the ones it passes on.

use vstd::prelude::*;
use vstd::arithmetic::div_mod::lemma_div_multiples_vanish_fancy;

use crate::parameters::{SubsampleParameters, SupersampleParameters};

verus! {

/// How many times `Supersample(n)` emits each input: `n`, and once for `n == 0`.
pub open spec fn repeats(n: nat) -> nat {
    if n == 0 { 1 } else { n }
}

/// The full output of `Supersample(n)` on `s`: each input repeated.
pub open spec fn supersampled(n: nat, s: Seq<i64>) -> Seq<i64> {
    Seq::new(s.len() * repeats(n), |j: int| s[j / repeats(n) as int])
}

/// The full output of `Subsample(n)` on `s`: every `(n+1)`-th input.
pub open spec fn subsampled(n: nat, s: Seq<i64>) -> Seq<i64> {
    Seq::new(s.len() / (n + 1), |j: int| s[j * (n + 1) + n])
}

/// Repeats each input before it asks upstream for the next one.
pub struct Supersample {
    n: usize,
    count: usize,
    last_val: Option<i64>,
    ins: Ghost<Seq<i64>>,
    outs: Ghost<Seq<i64>>,
}

impl Supersample {
    /// The values received so far, oldest first.
    pub closed spec fn inputs(&self) -> Seq<i64> {
        self.ins@
    }

    /// The values emitted so far, oldest first.
    pub closed spec fn outputs(&self) -> Seq<i64> {
        self.outs@
    }

    pub closed spec fn factor(&self) -> nat {
        self.n as nat
    }

    pub fn n(&self) -> (r: usize)
        ensures
            r == self.factor(),
    {
        self.n
    }

    /// The outputs are the start of the full expansion of the inputs, and every
    /// input but the last has had all its repeats.
    pub closed spec fn wf(&self) -> bool {
        let r = repeats(self.n as nat);
        &&& self.ins@.len() == 0 ==> self.last_val is None && self.outs@.len() == 0
        &&& self.ins@.len() > 0 ==> {
            &&& self.last_val == Some(self.ins@.last())
            &&& 1 <= self.count <= r
            &&& self.outs@.len() == (self.ins@.len() - 1) * r + self.count
        }
        &&& self.outs@.len() <= self.ins@.len() * r
        &&& self.outs@ == supersampled(self.n as nat, self.ins@).take(self.outs@.len() as int)
    }

    /// The outputs never run ahead of the repeats that the inputs allow.
    pub proof fn lemma_outputs_bounded(&self)
        requires
            self.wf(),
        ensures
            self.outputs().len() <= self.inputs().len() * repeats(self.factor()),
    {
    }

    /// Whether the next output needs a new input: there is none yet, or the
    /// last one has had all its repeats.
    pub fn needs_input(&self) -> (r: bool)
        requires
            self.wf(),
        ensures
            r <==> self.outputs().len() == self.inputs().len() * repeats(self.factor()),
    {
        proof {
            let r = repeats(self.n as nat) as int;
            let l = self.ins@.len() as int;
            if l > 0 {
                assert((l - 1) * r + r == l * r) by (nonlinear_arith);
            } else {
                assert(l * r == 0) by (nonlinear_arith)
                    requires l == 0;
            }
        }
        !(self.last_val.is_some() && self.count < self.n)
    }

    /// Emits the stored input once more.
    pub fn repeat(&mut self) -> (r: i64)
        requires
            old(self).wf(),
            old(self).outputs().len() < old(self).inputs().len() * repeats(old(self).factor()),
        ensures
            final(self).wf(),
            final(self).factor() == old(self).factor(),
            final(self).inputs() == old(self).inputs(),
            final(self).outputs() == old(self).outputs().push(r),
            r == old(self).inputs().last(),
    {
        proof {
            let r = repeats(self.n as nat) as int;
            let l = self.ins@.len() as int;
            if l == 0 {
                assert(l * r == 0) by (nonlinear_arith)
                    requires l == 0;
            }
            if self.count >= self.n {
                assert((l - 1) * r + r == l * r) by (nonlinear_arith);
            }
        }
        let v = match self.last_val {
            Some(v) => v,
            None => 0,
        };
        proof {
            let r = repeats(self.n as nat) as int;
            let l = self.ins@.len() as int;
            let j = self.outs@.len() as int;
            lemma_div_multiples_vanish_fancy(l - 1, self.count as int, r);
            assert(j == r * (l - 1) + self.count) by (nonlinear_arith)
                requires j == (l - 1) * r + self.count;
            assert(supersampled(self.n as nat, self.ins@)[j] == v);
            assert((l - 1) * r + self.count + 1 <= l * r) by (nonlinear_arith)
                requires self.count < r;
            assert(self.outs@.push(v) =~= supersampled(self.n as nat, self.ins@).take(j + 1));
        }
        self.count = self.count + 1;
        self.outs = Ghost(self.outs@.push(v));
        v
    }

    /// Stores a new input and emits it for the first time.
    pub fn accept(&mut self, val: i64) -> (r: i64)
        requires
            old(self).wf(),
            old(self).outputs().len() == old(self).inputs().len() * repeats(old(self).factor()),
        ensures
            final(self).wf(),
            final(self).factor() == old(self).factor(),
            final(self).inputs() == old(self).inputs().push(val),
            final(self).outputs() == old(self).outputs().push(val),
            r == val,
    {
        let ghost ins_new = self.ins@.push(val);
        proof {
            let r = repeats(self.n as nat) as int;
            let l = self.ins@.len() as int;
            let j = self.outs@.len() as int;
            assert(r >= 1);
            lemma_div_multiples_vanish_fancy(l, 0, r);
            assert(j == r * l + 0) by (nonlinear_arith)
                requires j == l * r;
            assert((l + 1) * r == l * r + r) by (nonlinear_arith);
            assert(supersampled(self.n as nat, ins_new)[j] == val);
            assert forall|p: int| 0 <= p < j implies #[trigger] supersampled(self.n as nat, ins_new)[p]
                == supersampled(self.n as nat, self.ins@)[p] by {
                assert(p / r < l) by {
                    vstd::arithmetic::div_mod::lemma_div_is_ordered(p, j - 1, r);
                    lemma_div_multiples_vanish_fancy(l - 1, r - 1, r);
                    assert(j - 1 == r * (l - 1) + (r - 1)) by (nonlinear_arith)
                        requires j == l * r;
                }
                assert(p / r >= 0) by {
                    vstd::arithmetic::div_mod::lemma_div_is_ordered(0, p, r);
                }
            }
            assert(self.outs@.push(val) =~= supersampled(self.n as nat, ins_new).take(j + 1));
        }
        self.last_val = Some(val);
        self.count = 1;
        self.ins = Ghost(ins_new);
        self.outs = Ghost(self.outs@.push(val));
        val
    }
}

impl SupersampleParameters {
    pub fn apply(self) -> (r: Supersample)
        ensures
            r.wf(),
            r.factor() == self.n,
            r.inputs() == Seq::<i64>::empty(),
            r.outputs() == Seq::<i64>::empty(),
    {
        let s = Supersample {
            n: self.n,
            count: 1,
            last_val: None,
            ins: Ghost(Seq::empty()),
            outs: Ghost(Seq::empty()),
        };
        proof {
            assert(s.outs@ =~= supersampled(self.n as nat, s.ins@).take(0));
        }
        s
    }
}

/// Drops `n` inputs, then passes the next one on.
pub struct Subsample {
    n: usize,
    skipped: usize,
    ins: Ghost<Seq<i64>>,
    outs: Ghost<Seq<i64>>,
}

impl Subsample {
    /// The values received so far, oldest first.
    pub closed spec fn inputs(&self) -> Seq<i64> {
        self.ins@
    }

    /// The values emitted so far, oldest first.
    pub closed spec fn outputs(&self) -> Seq<i64> {
        self.outs@
    }

    pub closed spec fn factor(&self) -> nat {
        self.n as nat
    }

    pub fn n(&self) -> (r: usize)
        ensures
            r == self.factor(),
    {
        self.n
    }

    /// How many inputs have been dropped since the last output.
    pub closed spec fn pending(&self) -> nat {
        self.skipped as nat
    }

    pub closed spec fn wf(&self) -> bool {
        &&& self.skipped <= self.n
        &&& self.ins@.len() == self.outs@.len() * (self.n + 1) + self.skipped
        &&& self.outs@ == subsampled(self.n as nat, self.ins@)
    }

    /// Takes the next input; returns it when `n` inputs have been dropped
    /// before it, and `None` while it is still dropping.
    pub fn accept(&mut self, val: i64) -> (r: Option<i64>)
        requires
            old(self).wf(),
        ensures
            final(self).wf(),
            final(self).factor() == old(self).factor(),
            final(self).inputs() == old(self).inputs().push(val),
            final(self).outputs() == subsampled(final(self).factor(), final(self).inputs()),
            old(self).pending() <= old(self).factor(),
            r is None ==> final(self).outputs() == old(self).outputs(),
            r matches Some(o) ==> final(self).outputs() == old(self).outputs().push(o),
            old(self).pending() < old(self).factor() ==> r is None && final(self).pending()
                == old(self).pending() + 1 && final(self).outputs() == old(self).outputs(),
            old(self).pending() == old(self).factor() ==> r == Some(val) && final(self).pending() == 0
                && final(self).outputs() == old(self).outputs().push(val),
    {
        let ghost ins_new = self.ins@.push(val);
        let ghost m = self.n as int + 1;
        let ghost k = self.outs@.len() as int;
        if self.skipped < self.n {
            proof {
                lemma_div_multiples_vanish_fancy(k, self.skipped as int + 1, m);
                lemma_div_multiples_vanish_fancy(k, self.skipped as int, m);
                assert(ins_new.len() == m * k + self.skipped + 1) by (nonlinear_arith)
                    requires ins_new.len() == k * m + self.skipped + 1;
                assert(self.ins@.len() == m * k + self.skipped) by (nonlinear_arith)
                    requires self.ins@.len() == k * m + self.skipped;
                assert forall|j: int| 0 <= j < k implies #[trigger] subsampled(self.n as nat, ins_new)[j]
                    == subsampled(self.n as nat, self.ins@)[j] by {
                    assert(j * m + self.n < self.ins@.len()) by (nonlinear_arith)
                        requires j < k, self.ins@.len() == k * m + self.skipped, m == self.n + 1, j >= 0;
                }
                assert(self.outs@ =~= subsampled(self.n as nat, ins_new));
            }
            self.skipped = self.skipped + 1;
            self.ins = Ghost(ins_new);
            None
        } else {
            proof {
                lemma_div_multiples_vanish_fancy(k + 1, 0, m);
                assert(ins_new.len() == m * (k + 1) + 0) by (nonlinear_arith)
                    requires ins_new.len() == k * m + self.n + 1, m == self.n + 1;
                assert(k * m + self.n == ins_new.len() - 1) by (nonlinear_arith)
                    requires ins_new.len() == k * m + self.n + 1;
                assert(self.ins@.len() == m * k + self.n) by (nonlinear_arith)
                    requires self.ins@.len() == k * m + self.n;
                lemma_div_multiples_vanish_fancy(k, self.n as int, m);
                assert forall|j: int| 0 <= j < k implies #[trigger] subsampled(self.n as nat, ins_new)[j]
                    == subsampled(self.n as nat, self.ins@)[j] by {
                    assert(j * m + self.n < self.ins@.len()) by (nonlinear_arith)
                        requires j < k, self.ins@.len() == k * m + self.n, m == self.n + 1, j >= 0;
                }
                assert(self.outs@.push(val) =~= subsampled(self.n as nat, ins_new));
                assert(ins_new.len() == (k + 1) * m) by (nonlinear_arith)
                    requires ins_new.len() == m * (k + 1);
            }
            self.skipped = 0;
            self.ins = Ghost(ins_new);
            self.outs = Ghost(self.outs@.push(val));
            Some(val)
        }
    }
}

impl SubsampleParameters {
    pub fn apply(self) -> (r: Subsample)
        ensures
            r.wf(),
            r.factor() == self.n,
            r.pending() == 0,
            r.inputs() == Seq::<i64>::empty(),
            r.outputs() == Seq::<i64>::empty(),
    {
        let s = Subsample { n: self.n, skipped: 0, ins: Ghost(Seq::empty()), outs: Ghost(Seq::empty()) };
        proof {
            assert(0int / (self.n as int + 1) == 0);
            assert(s.outs@ =~= subsampled(self.n as nat, s.ins@));
        }
        s
    }
}

/// `Supersample(n)` with `n >= 1` emits each input `n` times in a row, in the
/// order the inputs came: the first input at positions `0..n`, the second at
/// `n..2n`, and so on.
pub proof fn lemma_supersample_repeats(n: nat, s: Seq<i64>, i: int, k: int)
    requires
        n >= 1,
        0 <= i < s.len(),
        0 <= k < n,
    ensures
        supersampled(n, s).len() == s.len() * n,
        0 <= i * n + k < s.len() * n,
        supersampled(n, s)[i * n + k] == s[i],
{
    lemma_div_multiples_vanish_fancy(i, k, n as int);
    assert(i * n + k == n * i + k) by (nonlinear_arith);
    assert(i * n + k < s.len() * n) by (nonlinear_arith)
        requires i < s.len(), k < n, i >= 0;
    assert(0 <= i * n) by (nonlinear_arith)
        requires i >= 0, n >= 1;
}

/// What a supersample has emitted is the start of the full expansion of what
/// it received, and every input but the last has had all its repeats.
pub proof fn lemma_supersample_prefix(st: &Supersample)
    requires
        st.wf(),
    ensures
        st.outputs() == supersampled(st.factor(), st.inputs()).take(st.outputs().len() as int),
        st.outputs().len() <= st.inputs().len() * repeats(st.factor()),
        st.inputs().len() > 0 ==> st.outputs().len() > (st.inputs().len() - 1) * repeats(st.factor()),
{
}

/// `Subsample(n)` fed `k * (n+1)` inputs has emitted exactly `k` values, and
/// the `j`-th is the input at position `j*(n+1) + n`.
pub proof fn lemma_subsample_exact(st: &Subsample, k: nat)
    requires
        st.wf(),
        st.inputs().len() == k * (st.factor() + 1),
    ensures
        st.outputs().len() == k,
        forall|j: int| 0 <= j < k ==> st.outputs()[j] == st.inputs()[j * (st.factor() + 1) + st.factor()],
{
    let m = st.factor() + 1;
    lemma_div_multiples_vanish_fancy(k as int, 0, m as int);
    assert(k * m == m * k + 0) by (nonlinear_arith);
}

} // verus!
