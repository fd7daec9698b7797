//! The set of live observers and the best-effort broadcast to them.

use vstd::prelude::*;

verus! {

/// The elements of `s` whose flag in `ok` is set, in order.
pub open spec fn kept<T>(s: Seq<T>, ok: Seq<bool>) -> Seq<T>
    decreases s.len(),
{
    if s.len() == 0 {
        Seq::empty()
    } else if ok[s.len() - 1] {
        kept(s.drop_last(), ok).push(s.last())
    } else {
        kept(s.drop_last(), ok)
    }
}

/// One observer connection.
pub trait Deliver {
    /// Writes `line` to the observer; `false` when the write failed.
    fn deliver(&self, line: &str) -> bool;
}

/// The observers currently connected, in the order they registered.
pub struct Hub<T> {
    subscribers: Vec<T>,
    written: Ghost<Seq<Seq<Seq<char>>>>,
}

impl<T> Hub<T> {
    pub closed spec fn view(&self) -> Seq<T> {
        self.subscribers@
    }

    /// For each observer, the lines written to it since it registered.
    pub closed spec fn written(&self) -> Seq<Seq<Seq<char>>> {
        self.written@
    }

    /// One log per observer.
    pub closed spec fn wf(&self) -> bool {
        self.written@.len() == self.subscribers@.len()
    }

    /// A hub with no observers.
    pub fn new() -> (r: Hub<T>)
        ensures
            r.wf(),
            r.view() == Seq::<T>::empty(),
    {
        Hub { subscribers: Vec::new(), written: Ghost(Seq::empty()) }
    }

    /// Adds an observer; it takes part from the next broadcast on.
    pub fn register(&mut self, subscriber: T)
        requires
            old(self).wf(),
        ensures
            final(self).wf(),
            final(self).view() == old(self).view().push(subscriber),
            final(self).written() == old(self).written().push(Seq::<Seq<char>>::empty()),
    {
        self.subscribers.push(subscriber);
        self.written = Ghost(self.written@.push(Seq::empty()));
    }

    pub fn subscribers(&self) -> (r: &Vec<T>)
        ensures
            r@ == self.view(),
    {
        &self.subscribers
    }

    pub fn len(&self) -> (r: usize)
        ensures
            r == self.view().len(),
    {
        self.subscribers.len()
    }

    /// Keeps the observers whose flag is set and drops the others.
    pub fn prune(&mut self, delivered: &Vec<bool>)
        requires
            old(self).wf(),
            delivered@.len() == old(self).view().len(),
        ensures
            final(self).wf(),
            final(self).view() == kept(old(self).view(), delivered@),
            final(self).written() == kept(old(self).written(), delivered@),
    {
        let ghost all = self.subscribers@;
        let total = self.subscribers.len();
        let mut out: Vec<T> = Vec::new();
        let mut i: usize = 0;
        while self.subscribers.len() > 0
            invariant
                delivered@.len() == all.len(),
                self.written@ == old(self).written@,
                all == old(self).subscribers@,
                total == all.len(),
                i <= all.len(),
                self.subscribers@.len() == all.len() - i,
                self.subscribers@ == all.subrange(i as int, all.len() as int),
                out@ == kept(all.subrange(0, i as int), delivered@),
            decreases self.subscribers@.len(),
        {
            let s = self.subscribers.remove(0);
            proof {
                let next = all.subrange(0, i as int + 1);
                assert(next.drop_last() =~= all.subrange(0, i as int));
                assert(self.subscribers@ =~= all.subrange(i as int + 1, all.len() as int));
            }
            if delivered[i] {
                out.push(s);
            }
            i = i + 1;
        }
        proof {
            assert(all.subrange(0, i as int) =~= all);
        }
        self.subscribers = out;
        self.written = Ghost(kept(self.written@, delivered@));
        proof {
            lemma_kept_same_len(all, old(self).written@, delivered@);
        }
    }

    /// Writes `line` once to every observer, in order, drops those whose
    /// write failed, and returns what each write gave, in the order of the
    /// observers before.
    pub fn broadcast(&mut self, line: &str) -> (r: Vec<bool>)
        where
            T: Deliver,
        requires
            old(self).wf(),
        ensures
            final(self).wf(),
            r@.len() == old(self).view().len(),
            final(self).view() == kept(old(self).view(), r@),
            final(self).written() == kept(
                old(self).written().map_values(|w: Seq<Seq<char>>| w.push(line@)),
                r@,
            ),
    {
        let ghost before = self.written@;
        let mut delivered: Vec<bool> = Vec::new();
        let mut i: usize = 0;
        while i < self.subscribers.len()
            invariant
                self.subscribers@ == old(self).subscribers@,
                before == old(self).written@,
                i <= self.subscribers@.len(),
                delivered@.len() == i,
                self.written@.len() == before.len(),
                before.len() == self.subscribers@.len(),
                forall|j: int| 0 <= j < i ==> #[trigger] self.written@[j] == before[j].push(line@),
                forall|j: int| i <= j < before.len() ==> #[trigger] self.written@[j] == before[j],
            decreases self.subscribers@.len() - i,
        {
            let ok = self.subscribers[i].deliver(line);
            self.written = Ghost(self.written@.update(i as int, self.written@[i as int].push(line@)));
            delivered.push(ok);
            i = i + 1;
        }
        proof {
            assert(self.written@ =~= before.map_values(|w: Seq<Seq<char>>| w.push(line@)));
        }
        self.prune(&delivered);
        delivered
    }
}

proof fn lemma_kept_same_len<A, B>(a: Seq<A>, b: Seq<B>, ok: Seq<bool>)
    requires
        a.len() == b.len(),
    ensures
        kept(a, ok).len() == kept(b, ok).len(),
    decreases a.len(),
{
    if a.len() > 0 {
        lemma_kept_same_len(a.drop_last(), b.drop_last(), ok);
    }
}

} // verus!
