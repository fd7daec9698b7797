//! The handle through which a stage reports to the monitoring hub.

use vstd::prelude::*;
use std::sync::mpsc::Sender;

use crate::text::{concat, decimal, decimal_text};

verus! {

#[verifier::external_type_specification]
#[verifier::external_body]
#[verifier::reject_recursive_types(T)]
pub struct ExSender<T>(std::sync::mpsc::Sender<T>);

/// Relies on `Sender::send`: hands `line` to the channel; `false` when the
/// receiving end is gone.
#[verifier::external_body]
fn post(tx: &Sender<String>, line: String) -> bool {
    tx.send(line).is_ok()
}

/// Relies on `Sender::clone`: another sending end of the same channel.
#[verifier::external_body]
pub(crate) fn clone_sender(tx: &Sender<String>) -> Sender<String> {
    tx.clone()
}

/// A stage's sending end of the monitoring channel, tagged with the stage's
/// position in the chain.
pub struct Monitor {
    id: usize,
    tx: Sender<String>,
    sent: Ghost<Seq<Seq<char>>>,
}

impl Monitor {
    /// The position of the stage that reports through this monitor.
    pub closed spec fn id(&self) -> usize {
        self.id
    }

    /// The lines handed to the channel so far, oldest first.
    pub closed spec fn sent(&self) -> Seq<Seq<char>> {
        self.sent@
    }

    /// What `send(text)` hands to the channel: `"<id>: <text>"`.
    pub open spec fn line_chars(&self, text: Seq<char>) -> Seq<char> {
        decimal(self.id() as nat) + seq![':', ' '] + text
    }

    /// A monitor for the stage at position `id`, sending on `tx`.
    pub fn new(id: usize, tx: Sender<String>) -> (r: Monitor)
        ensures
            r.id() == id,
            r.sent() == Seq::<Seq<char>>::empty(),
    {
        Monitor { id, tx, sent: Ghost(Seq::empty()) }
    }

    pub fn get_id(&self) -> (r: usize)
        ensures
            r == self.id(),
    {
        self.id
    }

    /// The line that `send` hands to the channel.
    pub fn line(&self, text: &str) -> (r: String)
        ensures
            r@ == self.line_chars(text@),
    {
        let id = decimal_text(self.id as u64);
        proof {
            reveal_strlit(": ");
        }
        let head = concat(id.as_str(), ": ");
        let r = concat(head.as_str(), text);
        proof {
            assert(r@ =~= self.line_chars(text@));
        }
        r
    }

    /// Hands `text`, prefixed with the stage's position, to the channel.
    /// Returns `false` when the hub has gone away, which is no reason for the
    /// stage to stop.
    pub fn send(&mut self, text: String) -> (r: bool)
        ensures
            final(self).id() == old(self).id(),
            final(self).sent() == old(self).sent().push(old(self).line_chars(text@)),
    {
        let line = self.line(text.as_str());
        self.sent = Ghost(self.sent@.push(line@));
        post(&self.tx, line)
    }
}

} // verus!
