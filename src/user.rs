//! A registered user: its id, display name and queue of outgoing lines.
use vstd::prelude::*;

use crate::types::UserId;

verus! {

/// The text of each line in `v`.
pub open spec fn texts(v: Seq<String>) -> Seq<Seq<char>> {
    v.map_values(|s: String| s@)
}

/// A connected user. Lines addressed to it wait in `outbox` until the transport
/// takes them.
pub struct User {
    pub id: UserId,
    pub username: String,
    pub outbox: Vec<String>,
}

impl User {
    /// The lines waiting for delivery, oldest first.
    pub open spec fn pending(&self) -> Seq<Seq<char>> {
        texts(self.outbox@)
    }

    pub fn new(id: UserId, username: String) -> (r: Self)
        ensures
            r.id == id,
            r.username == username,
            r.pending() == Seq::<Seq<char>>::empty(),
    {
        User { id, username, outbox: Vec::new() }
    }

    /// Queues `text` for delivery to this user.
    pub fn send(&mut self, text: &str)
        ensures
            final(self).id == old(self).id,
            final(self).username == old(self).username,
            final(self).pending() == old(self).pending().push(text@),
    {
        self.outbox.push(text.to_owned());
        assert(final(self).pending() =~= old(self).pending().push(text@));
    }

    /// Hands out the queued lines, oldest first, and empties the queue.
    pub fn take_outgoing(&mut self) -> (r: Vec<String>)
        ensures
            final(self).id == old(self).id,
            final(self).username == old(self).username,
            final(self).pending() == Seq::<Seq<char>>::empty(),
            texts(r@) == old(self).pending(),
    {
        let mut out: Vec<String> = Vec::new();
        out.append(&mut self.outbox);
        assert(out@ =~= old(self).outbox@);
        assert(self.pending() =~= Seq::<Seq<char>>::empty());
        out
    }
}

} // verus!
