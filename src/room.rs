//! A named, mutable set of member ids.
use vstd::prelude::*;

use crate::types::{RoomId, UserId};

verus! {

/// `members` without any occurrence of `u`.
pub open spec fn without(members: Seq<UserId>, u: UserId) -> Seq<UserId> {
    members.filter(|x: UserId| x != u)
}

/// `members` with `u` added at the end, unless it is already there.
pub open spec fn with_member(members: Seq<UserId>, u: UserId) -> Seq<UserId> {
    if members.contains(u) {
        members
    } else {
        members.push(u)
    }
}

/// Dropping an id that is absent changes nothing.
pub proof fn lemma_without_absent(members: Seq<UserId>, u: UserId)
    requires
        !members.contains(u),
    ensures
        without(members, u) == members,
    decreases members.len(),
{
    reveal(Seq::filter);
    if members.len() > 0 {
        let init = members.drop_last();
        assert(!init.contains(u)) by {
            if init.contains(u) {
                let k = choose|k: int| 0 <= k < init.len() && init[k] == u;
                assert(members[k] == u);
            }
        }
        lemma_without_absent(init, u);
        assert(members.last() != u) by {
            assert(members[members.len() - 1] == members.last());
        }
        assert(init.push(members.last()) =~= members);
    }
}

/// The result of dropping `u` no longer holds `u`, and holds no new ids.
pub proof fn lemma_without_contents(members: Seq<UserId>, u: UserId)
    ensures
        !without(members, u).contains(u),
        forall|x: UserId| #[trigger] without(members, u).contains(x) ==> members.contains(x),
        members.no_duplicates() ==> without(members, u).no_duplicates(),
        forall|x: UserId| x != u && #[trigger] members.contains(x) ==> without(members, u).contains(x),
    decreases members.len(),
{
    reveal(Seq::filter);
    if members.len() > 0 {
        let init = members.drop_last();
        lemma_without_contents(init, u);
        let w = without(members, u);
        let wi = without(init, u);
        assert(forall|x: UserId| #[trigger] init.contains(x) ==> members.contains(x)) by {
            assert forall|x: UserId| #[trigger] init.contains(x) implies members.contains(x) by {
                let k = choose|k: int| 0 <= k < init.len() && init[k] == x;
                assert(members[k] == x);
            }
        }
        let last = members.last();
        assert(last == members[members.len() - 1]);
        if last == u {
            assert(w == wi);
        } else {
            assert(w == wi.push(last));
            assert forall|x: UserId| #[trigger] w.contains(x) implies members.contains(x) by {
                let k = choose|k: int| 0 <= k < w.len() && w[k] == x;
                if k < wi.len() {
                    assert(wi[k] == x);
                    assert(wi.contains(x));
                }
            }
            if members.no_duplicates() {
                assert(!init.contains(last)) by {
                    if init.contains(last) {
                        let k = choose|k: int| 0 <= k < init.len() && init[k] == last;
                        assert(members[k] == members[members.len() - 1]);
                    }
                }
                assert(!wi.contains(last));
                assert forall|i: int, j: int|
                    0 <= i < w.len() && 0 <= j < w.len() && i != j implies w[i] != w[j] by {
                    if i == w.len() - 1 {
                        assert(wi.contains(w[j]));
                    } else if j == w.len() - 1 {
                        assert(wi.contains(w[i]));
                    }
                }
            }
        }
        assert forall|x: UserId| x != u && #[trigger] members.contains(x) implies w.contains(x) by {
            let k = choose|k: int| 0 <= k < members.len() && members[k] == x;
            if k < members.len() - 1 {
                assert(init[k] == x);
                assert(init.contains(x));
                assert(wi.contains(x));
                let k2 = choose|k2: int| 0 <= k2 < wi.len() && wi[k2] == x;
                assert(w[k2] == x);
            } else {
                assert(w[w.len() - 1] == x);
            }
        }
    }
}

/// A chat room: its id, its name and its members, each at most once.
pub struct Room {
    pub id: RoomId,
    pub name: String,
    pub members: Vec<UserId>,
}

impl Room {
    /// The membership holds no duplicate.
    pub open spec fn wf(&self) -> bool {
        self.members@.no_duplicates()
    }

    pub fn new(id: RoomId, name: String) -> (r: Self)
        ensures
            r.id == id,
            r.name == name,
            r.members@ == Seq::<UserId>::empty(),
            r.wf(),
    {
        Room { id, name, members: Vec::new() }
    }

    /// Whether `user_id` is a member.
    pub fn contains(&self, user_id: UserId) -> (r: bool)
        ensures
            r == self.members@.contains(user_id),
    {
        let n = self.members.len();
        let mut i: usize = 0;
        while i < n
            invariant
                n == self.members@.len(),
                i <= n,
                forall|j: int| 0 <= j < i ==> self.members@[j] != user_id,
            decreases n - i,
        {
            if self.members[i] == user_id {
                assert(self.members@[i as int] == user_id);
                return true;
            }
            i += 1;
        }
        false
    }

    /// Adds `user_id` unless it is already a member.
    pub fn add_member(&mut self, user_id: UserId)
        requires
            old(self).wf(),
        ensures
            final(self).wf(),
            final(self).id == old(self).id,
            final(self).name == old(self).name,
            final(self).members@ == with_member(old(self).members@, user_id),
    {
        if !self.contains(user_id) {
            self.members.push(user_id);
            assert forall|i: int, j: int|
                0 <= i < self.members@.len() && 0 <= j < self.members@.len() && i != j implies
                self.members@[i] != self.members@[j] by {
                if i == self.members@.len() - 1 {
                    assert(old(self).members@[j] == self.members@[j]);
                } else if j == self.members@.len() - 1 {
                    assert(old(self).members@[i] == self.members@[i]);
                }
            }
        }
    }

    /// Removes `user_id`; nothing happens if it is not a member.
    pub fn remove_member(&mut self, user_id: UserId)
        requires
            old(self).wf(),
        ensures
            final(self).wf(),
            final(self).id == old(self).id,
            final(self).name == old(self).name,
            final(self).members@ == without(old(self).members@, user_id),
    {
        let ghost before = self.members@;
        let mut kept: Vec<UserId> = Vec::new();
        let n = self.members.len();
        let mut i: usize = 0;
        while i < n
            invariant
                n == self.members@.len(),
                self.members@ == before,
                i <= n,
                kept@ == without(before.take(i as int), user_id),
            decreases n - i,
        {
            proof {
                reveal(Seq::filter);
                assert(before.take(i as int + 1).drop_last() =~= before.take(i as int));
            }
            let m = self.members[i];
            if m != user_id {
                kept.push(m);
            }
            i += 1;
        }
        assert(before.take(n as int) =~= before);
        proof {
            lemma_without_contents(before, user_id);
        }
        self.members = kept;
    }

    /// A snapshot of the member ids, in the order they joined.
    pub fn member_ids(&self) -> (r: Vec<UserId>)
        ensures
            r@ == self.members@,
    {
        self.members.clone()
    }
}

} // verus!
