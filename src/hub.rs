//! The session hub as a mathematical model: registered users with their queues
//! of outgoing lines, and rooms with their members. The hub's operations are
//! stated here as transitions of this model.
use vstd::prelude::*;

use crate::filter::Verdict;
use crate::message::chat_line;
use crate::room::{with_member, without};
use crate::types::{RoomId, UserId};

verus! {

/// A registered user: display name and the lines waiting for it.
pub struct UserView {
    pub name: Seq<char>,
    pub pending: Seq<Seq<char>>,
}

/// A room: its name and its members in the order they joined.
pub struct RoomView {
    pub name: Seq<char>,
    pub members: Seq<UserId>,
}

/// The hub: user slots indexed by user id (`None` once a user has left), and
/// rooms indexed by room id.
pub struct HubView {
    pub users: Seq<Option<UserView>>,
    pub rooms: Seq<RoomView>,
}

/// The announcement that `name` joined `room`.
pub open spec fn joined_text(name: Seq<char>, room: Seq<char>) -> Seq<char> {
    "* "@ + name + " joined #"@ + room
}

/// The announcement that `name` left `room`.
pub open spec fn left_text(name: Seq<char>, room: Seq<char>) -> Seq<char> {
    "* "@ + name + " left #"@ + room
}

/// The notice to a sender whose message a filter blocked.
pub open spec fn blocked_text(reason: Seq<char>) -> Seq<char> {
    "* Message blocked: "@ + reason
}

impl HubView {
    /// `u` is a registered user.
    pub open spec fn is_user(self, u: UserId) -> bool {
        u.0 < self.users.len() && self.users[u.0 as int] is Some
    }

    /// `r` is an existing room.
    pub open spec fn has_room(self, r: RoomId) -> bool {
        r.0 < self.rooms.len()
    }

    /// The display name of `u`, or `unknown` for an id that is not registered.
    pub open spec fn name_of(self, u: UserId) -> Seq<char> {
        if self.is_user(u) {
            self.users[u.0 as int]->0.name
        } else {
            "unknown"@
        }
    }

    /// The lines waiting for `u` (none for an id that is not registered).
    pub open spec fn pending_of(self, u: UserId) -> Seq<Seq<char>> {
        if self.is_user(u) {
            self.users[u.0 as int]->0.pending
        } else {
            Seq::empty()
        }
    }

    /// The members of room `r`.
    pub open spec fn members_of(self, r: RoomId) -> Seq<UserId> {
        self.rooms[r.0 as int].members
    }

    /// Queues `text` for `u`; an id that is not registered is passed over.
    pub open spec fn deliver(self, u: UserId, text: Seq<char>) -> HubView {
        if self.is_user(u) {
            let v = self.users[u.0 as int]->0;
            HubView {
                users: self.users.update(
                    u.0 as int,
                    Some(UserView { name: v.name, pending: v.pending.push(text) }),
                ),
                rooms: self.rooms,
            }
        } else {
            self
        }
    }

    /// Queues `text` once for each registered user in `to`, except `skip`.
    pub open spec fn announce(self, to: Seq<UserId>, skip: UserId, text: Seq<char>) -> HubView {
        HubView {
            users: Seq::new(
                self.users.len(),
                |i: int|
                    if self.users[i] is Some && to.contains(UserId(i as u64)) && i != skip.0 {
                        Some(
                            UserView {
                                name: self.users[i]->0.name,
                                pending: self.users[i]->0.pending.push(text),
                            },
                        )
                    } else {
                        self.users[i]
                    },
            ),
            rooms: self.rooms,
        }
    }

    /// Room `r` with `members` as its membership.
    pub open spec fn set_members(self, r: RoomId, members: Seq<UserId>) -> HubView {
        HubView {
            users: self.users,
            rooms: self.rooms.update(
                r.0 as int,
                RoomView { name: self.rooms[r.0 as int].name, members },
            ),
        }
    }

    /// `u` joins room `r` (an existing room): it becomes a member, and every other
    /// member hears of it.
    pub open spec fn join(self, u: UserId, r: RoomId) -> HubView {
        let members = with_member(self.members_of(r), u);
        self.set_members(r, members).announce(
            members,
            u,
            joined_text(self.name_of(u), self.rooms[r.0 as int].name),
        )
    }

    /// `u` leaves room `r` (an existing room): the room's other members hear of
    /// it, then it is no longer a member.
    pub open spec fn leave(self, u: UserId, r: RoomId) -> HubView {
        if self.has_room(r) {
            self.announce(
                self.members_of(r),
                u,
                left_text(self.name_of(u), self.rooms[r.0 as int].name),
            ).set_members(r, without(self.members_of(r), u))
        } else {
            self
        }
    }

    /// `u` is removed from every room and its slot is cleared.
    pub open spec fn remove_user(self, u: UserId) -> HubView {
        HubView {
            users: if u.0 < self.users.len() {
                self.users.update(u.0 as int, None)
            } else {
                self.users
            },
            rooms: self.rooms.map_values(
                |rv: RoomView| RoomView { name: rv.name, members: without(rv.members, u) },
            ),
        }
    }

    /// The cleanup when `u`, last in room `r`, disconnects.
    pub open spec fn disconnect(self, u: UserId, r: RoomId) -> HubView {
        self.leave(u, r).remove_user(u)
    }

    /// A new user named `name`, in the next slot, with nothing pending.
    pub open spec fn add_user(self, name: Seq<char>) -> HubView {
        HubView {
            users: self.users.push(Some(UserView { name, pending: Seq::empty() })),
            rooms: self.rooms,
        }
    }

    /// A new, empty room named `name`, at the next index.
    pub open spec fn create_room(self, name: Seq<char>) -> HubView {
        HubView {
            users: self.users,
            rooms: self.rooms.push(RoomView { name, members: Seq::empty() }),
        }
    }

    /// `u` now goes by `name`; an id that is not registered is passed over.
    pub open spec fn rename(self, u: UserId, name: Seq<char>) -> HubView {
        if self.is_user(u) {
            HubView {
                users: self.users.update(
                    u.0 as int,
                    Some(UserView { name, pending: self.users[u.0 as int]->0.pending }),
                ),
                rooms: self.rooms,
            }
        } else {
            self
        }
    }

    /// `u`'s queue emptied, as when the transport has taken its lines.
    pub open spec fn taken(self, u: UserId) -> HubView {
        if self.is_user(u) {
            HubView {
                users: self.users.update(
                    u.0 as int,
                    Some(UserView { name: self.users[u.0 as int]->0.name, pending: Seq::empty() }),
                ),
                rooms: self.rooms,
            }
        } else {
            self
        }
    }

    /// The first room named exactly `name`, if any.
    pub open spec fn room_named(self, name: Seq<char>) -> Option<RoomId> {
        if exists|i: int| 0 <= i < self.rooms.len() && self.rooms[i].name == name {
            Some(
                RoomId(
                    (choose|i: int|
                        0 <= i < self.rooms.len() && self.rooms[i].name == name && forall|j: int|
                            0 <= j < i ==> self.rooms[j].name != name) as u64,
                ),
            )
        } else {
            None
        }
    }

    /// The registered user with the lowest id named exactly `name`, if any.
    pub open spec fn user_named(self, name: Seq<char>) -> Option<UserId> {
        if exists|i: int|
            0 <= i < self.users.len() && self.users[i] is Some && self.users[i]->0.name == name {
            Some(
                UserId(
                    (choose|i: int|
                        0 <= i < self.users.len() && self.users[i] is Some && self.users[i]->0.name
                            == name && forall|j: int|
                            0 <= j < i ==> !(self.users[j] is Some && self.users[j]->0.name
                                == name)) as u64,
                ),
            )
        } else {
            None
        }
    }

    /// `text` echoed to `u` and queued for the other members of room `r`.
    pub open spec fn fan_out(self, u: UserId, r: RoomId, text: Seq<char>) -> HubView {
        let h = self.deliver(u, text);
        if h.has_room(r) {
            h.announce(h.members_of(r), u, text)
        } else {
            h
        }
    }

    /// `u`, named `name`, says `body` in room `r`, and the filters gave `v`: a
    /// block is reported to `u` alone; otherwise the message, with the body as
    /// the filters left it, goes to `u` and to the room's other members.
    pub open spec fn chat(
        self,
        u: UserId,
        name: Seq<char>,
        body: Seq<char>,
        r: RoomId,
        v: Verdict,
    ) -> HubView {
        match v {
            Verdict::Block(reason) => self.deliver(u, blocked_text(reason)),
            Verdict::Allow => self.fan_out(u, r, chat_line(name, body)),
            Verdict::Modify(next) => self.fan_out(u, r, chat_line(name, next)),
        }
    }

    /// The room named `name`, created at the next index when there is none.
    pub open spec fn find_or_create(self, name: Seq<char>) -> (HubView, RoomId) {
        match self.room_named(name) {
            Some(r) => (self, r),
            None => (self.create_room(name), RoomId(self.rooms.len() as u64)),
        }
    }
}

/// A room found by name exists, and bears that name.
pub proof fn lemma_room_named(h: HubView, name: Seq<char>)
    requires
        h.rooms.len() <= u64::MAX,
    ensures
        h.room_named(name) matches Some(r) ==> h.has_room(r) && h.rooms[r.0 as int].name == name,
{
    if exists|i: int| 0 <= i < h.rooms.len() && h.rooms[i].name == name {
        let i = choose|i: int| 0 <= i < h.rooms.len() && h.rooms[i].name == name;
        lemma_first_room(h, name, i);
    }
}

proof fn lemma_first_room(h: HubView, name: Seq<char>, i: int)
    requires
        0 <= i < h.rooms.len(),
        h.rooms[i].name == name,
    ensures
        exists|k: int|
            0 <= k < h.rooms.len() && h.rooms[k].name == name && forall|j: int|
                0 <= j < k ==> h.rooms[j].name != name,
    decreases i,
{
    if exists|j: int| 0 <= j < i && h.rooms[j].name == name {
        let j = choose|j: int| 0 <= j < i && h.rooms[j].name == name;
        lemma_first_room(h, name, j);
    }
}

} // verus!
