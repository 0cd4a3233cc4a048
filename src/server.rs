//! The session hub: the single owner of all user and room state, mutated by
//! every connection handler in turn.
use vstd::prelude::*;

use crate::config::ServerConfig;
use crate::error::ChatError;
use crate::filter::{complete_run, pipeline_result, FilterAction, FilterRegistry, Verdict};
use crate::hub::{HubView, RoomView, UserView};
use crate::message::{chat_line, Message};
use crate::room::{with_member, without, Room};
use crate::text::{decimal, decimal_string, string_eq};
use crate::types::{RoomId, UserId};
use crate::user::User;

verus! {

/// The model of one user slot.
pub open spec fn slot_view(o: Option<User>) -> Option<UserView> {
    match o {
        Some(u) => Some(UserView { name: u.username@, pending: u.pending() }),
        None => None,
    }
}

/// The model of one room.
pub open spec fn room_view(r: Room) -> RoomView {
    RoomView { name: r.name@, members: r.members@ }
}

/// The session hub. Users and rooms live here; lines for a user wait in its
/// queue until the transport takes them.
pub struct Server {
    users: Vec<Option<User>>,
    rooms: Vec<Room>,
    pub filters: FilterRegistry,
    pub config: ServerConfig,
    next_user_id: u64,
}

impl View for Server {
    type V = HubView;

    closed spec fn view(&self) -> HubView {
        HubView {
            users: self.users@.map_values(|o: Option<User>| slot_view(o)),
            rooms: self.rooms@.map_values(|r: Room| room_view(r)),
        }
    }
}

impl Server {
    /// Slots are indexed by id, ids are issued in order, and rooms are indexed
    /// by id, the lobby first, each with members listed once.
    pub closed spec fn wf(&self) -> bool {
        &&& self.users@.len() == self.next_user_id
        &&& forall|i: int|
            0 <= i < self.users@.len() && #[trigger] self.users@[i] is Some ==> self.users@[i]->0.id
                == UserId(i as u64)
        &&& forall|i: int|
            0 <= i < self.users@.len() && #[trigger] self.users@[i] is Some
                ==> self.users@[i]->0.username@.len() > 0
        &&& self.rooms@.len() >= 1
        &&& forall|i: int|
            0 <= i < self.rooms@.len() ==> (#[trigger] self.rooms@[i]).id == RoomId(i as u64)
                && self.rooms@[i].wf()
    }

    /// What stays the same across an operation on users and rooms: the
    /// configuration and the filters.
    pub open spec fn same_setup(&self, other: &Server) -> bool {
        &&& self.configuration() == other.configuration()
        &&& self.filter_count() == other.filter_count()
    }

    /// The configuration the hub was made with.
    pub closed spec fn configuration(&self) -> ServerConfig {
        self.config
    }

    /// The number of registered filters.
    pub closed spec fn filter_count(&self) -> nat {
        self.filters.len()
    }

    /// What a well-formed hub shows of itself: the lobby exists, ids fit in
    /// 64 bits, each room lists a member once, and no name is empty.
    pub proof fn lemma_wf(&self)
        requires
            self.wf(),
        ensures
            self@.has_room(RoomId(0)),
            self@.users.len() <= u64::MAX,
            self@.rooms.len() <= u64::MAX,
            forall|r: RoomId| #[trigger] self@.has_room(r) ==> self@.members_of(r).no_duplicates(),
            forall|u: UserId| #[trigger] self@.is_user(u) ==> self@.name_of(u).len() > 0,
    {
        assert forall|r: RoomId| #[trigger] self@.has_room(r) implies self@.members_of(
            r,
        ).no_duplicates() by {
            assert(self.rooms@[r.0 as int].wf());
        }
        assert forall|u: UserId| #[trigger] self@.is_user(u) implies self@.name_of(u).len() > 0 by {
            assert(self.users@[u.0 as int] is Some);
        }
        assert(self.rooms@.len() == self.rooms.len());
    }

    /// A hub holding only the lobby, room 0.
    pub fn new(config: ServerConfig) -> (r: Self)
        ensures
            r.wf(),
            r.configuration() == config,
            r.filter_count() == 0,
            r@.users.len() == 0,
            r@.rooms.len() == 1,
            r@.rooms[0].name == "lobby"@,
            r@.rooms[0].members.len() == 0,
    {
        let mut server = Server {
            users: Vec::new(),
            rooms: Vec::new(),
            filters: FilterRegistry::new(),
            config,
            next_user_id: 0,
        };
        let lobby = Room::new(RoomId::new(0), "lobby".to_owned());
        server.rooms.push(lobby);
        proof {
            assert(server@.users.len() == 0);
            assert(server@.rooms[0] == room_view(lobby));
        }
        server
    }

    /// The address to listen on, `addr:port`.
    pub fn bind_addr(&self) -> (r: String)
        ensures
            r@ == self.configuration().addr@ + ":"@ + decimal(self.configuration().port as nat),
    {
        let port = decimal_string(self.config.port as u64);
        self.config.addr.clone().concat(":").concat(port.as_str())
    }

    /// The configured message of the day.
    pub fn motd(&self) -> (r: Option<String>)
        ensures
            match r {
                Some(m) => self.configuration().motd matches Some(x) && x@ == m@,
                None => self.configuration().motd is None,
            },
    {
        match &self.config.motd {
            Some(m) => Some(m.clone()),
            None => None,
        }
    }

    /// Appends a new, empty room named `name` and returns its id.
    pub fn create_room(&mut self, name: String) -> (r: RoomId)
        requires
            old(self).wf(),
        ensures
            final(self).wf(),
            final(self).same_setup(old(self)),
            r.0 == old(self)@.rooms.len(),
            final(self)@ == old(self)@.create_room(name@),
    {
        let id = RoomId::new(self.rooms.len() as u64);
        let room = Room::new(id, name);
        self.rooms.push(room);
        proof {
            assert(self@.rooms =~= old(self)@.create_room(name@).rooms);
            assert(self@.users =~= old(self)@.users);
        }
        id
    }

    /// The first room named exactly `name`.
    pub fn find_room_by_name(&self, name: &str) -> (r: Option<RoomId>)
        requires
            self.wf(),
        ensures
            r == self@.room_named(name@),
    {
        let n = self.rooms.len();
        let mut i: usize = 0;
        while i < n
            invariant
                self.wf(),
                n == self.rooms@.len(),
                i <= n,
                forall|j: int| 0 <= j < i ==> self@.rooms[j].name != name@,
            decreases n - i,
        {
            if string_eq(&self.rooms[i].name, name) {
                proof {
                    let h = self@;
                    assert(h.rooms[i as int].name == name@);
                    let k = choose|k: int|
                        0 <= k < h.rooms.len() && h.rooms[k].name == name@ && forall|j: int|
                            0 <= j < k ==> h.rooms[j].name != name@;
                    assert(k == i) by {
                        if k < i {
                            assert(h.rooms[k].name != name@);
                        } else if k > i {
                            assert(h.rooms[i as int].name == name@);
                        }
                    }
                }
                return Some(self.rooms[i].id);
            }
            i += 1;
        }
        None
    }

    /// The slot index of `u`, when one was issued.
    fn slot(&self, u: UserId) -> (r: Option<usize>)
        requires
            self.wf(),
        ensures
            match r {
                Some(i) => i == u.0 && i < self@.users.len(),
                None => u.0 >= self@.users.len(),
            },
    {
        let n = self.users.len();
        if u.0 < self.next_user_id {
            assert(u.0 < n);
            Some(u.0 as usize)
        } else {
            None
        }
    }

    /// Queues `text` for `user_id`; an id that is not registered is passed over.
    pub(crate) fn deliver(&mut self, user_id: UserId, text: &str)
        requires
            old(self).wf(),
        ensures
            final(self).wf(),
            final(self).same_setup(old(self)),
            final(self)@ == old(self)@.deliver(user_id, text@),
    {
        if let Some(i) = self.slot(user_id) {
            match &mut self.users[i] {
                Some(u) => {
                    u.send(text);
                },
                None => {},
            }
            proof {
                assert(self@.users =~= old(self)@.deliver(user_id, text@).users);
                assert(self@.rooms =~= old(self)@.rooms);
            }
        }
    }

    /// Queues `text` once for each registered user in `to`, except `skip`.
    fn announce(&mut self, to: &Vec<UserId>, skip: UserId, text: &str)
        requires
            old(self).wf(),
            to@.no_duplicates(),
        ensures
            final(self).wf(),
            final(self).same_setup(old(self)),
            final(self)@ == old(self)@.announce(to@, skip, text@),
    {
        let ghost start = self@;
        let n = to.len();
        let mut j: usize = 0;
        proof {
            assert(start.announce(to@.take(0), skip, text@).users =~= start.users);
            assert(start.announce(to@.take(0), skip, text@) =~= start);
        }
        while j < n
            invariant
                self.wf(),
                self.same_setup(old(self)),
                start == old(self)@,
                n == to@.len(),
                to@.no_duplicates(),
                j <= n,
                self@ == start.announce(to@.take(j as int), skip, text@),
            decreases n - j,
        {
            let m = to[j];
            let ghost before = self@;
            if m != skip {
                self.deliver(m, text);
            }
            proof {
                let pre = to@.take(j as int);
                let post = to@.take(j + 1);
                let next = start.announce(post, skip, text@);
                assert(post =~= pre.push(m));
                assert(!pre.contains(m)) by {
                    if pre.contains(m) {
                        let k = choose|k: int| 0 <= k < pre.len() && pre[k] == m;
                        assert(to@[k] == to@[j as int]);
                    }
                }
                assert forall|i: int| 0 <= i < start.users.len() implies
                    #[trigger] post.contains(UserId(i as u64)) == (pre.contains(UserId(i as u64))
                    || UserId(i as u64) == m) by {
                    let x = UserId(i as u64);
                    if x == m {
                        assert(post[j as int] == m);
                    }
                    if post.contains(x) && x != m {
                        let k = choose|k: int| 0 <= k < post.len() && post[k] == x;
                        assert(pre[k] == x);
                    }
                    if pre.contains(x) {
                        let k = choose|k: int| 0 <= k < pre.len() && pre[k] == x;
                        assert(post[k] == x);
                    }
                }
                assert(self@.users =~= next.users);
                assert(self@ =~= next);
            }
            j += 1;
        }
        proof {
            assert(to@.take(n as int) =~= to@);
        }
    }

    /// The display name of `user_id`, or `unknown`.
    fn display_name(&self, user_id: UserId) -> (r: String)
        requires
            self.wf(),
        ensures
            r@ == self@.name_of(user_id),
    {
        if let Some(i) = self.slot(user_id) {
            match &self.users[i] {
                Some(u) => {
                    return u.username.clone();
                },
                None => {},
            }
        }
        "unknown".to_owned()
    }

    /// Issues the next user id to a new user named `username`, with nothing
    /// pending. `None` once every id has been issued.
    pub fn add_user(&mut self, username: String) -> (r: Option<UserId>)
        requires
            old(self).wf(),
            username@.len() > 0,
        ensures
            final(self).wf(),
            final(self).same_setup(old(self)),
            r is Some <==> old(self)@.users.len() < u64::MAX,
            match r {
                Some(id) => id.0 == old(self)@.users.len() && final(self)@ == old(self)@.add_user(
                    username@,
                ),
                None => final(self)@ == old(self)@,
            },
    {
        if self.next_user_id == u64::MAX {
            return None;
        }
        let id = UserId::new(self.next_user_id);
        self.next_user_id = self.next_user_id + 1;
        let user = User::new(id, username);
        self.users.push(Some(user));
        proof {
            assert(self@.users =~= old(self)@.add_user(username@).users);
            assert(self@.rooms =~= old(self)@.rooms);
        }
        Some(id)
    }

    /// Removes `user_id` from every room and clears its slot. Calling it again
    /// changes nothing.
    pub fn remove_user(&mut self, user_id: UserId)
        requires
            old(self).wf(),
        ensures
            final(self).wf(),
            final(self).same_setup(old(self)),
            final(self)@ == old(self)@.remove_user(user_id),
    {
        let ghost goal = old(self)@.remove_user(user_id);
        let n = self.rooms.len();
        let mut i: usize = 0;
        while i < n
            invariant
                self.wf(),
                self.same_setup(old(self)),
                n == self.rooms@.len() == old(self)@.rooms.len(),
                self@.rooms.len() == n,
                goal.rooms.len() == n,
                goal == old(self)@.remove_user(user_id),
                i <= n,
                self@.users == old(self)@.users,
                forall|k: int| 0 <= k < i ==> #[trigger] self@.rooms[k] == goal.rooms[k],
                forall|k: int| i <= k < n ==> #[trigger] self@.rooms[k] == old(self)@.rooms[k],
            decreases n - i,
        {
            let ghost before = self@;
            let ghost before_rooms = self.rooms@;
            assert(self.rooms@[i as int].wf());
            self.rooms[i].remove_member(user_id);
            proof {
                assert(self@.users =~= before.users);
                assert(before.rooms[i as int] == old(self)@.rooms[i as int]);
                assert(before.rooms[i as int] == room_view(before_rooms[i as int]));
                assert(self@.rooms[i as int] == room_view(self.rooms@[i as int]));
                assert(self@.rooms[i as int] == goal.rooms[i as int]);
                assert forall|k: int| 0 <= k < n && k != i implies #[trigger] self@.rooms[k]
                    == before.rooms[k] by {
                    assert(self.rooms@[k] == before_rooms[k]);
                }
            }
            i += 1;
        }
        if let Some(k) = self.slot(user_id) {
            self.users.set(k, None);
        }
        proof {
            assert(self@.rooms =~= goal.rooms);
            assert(self@.users =~= goal.users);
        }
    }

    /// The registered user with the lowest id named exactly `name`.
    pub(crate) fn find_user_by_name(&self, name: &str) -> (r: Option<UserId>)
        requires
            self.wf(),
        ensures
            r == self@.user_named(name@),
    {
        let n = self.users.len();
        let mut i: usize = 0;
        while i < n
            invariant
                self.wf(),
                n == self.users@.len(),
                i <= n,
                forall|j: int|
                    0 <= j < i ==> !(self@.users[j] is Some && self@.users[j]->0.name == name@),
            decreases n - i,
        {
            match &self.users[i] {
                Some(u) => {
                    if string_eq(&u.username, name) {
                        proof {
                            let h = self@;
                            let k = choose|k: int|
                                0 <= k < h.users.len() && h.users[k] is Some && h.users[k]->0.name
                                    == name@ && forall|j: int|
                                    0 <= j < k ==> !(h.users[j] is Some && h.users[j]->0.name
                                        == name@);
                            assert(k == i) by {
                                if k < i {
                                    assert(!(h.users[k] is Some && h.users[k]->0.name == name@));
                                } else if k > i {
                                    assert(h.users[i as int] is Some && h.users[i as int]->0.name
                                        == name@);
                                }
                            }
                        }
                        return Some(u.id);
                    }
                },
                None => {},
            }
            i += 1;
        }
        None
    }

    /// `user_id` joins `room_id`, and the room's other members hear of it.
    pub fn join_room(&mut self, user_id: UserId, room_id: RoomId) -> (r: Result<(), ChatError>)
        requires
            old(self).wf(),
        ensures
            final(self).wf(),
            final(self).same_setup(old(self)),
            old(self)@.has_room(room_id) ==> r is Ok && final(self)@ == old(self)@.join(
                user_id,
                room_id,
            ),
            !old(self)@.has_room(room_id) ==> final(self)@ == old(self)@ && (r matches Err(
                ChatError::UnknownRoom(m),
            ) && m@ == room_id.text()),
    {
        if room_id.0 >= self.rooms.len() as u64 {
            return Err(ChatError::UnknownRoom(room_id.to_string()));
        }
        let i = room_id.0 as usize;
        let ghost h0 = self@;
        let username = self.display_name(user_id);
        self.rooms[i].add_member(user_id);
        proof {
            assert(self@.rooms =~= h0.set_members(
                room_id,
                with_member(h0.members_of(room_id), user_id),
            ).rooms);
            assert(self@.users =~= h0.users);
        }
        let members = self.rooms[i].member_ids();
        let text = "* ".to_owned().concat(username.as_str()).concat(" joined #").concat(
            self.rooms[i].name.as_str(),
        );
        self.announce(&members, user_id, text.as_str());
        Ok(())
    }

    /// `user_id` leaves `room_id`: the room's other members hear of it first,
    /// then it is no longer a member. A room that does not exist is an error.
    pub(crate) fn leave_room(&mut self, user_id: UserId, room_id: RoomId) -> (r: Result<(), ChatError>)
        requires
            old(self).wf(),
        ensures
            final(self).wf(),
            final(self).same_setup(old(self)),
            old(self)@.has_room(room_id) ==> r is Ok && final(self)@ == old(self)@.leave(
                user_id,
                room_id,
            ),
            !old(self)@.has_room(room_id) ==> final(self)@ == old(self)@ && (r matches Err(
                ChatError::UnknownRoom(m),
            ) && m@ == room_id.text()),
    {
        if room_id.0 >= self.rooms.len() as u64 {
            return Err(ChatError::UnknownRoom(room_id.to_string()));
        }
        let i = room_id.0 as usize;
        let ghost h0 = self@;
        let username = self.display_name(user_id);
        let members = self.rooms[i].member_ids();
        let text = "* ".to_owned().concat(username.as_str()).concat(" left #").concat(
            self.rooms[i].name.as_str(),
        );
        self.announce(&members, user_id, text.as_str());
        let ghost h1 = self@;
        assert(self.rooms@.len() == self@.rooms.len());
        assert(self.rooms@[i as int].wf());
        self.rooms[i].remove_member(user_id);
        proof {
            assert(self@.rooms =~= h1.set_members(room_id, without(h0.members_of(room_id), user_id)).rooms);
            assert(self@.users =~= h1.users);
        }
        Ok(())
    }

    /// `user_id` now goes by `name`.
    pub fn rename_user(&mut self, user_id: UserId, name: String)
        requires
            old(self).wf(),
            name@.len() > 0,
        ensures
            final(self).wf(),
            final(self).same_setup(old(self)),
            final(self)@ == old(self)@.rename(user_id, name@),
    {
        if let Some(i) = self.slot(user_id) {
            match &mut self.users[i] {
                Some(u) => {
                    u.username = name;
                },
                None => {},
            }
            proof {
                assert(self@.users =~= old(self)@.rename(user_id, name@).users);
                assert(self@.rooms =~= old(self)@.rooms);
            }
        }
    }

    /// Hands out the lines waiting for `user_id`, oldest first, and empties its
    /// queue.
    pub fn take_outgoing(&mut self, user_id: UserId) -> (r: Vec<String>)
        requires
            old(self).wf(),
        ensures
            final(self).wf(),
            final(self).same_setup(old(self)),
            crate::user::texts(r@) == old(self)@.pending_of(user_id),
            final(self)@ == old(self)@.taken(user_id),
    {
        let mut out: Vec<String> = Vec::new();
        if let Some(i) = self.slot(user_id) {
            match &mut self.users[i] {
                Some(u) => {
                    out = u.take_outgoing();
                },
                None => {},
            }
            proof {
                assert(self@.users =~= old(self)@.taken(user_id).users);
                assert(self@.rooms =~= old(self)@.rooms);
            }
        }
        proof {
            if !old(self)@.is_user(user_id) {
                assert(crate::user::texts(out@) =~= Seq::<Seq<char>>::empty());
            }
        }
        out
    }

    /// The members of `room_id`, in the order they joined, if the room exists.
    pub fn room_members(&self, room_id: RoomId) -> (r: Option<Vec<UserId>>)
        requires
            self.wf(),
        ensures
            match r {
                Some(v) => self@.has_room(room_id) && v@ == self@.members_of(room_id),
                None => !self@.has_room(room_id),
            },
    {
        if room_id.0 >= self.rooms.len() as u64 {
            return None;
        }
        Some(self.rooms[room_id.0 as usize].member_ids())
    }

    /// The display name of `user_id`, if it is registered.
    pub fn username_of(&self, user_id: UserId) -> (r: Option<String>)
        requires
            self.wf(),
        ensures
            match r {
                Some(s) => self@.is_user(user_id) && s@ == self@.name_of(user_id),
                None => !self@.is_user(user_id),
            },
    {
        if let Some(i) = self.slot(user_id) {
            match &self.users[i] {
                Some(u) => {
                    return Some(u.username.clone());
                },
                None => {},
            }
        }
        None
    }

    /// Queues `msg` as `<username> body` for every member of `room_id` but the
    /// sender.
    pub fn broadcast(&mut self, room_id: RoomId, sender_id: UserId, msg: &Message<'_>) -> (r:
        Result<(), ChatError>)
        requires
            old(self).wf(),
        ensures
            final(self).wf(),
            final(self).same_setup(old(self)),
            old(self)@.has_room(room_id) ==> r is Ok && final(self)@ == old(self)@.announce(
                old(self)@.members_of(room_id),
                sender_id,
                chat_line(msg.username@, msg.body@),
            ),
            !old(self)@.has_room(room_id) ==> final(self)@ == old(self)@ && (r matches Err(
                ChatError::UnknownRoom(m),
            ) && m@ == room_id.text()),
    {
        if room_id.0 >= self.rooms.len() as u64 {
            return Err(ChatError::UnknownRoom(room_id.to_string()));
        }
        let members = self.rooms[room_id.0 as usize].member_ids();
        let text = msg.to_string();
        self.announce(&members, sender_id, text.as_str());
        Ok(())
    }

    /// Delivers what `user_id`, named `username`, said in `room_id`, given the
    /// filters' verdict on `body`.
    pub fn deliver_chat(
        &mut self,
        user_id: UserId,
        username: &str,
        body: &str,
        room_id: RoomId,
        verdict: FilterAction,
    ) -> (r: Result<(), ChatError>)
        requires
            old(self).wf(),
        ensures
            final(self).wf(),
            final(self).same_setup(old(self)),
            final(self)@ == old(self)@.chat(user_id, username@, body@, room_id, verdict@),
            r is Ok <==> (verdict is Block || old(self)@.has_room(room_id)),
            r is Err ==> (r matches Err(ChatError::UnknownRoom(m)) && m@ == room_id.text()),
    {
        let final_body = match verdict {
            FilterAction::Allow => body.to_owned(),
            FilterAction::Modify(next) => next,
            FilterAction::Block(reason) => {
                let notice = "* Message blocked: ".to_owned().concat(reason.as_str());
                self.deliver(user_id, notice.as_str());
                return Ok(());
            },
        };
        let msg = Message::new(
            std::borrow::Cow::Borrowed(username),
            std::borrow::Cow::Borrowed(final_body.as_str()),
        );
        let text = msg.to_string();
        self.deliver(user_id, text.as_str());
        self.broadcast(room_id, user_id, &msg)
    }

    /// Runs the filters over `body`, then delivers the result as
    /// `deliver_chat` does.
    pub fn send_chat_message(
        &mut self,
        user_id: UserId,
        username: &str,
        body: &str,
        room_id: RoomId,
    ) -> (r: Result<(), ChatError>)
        requires
            old(self).wf(),
        ensures
            final(self).wf(),
            final(self).same_setup(old(self)),
            exists|vs: Seq<Verdict>|
                {
                    &&& complete_run(vs, old(self).filter_count())
                    &&& final(self)@ == old(self)@.chat(
                        user_id,
                        username@,
                        body@,
                        room_id,
                        #[trigger] pipeline_result(body@, vs),
                    )
                    &&& (r is Ok <==> (pipeline_result(body@, vs) is Block || old(self)@.has_room(
                        room_id,
                    )))
                },
            r is Err ==> (r matches Err(ChatError::UnknownRoom(m)) && m@ == room_id.text()),
    {
        let verdict = self.filters.apply(username, body);
        let ghost v = verdict@;
        let r = self.deliver_chat(user_id, username, body, room_id, verdict);
        proof {
            let vs = choose|vs: Seq<Verdict>|
                complete_run(vs, old(self).filter_count()) && v == #[trigger] pipeline_result(
                    body@,
                    vs,
                );
            assert(v is Block <==> pipeline_result(body@, vs) is Block);
        }
        r
    }
}

} // verus!
