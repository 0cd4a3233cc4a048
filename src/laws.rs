//! Properties of the hub that hold across operations, proved over the model.
use vstd::prelude::*;

use crate::filter::{complete_run, pipeline_result, Verdict};
use crate::hub::{blocked_text, HubView};
use crate::message::chat_line;
use crate::room::{lemma_without_absent, lemma_without_contents, with_member, without};
use crate::session::{connected, step, SessionView};
use crate::types::{RoomId, UserId};

verus! {

/// The users whose queue of lines differs between `a` and `b`.
pub open spec fn recipients(a: HubView, b: HubView) -> Set<UserId> {
    Set::new(|x: UserId| a.pending_of(x) != b.pending_of(x))
}

/// The body that goes out under verdict `v`.
pub open spec fn delivered_body(body: Seq<char>, v: Verdict) -> Seq<char> {
    match v {
        Verdict::Modify(next) => next,
        _ => body,
    }
}

/// Two clients that connect one after the other get two different ids: each
/// gets the next slot, and the first connection takes exactly one.
pub proof fn law_distinct_ids(
    h: HubView,
    first: Seq<char>,
    second: Seq<char>,
    motd: Option<Seq<char>>,
)
    requires
        h.users.len() + 1 < u64::MAX,
    ensures
        connected(h, first, motd).users.len() == h.users.len() + 1,
        UserId(h.users.len() as u64) != UserId(connected(h, first, motd).users.len() as u64),
        connected(connected(h, first, motd), second, motd).users.len() == h.users.len() + 2,
{
}

/// No operation of the hub ever lowers the number of ids issued so far (the
/// length of the user slots): each keeps it, and registering a user adds one.
pub proof fn law_issued_ids_only_grow(
    h: HubView,
    u: UserId,
    r: RoomId,
    text: Seq<char>,
    to: Seq<UserId>,
    name: Seq<char>,
    v: Verdict,
    s: SessionView,
    line: Seq<char>,
    vs: Seq<Verdict>,
    motd: Option<Seq<char>>,
)
    ensures
        h.deliver(u, text).users.len() == h.users.len(),
        h.announce(to, u, text).users.len() == h.users.len(),
        h.has_room(r) ==> h.join(u, r).users.len() == h.users.len(),
        h.leave(u, r).users.len() == h.users.len(),
        h.remove_user(u).users.len() == h.users.len(),
        h.disconnect(u, r).users.len() == h.users.len(),
        h.rename(u, name).users.len() == h.users.len(),
        h.taken(u).users.len() == h.users.len(),
        h.create_room(name).users.len() == h.users.len(),
        h.chat(u, name, text, r, v).users.len() == h.users.len(),
        h.add_user(name).users.len() == h.users.len() + 1,
        connected(h, name, motd).users.len() == h.users.len() + 1,
        s.room.0 < h.rooms.len() ==> step(h, s, line, vs).0.users.len() == h.users.len(),
{
}

/// A newly registered user gets the id equal to the number of ids issued so
/// far, so it differs from every id issued before, whatever happened since,
/// removals included (they keep the slot count, see above).
pub proof fn law_new_id_is_fresh(h: HubView, earlier: UserId)
    requires
        earlier.0 < h.users.len(),
        h.users.len() < u64::MAX,
    ensures
        UserId(h.users.len() as u64) != earlier,
{
}

/// Joining a room one was not in and then leaving it restores every room,
/// membership included, to what it was before the join.
pub proof fn law_join_then_leave(h: HubView, u: UserId, r: RoomId)
    requires
        h.has_room(r),
        !h.members_of(r).contains(u),
    ensures
        h.join(u, r).leave(u, r).rooms == h.rooms,
        h.join(u, r).leave(u, r).members_of(r) == h.members_of(r),
{
    let m = h.members_of(r);
    let j = h.join(u, r);
    assert(with_member(m, u) == m.push(u));
    assert(j.members_of(r) == m.push(u));
    assert(m.push(u)[m.len() as int] == u);
    assert(j.members_of(r).contains(u));
    assert(without(m.push(u), u) == m) by {
        reveal(Seq::filter);
        assert(m.push(u).drop_last() =~= m);
        lemma_without_absent(m, u);
    }
    assert(j.leave(u, r).rooms =~= h.rooms);
}

/// Chat fan-out to a room whose members are all registered, the sender among
/// them: when no filter blocks the message, each member gets exactly one line,
/// the message, and nobody else gets any, so a room of N members receives N
/// lines; when a filter blocks it, the sender alone gets one line, the notice.
pub proof fn law_chat_fan_out(
    h: HubView,
    u: UserId,
    name: Seq<char>,
    body: Seq<char>,
    r: RoomId,
    v: Verdict,
)
    requires
        h.has_room(r),
        h.members_of(r).contains(u),
        h.members_of(r).no_duplicates(),
        forall|m: UserId| h.members_of(r).contains(m) ==> h.is_user(m),
    ensures
        v is Block ==> {
            let h2 = h.chat(u, name, body, r, v);
            &&& h2.pending_of(u) == h.pending_of(u).push(blocked_text(v->Block_0))
            &&& forall|x: UserId| x != u ==> h2.pending_of(x) == h.pending_of(x)
            &&& recipients(h, h2) == set![u]
            &&& recipients(h, h2).len() == 1
        },
        !(v is Block) ==> {
            let h2 = h.chat(u, name, body, r, v);
            let text = chat_line(name, delivered_body(body, v));
            let members = h.members_of(r);
            &&& forall|x: UserId|
                #[trigger] h2.pending_of(x) == if members.contains(x) {
                    h.pending_of(x).push(text)
                } else {
                    h.pending_of(x)
                }
            &&& recipients(h, h2) == members.to_set()
            &&& recipients(h, h2).len() == members.len()
        },
{
    let h2 = h.chat(u, name, body, r, v);
    let members = h.members_of(r);
    assert(h.is_user(u));
    if v is Block {
        let notice = blocked_text(v->Block_0);
        assert(h2 == h.deliver(u, notice));
        assert forall|x: UserId| x != u implies h2.pending_of(x) == h.pending_of(x) by {
            if h.is_user(x) {
                assert(x.0 != u.0);
            }
        }
        assert(h2.pending_of(u) != h.pending_of(u)) by {
            assert(h2.pending_of(u).len() == h.pending_of(u).len() + 1);
        }
        assert(recipients(h, h2) =~= set![u]);
        assert(set![u].len() == 1) by {
            assert(set![u] =~= Set::<UserId>::empty().insert(u));
        }
    } else {
        let text = chat_line(name, delivered_body(body, v));
        let d = h.deliver(u, text);
        assert(h2 == d.announce(d.members_of(r), u, text));
        assert(d.members_of(r) == members);
        assert forall|x: UserId|
            #[trigger] h2.pending_of(x) == if members.contains(x) {
                h.pending_of(x).push(text)
            } else {
                h.pending_of(x)
            } by {
            if h.is_user(x) {
                let i = x.0 as int;
                assert(UserId(i as u64) == x);
            } else if members.contains(x) {
                assert(h.is_user(x));
            }
        }
        assert forall|x: UserId| #[trigger] recipients(h, h2).contains(x) == members.to_set().contains(x) by {
            if members.contains(x) {
                assert(h2.pending_of(x).len() == h.pending_of(x).len() + 1);
            }
        }
        assert(recipients(h, h2) =~= members.to_set());
        members.unique_seq_to_set();
    }
}

/// Clearing a registration is idempotent: doing it a second time for the same
/// user changes nothing. A second disconnect cleanup therefore leaves every
/// registration and every room membership as the first left them; it only
/// tells the room's remaining members once more that the user left.
pub proof fn law_remove_user_idempotent(h: HubView, u: UserId, r: RoomId)
    ensures
        h.remove_user(u).remove_user(u) == h.remove_user(u),
        forall|k: int|
            0 <= k < h.rooms.len() ==> !(#[trigger] h.remove_user(u).rooms[k]).members.contains(u),
        !h.remove_user(u).is_user(u),
        h.disconnect(u, r).disconnect(u, r).rooms == h.disconnect(u, r).rooms,
        forall|x: UserId|
            #[trigger] h.disconnect(u, r).disconnect(u, r).is_user(x) == h.disconnect(u, r).is_user(
                x,
            ),
{
    lemma_remove_user_idempotent(h, u);
    let d = h.disconnect(u, r);
    lemma_remove_user_idempotent(h.leave(u, r), u);
    let l = d.leave(u, r);
    if d.has_room(r) {
        lemma_without_absent(d.members_of(r), u);
        assert(l.rooms =~= d.rooms);
    }
    lemma_remove_user_idempotent(l, u);
    assert(l.remove_user(u).rooms =~= d.rooms) by {
        assert forall|k: int| 0 <= k < d.rooms.len() implies #[trigger] l.remove_user(u).rooms[k]
            == d.rooms[k] by {
            lemma_without_absent(d.rooms[k].members, u);
        }
    }
    assert forall|x: UserId| #[trigger] d.disconnect(u, r).is_user(x) == d.is_user(x) by {}
}

proof fn lemma_remove_user_idempotent(h: HubView, u: UserId)
    ensures
        h.remove_user(u).remove_user(u) == h.remove_user(u),
        forall|k: int|
            0 <= k < h.rooms.len() ==> !(#[trigger] h.remove_user(u).rooms[k]).members.contains(u),
{
    let a = h.remove_user(u);
    let b = a.remove_user(u);
    assert forall|k: int| 0 <= k < h.rooms.len() implies !(#[trigger] a.rooms[k]).members.contains(
        u,
    ) && b.rooms[k] == a.rooms[k] by {
        lemma_without_contents(h.rooms[k].members, u);
        lemma_without_absent(a.rooms[k].members, u);
    }
    assert(b.rooms =~= a.rooms);
    assert(b.users =~= a.users);
}

/// With no filters registered, the pipeline lets every message through as it
/// is, so on such a hub each line's effect (`step`) is fully determined.
pub proof fn law_no_filters_allow(body: Seq<char>, vs: Seq<Verdict>)
    requires
        complete_run(vs, 0),
    ensures
        pipeline_result(body, vs) == Verdict::Allow,
{
    assert(vs.len() == 0);
}

} // verus!
