use chat_server::config::ServerConfig;
use chat_server::connection::accept_username;
use chat_server::error::ChatError;
use chat_server::filter::{FilterAction, MessageFilter};
use chat_server::message::Message;
use chat_server::server::Server;
use chat_server::session::Flow;
use chat_server::types::{RoomId, UserId};

fn hub() -> Server {
    Server::new(ServerConfig::builder().build())
}

fn lines(v: &[&str]) -> Vec<String> {
    v.iter().map(|s| s.to_string()).collect()
}

struct BlockWord(&'static str);

impl MessageFilter for BlockWord {
    fn check(&mut self, _username: &str, body: &str) -> FilterAction {
        if body.contains(self.0) {
            FilterAction::Block("spam".to_string())
        } else {
            FilterAction::Allow
        }
    }
}

struct Shout;

impl MessageFilter for Shout {
    fn check(&mut self, _username: &str, body: &str) -> FilterAction {
        FilterAction::Modify(body.to_uppercase())
    }
}

#[test]
fn scenario_lobby_chat_nick_and_new_room() {
    let mut s = hub();
    let mut a = s.connect("A").unwrap();
    let b = s.connect("B").unwrap();
    assert_eq!(
        s.take_outgoing(a.user_id),
        lines(&[
            "Welcome, A! You're in #lobby.",
            "Type a message or /help for commands.",
            "* B joined #lobby",
        ])
    );
    s.take_outgoing(b.user_id);

    assert_eq!(s.handle_line(&mut a, "hi"), Flow::Continue);
    assert_eq!(s.take_outgoing(b.user_id), lines(&["<A> hi"]));
    assert_eq!(s.take_outgoing(a.user_id), lines(&["<A> hi"]));

    s.handle_line(&mut a, "/nick Bob");
    assert_eq!(s.take_outgoing(a.user_id), lines(&["* You are now Bob (was A)"]));
    assert_eq!(s.username_of(a.user_id).unwrap(), "Bob");
    s.handle_line(&mut a, "still here");
    assert_eq!(s.take_outgoing(a.user_id), lines(&["<Bob> still here"]));
    assert_eq!(s.take_outgoing(b.user_id), lines(&["<Bob> still here"]));

    assert_eq!(s.find_room_by_name("dev"), None);
    s.handle_line(&mut a, "/join dev");
    assert_eq!(s.find_room_by_name("dev"), Some(RoomId::new(1)));
    assert_eq!(a.room, RoomId::new(1));
    assert_eq!(s.take_outgoing(a.user_id), lines(&["* You joined #dev"]));
    assert_eq!(s.take_outgoing(b.user_id), lines(&["* Bob left #lobby"]));

    s.handle_line(&mut a, "only dev hears this");
    assert_eq!(s.take_outgoing(a.user_id), lines(&["<Bob> only dev hears this"]));
    assert!(s.take_outgoing(b.user_id).is_empty());
}

#[test]
fn connecting_twice_gives_distinct_ids() {
    let mut s = hub();
    let a = s.connect("same").unwrap();
    let b = s.connect("same").unwrap();
    assert_ne!(a.user_id, b.user_id);
    assert_eq!(a.user_id, UserId::new(0));
    assert_eq!(b.user_id, UserId::new(1));
}

#[test]
fn blank_name_is_refused() {
    let mut s = hub();
    assert!(s.connect("   ").is_none());
    assert!(s.connect("").is_none());
    let c = s.connect("  carol \r\n").unwrap();
    assert_eq!(c.name, "carol");
    assert_eq!(s.room_members(RoomId::new(0)).unwrap(), vec![c.user_id]);
}

#[test]
fn motd_comes_first() {
    let mut s = Server::new(ServerConfig::builder().motd("Be nice.").build());
    let a = s.connect("ann").unwrap();
    assert_eq!(
        s.take_outgoing(a.user_id),
        lines(&[
            "Be nice.",
            "Welcome, ann! You're in #lobby.",
            "Type a message or /help for commands.",
        ])
    );
}

#[test]
fn join_then_leave_restores_membership() {
    let mut s = hub();
    let mut a = s.connect("a").unwrap();
    let b = s.connect("b").unwrap();
    let dev = s.create_room("dev".to_string());
    let dev_before = s.room_members(dev).unwrap();
    let lobby_before = s.room_members(RoomId::new(0)).unwrap();
    assert_eq!(lobby_before, vec![a.user_id, b.user_id]);
    s.handle_line(&mut a, "/join dev");
    assert_eq!(s.room_members(dev).unwrap(), vec![a.user_id]);
    s.handle_line(&mut a, "/join lobby");
    assert_eq!(s.room_members(dev).unwrap(), dev_before);
    assert_eq!(s.room_members(RoomId::new(0)).unwrap(), vec![b.user_id, a.user_id]);
}

#[test]
fn join_is_idempotent_and_unknown_room_is_error() {
    let mut s = hub();
    let a = s.connect("a").unwrap();
    s.join_room(a.user_id, RoomId::new(0)).unwrap();
    assert_eq!(s.room_members(RoomId::new(0)).unwrap(), vec![a.user_id]);
    match s.join_room(a.user_id, RoomId::new(5)) {
        Err(ChatError::UnknownRoom(m)) => assert_eq!(m, "room#5"),
        other => panic!("unexpected {:?}", other),
    }
}

#[test]
fn broadcast_reaches_every_member_once() {
    let mut s = hub();
    let ids: Vec<_> = ["a", "b", "c"].iter().map(|n| s.connect(n).unwrap()).collect();
    for u in &ids {
        s.take_outgoing(u.user_id);
    }
    s.send_chat_message(ids[1].user_id, "b", "hello", RoomId::new(0)).unwrap();
    let mut total = 0;
    for u in &ids {
        let got = s.take_outgoing(u.user_id);
        assert_eq!(got, lines(&["<b> hello"]));
        total += got.len();
    }
    assert_eq!(total, 3);
}

#[test]
fn blocked_message_reaches_only_sender() {
    let mut s = hub();
    s.filters.add(BlockWord("buy"));
    let a = s.connect("a").unwrap();
    let b = s.connect("b").unwrap();
    s.take_outgoing(a.user_id);
    s.take_outgoing(b.user_id);
    s.send_chat_message(a.user_id, "a", "buy now", RoomId::new(0)).unwrap();
    assert_eq!(s.take_outgoing(a.user_id), lines(&["* Message blocked: spam"]));
    assert!(s.take_outgoing(b.user_id).is_empty());
}

#[test]
fn modified_message_goes_out_modified() {
    let mut s = hub();
    s.filters.add(Shout);
    let mut a = s.connect("a").unwrap();
    let b = s.connect("b").unwrap();
    s.take_outgoing(a.user_id);
    s.take_outgoing(b.user_id);
    s.handle_line(&mut a, "MSG:mallory:quiet please");
    assert_eq!(s.take_outgoing(a.user_id), lines(&["<a> QUIET PLEASE"]));
    assert_eq!(s.take_outgoing(b.user_id), lines(&["<a> QUIET PLEASE"]));
}

#[test]
fn broadcast_skips_sender_and_unknown_room() {
    let mut s = hub();
    let a = s.connect("a").unwrap();
    let b = s.connect("b").unwrap();
    s.take_outgoing(a.user_id);
    s.take_outgoing(b.user_id);
    let msg = Message::new("a".into(), "yo".into());
    s.broadcast(RoomId::new(0), a.user_id, &msg).unwrap();
    assert!(s.take_outgoing(a.user_id).is_empty());
    assert_eq!(s.take_outgoing(b.user_id), lines(&["<a> yo"]));
    match s.broadcast(RoomId::new(9), a.user_id, &msg) {
        Err(ChatError::UnknownRoom(m)) => assert_eq!(m, "room#9"),
        other => panic!("unexpected {:?}", other),
    }
}

#[test]
fn second_cleanup_changes_no_registration_or_membership() {
    let mut s = hub();
    let a = s.connect("a").unwrap();
    let b = s.connect("b").unwrap();
    s.take_outgoing(b.user_id);
    s.disconnect(&a);
    assert_eq!(s.take_outgoing(b.user_id), lines(&["* a left #lobby"]));
    assert_eq!(s.room_members(RoomId::new(0)).unwrap(), vec![b.user_id]);
    assert!(s.username_of(a.user_id).is_none());
    s.disconnect(&a);
    assert_eq!(s.take_outgoing(b.user_id), lines(&["* unknown left #lobby"]));
    assert_eq!(s.room_members(RoomId::new(0)).unwrap(), vec![b.user_id]);
    assert!(s.username_of(a.user_id).is_none());
    s.remove_user(a.user_id);
    assert!(s.take_outgoing(b.user_id).is_empty());
    assert_eq!(s.room_members(RoomId::new(0)).unwrap(), vec![b.user_id]);
    assert_eq!(s.username_of(b.user_id).unwrap(), "b");
}

#[test]
fn kick_of_user_in_another_room_still_announces() {
    let mut s = hub();
    let mut a = s.connect("a").unwrap();
    let mut b = s.connect("b").unwrap();
    let c = s.connect("c").unwrap();
    s.handle_line(&mut b, "/join dev");
    for u in [&a, &b, &c] {
        s.take_outgoing(u.user_id);
    }
    s.handle_line(&mut a, "/kick b");
    assert_eq!(s.take_outgoing(b.user_id), lines(&["* You were kicked from the room by a"]));
    assert_eq!(s.take_outgoing(c.user_id), lines(&["* b left #lobby"]));
    assert_eq!(s.take_outgoing(a.user_id), lines(&["* b left #lobby", "* Kicked b"]));
    assert_eq!(s.room_members(RoomId::new(0)).unwrap(), vec![a.user_id, c.user_id]);
    assert_eq!(s.room_members(RoomId::new(1)).unwrap(), vec![b.user_id]);
}

#[test]
fn stale_ids_are_tolerated() {
    let mut s = hub();
    let a = s.connect("a").unwrap();
    s.take_outgoing(a.user_id);
    let ghost = UserId::new(42);
    s.join_room(ghost, RoomId::new(0)).unwrap();
    assert_eq!(s.take_outgoing(a.user_id), lines(&["* unknown joined #lobby"]));
    assert!(s.take_outgoing(ghost).is_empty());
    s.send_chat_message(a.user_id, "a", "hey", RoomId::new(0)).unwrap();
    assert_eq!(s.take_outgoing(a.user_id), lines(&["<a> hey"]));
}

#[test]
fn commands_and_frames_through_the_session() {
    let mut s = hub();
    let mut a = s.connect("a").unwrap();
    let b = s.connect("b").unwrap();
    s.take_outgoing(a.user_id);
    s.take_outgoing(b.user_id);

    assert_eq!(s.handle_line(&mut a, "   "), Flow::Continue);
    assert!(s.take_outgoing(a.user_id).is_empty());

    s.handle_line(&mut a, "/help");
    assert_eq!(
        s.take_outgoing(a.user_id),
        lines(&["Commands: /join <room>, /nick <name>, /kick <user>, /list, /quit, /help"])
    );
    s.handle_line(&mut a, "/list");
    assert_eq!(s.take_outgoing(a.user_id), lines(&["(room listing not yet implemented)"]));
    s.handle_line(&mut a, "/join");
    assert_eq!(s.take_outgoing(a.user_id), lines(&["ERROR: parse error: /join requires a room name"]));
    s.handle_line(&mut a, "JOIN:");
    assert_eq!(s.take_outgoing(a.user_id), lines(&["ERROR: parse error: JOIN requires a room name"]));
    s.handle_line(&mut a, "/bogus");
    assert_eq!(s.take_outgoing(a.user_id), lines(&["ERROR: parse error: unknown command: /bogus"]));

    s.handle_line(&mut a, "NICK:ace");
    assert_eq!(a.name, "ace");
    assert_eq!(s.take_outgoing(a.user_id), lines(&["* You are now ace (was a)"]));

    s.handle_line(&mut a, "JOIN:dev");
    assert_eq!(a.room, RoomId::new(1));
    assert_eq!(s.take_outgoing(a.user_id), lines(&["* You joined #dev"]));
    assert_eq!(s.take_outgoing(b.user_id), lines(&["* ace left #lobby"]));

    s.handle_line(&mut a, "note: not a frame");
    assert_eq!(s.take_outgoing(a.user_id), lines(&["<ace> note: not a frame"]));

    assert_eq!(s.handle_line(&mut a, "QUIT:"), Flow::Close);
    assert_eq!(s.take_outgoing(a.user_id), lines(&["* Goodbye!"]));
    assert_eq!(s.handle_line(&mut a, "/quit"), Flow::Close);
}

#[test]
fn kick_removes_target_from_kickers_room() {
    let mut s = hub();
    let mut a = s.connect("a").unwrap();
    let b = s.connect("b").unwrap();
    let c = s.connect("c").unwrap();
    for u in [&a, &b, &c] {
        s.take_outgoing(u.user_id);
    }
    s.handle_line(&mut a, "/kick b");
    assert_eq!(
        s.take_outgoing(b.user_id),
        lines(&["* You were kicked from the room by a"])
    );
    assert_eq!(s.take_outgoing(c.user_id), lines(&["* b left #lobby"]));
    assert_eq!(s.take_outgoing(a.user_id), lines(&["* b left #lobby", "* Kicked b"]));
    assert_eq!(s.room_members(RoomId::new(0)).unwrap(), vec![a.user_id, c.user_id]);
    s.handle_line(&mut a, "/kick nobody");
    assert_eq!(s.take_outgoing(a.user_id), lines(&["* No user named nobody"]));
}

#[test]
fn bind_addr_and_lobby() {
    let s = Server::new(ServerConfig::builder().addr("0.0.0.0").port(9000).build());
    assert_eq!(s.bind_addr(), "0.0.0.0:9000");
    assert_eq!(s.find_room_by_name("lobby"), Some(RoomId::new(0)));
    assert_eq!(s.room_members(RoomId::new(0)).unwrap(), Vec::<UserId>::new());
    assert!(s.room_members(RoomId::new(1)).is_none());
}

#[test]
fn rooms_are_found_by_exact_name() {
    let mut s = hub();
    let d = s.create_room("Dev".to_string());
    assert_eq!(d, RoomId::new(1));
    assert_eq!(s.find_room_by_name("dev"), None);
    assert_eq!(s.find_room_by_name("Dev"), Some(d));
    assert_eq!(s.find_or_create_room("Dev"), d);
    assert_eq!(s.find_or_create_room("ops"), RoomId::new(2));
}

#[test]
fn deliver_chat_follows_each_verdict() {
    let mut s = hub();
    let a = s.connect("a").unwrap();
    let b = s.connect("b").unwrap();
    s.take_outgoing(a.user_id);
    s.take_outgoing(b.user_id);
    let lobby = RoomId::new(0);

    s.deliver_chat(a.user_id, "a", "plain", lobby, FilterAction::Allow).unwrap();
    assert_eq!(s.take_outgoing(a.user_id), lines(&["<a> plain"]));
    assert_eq!(s.take_outgoing(b.user_id), lines(&["<a> plain"]));

    s.deliver_chat(a.user_id, "a", "plain", lobby, FilterAction::Modify("edited".into())).unwrap();
    assert_eq!(s.take_outgoing(a.user_id), lines(&["<a> edited"]));
    assert_eq!(s.take_outgoing(b.user_id), lines(&["<a> edited"]));

    s.deliver_chat(a.user_id, "a", "plain", lobby, FilterAction::Block("rude".into())).unwrap();
    assert_eq!(s.take_outgoing(a.user_id), lines(&["* Message blocked: rude"]));
    assert!(s.take_outgoing(b.user_id).is_empty());

    match s.deliver_chat(a.user_id, "a", "x", RoomId::new(7), FilterAction::Allow) {
        Err(ChatError::UnknownRoom(m)) => assert_eq!(m, "room#7"),
        other => panic!("unexpected {:?}", other),
    }
    assert_eq!(s.take_outgoing(a.user_id), lines(&["<a> x"]));
    assert!(s.deliver_chat(a.user_id, "a", "x", RoomId::new(7), FilterAction::Block("no".into())).is_ok());
}

#[test]
fn rename_changes_later_lines_only() {
    let mut s = hub();
    let a = s.connect("a").unwrap();
    s.take_outgoing(a.user_id);
    s.send_chat_message(a.user_id, "a", "before", RoomId::new(0)).unwrap();
    s.rename_user(a.user_id, "zed".to_string());
    assert_eq!(s.username_of(a.user_id).unwrap(), "zed");
    assert_eq!(s.take_outgoing(a.user_id), lines(&["<a> before"]));
}

#[test]
fn usernames_are_trimmed_and_required() {
    assert_eq!(accept_username("  eve \n").unwrap(), "eve");
    match accept_username(" \t\r\n") {
        Err(ChatError::Parse(m)) => assert_eq!(m, "empty username"),
        other => panic!("unexpected {:?}", other),
    }
}
