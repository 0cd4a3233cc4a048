use chat_server::config::ServerConfig;
use chat_server::error::ChatError;
use chat_server::room::Room;
use chat_server::types::{RoomId, UserId};
use chat_server::user::User;

#[test]
fn ids_display_and_index() {
    assert_eq!(UserId::new(7).to_string(), "user#7");
    assert_eq!(RoomId::new(0).to_string(), "room#0");
    assert_eq!(RoomId::new(1234567890).to_string(), "room#1234567890");
    assert_eq!(UserId::new(u64::MAX).to_string(), "user#18446744073709551615");
    assert_eq!(UserId::new(3).index(), 3);
    assert_eq!(RoomId::new(12).index(), 12);
}

#[test]
fn error_texts() {
    assert_eq!(ChatError::Network("reset".into()).to_string(), "network error: reset");
    assert_eq!(ChatError::Parse("bad".into()).to_string(), "parse error: bad");
    assert_eq!(ChatError::UnknownRoom("room#4".into()).to_string(), "unknown room: room#4");
    assert_eq!(ChatError::UnknownUser("zed".into()).to_string(), "unknown user: zed");
}

#[test]
fn config_defaults_and_overrides() {
    let c = ServerConfig::builder().build();
    assert_eq!(c.addr, "127.0.0.1");
    assert_eq!(c.port, 8080);
    assert_eq!(c.max_users, 100);
    assert_eq!(c.max_rooms, 50);
    assert!(c.motd.is_none());
    let c = ServerConfig::builder()
        .addr("10.0.0.1")
        .port(1)
        .max_users(2)
        .max_rooms(3)
        .motd("hi")
        .build();
    assert_eq!(c.addr, "10.0.0.1");
    assert_eq!(c.port, 1);
    assert_eq!(c.max_users, 2);
    assert_eq!(c.max_rooms, 3);
    assert_eq!(c.motd.as_deref(), Some("hi"));
}

#[test]
fn room_membership_is_a_set() {
    let mut r = Room::new(RoomId::new(2), "dev".to_string());
    let a = UserId::new(1);
    let b = UserId::new(2);
    r.add_member(a);
    r.add_member(b);
    r.add_member(a);
    assert_eq!(r.member_ids(), vec![a, b]);
    assert!(r.contains(b));
    r.remove_member(UserId::new(9));
    assert_eq!(r.member_ids(), vec![a, b]);
    r.remove_member(a);
    assert_eq!(r.member_ids(), vec![b]);
    assert!(!r.contains(a));
}

#[test]
fn member_snapshot_is_a_copy() {
    let mut r = Room::new(RoomId::new(0), "lobby".to_string());
    r.add_member(UserId::new(0));
    let snap = r.member_ids();
    r.remove_member(UserId::new(0));
    assert_eq!(snap, vec![UserId::new(0)]);
    assert!(r.member_ids().is_empty());
}

#[test]
fn user_queue() {
    let mut u = User::new(UserId::new(4), "dana".to_string());
    u.send("one");
    u.send("two");
    assert_eq!(u.take_outgoing(), vec!["one".to_string(), "two".to_string()]);
    assert!(u.take_outgoing().is_empty());
    assert_eq!(u.username, "dana");
}
