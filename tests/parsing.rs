use chat_server::command::{Command, CommandResult};
use chat_server::error::ChatError;
use chat_server::message::Message;
use chat_server::protocol::{parse_frame, Frame, FrameIter};
use chat_server::types::RoomId;

fn parse_message(e: ChatError) -> String {
    match e {
        ChatError::Parse(m) => m,
        other => panic!("expected a parse error, got {:?}", other),
    }
}

#[test]
fn command_join_with_room() {
    match Command::parse("/join general") {
        Ok(Command::Join { room }) => assert_eq!(room, "general"),
        other => panic!("unexpected {:?}", other),
    }
}

#[test]
fn command_join_without_room_is_error() {
    let e = Command::parse("/join").unwrap_err();
    assert_eq!(parse_message(e), "/join requires a room name");
    let e = Command::parse("/join    ").unwrap_err();
    assert_eq!(parse_message(e), "/join requires a room name");
}

#[test]
fn command_arguments_are_trimmed() {
    match Command::parse("  /nick   Bob  ") {
        Ok(Command::Nick { name }) => assert_eq!(name, "Bob"),
        other => panic!("unexpected {:?}", other),
    }
    match Command::parse("/kick alice smith") {
        Ok(Command::Kick { target }) => assert_eq!(target, "alice smith"),
        other => panic!("unexpected {:?}", other),
    }
}

#[test]
fn command_missing_arguments() {
    assert_eq!(parse_message(Command::parse("/nick").unwrap_err()), "/nick requires a name");
    assert_eq!(parse_message(Command::parse("/kick").unwrap_err()), "/kick requires a username");
}

#[test]
fn command_without_arguments() {
    assert!(matches!(Command::parse("/quit"), Ok(Command::Quit)));
    assert!(matches!(Command::parse("/help"), Ok(Command::Help)));
    assert!(matches!(Command::parse("/list"), Ok(Command::List)));
}

#[test]
fn command_unknown_and_missing_slash() {
    assert_eq!(parse_message(Command::parse("/dance now").unwrap_err()), "unknown command: /dance");
    assert_eq!(parse_message(Command::parse("hello").unwrap_err()), "commands start with /");
    assert_eq!(parse_message(Command::parse("").unwrap_err()), "commands start with /");
    assert_eq!(parse_message(Command::parse("/").unwrap_err()), "unknown command: /");
}

#[test]
fn command_execute_maps_each_variant() {
    let room = RoomId::new(3);
    match Command::parse("/join dev").unwrap().execute(room) {
        CommandResult::JoinRoom { room } => assert_eq!(room, "dev"),
        other => panic!("unexpected {:?}", other),
    }
    match Command::parse("/nick Zed").unwrap().execute(room) {
        CommandResult::ChangeNick { new_name } => assert_eq!(new_name, "Zed"),
        other => panic!("unexpected {:?}", other),
    }
    match Command::parse("/kick bob").unwrap().execute(room) {
        CommandResult::KickUser { target, room_id } => {
            assert_eq!(target, "bob");
            assert_eq!(room_id, RoomId::new(3));
        }
        other => panic!("unexpected {:?}", other),
    }
    assert!(matches!(Command::Quit.execute(room), CommandResult::Quit));
    match Command::Help.execute(room) {
        CommandResult::Reply(t) => assert_eq!(
            t,
            "Commands: /join <room>, /nick <name>, /kick <user>, /list, /quit, /help"
        ),
        other => panic!("unexpected {:?}", other),
    }
    match Command::List.execute(room) {
        CommandResult::Reply(t) => assert_eq!(t, "(room listing not yet implemented)"),
        other => panic!("unexpected {:?}", other),
    }
}

#[test]
fn frame_join_general() {
    match parse_frame("JOIN:general") {
        Ok(Frame::Join { room }) => assert_eq!(room, "general"),
        other => panic!("unexpected {:?}", other),
    }
}

#[test]
fn frame_msg_alice_hello() {
    match parse_frame("MSG:alice:hello") {
        Ok(Frame::Msg { username, body }) => {
            assert_eq!(username, "alice");
            assert_eq!(body, "hello");
        }
        other => panic!("unexpected {:?}", other),
    }
}

#[test]
fn frame_bogus_is_error() {
    assert_eq!(parse_message(parse_frame("BOGUS:x").unwrap_err()), "unknown command: BOGUS");
}

#[test]
fn frame_errors() {
    assert_eq!(parse_message(parse_frame("no delimiter").unwrap_err()), "missing ':' delimiter");
    assert_eq!(parse_message(parse_frame("MSG:alice").unwrap_err()), "MSG requires username:body");
    assert_eq!(parse_message(parse_frame("MSG: :hi").unwrap_err()), "empty username");
    assert_eq!(parse_message(parse_frame("JOIN:  ").unwrap_err()), "JOIN requires a room name");
    assert_eq!(parse_message(parse_frame("NICK:").unwrap_err()), "NICK requires a name");
}

#[test]
fn frame_body_keeps_colons_and_inner_spaces() {
    match parse_frame("  MSG: bob : a:b c \n") {
        Ok(Frame::Msg { username, body }) => {
            assert_eq!(username, "bob");
            assert_eq!(body, " a:b c");
        }
        other => panic!("unexpected {:?}", other),
    }
    match parse_frame("NICK: Zed ") {
        Ok(Frame::Nick { name }) => assert_eq!(name, "Zed"),
        other => panic!("unexpected {:?}", other),
    }
    assert!(matches!(parse_frame("QUIT:"), Ok(Frame::Quit)));
}

#[test]
fn frame_into_owned_keeps_text() {
    let line = String::from("MSG:carol:hey there");
    let owned = parse_frame(&line).unwrap().into_owned();
    drop(line);
    match owned {
        Frame::Msg { username, body } => {
            assert_eq!(username, "carol");
            assert_eq!(body, "hey there");
        }
        other => panic!("unexpected {:?}", other),
    }
}

#[test]
fn frame_iter_reads_complete_lines_only() {
    let buf = "JOIN:lobby\n\n   \nMSG:al:hi\nNICK:par";
    let mut it = FrameIter::new(buf);
    assert!(matches!(it.next(), Some(Ok(Frame::Join { .. }))));
    assert_eq!(it.consumed(), 11);
    match it.next() {
        Some(Ok(Frame::Msg { username, body })) => {
            assert_eq!(username, "al");
            assert_eq!(body, "hi");
        }
        other => panic!("unexpected {:?}", other),
    }
    assert_eq!(it.consumed(), 26);
    assert!(it.next().is_none());
    assert_eq!(it.consumed(), 26);
    assert_eq!(&buf[it.consumed()..], "NICK:par");
}

#[test]
fn frame_iter_counts_bytes_not_chars() {
    let buf = "MSG:zoé:ça va\nBAD\n";
    let mut it = FrameIter::new(buf);
    match it.next() {
        Some(Ok(Frame::Msg { username, body })) => {
            assert_eq!(username, "zoé");
            assert_eq!(body, "ça va");
        }
        other => panic!("unexpected {:?}", other),
    }
    assert_eq!(it.consumed(), "MSG:zoé:ça va\n".len());
    assert_eq!(parse_message(it.next().unwrap().unwrap_err()), "missing ':' delimiter");
    assert_eq!(it.consumed(), buf.len());
    assert!(it.next().is_none());
}

#[test]
fn frame_iter_empty_and_blank_buffers() {
    let mut it = FrameIter::new("");
    assert!(it.next().is_none());
    assert_eq!(it.consumed(), 0);
    let mut it = FrameIter::new("\n \n");
    assert!(it.next().is_none());
    assert_eq!(it.consumed(), 3);
}

#[test]
fn message_parse_and_display() {
    let m = Message::parse(" dave : hello: world").unwrap();
    assert_eq!(m.username, "dave");
    assert_eq!(m.body, " hello: world");
    assert_eq!(m.to_string(), "<dave>  hello: world");
    let owned = m.into_owned();
    assert_eq!(owned.username, "dave");
    assert_eq!(parse_message(Message::parse("nobody").unwrap_err()), "missing ':' delimiter");
    assert_eq!(parse_message(Message::parse("  :body").unwrap_err()), "empty username");
}

#[test]
fn message_new_display() {
    let m = Message::new("ann".into(), "hi all".into());
    assert_eq!(m.to_string(), "<ann> hi all");
}

#[test]
fn unicode_whitespace_is_trimmed() {
    match Command::parse("\u{3000}/join \u{00A0}ro om\u{2003}") {
        Ok(Command::Join { room }) => assert_eq!(room, "ro om"),
        other => panic!("unexpected {:?}", other),
    }
}

#[test]
fn frames_and_messages_clone() {
    let f = parse_frame("NICK:kim").unwrap();
    match f.clone() {
        Frame::Nick { name } => assert_eq!(name, "kim"),
        other => panic!("unexpected {:?}", other),
    }
    assert!(matches!(f, Frame::Nick { .. }));
    let m = Message::parse("kim:hey").unwrap();
    let c = m.clone();
    assert_eq!(c.username, "kim");
    assert_eq!(c.body, "hey");
    match parse_frame("JOIN:x").unwrap().into_owned() {
        Frame::Join { room } => assert!(matches!(room, std::borrow::Cow::Owned(ref r) if r == "x")),
        other => panic!("unexpected {:?}", other),
    }
}
