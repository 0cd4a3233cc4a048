//! One client's session with the hub: its registration, the handling of each
//! line it sends, and its cleanup. The transport is left to the caller, which
//! hands in lines and takes outgoing lines from the hub's queues.
use vstd::prelude::*;

use crate::command::{command_spec, execute_spec, Command, CommandResult, CommandResultView, CommandView};
use crate::connection::accept_username;
use crate::filter::{complete_run, pipeline_result, Verdict};
use crate::hub::{lemma_room_named, HubView};
use crate::protocol::{frame_spec, parse_frame, Frame, FrameView};
use crate::server::Server;
use crate::text::{
    cow_into_owned, cow_str, split_first, split_once_char, starts_with_char, str_eq, trim, trim_str,
};
use crate::types::{RoomId, UserId};

verus! {

/// A connected client: its user id, the name it goes by and its current room.
pub struct Session {
    pub user_id: UserId,
    pub name: String,
    pub room: RoomId,
}

/// A session over plain values.
pub struct SessionView {
    pub user: UserId,
    pub name: Seq<char>,
    pub room: RoomId,
}

impl View for Session {
    type V = SessionView;

    open spec fn view(&self) -> SessionView {
        SessionView { user: self.user_id, name: self.name@, room: self.room }
    }
}

/// Whether the connection stays open after a line.
#[derive(Debug, PartialEq, Eq, Structural)]
pub enum Flow {
    Continue,
    Close,
}

/// How a line from a client reads.
pub enum Input {
    /// Nothing but whitespace.
    Blank,
    /// A slash command, parsed.
    Command(Result<CommandView, Seq<char>>),
    /// A protocol frame, parsed.
    Frame(Result<FrameView, Seq<char>>),
    /// Plain text, a chat message.
    Chat(Seq<char>),
}

/// The four frame kinds.
pub open spec fn is_frame_kind(k: Seq<char>) -> bool {
    k == "MSG"@ || k == "JOIN"@ || k == "NICK"@ || k == "QUIT"@
}

/// A line, trimmed, is a command when it starts with `/`; a frame when the
/// text before its first `:` is a frame kind; otherwise chat.
pub open spec fn classify(line: Seq<char>) -> Input {
    let t = trim(line);
    if t.len() == 0 {
        Input::Blank
    } else if t[0] == '/' {
        Input::Command(command_spec(t))
    } else if (match split_first(t, ':') {
        Some((k, _)) => is_frame_kind(k),
        None => false,
    }) {
        Input::Frame(frame_spec(t))
    } else {
        Input::Chat(t)
    }
}

/// What a line asks of the hub.
pub enum Action {
    Nothing,
    /// A line back to the client.
    Say(Seq<char>),
    JoinRoom(Seq<char>),
    ChangeNick(Seq<char>),
    /// Remove the named user from the given room.
    Kick(Seq<char>, RoomId),
    Quit,
    Chat(Seq<char>),
}

/// The reply to input that does not parse.
pub open spec fn error_line(m: Seq<char>) -> Seq<char> {
    "ERROR: "@ + ("parse error: "@ + m)
}

/// The action for `input` from a client in room `room`.
pub open spec fn action_of(input: Input, room: RoomId) -> Action {
    match input {
        Input::Blank => Action::Nothing,
        Input::Command(Err(m)) => Action::Say(error_line(m)),
        Input::Command(Ok(c)) => match execute_spec(c, room) {
            CommandResultView::JoinRoom(r) => Action::JoinRoom(r),
            CommandResultView::ChangeNick(n) => Action::ChangeNick(n),
            CommandResultView::KickUser(t, r) => Action::Kick(t, r),
            CommandResultView::Quit => Action::Quit,
            CommandResultView::Reply(t) => Action::Say(t),
        },
        Input::Frame(Err(m)) => Action::Say(error_line(m)),
        Input::Frame(Ok(f)) => match f {
            FrameView::Msg { body, .. } => Action::Chat(body),
            FrameView::Join { room } => Action::JoinRoom(room),
            FrameView::Nick { name } => Action::ChangeNick(name),
            FrameView::Quit => Action::Quit,
        },
        Input::Chat(t) => Action::Chat(t),
    }
}

/// The client moves to the room named `name`, which is created if need be.
pub open spec fn switch_room(h: HubView, s: SessionView, name: Seq<char>) -> (HubView, SessionView) {
    let (h1, r) = h.find_or_create(name);
    (
        h1.leave(s.user, s.room).join(s.user, r).deliver(s.user, "* You joined #"@ + name),
        SessionView { user: s.user, name: s.name, room: r },
    )
}

/// The client now goes by `n`.
pub open spec fn change_nick(h: HubView, s: SessionView, n: Seq<char>) -> (HubView, SessionView) {
    (
        h.rename(s.user, n).deliver(s.user, "* You are now "@ + n + " (was "@ + s.name + ")"@),
        SessionView { user: s.user, name: n, room: s.room },
    )
}

/// The client removes the user named `target` from room `r`; the target hears
/// of it first.
pub open spec fn kick(h: HubView, s: SessionView, target: Seq<char>, r: RoomId) -> HubView {
    match h.user_named(target) {
        Some(t) => h.deliver(t, "* You were kicked from the room by "@ + s.name).leave(
            t,
            r,
        ).deliver(s.user, "* Kicked "@ + target),
        None => h.deliver(s.user, "* No user named "@ + target),
    }
}

/// What action `a` does to the hub and the session, and whether the connection
/// closes, when the filters give the verdicts `vs` on a chat body.
pub open spec fn run_action(h: HubView, s: SessionView, a: Action, vs: Seq<Verdict>) -> (
    HubView,
    SessionView,
    bool,
) {
    match a {
        Action::Nothing => (h, s, false),
        Action::Say(t) => (h.deliver(s.user, t), s, false),
        Action::JoinRoom(name) => {
            let (h1, s1) = switch_room(h, s, name);
            (h1, s1, false)
        },
        Action::ChangeNick(n) => {
            let (h1, s1) = change_nick(h, s, n);
            (h1, s1, false)
        },
        Action::Kick(t, r) => (kick(h, s, t, r), s, false),
        Action::Quit => (h.deliver(s.user, "* Goodbye!"@), s, true),
        Action::Chat(b) => (h.chat(s.user, s.name, b, s.room, pipeline_result(b, vs)), s, false),
    }
}

/// The effect of `line` from the client of session `s`.
pub open spec fn step(h: HubView, s: SessionView, line: Seq<char>, vs: Seq<Verdict>) -> (
    HubView,
    SessionView,
    bool,
) {
    run_action(h, s, action_of(classify(line), s.room), vs)
}

/// The greeting and lobby entry of a new user named `name`, given the message
/// of the day.
pub open spec fn connected(h: HubView, name: Seq<char>, motd: Option<Seq<char>>) -> HubView {
    let u = UserId(h.users.len() as u64);
    let h1 = h.add_user(name);
    let h2 = match motd {
        Some(m) => h1.deliver(u, m),
        None => h1,
    };
    h2.deliver(u, "Welcome, "@ + name + "! You're in #lobby."@).deliver(
        u,
        "Type a message or /help for commands."@,
    ).join(u, RoomId(0))
}

/// The message of the day as text, if one is configured.
pub open spec fn motd_text(motd: Option<String>) -> Option<Seq<char>> {
    match motd {
        Some(m) => Some(m@),
        None => None,
    }
}

/// A run of `n` verdicts that let everything through.
pub open spec fn all_allow(n: nat) -> Seq<Verdict> {
    Seq::new(n, |i: int| Verdict::Allow)
}

proof fn lemma_all_allow(n: nat)
    ensures
        complete_run(all_allow(n), n),
{
}

/// Whether `k` is one of the four frame kinds.
fn frame_kind(k: &str) -> (r: bool)
    ensures
        r == is_frame_kind(k@),
{
    str_eq(k, "MSG") || str_eq(k, "JOIN") || str_eq(k, "NICK") || str_eq(k, "QUIT")
}

impl Server {
    /// Registers a client under its first line, trimmed, greets it and puts it
    /// in the lobby. `None`, with nothing changed, for a blank name or when no
    /// id is left to issue.
    pub fn connect(&mut self, raw_name: &str) -> (r: Option<Session>)
        requires
            old(self).wf(),
        ensures
            final(self).wf(),
            final(self).same_setup(old(self)),
            r is None <==> (trim(raw_name@).len() == 0 || old(self)@.users.len() >= u64::MAX),
            r is None ==> final(self)@ == old(self)@,
            r matches Some(s) ==> {
                &&& s.user_id == UserId(old(self)@.users.len() as u64)
                &&& s.name@ == trim(raw_name@)
                &&& s.room == RoomId(0)
                &&& final(self)@ == connected(
                    old(self)@,
                    trim(raw_name@),
                    motd_text(old(self).configuration().motd),
                )
                &&& final(self)@.has_room(s.room)
            },
    {
        proof {
            old(self).lemma_wf();
        }
        let name = match accept_username(raw_name) {
            Ok(n) => n,
            Err(_) => {
                return None;
            },
        };
        let user_id = match self.add_user(name.clone()) {
            Some(id) => id,
            None => {
                return None;
            },
        };
        match self.motd() {
            Some(line) => {
                self.deliver(user_id, line.as_str());
            },
            None => {},
        }
        let welcome = "Welcome, ".to_owned().concat(name.as_str()).concat("! You're in #lobby.");
        self.deliver(user_id, welcome.as_str());
        self.deliver(user_id, "Type a message or /help for commands.");
        let lobby = RoomId::new(0);
        proof {
            self.lemma_wf();
        }
        let _ = self.join_room(user_id, lobby);
        Some(Session { user_id, name, room: lobby })
    }

    /// The room named `name`, created if there is none.
    pub fn find_or_create_room(&mut self, name: &str) -> (r: RoomId)
        requires
            old(self).wf(),
        ensures
            final(self).wf(),
            final(self).same_setup(old(self)),
            (final(self)@, r) == old(self)@.find_or_create(name@),
            final(self)@.has_room(r),
    {
        proof {
            old(self).lemma_wf();
            lemma_room_named(old(self)@, name@);
        }
        match self.find_room_by_name(name) {
            Some(r) => r,
            None => self.create_room(name.to_owned()),
        }
    }

    fn switch_room(&mut self, session: &mut Session, name: &str)
        requires
            old(self).wf(),
            old(self)@.has_room(old(session).room),
        ensures
            final(self).wf(),
            final(self).same_setup(old(self)),
            (final(self)@, final(session)@) == switch_room(old(self)@, old(session)@, name@),
            final(self)@.has_room(final(session).room),
    {
        let room_id = self.find_or_create_room(name);
        let _ = self.leave_room(session.user_id, session.room);
        let _ = self.join_room(session.user_id, room_id);
        let reply = "* You joined #".to_owned().concat(name);
        self.deliver(session.user_id, reply.as_str());
        session.room = room_id;
    }

    fn change_nick(&mut self, session: &mut Session, name: String)
        requires
            old(self).wf(),
            name@.len() > 0,
        ensures
            final(self).wf(),
            final(self).same_setup(old(self)),
            (final(self)@, final(session)@) == change_nick(old(self)@, old(session)@, name@),
    {
        let reply = "* You are now ".to_owned().concat(name.as_str()).concat(" (was ").concat(
            session.name.as_str(),
        ).concat(")");
        self.rename_user(session.user_id, name.clone());
        self.deliver(session.user_id, reply.as_str());
        session.name = name;
    }

    fn kick(&mut self, session: &Session, target: &str, room_id: RoomId)
        requires
            old(self).wf(),
        ensures
            final(self).wf(),
            final(self).same_setup(old(self)),
            final(self)@ == kick(old(self)@, session@, target@, room_id),
    {
        match self.find_user_by_name(target) {
            Some(t) => {
                let notice = "* You were kicked from the room by ".to_owned().concat(
                    session.name.as_str(),
                );
                self.deliver(t, notice.as_str());
                let _ = self.leave_room(t, room_id);
                let reply = "* Kicked ".to_owned().concat(target);
                self.deliver(session.user_id, reply.as_str());
            },
            None => {
                let reply = "* No user named ".to_owned().concat(target);
                self.deliver(session.user_id, reply.as_str());
            },
        }
    }

    fn reject(&mut self, session: &Session, e: &crate::error::ChatError)
        requires
            old(self).wf(),
        ensures
            final(self).wf(),
            final(self).same_setup(old(self)),
            final(self)@ == old(self)@.deliver(session.user_id, "ERROR: "@ + e.text()),
    {
        let reply = "ERROR: ".to_owned().concat(e.to_string().as_str());
        self.deliver(session.user_id, reply.as_str());
    }

    /// Handles one line from the client of `session`: a slash command, a
    /// protocol frame, or else a chat message to its current room. Replies and
    /// deliveries wait in the users' queues. `Close` after a quit.
    pub fn handle_line(&mut self, session: &mut Session, line: &str) -> (r: Flow)
        requires
            old(self).wf(),
            old(self)@.has_room(old(session).room),
        ensures
            final(self).wf(),
            final(self).same_setup(old(self)),
            final(self)@.has_room(final(session).room),
            final(session).user_id == old(session).user_id,
            exists|vs: Seq<Verdict>|
                complete_run(vs, old(self).filter_count()) && #[trigger] step(
                    old(self)@,
                    old(session)@,
                    line@,
                    vs,
                ) == (final(self)@, final(session)@, r == Flow::Close),
    {
        let ghost h0 = self@;
        let ghost s0 = session@;
        let ghost n = self.filter_count();
        proof {
            lemma_all_allow(n);
        }
        let trimmed = trim_str(line);
        if trimmed.unicode_len() == 0 {
            assert(step(h0, s0, line@, all_allow(n)) == (self@, session@, false));
            return Flow::Continue;
        }
        if starts_with_char(trimmed, '/') {
            match Command::parse(trimmed) {
                Ok(cmd) => {
                    let room = session.room;
                    match cmd.execute(room) {
                        CommandResult::JoinRoom { room } => {
                            self.switch_room(session, room.as_str());
                        },
                        CommandResult::ChangeNick { new_name } => {
                            self.change_nick(session, new_name);
                        },
                        CommandResult::KickUser { target, room_id } => {
                            self.kick(session, target.as_str(), room_id);
                        },
                        CommandResult::Quit => {
                            self.deliver(session.user_id, "* Goodbye!");
                            assert(step(h0, s0, line@, all_allow(n)) == (self@, session@, true));
                            return Flow::Close;
                        },
                        CommandResult::Reply(text) => {
                            self.deliver(session.user_id, text.as_str());
                        },
                    }
                },
                Err(e) => {
                    self.reject(session, &e);
                },
            }
            assert(step(h0, s0, line@, all_allow(n)) == (self@, session@, false));
            return Flow::Continue;
        }
        if let Some((kind, _)) = split_once_char(trimmed, ':') {
            if frame_kind(kind) {
                match parse_frame(trimmed) {
                    Ok(Frame::Msg { username: _, body }) => {
                        let text = cow_into_owned(body);
                        let _ = self.send_chat_message(
                            session.user_id,
                            session.name.as_str(),
                            text.as_str(),
                            session.room,
                        );
                        proof {
                            let vs = choose|vs: Seq<Verdict>|
                                complete_run(vs, n) && self@ == h0.chat(
                                    s0.user,
                                    s0.name,
                                    text@,
                                    s0.room,
                                    #[trigger] pipeline_result(text@, vs),
                                );
                            assert(step(h0, s0, line@, vs) == (self@, session@, false));
                        }
                        return Flow::Continue;
                    },
                    Ok(Frame::Join { room }) => {
                        self.switch_room(session, cow_str(&room));
                    },
                    Ok(Frame::Nick { name }) => {
                        self.change_nick(session, cow_into_owned(name));
                    },
                    Ok(Frame::Quit) => {
                        self.deliver(session.user_id, "* Goodbye!");
                        assert(step(h0, s0, line@, all_allow(n)) == (self@, session@, true));
                        return Flow::Close;
                    },
                    Err(e) => {
                        self.reject(session, &e);
                    },
                }
                assert(step(h0, s0, line@, all_allow(n)) == (self@, session@, false));
                return Flow::Continue;
            }
        }
        let _ = self.send_chat_message(
            session.user_id,
            session.name.as_str(),
            trimmed,
            session.room,
        );
        proof {
            let vs = choose|vs: Seq<Verdict>|
                complete_run(vs, n) && self@ == h0.chat(
                    s0.user,
                    s0.name,
                    trimmed@,
                    s0.room,
                    #[trigger] pipeline_result(trimmed@, vs),
                );
            assert(step(h0, s0, line@, vs) == (self@, session@, false));
        }
        Flow::Continue
    }

    /// The cleanup when the client of `session` goes: it leaves its room (the
    /// other members hear of it), then its registration is cleared.
    pub fn disconnect(&mut self, session: &Session)
        requires
            old(self).wf(),
        ensures
            final(self).wf(),
            final(self).same_setup(old(self)),
            final(self)@ == old(self)@.disconnect(session.user_id, session.room),
    {
        let _ = self.leave_room(session.user_id, session.room);
        self.remove_user(session.user_id);
    }
}

} // verus!
