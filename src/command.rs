//! Slash commands: `/verb argument`.
use vstd::prelude::*;

use crate::error::{parse_error, ChatError};
use crate::text::{split_first, split_once_char, starts_with_char, str_eq, trim, trim_str};
use crate::types::RoomId;

verus! {

/// A parsed slash command.
#[derive(Debug)]
pub enum Command {
    Join { room: String },
    Nick { name: String },
    Kick { target: String },
    Quit,
    Help,
    List,
}

/// What the hub is asked to do for a command.
#[derive(Debug)]
pub enum CommandResult {
    JoinRoom { room: String },
    ChangeNick { new_name: String },
    KickUser { target: String, room_id: RoomId },
    Quit,
    Reply(String),
}

/// A command over plain character sequences.
pub enum CommandView {
    Join(Seq<char>),
    Nick(Seq<char>),
    Kick(Seq<char>),
    Quit,
    Help,
    List,
}

/// A command result over plain character sequences.
pub enum CommandResultView {
    JoinRoom(Seq<char>),
    ChangeNick(Seq<char>),
    KickUser(Seq<char>, RoomId),
    Quit,
    Reply(Seq<char>),
}

impl View for Command {
    type V = CommandView;

    open spec fn view(&self) -> CommandView {
        match self {
            Command::Join { room } => CommandView::Join(room@),
            Command::Nick { name } => CommandView::Nick(name@),
            Command::Kick { target } => CommandView::Kick(target@),
            Command::Quit => CommandView::Quit,
            Command::Help => CommandView::Help,
            Command::List => CommandView::List,
        }
    }
}

impl View for CommandResult {
    type V = CommandResultView;

    open spec fn view(&self) -> CommandResultView {
        match self {
            CommandResult::JoinRoom { room } => CommandResultView::JoinRoom(room@),
            CommandResult::ChangeNick { new_name } => CommandResultView::ChangeNick(new_name@),
            CommandResult::KickUser { target, room_id } => CommandResultView::KickUser(
                target@,
                *room_id,
            ),
            CommandResult::Quit => CommandResultView::Quit,
            CommandResult::Reply(t) => CommandResultView::Reply(t@),
        }
    }
}

/// The verb and the argument of a command line after its `/`: the text up to
/// the first space, and the rest trimmed (empty when there is no space).
pub open spec fn verb_and_args(rest: Seq<char>) -> (Seq<char>, Seq<char>) {
    match split_first(rest, ' ') {
        Some((verb, args)) => (verb, trim(args)),
        None => (rest, Seq::empty()),
    }
}

/// A command that needs an argument, or the error message when there is none.
pub open spec fn with_argument(args: Seq<char>, cmd: CommandView, missing: Seq<char>) -> Result<
    CommandView,
    Seq<char>,
> {
    if args.len() == 0 {
        Err(missing)
    } else {
        Ok(cmd)
    }
}

/// What `Command::parse` gives for `input`: the command, or the error message.
pub open spec fn command_spec(input: Seq<char>) -> Result<CommandView, Seq<char>> {
    let t = trim(input);
    if !(t.len() > 0 && t[0] == '/') {
        Err("commands start with /"@)
    } else {
        let (verb, args) = verb_and_args(t.skip(1));
        if verb == "join"@ {
            with_argument(args, CommandView::Join(args), "/join requires a room name"@)
        } else if verb == "nick"@ {
            with_argument(args, CommandView::Nick(args), "/nick requires a name"@)
        } else if verb == "kick"@ {
            with_argument(args, CommandView::Kick(args), "/kick requires a username"@)
        } else if verb == "quit"@ {
            Ok(CommandView::Quit)
        } else if verb == "help"@ {
            Ok(CommandView::Help)
        } else if verb == "list"@ {
            Ok(CommandView::List)
        } else {
            Err("unknown command: /"@ + verb)
        }
    }
}

/// `r` is what parsing `input` as a command gives.
pub open spec fn command_result(r: Result<Command, ChatError>, input: Seq<char>) -> bool {
    match command_spec(input) {
        Ok(c) => r matches Ok(x) && x@ == c,
        Err(e) => r matches Err(x) && x.is_parse_with(e),
    }
}

/// The reply to `/help`.
pub open spec fn help_text() -> Seq<char> {
    "Commands: /join <room>, /nick <name>, /kick <user>, /list, /quit, /help"@
}

/// The reply to `/list`.
pub open spec fn list_text() -> Seq<char> {
    "(room listing not yet implemented)"@
}

/// What executing `c` in `current_room` asks of the hub.
pub open spec fn execute_spec(c: CommandView, current_room: RoomId) -> CommandResultView {
    match c {
        CommandView::Join(room) => CommandResultView::JoinRoom(room),
        CommandView::Nick(name) => CommandResultView::ChangeNick(name),
        CommandView::Kick(target) => CommandResultView::KickUser(target, current_room),
        CommandView::Quit => CommandResultView::Quit,
        CommandView::Help => CommandResultView::Reply(help_text()),
        CommandView::List => CommandResultView::Reply(list_text()),
    }
}

impl Command {
    /// Parses a `/`-prefixed line. Every input gives a command or a parse error.
    pub fn parse(input: &str) -> (r: Result<Self, ChatError>)
        ensures
            command_result(r, input@),
    {
        let t = trim_str(input);
        if !starts_with_char(t, '/') {
            return Err(parse_error("commands start with /"));
        }
        let n = t.unicode_len();
        let rest = t.substring_char(1, n);
        assert(rest@ == t@.skip(1));
        let (verb, args) = match split_once_char(rest, ' ') {
            Some((c, a)) => (c, trim_str(a)),
            None => (rest, ""),
        };
        proof {
            reveal_strlit("");
        }
        assert(verb@ == verb_and_args(t@.skip(1)).0);
        assert(args@ == verb_and_args(t@.skip(1)).1);
        if str_eq(verb, "join") {
            if args.unicode_len() == 0 {
                return Err(parse_error("/join requires a room name"));
            }
            Ok(Command::Join { room: args.to_owned() })
        } else if str_eq(verb, "nick") {
            if args.unicode_len() == 0 {
                return Err(parse_error("/nick requires a name"));
            }
            Ok(Command::Nick { name: args.to_owned() })
        } else if str_eq(verb, "kick") {
            if args.unicode_len() == 0 {
                return Err(parse_error("/kick requires a username"));
            }
            Ok(Command::Kick { target: args.to_owned() })
        } else if str_eq(verb, "quit") {
            Ok(Command::Quit)
        } else if str_eq(verb, "help") {
            Ok(Command::Help)
        } else if str_eq(verb, "list") {
            Ok(Command::List)
        } else {
            Err(ChatError::Parse("unknown command: /".to_owned().concat(verb)))
        }
    }

    /// Turns the command into what the hub is to do, in `current_room`.
    pub fn execute(self, current_room: RoomId) -> (r: CommandResult)
        ensures
            r@ == execute_spec(self@, current_room),
    {
        match self {
            Command::Join { room } => CommandResult::JoinRoom { room },
            Command::Nick { name } => CommandResult::ChangeNick { new_name: name },
            Command::Kick { target } => CommandResult::KickUser { target, room_id: current_room },
            Command::Quit => CommandResult::Quit,
            Command::Help => CommandResult::Reply(
                "Commands: /join <room>, /nick <name>, /kick <user>, /list, /quit, /help".to_owned(),
            ),
            Command::List => CommandResult::Reply("(room listing not yet implemented)".to_owned()),
        }
    }
}

} // verus!
