//! The error kinds of the chat hub.
use vstd::prelude::*;

verus! {

#[derive(Debug)]
pub enum ChatError {
    /// A transport failure, with the transport's own description of it.
    Network(String),
    /// Malformed command or frame.
    Parse(String),
    /// A room that does not exist.
    UnknownRoom(String),
    /// A user that does not exist.
    UnknownUser(String),
}

impl ChatError {
    /// The human-readable text of the error.
    pub open spec fn text(&self) -> Seq<char> {
        match self {
            ChatError::Network(m) => "network error: "@ + m@,
            ChatError::Parse(m) => "parse error: "@ + m@,
            ChatError::UnknownRoom(m) => "unknown room: "@ + m@,
            ChatError::UnknownUser(m) => "unknown user: "@ + m@,
        }
    }

    /// Whether this is a parse error whose message is `m`.
    pub open spec fn is_parse_with(&self, m: Seq<char>) -> bool {
        self matches ChatError::Parse(x) && x@ == m
    }

    pub fn to_string(&self) -> (r: String)
        ensures
            r@ == self.text(),
    {
        match self {
            ChatError::Network(m) => "network error: ".to_owned().concat(m.as_str()),
            ChatError::Parse(m) => "parse error: ".to_owned().concat(m.as_str()),
            ChatError::UnknownRoom(m) => "unknown room: ".to_owned().concat(m.as_str()),
            ChatError::UnknownUser(m) => "unknown user: ".to_owned().concat(m.as_str()),
        }
    }
}

/// A parse error with the given message.
pub fn parse_error(m: &str) -> (r: ChatError)
    ensures
        r.is_parse_with(m@),
{
    ChatError::Parse(m.to_owned())
}

} // verus!
