//! A chat message: who sent it and what it says.
use std::borrow::Cow;
use vstd::prelude::*;

use crate::error::{parse_error, ChatError};
use crate::text::{cow_clone, cow_into_owned, cow_str, split_first, split_once_char, trim, trim_str};

verus! {

/// A chat message with a username and body. Each may borrow from an input
/// buffer or own its text.
#[derive(Debug)]
pub struct Message<'a> {
    pub username: Cow<'a, str>,
    pub body: Cow<'a, str>,
}

/// What `Message::parse` gives for a `username:body` line: the trimmed username
/// and the body as it stands, or the error message.
pub open spec fn message_spec(line: Seq<char>) -> Result<(Seq<char>, Seq<char>), Seq<char>> {
    match split_first(line, ':') {
        None => Err("missing ':' delimiter"@),
        Some((user, body)) => if trim(user).len() == 0 {
            Err("empty username"@)
        } else {
            Ok((trim(user), body))
        },
    }
}

/// The display text of a message from `username` saying `body`: `<username> body`.
pub open spec fn chat_line(username: Seq<char>, body: Seq<char>) -> Seq<char> {
    "<"@ + username + "> "@ + body
}

impl<'a> Message<'a> {
    pub fn new(username: Cow<'a, str>, body: Cow<'a, str>) -> (r: Self)
        ensures
            r.username == username,
            r.body == body,
    {
        Message { username, body }
    }

    /// Parses the `username:body` format: the text before the first `:`, trimmed,
    /// is the username and must not be empty; the rest is the body.
    pub fn parse(line: &'a str) -> (r: Result<Self, ChatError>)
        ensures
            match message_spec(line@) {
                Ok((u, b)) => r matches Ok(m) && m.username@ == u && m.body@ == b,
                Err(e) => r matches Err(x) && x.is_parse_with(e),
            },
    {
        match split_once_char(line, ':') {
            None => Err(parse_error("missing ':' delimiter")),
            Some((user, body)) => {
                let user = trim_str(user);
                if user.unicode_len() == 0 {
                    return Err(parse_error("empty username"));
                }
                Ok(Message { username: Cow::Borrowed(user), body: Cow::Borrowed(body) })
            },
        }
    }

    /// The same message, owning its text.
    pub fn into_owned(self) -> (r: Message<'static>)
        ensures
            r.username@ == self.username@,
            r.body@ == self.body@,
            r.username is Owned,
            r.body is Owned,
    {
        Message {
            username: Cow::Owned(cow_into_owned(self.username)),
            body: Cow::Owned(cow_into_owned(self.body)),
        }
    }

    /// The display text, `<username> body`.
    pub fn to_string(&self) -> (r: String)
        ensures
            r@ == chat_line(self.username@, self.body@),
    {
        "<".to_owned().concat(cow_str(&self.username)).concat("> ").concat(cow_str(&self.body))
    }
}

impl<'a> Clone for Message<'a> {
    fn clone(&self) -> (r: Self)
        ensures
            r.username@ == self.username@,
            r.body@ == self.body@,
    {
        Message { username: cow_clone(&self.username), body: cow_clone(&self.body) }
    }
}

} // verus!
