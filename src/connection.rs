//! The connection lifecycle. A connection starts unauthenticated, becomes
//! authenticated once its client names itself, and then chats in a room; the
//! transport around it belongs to the caller. These markers name the states.
use vstd::prelude::*;

use crate::error::{parse_error, ChatError};
use crate::text::{trim, trim_str};

verus! {

/// Accepted, but the client has not named itself yet.
pub struct Unauthenticated;

/// The client has given a username.
pub struct Authenticated;

/// The client has joined a room and can chat.
pub struct InRoom;

/// The username a client gives on its first line: the line trimmed, which must
/// not be empty.
pub fn accept_username(line: &str) -> (r: Result<String, ChatError>)
    ensures
        trim(line@).len() > 0 ==> (r matches Ok(n) && n@ == trim(line@)),
        trim(line@).len() == 0 ==> (r matches Err(e) && e.is_parse_with("empty username"@)),
{
    let name = trim_str(line);
    if name.unicode_len() == 0 {
        return Err(parse_error("empty username"));
    }
    Ok(name.to_owned())
}

} // verus!
