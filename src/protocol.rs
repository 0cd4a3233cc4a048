//! The `TYPE:PAYLOAD` wire format, one frame per line:
//!
//!   MSG:username:body     a chat message
//!   JOIN:room_name        join a room
//!   NICK:new_name         change username
//!   QUIT:                 disconnect
use std::borrow::Cow;
use vstd::prelude::*;
use vstd::utf8::encode_utf8;

use crate::error::{parse_error, ChatError};
use crate::text::{
    chars_of, cow_clone, cow_into_owned, has_char, first_index, lemma_first_index, split_first, split_once_char, str_eq, trim,
    trim_str,
};

verus! {

/// A parsed frame. Its text may borrow from the input buffer or be owned.
#[derive(Debug)]
pub enum Frame<'a> {
    Msg { username: Cow<'a, str>, body: Cow<'a, str> },
    Join { room: Cow<'a, str> },
    Nick { name: Cow<'a, str> },
    Quit,
}

/// A frame over plain character sequences.
pub enum FrameView {
    Msg { username: Seq<char>, body: Seq<char> },
    Join { room: Seq<char> },
    Nick { name: Seq<char> },
    Quit,
}

impl View for Frame<'_> {
    type V = FrameView;

    open spec fn view(&self) -> FrameView {
        match self {
            Frame::Msg { username, body } => FrameView::Msg { username: username@, body: body@ },
            Frame::Join { room } => FrameView::Join { room: room@ },
            Frame::Nick { name } => FrameView::Nick { name: name@ },
            Frame::Quit => FrameView::Quit,
        }
    }
}

/// What `parse_frame` gives for `line`: the frame, or the error message.
pub open spec fn frame_spec(line: Seq<char>) -> Result<FrameView, Seq<char>> {
    match split_first(trim(line), ':') {
        None => Err("missing ':' delimiter"@),
        Some((kind, payload)) => if kind == "MSG"@ {
            match split_first(payload, ':') {
                None => Err("MSG requires username:body"@),
                Some((user, body)) => if trim(user).len() == 0 {
                    Err("empty username"@)
                } else {
                    Ok(FrameView::Msg { username: trim(user), body })
                },
            }
        } else if kind == "JOIN"@ {
            if trim(payload).len() == 0 {
                Err("JOIN requires a room name"@)
            } else {
                Ok(FrameView::Join { room: trim(payload) })
            }
        } else if kind == "NICK"@ {
            if trim(payload).len() == 0 {
                Err("NICK requires a name"@)
            } else {
                Ok(FrameView::Nick { name: trim(payload) })
            }
        } else if kind == "QUIT"@ {
            Ok(FrameView::Quit)
        } else {
            Err("unknown command: "@ + kind)
        },
    }
}

/// `r` is what parsing `line` as a frame gives.
pub open spec fn frame_result(r: Result<Frame, ChatError>, line: Seq<char>) -> bool {
    match frame_spec(line) {
        Ok(f) => r matches Ok(x) && x@ == f,
        Err(e) => r matches Err(x) && x.is_parse_with(e),
    }
}

/// Parses one line into a frame. The frame borrows from `line`.
pub fn parse_frame<'a>(line: &'a str) -> (r: Result<Frame<'a>, ChatError>)
    ensures
        frame_result(r, line@),
{
    let line = trim_str(line);
    let (kind, payload) = match split_once_char(line, ':') {
        Some(parts) => parts,
        None => {
            return Err(parse_error("missing ':' delimiter"));
        },
    };
    if str_eq(kind, "MSG") {
        match split_once_char(payload, ':') {
            None => Err(parse_error("MSG requires username:body")),
            Some((user, body)) => {
                let user = trim_str(user);
                if user.unicode_len() == 0 {
                    return Err(parse_error("empty username"));
                }
                Ok(Frame::Msg { username: Cow::Borrowed(user), body: Cow::Borrowed(body) })
            },
        }
    } else if str_eq(kind, "JOIN") {
        let room = trim_str(payload);
        if room.unicode_len() == 0 {
            return Err(parse_error("JOIN requires a room name"));
        }
        Ok(Frame::Join { room: Cow::Borrowed(room) })
    } else if str_eq(kind, "NICK") {
        let name = trim_str(payload);
        if name.unicode_len() == 0 {
            return Err(parse_error("NICK requires a name"));
        }
        Ok(Frame::Nick { name: Cow::Borrowed(name) })
    } else if str_eq(kind, "QUIT") {
        Ok(Frame::Quit)
    } else {
        Err(ChatError::Parse("unknown command: ".to_owned().concat(kind)))
    }
}

impl<'a> Frame<'a> {
    /// Every piece of text in the frame is held as an owned `String`.
    pub open spec fn is_owned(&self) -> bool {
        match self {
            Frame::Msg { username, body } => username is Owned && body is Owned,
            Frame::Join { room } => room is Owned,
            Frame::Nick { name } => name is Owned,
            Frame::Quit => true,
        }
    }

    /// The same frame, owning its text.
    pub fn into_owned(self) -> (r: Frame<'static>)
        ensures
            r@ == self@,
            r.is_owned(),
    {
        match self {
            Frame::Msg { username, body } => Frame::Msg {
                username: Cow::Owned(cow_into_owned(username)),
                body: Cow::Owned(cow_into_owned(body)),
            },
            Frame::Join { room } => Frame::Join { room: Cow::Owned(cow_into_owned(room)) },
            Frame::Nick { name } => Frame::Nick { name: Cow::Owned(cow_into_owned(name)) },
            Frame::Quit => Frame::Quit,
        }
    }
}

impl<'a> Clone for Frame<'a> {
    fn clone(&self) -> (r: Self)
        ensures
            r@ == self@,
    {
        match self {
            Frame::Msg { username, body } => Frame::Msg {
                username: cow_clone(username),
                body: cow_clone(body),
            },
            Frame::Join { room } => Frame::Join { room: cow_clone(room) },
            Frame::Nick { name } => Frame::Nick { name: cow_clone(name) },
            Frame::Quit => Frame::Quit,
        }
    }
}

/// The position of the first newline at or after `pos`, if there is one.
pub open spec fn newline_after(buf: Seq<char>, pos: int) -> Option<int> {
    if 0 <= pos <= buf.len() && has_char(buf.skip(pos), '\n') {
        Some(pos + first_index(buf.skip(pos), '\n'))
    } else {
        None
    }
}

proof fn lemma_newline_after(buf: Seq<char>, pos: int)
    requires
        newline_after(buf, pos) is Some,
    ensures
        pos <= newline_after(buf, pos)->0 < buf.len(),
        buf[newline_after(buf, pos)->0] == '\n',
        forall|j: int| pos <= j < newline_after(buf, pos)->0 ==> buf[j] != '\n',
{
    let s = buf.skip(pos);
    let k = first_index(s, '\n');
    lemma_first_index(s, '\n');
    assert forall|j: int| pos <= j < pos + k implies buf[j] != '\n' by {
        assert(s[j - pos] != '\n');
    }
}

/// Where the next frame line of `buf` lies when reading resumes at `pos`: blank
/// complete lines are passed over; a trailing line without a newline is left.
/// Gives the line's bounds, if there is such a line, and the position after it
/// (after the last complete line passed over, if there is none).
pub open spec fn next_frame_line(buf: Seq<char>, pos: int) -> (Option<(int, int)>, int)
    decreases buf.len() - pos,
{
    match newline_after(buf, pos) {
        None => (None, pos),
        Some(nl) => if pos <= nl < buf.len() {
            if trim(buf.subrange(pos, nl)).len() == 0 {
                next_frame_line(buf, nl + 1)
            } else {
                (Some((pos, nl)), nl + 1)
            }
        } else {
            (None, pos)
        },
    }
}

/// Reads frames out of a buffer of accumulated text, one per complete
/// (newline-terminated) line, and counts what it has consumed.
pub struct FrameIter<'a> {
    buf: &'a str,
    pos: usize,
}

impl<'a> FrameIter<'a> {
    /// The text being read.
    pub closed spec fn buffer(&self) -> Seq<char> {
        self.buf@
    }

    /// How many characters have been consumed.
    pub closed spec fn position(&self) -> int {
        self.pos as int
    }

    pub closed spec fn wf(&self) -> bool {
        self.pos <= self.buf@.len()
    }

    pub fn new(buf: &'a str) -> (r: Self)
        ensures
            r.wf(),
            r.buffer() == buf@,
            r.position() == 0,
    {
        FrameIter { buf, pos: 0 }
    }

    /// The next frame, parsed from the next complete line that is not blank, or
    /// `None` when no complete line is left.
    pub fn next(&mut self) -> (r: Option<Result<Frame<'a>, ChatError>>)
        requires
            old(self).wf(),
        ensures
            final(self).wf(),
            final(self).buffer() == old(self).buffer(),
            final(self).position() == next_frame_line(old(self).buffer(), old(self).position()).1,
            match next_frame_line(old(self).buffer(), old(self).position()).0 {
                None => r is None,
                Some((a, b)) => r matches Some(x) && frame_result(
                    x,
                    old(self).buffer().subrange(a, b),
                ),
            },
    {
        let v = chars_of(self.buf);
        let n = v.len();
        let ghost start = self.pos as int;
        loop
            invariant
                v@ == self.buf@,
                n == v@.len(),
                self.pos <= n,
                self.buf == old(self).buf,
                next_frame_line(self.buf@, start) == next_frame_line(self.buf@, self.pos as int),
                start == old(self).pos,
            decreases n - self.pos,
        {
            let ghost here = self.pos as int;
            let mut i: usize = self.pos;
            while i < n && v[i] != '\n'
                invariant
                    v@ == self.buf@,
                    n == v@.len(),
                    here <= i <= n,
                    forall|j: int| here <= j < i ==> self.buf@[j] != '\n',
                decreases n - i,
            {
                i += 1;
            }
            if i == n {
                proof {
                    if newline_after(self.buf@, here) is Some {
                        lemma_newline_after(self.buf@, here);
                    }
                }
                return None;
            }
            proof {
                let s = self.buf@.skip(here);
                assert(s[i - here] == '\n');
                assert(has_char(s, '\n'));
                lemma_newline_after(self.buf@, here);
                let nl = newline_after(self.buf@, here)->0;
                assert(nl == i) by {
                    if nl < i {
                        assert(self.buf@[nl] != '\n');
                    } else if nl > i {
                        assert(self.buf@[i as int] == '\n');
                    }
                }
            }
            let line = self.buf.substring_char(self.pos, i);
            self.pos = i + 1;
            if trim_str(line).unicode_len() != 0 {
                return Some(parse_frame(line));
            }
        }
    }

    /// How many bytes of the buffer have been consumed, so that the caller can
    /// drain that many from its front.
    pub fn consumed(&self) -> (r: usize)
        requires
            self.wf(),
        ensures
            r == encode_utf8(self.buffer().take(self.position())).len(),
    {
        let done = self.buf.substring_char(0, self.pos);
        done.as_bytes().len()
    }
}

} // verus!
