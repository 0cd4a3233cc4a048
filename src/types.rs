//! Opaque user and room handles, each a dense index from 0.
use vstd::prelude::*;

use crate::text::{decimal, decimal_string};

verus! {

/// A unique identifier for a connected user.
#[derive(Debug, Clone, Copy, PartialEq, Eq, Structural, Hash)]
pub struct UserId(pub u64);

impl UserId {
    pub fn new(id: u64) -> (r: Self)
        ensures
            r.0 == id,
    {
        UserId(id)
    }

    /// The raw index for slot lookup.
    pub fn index(self) -> (r: usize)
        requires
            self.0 <= usize::MAX,
        ensures
            r == self.0,
    {
        self.0 as usize
    }

    /// The display text, `user#<n>`.
    pub open spec fn text(self) -> Seq<char> {
        "user#"@ + decimal(self.0 as nat)
    }

    pub fn to_string(&self) -> (r: String)
        ensures
            r@ == self.text(),
    {
        let digits = decimal_string(self.0);
        "user#".to_owned().concat(digits.as_str())
    }
}

/// A unique identifier for a chat room.
#[derive(Debug, Clone, Copy, PartialEq, Eq, Structural, Hash)]
pub struct RoomId(pub u64);

impl RoomId {
    pub fn new(id: u64) -> (r: Self)
        ensures
            r.0 == id,
    {
        RoomId(id)
    }

    /// The raw index for slot lookup.
    pub fn index(self) -> (r: usize)
        requires
            self.0 <= usize::MAX,
        ensures
            r == self.0,
    {
        self.0 as usize
    }

    /// The display text, `room#<n>`.
    pub open spec fn text(self) -> Seq<char> {
        "room#"@ + decimal(self.0 as nat)
    }

    pub fn to_string(&self) -> (r: String)
        ensures
            r@ == self.text(),
    {
        let digits = decimal_string(self.0);
        "room#".to_owned().concat(digits.as_str())
    }
}

} // verus!
