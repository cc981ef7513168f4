//! Room identifiers.
//!
//! A room identifier is an opaque, externally validated string naming a
//! room. Validation is the identifier grammar's business and lives in the
//! `ruma` crate; this module only records whether a string was accepted
//! and carries the accepted string around.

use vstd::prelude::*;

verus! {

/// Whether `ruma` accepts a string as a room identifier. The grammar is
/// involved; acceptance depends on the characters alone.
pub uninterp spec fn room_id_accepted(s: Seq<char>) -> bool;

/// Relies on ruma's `RoomId::parse`: it validates the string against the
/// room-identifier grammar, and its outcome depends on the characters alone.
#[verifier::external_body]
fn ruma_accepts_room_id(s: &str) -> (ok: bool)
    ensures
        ok == room_id_accepted(s@),
{
    <&ruma::RoomId>::try_from(s).is_ok()
}

/// A validated room identifier.
pub struct RoomId {
    inner: String,
}

impl View for RoomId {
    type V = Seq<char>;

    closed spec fn view(&self) -> Seq<char> {
        self.inner@
    }
}

impl RoomId {
    /// Accepts exactly the strings that the room-identifier grammar accepts,
    /// and carries the accepted string through unchanged.
    pub fn new(s: &str) -> (r: Option<RoomId>)
        ensures
            match r {
                Some(id) => id@ == s@ && room_id_accepted(s@),
                None => !room_id_accepted(s@),
            },
    {
        if ruma_accepts_room_id(s) {
            Some(RoomId { inner: s.to_owned() })
        } else {
            None
        }
    }

    /// The identifier as a string.
    pub fn as_str(&self) -> (r: &str)
        ensures
            r@ == self@,
    {
        self.inner.as_str()
    }

    /// Two identifiers name the same room exactly when their strings agree.
    pub fn equals(&self, other: &RoomId) -> (r: bool)
        ensures
            r == (self@ == other@),
    {
        self.inner == other.inner
    }

    /// An owned copy of the identifier.
    pub fn duplicate(&self) -> (r: RoomId)
        ensures
            r == *self,
    {
        RoomId { inner: self.inner.clone() }
    }
}

}
