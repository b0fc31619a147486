//! Membership rows and the transient value objects that request a transition.

use vstd::prelude::*;

verus! {

/// The relationship state of a user to a room.
#[derive(Clone, Copy, Debug, PartialEq, Eq, Structural)]
pub enum Membership {
    Invite,
    Join,
    Leave,
    Ban,
    Knock,
}

/// The mathematical image of a membership row or of a transition request:
/// the identifiers as character sequences plus the membership kind.
pub struct MembershipView {
    pub room_id: Seq<char>,
    pub user_id: Seq<char>,
    pub sender: Seq<char>,
    pub membership: Membership,
}

/// One current-membership row: the single record the store keeps for a
/// (room, user) pair. A transition overwrites the row rather than appending;
/// a leave or ban is itself a row value, not a removal.
#[derive(Clone, Debug)]
pub struct RoomMembership {
    /// The room the membership is in.
    pub room_id: String,
    /// The target of the membership.
    pub user_id: String,
    /// Whoever requested the transition; equals `user_id` for self-service
    /// join or leave, differs for invite or ban.
    pub sender: String,
    /// The current membership state.
    pub membership: Membership,
}

impl View for RoomMembership {
    type V = MembershipView;

    open spec fn view(&self) -> MembershipView {
        MembershipView {
            room_id: self.room_id@,
            user_id: self.user_id@,
            sender: self.sender@,
            membership: self.membership,
        }
    }
}

/// The transient input value object of a requested transition; never
/// persisted directly, validated and converted into a `RoomMembership` write.
#[derive(Clone, Debug)]
pub struct RoomMembershipOptions {
    pub room_id: String,
    pub user_id: String,
    pub sender: String,
    pub membership: Membership,
}

impl View for RoomMembershipOptions {
    type V = MembershipView;

    open spec fn view(&self) -> MembershipView {
        MembershipView {
            room_id: self.room_id@,
            user_id: self.user_id@,
            sender: self.sender@,
            membership: self.membership,
        }
    }
}

} // verus!
