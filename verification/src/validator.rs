//! The transition validator: a pure decision function over the current
//! membership state, the requested target state, the sender/target
//! relationship and the room's visibility.
//!
//! All authorization is collapsed into one ordered rule table; the first
//! matching rule wins. The ban rule speaks of any transition a banned
//! target requests for themselves, so the table places it first:
//!
//! 1. A banned target may not change their own membership except to leave.
//! 2. A join is allowed when the room is public, when the target accepts
//!    their own standing invitation, or as a no-op re-affirmation of the
//!    target's own current join; otherwise the requester is not invited.
//! 3. Invite, ban, leave and knock are delegated to the room-policy
//!    capability check supplied by the caller.

use vstd::prelude::*;

use crate::error::ForbiddenReason;
use crate::membership::Membership;
use crate::policy::RoomVisibility;

verus! {

/// The validator's structured decision.
#[derive(Clone, Copy, Debug, PartialEq, Eq, Structural)]
pub enum Decision {
    Allow,
    Deny(ForbiddenReason),
}

/// Whether the requested transition is authorized, given the current
/// membership of the target, the sender and target identities, the room's
/// visibility and the delegated capability answer `sender_may`.
pub open spec fn transition_allowed(
    current: Option<Membership>,
    requested: Membership,
    sender: Seq<char>,
    target: Seq<char>,
    visibility: RoomVisibility,
    sender_may: bool,
) -> bool {
    if current == Some(Membership::Ban) && sender == target && requested != Membership::Leave {
        false
    } else if requested == Membership::Join {
        visibility == RoomVisibility::Public || (current == Some(Membership::Invite) && sender
            == target) || (current == Some(Membership::Join) && sender == target)
    } else {
        sender_may
    }
}

/// The reason reported when `transition_allowed` refuses: the first rule of
/// the table that matched and denied.
pub open spec fn denial_reason(
    current: Option<Membership>,
    requested: Membership,
    sender: Seq<char>,
    target: Seq<char>,
) -> ForbiddenReason {
    if current == Some(Membership::Ban) && sender == target && requested != Membership::Leave {
        ForbiddenReason::Banned
    } else if requested == Membership::Join {
        ForbiddenReason::NotInvited
    } else {
        ForbiddenReason::NotPermitted
    }
}

/// Decides whether the requested transition is authorized. Pure: the
/// decision depends only on the arguments.
pub fn validate(
    current: Option<Membership>,
    requested: Membership,
    sender: &String,
    target: &String,
    visibility: RoomVisibility,
    sender_may: bool,
) -> (d: Decision)
    ensures
        d == (if transition_allowed(current, requested, sender@, target@, visibility, sender_may) {
            Decision::Allow
        } else {
            Decision::Deny(denial_reason(current, requested, sender@, target@))
        }),
{
    let self_request = *sender == *target;
    let banned = match current {
        Some(m) => m == Membership::Ban,
        None => false,
    };
    if banned && self_request && requested != Membership::Leave {
        return Decision::Deny(ForbiddenReason::Banned);
    }
    if requested == Membership::Join {
        let invited = match current {
            Some(m) => m == Membership::Invite,
            None => false,
        };
        let joined = match current {
            Some(m) => m == Membership::Join,
            None => false,
        };
        if visibility == RoomVisibility::Public || (invited && self_request) || (joined
            && self_request) {
            return Decision::Allow;
        }
        return Decision::Deny(ForbiddenReason::NotInvited);
    }
    if sender_may {
        Decision::Allow
    } else {
        Decision::Deny(ForbiddenReason::NotPermitted)
    }
}

} // verus!
