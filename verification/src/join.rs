//! The join-room operation: the decision and state change behind the
//! room-join endpoint.

use vstd::prelude::*;

use crate::engine::{create_outcome, store_applied, written_row, EngineOutcome};
use crate::error::ApiError;
use crate::guard::TransitionGuard;
use crate::membership::{Membership, MembershipView, RoomMembership, RoomMembershipOptions};
use crate::policy::RoomPolicy;
use crate::store::MembershipStore;

verus! {

/// The join-room operation.
pub struct JoinRoom;

/// The success payload of a join: the id of the room that was joined.
#[derive(Clone, Debug)]
pub struct JoinRoomResponse {
    pub room_id: String,
}

/// The transition a join request asks for: a `join` membership with the
/// authenticated user as both sender and target.
pub open spec fn join_request(room_id: Seq<char>, user_id: Seq<char>) -> MembershipView {
    MembershipView {
        room_id: room_id,
        user_id: user_id,
        sender: user_id,
        membership: Membership::Join,
    }
}

impl JoinRoom {
    /// Joins the authenticated user to the room through the public, guarded
    /// engine path, consulting the policy oracle for the room's visibility.
    /// On success the response carries the joined room's id; a duplicate
    /// request is rate limited and an unauthorized one is forbidden, with
    /// nothing changed.
    pub fn handle(
        store: &mut MembershipStore,
        guard: &mut TransitionGuard,
        policy: &RoomPolicy,
        user_id: &String,
        room_id: &String,
    ) -> (r: Result<JoinRoomResponse, ApiError>)
        requires
            old(store).wf(),
            old(guard).wf(),
        ensures
            ({
                let o = join_request(room_id@, user_id@);
                let out = create_outcome(
                    old(store).lookup(room_id@, user_id@),
                    old(guard).recorded(room_id@, user_id@),
                    o,
                    policy.visibility_of(room_id@),
                    policy.sender_may(user_id@, Membership::Join, room_id@),
                );
                match out.as_error() {
                    Some(e) => r == Err::<JoinRoomResponse, ApiError>(e) && *final(store) == *old(
                        store,
                    ) && *final(guard) == *old(guard),
                    None => {
                        &&& r matches Ok(resp) && resp.room_id@ == room_id@
                        &&& store_applied(*old(store), *final(store), o)
                        &&& final(guard).wf()
                        &&& final(guard).recorded(room_id@, user_id@) == Some(Membership::Join)
                        &&& forall|room: Seq<char>, user: Seq<char>|
                            !(room == room_id@ && user == user_id@)
                                ==> #[trigger] final(guard).recorded(room, user) == old(
                                guard,
                            ).recorded(room, user)
                    },
                }
            }),
    {
        let visibility = policy.visibility(room_id);
        let sender_may = policy.may(user_id, Membership::Join, room_id);
        let options = RoomMembershipOptions {
            room_id: room_id.clone(),
            user_id: user_id.clone(),
            sender: user_id.clone(),
            membership: Membership::Join,
        };
        match RoomMembership::create(store, guard, visibility, sender_may, options) {
            Ok(row) => Ok(JoinRoomResponse { room_id: row.room_id }),
            Err(e) => Err(e),
        }
    }
}

/// Law: joining a public room with no prior membership and no remembered
/// fingerprint is admitted and allowed; by the public path's contract the
/// call then returns the joined room's id and writes the join row.
pub proof fn lemma_public_join_succeeds(
    store: MembershipStore,
    guard: TransitionGuard,
    room_id: Seq<char>,
    user_id: Seq<char>,
    sender_may: bool,
)
    requires
        store.lookup(room_id, user_id) is None,
        guard.recorded(room_id, user_id) is None,
    ensures
        create_outcome(
            store.lookup(room_id, user_id),
            guard.recorded(room_id, user_id),
            join_request(room_id, user_id),
            crate::policy::RoomVisibility::Public,
            sender_may,
        ) is Applied,
{
}

/// Law: joining a private room with no prior membership (so no standing
/// invitation) and no remembered fingerprint is refused as not invited;
/// the surfaced error renders as the forbidden code with the not-invited
/// message.
pub proof fn lemma_private_join_not_invited(
    store: MembershipStore,
    guard: TransitionGuard,
    room_id: Seq<char>,
    user_id: Seq<char>,
    sender_may_join: bool,
)
    requires
        store.lookup(room_id, user_id) is None,
        guard.recorded(room_id, user_id) is None,
    ensures
        create_outcome(
            store.lookup(room_id, user_id),
            guard.recorded(room_id, user_id),
            join_request(room_id, user_id),
            crate::policy::RoomVisibility::Private,
            sender_may_join,
        ) == EngineOutcome::Forbidden(crate::error::ForbiddenReason::NotInvited),
        crate::error::errcode_spec(
            ApiError::Forbidden(crate::error::ForbiddenReason::NotInvited),
        ) == "M_FORBIDDEN"@,
        crate::error::message_spec(
            ApiError::Forbidden(crate::error::ForbiddenReason::NotInvited),
        ) == "You are not invited to this room."@,
{
}

} // verus!
