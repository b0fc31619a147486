//! The membership transition engine: validator, guard and store composed
//! into one atomic unit of work.
//!
//! `create` is the public, guarded path invoked for user-initiated
//! transitions; `update` is the privileged path used by profile
//! propagation, which bypasses the duplicate-transition guard but still
//! runs the validator, so propagation cannot smuggle an unauthorized
//! transition. Both paths leave the guard's memory coherent with the
//! store: a remembered fingerprint survives only while the stored
//! membership still equals the fingerprinted value.

use vstd::prelude::*;

use crate::error::ApiError;
use crate::guard::{Fingerprint, TransitionGuard};
use crate::membership::{Membership, MembershipView, RoomMembership, RoomMembershipOptions};
use crate::policy::RoomVisibility;
use crate::store::MembershipStore;
use crate::validator::{denial_reason, transition_allowed, validate, Decision};

verus! {

/// How one engine call ends: the write was applied, or it was refused by
/// the guard or by the validator.
pub enum EngineOutcome {
    Applied,
    RateLimited,
    Forbidden(crate::error::ForbiddenReason),
}

impl EngineOutcome {
    /// The error an engine path surfaces for this outcome, if any.
    pub open spec fn as_error(self) -> Option<ApiError> {
        match self {
            EngineOutcome::Applied => None,
            EngineOutcome::RateLimited => Some(ApiError::RateLimited),
            EngineOutcome::Forbidden(reason) => Some(ApiError::Forbidden(reason)),
        }
    }
}

/// The membership kind held in an optional row.
pub open spec fn membership_of(row: Option<MembershipView>) -> Option<Membership> {
    match row {
        Some(v) => Some(v.membership),
        None => None,
    }
}

/// Whether the guard admits a request, given what it last recorded for the
/// request's (room, user) pair: only the exact fingerprint just applied is
/// refused.
pub open spec fn guard_admits(recorded: Option<Membership>, requested: Membership) -> bool {
    recorded != Some(requested)
}

/// The decision of the public path, as a function of the current row, the
/// guard's memory for the key, the oracle's answers and the request: the
/// guard is consulted first, then the validator.
pub open spec fn create_outcome(
    current: Option<MembershipView>,
    recorded: Option<Membership>,
    o: MembershipView,
    visibility: RoomVisibility,
    sender_may: bool,
) -> EngineOutcome {
    if !guard_admits(recorded, o.membership) {
        EngineOutcome::RateLimited
    } else {
        update_outcome(current, o, visibility, sender_may)
    }
}

/// The decision of the privileged path: the validator alone; the guard is
/// bypassed, so this outcome is never `RateLimited`.
pub open spec fn update_outcome(
    current: Option<MembershipView>,
    o: MembershipView,
    visibility: RoomVisibility,
    sender_may: bool,
) -> EngineOutcome {
    if !transition_allowed(
        membership_of(current),
        o.membership,
        o.sender,
        o.user_id,
        visibility,
        sender_may,
    ) {
        EngineOutcome::Forbidden(
            denial_reason(membership_of(current), o.membership, o.sender, o.user_id),
        )
    } else {
        EngineOutcome::Applied
    }
}

/// The row an applied transition writes for its key.
pub open spec fn written_row(o: MembershipView) -> MembershipView {
    o
}

/// Relates a store before and after an applied transition `o`: the row at
/// the request's key is now exactly the requested one, no other key is
/// touched, and composite uniqueness is preserved.
pub open spec fn store_applied(pre: MembershipStore, post: MembershipStore, o: MembershipView) -> bool {
    &&& post.wf()
    &&& post.lookup(o.room_id, o.user_id) == Some(written_row(o))
    &&& forall|room: Seq<char>, user: Seq<char>|
        !(room == o.room_id && user == o.user_id) ==> #[trigger] post.lookup(room, user)
            == pre.lookup(room, user)
}

impl RoomMembership {
    /// The public, guarded path of the transition engine: loads the current
    /// row, asks the guard for admission, runs the validator, and applies
    /// the write and the fingerprint record as one unit of work. Succeeds
    /// exactly when the guard admits the fingerprint and the validator
    /// allows the transition; on failure nothing is changed, so a
    /// legitimate retry stays possible.
    pub fn create(
        store: &mut MembershipStore,
        guard: &mut TransitionGuard,
        visibility: RoomVisibility,
        sender_may: bool,
        options: RoomMembershipOptions,
    ) -> (r: Result<RoomMembership, ApiError>)
        requires
            old(store).wf(),
            old(guard).wf(),
        ensures
            ({
                let out = create_outcome(
                    old(store).lookup(options.room_id@, options.user_id@),
                    old(guard).recorded(options.room_id@, options.user_id@),
                    options@,
                    visibility,
                    sender_may,
                );
                match out.as_error() {
                    Some(e) => r == Err::<RoomMembership, ApiError>(e) && *final(store) == *old(store)
                        && *final(guard) == *old(guard),
                    None => {
                        &&& r matches Ok(row) && row@ == written_row(options@)
                        &&& store_applied(*old(store), *final(store), options@)
                        &&& final(guard).wf()
                        &&& final(guard).recorded(options.room_id@, options.user_id@) == Some(
                            options.membership,
                        )
                        &&& forall|room: Seq<char>, user: Seq<char>|
                            !(room == options.room_id@ && user == options.user_id@)
                                ==> #[trigger] final(guard).recorded(room, user) == old(
                                guard,
                            ).recorded(room, user)
                    },
                }
            }),
    {
        let current = store.get(&options.room_id, &options.user_id);
        let fp = Fingerprint {
            room_id: options.room_id.clone(),
            user_id: options.user_id.clone(),
            membership: options.membership,
        };
        if !guard.admits(&fp) {
            return Err(ApiError::RateLimited);
        }
        let current_membership = match &current {
            Some(row) => Some(row.membership),
            None => None,
        };
        match validate(
            current_membership,
            options.membership,
            &options.sender,
            &options.user_id,
            visibility,
            sender_may,
        ) {
            Decision::Deny(reason) => Err(ApiError::Forbidden(reason)),
            Decision::Allow => {
                let row = RoomMembership {
                    room_id: options.room_id,
                    user_id: options.user_id,
                    sender: options.sender,
                    membership: options.membership,
                };
                let persisted = store.upsert(row);
                guard.record(fp);
                Ok(persisted)
            },
        }
    }

    /// The privileged path of the transition engine, used by profile
    /// propagation: identical to the public path except that the guard's
    /// admission check is skipped entirely, so this path is never rate
    /// limited. The validator still runs. A fingerprint remembered for the
    /// key is cleared the moment the stored membership changes to a value
    /// other than the remembered one.
    pub fn update(
        store: &mut MembershipStore,
        guard: &mut TransitionGuard,
        visibility: RoomVisibility,
        sender_may: bool,
        options: RoomMembershipOptions,
    ) -> (r: Result<RoomMembership, ApiError>)
        requires
            old(store).wf(),
            old(guard).wf(),
        ensures
            r != Err::<RoomMembership, ApiError>(ApiError::RateLimited),
            ({
                let out = update_outcome(
                    old(store).lookup(options.room_id@, options.user_id@),
                    options@,
                    visibility,
                    sender_may,
                );
                match out.as_error() {
                    Some(e) => r == Err::<RoomMembership, ApiError>(e) && *final(store) == *old(store)
                        && *final(guard) == *old(guard),
                    None => {
                        &&& r matches Ok(row) && row@ == written_row(options@)
                        &&& store_applied(*old(store), *final(store), options@)
                        &&& final(guard).wf()
                        &&& final(guard).recorded(options.room_id@, options.user_id@) == (if old(
                            guard,
                        ).recorded(options.room_id@, options.user_id@) == Some(options.membership) {
                            Some(options.membership)
                        } else {
                            None::<Membership>
                        })
                        &&& forall|room: Seq<char>, user: Seq<char>|
                            !(room == options.room_id@ && user == options.user_id@)
                                ==> #[trigger] final(guard).recorded(room, user) == old(
                                guard,
                            ).recorded(room, user)
                    },
                }
            }),
    {
        let current = store.get(&options.room_id, &options.user_id);
        let current_membership = match &current {
            Some(row) => Some(row.membership),
            None => None,
        };
        match validate(
            current_membership,
            options.membership,
            &options.sender,
            &options.user_id,
            visibility,
            sender_may,
        ) {
            Decision::Deny(reason) => Err(ApiError::Forbidden(reason)),
            Decision::Allow => {
                let room_id = options.room_id.clone();
                let user_id = options.user_id.clone();
                let row = RoomMembership {
                    room_id: options.room_id,
                    user_id: options.user_id,
                    sender: options.sender,
                    membership: options.membership,
                };
                let persisted = store.upsert(row);
                guard.invalidate(&room_id, &user_id, options.membership);
                Ok(persisted)
            },
        }
    }
}

/// Law: a privileged re-assertion of a user's own current join is always
/// applied, whatever the room's visibility, the capability answer or the
/// guard's memory: the privileged path never consults the guard, so no
/// recently applied fingerprint can rate-limit it, and the validator's
/// re-affirmation rule allows the transition.
pub proof fn lemma_privileged_rejoin_applied(
    store: MembershipStore,
    room_id: Seq<char>,
    user_id: Seq<char>,
    visibility: RoomVisibility,
    sender_may: bool,
)
    requires
        membership_of(store.lookup(room_id, user_id)) == Some(Membership::Join),
    ensures
        update_outcome(
            store.lookup(room_id, user_id),
            crate::profile::joined_row(room_id, user_id),
            visibility,
            sender_may,
        ) is Applied,
        !(update_outcome(
            store.lookup(room_id, user_id),
            crate::profile::joined_row(room_id, user_id),
            visibility,
            sender_may,
        ) is RateLimited),
{
}

/// Law: an identical public join request repeated immediately after a
/// successful one is refused admission. The first applied call leaves the
/// join fingerprint recorded for its key, and while the stored membership
/// is unchanged the public path's outcome for the same request is
/// `RateLimited`.
pub proof fn lemma_duplicate_public_join(
    store0: MembershipStore,
    guard0: TransitionGuard,
    store1: MembershipStore,
    guard1: TransitionGuard,
    o: MembershipView,
    visibility: RoomVisibility,
    sender_may: bool,
)
    requires
        o.membership == Membership::Join,
        create_outcome(
            store0.lookup(o.room_id, o.user_id),
            guard0.recorded(o.room_id, o.user_id),
            o,
            visibility,
            sender_may,
        ) is Applied,
        store_applied(store0, store1, o),
        guard1.recorded(o.room_id, o.user_id) == Some(o.membership),
    ensures
        create_outcome(
            store1.lookup(o.room_id, o.user_id),
            guard1.recorded(o.room_id, o.user_id),
            o,
            visibility,
            sender_may,
        ) is RateLimited,
{
}

/// Law: the privileged path is idempotent. If a transition other than a
/// self-ban is applied once, the same request applied again against the
/// resulting state is allowed too, and it writes the same row, so the
/// stored state after the second application equals the state after the
/// first. A self-ban is the one transition that revokes its own
/// precondition: once the target is banned, the ban rule refuses them.
pub proof fn lemma_privileged_idempotent(
    store0: MembershipStore,
    store1: MembershipStore,
    o: MembershipView,
    visibility: RoomVisibility,
    sender_may: bool,
)
    requires
        !(o.sender == o.user_id && o.membership == Membership::Ban),
        update_outcome(store0.lookup(o.room_id, o.user_id), o, visibility, sender_may)
            is Applied,
        store_applied(store0, store1, o),
    ensures
        update_outcome(store1.lookup(o.room_id, o.user_id), o, visibility, sender_may)
            is Applied,
        forall|post: MembershipStore|
            #[trigger] store_applied(store1, post, o) ==> post.lookup(o.room_id, o.user_id)
                == store1.lookup(o.room_id, o.user_id),
{
    assert(store1.lookup(o.room_id, o.user_id) == Some(written_row(o)));
    assert(membership_of(store1.lookup(o.room_id, o.user_id)) == Some(o.membership));
}

/// Law: serialized transitions on one (room, user) key leave exactly one
/// row for that key, the one written by the later transition, and touch no
/// other key. Concurrent workers are ordered by the store's row-level
/// serialization, so the later-committed transition's write is the state
/// both workers leave behind.
pub proof fn lemma_serialized_transitions(
    store0: MembershipStore,
    store1: MembershipStore,
    store2: MembershipStore,
    first: MembershipView,
    second: MembershipView,
)
    requires
        first.room_id == second.room_id,
        first.user_id == second.user_id,
        store_applied(store0, store1, first),
        store_applied(store1, store2, second),
    ensures
        store2.lookup(second.room_id, second.user_id) == Some(written_row(second)),
        forall|room: Seq<char>, user: Seq<char>|
            !(room == second.room_id && user == second.user_id) ==> #[trigger] store2.lookup(
                room,
                user,
            ) == store0.lookup(room, user),
        forall|i: int, j: int|
            0 <= i < store2.contents().len() && 0 <= j < store2.contents().len()
                && store2.contents()[i].room_id == second.room_id && store2.contents()[i].user_id
                == second.user_id && store2.contents()[j].room_id == second.room_id
                && store2.contents()[j].user_id == second.user_id ==> i == j,
{
    assert forall|i: int, j: int|
        0 <= i < store2.contents().len() && 0 <= j < store2.contents().len()
            && store2.contents()[i].room_id == second.room_id && store2.contents()[i].user_id
            == second.user_id && store2.contents()[j].room_id == second.room_id
            && store2.contents()[j].user_id == second.user_id implies i == j by {
        store2.lemma_at_most_one_row(i, j);
    }
}

} // verus!
