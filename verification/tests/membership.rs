use ruma::error::ApiError;
use ruma::error::ForbiddenReason;
use ruma::guard::TransitionGuard;
use ruma::membership::Membership;
use ruma::membership::RoomMembership;
use ruma::membership::RoomMembershipOptions;
use ruma::policy::RoomVisibility;
use ruma::store::MembershipStore;
use ruma::versions::Versions;

fn options(room: &str, user: &str, sender: &str, membership: Membership) -> RoomMembershipOptions {
    RoomMembershipOptions {
        room_id: String::from(room),
        user_id: String::from(user),
        sender: String::from(sender),
        membership,
    }
}

#[test]
fn at_most_one_row_per_pair() {
    // A sequence of transitions on one (room, user) pair leaves a single
    // row holding the last-applied state.
    let mut store = MembershipStore::new();
    let mut guard = TransitionGuard::new();
    let room = "!room:ruma.test";
    let carl = "@carl:ruma.test";
    let admin = "@admin:ruma.test";

    for (sender, membership) in [
        (carl, Membership::Join),
        (carl, Membership::Leave),
        (admin, Membership::Invite),
        (carl, Membership::Join),
        (admin, Membership::Ban),
    ] {
        let result = RoomMembership::create(
            &mut store,
            &mut guard,
            RoomVisibility::Public,
            true,
            options(room, carl, sender, membership),
        );
        assert!(result.is_ok());
    }

    let rows = RoomMembership::find_by_uid(&store, &String::from(carl));
    assert_eq!(rows.len(), 1);
    assert_eq!(rows[0].room_id, room);
    assert_eq!(rows[0].user_id, carl);
    assert_eq!(rows[0].sender, admin);
    assert_eq!(rows[0].membership, Membership::Ban);
}

#[test]
fn public_join_without_prior_membership_succeeds() {
    let mut store = MembershipStore::new();
    let mut guard = TransitionGuard::new();
    let room = "!room:ruma.test";
    let carl = "@carl:ruma.test";

    let result = RoomMembership::create(
        &mut store,
        &mut guard,
        RoomVisibility::Public,
        false,
        options(room, carl, carl, Membership::Join),
    );

    let row = result.unwrap();
    assert_eq!(row.room_id, room);
    assert_eq!(row.user_id, carl);
    assert_eq!(row.sender, carl);
    assert_eq!(row.membership, Membership::Join);
}

#[test]
fn accepting_own_invite_in_private_room() {
    let mut store = MembershipStore::new();
    let mut guard = TransitionGuard::new();
    let room = "!private:ruma.test";
    let carl = "@carl:ruma.test";
    let admin = "@admin:ruma.test";

    let invited = RoomMembership::create(
        &mut store,
        &mut guard,
        RoomVisibility::Private,
        true,
        options(room, carl, admin, Membership::Invite),
    );
    assert!(invited.is_ok());

    let joined = RoomMembership::create(
        &mut store,
        &mut guard,
        RoomVisibility::Private,
        false,
        options(room, carl, carl, Membership::Join),
    );
    assert!(joined.is_ok());
    assert_eq!(joined.unwrap().membership, Membership::Join);
}

#[test]
fn banned_user_cannot_rejoin_public_room() {
    let mut store = MembershipStore::new();
    let mut guard = TransitionGuard::new();
    let room = "!room:ruma.test";
    let carl = "@carl:ruma.test";
    let admin = "@admin:ruma.test";

    let banned = RoomMembership::create(
        &mut store,
        &mut guard,
        RoomVisibility::Public,
        true,
        options(room, carl, admin, Membership::Ban),
    );
    assert!(banned.is_ok());

    let rejoin = RoomMembership::create(
        &mut store,
        &mut guard,
        RoomVisibility::Public,
        false,
        options(room, carl, carl, Membership::Join),
    );
    let error = rejoin.unwrap_err();
    assert_eq!(error, ApiError::Forbidden(ForbiddenReason::Banned));
    assert_eq!(error.message(), "You are banned from this room.");
}

#[test]
fn banned_user_may_leave() {
    let mut store = MembershipStore::new();
    let mut guard = TransitionGuard::new();
    let room = "!room:ruma.test";
    let carl = "@carl:ruma.test";
    let admin = "@admin:ruma.test";

    let banned = RoomMembership::create(
        &mut store,
        &mut guard,
        RoomVisibility::Public,
        true,
        options(room, carl, admin, Membership::Ban),
    );
    assert!(banned.is_ok());

    let left = RoomMembership::create(
        &mut store,
        &mut guard,
        RoomVisibility::Public,
        true,
        options(room, carl, carl, Membership::Leave),
    );
    assert!(left.is_ok());
    assert_eq!(left.unwrap().membership, Membership::Leave);
}

#[test]
fn ungranted_knock_is_not_permitted() {
    let mut store = MembershipStore::new();
    let mut guard = TransitionGuard::new();
    let room = "!room:ruma.test";
    let carl = "@carl:ruma.test";

    let knock = RoomMembership::create(
        &mut store,
        &mut guard,
        RoomVisibility::Public,
        false,
        options(room, carl, carl, Membership::Knock),
    );
    let error = knock.unwrap_err();
    assert_eq!(error, ApiError::Forbidden(ForbiddenReason::NotPermitted));
    assert_eq!(error.errcode(), "M_FORBIDDEN");
}

#[test]
fn privileged_rejoin_is_never_rate_limited() {
    // A profile-triggered re-join of an already-joined member goes through
    // the privileged path, which bypasses the guard entirely, no matter how
    // recently the same fingerprint was applied publicly.
    let mut store = MembershipStore::new();
    let mut guard = TransitionGuard::new();
    let room = "!room:ruma.test";
    let carl = "@carl:ruma.test";

    let joined = RoomMembership::create(
        &mut store,
        &mut guard,
        RoomVisibility::Public,
        false,
        options(room, carl, carl, Membership::Join),
    );
    assert!(joined.is_ok());

    for _ in 0..3 {
        let reasserted = RoomMembership::update(
            &mut store,
            &mut guard,
            RoomVisibility::Private,
            false,
            options(room, carl, carl, Membership::Join),
        );
        assert!(reasserted.is_ok());
    }

    // The public path still refuses the identical duplicate afterwards.
    let duplicate = RoomMembership::create(
        &mut store,
        &mut guard,
        RoomVisibility::Public,
        false,
        options(room, carl, carl, Membership::Join),
    );
    assert_eq!(duplicate.unwrap_err(), ApiError::RateLimited);
}

#[test]
fn serialized_transitions_leave_the_later_state() {
    // Two workers racing on the same (room, user) pair are serialized by
    // the store; the later-committed transition determines the single row.
    let mut store = MembershipStore::new();
    let mut guard = TransitionGuard::new();
    let room = "!room:ruma.test";
    let carl = "@carl:ruma.test";
    let admin = "@admin:ruma.test";

    let first = RoomMembership::create(
        &mut store,
        &mut guard,
        RoomVisibility::Public,
        true,
        options(room, carl, carl, Membership::Join),
    );
    assert!(first.is_ok());
    let second = RoomMembership::create(
        &mut store,
        &mut guard,
        RoomVisibility::Public,
        true,
        options(room, carl, admin, Membership::Ban),
    );
    assert!(second.is_ok());

    let current = store.get(&String::from(room), &String::from(carl)).unwrap();
    assert_eq!(current.membership, Membership::Ban);
    assert_eq!(current.sender, admin);
    assert_eq!(RoomMembership::find_by_uid(&store, &String::from(carl)).len(), 1);
}

#[test]
fn failed_transition_changes_nothing() {
    let mut store = MembershipStore::new();
    let mut guard = TransitionGuard::new();
    let room = "!private:ruma.test";
    let carl = "@carl:ruma.test";

    let refused = RoomMembership::create(
        &mut store,
        &mut guard,
        RoomVisibility::Private,
        false,
        options(room, carl, carl, Membership::Join),
    );
    assert!(refused.is_err());
    assert!(store.get(&String::from(room), &String::from(carl)).is_none());

    // The refused attempt left no fingerprint: a now-authorized retry is
    // not rate limited.
    let retried = RoomMembership::create(
        &mut store,
        &mut guard,
        RoomVisibility::Public,
        false,
        options(room, carl, carl, Membership::Join),
    );
    assert!(retried.is_ok());
}

#[test]
fn error_codes_and_messages() {
    assert_eq!(ApiError::StorageError.errcode(), "M_UNKNOWN");
    assert_eq!(ApiError::StorageError.message(), "The storage operation failed.");
    assert_eq!(ApiError::NotFound.errcode(), "M_NOT_FOUND");
    assert_eq!(ApiError::NotFound.message(), "The requested resource was not found.");
    assert_eq!(ApiError::PoolExhausted.errcode(), "M_UNKNOWN");
    assert_eq!(ApiError::PoolExhausted.message(), "No storage connection is available.");
    assert_eq!(ApiError::ConnectivityError.errcode(), "M_UNKNOWN");
    assert_eq!(ApiError::ConnectivityError.message(), "The storage backend is unreachable.");
    assert_eq!(
        ApiError::Forbidden(ForbiddenReason::NotPermitted).message(),
        "You are not allowed to perform this action in this room."
    );
    assert_eq!(
        ApiError::Forbidden(ForbiddenReason::UserMismatch).message(),
        "The given user_id does not correspond to the authenticated user"
    );
}

#[test]
fn supported_versions() {
    let versions = Versions::supported();
    assert_eq!(versions.versions, vec!["r0.2.0"]);
}
