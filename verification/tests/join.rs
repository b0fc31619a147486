use ruma::error::ApiError;
use ruma::error::ForbiddenReason;
use ruma::guard::TransitionGuard;
use ruma::join::JoinRoom;
use ruma::membership::Membership;
use ruma::policy::RoomPolicy;
use ruma::policy::RoomVisibility;
use ruma::store::MembershipStore;

#[test]
fn join_room() {
    let mut store = MembershipStore::new();
    let mut guard = TransitionGuard::new();
    let mut policy = RoomPolicy::new();
    let room_id = String::from("!public:ruma.test");
    policy.add_room(room_id.clone(), RoomVisibility::Public);
    let user_id = String::from("@carl:ruma.test");

    let response = JoinRoom::handle(&mut store, &mut guard, &policy, &user_id, &room_id);

    assert!(response.is_ok());
    assert_eq!(response.unwrap().room_id, room_id);
}

#[test]
fn rate_limited() {
    let mut store = MembershipStore::new();
    let mut guard = TransitionGuard::new();
    let mut policy = RoomPolicy::new();
    let room_id = String::from("!public:ruma.test");
    policy.add_room(room_id.clone(), RoomVisibility::Public);
    let user_id = String::from("@carl:ruma.test");

    let first = JoinRoom::handle(&mut store, &mut guard, &policy, &user_id, &room_id);
    assert!(first.is_ok());

    let second = JoinRoom::handle(&mut store, &mut guard, &policy, &user_id, &room_id);
    let error = second.unwrap_err();
    assert_eq!(error, ApiError::RateLimited);
    assert_eq!(error.errcode(), "M_LIMIT_EXCEEDED");
    assert_eq!(error.message(), "Try to set the membership again!");
}

#[test]
fn forbidden_joining_private_room() {
    let mut store = MembershipStore::new();
    let mut guard = TransitionGuard::new();
    let mut policy = RoomPolicy::new();
    let room_id = String::from("!private:ruma.test");
    policy.add_room(room_id.clone(), RoomVisibility::Private);
    let user_id = String::from("@carl:ruma.test");

    let response = JoinRoom::handle(&mut store, &mut guard, &policy, &user_id, &room_id);

    let error = response.unwrap_err();
    assert_eq!(error, ApiError::Forbidden(ForbiddenReason::NotInvited));
    assert_eq!(error.errcode(), "M_FORBIDDEN");
    assert_eq!(error.message(), "You are not invited to this room.");
}

#[test]
fn joining_unregistered_room_is_private() {
    let mut store = MembershipStore::new();
    let mut guard = TransitionGuard::new();
    let policy = RoomPolicy::new();
    let room_id = String::from("!nowhere:ruma.test");
    let user_id = String::from("@carl:ruma.test");

    let response = JoinRoom::handle(&mut store, &mut guard, &policy, &user_id, &room_id);

    assert_eq!(
        response.unwrap_err(),
        ApiError::Forbidden(ForbiddenReason::NotInvited)
    );
}

#[test]
fn join_after_state_change_is_admitted_again() {
    // The guard refuses only a back-to-back identical public transition:
    // once the stored membership changes to something else, the same join
    // fingerprint is admitted again.
    let mut store = MembershipStore::new();
    let mut guard = TransitionGuard::new();
    let mut policy = RoomPolicy::new();
    let room_id = String::from("!public:ruma.test");
    policy.add_room(room_id.clone(), RoomVisibility::Public);
    let user_id = String::from("@carl:ruma.test");
    policy.grant(user_id.clone(), Membership::Leave, room_id.clone());

    assert!(JoinRoom::handle(&mut store, &mut guard, &policy, &user_id, &room_id).is_ok());

    let leave = ruma::membership::RoomMembershipOptions {
        room_id: room_id.clone(),
        user_id: user_id.clone(),
        sender: user_id.clone(),
        membership: Membership::Leave,
    };
    let left = ruma::membership::RoomMembership::create(
        &mut store,
        &mut guard,
        RoomVisibility::Public,
        true,
        leave,
    );
    assert!(left.is_ok());

    let rejoined = JoinRoom::handle(&mut store, &mut guard, &policy, &user_id, &room_id);
    assert!(rejoined.is_ok());
}
