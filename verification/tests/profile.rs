use ruma::error::ApiError;
use ruma::guard::TransitionGuard;
use ruma::membership::Membership;
use ruma::membership::RoomMembership;
use ruma::membership::RoomMembershipOptions;
use ruma::policy::RoomPolicy;
use ruma::policy::RoomVisibility;
use ruma::profile::Profile;
use ruma::profile::ProfileStore;
use ruma::store::MembershipStore;

fn join(store: &mut MembershipStore, guard: &mut TransitionGuard, room: &str, user: &str) {
    let result = RoomMembership::create(
        store,
        guard,
        RoomVisibility::Public,
        false,
        RoomMembershipOptions {
            room_id: String::from(room),
            user_id: String::from(user),
            sender: String::from(user),
            membership: Membership::Join,
        },
    );
    assert!(result.is_ok());
}

#[test]
fn displayname_update_fans_out_to_joined_rooms() {
    let mut profiles = ProfileStore::new();
    let mut memberships = MembershipStore::new();
    let mut guard = TransitionGuard::new();
    let policy = RoomPolicy::new();
    let carl = String::from("@carl:ruma.test");
    let alice = String::from("@alice:ruma.test");

    join(&mut memberships, &mut guard, "!r1:ruma.test", "@carl:ruma.test");
    join(&mut memberships, &mut guard, "!r2:ruma.test", "@carl:ruma.test");
    join(&mut memberships, &mut guard, "!other:ruma.test", "@alice:ruma.test");

    // An older invite sits in a third room; it must stay untouched.
    let invited = RoomMembership::create(
        &mut memberships,
        &mut guard,
        RoomVisibility::Private,
        true,
        RoomMembershipOptions {
            room_id: String::from("!r3:ruma.test"),
            user_id: carl.clone(),
            sender: alice.clone(),
            membership: Membership::Invite,
        },
    );
    assert!(invited.is_ok());

    let updated = Profile::update_displayname(
        &mut profiles,
        &mut memberships,
        &mut guard,
        &policy,
        &carl,
        Some(String::from("Carl")),
    );
    let profile = updated.unwrap();
    assert_eq!(profile.displayname, Some(String::from("Carl")));
    assert_eq!(profile.avatar_url, None);

    for room in ["!r1:ruma.test", "!r2:ruma.test"] {
        let row = memberships.get(&String::from(room), &carl).unwrap();
        assert_eq!(row.membership, Membership::Join);
        assert_eq!(row.sender, carl);
        assert_eq!(row.user_id, carl);
    }
    let untouched = memberships.get(&String::from("!r3:ruma.test"), &carl).unwrap();
    assert_eq!(untouched.membership, Membership::Invite);
    assert_eq!(untouched.sender, alice);
    let other = memberships.get(&String::from("!other:ruma.test"), &alice).unwrap();
    assert_eq!(other.sender, alice);
}

#[test]
fn profile_updates_are_never_rate_limited() {
    let mut profiles = ProfileStore::new();
    let mut memberships = MembershipStore::new();
    let mut guard = TransitionGuard::new();
    let policy = RoomPolicy::new();
    let carl = String::from("@carl:ruma.test");

    join(&mut memberships, &mut guard, "!r1:ruma.test", "@carl:ruma.test");

    for name in ["Carl", "Carlo", "Carl again"] {
        let updated = Profile::update_displayname(
            &mut profiles,
            &mut memberships,
            &mut guard,
            &policy,
            &carl,
            Some(String::from(name)),
        );
        assert!(updated.is_ok());
    }
}

#[test]
fn avatar_update_creates_the_profile_row() {
    let mut profiles = ProfileStore::new();
    let mut memberships = MembershipStore::new();
    let mut guard = TransitionGuard::new();
    let policy = RoomPolicy::new();
    let carl = String::from("@carl:ruma.test");

    let updated = Profile::update_avatar_url(
        &mut profiles,
        &mut memberships,
        &mut guard,
        &policy,
        &carl,
        Some(String::from("mxc://ruma.test/avatar")),
    );
    let profile = updated.unwrap();
    assert_eq!(profile.id, carl);
    assert_eq!(profile.avatar_url, Some(String::from("mxc://ruma.test/avatar")));
    assert_eq!(profile.displayname, None);

    // The second field write mutates the same row in place.
    let renamed = Profile::update_displayname(
        &mut profiles,
        &mut memberships,
        &mut guard,
        &policy,
        &carl,
        Some(String::from("Carl")),
    );
    let profile = renamed.unwrap();
    assert_eq!(profile.avatar_url, Some(String::from("mxc://ruma.test/avatar")));
    assert_eq!(profile.displayname, Some(String::from("Carl")));

    let found = Profile::find_by_uid(&profiles, &carl).unwrap().unwrap();
    assert_eq!(found.avatar_url, Some(String::from("mxc://ruma.test/avatar")));
    assert_eq!(found.displayname, Some(String::from("Carl")));
}

#[test]
fn update_memberships_reasserts_only_joined_rooms() {
    let mut memberships = MembershipStore::new();
    let mut guard = TransitionGuard::new();
    let policy = RoomPolicy::new();
    let carl = String::from("@carl:ruma.test");
    let admin = String::from("@admin:ruma.test");

    join(&mut memberships, &mut guard, "!r1:ruma.test", "@carl:ruma.test");
    let banned = RoomMembership::create(
        &mut memberships,
        &mut guard,
        RoomVisibility::Public,
        true,
        RoomMembershipOptions {
            room_id: String::from("!r2:ruma.test"),
            user_id: carl.clone(),
            sender: admin.clone(),
            membership: Membership::Ban,
        },
    );
    assert!(banned.is_ok());

    let result = Profile::update_memberships(&mut memberships, &mut guard, &policy, &carl);
    assert!(result.is_ok());

    let joined = memberships.get(&String::from("!r1:ruma.test"), &carl).unwrap();
    assert_eq!(joined.membership, Membership::Join);
    let still_banned = memberships.get(&String::from("!r2:ruma.test"), &carl).unwrap();
    assert_eq!(still_banned.membership, Membership::Ban);
    assert_eq!(still_banned.sender, admin);
}

#[test]
fn privileged_path_is_idempotent() {
    // Applying the same transition through the privileged path twice yields
    // the same final stored row both times: no duplicate rows, no error.
    let mut memberships = MembershipStore::new();
    let mut guard = TransitionGuard::new();
    let carl = String::from("@carl:ruma.test");
    let admin = String::from("@admin:ruma.test");
    let invite = RoomMembershipOptions {
        room_id: String::from("!r1:ruma.test"),
        user_id: carl.clone(),
        sender: admin.clone(),
        membership: Membership::Invite,
    };

    let first = RoomMembership::update(
        &mut memberships,
        &mut guard,
        RoomVisibility::Private,
        true,
        invite.clone(),
    );
    assert!(first.is_ok());
    let second = RoomMembership::update(
        &mut memberships,
        &mut guard,
        RoomVisibility::Private,
        true,
        invite,
    );
    assert!(second.is_ok());

    let rows = RoomMembership::find_by_uid(&memberships, &carl);
    assert_eq!(rows.len(), 1);
    assert_eq!(rows[0].membership, Membership::Invite);
    assert_eq!(rows[0].sender, admin);
}

#[test]
fn create_refuses_a_duplicate_profile() {
    let mut profiles = ProfileStore::new();
    let carl_profile = Profile {
        id: String::from("@carl:ruma.test"),
        avatar_url: None,
        displayname: Some(String::from("Carl")),
    };

    let created = Profile::create(&mut profiles, &carl_profile);
    assert!(created.is_ok());

    let duplicated = Profile::create(&mut profiles, &carl_profile);
    assert_eq!(duplicated.unwrap_err(), ApiError::StorageError);
}

#[test]
fn find_by_uid_without_a_row() {
    let profiles = ProfileStore::new();
    let found = Profile::find_by_uid(&profiles, &String::from("@nobody:ruma.test"));
    assert!(found.unwrap().is_none());
}

#[test]
fn get_profiles_returns_only_listed_users() {
    let mut profiles = ProfileStore::new();
    for (user, name) in [("@carl:ruma.test", "Carl"), ("@alice:ruma.test", "Alice"), ("@bob:ruma.test", "Bob")] {
        let row = Profile {
            id: String::from(user),
            avatar_url: None,
            displayname: Some(String::from(name)),
        };
        assert!(Profile::create(&mut profiles, &row).is_ok());
    }

    let users = vec![
        String::from("@carl:ruma.test"),
        String::from("@bob:ruma.test"),
        String::from("@nobody:ruma.test"),
    ];
    let found = Profile::get_profiles(&profiles, &users).unwrap();
    assert_eq!(found.len(), 2);
    assert!(found.iter().any(|p| p.id == "@carl:ruma.test"));
    assert!(found.iter().any(|p| p.id == "@bob:ruma.test"));
}
