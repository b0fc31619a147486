//! Per-user display metadata and its propagation into room state.
//!
//! A profile row is created on the first field write and mutated in place
//! thereafter; it is never deleted. Every successful profile field change
//! is fanned out as a privileged re-join transition into every room the
//! user currently has `join` membership in, so the profile displayed
//! inside room state never durably diverges from the stored one.

use vstd::prelude::*;

use crate::error::ApiError;
use crate::guard::TransitionGuard;
use crate::membership::{Membership, MembershipView, RoomMembership, RoomMembershipOptions};
use crate::policy::RoomPolicy;
use crate::store::MembershipStore;

verus! {

/// The view of an optional text field.
pub open spec fn opt_view(o: Option<String>) -> Option<Seq<char>> {
    match o {
        Some(s) => Some(s@),
        None => None,
    }
}

/// A user's display metadata; each field is independently nullable and
/// independently settable.
#[derive(Clone, Debug)]
pub struct Profile {
    /// The user's ID.
    pub id: String,
    /// The avatar URL.
    pub avatar_url: Option<String>,
    /// The display name.
    pub displayname: Option<String>,
}

/// The mathematical image of a profile row.
pub struct ProfileView {
    pub id: Seq<char>,
    pub avatar_url: Option<Seq<char>>,
    pub displayname: Option<Seq<char>>,
}

impl View for Profile {
    type V = ProfileView;

    open spec fn view(&self) -> ProfileView {
        ProfileView {
            id: self.id@,
            avatar_url: opt_view(self.avatar_url),
            displayname: opt_view(self.displayname),
        }
    }
}

/// Keyed storage of profile rows, one per user.
pub struct ProfileStore {
    profiles: Vec<Profile>,
}

impl ProfileStore {
    /// Every profile row currently held.
    pub closed spec fn contents(self) -> Seq<ProfileView> {
        self.profiles@.map_values(|p: Profile| p@)
    }

    /// At most one profile row per user.
    pub open spec fn wf(self) -> bool {
        forall|i: int, j: int|
            #![trigger self.contents()[i], self.contents()[j]]
            0 <= i < j < self.contents().len() ==> self.contents()[i].id != self.contents()[j].id
    }

    /// Whether a profile row exists for `user`.
    pub open spec fn has_profile(self, user: Seq<char>) -> bool {
        exists|i: int|
            0 <= i < self.contents().len() && (#[trigger] self.contents()[i]).id == user
    }

    /// The index of the profile row for `user`.
    pub open spec fn profile_index(self, user: Seq<char>) -> int {
        choose|i: int| 0 <= i < self.contents().len() && (#[trigger] self.contents()[i]).id == user
    }

    /// The profile row for `user`, if any.
    pub open spec fn lookup(self, user: Seq<char>) -> Option<ProfileView> {
        if self.has_profile(user) {
            Some(self.contents()[self.profile_index(user)])
        } else {
            None
        }
    }

    /// In a well-formed profile store, the row seen at index `i` is the row
    /// `lookup` denotes for its user.
    pub proof fn lemma_lookup_at(self, i: int)
        requires
            self.wf(),
            0 <= i < self.contents().len(),
        ensures
            self.lookup(self.contents()[i].id) == Some(self.contents()[i]),
            self.profile_index(self.contents()[i].id) == i,
    {
        let user = self.contents()[i].id;
        assert(self.has_profile(user));
        let j = self.profile_index(user);
        if i < j {
            assert(self.contents()[i].id != self.contents()[j].id);
        } else if j < i {
            assert(self.contents()[j].id != self.contents()[i].id);
        }
    }

    /// An empty profile store.
    pub fn new() -> (s: Self)
        ensures
            s.wf(),
            forall|user: Seq<char>| #[trigger] s.lookup(user) is None,
    {
        let s = ProfileStore { profiles: Vec::new() };
        proof {
            assert(s.contents() =~= Seq::<ProfileView>::empty());
        }
        s
    }

    /// After overwriting index `i` of `pre` with a row of the same user,
    /// every lookup is as before except for that user.
    proof fn lemma_frame_update(self, pre: Self, i: int, v: ProfileView)
        requires
            pre.wf(),
            0 <= i < pre.contents().len(),
            pre.contents()[i].id == v.id,
            self.contents() == pre.contents().update(i, v),
        ensures
            self.wf(),
            self.lookup(v.id) == Some(v),
            forall|user: Seq<char>|
                user != v.id ==> #[trigger] self.lookup(user) == pre.lookup(user),
    {
        assert forall|a: int, b: int|
            #![trigger self.contents()[a], self.contents()[b]]
            0 <= a < b < self.contents().len() implies self.contents()[a].id
            != self.contents()[b].id by {
            assert(pre.contents()[a].id != pre.contents()[b].id);
        }
        assert(self.contents()[i].id == v.id);
        self.lemma_lookup_at(i);
        assert forall|user: Seq<char>| user != v.id implies #[trigger] self.lookup(user)
            == pre.lookup(user) by {
            if pre.has_profile(user) {
                let k = pre.profile_index(user);
                assert(k != i);
                assert(self.contents()[k].id == user);
                self.lemma_lookup_at(k);
                pre.lemma_lookup_at(k);
            } else {
                if self.has_profile(user) {
                    let k = self.profile_index(user);
                    assert(self.contents()[k].id == user);
                    assert(k != i);
                    assert(pre.contents()[k].id == user);
                }
            }
        }
    }

    /// After pushing a row whose user had none, every other lookup is as
    /// before.
    proof fn lemma_frame_push(self, pre: Self, v: ProfileView)
        requires
            pre.wf(),
            !pre.has_profile(v.id),
            self.contents() == pre.contents().push(v),
        ensures
            self.wf(),
            self.lookup(v.id) == Some(v),
            forall|user: Seq<char>|
                user != v.id ==> #[trigger] self.lookup(user) == pre.lookup(user),
    {
        let last = pre.contents().len() as int;
        assert forall|a: int, b: int|
            #![trigger self.contents()[a], self.contents()[b]]
            0 <= a < b < self.contents().len() implies self.contents()[a].id
            != self.contents()[b].id by {
            if b < last {
                assert(pre.contents()[a].id != pre.contents()[b].id);
            } else {
                assert(!((#[trigger] pre.contents()[a]).id == v.id));
            }
        }
        assert(self.contents()[last].id == v.id);
        self.lemma_lookup_at(last);
        assert forall|user: Seq<char>| user != v.id implies #[trigger] self.lookup(user)
            == pre.lookup(user) by {
            if pre.has_profile(user) {
                let k = pre.profile_index(user);
                assert(self.contents()[k].id == user);
                self.lemma_lookup_at(k);
                pre.lemma_lookup_at(k);
            } else {
                if self.has_profile(user) {
                    let k = self.profile_index(user);
                    assert(self.contents()[k].id == user);
                    assert(k != last);
                    assert(pre.contents()[k].id == user);
                }
            }
        }
    }

    /// Overwrites the avatar URL of the existing row for `user_id`,
    /// returning the mutated row.
    fn set_avatar_url(&mut self, user_id: &String, avatar_url: Option<String>) -> (r: Profile)
        requires
            old(self).wf(),
            old(self).has_profile(user_id@),
        ensures
            final(self).wf(),
            final(self).lookup(user_id@) == Some(
                ProfileView {
                    id: user_id@,
                    avatar_url: opt_view(avatar_url),
                    displayname: old(self).lookup(user_id@).unwrap().displayname,
                },
            ),
            forall|user: Seq<char>|
                user != user_id@ ==> #[trigger] final(self).lookup(user) == old(self).lookup(user),
            Some(r@) == final(self).lookup(user_id@),
    {
        let n = self.profiles.len();
        for i in 0..n
            invariant
                n == self.profiles.len(),
                *self == *old(self),
                old(self).wf(),
                forall|j: int| 0 <= j < i ==> (#[trigger] self.contents()[j]).id != user_id@,
        {
            if self.profiles[i].id == *user_id {
                proof {
                    self.lemma_lookup_at(i as int);
                }
                let updated = Profile {
                    id: self.profiles[i].id.clone(),
                    avatar_url,
                    displayname: clone_opt_string(&self.profiles[i].displayname),
                };
                let r = Profile {
                    id: updated.id.clone(),
                    avatar_url: clone_opt_string(&updated.avatar_url),
                    displayname: clone_opt_string(&updated.displayname),
                };
                let ghost v = updated@;
                self.profiles[i] = updated;
                proof {
                    assert(self.contents() =~= old(self).contents().update(i as int, v));
                    self.lemma_frame_update(*old(self), i as int, v);
                }
                return r;
            }
        }
        proof {
            assert(!old(self).has_profile(user_id@));
            assert(false);
        }
        unreached()
    }

    /// Overwrites the display name of the existing row for `user_id`,
    /// returning the mutated row.
    fn set_displayname(&mut self, user_id: &String, displayname: Option<String>) -> (r: Profile)
        requires
            old(self).wf(),
            old(self).has_profile(user_id@),
        ensures
            final(self).wf(),
            final(self).lookup(user_id@) == Some(
                ProfileView {
                    id: user_id@,
                    avatar_url: old(self).lookup(user_id@).unwrap().avatar_url,
                    displayname: opt_view(displayname),
                },
            ),
            forall|user: Seq<char>|
                user != user_id@ ==> #[trigger] final(self).lookup(user) == old(self).lookup(user),
            Some(r@) == final(self).lookup(user_id@),
    {
        let n = self.profiles.len();
        for i in 0..n
            invariant
                n == self.profiles.len(),
                *self == *old(self),
                old(self).wf(),
                forall|j: int| 0 <= j < i ==> (#[trigger] self.contents()[j]).id != user_id@,
        {
            if self.profiles[i].id == *user_id {
                proof {
                    self.lemma_lookup_at(i as int);
                }
                let updated = Profile {
                    id: self.profiles[i].id.clone(),
                    avatar_url: clone_opt_string(&self.profiles[i].avatar_url),
                    displayname,
                };
                let r = Profile {
                    id: updated.id.clone(),
                    avatar_url: clone_opt_string(&updated.avatar_url),
                    displayname: clone_opt_string(&updated.displayname),
                };
                let ghost v = updated@;
                self.profiles[i] = updated;
                proof {
                    assert(self.contents() =~= old(self).contents().update(i as int, v));
                    self.lemma_frame_update(*old(self), i as int, v);
                }
                return r;
            }
        }
        proof {
            assert(!old(self).has_profile(user_id@));
            assert(false);
        }
        unreached()
    }
}

/// Clones an optional text field, preserving its view.
fn clone_opt_string(o: &Option<String>) -> (r: Option<String>)
    ensures
        opt_view(r) == opt_view(*o),
{
    match o {
        Some(s) => Some(s.clone()),
        None => None,
    }
}

/// The synthetic row a profile fan-out re-asserts in one room: the user's
/// own current join, with the user as both sender and target.
pub open spec fn joined_row(room: Seq<char>, user: Seq<char>) -> MembershipView {
    MembershipView { room_id: room, user_id: user, sender: user, membership: Membership::Join }
}

/// Relates the membership store before and after a profile fan-out for
/// `user`: every room the user was joined to carries the re-asserted join
/// with `sender == target == user`; every other row, and every row of any
/// other user, is untouched.
pub open spec fn memberships_propagated(
    pre: MembershipStore,
    post: MembershipStore,
    user: Seq<char>,
) -> bool {
    &&& post.wf()
    &&& forall|room: Seq<char>, u: Seq<char>|
        u != user ==> #[trigger] post.lookup(room, u) == pre.lookup(room, u)
    &&& forall|room: Seq<char>|
        crate::engine::membership_of(#[trigger] pre.lookup(room, user)) == Some(Membership::Join)
            ==> post.lookup(room, user) == Some(joined_row(room, user))
    &&& forall|room: Seq<char>|
        crate::engine::membership_of(#[trigger] pre.lookup(room, user)) != Some(Membership::Join)
            ==> post.lookup(room, user) == pre.lookup(room, user)
}

/// Relates the guard before and after a profile fan-out for `user`: in
/// each re-asserted room a remembered join fingerprint stays in force and
/// any other remembered fingerprint is cleared; every other key is
/// untouched.
pub open spec fn guard_propagated(
    pre_store: MembershipStore,
    pre: TransitionGuard,
    post: TransitionGuard,
    user: Seq<char>,
) -> bool {
    &&& post.wf()
    &&& forall|room: Seq<char>, u: Seq<char>|
        u != user ==> #[trigger] post.recorded(room, u) == pre.recorded(room, u)
    &&& forall|room: Seq<char>|
        crate::engine::membership_of(#[trigger] pre_store.lookup(room, user)) == Some(
            Membership::Join,
        ) ==> post.recorded(room, user) == (if pre.recorded(room, user) == Some(Membership::Join) {
            Some(Membership::Join)
        } else {
            None::<Membership>
        })
    &&& forall|room: Seq<char>|
        crate::engine::membership_of(#[trigger] pre_store.lookup(room, user)) != Some(
            Membership::Join,
        ) ==> post.recorded(room, user) == pre.recorded(room, user)
}

/// True when some row among the first `upto` of `rs` is a join row in
/// `room`: the fan-out has already re-asserted that room.
pub open spec fn fanned(rs: Seq<RoomMembership>, upto: int, room: Seq<char>) -> bool {
    exists|a: int|
        0 <= a < upto && (#[trigger] rs[a])@.room_id == room && rs[a]@.membership
            == Membership::Join
}

impl Profile {
    /// Re-issues the user's current `join` membership, privileged, into
    /// every room they are joined to, so that updated profile fields are
    /// reflected in room state. Rooms the user is not currently joined to
    /// are untouched. Never fails: each re-assertion is a no-op
    /// re-affirmation of the user's own join, which the validator always
    /// allows.
    pub fn update_memberships(
        memberships: &mut MembershipStore,
        guard: &mut TransitionGuard,
        policy: &RoomPolicy,
        user_id: &String,
    ) -> (r: Result<(), ApiError>)
        requires
            old(memberships).wf(),
            old(guard).wf(),
        ensures
            r is Ok,
            memberships_propagated(*old(memberships), *final(memberships), user_id@),
            guard_propagated(*old(memberships), *old(guard), *final(guard), user_id@),
    {
        let rows = RoomMembership::find_by_uid(memberships, user_id);
        let ghost s0 = *old(memberships);
        let ghost g0 = *old(guard);
        let n = rows.len();
        for i in 0..n
            invariant
                n == rows.len(),
                memberships.wf(),
                guard.wf(),
                forall|a: int|
                    0 <= a < rows@.len() ==> (#[trigger] rows@[a])@.user_id == user_id@
                        && s0.lookup(rows@[a]@.room_id, user_id@) == Some(rows@[a]@),
                forall|a: int, b: int|
                    0 <= a < b < rows@.len() ==> rows@[a]@.room_id != rows@[b]@.room_id,
                forall|room: Seq<char>, u: Seq<char>|
                    u != user_id@ ==> #[trigger] memberships.lookup(room, u) == s0.lookup(room, u),
                forall|room: Seq<char>|
                    fanned(rows@, i as int, room) ==> #[trigger] memberships.lookup(room, user_id@)
                        == Some(joined_row(room, user_id@)),
                forall|room: Seq<char>|
                    !fanned(rows@, i as int, room) ==> #[trigger] memberships.lookup(room, user_id@)
                        == s0.lookup(room, user_id@),
                forall|room: Seq<char>, u: Seq<char>|
                    u != user_id@ ==> #[trigger] guard.recorded(room, u) == g0.recorded(room, u),
                forall|room: Seq<char>|
                    fanned(rows@, i as int, room) ==> #[trigger] guard.recorded(room, user_id@)
                        == (if g0.recorded(room, user_id@) == Some(Membership::Join) {
                        Some(Membership::Join)
                    } else {
                        None::<Membership>
                    }),
                forall|room: Seq<char>|
                    !fanned(rows@, i as int, room) ==> #[trigger] guard.recorded(room, user_id@)
                        == g0.recorded(room, user_id@),
        {
            let is_join = rows[i].membership == Membership::Join;
            if is_join {
                let ghost room = rows@[i as int]@.room_id;
                let options = RoomMembershipOptions {
                    room_id: rows[i].room_id.clone(),
                    user_id: user_id.clone(),
                    sender: user_id.clone(),
                    membership: Membership::Join,
                };
                let visibility = policy.visibility(&options.room_id);
                let sender_may = policy.may(user_id, Membership::Join, &options.room_id);
                proof {
                    assert(!fanned(rows@, i as int, room));
                    assert(memberships.lookup(room, user_id@) == s0.lookup(room, user_id@));
                    assert(crate::engine::membership_of(memberships.lookup(room, user_id@))
                        == Some(Membership::Join));
                }
                let ghost pre_s = *memberships;
                let ghost pre_g = *guard;
                let result = RoomMembership::update(
                    memberships,
                    guard,
                    visibility,
                    sender_may,
                    options,
                );
                proof {
                    assert(result is Ok);
                    assert forall|r2: Seq<char>| fanned(rows@, i + 1, r2)
                        implies #[trigger] memberships.lookup(r2, user_id@) == Some(
                        joined_row(r2, user_id@),
                    ) by {
                        let a = choose|a: int|
                            0 <= a < i + 1 && (#[trigger] rows@[a])@.room_id == r2
                                && rows@[a]@.membership == Membership::Join;
                        if a < i {
                            assert(fanned(rows@, i as int, r2));
                            if r2 != room {
                                assert(pre_s.lookup(r2, user_id@) == Some(joined_row(r2, user_id@)));
                            }
                        }
                    }
                    assert forall|r2: Seq<char>| !fanned(rows@, i + 1, r2)
                        implies #[trigger] memberships.lookup(r2, user_id@) == s0.lookup(
                        r2,
                        user_id@,
                    ) by {
                        assert(!fanned(rows@, i as int, r2));
                        assert(r2 != room);
                    }
                    assert forall|r2: Seq<char>| fanned(rows@, i + 1, r2)
                        implies #[trigger] guard.recorded(r2, user_id@) == (if g0.recorded(
                        r2,
                        user_id@,
                    ) == Some(Membership::Join) {
                        Some(Membership::Join)
                    } else {
                        None::<Membership>
                    }) by {
                        let a = choose|a: int|
                            0 <= a < i + 1 && (#[trigger] rows@[a])@.room_id == r2
                                && rows@[a]@.membership == Membership::Join;
                        if a < i {
                            assert(fanned(rows@, i as int, r2));
                            if r2 != room {
                                assert(pre_g.recorded(r2, user_id@) == guard.recorded(r2, user_id@));
                            }
                        } else {
                            assert(r2 == room);
                            assert(pre_g.recorded(room, user_id@) == g0.recorded(room, user_id@));
                        }
                    }
                    assert forall|r2: Seq<char>| !fanned(rows@, i + 1, r2)
                        implies #[trigger] guard.recorded(r2, user_id@) == g0.recorded(
                        r2,
                        user_id@,
                    ) by {
                        assert(!fanned(rows@, i as int, r2));
                        assert(r2 != room);
                    }
                }
                match result {
                    Ok(_) => {},
                    Err(e) => {
                        proof {
                            assert(false);
                        }
                        return Err(e);
                    },
                }
            } else {
                proof {
                    assert forall|r2: Seq<char>| fanned(rows@, i + 1, r2) implies fanned(
                        rows@,
                        i as int,
                        r2,
                    ) by {
                        let a = choose|a: int|
                            0 <= a < i + 1 && (#[trigger] rows@[a])@.room_id == r2
                                && rows@[a]@.membership == Membership::Join;
                        assert(a < i);
                    }
                    assert forall|r2: Seq<char>| fanned(rows@, i as int, r2) implies fanned(
                        rows@,
                        i + 1,
                        r2,
                    ) by {
                        let a = choose|a: int|
                            0 <= a < i && (#[trigger] rows@[a])@.room_id == r2 && rows@[a]@.membership
                                == Membership::Join;
                        assert(0 <= a < i + 1 && rows@[a]@.room_id == r2 && rows@[a]@.membership
                            == Membership::Join);
                    }
                }
            }
        }
        proof {
            assert forall|room: Seq<char>|
                crate::engine::membership_of(#[trigger] s0.lookup(room, user_id@)) == Some(
                    Membership::Join,
                ) implies fanned(rows@, rows@.len() as int, room) by {
                assert(s0.lookup(room, user_id@) is Some);
                let a = choose|a: int|
                    0 <= a < rows@.len() && (#[trigger] rows@[a])@.room_id == room;
                assert(s0.lookup(rows@[a]@.room_id, user_id@) == Some(rows@[a]@));
                assert(rows@[a]@.membership == Membership::Join);
            }
            assert forall|room: Seq<char>|
                crate::engine::membership_of(#[trigger] s0.lookup(room, user_id@)) != Some(
                    Membership::Join,
                ) implies !fanned(rows@, rows@.len() as int, room) by {
                if fanned(rows@, rows@.len() as int, room) {
                    let a = choose|a: int|
                        0 <= a < rows@.len() && (#[trigger] rows@[a])@.room_id == room
                            && rows@[a]@.membership == Membership::Join;
                    assert(s0.lookup(rows@[a]@.room_id, user_id@) == Some(rows@[a]@));
                }
            }
        }
        Ok(())
    }

    /// Updates or creates the profile row for `user_id` with a new avatar
    /// URL, then fans the change out into every room the user is currently
    /// joined to as a privileged re-join. The whole operation succeeds as
    /// one unit.
    pub fn update_avatar_url(
        profiles: &mut ProfileStore,
        memberships: &mut MembershipStore,
        guard: &mut TransitionGuard,
        policy: &RoomPolicy,
        user_id: &String,
        avatar_url: Option<String>,
    ) -> (r: Result<Profile, ApiError>)
        requires
            old(profiles).wf(),
            old(memberships).wf(),
            old(guard).wf(),
        ensures
            final(profiles).wf(),
            final(profiles).lookup(user_id@) == Some(
                ProfileView {
                    id: user_id@,
                    avatar_url: opt_view(avatar_url),
                    displayname: (match old(profiles).lookup(user_id@) {
                        Some(p) => p.displayname,
                        None => None,
                    }),
                },
            ),
            forall|user: Seq<char>|
                user != user_id@ ==> #[trigger] final(profiles).lookup(user) == old(
                    profiles,
                ).lookup(user),
            r matches Ok(p) && Some(p@) == final(profiles).lookup(user_id@),
            memberships_propagated(*old(memberships), *final(memberships), user_id@),
            guard_propagated(*old(memberships), *old(guard), *final(guard), user_id@),
    {
        let existing = Profile::find_by_uid(profiles, user_id);
        let profile = match existing {
            Ok(Some(_)) => profiles.set_avatar_url(user_id, avatar_url),
            _ => {
                let new_profile = Profile {
                    id: user_id.clone(),
                    avatar_url,
                    displayname: None,
                };
                let r = Profile {
                    id: new_profile.id.clone(),
                    avatar_url: clone_opt_string(&new_profile.avatar_url),
                    displayname: None,
                };
                profiles.push_new(new_profile);
                r
            },
        };
        match Profile::update_memberships(memberships, guard, policy, user_id) {
            Ok(_) => Ok(profile),
            Err(e) => {
                proof {
                    assert(false);
                }
                Err(e)
            },
        }
    }

    /// Updates or creates the profile row for `user_id` with a new display
    /// name, then fans the change out into every room the user is
    /// currently joined to as a privileged re-join. The whole operation
    /// succeeds as one unit.
    pub fn update_displayname(
        profiles: &mut ProfileStore,
        memberships: &mut MembershipStore,
        guard: &mut TransitionGuard,
        policy: &RoomPolicy,
        user_id: &String,
        displayname: Option<String>,
    ) -> (r: Result<Profile, ApiError>)
        requires
            old(profiles).wf(),
            old(memberships).wf(),
            old(guard).wf(),
        ensures
            final(profiles).wf(),
            final(profiles).lookup(user_id@) == Some(
                ProfileView {
                    id: user_id@,
                    avatar_url: (match old(profiles).lookup(user_id@) {
                        Some(p) => p.avatar_url,
                        None => None,
                    }),
                    displayname: opt_view(displayname),
                },
            ),
            forall|user: Seq<char>|
                user != user_id@ ==> #[trigger] final(profiles).lookup(user) == old(
                    profiles,
                ).lookup(user),
            r matches Ok(p) && Some(p@) == final(profiles).lookup(user_id@),
            memberships_propagated(*old(memberships), *final(memberships), user_id@),
            guard_propagated(*old(memberships), *old(guard), *final(guard), user_id@),
    {
        let existing = Profile::find_by_uid(profiles, user_id);
        let profile = match existing {
            Ok(Some(_)) => profiles.set_displayname(user_id, displayname),
            _ => {
                let new_profile = Profile {
                    id: user_id.clone(),
                    avatar_url: None,
                    displayname,
                };
                let r = Profile {
                    id: new_profile.id.clone(),
                    avatar_url: None,
                    displayname: clone_opt_string(&new_profile.displayname),
                };
                profiles.push_new(new_profile);
                r
            },
        };
        match Profile::update_memberships(memberships, guard, policy, user_id) {
            Ok(_) => Ok(profile),
            Err(e) => {
                proof {
                    assert(false);
                }
                Err(e)
            },
        }
    }

    /// Creates a profile row for a user that has none; refuses a duplicate
    /// with a storage error, as the store's uniqueness constraint would.
    pub fn create(store: &mut ProfileStore, new_profile: &Profile) -> (r: Result<
        Profile,
        ApiError,
    >)
        requires
            old(store).wf(),
        ensures
            final(store).wf(),
            old(store).has_profile(new_profile.id@) ==> r == Err::<Profile, ApiError>(
                ApiError::StorageError,
            ) && *final(store) == *old(store),
            !old(store).has_profile(new_profile.id@) ==> {
                &&& r matches Ok(p) && p@ == new_profile@
                &&& final(store).lookup(new_profile.id@) == Some(new_profile@)
                &&& forall|user: Seq<char>|
                    user != new_profile.id@ ==> #[trigger] final(store).lookup(user) == old(
                        store,
                    ).lookup(user)
            },
    {
        let existing = Profile::find_by_uid(store, &new_profile.id);
        match existing {
            Ok(Some(_)) => Err(ApiError::StorageError),
            _ => {
                let row = Profile {
                    id: new_profile.id.clone(),
                    avatar_url: clone_opt_string(&new_profile.avatar_url),
                    displayname: clone_opt_string(&new_profile.displayname),
                };
                let r = Profile {
                    id: row.id.clone(),
                    avatar_url: clone_opt_string(&row.avatar_url),
                    displayname: clone_opt_string(&row.displayname),
                };
                store.push_new(row);
                Ok(r)
            },
        }
    }

    /// Returns the profile row for `user_id`, or `None` when the user has
    /// none.
    pub fn find_by_uid(store: &ProfileStore, user_id: &String) -> (r: Result<
        Option<Profile>,
        ApiError,
    >)
        requires
            store.wf(),
        ensures
            r is Ok,
            (r matches Ok(o) && o is Some) <==> store.has_profile(user_id@),
            r matches Ok(Some(p)) ==> store.lookup(user_id@) == Some(p@),
    {
        let n = store.profiles.len();
        for i in 0..n
            invariant
                n == store.profiles.len(),
                store.wf(),
                forall|j: int| 0 <= j < i ==> (#[trigger] store.contents()[j]).id != user_id@,
        {
            if store.profiles[i].id == *user_id {
                let p = Profile {
                    id: store.profiles[i].id.clone(),
                    avatar_url: clone_opt_string(&store.profiles[i].avatar_url),
                    displayname: clone_opt_string(&store.profiles[i].displayname),
                };
                proof {
                    store.lemma_lookup_at(i as int);
                }
                return Ok(Some(p));
            }
        }
        Ok(None)
    }

    /// Returns the profile rows of every listed user that has one.
    pub fn get_profiles(store: &ProfileStore, users: &Vec<String>) -> (r: Result<
        Vec<Profile>,
        ApiError,
    >)
        requires
            store.wf(),
        ensures
            r is Ok,
            r matches Ok(ps) ==> {
                &&& forall|i: int|
                    0 <= i < ps@.len() ==> store.lookup((#[trigger] ps@[i])@.id) == Some(ps@[i]@)
                        && exists|j: int| 0 <= j < users@.len() && (#[trigger] users@[j])@ == ps@[i]@.id
                &&& forall|user: Seq<char>|
                    #[trigger] store.lookup(user) is Some && (exists|j: int|
                        0 <= j < users@.len() && (#[trigger] users@[j])@ == user) ==> exists|i: int|
                        0 <= i < ps@.len() && (#[trigger] ps@[i])@.id == user
            },
    {
        let mut ps: Vec<Profile> = Vec::new();
        let n = store.profiles.len();
        for i in 0..n
            invariant
                n == store.profiles.len(),
                store.wf(),
                forall|a: int|
                    0 <= a < ps@.len() ==> store.lookup((#[trigger] ps@[a])@.id) == Some(ps@[a]@)
                        && exists|j: int| 0 <= j < users@.len() && (#[trigger] users@[j])@ == ps@[a]@.id,
                forall|j: int|
                    0 <= j < i && (exists|k: int|
                        0 <= k < users@.len() && (#[trigger] users@[k])@ == (
                        #[trigger] store.contents()[j]).id) ==> exists|a: int|
                        0 <= a < ps@.len() && (#[trigger] ps@[a])@.id == store.contents()[j].id,
        {
            if contains_id(users, &store.profiles[i].id) {
                let p = Profile {
                    id: store.profiles[i].id.clone(),
                    avatar_url: clone_opt_string(&store.profiles[i].avatar_url),
                    displayname: clone_opt_string(&store.profiles[i].displayname),
                };
                proof {
                    store.lemma_lookup_at(i as int);
                    assert(p@ == store.contents()[i as int]);
                }
                let ghost ps0 = ps@;
                ps.push(p);
                proof {
                    assert(ps@ == ps0.push(p));
                    assert forall|j: int|
                        0 <= j < i + 1 && (exists|k: int|
                            0 <= k < users@.len() && (#[trigger] users@[k])@ == (
                            #[trigger] store.contents()[j]).id) implies exists|a: int|
                            0 <= a < ps@.len() && (#[trigger] ps@[a])@.id
                            == store.contents()[j].id by {
                        if j == i as int {
                            assert(ps@[ps0.len() as int] == p);
                            assert(ps@[ps0.len() as int]@.id == store.contents()[j].id);
                        } else {
                            let a = choose|a: int|
                                0 <= a < ps0.len() && (#[trigger] ps0[a])@.id
                                    == store.contents()[j].id;
                            assert(ps@[a] == ps0[a]);
                        }
                    }
                }
            }
        }
        proof {
            assert forall|user: Seq<char>|
                #[trigger] store.lookup(user) is Some && (exists|j: int|
                    0 <= j < users@.len() && (#[trigger] users@[j])@ == user) implies exists|i: int|
                    0 <= i < ps@.len() && (#[trigger] ps@[i])@.id == user by {
                let k = store.profile_index(user);
                assert(store.contents()[k].id == user);
            }
        }
        Ok(ps)
    }
}

impl ProfileStore {
    /// Appends a row for a user that has none.
    fn push_new(&mut self, p: Profile)
        requires
            old(self).wf(),
            !old(self).has_profile(p.id@),
        ensures
            final(self).wf(),
            final(self).lookup(p.id@) == Some(p@),
            forall|user: Seq<char>|
                user != p.id@ ==> #[trigger] final(self).lookup(user) == old(self).lookup(user),
    {
        let ghost v = p@;
        self.profiles.push(p);
        proof {
            assert(self.contents() =~= old(self).contents().push(v));
            self.lemma_frame_push(*old(self), v);
        }
    }
}

/// Whether `users` lists the identifier `id`.
fn contains_id(users: &Vec<String>, id: &String) -> (r: bool)
    ensures
        r == exists|j: int| 0 <= j < users@.len() && (#[trigger] users@[j])@ == id@,
{
    let n = users.len();
    for i in 0..n
        invariant
            n == users.len(),
            forall|j: int| 0 <= j < i ==> (#[trigger] users@[j])@ != id@,
    {
        if users[i] == *id {
            return true;
        }
    }
    false
}

} // verus!
