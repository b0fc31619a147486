//! The membership store: durable keyed storage of one current-membership
//! row per (room, user) pair, with read, upsert and per-user listing.
//!
//! The store is the single authoritative holder of membership rows; callers
//! only hold transient value objects. Its well-formedness invariant is the
//! composite uniqueness of the (room, user) key, which every operation
//! preserves.

use vstd::prelude::*;

use crate::membership::{MembershipView, RoomMembership};

verus! {

/// True when row `v` sits at the composite key (`room`, `user`).
pub open spec fn key_is(v: MembershipView, room: Seq<char>, user: Seq<char>) -> bool {
    v.room_id == room && v.user_id == user
}

/// Keyed storage of the current membership rows.
pub struct MembershipStore {
    rows: Vec<RoomMembership>,
}

impl MembershipStore {
    /// Every row currently held, in insertion order.
    pub closed spec fn contents(self) -> Seq<MembershipView> {
        self.rows@.map_values(|r: RoomMembership| r@)
    }

    /// Composite uniqueness: at most one row per (room, user) pair.
    pub open spec fn wf(self) -> bool {
        forall|i: int, j: int|
            #![trigger self.contents()[i], self.contents()[j]]
            0 <= i < j < self.contents().len() ==> !key_is(
                self.contents()[i],
                self.contents()[j].room_id,
                self.contents()[j].user_id,
            )
    }

    /// Whether some row sits at the key (`room`, `user`).
    pub open spec fn has_row(self, room: Seq<char>, user: Seq<char>) -> bool {
        exists|i: int|
            0 <= i < self.contents().len() && key_is(#[trigger] self.contents()[i], room, user)
    }

    /// The index of the row at the key (`room`, `user`), when one exists.
    pub open spec fn index_of(self, room: Seq<char>, user: Seq<char>) -> int {
        choose|i: int|
            0 <= i < self.contents().len() && key_is(#[trigger] self.contents()[i], room, user)
    }

    /// The row at the key (`room`, `user`), if any.
    pub open spec fn lookup(self, room: Seq<char>, user: Seq<char>) -> Option<MembershipView> {
        if self.has_row(room, user) {
            Some(self.contents()[self.index_of(room, user)])
        } else {
            None
        }
    }

    /// In a well-formed store, a row seen at index `i` is the row `lookup`
    /// denotes for its key.
    pub proof fn lemma_lookup_at(self, i: int)
        requires
            self.wf(),
            0 <= i < self.contents().len(),
        ensures
            self.lookup(self.contents()[i].room_id, self.contents()[i].user_id) == Some(
                self.contents()[i],
            ),
            self.index_of(self.contents()[i].room_id, self.contents()[i].user_id) == i,
    {
        let room = self.contents()[i].room_id;
        let user = self.contents()[i].user_id;
        assert(self.has_row(room, user));
        let j = self.index_of(room, user);
        assert(0 <= j < self.contents().len() && key_is(self.contents()[j], room, user));
        if i < j {
            assert(!key_is(self.contents()[i], self.contents()[j].room_id,
                self.contents()[j].user_id));
        } else if j < i {
            assert(!key_is(self.contents()[j], self.contents()[i].room_id,
                self.contents()[i].user_id));
        }
    }

    /// Uniqueness, as the store guarantees it after any sequence of
    /// transitions: two rows at the same (room, user) key are one row.
    pub proof fn lemma_at_most_one_row(self, i: int, j: int)
        requires
            self.wf(),
            0 <= i < self.contents().len(),
            0 <= j < self.contents().len(),
            self.contents()[i].room_id == self.contents()[j].room_id,
            self.contents()[i].user_id == self.contents()[j].user_id,
        ensures
            i == j,
    {
        if i < j {
            assert(!key_is(self.contents()[i], self.contents()[j].room_id,
                self.contents()[j].user_id));
        } else if j < i {
            assert(!key_is(self.contents()[j], self.contents()[i].room_id,
                self.contents()[i].user_id));
        }
    }

    /// An empty store.
    pub fn new() -> (s: Self)
        ensures
            s.wf(),
            s.contents() == Seq::<MembershipView>::empty(),
            forall|room: Seq<char>, user: Seq<char>| #[trigger] s.lookup(room, user) is None,
    {
        let s = MembershipStore { rows: Vec::new() };
        proof {
            assert(s.contents() =~= Seq::<MembershipView>::empty());
        }
        s
    }

    /// Reads the current row for (`room_id`, `user_id`), if one exists.
    pub fn get(&self, room_id: &String, user_id: &String) -> (r: Option<RoomMembership>)
        requires
            self.wf(),
        ensures
            r is Some <==> self.has_row(room_id@, user_id@),
            r matches Some(m) ==> self.lookup(room_id@, user_id@) == Some(m@),
    {
        let n = self.rows.len();
        for i in 0..n
            invariant
                n == self.rows.len(),
                self.wf(),
                forall|j: int| 0 <= j < i ==> !key_is(#[trigger] self.contents()[j], room_id@, user_id@),
        {
            if self.rows[i].room_id == *room_id && self.rows[i].user_id == *user_id {
                let m = RoomMembership {
                    room_id: self.rows[i].room_id.clone(),
                    user_id: self.rows[i].user_id.clone(),
                    sender: self.rows[i].sender.clone(),
                    membership: self.rows[i].membership,
                };
                proof {
                    self.lemma_lookup_at(i as int);
                }
                return Some(m);
            }
        }
        None
    }

    /// Writes `entry` as the single row for its (room, user) key, creating
    /// the row on the first transition and overwriting it on every later
    /// one. Returns the persisted row. No other key is touched.
    pub fn upsert(&mut self, entry: RoomMembership) -> (r: RoomMembership)
        requires
            old(self).wf(),
        ensures
            final(self).wf(),
            final(self).lookup(entry.room_id@, entry.user_id@) == Some(entry@),
            forall|room: Seq<char>, user: Seq<char>|
                !(room == entry.room_id@ && user == entry.user_id@)
                    ==> #[trigger] final(self).lookup(room, user) == old(self).lookup(room, user),
            r@ == entry@,
    {
        let r = RoomMembership {
            room_id: entry.room_id.clone(),
            user_id: entry.user_id.clone(),
            sender: entry.sender.clone(),
            membership: entry.membership,
        };
        let n = self.rows.len();
        for i in 0..n
            invariant
                n == self.rows.len(),
                *self == *old(self),
                old(self).wf(),
                r@ == entry@,
                forall|j: int| 0 <= j < i ==> !key_is(#[trigger] self.contents()[j], entry.room_id@, entry.user_id@),
        {
            if self.rows[i].room_id == entry.room_id && self.rows[i].user_id == entry.user_id {
                self.rows[i] = entry;
                proof {
                    assert(self.contents() =~= old(self).contents().update(i as int, entry@));
                    self.lemma_same_keys_frame(*old(self), i as int, entry@);
                }
                return r;
            }
        }
        self.rows.push(entry);
        proof {
            let pre = *old(self);
            let post = *self;
            assert(post.contents() =~= pre.contents().push(entry@));
            let last = pre.contents().len() as int;
            assert forall|a: int, b: int|
                #![trigger post.contents()[a], post.contents()[b]]
                0 <= a < b < post.contents().len() implies !key_is(
                post.contents()[a],
                post.contents()[b].room_id,
                post.contents()[b].user_id,
            ) by {
                if b < last {
                    assert(!key_is(pre.contents()[a], pre.contents()[b].room_id,
                        pre.contents()[b].user_id));
                } else {
                    assert(!key_is(pre.contents()[a], entry.room_id@, entry.user_id@));
                }
            }
            post.lemma_lookup_at(last);
            assert forall|room: Seq<char>, user: Seq<char>|
                !(room == entry.room_id@ && user == entry.user_id@) implies #[trigger] post.lookup(
                room,
                user,
            ) == pre.lookup(room, user) by {
                if pre.has_row(room, user) {
                    let k = pre.index_of(room, user);
                    assert(key_is(post.contents()[k], room, user));
                    post.lemma_lookup_at(k);
                    pre.lemma_lookup_at(k);
                } else {
                    if post.has_row(room, user) {
                        let k = post.index_of(room, user);
                        assert(key_is(post.contents()[k], room, user));
                        assert(k != last);
                        assert(key_is(pre.contents()[k], room, user));
                    }
                }
            }
        }
        r
    }

    /// After overwriting index `i` of `pre` with a row of the same key, every
    /// lookup is as before except at that key, where it now yields `v`.
    proof fn lemma_same_keys_frame(self, pre: Self, i: int, v: MembershipView)
        requires
            pre.wf(),
            0 <= i < pre.contents().len(),
            key_is(pre.contents()[i], v.room_id, v.user_id),
            self.contents() == pre.contents().update(i, v),
        ensures
            self.wf(),
            self.lookup(v.room_id, v.user_id) == Some(v),
            forall|room: Seq<char>, user: Seq<char>|
                !(room == v.room_id && user == v.user_id) ==> #[trigger] self.lookup(room, user)
                    == pre.lookup(room, user),
    {
        assert forall|a: int, b: int|
            #![trigger self.contents()[a], self.contents()[b]]
            0 <= a < b < self.contents().len() implies !key_is(
            self.contents()[a],
            self.contents()[b].room_id,
            self.contents()[b].user_id,
        ) by {
            assert(!key_is(pre.contents()[a], pre.contents()[b].room_id,
                pre.contents()[b].user_id));
        }
        assert(key_is(self.contents()[i], v.room_id, v.user_id));
        self.lemma_lookup_at(i);
        assert forall|room: Seq<char>, user: Seq<char>|
            !(room == v.room_id && user == v.user_id) implies #[trigger] self.lookup(room, user)
            == pre.lookup(room, user) by {
            if pre.has_row(room, user) {
                let k = pre.index_of(room, user);
                assert(k != i);
                assert(key_is(self.contents()[k], room, user));
                self.lemma_lookup_at(k);
                pre.lemma_lookup_at(k);
            } else {
                if self.has_row(room, user) {
                    let k = self.index_of(room, user);
                    assert(key_is(self.contents()[k], room, user));
                    assert(k != i);
                    assert(key_is(pre.contents()[k], room, user));
                }
            }
        }
    }
}

impl RoomMembership {
    /// Returns every room the user currently has any membership row in; the
    /// result holds each such row exactly once.
    pub fn find_by_uid(store: &MembershipStore, user_id: &String) -> (r: Vec<RoomMembership>)
        requires
            store.wf(),
        ensures
            forall|i: int|
                0 <= i < r@.len() ==> (#[trigger] r@[i])@.user_id == user_id@ && store.lookup(
                    r@[i]@.room_id,
                    user_id@,
                ) == Some(r@[i]@),
            forall|i: int, j: int| 0 <= i < j < r@.len() ==> r@[i]@.room_id != r@[j]@.room_id,
            forall|room: Seq<char>|
                #[trigger] store.lookup(room, user_id@) is Some ==> exists|i: int|
                    0 <= i < r@.len() && (#[trigger] r@[i])@.room_id == room,
    {
        let mut r: Vec<RoomMembership> = Vec::new();
        let n = store.rows.len();
        for i in 0..n
            invariant
                n == store.rows.len(),
                store.wf(),
                forall|a: int|
                    0 <= a < r@.len() ==> (#[trigger] r@[a])@.user_id == user_id@ && store.lookup(
                        r@[a]@.room_id,
                        user_id@,
                    ) == Some(r@[a]@) && store.index_of(r@[a]@.room_id, user_id@) < i,
                forall|a: int, b: int| 0 <= a < b < r@.len() ==> r@[a]@.room_id != r@[b]@.room_id,
                forall|j: int|
                    0 <= j < i && key_is_user(#[trigger] store.contents()[j], user_id@)
                        ==> exists|a: int|
                        0 <= a < r@.len() && (#[trigger] r@[a])@.room_id
                            == store.contents()[j].room_id,
        {
            if store.rows[i].user_id == *user_id {
                let m = RoomMembership {
                    room_id: store.rows[i].room_id.clone(),
                    user_id: store.rows[i].user_id.clone(),
                    sender: store.rows[i].sender.clone(),
                    membership: store.rows[i].membership,
                };
                proof {
                    assert(m@ == store.contents()[i as int]);
                    store.lemma_lookup_at(i as int);
                    assert forall|a: int| 0 <= a < r@.len() implies r@[a]@.room_id != m@.room_id by {
                        if r@[a]@.room_id == m@.room_id {
                            assert(store.index_of(m@.room_id, user_id@) == i as int);
                        }
                    }
                }
                let ghost r0 = r@;
                r.push(m);
                proof {
                    assert(r@ == r0.push(m));
                    assert forall|j: int|
                        0 <= j < i + 1 && key_is_user(#[trigger] store.contents()[j], user_id@)
                        implies exists|a: int|
                        0 <= a < r@.len() && (#[trigger] r@[a])@.room_id
                            == store.contents()[j].room_id by {
                        if j == i as int {
                            assert(r@[r0.len() as int] == m);
                            assert(r@[r0.len() as int]@.room_id == store.contents()[j].room_id);
                        } else {
                            let a = choose|a: int|
                                0 <= a < r0.len() && (#[trigger] r0[a])@.room_id
                                    == store.contents()[j].room_id;
                            assert(r@[a] == r0[a]);
                            assert(r@[a]@.room_id == store.contents()[j].room_id);
                        }
                    }
                }
            }
        }
        proof {
            assert forall|room: Seq<char>| #[trigger] store.lookup(room, user_id@) is Some
                implies exists|a: int|
                0 <= a < r@.len() && (#[trigger] r@[a])@.room_id == room by {
                let k = store.index_of(room, user_id@);
                assert(key_is_user(store.contents()[k], user_id@));
            }
        }
        r
    }
}

/// True when row `v` belongs to the user `user`.
pub open spec fn key_is_user(v: MembershipView, user: Seq<char>) -> bool {
    v.user_id == user
}

} // verus!
