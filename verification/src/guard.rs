//! The duplicate-transition guard: an admission-control gate in front of the
//! store that rejects a publicly-initiated transition identical to the one
//! just applied for the same (room, user) pair.
//!
//! The guard remembers, per (room, user) pair, the membership kind of the
//! last successful publicly-initiated transition. An identical public
//! request is refused admission until the stored membership changes to a
//! different value, at which point the remembered fingerprint is cleared.
//! The privileged path bypasses admission entirely.

use vstd::prelude::*;

use crate::membership::Membership;

verus! {

/// The admission-control key of a requested transition: room, target user
/// and the requested membership kind.
#[derive(Clone, Debug)]
pub struct Fingerprint {
    pub room_id: String,
    pub user_id: String,
    pub membership: Membership,
}

/// The mathematical image of a fingerprint.
pub struct FingerprintView {
    pub room_id: Seq<char>,
    pub user_id: Seq<char>,
    pub membership: Membership,
}

impl View for Fingerprint {
    type V = FingerprintView;

    open spec fn view(&self) -> FingerprintView {
        FingerprintView {
            room_id: self.room_id@,
            user_id: self.user_id@,
            membership: self.membership,
        }
    }
}

/// True when fingerprint `v` is keyed by the pair (`room`, `user`).
pub open spec fn fp_key_is(v: FingerprintView, room: Seq<char>, user: Seq<char>) -> bool {
    v.room_id == room && v.user_id == user
}

/// Per-(room, user) memory of the last publicly applied transition.
pub struct TransitionGuard {
    entries: Vec<Fingerprint>,
}

impl TransitionGuard {
    /// Every remembered fingerprint.
    pub closed spec fn entries_view(self) -> Seq<FingerprintView> {
        self.entries@.map_values(|f: Fingerprint| f@)
    }

    /// At most one remembered fingerprint per (room, user) pair.
    pub open spec fn wf(self) -> bool {
        forall|i: int, j: int|
            #![trigger self.entries_view()[i], self.entries_view()[j]]
            0 <= i < j < self.entries_view().len() ==> !fp_key_is(
                self.entries_view()[i],
                self.entries_view()[j].room_id,
                self.entries_view()[j].user_id,
            )
    }

    /// Whether a fingerprint is remembered for (`room`, `user`).
    pub open spec fn has_entry(self, room: Seq<char>, user: Seq<char>) -> bool {
        exists|i: int|
            0 <= i < self.entries_view().len() && fp_key_is(
                #[trigger] self.entries_view()[i],
                room,
                user,
            )
    }

    /// The index of the remembered fingerprint for (`room`, `user`).
    pub open spec fn entry_index(self, room: Seq<char>, user: Seq<char>) -> int {
        choose|i: int|
            0 <= i < self.entries_view().len() && fp_key_is(
                #[trigger] self.entries_view()[i],
                room,
                user,
            )
    }

    /// The membership kind of the last publicly applied transition for
    /// (`room`, `user`), if one is remembered.
    pub open spec fn recorded(self, room: Seq<char>, user: Seq<char>) -> Option<Membership> {
        if self.has_entry(room, user) {
            Some(self.entries_view()[self.entry_index(room, user)].membership)
        } else {
            None
        }
    }

    /// In a well-formed guard, the fingerprint seen at index `i` is the one
    /// `recorded` denotes for its key.
    pub proof fn lemma_recorded_at(self, i: int)
        requires
            self.wf(),
            0 <= i < self.entries_view().len(),
        ensures
            self.recorded(self.entries_view()[i].room_id, self.entries_view()[i].user_id) == Some(
                self.entries_view()[i].membership,
            ),
            self.entry_index(self.entries_view()[i].room_id, self.entries_view()[i].user_id) == i,
    {
        let room = self.entries_view()[i].room_id;
        let user = self.entries_view()[i].user_id;
        assert(self.has_entry(room, user));
        let j = self.entry_index(room, user);
        if i < j {
            assert(!fp_key_is(self.entries_view()[i], self.entries_view()[j].room_id,
                self.entries_view()[j].user_id));
        } else if j < i {
            assert(!fp_key_is(self.entries_view()[j], self.entries_view()[i].room_id,
                self.entries_view()[i].user_id));
        }
    }

    /// An empty guard: nothing was applied yet, everything is admitted.
    pub fn new() -> (g: Self)
        ensures
            g.wf(),
            forall|room: Seq<char>, user: Seq<char>| #[trigger] g.recorded(room, user) is None,
    {
        let g = TransitionGuard { entries: Vec::new() };
        proof {
            assert(g.entries_view() =~= Seq::<FingerprintView>::empty());
        }
        g
    }

    /// Admission check of the public path: refuses a transition whose exact
    /// fingerprint was the last one publicly applied for its (room, user)
    /// pair.
    pub fn admits(&self, fp: &Fingerprint) -> (r: bool)
        requires
            self.wf(),
        ensures
            r == (self.recorded(fp.room_id@, fp.user_id@) != Some(fp.membership)),
    {
        let n = self.entries.len();
        for i in 0..n
            invariant
                n == self.entries.len(),
                self.wf(),
                forall|j: int|
                    0 <= j < i ==> !fp_key_is(#[trigger] self.entries_view()[j], fp.room_id@, fp.user_id@),
        {
            if self.entries[i].room_id == fp.room_id && self.entries[i].user_id == fp.user_id {
                proof {
                    self.lemma_recorded_at(i as int);
                }
                return self.entries[i].membership != fp.membership;
            }
        }
        true
    }

    /// Remembers `fp` as the last publicly applied transition for its
    /// (room, user) pair, replacing whatever was remembered before.
    pub fn record(&mut self, fp: Fingerprint)
        requires
            old(self).wf(),
        ensures
            final(self).wf(),
            final(self).recorded(fp.room_id@, fp.user_id@) == Some(fp.membership),
            forall|room: Seq<char>, user: Seq<char>|
                !(room == fp.room_id@ && user == fp.user_id@)
                    ==> #[trigger] final(self).recorded(room, user) == old(self).recorded(room, user),
    {
        let n = self.entries.len();
        for i in 0..n
            invariant
                n == self.entries.len(),
                *self == *old(self),
                old(self).wf(),
                forall|j: int|
                    0 <= j < i ==> !fp_key_is(#[trigger] self.entries_view()[j], fp.room_id@, fp.user_id@),
        {
            if self.entries[i].room_id == fp.room_id && self.entries[i].user_id == fp.user_id {
                self.entries[i] = fp;
                proof {
                    assert(self.entries_view() =~= old(self).entries_view().update(i as int, fp@));
                    self.lemma_fp_frame_update(*old(self), i as int, fp@);
                }
                return;
            }
        }
        self.entries.push(fp);
        proof {
            let pre = *old(self);
            let post = *self;
            assert(post.entries_view() =~= pre.entries_view().push(fp@));
            let last = pre.entries_view().len() as int;
            assert forall|a: int, b: int|
                #![trigger post.entries_view()[a], post.entries_view()[b]]
                0 <= a < b < post.entries_view().len() implies !fp_key_is(
                post.entries_view()[a],
                post.entries_view()[b].room_id,
                post.entries_view()[b].user_id,
            ) by {
                if b < last {
                    assert(!fp_key_is(pre.entries_view()[a], pre.entries_view()[b].room_id,
                        pre.entries_view()[b].user_id));
                } else {
                    assert(!fp_key_is(pre.entries_view()[a], fp.room_id@, fp.user_id@));
                }
            }
            post.lemma_recorded_at(last);
            assert forall|room: Seq<char>, user: Seq<char>|
                !(room == fp.room_id@ && user == fp.user_id@) implies #[trigger] post.recorded(
                room,
                user,
            ) == pre.recorded(room, user) by {
                if pre.has_entry(room, user) {
                    let k = pre.entry_index(room, user);
                    assert(fp_key_is(post.entries_view()[k], room, user));
                    post.lemma_recorded_at(k);
                    pre.lemma_recorded_at(k);
                } else {
                    if post.has_entry(room, user) {
                        let k = post.entry_index(room, user);
                        assert(fp_key_is(post.entries_view()[k], room, user));
                        assert(k != last);
                        assert(fp_key_is(pre.entries_view()[k], room, user));
                    }
                }
            }
        }
    }

    /// Clears the remembered fingerprint for (`room_id`, `user_id`) if the
    /// stored membership just changed to a value other than the remembered
    /// one; a matching fingerprint stays in force.
    pub fn invalidate(&mut self, room_id: &String, user_id: &String, membership: Membership)
        requires
            old(self).wf(),
        ensures
            final(self).wf(),
            final(self).recorded(room_id@, user_id@) == (if old(self).recorded(room_id@, user_id@)
                == Some(membership) {
                Some(membership)
            } else {
                None::<Membership>
            }),
            forall|room: Seq<char>, user: Seq<char>|
                !(room == room_id@ && user == user_id@)
                    ==> #[trigger] final(self).recorded(room, user) == old(self).recorded(room, user),
    {
        let n = self.entries.len();
        for i in 0..n
            invariant
                n == self.entries.len(),
                *self == *old(self),
                old(self).wf(),
                forall|j: int|
                    0 <= j < i ==> !fp_key_is(#[trigger] self.entries_view()[j], room_id@, user_id@),
        {
            if self.entries[i].room_id == *room_id && self.entries[i].user_id == *user_id {
                proof {
                    self.lemma_recorded_at(i as int);
                }
                if self.entries[i].membership != membership {
                    self.entries.remove(i);
                    proof {
                        assert(self.entries_view() =~= old(self).entries_view().remove(i as int));
                        self.lemma_fp_frame_remove(*old(self), i as int);
                    }
                }
                return;
            }
        }
    }

    /// After overwriting index `i` of `pre` with a fingerprint of the same
    /// key, every record is as before except at that key.
    proof fn lemma_fp_frame_update(self, pre: Self, i: int, v: FingerprintView)
        requires
            pre.wf(),
            0 <= i < pre.entries_view().len(),
            fp_key_is(pre.entries_view()[i], v.room_id, v.user_id),
            self.entries_view() == pre.entries_view().update(i, v),
        ensures
            self.wf(),
            self.recorded(v.room_id, v.user_id) == Some(v.membership),
            forall|room: Seq<char>, user: Seq<char>|
                !(room == v.room_id && user == v.user_id)
                    ==> #[trigger] self.recorded(room, user) == pre.recorded(room, user),
    {
        assert forall|a: int, b: int|
            #![trigger self.entries_view()[a], self.entries_view()[b]]
            0 <= a < b < self.entries_view().len() implies !fp_key_is(
            self.entries_view()[a],
            self.entries_view()[b].room_id,
            self.entries_view()[b].user_id,
        ) by {
            assert(!fp_key_is(pre.entries_view()[a], pre.entries_view()[b].room_id,
                pre.entries_view()[b].user_id));
        }
        assert(fp_key_is(self.entries_view()[i], v.room_id, v.user_id));
        self.lemma_recorded_at(i);
        assert forall|room: Seq<char>, user: Seq<char>|
            !(room == v.room_id && user == v.user_id) implies #[trigger] self.recorded(room, user)
            == pre.recorded(room, user) by {
            if pre.has_entry(room, user) {
                let k = pre.entry_index(room, user);
                assert(k != i);
                assert(fp_key_is(self.entries_view()[k], room, user));
                self.lemma_recorded_at(k);
                pre.lemma_recorded_at(k);
            } else {
                if self.has_entry(room, user) {
                    let k = self.entry_index(room, user);
                    assert(fp_key_is(self.entries_view()[k], room, user));
                    assert(k != i);
                    assert(fp_key_is(pre.entries_view()[k], room, user));
                }
            }
        }
    }

    /// After removing index `i` of `pre`, the record at its key is gone and
    /// every other key records as before.
    proof fn lemma_fp_frame_remove(self, pre: Self, i: int)
        requires
            pre.wf(),
            0 <= i < pre.entries_view().len(),
            self.entries_view() == pre.entries_view().remove(i),
        ensures
            self.wf(),
            self.recorded(pre.entries_view()[i].room_id, pre.entries_view()[i].user_id)
                is None,
            forall|room: Seq<char>, user: Seq<char>|
                !(room == pre.entries_view()[i].room_id && user == pre.entries_view()[i].user_id)
                    ==> #[trigger] self.recorded(room, user) == pre.recorded(room, user),
    {
        let pv = pre.entries_view();
        let sv = self.entries_view();
        assert(sv.len() == pv.len() - 1);
        assert forall|a: int| 0 <= a < sv.len() implies sv[a] == pv[if a < i {
            a
        } else {
            a + 1
        }] by {
            if a < i {
                assert(sv[a] == pv[a]);
            } else {
                assert(sv[a] == pv[a + 1]);
            }
        }
        assert forall|a: int, b: int|
            #![trigger sv[a], sv[b]]
            0 <= a < b < sv.len() implies !fp_key_is(sv[a], sv[b].room_id, sv[b].user_id) by {
            let a0 = if a < i { a } else { a + 1 };
            let b0 = if b < i { b } else { b + 1 };
            assert(!fp_key_is(pv[a0], pv[b0].room_id, pv[b0].user_id));
        }
        let room0 = pv[i].room_id;
        let user0 = pv[i].user_id;
        if self.has_entry(room0, user0) {
            let k = self.entry_index(room0, user0);
            let k0 = if k < i { k } else { k + 1 };
            assert(fp_key_is(pv[k0], room0, user0));
            pre.lemma_recorded_at(k0);
            pre.lemma_recorded_at(i);
            assert(false);
        }
        assert forall|room: Seq<char>, user: Seq<char>|
            !(room == room0 && user == user0) implies #[trigger] self.recorded(room, user)
            == pre.recorded(room, user) by {
            if pre.has_entry(room, user) {
                let k = pre.entry_index(room, user);
                assert(fp_key_is(pv[k], room, user));
                assert(k != i);
                let k1 = if k < i { k } else { k - 1 };
                assert(sv[k1] == pv[k]);
                assert(fp_key_is(sv[k1], room, user));
                self.lemma_recorded_at(k1);
                pre.lemma_recorded_at(k);
            } else {
                if self.has_entry(room, user) {
                    let k = self.entry_index(room, user);
                    let k0 = if k < i { k } else { k + 1 };
                    assert(fp_key_is(pv[k0], room, user));
                }
            }
        }
    }
}

} // verus!
