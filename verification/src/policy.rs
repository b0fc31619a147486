//! The room-policy oracle: room visibility and the delegated capability
//! check for sender-driven transitions.
//!
//! Power-level and room-creation data live outside this library; the engine
//! only consumes the oracle's answers. The oracle is modelled as an
//! explicit, constructor-injected table: rooms registered with their
//! visibility, and capability grants of the form "this sender may request
//! this membership kind in this room". A room never registered is treated
//! as private, and an ungranted capability is refused.

use vstd::prelude::*;

use crate::membership::Membership;

verus! {

/// Whether a room admits any joiner or only invited users.
#[derive(Clone, Copy, Debug, PartialEq, Eq, Structural)]
pub enum RoomVisibility {
    Public,
    Private,
}

/// A registered room together with its visibility.
#[derive(Clone, Debug)]
pub struct Room {
    pub room_id: String,
    pub visibility: RoomVisibility,
}

/// A capability grant: `sender` may request `membership` in `room_id`.
#[derive(Clone, Debug)]
pub struct Grant {
    pub sender: String,
    pub membership: Membership,
    pub room_id: String,
}

/// The mathematical image of a registered room.
pub struct RoomView {
    pub room_id: Seq<char>,
    pub visibility: RoomVisibility,
}

/// The mathematical image of a capability grant.
pub struct GrantView {
    pub sender: Seq<char>,
    pub membership: Membership,
    pub room_id: Seq<char>,
}

impl View for Room {
    type V = RoomView;

    open spec fn view(&self) -> RoomView {
        RoomView { room_id: self.room_id@, visibility: self.visibility }
    }
}

impl View for Grant {
    type V = GrantView;

    open spec fn view(&self) -> GrantView {
        GrantView { sender: self.sender@, membership: self.membership, room_id: self.room_id@ }
    }
}

/// The injected policy table the engine consults.
pub struct RoomPolicy {
    rooms: Vec<Room>,
    grants: Vec<Grant>,
}

impl RoomPolicy {
    /// Every registered room.
    pub closed spec fn rooms_view(self) -> Seq<RoomView> {
        self.rooms@.map_values(|r: Room| r@)
    }

    /// Every capability grant.
    pub closed spec fn grants_view(self) -> Seq<GrantView> {
        self.grants@.map_values(|g: Grant| g@)
    }

    /// Whether `room` is registered as public.
    pub open spec fn is_public(self, room: Seq<char>) -> bool {
        exists|i: int|
            0 <= i < self.rooms_view().len() && (#[trigger] self.rooms_view()[i]).room_id == room
                && self.rooms_view()[i].visibility == RoomVisibility::Public
    }

    /// The visibility the oracle reports for `room`: public only when
    /// registered so, private otherwise.
    pub open spec fn visibility_of(self, room: Seq<char>) -> RoomVisibility {
        if self.is_public(room) {
            RoomVisibility::Public
        } else {
            RoomVisibility::Private
        }
    }

    /// Whether the oracle grants `sender` the capability to request
    /// `membership` in `room`.
    pub open spec fn sender_may(self, sender: Seq<char>, membership: Membership, room: Seq<char>) -> bool {
        exists|i: int|
            0 <= i < self.grants_view().len() && (#[trigger] self.grants_view()[i]).sender == sender
                && self.grants_view()[i].membership == membership
                && self.grants_view()[i].room_id == room
    }

    /// An empty policy: every room private, every capability refused.
    pub fn new() -> (p: Self)
        ensures
            forall|room: Seq<char>| !(#[trigger] p.is_public(room)),
            forall|sender: Seq<char>, membership: Membership, room: Seq<char>|
                !(#[trigger] p.sender_may(sender, membership, room)),
    {
        let p = RoomPolicy { rooms: Vec::new(), grants: Vec::new() };
        proof {
            assert(p.rooms_view() =~= Seq::<RoomView>::empty());
            assert(p.grants_view() =~= Seq::<GrantView>::empty());
        }
        p
    }

    /// Registers a room with its visibility. Registration is append-only; a
    /// room is registered once, when it is created.
    pub fn add_room(&mut self, room_id: String, visibility: RoomVisibility)
        ensures
            final(self).is_public(room_id@) == (old(self).is_public(room_id@) || visibility
                == RoomVisibility::Public),
            forall|room: Seq<char>|
                room != room_id@ ==> #[trigger] final(self).is_public(room) == old(self).is_public(
                    room,
                ),
            final(self).grants_view() == old(self).grants_view(),
    {
        let ghost room = room_id@;
        let ghost pre = *self;
        self.rooms.push(Room { room_id, visibility });
        proof {
            let last = pre.rooms_view().len() as int;
            assert(self.rooms_view() =~= pre.rooms_view().push(self.rooms@[last]@));
            assert(self.rooms_view()[last].room_id == room);
            assert(self.rooms_view()[last].visibility == visibility);
            assert forall|r: Seq<char>| #[trigger] self.is_public(r) implies (pre.is_public(r) || (r
                == room && visibility == RoomVisibility::Public)) by {
                let i = choose|i: int|
                    0 <= i < self.rooms_view().len() && (#[trigger] self.rooms_view()[i]).room_id
                        == r && self.rooms_view()[i].visibility == RoomVisibility::Public;
                if i < last {
                    assert(pre.rooms_view()[i] == self.rooms_view()[i]);
                    assert(pre.is_public(r));
                }
            }
            assert forall|r: Seq<char>| pre.is_public(r) implies #[trigger] self.is_public(r) by {
                let i = choose|i: int|
                    0 <= i < pre.rooms_view().len() && (#[trigger] pre.rooms_view()[i]).room_id == r
                        && pre.rooms_view()[i].visibility == RoomVisibility::Public;
                assert(self.rooms_view()[i] == pre.rooms_view()[i]);
            }
            if visibility == RoomVisibility::Public {
                assert(self.is_public(room));
            }
            assert(self.grants_view() =~= pre.grants_view());
        }
    }

    /// Grants `sender` the capability to request `membership` in `room_id`.
    pub fn grant(&mut self, sender: String, membership: Membership, room_id: String)
        ensures
            final(self).sender_may(sender@, membership, room_id@),
            forall|s: Seq<char>, m: Membership, room: Seq<char>|
                !(s == sender@ && m == membership && room == room_id@)
                    ==> #[trigger] final(self).sender_may(s, m, room) == old(self).sender_may(
                    s,
                    m,
                    room,
                ),
            final(self).rooms_view() == old(self).rooms_view(),
    {
        let ghost s0 = sender@;
        let ghost r0 = room_id@;
        let ghost pre = *self;
        self.grants.push(Grant { sender, membership, room_id });
        proof {
            let last = pre.grants_view().len() as int;
            assert(self.grants_view() =~= pre.grants_view().push(self.grants@[last]@));
            assert(self.grants_view()[last].sender == s0);
            assert(self.grants_view()[last].membership == membership);
            assert(self.grants_view()[last].room_id == r0);
            assert(self.sender_may(s0, membership, r0));
            assert forall|s: Seq<char>, m: Membership, room: Seq<char>|
                !(s == s0 && m == membership && room == r0) implies #[trigger] self.sender_may(
                s,
                m,
                room,
            ) == pre.sender_may(s, m, room) by {
                if self.sender_may(s, m, room) {
                    let i = choose|i: int|
                        0 <= i < self.grants_view().len() && (#[trigger] self.grants_view()[i]).sender
                            == s && self.grants_view()[i].membership == m
                            && self.grants_view()[i].room_id == room;
                    assert(i != last);
                    assert(pre.grants_view()[i] == self.grants_view()[i]);
                    assert(pre.sender_may(s, m, room));
                }
                if pre.sender_may(s, m, room) {
                    let i = choose|i: int|
                        0 <= i < pre.grants_view().len() && (#[trigger] pre.grants_view()[i]).sender
                            == s && pre.grants_view()[i].membership == m
                            && pre.grants_view()[i].room_id == room;
                    assert(self.grants_view()[i] == pre.grants_view()[i]);
                    assert(self.sender_may(s, m, room));
                }
            }
            assert(self.rooms_view() =~= pre.rooms_view());
        }
    }

    /// The oracle's visibility answer for `room_id`.
    pub fn visibility(&self, room_id: &String) -> (v: RoomVisibility)
        ensures
            v == self.visibility_of(room_id@),
    {
        let n = self.rooms.len();
        for i in 0..n
            invariant
                n == self.rooms.len(),
                forall|j: int|
                    0 <= j < i ==> !((#[trigger] self.rooms_view()[j]).room_id == room_id@
                        && self.rooms_view()[j].visibility == RoomVisibility::Public),
        {
            if self.rooms[i].room_id == *room_id && self.rooms[i].visibility
                == RoomVisibility::Public {
                proof {
                    assert((#[trigger] self.rooms_view()[i as int]).room_id == room_id@
                        && self.rooms_view()[i as int].visibility == RoomVisibility::Public);
                }
                return RoomVisibility::Public;
            }
        }
        RoomVisibility::Private
    }

    /// The oracle's capability answer: may `sender` request `membership` in
    /// `room_id`?
    pub fn may(&self, sender: &String, membership: Membership, room_id: &String) -> (r: bool)
        ensures
            r == self.sender_may(sender@, membership, room_id@),
    {
        let n = self.grants.len();
        for i in 0..n
            invariant
                n == self.grants.len(),
                forall|j: int|
                    0 <= j < i ==> !((#[trigger] self.grants_view()[j]).sender == sender@
                        && self.grants_view()[j].membership == membership
                        && self.grants_view()[j].room_id == room_id@),
        {
            if self.grants[i].sender == *sender && self.grants[i].membership == membership
                && self.grants[i].room_id == *room_id {
                proof {
                    assert((#[trigger] self.grants_view()[i as int]).sender == sender@
                        && self.grants_view()[i as int].membership == membership
                        && self.grants_view()[i as int].room_id == room_id@);
                }
                return true;
            }
        }
        false
    }
}

} // verus!
