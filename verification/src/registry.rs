//! The group registry: which sessions are in which room. A room exists
//! exactly as long as it has members.
//!
//! Rooms are kept in a list, as the members of a room are: the list is read
//! as a map from room identifier to members, and no room occurs twice.

use vstd::prelude::*;
use crate::group_voice_session::{
    after_delivery,
    after_take,
    fresh_member,
    passed_over,
    GroupVoiceSession,
    MemberView,
};
use crate::keyed::{
    as_map,
    distinct_keys,
    has_key,
    lemma_absent_key,
    lemma_empty_is_empty,
    lemma_item_is_mapped,
    lemma_map_is_finite,
    lemma_push_inserts,
    lemma_remove_removes,
    lemma_update_replaces,
};

verus! {

/// Why a session could not join a room.
#[derive(Clone, Copy, Debug, PartialEq, Eq, Structural)]
pub enum RegistryError {
    /// Another member of the room already sends under this SSRC.
    SsrcCollision,
}

/// What a session holds of its membership: the room and the SSRC.
#[derive(Clone, Copy, Debug, PartialEq, Eq, Structural)]
pub struct GroupHandle {
    pub room_id: u32,
    pub ssrc: u32,
}

/// Whether the SSRC is taken in the room.
pub open spec fn is_member(reg: Map<u32, Map<u32, MemberView>>, room_id: u32, ssrc: u32) -> bool {
    reg.contains_key(room_id) && reg[room_id].contains_key(ssrc)
}

/// The members of a room; none if there is no such room.
pub open spec fn room_or_empty(reg: Map<u32, Map<u32, MemberView>>, room_id: u32) -> Map<
    u32,
    MemberView,
> {
    if reg.contains_key(room_id) {
        reg[room_id]
    } else {
        Map::empty()
    }
}

/// The registry with the room set to `members`, or without the room if
/// `members` is empty.
pub open spec fn with_room(
    reg: Map<u32, Map<u32, MemberView>>,
    room_id: u32,
    members: Map<u32, MemberView>,
) -> Map<u32, Map<u32, MemberView>> {
    if members == Map::<u32, MemberView>::empty() {
        reg.remove(room_id)
    } else {
        reg.insert(room_id, members)
    }
}

/// The registry after `owner` has joined the room under a free SSRC.
pub open spec fn after_join(
    reg: Map<u32, Map<u32, MemberView>>,
    room_id: u32,
    ssrc: u32,
    owner: u64,
) -> Map<u32, Map<u32, MemberView>> {
    reg.insert(room_id, room_or_empty(reg, room_id).insert(ssrc, fresh_member(owner)))
}

/// The registry after the SSRC has left the room.
pub open spec fn after_leave(reg: Map<u32, Map<u32, MemberView>>, room_id: u32, ssrc: u32) -> Map<
    u32,
    Map<u32, MemberView>,
> {
    if is_member(reg, room_id, ssrc) {
        with_room(reg, room_id, reg[room_id].remove(ssrc))
    } else {
        reg
    }
}

/// Whether the SSRC is taken in the room, and by this session.
pub open spec fn held_by(
    reg: Map<u32, Map<u32, MemberView>>,
    owner: u64,
    room_id: u32,
    ssrc: u32,
) -> bool {
    is_member(reg, room_id, ssrc) && reg[room_id][ssrc].owner == owner
}

/// The registry after session `owner` has given up the SSRC in the room:
/// as after leaving, if the membership is that session's; unchanged if it is
/// another's or there is none.
pub open spec fn after_leave_owned(
    reg: Map<u32, Map<u32, MemberView>>,
    room_id: u32,
    ssrc: u32,
    owner: u64,
) -> Map<u32, Map<u32, MemberView>> {
    if held_by(reg, owner, room_id, ssrc) {
        after_leave(reg, room_id, ssrc)
    } else {
        reg
    }
}

/// The SSRCs that a broadcast by session `sender` under `source` in the
/// room is addressed to: every member of the room but the one under the
/// sending SSRC and those of the sending session.
pub open spec fn broadcast_targets(
    reg: Map<u32, Map<u32, MemberView>>,
    room_id: u32,
    source: u32,
    sender: u64,
) -> Set<u32> {
    Set::new(
        |x: u32|
            is_member(reg, room_id, x) && !passed_over(x, reg[room_id][x], source, sender),
    )
}

/// The registry after session `sender` has sent `pcm` to its room under
/// `source`.
pub open spec fn after_broadcast(
    reg: Map<u32, Map<u32, MemberView>>,
    room_id: u32,
    source: u32,
    sender: u64,
    pcm: Seq<i16>,
    capacity: usize,
    eject_after: u32,
) -> Map<u32, Map<u32, MemberView>> {
    if reg.contains_key(room_id) {
        with_room(
            reg,
            room_id,
            after_delivery(reg[room_id], source, sender, pcm, capacity, eject_after),
        )
    } else {
        reg
    }
}

/// Reads a group's key: its room.
pub open spec fn by_room() -> spec_fn(GroupVoiceSession) -> u32 {
    |g: GroupVoiceSession| g.room_of()
}

/// Reads a group's value: its members by SSRC.
pub open spec fn group_view() -> spec_fn(GroupVoiceSession) -> Map<u32, MemberView> {
    |g: GroupVoiceSession| g@
}

/// All rooms and their members.
pub struct GroupRegistry {
    groups: Vec<GroupVoiceSession>,
    sink_capacity: usize,
    eject_after: u32,
}

impl View for GroupRegistry {
    type V = Map<u32, Map<u32, MemberView>>;

    /// Room identifier to members by SSRC.
    closed spec fn view(&self) -> Map<u32, Map<u32, MemberView>> {
        as_map(self.groups@, by_room(), group_view())
    }
}

impl GroupRegistry {
    /// No room occurs twice, within a room no SSRC occurs twice, and no room
    /// is empty.
    pub closed spec fn wf(&self) -> bool {
        &&& distinct_keys(self.groups@, by_room())
        &&& forall|i: int| 0 <= i < self.groups@.len() ==> (#[trigger] self.groups@[i]).wf()
        &&& forall|i: int|
            0 <= i < self.groups@.len() ==> (#[trigger] self.groups@[i])@ != Map::<
                u32,
                MemberView,
            >::empty()
    }

    /// PCM blocks that each member's buffer holds.
    pub closed spec fn capacity(&self) -> usize {
        self.sink_capacity
    }

    /// Refusals in a row after which a member is dropped.
    pub closed spec fn eject_threshold(&self) -> u32 {
        self.eject_after
    }

    /// No room of the registry is empty.
    pub proof fn lemma_rooms_have_members(&self, room_id: u32)
        requires
            self.wf(),
            self@.contains_key(room_id),
        ensures
            self@[room_id] != Map::<u32, MemberView>::empty(),
    {
        let i = crate::keyed::place_of(self.groups@, by_room(), room_id);
        lemma_item_is_mapped(self.groups@, by_room(), group_view(), i);
    }

    /// A registry without rooms, whose members will each buffer up to
    /// `sink_capacity` PCM blocks and be dropped after `eject_after`
    /// refusals in a row. A member is dropped only on a refusal, so a
    /// threshold of 0 does what 1 does: the first refusal drops.
    pub fn new(sink_capacity: usize, eject_after: u32) -> (r: GroupRegistry)
        ensures
            r.wf(),
            r@ == Map::<u32, Map<u32, MemberView>>::empty(),
            r.capacity() == sink_capacity,
            r.eject_threshold() == eject_after,
    {
        let r = GroupRegistry { groups: Vec::new(), sink_capacity, eject_after };
        proof {
            lemma_empty_is_empty(by_room(), group_view());
            assert(r.groups@ =~= Seq::<GroupVoiceSession>::empty());
        }
        r
    }

    /// Where the room stands in the list.
    fn position(&self, room_id: u32) -> (at: Option<usize>)
        requires
            self.wf(),
        ensures
            match at {
                Some(i) => i < self.groups@.len() && self.groups@[i as int].room_of() == room_id
                    && self@.contains_key(room_id) && self@[room_id] == self.groups@[i as int]@,
                None => !self@.contains_key(room_id) && !has_key(self.groups@, by_room(), room_id),
            },
    {
        let mut i: usize = 0;
        while i < self.groups.len()
            invariant
                self.wf(),
                i <= self.groups@.len(),
                forall|j: int| 0 <= j < i ==> (#[trigger] self.groups@[j]).room_of() != room_id,
            decreases self.groups@.len() - i,
        {
            if self.groups[i].room_id() == room_id {
                proof {
                    lemma_item_is_mapped(self.groups@, by_room(), group_view(), i as int);
                }
                return Some(i);
            }
            i += 1;
        }
        proof {
            lemma_absent_key(self.groups@, by_room(), group_view(), room_id);
            assert forall|j: int| 0 <= j < self.groups@.len() implies #[trigger] by_room()(
                self.groups@[j],
            ) != room_id by {
                assert(self.groups@[j].room_of() != room_id);
            }
        }
        None
    }

    /// Number of rooms.
    pub fn room_count(&self) -> (n: usize)
        requires
            self.wf(),
        ensures
            n == self@.dom().len(),
    {
        proof {
            lemma_map_is_finite(self.groups@, by_room(), group_view());
        }
        self.groups.len()
    }

    /// Number of members of a room; zero if there is no such room.
    pub fn member_count(&self, room_id: u32) -> (n: usize)
        requires
            self.wf(),
        ensures
            n == room_or_empty(self@, room_id).dom().len(),
    {
        match self.position(room_id) {
            Some(i) => self.groups[i].len(),
            None => {
                assert(Map::<u32, MemberView>::empty().dom() =~= Set::<u32>::empty());
                0
            },
        }
    }

    /// Whether the SSRC is taken in the room.
    pub fn contains(&self, room_id: u32, ssrc: u32) -> (found: bool)
        requires
            self.wf(),
        ensures
            found == is_member(self@, room_id, ssrc),
    {
        match self.position(room_id) {
            Some(i) => self.groups[i].contains(ssrc),
            None => false,
        }
    }

    /// The session that joined the room under this SSRC, if any did.
    pub fn owner_of(&self, room_id: u32, ssrc: u32) -> (owner: Option<u64>)
        requires
            self.wf(),
        ensures
            match owner {
                Some(o) => is_member(self@, room_id, ssrc) && self@[room_id][ssrc].owner == o,
                None => !is_member(self@, room_id, ssrc),
            },
    {
        match self.position(room_id) {
            Some(i) => self.groups[i].owner_of(ssrc),
            None => None,
        }
    }

    /// Enters `owner` into the room under `ssrc`, creating the room if it
    /// is not there. Fails with `SsrcCollision`, and changes nothing, if the
    /// SSRC is taken in that room.
    pub fn join(&mut self, room_id: u32, ssrc: u32, owner: u64) -> (r: Result<
        GroupHandle,
        RegistryError,
    >)
        requires
            old(self).wf(),
        ensures
            final(self).wf(),
            final(self).capacity() == old(self).capacity(),
            final(self).eject_threshold() == old(self).eject_threshold(),
            is_member(old(self)@, room_id, ssrc) ==> r == Err::<GroupHandle, RegistryError>(
                RegistryError::SsrcCollision,
            ) && final(self)@ == old(self)@,
            !is_member(old(self)@, room_id, ssrc) ==> r == Ok::<GroupHandle, RegistryError>(
                GroupHandle { room_id, ssrc },
            ) && final(self)@ == after_join(old(self)@, room_id, ssrc, owner),
    {
        match self.position(room_id) {
            Some(i) => {
                let ghost before = self.groups@;
                let added = self.groups[i].add(ssrc, owner);
                proof {
                    assert(self.groups@ == before.update(i as int, self.groups@[i as int]));
                    lemma_update_replaces(
                        before,
                        by_room(),
                        group_view(),
                        i as int,
                        self.groups@[i as int],
                    );
                    if added {
                        assert(self.groups@[i as int]@.contains_key(ssrc));
                    } else {
                        assert(self@ =~= old(self)@);
                    }
                }
                if added {
                    Ok(GroupHandle { room_id, ssrc })
                } else {
                    Err(RegistryError::SsrcCollision)
                }
            },
            None => {
                let mut g = GroupVoiceSession::new(room_id);
                g.add(ssrc, owner);
                proof {
                    lemma_push_inserts(self.groups@, by_room(), group_view(), g);
                    assert(g@.contains_key(ssrc));
                }
                self.groups.push(g);
                Ok(GroupHandle { room_id, ssrc })
            },
        }
    }

    /// Takes the SSRC out of the room, and the room out of the registry if
    /// that was its last member. Does nothing if the SSRC is not in the room.
    pub fn leave(&mut self, room_id: u32, ssrc: u32)
        requires
            old(self).wf(),
        ensures
            final(self).wf(),
            final(self).capacity() == old(self).capacity(),
            final(self).eject_threshold() == old(self).eject_threshold(),
            final(self)@ == after_leave(old(self)@, room_id, ssrc),
    {
        match self.position(room_id) {
            Some(i) => {
                let ghost before = self.groups@;
                self.groups[i].remove(ssrc);
                let ghost changed = self.groups@;
                proof {
                    assert(changed == before.update(i as int, changed[i as int]));
                    lemma_update_replaces(
                        before,
                        by_room(),
                        group_view(),
                        i as int,
                        changed[i as int],
                    );
                    if !old(self)@[room_id].contains_key(ssrc) {
                        assert(changed[i as int]@ =~= old(self)@[room_id]);
                        assert(self@ =~= old(self)@);
                    }
                }
                if self.groups[i].is_empty() {
                    proof {
                        lemma_remove_removes(changed, by_room(), group_view(), i as int);
                        assert(old(self)@.insert(room_id, changed[i as int]@).remove(room_id)
                            =~= old(self)@.remove(room_id));
                    }
                    self.groups.remove(i);
                }
            },
            None => {},
        }
    }

    /// Gives up the SSRC in the room in the name of session `owner`. Does
    /// nothing if the membership is another session's or there is none.
    pub fn leave_owned(&mut self, room_id: u32, ssrc: u32, owner: u64)
        requires
            old(self).wf(),
        ensures
            final(self).wf(),
            final(self).capacity() == old(self).capacity(),
            final(self).eject_threshold() == old(self).eject_threshold(),
            final(self)@ == after_leave_owned(old(self)@, room_id, ssrc, owner),
    {
        let mine = match self.owner_of(room_id, ssrc) {
            Some(o) => o == owner,
            None => false,
        };
        if mine {
            self.leave(room_id, ssrc);
        }
    }

    /// Hands `pcm`, sent by session `sender` under `source_ssrc`, to every
    /// member of the room that belongs to another session. A member whose
    /// buffer is full misses this PCM and has the miss counted; after enough
    /// misses in a row it is dropped from the room. The sending session
    /// never gets its own PCM, under whatever SSRC it is a member.
    pub fn broadcast(&mut self, room_id: u32, source_ssrc: u32, sender: u64, pcm: &Vec<i16>)
        requires
            old(self).wf(),
        ensures
            final(self).wf(),
            final(self).capacity() == old(self).capacity(),
            final(self).eject_threshold() == old(self).eject_threshold(),
            final(self)@ == after_broadcast(
                old(self)@,
                room_id,
                source_ssrc,
                sender,
                pcm@,
                old(self).capacity(),
                old(self).eject_threshold(),
            ),
            forall|x: u32| #[trigger]
                is_member(old(self)@, room_id, x) && passed_over(
                    x,
                    old(self)@[room_id][x],
                    source_ssrc,
                    sender,
                ) ==> is_member(final(self)@, room_id, x) && final(self)@[room_id][x] == old(
                    self,
                )@[room_id][x],
    {
        match self.position(room_id) {
            Some(i) => {
                let ghost before = self.groups@;
                let capacity = self.sink_capacity;
                let eject_after = self.eject_after;
                self.groups[i].deliver(source_ssrc, sender, pcm, capacity, eject_after);
                let ghost changed = self.groups@;
                proof {
                    assert(changed == before.update(i as int, changed[i as int]));
                    lemma_update_replaces(
                        before,
                        by_room(),
                        group_view(),
                        i as int,
                        changed[i as int],
                    );
                    assert forall|x: u32| #[trigger]
                        is_member(old(self)@, room_id, x) && passed_over(
                            x,
                            old(self)@[room_id][x],
                            source_ssrc,
                            sender,
                        ) implies changed[i as int]@.contains_key(x) && changed[i as int]@[x]
                        == old(self)@[room_id][x] by {}
                }
                if self.groups[i].is_empty() {
                    proof {
                        lemma_remove_removes(changed, by_room(), group_view(), i as int);
                        assert(old(self)@.insert(room_id, changed[i as int]@).remove(room_id)
                            =~= old(self)@.remove(room_id));
                    }
                    self.groups.remove(i);
                }
            },
            None => {},
        }
    }

    /// Takes the oldest PCM waiting for a member of session `owner`, if the
    /// membership is that session's and there is any.
    pub fn take_owned(&mut self, room_id: u32, ssrc: u32, owner: u64) -> (pcm: Option<Vec<i16>>)
        requires
            old(self).wf(),
        ensures
            final(self).wf(),
            final(self).capacity() == old(self).capacity(),
            final(self).eject_threshold() == old(self).eject_threshold(),
            match pcm {
                Some(p) => held_by(old(self)@, owner, room_id, ssrc) && old(
                    self,
                )@[room_id][ssrc].queue.len() > 0 && p@ == old(self)@[room_id][ssrc].queue[0]
                    && final(self)@ == old(self)@.insert(
                    room_id,
                    old(self)@[room_id].insert(ssrc, after_take(old(self)@[room_id][ssrc])),
                ),
                None => (!held_by(old(self)@, owner, room_id, ssrc) || old(
                    self,
                )@[room_id][ssrc].queue.len() == 0) && final(self)@ == old(self)@,
            },
    {
        let mine = match self.owner_of(room_id, ssrc) {
            Some(o) => o == owner,
            None => false,
        };
        if mine {
            self.take(room_id, ssrc)
        } else {
            None
        }
    }

    /// Takes the oldest PCM waiting for a member, if there is any.
    pub fn take(&mut self, room_id: u32, ssrc: u32) -> (pcm: Option<Vec<i16>>)
        requires
            old(self).wf(),
        ensures
            final(self).wf(),
            final(self).capacity() == old(self).capacity(),
            final(self).eject_threshold() == old(self).eject_threshold(),
            match pcm {
                Some(p) => is_member(old(self)@, room_id, ssrc) && old(
                    self,
                )@[room_id][ssrc].queue.len() > 0 && p@ == old(self)@[room_id][ssrc].queue[0]
                    && final(self)@ == old(self)@.insert(
                    room_id,
                    old(self)@[room_id].insert(ssrc, after_take(old(self)@[room_id][ssrc])),
                ),
                None => (!is_member(old(self)@, room_id, ssrc) || old(
                    self,
                )@[room_id][ssrc].queue.len() == 0) && final(self)@ == old(self)@,
            },
    {
        match self.position(room_id) {
            Some(i) => {
                let ghost before = self.groups@;
                let pcm = self.groups[i].take(ssrc);
                proof {
                    assert(self.groups@ == before.update(i as int, self.groups@[i as int]));
                    lemma_update_replaces(
                        before,
                        by_room(),
                        group_view(),
                        i as int,
                        self.groups@[i as int],
                    );
                    if pcm is None {
                        assert(self@ =~= old(self)@);
                    } else {
                        assert(self.groups@[i as int]@.contains_key(ssrc));
                    }
                }
                pcm
            },
            None => None,
        }
    }
}

} // verus!
