//! A group voice session is the set of members that share one room. Each
//! member is known by the SSRC it sends under and owns a bounded buffer of
//! PCM that the others have sent; a member whose buffer stays full is
//! dropped from the group.
//!
//! The members are kept in a list and not in a hash map, because every
//! delivery walks all of them, changes each where it stands and drops some
//! on the way. The order in which a hash map is walked is not fixed; over
//! the positions of a list the walk is the same every time. The list is
//! read as a map from SSRC to member, and no SSRC occurs twice.

use vstd::prelude::*;
use crate::codec::copy_samples;
use crate::keyed::{
    as_map,
    distinct_keys,
    has_key,
    lemma_absent_key,
    lemma_empty_is_empty,
    lemma_item_is_mapped,
    lemma_map_is_finite,
    lemma_push_inserts,
    lemma_remove_removes,
    lemma_update_replaces,
};

verus! {

/// One member of a group as a mathematical value.
pub struct MemberView {
    /// The session that joined under this SSRC.
    pub owner: u64,
    /// PCM waiting to be taken, oldest first.
    pub queue: Seq<Seq<i16>>,
    /// Deliveries refused so far because the buffer was full.
    pub dropped: u64,
    /// Deliveries refused in a row.
    pub strikes: u32,
}

/// One member of a group: the buffer of PCM addressed to it, and its
/// delivery counters.
pub struct GroupVoiceSessionMember {
    ssrc: u32,
    owner: u64,
    packet_buffer: Vec<Vec<i16>>,
    dropped: u64,
    strikes: u32,
}

/// A member that has just joined.
pub open spec fn fresh_member(owner: u64) -> MemberView {
    MemberView { owner, queue: Seq::empty(), dropped: 0, strikes: 0 }
}

/// A member after one delivery attempt: with room in the buffer the PCM is
/// queued behind what is there and the run of refusals ends; with none the
/// PCM is dropped and counted.
pub open spec fn after_offer(m: MemberView, capacity: usize, pcm: Seq<i16>) -> MemberView {
    if m.queue.len() < capacity {
        MemberView { queue: m.queue.push(pcm), strikes: 0, ..m }
    } else {
        MemberView {
            dropped: if m.dropped == u64::MAX {
                m.dropped
            } else {
                (m.dropped + 1) as u64
            },
            strikes: if m.strikes == u32::MAX {
                m.strikes
            } else {
                (m.strikes + 1) as u32
            },
            ..m
        }
    }
}

/// A member after its oldest PCM was taken.
pub open spec fn after_take(m: MemberView) -> MemberView {
    if m.queue.len() > 0 {
        MemberView { queue: m.queue.drop_first(), ..m }
    } else {
        m
    }
}

/// Whether a delivery passes a member over: the member under the sending
/// SSRC, and every member that belongs to the sending session.
pub open spec fn passed_over(ssrc: u32, member: MemberView, source: u32, sender: u64) -> bool {
    ssrc == source || member.owner == sender
}

/// Whether a member is dropped after a delivery attempt: it was refused,
/// and has now been refused `eject_after` times in a row. A member that took
/// the delivery is never dropped; a threshold of 0 counts as 1.
pub open spec fn struck_out(after: MemberView, eject_after: u32) -> bool {
    after.strikes > 0 && after.strikes >= eject_after
}

/// The group after session `sender` has sent `pcm` under `source`: every
/// member that is not passed over has had one delivery attempt, and whoever
/// is struck out by it is gone. The sender's own members are left as they
/// were.
pub open spec fn after_delivery(
    group: Map<u32, MemberView>,
    source: u32,
    sender: u64,
    pcm: Seq<i16>,
    capacity: usize,
    eject_after: u32,
) -> Map<u32, MemberView> {
    Map::new(
        |s: u32|
            group.contains_key(s) && (passed_over(s, group[s], source, sender) || !struck_out(
                after_offer(group[s], capacity, pcm),
                eject_after,
            )),
        |s: u32|
            if passed_over(s, group[s], source, sender) {
                group[s]
            } else {
                after_offer(group[s], capacity, pcm)
            },
    )
}

impl View for GroupVoiceSessionMember {
    type V = MemberView;

    closed spec fn view(&self) -> MemberView {
        MemberView {
            owner: self.owner,
            queue: Seq::new(self.packet_buffer@.len(), |i: int| self.packet_buffer@[i]@),
            dropped: self.dropped,
            strikes: self.strikes,
        }
    }
}

impl GroupVoiceSessionMember {
    /// The SSRC that the member sends under.
    pub closed spec fn ssrc_of(&self) -> u32 {
        self.ssrc
    }

    /// A member with an empty buffer.
    pub fn new(ssrc: u32, owner: u64) -> (m: GroupVoiceSessionMember)
        ensures
            m.ssrc_of() == ssrc,
            m@ == fresh_member(owner),
    {
        let m = GroupVoiceSessionMember {
            ssrc,
            owner,
            packet_buffer: Vec::new(),
            dropped: 0,
            strikes: 0,
        };
        assert(m@.queue =~= Seq::<Seq<i16>>::empty());
        m
    }

    /// The SSRC that the member sends under.
    pub fn ssrc(&self) -> (s: u32)
        ensures
            s == self.ssrc_of(),
    {
        self.ssrc
    }

    /// The session that joined under this SSRC.
    pub fn owner(&self) -> (o: u64)
        ensures
            o == self@.owner,
    {
        self.owner
    }

    /// Number of PCM blocks waiting.
    pub fn pending(&self) -> (n: usize)
        ensures
            n == self@.queue.len(),
    {
        self.packet_buffer.len()
    }

    /// Deliveries refused so far.
    pub fn dropped(&self) -> (n: u64)
        ensures
            n == self@.dropped,
    {
        self.dropped
    }

    /// Deliveries refused in a row.
    pub fn strikes(&self) -> (n: u32)
        ensures
            n == self@.strikes,
    {
        self.strikes
    }

    /// Tries to deliver `pcm`; says whether it was queued.
    pub fn offer(&mut self, pcm: &Vec<i16>, capacity: usize) -> (queued: bool)
        ensures
            final(self).ssrc_of() == old(self).ssrc_of(),
            final(self)@ == after_offer(old(self)@, capacity, pcm@),
            queued == (old(self)@.queue.len() < capacity),
    {
        if self.packet_buffer.len() < capacity {
            let copy = copy_samples(pcm);
            self.packet_buffer.push(copy);
            self.strikes = 0;
            assert(self@.queue =~= old(self)@.queue.push(pcm@));
            true
        } else {
            if self.dropped < u64::MAX {
                self.dropped = self.dropped + 1;
            }
            if self.strikes < u32::MAX {
                self.strikes = self.strikes + 1;
            }
            assert(self@.queue =~= old(self)@.queue);
            false
        }
    }

    /// Takes the oldest PCM waiting, if any.
    pub fn take(&mut self) -> (pcm: Option<Vec<i16>>)
        ensures
            final(self).ssrc_of() == old(self).ssrc_of(),
            final(self)@ == after_take(old(self)@),
            match pcm {
                Some(p) => old(self)@.queue.len() > 0 && p@ == old(self)@.queue[0],
                None => old(self)@.queue.len() == 0,
            },
    {
        if self.packet_buffer.len() > 0 {
            let p = self.packet_buffer.remove(0);
            assert(self@.queue =~= old(self)@.queue.drop_first());
            Some(p)
        } else {
            None
        }
    }
}

/// The members of one room.
pub struct GroupVoiceSession {
    room_id: u32,
    /// Members grouped by SSRC.
    members: Vec<GroupVoiceSessionMember>,
}

/// Reads a member's key: its SSRC.
pub open spec fn by_ssrc() -> spec_fn(GroupVoiceSessionMember) -> u32 {
    |m: GroupVoiceSessionMember| m.ssrc_of()
}

/// Reads a member's value: its view.
pub open spec fn member_view() -> spec_fn(GroupVoiceSessionMember) -> MemberView {
    |m: GroupVoiceSessionMember| m@
}

impl View for GroupVoiceSession {
    type V = Map<u32, MemberView>;

    /// The members by SSRC.
    closed spec fn view(&self) -> Map<u32, MemberView> {
        as_map(self.members@, by_ssrc(), member_view())
    }
}

impl GroupVoiceSession {
    /// No SSRC occurs twice.
    pub closed spec fn wf(&self) -> bool {
        distinct_keys(self.members@, by_ssrc())
    }

    /// The room that the group stands for.
    pub closed spec fn room_of(&self) -> u32 {
        self.room_id
    }

    /// SSRCs are unique within a group, and a group has as many members as
    /// it has SSRCs.
    pub proof fn lemma_members_are_unique(&self)
        requires
            self.wf(),
        ensures
            self@.dom().finite(),
            self@.dom().len() == self.member_count(),
    {
        lemma_map_is_finite(self.members@, by_ssrc(), member_view());
    }

    /// Number of members.
    pub closed spec fn member_count(&self) -> nat {
        self.members@.len()
    }

    /// A group without members.
    pub fn new(room_id: u32) -> (g: GroupVoiceSession)
        ensures
            g.wf(),
            g.room_of() == room_id,
            g@ == Map::<u32, MemberView>::empty(),
    {
        let g = GroupVoiceSession { room_id, members: Vec::new() };
        proof {
            lemma_empty_is_empty(by_ssrc(), member_view());
            assert(g.members@ =~= Seq::<GroupVoiceSessionMember>::empty());
        }
        g
    }

    /// The room that the group stands for.
    pub fn room_id(&self) -> (r: u32)
        ensures
            r == self.room_of(),
    {
        self.room_id
    }

    /// Whether the group has no members.
    pub fn is_empty(&self) -> (e: bool)
        requires
            self.wf(),
        ensures
            e == (self@.dom() =~= Set::<u32>::empty()),
            e == (self@ == Map::<u32, MemberView>::empty()),
    {
        proof {
            if self.members@.len() > 0 {
                lemma_item_is_mapped(self.members@, by_ssrc(), member_view(), 0);
                assert(self@.dom().contains(self.members@[0].ssrc_of()));
            } else {
                lemma_empty_is_empty(by_ssrc(), member_view());
                assert(self.members@ =~= Seq::<GroupVoiceSessionMember>::empty());
            }
        }
        self.members.len() == 0
    }

    /// Number of members.
    pub fn len(&self) -> (n: usize)
        requires
            self.wf(),
        ensures
            n == self@.dom().len(),
    {
        proof {
            self.lemma_members_are_unique();
        }
        self.members.len()
    }

    /// Where the member with this SSRC stands in the list.
    fn position(&self, ssrc: u32) -> (at: Option<usize>)
        requires
            self.wf(),
        ensures
            match at {
                Some(i) => i < self.members@.len() && self.members@[i as int].ssrc_of() == ssrc
                    && self@.contains_key(ssrc) && self@[ssrc] == self.members@[i as int]@,
                None => !self@.contains_key(ssrc) && !has_key(self.members@, by_ssrc(), ssrc),
            },
    {
        let mut i: usize = 0;
        while i < self.members.len()
            invariant
                self.wf(),
                i <= self.members@.len(),
                forall|j: int| 0 <= j < i ==> (#[trigger] self.members@[j]).ssrc_of() != ssrc,
            decreases self.members@.len() - i,
        {
            if self.members[i].ssrc() == ssrc {
                proof {
                    lemma_item_is_mapped(self.members@, by_ssrc(), member_view(), i as int);
                }
                return Some(i);
            }
            i += 1;
        }
        proof {
            lemma_absent_key(self.members@, by_ssrc(), member_view(), ssrc);
            assert forall|j: int| 0 <= j < self.members@.len() implies #[trigger] by_ssrc()(
                self.members@[j],
            ) != ssrc by {
                assert(self.members@[j].ssrc_of() != ssrc);
            }
        }
        None
    }

    /// Whether some member sends under this SSRC.
    pub fn contains(&self, ssrc: u32) -> (found: bool)
        requires
            self.wf(),
        ensures
            found == self@.contains_key(ssrc),
    {
        self.position(ssrc).is_some()
    }

    /// The session that joined under this SSRC, if any did.
    pub fn owner_of(&self, ssrc: u32) -> (owner: Option<u64>)
        requires
            self.wf(),
        ensures
            match owner {
                Some(o) => self@.contains_key(ssrc) && self@[ssrc].owner == o,
                None => !self@.contains_key(ssrc),
            },
    {
        match self.position(ssrc) {
            Some(i) => Some(self.members[i].owner()),
            None => None,
        }
    }

    /// Adds a member under an SSRC that is not taken; says whether it did.
    pub fn add(&mut self, ssrc: u32, owner: u64) -> (added: bool)
        requires
            old(self).wf(),
        ensures
            final(self).wf(),
            final(self).room_of() == old(self).room_of(),
            added == !old(self)@.contains_key(ssrc),
            added ==> final(self)@ == old(self)@.insert(ssrc, fresh_member(owner)),
            !added ==> final(self)@ == old(self)@,
    {
        match self.position(ssrc) {
            Some(_) => false,
            None => {
                let m = GroupVoiceSessionMember::new(ssrc, owner);
                proof {
                    lemma_push_inserts(self.members@, by_ssrc(), member_view(), m);
                }
                self.members.push(m);
                true
            },
        }
    }

    /// Removes the member under this SSRC; says whether there was one.
    pub fn remove(&mut self, ssrc: u32) -> (removed: bool)
        requires
            old(self).wf(),
        ensures
            final(self).wf(),
            final(self).room_of() == old(self).room_of(),
            removed == old(self)@.contains_key(ssrc),
            final(self)@ == old(self)@.remove(ssrc),
    {
        match self.position(ssrc) {
            Some(i) => {
                proof {
                    lemma_remove_removes(self.members@, by_ssrc(), member_view(), i as int);
                }
                self.members.remove(i);
                true
            },
            None => {
                assert(self@.remove(ssrc) =~= self@);
                false
            },
        }
    }

    /// Takes the oldest PCM waiting for the member under this SSRC.
    pub fn take(&mut self, ssrc: u32) -> (pcm: Option<Vec<i16>>)
        requires
            old(self).wf(),
        ensures
            final(self).wf(),
            final(self).room_of() == old(self).room_of(),
            match pcm {
                Some(p) => old(self)@.contains_key(ssrc) && old(self)@[ssrc].queue.len() > 0 && p@
                    == old(self)@[ssrc].queue[0] && final(self)@ == old(self)@.insert(
                    ssrc,
                    after_take(old(self)@[ssrc]),
                ),
                None => (!old(self)@.contains_key(ssrc) || old(self)@[ssrc].queue.len() == 0)
                    && final(self)@ == old(self)@,
            },
    {
        match self.position(ssrc) {
            Some(i) => {
                let ghost before = self.members@;
                let pcm = self.members[i].take();
                proof {
                    assert(self.members@ == before.update(i as int, self.members@[i as int]));
                    lemma_update_replaces(
                        before,
                        by_ssrc(),
                        member_view(),
                        i as int,
                        self.members@[i as int],
                    );
                    if pcm is None {
                        assert(self@ =~= old(self)@);
                    }
                }
                pcm
            },
            None => None,
        }
    }

    /// Hands `pcm`, sent by session `sender` under `source`, to every member
    /// of another session, and drops whoever is struck out by it. The
    /// members of the sending session get nothing.
    pub fn deliver(
        &mut self,
        source: u32,
        sender: u64,
        pcm: &Vec<i16>,
        capacity: usize,
        eject_after: u32,
    )
        requires
            old(self).wf(),
        ensures
            final(self).wf(),
            final(self).room_of() == old(self).room_of(),
            final(self)@ == after_delivery(old(self)@, source, sender, pcm@, capacity, eject_after),
    {
        let ghost before = self.members@;
        let ghost start = self@;
        let n = self.members.len();
        let mut i: usize = 0;
        while i < n
            invariant
                i <= n,
                n == before.len(),
                self.members@.len() == n,
                self.room_id == old(self).room_id,
                distinct_keys(before, by_ssrc()),
                forall|j: int|
                    0 <= j < n ==> (#[trigger] self.members@[j]).ssrc_of() == before[j].ssrc_of(),
                forall|j: int|
                    0 <= j < i ==> (#[trigger] self.members@[j])@ == (if passed_over(
                        before[j].ssrc_of(),
                        before[j]@,
                        source,
                        sender,
                    ) {
                        before[j]@
                    } else {
                        after_offer(before[j]@, capacity, pcm@)
                    }),
                forall|j: int| i <= j < n ==> #[trigger] self.members@[j] == before[j],
            decreases n - i,
        {
            if self.members[i].ssrc() != source && self.members[i].owner() != sender {
                self.members[i].offer(pcm, capacity);
            }
            i += 1;
        }
        let ghost offered = self.members@;
        proof {
            assert forall|a: int, b: int|
                0 <= a < offered.len() && 0 <= b < offered.len() && a != b implies by_ssrc()(
                offered[a],
            ) != by_ssrc()(offered[b]) by {
                assert(offered[a].ssrc_of() == before[a].ssrc_of());
                assert(offered[b].ssrc_of() == before[b].ssrc_of());
                assert(by_ssrc()(before[a]) != by_ssrc()(before[b]));
            }
        }
        let ghost middle = as_map(offered, by_ssrc(), member_view());
        proof {
            assert forall|s: u32| middle.contains_key(s) <==> start.contains_key(s) by {
                if middle.contains_key(s) {
                    let a = crate::keyed::place_of(offered, by_ssrc(), s);
                    assert(offered[a].ssrc_of() == before[a].ssrc_of());
                    assert(by_ssrc()(before[a]) == s);
                }
                if start.contains_key(s) {
                    let a = crate::keyed::place_of(before, by_ssrc(), s);
                    assert(offered[a].ssrc_of() == before[a].ssrc_of());
                    assert(by_ssrc()(offered[a]) == s);
                }
            }
            assert forall|s: u32| middle.contains_key(s) implies middle[s] == (if passed_over(
                s,
                start[s],
                source,
                sender,
            ) {
                start[s]
            } else {
                after_offer(start[s], capacity, pcm@)
            }) by {
                let a = crate::keyed::place_of(offered, by_ssrc(), s);
                lemma_item_is_mapped(offered, by_ssrc(), member_view(), a);
                assert(offered[a].ssrc_of() == before[a].ssrc_of());
                lemma_item_is_mapped(before, by_ssrc(), member_view(), a);
            }
        }
        let mut k: usize = 0;
        while k < self.members.len()
            invariant
                k <= self.members@.len(),
                self.room_id == old(self).room_id,
                distinct_keys(self.members@, by_ssrc()),
                forall|s: u32|
                    self@.contains_key(s) ==> #[trigger] middle.contains_key(s) && self@[s]
                        == middle[s],
                forall|s: u32|
                    #[trigger] middle.contains_key(s) && !self@.contains_key(s) ==> !passed_over(
                        s,
                        middle[s],
                        source,
                        sender,
                    ) && struck_out(middle[s], eject_after),
                forall|j: int|
                    0 <= j < k ==> passed_over(
                        (#[trigger] self.members@[j]).ssrc_of(),
                        self.members@[j]@,
                        source,
                        sender,
                    ) || !struck_out(self.members@[j]@, eject_after),
            decreases self.members@.len() - k,
        {
            let strikes = self.members[k].strikes();
            let out = self.members[k].ssrc() != source && self.members[k].owner() != sender
                && strikes > 0 && strikes >= eject_after;
            if out {
                proof {
                    lemma_item_is_mapped(self.members@, by_ssrc(), member_view(), k as int);
                    lemma_remove_removes(self.members@, by_ssrc(), member_view(), k as int);
                }
                let ghost cur = self.members@;
                let ghost cur_map = self@;
                let ghost gone = cur[k as int].ssrc_of();
                assert(cur_map.contains_key(gone));
                assert(middle.contains_key(gone));
                assert(middle[gone] == cur_map[gone]);
                self.members.remove(k);
                proof {
                    assert(self.members@ == cur.remove(k as int));
                    assert(self@ == cur_map.remove(gone));
                    assert(cur_map.contains_key(gone) && cur_map[gone] == cur[k as int]@);
                    assert(middle.contains_key(gone) && middle[gone] == cur_map[gone]);
                    assert forall|j: int| 0 <= j < k implies (#[trigger] self.members@[j])
                        == cur[j] by {}
                    assert forall|s: u32| self@.contains_key(s) implies #[trigger] middle.contains_key(
                        s,
                    ) && self@[s] == middle[s] by {
                        assert(cur_map.contains_key(s));
                        assert(s != gone);
                        assert(self@[s] == cur_map[s]);
                        assert(middle.contains_key(s));
                        assert(cur_map[s] == middle[s]);
                    }
                    assert forall|s: u32|
                        #[trigger] middle.contains_key(s) && !self@.contains_key(s)
                        implies !passed_over(s, middle[s], source, sender) && struck_out(
                        middle[s],
                        eject_after,
                    ) by {
                        if s != gone {
                            assert(!cur_map.contains_key(s));
                        }
                    }
                }
            } else {
                k += 1;
            }
        }
        proof {
            let goal = after_delivery(start, source, sender, pcm@, capacity, eject_after);
            assert forall|s: u32| #[trigger] self@.contains_key(s) implies (passed_over(
                s,
                self@[s],
                source,
                sender,
            ) || !struck_out(self@[s], eject_after)) by {
                let a = crate::keyed::place_of(self.members@, by_ssrc(), s);
                lemma_item_is_mapped(self.members@, by_ssrc(), member_view(), a);
                assert(self.members@[a].ssrc_of() == s);
            }
            assert forall|s: u32| #[trigger] goal.contains_key(s) == self@.contains_key(s) by {
                if goal.contains_key(s) {
                    assert(start.contains_key(s));
                    assert(middle.contains_key(s));
                    assert(middle[s].owner == start[s].owner);
                    if !self@.contains_key(s) {
                        assert(!passed_over(s, middle[s], source, sender) && struck_out(
                            middle[s],
                            eject_after,
                        ));
                    }
                }
                if self@.contains_key(s) {
                    assert(middle.contains_key(s));
                    assert(self@[s] == middle[s]);
                    assert(start.contains_key(s));
                    assert(middle[s].owner == start[s].owner);
                }
            }
            assert forall|s: u32| #[trigger] self@.contains_key(s) implies goal[s] == self@[s] by {
                assert(middle.contains_key(s));
                assert(self@[s] == middle[s]);
                assert(start.contains_key(s));
            }
            assert(self@.dom() =~= goal.dom());
            assert(self@ =~= goal);
        }
    }
}

} // verus!
