//! How sessions and the group registry hang together: whatever a room holds
//! in a session's name, that session is active, in that room, and knows of
//! it. Every step of every session keeps this so, for itself and for all
//! others, and so a session that is not active is nobody's broadcast target.
//!
//! What a session sends reaches the members of other sessions, each in the
//! order it was sent, and never a member of the sending session; and a
//! session that ends takes nothing of another's with it.

use vstd::prelude::*;
use crate::auth::{AuthErrorSerde, Identity};
use crate::codec::decoded_frame;
use crate::group_voice_session::{after_delivery, after_offer, passed_over, MemberView};
use crate::packet::{MediaPacketView, PacketError, PacketHeader};
use crate::registry::{
    after_broadcast,
    after_join,
    after_leave,
    after_leave_owned,
    broadcast_targets,
    held_by,
    is_member,
    room_or_empty,
};
use crate::session::{
    after_auth,
    after_cancel,
    after_packet,
    after_frame,
    after_leave_all,
    after_remote_close,
    after_tick,
    after_transport_closed,
    cancellable,
    frame_applies,
    frame_emits,
    joins_with,
    pending,
    registry_after_packet,
    registry_after_frame,
    registry_after_hear,
    registry_after_tick,
    room_of,
    silence_owed,
    strikes_out,
    timed_out,
    well_formed,
    without,
    SessionConfig,
    SessionView,
};

verus! {

/// The room holds the SSRC in the name of session `id`.
pub open spec fn owns(reg: Map<u32, Map<u32, MemberView>>, id: u64, room_id: u32, ssrc: u32) -> bool {
    held_by(reg, id, room_id, ssrc)
}

/// Whatever the registry holds in the session's name, the session is
/// active, in that room, and has joined under that SSRC.
pub open spec fn coherent(s: SessionView, reg: Map<u32, Map<u32, MemberView>>) -> bool {
    forall|room_id: u32, ssrc: u32| #[trigger]
        owns(reg, s.id, room_id, ssrc) ==> s.state is Active && room_id == room_of(s)
            && s.joined.contains(ssrc)
}

/// Going from `before` to `after`, nothing new was entered but in the name
/// of session `id`, and no membership changed hands.
pub open spec fn touches_only(
    before: Map<u32, Map<u32, MemberView>>,
    after: Map<u32, Map<u32, MemberView>>,
    id: u64,
) -> bool {
    forall|room_id: u32, ssrc: u32| #[trigger]
        is_member(after, room_id, ssrc) ==> after[room_id][ssrc].owner == id || (is_member(
            before,
            room_id,
            ssrc,
        ) && before[room_id][ssrc].owner == after[room_id][ssrc].owner)
}

/// Joining enters exactly one membership, in the joiner's name, and leaves
/// all others as they were.
pub proof fn lemma_join_membership(
    reg: Map<u32, Map<u32, MemberView>>,
    room_id: u32,
    ssrc: u32,
    owner: u64,
)
    ensures
        forall|r: u32, x: u32| #[trigger]
            is_member(after_join(reg, room_id, ssrc, owner), r, x) <==> is_member(reg, r, x) || (r
                == room_id && x == ssrc),
        forall|r: u32, x: u32| #[trigger]
            is_member(reg, r, x) && !(r == room_id && x == ssrc) ==> after_join(
                reg,
                room_id,
                ssrc,
                owner,
            )[r][x] == reg[r][x],
        after_join(reg, room_id, ssrc, owner)[room_id][ssrc].owner == owner,
{
    let after = after_join(reg, room_id, ssrc, owner);
    assert forall|r: u32, x: u32| #[trigger]
        is_member(after, r, x) <==> is_member(reg, r, x) || (r == room_id && x == ssrc) by {
        if r == room_id {
            assert(after[r] == room_or_empty(reg, room_id).insert(ssrc, crate::group_voice_session::fresh_member(owner)));
        }
    }
}

/// Leaving removes exactly one membership and leaves all others as they were.
pub proof fn lemma_leave_membership(reg: Map<u32, Map<u32, MemberView>>, room_id: u32, ssrc: u32)
    ensures
        forall|r: u32, x: u32| #[trigger]
            is_member(after_leave(reg, room_id, ssrc), r, x) <==> is_member(reg, r, x) && !(r
                == room_id && x == ssrc),
        forall|r: u32, x: u32| #[trigger]
            is_member(after_leave(reg, room_id, ssrc), r, x) ==> after_leave(
                reg,
                room_id,
                ssrc,
            )[r][x] == reg[r][x],
{
    let after = after_leave(reg, room_id, ssrc);
    if is_member(reg, room_id, ssrc) {
        let rest = reg[room_id].remove(ssrc);
        assert forall|r: u32, x: u32| #[trigger]
            is_member(after, r, x) <==> is_member(reg, r, x) && !(r == room_id && x == ssrc) by {
            if r == room_id {
                if rest == Map::<u32, MemberView>::empty() {
                    assert(!rest.contains_key(x));
                } else {
                    assert(after[r] == rest);
                }
            }
        }
    }
}

/// Giving up several SSRCs in a session's name removes exactly the
/// memberships under them that are that session's, and changes no other.
pub proof fn lemma_leave_all_membership(
    reg: Map<u32, Map<u32, MemberView>>,
    room_id: u32,
    ssrcs: Seq<u32>,
    owner: u64,
)
    ensures
        forall|r: u32, x: u32| #[trigger]
            is_member(after_leave_all(reg, room_id, ssrcs, owner), r, x) <==> is_member(reg, r, x)
                && !(r == room_id && ssrcs.contains(x) && reg[r][x].owner == owner),
        forall|r: u32, x: u32| #[trigger]
            is_member(after_leave_all(reg, room_id, ssrcs, owner), r, x) ==> after_leave_all(
                reg,
                room_id,
                ssrcs,
                owner,
            )[r][x] == reg[r][x],
    decreases ssrcs.len(),
{
    if ssrcs.len() > 0 {
        let before = ssrcs.drop_last();
        let mid = after_leave_all(reg, room_id, before, owner);
        lemma_leave_all_membership(reg, room_id, before, owner);
        lemma_leave_membership(mid, room_id, ssrcs.last());
        let after = after_leave_all(reg, room_id, ssrcs, owner);
        assert(after == after_leave_owned(mid, room_id, ssrcs.last(), owner));
        assert forall|r: u32, x: u32| #[trigger] is_member(after, r, x) implies is_member(mid, r, x)
            && after[r][x] == mid[r][x] by {}
        assert forall|r: u32, x: u32| #[trigger]
            is_member(after, r, x) <==> is_member(reg, r, x) && !(r == room_id && ssrcs.contains(
                x,
            ) && reg[r][x].owner == owner) by {
            assert(is_member(mid, r, x) <==> is_member(reg, r, x) && !(r == room_id
                && before.contains(x) && reg[r][x].owner == owner));
            if is_member(mid, r, x) {
                assert(mid[r][x] == reg[r][x]);
            }
            assert(is_member(after, r, x) <==> is_member(mid, r, x) && !(r == room_id && x
                == ssrcs.last() && held_by(mid, owner, room_id, ssrcs.last())));
            if ssrcs.contains(x) {
                let i = choose|i: int| 0 <= i < ssrcs.len() && ssrcs[i] == x;
                if i < before.len() {
                    assert(before[i] == x);
                }
            }
            if before.contains(x) {
                let i = choose|i: int| 0 <= i < before.len() && before[i] == x;
                assert(ssrcs[i] == x);
            }
            if x == ssrcs.last() {
                assert(ssrcs[ssrcs.len() - 1] == x);
            }
        }
        assert forall|r: u32, x: u32| #[trigger] is_member(after, r, x) implies after[r][x]
            == reg[r][x] by {
            assert(is_member(mid, r, x));
        }
    }
}

/// A broadcast enters nobody and changes no owner; it may drop members of
/// other sessions.
pub proof fn lemma_broadcast_membership(
    reg: Map<u32, Map<u32, MemberView>>,
    room_id: u32,
    source: u32,
    sender: u64,
    pcm: Seq<i16>,
    capacity: usize,
    eject_after: u32,
)
    ensures
        forall|r: u32, x: u32| #[trigger]
            is_member(after_broadcast(reg, room_id, source, sender, pcm, capacity, eject_after), r, x)
                ==> is_member(reg, r, x) && after_broadcast(
                reg,
                room_id,
                source,
                sender,
                pcm,
                capacity,
                eject_after,
            )[r][x].owner == reg[r][x].owner,
{
    let after = after_broadcast(reg, room_id, source, sender, pcm, capacity, eject_after);
    if reg.contains_key(room_id) {
        let delivered = after_delivery(reg[room_id], source, sender, pcm, capacity, eject_after);
        assert forall|r: u32, x: u32| #[trigger] is_member(after, r, x) implies is_member(reg, r, x)
            && after[r][x].owner == reg[r][x].owner by {
            if r == room_id {
                assert(delivered != Map::<u32, MemberView>::empty());
                assert(after[r] == delivered);
                assert(delivered.contains_key(x));
            }
        }
    }
}

/// Broadcast exclusion. Whatever a session sends, no member that belongs
/// to that session gets it, under whatever SSRC it is a member: each such
/// member is still there after the broadcast, with the same PCM waiting as
/// before. The same holds of the member under the sending SSRC and of every
/// member of another room. None of them is among the targets.
pub proof fn lemma_broadcast_exclusion(
    reg: Map<u32, Map<u32, MemberView>>,
    room_id: u32,
    source: u32,
    sender: u64,
    pcm: Seq<i16>,
    capacity: usize,
    eject_after: u32,
)
    ensures
        !broadcast_targets(reg, room_id, source, sender).contains(source),
        forall|r: u32, x: u32| #[trigger]
            held_by(reg, sender, r, x) ==> !(r == room_id && broadcast_targets(
                reg,
                room_id,
                source,
                sender,
            ).contains(x)) && is_member(
                after_broadcast(reg, room_id, source, sender, pcm, capacity, eject_after),
                r,
                x,
            ) && after_broadcast(reg, room_id, source, sender, pcm, capacity, eject_after)[r][x]
                == reg[r][x],
        is_member(reg, room_id, source) ==> is_member(
            after_broadcast(reg, room_id, source, sender, pcm, capacity, eject_after),
            room_id,
            source,
        ) && after_broadcast(
            reg,
            room_id,
            source,
            sender,
            pcm,
            capacity,
            eject_after,
        )[room_id][source] == reg[room_id][source],
        forall|r: u32| #[trigger]
            reg.contains_key(r) && r != room_id ==> after_broadcast(
                reg,
                room_id,
                source,
                sender,
                pcm,
                capacity,
                eject_after,
            ).contains_key(r) && after_broadcast(
                reg,
                room_id,
                source,
                sender,
                pcm,
                capacity,
                eject_after,
            )[r] == reg[r],
{
    let after = after_broadcast(reg, room_id, source, sender, pcm, capacity, eject_after);
    if reg.contains_key(room_id) {
        let delivered = after_delivery(reg[room_id], source, sender, pcm, capacity, eject_after);
        assert forall|x: u32|
            reg[room_id].contains_key(x) && passed_over(
                x,
                reg[room_id][x],
                source,
                sender,
            ) implies #[trigger] delivered.contains_key(x) && delivered[x] == reg[room_id][x]
            && after[room_id] == delivered by {
            assert(delivered.contains_key(x));
            assert(delivered != Map::<u32, MemberView>::empty());
        }
        assert forall|r: u32, x: u32| #[trigger] held_by(reg, sender, r, x) implies is_member(
            after,
            r,
            x,
        ) && after[r][x] == reg[r][x] by {
            if r == room_id {
                assert(passed_over(x, reg[room_id][x], source, sender));
                assert(delivered.contains_key(x));
            }
        }
        if is_member(reg, room_id, source) {
            assert(passed_over(source, reg[room_id][source], source, sender));
            assert(delivered.contains_key(source));
        }
    }
}

/// Fan-out. Every target of a broadcast that has room in its buffer is
/// still a member afterwards and has the PCM queued last, behind what was
/// waiting; every target without room has what was waiting and one miss
/// more.
pub proof fn lemma_broadcast_reaches_targets(
    reg: Map<u32, Map<u32, MemberView>>,
    room_id: u32,
    source: u32,
    sender: u64,
    pcm: Seq<i16>,
    capacity: usize,
    eject_after: u32,
    target: u32,
)
    requires
        broadcast_targets(reg, room_id, source, sender).contains(target),
    ensures
        reg[room_id][target].queue.len() < capacity ==> is_member(
            after_broadcast(reg, room_id, source, sender, pcm, capacity, eject_after),
            room_id,
            target,
        ) && after_broadcast(
            reg,
            room_id,
            source,
            sender,
            pcm,
            capacity,
            eject_after,
        )[room_id][target].queue == reg[room_id][target].queue.push(pcm),
        is_member(
            after_broadcast(reg, room_id, source, sender, pcm, capacity, eject_after),
            room_id,
            target,
        ) ==> after_broadcast(
            reg,
            room_id,
            source,
            sender,
            pcm,
            capacity,
            eject_after,
        )[room_id][target] == after_offer(reg[room_id][target], capacity, pcm),
{
    let after = after_broadcast(reg, room_id, source, sender, pcm, capacity, eject_after);
    let delivered = after_delivery(reg[room_id], source, sender, pcm, capacity, eject_after);
    if reg[room_id][target].queue.len() < capacity {
        assert(after_offer(reg[room_id][target], capacity, pcm).strikes == 0);
        assert(delivered.contains_key(target));
        assert(delivered != Map::<u32, MemberView>::empty());
    }
    if is_member(after, room_id, target) {
        assert(delivered != Map::<u32, MemberView>::empty());
        assert(delivered.contains_key(target));
    }
}

/// One broadcast: the SSRC and the session that it is sent under, and the
/// PCM.
pub struct Sending {
    pub source: u32,
    pub sender: u64,
    pub pcm: Seq<i16>,
}

/// The registry after a run of broadcasts in one room.
pub open spec fn after_broadcasts(
    reg: Map<u32, Map<u32, MemberView>>,
    room_id: u32,
    sendings: Seq<Sending>,
    capacity: usize,
    eject_after: u32,
) -> Map<u32, Map<u32, MemberView>>
    decreases sendings.len(),
{
    if sendings.len() == 0 {
        reg
    } else {
        after_broadcast(
            after_broadcasts(reg, room_id, sendings.drop_last(), capacity, eject_after),
            room_id,
            sendings.last().source,
            sendings.last().sender,
            sendings.last().pcm,
            capacity,
            eject_after,
        )
    }
}

/// The PCM of a run of broadcasts that is addressed to the member under
/// `ssrc` of session `owner`, in the order it was sent: all of it but what
/// was sent under that SSRC or by that session.
pub open spec fn addressed_to(sendings: Seq<Sending>, ssrc: u32, owner: u64) -> Seq<Seq<i16>>
    decreases sendings.len(),
{
    if sendings.len() == 0 {
        Seq::empty()
    } else if sendings.last().source == ssrc || sendings.last().sender == owner {
        addressed_to(sendings.drop_last(), ssrc, owner)
    } else {
        addressed_to(sendings.drop_last(), ssrc, owner).push(sendings.last().pcm)
    }
}

/// A listener hears all of the others and only the others. Over any run of
/// broadcasts in a room, a member that has room in its buffer for what is
/// addressed to it is still a member at the end, and what waits for it is
/// what waited before, followed by exactly the PCM that other sessions
/// sent, in the order they sent it: nothing missing, nothing added, nothing
/// of its own.
pub proof fn lemma_listener_hears_the_others(
    reg: Map<u32, Map<u32, MemberView>>,
    room_id: u32,
    sendings: Seq<Sending>,
    capacity: usize,
    eject_after: u32,
    ssrc: u32,
)
    requires
        is_member(reg, room_id, ssrc),
        reg[room_id][ssrc].queue.len() + addressed_to(
            sendings,
            ssrc,
            reg[room_id][ssrc].owner,
        ).len() <= capacity,
    ensures
        is_member(after_broadcasts(reg, room_id, sendings, capacity, eject_after), room_id, ssrc),
        after_broadcasts(reg, room_id, sendings, capacity, eject_after)[room_id][ssrc].owner
            == reg[room_id][ssrc].owner,
        after_broadcasts(reg, room_id, sendings, capacity, eject_after)[room_id][ssrc].queue
            == reg[room_id][ssrc].queue + addressed_to(sendings, ssrc, reg[room_id][ssrc].owner),
    decreases sendings.len(),
{
    let owner = reg[room_id][ssrc].owner;
    if sendings.len() == 0 {
        assert(reg[room_id][ssrc].queue + Seq::<Seq<i16>>::empty() =~= reg[room_id][ssrc].queue);
    } else {
        let earlier = sendings.drop_last();
        let last = sendings.last();
        lemma_listener_hears_the_others(reg, room_id, earlier, capacity, eject_after, ssrc);
        let mid = after_broadcasts(reg, room_id, earlier, capacity, eject_after);
        let after = after_broadcasts(reg, room_id, sendings, capacity, eject_after);
        let heard = addressed_to(earlier, ssrc, owner);
        lemma_broadcast_exclusion(
            mid,
            room_id,
            last.source,
            last.sender,
            last.pcm,
            capacity,
            eject_after,
        );
        if last.source == ssrc || last.sender == owner {
            if last.source != ssrc {
                assert(held_by(mid, last.sender, room_id, ssrc));
            }
        } else {
            assert(broadcast_targets(mid, room_id, last.source, last.sender).contains(ssrc));
            lemma_broadcast_reaches_targets(
                mid,
                room_id,
                last.source,
                last.sender,
                last.pcm,
                capacity,
                eject_after,
                ssrc,
            );
            assert((reg[room_id][ssrc].queue + heard).push(last.pcm) =~= reg[room_id][ssrc].queue
                + heard.push(last.pcm));
        }
    }
}

/// Two peers in a room. When session A sends `pa` under `a` and session B
/// then sends `pb` under `b`, and each has room for one more, A's member
/// has exactly `pb` queued behind what waited and B's exactly `pa`: each
/// hears the other and neither itself.
pub proof fn lemma_two_peers_hear_each_other(
    reg: Map<u32, Map<u32, MemberView>>,
    room_id: u32,
    a: u32,
    b: u32,
    pa: Seq<i16>,
    pb: Seq<i16>,
    capacity: usize,
    eject_after: u32,
)
    requires
        is_member(reg, room_id, a),
        is_member(reg, room_id, b),
        reg[room_id][a].owner != reg[room_id][b].owner,
        reg[room_id][a].queue.len() < capacity,
        reg[room_id][b].queue.len() < capacity,
    ensures
        ({
            let first = after_broadcast(
                reg,
                room_id,
                a,
                reg[room_id][a].owner,
                pa,
                capacity,
                eject_after,
            );
            let second = after_broadcast(
                first,
                room_id,
                b,
                reg[room_id][b].owner,
                pb,
                capacity,
                eject_after,
            );
            &&& is_member(second, room_id, a)
            &&& is_member(second, room_id, b)
            &&& second[room_id][a].queue == reg[room_id][a].queue.push(pb)
            &&& second[room_id][b].queue == reg[room_id][b].queue.push(pa)
        }),
{
    let owner_a = reg[room_id][a].owner;
    let owner_b = reg[room_id][b].owner;
    let first = after_broadcast(reg, room_id, a, owner_a, pa, capacity, eject_after);
    lemma_broadcast_exclusion(reg, room_id, a, owner_a, pa, capacity, eject_after);
    assert(broadcast_targets(reg, room_id, a, owner_a).contains(b));
    lemma_broadcast_reaches_targets(reg, room_id, a, owner_a, pa, capacity, eject_after, b);
    assert(held_by(reg, owner_a, room_id, a));
    lemma_broadcast_exclusion(first, room_id, b, owner_b, pb, capacity, eject_after);
    assert(broadcast_targets(first, room_id, b, owner_b).contains(a));
    lemma_broadcast_reaches_targets(first, room_id, b, owner_b, pb, capacity, eject_after, a);
    assert(held_by(first, owner_b, room_id, b));
}

/// Giving up everything enters nobody, changes no owner and takes nothing
/// from another session.
proof fn lemma_without_touches(reg: Map<u32, Map<u32, MemberView>>, s: SessionView)
    ensures
        touches_only(reg, without(reg, s), s.id),
        forall|r: u32, x: u32| #[trigger]
            is_member(reg, r, x) && reg[r][x].owner != s.id ==> is_member(without(reg, s), r, x),
        coherent(s, reg) ==> forall|r: u32, x: u32| !#[trigger] owns(without(reg, s), s.id, r, x),
{
    lemma_leave_all_membership(reg, room_of(s), s.joined, s.id);
    let after = without(reg, s);
    assert forall|r: u32, x: u32| #[trigger] is_member(after, r, x) implies after[r][x].owner
        == s.id || (is_member(reg, r, x) && reg[r][x].owner == after[r][x].owner) by {}
    if coherent(s, reg) {
        assert forall|r: u32, x: u32| !#[trigger] owns(after, s.id, r, x) by {
            if owns(after, s.id, r, x) {
                assert(is_member(after, r, x));
                assert(owns(reg, s.id, r, x));
            }
        }
    }
}

/// A session that ends takes none of another session's memberships with
/// it, whatever SSRCs it had joined under.
pub proof fn lemma_ending_spares_the_others(
    reg: Map<u32, Map<u32, MemberView>>,
    s: SessionView,
    room_id: u32,
    ssrc: u32,
)
    requires
        is_member(reg, room_id, ssrc),
        reg[room_id][ssrc].owner != s.id,
    ensures
        is_member(without(reg, s), room_id, ssrc),
        without(reg, s)[room_id][ssrc] == reg[room_id][ssrc],
{
    lemma_leave_all_membership(reg, room_of(s), s.joined, s.id);
    assert(is_member(without(reg, s), room_id, ssrc));
}

/// A session that was just created, under a number that the registry does
/// not know, is coherent with it.
pub proof fn lemma_new_session_is_coherent(
    reg: Map<u32, Map<u32, MemberView>>,
    id: u64,
    config: SessionConfig,
    now: u64,
)
    requires
        forall|r: u32, x: u32| !#[trigger] owns(reg, id, r, x),
    ensures
        coherent(pending(id, config, now), reg),
{
}

/// What one session does to the registry does not disturb any other: a
/// session that was coherent with the registry before still is.
pub proof fn lemma_others_stay_coherent(
    other: SessionView,
    before: Map<u32, Map<u32, MemberView>>,
    after: Map<u32, Map<u32, MemberView>>,
    id: u64,
)
    requires
        other.id != id,
        coherent(other, before),
        touches_only(before, after, id),
    ensures
        coherent(other, after),
{
    assert forall|r: u32, x: u32| #[trigger] owns(after, other.id, r, x) implies other.state is Active
        && r == room_of(other) && other.joined.contains(x) by {
        assert(is_member(after, r, x));
        assert(owns(before, other.id, r, x));
    }
}

/// The opening exchange keeps the session coherent and does not touch the
/// registry.
pub proof fn lemma_auth_keeps_coherence(
    s: SessionView,
    reg: Map<u32, Map<u32, MemberView>>,
    result: Result<Identity, AuthErrorSerde>,
    now: u64,
)
    requires
        well_formed(s),
        coherent(s, reg),
    ensures
        coherent(after_auth(s, result, now), reg),
{
    let t = after_auth(s, result, now);
    assert forall|r: u32, x: u32| #[trigger] owns(reg, t.id, r, x) implies t.state is Active && r
        == room_of(t) && t.joined.contains(x) by {
        assert(owns(reg, s.id, r, x));
    }
}

/// A datagram keeps the session coherent, and enters nothing into the
/// registry but in the session's own name, whatever parsing it gave.
pub proof fn lemma_packet_keeps_coherence(
    s: SessionView,
    reg: Map<u32, Map<u32, MemberView>>,
    packet: Result<MediaPacketView, PacketError>,
    now: u64,
)
    requires
        well_formed(s),
    ensures
        coherent(s, reg) ==> coherent(
            after_packet(s, reg, packet, now),
            registry_after_packet(s, reg, packet),
        ),
        touches_only(reg, registry_after_packet(s, reg, packet), s.id),
{
    let t = after_packet(s, reg, packet, now);
    let after = registry_after_packet(s, reg, packet);
    if s.state is Active && packet is Ok && joins_with(s, reg, packet->Ok_0.header.ssrc) {
        let ssrc = packet->Ok_0.header.ssrc;
        let gone = without(reg, s);
        lemma_without_touches(reg, s);
        lemma_join_membership(gone, room_of(s), ssrc, s.id);
        assert(t.joined == seq![ssrc]);
        assert forall|r: u32, x: u32| #[trigger] is_member(after, r, x) implies after[r][x].owner
            == s.id || (is_member(reg, r, x) && reg[r][x].owner == after[r][x].owner) by {
            if !(r == room_of(s) && x == ssrc) {
                assert(is_member(gone, r, x));
            }
        }
        if coherent(s, reg) {
            assert forall|r: u32, x: u32| #[trigger] owns(after, t.id, r, x) implies t.state is Active
                && r == room_of(t) && t.joined.contains(x) by {
                assert(is_member(after, r, x));
                if r == room_of(s) && x == ssrc {
                    assert(t.joined[0] == ssrc);
                } else {
                    assert(is_member(gone, r, x));
                    assert(owns(gone, s.id, r, x));
                }
            }
        }
    } else {
        assert(after == reg);
        if coherent(s, reg) {
            assert forall|r: u32, x: u32| #[trigger] owns(reg, t.id, r, x) implies t.state is Active
                && r == room_of(t) && t.joined.contains(x) by {
                assert(owns(reg, s.id, r, x));
            }
        }
    }
}

/// A decoded frame keeps the session coherent, and enters nothing into the
/// registry.
pub proof fn lemma_frame_keeps_coherence(
    s: SessionView,
    reg: Map<u32, Map<u32, MemberView>>,
    header: PacketHeader,
    now: u64,
    buffer: Seq<i16>,
    reported: Option<usize>,
    capacity: usize,
    eject_after: u32,
)
    requires
        well_formed(s),
    ensures
        coherent(s, reg) ==> coherent(
            after_frame(s, header, now, buffer, reported),
            registry_after_frame(s, reg, header, buffer, reported, capacity, eject_after),
        ),
        touches_only(
            reg,
            registry_after_frame(s, reg, header, buffer, reported, capacity, eject_after),
            s.id,
        ),
{
    let t = after_frame(s, header, now, buffer, reported);
    let after = registry_after_frame(s, reg, header, buffer, reported, capacity, eject_after);
    lemma_without_touches(reg, s);
    lemma_broadcast_membership(
        reg,
        room_of(s),
        header.ssrc,
        s.id,
        frame_emits(s, header, buffer, reported),
        capacity,
        eject_after,
    );
    assert forall|r: u32, x: u32| #[trigger] is_member(after, r, x) implies after[r][x].owner
        == s.id || (is_member(reg, r, x) && reg[r][x].owner == after[r][x].owner) by {}
    if coherent(s, reg) {
        assert forall|r: u32, x: u32| #[trigger] owns(after, t.id, r, x) implies t.state is Active
            && r == room_of(t) && t.joined.contains(x) by {
            assert(is_member(after, r, x));
            if frame_applies(s, header) && decoded_frame(buffer, reported) is Err && strikes_out(
                s,
            ) {
                assert(owns(without(reg, s), s.id, r, x));
            } else {
                assert(owns(reg, s.id, r, x));
            }
        }
    }
}

/// A tick keeps the session coherent, and enters nothing into the registry.
pub proof fn lemma_tick_keeps_coherence(
    s: SessionView,
    reg: Map<u32, Map<u32, MemberView>>,
    now: u64,
    capacity: usize,
    eject_after: u32,
)
    requires
        well_formed(s),
    ensures
        coherent(s, reg) ==> coherent(
            after_tick(s, now),
            registry_after_tick(s, reg, now, capacity, eject_after),
        ),
        touches_only(reg, registry_after_tick(s, reg, now, capacity, eject_after), s.id),
{
    let t = after_tick(s, now);
    let after = registry_after_tick(s, reg, now, capacity, eject_after);
    lemma_without_touches(reg, s);
    if s.current is Some {
        lemma_broadcast_membership(
            reg,
            room_of(s),
            s.current->Some_0,
            s.id,
            crate::codec::silence(silence_owed(s, now)),
            capacity,
            eject_after,
        );
    }
    assert forall|r: u32, x: u32| #[trigger] is_member(after, r, x) implies after[r][x].owner
        == s.id || (is_member(reg, r, x) && reg[r][x].owner == after[r][x].owner) by {}
    if coherent(s, reg) {
        assert forall|r: u32, x: u32| #[trigger] owns(after, t.id, r, x) implies t.state is Active
            && r == room_of(t) && t.joined.contains(x) by {
            assert(is_member(after, r, x));
            if timed_out(s, now) {
                assert(owns(without(reg, s), s.id, r, x));
            } else {
                assert(owns(reg, s.id, r, x));
            }
        }
    }
}

/// However a session ends, it is coherent afterwards: nothing is left in
/// its name.
pub proof fn lemma_ending_keeps_coherence(
    s: SessionView,
    reg: Map<u32, Map<u32, MemberView>>,
    application_closed: bool,
    now: u64,
)
    requires
        well_formed(s),
    ensures
        coherent(s, reg) ==> coherent(
            after_cancel(s, now),
            if cancellable(s) {
                without(reg, s)
            } else {
                reg
            },
        ),
        coherent(s, reg) ==> coherent(
            after_remote_close(s, application_closed, now),
            if cancellable(s) {
                without(reg, s)
            } else {
                reg
            },
        ),
        coherent(s, reg) ==> coherent(after_transport_closed(s), reg),
        touches_only(reg, without(reg, s), s.id),
        touches_only(reg, reg, s.id),
        forall|r: u32, x: u32| #[trigger]
            is_member(reg, r, x) && reg[r][x].owner != s.id ==> is_member(without(reg, s), r, x)
                && without(reg, s)[r][x] == reg[r][x],
{
    lemma_without_touches(reg, s);
    lemma_leave_all_membership(reg, room_of(s), s.joined, s.id);
    let gone = without(reg, s);
    let c = after_cancel(s, now);
    let r = after_remote_close(s, application_closed, now);
    let t = after_transport_closed(s);
    if coherent(s, reg) {
        assert forall|room: u32, x: u32| #[trigger] owns(reg, t.id, room, x) implies t.state is Active
            && room == room_of(t) && t.joined.contains(x) by {
            assert(owns(reg, s.id, room, x));
        }
        if !cancellable(s) {
            assert forall|room: u32, x: u32| #[trigger] owns(reg, c.id, room, x) implies c.state is Active
                && room == room_of(c) && c.joined.contains(x) by {
                assert(owns(reg, s.id, room, x));
            }
        }
    }
}

/// The sender hears nothing of itself. Whatever a decoded frame or a tick
/// of a session leads to, each member that belongs to that session, in any
/// room and under any SSRC, either has exactly the PCM waiting that it had
/// before or, where the session has ended, is gone; and unless the session
/// has ended, it is still there.
pub proof fn lemma_sender_hears_nothing_of_itself(
    s: SessionView,
    reg: Map<u32, Map<u32, MemberView>>,
    header: PacketHeader,
    now: u64,
    buffer: Seq<i16>,
    reported: Option<usize>,
    capacity: usize,
    eject_after: u32,
)
    ensures
        forall|r: u32, x: u32| #[trigger]
            held_by(reg, s.id, r, x) && is_member(
                registry_after_frame(s, reg, header, buffer, reported, capacity, eject_after),
                r,
                x,
            ) ==> registry_after_frame(
                s,
                reg,
                header,
                buffer,
                reported,
                capacity,
                eject_after,
            )[r][x] == reg[r][x],
        forall|r: u32, x: u32| #[trigger]
            held_by(reg, s.id, r, x) && is_member(
                registry_after_tick(s, reg, now, capacity, eject_after),
                r,
                x,
            ) ==> registry_after_tick(s, reg, now, capacity, eject_after)[r][x] == reg[r][x],
        forall|r: u32, x: u32| #[trigger]
            held_by(reg, s.id, r, x) && after_frame(s, header, now, buffer, reported).state
                is Active ==> is_member(
                registry_after_frame(s, reg, header, buffer, reported, capacity, eject_after),
                r,
                x,
            ),
        forall|r: u32, x: u32| #[trigger]
            held_by(reg, s.id, r, x) && after_tick(s, now).state is Active ==> is_member(
                registry_after_tick(s, reg, now, capacity, eject_after),
                r,
                x,
            ),
{
    lemma_leave_all_membership(reg, room_of(s), s.joined, s.id);
    lemma_broadcast_exclusion(
        reg,
        room_of(s),
        header.ssrc,
        s.id,
        frame_emits(s, header, buffer, reported),
        capacity,
        eject_after,
    );
    if s.current is Some {
        lemma_broadcast_exclusion(
            reg,
            room_of(s),
            s.current->Some_0,
            s.id,
            crate::codec::silence(silence_owed(s, now)),
            capacity,
            eject_after,
        );
    }
}

/// Taking PCM that waits for a session changes no membership and no
/// owner, and so keeps every session coherent.
pub proof fn lemma_hearing_keeps_coherence(s: SessionView, reg: Map<u32, Map<u32, MemberView>>)
    ensures
        forall|r: u32, x: u32| #[trigger]
            is_member(registry_after_hear(s, reg), r, x) <==> is_member(reg, r, x),
        forall|r: u32, x: u32| #[trigger]
            is_member(reg, r, x) ==> registry_after_hear(s, reg)[r][x].owner == reg[r][x].owner,
        touches_only(reg, registry_after_hear(s, reg), s.id),
        forall|other: SessionView| #[trigger]
            coherent(other, reg) ==> coherent(other, registry_after_hear(s, reg)),
{
    let after = registry_after_hear(s, reg);
    assert forall|r: u32, x: u32| #[trigger] is_member(after, r, x) <==> is_member(reg, r, x) by {}
    assert forall|r: u32, x: u32| #[trigger] is_member(reg, r, x) implies after[r][x].owner
        == reg[r][x].owner by {}
    assert forall|other: SessionView| #[trigger] coherent(other, reg) implies coherent(
        other,
        after,
    ) by {
        assert forall|r: u32, x: u32| #[trigger] owns(after, other.id, r, x) implies other.state is Active
            && r == room_of(other) && other.joined.contains(x) by {
            assert(is_member(reg, r, x));
            assert(owns(reg, other.id, r, x));
        }
    }
}

/// Auth fan-out isolation. A session that is coherent with the registry and
/// is not active, one that awaits authentication above all, is not among
/// the targets of any broadcast in any room.
pub proof fn lemma_inactive_session_is_no_target(
    s: SessionView,
    reg: Map<u32, Map<u32, MemberView>>,
    room_id: u32,
    source: u32,
    sender: u64,
    target: u32,
)
    requires
        coherent(s, reg),
        !(s.state is Active),
        broadcast_targets(reg, room_id, source, sender).contains(target),
    ensures
        reg[room_id][target].owner != s.id,
{
    if reg[room_id][target].owner == s.id {
        assert(owns(reg, s.id, room_id, target));
    }
}

} // verus!
