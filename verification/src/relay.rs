//! The relay as a whole: all sessions and the registry they share, and the
//! steps that any of them can take. Whatever the sessions do, in whatever
//! order, each membership in each room belongs to a session that is known,
//! active and in that room.

use vstd::prelude::*;
use crate::auth::{AuthErrorSerde, Identity};
use crate::group_voice_session::MemberView;
use crate::membership::{
    coherent,
    lemma_auth_keeps_coherence,
    lemma_packet_keeps_coherence,
    lemma_ending_keeps_coherence,
    lemma_frame_keeps_coherence,
    lemma_hearing_keeps_coherence,
    lemma_inactive_session_is_no_target,
    lemma_new_session_is_coherent,
    lemma_others_stay_coherent,
    lemma_tick_keeps_coherence,
    owns,
    touches_only,
};
use crate::packet::{MediaPacketView, PacketError, PacketHeader};
use crate::registry::{broadcast_targets, is_member};
use crate::session::{
    after_auth,
    after_cancel,
    after_packet,
    after_frame,
    after_remote_close,
    after_tick,
    after_transport_closed,
    cancellable,
    deadline_from,
    pending,
    registry_after_packet,
    registry_after_frame,
    registry_after_hear,
    registry_after_tick,
    room_of,
    well_formed,
    without,
    SessionConfig,
    SessionView,
};

verus! {

/// All sessions, by the number each is known by, and the registry they
/// share.
pub struct Relay {
    pub sessions: Map<u64, SessionView>,
    pub registry: Map<u32, Map<u32, MemberView>>,
    /// PCM blocks that each member's buffer holds.
    pub capacity: usize,
    /// Refusals in a row after which a member is dropped.
    pub eject_after: u32,
}

/// One thing that happens to one session.
pub enum RelayStep {
    /// A connection is accepted and gets a session.
    Accept { id: u64, config: SessionConfig, now: u64 },
    /// The opening exchange ends.
    Auth { id: u64, result: Result<Identity, AuthErrorSerde>, now: u64 },
    /// A datagram arrives and is parsed.
    Packet { id: u64, packet: Result<MediaPacketView, PacketError>, now: u64 },
    /// The decoder has dealt with a packet's payload.
    Frame { id: u64, header: PacketHeader, now: u64, buffer: Seq<i16>, reported: Option<usize> },
    /// The session's tick fires.
    Tick { id: u64, now: u64 },
    /// The session takes the oldest PCM that waits for it.
    Hear { id: u64 },
    /// The cancellation signal reaches the session.
    Cancel { id: u64, now: u64 },
    /// The peer closes the connection, or the transport fails.
    RemoteClosed { id: u64, application_closed: bool, now: u64 },
    /// The transport confirms that the connection is shut.
    TransportClosed { id: u64 },
    /// A closed session is forgotten.
    Forget { id: u64 },
}

/// The session that a step is about.
pub open spec fn subject(step: RelayStep) -> u64 {
    match step {
        RelayStep::Accept { id, .. } => id,
        RelayStep::Auth { id, .. } => id,
        RelayStep::Packet { id, .. } => id,
        RelayStep::Frame { id, .. } => id,
        RelayStep::Tick { id, .. } => id,
        RelayStep::Hear { id } => id,
        RelayStep::Cancel { id, .. } => id,
        RelayStep::RemoteClosed { id, .. } => id,
        RelayStep::TransportClosed { id } => id,
        RelayStep::Forget { id } => id,
    }
}

/// Whether a step can be taken: a session is accepted under a number that
/// is free, only a closed session is forgotten, and everything else
/// happens to a session that is there.
pub open spec fn enabled(r: Relay, step: RelayStep) -> bool {
    match step {
        RelayStep::Accept { id, .. } => !r.sessions.contains_key(id),
        RelayStep::Forget { id } => r.sessions.contains_key(id) && r.sessions[id].state is Closed,
        _ => r.sessions.contains_key(subject(step)),
    }
}

/// The session that a step is about, after the step.
pub open spec fn session_after(r: Relay, step: RelayStep) -> SessionView {
    let s = r.sessions[subject(step)];
    match step {
        RelayStep::Accept { id, config, now } => pending(id, config, now),
        RelayStep::Auth { id, result, now } => after_auth(s, result, now),
        RelayStep::Packet { id, packet, now } => after_packet(s, r.registry, packet, now),
        RelayStep::Frame { id, header, now, buffer, reported } => after_frame(
            s,
            header,
            now,
            buffer,
            reported,
        ),
        RelayStep::Tick { id, now } => after_tick(s, now),
        RelayStep::Hear { id } => s,
        RelayStep::Cancel { id, now } => after_cancel(s, now),
        RelayStep::RemoteClosed { id, application_closed, now } => after_remote_close(
            s,
            application_closed,
            now,
        ),
        RelayStep::TransportClosed { id } => after_transport_closed(s),
        RelayStep::Forget { id } => s,
    }
}

/// The registry after a step.
pub open spec fn registry_after(r: Relay, step: RelayStep) -> Map<u32, Map<u32, MemberView>> {
    let s = r.sessions[subject(step)];
    match step {
        RelayStep::Packet { id, packet, now } => registry_after_packet(s, r.registry, packet),
        RelayStep::Frame { id, header, now, buffer, reported } => registry_after_frame(
            s,
            r.registry,
            header,
            buffer,
            reported,
            r.capacity,
            r.eject_after,
        ),
        RelayStep::Tick { id, now } => registry_after_tick(
            s,
            r.registry,
            now,
            r.capacity,
            r.eject_after,
        ),
        RelayStep::Hear { id } => registry_after_hear(s, r.registry),
        RelayStep::Cancel { id, now } => if cancellable(s) {
            without(r.registry, s)
        } else {
            r.registry
        },
        RelayStep::RemoteClosed { id, application_closed, now } => if cancellable(s) {
            without(r.registry, s)
        } else {
            r.registry
        },
        _ => r.registry,
    }
}

/// The relay after a step.
pub open spec fn next(r: Relay, step: RelayStep) -> Relay {
    Relay {
        sessions: if step is Forget {
            r.sessions.remove(subject(step))
        } else {
            r.sessions.insert(subject(step), session_after(r, step))
        },
        registry: registry_after(r, step),
        ..r
    }
}

/// The relay after a run of steps; a step that cannot be taken is skipped.
pub open spec fn after_steps(r: Relay, steps: Seq<RelayStep>) -> Relay
    decreases steps.len(),
{
    if steps.len() == 0 {
        r
    } else {
        let before = after_steps(r, steps.drop_last());
        if enabled(before, steps.last()) {
            next(before, steps.last())
        } else {
            before
        }
    }
}

/// A relay without sessions and rooms.
pub open spec fn empty_relay(capacity: usize, eject_after: u32) -> Relay {
    Relay { sessions: Map::empty(), registry: Map::empty(), capacity, eject_after }
}

/// What holds of the relay at all times: every session is known by its own
/// number, is well formed and coherent with the registry, and every
/// membership belongs to a session that is known.
pub open spec fn sound(r: Relay) -> bool {
    &&& forall|id: u64| #[trigger]
        r.sessions.contains_key(id) ==> r.sessions[id].id == id && well_formed(r.sessions[id])
            && coherent(r.sessions[id], r.registry)
    &&& forall|room_id: u32, ssrc: u32| #[trigger]
        is_member(r.registry, room_id, ssrc) ==> r.sessions.contains_key(
            r.registry[room_id][ssrc].owner,
        )
}

/// No step of a session breaks its form.
pub proof fn lemma_steps_keep_well_formed(r: Relay, step: RelayStep)
    requires
        enabled(r, step),
        !(step is Accept) ==> well_formed(r.sessions[subject(step)]),
    ensures
        well_formed(session_after(r, step)),
        session_after(r, step).id == (if step is Accept {
            subject(step)
        } else {
            r.sessions[subject(step)].id
        }),
{
    let s = r.sessions[subject(step)];
    match step {
        RelayStep::Packet { id, packet, now } => {},
        _ => {},
    }
}

/// One step of one session leaves the registry with nothing new but in
/// that session's name, and leaves the session coherent with it.
proof fn lemma_step_touches_only(r: Relay, step: RelayStep)
    requires
        enabled(r, step),
        !(step is Accept),
        well_formed(r.sessions[subject(step)]),
        coherent(r.sessions[subject(step)], r.registry),
    ensures
        touches_only(r.registry, registry_after(r, step), r.sessions[subject(step)].id),
        coherent(session_after(r, step), registry_after(r, step)),
{
    let s = r.sessions[subject(step)];
    match step {
        RelayStep::Auth { id, result, now } => {
            lemma_auth_keeps_coherence(s, r.registry, result, now);
        },
        RelayStep::Packet { id, packet, now } => {
            lemma_packet_keeps_coherence(s, r.registry, packet, now);
        },
        RelayStep::Frame { id, header, now, buffer, reported } => {
            lemma_frame_keeps_coherence(
                s,
                r.registry,
                header,
                now,
                buffer,
                reported,
                r.capacity,
                r.eject_after,
            );
        },
        RelayStep::Tick { id, now } => {
            lemma_tick_keeps_coherence(s, r.registry, now, r.capacity, r.eject_after);
        },
        RelayStep::Hear { id } => {
            lemma_hearing_keeps_coherence(s, r.registry);
        },
        RelayStep::Cancel { id, now } => {
            lemma_ending_keeps_coherence(s, r.registry, true, now);
        },
        RelayStep::RemoteClosed { id, application_closed, now } => {
            lemma_ending_keeps_coherence(s, r.registry, application_closed, now);
        },
        RelayStep::TransportClosed { id } => {
            lemma_ending_keeps_coherence(s, r.registry, true, 0);
        },
        _ => {},
    }
}

/// The relay stays sound: whatever step is taken from a sound relay leads
/// to a sound relay.
pub proof fn lemma_step_keeps_relay_sound(r: Relay, step: RelayStep)
    requires
        sound(r),
        enabled(r, step),
    ensures
        sound(next(r, step)),
{
    let id = subject(step);
    let after = next(r, step);
    match step {
        RelayStep::Accept { id, config, now } => {
            assert forall|room: u32, x: u32| !#[trigger] owns(r.registry, id, room, x) by {
                if owns(r.registry, id, room, x) {
                    assert(is_member(r.registry, room, x));
                }
            }
            lemma_new_session_is_coherent(r.registry, id, config, now);
            assert forall|other: u64| #[trigger] after.sessions.contains_key(other) implies
                after.sessions[other].id == other && well_formed(after.sessions[other])
                && coherent(after.sessions[other], after.registry) by {
                if other != id {
                    assert(r.sessions.contains_key(other));
                }
            }
            assert forall|room: u32, x: u32| #[trigger]
                is_member(after.registry, room, x) implies after.sessions.contains_key(
                after.registry[room][x].owner,
            ) by {
                assert(r.sessions.contains_key(r.registry[room][x].owner));
            }
        },
        RelayStep::Forget { id } => {
            let s = r.sessions[id];
            assert(r.sessions.contains_key(id));
            assert forall|other: u64| #[trigger] after.sessions.contains_key(other) implies
                after.sessions[other].id == other && well_formed(after.sessions[other])
                && coherent(after.sessions[other], after.registry) by {
                assert(r.sessions.contains_key(other));
            }
            assert forall|room: u32, x: u32| #[trigger]
                is_member(after.registry, room, x) implies after.sessions.contains_key(
                after.registry[room][x].owner,
            ) by {
                let owner = r.registry[room][x].owner;
                assert(r.sessions.contains_key(owner));
                if owner == id {
                    assert(owns(r.registry, s.id, room, x));
                }
            }
        },
        _ => {
            let s = r.sessions[id];
            assert(r.sessions.contains_key(id));
            lemma_steps_keep_well_formed(r, step);
            lemma_step_touches_only(r, step);
            assert forall|other: u64| #[trigger] after.sessions.contains_key(other) implies
                after.sessions[other].id == other && well_formed(after.sessions[other])
                && coherent(after.sessions[other], after.registry) by {
                if other != id {
                    assert(r.sessions.contains_key(other));
                    lemma_others_stay_coherent(
                        r.sessions[other],
                        r.registry,
                        after.registry,
                        s.id,
                    );
                }
            }
            assert forall|room: u32, x: u32| #[trigger]
                is_member(after.registry, room, x) implies after.sessions.contains_key(
                after.registry[room][x].owner,
            ) by {
                if after.registry[room][x].owner != s.id {
                    assert(is_member(r.registry, room, x));
                    assert(r.sessions.contains_key(r.registry[room][x].owner));
                }
            }
        },
    }
}

/// Every relay that can be reached from the empty one is sound.
pub proof fn lemma_reachable_relay_is_sound(capacity: usize, eject_after: u32, steps: Seq<RelayStep>)
    ensures
        sound(after_steps(empty_relay(capacity, eject_after), steps)),
    decreases steps.len(),
{
    let start = empty_relay(capacity, eject_after);
    if steps.len() == 0 {
        assert(sound(start));
    } else {
        lemma_reachable_relay_is_sound(capacity, eject_after, steps.drop_last());
        let before = after_steps(start, steps.drop_last());
        if enabled(before, steps.last()) {
            lemma_step_keeps_relay_sound(before, steps.last());
        }
    }
}

/// In a sound relay every member of every room is a known session that is
/// active, has that room as its own and has joined under that SSRC.
pub proof fn lemma_members_are_active_sessions(r: Relay, room_id: u32, ssrc: u32)
    requires
        sound(r),
        is_member(r.registry, room_id, ssrc),
    ensures
        r.sessions.contains_key(r.registry[room_id][ssrc].owner),
        r.sessions[r.registry[room_id][ssrc].owner].state is Active,
        room_of(r.sessions[r.registry[room_id][ssrc].owner]) == room_id,
        r.sessions[r.registry[room_id][ssrc].owner].joined.contains(ssrc),
{
    let owner = r.registry[room_id][ssrc].owner;
    assert(r.sessions.contains_key(owner));
    assert(owns(r.registry, r.sessions[owner].id, room_id, ssrc));
}

/// In a sound relay no session that awaits authentication, drains or is
/// closed is the target of any broadcast.
pub proof fn lemma_only_active_sessions_are_targets(
    r: Relay,
    id: u64,
    room_id: u32,
    source: u32,
    sender: u64,
    target: u32,
)
    requires
        sound(r),
        r.sessions.contains_key(id),
        !(r.sessions[id].state is Active),
        broadcast_targets(r.registry, room_id, source, sender).contains(target),
    ensures
        r.registry[room_id][target].owner != id,
{
    lemma_inactive_session_is_no_target(
        r.sessions[id],
        r.registry,
        room_id,
        source,
        sender,
        target,
    );
}

/// Shutdown. Once the cancellation signal has reached a session of a sound
/// relay at `now`, that session is in no room, and a tick at or after its
/// drain deadline closes it.
pub proof fn lemma_cancelled_session_leaves_and_closes(r: Relay, id: u64, now: u64, later: u64)
    requires
        sound(r),
        r.sessions.contains_key(id),
        cancellable(r.sessions[id]),
        later >= deadline_from(now, r.sessions[id].config.drain_grace),
    ensures
        ({
            let cancelled = next(r, RelayStep::Cancel { id, now });
            let ticked = next(cancelled, RelayStep::Tick { id, now: later });
            &&& sound(cancelled)
            &&& cancelled.sessions[id].state is Draining
            &&& forall|room_id: u32, ssrc: u32|
                !#[trigger] owns(cancelled.registry, id, room_id, ssrc)
            &&& ticked.sessions[id].state is Closed
            &&& sound(ticked)
        }),
{
    let cancel = RelayStep::Cancel { id, now };
    let cancelled = next(r, cancel);
    lemma_step_keeps_relay_sound(r, cancel);
    assert(cancelled.sessions.contains_key(id));
    assert forall|room_id: u32, ssrc: u32| !#[trigger] owns(cancelled.registry, id, room_id, ssrc) by {
        if owns(cancelled.registry, id, room_id, ssrc) {
            assert(owns(cancelled.registry, cancelled.sessions[id].id, room_id, ssrc));
        }
    }
    let tick = RelayStep::Tick { id, now: later };
    lemma_step_keeps_relay_sound(cancelled, tick);
}

} // verus!
