//! The life of a session runs one way: PendingAuth, Active, Draining,
//! Closed. A cancelled session is closed by its drain deadline at the
//! latest, and takes in nothing while it drains.

use vstd::prelude::*;
use crate::auth::{AuthErrorSerde, Identity};
use crate::group_voice_session::MemberView;
use crate::packet::{MediaPacketView, PacketError, PacketHeader};
use crate::session::{
    after_auth,
    after_cancel,
    after_packet,
    after_frame,
    after_remote_close,
    after_tick,
    after_transport_closed,
    cancellable,
    closing,
    deadline_from,
    drop_reason,
    registry_after_packet,
    registry_after_frame,
    CloseReason,
    DropReason,
    EndCause,
    SessionState,
    SessionView,
};

verus! {

/// How far a session has come: each state counts one more than the one
/// before it.
pub open spec fn stage(state: SessionState) -> nat {
    match state {
        SessionState::PendingAuth => 0,
        SessionState::Active => 1,
        SessionState::Draining => 2,
        SessionState::Closed => 3,
    }
}

/// No step takes a session back: whatever happens, its state stays or
/// moves on.
pub proof fn lemma_no_way_back(
    s: SessionView,
    reg: Map<u32, Map<u32, MemberView>>,
    result: Result<Identity, AuthErrorSerde>,
    packet: Result<MediaPacketView, PacketError>,
    header: PacketHeader,
    buffer: Seq<i16>,
    reported: Option<usize>,
    application_closed: bool,
    now: u64,
)
    ensures
        stage(s.state) <= stage(after_auth(s, result, now).state),
        stage(s.state) <= stage(after_packet(s, reg, packet, now).state),
        stage(s.state) <= stage(after_frame(s, header, now, buffer, reported).state),
        stage(s.state) <= stage(after_tick(s, now).state),
        stage(s.state) <= stage(after_cancel(s, now).state),
        stage(s.state) <= stage(after_remote_close(s, application_closed, now).state),
        stage(s.state) <= stage(after_transport_closed(s).state),
{
}

/// A session becomes active only through a successful opening exchange.
pub proof fn lemma_active_only_by_auth(
    s: SessionView,
    reg: Map<u32, Map<u32, MemberView>>,
    result: Result<Identity, AuthErrorSerde>,
    packet: Result<MediaPacketView, PacketError>,
    header: PacketHeader,
    buffer: Seq<i16>,
    reported: Option<usize>,
    application_closed: bool,
    now: u64,
)
    requires
        !(s.state is Active),
    ensures
        after_auth(s, result, now).state is Active <==> s.state is PendingAuth && result is Ok,
        !(after_packet(s, reg, packet, now).state is Active),
        !(after_frame(s, header, now, buffer, reported).state is Active),
        !(after_tick(s, now).state is Active),
        !(after_cancel(s, now).state is Active),
        !(after_remote_close(s, application_closed, now).state is Active),
        !(after_transport_closed(s).state is Active),
{
}

/// Cancellation liveness. A session that is running when the cancel signal
/// comes at `now` drains from then on, with the order to close the
/// connection with code 1; and the first tick at or after the drain
/// deadline, or the transport's word that the connection is shut, whichever
/// comes first, closes it.
pub proof fn lemma_cancelled_session_closes(s: SessionView, now: u64, later: u64)
    requires
        cancellable(s),
        later >= deadline_from(now, s.config.drain_grace),
    ensures
        after_cancel(s, now).state is Draining,
        after_cancel(s, now).drain_deadline == deadline_from(now, s.config.drain_grace),
        after_cancel(s, now).joined.len() == 0,
        closing(CloseReason::ServerShutdown).code == 1,
        after_tick(after_cancel(s, now), later).state is Closed,
        after_transport_closed(after_cancel(s, now)).state is Closed,
{
}

/// A draining session takes in nothing: datagrams are dropped, decoded
/// frames are ignored, and ticks before the deadline change nothing, in the
/// session and in the registry.
pub proof fn lemma_draining_takes_nothing(
    s: SessionView,
    reg: Map<u32, Map<u32, MemberView>>,
    packet: Result<MediaPacketView, PacketError>,
    header: PacketHeader,
    buffer: Seq<i16>,
    reported: Option<usize>,
    capacity: usize,
    eject_after: u32,
    now: u64,
)
    requires
        s.state is Draining,
    ensures
        drop_reason(s, reg, packet) == Some(DropReason::NotActive),
        after_packet(s, reg, packet, now) == s,
        registry_after_packet(s, reg, packet) == reg,
        after_frame(s, header, now, buffer, reported) == s,
        registry_after_frame(s, reg, header, buffer, reported, capacity, eject_after) == reg,
        now < s.drain_deadline ==> after_tick(s, now) == s,
{
}

/// A peer that does not get through the opening exchange in time is turned
/// away: the first tick after the auth timeout ends the session for want
/// of an auth request, with the order to close with `auth failed`, and it
/// is closed by its drain deadline.
pub proof fn lemma_unauthenticated_session_closes(s: SessionView, now: u64, later: u64)
    requires
        s.state is PendingAuth,
        now - s.created_at > s.config.auth_timeout,
        later >= deadline_from(now, s.config.drain_grace),
    ensures
        after_tick(s, now).state is Draining,
        after_tick(s, now).cause == Some(
            EndCause::AuthFailed(AuthErrorSerde::NoAuthRequestReceived),
        ),
        closing(CloseReason::AuthFailed).code == 0,
        after_tick(after_tick(s, now), later).state is Closed,
{
}

/// A closed session stays closed and nothing changes it.
pub proof fn lemma_closed_is_final(
    s: SessionView,
    reg: Map<u32, Map<u32, MemberView>>,
    result: Result<Identity, AuthErrorSerde>,
    packet: Result<MediaPacketView, PacketError>,
    header: PacketHeader,
    buffer: Seq<i16>,
    reported: Option<usize>,
    application_closed: bool,
    now: u64,
)
    requires
        s.state is Closed,
    ensures
        after_auth(s, result, now) == s,
        after_packet(s, reg, packet, now) == s,
        after_frame(s, header, now, buffer, reported) == s,
        after_tick(s, now) == s,
        after_cancel(s, now) == s,
        after_remote_close(s, application_closed, now) == s,
        after_transport_closed(s) == s,
{
}

} // verus!
