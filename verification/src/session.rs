//! One voice session: a peer from the moment its connection is accepted
//! until everything it started has ended.
//!
//! The session does not wait for anything itself. Whoever drives it reads
//! the transport, runs the timers and calls the decoder, and tells the
//! session what happened; the session says what follows from it.

use vstd::prelude::*;
use crate::auth::{AuthErrorSerde, Identity};
use crate::codec::{decode_frame, decoded_frame, silence, CodecError};
use crate::packet::{
    parse_packet,
    parsed,
    version_bits,
    MediaPacket,
    MediaPacketView,
    PacketError,
    PacketHeader,
};
use crate::registry::{
    after_broadcast,
    after_join,
    after_leave_owned,
    held_by,
    is_member,
    GroupRegistry,
};
use crate::group_voice_session::{after_take, MemberView};
use crate::membership::{
    coherent,
    lemma_packet_keeps_coherence,
    lemma_ending_keeps_coherence,
    lemma_frame_keeps_coherence,
    lemma_hearing_keeps_coherence,
    lemma_leave_all_membership,
    lemma_sender_hears_nothing_of_itself,
    lemma_tick_keeps_coherence,
    touches_only,
};
use crate::timeline::{after_ingest, idle, ingest_emits, silence_due, SourceTimeline};

verus! {

/// Where a session stands in its life.
#[derive(Clone, Copy, Debug, PartialEq, Eq, Structural)]
pub enum SessionState {
    /// The connection is accepted; the peer has not been authenticated.
    PendingAuth,
    /// The peer is authenticated and may send and receive audio.
    Active,
    /// The session has ended; the transport has not confirmed it yet.
    Draining,
    /// Nothing is left of the session.
    Closed,
}

/// Why a connection is closed from this side.
#[derive(Clone, Copy, Debug, PartialEq, Eq, Structural)]
pub enum CloseReason {
    AuthFailed,
    ServerShutdown,
    Idle,
    PeerMisbehaving,
}

/// What ended a session.
#[derive(Clone, Copy, Debug, PartialEq, Eq, Structural)]
pub enum EndCause {
    /// The opening exchange failed.
    AuthFailed(AuthErrorSerde),
    /// The server is shutting down.
    Cancelled,
    /// The peer closed the connection.
    RemoteClosed,
    /// The transport failed.
    TransportFatal,
    /// Nothing was heard for longer than the idle timeout.
    PeerTimedOut,
    /// The peer sent too many frames in a row that did not decode.
    PeerMisbehaving,
}

/// An error that leaves the session and reaches the supervisor.
#[derive(Clone, Copy, Debug, PartialEq, Eq, Structural)]
pub enum SessionError {
    TransportFatal,
}

/// Why a datagram was dropped.
#[derive(Clone, Copy, Debug, PartialEq, Eq, Structural)]
pub enum DropReason {
    /// The session is not active.
    NotActive,
    /// The datagram is not a media packet.
    MalformedPacket,
    /// Another member of the room sends under the packet's SSRC.
    SsrcCollision,
}

/// The limits that a session is run with. Times are in milliseconds.
#[derive(Clone, Copy, Debug, PartialEq, Eq, Structural)]
pub struct SessionConfig {
    /// Silence from the driver for longer than this ends the session.
    pub idle_timeout: u64,
    /// Longest time that a session stays Draining.
    pub drain_grace: u64,
    /// Frames in a row that may fail to decode before the peer is dropped.
    pub codec_error_limit: u32,
    /// Longest time that the opening exchange may take.
    pub auth_timeout: u64,
}

/// The order to close the transport connection.
#[derive(Clone, Copy, Debug, PartialEq, Eq, Structural)]
pub struct CloseInstruction {
    /// Application error code to close with.
    pub code: u32,
    pub reason: CloseReason,
}

/// What became of a datagram.
pub enum DatagramOutcome {
    /// It is a media packet of this session: decode its payload with the
    /// decoder of its SSRC and hand the result to `on_frame`.
    Decode(MediaPacket),
    Dropped(DropReason),
}

/// What became of a decoded frame.
pub enum FrameOutcome {
    /// The PCM that was appended to the timeline and sent to the room;
    /// empty for a late or repeated packet.
    Emitted(Vec<i16>),
    /// The frame did not decode; it was counted.
    CodecFailure(CodecError),
    /// It did not decode, once too often: close the connection.
    Misbehaving(CloseInstruction),
    /// The frame does not belong to the source that is streaming.
    Ignored,
}

/// What a tick led to.
pub enum TickOutcome {
    /// The silence that was appended to the timeline and sent to the room;
    /// empty if none was owed.
    Silence(Vec<i16>),
    /// Nothing was heard for too long: close the connection.
    TimedOut(CloseInstruction),
    /// The opening exchange took too long: close the connection.
    AuthTimedOut(CloseInstruction),
    /// The drain deadline has passed: the session is now closed.
    Closed,
    /// Nothing to do.
    Nothing,
}

/// A session as a mathematical value.
pub struct SessionView {
    pub id: u64,
    pub config: SessionConfig,
    pub state: SessionState,
    pub identity: Option<Identity>,
    pub created_at: u64,
    /// The SSRC that is streaming, and its timeline.
    pub current: Option<u32>,
    pub timeline: SourceTimeline,
    /// The SSRC under which the session has joined its room, if it has.
    pub joined: Seq<u32>,
    pub malformed_packets: u64,
    pub codec_errors: u64,
    pub codec_strikes: u32,
    /// When the driver last reported a datagram or a tick.
    pub last_heard: u64,
    pub drain_deadline: u64,
    pub cause: Option<EndCause>,
}

/// The application error code that goes with a reason.
pub open spec fn code_of(reason: CloseReason) -> u32 {
    match reason {
        CloseReason::AuthFailed => 0,
        CloseReason::ServerShutdown => 1,
        CloseReason::Idle => 2,
        CloseReason::PeerMisbehaving => 3,
    }
}

/// The reason as it is sent to the peer.
pub open spec fn text_of(reason: CloseReason) -> Seq<char> {
    match reason {
        CloseReason::AuthFailed => "auth failed"@,
        CloseReason::ServerShutdown => "server shutdown"@,
        CloseReason::Idle => "idle"@,
        CloseReason::PeerMisbehaving => "peer misbehaving"@,
    }
}

/// The order to close for a reason, with the reason's code.
pub open spec fn closing(reason: CloseReason) -> CloseInstruction {
    CloseInstruction { code: code_of(reason), reason }
}

/// One more, but never past the largest value.
pub open spec fn bump64(x: u64) -> u64 {
    if x == u64::MAX {
        x
    } else {
        (x + 1) as u64
    }
}

/// One more, but never past the largest value.
pub open spec fn bump32(x: u32) -> u32 {
    if x == u32::MAX {
        x
    } else {
        (x + 1) as u32
    }
}

/// The instant at which a session that starts draining at `now` is closed
/// at the latest.
pub open spec fn deadline_from(now: u64, grace: u64) -> u64 {
    if now + grace > u64::MAX {
        u64::MAX
    } else {
        (now + grace) as u64
    }
}

/// The room of a session; 0 for one that has no identity yet.
pub open spec fn room_of(s: SessionView) -> u32 {
    match s.identity {
        Some(identity) => identity.room_id,
        None => 0,
    }
}

/// A session as it is created.
pub open spec fn pending(id: u64, config: SessionConfig, now: u64) -> SessionView {
    SessionView {
        id,
        config,
        state: SessionState::PendingAuth,
        identity: None,
        created_at: now,
        current: None,
        timeline: idle(),
        joined: Seq::empty(),
        malformed_packets: 0,
        codec_errors: 0,
        codec_strikes: 0,
        last_heard: now,
        drain_deadline: 0,
        cause: None,
    }
}

/// The session after it has ended for `cause`: it goes to `state`, gives up
/// its membership and its source, and must be closed by the deadline.
pub open spec fn ended(s: SessionView, cause: EndCause, state: SessionState, now: u64) -> SessionView {
    SessionView {
        state,
        cause: Some(cause),
        current: None,
        joined: Seq::empty(),
        drain_deadline: deadline_from(now, s.config.drain_grace),
        ..s
    }
}

/// The registry after session `owner` has given up the SSRCs in the room,
/// one after the other. A membership that has passed to another session
/// stays.
pub open spec fn after_leave_all(
    reg: Map<u32, Map<u32, MemberView>>,
    room_id: u32,
    ssrcs: Seq<u32>,
    owner: u64,
) -> Map<u32, Map<u32, MemberView>>
    decreases ssrcs.len(),
{
    if ssrcs.len() == 0 {
        reg
    } else {
        after_leave_owned(
            after_leave_all(reg, room_id, ssrcs.drop_last(), owner),
            room_id,
            ssrcs.last(),
            owner,
        )
    }
}

/// The registry without any membership of the session.
pub open spec fn without(reg: Map<u32, Map<u32, MemberView>>, s: SessionView) -> Map<
    u32,
    Map<u32, MemberView>,
> {
    after_leave_all(reg, room_of(s), s.joined, s.id)
}

/// What holds of every session: only an active one has an identity to act
/// under and a streaming source, and a session has joined its room under
/// the SSRC of the source that streams and under no other.
pub open spec fn well_formed(s: SessionView) -> bool {
    &&& s.state is Active ==> s.identity is Some
    &&& !(s.state is Active) ==> s.current is None
    &&& s.joined == match s.current {
        Some(ssrc) => seq![ssrc],
        None => Seq::empty(),
    }
}

// ---------------------------------------------------------------- auth

/// The session after the opening exchange has ended with `result`.
pub open spec fn after_auth(s: SessionView, result: Result<Identity, AuthErrorSerde>, now: u64) -> SessionView {
    if !(s.state is PendingAuth) {
        s
    } else {
        match result {
            Ok(identity) => SessionView {
                state: SessionState::Active,
                identity: Some(identity),
                last_heard: now,
                ..s
            },
            Err(e) => ended(s, EndCause::AuthFailed(e), SessionState::Draining, now),
        }
    }
}

/// What to do with the connection after the opening exchange: close it with
/// `auth failed` if the exchange failed.
pub open spec fn auth_instruction(s: SessionView, result: Result<Identity, AuthErrorSerde>) -> Option<
    CloseInstruction,
> {
    if s.state is PendingAuth && result is Err {
        Some(closing(CloseReason::AuthFailed))
    } else {
        None
    }
}

// ------------------------------------------------------------ datagram

/// Whether a packet under this SSRC makes the session join its room anew:
/// the SSRC is not the one that streams, and it is free.
pub open spec fn joins_with(s: SessionView, reg: Map<u32, Map<u32, MemberView>>, ssrc: u32) -> bool {
    s.current != Some(ssrc) && !is_member(reg, room_of(s), ssrc)
}

/// Whether a packet under this SSRC is turned away because the SSRC, which
/// is not the one that streams, is taken in the room.
pub open spec fn collides_with(s: SessionView, reg: Map<u32, Map<u32, MemberView>>, ssrc: u32) -> bool {
    s.current != Some(ssrc) && is_member(reg, room_of(s), ssrc)
}

/// What parsing gave, with the packet as a mathematical value.
pub open spec fn packet_view(packet: Result<MediaPacket, PacketError>) -> Result<
    MediaPacketView,
    PacketError,
> {
    match packet {
        Ok(p) => Ok(p@),
        Err(e) => Err(e),
    }
}

/// Why what parsing a datagram gave is dropped, if it is.
pub open spec fn drop_reason(
    s: SessionView,
    reg: Map<u32, Map<u32, MemberView>>,
    packet: Result<MediaPacketView, PacketError>,
) -> Option<DropReason> {
    if !(s.state is Active) {
        Some(DropReason::NotActive)
    } else {
        match packet {
            Err(_) => Some(DropReason::MalformedPacket),
            Ok(p) => if collides_with(s, reg, p.header.ssrc) {
                Some(DropReason::SsrcCollision)
            } else {
                None
            },
        }
    }
}

/// The session after a datagram that arrived at `now`, given what parsing it
/// gave. A packet under a new SSRC ends the timeline of the old one and
/// starts a fresh one, and the session is a member under the new SSRC in
/// place of the old.
pub open spec fn after_packet(
    s: SessionView,
    reg: Map<u32, Map<u32, MemberView>>,
    packet: Result<MediaPacketView, PacketError>,
    now: u64,
) -> SessionView {
    if !(s.state is Active) {
        s
    } else {
        match packet {
            Err(_) => SessionView {
                malformed_packets: bump64(s.malformed_packets),
                last_heard: now,
                ..s
            },
            Ok(p) => {
                let ssrc = p.header.ssrc;
                if s.current == Some(ssrc) || collides_with(s, reg, ssrc) {
                    SessionView { last_heard: now, ..s }
                } else {
                    SessionView {
                        current: Some(ssrc),
                        timeline: idle(),
                        joined: seq![ssrc],
                        last_heard: now,
                        ..s
                    }
                }
            },
        }
    }
}

/// The registry after a datagram, given what parsing it gave: if the
/// packet's SSRC was new and free, the session has given up the membership
/// it had and has joined its room under that SSRC.
pub open spec fn registry_after_packet(
    s: SessionView,
    reg: Map<u32, Map<u32, MemberView>>,
    packet: Result<MediaPacketView, PacketError>,
) -> Map<u32, Map<u32, MemberView>> {
    if s.state is Active && packet is Ok && joins_with(s, reg, packet->Ok_0.header.ssrc) {
        after_join(without(reg, s), room_of(s), packet->Ok_0.header.ssrc, s.id)
    } else {
        reg
    }
}

// --------------------------------------------------------------- frame

/// Whether a decoded frame belongs to the source that is streaming.
pub open spec fn frame_applies(s: SessionView, header: PacketHeader) -> bool {
    s.state is Active && s.current == Some(header.ssrc)
}

/// Whether a frame that failed to decode is one too many.
pub open spec fn strikes_out(s: SessionView) -> bool {
    bump32(s.codec_strikes) >= s.config.codec_error_limit
}

/// The PCM that a decoded frame adds to the timeline.
pub open spec fn frame_emits(
    s: SessionView,
    header: PacketHeader,
    buffer: Seq<i16>,
    reported: Option<usize>,
) -> Seq<i16> {
    if frame_applies(s, header) && decoded_frame(buffer, reported) is Ok {
        ingest_emits(s.timeline, header.sequence, decoded_frame(buffer, reported)->Ok_0)
    } else {
        Seq::empty()
    }
}

/// The session after the decoder has dealt with a packet's payload.
pub open spec fn after_frame(
    s: SessionView,
    header: PacketHeader,
    now: u64,
    buffer: Seq<i16>,
    reported: Option<usize>,
) -> SessionView {
    if !frame_applies(s, header) {
        s
    } else {
        match decoded_frame(buffer, reported) {
            Err(_) => {
                let counted = SessionView {
                    codec_errors: bump64(s.codec_errors),
                    codec_strikes: bump32(s.codec_strikes),
                    ..s
                };
                if strikes_out(s) {
                    ended(counted, EndCause::PeerMisbehaving, SessionState::Draining, now)
                } else {
                    counted
                }
            },
            Ok(_) => SessionView {
                codec_strikes: 0,
                timeline: after_ingest(s.timeline, header, now),
                ..s
            },
        }
    }
}

/// The registry after the decoder has dealt with a packet's payload: the
/// PCM that the frame added was broadcast to the room; a peer that is
/// dropped for misbehaving has left it.
pub open spec fn registry_after_frame(
    s: SessionView,
    reg: Map<u32, Map<u32, MemberView>>,
    header: PacketHeader,
    buffer: Seq<i16>,
    reported: Option<usize>,
    capacity: usize,
    eject_after: u32,
) -> Map<u32, Map<u32, MemberView>> {
    if !frame_applies(s, header) {
        reg
    } else if decoded_frame(buffer, reported) is Err {
        if strikes_out(s) {
            without(reg, s)
        } else {
            reg
        }
    } else if frame_emits(s, header, buffer, reported).len() > 0 {
        after_broadcast(
            reg,
            room_of(s),
            header.ssrc,
            s.id,
            frame_emits(s, header, buffer, reported),
            capacity,
            eject_after,
        )
    } else {
        reg
    }
}

// ---------------------------------------------------------------- tick

/// Whether the driver has been silent for longer than the idle timeout.
pub open spec fn timed_out(s: SessionView, now: u64) -> bool {
    s.state is Active && now - s.last_heard > s.config.idle_timeout
}

/// Frames of silence that a tick at `now` adds to the timeline.
pub open spec fn silence_owed(s: SessionView, now: u64) -> nat {
    if s.state is Active && !timed_out(s, now) && s.current is Some {
        silence_due(s.timeline, now)
    } else {
        0
    }
}

/// Whether the opening exchange has taken longer than it may.
pub open spec fn auth_overdue(s: SessionView, now: u64) -> bool {
    s.state is PendingAuth && now - s.created_at > s.config.auth_timeout
}

/// The session after a tick at `now`.
pub open spec fn after_tick(s: SessionView, now: u64) -> SessionView {
    match s.state {
        SessionState::PendingAuth => if auth_overdue(s, now) {
            ended(
                s,
                EndCause::AuthFailed(AuthErrorSerde::NoAuthRequestReceived),
                SessionState::Draining,
                now,
            )
        } else {
            s
        },
        SessionState::Draining => if now >= s.drain_deadline {
            SessionView { state: SessionState::Closed, ..s }
        } else {
            s
        },
        SessionState::Active => if timed_out(s, now) {
            ended(s, EndCause::PeerTimedOut, SessionState::Draining, now)
        } else {
            SessionView {
                timeline: if s.current is Some {
                    crate::timeline::after_tick(s.timeline, now)
                } else {
                    s.timeline
                },
                last_heard: now,
                ..s
            }
        },
        SessionState::Closed => s,
    }
}

/// The registry after a tick at `now`: owed silence was broadcast to the
/// room; a peer that timed out has left it.
pub open spec fn registry_after_tick(
    s: SessionView,
    reg: Map<u32, Map<u32, MemberView>>,
    now: u64,
    capacity: usize,
    eject_after: u32,
) -> Map<u32, Map<u32, MemberView>> {
    if timed_out(s, now) {
        without(reg, s)
    } else if silence_owed(s, now) > 0 {
        after_broadcast(
            reg,
            room_of(s),
            s.current->Some_0,
            s.id,
            silence(silence_owed(s, now)),
            capacity,
            eject_after,
        )
    } else {
        reg
    }
}

// ------------------------------------------------------------- hearing

/// Whether PCM from the others is waiting for the session: it is active,
/// has a source streaming, the membership under that source's SSRC is its
/// own, and the buffer is not empty.
pub open spec fn can_hear(s: SessionView, reg: Map<u32, Map<u32, MemberView>>) -> bool {
    s.state is Active && s.current is Some && held_by(reg, s.id, room_of(s), s.current->Some_0)
        && reg[room_of(s)][s.current->Some_0].queue.len() > 0
}

/// The registry after the session has taken the oldest PCM waiting for it.
pub open spec fn registry_after_hear(
    s: SessionView,
    reg: Map<u32, Map<u32, MemberView>>,
) -> Map<u32, Map<u32, MemberView>> {
    if can_hear(s, reg) {
        reg.insert(
            room_of(s),
            reg[room_of(s)].insert(
                s.current->Some_0,
                after_take(reg[room_of(s)][s.current->Some_0]),
            ),
        )
    } else {
        reg
    }
}

// ------------------------------------------------------------- endings

/// Whether the session is still to be ended by a cancellation.
pub open spec fn cancellable(s: SessionView) -> bool {
    s.state is PendingAuth || s.state is Active
}

/// The session after the server's cancellation signal.
pub open spec fn after_cancel(s: SessionView, now: u64) -> SessionView {
    if cancellable(s) {
        ended(s, EndCause::Cancelled, SessionState::Draining, now)
    } else {
        s
    }
}

/// The session after the peer closed the connection or the transport
/// failed: one that was running drains, one that had ended already is left
/// as it was.
pub open spec fn after_remote_close(s: SessionView, application_closed: bool, now: u64) -> SessionView {
    if cancellable(s) {
        ended(
            s,
            if application_closed {
                EndCause::RemoteClosed
            } else {
                EndCause::TransportFatal
            },
            SessionState::Draining,
            now,
        )
    } else {
        s
    }
}

/// The session after the transport has confirmed that the connection is shut.
pub open spec fn after_transport_closed(s: SessionView) -> SessionView {
    if s.state is Draining {
        SessionView { state: SessionState::Closed, ..s }
    } else {
        s
    }
}

// ------------------------------------------------------------- session

impl CloseReason {
    /// The application error code that goes with the reason.
    pub fn code(&self) -> (c: u32)
        ensures
            c == code_of(*self),
    {
        match self {
            CloseReason::AuthFailed => 0,
            CloseReason::ServerShutdown => 1,
            CloseReason::Idle => 2,
            CloseReason::PeerMisbehaving => 3,
        }
    }

    /// The reason as it is sent to the peer.
    pub fn text(&self) -> (t: String)
        ensures
            t@ == text_of(*self),
    {
        match self {
            CloseReason::AuthFailed => "auth failed".to_owned(),
            CloseReason::ServerShutdown => "server shutdown".to_owned(),
            CloseReason::Idle => "idle".to_owned(),
            CloseReason::PeerMisbehaving => "peer misbehaving".to_owned(),
        }
    }

    /// The order to close the connection for this reason.
    pub fn instruction(self) -> (i: CloseInstruction)
        ensures
            i == closing(self),
    {
        CloseInstruction { code: self.code(), reason: self }
    }
}

/// One authenticated peer, from accept to close.
pub struct VoiceSession {
    id: u64,
    config: SessionConfig,
    state: SessionState,
    identity: Option<Identity>,
    created_at: u64,
    current: Option<u32>,
    timeline: SourceTimeline,
    joined: Vec<u32>,
    malformed_packets: u64,
    codec_errors: u64,
    codec_strikes: u32,
    last_heard: u64,
    drain_deadline: u64,
    cause: Option<EndCause>,
}

impl View for VoiceSession {
    type V = SessionView;

    closed spec fn view(&self) -> SessionView {
        SessionView {
            id: self.id,
            config: self.config,
            state: self.state,
            identity: self.identity,
            created_at: self.created_at,
            current: self.current,
            timeline: self.timeline,
            joined: self.joined@,
            malformed_packets: self.malformed_packets,
            codec_errors: self.codec_errors,
            codec_strikes: self.codec_strikes,
            last_heard: self.last_heard,
            drain_deadline: self.drain_deadline,
            cause: self.cause,
        }
    }
}

impl VoiceSession {
    /// A session for a connection that was just accepted.
    pub fn new(id: u64, config: SessionConfig, now: u64) -> (s: VoiceSession)
        ensures
            s@ == pending(id, config, now),
            well_formed(s@),
    {
        let s = VoiceSession {
            id,
            config,
            state: SessionState::PendingAuth,
            identity: None,
            created_at: now,
            current: None,
            timeline: SourceTimeline::new(),
            joined: Vec::new(),
            malformed_packets: 0,
            codec_errors: 0,
            codec_strikes: 0,
            last_heard: now,
            drain_deadline: 0,
            cause: None,
        };
        assert(s@.joined =~= Seq::<u32>::empty());
        s
    }

    /// The number that the session is known by.
    pub fn id(&self) -> (id: u64)
        ensures
            id == self@.id,
    {
        self.id
    }

    /// Where the session stands in its life.
    pub fn state(&self) -> (st: SessionState)
        ensures
            st == self@.state,
    {
        self.state
    }

    /// Who the peer is, once it is authenticated.
    pub fn identity(&self) -> (i: Option<Identity>)
        ensures
            i == self@.identity,
    {
        self.identity
    }

    /// What ended the session, once it has ended.
    pub fn cause(&self) -> (c: Option<EndCause>)
        ensures
            c == self@.cause,
    {
        self.cause
    }

    /// The SSRC that is streaming.
    pub fn current_source(&self) -> (c: Option<u32>)
        ensures
            c == self@.current,
    {
        self.current
    }

    /// The timeline of the source that is streaming.
    pub fn timeline(&self) -> (t: SourceTimeline)
        ensures
            t == self@.timeline,
    {
        self.timeline
    }

    /// Datagrams dropped so far because they were no media packets.
    pub fn malformed_packets(&self) -> (n: u64)
        ensures
            n == self@.malformed_packets,
    {
        self.malformed_packets
    }

    /// Frames that failed to decode so far.
    pub fn codec_errors(&self) -> (n: u64)
        ensures
            n == self@.codec_errors,
    {
        self.codec_errors
    }

    /// The SSRC under which the session has joined its room: none or one.
    pub fn joined(&self) -> (j: &Vec<u32>)
        ensures
            j@ == self@.joined,
    {
        &self.joined
    }

    /// The room of the session; 0 before it is authenticated.
    pub fn room_id(&self) -> (r: u32)
        ensures
            r == room_of(self@),
    {
        match self.identity {
            Some(identity) => identity.room_id,
            None => 0,
        }
    }

    /// Frames of silence that a tick at `now` would add.
    pub fn frames_owed(&self, now: u64) -> (n: u64)
        ensures
            n == silence_owed(self@, now),
    {
        match self.state {
            SessionState::Active => {
                if self.idle_for_too_long(now) {
                    0
                } else {
                    match self.current {
                        Some(_) => self.timeline.frames_due(now),
                        None => 0,
                    }
                }
            },
            _ => 0,
        }
    }

    fn idle_for_too_long(&self, now: u64) -> (t: bool)
        ensures
            t == (now - self@.last_heard > self@.config.idle_timeout),
    {
        now > self.last_heard && now - self.last_heard > self.config.idle_timeout
    }

    /// Gives up every membership of the session.
    fn leave_all(&self, registry: &mut GroupRegistry)
        requires
            old(registry).wf(),
        ensures
            final(registry).wf(),
            final(registry).capacity() == old(registry).capacity(),
            final(registry).eject_threshold() == old(registry).eject_threshold(),
            final(registry)@ == without(old(registry)@, self@),
    {
        let room_id = self.room_id();
        let n = self.joined.len();
        let mut i: usize = 0;
        while i < n
            invariant
                i <= n,
                n == self.joined@.len(),
                room_id == room_of(self@),
                registry.wf(),
                registry.capacity() == old(registry).capacity(),
                registry.eject_threshold() == old(registry).eject_threshold(),
                registry@ == after_leave_all(
                    old(registry)@,
                    room_id,
                    self.joined@.take(i as int),
                    self.id,
                ),
            decreases n - i,
        {
            registry.leave_owned(room_id, self.joined[i], self.id);
            proof {
                let next = self.joined@.take(i + 1);
                assert(next.drop_last() =~= self.joined@.take(i as int));
                assert(next.last() == self.joined@[i as int]);
            }
            i += 1;
        }
        assert(self.joined@.take(n as int) =~= self.joined@);
    }

    /// Ends the session: it gives up its membership and goes to `state`.
    fn end(&mut self, registry: &mut GroupRegistry, cause: EndCause, state: SessionState, now: u64)
        requires
            old(registry).wf(),
        ensures
            final(registry).wf(),
            final(registry).capacity() == old(registry).capacity(),
            final(registry).eject_threshold() == old(registry).eject_threshold(),
            final(self)@ == ended(old(self)@, cause, state, now),
            final(registry)@ == without(old(registry)@, old(self)@),
    {
        self.leave_all(registry);
        self.joined = Vec::new();
        self.current = None;
        self.state = state;
        self.cause = Some(cause);
        self.drain_deadline = if now > u64::MAX - self.config.drain_grace {
            u64::MAX
        } else {
            now + self.config.drain_grace
        };
        assert(self@.joined =~= Seq::<u32>::empty());
    }

    /// Takes note of how the opening exchange ended. A peer that is in
    /// becomes active; for one that is not, the connection is to be closed
    /// with `auth failed`, and the session never becomes active.
    pub fn on_auth(&mut self, result: Result<Identity, AuthErrorSerde>, now: u64) -> (close: Option<
        CloseInstruction,
    >)
        requires
            well_formed(old(self)@),
        ensures
            well_formed(final(self)@),
            final(self)@ == after_auth(old(self)@, result, now),
            close == auth_instruction(old(self)@, result),
    {
        match self.state {
            SessionState::PendingAuth => match result {
                Ok(identity) => {
                    self.state = SessionState::Active;
                    self.identity = Some(identity);
                    self.last_heard = now;
                    None
                },
                Err(e) => {
                    self.state = SessionState::Draining;
                    self.cause = Some(EndCause::AuthFailed(e));
                    self.drain_deadline = if now > u64::MAX - self.config.drain_grace {
                        u64::MAX
                    } else {
                        now + self.config.drain_grace
                    };
                    assert(self@.joined =~= Seq::<u32>::empty());
                    Some(CloseReason::AuthFailed.instruction())
                },
            },
            _ => None,
        }
    }

    /// Takes in a datagram that arrived at `now`. A media packet of this
    /// session comes back for decoding. Under a new SSRC that is free the
    /// session first joins its room in place of the membership it had, and
    /// the source that streamed before is ended; under one that is taken
    /// the packet is dropped and the session goes on as it was. Anything
    /// else is dropped, and says why: a datagram shorter than the fixed
    /// header, or with version bits other than 2, is malformed and is
    /// counted.
    pub fn on_datagram(&mut self, registry: &mut GroupRegistry, bytes: &[u8], now: u64) -> (out:
        DatagramOutcome)
        requires
            well_formed(old(self)@),
            old(registry).wf(),
        ensures
            well_formed(final(self)@),
            final(registry).wf(),
            final(registry).capacity() == old(registry).capacity(),
            final(registry).eject_threshold() == old(registry).eject_threshold(),
            final(self)@ == after_packet(old(self)@, old(registry)@, parsed(bytes@), now),
            final(registry)@ == registry_after_packet(old(self)@, old(registry)@, parsed(bytes@)),
            coherent(old(self)@, old(registry)@) ==> coherent(final(self)@, final(registry)@),
            touches_only(old(registry)@, final(registry)@, old(self)@.id),
            match drop_reason(old(self)@, old(registry)@, parsed(bytes@)) {
                Some(why) => out matches DatagramOutcome::Dropped(w) && w == why,
                None => out matches DatagramOutcome::Decode(p) && Ok::<
                    MediaPacketView,
                    PacketError,
                >(p@) == parsed(bytes@),
            },
            old(self)@.state is Active && (bytes@.len() < 12 || version_bits(bytes@) != 2) ==> (out
                matches DatagramOutcome::Dropped(w) && w == DropReason::MalformedPacket
                && final(self)@.malformed_packets == bump64(old(self)@.malformed_packets)
                && final(registry)@ == old(registry)@),
    {
        let packet = parse_packet(bytes);
        self.on_packet(registry, packet, now)
    }

    /// Takes in what parsing a datagram that arrived at `now` gave. A media
    /// packet of this session comes back for decoding. Under a new SSRC that
    /// is free the session first joins its room in place of the membership
    /// it had, and the source that streamed before is ended; under one that
    /// is taken the packet is dropped and the session goes on as it was.
    /// Anything else is dropped, and says why.
    pub fn on_packet(
        &mut self,
        registry: &mut GroupRegistry,
        packet: Result<MediaPacket, PacketError>,
        now: u64,
    ) -> (out: DatagramOutcome)
        requires
            well_formed(old(self)@),
            old(registry).wf(),
        ensures
            well_formed(final(self)@),
            final(registry).wf(),
            final(registry).capacity() == old(registry).capacity(),
            final(registry).eject_threshold() == old(registry).eject_threshold(),
            final(self)@ == after_packet(old(self)@, old(registry)@, packet_view(packet), now),
            final(registry)@ == registry_after_packet(
                old(self)@,
                old(registry)@,
                packet_view(packet),
            ),
            coherent(old(self)@, old(registry)@) ==> coherent(final(self)@, final(registry)@),
            touches_only(old(registry)@, final(registry)@, old(self)@.id),
            match drop_reason(old(self)@, old(registry)@, packet_view(packet)) {
                Some(why) => out matches DatagramOutcome::Dropped(w) && w == why,
                None => out matches DatagramOutcome::Decode(p) && Ok::<
                    MediaPacket,
                    PacketError,
                >(p) == packet,
            },
    {
        proof {
            lemma_packet_keeps_coherence(old(self)@, old(registry)@, packet_view(packet), now);
        }
        match self.state {
            SessionState::Active => {},
            _ => {
                return DatagramOutcome::Dropped(DropReason::NotActive);
            },
        }
        self.last_heard = now;
        match packet {
            Err(_) => {
                if self.malformed_packets < u64::MAX {
                    self.malformed_packets = self.malformed_packets + 1;
                }
                DatagramOutcome::Dropped(DropReason::MalformedPacket)
            },
            Ok(packet) => {
                let ssrc = packet.header.ssrc;
                let streaming = match self.current {
                    Some(c) => c == ssrc,
                    None => false,
                };
                let room_id = self.room_id();
                if streaming {
                    DatagramOutcome::Decode(packet)
                } else if registry.contains(room_id, ssrc) {
                    DatagramOutcome::Dropped(DropReason::SsrcCollision)
                } else {
                    proof {
                        lemma_leave_all_membership(
                            old(registry)@,
                            room_id,
                            self@.joined,
                            self@.id,
                        );
                    }
                    self.leave_all(registry);
                    match registry.join(room_id, ssrc, self.id) {
                        Err(_) => DatagramOutcome::Dropped(DropReason::SsrcCollision),
                        Ok(_) => {
                            let mut joined: Vec<u32> = Vec::new();
                            joined.push(ssrc);
                            self.joined = joined;
                            self.current = Some(ssrc);
                            self.timeline = SourceTimeline::new();
                            assert(self@.joined =~= seq![ssrc]);
                            DatagramOutcome::Decode(packet)
                        },
                    }
                }
            },
        }
    }

    /// Takes in what the decoder made of a packet's payload: the buffer it
    /// wrote to and the number of samples it reports, or none if it
    /// refused. A frame is put on the timeline and what that emits is sent
    /// to the members of the room that belong to other sessions; a failure
    /// is counted, and too many in a row end the session. Nothing reaches a
    /// member of this session, under whatever SSRC it has joined.
    pub fn on_frame(
        &mut self,
        registry: &mut GroupRegistry,
        header: &PacketHeader,
        now: u64,
        buffer: &Vec<i16>,
        reported: Option<usize>,
    ) -> (out: FrameOutcome)
        requires
            well_formed(old(self)@),
            old(registry).wf(),
        ensures
            well_formed(final(self)@),
            final(registry).wf(),
            final(registry).capacity() == old(registry).capacity(),
            final(registry).eject_threshold() == old(registry).eject_threshold(),
            final(self)@ == after_frame(old(self)@, *header, now, buffer@, reported),
            final(registry)@ == registry_after_frame(
                old(self)@,
                old(registry)@,
                *header,
                buffer@,
                reported,
                old(registry).capacity(),
                old(registry).eject_threshold(),
            ),
            coherent(old(self)@, old(registry)@) ==> coherent(final(self)@, final(registry)@),
            touches_only(old(registry)@, final(registry)@, old(self)@.id),
            forall|r: u32, x: u32| #[trigger]
                held_by(old(registry)@, old(self)@.id, r, x) && is_member(final(registry)@, r, x)
                    ==> final(registry)@[r][x] == old(registry)@[r][x],
            forall|r: u32, x: u32| #[trigger]
                held_by(old(registry)@, old(self)@.id, r, x) && final(self)@.state is Active
                    ==> is_member(final(registry)@, r, x),
            !(final(self)@.state is Active) ==> forall|r: u32, x: u32| #[trigger]
                is_member(old(registry)@, r, x) && old(registry)@[r][x].owner != old(self)@.id
                    ==> is_member(final(registry)@, r, x) && final(registry)@[r][x] == old(
                    registry,
                )@[r][x],
            !frame_applies(old(self)@, *header) ==> out is Ignored,
            frame_applies(old(self)@, *header) ==> match decoded_frame(buffer@, reported) {
                Ok(_) => out matches FrameOutcome::Emitted(pcm) && pcm@ == frame_emits(
                    old(self)@,
                    *header,
                    buffer@,
                    reported,
                ),
                Err(e) => if strikes_out(old(self)@) {
                    out matches FrameOutcome::Misbehaving(c) && c == closing(
                        CloseReason::PeerMisbehaving,
                    )
                } else {
                    out matches FrameOutcome::CodecFailure(f) && f == e
                },
            },
    {
        proof {
            lemma_frame_keeps_coherence(
                old(self)@,
                old(registry)@,
                *header,
                now,
                buffer@,
                reported,
                old(registry).capacity(),
                old(registry).eject_threshold(),
            );
            lemma_sender_hears_nothing_of_itself(
                old(self)@,
                old(registry)@,
                *header,
                now,
                buffer@,
                reported,
                old(registry).capacity(),
                old(registry).eject_threshold(),
            );
            lemma_ending_keeps_coherence(old(self)@, old(registry)@, true, now);
        }
        let applies = match self.state {
            SessionState::Active => match self.current {
                Some(c) => c == header.ssrc,
                None => false,
            },
            _ => false,
        };
        if !applies {
            return FrameOutcome::Ignored;
        }
        match decode_frame(buffer, reported) {
            Err(e) => {
                if self.codec_errors < u64::MAX {
                    self.codec_errors = self.codec_errors + 1;
                }
                if self.codec_strikes < u32::MAX {
                    self.codec_strikes = self.codec_strikes + 1;
                }
                if self.codec_strikes >= self.config.codec_error_limit {
                    let ghost counted = self@;
                    self.end(registry, EndCause::PeerMisbehaving, SessionState::Draining, now);
                    proof {
                        assert(room_of(counted) == room_of(old(self)@));
                        assert(counted.joined == old(self)@.joined);
                    }
                    FrameOutcome::Misbehaving(CloseReason::PeerMisbehaving.instruction())
                } else {
                    FrameOutcome::CodecFailure(e)
                }
            },
            Ok(frame) => {
                self.codec_strikes = 0;
                let pcm = self.timeline.ingest(header, now, &frame);
                if pcm.len() > 0 {
                    let room_id = self.room_id();
                    registry.broadcast(room_id, header.ssrc, self.id, &pcm);
                }
                FrameOutcome::Emitted(pcm)
            },
        }
    }

    /// Takes in the periodic tick. An active session that has a source
    /// streaming fills the time since its last PCM with silence and sends it
    /// to the room; one that has heard nothing for too long is ended; one
    /// whose opening exchange has taken too long is ended with `auth
    /// failed`; a draining one is closed when its deadline has passed.
    ///
    /// The silence owed must fit in a vector.
    pub fn on_tick(&mut self, registry: &mut GroupRegistry, now: u64) -> (out: TickOutcome)
        requires
            well_formed(old(self)@),
            old(registry).wf(),
            silence_owed(old(self)@, now) * 960 <= usize::MAX,
        ensures
            well_formed(final(self)@),
            final(registry).wf(),
            final(registry).capacity() == old(registry).capacity(),
            final(registry).eject_threshold() == old(registry).eject_threshold(),
            final(self)@ == after_tick(old(self)@, now),
            final(registry)@ == registry_after_tick(
                old(self)@,
                old(registry)@,
                now,
                old(registry).capacity(),
                old(registry).eject_threshold(),
            ),
            coherent(old(self)@, old(registry)@) ==> coherent(final(self)@, final(registry)@),
            touches_only(old(registry)@, final(registry)@, old(self)@.id),
            forall|r: u32, x: u32| #[trigger]
                held_by(old(registry)@, old(self)@.id, r, x) && is_member(final(registry)@, r, x)
                    ==> final(registry)@[r][x] == old(registry)@[r][x],
            forall|r: u32, x: u32| #[trigger]
                held_by(old(registry)@, old(self)@.id, r, x) && final(self)@.state is Active
                    ==> is_member(final(registry)@, r, x),
            !(final(self)@.state is Active) ==> forall|r: u32, x: u32| #[trigger]
                is_member(old(registry)@, r, x) && old(registry)@[r][x].owner != old(self)@.id
                    ==> is_member(final(registry)@, r, x) && final(registry)@[r][x] == old(
                    registry,
                )@[r][x],
            match old(self)@.state {
                SessionState::Active => if timed_out(old(self)@, now) {
                    out matches TickOutcome::TimedOut(c) && c == closing(CloseReason::Idle)
                } else {
                    out matches TickOutcome::Silence(pcm) && pcm@ == silence(
                        silence_owed(old(self)@, now),
                    )
                },
                SessionState::Draining => if now >= old(self)@.drain_deadline {
                    out is Closed
                } else {
                    out is Nothing
                },
                SessionState::PendingAuth => if auth_overdue(old(self)@, now) {
                    out matches TickOutcome::AuthTimedOut(c) && c == closing(
                        CloseReason::AuthFailed,
                    )
                } else {
                    out is Nothing
                },
                SessionState::Closed => out is Nothing,
            },
    {
        proof {
            lemma_tick_keeps_coherence(
                old(self)@,
                old(registry)@,
                now,
                old(registry).capacity(),
                old(registry).eject_threshold(),
            );
            lemma_sender_hears_nothing_of_itself(
                old(self)@,
                old(registry)@,
                PacketHeader { payload_type: 0, sequence: 0, timestamp: 0, ssrc: 0 },
                now,
                Seq::empty(),
                None,
                old(registry).capacity(),
                old(registry).eject_threshold(),
            );
            lemma_ending_keeps_coherence(old(self)@, old(registry)@, true, now);
        }
        match self.state {
            SessionState::Draining => {
                if now >= self.drain_deadline {
                    self.state = SessionState::Closed;
                    TickOutcome::Closed
                } else {
                    TickOutcome::Nothing
                }
            },
            SessionState::Active => {
                if self.idle_for_too_long(now) {
                    self.end(registry, EndCause::PeerTimedOut, SessionState::Draining, now);
                    TickOutcome::TimedOut(CloseReason::Idle.instruction())
                } else {
                    self.last_heard = now;
                    match self.current {
                        Some(ssrc) => {
                            let pcm = self.timeline.tick(now);
                            if pcm.len() > 0 {
                                let room_id = self.room_id();
                                registry.broadcast(room_id, ssrc, self.id, &pcm);
                            }
                            proof {
                                let owed = silence_owed(old(self)@, now);
                                assert(pcm@.len() == owed * 960);
                                assert(pcm@.len() > 0 <==> owed > 0);
                            }
                            TickOutcome::Silence(pcm)
                        },
                        None => {
                            let pcm: Vec<i16> = Vec::new();
                            assert(pcm@ =~= silence(0));
                            TickOutcome::Silence(pcm)
                        },
                    }
                }
            },
            SessionState::PendingAuth => {
                if now > self.created_at && now - self.created_at > self.config.auth_timeout {
                    self.end(
                        registry,
                        EndCause::AuthFailed(AuthErrorSerde::NoAuthRequestReceived),
                        SessionState::Draining,
                        now,
                    );
                    TickOutcome::AuthTimedOut(CloseReason::AuthFailed.instruction())
                } else {
                    TickOutcome::Nothing
                }
            },
            SessionState::Closed => TickOutcome::Nothing,
        }
    }

    /// Takes the oldest PCM that the others in the room have sent and that
    /// waits for this session, to be passed on to the peer. What waits is
    /// what was sent by other sessions, in the order it was sent.
    pub fn hear(&self, registry: &mut GroupRegistry) -> (pcm: Option<Vec<i16>>)
        requires
            old(registry).wf(),
        ensures
            final(registry).wf(),
            final(registry).capacity() == old(registry).capacity(),
            final(registry).eject_threshold() == old(registry).eject_threshold(),
            final(registry)@ == registry_after_hear(self@, old(registry)@),
            can_hear(self@, old(registry)@) ==> (pcm matches Some(p) && p@ == old(
                registry,
            )@[room_of(self@)][self@.current->Some_0].queue[0]),
            !can_hear(self@, old(registry)@) ==> pcm is None,
            coherent(self@, old(registry)@) ==> coherent(self@, final(registry)@),
            touches_only(old(registry)@, final(registry)@, self@.id),
    {
        proof {
            lemma_hearing_keeps_coherence(self@, old(registry)@);
        }
        match self.state {
            SessionState::Active => match self.current {
                Some(ssrc) => {
                    let room_id = self.room_id();
                    registry.take_owned(room_id, ssrc, self.id)
                },
                None => None,
            },
            _ => None,
        }
    }

    /// Takes in the server's cancellation signal. A session that is still
    /// running gives up its membership and drains, and its connection is
    /// to be closed with code 1, `server shutdown`. The memberships of other
    /// sessions stay as they are, also one under an SSRC that this session
    /// once had.
    pub fn on_cancel(&mut self, registry: &mut GroupRegistry, now: u64) -> (close: Option<
        CloseInstruction,
    >)
        requires
            well_formed(old(self)@),
            old(registry).wf(),
        ensures
            well_formed(final(self)@),
            final(registry).wf(),
            final(registry).capacity() == old(registry).capacity(),
            final(registry).eject_threshold() == old(registry).eject_threshold(),
            final(self)@ == after_cancel(old(self)@, now),
            final(registry)@ == (if cancellable(old(self)@) {
                without(old(registry)@, old(self)@)
            } else {
                old(registry)@
            }),
            coherent(old(self)@, old(registry)@) ==> coherent(final(self)@, final(registry)@),
            touches_only(old(registry)@, final(registry)@, old(self)@.id),
            forall|r: u32, x: u32| #[trigger]
                is_member(old(registry)@, r, x) && old(registry)@[r][x].owner != old(self)@.id
                    ==> is_member(final(registry)@, r, x) && final(registry)@[r][x] == old(
                    registry,
                )@[r][x],
            close == (if cancellable(old(self)@) {
                Some(closing(CloseReason::ServerShutdown))
            } else {
                None
            }),
    {
        proof {
            lemma_ending_keeps_coherence(old(self)@, old(registry)@, true, now);
        }
        match self.state {
            SessionState::PendingAuth | SessionState::Active => {
                self.end(registry, EndCause::Cancelled, SessionState::Draining, now);
                Some(CloseReason::ServerShutdown.instruction())
            },
            _ => None,
        }
    }

    /// Takes in the end of the connection from the other side: closed by
    /// the peer's application, which ends a running session normally, or
    /// lost to a transport error, which ends it and is passed on. The
    /// session drains until the transport's word that the connection is
    /// shut is handed to `on_transport_closed`.
    pub fn on_remote_closed(
        &mut self,
        registry: &mut GroupRegistry,
        application_closed: bool,
        now: u64,
    ) -> (r: Result<(), SessionError>)
        requires
            well_formed(old(self)@),
            old(registry).wf(),
        ensures
            well_formed(final(self)@),
            final(registry).wf(),
            final(registry).capacity() == old(registry).capacity(),
            final(registry).eject_threshold() == old(registry).eject_threshold(),
            final(self)@ == after_remote_close(old(self)@, application_closed, now),
            final(registry)@ == (if cancellable(old(self)@) {
                without(old(registry)@, old(self)@)
            } else {
                old(registry)@
            }),
            coherent(old(self)@, old(registry)@) ==> coherent(final(self)@, final(registry)@),
            touches_only(old(registry)@, final(registry)@, old(self)@.id),
            forall|r: u32, x: u32| #[trigger]
                is_member(old(registry)@, r, x) && old(registry)@[r][x].owner != old(self)@.id
                    ==> is_member(final(registry)@, r, x) && final(registry)@[r][x] == old(
                    registry,
                )@[r][x],
            r is Err <==> !application_closed && cancellable(old(self)@),
            r is Err ==> r == Err::<(), SessionError>(SessionError::TransportFatal),
    {
        proof {
            lemma_ending_keeps_coherence(old(self)@, old(registry)@, application_closed, now);
        }
        match self.state {
            SessionState::PendingAuth | SessionState::Active => {
                if application_closed {
                    self.end(registry, EndCause::RemoteClosed, SessionState::Draining, now);
                    Ok(())
                } else {
                    self.end(registry, EndCause::TransportFatal, SessionState::Draining, now);
                    Err(SessionError::TransportFatal)
                }
            },
            _ => Ok(()),
        }
    }

    /// Takes note that the transport has shut the connection: a draining
    /// session is now closed.
    pub fn on_transport_closed(&mut self)
        requires
            well_formed(old(self)@),
        ensures
            well_formed(final(self)@),
            final(self)@ == after_transport_closed(old(self)@),
    {
        match self.state {
            SessionState::Draining => {
                self.state = SessionState::Closed;
            },
            _ => {},
        }
    }
}

} // verus!
