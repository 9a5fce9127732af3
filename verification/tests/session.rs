use voxoxide::auth::{AuthErrorSerde, Identity};
use voxoxide::codec::CodecError;
use voxoxide::packet::{MediaPacket, PacketError, PacketHeader};
use voxoxide::registry::GroupRegistry;
use voxoxide::session::{
    CloseInstruction, CloseReason, DatagramOutcome, DropReason, EndCause, FrameOutcome,
    SessionConfig, SessionError, SessionState, TickOutcome, VoiceSession,
};

const CONFIG: SessionConfig =
    SessionConfig { idle_timeout: 5_000, drain_grace: 1_000, codec_error_limit: 3, auth_timeout: 3_000 };

fn datagram(sequence: u16, ssrc: u32) -> Vec<u8> {
    let mut bytes = vec![0x80, 111];
    bytes.extend(sequence.to_be_bytes());
    bytes.extend((1200u32 + 160 * sequence as u32).to_be_bytes());
    bytes.extend(ssrc.to_be_bytes());
    bytes.extend([0xF8, 0xFF, 0xFE]);
    bytes
}

fn active(id: u64, room_id: u32) -> VoiceSession {
    let mut s = VoiceSession::new(id, CONFIG, 0);
    assert_eq!(s.on_auth(Ok(Identity { user_id: id as u32, room_id }), 0), None);
    assert_eq!(s.state(), SessionState::Active);
    s
}

/// Runs a datagram through the session as the driver does, with a decoder
/// that turns every payload into one frame filled with `value`.
fn send(
    s: &mut VoiceSession,
    registry: &mut GroupRegistry,
    sequence: u16,
    ssrc: u32,
    now: u64,
    value: i16,
) -> Vec<i16> {
    match s.on_datagram(registry, &datagram(sequence, ssrc), now) {
        DatagramOutcome::Decode(packet) => {
            assert_eq!(packet.payload, vec![0xF8, 0xFF, 0xFE]);
            match s.on_frame(registry, &packet.header, now, &vec![value; 960], Some(960)) {
                FrameOutcome::Emitted(pcm) => pcm,
                _ => panic!("frame was not emitted"),
            }
        }
        DatagramOutcome::Dropped(why) => panic!("datagram was dropped: {:?}", why),
    }
}

fn drain(registry: &mut GroupRegistry, room_id: u32, ssrc: u32) -> Vec<i16> {
    let mut all = Vec::new();
    while let Some(pcm) = registry.take(room_id, ssrc) {
        all.extend(pcm);
    }
    all
}

#[test]
fn happy_path_solo_records_4800_zero_samples() {
    let mut registry = GroupRegistry::new(64, 8);
    let mut s = VoiceSession::new(1, CONFIG, 0);
    assert_eq!(s.state(), SessionState::PendingAuth);
    assert_eq!(s.on_auth(Ok(Identity { user_id: 10, room_id: 10 }), 0), None);
    let mut recorder = Vec::new();
    for seq in 0..5u16 {
        recorder.extend(send(&mut s, &mut registry, seq, 0xA, 20 * seq as u64, 0));
    }
    assert_eq!(recorder, vec![0i16; 4800]);
    assert!(registry.contains(10, 0xA));
    assert_eq!(registry.owner_of(10, 0xA), Some(1));
    assert_eq!(s.current_source(), Some(0xA));
    assert_eq!(s.joined(), &vec![0xA]);
}

#[test]
fn gap_in_a_session_is_silence() {
    let mut registry = GroupRegistry::new(64, 8);
    let mut s = active(1, 10);
    let mut recorder = Vec::new();
    let mut now = 0;
    for seq in [0u16, 1, 3, 4] {
        recorder.extend(send(&mut s, &mut registry, seq, 0xA, now, 7));
        now += 20;
    }
    assert_eq!(recorder.len(), 4800);
    assert!(recorder[1920..2880].iter().all(|&x| x == 0));
    assert!(recorder[..1920].iter().all(|&x| x == 7));
    assert!(recorder[2880..].iter().all(|&x| x == 7));
}

#[test]
fn reorder_within_window_in_a_session() {
    let run = |order: [u16; 4]| {
        let mut registry = GroupRegistry::new(64, 8);
        let mut s = active(1, 10);
        let mut recorder = Vec::new();
        let mut now = 0;
        for seq in order {
            recorder.extend(send(&mut s, &mut registry, seq, 0xA, now, 0));
            now += 20;
        }
        recorder
    };
    assert_eq!(run([0, 2, 1, 3]), run([0, 1, 2, 3]));
}

#[test]
fn late_packet_in_a_session_changes_nothing() {
    let mut registry = GroupRegistry::new(64, 8);
    let mut s = active(1, 10);
    let mut recorder = Vec::new();
    for seq in 0..4u16 {
        recorder.extend(send(&mut s, &mut registry, seq, 0xA, 20 * seq as u64, 5));
    }
    let before = recorder.clone();
    recorder.extend(send(&mut s, &mut registry, 1, 0xA, 80, 5));
    assert_eq!(recorder, before);
    assert_eq!(recorder.len(), 3840);
}

#[test]
fn two_peers_hear_each_other_and_not_themselves() {
    let mut registry = GroupRegistry::new(64, 8);
    let mut a = active(1, 42);
    let mut b = active(2, 42);
    send(&mut a, &mut registry, 0, 0xA, 0, 11);
    send(&mut b, &mut registry, 0, 0xB, 0, 22);
    assert_eq!(registry.member_count(42), 2);
    drain(&mut registry, 42, 0xA);
    drain(&mut registry, 42, 0xB);
    let mut sent_by_a = Vec::new();
    let mut sent_by_b = Vec::new();
    for seq in 1..4u16 {
        sent_by_a.extend(send(&mut a, &mut registry, seq, 0xA, 20 * seq as u64, 11));
        sent_by_b.extend(send(&mut b, &mut registry, seq, 0xB, 20 * seq as u64, 22));
    }
    let heard_by_a = drain(&mut registry, 42, 0xA);
    let heard_by_b = drain(&mut registry, 42, 0xB);
    assert_eq!(sent_by_a, vec![11i16; 2880]);
    assert_eq!(sent_by_b, vec![22i16; 2880]);
    assert_eq!(heard_by_a, sent_by_b);
    assert_eq!(heard_by_b, sent_by_a);
}

#[test]
fn peer_that_joins_later_misses_what_was_sent_before() {
    let mut registry = GroupRegistry::new(64, 8);
    let mut a = active(1, 42);
    let mut b = active(2, 42);
    send(&mut a, &mut registry, 0, 0xA, 0, 11);
    send(&mut b, &mut registry, 0, 0xB, 0, 22);
    send(&mut a, &mut registry, 1, 0xA, 20, 11);
    assert_eq!(drain(&mut registry, 42, 0xB), vec![11i16; 960]);
    assert_eq!(drain(&mut registry, 42, 0xA), vec![22i16; 960]);
}

#[test]
fn shutdown_closes_both_peers_with_code_one() {
    let mut registry = GroupRegistry::new(64, 8);
    let mut a = active(1, 42);
    let mut b = active(2, 42);
    send(&mut a, &mut registry, 0, 0xA, 0, 1);
    send(&mut b, &mut registry, 0, 0xB, 0, 2);
    let close_a = a.on_cancel(&mut registry, 100).unwrap();
    let close_b = b.on_cancel(&mut registry, 100).unwrap();
    for close in [close_a, close_b] {
        assert_eq!(close.code, 1);
        assert_eq!(close.reason, CloseReason::ServerShutdown);
        assert_eq!(close.reason.text(), "server shutdown");
    }
    assert_eq!(a.state(), SessionState::Draining);
    assert_eq!(registry.room_count(), 0);
    assert_eq!(a.cause(), Some(EndCause::Cancelled));
    assert!(matches!(a.on_tick(&mut registry, 1_099), TickOutcome::Nothing));
    assert_eq!(a.state(), SessionState::Draining);
    assert!(matches!(a.on_tick(&mut registry, 1_100), TickOutcome::Closed));
    assert_eq!(a.state(), SessionState::Closed);
    b.on_transport_closed();
    assert_eq!(b.state(), SessionState::Closed);
    assert_eq!(a.on_cancel(&mut registry, 2_000), None);
}

#[test]
fn close_reasons_have_their_codes_and_texts() {
    assert_eq!(CloseReason::AuthFailed.code(), 0);
    assert_eq!(CloseReason::AuthFailed.text(), "auth failed");
    assert_eq!(CloseReason::ServerShutdown.code(), 1);
    assert_eq!(CloseReason::ServerShutdown.text(), "server shutdown");
    assert_eq!(CloseReason::Idle.code(), 2);
    assert_eq!(CloseReason::Idle.text(), "idle");
    assert_eq!(CloseReason::PeerMisbehaving.code(), 3);
    assert_eq!(CloseReason::PeerMisbehaving.text(), "peer misbehaving");
    assert_eq!(
        CloseReason::Idle.instruction(),
        CloseInstruction { code: 2, reason: CloseReason::Idle }
    );
}

#[test]
fn failed_auth_closes_with_auth_failed_and_never_becomes_active() {
    for error in [
        AuthErrorSerde::NoAuthRequestReceived,
        AuthErrorSerde::InvalidAuthRequestReceived,
        AuthErrorSerde::Rejected,
    ] {
        let mut registry = GroupRegistry::new(64, 8);
        let mut s = VoiceSession::new(1, CONFIG, 0);
        let close = s.on_auth(Err(error), 10).unwrap();
        assert_eq!(close, CloseInstruction { code: 0, reason: CloseReason::AuthFailed });
        assert_eq!(close.reason.text(), "auth failed");
        assert_eq!(s.state(), SessionState::Draining);
        assert_eq!(s.cause(), Some(EndCause::AuthFailed(error)));
        assert_eq!(s.on_auth(Ok(Identity { user_id: 1, room_id: 1 }), 20), None);
        assert_eq!(s.state(), SessionState::Draining);
        assert!(matches!(
            s.on_datagram(&mut registry, &datagram(0, 0xA), 30),
            DatagramOutcome::Dropped(DropReason::NotActive)
        ));
        assert_eq!(registry.room_count(), 0);
    }
}

#[test]
fn pending_session_is_in_no_room() {
    let mut registry = GroupRegistry::new(64, 8);
    let mut pending = VoiceSession::new(7, CONFIG, 0);
    let mut other = active(1, 10);
    assert!(matches!(
        pending.on_datagram(&mut registry, &datagram(0, 0xC), 0),
        DatagramOutcome::Dropped(DropReason::NotActive)
    ));
    assert!(matches!(
        pending.on_frame(
            &mut registry,
            &PacketHeader { payload_type: 111, sequence: 0, timestamp: 0, ssrc: 0xC },
            0,
            &vec![1; 960],
            Some(960)
        ),
        FrameOutcome::Ignored
    ));
    send(&mut other, &mut registry, 0, 0xA, 0, 1);
    assert_eq!(registry.member_count(10), 1);
    assert_eq!(registry.owner_of(10, 0xA), Some(1));
    assert_eq!(registry.room_count(), 1);
    assert!(pending.joined().is_empty());
    assert_eq!(pending.room_id(), 0);
    assert!(!registry.contains(0, 0xC));
}

#[test]
fn malformed_datagram_is_counted_and_dropped() {
    let mut registry = GroupRegistry::new(64, 8);
    let mut s = active(1, 10);
    assert!(matches!(
        s.on_datagram(&mut registry, &[1, 2, 3], 0),
        DatagramOutcome::Dropped(DropReason::MalformedPacket)
    ));
    let mut wrong_version = datagram(0, 0xA);
    wrong_version[0] = 0x40;
    assert!(matches!(
        s.on_datagram(&mut registry, &wrong_version, 0),
        DatagramOutcome::Dropped(DropReason::MalformedPacket)
    ));
    assert_eq!(s.malformed_packets(), 2);
    assert_eq!(s.state(), SessionState::Active);
    assert_eq!(registry.room_count(), 0);
    assert_eq!(send(&mut s, &mut registry, 0, 0xA, 0, 1).len(), 960);
}

#[test]
fn codec_errors_are_counted_and_too_many_end_the_session() {
    let mut registry = GroupRegistry::new(64, 8);
    let mut s = active(1, 10);
    send(&mut s, &mut registry, 0, 0xA, 0, 1);
    let header = PacketHeader { payload_type: 111, sequence: 1, timestamp: 0, ssrc: 0xA };
    let buffer = vec![0i16; 960];
    assert!(matches!(
        s.on_frame(&mut registry, &header, 20, &buffer, None),
        FrameOutcome::CodecFailure(CodecError::InvalidPayload)
    ));
    assert!(matches!(
        s.on_frame(&mut registry, &header, 20, &buffer, Some(480)),
        FrameOutcome::CodecFailure(CodecError::WrongFrameLength)
    ));
    assert_eq!(s.codec_errors(), 2);
    assert_eq!(s.state(), SessionState::Active);
    match s.on_frame(&mut registry, &header, 20, &buffer, None) {
        FrameOutcome::Misbehaving(close) => {
            assert_eq!(close, CloseInstruction { code: 3, reason: CloseReason::PeerMisbehaving })
        }
        _ => panic!("session should have ended"),
    }
    assert_eq!(s.codec_errors(), 3);
    assert_eq!(s.state(), SessionState::Draining);
    assert_eq!(s.cause(), Some(EndCause::PeerMisbehaving));
    assert_eq!(registry.room_count(), 0);
}

#[test]
fn good_frame_ends_a_run_of_codec_errors() {
    let mut registry = GroupRegistry::new(64, 8);
    let mut s = active(1, 10);
    send(&mut s, &mut registry, 0, 0xA, 0, 1);
    let header = |sequence| PacketHeader { payload_type: 111, sequence, timestamp: 0, ssrc: 0xA };
    let buffer = vec![0i16; 960];
    for round in 0..4u16 {
        s.on_frame(&mut registry, &header(2 * round + 1), 20, &buffer, None);
        s.on_frame(&mut registry, &header(2 * round + 1), 20, &buffer, None);
        assert!(matches!(
            s.on_frame(&mut registry, &header(2 * round + 2), 20, &buffer, Some(960)),
            FrameOutcome::Emitted(_)
        ));
    }
    assert_eq!(s.codec_errors(), 8);
    assert_eq!(s.state(), SessionState::Active);
}

#[test]
fn ssrc_collision_drops_the_packet_and_the_session_goes_on() {
    let mut registry = GroupRegistry::new(64, 8);
    let mut a = active(1, 10);
    let mut b = active(2, 10);
    send(&mut a, &mut registry, 0, 0xA, 0, 1);
    assert!(matches!(
        b.on_datagram(&mut registry, &datagram(0, 0xA), 0),
        DatagramOutcome::Dropped(DropReason::SsrcCollision)
    ));
    assert_eq!(b.state(), SessionState::Active);
    assert_eq!(b.current_source(), None);
    assert_eq!(registry.owner_of(10, 0xA), Some(1));
    assert_eq!(send(&mut b, &mut registry, 0, 0xB, 0, 2).len(), 960);
    assert_eq!(registry.owner_of(10, 0xB), Some(2));
}

#[test]
fn new_ssrc_starts_a_new_timeline() {
    let mut registry = GroupRegistry::new(64, 8);
    let mut s = active(1, 10);
    send(&mut s, &mut registry, 100, 0xA, 0, 1);
    send(&mut s, &mut registry, 101, 0xA, 20, 1);
    let out = send(&mut s, &mut registry, 5, 0xB, 40, 2);
    assert_eq!(out, vec![2i16; 960]);
    assert_eq!(s.current_source(), Some(0xB));
    assert_eq!(s.timeline().base_sequence, 5);
    assert_eq!(s.joined(), &vec![0xB]);
    assert!(!registry.contains(10, 0xA));
    assert_eq!(registry.owner_of(10, 0xB), Some(1));
    assert_eq!(registry.member_count(10), 1);
    let header = PacketHeader { payload_type: 111, sequence: 102, timestamp: 0, ssrc: 0xA };
    assert!(matches!(
        s.on_frame(&mut registry, &header, 60, &vec![1; 960], Some(960)),
        FrameOutcome::Ignored
    ));
    let back = send(&mut s, &mut registry, 50, 0xA, 80, 3);
    assert_eq!(back, vec![3i16; 960]);
    assert_eq!(s.joined(), &vec![0xA]);
    assert!(!registry.contains(10, 0xB));
    assert_eq!(registry.owner_of(10, 0xA), Some(1));
}

#[test]
fn tick_fills_quiet_time_with_silence_for_the_room() {
    let mut registry = GroupRegistry::new(64, 8);
    let mut a = active(1, 10);
    let mut b = active(2, 10);
    send(&mut b, &mut registry, 0, 0xB, 0, 2);
    send(&mut a, &mut registry, 0, 0xA, 0, 1);
    drain(&mut registry, 10, 0xB);
    assert_eq!(a.frames_owed(20), 0);
    match a.on_tick(&mut registry, 20) {
        TickOutcome::Silence(pcm) => assert!(pcm.is_empty()),
        _ => panic!("expected silence"),
    }
    assert_eq!(a.frames_owed(65), 3);
    match a.on_tick(&mut registry, 65) {
        TickOutcome::Silence(pcm) => assert_eq!(pcm, vec![0i16; 2880]),
        _ => panic!("expected silence"),
    }
    assert_eq!(drain(&mut registry, 10, 0xB), vec![0i16; 2880]);
    assert!(drain(&mut registry, 10, 0xA).iter().all(|&x| x == 1 || x == 2));
}

#[test]
fn tick_of_a_session_without_source_emits_nothing() {
    let mut registry = GroupRegistry::new(64, 8);
    let mut s = active(1, 10);
    match s.on_tick(&mut registry, 1_000) {
        TickOutcome::Silence(pcm) => assert!(pcm.is_empty()),
        _ => panic!("expected silence"),
    }
    let mut pending = VoiceSession::new(2, CONFIG, 0);
    assert!(matches!(pending.on_tick(&mut registry, 1_000), TickOutcome::Nothing));
}

#[test]
fn silent_driver_times_the_session_out() {
    let mut registry = GroupRegistry::new(64, 8);
    let mut s = active(1, 10);
    send(&mut s, &mut registry, 0, 0xA, 0, 1);
    assert!(matches!(s.on_tick(&mut registry, 5_000), TickOutcome::Silence(_)));
    match s.on_tick(&mut registry, 10_001) {
        TickOutcome::TimedOut(close) => {
            assert_eq!(close, CloseInstruction { code: 2, reason: CloseReason::Idle });
            assert_eq!(close.reason.text(), "idle");
        }
        _ => panic!("expected a timeout"),
    }
    assert_eq!(s.state(), SessionState::Draining);
    assert_eq!(s.cause(), Some(EndCause::PeerTimedOut));
    assert_eq!(registry.room_count(), 0);
}

#[test]
fn remote_close_ends_the_session_normally() {
    let mut registry = GroupRegistry::new(64, 8);
    let mut s = active(1, 10);
    send(&mut s, &mut registry, 0, 0xA, 0, 1);
    assert_eq!(s.on_remote_closed(&mut registry, true, 50), Ok(()));
    assert_eq!(s.state(), SessionState::Draining);
    assert_eq!(s.cause(), Some(EndCause::RemoteClosed));
    assert_eq!(registry.room_count(), 0);
    assert_eq!(s.on_remote_closed(&mut registry, false, 60), Ok(()));
    assert_eq!(s.cause(), Some(EndCause::RemoteClosed));
    s.on_transport_closed();
    assert_eq!(s.state(), SessionState::Closed);
    assert_eq!(s.on_remote_closed(&mut registry, false, 70), Ok(()));
    assert_eq!(s.state(), SessionState::Closed);
}

#[test]
fn transport_error_is_passed_on() {
    let mut registry = GroupRegistry::new(64, 8);
    let mut a = active(1, 10);
    let mut b = active(2, 10);
    send(&mut a, &mut registry, 0, 0xA, 0, 1);
    send(&mut b, &mut registry, 0, 0xB, 0, 2);
    assert_eq!(a.on_remote_closed(&mut registry, false, 50), Err(SessionError::TransportFatal));
    assert_eq!(a.state(), SessionState::Draining);
    assert_eq!(a.cause(), Some(EndCause::TransportFatal));
    assert_eq!(b.state(), SessionState::Active);
    assert!(registry.contains(10, 0xB));
    assert!(!registry.contains(10, 0xA));
}

#[test]
fn cancel_before_auth_drains_too() {
    let mut registry = GroupRegistry::new(64, 8);
    let mut s = VoiceSession::new(1, CONFIG, 0);
    let close = s.on_cancel(&mut registry, 10).unwrap();
    assert_eq!(close, CloseInstruction { code: 1, reason: CloseReason::ServerShutdown });
    assert_eq!(s.state(), SessionState::Draining);
    assert_eq!(s.identity(), None);
    assert_eq!(s.id(), 1);
}

#[test]
fn slow_opening_exchange_ends_the_session() {
    let mut registry = GroupRegistry::new(64, 8);
    let mut s = VoiceSession::new(1, CONFIG, 1_000);
    assert!(matches!(s.on_tick(&mut registry, 4_000), TickOutcome::Nothing));
    assert_eq!(s.state(), SessionState::PendingAuth);
    match s.on_tick(&mut registry, 4_001) {
        TickOutcome::AuthTimedOut(close) => {
            assert_eq!(close, CloseInstruction { code: 0, reason: CloseReason::AuthFailed })
        }
        _ => panic!("expected the opening exchange to time out"),
    }
    assert_eq!(s.state(), SessionState::Draining);
    assert_eq!(s.cause(), Some(EndCause::AuthFailed(AuthErrorSerde::NoAuthRequestReceived)));
    assert!(matches!(s.on_tick(&mut registry, 5_001), TickOutcome::Closed));
    assert!(matches!(s.on_tick(&mut registry, 9_000), TickOutcome::Nothing));
    assert_eq!(s.state(), SessionState::Closed);
}

#[test]
fn authenticated_session_is_not_held_to_the_auth_timeout() {
    let mut registry = GroupRegistry::new(64, 8);
    let mut s = active(1, 10);
    assert!(matches!(s.on_tick(&mut registry, 4_000), TickOutcome::Silence(_)));
    assert_eq!(s.state(), SessionState::Active);
}

#[test]
fn parsed_packet_is_taken_as_the_datagram_would_be() {
    let mut registry = GroupRegistry::new(64, 8);
    let mut s = active(1, 10);
    let packet = MediaPacket {
        header: PacketHeader { payload_type: 111, sequence: 9, timestamp: 77, ssrc: 0xC },
        payload: vec![1, 2, 3],
    };
    match s.on_packet(&mut registry, Ok(packet), 5) {
        DatagramOutcome::Decode(p) => {
            assert_eq!(p.header.sequence, 9);
            assert_eq!(p.header.ssrc, 0xC);
            assert_eq!(p.payload, vec![1, 2, 3]);
        }
        DatagramOutcome::Dropped(why) => panic!("dropped: {:?}", why),
    }
    assert_eq!(registry.owner_of(10, 0xC), Some(1));
    assert!(matches!(
        s.on_packet(&mut registry, Err(PacketError::MalformedPacket), 6),
        DatagramOutcome::Dropped(DropReason::MalformedPacket)
    ));
    assert_eq!(s.malformed_packets(), 1);
}

#[test]
fn session_hears_nothing_of_itself_after_changing_ssrc() {
    let mut registry = GroupRegistry::new(64, 8);
    let mut s = active(1, 10);
    let mut other = active(2, 10);
    send(&mut s, &mut registry, 0, 0xA, 0, 5);
    send(&mut s, &mut registry, 0, 0xB, 20, 6);
    send(&mut s, &mut registry, 1, 0xB, 40, 6);
    assert_eq!(registry.owner_of(10, 0xA), None);
    assert_eq!(registry.owner_of(10, 0xB), Some(1));
    assert_eq!(registry.take(10, 0xB), None);
    assert_eq!(s.hear(&mut registry), None);
    send(&mut other, &mut registry, 0, 0xC, 60, 9);
    send(&mut s, &mut registry, 2, 0xB, 80, 6);
    assert_eq!(s.hear(&mut registry), Some(vec![9i16; 960]));
    assert_eq!(s.hear(&mut registry), None);
    assert_eq!(other.hear(&mut registry), Some(vec![6i16; 960]));
    assert_eq!(other.hear(&mut registry), None);
    match s.on_tick(&mut registry, 200) {
        TickOutcome::Silence(pcm) => assert_eq!(pcm.len(), 6 * 960),
        _ => panic!("expected silence"),
    }
    assert_eq!(s.hear(&mut registry), None);
    assert_eq!(other.hear(&mut registry), Some(vec![0i16; 6 * 960]));
    assert_eq!(registry.member_count(10), 2);
}

#[test]
fn ending_session_leaves_a_membership_that_has_passed_on() {
    let mut registry = GroupRegistry::new(1, 1);
    let mut one = active(1, 10);
    let mut talker = active(3, 10);
    send(&mut one, &mut registry, 0, 0xA, 0, 1);
    send(&mut talker, &mut registry, 0, 0xC, 0, 3);
    send(&mut talker, &mut registry, 1, 0xC, 20, 3);
    assert!(!registry.contains(10, 0xA));
    let mut two = active(2, 10);
    send(&mut two, &mut registry, 0, 0xA, 40, 2);
    assert_eq!(registry.owner_of(10, 0xA), Some(2));
    assert!(one.on_cancel(&mut registry, 50).is_some());
    assert_eq!(one.state(), SessionState::Draining);
    assert_eq!(registry.owner_of(10, 0xA), Some(2));
    assert_eq!(two.state(), SessionState::Active);
    assert_eq!(one.hear(&mut registry), None);
}

#[test]
fn session_that_is_not_active_hears_nothing() {
    let mut registry = GroupRegistry::new(64, 8);
    let pending = VoiceSession::new(7, CONFIG, 0);
    assert_eq!(pending.hear(&mut registry), None);
    let idle = active(1, 10);
    assert_eq!(idle.hear(&mut registry), None);
}
