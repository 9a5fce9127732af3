use voxoxide::admission::{decide, screen, AdmissionDecision, ConnectionAdmission, Screening};
use voxoxide::auth::{
    accept_all, authenticate, check_stream, reply, ArsAuthRequestRaw, ArsAuthRequestSerde,
    AuthErrorRaw, AuthErrorSerde, ControlStream, Identity, AUTH_REQUEST_LIMIT,
};
use voxoxide::server::{Incoming, Server};
use voxoxide::supervisor::{
    alpn, check_policy, exit_code, transport_policy, Supervisor, SupervisorState, TransportPolicy,
};

#[test]
fn test_to_string_serde() {
    let error = AuthErrorSerde::InvalidAuthRequestReceived;
    assert_eq!(error.to_string(), "InvalidAuthRequestReceived");
}

#[test]
fn each_auth_error_has_its_name() {
    assert_eq!(AuthErrorSerde::NoAuthRequestReceived.to_string(), "NoAuthRequestReceived");
    assert_eq!(AuthErrorSerde::Rejected.to_string(), "Rejected");
    assert_eq!(AuthErrorRaw::NoAuthRequestReceived.to_string(), "invalid first item to double");
    assert_eq!(AuthErrorRaw::InvalidAuthRequestReceived.to_string(), "invalid first item to double");
    assert_eq!(AuthErrorRaw::Rejected.to_string(), "invalid first item to double");
}

#[test]
fn client_request_carries_placeholder_ten() {
    assert_eq!(ArsAuthRequestSerde::new().placeholder_id(), 10);
    assert_eq!(ArsAuthRequestSerde::with_id(42).placeholder_id(), 42);
    assert_eq!(ArsAuthRequestRaw::new(7).placeholder_id(), 7);
}

#[test]
fn decision_checks_the_limit_first() {
    assert_eq!(decide(3, 3, true), AdmissionDecision::RefusedOverLimit);
    assert_eq!(decide(3, 3, false), AdmissionDecision::RefusedOverLimit);
    assert_eq!(decide(4, 3, true), AdmissionDecision::RefusedOverLimit);
    assert_eq!(decide(2, 3, false), AdmissionDecision::RequireAddressValidation);
    assert_eq!(decide(2, 3, true), AdmissionDecision::Admitted);
    assert_eq!(decide(0, 0, true), AdmissionDecision::RefusedOverLimit);
}

#[test]
fn admission_cap_holds() {
    let mut a = ConnectionAdmission::new(2);
    assert_eq!(a.connection_limit(), 2);
    assert_eq!(a.try_admit(true), AdmissionDecision::Admitted);
    assert_eq!(a.try_admit(true), AdmissionDecision::Admitted);
    assert_eq!(a.open_connections(), 2);
    assert_eq!(a.try_admit(true), AdmissionDecision::RefusedOverLimit);
    assert_eq!(a.open_connections(), 2);
    a.on_closed();
    assert_eq!(a.open_connections(), 1);
    assert_eq!(a.try_admit(true), AdmissionDecision::Admitted);
    assert_eq!(a.try_admit(true), AdmissionDecision::RefusedOverLimit);
    assert_eq!(a.open_connections(), 2);
}

#[test]
fn unvalidated_peer_is_not_counted() {
    let mut a = ConnectionAdmission::new(1);
    assert_eq!(a.try_admit(false), AdmissionDecision::RequireAddressValidation);
    assert_eq!(a.open_connections(), 0);
    assert_eq!(a.try_admit(true), AdmissionDecision::Admitted);
    assert_eq!(a.try_admit(false), AdmissionDecision::RefusedOverLimit);
    a.on_closed();
    a.on_closed();
    assert_eq!(a.open_connections(), 0);
}

#[test]
fn auth_without_a_stream_is_no_request() {
    assert_eq!(check_stream(&ControlStream::NotOffered), Err(AuthErrorSerde::NoAuthRequestReceived));
    assert_eq!(
        authenticate(&ControlStream::NotOffered, None, None),
        Err(AuthErrorSerde::NoAuthRequestReceived)
    );
}

#[test]
fn auth_request_over_the_limit_is_invalid() {
    assert_eq!(AUTH_REQUEST_LIMIT, 1024);
    let at_limit = ControlStream::Payload(vec![b' '; 1024]);
    let over = ControlStream::Payload(vec![b' '; 1025]);
    assert_eq!(check_stream(&at_limit), Ok(()));
    assert_eq!(check_stream(&over), Err(AuthErrorSerde::InvalidAuthRequestReceived));
    assert_eq!(check_stream(&ControlStream::Unreadable), Err(AuthErrorSerde::InvalidAuthRequestReceived));
    let request = ArsAuthRequestSerde::new();
    assert_eq!(
        authenticate(&over, Some(request), accept_all(&request)),
        Err(AuthErrorSerde::InvalidAuthRequestReceived)
    );
}

#[test]
fn auth_request_that_does_not_decode_is_invalid() {
    let stream = ControlStream::Payload(b"not json".to_vec());
    assert_eq!(
        authenticate(&stream, None, None),
        Err(AuthErrorSerde::InvalidAuthRequestReceived)
    );
}

#[test]
fn auth_request_that_is_turned_down_is_rejected() {
    let stream = ControlStream::Payload(b"{\"placeholder_id\":10}".to_vec());
    assert_eq!(
        authenticate(&stream, Some(ArsAuthRequestSerde::new()), None),
        Err(AuthErrorSerde::Rejected)
    );
}

#[test]
fn auth_accepts_and_names_the_room() {
    let stream = ControlStream::Payload(b"{\"placeholder_id\":10}".to_vec());
    let request = ArsAuthRequestSerde::new();
    assert_eq!(accept_all(&request), Some(Identity { user_id: 10, room_id: 10 }));
    assert_eq!(
        authenticate(&stream, Some(request), accept_all(&request)),
        Ok(Identity { user_id: 10, room_id: 10 })
    );
}

#[test]
fn auth_reply_is_ok_or_the_rejection_tag() {
    assert_eq!(reply(&Ok(Identity { user_id: 1, room_id: 2 })), b"OK".to_vec());
    assert_eq!(reply(&Err(AuthErrorSerde::Rejected)), b"Rejected".to_vec());
    assert_eq!(reply(&Err(AuthErrorSerde::InvalidAuthRequestReceived)), Vec::<u8>::new());
    assert_eq!(reply(&Err(AuthErrorSerde::NoAuthRequestReceived)), Vec::<u8>::new());
}

#[test]
fn server_transport_policy_is_as_documented() {
    let p = transport_policy();
    assert_eq!(p.max_concurrent_uni_streams, 0);
    assert_eq!(p.max_concurrent_bidi_streams, 5);
    assert_eq!(p.datagram_receive_buffer_size, 5 * 1024);
    assert_eq!(p.stream_receive_window, 1024);
    assert!(check_policy(&p));
    assert_eq!(alpn(), b"hq-29".to_vec());
}

#[test]
fn policy_outside_the_limits_is_refused() {
    let good = transport_policy();
    assert!(!check_policy(&TransportPolicy { max_concurrent_uni_streams: 1, ..good }));
    assert!(!check_policy(&TransportPolicy { max_concurrent_bidi_streams: 6, ..good }));
    assert!(!check_policy(&TransportPolicy { datagram_receive_buffer_size: 5119, ..good }));
    assert!(!check_policy(&TransportPolicy { stream_receive_window: 1023, ..good }));
    assert!(check_policy(&TransportPolicy { datagram_receive_buffer_size: 51200, ..good }));
    assert!(check_policy(&TransportPolicy { max_concurrent_bidi_streams: 1, ..good }));
}

#[test]
fn exit_codes() {
    assert_eq!(exit_code(true), 0);
    assert_eq!(exit_code(false), 1);
}

#[test]
fn supervisor_waits_for_all_work() {
    let mut s = Supervisor::new();
    assert!(s.is_accepting());
    assert!(!s.is_cancelled());
    assert!(s.start_work());
    assert!(s.start_work());
    assert_eq!(s.in_flight(), 2);
    assert!(s.on_interrupt());
    assert!(!s.on_interrupt());
    assert_eq!(s.state(), SupervisorState::Stopping);
    assert!(!s.is_accepting());
    assert!(s.is_cancelled());
    assert!(!s.start_work());
    assert_eq!(s.in_flight(), 2);
    s.on_finished();
    assert!(!s.may_return());
    s.on_finished();
    assert!(s.may_return());
    assert_eq!(s.state(), SupervisorState::Stopped);
    s.on_finished();
    assert_eq!(s.in_flight(), 0);
    assert!(s.may_return());
}

#[test]
fn supervisor_without_work_stops_at_once() {
    let mut s = Supervisor::new();
    assert!(!s.may_return());
    assert!(s.on_interrupt());
    assert!(s.may_return());
}

#[test]
fn supervisor_counts_finished_work_while_running() {
    let mut s = Supervisor::new();
    s.start_work();
    s.on_finished();
    assert_eq!(s.in_flight(), 0);
    assert_eq!(s.state(), SupervisorState::Running);
}

#[test]
fn screening_looks_at_limit_then_block_then_validation() {
    assert_eq!(screen(5, Some(5), true, true, false), Screening::RefuseOverLimit);
    assert_eq!(screen(4, Some(5), true, true, false), Screening::RefuseBlocked);
    assert_eq!(screen(4, Some(5), false, true, false), Screening::Retry);
    assert_eq!(screen(4, Some(5), false, true, true), Screening::Accept);
    assert_eq!(screen(4, Some(5), false, false, false), Screening::Accept);
    assert_eq!(screen(1_000_000, None, false, false, false), Screening::Accept);
    assert_eq!(screen(1_000_000, None, true, false, true), Screening::RefuseBlocked);
    assert_eq!(screen(0, Some(0), false, false, true), Screening::RefuseOverLimit);
}

#[test]
fn server_front_door_serves_up_to_the_limit() {
    let mut server = Server::new(2);
    assert!(server.is_accepting());
    assert_eq!(server.on_incoming(false), Incoming::Retry);
    assert_eq!(server.on_incoming(true), Incoming::Serve);
    assert_eq!(server.on_incoming(true), Incoming::Serve);
    assert_eq!(server.open_connections(), 2);
    assert_eq!(server.on_incoming(true), Incoming::Refuse);
    assert_eq!(server.on_incoming(false), Incoming::Refuse);
    assert_eq!(server.open_connections(), 2);
    server.on_session_closed();
    assert_eq!(server.open_connections(), 1);
    assert_eq!(server.on_incoming(true), Incoming::Serve);
    assert_eq!(server.on_incoming(true), Incoming::Refuse);
}

#[test]
fn server_front_door_lets_nobody_in_after_the_interrupt() {
    let mut server = Server::new(5);
    assert_eq!(server.on_incoming(true), Incoming::Serve);
    assert_eq!(server.on_incoming(true), Incoming::Serve);
    assert!(server.on_interrupt());
    assert!(!server.on_interrupt());
    assert!(!server.is_accepting());
    assert_eq!(server.on_incoming(true), Incoming::Refuse);
    assert_eq!(server.open_connections(), 2);
    assert!(!server.may_return());
    server.on_session_closed();
    assert!(!server.may_return());
    server.on_session_closed();
    assert!(server.may_return());
    assert_eq!(server.open_connections(), 0);
}

#[test]
fn idle_server_returns_at_once_on_interrupt() {
    let mut server = Server::new(5);
    assert!(server.on_interrupt());
    assert!(server.may_return());
}
