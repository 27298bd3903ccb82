//! The session that a login starts, and the frames of the login protocol.

use devcore::session::{
    encode_frame, frame_length, is_absolute_executable, AuthMessageKind, ByteOrder, Exchange,
    GreetdRequest, GreetdResponse, GreetdSession, SessionError, SessionLaunchSpec, MAX_FRAME_BYTES,
};

#[test]
fn default_session_contract_is_wayland_and_direct() {
    let launch = SessionLaunchSpec::devcore();

    assert_eq!(
        launch.command().unwrap(),
        vec![
            "/usr/bin/devcore-compositor",
            "--backend",
            "drm",
            "--shell",
            "/usr/bin/devcore-shell"
        ]
    );
    assert!(launch
        .environment
        .iter()
        .any(|entry| entry == "XDG_SESSION_TYPE=wayland"));
}

#[test]
fn launch_rejects_relative_executables_and_malformed_environment() {
    let mut launch = SessionLaunchSpec::devcore();
    launch.shell = "devcore-shell".into();
    assert!(launch.command().is_err());

    let mut launch = SessionLaunchSpec::devcore();
    launch.environment.push("XDG_TEST=value".to_owned());
    assert!(launch.validate().is_ok());
    launch.environment.push("malformed".to_owned());
    assert!(launch.validate().is_err());
}

#[test]
fn frames_carry_their_length_in_the_order_of_the_machine() {
    let payload = b"Password:".to_vec();
    let little = encode_frame(&payload, ByteOrder::LittleEndian).unwrap();
    assert_eq!(&little[..4], &[9, 0, 0, 0]);
    assert_eq!(&little[4..], b"Password:");
    let big = encode_frame(&payload, ByteOrder::BigEndian).unwrap();
    assert_eq!(&big[..4], &[0, 0, 0, 9]);
    assert_eq!(frame_length(&[9, 0, 0, 0], ByteOrder::LittleEndian), Ok(9));
    assert_eq!(frame_length(&[0, 0, 0, 9], ByteOrder::BigEndian), Ok(9));
}

#[test]
fn frames_are_bounded() {
    assert_eq!(MAX_FRAME_BYTES, 1_048_576);
    assert_eq!(frame_length(&[0, 0, 16, 0], ByteOrder::LittleEndian), Ok(1_048_576));
    assert!(frame_length(&[1, 0, 16, 0], ByteOrder::LittleEndian).is_err());
}

#[test]
fn executables_are_absolute() {
    assert!(is_absolute_executable("/usr/bin/devcore-shell"));
    assert!(!is_absolute_executable("devcore-shell"));
}

#[test]
fn the_socket_has_to_be_named() {
    let session =
        GreetdSession::connect_from_environment(Some("/run/greetd.sock".to_owned())).unwrap();
    assert_eq!(session.socket, "/run/greetd.sock");
    let missing = GreetdSession::connect_from_environment(None).unwrap_err();
    assert_eq!(missing, SessionError::SocketNotConfigured);
    assert_eq!(missing.message(), "GREETD_SOCK is not configured");
    let empty = GreetdSession::connect("").unwrap_err();
    assert_eq!(empty, SessionError::InvalidSocket(String::new()));
    assert_eq!(empty.message(), "invalid greetd socket ");
}

#[test]
fn only_a_valid_session_is_asked_for() {
    let session = GreetdSession::connect("/run/greetd.sock").unwrap();
    assert_eq!(
        session.create_session("developer"),
        GreetdRequest::CreateSession { username: "developer".to_owned() }
    );
    assert_eq!(
        session.post_auth_message_response(Some("transient-response".to_owned())),
        GreetdRequest::PostAuthMessageResponse { response: Some("transient-response".to_owned()) }
    );
    let launch = SessionLaunchSpec::devcore();
    assert_eq!(
        session.start_session(&launch),
        Ok(GreetdRequest::StartSession {
            cmd: launch.command().unwrap(),
            env: launch.environment.clone(),
        })
    );
    assert_eq!(session.cancel_session(), GreetdRequest::CancelSession);
    let mut broken = SessionLaunchSpec::devcore();
    broken.environment.push("=value".to_owned());
    assert_eq!(session.start_session(&broken), Err(SessionError::InvalidEnvironment));
    let mut root = SessionLaunchSpec::devcore();
    root.compositor = "/".to_owned();
    assert_eq!(
        session.start_session(&root).unwrap_err().message(),
        "invalid session executable /"
    );
}

#[test]
fn failures_of_the_socket_and_of_the_protocol_differ() {
    let session = GreetdSession::connect("/run/greetd.sock").unwrap();
    assert_eq!(
        session.request(Exchange::NotSent("broken pipe".to_owned())).unwrap_err().message(),
        "greetd I/O error: broken pipe"
    );
    assert_eq!(
        session.request(Exchange::Unreadable("eof".to_owned())).unwrap_err().message(),
        "greetd protocol error: eof"
    );
    let reply = GreetdResponse::AuthMessage {
        kind: AuthMessageKind::Secret,
        message: "Authentication response:".to_owned(),
    };
    assert_eq!(session.request(Exchange::Reply(reply.clone())), Ok(reply));
}
