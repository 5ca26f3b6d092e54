use bffh::auth::{login_outcome, simple_credentials, ValidationError, ValidationKind};
use bffh::auth::{
    abort, build_error, answer_without_session, finish_step, take_session, AuthError, ErrorCode,
    SessionStep, State, StepAnswer,
};
use bffh::config::{parse_port, push_decimal, Listen, ListenError, DEFAULT_PORT};

#[test]
fn listen_with_and_without_port() {
    let l = Listen::parse_host_port("localhost:1234").ok().unwrap();
    assert_eq!(l.address(), "localhost");
    assert_eq!(l.port(), Some(1234));
    assert_eq!(l.to_string(), "localhost:1234");
    assert_eq!(l.to_config_string(), "localhost:1234");

    let l = Listen::parse_host_port("fabaccess.example").ok().unwrap();
    assert_eq!(l.port(), None);
    assert_eq!(l.effective_port(), DEFAULT_PORT);
    assert_eq!(l.to_string(), "fabaccess.example:59661");
    assert_eq!(l.to_config_string(), "fabaccess.example");
}

#[test]
fn listen_port_errors() {
    assert_eq!(Listen::parse_host_port("host:abc").err(), Some(ListenError::InvalidPort));
    assert_eq!(Listen::parse_host_port("host:65536").err(), Some(ListenError::InvalidPort));
    assert_eq!(Listen::parse_host_port("host:").err(), Some(ListenError::InvalidPort));
    assert_eq!(Listen::parse_host_port("host:+").err(), Some(ListenError::InvalidPort));
    assert_eq!(Listen::parse_host_port("host:-1").err(), Some(ListenError::InvalidPort));
    let l = Listen::parse_host_port("host:1:2").ok().unwrap();
    assert_eq!((l.address(), l.port()), ("host", Some(1)));
    let l = Listen::parse_host_port("host:+80").ok().unwrap();
    assert_eq!(l.port(), Some(80));
}

#[test]
fn listen_prefers_socket_then_ip_addresses() {
    let l = Listen::from_config_str("127.0.0.1:80", Some(("127.0.0.1".to_string(), 80)), None).ok().unwrap();
    assert_eq!((l.address(), l.port()), ("127.0.0.1", Some(80)));
    let l = Listen::from_config_str("::1", None, Some("::1".to_string())).ok().unwrap();
    assert_eq!((l.address(), l.port()), ("::1", None));
    let l = Listen::from_config_str("host:7", None, None).ok().unwrap();
    assert_eq!((l.address(), l.port()), ("host", Some(7)));
}

#[test]
fn listen_round_trip() {
    for (addr, port) in [("localhost", Some(1u16)), ("a.b", None), ("x", Some(65535))] {
        let l = Listen::new(addr.to_string(), port);
        let back = Listen::parse_host_port(&l.to_config_string()).ok().unwrap();
        assert_eq!(back.address(), addr);
        assert_eq!(back.port(), port);
    }
}

#[test]
fn ports_and_decimals() {
    assert_eq!(parse_port("0"), Some(0));
    assert_eq!(parse_port("65535"), Some(65535));
    assert_eq!(parse_port("0065535"), Some(65535));
    assert_eq!(parse_port("655350"), None);
    assert_eq!(parse_port(""), None);
    assert_eq!(parse_port("1x"), None);
    let mut s = String::from("p=");
    push_decimal(&mut s, 59661);
    assert_eq!(s, "p=59661");
    let mut s = String::new();
    push_decimal(&mut s, 0);
    assert_eq!(s, "0");
}

#[test]
fn auth_step_outcomes() {
    let mut state: State<u32> = State::Running(7);
    let session = take_session(&mut state).unwrap();
    assert!(matches!(state, State::Aborted));
    assert_eq!(finish_step(&mut state, session, SessionStep::NeedsMore), StepAnswer::Challenge);
    assert!(matches!(state, State::Running(7)));

    let session = take_session(&mut state).unwrap();
    assert_eq!(
        finish_step(&mut state, session, SessionStep::Done { has_data: true }),
        StepAnswer::Successful { additional_data: true }
    );
    assert!(matches!(state, State::Finished));

    assert!(take_session(&mut state).is_none());
    assert_eq!(answer_without_session(&state), StepAnswer::Failed(ErrorCode::Aborted));

    let mut state: State<u32> = State::Running(1);
    let session = take_session(&mut state).unwrap();
    assert_eq!(
        finish_step(&mut state, session, SessionStep::Failed),
        StepAnswer::Failed(ErrorCode::Aborted)
    );
}

#[test]
fn auth_error_codes() {
    assert_eq!(build_error(&State::<u32>::InvalidMechanism), Some(ErrorCode::BadMechanism));
    assert_eq!(build_error(&State::<u32>::Finished), Some(ErrorCode::Aborted));
    assert_eq!(build_error(&State::Running(0u32)), None);
    let mut state = State::<u32>::InvalidMechanism;
    assert!(take_session(&mut state).is_none());
    assert_eq!(answer_without_session(&state), StepAnswer::Failed(ErrorCode::Aborted));
    let mut state = State::Running(3u32);
    abort(&mut state);
    assert!(matches!(state, State::Aborted));
    assert!(AuthError::BadAuthcid < AuthError::NotAllowedAuthzid);
}

#[test]
fn simple_validation_decisions() {
    assert_eq!(
        simple_credentials(ValidationKind::Other, Some("a".to_string()), Some("p".to_string())),
        Err(ValidationError::NoValidate)
    );
    assert_eq!(simple_credentials(ValidationKind::Simple, None, Some("p".to_string())), Err(ValidationError::NoAuthId));
    assert_eq!(simple_credentials(ValidationKind::Simple, Some("a".to_string()), None), Err(ValidationError::NoPassword));
    assert_eq!(
        simple_credentials(ValidationKind::Simple, Some("a".to_string()), Some("p".to_string())),
        Ok(("a".to_string(), "p".to_string()))
    );
    assert_eq!(login_outcome(true), Ok(()));
    assert_eq!(login_outcome(false), Err(ValidationError::AuthenticationFailure));
}
