use balancebeam::config::Config;
use balancebeam::config::ConfigError;
use balancebeam::handler::HandlerAction;
use balancebeam::handler::HandlerEvent;
use balancebeam::handler::HandlerState;
use balancebeam::handler::RequestError;
use balancebeam::handler::Session;
use balancebeam::handler::handler_step;
use balancebeam::message::HttpRequest;
use balancebeam::message::HttpResponse;

fn tiny_request() -> HttpRequest {
    HttpRequest {
        method: String::from("GET"),
        uri: String::from("/"),
        headers: vec![(String::from("host"), String::from("example.test"))],
        body: Vec::new(),
    }
}

fn fresh_session() -> Session {
    Session::new(String::from("1.2.3.4"))
}

#[test]
fn content_length_mismatch_gets_400_and_keeps_the_connection() {
    // A request whose Content-Length does not match its body is answered
    // with 400 and the connection stays open for the next request.
    let session = fresh_session();
    let (session, action) = handler_step(
        session,
        HandlerEvent::RequestFailed(RequestError::ContentLengthMismatch),
    );
    assert!(matches!(action, HandlerAction::SendErrorThenContinue(400)));
    assert!(matches!(session.state, HandlerState::ReadingRequest));
    let (_, action) = handler_step(session, HandlerEvent::RequestRead(tiny_request()));
    assert!(matches!(action, HandlerAction::CheckAdmission));
}

#[test]
fn clean_close_ends_the_connection_silently() {
    let (session, action) = handler_step(
        fresh_session(),
        HandlerEvent::RequestFailed(RequestError::Incomplete { bytes_read: 0 }),
    );
    assert!(matches!(action, HandlerAction::Close));
    assert!(matches!(session.state, HandlerState::Closed));
}

#[test]
fn transport_error_ends_the_connection_silently() {
    let (session, action) = handler_step(
        fresh_session(),
        HandlerEvent::RequestFailed(RequestError::Transport),
    );
    assert!(matches!(action, HandlerAction::Close));
    assert!(matches!(session.state, HandlerState::Closed));
}

#[test]
fn oversized_body_gets_413_and_keeps_the_connection() {
    let (session, action) = handler_step(
        fresh_session(),
        HandlerEvent::RequestFailed(RequestError::BodyTooLarge),
    );
    assert!(matches!(action, HandlerAction::SendErrorThenContinue(413)));
    assert!(matches!(session.state, HandlerState::ReadingRequest));
}

#[test]
fn parse_failures_get_400_and_keep_the_connection() {
    for error in [
        RequestError::Malformed,
        RequestError::InvalidContentLength,
        RequestError::Incomplete { bytes_read: 17 },
    ] {
        let (session, action) = handler_step(fresh_session(), HandlerEvent::RequestFailed(error));
        assert!(matches!(action, HandlerAction::SendErrorThenContinue(400)));
        assert!(matches!(session.state, HandlerState::ReadingRequest));
    }
}

#[test]
fn rate_limited_request_gets_429_and_keeps_the_connection() {
    let session = Session {
        client_ip: String::from("1.2.3.4"),
        upstream_held: false,
        state: HandlerState::CheckingAdmission { request: tiny_request() },
    };
    let (session, action) = handler_step(session, HandlerEvent::AdmissionChecked(false));
    assert!(matches!(action, HandlerAction::SendErrorThenContinue(429)));
    assert!(matches!(session.state, HandlerState::ReadingRequest));
}

#[test]
fn all_upstreams_down_gets_502_and_closes() {
    let session = Session {
        client_ip: String::from("1.2.3.4"),
        upstream_held: false,
        state: HandlerState::SelectingUpstream { request: tiny_request() },
    };
    let (session, action) = handler_step(session, HandlerEvent::UpstreamsExhausted);
    assert!(matches!(action, HandlerAction::SendErrorThenClose(502)));
    assert!(matches!(session.state, HandlerState::Closed));
}

#[test]
fn upstream_write_failure_gets_502_and_discards_the_upstream() {
    let session = Session {
        client_ip: String::from("1.2.3.4"),
        upstream_held: true,
        state: HandlerState::ForwardingRequest,
    };
    let (session, action) = handler_step(session, HandlerEvent::RequestWritten(false));
    assert!(matches!(action, HandlerAction::SendErrorThenClose(502)));
    assert!(matches!(session.state, HandlerState::Closed));
    assert!(!session.upstream_held);
}

#[test]
fn upstream_response_failure_gets_502_and_closes() {
    let session = Session {
        client_ip: String::from("1.2.3.4"),
        upstream_held: true,
        state: HandlerState::ReadingResponse,
    };
    let (session, action) = handler_step(session, HandlerEvent::ResponseFailed);
    assert!(matches!(action, HandlerAction::SendErrorThenClose(502)));
    assert!(matches!(session.state, HandlerState::Closed));
}

#[test]
fn client_write_failure_closes_silently() {
    let session = Session {
        client_ip: String::from("1.2.3.4"),
        upstream_held: true,
        state: HandlerState::RelayingResponse,
    };
    let (session, action) = handler_step(session, HandlerEvent::ResponseRelayed(false));
    assert!(matches!(action, HandlerAction::Close));
    assert!(matches!(session.state, HandlerState::Closed));
}

#[test]
fn successful_cycle_keeps_the_connection_and_the_upstream() {
    // One full request/response cycle over a fresh connection, ending back
    // at reading the next request with the upstream connection retained.
    let session = fresh_session();
    let (session, action) = handler_step(session, HandlerEvent::RequestRead(tiny_request()));
    assert!(matches!(action, HandlerAction::CheckAdmission));
    let (session, action) = handler_step(session, HandlerEvent::AdmissionChecked(true));
    assert!(matches!(action, HandlerAction::SelectUpstream));
    let (session, action) = handler_step(session, HandlerEvent::UpstreamConnected);
    let forwarded = match action {
        HandlerAction::ForwardRequest(q) => q,
        _ => panic!("a connected upstream must receive the forwarded request"),
    };
    assert_eq!(forwarded.headers.last().unwrap().0, "x-forwarded-for");
    assert_eq!(forwarded.headers.last().unwrap().1, "1.2.3.4");
    assert!(session.upstream_held);
    let (session, action) = handler_step(session, HandlerEvent::RequestWritten(true));
    assert!(matches!(action, HandlerAction::ReadResponse));
    let response = HttpResponse { status: 204, headers: Vec::new(), body: Vec::new() };
    let (session, action) = handler_step(session, HandlerEvent::ResponseRead(response));
    assert!(matches!(action, HandlerAction::RelayResponse(_)));
    let (session, action) = handler_step(session, HandlerEvent::ResponseRelayed(true));
    assert!(matches!(action, HandlerAction::ReadRequest));
    assert!(matches!(session.state, HandlerState::ReadingRequest));
    assert!(session.upstream_held);
}

#[test]
fn configuration_without_upstreams_is_rejected() {
    let r = Config::new(
        String::from("0.0.0.0:1100"),
        Vec::new(),
        10,
        String::from("/"),
        0,
    );
    assert!(matches!(r, Err(ConfigError::NoUpstreams)));
}

#[test]
fn configuration_keeps_its_fields() {
    let r = Config::new(
        String::from("0.0.0.0:1100"),
        vec![String::from("127.0.0.1:8080"), String::from("127.0.0.1:8081")],
        10,
        String::from("/health"),
        7,
    );
    let c = match r {
        Ok(c) => c,
        Err(_) => panic!("a configuration with upstreams must be accepted"),
    };
    assert_eq!(c.bind, "0.0.0.0:1100");
    assert_eq!(c.upstream_count(), 2);
    assert_eq!(c.active_health_check_interval, 10);
    assert_eq!(c.active_health_check_path, "/health");
    assert_eq!(c.max_requests_per_minute, 7);
    assert!(c.health_checks_enabled());
    let r2 = Config::new(
        String::from("0.0.0.0:1100"),
        vec![String::from("127.0.0.1:8080")],
        0,
        String::from("/"),
        0,
    );
    match r2 {
        Ok(c2) => assert!(!c2.health_checks_enabled()),
        Err(_) => panic!("a configuration with upstreams must be accepted"),
    }
}
