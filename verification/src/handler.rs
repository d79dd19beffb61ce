//! The per-connection protocol, as a state machine: each accepted client
//! connection runs a loop of read request, admission check, upstream
//! selection, forward, relay. The driver performs the socket reads and
//! writes and feeds every outcome back as an event; `handler_step` decides
//! everything — which error status to send, whether the connection stays
//! open, and what is forwarded or relayed — and is verified to follow the
//! per-iteration contract exactly.

use vstd::prelude::*;

use crate::message::HttpRequest;
use crate::message::HttpResponse;
use crate::message::ReqView;
use crate::message::extend_header_value;
use crate::message::extended_value;
use crate::message::headers_extended;
use crate::message::is_first_match;
use crate::message::lemma_first_match_exists;
use crate::message::no_header;

verus! {

/// Status sent when a request could not be parsed but the connection can
/// go on.
pub const STATUS_BAD_REQUEST: u16 = 400;

/// Status sent when the request body exceeds the codec's limit.
pub const STATUS_PAYLOAD_TOO_LARGE: u16 = 413;

/// Status sent when the client is over its per-window request maximum.
pub const STATUS_TOO_MANY_REQUESTS: u16 = 429;

/// Status sent when no upstream can serve the request.
pub const STATUS_BAD_GATEWAY: u16 = 502;

/// The header that records the chain of client addresses on the way
/// upstream.
pub open spec fn xff_header_name() -> Seq<char> {
    "x-forwarded-for"@
}

/// Why reading a request from the client failed, as the codec classifies
/// it.
pub enum RequestError {
    /// The stream ended before a full request was read; `bytes_read` of it
    /// had arrived. Zero bytes is a clean close.
    Incomplete { bytes_read: usize },
    /// The bytes are not a well-formed request.
    Malformed,
    /// The Content-Length header is not a usable number.
    InvalidContentLength,
    /// The body does not match the announced Content-Length.
    ContentLengthMismatch,
    /// The body exceeds the codec's maximum size.
    BodyTooLarge,
    /// A transport-level error while reading.
    Transport,
}

/// A read failure after which no response may be attempted and the
/// connection must be torn down: a clean close, or a transport error.
pub open spec fn request_error_fatal(e: RequestError) -> bool {
    match e {
        RequestError::Incomplete { bytes_read } => bytes_read == 0,
        RequestError::Transport => true,
        _ => false,
    }
}

/// The status sent to the client for a recoverable read failure.
pub open spec fn request_error_status(e: RequestError) -> u16 {
    match e {
        RequestError::BodyTooLarge => STATUS_PAYLOAD_TOO_LARGE,
        _ => STATUS_BAD_REQUEST,
    }
}

/// Where in one request/response cycle the connection stands.
pub enum HandlerState {
    /// Waiting for the next request from the client.
    ReadingRequest,
    /// A request was read; the rate limiter must rule on it.
    CheckingAdmission { request: HttpRequest },
    /// The request was admitted but no upstream connection is held.
    SelectingUpstream { request: HttpRequest },
    /// The forwarded request is being written to the upstream.
    ForwardingRequest,
    /// Waiting for the upstream's response.
    ReadingResponse,
    /// The response is being written back to the client.
    RelayingResponse,
    /// The connection is finished.
    Closed,
}

/// What the driver observed, handed back to the state machine.
pub enum HandlerEvent {
    /// A request was read from the client.
    RequestRead(HttpRequest),
    /// Reading a request failed.
    RequestFailed(RequestError),
    /// The rate limiter's verdict for this client.
    AdmissionChecked(bool),
    /// An upstream connection was established.
    UpstreamConnected,
    /// Selection gave up: every upstream is down.
    UpstreamsExhausted,
    /// Whether writing the forwarded request to the upstream succeeded.
    RequestWritten(bool),
    /// The upstream's response was read.
    ResponseRead(HttpResponse),
    /// Reading the upstream's response failed.
    ResponseFailed,
    /// Whether writing the response to the client succeeded.
    ResponseRelayed(bool),
}

/// What the driver must do next.
pub enum HandlerAction {
    /// Read the next request from the client.
    ReadRequest,
    /// Ask the rate limiter about this client.
    CheckAdmission,
    /// Pick a healthy upstream and connect to it.
    SelectUpstream,
    /// Write this request to the upstream connection.
    ForwardRequest(HttpRequest),
    /// Read the upstream's response.
    ReadResponse,
    /// Write this response to the client, verbatim.
    RelayResponse(HttpResponse),
    /// Send an error response with this status; the connection stays open.
    SendErrorThenContinue(u16),
    /// Send an error response with this status, then close.
    SendErrorThenClose(u16),
    /// Close the connection without sending anything.
    Close,
}

/// One client connection's transient state: the client's identity, whether
/// an upstream connection is currently held, and where in the cycle it
/// stands.
pub struct Session {
    pub client_ip: String,
    pub upstream_held: bool,
    pub state: HandlerState,
}

/// The forwarded request: the client's request with the client address
/// appended to the forwarding header and nothing else changed.
pub open spec fn forwarded_request(o: ReqView, n: ReqView, client_ip: Seq<char>) -> bool {
    &&& n.method == o.method
    &&& n.uri == o.uri
    &&& n.body == o.body
    &&& headers_extended(o.headers, n.headers, xff_header_name(), client_ip)
}

/// The event the driver may hand the machine in each state.
pub open spec fn step_expected(state: HandlerState, event: HandlerEvent) -> bool {
    match (state, event) {
        (HandlerState::ReadingRequest, HandlerEvent::RequestRead(_)) => true,
        (HandlerState::ReadingRequest, HandlerEvent::RequestFailed(_)) => true,
        (HandlerState::CheckingAdmission { .. }, HandlerEvent::AdmissionChecked(_)) => true,
        (HandlerState::SelectingUpstream { .. }, HandlerEvent::UpstreamConnected) => true,
        (HandlerState::SelectingUpstream { .. }, HandlerEvent::UpstreamsExhausted) => true,
        (HandlerState::ForwardingRequest, HandlerEvent::RequestWritten(_)) => true,
        (HandlerState::ReadingResponse, HandlerEvent::ResponseRead(_)) => true,
        (HandlerState::ReadingResponse, HandlerEvent::ResponseFailed) => true,
        (HandlerState::RelayingResponse, HandlerEvent::ResponseRelayed(_)) => true,
        _ => false,
    }
}

impl Session {
    /// A fresh session for an accepted connection: no upstream held,
    /// waiting for the first request.
    pub fn new(client_ip: String) -> (s: Session)
        ensures
            s.client_ip == client_ip,
            !s.upstream_held,
            s.state is ReadingRequest,
    {
        Session { client_ip, upstream_held: false, state: HandlerState::ReadingRequest }
    }
}

/// Advance the connection by one observed event and say what to do next.
///
/// The contract is the per-iteration protocol: a clean close or transport
/// error ends the connection silently; any other read failure is answered
/// with its status and the connection stays open; a rejected client gets
/// 429 and the connection stays open; when every upstream is down, or
/// forwarding or reading the response fails, the client gets 502 and the
/// connection ends; an admitted request goes upstream with the client's
/// address appended to the forwarding header and nothing else changed; and
/// the upstream's response is relayed back verbatim.
pub fn handler_step(session: Session, event: HandlerEvent) -> (r: (Session, HandlerAction))
    requires
        step_expected(session.state, event),
    ensures
        r.0.client_ip == session.client_ip,
        session.state matches HandlerState::ReadingRequest ==> {
            &&& (event matches HandlerEvent::RequestRead(q) ==> {
                &&& r.0.state matches HandlerState::CheckingAdmission { request } && request == q
                &&& r.1 is CheckAdmission
                &&& r.0.upstream_held == session.upstream_held
            })
            &&& (event matches HandlerEvent::RequestFailed(e) ==> {
                &&& request_error_fatal(e) ==> {
                    &&& r.0.state is Closed
                    &&& r.1 is Close
                }
                &&& !request_error_fatal(e) ==> {
                    &&& r.0.state is ReadingRequest
                    &&& r.1 == HandlerAction::SendErrorThenContinue(request_error_status(e))
                    &&& r.0.upstream_held == session.upstream_held
                }
            })
        },
        session.state matches HandlerState::CheckingAdmission { request: q } ==> {
            &&& (event matches HandlerEvent::AdmissionChecked(ok) && !ok ==> {
                &&& r.0.state is ReadingRequest
                &&& r.1 == HandlerAction::SendErrorThenContinue(STATUS_TOO_MANY_REQUESTS)
                &&& r.0.upstream_held == session.upstream_held
            })
            &&& (event matches HandlerEvent::AdmissionChecked(ok) && ok && session.upstream_held
                ==> {
                &&& r.0.state is ForwardingRequest
                &&& r.0.upstream_held
                &&& r.1 matches HandlerAction::ForwardRequest(fq) && forwarded_request(
                    q@,
                    fq@,
                    session.client_ip@,
                )
            })
            &&& (event matches HandlerEvent::AdmissionChecked(ok) && ok && !session.upstream_held
                ==> {
                &&& r.0.state matches HandlerState::SelectingUpstream { request } && request == q
                &&& r.1 is SelectUpstream
                &&& !r.0.upstream_held
            })
        },
        session.state matches HandlerState::SelectingUpstream { request: q } ==> {
            &&& (event is UpstreamConnected ==> {
                &&& r.0.state is ForwardingRequest
                &&& r.0.upstream_held
                &&& r.1 matches HandlerAction::ForwardRequest(fq) && forwarded_request(
                    q@,
                    fq@,
                    session.client_ip@,
                )
            })
            &&& (event is UpstreamsExhausted ==> {
                &&& r.0.state is Closed
                &&& r.1 == HandlerAction::SendErrorThenClose(STATUS_BAD_GATEWAY)
            })
        },
        session.state matches HandlerState::ForwardingRequest ==> {
            &&& (event matches HandlerEvent::RequestWritten(ok) && ok ==> {
                &&& r.0.state is ReadingResponse
                &&& r.1 is ReadResponse
                &&& r.0.upstream_held == session.upstream_held
            })
            &&& (event matches HandlerEvent::RequestWritten(ok) && !ok ==> {
                &&& r.0.state is Closed
                &&& r.1 == HandlerAction::SendErrorThenClose(STATUS_BAD_GATEWAY)
                &&& !r.0.upstream_held
            })
        },
        session.state matches HandlerState::ReadingResponse ==> {
            &&& (event matches HandlerEvent::ResponseRead(p) ==> {
                &&& r.0.state is RelayingResponse
                &&& r.1 matches HandlerAction::RelayResponse(rp) && rp == p
                &&& r.0.upstream_held == session.upstream_held
            })
            &&& (event is ResponseFailed ==> {
                &&& r.0.state is Closed
                &&& r.1 == HandlerAction::SendErrorThenClose(STATUS_BAD_GATEWAY)
            })
        },
        session.state matches HandlerState::RelayingResponse ==> {
            &&& (event matches HandlerEvent::ResponseRelayed(ok) && ok ==> {
                &&& r.0.state is ReadingRequest
                &&& r.1 is ReadRequest
                &&& r.0.upstream_held == session.upstream_held
            })
            &&& (event matches HandlerEvent::ResponseRelayed(ok) && !ok ==> {
                &&& r.0.state is Closed
                &&& r.1 is Close
            })
        },
{
    let Session { client_ip, upstream_held, state } = session;
    match (state, event) {
        (HandlerState::ReadingRequest, HandlerEvent::RequestRead(q)) => {
            (
                Session {
                    client_ip,
                    upstream_held,
                    state: HandlerState::CheckingAdmission { request: q },
                },
                HandlerAction::CheckAdmission,
            )
        },
        (HandlerState::ReadingRequest, HandlerEvent::RequestFailed(e)) => {
            match e {
                RequestError::Incomplete { bytes_read } => {
                    if bytes_read == 0 {
                        (
                            Session { client_ip, upstream_held, state: HandlerState::Closed },
                            HandlerAction::Close,
                        )
                    } else {
                        (
                            Session {
                                client_ip,
                                upstream_held,
                                state: HandlerState::ReadingRequest,
                            },
                            HandlerAction::SendErrorThenContinue(STATUS_BAD_REQUEST),
                        )
                    }
                },
                RequestError::Transport => {
                    (
                        Session { client_ip, upstream_held, state: HandlerState::Closed },
                        HandlerAction::Close,
                    )
                },
                RequestError::BodyTooLarge => {
                    (
                        Session { client_ip, upstream_held, state: HandlerState::ReadingRequest },
                        HandlerAction::SendErrorThenContinue(STATUS_PAYLOAD_TOO_LARGE),
                    )
                },
                _ => {
                    (
                        Session { client_ip, upstream_held, state: HandlerState::ReadingRequest },
                        HandlerAction::SendErrorThenContinue(STATUS_BAD_REQUEST),
                    )
                },
            }
        },
        (HandlerState::CheckingAdmission { request }, HandlerEvent::AdmissionChecked(ok)) => {
            if !ok {
                (
                    Session { client_ip, upstream_held, state: HandlerState::ReadingRequest },
                    HandlerAction::SendErrorThenContinue(STATUS_TOO_MANY_REQUESTS),
                )
            } else if upstream_held {
                let mut outbound = request;
                let name = "x-forwarded-for".to_owned();
                extend_header_value(&mut outbound, &name, &client_ip);
                (
                    Session { client_ip, upstream_held, state: HandlerState::ForwardingRequest },
                    HandlerAction::ForwardRequest(outbound),
                )
            } else {
                (
                    Session {
                        client_ip,
                        upstream_held,
                        state: HandlerState::SelectingUpstream { request },
                    },
                    HandlerAction::SelectUpstream,
                )
            }
        },
        (HandlerState::SelectingUpstream { request }, HandlerEvent::UpstreamConnected) => {
            let mut outbound = request;
            let name = "x-forwarded-for".to_owned();
            extend_header_value(&mut outbound, &name, &client_ip);
            (
                Session {
                    client_ip,
                    upstream_held: true,
                    state: HandlerState::ForwardingRequest,
                },
                HandlerAction::ForwardRequest(outbound),
            )
        },
        (HandlerState::SelectingUpstream { request: _ }, HandlerEvent::UpstreamsExhausted) => {
            (
                Session { client_ip, upstream_held, state: HandlerState::Closed },
                HandlerAction::SendErrorThenClose(STATUS_BAD_GATEWAY),
            )
        },
        (HandlerState::ForwardingRequest, HandlerEvent::RequestWritten(ok)) => {
            if ok {
                (
                    Session { client_ip, upstream_held, state: HandlerState::ReadingResponse },
                    HandlerAction::ReadResponse,
                )
            } else {
                (
                    Session { client_ip, upstream_held: false, state: HandlerState::Closed },
                    HandlerAction::SendErrorThenClose(STATUS_BAD_GATEWAY),
                )
            }
        },
        (HandlerState::ReadingResponse, HandlerEvent::ResponseRead(p)) => {
            (
                Session { client_ip, upstream_held, state: HandlerState::RelayingResponse },
                HandlerAction::RelayResponse(p),
            )
        },
        (HandlerState::ReadingResponse, HandlerEvent::ResponseFailed) => {
            (
                Session { client_ip, upstream_held, state: HandlerState::Closed },
                HandlerAction::SendErrorThenClose(STATUS_BAD_GATEWAY),
            )
        },
        (HandlerState::RelayingResponse, HandlerEvent::ResponseRelayed(ok)) => {
            if ok {
                (
                    Session { client_ip, upstream_held, state: HandlerState::ReadingRequest },
                    HandlerAction::ReadRequest,
                )
            } else {
                (
                    Session { client_ip, upstream_held, state: HandlerState::Closed },
                    HandlerAction::Close,
                )
            }
        },
        _ => {
            proof {
                assert(false);
            }
            (
                Session { client_ip, upstream_held, state: HandlerState::Closed },
                HandlerAction::Close,
            )
        },
    }
}

/// Law (round trip): what goes upstream is the client's request changed
/// only in the forwarding header — the method, the target, the body and
/// every header of another name are carried over verbatim, at their old
/// positions; any header added or rewritten is the forwarding header, and a
/// rewritten one only has the client address appended to its old value.
/// (The response side of the round trip is `handler_step`'s contract
/// itself: the relayed response is the upstream's response, unchanged.)
pub proof fn lemma_forward_changes_only_xff(o: ReqView, n: ReqView, ip: Seq<char>)
    requires
        forwarded_request(o, n, ip),
    ensures
        n.method == o.method,
        n.uri == o.uri,
        n.body == o.body,
        o.headers.len() <= n.headers.len() <= o.headers.len() + 1,
        forall|k: int|
            0 <= k < o.headers.len() && (#[trigger] o.headers[k]).0 != xff_header_name()
                ==> n.headers[k] == o.headers[k],
        forall|k: int|
            0 <= k < n.headers.len() ==> (#[trigger] n.headers[k]).0 == xff_header_name() || (k
                < o.headers.len() && n.headers[k] == o.headers[k]),
        no_header(o.headers, xff_header_name()) ==> n.headers == o.headers.push(
            (xff_header_name(), ip),
        ),
        forall|i: int|
            is_first_match(o.headers, xff_header_name(), i) ==> n.headers == o.headers.update(
                i,
                (xff_header_name(), extended_value(o.headers[i].1, ip)),
            ),
{
    let name = xff_header_name();
    if no_header(o.headers, name) {
        assert(n.headers == o.headers.push((name, ip)));
    } else {
        lemma_first_match_exists(o.headers, name);
        let i = choose|i: int| is_first_match(o.headers, name, i);
        assert(n.headers == o.headers.update(i, (name, extended_value(o.headers[i].1, ip))));
    }
}

} // verus!
