use vstd::prelude::*;

use crate::client_session::{client_step, ClientActionView, ClientEventView, ClientPhase, ClientSessionView};
use crate::ip::{IpAddr, Ipv4Addr};
use crate::protocol::{
    expect_frame, read_view, result_view, Frame, FrameView, RequestBody,
    ResponseBody, SessionState,
};

verus! {

/// What the gateway records of a client's session.
pub struct SessionData<S> {
    pub state: SessionState,
    pub session_id: Option<String>,
    pub assigned_ip_addr: Option<Ipv4Addr>,
    /// Where frames for this session are handed to the task that writes them.
    pub frame_sender: Option<S>,
}

impl<S> Default for SessionData<S> {
    fn default() -> (r: Self)
        ensures
            r.state == SessionState::Init,
            r.session_id is None,
            r.assigned_ip_addr is None,
            r.frame_sender is None,
    {
        SessionData {
            state: SessionState::Init,
            session_id: None,
            assigned_ip_addr: None,
            frame_sender: None,
        }
    }
}

/// Where the server is in a client's session.
#[derive(Debug, PartialEq, Eq, Clone, Copy, Structural)]
pub enum ServerPhase {
    /// Waiting for the client's token.
    AwaitAuthRequest,
    /// The token is being checked by the backend.
    ValidatingToken,
    /// Waiting for the client to ask for its address.
    AwaitClientIpRequest,
    /// The backend is starting the tunnel session.
    StartingSession,
    /// Waiting for the client to say it is ready.
    AwaitReadyRequest,
    /// The network of the session is being looked up.
    LookingUpNetwork,
    /// Packets flow between the client and the network.
    Established,
    /// Both the client's stream and the session's channel ended.
    Done,
    /// The session ended with an error.
    Failed,
}

/// The server side of a client's tunnel session.
pub struct ServerSession {
    phase: ServerPhase,
    state: SessionState,
    user_id: String,
    network_id: String,
    session_id: Option<String>,
    assigned_ip: Option<Ipv4Addr>,
    read_closed: bool,
    outgoing_closed: bool,
}

pub struct ServerSessionView {
    pub phase: ServerPhase,
    pub state: SessionState,
    pub user_id: Seq<char>,
    pub network_id: Seq<char>,
    pub session_id: Option<Seq<char>>,
    pub assigned_ip: Option<Ipv4Addr>,
    pub read_closed: bool,
    pub outgoing_closed: bool,
}

/// The view of an optional string.
pub open spec fn opt_view(o: Option<String>) -> Option<Seq<char>> {
    match o {
        Some(s) => Some(s@),
        None => None,
    }
}

impl View for ServerSession {
    type V = ServerSessionView;

    closed spec fn view(&self) -> ServerSessionView {
        ServerSessionView {
            phase: self.phase,
            state: self.state,
            user_id: self.user_id@,
            network_id: self.network_id@,
            session_id: opt_view(self.session_id),
            assigned_ip: self.assigned_ip,
            read_closed: self.read_closed,
            outgoing_closed: self.outgoing_closed,
        }
    }
}

/// What happened outside that the session has to answer.
pub enum ServerEvent {
    /// The outcome of reading the next frame from the client.
    Received(Option<Result<Frame, String>>),
    /// The backend's answer to the token check: the user's id, or an error.
    TokenValidated(Result<String, String>),
    /// The backend's answer to starting the tunnel session: the session's id
    /// and the client's address, or an error.
    SessionStarted(Result<(String, u32), String>),
    /// Whether the network of the session is known to the gateway.
    NetworkLookedUp(bool),
    /// The next frame handed to this session for the client, or the end of
    /// that channel.
    Outgoing(Option<Frame>),
}

pub enum ServerEventView {
    Received(Option<Result<FrameView, Seq<char>>>),
    TokenValidated(Result<Seq<char>, Seq<char>>),
    SessionStarted(Result<(Seq<char>, u32), Seq<char>>),
    NetworkLookedUp(bool),
    Outgoing(Option<FrameView>),
}

impl View for ServerEvent {
    type V = ServerEventView;

    open spec fn view(&self) -> ServerEventView {
        match self {
            ServerEvent::Received(r) => ServerEventView::Received(read_view(*r)),
            ServerEvent::TokenValidated(r) => ServerEventView::TokenValidated(
                match r {
                    Ok(u) => Ok(u@),
                    Err(e) => Err(e@),
                },
            ),
            ServerEvent::SessionStarted(r) => ServerEventView::SessionStarted(
                match r {
                    Ok((s, a)) => Ok((s@, *a)),
                    Err(e) => Err(e@),
                },
            ),
            ServerEvent::NetworkLookedUp(b) => ServerEventView::NetworkLookedUp(*b),
            ServerEvent::Outgoing(f) => ServerEventView::Outgoing(
                match f {
                    Some(f) => Some(f@),
                    None => None,
                },
            ),
        }
    }
}

/// What the server is to do next for the session.
pub enum ServerAction {
    /// Ask the backend to check the token.
    ValidateToken(String),
    /// Ask the backend to start the tunnel session of the user in the network.
    StartSession { user_id: String, network_id: String },
    /// Look up the network of the session.
    LookupNetwork(String),
    /// Send a frame to the client.
    Send(Frame),
    /// Write a packet to the network's tun device.
    WriteTun(Vec<u8>),
    /// The session ends with this error.
    Fail(String),
    /// The session ends without error.
    Finish,
    /// Nothing to do.
    Nothing,
}

pub enum ServerActionView {
    ValidateToken(Seq<char>),
    StartSession { user_id: Seq<char>, network_id: Seq<char> },
    LookupNetwork(Seq<char>),
    Send(FrameView),
    WriteTun(Seq<u8>),
    Fail(Seq<char>),
    Finish,
    Nothing,
}

impl View for ServerAction {
    type V = ServerActionView;

    open spec fn view(&self) -> ServerActionView {
        match self {
            ServerAction::ValidateToken(t) => ServerActionView::ValidateToken(t@),
            ServerAction::StartSession { user_id, network_id } => ServerActionView::StartSession {
                user_id: user_id@,
                network_id: network_id@,
            },
            ServerAction::LookupNetwork(n) => ServerActionView::LookupNetwork(n@),
            ServerAction::Send(f) => ServerActionView::Send(f@),
            ServerAction::WriteTun(d) => ServerActionView::WriteTun(d@),
            ServerAction::Fail(e) => ServerActionView::Fail(e@),
            ServerAction::Finish => ServerActionView::Finish,
            ServerAction::Nothing => ServerActionView::Nothing,
        }
    }
}

/// The frame that a handshake step reads, or the error that ends the
/// session.
pub open spec fn server_received(r: Option<Result<FrameView, Seq<char>>>) -> Result<
    FrameView,
    Seq<char>,
> {
    match r {
        None => Err("Error while reading frame"@),
        Some(Err(e)) => Err(e),
        Some(Ok(f)) => Ok(f),
    }
}

pub open spec fn server_fail(s: ServerSessionView, msg: Seq<char>) -> (
    ServerSessionView,
    ServerActionView,
) {
    (ServerSessionView { phase: ServerPhase::Failed, ..s }, ServerActionView::Fail(msg))
}

/// One step of the server's side of a session: the next session and what to
/// do.
pub open spec fn server_step(s: ServerSessionView, e: ServerEventView) -> (
    ServerSessionView,
    ServerActionView,
) {
    let unexpected = "Unexpected frame"@;
    match (s.phase, e) {
        (ServerPhase::AwaitAuthRequest, ServerEventView::Received(r)) => match server_received(r) {
            Err(m) => server_fail(s, m),
            Ok(FrameView::AuthRequest { token }) => (
                ServerSessionView { phase: ServerPhase::ValidatingToken, ..s },
                ServerActionView::ValidateToken(token),
            ),
            Ok(_) => server_fail(s, unexpected),
        },
        (ServerPhase::ValidatingToken, ServerEventView::TokenValidated(r)) => match r {
            Err(m) => server_fail(s, m),
            Ok(user_id) => (
                ServerSessionView {
                    phase: ServerPhase::AwaitClientIpRequest,
                    state: SessionState::Authenticated,
                    user_id,
                    ..s
                },
                ServerActionView::Send(FrameView::StateChanged(SessionState::Authenticated)),
            ),
        },
        (ServerPhase::AwaitClientIpRequest, ServerEventView::Received(r)) => match server_received(
            r,
        ) {
            Err(m) => server_fail(s, m),
            Ok(FrameView::ClientIPRequest { network_id }) => (
                ServerSessionView { phase: ServerPhase::StartingSession, network_id, ..s },
                ServerActionView::StartSession { user_id: s.user_id, network_id },
            ),
            Ok(_) => server_fail(s, unexpected),
        },
        (ServerPhase::StartingSession, ServerEventView::SessionStarted(r)) => match r {
            Err(m) => server_fail(s, m),
            Ok((session_id, ip)) => (
                ServerSessionView {
                    phase: ServerPhase::AwaitReadyRequest,
                    session_id: Some(session_id),
                    assigned_ip: Some(Ipv4Addr { bits: ip }),
                    ..s
                },
                ServerActionView::Send(
                    FrameView::ClientIPResponse { ip: IpAddr::V4(Ipv4Addr { bits: ip }) },
                ),
            ),
        },
        (ServerPhase::AwaitReadyRequest, ServerEventView::Received(r)) => match server_received(r) {
            Err(m) => server_fail(s, m),
            Ok(FrameView::ReadyRequest) => (
                ServerSessionView { phase: ServerPhase::LookingUpNetwork, ..s },
                ServerActionView::LookupNetwork(s.network_id),
            ),
            Ok(_) => server_fail(s, unexpected),
        },
        (ServerPhase::LookingUpNetwork, ServerEventView::NetworkLookedUp(found)) => if found {
            (
                ServerSessionView {
                    phase: ServerPhase::Established,
                    state: SessionState::Ready,
                    ..s
                },
                ServerActionView::Send(FrameView::StateChanged(SessionState::Ready)),
            )
        } else {
            server_fail(s, "Network not found"@)
        },
        (ServerPhase::Established, ServerEventView::Received(r)) => match r {
            None => if s.outgoing_closed {
                (
                    ServerSessionView { phase: ServerPhase::Done, read_closed: true, ..s },
                    ServerActionView::Finish,
                )
            } else {
                (ServerSessionView { read_closed: true, ..s }, ServerActionView::Nothing)
            },
            Some(Err(m)) => server_fail(s, m),
            Some(Ok(FrameView::Ping)) => (s, ServerActionView::Send(FrameView::OK)),
            Some(Ok(FrameView::IPv4(items))) => (s, ServerActionView::WriteTun(items)),
            Some(Ok(_)) => (s, ServerActionView::Nothing),
        },
        (ServerPhase::Established, ServerEventView::Outgoing(f)) => match f {
            Some(f) => (s, ServerActionView::Send(f)),
            None => if s.read_closed {
                (
                    ServerSessionView { phase: ServerPhase::Done, outgoing_closed: true, ..s },
                    ServerActionView::Finish,
                )
            } else {
                (ServerSessionView { outgoing_closed: true, ..s }, ServerActionView::Nothing)
            },
        },
        _ => (s, ServerActionView::Nothing),
    }
}

/// Matches the client's token.
fn match_auth_request(f: Frame) -> (o: Option<String>)
    ensures
        opt_view(o) == (match f@ {
            FrameView::AuthRequest { token } => Some(token),
            _ => None::<Seq<char>>,
        }),
{
    match f {
        Frame::Request(RequestBody::AuthRequest { token }) => Some(token),
        _ => None,
    }
}

/// Matches the client's request for an address in a network.
fn match_client_ip_request(f: Frame) -> (o: Option<String>)
    ensures
        opt_view(o) == (match f@ {
            FrameView::ClientIPRequest { network_id } => Some(network_id),
            _ => None::<Seq<char>>,
        }),
{
    match f {
        Frame::Request(RequestBody::ClientIPRequest { network_id }) => Some(network_id),
        _ => None,
    }
}

/// Matches the client's readiness.
fn match_ready_request(f: Frame) -> (o: Option<bool>)
    ensures
        o == (if f@ == FrameView::ReadyRequest {
            Some(true)
        } else {
            None::<bool>
        }),
{
    match f {
        Frame::Request(RequestBody::ReadyRequest) => Some(true),
        _ => None,
    }
}

impl ServerSession {
    /// A new session, waiting for the client's token.
    pub fn new() -> (r: ServerSession)
        ensures
            server_state_fits(r@),
            r@ == (ServerSessionView {
                phase: ServerPhase::AwaitAuthRequest,
                state: SessionState::Init,
                user_id: Seq::empty(),
                network_id: Seq::empty(),
                session_id: None,
                assigned_ip: None,
                read_closed: false,
                outgoing_closed: false,
            }),
    {
        ServerSession {
            phase: ServerPhase::AwaitAuthRequest,
            state: SessionState::Init,
            user_id: String::new(),
            network_id: String::new(),
            session_id: None,
            assigned_ip: None,
            read_closed: false,
            outgoing_closed: false,
        }
    }

    /// The state of the session.
    pub fn state(&self) -> (r: SessionState)
        ensures
            r == self@.state,
    {
        self.state
    }

    /// Where the session is.
    pub fn phase(&self) -> (r: ServerPhase)
        ensures
            r == self@.phase,
    {
        self.phase
    }

    /// The id of the tunnel session that the backend started, if any.
    pub fn session_id(&self) -> (r: Option<String>)
        ensures
            opt_view(r) == self@.session_id,
    {
        self.session_id.clone()
    }

    /// The address given to the client, if any.
    pub fn assigned_ip_addr(&self) -> (r: Option<Ipv4Addr>)
        ensures
            r == self@.assigned_ip,
    {
        self.assigned_ip
    }

    fn fail(&mut self, msg: String) -> (r: ServerAction)
        ensures
            (final(self)@, r@) == server_fail(old(self)@, msg@),
    {
        self.phase = ServerPhase::Failed;
        ServerAction::Fail(msg)
    }

    /// Answer one event.
    pub fn step(&mut self, event: ServerEvent) -> (r: ServerAction)
        ensures
            (final(self)@, r@) == server_step(old(self)@, event@),
    {
        match (self.phase, event) {
            (ServerPhase::AwaitAuthRequest, ServerEvent::Received(next)) => {
                let ghost rv = read_view(next);
                let got = expect_frame(next, match_auth_request);
                assert(match server_received(rv) {
                    Err(m) => result_view(got) == Err::<String, Seq<char>>(m),
                    Ok(FrameView::AuthRequest { token }) => got matches Ok(t) && t@ == token,
                    Ok(_) => result_view(got) == Err::<String, Seq<char>>("Unexpected frame"@),
                });
                match got {
                    Ok(token) => {
                        self.phase = ServerPhase::ValidatingToken;
                        ServerAction::ValidateToken(token)
                    },
                    Err(m) => self.fail(m),
                }
            },
            (ServerPhase::ValidatingToken, ServerEvent::TokenValidated(r)) => match r {
                Ok(user_id) => {
                    self.phase = ServerPhase::AwaitClientIpRequest;
                    self.state = SessionState::Authenticated;
                    self.user_id = user_id;
                    ServerAction::Send(Frame::StateChanged(SessionState::Authenticated))
                },
                Err(m) => self.fail(m),
            },
            (ServerPhase::AwaitClientIpRequest, ServerEvent::Received(next)) => {
                let ghost rv = read_view(next);
                let got = expect_frame(next, match_client_ip_request);
                assert(match server_received(rv) {
                    Err(m) => result_view(got) == Err::<String, Seq<char>>(m),
                    Ok(FrameView::ClientIPRequest { network_id }) => got matches Ok(t) && t@
                        == network_id,
                    Ok(_) => result_view(got) == Err::<String, Seq<char>>("Unexpected frame"@),
                });
                match got {
                    Ok(network_id) => {
                        self.phase = ServerPhase::StartingSession;
                        self.network_id = network_id.clone();
                        ServerAction::StartSession { user_id: self.user_id.clone(), network_id }
                    },
                    Err(m) => self.fail(m),
                }
            },
            (ServerPhase::StartingSession, ServerEvent::SessionStarted(r)) => match r {
                Ok((session_id, ip)) => {
                    self.phase = ServerPhase::AwaitReadyRequest;
                    self.session_id = Some(session_id);
                    let addr = Ipv4Addr::from_bits(ip);
                    self.assigned_ip = Some(addr);
                    ServerAction::Send(
                        Frame::Response(ResponseBody::ClientIPResponse { ip: IpAddr::V4(addr) }),
                    )
                },
                Err(m) => self.fail(m),
            },
            (ServerPhase::AwaitReadyRequest, ServerEvent::Received(next)) => {
                let ghost rv = read_view(next);
                let got = expect_frame(next, match_ready_request);
                assert(result_view(got) == match server_received(rv) {
                    Err(m) => Err(m),
                    Ok(f) => if f == FrameView::ReadyRequest {
                        Ok(true)
                    } else {
                        Err("Unexpected frame"@)
                    },
                });
                match got {
                    Ok(_) => {
                        self.phase = ServerPhase::LookingUpNetwork;
                        ServerAction::LookupNetwork(self.network_id.clone())
                    },
                    Err(m) => self.fail(m),
                }
            },
            (ServerPhase::LookingUpNetwork, ServerEvent::NetworkLookedUp(found)) => {
                if found {
                    self.phase = ServerPhase::Established;
                    self.state = SessionState::Ready;
                    ServerAction::Send(Frame::StateChanged(SessionState::Ready))
                } else {
                    self.fail("Network not found".to_owned())
                }
            },
            (ServerPhase::Established, ServerEvent::Received(next)) => match next {
                None => {
                    self.read_closed = true;
                    if self.outgoing_closed {
                        self.phase = ServerPhase::Done;
                        ServerAction::Finish
                    } else {
                        ServerAction::Nothing
                    }
                },
                Some(Err(m)) => self.fail(m),
                Some(Ok(Frame::Ping)) => ServerAction::Send(Frame::OK),
                Some(Ok(Frame::IPv4(items))) => ServerAction::WriteTun(items),
                Some(Ok(_)) => ServerAction::Nothing,
            },
            (ServerPhase::Established, ServerEvent::Outgoing(f)) => match f {
                Some(f) => ServerAction::Send(f),
                None => {
                    self.outgoing_closed = true;
                    if self.read_closed {
                        self.phase = ServerPhase::Done;
                        ServerAction::Finish
                    } else {
                        ServerAction::Nothing
                    }
                },
            },
            _ => ServerAction::Nothing,
        }
    }
}

/// The order of the session states: a session only moves forward.
pub open spec fn state_rank(st: SessionState) -> int {
    match st {
        SessionState::Init => 0,
        SessionState::Authenticated => 1,
        SessionState::Ready => 2,
        SessionState::Established => 3,
        SessionState::Closed => 4,
    }
}

/// The session state that each phase goes with: `Init` until the token is
/// accepted, `Authenticated` until the network is confirmed, `Ready` after.
pub open spec fn server_state_fits(s: ServerSessionView) -> bool {
    match s.phase {
        ServerPhase::AwaitAuthRequest | ServerPhase::ValidatingToken => s.state
            == SessionState::Init,
        ServerPhase::AwaitClientIpRequest
        | ServerPhase::StartingSession
        | ServerPhase::AwaitReadyRequest
        | ServerPhase::LookingUpNetwork => s.state == SessionState::Authenticated,
        ServerPhase::Established | ServerPhase::Done => s.state == SessionState::Ready,
        ServerPhase::Failed => true,
    }
}

/// Every step keeps the session state fitting the phase, and never moves the
/// state backwards: a session goes from `Init` to `Authenticated` to `Ready`.
pub proof fn lemma_server_state_monotone(s: ServerSessionView, e: ServerEventView)
    requires
        server_state_fits(s),
    ensures
        server_state_fits(server_step(s, e).0),
        state_rank(server_step(s, e).0.state) >= state_rank(s.state),
        state_rank(server_step(s, e).0.state) <= state_rank(s.state) + 1,
{
}

/// The backend and the client going along, the server takes a session
/// through the handshake in order: it checks the token, confirms the
/// authentication, starts the tunnel session for the user in the network the
/// client named, hands the client its address, looks the network up and
/// confirms that the session is ready. It records the session's id and the
/// client's address.
pub proof fn lemma_server_handshake(
    token: Seq<char>,
    user_id: Seq<char>,
    network_id: Seq<char>,
    session_id: Seq<char>,
    ip: u32,
)
    ensures
        ({
            let s0 = ServerSessionView {
                phase: ServerPhase::AwaitAuthRequest,
                state: SessionState::Init,
                user_id: Seq::empty(),
                network_id: Seq::empty(),
                session_id: None,
                assigned_ip: None,
                read_closed: false,
                outgoing_closed: false,
            };
            let (s1, a1) = server_step(
                s0,
                ServerEventView::Received(Some(Ok(FrameView::AuthRequest { token }))),
            );
            let (s2, a2) = server_step(s1, ServerEventView::TokenValidated(Ok(user_id)));
            let (s3, a3) = server_step(
                s2,
                ServerEventView::Received(Some(Ok(FrameView::ClientIPRequest { network_id }))),
            );
            let (s4, a4) = server_step(s3, ServerEventView::SessionStarted(Ok((session_id, ip))));
            let (s5, a5) = server_step(
                s4,
                ServerEventView::Received(Some(Ok(FrameView::ReadyRequest))),
            );
            let (s6, a6) = server_step(s5, ServerEventView::NetworkLookedUp(true));
            &&& a1 == ServerActionView::ValidateToken(token)
            &&& a2 == ServerActionView::Send(FrameView::StateChanged(SessionState::Authenticated))
            &&& s2.state == SessionState::Authenticated
            &&& a3 == ServerActionView::StartSession { user_id, network_id }
            &&& a4 == ServerActionView::Send(
                FrameView::ClientIPResponse { ip: IpAddr::V4(Ipv4Addr { bits: ip }) },
            )
            &&& a5 == ServerActionView::LookupNetwork(network_id)
            &&& a6 == ServerActionView::Send(FrameView::StateChanged(SessionState::Ready))
            &&& s6.phase == ServerPhase::Established
            &&& s6.state == SessionState::Ready
            &&& s6.session_id == Some(session_id)
            &&& s6.assigned_ip == Some(Ipv4Addr { bits: ip })
        }),
{
}

/// A phase in which the server reads one awaited frame from the client.
pub open spec fn server_reads_handshake(phase: ServerPhase) -> bool {
    phase == ServerPhase::AwaitAuthRequest || phase == ServerPhase::AwaitClientIpRequest || phase
        == ServerPhase::AwaitReadyRequest
}

/// The frame that a handshake phase of the server waits for.
pub open spec fn server_awaits(phase: ServerPhase, f: FrameView) -> bool {
    match phase {
        ServerPhase::AwaitAuthRequest => f is AuthRequest,
        ServerPhase::AwaitClientIpRequest => f is ClientIPRequest,
        ServerPhase::AwaitReadyRequest => f == FrameView::ReadyRequest,
        _ => false,
    }
}

/// The handshake is refused with an error: a frame other than the awaited
/// one ("Unexpected frame"), the end of the stream ("Error while reading
/// frame"), a token that the backend refuses, a session that it cannot
/// start, or a network that the gateway does not know ("Network not found").
pub proof fn lemma_server_refusals(s: ServerSessionView, f: FrameView, err: Seq<char>)
    ensures
        server_reads_handshake(s.phase) && !server_awaits(s.phase, f) ==> server_step(
            s,
            ServerEventView::Received(Some(Ok(f))),
        ) == server_fail(s, "Unexpected frame"@),
        server_reads_handshake(s.phase) ==> server_step(s, ServerEventView::Received(None))
            == server_fail(s, "Error while reading frame"@),
        s.phase == ServerPhase::ValidatingToken ==> server_step(
            s,
            ServerEventView::TokenValidated(Err(err)),
        ) == server_fail(s, err),
        s.phase == ServerPhase::StartingSession ==> server_step(
            s,
            ServerEventView::SessionStarted(Err(err)),
        ) == server_fail(s, err),
        s.phase == ServerPhase::LookingUpNetwork ==> server_step(
            s,
            ServerEventView::NetworkLookedUp(false),
        ) == server_fail(s, "Network not found"@),
{
}

/// Once established, the server answers a ping with `OK`, passes the client's
/// packets to the network, hands frames for the client on to it, and
/// finishes only when both the client's stream and the session's channel
/// have ended.
pub proof fn lemma_server_established(s: ServerSessionView, e: ServerEventView, f: FrameView, d: Seq<u8>)
    requires
        s.phase == ServerPhase::Established,
    ensures
        server_step(s, ServerEventView::Received(Some(Ok(FrameView::Ping)))) == (
            s,
            ServerActionView::Send(FrameView::OK),
        ),
        server_step(s, ServerEventView::Received(Some(Ok(FrameView::IPv4(d))))) == (
            s,
            ServerActionView::WriteTun(d),
        ),
        server_step(s, ServerEventView::Outgoing(Some(f))) == (s, ServerActionView::Send(f)),
        server_step(s, e).1 == ServerActionView::Finish ==> server_step(s, e).0.read_closed
            && server_step(s, e).0.outgoing_closed && server_step(s, e).0.phase
            == ServerPhase::Done,
{
}

/// A failed read of the client's stream ends the session with the read's
/// error, in every phase that reads from the client: while it waits for a
/// handshake frame and once it is established. Nothing else of the session
/// changes.
pub proof fn lemma_server_read_error_ends_session(s: ServerSessionView, m: Seq<char>)
    requires
        server_reads_handshake(s.phase) || s.phase == ServerPhase::Established,
    ensures
        server_step(s, ServerEventView::Received(Some(Err(m)))).0 == (ServerSessionView {
            phase: ServerPhase::Failed,
            ..s
        }),
        server_step(s, ServerEventView::Received(Some(Err(m)))).1 == ServerActionView::Fail(m),
{
}

/// Once established, the session goes on while either the client's stream or
/// the session's channel is open: the end of one of them is noted and nothing
/// is done, and the end of the other after it finishes the session, in
/// either order. Frames from the client other than pings and packets are
/// ignored.
pub proof fn lemma_server_finishes_when_both_end(s: ServerSessionView, f: FrameView)
    requires
        s.phase == ServerPhase::Established,
        !s.read_closed,
        !s.outgoing_closed,
    ensures
        ({
            let (s1, a1) = server_step(s, ServerEventView::Received(None));
            let (s2, a2) = server_step(s1, ServerEventView::Outgoing(None));
            &&& a1 == ServerActionView::Nothing
            &&& s1 == (ServerSessionView { read_closed: true, ..s })
            &&& a2 == ServerActionView::Finish
            &&& s2 == (ServerSessionView {
                phase: ServerPhase::Done,
                read_closed: true,
                outgoing_closed: true,
                ..s
            })
        }),
        ({
            let (s1, a1) = server_step(s, ServerEventView::Outgoing(None));
            let (s2, a2) = server_step(s1, ServerEventView::Received(None));
            &&& a1 == ServerActionView::Nothing
            &&& s1 == (ServerSessionView { outgoing_closed: true, ..s })
            &&& a2 == ServerActionView::Finish
            &&& s2 == (ServerSessionView {
                phase: ServerPhase::Done,
                read_closed: true,
                outgoing_closed: true,
                ..s
            })
        }),
        f != FrameView::Ping && !(f is IPv4) ==> server_step(
            s,
            ServerEventView::Received(Some(Ok(f))),
        ) == (s, ServerActionView::Nothing),
{
}

/// A session that failed or finished stays so and does nothing more.
pub proof fn lemma_server_ended_is_final(s: ServerSessionView, e: ServerEventView)
    requires
        s.phase == ServerPhase::Failed || s.phase == ServerPhase::Done,
    ensures
        server_step(s, e) == (s, ServerActionView::Nothing),
{
}

/// The client's and the server's handshakes fit together: each frame that
/// one side sends is the one that the other side awaits. Starting from the
/// client's token, with the backend accepting the token and starting the
/// session with address `ip`, the tun device coming up and the network
/// known, both sides reach the established phase with the state `Ready`, and
/// the client sets up its tun device with the address that the server
/// handed out.
pub proof fn lemma_handshakes_agree(
    token: Seq<char>,
    network_id: Seq<char>,
    user_id: Seq<char>,
    session_id: Seq<char>,
    ip: u32,
)
    ensures
        ({
            let c0 = ClientSessionView {
                phase: ClientPhase::AwaitAuthenticated,
                state: SessionState::Init,
                network_id,
            };
            let first = FrameView::AuthRequest { token };
            let s0 = ServerSessionView {
                phase: ServerPhase::AwaitAuthRequest,
                state: SessionState::Init,
                user_id: Seq::empty(),
                network_id: Seq::empty(),
                session_id: None,
                assigned_ip: None,
                read_closed: false,
                outgoing_closed: false,
            };
            let (s1, _) = server_step(s0, ServerEventView::Received(Some(Ok(first))));
            let (s2, sa2) = server_step(s1, ServerEventView::TokenValidated(Ok(user_id)));
            let (c1, ca1) = client_step(c0, ClientEventView::Received(Some(Ok(sa2->Send_0))));
            let (s3, _) = server_step(s2, ServerEventView::Received(Some(Ok(ca1->Send_0))));
            let (s4, sa4) = server_step(s3, ServerEventView::SessionStarted(Ok((session_id, ip))));
            let (c2, ca2) = client_step(c1, ClientEventView::Received(Some(Ok(sa4->Send_0))));
            let (c3, ca3) = client_step(c2, ClientEventView::TunReady(Ok(())));
            let (s5, _) = server_step(s4, ServerEventView::Received(Some(Ok(ca3->Send_0))));
            let (s6, sa6) = server_step(s5, ServerEventView::NetworkLookedUp(true));
            let (c4, _) = client_step(c3, ClientEventView::Received(Some(Ok(sa6->Send_0))));
            &&& sa2 is Send
            &&& ca1 is Send
            &&& sa4 is Send
            &&& ca2 == ClientActionView::OpenTun(Ipv4Addr { bits: ip })
            &&& ca3 is Send
            &&& sa6 is Send
            &&& s6.phase == ServerPhase::Established
            &&& s6.state == SessionState::Ready
            &&& s6.network_id == network_id
            &&& c4.phase == ClientPhase::Established
            &&& c4.state == SessionState::Ready
        }),
{
}

} // verus!
