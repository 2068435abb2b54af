use vstd::prelude::*;

use crate::ip::{IpAddr, Ipv4Addr};
use crate::ip_packet::{
    ip_version, ipv4_size, ipv4_well_formed, parse_ip_packet, parsed_view, PacketError, ParsedPacket, ParsedView,
};
use crate::protocol::{
    expect_frame, read_view, result_view, Frame, FrameView, RequestBody,
    ResponseBody, SessionState,
};

verus! {

/// Where the client is in its session with the server.
#[derive(Debug, PartialEq, Eq, Clone, Copy, Structural)]
pub enum ClientPhase {
    /// The token was sent; the server is to confirm the authentication.
    AwaitAuthenticated,
    /// The client asked for its address in the network.
    AwaitClientIp,
    /// The tun device is being set up with the address.
    AwaitTun,
    /// The client said it is ready; the server is to confirm.
    AwaitReady,
    /// Packets flow between the tun device and the tunnel.
    Established,
    /// The session ended with an error.
    Failed,
}

/// The client side of a tunnel session.
pub struct ClientSession {
    phase: ClientPhase,
    state: SessionState,
    network_id: String,
}

pub struct ClientSessionView {
    pub phase: ClientPhase,
    pub state: SessionState,
    pub network_id: Seq<char>,
}

impl View for ClientSession {
    type V = ClientSessionView;

    closed spec fn view(&self) -> ClientSessionView {
        ClientSessionView { phase: self.phase, state: self.state, network_id: self.network_id@ }
    }
}

/// What happened outside that the session has to answer.
pub enum ClientEvent {
    /// The outcome of reading the next frame from the tunnel.
    Received(Option<Result<Frame, String>>),
    /// The outcome of creating the tun device.
    TunReady(Result<(), String>),
    /// A packet read from the tun device.
    TunPacket(Vec<u8>),
}

pub enum ClientEventView {
    Received(Option<Result<FrameView, Seq<char>>>),
    TunReady(Result<(), Seq<char>>),
    TunPacket(Seq<u8>),
}

impl View for ClientEvent {
    type V = ClientEventView;

    open spec fn view(&self) -> ClientEventView {
        match self {
            ClientEvent::Received(r) => ClientEventView::Received(read_view(*r)),
            ClientEvent::TunReady(r) => ClientEventView::TunReady(
                match r {
                    Ok(()) => Ok(()),
                    Err(e) => Err(e@),
                },
            ),
            ClientEvent::TunPacket(d) => ClientEventView::TunPacket(d@),
        }
    }
}

/// What the client is to do next.
pub enum ClientAction {
    /// Send a frame to the server.
    Send(Frame),
    /// Create the tun device with this address.
    OpenTun(Ipv4Addr),
    /// Write a packet to the tun device.
    WriteTun(Vec<u8>),
    /// A packet frame from the server did not hold an IPv4 packet.
    ReportMalformedFrame,
    /// Reading a frame failed; the session goes on.
    ReportReadError(String),
    /// A packet from the tun device could not be parsed.
    ReportInvalidPacket(PacketError),
    /// The session ends with this error.
    Fail(String),
    /// Nothing to do.
    Nothing,
}

pub enum ClientActionView {
    Send(FrameView),
    OpenTun(Ipv4Addr),
    WriteTun(Seq<u8>),
    ReportMalformedFrame,
    ReportReadError(Seq<char>),
    ReportInvalidPacket(PacketError),
    Fail(Seq<char>),
    Nothing,
}

impl View for ClientAction {
    type V = ClientActionView;

    open spec fn view(&self) -> ClientActionView {
        match self {
            ClientAction::Send(f) => ClientActionView::Send(f@),
            ClientAction::OpenTun(a) => ClientActionView::OpenTun(*a),
            ClientAction::WriteTun(d) => ClientActionView::WriteTun(d@),
            ClientAction::ReportMalformedFrame => ClientActionView::ReportMalformedFrame,
            ClientAction::ReportReadError(e) => ClientActionView::ReportReadError(e@),
            ClientAction::ReportInvalidPacket(e) => ClientActionView::ReportInvalidPacket(*e),
            ClientAction::Fail(e) => ClientActionView::Fail(e@),
            ClientAction::Nothing => ClientActionView::Nothing,
        }
    }
}

/// The frame that a handshake step reads, or the error that ends the
/// session: the stream ended, or reading failed.
pub open spec fn received_frame(r: Option<Result<FrameView, Seq<char>>>) -> Result<
    FrameView,
    Seq<char>,
> {
    match r {
        None => Err("Error while reading frame"@),
        Some(Err(e)) => Err(e),
        Some(Ok(f)) => Ok(f),
    }
}

/// The session after an error, and the error.
pub open spec fn client_fail(s: ClientSessionView, msg: Seq<char>) -> (
    ClientSessionView,
    ClientActionView,
) {
    (ClientSessionView { phase: ClientPhase::Failed, ..s }, ClientActionView::Fail(msg))
}

/// The session with a new phase, and the action.
pub open spec fn client_go(
    s: ClientSessionView,
    phase: ClientPhase,
    state: SessionState,
    action: ClientActionView,
) -> (ClientSessionView, ClientActionView) {
    (ClientSessionView { phase, state, ..s }, action)
}

/// One step of the client's session: the next session and what to do.
pub open spec fn client_step(s: ClientSessionView, e: ClientEventView) -> (
    ClientSessionView,
    ClientActionView,
) {
    let unexpected = "Unexpected frame"@;
    match (s.phase, e) {
        (ClientPhase::AwaitAuthenticated, ClientEventView::Received(r)) => match received_frame(r) {
            Err(m) => client_fail(s, m),
            Ok(FrameView::StateChanged(SessionState::Authenticated)) => client_go(
                s,
                ClientPhase::AwaitClientIp,
                SessionState::Authenticated,
                ClientActionView::Send(FrameView::ClientIPRequest { network_id: s.network_id }),
            ),
            Ok(_) => client_fail(s, unexpected),
        },
        (ClientPhase::AwaitClientIp, ClientEventView::Received(r)) => match received_frame(r) {
            Err(m) => client_fail(s, m),
            Ok(FrameView::ClientIPResponse { ip: IpAddr::V4(a) }) => client_go(
                s,
                ClientPhase::AwaitTun,
                s.state,
                ClientActionView::OpenTun(a),
            ),
            Ok(_) => client_fail(s, unexpected),
        },
        (ClientPhase::AwaitTun, ClientEventView::TunReady(r)) => match r {
            Err(m) => client_fail(s, m),
            Ok(()) => client_go(
                s,
                ClientPhase::AwaitReady,
                s.state,
                ClientActionView::Send(FrameView::ReadyRequest),
            ),
        },
        (ClientPhase::AwaitReady, ClientEventView::Received(r)) => match received_frame(r) {
            Err(m) => client_fail(s, m),
            Ok(FrameView::StateChanged(SessionState::Ready)) => client_go(
                s,
                ClientPhase::Established,
                SessionState::Ready,
                ClientActionView::Nothing,
            ),
            Ok(_) => client_fail(s, unexpected),
        },
        (ClientPhase::Established, ClientEventView::Received(r)) => match r {
            None => (s, ClientActionView::Nothing),
            Some(Err(m)) => (s, ClientActionView::ReportReadError(m)),
            Some(Ok(FrameView::Ping)) => (s, ClientActionView::Send(FrameView::OK)),
            Some(Ok(FrameView::StateChanged(n))) => client_go(
                s,
                s.phase,
                n,
                ClientActionView::Nothing,
            ),
            Some(Ok(FrameView::IPv4(d))) => match parsed_view(d) {
                ParsedView::V4(b) => (s, ClientActionView::WriteTun(b)),
                _ => (s, ClientActionView::ReportMalformedFrame),
            },
            Some(Ok(_)) => (s, ClientActionView::Nothing),
        },
        (ClientPhase::Established, ClientEventView::TunPacket(d)) => match parsed_view(d) {
            ParsedView::V4(b) => (s, ClientActionView::Send(FrameView::IPv4(b))),
            ParsedView::V6 => (s, ClientActionView::Nothing),
            ParsedView::Invalid(e) => (s, ClientActionView::ReportInvalidPacket(e)),
        },
        _ => (s, ClientActionView::Nothing),
    }
}

/// The event hands the packet parser an empty buffer, which it cannot read.
pub open spec fn client_event_panics(s: ClientSessionView, e: ClientEventView) -> bool {
    s.phase == ClientPhase::Established && match e {
        ClientEventView::Received(Some(Ok(FrameView::IPv4(d)))) => d.len() == 0,
        ClientEventView::TunPacket(d) => d.len() == 0,
        _ => false,
    }
}

/// Matches the server's confirmation of the authentication.
fn match_authenticated(f: Frame) -> (o: Option<bool>)
    ensures
        o == (if f@ == FrameView::StateChanged(SessionState::Authenticated) {
            Some(true)
        } else {
            None::<bool>
        }),
{
    match f {
        Frame::StateChanged(SessionState::Authenticated) => Some(true),
        _ => None,
    }
}

/// Matches the server's answer with an IPv4 address for the client.
fn match_client_ip(f: Frame) -> (o: Option<Ipv4Addr>)
    ensures
        o == (match f@ {
            FrameView::ClientIPResponse { ip: IpAddr::V4(a) } => Some(a),
            _ => None::<Ipv4Addr>,
        }),
{
    match f {
        Frame::Response(ResponseBody::ClientIPResponse { ip: IpAddr::V4(a) }) => Some(a),
        _ => None,
    }
}

/// Matches the server's confirmation that the session is ready.
fn match_ready(f: Frame) -> (o: Option<bool>)
    ensures
        o == (if f@ == FrameView::StateChanged(SessionState::Ready) {
            Some(true)
        } else {
            None::<bool>
        }),
{
    match f {
        Frame::StateChanged(SessionState::Ready) => Some(true),
        _ => None,
    }
}

impl ClientSession {
    /// Start a session that authenticates with `token` and asks for an
    /// address in the network `network_id`: the first thing to do is to send
    /// the token.
    pub fn start(token: String, network_id: String) -> (r: (ClientSession, ClientAction))
        ensures
            r.0@ == (ClientSessionView {
                phase: ClientPhase::AwaitAuthenticated,
                state: SessionState::Init,
                network_id: network_id@,
            }),
            r.1@ == ClientActionView::Send(FrameView::AuthRequest { token: token@ }),
    {
        (
            ClientSession {
                phase: ClientPhase::AwaitAuthenticated,
                state: SessionState::Init,
                network_id,
            },
            ClientAction::Send(Frame::Request(RequestBody::AuthRequest { token })),
        )
    }

    /// The state of the session.
    pub fn state(&self) -> (r: SessionState)
        ensures
            r == self@.state,
    {
        self.state
    }

    /// Where the session is.
    pub fn phase(&self) -> (r: ClientPhase)
        ensures
            r == self@.phase,
    {
        self.phase
    }

    fn fail(&mut self, msg: String) -> (r: ClientAction)
        ensures
            (final(self)@, r@) == client_fail(old(self)@, msg@),
    {
        self.phase = ClientPhase::Failed;
        ClientAction::Fail(msg)
    }

    /// Answer one event.
    pub fn step(&mut self, event: ClientEvent) -> (r: ClientAction)
        requires
            !client_event_panics(old(self)@, event@),
        ensures
            (final(self)@, r@) == client_step(old(self)@, event@),
    {
        let ghost ev = event@;
        match (self.phase, event) {
            (ClientPhase::AwaitAuthenticated, ClientEvent::Received(next)) => {
                let ghost rv = read_view(next);
                let got = expect_frame(next, match_authenticated);
                assert(result_view(got) == match received_frame(rv) {
                    Err(m) => Err(m),
                    Ok(f) => if f == FrameView::StateChanged(SessionState::Authenticated) {
                        Ok(true)
                    } else {
                        Err("Unexpected frame"@)
                    },
                });
                match got {
                    Ok(_) => {
                        self.phase = ClientPhase::AwaitClientIp;
                        self.state = SessionState::Authenticated;
                        let network_id = self.network_id.clone();
                        ClientAction::Send(
                            Frame::Request(RequestBody::ClientIPRequest { network_id }),
                        )
                    },
                    Err(m) => self.fail(m),
                }
            },
            (ClientPhase::AwaitClientIp, ClientEvent::Received(next)) => {
                let ghost rv = read_view(next);
                let got = expect_frame(next, match_client_ip);
                assert(result_view(got) == match received_frame(rv) {
                    Err(m) => Err(m),
                    Ok(f) => match f {
                        FrameView::ClientIPResponse { ip: IpAddr::V4(a) } => Ok(a),
                        _ => Err("Unexpected frame"@),
                    },
                });
                match got {
                    Ok(a) => {
                        self.phase = ClientPhase::AwaitTun;
                        ClientAction::OpenTun(a)
                    },
                    Err(m) => self.fail(m),
                }
            },
            (ClientPhase::AwaitTun, ClientEvent::TunReady(r)) => match r {
                Ok(()) => {
                    self.phase = ClientPhase::AwaitReady;
                    ClientAction::Send(Frame::Request(RequestBody::ReadyRequest))
                },
                Err(m) => self.fail(m),
            },
            (ClientPhase::AwaitReady, ClientEvent::Received(next)) => {
                let ghost rv = read_view(next);
                let got = expect_frame(next, match_ready);
                assert(result_view(got) == match received_frame(rv) {
                    Err(m) => Err(m),
                    Ok(f) => if f == FrameView::StateChanged(SessionState::Ready) {
                        Ok(true)
                    } else {
                        Err("Unexpected frame"@)
                    },
                });
                match got {
                    Ok(_) => {
                        self.phase = ClientPhase::Established;
                        self.state = SessionState::Ready;
                        ClientAction::Nothing
                    },
                    Err(m) => self.fail(m),
                }
            },
            (ClientPhase::Established, ClientEvent::Received(next)) => match next {
                None => ClientAction::Nothing,
                Some(Err(m)) => ClientAction::ReportReadError(m),
                Some(Ok(Frame::Ping)) => ClientAction::Send(Frame::OK),
                Some(Ok(Frame::StateChanged(n))) => {
                    self.state = n;
                    ClientAction::Nothing
                },
                Some(Ok(Frame::IPv4(data))) => match parse_ip_packet(data) {
                    ParsedPacket::V4(b) => ClientAction::WriteTun(b),
                    _ => ClientAction::ReportMalformedFrame,
                },
                Some(Ok(_)) => ClientAction::Nothing,
            },
            (ClientPhase::Established, ClientEvent::TunPacket(data)) => match parse_ip_packet(
                data,
            ) {
                ParsedPacket::V4(b) => ClientAction::Send(Frame::IPv4(b)),
                ParsedPacket::V6 => ClientAction::Nothing,
                ParsedPacket::Invalid(e) => ClientAction::ReportInvalidPacket(e),
            },
            _ => ClientAction::Nothing,
        }
    }
}

/// The frame that a handshake phase waits for.
pub open spec fn client_awaits(phase: ClientPhase, f: FrameView) -> bool {
    match phase {
        ClientPhase::AwaitAuthenticated => f == FrameView::StateChanged(SessionState::Authenticated),
        ClientPhase::AwaitClientIp => f matches FrameView::ClientIPResponse { ip: IpAddr::V4(_) },
        ClientPhase::AwaitReady => f == FrameView::StateChanged(SessionState::Ready),
        _ => false,
    }
}

/// A phase in which the client reads one awaited frame.
pub open spec fn client_reads_handshake(phase: ClientPhase) -> bool {
    phase == ClientPhase::AwaitAuthenticated || phase == ClientPhase::AwaitClientIp || phase
        == ClientPhase::AwaitReady
}

/// When the server answers each handshake step as expected, and the tun
/// device comes up, the session goes through the handshake in order: it asks
/// for its address, sets up the tun device with the address it got, says it
/// is ready, and ends established with the session state `Ready`.
pub proof fn lemma_client_handshake(network_id: Seq<char>, ip: Ipv4Addr)
    ensures
        ({
            let s0 = ClientSessionView {
                phase: ClientPhase::AwaitAuthenticated,
                state: SessionState::Init,
                network_id,
            };
            let (s1, a1) = client_step(
                s0,
                ClientEventView::Received(
                    Some(Ok(FrameView::StateChanged(SessionState::Authenticated))),
                ),
            );
            let (s2, a2) = client_step(
                s1,
                ClientEventView::Received(
                    Some(Ok(FrameView::ClientIPResponse { ip: IpAddr::V4(ip) })),
                ),
            );
            let (s3, a3) = client_step(s2, ClientEventView::TunReady(Ok(())));
            let (s4, a4) = client_step(
                s3,
                ClientEventView::Received(Some(Ok(FrameView::StateChanged(SessionState::Ready)))),
            );
            &&& s1.state == SessionState::Authenticated
            &&& a1 == ClientActionView::Send(FrameView::ClientIPRequest { network_id })
            &&& a2 == ClientActionView::OpenTun(ip)
            &&& a3 == ClientActionView::Send(FrameView::ReadyRequest)
            &&& a4 == ClientActionView::Nothing
            &&& s4.phase == ClientPhase::Established
            &&& s4.state == SessionState::Ready
            &&& s4.network_id == network_id
        }),
{
}

/// During the handshake, a frame other than the awaited one ends the session
/// with the error "Unexpected frame", and the end of the stream ends it with
/// "Error while reading frame".
pub proof fn lemma_client_rejects_unexpected(s: ClientSessionView, f: FrameView)
    requires
        client_reads_handshake(s.phase),
    ensures
        !client_awaits(s.phase, f) ==> client_step(s, ClientEventView::Received(Some(Ok(f))))
            == client_fail(s, "Unexpected frame"@),
        client_step(s, ClientEventView::Received(None)) == client_fail(
            s,
            "Error while reading frame"@,
        ),
{
}

/// Once established, the client answers a ping with `OK` and stays as it is.
pub proof fn lemma_client_answers_ping(s: ClientSessionView)
    requires
        s.phase == ClientPhase::Established,
    ensures
        client_step(s, ClientEventView::Received(Some(Ok(FrameView::Ping)))) == (
            s,
            ClientActionView::Send(FrameView::OK),
        ),
{
}

/// Once established, an IPv4 packet from the tun device whose buffer is
/// exactly its size is sent through the tunnel unchanged, and an IPv4 packet
/// frame from the server that is exactly its size is written to the tun
/// device unchanged.
pub proof fn lemma_client_relays_packets(s: ClientSessionView, data: Seq<u8>)
    requires
        s.phase == ClientPhase::Established,
        ip_version(data) == 4,
        ipv4_well_formed(data),
        ipv4_size(data) == data.len(),
    ensures
        client_step(s, ClientEventView::TunPacket(data)) == (
            s,
            ClientActionView::Send(FrameView::IPv4(data)),
        ),
        client_step(s, ClientEventView::Received(Some(Ok(FrameView::IPv4(data))))) == (
            s,
            ClientActionView::WriteTun(data),
        ),
{
    assert(data.subrange(0, data.len() as int) =~= data);
}

/// A failed read of the server's stream during the handshake ends the
/// session with the read's error; once established, the error is reported
/// and the session goes on as it was. A tun device that could not be set up
/// ends the session with its error.
pub proof fn lemma_client_read_error(s: ClientSessionView, m: Seq<char>)
    ensures
        client_reads_handshake(s.phase) ==> client_step(
            s,
            ClientEventView::Received(Some(Err(m))),
        ).0 == (ClientSessionView { phase: ClientPhase::Failed, ..s }),
        client_reads_handshake(s.phase) ==> client_step(
            s,
            ClientEventView::Received(Some(Err(m))),
        ).1 == ClientActionView::Fail(m),
        s.phase == ClientPhase::Established ==> client_step(
            s,
            ClientEventView::Received(Some(Err(m))),
        ) == (s, ClientActionView::ReportReadError(m)),
        s.phase == ClientPhase::AwaitTun ==> client_step(s, ClientEventView::TunReady(Err(m)))
            == (ClientSessionView { phase: ClientPhase::Failed, ..s }, ClientActionView::Fail(m)),
{
}

/// Once established, the server's frames change only the session state: a
/// state change is taken over, the end of the stream and an `OK` are
/// ignored, and a packet frame that is no IPv4 packet is reported as
/// malformed.
pub proof fn lemma_client_established_frames(s: ClientSessionView, n: SessionState, d: Seq<u8>)
    requires
        s.phase == ClientPhase::Established,
        d.len() > 0,
    ensures
        client_step(s, ClientEventView::Received(Some(Ok(FrameView::StateChanged(n))))) == (
            ClientSessionView { state: n, ..s },
            ClientActionView::Nothing,
        ),
        client_step(s, ClientEventView::Received(Some(Ok(FrameView::OK)))) == (
            s,
            ClientActionView::Nothing,
        ),
        client_step(s, ClientEventView::Received(None)) == (s, ClientActionView::Nothing),
        ip_version(d) != 4 || !ipv4_well_formed(d) ==> client_step(
            s,
            ClientEventView::Received(Some(Ok(FrameView::IPv4(d)))),
        ) == (s, ClientActionView::ReportMalformedFrame),
        ip_version(d) == 6 ==> client_step(s, ClientEventView::TunPacket(d)) == (
            s,
            ClientActionView::Nothing,
        ),
        ip_version(d) == 4 && !ipv4_well_formed(d) ==> client_step(
            s,
            ClientEventView::TunPacket(d),
        ) == (s, ClientActionView::ReportInvalidPacket(PacketError::SmallBuffer)),
        ip_version(d) != 4 && ip_version(d) != 6 ==> client_step(
            s,
            ClientEventView::TunPacket(d),
        ) == (s, ClientActionView::ReportInvalidPacket(PacketError::InvalidPacket)),
{
}

/// A failed session stays failed and does nothing more.
pub proof fn lemma_client_failed_is_final(s: ClientSessionView, e: ClientEventView)
    requires
        s.phase == ClientPhase::Failed,
    ensures
        client_step(s, e) == (s, ClientActionView::Nothing),
{
}

} // verus!
