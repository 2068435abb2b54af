use freight_train::client_session::{ClientAction, ClientEvent, ClientPhase, ClientSession};
use freight_train::gateway::{route_tun_packet, SessionRoute, TunRoute};
use freight_train::ip::{IpAddr, Ipv4Addr, Ipv6Addr};
use freight_train::ip_packet::{destination, PacketError};
use freight_train::protocol::{expect_frame, Frame, RequestBody, ResponseBody, SessionState};
use freight_train::server_session::{ServerAction, ServerEvent, ServerPhase, ServerSession};

fn ipv4_packet(dest: [u8; 4], payload: &[u8]) -> Vec<u8> {
    let total = 20 + payload.len();
    let mut p = vec![
        0x45, 0, (total >> 8) as u8, total as u8, 0, 0, 0, 0, 64, 17, 0, 0, 10, 0, 0, 1,
    ];
    p.extend_from_slice(&dest);
    p.extend_from_slice(payload);
    p
}

fn got(f: Frame) -> Option<Result<Frame, String>> {
    Some(Ok(f))
}

#[test]
fn expect_frame_outcomes() {
    let r: Result<u8, String> = expect_frame(got(Frame::Ping), |f| match f {
        Frame::Ping => Some(1),
        _ => None,
    });
    assert_eq!(r, Ok(1));
    let r: Result<u8, String> = expect_frame(got(Frame::OK), |f| match f {
        Frame::Ping => Some(1),
        _ => None,
    });
    assert_eq!(r, Err("Unexpected frame".to_string()));
    let r: Result<u8, String> = expect_frame(None, |_| Some(1));
    assert_eq!(r, Err("Error while reading frame".to_string()));
    let r: Result<u8, String> = expect_frame(Some(Err("broken".to_string())), |_| Some(1));
    assert_eq!(r, Err("broken".to_string()));
}

#[test]
fn client_handshake_reaches_established() {
    let (mut c, first) = ClientSession::start("tok".to_string(), "net-1".to_string());
    match first {
        ClientAction::Send(Frame::Request(RequestBody::AuthRequest { token })) => assert_eq!(token, "tok"),
        other => panic!("unexpected {:?}", std::mem::discriminant(&other)),
    }
    assert_eq!(c.state(), SessionState::Init);
    let a = c.step(ClientEvent::Received(got(Frame::StateChanged(SessionState::Authenticated))));
    assert!(matches!(a, ClientAction::Send(Frame::Request(RequestBody::ClientIPRequest { ref network_id })) if network_id == "net-1"));
    assert_eq!(c.state(), SessionState::Authenticated);
    let ip = Ipv4Addr::new(10, 0, 0, 7);
    let a = c.step(ClientEvent::Received(got(Frame::Response(ResponseBody::ClientIPResponse {
        ip: IpAddr::V4(ip),
    }))));
    assert!(matches!(a, ClientAction::OpenTun(x) if x == ip));
    let a = c.step(ClientEvent::TunReady(Ok(())));
    assert!(matches!(a, ClientAction::Send(Frame::Request(RequestBody::ReadyRequest))));
    let a = c.step(ClientEvent::Received(got(Frame::StateChanged(SessionState::Ready))));
    assert!(matches!(a, ClientAction::Nothing));
    assert_eq!(c.phase(), ClientPhase::Established);
    assert_eq!(c.state(), SessionState::Ready);
}

#[test]
fn client_fails_on_unexpected_frame_or_ipv6_address() {
    let (mut c, _) = ClientSession::start("tok".to_string(), "n".to_string());
    let a = c.step(ClientEvent::Received(got(Frame::Ping)));
    assert!(matches!(a, ClientAction::Fail(ref m) if m == "Unexpected frame"));
    assert_eq!(c.phase(), ClientPhase::Failed);
    assert!(matches!(c.step(ClientEvent::Received(got(Frame::Ping))), ClientAction::Nothing));

    let (mut c, _) = ClientSession::start("tok".to_string(), "n".to_string());
    c.step(ClientEvent::Received(got(Frame::StateChanged(SessionState::Authenticated))));
    let a = c.step(ClientEvent::Received(got(Frame::Response(ResponseBody::ClientIPResponse {
        ip: IpAddr::V6(Ipv6Addr { bits: 1 }),
    }))));
    assert!(matches!(a, ClientAction::Fail(ref m) if m == "Unexpected frame"));

    let (mut c, _) = ClientSession::start("tok".to_string(), "n".to_string());
    let a = c.step(ClientEvent::Received(None));
    assert!(matches!(a, ClientAction::Fail(ref m) if m == "Error while reading frame"));
}

fn established_client() -> ClientSession {
    let (mut c, _) = ClientSession::start("tok".to_string(), "n".to_string());
    c.step(ClientEvent::Received(got(Frame::StateChanged(SessionState::Authenticated))));
    c.step(ClientEvent::Received(got(Frame::Response(ResponseBody::ClientIPResponse {
        ip: IpAddr::V4(Ipv4Addr::new(10, 0, 0, 7)),
    }))));
    c.step(ClientEvent::TunReady(Ok(())));
    c.step(ClientEvent::Received(got(Frame::StateChanged(SessionState::Ready))));
    c
}

#[test]
fn client_tun_failure_ends_the_session() {
    let (mut c, _) = ClientSession::start("tok".to_string(), "n".to_string());
    c.step(ClientEvent::Received(got(Frame::StateChanged(SessionState::Authenticated))));
    c.step(ClientEvent::Received(got(Frame::Response(ResponseBody::ClientIPResponse {
        ip: IpAddr::V4(Ipv4Addr::new(10, 0, 0, 7)),
    }))));
    let a = c.step(ClientEvent::TunReady(Err("no tun".to_string())));
    assert!(matches!(a, ClientAction::Fail(ref m) if m == "no tun"));
}

#[test]
fn established_client_relays_and_answers() {
    let mut c = established_client();
    assert!(matches!(c.step(ClientEvent::Received(got(Frame::Ping))), ClientAction::Send(Frame::OK)));
    assert!(matches!(c.step(ClientEvent::Received(got(Frame::OK))), ClientAction::Nothing));
    let pkt = ipv4_packet([10, 0, 0, 9], b"hi");
    match c.step(ClientEvent::Received(got(Frame::IPv4(pkt.clone())))) {
        ClientAction::WriteTun(b) => assert_eq!(b, pkt),
        _ => panic!("expected a write to tun"),
    }
    match c.step(ClientEvent::TunPacket(pkt.clone())) {
        ClientAction::Send(Frame::IPv4(b)) => assert_eq!(b, pkt),
        _ => panic!("expected a packet frame"),
    }
    assert!(matches!(c.step(ClientEvent::TunPacket(vec![0x60, 0, 0, 0])), ClientAction::Nothing));
    assert!(matches!(c.step(ClientEvent::TunPacket(vec![0x45, 0, 0])), ClientAction::ReportInvalidPacket(PacketError::SmallBuffer)));
    assert!(matches!(
        c.step(ClientEvent::Received(got(Frame::IPv4(vec![0x60, 1])))),
        ClientAction::ReportMalformedFrame
    ));
    assert!(matches!(
        c.step(ClientEvent::Received(Some(Err("bad".to_string())))),
        ClientAction::ReportReadError(ref e) if e == "bad"
    ));
    c.step(ClientEvent::Received(got(Frame::StateChanged(SessionState::Closed))));
    assert_eq!(c.state(), SessionState::Closed);
    assert_eq!(c.phase(), ClientPhase::Established);
}

#[test]
fn server_handshake_reaches_established() {
    let mut s = ServerSession::new();
    let a = s.step(ServerEvent::Received(got(Frame::Request(RequestBody::AuthRequest {
        token: "tok".to_string(),
    }))));
    assert!(matches!(a, ServerAction::ValidateToken(ref t) if t == "tok"));
    let a = s.step(ServerEvent::TokenValidated(Ok("user".to_string())));
    assert!(matches!(a, ServerAction::Send(Frame::StateChanged(SessionState::Authenticated))));
    assert_eq!(s.state(), SessionState::Authenticated);
    let a = s.step(ServerEvent::Received(got(Frame::Request(RequestBody::ClientIPRequest {
        network_id: "net".to_string(),
    }))));
    assert!(matches!(a, ServerAction::StartSession { ref user_id, ref network_id } if user_id == "user" && network_id == "net"));
    let a = s.step(ServerEvent::SessionStarted(Ok(("sess".to_string(), 0x0A00_0005))));
    match a {
        ServerAction::Send(Frame::Response(ResponseBody::ClientIPResponse { ip })) => {
            assert_eq!(ip, IpAddr::V4(Ipv4Addr::new(10, 0, 0, 5)))
        }
        _ => panic!("expected the client's address"),
    }
    assert_eq!(s.session_id(), Some("sess".to_string()));
    assert_eq!(s.assigned_ip_addr(), Some(Ipv4Addr::new(10, 0, 0, 5)));
    let a = s.step(ServerEvent::Received(got(Frame::Request(RequestBody::ReadyRequest))));
    assert!(matches!(a, ServerAction::LookupNetwork(ref n) if n == "net"));
    let a = s.step(ServerEvent::NetworkLookedUp(true));
    assert!(matches!(a, ServerAction::Send(Frame::StateChanged(SessionState::Ready))));
    assert_eq!(s.phase(), ServerPhase::Established);
    assert_eq!(s.state(), SessionState::Ready);

    assert!(matches!(s.step(ServerEvent::Received(got(Frame::Ping))), ServerAction::Send(Frame::OK)));
    assert!(matches!(s.step(ServerEvent::Received(got(Frame::IPv4(vec![1, 2])))), ServerAction::WriteTun(ref b) if b == &vec![1, 2]));
    assert!(matches!(s.step(ServerEvent::Outgoing(Some(Frame::IPv4(vec![3])))), ServerAction::Send(Frame::IPv4(ref b)) if b == &vec![3]));
    assert!(matches!(s.step(ServerEvent::Received(None)), ServerAction::Nothing));
    assert!(matches!(s.step(ServerEvent::Outgoing(None)), ServerAction::Finish));
    assert_eq!(s.phase(), ServerPhase::Done);
}

#[test]
fn server_refusals() {
    let mut s = ServerSession::new();
    let a = s.step(ServerEvent::Received(got(Frame::Ping)));
    assert!(matches!(a, ServerAction::Fail(ref m) if m == "Unexpected frame"));

    let mut s = ServerSession::new();
    s.step(ServerEvent::Received(got(Frame::Request(RequestBody::AuthRequest { token: "t".to_string() }))));
    let a = s.step(ServerEvent::TokenValidated(Err("invalid token".to_string())));
    assert!(matches!(a, ServerAction::Fail(ref m) if m == "invalid token"));
    assert_eq!(s.state(), SessionState::Init);

    let mut s = ServerSession::new();
    s.step(ServerEvent::Received(got(Frame::Request(RequestBody::AuthRequest { token: "t".to_string() }))));
    s.step(ServerEvent::TokenValidated(Ok("u".to_string())));
    s.step(ServerEvent::Received(got(Frame::Request(RequestBody::ClientIPRequest { network_id: "n".to_string() }))));
    s.step(ServerEvent::SessionStarted(Ok(("s".to_string(), 1))));
    s.step(ServerEvent::Received(got(Frame::Request(RequestBody::ReadyRequest))));
    let a = s.step(ServerEvent::NetworkLookedUp(false));
    assert!(matches!(a, ServerAction::Fail(ref m) if m == "Network not found"));
    assert_eq!(s.phase(), ServerPhase::Failed);
}

#[test]
fn client_and_server_handshakes_fit() {
    let (mut c, first) = ClientSession::start("tok".to_string(), "net".to_string());
    let mut s = ServerSession::new();
    let ClientAction::Send(f) = first else { panic!() };
    assert!(matches!(s.step(ServerEvent::Received(got(f))), ServerAction::ValidateToken(_)));
    let ServerAction::Send(f) = s.step(ServerEvent::TokenValidated(Ok("u".to_string()))) else { panic!() };
    let ClientAction::Send(f) = c.step(ClientEvent::Received(got(f))) else { panic!() };
    assert!(matches!(s.step(ServerEvent::Received(got(f))), ServerAction::StartSession { .. }));
    let ServerAction::Send(f) = s.step(ServerEvent::SessionStarted(Ok(("s".to_string(), 0x0A00_0002)))) else { panic!() };
    assert!(matches!(c.step(ClientEvent::Received(got(f))), ClientAction::OpenTun(a) if a == Ipv4Addr::new(10, 0, 0, 2)));
    let ClientAction::Send(f) = c.step(ClientEvent::TunReady(Ok(()))) else { panic!() };
    assert!(matches!(s.step(ServerEvent::Received(got(f))), ServerAction::LookupNetwork(_)));
    let ServerAction::Send(f) = s.step(ServerEvent::NetworkLookedUp(true)) else { panic!() };
    c.step(ClientEvent::Received(got(f)));
    assert_eq!(c.phase(), ClientPhase::Established);
    assert_eq!(s.phase(), ServerPhase::Established);
    assert_eq!(c.state(), SessionState::Ready);
    assert_eq!(s.state(), SessionState::Ready);
}

#[test]
fn packets_are_parsed_before_relaying() {
    let mut c = established_client();
    let pkt = ipv4_packet([1, 2, 3, 4], b"abc");
    // Bytes after the total length are cut off.
    let mut longer = pkt.clone();
    longer.extend_from_slice(&[9, 9]);
    match c.step(ClientEvent::TunPacket(longer)) {
        ClientAction::Send(Frame::IPv4(b)) => assert_eq!(b, pkt),
        _ => panic!("expected IPv4"),
    }
    // Shorter than the total length.
    assert!(matches!(c.step(ClientEvent::TunPacket(pkt[..21].to_vec())), ClientAction::ReportInvalidPacket(PacketError::SmallBuffer)));
    // A header length beyond the buffer.
    let mut long_header = pkt.clone();
    long_header[0] = 0x4F;
    assert!(matches!(c.step(ClientEvent::TunPacket(long_header)), ClientAction::ReportInvalidPacket(PacketError::SmallBuffer)));
    assert!(matches!(c.step(ClientEvent::TunPacket(vec![0x60])), ClientAction::Nothing));
    assert!(matches!(c.step(ClientEvent::TunPacket(vec![0x10, 0, 0])), ClientAction::ReportInvalidPacket(PacketError::InvalidPacket)));
    assert_eq!(destination(&pkt), Ipv4Addr::new(1, 2, 3, 4));
}

#[test]
fn tun_packets_go_to_the_session_of_their_destination() {
    let sessions = vec![
        SessionRoute { assigned_ip_addr: None, has_sender: true },
        SessionRoute { assigned_ip_addr: Some(Ipv4Addr::new(10, 0, 0, 3)), has_sender: true },
        SessionRoute { assigned_ip_addr: Some(Ipv4Addr::new(10, 0, 0, 4)), has_sender: false },
        SessionRoute { assigned_ip_addr: Some(Ipv4Addr::new(10, 0, 0, 4)), has_sender: true },
    ];
    let pkt = ipv4_packet([10, 0, 0, 3], b"x");
    match route_tun_packet(pkt.clone(), &sessions) {
        TunRoute::Deliver { session, packet } => {
            assert_eq!(session, 1);
            assert_eq!(packet, pkt);
        }
        other => panic!("expected delivery, got {:?}", other),
    }
    // The first session with the address cannot take frames: dropped.
    assert!(matches!(route_tun_packet(ipv4_packet([10, 0, 0, 4], b""), &sessions), TunRoute::Dropped));
    assert!(matches!(route_tun_packet(ipv4_packet([10, 0, 0, 9], b""), &sessions), TunRoute::Dropped));
    assert!(matches!(route_tun_packet(vec![0x60, 0], &sessions), TunRoute::Unsupported));
    assert!(matches!(route_tun_packet(vec![0x45], &sessions), TunRoute::Invalid(PacketError::SmallBuffer)));
    assert!(matches!(route_tun_packet(vec![0x30, 0], &sessions), TunRoute::Invalid(PacketError::InvalidPacket)));
}
