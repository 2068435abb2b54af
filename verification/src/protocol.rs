use vstd::prelude::*;

use crate::ip::IpAddr;

verus! {

/// A message of the tunnel protocol.
#[derive(Debug, PartialEq, Eq)]
pub enum Frame {
    Ping,
    OK,
    StateChanged(SessionState),
    Request(RequestBody),
    Response(ResponseBody),
    /// IPv4 Packet
    IPv4(Vec<u8>),
}

/// A request that the client sends during the handshake.
#[derive(Debug, PartialEq, Eq)]
pub enum RequestBody {
    AuthRequest { token: String },
    ClientIPRequest { network_id: String },
    ReadyRequest,
    CloseRequest,
}

/// A response that the server sends during the handshake.
#[derive(Debug, PartialEq, Eq)]
pub enum ResponseBody {
    ClientIPResponse { ip: IpAddr },
}

/// The state of a tunnel session.
#[derive(Debug, PartialEq, Eq, Clone, Copy, Structural)]
pub enum SessionState {
    Init,
    Authenticated,
    Ready,
    Established,
    Closed,
}

/// The transport that carries the tunnel.
#[derive(Debug, PartialEq, Eq, Clone, Copy, Structural)]
pub enum Protocol {
    Tcp,
    Quic,
}

/// The transport that the client uses.
pub const USING_PROTOCOL: Protocol = Protocol::Tcp;

/// A frame as a mathematical value.
pub enum FrameView {
    Ping,
    OK,
    StateChanged(SessionState),
    AuthRequest { token: Seq<char> },
    ClientIPRequest { network_id: Seq<char> },
    ReadyRequest,
    CloseRequest,
    ClientIPResponse { ip: IpAddr },
    IPv4(Seq<u8>),
}

impl View for Frame {
    type V = FrameView;

    open spec fn view(&self) -> FrameView {
        match self {
            Frame::Ping => FrameView::Ping,
            Frame::OK => FrameView::OK,
            Frame::StateChanged(s) => FrameView::StateChanged(*s),
            Frame::Request(RequestBody::AuthRequest { token }) => FrameView::AuthRequest {
                token: token@,
            },
            Frame::Request(RequestBody::ClientIPRequest { network_id }) => {
                FrameView::ClientIPRequest { network_id: network_id@ }
            },
            Frame::Request(RequestBody::ReadyRequest) => FrameView::ReadyRequest,
            Frame::Request(RequestBody::CloseRequest) => FrameView::CloseRequest,
            Frame::Response(ResponseBody::ClientIPResponse { ip }) => FrameView::ClientIPResponse {
                ip: *ip,
            },
            Frame::IPv4(data) => FrameView::IPv4(data@),
        }
    }
}

/// The outcome of reading the next frame, as a mathematical value: the end of
/// the stream, a read error, or a frame.
pub open spec fn read_view(next: Option<Result<Frame, String>>) -> Option<Result<FrameView, Seq<char>>> {
    match next {
        None => None,
        Some(Err(e)) => Some(Err(e@)),
        Some(Ok(f)) => Some(Ok(f@)),
    }
}

/// What `expect_frame` returns for a read outcome and the matcher's answer:
/// the end of the stream and a frame that the matcher refuses are errors with
/// fixed messages, a read error is passed on.
pub open spec fn expect_outcome<T>(next: Option<Result<Frame, String>>, matched: Option<T>) -> Result<
    T,
    Seq<char>,
> {
    match next {
        None => Err("Error while reading frame"@),
        Some(Err(e)) => Err(e@),
        Some(Ok(_)) => match matched {
            Some(t) => Ok(t),
            None => Err("Unexpected frame"@),
        },
    }
}

/// The view of a result with a `String` error.
pub open spec fn result_view<T>(r: Result<T, String>) -> Result<T, Seq<char>> {
    match r {
        Ok(t) => Ok(t),
        Err(e) => Err(e@),
    }
}

/// Take the outcome of reading the next frame, and expect the frame to be
/// matched by `expected`. If the frame is matched, return the matched value;
/// otherwise, and when the stream ended or failed, return an error.
pub fn expect_frame<T, F: Fn(Frame) -> Option<T>>(
    next: Option<Result<Frame, String>>,
    expected: F,
) -> (r: Result<T, String>)
    requires
        forall|f: Frame| expected.requires((f,)),
    ensures
        next matches Some(Ok(f)) ==> exists|o: Option<T>|
            expected.ensures((f,), o) && result_view(r) == expect_outcome(next, o),
        !(next is Some && next->0 is Ok) ==> result_view(r) == expect_outcome(next, None::<T>),
{
    match next {
        None => Err("Error while reading frame".to_owned()),
        Some(Err(e)) => Err(e),
        Some(Ok(f)) => {
            let ghost g = f;
            let o = expected(f);
            assert(expected.ensures((g,), o));
            let ghost og = o;
            let r = match o {
                Some(t) => Ok(t),
                None => Err("Unexpected frame".to_owned()),
            };
            assert(result_view(r) == expect_outcome(Some(Ok::<Frame, String>(g)), og));
            r
        },
    }
}

} // verus!
