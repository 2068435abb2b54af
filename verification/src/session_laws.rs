use vstd::prelude::*;

use crate::client_session::{
    client_step, ClientActionView, ClientEventView, ClientPhase, ClientSessionView,
};
use crate::ip::IpAddr;
use crate::protocol::{FrameView, SessionState};
use crate::server_session::{
    server_state_fits, server_step, state_rank, ServerActionView, ServerEventView, ServerPhase,
    ServerSessionView,
};

verus! {

/// The client's session after the first `i` events.
pub open spec fn client_after(s0: ClientSessionView, events: Seq<ClientEventView>, i: nat) -> ClientSessionView
    decreases i,
{
    if i == 0 {
        s0
    } else {
        client_step(client_after(s0, events, (i - 1) as nat), events[i - 1]).0
    }
}

/// What the client does on the event at position `i`.
pub open spec fn client_action_at(s0: ClientSessionView, events: Seq<ClientEventView>, i: nat) -> ClientActionView {
    client_step(client_after(s0, events, i), events[i as int]).1
}

/// The server confirmed the authentication.
pub open spec fn is_authenticated_reply(e: ClientEventView) -> bool {
    e == ClientEventView::Received(Some(Ok(FrameView::StateChanged(SessionState::Authenticated))))
}

/// The server handed out an IPv4 address.
pub open spec fn is_address_reply(e: ClientEventView) -> bool {
    e matches ClientEventView::Received(
        Some(Ok(FrameView::ClientIPResponse { ip: IpAddr::V4(_) })),
    )
}

/// The server confirmed that the session is ready.
pub open spec fn is_ready_reply(e: ClientEventView) -> bool {
    e == ClientEventView::Received(Some(Ok(FrameView::StateChanged(SessionState::Ready))))
}

/// The action hands a packet on, or answers the server once established.
pub open spec fn is_traffic(a: ClientActionView) -> bool {
    ||| a is WriteTun
    ||| a matches ClientActionView::Send(FrameView::IPv4(_))
    ||| a == ClientActionView::Send(FrameView::OK)
}

proof fn lemma_client_history(s0: ClientSessionView, events: Seq<ClientEventView>, i: nat)
    requires
        s0.phase == ClientPhase::AwaitAuthenticated,
        i <= events.len(),
    ensures
        ({
            let s = client_after(s0, events, i);
            (s.phase == ClientPhase::AwaitTun || s.phase == ClientPhase::AwaitReady || s.phase
                == ClientPhase::Established) ==> exists|j: int|
                0 <= j < i && #[trigger] is_address_reply(events[j])
        }),
        client_after(s0, events, i).phase == ClientPhase::Established ==> exists|j: int|
            0 <= j < i && #[trigger] is_ready_reply(events[j]),
    decreases i,
{
    if i > 0 {
        let k = (i - 1) as nat;
        lemma_client_history(s0, events, k);
        let before = client_after(s0, events, k);
        let after = client_after(s0, events, i);
        assert(after == client_step(before, events[k as int]).0);
        if after.phase == ClientPhase::AwaitTun || after.phase == ClientPhase::AwaitReady
            || after.phase == ClientPhase::Established {
            if !(before.phase == ClientPhase::AwaitTun || before.phase == ClientPhase::AwaitReady
                || before.phase == ClientPhase::Established) {
                assert(is_address_reply(events[k as int]));
            } else {
                let j = choose|j: int| 0 <= j < k && #[trigger] is_address_reply(events[j]);
                assert(is_address_reply(events[j]));
            }
        }
        if after.phase == ClientPhase::Established {
            if before.phase != ClientPhase::Established {
                assert(is_ready_reply(events[k as int]));
            } else {
                let j = choose|j: int| 0 <= j < k && #[trigger] is_ready_reply(events[j]);
                assert(is_ready_reply(events[j]));
            }
        }
    }
}

/// Over any sequence of events, a session that starts by sending its token
/// asks for its address only on the server's confirmation of the
/// authentication, says it is ready only once the tun device is up and after
/// the server handed out an address, and hands packets on (or answers pings)
/// only after the server confirmed that the session is ready.
pub proof fn lemma_client_request_order(s0: ClientSessionView, events: Seq<ClientEventView>)
    requires
        s0.phase == ClientPhase::AwaitAuthenticated,
    ensures
        forall|i: nat|
            i < events.len() ==> ((#[trigger] client_action_at(s0, events, i)) matches ClientActionView::Send(
                FrameView::ClientIPRequest { .. },
            )) ==> is_authenticated_reply(events[i as int]),
        forall|i: nat|
            i < events.len() && #[trigger] client_action_at(s0, events, i)
                == ClientActionView::Send(FrameView::ReadyRequest) ==> (events[i as int]
                matches ClientEventView::TunReady(Ok(_))) && exists|j: int|
                0 <= j < i && #[trigger] is_address_reply(events[j]),
        forall|i: nat|
            i < events.len() && is_traffic(#[trigger] client_action_at(s0, events, i))
                ==> exists|j: int| 0 <= j < i && #[trigger] is_ready_reply(events[j]),
{
    assert forall|i: nat|
        i < events.len() && #[trigger] client_action_at(s0, events, i) == ClientActionView::Send(
            FrameView::ReadyRequest,
        ) implies (events[i as int] matches ClientEventView::TunReady(Ok(_))) && exists|j: int|
        0 <= j < i && #[trigger] is_address_reply(events[j]) by {
        lemma_client_history(s0, events, i);
        let s = client_after(s0, events, i);
        assert(client_step(s, events[i as int]).1 == ClientActionView::Send(FrameView::ReadyRequest));
        assert(s.phase == ClientPhase::AwaitTun) by {
            if s.phase != ClientPhase::AwaitTun {
                assert(client_step(s, events[i as int]).1 != ClientActionView::Send(
                    FrameView::ReadyRequest,
                ));
            }
        }
        match events[i as int] {
            ClientEventView::TunReady(r) => {
                assert(r is Ok);
            },
            _ => {
                assert(client_step(s, events[i as int]).1 != ClientActionView::Send(
                    FrameView::ReadyRequest,
                ));
            },
        }
        let w = choose|j: int| 0 <= j < i && #[trigger] is_address_reply(events[j]);
        assert(0 <= w < i && is_address_reply(events[w]));
    }
    assert forall|i: nat|
        i < events.len() && is_traffic(#[trigger] client_action_at(s0, events, i)) implies exists|
        j: int,
    | 0 <= j < i && #[trigger] is_ready_reply(events[j]) by {
        lemma_client_history(s0, events, i);
    }
}

/// The server's side of a session after the first `i` events.
pub open spec fn server_after(s0: ServerSessionView, events: Seq<ServerEventView>, i: nat) -> ServerSessionView
    decreases i,
{
    if i == 0 {
        s0
    } else {
        server_step(server_after(s0, events, (i - 1) as nat), events[i - 1]).0
    }
}

/// What the server does on the event at position `i`.
pub open spec fn server_action_at(s0: ServerSessionView, events: Seq<ServerEventView>, i: nat) -> ServerActionView {
    server_step(server_after(s0, events, i), events[i as int]).1
}

/// A session as `ServerSession::new` makes it.
pub open spec fn server_start() -> ServerSessionView {
    ServerSessionView {
        phase: ServerPhase::AwaitAuthRequest,
        state: SessionState::Init,
        user_id: Seq::empty(),
        network_id: Seq::empty(),
        session_id: None,
        assigned_ip: None,
        read_closed: false,
        outgoing_closed: false,
    }
}

proof fn lemma_server_states_fit(events: Seq<ServerEventView>, i: nat)
    requires
        i <= events.len(),
    ensures
        server_state_fits(server_after(server_start(), events, i)),
        state_rank(server_after(server_start(), events, i).state) <= 2,
    decreases i,
{
    if i > 0 {
        lemma_server_states_fit(events, (i - 1) as nat);
    }
}

proof fn lemma_server_rank_grows(events: Seq<ServerEventView>, i: nat, j: nat)
    requires
        i <= j <= events.len(),
    ensures
        state_rank(server_after(server_start(), events, i).state) <= state_rank(
            server_after(server_start(), events, j).state,
        ),
    decreases j - i,
{
    if i < j {
        lemma_server_rank_grows(events, i, (j - 1) as nat);
        lemma_server_states_fit(events, (j - 1) as nat);
    }
}

proof fn lemma_server_one_step(events: Seq<ServerEventView>, i: nat)
    requires
        i < events.len(),
    ensures
        server_step_announced(events, i),
{
    lemma_server_states_fit(events, i);
    assert(server_after(server_start(), events, i + 1) == server_step(
        server_after(server_start(), events, i),
        events[i as int],
    ).0);
}

proof fn lemma_server_ranks_ordered(events: Seq<ServerEventView>)
    ensures
        forall|i: nat, j: nat|
            i <= j <= events.len() ==> state_rank(
                (#[trigger] server_after(server_start(), events, i)).state,
            ) <= state_rank((#[trigger] server_after(server_start(), events, j)).state),
{
    assert forall|i: nat, j: nat| i <= j <= events.len() implies state_rank(
        (#[trigger] server_after(server_start(), events, i)).state,
    ) <= state_rank((#[trigger] server_after(server_start(), events, j)).state) by {
        lemma_server_rank_grows(events, i, j);
    }
}

proof fn lemma_server_ranks_bounded(events: Seq<ServerEventView>)
    ensures
        forall|i: nat|
            i <= events.len() ==> state_rank(
                (#[trigger] server_after(server_start(), events, i)).state,
            ) <= 2,
{
    assert forall|i: nat| i <= events.len() implies state_rank(
        (#[trigger] server_after(server_start(), events, i)).state,
    ) <= 2 by {
        lemma_server_states_fit(events, i);
    }
}

/// The state change at the event at position `i`: it moves one state at
/// most, and to `Authenticated` or `Ready` only where the server sends that
/// state to the client.
pub open spec fn server_step_announced(events: Seq<ServerEventView>, i: nat) -> bool {
    let before = server_after(server_start(), events, i).state;
    let after = server_after(server_start(), events, i + 1).state;
    &&& state_rank(after) <= state_rank(before) + 1
    &&& (before != after && after == SessionState::Authenticated) ==> server_action_at(
        server_start(),
        events,
        i,
    ) == ServerActionView::Send(FrameView::StateChanged(SessionState::Authenticated))
    &&& (before != after && after == SessionState::Ready) ==> server_action_at(
        server_start(),
        events,
        i,
    ) == ServerActionView::Send(FrameView::StateChanged(SessionState::Ready))
}

proof fn lemma_server_steps_announced(events: Seq<ServerEventView>)
    ensures
        forall|i: nat| i < events.len() ==> #[trigger] server_step_announced(events, i),
{
    assert forall|i: nat| i < events.len() implies #[trigger] server_step_announced(events, i) by {
        lemma_server_one_step(events, i);
    }
}

/// Over a whole session, from a new session and whatever the events, the
/// session state only moves forward: it is `Init`, `Authenticated` or
/// `Ready`, never goes back, and it becomes `Authenticated` (from `Init`)
/// exactly where the server sends the client that state, and `Ready` (from
/// `Authenticated`) exactly where it sends `Ready`; it never skips a state.
pub proof fn lemma_server_session_states(events: Seq<ServerEventView>)
    ensures
        forall|i: nat, j: nat|
            i <= j <= events.len() ==> state_rank(
                (#[trigger] server_after(server_start(), events, i)).state,
            ) <= state_rank((#[trigger] server_after(server_start(), events, j)).state),
        forall|i: nat|
            i <= events.len() ==> state_rank(
                (#[trigger] server_after(server_start(), events, i)).state,
            ) <= 2,
        forall|i: nat| i < events.len() ==> #[trigger] server_step_announced(events, i),
{
    lemma_server_ranks_ordered(events);
    lemma_server_ranks_bounded(events);
    lemma_server_steps_announced(events);
}

} // verus!
