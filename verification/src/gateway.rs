use vstd::prelude::*;

use crate::ip::Ipv4Addr;
use crate::ip_packet::{
    destination, ip_version, ipv4_destination, ipv4_size, ipv4_well_formed, parse_ip_packet, parsed_view, PacketError, ParsedPacket, ParsedView,
};

verus! {

/// A network that the gateway serves, with the sink that writes packets to
/// its tun device.
pub struct Network<S> {
    pub network_id: String,
    pub tun_sink: S,
}

/// The networks that the gateway serves, in the order they were added.
pub struct NetworkManager<S> {
    pub networks: Vec<Network<S>>,
}

/// `i` is the first position of a network with the id `id`.
pub open spec fn first_with_id<S>(networks: Seq<Network<S>>, id: Seq<char>, i: int) -> bool {
    &&& 0 <= i < networks.len()
    &&& networks[i].network_id@ == id
    &&& forall|j: int| 0 <= j < i ==> (#[trigger] networks[j]).network_id@ != id
}

/// No network has the id `id`.
pub open spec fn no_network_with_id<S>(networks: Seq<Network<S>>, id: Seq<char>) -> bool {
    forall|j: int| 0 <= j < networks.len() ==> (#[trigger] networks[j]).network_id@ != id
}

impl<S> NetworkManager<S> {
    pub fn new() -> (r: NetworkManager<S>)
        ensures
            r.networks@ == Seq::<Network<S>>::empty(),
    {
        NetworkManager { networks: Vec::new() }
    }

    /// Add a network after those already there.
    pub fn add_network(&mut self, network: Network<S>)
        ensures
            final(self).networks@ == old(self).networks@.push(network),
    {
        self.networks.push(network);
    }

    fn position(&self, network_id: &str) -> (r: Option<usize>)
        ensures
            r matches Some(i) ==> first_with_id(self.networks@, network_id@, i as int),
            r is None ==> no_network_with_id(self.networks@, network_id@),
    {
        let key = network_id.to_owned();
        let mut i: usize = 0;
        while i < self.networks.len()
            invariant
                0 <= i <= self.networks@.len(),
                key@ == network_id@,
                forall|j: int| 0 <= j < i ==> (#[trigger] self.networks@[j]).network_id@ != key@,
            decreases self.networks@.len() - i,
        {
            if self.networks[i].network_id == key {
                return Some(i);
            }
            i = i + 1;
        }
        None
    }

    /// The first network with the id `network_id`.
    pub fn get_network(&self, network_id: &str) -> (r: Option<&Network<S>>)
        ensures
            r matches Some(n) ==> exists|i: int|
                first_with_id(self.networks@, network_id@, i) && self.networks@[i] == *n,
            r is None <==> no_network_with_id(self.networks@, network_id@),
    {
        match self.position(network_id) {
            Some(i) => Some(&self.networks[i]),
            None => None,
        }
    }

    /// Take the first network with the id `network_id` out of the manager.
    pub fn remove_network(&mut self, network_id: &str) -> (r: Option<Network<S>>)
        ensures
            r matches Some(n) ==> exists|i: int|
                first_with_id(old(self).networks@, network_id@, i) && old(self).networks@[i] == n
                    && final(self).networks@ == old(self).networks@.remove(i),
            r is None ==> no_network_with_id(old(self).networks@, network_id@)
                && final(self).networks@ == old(self).networks@,
    {
        match self.position(network_id) {
            Some(i) => Some(self.networks.remove(i)),
            None => None,
        }
    }
}

/// A network just added is what a lookup of its id finds when no network
/// before it had that id; after it is removed again, the networks are those
/// there were before.
pub proof fn lemma_add_then_find<S>(networks: Seq<Network<S>>, network: Network<S>)
    requires
        no_network_with_id(networks, network.network_id@),
    ensures
        first_with_id(networks.push(network), network.network_id@, networks.len() as int),
        networks.push(network).remove(networks.len() as int) == networks,
{
    let all = networks.push(network);
    assert forall|j: int| 0 <= j < networks.len() implies (#[trigger] all[j]).network_id@
        != network.network_id@ by {
        assert(all[j] == networks[j]);
    }
    assert(all.remove(networks.len() as int) =~= networks);
}

/// What the gateway knows of a session when it routes a packet to it.
#[derive(Clone, Copy, Debug)]
pub struct SessionRoute {
    /// The address given to the client of the session, if any yet.
    pub assigned_ip_addr: Option<Ipv4Addr>,
    /// The session can take frames.
    pub has_sender: bool,
}

/// Where a packet read from a network's tun device goes.
#[derive(Debug)]
pub enum TunRoute {
    /// To the session at this position, as this IPv4 packet.
    Deliver { session: usize, packet: Vec<u8> },
    /// Nowhere: no session has the destination address, or the first one that
    /// has it cannot take frames.
    Dropped,
    /// The packet is not IPv4.
    Unsupported,
    /// The packet could not be parsed.
    Invalid(PacketError),
}

pub enum TunRouteView {
    Deliver { session: int, packet: Seq<u8> },
    Dropped,
    Unsupported,
    Invalid(PacketError),
}

impl View for TunRoute {
    type V = TunRouteView;

    open spec fn view(&self) -> TunRouteView {
        match self {
            TunRoute::Deliver { session, packet } => TunRouteView::Deliver {
                session: *session as int,
                packet: packet@,
            },
            TunRoute::Dropped => TunRouteView::Dropped,
            TunRoute::Unsupported => TunRouteView::Unsupported,
            TunRoute::Invalid(e) => TunRouteView::Invalid(*e),
        }
    }
}

/// `i` is the first session that was given the address `dest`.
pub open spec fn first_session_with(sessions: Seq<SessionRoute>, dest: u32, i: int) -> bool {
    &&& 0 <= i < sessions.len()
    &&& sessions[i].assigned_ip_addr == Some(Ipv4Addr { bits: dest })
    &&& forall|j: int|
        0 <= j < i ==> (#[trigger] sessions[j]).assigned_ip_addr != Some(Ipv4Addr { bits: dest })
}

/// Where a packet goes: an IPv4 packet to the first session that was given
/// its destination address, if that session can take frames.
pub open spec fn tun_route(data: Seq<u8>, sessions: Seq<SessionRoute>) -> TunRouteView {
    match parsed_view(data) {
        ParsedView::V4(packet) => {
            let dest = ipv4_destination(data);
            if exists|i: int| first_session_with(sessions, dest, i) {
                let i = choose|i: int| first_session_with(sessions, dest, i);
                if sessions[i].has_sender {
                    TunRouteView::Deliver { session: i, packet }
                } else {
                    TunRouteView::Dropped
                }
            } else {
                TunRouteView::Dropped
            }
        },
        ParsedView::V6 => TunRouteView::Unsupported,
        ParsedView::Invalid(e) => TunRouteView::Invalid(e),
    }
}

/// Route a packet read from a network's tun device to the session of its
/// destination address.
pub fn route_tun_packet(data: Vec<u8>, sessions: &Vec<SessionRoute>) -> (r: TunRoute)
    requires
        data@.len() > 0,
    ensures
        r@ == tun_route(data@, sessions@),
{
    let ghost d = data@;
    let dest = if data.len() >= 20 {
        Some(destination(&data))
    } else {
        None
    };
    match parse_ip_packet(data) {
        ParsedPacket::V4(packet) => {
            let dest = dest.unwrap();
            let mut i: usize = 0;
            while i < sessions.len()
                invariant
                    0 <= i <= sessions@.len(),
                    dest@ == ipv4_destination(d),
                    parsed_view(d) == ParsedView::V4(packet@),
                    d == data@,
                    forall|j: int|
                        0 <= j < i ==> (#[trigger] sessions@[j]).assigned_ip_addr != Some(dest),
                decreases sessions@.len() - i,
            {
                let matches = match sessions[i].assigned_ip_addr {
                    Some(a) => a.bits == dest.bits,
                    None => false,
                };
                if matches {
                    assert(first_session_with(sessions@, dest@, i as int));
                    assert forall|k: int| first_session_with(sessions@, dest@, k) implies k
                        == i by {
                        if k < i {
                            assert(sessions@[k].assigned_ip_addr != Some(dest));
                        }
                        if k > i {
                            assert(sessions@[i as int].assigned_ip_addr != Some(dest));
                        }
                    }
                    if sessions[i].has_sender {
                        return TunRoute::Deliver { session: i, packet };
                    } else {
                        return TunRoute::Dropped;
                    }
                }
                i = i + 1;
            }
            assert forall|k: int| !first_session_with(sessions@, dest@, k) by {
                if first_session_with(sessions@, dest@, k) {
                    assert(sessions@[k].assigned_ip_addr == Some(dest));
                }
            }
            TunRoute::Dropped
        },
        ParsedPacket::V6 => TunRoute::Unsupported,
        ParsedPacket::Invalid(e) => TunRoute::Invalid(e),
    }
}

/// Where a packet from a network's tun device goes, for every packet and
/// every list of sessions. A well-formed IPv4 packet goes, cut to its size, to
/// the first session that was given its destination address, however many
/// sessions before it hold other addresses or none, if that session can take
/// frames; it is dropped where that session cannot, or where no session has
/// the address; and it goes nowhere else. An IPv6 packet is unsupported; an
/// IPv4 buffer too short for its packet, and any other version, are invalid.
pub proof fn lemma_tun_route_destination(data: Seq<u8>, sessions: Seq<SessionRoute>, i: int)
    requires
        data.len() > 0,
    ensures
        ip_version(data) == 4 && ipv4_well_formed(data) && 0 <= i < sessions.len()
            && sessions[i].assigned_ip_addr == Some(Ipv4Addr { bits: ipv4_destination(data) })
            && (forall|j: int|
            0 <= j < i ==> sessions[j].assigned_ip_addr != Some(
                Ipv4Addr { bits: ipv4_destination(data) },
            )) ==> tun_route(data, sessions) == if sessions[i].has_sender {
            TunRouteView::Deliver { session: i, packet: data.subrange(0, ipv4_size(data) as int) }
        } else {
            TunRouteView::Dropped
        },
        ip_version(data) == 4 && ipv4_well_formed(data) && (forall|j: int|
            0 <= j < sessions.len() ==> sessions[j].assigned_ip_addr != Some(
                Ipv4Addr { bits: ipv4_destination(data) },
            )) ==> tun_route(data, sessions) == TunRouteView::Dropped,
        tun_route(data, sessions) matches TunRouteView::Deliver { session, packet } ==> {
            &&& ip_version(data) == 4
            &&& ipv4_well_formed(data)
            &&& 0 <= session < sessions.len()
            &&& sessions[session].has_sender
            &&& sessions[session].assigned_ip_addr == Some(
                Ipv4Addr { bits: ipv4_destination(data) },
            )
            &&& forall|j: int|
                0 <= j < session ==> sessions[j].assigned_ip_addr != Some(
                    Ipv4Addr { bits: ipv4_destination(data) },
                )
            &&& packet == data.subrange(0, ipv4_size(data) as int)
        },
        ip_version(data) == 6 ==> tun_route(data, sessions) == TunRouteView::Unsupported,
        ip_version(data) == 4 && !ipv4_well_formed(data) ==> tun_route(data, sessions)
            == TunRouteView::Invalid(PacketError::SmallBuffer),
        ip_version(data) != 4 && ip_version(data) != 6 ==> tun_route(data, sessions)
            == TunRouteView::Invalid(PacketError::InvalidPacket),
{
    let dest = ipv4_destination(data);
    if ip_version(data) == 4 && ipv4_well_formed(data) && 0 <= i < sessions.len()
        && sessions[i].assigned_ip_addr == Some(Ipv4Addr { bits: dest }) && (forall|j: int|
        0 <= j < i ==> sessions[j].assigned_ip_addr != Some(Ipv4Addr { bits: dest })) {
        assert(first_session_with(sessions, dest, i));
        let k = choose|k: int| first_session_with(sessions, dest, k);
        if k < i {
            assert(sessions[k].assigned_ip_addr == Some(Ipv4Addr { bits: dest }));
        }
        if k > i {
            assert(sessions[i].assigned_ip_addr != Some(Ipv4Addr { bits: dest }));
        }
    }
    if ip_version(data) == 4 && ipv4_well_formed(data) && (forall|j: int|
        0 <= j < sessions.len() ==> sessions[j].assigned_ip_addr != Some(
            Ipv4Addr { bits: dest },
        )) {
        assert forall|k: int| !first_session_with(sessions, dest, k) by {
            if first_session_with(sessions, dest, k) {
                assert(sessions[k].assigned_ip_addr == Some(Ipv4Addr { bits: dest }));
            }
        }
    }
}

} // verus!
