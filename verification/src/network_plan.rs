use vstd::prelude::*;

use crate::ip::Ipv4Addr;

verus! {

/// An IPv4 network as `ipnet::Ipv4Net` holds it: an address and a prefix
/// length of at most 32.
#[derive(Clone, Copy, Debug, PartialEq, Eq, Structural)]
pub struct Ipv4Net {
    pub addr: Ipv4Addr,
    pub prefix_len: u8,
}

/// The bits after the prefix.
pub open spec fn hostmask(prefix_len: u8) -> u32 {
    if prefix_len >= 32 {
        0
    } else {
        0xFFFF_FFFFu32 >> (prefix_len as u32)
    }
}

/// The bits of the prefix.
pub open spec fn netmask(prefix_len: u8) -> u32 {
    if prefix_len == 0 {
        0
    } else {
        0xFFFF_FFFFu32 << ((32 - prefix_len) as u32)
    }
}

/// `ipnet::Ipv4Net::new`: the network of `addr` with the prefix length, which
/// must be at most 32; a longer one is a `PrefixLenError`, whose text is
/// "invalid IP prefix length". The address is kept as it is.
#[verifier::external_body]
fn ipv4_net_new(addr: Ipv4Addr, prefix_len: u8) -> (r: Result<Ipv4Net, String>)
    ensures
        prefix_len <= 32 ==> r is Ok && r->Ok_0.addr == addr && r->Ok_0.prefix_len == prefix_len,
        prefix_len > 32 ==> r is Err && r->Err_0@ == "invalid IP prefix length"@,
{
    match ipnet::Ipv4Net::new(addr.bits.into(), prefix_len) {
        Ok(n) => Ok(Ipv4Net { addr: Ipv4Addr { bits: u32::from(n.addr()) }, prefix_len: n.prefix_len() }),
        Err(e) => Err(e.to_string()),
    }
}

/// `ipnet::Ipv4Net::broadcast`: the address with every bit after the prefix
/// set.
#[verifier::external_body]
fn ipv4_net_broadcast(net: Ipv4Net) -> (r: Ipv4Addr)
    requires
        net.prefix_len <= 32,
    ensures
        r@ == net.addr@ | hostmask(net.prefix_len),
{
    let n = ipnet::Ipv4Net::new_assert(net.addr.bits.into(), net.prefix_len);
    Ipv4Addr { bits: u32::from(n.broadcast()) }
}

/// `ipnet::Ipv4Net::netmask`: the mask of the prefix.
#[verifier::external_body]
fn ipv4_net_netmask(net: Ipv4Net) -> (r: Ipv4Addr)
    requires
        net.prefix_len <= 32,
    ensures
        r@ == netmask(net.prefix_len),
{
    let n = ipnet::Ipv4Net::new_assert(net.addr.bits.into(), net.prefix_len);
    Ipv4Addr { bits: u32::from(n.netmask()) }
}

/// The address `rhs` below `addr`, or `0.0.0.0` when there is none (what
/// `ipnet::IpSub::saturating_sub` gives on an IPv4 address).
pub fn ipv4_saturating_sub(addr: Ipv4Addr, rhs: u32) -> (r: Ipv4Addr)
    ensures
        r@ == (if addr@ >= rhs {
            addr@ - rhs
        } else {
            0
        }),
{
    if addr.bits >= rhs {
        Ipv4Addr::from_bits(addr.bits - rhs)
    } else {
        Ipv4Addr::from_bits(0)
    }
}

/// The addresses that the gateway sets up for a network: the VRF routing
/// table, the bridge of the containers and the tun device of the clients.
#[derive(Clone, Copy, Debug, PartialEq, Eq, Structural)]
pub struct NetworkPlan {
    pub vrf_table_id: u32,
    /// The bridge's address: the last address below the broadcast address
    /// of the containers' network.
    pub bridge_address: Ipv4Addr,
    pub bridge_prefix_len: u8,
    /// The tun device's address: the last address below the broadcast
    /// address of the clients' network.
    pub tun_address: Ipv4Addr,
    pub tun_netmask: Ipv4Addr,
}

/// The last address below the broadcast address of a network (`0.0.0.0`
/// when the broadcast address is `0.0.0.0`).
pub open spec fn last_host(addr: u32, prefix_len: u8) -> u32 {
    let b = addr | hostmask(prefix_len);
    if b >= 1 {
        (b - 1) as u32
    } else {
        0
    }
}

/// Work out the addresses for a network from the request's addresses and
/// masks (the masks are prefix lengths; only their low byte counts). A prefix
/// length above 32 is refused with the error of `ipnet`.
pub fn plan_network(
    containers_network_address: u32,
    containers_network_mask: u32,
    clients_network_address: u32,
    clients_network_mask: u32,
    vrf_table_id: u32,
) -> (r: Result<NetworkPlan, String>)
    ensures
        ({
            let cp = (containers_network_mask % 256) as u8;
            let kp = (clients_network_mask % 256) as u8;
            &&& (cp <= 32 && kp <= 32) <==> r is Ok
            &&& r matches Ok(p) ==> p == NetworkPlan {
                vrf_table_id,
                bridge_address: Ipv4Addr { bits: last_host(containers_network_address, cp) },
                bridge_prefix_len: cp,
                tun_address: Ipv4Addr { bits: last_host(clients_network_address, kp) },
                tun_netmask: Ipv4Addr { bits: netmask(kp) },
            }
            &&& r matches Err(e) ==> e@ == "invalid IP prefix length"@
        }),
{
    let cp = (containers_network_mask % 256) as u8;
    let kp = (clients_network_mask % 256) as u8;
    let containers = match ipv4_net_new(Ipv4Addr::from_bits(containers_network_address), cp) {
        Ok(n) => n,
        Err(e) => return Err(e),
    };
    let clients = match ipv4_net_new(Ipv4Addr::from_bits(clients_network_address), kp) {
        Ok(n) => n,
        Err(e) => return Err(e),
    };
    let bridge_address = ipv4_saturating_sub(ipv4_net_broadcast(containers), 1);
    let tun_address = ipv4_saturating_sub(ipv4_net_broadcast(clients), 1);
    let tun_netmask = ipv4_net_netmask(clients);
    Ok(
        NetworkPlan {
            vrf_table_id,
            bridge_address,
            bridge_prefix_len: containers.prefix_len,
            tun_address,
            tun_netmask,
        },
    )
}

proof fn lemma_last_host_bits(a: u32, p: u32)
    by (bit_vector)
    requires
        1 <= p <= 30,
    ensures
        (a | (0xFFFF_FFFFu32 >> p)) >= 1,
        (((a | (0xFFFF_FFFFu32 >> p)) - 1) as u32) & (0xFFFF_FFFFu32 << ((32 - p) as u32)) == a & (
        0xFFFF_FFFFu32 << ((32 - p) as u32)),
{
}

/// For a clients' network with a prefix of 1 to 30 bits, the tun device's
/// address lies in that network, and is not its broadcast address.
pub proof fn lemma_tun_address_in_network(addr: u32, prefix_len: u8)
    requires
        1 <= prefix_len <= 30,
    ensures
        last_host(addr, prefix_len) & netmask(prefix_len) == addr & netmask(prefix_len),
        last_host(addr, prefix_len) != addr | hostmask(prefix_len),
{
    lemma_last_host_bits(addr, prefix_len as u32);
}

/// The ids of the VRF routing tables that the gateway hands to networks,
/// one after the other from 1000.
#[derive(Debug)]
pub struct VrfTableIds {
    next: u32,
}

impl VrfTableIds {
    pub closed spec fn spec_next(&self) -> u32 {
        self.next
    }

    /// The first id is 1000.
    pub fn new() -> (r: VrfTableIds)
        ensures
            r.spec_next() == 1000,
    {
        VrfTableIds { next: 1000 }
    }

    /// The id that the next network gets.
    pub fn next_id(&self) -> (r: u32)
        ensures
            r == self.spec_next(),
    {
        self.next
    }

    /// The outcome of adding a VRF with the id `next_id()`: where it was
    /// added, the id is taken, returned, and the next network gets the one
    /// after it; where it was not, nothing changes. The id `u32::MAX` has
    /// none after it.
    pub fn record(&mut self, added: bool) -> (r: Option<u32>)
        requires
            added ==> old(self).spec_next() < u32::MAX,
        ensures
            final(self).spec_next() == next_vrf_table_id(old(self).spec_next(), added),
            r == (if added {
                Some(old(self).spec_next())
            } else {
                None::<u32>
            }),
    {
        if added {
            let id = self.next;
            self.next = self.next + 1;
            Some(id)
        } else {
            None
        }
    }
}

/// The id that the next network gets after one with `next` tried to add its
/// VRF, and did (`added`) or did not.
pub open spec fn next_vrf_table_id(next: u32, added: bool) -> int {
    if added {
        next + 1
    } else {
        next as int
    }
}

/// How many of `outcomes` are `true`.
pub open spec fn successes(outcomes: Seq<bool>) -> int
    decreases outcomes.len(),
{
    if outcomes.len() == 0 {
        0
    } else {
        successes(outcomes.drop_last()) + if outcomes.last() {
            1int
        } else {
            0int
        }
    }
}

proof fn lemma_successes_step(outcomes: Seq<bool>, k: int)
    requires
        0 <= k < outcomes.len(),
    ensures
        successes(outcomes.take(k + 1)) == successes(outcomes.take(k)) + if outcomes[k] {
            1int
        } else {
            0int
        },
{
    assert(outcomes.take(k + 1).drop_last() =~= outcomes.take(k));
}

proof fn lemma_successes_grow(outcomes: Seq<bool>, a: int, b: int)
    requires
        0 <= a <= b <= outcomes.len(),
    ensures
        successes(outcomes.take(a)) <= successes(outcomes.take(b)),
    decreases b - a,
{
    if a < b {
        lemma_successes_step(outcomes, b - 1);
        lemma_successes_grow(outcomes, a, b - 1);
    }
}

/// Table ids through a run of the gateway: `ids[0]` is a new counter, and
/// `ids[k + 1]` is `ids[k]` after `record` of `outcomes[k]`, whether the
/// network at `k` added its VRF. Then every network that added its VRF got
/// 1000 plus the number of networks that added theirs before it: the first
/// 1000, the second 1001, and so on. So no two networks that added their VRF
/// share a table id.
pub proof fn lemma_vrf_table_ids_count_successes(
    outcomes: Seq<bool>,
    ids: Seq<VrfTableIds>,
    i: int,
    j: int,
)
    requires
        ids.len() == outcomes.len() + 1,
        ids[0].spec_next() == 1000,
        forall|k: int|
            0 <= k < outcomes.len() ==> #[trigger] ids[k + 1].spec_next() == next_vrf_table_id(
                ids[k].spec_next(),
                outcomes[k],
            ),
        0 <= i < j < outcomes.len(),
        outcomes[i],
        outcomes[j],
    ensures
        ids[i].spec_next() == 1000 + successes(outcomes.take(i)),
        ids[j].spec_next() == 1000 + successes(outcomes.take(j)),
        ids[i].spec_next() < ids[j].spec_next(),
{
    lemma_vrf_table_ids_follow_successes(outcomes, ids, j);
    lemma_vrf_table_ids_follow_successes(outcomes, ids, i);
    lemma_successes_step(outcomes, i);
    lemma_successes_grow(outcomes, i + 1, j);
}

proof fn lemma_vrf_table_ids_follow_successes(outcomes: Seq<bool>, ids: Seq<VrfTableIds>, k: int)
    requires
        ids.len() == outcomes.len() + 1,
        ids[0].spec_next() == 1000,
        forall|m: int|
            0 <= m < outcomes.len() ==> #[trigger] ids[m + 1].spec_next() == next_vrf_table_id(
                ids[m].spec_next(),
                outcomes[m],
            ),
        0 <= k <= outcomes.len(),
    ensures
        ids[k].spec_next() == 1000 + successes(outcomes.take(k)),
    decreases k,
{
    if k == 0 {
        assert(outcomes.take(0) =~= Seq::<bool>::empty());
    } else {
        lemma_vrf_table_ids_follow_successes(outcomes, ids, k - 1);
        lemma_successes_step(outcomes, k - 1);
        assert(ids[(k - 1) + 1].spec_next() == next_vrf_table_id(ids[k - 1].spec_next(), outcomes[k - 1]));
    }
}

} // verus!
