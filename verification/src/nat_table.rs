use vstd::prelude::*;

use crate::ip::Ipv4Addr;

verus! {

/// The mask that keeps the `prefix` leading bits of an address.
/// Defined for `1 <= prefix <= 32`.
pub open spec fn prefix_mask(prefix: u8) -> u32 {
    0xFFFF_FFFFu32 << ((32 - prefix) as u32)
}

/// The mask that keeps the bits of an address after its `prefix` leading bits.
/// Defined for `prefix < 32`.
pub open spec fn host_mask(prefix: u8) -> u32 {
    0xFFFF_FFFFu32 >> (prefix as u32)
}

/// The address that keeps the host part of `ip` (the bits after `prefix`) and
/// puts it on the network address `base`.
pub open spec fn translate(ip: u32, prefix: u8, base: u32) -> u32 {
    (ip & host_mask(prefix)) | base
}

/// A network: an address and the length of its prefix.
#[derive(Clone, Copy, Debug, PartialEq, Eq, Hash, Structural)]
pub struct Network {
    pub ip: Ipv4Addr,
    pub netmask: u8,
}

impl Network {
    /// The prefix length is one that `is_in_network` can shift by.
    pub open spec fn wf(self) -> bool {
        1 <= self.netmask <= 32
    }

    /// `ip` masked to the prefix is the network's address.
    pub open spec fn contains(self, ip: u32) -> bool {
        ip & prefix_mask(self.netmask) == self.ip@
    }

    /// The network's address has no bit set after its prefix.
    pub open spec fn is_aligned(self) -> bool {
        self.ip@ & prefix_mask(self.netmask) == self.ip@
    }

    pub fn new(ip: Ipv4Addr, netmask: u8) -> (r: Network)
        ensures
            r.ip == ip,
            r.netmask == netmask,
    {
        Network { ip, netmask }
    }

    /// Whether `ip`, cut to this network's prefix, equals the network's address.
    pub fn is_in_network(&self, ip: Ipv4Addr) -> (r: bool)
        requires
            self.wf(),
        ensures
            r == self.contains(ip@),
    {
        let shift: u32 = 32 - self.netmask as u32;
        (ip.to_bits() & (0xFFFF_FFFFu32 << shift)) == self.ip.to_bits()
    }
}

/// The first entry of `entries` whose side (`local` for `by_remote == false`,
/// `remote` otherwise) contains `ip` maps it onto the other side; with no
/// such entry `ip` stays as it is.
pub open spec fn map_address(entries: Seq<(Network, Network)>, ip: u32, by_remote: bool) -> u32
    decreases entries.len(),
{
    if entries.len() == 0 {
        ip
    } else {
        let (local, remote) = entries[0];
        let (from, to) = if by_remote {
            (remote, local)
        } else {
            (local, remote)
        };
        if from.contains(ip) {
            translate(ip, from.netmask, to.ip@)
        } else {
            map_address(entries.drop_first(), ip, by_remote)
        }
    }
}

/// No entry's side is used twice as a key: the table is a map from local
/// networks to remote ones.
pub open spec fn keys_unique(entries: Seq<(Network, Network)>) -> bool {
    forall|i: int, j: int|
        0 <= i < entries.len() && 0 <= j < entries.len() && i != j ==> #[trigger] entries[i].0
            != #[trigger] entries[j].0
}

/// Every network on the side that is looked up can be tested, and every one of
/// them that holds `ip` has a prefix shorter than 32, so that the host mask
/// can be computed.
pub open spec fn can_map(entries: Seq<(Network, Network)>, ip: u32, by_remote: bool) -> bool {
    forall|i: int|
        0 <= i < entries.len() ==> {
            let from = if by_remote {
                (#[trigger] entries[i]).1
            } else {
                entries[i].0
            };
            from.wf() && (from.contains(ip) ==> from.netmask < 32)
        }
}

/// The entries as a map from local networks to remote networks.
pub open spec fn entries_map(entries: Seq<(Network, Network)>) -> Map<Network, Network> {
    Map::new(
        |l: Network| exists|i: int| 0 <= i < entries.len() && #[trigger] entries[i].0 == l,
        |l: Network| entries[choose|i: int| 0 <= i < entries.len() && #[trigger] entries[i].0 == l].1,
    )
}

/// A table of address translations from local networks to remote ones.
pub struct NATTable {
    entries: Vec<(Network, Network)>,
}

impl View for NATTable {
    type V = Seq<(Network, Network)>;

    closed spec fn view(&self) -> Seq<(Network, Network)> {
        self.entries@
    }
}

impl NATTable {
    /// The table maps each local network to one remote network.
    pub open spec fn wf(&self) -> bool {
        keys_unique(self@)
    }

    /// The table as a map from local networks to remote networks.
    pub open spec fn as_map(&self) -> Map<Network, Network> {
        entries_map(self@)
    }

    pub fn new() -> (r: NATTable)
        ensures
            r@ == Seq::<(Network, Network)>::empty(),
            r.wf(),
    {
        NATTable { entries: Vec::new() }
    }

    /// Map `local` to `remote`; an entry for `local` that was there is
    /// replaced in place, otherwise the entry is added at the end.
    pub fn add_entry(&mut self, local: Network, remote: Network)
        requires
            old(self).wf(),
        ensures
            final(self).wf(),
            (exists|i: int|
                0 <= i < old(self)@.len() && #[trigger] old(self)@[i].0 == local) ==> exists|i: int|
                0 <= i < old(self)@.len() && #[trigger] old(self)@[i].0 == local && final(self)@
                    == old(self)@.update(i, (local, remote)),
            (forall|i: int| 0 <= i < old(self)@.len() ==> #[trigger] old(self)@[i].0 != local)
                ==> final(self)@ == old(self)@.push((local, remote)),
            final(self).as_map() == old(self).as_map().insert(local, remote),
    {
        proof {
            lemma_as_map_unique(old(self)@);
        }
        let n = self.entries.len();
        let mut i: usize = 0;
        while i < n
            invariant
                n == self.entries@.len(),
                self.entries@ == old(self)@,
                keys_unique(self.entries@),
                0 <= i <= n,
                forall|j: int| 0 <= j < i ==> #[trigger] self.entries@[j].0 != local,
            decreases n - i,
        {
            if self.entries[i].0 == local {
                let ghost before = self.entries@;
                self.entries.set(i, (local, remote));
                assert(self.entries@ == before.update(i as int, (local, remote)));
                assert forall|a: int, b: int|
                    0 <= a < self.entries@.len() && 0 <= b < self.entries@.len() && a != b
                        implies #[trigger] self.entries@[a].0 != #[trigger] self.entries@[b].0 by {
                    assert(self.entries@[a].0 == before[a].0);
                    assert(self.entries@[b].0 == before[b].0);
                }
                proof {
                    lemma_as_map_unique(self.entries@);
                    let ii = i as int;
                    assert(before[ii].0 == local);
                    assert forall|k: Network| #[trigger] self.as_map().dom().contains(k) <==> old(
                        self,
                    ).as_map().insert(local, remote).dom().contains(k) by {
                        if self.as_map().dom().contains(k) {
                            let j = choose|j: int| 0 <= j < self@.len() && #[trigger] self@[j].0 == k;
                            assert(old(self)@[j].0 == k);
                        }
                        if old(self).as_map().dom().contains(k) {
                            let j = choose|j: int|
                                0 <= j < old(self)@.len() && #[trigger] old(self)@[j].0 == k;
                            assert(self@[j].0 == k);
                        }
                        if k == local {
                            assert(self@[ii].0 == k);
                        }
                    }
                    assert forall|k: Network| #[trigger] self.as_map().dom().contains(k) implies self.as_map()[k]
                        == old(self).as_map().insert(local, remote)[k] by {
                        let j = choose|j: int| 0 <= j < self@.len() && #[trigger] self@[j].0 == k;
                        assert(self.as_map()[k] == self@[j].1);
                        if j != ii {
                            assert(old(self)@[j] == self@[j]);
                            assert(old(self).as_map()[k] == old(self)@[j].1);
                        }
                    }
                    assert(self.as_map() =~= old(self).as_map().insert(local, remote));
                }
                return ;
            }
            i = i + 1;
        }
        self.entries.push((local, remote));
        assert(self.entries@ == old(self)@.push((local, remote)));
        assert forall|a: int, b: int|
            0 <= a < self.entries@.len() && 0 <= b < self.entries@.len() && a != b
                implies #[trigger] self.entries@[a].0 != #[trigger] self.entries@[b].0 by {
            if a < n && b < n {
                assert(self.entries@[a] == old(self)@[a]);
                assert(self.entries@[b] == old(self)@[b]);
            }
        }
        proof {
            lemma_as_map_unique(self.entries@);
            assert forall|k: Network| #[trigger] self.as_map().dom().contains(k) <==> old(
                self,
            ).as_map().insert(local, remote).dom().contains(k) by {
                if k != local && self.as_map().dom().contains(k) {
                    let i = choose|i: int| 0 <= i < self@.len() && #[trigger] self@[i].0 == k;
                    assert(i < n);
                    assert(old(self)@[i].0 == k);
                }
                if k != local && old(self).as_map().dom().contains(k) {
                    let i = choose|i: int| 0 <= i < old(self)@.len() && #[trigger] old(self)@[i].0 == k;
                    assert(self@[i].0 == k);
                }
                if k == local {
                    assert(self@[n as int].0 == k);
                }
            }
            assert forall|k: Network| #[trigger] self.as_map().dom().contains(k) implies self.as_map()[k]
                == old(self).as_map().insert(local, remote)[k] by {
                let j = choose|j: int| 0 <= j < self@.len() && #[trigger] self@[j].0 == k;
                assert(self.as_map()[k] == self@[j].1);
                if j != n {
                    assert(old(self)@[j] == self@[j]);
                    assert(old(self).as_map()[k] == old(self)@[j].1);
                }
            }
            assert(self.as_map() =~= old(self).as_map().insert(local, remote));
        }
    }

    fn map_ip(&self, ip: Ipv4Addr, by_remote: bool) -> (r: Ipv4Addr)
        requires
            can_map(self@, ip@, by_remote),
        ensures
            r@ == map_address(self@, ip@, by_remote),
    {
        let n = self.entries.len();
        let mut i: usize = 0;
        assert(self@.skip(0) =~= self@);
        while i < n
            invariant
                n == self.entries@.len(),
                0 <= i <= n,
                can_map(self@, ip@, by_remote),
                map_address(self@, ip@, by_remote) == map_address(
                    self@.skip(i as int),
                    ip@,
                    by_remote,
                ),
            decreases n - i,
        {
            let (local, remote) = self.entries[i];
            let (from, to) = if by_remote {
                (remote, local)
            } else {
                (local, remote)
            };
            assert(self@.skip(i as int)[0] == self@[i as int]);
            if from.is_in_network(ip) {
                let shift: u32 = from.netmask as u32;
                let bits: u32 = (ip.to_bits() & (0xFFFF_FFFFu32 >> shift)) | to.ip.to_bits();
                return Ipv4Addr::from_bits(bits);
            }
            assert(self@.skip(i as int).drop_first() == self@.skip(i + 1));
            i = i + 1;
        }
        assert(self@.skip(n as int).len() == 0);
        ip
    }

    /// Forward lookup: the address that `ip` has on the remote side.
    pub fn convert(&self, ip: Ipv4Addr) -> (r: Ipv4Addr)
        requires
            can_map(self@, ip@, false),
        ensures
            r@ == map_address(self@, ip@, false),
    {
        self.map_ip(ip, false)
    }

    /// Reverse lookup: the address that `ip` has on the local side.
    pub fn reverse(&self, ip: Ipv4Addr) -> (r: Ipv4Addr)
        requires
            can_map(self@, ip@, true),
        ensures
            r@ == map_address(self@, ip@, true),
    {
        self.map_ip(ip, true)
    }
}


/// In a table with unique keys, the map view holds at each entry's local
/// network that entry's remote network.
proof fn lemma_as_map_unique(entries: Seq<(Network, Network)>)
    requires
        keys_unique(entries),
    ensures
        forall|i: int|
            0 <= i < entries.len() ==> entries_map(entries).dom().contains(
                (#[trigger] entries[i]).0,
            ) && entries_map(entries)[entries[i].0] == entries[i].1,
{
    assert forall|i: int| 0 <= i < entries.len() implies entries_map(entries).dom().contains(
        (#[trigger] entries[i]).0,
    ) && entries_map(entries)[entries[i].0] == entries[i].1 by {
        let l = entries[i].0;
        assert(entries_map(entries).dom().contains(l));
        let j = choose|j: int| 0 <= j < entries.len() && #[trigger] entries[j].0 == l;
        assert(j == i);
    }
}

proof fn lemma_translate_round_trip(ip: u32, n: u32, base: u32, back: u32)
    by (bit_vector)
    requires
        1 <= n <= 31,
        base & (0xFFFF_FFFFu32 << ((32 - n) as u32)) == base,
        ip & (0xFFFF_FFFFu32 << ((32 - n) as u32)) == back,
    ensures
        ((ip & (0xFFFF_FFFFu32 >> n)) | base) & (0xFFFF_FFFFu32 << ((32 - n) as u32)) == base,
        (((ip & (0xFFFF_FFFFu32 >> n)) | base) & (0xFFFF_FFFFu32 >> n)) | back == ip,
{
}

/// An address that no network on the looked-up side holds is left as it is.
pub proof fn lemma_unmatched_address_unchanged(
    entries: Seq<(Network, Network)>,
    ip: u32,
    by_remote: bool,
)
    requires
        forall|i: int|
            0 <= i < entries.len() ==> !(if by_remote {
                (#[trigger] entries[i]).1
            } else {
                entries[i].0
            }).contains(ip),
    ensures
        map_address(entries, ip, by_remote) == ip,
    decreases entries.len(),
{
    if entries.len() > 0 {
        assert(!(if by_remote {
            entries[0].1
        } else {
            entries[0].0
        }).contains(ip));
        assert forall|i: int| 0 <= i < entries.drop_first().len() implies !(if by_remote {
            (#[trigger] entries.drop_first()[i]).1
        } else {
            entries.drop_first()[i].0
        }).contains(ip) by {
            assert(entries.drop_first()[i] == entries[i + 1]);
        }
        lemma_unmatched_address_unchanged(entries.drop_first(), ip, by_remote);
    }
}

/// Every network of the table is aligned and well formed, and each local
/// network has the prefix length of its remote network, shorter than 32.
pub open spec fn symmetric_entries(entries: Seq<(Network, Network)>) -> bool {
    forall|i: int|
        0 <= i < entries.len() ==> {
            let (local, remote) = #[trigger] entries[i];
            &&& local.wf()
            &&& remote.wf()
            &&& local.netmask == remote.netmask
            &&& local.netmask < 32
            &&& local.is_aligned()
            &&& remote.is_aligned()
        }
}

/// No address lies in the remote networks of two different entries.
pub open spec fn remotes_disjoint(entries: Seq<(Network, Network)>) -> bool {
    forall|i: int, j: int, x: u32|
        0 <= i < entries.len() && 0 <= j < entries.len() && i != j ==> !(
        #[trigger] entries[i].1.contains(x) && #[trigger] entries[j].1.contains(x))
}

/// In a table whose translations are between aligned networks of equal
/// prefix length, and whose remote networks do not overlap, an address of a
/// local network is converted into a remote network, and the reverse lookup
/// of the result gives the original address back.
pub proof fn lemma_reverse_undoes_convert(entries: Seq<(Network, Network)>, ip: u32)
    requires
        symmetric_entries(entries),
        remotes_disjoint(entries),
        exists|i: int| 0 <= i < entries.len() && (#[trigger] entries[i]).0.contains(ip),
    ensures
        can_map(entries, ip, false),
        exists|k: int|
            0 <= k < entries.len() && (#[trigger] entries[k]).1.contains(
                map_address(entries, ip, false),
            ),
        can_map(entries, map_address(entries, ip, false), true),
        map_address(entries, map_address(entries, ip, false), true) == ip,
    decreases entries.len(),
{
    let out = map_address(entries, ip, false);
    let (local, remote) = entries[0];
    assert(symmetric_entries(entries.drop_first())) by {
        assert forall|i: int| 0 <= i < entries.drop_first().len() implies {
            let (l, r) = #[trigger] entries.drop_first()[i];
            &&& l.wf()
            &&& r.wf()
            &&& l.netmask == r.netmask
            &&& l.netmask < 32
            &&& l.is_aligned()
            &&& r.is_aligned()
        } by {
            assert(entries.drop_first()[i] == entries[i + 1]);
        }
    }
    assert(remotes_disjoint(entries.drop_first())) by {
        assert forall|i: int, j: int, x: u32|
            0 <= i < entries.drop_first().len() && 0 <= j < entries.drop_first().len() && i
                != j implies !(#[trigger] entries.drop_first()[i].1.contains(x)
            && #[trigger] entries.drop_first()[j].1.contains(x)) by {
            assert(entries.drop_first()[i] == entries[i + 1]);
            assert(entries.drop_first()[j] == entries[j + 1]);
            assert(!(entries[i + 1].1.contains(x) && entries[j + 1].1.contains(x)));
        }
    }
    if local.contains(ip) {
        lemma_translate_round_trip(ip, local.netmask as u32, remote.ip@, local.ip@);
        assert(out == translate(ip, local.netmask, remote.ip@));
        assert(remote.contains(out));
        assert(entries[0].1.contains(out));
        assert(map_address(entries, out, true) == translate(out, remote.netmask, local.ip@));
        assert forall|i: int| 0 <= i < entries.len() implies {
            let from = (#[trigger] entries[i]).1;
            from.wf() && (from.contains(out) ==> from.netmask < 32)
        } by {}
    } else {
        let k0 = choose|i: int| 0 <= i < entries.len() && (#[trigger] entries[i]).0.contains(ip);
        assert(k0 != 0);
        assert(entries.drop_first()[k0 - 1] == entries[k0]);
        lemma_reverse_undoes_convert(entries.drop_first(), ip);
        assert(out == map_address(entries.drop_first(), ip, false));
        let k = choose|k: int|
            0 <= k < entries.drop_first().len() && (#[trigger] entries.drop_first()[k]).1.contains(
                out,
            );
        assert(entries.drop_first()[k] == entries[k + 1]);
        assert(entries[k + 1].1.contains(out));
        assert(!entries[0].1.contains(out));
        assert(map_address(entries, out, true) == map_address(entries.drop_first(), out, true));
        assert forall|i: int| 0 <= i < entries.len() implies {
            let from = (#[trigger] entries[i]).1;
            from.wf() && (from.contains(out) ==> from.netmask < 32)
        } by {}
        assert forall|i: int| 0 <= i < entries.len() implies {
            let from = (#[trigger] entries[i]).0;
            from.wf() && (from.contains(ip) ==> from.netmask < 32)
        } by {}
    }
}

} // verus!
