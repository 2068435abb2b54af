use vstd::prelude::*;
use vstd::string::StrSliceExecFns;

use crate::client_config::{Config, ServerConfig, ServerConfigView};
use crate::ip::Ipv4Addr;
use crate::nat_table::{
    can_map, lemma_reverse_undoes_convert, map_address, remotes_disjoint, symmetric_entries, NATTable,
    Network,
};
use crate::network_plan::{hostmask, netmask};

verus! {

/// The answer that `--yes` and `--no` give to every question: `--no` wins,
/// and with neither flag the user is asked.
pub fn yn(yes: bool, no: bool) -> (r: Option<bool>)
    ensures
        r == (if no {
            Some(false)
        } else if yes {
            Some(true)
        } else {
            None::<bool>
        }),
{
    match (yes, no) {
        (_, true) => Some(false),
        (true, _) => Some(true),
        _ => None,
    }
}

/// `example`: greet someone.
#[derive(Debug)]
pub struct Example {
    pub name: String,
}

/// `server set`: record a server under a name, without a token, and make it
/// the default server if asked to.
#[derive(Debug)]
pub struct SetServer {
    pub default: bool,
    pub name: String,
    pub url: String,
}

/// `server remove`: forget a server.
#[derive(Debug)]
pub struct Remove {
    pub name: String,
}

/// `logout`: end the session with a server and forget it.
#[derive(Debug)]
pub struct Logout {
    pub server_name: String,
}

/// Forget the server `name`, and stop using it as the default server.
pub fn forget_server(config: &mut Config, name: &String)
    requires
        old(config).wf(),
    ensures
        final(config).wf(),
        final(config)@.servers == old(config)@.servers.remove(name@),
        final(config)@.default_server == (if old(config)@.default_server == Some(name@) {
            None
        } else {
            old(config)@.default_server
        }),
{
    let is_default = match config.default_server() {
        Some(d) => d == *name,
        None => false,
    };
    config.remove_server(name.as_str());
    if is_default {
        config.set_default_server(None);
    }
}

impl SetServer {
    /// What the command does to the configuration.
    pub fn apply(&self, config: &mut Config)
        requires
            old(config).wf(),
        ensures
            final(config).wf(),
            final(config)@.servers == old(config)@.servers.insert(
                self.name@,
                ServerConfigView { url: self.url@, token: None },
            ),
            final(config)@.default_server == (if self.default {
                Some(self.name@)
            } else {
                old(config)@.default_server
            }),
    {
        config.insert_server(self.name.clone(), ServerConfig { url: self.url.clone(), token: None });
        if self.default {
            config.set_default_server(Some(self.name.clone()));
        }
    }
}

impl Remove {
    /// What the command does to the configuration.
    pub fn apply(&self, config: &mut Config)
        requires
            old(config).wf(),
        ensures
            final(config).wf(),
            final(config)@.servers == old(config)@.servers.remove(self.name@),
            final(config)@.default_server == (if old(config)@.default_server == Some(self.name@) {
                None
            } else {
                old(config)@.default_server
            }),
    {
        forget_server(config, &self.name);
    }
}

impl Logout {
    /// The server to log out from; without one the command stops with
    /// "<name> is not found".
    pub fn server<'a>(&self, config: &'a Config) -> (r: Option<&'a ServerConfig>)
        requires
            config.wf(),
        ensures
            r is Some == config@.servers.dom().contains(self.server_name@),
            r matches Some(s) ==> s@ == config@.servers[self.server_name@],
    {
        config.get_server(self.server_name.as_str())
    }

    /// What the command does to the configuration once logged out.
    pub fn apply(&self, config: &mut Config)
        requires
            old(config).wf(),
        ensures
            final(config).wf(),
            final(config)@.servers == old(config)@.servers.remove(self.server_name@),
            final(config)@.default_server == (if old(config)@.default_server == Some(
                self.server_name@,
            ) {
                None
            } else {
                old(config)@.default_server
            }),
    {
        forget_server(config, &self.server_name);
    }
}

/// Before logging in to `server_name`: whether credentials for it are
/// already recorded (the user is asked whether to update them), and whether
/// making it the default would replace a default server (the user is asked
/// whether to do so).
pub fn login_questions(config: &Config, server_name: &str, make_default: bool) -> (r: (bool, bool))
    requires
        config.wf(),
    ensures
        r.0 == config@.servers.dom().contains(server_name@),
        r.1 == (make_default && config@.default_server is Some),
{
    let known = config.contains_server(server_name);
    let replaces_default = make_default && config.default_server().is_some();
    (known, replaces_default)
}

/// Record a successful login: the server's URL with the token, under its
/// name, and make it the default server if asked to.
pub fn record_login(
    config: &mut Config,
    server_name: String,
    url: String,
    token: String,
    make_default: bool,
)
    requires
        old(config).wf(),
    ensures
        final(config).wf(),
        final(config)@.servers == old(config)@.servers.insert(
            server_name@,
            ServerConfigView { url: url@, token: Some(token@) },
        ),
        final(config)@.default_server == (if make_default {
            Some(server_name@)
        } else {
            old(config)@.default_server
        }),
{
    let name = server_name.clone();
    config.insert_server(server_name, ServerConfig { url, token: Some(token) });
    if make_default {
        config.set_default_server(Some(name));
    }
}

/// `s` without the `/` characters at its end.
pub open spec fn without_trailing_slashes(s: Seq<char>) -> Seq<char>
    decreases s.len(),
{
    if s.len() > 0 && s.last() == '/' {
        without_trailing_slashes(s.drop_last())
    } else {
        s
    }
}

/// The path of a server's URL as a login records it: without the `/`
/// characters at its end.
pub fn trim_trailing_slashes(path: &str) -> (r: String)
    ensures
        r@ == without_trailing_slashes(path@),
{
    let len = path.unicode_len();
    let mut k: usize = len;
    assert(path@.subrange(0, len as int) =~= path@);
    while k > 0 && path.get_char(k - 1) == '/'
        invariant
            len == path@.len(),
            0 <= k <= len,
            without_trailing_slashes(path@) == without_trailing_slashes(path@.subrange(0, k as int)),
        decreases k,
    {
        assert(path@.subrange(0, k as int).drop_last() =~= path@.subrange(0, k - 1));
        k = k - 1;
    }
    path.substring_char(0, k).to_owned()
}

/// Trimming the trailing slashes of `s` keeps the front of `s` up to its last
/// character that is not `/`: what is cut off is `/` characters only, and
/// what is kept does not end in `/`.
pub proof fn lemma_trailing_slashes_trimmed(s: Seq<char>)
    ensures
        without_trailing_slashes(s).len() <= s.len(),
        without_trailing_slashes(s) == s.subrange(0, without_trailing_slashes(s).len() as int),
        forall|k: int| without_trailing_slashes(s).len() <= k < s.len() ==> s[k] == '/',
        without_trailing_slashes(s).len() > 0 ==> without_trailing_slashes(s).last() != '/',
    decreases s.len(),
{
    if s.len() > 0 && s.last() == '/' {
        lemma_trailing_slashes_trimmed(s.drop_last());
        let t = without_trailing_slashes(s.drop_last());
        assert(s.drop_last().subrange(0, t.len() as int) =~= s.subrange(0, t.len() as int));
        assert forall|k: int| t.len() <= k < s.len() implies s[k] == '/' by {
            if k < s.len() - 1 {
                assert(s.drop_last()[k] == s[k]);
            }
        }
    } else {
        assert(s.subrange(0, s.len() as int) =~= s);
    }
}

/// The default server, when there is one, is among the known servers.
pub open spec fn default_is_known(c: crate::client_config::ConfigView) -> bool {
    c.default_server matches Some(d) ==> c.servers.dom().contains(d)
}

/// Setting a server, removing one, logging in to one and logging out of one
/// all keep the default server among the known servers.
pub proof fn lemma_default_stays_known(
    before: crate::client_config::ConfigView,
    name: Seq<char>,
    server: ServerConfigView,
    make_default: bool,
)
    requires
        default_is_known(before),
    ensures
        default_is_known(
            crate::client_config::ConfigView {
                default_server: if make_default {
                    Some(name)
                } else {
                    before.default_server
                },
                servers: before.servers.insert(name, server),
            },
        ),
        default_is_known(
            crate::client_config::ConfigView {
                default_server: if before.default_server == Some(name) {
                    None
                } else {
                    before.default_server
                },
                servers: before.servers.remove(name),
            },
        ),
{
}

/// A network in CIDR form, as `cidr::Ipv4Cidr` holds it: its first address
/// and the length of its prefix.
#[derive(Clone, Copy, Debug, PartialEq, Eq, Structural)]
pub struct Ipv4Cidr {
    pub first_address: Ipv4Addr,
    pub network_length: u8,
}

/// The network (first address and prefix length) that `cidr` reads from a
/// text, if it reads one.
pub uninterp spec fn ipv4_cidr_text(text: Seq<char>) -> Option<(u32, u8)>;

/// `<cidr::Ipv4Cidr as FromStr>::from_str`: reads `a.b.c.d/len`, or a single
/// address as a network of length 32. What it accepts is named, not stated;
/// what the crate's constructor checks is stated: the prefix length is at
/// most 32 and the address has no bit set after the prefix. The error's text
/// is not stated.
#[verifier::external_body]
fn ipv4_cidr_from_str(text: &str) -> (r: Result<Ipv4Cidr, String>)
    ensures
        r is Ok == ipv4_cidr_text(text@) is Some,
        r is Ok ==> ipv4_cidr_text(text@) == Some((r->Ok_0.first_address@, r->Ok_0.network_length)),
        r is Ok ==> r->Ok_0.network_length <= 32,
        r is Ok ==> r->Ok_0.first_address@ & hostmask(r->Ok_0.network_length) == 0,
{
    match text.parse::<cidr::Ipv4Cidr>() {
        Ok(c) => Ok(
            Ipv4Cidr {
                first_address: Ipv4Addr { bits: u32::from(c.first_address()) },
                network_length: c.network_length(),
            },
        ),
        Err(e) => Err(format!("{:?}", e)),
    }
}

/// Read a network in CIDR form.
pub fn parse_cidr(text: &str) -> (r: Result<Ipv4Cidr, String>)
    ensures
        r is Ok == ipv4_cidr_text(text@) is Some,
        r is Ok ==> ipv4_cidr_text(text@) == Some((r->Ok_0.first_address@, r->Ok_0.network_length)),
        r is Ok ==> r->Ok_0.network_length <= 32,
        r is Ok ==> r->Ok_0.first_address@ & hostmask(r->Ok_0.network_length) == 0,
{
    ipv4_cidr_from_str(text)
}

impl Ipv4Cidr {
    /// The network mask.
    pub fn mask(&self) -> (r: Ipv4Addr)
        requires
            self.network_length <= 32,
        ensures
            r@ == netmask(self.network_length),
    {
        if self.network_length == 0 {
            Ipv4Addr::from_bits(0)
        } else {
            let shift: u32 = 32 - self.network_length as u32;
            Ipv4Addr::from_bits(0xFFFF_FFFFu32 << shift)
        }
    }
}

/// The network of a CIDR, as the address translation holds it.
pub open spec fn cidr_network(c: Ipv4Cidr) -> Network {
    Network { ip: c.first_address, netmask: c.network_length }
}

/// Why `tunnel connect` stops before connecting.
#[derive(Debug, PartialEq, Eq)]
pub enum ConnectError {
    /// The network name is not of the form `owner/name`.
    InvalidNetworkName,
    /// No server was named, and there is no default server.
    NoServer,
    /// The server is not in the configuration.
    ServerNotFound(String),
    /// There is no token for the server.
    NoToken(String),
    /// The local network and the tunnel's network have prefixes of different
    /// lengths.
    LengthMismatch { expected: u8, got: u8 },
}

/// The text before and after the only `/` of `s`, if it has exactly one.
pub open spec fn owner_and_name(s: Seq<char>) -> Option<(Seq<char>, Seq<char>)> {
    if exists|i: int| 0 <= i < s.len() && s[i] == '/' && forall|j: int|
        0 <= j < s.len() && j != i ==> s[j] != '/' {
        let i = choose|i: int|
            0 <= i < s.len() && s[i] == '/' && forall|j: int| 0 <= j < s.len() && j != i ==> s[j] != '/';
        Some((s.subrange(0, i), s.subrange(i + 1, s.len() as int)))
    } else {
        None
    }
}

/// Split `owner/name` into the owner and the network name.
pub fn split_network_name(full: &str) -> (r: Option<(String, String)>)
    ensures
        r matches Some((o, n)) ==> owner_and_name(full@) == Some((o@, n@)),
        r is None ==> owner_and_name(full@) is None,
{
    let len = full.unicode_len();
    let mut slash: Option<usize> = None;
    let mut i: usize = 0;
    while i < len
        invariant
            len == full@.len(),
            0 <= i <= len,
            slash matches Some(k) ==> k < i && full@[k as int] == '/' && forall|j: int|
                0 <= j < i && j != k ==> full@[j] != '/',
            slash is None ==> forall|j: int| 0 <= j < i ==> full@[j] != '/',
        decreases len - i,
    {
        if full.get_char(i) == '/' {
            match slash {
                Some(k) => {
                    proof {
                        assert forall|m: int|
                            !(0 <= m < full@.len() && full@[m] == '/' && forall|j: int|
                                0 <= j < full@.len() && j != m ==> full@[j] != '/') by {
                            if 0 <= m < full@.len() && full@[m] == '/' {
                                if m != k {
                                    assert(full@[k as int] == '/');
                                } else {
                                    assert(full@[i as int] == '/');
                                }
                            }
                        }
                    }
                    return None;
                },
                None => {
                    slash = Some(i);
                },
            }
        }
        i = i + 1;
    }
    match slash {
        Some(k) => {
            let owner = full.substring_char(0, k).to_owned();
            let name = full.substring_char(k + 1, len).to_owned();
            proof {
                let w = choose|m: int|
                    0 <= m < full@.len() && full@[m] == '/' && forall|j: int|
                        0 <= j < full@.len() && j != m ==> full@[j] != '/';
                assert(full@[k as int] == '/');
                if w != k {
                    assert(full@[w] != '/');
                }
            }
            Some((owner, name))
        },
        None => None,
    }
}

/// What `tunnel connect` found in the configuration: the parts of the
/// network's name, the server and its URL and token.
#[derive(Debug)]
pub struct ConnectTarget {
    pub owner: String,
    pub network_name: String,
    pub server_name: String,
    pub url: String,
    pub token: String,
}

/// The server that `tunnel connect` uses: the one named on the command line,
/// else the default server; with neither the command stops.
pub open spec fn connect_server(server: Option<Seq<char>>, default: Option<Seq<char>>) -> Option<
    Seq<char>,
> {
    match server {
        Some(s) => Some(s),
        None => default,
    }
}

/// A server named on the command line is used whether or not there is a
/// default server; with none named, the default server is used, and with
/// neither there is none.
pub proof fn lemma_named_server_first(named: Seq<char>, default: Option<Seq<char>>)
    ensures
        connect_server(Some(named), default) == Some(named),
        connect_server(None, default) == default,
{
}

/// The view of an optional string.
pub open spec fn opt_string(o: Option<String>) -> Option<Seq<char>> {
    match o {
        Some(s) => Some(s@),
        None => None,
    }
}

/// Find what `tunnel connect` needs: the network name must be `owner/name`;
/// the server is the one named on the command line, else the default one,
/// and there must be one of them; it must be in the configuration, with a
/// token.
pub fn connect_target(full_network_name: &str, server: Option<String>, config: &Config) -> (r: Result<
    ConnectTarget,
    ConnectError,
>)
    requires
        config.wf(),
    ensures
        (r is Ok) <==> (owner_and_name(full_network_name@) is Some && connect_server(
            opt_string(server),
            config@.default_server,
        ) is Some && config@.servers.dom().contains(
            connect_server(opt_string(server), config@.default_server)->Some_0,
        ) && (config@.servers[connect_server(
            opt_string(server),
            config@.default_server,
        )->Some_0].token is Some)),
        (r matches Err(ConnectError::InvalidNetworkName)) <==> (owner_and_name(
            full_network_name@,
        ) is None),
        (r matches Err(ConnectError::NoServer)) <==> (owner_and_name(full_network_name@) is Some
            && server is None && config@.default_server is None),
        (r matches Err(ConnectError::ServerNotFound(_))) <==> (owner_and_name(
            full_network_name@,
        ) is Some && connect_server(opt_string(server), config@.default_server) is Some
            && !config@.servers.dom().contains(
            connect_server(opt_string(server), config@.default_server)->Some_0,
        )),
        (r matches Err(ConnectError::NoToken(_))) <==> (owner_and_name(full_network_name@) is Some
            && connect_server(opt_string(server), config@.default_server) is Some
            && config@.servers.dom().contains(
            connect_server(opt_string(server), config@.default_server)->Some_0,
        ) && (config@.servers[connect_server(
            opt_string(server),
            config@.default_server,
        )->Some_0].token is None)),
        r matches Ok(t) ==> {
            let name = connect_server(opt_string(server), config@.default_server)->Some_0;
            &&& owner_and_name(full_network_name@) == Some((t.owner@, t.network_name@))
            &&& t.server_name@ == name
            &&& config@.servers[name].url == t.url@
            &&& config@.servers[name].token == Some(t.token@)
        },
        r matches Err(ConnectError::ServerNotFound(n)) ==> n@ == connect_server(
            opt_string(server),
            config@.default_server,
        )->Some_0,
        r matches Err(ConnectError::NoToken(n)) ==> n@ == connect_server(
            opt_string(server),
            config@.default_server,
        )->Some_0,
        !(r matches Err(ConnectError::LengthMismatch { .. })),
{
    let (owner, network_name) = match split_network_name(full_network_name) {
        Some(parts) => parts,
        None => return Err(ConnectError::InvalidNetworkName),
    };
    let server_name = match server {
        Some(s) => s,
        None => match config.default_server() {
            Some(d) => d,
            None => return Err(ConnectError::NoServer),
        },
    };
    let conf = match config.get_server(server_name.as_str()) {
        Some(c) => c,
        None => return Err(ConnectError::ServerNotFound(server_name)),
    };
    let token = match &conf.token {
        Some(t) => t.clone(),
        None => return Err(ConnectError::NoToken(server_name)),
    };
    Ok(ConnectTarget { owner, network_name, server_name, url: conf.url.clone(), token })
}

/// The local network and the tunnel's network must have prefixes of the same
/// length.
pub fn check_lengths(bind: Ipv4Cidr, network: Ipv4Cidr) -> (r: Result<(), ConnectError>)
    ensures
        bind.network_length == network.network_length <==> r is Ok,
        r is Err ==> r == Err::<(), ConnectError>(
            ConnectError::LengthMismatch {
                expected: network.network_length,
                got: bind.network_length,
            },
        ),
{
    if bind.network_length != network.network_length {
        Err(
            ConnectError::LengthMismatch {
                expected: network.network_length,
                got: bind.network_length,
            },
        )
    } else {
        Ok(())
    }
}

/// The address translation of a tunnel: the local network onto the
/// tunnel's network.
pub fn tunnel_nat_table(local: Ipv4Cidr, network: Ipv4Cidr) -> (r: NATTable)
    ensures
        r.wf(),
        r@ == seq![(cidr_network(local), cidr_network(network))],
{
    let mut table = NATTable::new();
    table.add_entry(
        Network::new(local.first_address, local.network_length),
        Network::new(network.first_address, network.network_length),
    );
    table
}

proof fn lemma_no_host_bits_aligned(a: u32, n: u32)
    by (bit_vector)
    requires
        1 <= n <= 31,
        a & (0xFFFF_FFFFu32 >> n) == 0,
    ensures
        a & (0xFFFF_FFFFu32 << ((32 - n) as u32)) == a,
{
}

/// The translation of a tunnel between two networks read in CIDR form with
/// prefixes of the same length, from 1 to 31 bits, takes each local address
/// into the tunnel's network, and back again by the reverse lookup.
pub proof fn lemma_tunnel_translation_reverses(local: Ipv4Cidr, network: Ipv4Cidr, ip: u32)
    requires
        1 <= local.network_length <= 31,
        local.network_length == network.network_length,
        local.first_address@ & hostmask(local.network_length) == 0,
        network.first_address@ & hostmask(network.network_length) == 0,
        cidr_network(local).contains(ip),
    ensures
        ({
            let entries = seq![(cidr_network(local), cidr_network(network))];
            &&& can_map(entries, ip, false)
            &&& cidr_network(network).contains(
                map_address(entries, ip, false),
            )
            &&& can_map(entries, map_address(entries, ip, false), true)
            &&& map_address(entries, map_address(entries, ip, false), true) == ip
        }),
{
    let l = cidr_network(local);
    let r = cidr_network(network);
    let entries = seq![(l, r)];
    lemma_no_host_bits_aligned(local.first_address@, local.network_length as u32);
    lemma_no_host_bits_aligned(network.first_address@, network.network_length as u32);
    assert(entries[0] == (l, r));
    assert(symmetric_entries(entries));
    assert(remotes_disjoint(entries));
    assert(entries[0].0.contains(ip));
    lemma_reverse_undoes_convert(entries, ip);
    let k = choose|k: int| 0 <= k < entries.len() && (#[trigger] entries[k]).1.contains(
        map_address(entries, ip, false),
    );
    assert(k == 0);
}

} // verus!
