use vstd::prelude::*;

verus! {

/// A server the client knows: its URL and, once logged in, the session token.
#[derive(Debug)]
pub struct ServerConfig {
    pub url: String,
    pub token: Option<String>,
}

pub struct ServerConfigView {
    pub url: Seq<char>,
    pub token: Option<Seq<char>>,
}

impl View for ServerConfig {
    type V = ServerConfigView;

    open spec fn view(&self) -> ServerConfigView {
        ServerConfigView {
            url: self.url@,
            token: match self.token {
                Some(t) => Some(t@),
                None => None,
            },
        }
    }
}

/// Which server commands use when none is named.
#[derive(Debug)]
pub struct DefaultConfig {
    pub server: Option<String>,
}

/// The names of the servers in `entries`, in order.
pub open spec fn names_unique(entries: Seq<(String, ServerConfig)>) -> bool {
    forall|i: int, j: int|
        0 <= i < entries.len() && 0 <= j < entries.len() && i != j ==> (#[trigger] entries[i]).0@
            != (#[trigger] entries[j]).0@
}

/// The servers as a map from name to server.
pub open spec fn servers_map(entries: Seq<(String, ServerConfig)>) -> Map<Seq<char>, ServerConfigView> {
    Map::new(
        |n: Seq<char>| exists|i: int| 0 <= i < entries.len() && (#[trigger] entries[i]).0@ == n,
        |n: Seq<char>|
            entries[choose|i: int| 0 <= i < entries.len() && (#[trigger] entries[i]).0@ == n].1@,
    )
}

/// The client's configuration: the default server and the known servers by
/// name.
#[derive(Debug)]
pub struct Config {
    pub default: DefaultConfig,
    servers: Vec<(String, ServerConfig)>,
}

pub struct ConfigView {
    pub default_server: Option<Seq<char>>,
    pub servers: Map<Seq<char>, ServerConfigView>,
}

impl View for Config {
    type V = ConfigView;

    closed spec fn view(&self) -> ConfigView {
        ConfigView {
            default_server: match self.default.server {
                Some(s) => Some(s@),
                None => None,
            },
            servers: servers_map(self.servers@),
        }
    }
}

proof fn lemma_servers_map_at(entries: Seq<(String, ServerConfig)>, i: int)
    requires
        names_unique(entries),
        0 <= i < entries.len(),
    ensures
        servers_map(entries).dom().contains(entries[i].0@),
        servers_map(entries)[entries[i].0@] == entries[i].1@,
{
    let n = entries[i].0@;
    assert(servers_map(entries).dom().contains(n));
    let j = choose|j: int| 0 <= j < entries.len() && (#[trigger] entries[j]).0@ == n;
    assert(j == i);
}

impl Config {
    /// The names of the servers are unique.
    pub closed spec fn wf(&self) -> bool {
        names_unique(self.servers@)
    }

    /// No default server and no servers.
    pub fn new() -> (r: Config)
        ensures
            r.wf(),
            r@.default_server is None,
            r@.servers == Map::<Seq<char>, ServerConfigView>::empty(),
    {
        let r = Config { default: DefaultConfig { server: None }, servers: Vec::new() };
        assert(r@.servers =~= Map::<Seq<char>, ServerConfigView>::empty());
        r
    }

    /// The default server.
    pub fn default_server(&self) -> (r: Option<String>)
        ensures
            r matches Some(s) ==> self@.default_server == Some(s@),
            r is None ==> self@.default_server is None,
    {
        match &self.default.server {
            Some(s) => Some(s.clone()),
            None => None,
        }
    }

    /// Make `server` the default server, or have none.
    pub fn set_default_server(&mut self, server: Option<String>)
        requires
            old(self).wf(),
        ensures
            final(self).wf(),
            final(self)@.servers == old(self)@.servers,
            server matches Some(s) ==> final(self)@.default_server == Some(s@),
            server is None ==> final(self)@.default_server is None,
    {
        self.default.server = server;
    }

    /// The names and servers, in the order they were added.
    pub fn entries(&self) -> (r: &Vec<(String, ServerConfig)>)
        requires
            self.wf(),
        ensures
            names_unique(r@),
            servers_map(r@) == self@.servers,
    {
        &self.servers
    }

    fn position(&self, name: &str) -> (r: Option<usize>)
        requires
            self.wf(),
        ensures
            r matches Some(i) ==> i < self.servers@.len() && self.servers@[i as int].0@ == name@,
            r is None ==> !self@.servers.dom().contains(name@),
    {
        let key = name.to_owned();
        let mut i: usize = 0;
        while i < self.servers.len()
            invariant
                0 <= i <= self.servers@.len(),
                key@ == name@,
                forall|j: int| 0 <= j < i ==> (#[trigger] self.servers@[j]).0@ != key@,
            decreases self.servers@.len() - i,
        {
            if self.servers[i].0 == key {
                return Some(i);
            }
            i = i + 1;
        }
        None
    }

    /// Whether a server of this name is known.
    pub fn contains_server(&self, name: &str) -> (r: bool)
        requires
            self.wf(),
        ensures
            r == self@.servers.dom().contains(name@),
    {
        match self.position(name) {
            Some(i) => {
                proof {
                    lemma_servers_map_at(self.servers@, i as int);
                }
                true
            },
            None => false,
        }
    }

    /// The server of this name.
    pub fn get_server(&self, name: &str) -> (r: Option<&ServerConfig>)
        requires
            self.wf(),
        ensures
            r is Some == self@.servers.dom().contains(name@),
            r matches Some(s) ==> s@ == self@.servers[name@],
    {
        match self.position(name) {
            Some(i) => {
                proof {
                    lemma_servers_map_at(self.servers@, i as int);
                }
                Some(&self.servers[i].1)
            },
            None => None,
        }
    }

    /// Record `server` under `name`, in place of a server of that name.
    pub fn insert_server(&mut self, name: String, server: ServerConfig)
        requires
            old(self).wf(),
        ensures
            final(self).wf(),
            final(self)@.servers == old(self)@.servers.insert(name@, server@),
            final(self)@.default_server == old(self)@.default_server,
    {
        let pos = self.position(name.as_str());
        let ghost before = self.servers@;
        let ghost nv = name@;
        let ghost sv = server@;
        match pos {
            Some(i) => {
                self.servers.set(i, (name, server));
                assert(names_unique(self.servers@)) by {
                    assert forall|a: int, b: int|
                        0 <= a < self.servers@.len() && 0 <= b < self.servers@.len() && a != b
                            implies (#[trigger] self.servers@[a]).0@
                        != (#[trigger] self.servers@[b]).0@ by {
                        assert(self.servers@[a].0@ == before[a].0@);
                        assert(self.servers@[b].0@ == before[b].0@);
                    }
                }
                proof {
                    assert forall|k: Seq<char>| #[trigger] servers_map(self.servers@).dom().contains(
                        k,
                    ) <==> servers_map(before).insert(nv, sv).dom().contains(k) by {
                        if servers_map(self.servers@).dom().contains(k) {
                            let j = choose|j: int|
                                0 <= j < self.servers@.len() && (#[trigger] self.servers@[j]).0@
                                    == k;
                            assert(before[j].0@ == k);
                        }
                        if servers_map(before).dom().contains(k) {
                            let j = choose|j: int|
                                0 <= j < before.len() && (#[trigger] before[j]).0@ == k;
                            assert(self.servers@[j].0@ == k);
                        }
                        if k == nv {
                            assert(self.servers@[i as int].0@ == k);
                        }
                    }
                    assert forall|k: Seq<char>| #[trigger] servers_map(self.servers@).dom().contains(
                        k,
                    ) implies servers_map(self.servers@)[k] == servers_map(before).insert(
                        nv,
                        sv,
                    )[k] by {
                        let j = choose|j: int|
                            0 <= j < self.servers@.len() && (#[trigger] self.servers@[j]).0@ == k;
                        lemma_servers_map_at(self.servers@, j);
                        if j != i {
                            lemma_servers_map_at(before, j);
                        }
                    }
                    assert(servers_map(self.servers@) =~= servers_map(before).insert(nv, sv));
                }
            },
            None => {
                self.servers.push((name, server));
                assert(names_unique(self.servers@)) by {
                    assert forall|a: int, b: int|
                        0 <= a < self.servers@.len() && 0 <= b < self.servers@.len() && a != b
                            implies (#[trigger] self.servers@[a]).0@
                        != (#[trigger] self.servers@[b]).0@ by {
                        if a < before.len() && b < before.len() {
                            assert(self.servers@[a] == before[a]);
                            assert(self.servers@[b] == before[b]);
                        } else if a < before.len() {
                            assert(self.servers@[a] == before[a]);
                            assert(servers_map(before).dom().contains(before[a].0@));
                        } else {
                            assert(self.servers@[b] == before[b]);
                            assert(servers_map(before).dom().contains(before[b].0@));
                        }
                    }
                }
                proof {
                    let n = before.len() as int;
                    assert forall|k: Seq<char>| #[trigger] servers_map(self.servers@).dom().contains(
                        k,
                    ) <==> servers_map(before).insert(nv, sv).dom().contains(k) by {
                        if servers_map(self.servers@).dom().contains(k) && k != nv {
                            let j = choose|j: int|
                                0 <= j < self.servers@.len() && (#[trigger] self.servers@[j]).0@
                                    == k;
                            assert(j < n);
                            assert(before[j].0@ == k);
                        }
                        if servers_map(before).dom().contains(k) {
                            let j = choose|j: int|
                                0 <= j < before.len() && (#[trigger] before[j]).0@ == k;
                            assert(self.servers@[j].0@ == k);
                        }
                        if k == nv {
                            assert(self.servers@[n].0@ == k);
                        }
                    }
                    assert forall|k: Seq<char>| #[trigger] servers_map(self.servers@).dom().contains(
                        k,
                    ) implies servers_map(self.servers@)[k] == servers_map(before).insert(
                        nv,
                        sv,
                    )[k] by {
                        let j = choose|j: int|
                            0 <= j < self.servers@.len() && (#[trigger] self.servers@[j]).0@ == k;
                        lemma_servers_map_at(self.servers@, j);
                        if j != n {
                            assert(self.servers@[j] == before[j]);
                            lemma_servers_map_at(before, j);
                        }
                    }
                    assert(servers_map(self.servers@) =~= servers_map(before).insert(nv, sv));
                }
            },
        }
    }

    /// Take the server of this name out of the configuration.
    pub fn remove_server(&mut self, name: &str) -> (r: Option<ServerConfig>)
        requires
            old(self).wf(),
        ensures
            final(self).wf(),
            final(self)@.servers == old(self)@.servers.remove(name@),
            final(self)@.default_server == old(self)@.default_server,
            r is Some == old(self)@.servers.dom().contains(name@),
            r matches Some(s) ==> s@ == old(self)@.servers[name@],
    {
        let ghost before = self.servers@;
        match self.position(name) {
            Some(i) => {
                proof {
                    lemma_servers_map_at(before, i as int);
                }
                let (_, server) = self.servers.remove(i);
                let ghost nv = name@;
                assert(self.servers@ == before.remove(i as int));
                assert(names_unique(self.servers@)) by {
                    assert forall|a: int, b: int|
                        0 <= a < self.servers@.len() && 0 <= b < self.servers@.len() && a != b
                            implies (#[trigger] self.servers@[a]).0@
                        != (#[trigger] self.servers@[b]).0@ by {
                        let a0 = if a < i {
                            a
                        } else {
                            a + 1
                        };
                        let b0 = if b < i {
                            b
                        } else {
                            b + 1
                        };
                        assert(self.servers@[a] == before[a0]);
                        assert(self.servers@[b] == before[b0]);
                    }
                }
                proof {
                    assert forall|k: Seq<char>| #[trigger] servers_map(self.servers@).dom().contains(
                        k,
                    ) <==> servers_map(before).remove(nv).dom().contains(k) by {
                        if servers_map(self.servers@).dom().contains(k) {
                            let j = choose|j: int|
                                0 <= j < self.servers@.len() && (#[trigger] self.servers@[j]).0@
                                    == k;
                            let j0 = if j < i {
                                j
                            } else {
                                j + 1
                            };
                            assert(self.servers@[j] == before[j0]);
                            assert(j0 != i);
                        }
                        if servers_map(before).dom().contains(k) && k != nv {
                            let j = choose|j: int|
                                0 <= j < before.len() && (#[trigger] before[j]).0@ == k;
                            assert(j != i);
                            let j1 = if j < i {
                                j
                            } else {
                                j - 1
                            };
                            assert(self.servers@[j1] == before[j]);
                        }
                    }
                    assert forall|k: Seq<char>| #[trigger] servers_map(self.servers@).dom().contains(
                        k,
                    ) implies servers_map(self.servers@)[k] == servers_map(before).remove(nv)[k] by {
                        let j = choose|j: int|
                            0 <= j < self.servers@.len() && (#[trigger] self.servers@[j]).0@ == k;
                        lemma_servers_map_at(self.servers@, j);
                        let j0 = if j < i {
                            j
                        } else {
                            j + 1
                        };
                        assert(self.servers@[j] == before[j0]);
                        lemma_servers_map_at(before, j0);
                    }
                    assert(servers_map(self.servers@) =~= servers_map(before).remove(nv));
                }
                Some(server)
            },
            None => {
                assert(servers_map(self.servers@) =~= servers_map(before).remove(name@));
                None
            },
        }
    }
}

} // verus!
