use freight_train::client_config::{Config, ServerConfig};
use freight_train::commands::{
    check_lengths, connect_target, forget_server, login_questions, parse_cidr, record_login,
    split_network_name, trim_trailing_slashes, tunnel_nat_table, yn, ConnectError, Ipv4Cidr, Logout, Remove, SetServer,
};
use freight_train::gateway::{Network, NetworkManager};
use freight_train::ip::Ipv4Addr;
use freight_train::login_url::login_url;
use freight_train::network_plan::{ipv4_saturating_sub, plan_network, VrfTableIds};
use freight_train::protocol::{Protocol, USING_PROTOCOL};
use freight_train::quic::QuicServer;
use freight_train::server_config::ServerConfig as GatewayConfig;
use freight_train::server_session::SessionData;

fn config_with(servers: &[(&str, &str, Option<&str>)], default: Option<&str>) -> Config {
    let mut c = Config::new();
    for (name, url, token) in servers {
        c.insert_server(
            name.to_string(),
            ServerConfig { url: url.to_string(), token: token.map(|t| t.to_string()) },
        );
    }
    c.set_default_server(default.map(|d| d.to_string()));
    c
}

#[test]
fn yes_and_no_flags() {
    assert_eq!(yn(false, false), None);
    assert_eq!(yn(true, false), Some(true));
    assert_eq!(yn(false, true), Some(false));
    assert_eq!(yn(true, true), Some(false));
}

#[test]
fn set_and_remove_servers() {
    let mut c = Config::new();
    SetServer { default: false, name: "a".into(), url: "https://a.example".into() }.apply(&mut c);
    assert!(c.contains_server("a"));
    assert_eq!(c.default_server(), None);
    SetServer { default: true, name: "b".into(), url: "https://b.example".into() }.apply(&mut c);
    assert_eq!(c.default_server(), Some("b".to_string()));
    assert_eq!(c.get_server("b").unwrap().url, "https://b.example");
    assert_eq!(c.get_server("b").unwrap().token, None);
    SetServer { default: false, name: "b".into(), url: "https://c.example".into() }.apply(&mut c);
    assert_eq!(c.get_server("b").unwrap().url, "https://c.example");
    assert_eq!(c.entries().len(), 2);
    Remove { name: "b".into() }.apply(&mut c);
    assert!(!c.contains_server("b"));
    assert_eq!(c.default_server(), None);
    Remove { name: "zz".into() }.apply(&mut c);
    assert!(c.contains_server("a"));
    assert!(c.remove_server("a").is_some());
    assert!(c.remove_server("a").is_none());
}

#[test]
fn login_and_logout() {
    let mut c = config_with(&[("home", "https://h", None)], Some("home"));
    assert_eq!(login_questions(&c, "home", false), (true, false));
    assert_eq!(login_questions(&c, "work", true), (false, true));
    record_login(&mut c, "work".into(), "https://w".into(), "tok".into(), true);
    assert_eq!(c.get_server("work").unwrap().token.as_deref(), Some("tok"));
    assert_eq!(c.default_server(), Some("work".to_string()));
    let logout = Logout { server_name: "work".into() };
    assert_eq!(logout.server(&c).unwrap().url, "https://w");
    logout.apply(&mut c);
    assert!(logout.server(&c).is_none());
    assert_eq!(c.default_server(), None);
    let mut c2 = config_with(&[("x", "u", None)], Some("x"));
    forget_server(&mut c2, &"y".to_string());
    assert_eq!(c2.default_server(), Some("x".to_string()));
}

#[test]
fn network_names() {
    assert_eq!(split_network_name("alice/lab"), Some(("alice".to_string(), "lab".to_string())));
    assert_eq!(split_network_name("/lab"), Some(("".to_string(), "lab".to_string())));
    assert_eq!(split_network_name("alicelab"), None);
    assert_eq!(split_network_name("a/b/c"), None);
}

#[test]
fn connect_targets() {
    let c = config_with(
        &[("home", "https://h", Some("t1")), ("bare", "https://b", None)],
        Some("home"),
    );
    let t = connect_target("alice/lab", None, &c).unwrap();
    assert_eq!((t.owner.as_str(), t.network_name.as_str()), ("alice", "lab"));
    assert_eq!((t.server_name.as_str(), t.url.as_str(), t.token.as_str()), ("home", "https://h", "t1"));
    assert_eq!(connect_target("alicelab", None, &c).unwrap_err(), ConnectError::InvalidNetworkName);
    assert_eq!(
        connect_target("a/b", Some("nope".into()), &c).unwrap_err(),
        ConnectError::ServerNotFound("nope".into())
    );
    assert_eq!(
        connect_target("a/b", Some("bare".into()), &c).unwrap_err(),
        ConnectError::NoToken("bare".into())
    );
    let empty = Config::new();
    assert_eq!(connect_target("a/b", None, &empty).unwrap_err(), ConnectError::NoServer);
    // A named server needs no default server.
    let no_default = config_with(&[("home", "https://h", Some("t1"))], None);
    let t = connect_target("a/b", Some("home".into()), &no_default).unwrap();
    assert_eq!((t.server_name.as_str(), t.token.as_str()), ("home", "t1"));
    // The named server is used in place of the default one.
    let t = connect_target("a/b", Some("bare".into()), &config_with(
        &[("home", "https://h", Some("t1")), ("bare", "https://b", Some("t2"))],
        Some("home"),
    ))
    .unwrap();
    assert_eq!(t.server_name, "bare");
    assert_eq!(t.token, "t2");
}

#[test]
fn cidrs_and_lengths() {
    let c = parse_cidr("10.1.0.0/24").unwrap();
    assert_eq!(c, Ipv4Cidr { first_address: Ipv4Addr::new(10, 1, 0, 0), network_length: 24 });
    assert_eq!(c.mask(), Ipv4Addr::new(255, 255, 255, 0));
    assert!(parse_cidr("10.1.0.1/24").is_err());
    assert!(parse_cidr("10.1.0.0/33").is_err());
    assert!(parse_cidr("not a network").is_err());
    let d = parse_cidr("10.0.0.0/16").unwrap();
    assert_eq!(check_lengths(c, c), Ok(()));
    assert_eq!(check_lengths(c, d), Err(ConnectError::LengthMismatch { expected: 16, got: 24 }));
}

#[test]
fn tunnel_translation() {
    let local = parse_cidr("10.1.0.0/24").unwrap();
    let remote = parse_cidr("10.0.0.0/24").unwrap();
    let table = tunnel_nat_table(local, remote);
    let ip = Ipv4Addr::new(10, 1, 0, 42);
    let out = table.convert(ip);
    assert_eq!(out, Ipv4Addr::new(10, 0, 0, 42));
    assert_eq!(table.reverse(out), ip);
}

#[test]
fn gateway_network_plan() {
    let plan = plan_network(0x0A0B_0000, 16, 0x0A0C_0000, 24, 1000).unwrap();
    assert_eq!(plan.vrf_table_id, 1000);
    assert_eq!(plan.bridge_address, Ipv4Addr::new(10, 11, 255, 254));
    assert_eq!(plan.bridge_prefix_len, 16);
    assert_eq!(plan.tun_address, Ipv4Addr::new(10, 12, 0, 254));
    assert_eq!(plan.tun_netmask, Ipv4Addr::new(255, 255, 255, 0));
    // Only the low byte of a mask counts.
    let plan = plan_network(0x0A0B_0000, 0x100 + 8, 0x0A0C_0000, 0, 1).unwrap();
    assert_eq!(plan.bridge_prefix_len, 8);
    assert_eq!(plan.tun_netmask, Ipv4Addr::new(0, 0, 0, 0));
    assert_eq!(plan.tun_address, Ipv4Addr::new(255, 255, 255, 254));
    assert_eq!(plan_network(0, 33, 0, 24, 1).unwrap_err(), "invalid IP prefix length");
    assert_eq!(plan_network(0, 24, 0, 40, 1).unwrap_err(), "invalid IP prefix length");
    assert_eq!(ipv4_saturating_sub(Ipv4Addr::new(0, 0, 0, 0), 1), Ipv4Addr::new(0, 0, 0, 0));
}

#[test]
fn network_manager() {
    let mut m: NetworkManager<u32> = NetworkManager::new();
    m.add_network(Network { network_id: "a".into(), tun_sink: 1 });
    m.add_network(Network { network_id: "b".into(), tun_sink: 2 });
    m.add_network(Network { network_id: "a".into(), tun_sink: 3 });
    assert_eq!(m.get_network("a").unwrap().tun_sink, 1);
    assert_eq!(m.get_network("b").unwrap().tun_sink, 2);
    assert!(m.get_network("c").is_none());
    assert_eq!(m.remove_network("a").unwrap().tun_sink, 1);
    assert_eq!(m.get_network("a").unwrap().tun_sink, 3);
    assert!(m.remove_network("c").is_none());
    assert_eq!(m.networks.len(), 2);
}

#[test]
fn gateway_defaults() {
    let c = GatewayConfig::default();
    assert_eq!(c.tunnel.host, "localhost");
    assert_eq!(c.tunnel.port, 8080);
    assert_eq!(c.tunnel.protocol, Protocol::Quic);
    assert_eq!(c.grpc.host, "localhost");
    assert_eq!(c.grpc.port, 50051);
    assert_eq!(c.backend_grpc_url, "http://localhost:50051");
    assert_eq!(c.sqlite_url, "sqlite://db.sqlite?mode=rwc");
    assert_eq!(USING_PROTOCOL, Protocol::Tcp);
    let s: SessionData<u8> = SessionData::default();
    assert!(s.session_id.is_none() && s.assigned_ip_addr.is_none() && s.frame_sender.is_none());
    assert_eq!(QuicServer::new("0.0.0.0:4433").listen_address(), "0.0.0.0:4433");
}

#[test]
fn login_paths_lose_trailing_slashes() {
    assert_eq!(trim_trailing_slashes("/api/"), "/api");
    assert_eq!(trim_trailing_slashes("/api//"), "/api");
    assert_eq!(trim_trailing_slashes("/"), "");
    assert_eq!(trim_trailing_slashes("/a/b"), "/a/b");
    assert_eq!(trim_trailing_slashes(""), "");
}

#[test]
fn login_urls_lose_trailing_slashes_query_and_fragment() {
    assert_eq!(login_url("https://ex.com/api/?q=1#f").as_deref(), Some("https://ex.com/api"));
    assert_eq!(login_url("https://ex.com/api//").as_deref(), Some("https://ex.com/api"));
    assert_eq!(login_url("https://ex.com/").as_deref(), Some("https://ex.com/"));
    assert_eq!(login_url("https://ex.com").as_deref(), Some("https://ex.com/"));
    assert_eq!(login_url("http://10.0.0.1:8080/base/#top").as_deref(), Some("http://10.0.0.1:8080/base"));
    assert_eq!(login_url("https://ex.com/a/b?x=y").as_deref(), Some("https://ex.com/a/b"));
}

#[test]
fn login_urls_that_cannot_be_a_base_are_refused() {
    assert_eq!(login_url("data:text/plain,x"), None);
    assert_eq!(login_url("mailto:someone@example.com"), None);
    assert_eq!(login_url("not a url"), None);
    assert_eq!(login_url(""), None);
}

#[test]
fn vrf_table_ids_count_up_from_1000() {
    let mut ids = VrfTableIds::new();
    assert_eq!(ids.next_id(), 1000);
    assert_eq!(ids.record(true), Some(1000));
    assert_eq!(ids.record(false), None);
    assert_eq!(ids.next_id(), 1001);
    assert_eq!(ids.record(true), Some(1001));
    assert_eq!(ids.next_id(), 1002);
}
