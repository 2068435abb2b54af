use freight_train::ip::Ipv4Addr;
use freight_train::nat_table::{NATTable, Network};

#[test]
fn is_in_network() {
    let network = Network::new(Ipv4Addr::new(10, 1, 0, 0), 24);
    let ip = Ipv4Addr::new(10, 1, 0, 1);
    assert!(network.is_in_network(ip));

    let ip = Ipv4Addr::new(10, 2, 0, 2);
    assert!(!network.is_in_network(ip));

    let ip = Ipv4Addr::new(1, 1, 1, 1);
    assert!(!network.is_in_network(ip));
}

#[test]
fn test_nat_table_convert() {
    let mut nat_table = NATTable::new();
    nat_table.add_entry(
        Network::new(Ipv4Addr::new(10, 1, 0, 0), 24),
        Network::new(Ipv4Addr::new(10, 0, 0, 0), 24),
    );

    let ip = Ipv4Addr::new(10, 1, 0, 1);
    let converted = nat_table.convert(ip);
    assert_eq!(converted, Ipv4Addr::new(10, 0, 0, 1));

    let ip = Ipv4Addr::new(10, 0, 0, 2);
    let converted = nat_table.convert(ip);
    assert_eq!(converted, Ipv4Addr::new(10, 0, 0, 2));

    let ip = Ipv4Addr::new(1, 1, 1, 1);
    let converted = nat_table.convert(ip);
    assert_eq!(converted, Ipv4Addr::new(1, 1, 1, 1));
}

#[test]
fn test_nat_table_reverse() {
    let mut nat_table = NATTable::new();
    nat_table.add_entry(
        Network::new(Ipv4Addr::new(10, 1, 0, 0), 24),
        Network::new(Ipv4Addr::new(10, 0, 0, 0), 24),
    );

    let ip = Ipv4Addr::new(10, 0, 0, 1);
    let reversed = nat_table.reverse(ip);
    assert_eq!(reversed, Ipv4Addr::new(10, 1, 0, 1));

    let ip = Ipv4Addr::new(10, 1, 0, 2);
    let reversed = nat_table.reverse(ip);
    assert_eq!(reversed, Ipv4Addr::new(10, 1, 0, 2));

    let ip = Ipv4Addr::new(1, 1, 1, 1);
    let reversed = nat_table.reverse(ip);
    assert_eq!(reversed, Ipv4Addr::new(1, 1, 1, 1));
}

#[test]
fn ipv4_addr_value_is_big_endian() {
    assert_eq!(Ipv4Addr::new(10, 1, 2, 3).to_bits(), 0x0A01_0203);
    assert_eq!(Ipv4Addr::from_bits(0xC0A8_0001), Ipv4Addr::new(192, 168, 0, 1));
}

#[test]
fn network_with_host_bits_holds_no_address() {
    // The network's own address is compared unmasked.
    let network = Network::new(Ipv4Addr::new(10, 1, 0, 5), 24);
    assert!(!network.is_in_network(Ipv4Addr::new(10, 1, 0, 5)));
}

#[test]
fn network_of_full_length_holds_one_address() {
    let network = Network::new(Ipv4Addr::new(10, 1, 0, 5), 32);
    assert!(network.is_in_network(Ipv4Addr::new(10, 1, 0, 5)));
    assert!(!network.is_in_network(Ipv4Addr::new(10, 1, 0, 6)));
}

#[test]
fn add_entry_replaces_the_remote_of_a_local_network() {
    let mut nat_table = NATTable::new();
    let local = Network::new(Ipv4Addr::new(10, 1, 0, 0), 24);
    nat_table.add_entry(local, Network::new(Ipv4Addr::new(10, 0, 0, 0), 24));
    nat_table.add_entry(local, Network::new(Ipv4Addr::new(10, 9, 0, 0), 24));
    assert_eq!(nat_table.convert(Ipv4Addr::new(10, 1, 0, 7)), Ipv4Addr::new(10, 9, 0, 7));
    assert_eq!(nat_table.reverse(Ipv4Addr::new(10, 9, 0, 7)), Ipv4Addr::new(10, 1, 0, 7));
    assert_eq!(nat_table.reverse(Ipv4Addr::new(10, 0, 0, 7)), Ipv4Addr::new(10, 0, 0, 7));
}

#[test]
fn convert_then_reverse_gives_the_address_back() {
    let mut nat_table = NATTable::new();
    nat_table.add_entry(
        Network::new(Ipv4Addr::new(172, 16, 0, 0), 16),
        Network::new(Ipv4Addr::new(10, 20, 0, 0), 16),
    );
    nat_table.add_entry(
        Network::new(Ipv4Addr::new(192, 168, 1, 0), 24),
        Network::new(Ipv4Addr::new(10, 30, 0, 0), 24),
    );
    for ip in [
        Ipv4Addr::new(172, 16, 3, 4),
        Ipv4Addr::new(172, 16, 255, 254),
        Ipv4Addr::new(192, 168, 1, 99),
    ] {
        let converted = nat_table.convert(ip);
        assert_ne!(converted, ip);
        assert_eq!(nat_table.reverse(converted), ip);
    }
    assert_eq!(nat_table.convert(Ipv4Addr::new(172, 16, 3, 4)), Ipv4Addr::new(10, 20, 3, 4));
    assert_eq!(nat_table.convert(Ipv4Addr::new(192, 168, 1, 99)), Ipv4Addr::new(10, 30, 0, 99));
}
