use patroni_exporter::ip::{ip_address, ip_text, ipv4, ipv6, octet, split_at};

#[test]
fn splits_at_every_separator() {
    assert_eq!(split_at(b"a.bc..d", b'.'), vec![b"a".to_vec(), b"bc".to_vec(), vec![], b"d".to_vec()]);
    assert_eq!(split_at(b"", b'.'), vec![Vec::<u8>::new()]);
    assert_eq!(split_at(b".", b'.'), vec![Vec::<u8>::new(), Vec::<u8>::new()]);
}

#[test]
fn octets_are_small_decimal_numbers() {
    assert!(octet(b"0"));
    assert!(octet(b"9"));
    assert!(octet(b"10"));
    assert!(octet(b"255"));
    assert!(!octet(b"256"));
    assert!(!octet(b"999"));
    assert!(!octet(b"00"));
    assert!(!octet(b"01"));
    assert!(!octet(b""));
    assert!(!octet(b"1234"));
    assert!(!octet(b"1a"));
    assert!(!octet(b"-1"));
}

#[test]
fn dotted_quads() {
    assert!(ipv4(b"10.0.0.1"));
    assert!(ipv4(b"0.0.0.0"));
    assert!(ipv4(b"255.255.255.255"));
    assert!(ipv4(b"127.0.0.1"));
    assert!(!ipv4(b"10.0.0"));
    assert!(!ipv4(b"10.0.0.1.2"));
    assert!(!ipv4(b"10.0.0.256"));
    assert!(!ipv4(b"10.0.0.01"));
    assert!(!ipv4(b"10..0.1"));
    assert!(!ipv4(b"10.0.0.1 "));
    assert!(!ipv4(b" 10.0.0.1"));
    assert!(!ipv4(b""));
    assert!(!ipv4(b"localhost"));
    assert!(!ipv4(b"1.2.3.4."));
}

#[test]
fn colon_separated_groups() {
    assert!(ipv6(b"::"));
    assert!(ipv6(b"::1"));
    assert!(ipv6(b"1::"));
    assert!(ipv6(b"fe80::1"));
    assert!(ipv6(b"2001:db8::ff00:42:8329"));
    assert!(ipv6(b"2001:0db8:0000:0000:0000:ff00:0042:8329"));
    assert!(ipv6(b"1:2:3:4:5:6:7:8"));
    assert!(ipv6(b"1:2:3:4:5:6:7::"));
    assert!(ipv6(b"::2:3:4:5:6:7:8"));
    assert!(ipv6(b"1::3:4:5:6:7:8"));
    assert!(ipv6(b"ABCD:ef01::"));
    assert!(ipv6(b"::ffff:192.168.0.1"));
    assert!(ipv6(b"::192.168.0.1"));
    assert!(ipv6(b"1:2:3:4:5:6:1.2.3.4"));
    assert!(ipv6(b"1:2:3:4:5::1.2.3.4"));
    assert!(ipv6(b"64:ff9b::10.0.0.1"));
    assert!(!ipv6(b""));
    assert!(!ipv6(b":"));
    assert!(!ipv6(b":::"));
    assert!(!ipv6(b"1:2:3:4:5:6:7"));
    assert!(!ipv6(b"1:2:3:4:5:6:7:8:9"));
    assert!(!ipv6(b"1:2:3:4:5:6:7:8::"));
    assert!(!ipv6(b"::1:2:3:4:5:6:7:8"));
    assert!(!ipv6(b"1::2::3"));
    assert!(!ipv6(b"1:::2"));
    assert!(!ipv6(b":1::2"));
    assert!(!ipv6(b"1::2:"));
    assert!(!ipv6(b"12345::"));
    assert!(!ipv6(b"g::"));
    assert!(!ipv6(b"1.2.3.4"));
    assert!(!ipv6(b"1.2.3.4::"));
    assert!(!ipv6(b"::1.2.3.4:5"));
    assert!(!ipv6(b"1:2:3:4:5:6:7:1.2.3.4"));
    assert!(!ipv6(b"1:2:3:4:5:6::1.2.3.4"));
    assert!(!ipv6(b"1:2:3:4:5:1.2.3.4"));
    assert!(!ipv6(b"::1.2.3"));
    assert!(!ipv6(b"fe80::1%eth0"));
    assert!(!ipv6(b"[::1]"));
}

#[test]
fn either_family() {
    assert!(ip_address(b"10.0.0.1"));
    assert!(ip_address(b"::1"));
    assert!(!ip_address(b"example.org"));
    assert!(ip_text("192.168.1.20"));
    assert!(ip_text("2001:db8::1"));
    assert!(!ip_text("10.0.0.1\u{e9}"));
    assert!(!ip_text("node-1"));
}
