use coap_client::address::{IpAddress, SocketAddress};
use coap_client::endpoint::{select_address, Endpoint};
use coap_client::error::Error;

fn v4(a: u8, b: u8, c: u8, d: u8) -> Option<IpAddress> {
    Some(IpAddress::V4(a, b, c, d))
}

fn v6(g: [u16; 8]) -> Option<IpAddress> {
    Some(IpAddress::V6(g[0], g[1], g[2], g[3], g[4], g[5], g[6], g[7]))
}

#[test]
fn ipv4_literals() {
    assert_eq!(IpAddress::parse("192.0.2.1"), v4(192, 0, 2, 1));
    assert_eq!(IpAddress::parse("0.0.0.0"), v4(0, 0, 0, 0));
    assert_eq!(IpAddress::parse("255.255.255.255"), v4(255, 255, 255, 255));
    assert_eq!(IpAddress::parse("1.20.100.9"), v4(1, 20, 100, 9));
}

#[test]
fn ipv4_rejects() {
    for text in [
        "", ".", "1", "1.2.3", "1.2.3.", ".1.2.3", "1.2.3.4.", "1.2.3.4.5", "1..2.3", "256.0.0.1",
        "1.2.3.256", "01.2.3.4", "1.2.3.04", "00.0.0.0", "1.2.3.4 ", " 1.2.3.4", "1.2.3.a",
        "1.2.3.-4", "1.2.3.+4", "1234.1.1.1", "1.2.3.0x4", "example.com", "\u{661}.2.3.4",
    ] {
        assert_eq!(IpAddress::parse(text), None, "{:?}", text);
    }
}

#[test]
fn ipv6_full_literals() {
    assert_eq!(IpAddress::parse("1:2:3:4:5:6:7:8"), v6([1, 2, 3, 4, 5, 6, 7, 8]));
    assert_eq!(
        IpAddress::parse("2001:0db8:0000:0000:0000:ff00:0042:8329"),
        v6([0x2001, 0x0db8, 0, 0, 0, 0xff00, 0x42, 0x8329])
    );
    assert_eq!(
        IpAddress::parse("FFFF:ffff:AbCd:0:0:0:0:0"),
        v6([0xffff, 0xffff, 0xabcd, 0, 0, 0, 0, 0])
    );
}

#[test]
fn ipv6_compressed_literals() {
    assert_eq!(IpAddress::parse("::"), v6([0; 8]));
    assert_eq!(IpAddress::parse("::1"), v6([0, 0, 0, 0, 0, 0, 0, 1]));
    assert_eq!(IpAddress::parse("1::"), v6([1, 0, 0, 0, 0, 0, 0, 0]));
    assert_eq!(IpAddress::parse("1::8"), v6([1, 0, 0, 0, 0, 0, 0, 8]));
    assert_eq!(IpAddress::parse("2001:db8::ff00:42:8329"), v6([0x2001, 0xdb8, 0, 0, 0, 0xff00, 0x42, 0x8329]));
    assert_eq!(IpAddress::parse("1:2:3:4:5:6:7::"), v6([1, 2, 3, 4, 5, 6, 7, 0]));
    assert_eq!(IpAddress::parse("::2:3:4:5:6:7:8"), v6([0, 2, 3, 4, 5, 6, 7, 8]));
    assert_eq!(IpAddress::parse("1::3:4:5:6:7:8"), v6([1, 0, 3, 4, 5, 6, 7, 8]));
}

#[test]
fn ipv6_with_embedded_ipv4() {
    assert_eq!(IpAddress::parse("::192.0.2.1"), v6([0, 0, 0, 0, 0, 0, 0xc000, 0x0201]));
    assert_eq!(IpAddress::parse("::ffff:1.2.3.4"), v6([0, 0, 0, 0, 0, 0xffff, 0x0102, 0x0304]));
    assert_eq!(IpAddress::parse("1:2:3:4:5:6:1.2.3.4"), v6([1, 2, 3, 4, 5, 6, 0x0102, 0x0304]));
    assert_eq!(IpAddress::parse("64:ff9b::255.255.255.255"), v6([0x64, 0xff9b, 0, 0, 0, 0, 0xffff, 0xffff]));
    assert_eq!(IpAddress::parse("1:2:3:4:5::1.2.3.4"), v6([1, 2, 3, 4, 5, 0, 0x0102, 0x0304]));
}

#[test]
fn ipv6_rejects() {
    for text in [
        ":", ":::", "1", "1:", ":1", "1:2", "1:2:3:4:5:6:7", "1:2:3:4:5:6:7:8:9", "1:2:3:4:5:6:7:8:",
        ":1:2:3:4:5:6:7:8", "1::2::3", "1:::2", "12345::", "::12345", "g::", "::g", "1:2:3:4:5:6:7:8::",
        "::1:2:3:4:5:6:7:8", "1:2:3:4::5:6:7:8", "1.2.3.4::", "1.2.3.4:5::", "::1.2.3.4:5",
        "1:2:3:4:5:6:7:1.2.3.4", "1:2:3:4:5:1.2.3.4", "1:2:3:4:5:6::1.2.3.4", "::1.2.3", "::1.2.3.256",
        "::01.2.3.4", "[::1]", "::1%eth0", "::1 ", " ::1", "1:2:3:4:5:6:7:8 ", "::ffff:1.2.3.4.5",
        "1::2:3:4:5:6:7:8", "::.", "::1.", "0x1::",
    ] {
        assert_eq!(IpAddress::parse(text), None, "{:?}", text);
    }
}

#[test]
fn socket_address_holds_its_parts() {
    let a = SocketAddress::new(IpAddress::V4(127, 0, 0, 1), 5683);
    assert_eq!(a.ip, IpAddress::V4(127, 0, 0, 1));
    assert_eq!(a.port, 5683);
}

#[test]
fn first_address_is_selected() {
    let a = SocketAddress::new(IpAddress::V4(10, 0, 0, 1), 1);
    let b = SocketAddress::new(IpAddress::V6(0, 0, 0, 0, 0, 0, 0, 1), 2);
    assert_eq!(select_address(&vec![a, b]), Ok(a));
    assert_eq!(select_address(&vec![b, a]), Ok(b));
    assert_eq!(select_address(&vec![b]), Ok(b));
    assert_eq!(select_address(&vec![]), Err(Error::ResolutionError));
}

#[test]
fn endpoint_knows_whether_it_is_set() {
    assert!(!Endpoint::Unset.is_set());
    assert!(Endpoint::Unresolved("h".to_string(), 1).is_set());
    assert!(Endpoint::Resolved(SocketAddress::new(IpAddress::V4(1, 2, 3, 4), 1)).is_set());
}
