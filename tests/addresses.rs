use seeker_config::addr::{
    parse_cidr, parse_ipv4, parse_ipv6, parse_port, parse_server_addr, parse_socket_addr, Cidr,
    CidrError, IpAddr, Ipv4, Ipv6, ServerAddr, SocketAddress,
};
use seeker_config::cipher::CipherKind;

fn ip(a: u8, b: u8, c: u8, d: u8) -> Ipv4 {
    Ipv4 { a, b, c, d }
}

#[test]
fn ipv4_dotted_quad_parses() {
    assert_eq!(parse_ipv4("10.0.0.1"), Some(ip(10, 0, 0, 1)));
    assert_eq!(parse_ipv4("255.255.255.255"), Some(ip(255, 255, 255, 255)));
    assert_eq!(parse_ipv4("0.0.0.0"), Some(ip(0, 0, 0, 0)));
}

#[test]
fn ipv4_malformed_is_refused() {
    assert_eq!(parse_ipv4("256.0.0.1"), None);
    assert_eq!(parse_ipv4("01.0.0.1"), None);
    assert_eq!(parse_ipv4("1.2.3"), None);
    assert_eq!(parse_ipv4("1.2.3.4.5"), None);
    assert_eq!(parse_ipv4("1..3.4"), None);
    assert_eq!(parse_ipv4("a.b.c.d"), None);
    assert_eq!(parse_ipv4(""), None);
    assert_eq!(parse_ipv4("1.2.3.4 "), None);
    assert_eq!(parse_ipv4("1000.2.3.4"), None);
}

#[test]
fn cidr_parses_address_and_prefix() {
    let c = parse_cidr("10.8.0.0/24").unwrap();
    assert_eq!(c, Cidr { address: ip(10, 8, 0, 0), prefix_len: 24 });
    assert_eq!(parse_cidr("0.0.0.0/0").unwrap().prefix_len, 0);
    assert_eq!(parse_cidr("1.2.3.4/32").unwrap().prefix_len, 32);
    assert_eq!(parse_cidr("1.2.3.4/08").unwrap().prefix_len, 8);
}

#[test]
fn cidr_round_trips_every_prefix() {
    for n in 0u8..=32 {
        let text = format!("192.168.1.7/{}", n);
        assert_eq!(
            parse_cidr(&text),
            Ok(Cidr { address: ip(192, 168, 1, 7), prefix_len: n })
        );
    }
}

#[test]
fn cidr_errors() {
    assert_eq!(parse_cidr("10.8.0.0"), Err(CidrError::MissingSeparator));
    assert_eq!(parse_cidr(""), Err(CidrError::MissingSeparator));
    assert_eq!(parse_cidr("10.8.0/24"), Err(CidrError::BadAddress));
    assert_eq!(parse_cidr("10.8.0.0/33"), Err(CidrError::BadPrefix));
    assert_eq!(parse_cidr("10.8.0.0/"), Err(CidrError::BadPrefix));
    assert_eq!(parse_cidr("10.8.0.0/x"), Err(CidrError::BadPrefix));
}

#[test]
fn cidr_extra_segment_is_malformed() {
    assert_eq!(parse_cidr("10.8.0.0/24/8"), Err(CidrError::ExtraSegment));
    assert_eq!(parse_cidr("10.8.0.0/24/"), Err(CidrError::ExtraSegment));
    assert_eq!(parse_cidr("10.8.0.0//24"), Err(CidrError::ExtraSegment));
    assert_eq!(parse_cidr("bad/24/8"), Err(CidrError::ExtraSegment));
}

#[test]
fn ports_and_socket_addresses() {
    assert_eq!(parse_port("53"), Some(53));
    assert_eq!(parse_port("65535"), Some(65535));
    assert_eq!(parse_port("65536"), None);
    assert_eq!(parse_port("x1"), None);
    assert_eq!(parse_port(""), None);
    assert_eq!(
        parse_socket_addr("8.8.8.8:53"),
        Some(SocketAddress { ip: IpAddr::V4(ip(8, 8, 8, 8)), port: 53 })
    );
    assert_eq!(parse_socket_addr("8.8.8.8"), None);
    assert_eq!(parse_socket_addr("8.8.8.8:http"), None);
    assert_eq!(parse_socket_addr("example.com:53"), None);
}

#[test]
fn server_address_forms() {
    match parse_server_addr("1.2.3.4:8388") {
        Some(ServerAddr::SocketAddr(a)) => {
            assert_eq!(a, SocketAddress { ip: IpAddr::V4(ip(1, 2, 3, 4)), port: 8388 })
        }
        other => panic!("unexpected {:?}", other),
    }
    match parse_server_addr("proxy.example.com:443") {
        Some(ServerAddr::DomainName(host, port)) => {
            assert_eq!(host, "proxy.example.com");
            assert_eq!(port, 443);
        }
        other => panic!("unexpected {:?}", other),
    }
    assert!(parse_server_addr(":443").is_none());
    assert!(parse_server_addr("proxy.example.com").is_none());
    assert!(parse_server_addr("proxy.example.com:70000").is_none());
}

#[test]
fn cipher_names() {
    assert_eq!(CipherKind::from_name("aes-256-gcm"), Some(CipherKind::Aes256Gcm));
    assert_eq!(CipherKind::from_name("aes-128-gcm"), Some(CipherKind::Aes128Gcm));
    assert_eq!(
        CipherKind::from_name("chacha20-ietf-poly1305"),
        Some(CipherKind::ChaCha20IetfPoly1305)
    );
    assert_eq!(CipherKind::from_name("rot13"), None);
    assert_eq!(CipherKind::from_name("AES-256-GCM"), None);
    for k in [CipherKind::Aes128Gcm, CipherKind::Aes256Gcm, CipherKind::ChaCha20IetfPoly1305] {
        assert_eq!(CipherKind::from_name(k.name()), Some(k));
    }
}

fn v6(groups: [u16; 8]) -> Ipv6 {
    Ipv6 { groups: groups.to_vec() }
}

#[test]
fn ipv6_full_and_compressed_forms() {
    assert_eq!(parse_ipv6("1:2:3:4:5:6:7:8"), Some(v6([1, 2, 3, 4, 5, 6, 7, 8])));
    assert_eq!(parse_ipv6("::1"), Some(v6([0, 0, 0, 0, 0, 0, 0, 1])));
    assert_eq!(parse_ipv6("::"), Some(v6([0; 8])));
    assert_eq!(parse_ipv6("fe80::"), Some(v6([0xfe80, 0, 0, 0, 0, 0, 0, 0])));
    assert_eq!(
        parse_ipv6("2001:DB8::ff00:42:8329"),
        Some(v6([0x2001, 0xdb8, 0, 0, 0, 0xff00, 0x42, 0x8329]))
    );
    assert_eq!(parse_ipv6("1:2:3::5:6:7:8"), Some(v6([1, 2, 3, 0, 5, 6, 7, 8])));
    assert_eq!(
        parse_ipv6("::ffff:192.168.1.7"),
        Some(v6([0, 0, 0, 0, 0, 0xffff, 0xc0a8, 0x0107]))
    );
    assert_eq!(
        parse_ipv6("1:2:3:4:5:6:10.0.0.1"),
        Some(v6([1, 2, 3, 4, 5, 6, 0x0a00, 0x0001]))
    );
}

#[test]
fn ipv6_malformed_is_refused() {
    assert_eq!(parse_ipv6(""), None);
    assert_eq!(parse_ipv6("1:2:3:4:5:6:7"), None);
    assert_eq!(parse_ipv6("1:2:3:4:5:6:7:8:9"), None);
    assert_eq!(parse_ipv6("1:2:3:4:5:6:7:8::"), None);
    assert_eq!(parse_ipv6("1::2::3"), None);
    assert_eq!(parse_ipv6("1:::2"), None);
    assert_eq!(parse_ipv6(":1:2:3:4:5:6:7"), None);
    assert_eq!(parse_ipv6("12345::"), None);
    assert_eq!(parse_ipv6("g::"), None);
    assert_eq!(parse_ipv6("1.2.3.4::"), None);
    assert_eq!(parse_ipv6("1:2:3:4:5:6:7:1.2.3.4"), None);
    assert_eq!(parse_ipv6("1.2.3.4"), None);
}

#[test]
fn ipv6_socket_addresses() {
    assert_eq!(
        parse_socket_addr("[::1]:53"),
        Some(SocketAddress { ip: IpAddr::V6(v6([0, 0, 0, 0, 0, 0, 0, 1])), port: 53 })
    );
    assert_eq!(
        parse_socket_addr("[2001:4860:4860::8888]:853"),
        Some(SocketAddress {
            ip: IpAddr::V6(v6([0x2001, 0x4860, 0x4860, 0, 0, 0, 0, 0x8888])),
            port: 853
        })
    );
    assert_eq!(parse_socket_addr("::1:53"), None);
    assert_eq!(parse_socket_addr("[::1]"), None);
    assert_eq!(parse_socket_addr("[::1]53"), None);
    assert_eq!(parse_socket_addr("[::1:53"), None);
    assert_eq!(parse_socket_addr("[1.2.3.4]:53"), None);
    match parse_server_addr("[::1]:8388") {
        Some(ServerAddr::SocketAddr(a)) => {
            assert_eq!(a.ip, IpAddr::V6(v6([0, 0, 0, 0, 0, 0, 0, 1])));
            assert_eq!(a.port, 8388);
        }
        other => panic!("unexpected {:?}", other),
    }
}
