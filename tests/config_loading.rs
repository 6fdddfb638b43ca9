use seeker_config::addr::{Cidr, IpAddr, Ipv4, Ipv6, ServerAddr, SocketAddress};
use seeker_config::cipher::CipherKind;
use seeker_config::config::{Config, ConfigError, Field, RawConfig, RawServerConfig};

fn s(x: &str) -> Option<String> {
    Some(x.to_string())
}

fn document() -> RawConfig {
    RawConfig {
        server_config: Some(RawServerConfig {
            addr: s("1.2.3.4:8388"),
            password: s("x"),
            method: s("aes-256-gcm"),
            timeout: None,
        }),
        dns_start_ip: s("10.8.0.1"),
        dns_server: s("8.8.8.8:53"),
        tun_name: s("tun0"),
        tun_ip: s("10.8.0.2"),
        tun_cidr: s("10.8.0.0/24"),
        rules: Some(vec![]),
    }
}

#[test]
fn end_to_end_document_loads() {
    let cfg = Config::from_raw(document()).unwrap();
    assert_eq!(cfg.tun_cidr.prefix_len, 24);
    assert_eq!(
        cfg.tun_cidr,
        Cidr { address: Ipv4 { a: 10, b: 8, c: 0, d: 0 }, prefix_len: 24 }
    );
    assert_eq!(cfg.tun_ip, Ipv4 { a: 10, b: 8, c: 0, d: 2 });
    assert_eq!(cfg.dns_start_ip, Ipv4 { a: 10, b: 8, c: 0, d: 1 });
    assert_eq!(
        cfg.dns_server,
        SocketAddress { ip: IpAddr::V4(Ipv4 { a: 8, b: 8, c: 8, d: 8 }), port: 53 }
    );
    assert_eq!(cfg.tun_name, "tun0");
    assert!(cfg.rules.is_empty());
    assert_eq!(cfg.server_config.method, CipherKind::Aes256Gcm);
    assert_eq!(cfg.server_config.password, "x");
    assert_eq!(cfg.server_config.timeout_secs, None);
    match &cfg.server_config.addr {
        ServerAddr::SocketAddr(a) => {
            assert_eq!(
                *a,
                SocketAddress { ip: IpAddr::V4(Ipv4 { a: 1, b: 2, c: 3, d: 4 }), port: 8388 }
            )
        }
        other => panic!("unexpected {:?}", other),
    }
}

#[test]
fn fields_equal_parsed_values() {
    let mut raw = document();
    raw.tun_ip = s("10.0.0.1");
    raw.rules = Some(vec!["DOMAIN,example.com,PROXY".to_string(), "MATCH,DIRECT".to_string()]);
    if let Some(sc) = raw.server_config.as_mut() {
        sc.timeout = Some(30);
        sc.addr = s("proxy.example.com:443");
    }
    let cfg = Config::from_raw(raw).unwrap();
    assert_eq!(cfg.tun_ip, Ipv4 { a: 10, b: 0, c: 0, d: 1 });
    assert_eq!(cfg.server_config.timeout_secs, Some(30));
    assert_eq!(cfg.rules, vec!["DOMAIN,example.com,PROXY".to_string(), "MATCH,DIRECT".to_string()]);
    match &cfg.server_config.addr {
        ServerAddr::DomainName(h, p) => {
            assert_eq!(h, "proxy.example.com");
            assert_eq!(*p, 443);
        }
        other => panic!("unexpected {:?}", other),
    }
}

#[test]
fn ipv6_dns_server_loads() {
    let mut raw = document();
    raw.dns_server = s("[::1]:53");
    let cfg = Config::from_raw(raw).unwrap();
    assert_eq!(
        cfg.dns_server,
        SocketAddress { ip: IpAddr::V6(Ipv6 { groups: vec![0, 0, 0, 0, 0, 0, 0, 1] }), port: 53 }
    );
}

#[test]
fn missing_key_fails_naming_it() {
    let mut raw = document();
    raw.tun_cidr = None;
    assert!(matches!(Config::from_raw(raw), Err(ConfigError::Missing(Field::TunCidr))));

    let mut raw = document();
    raw.server_config = None;
    assert!(matches!(Config::from_raw(raw), Err(ConfigError::Missing(Field::ServerConfig))));

    let mut raw = document();
    if let Some(sc) = raw.server_config.as_mut() {
        sc.password = None;
    }
    assert!(matches!(Config::from_raw(raw), Err(ConfigError::Missing(Field::Password))));

    let mut raw = document();
    raw.rules = None;
    assert!(matches!(Config::from_raw(raw), Err(ConfigError::Missing(Field::Rules))));
}

#[test]
fn unknown_cipher_names_method_field() {
    let mut raw = document();
    if let Some(sc) = raw.server_config.as_mut() {
        sc.method = s("rot13");
    }
    match Config::from_raw(raw) {
        Err(ConfigError::Parse(f, text)) => {
            assert_eq!(f, Field::Method);
            assert_eq!(f.key(), "method");
            assert_eq!(text, "rot13");
        }
        other => panic!("unexpected {:?}", other),
    }
}

#[test]
fn each_bad_field_is_named() {
    let mut raw = document();
    if let Some(sc) = raw.server_config.as_mut() {
        sc.addr = s("no-port");
    }
    assert!(matches!(Config::from_raw(raw), Err(ConfigError::Parse(Field::Addr, _))));

    let mut raw = document();
    raw.dns_start_ip = s("10.8.0.256");
    assert!(matches!(Config::from_raw(raw), Err(ConfigError::Parse(Field::DnsStartIp, _))));

    let mut raw = document();
    raw.dns_server = s("8.8.8.8");
    assert!(matches!(Config::from_raw(raw), Err(ConfigError::Parse(Field::DnsServer, _))));

    let mut raw = document();
    raw.tun_ip = s("tun");
    assert!(matches!(Config::from_raw(raw), Err(ConfigError::Parse(Field::TunIp, _))));

    let mut raw = document();
    raw.tun_cidr = s("10.8.0.0");
    match Config::from_raw(raw) {
        Err(ConfigError::Format(f, text)) => {
            assert_eq!(f, Field::TunCidr);
            assert_eq!(text, "10.8.0.0");
        }
        other => panic!("unexpected {:?}", other),
    }

    let mut raw = document();
    raw.tun_cidr = s("10.8.0.0/24/8");
    match Config::from_raw(raw) {
        Err(ConfigError::Format(f, text)) => {
            assert_eq!(f, Field::TunCidr);
            assert_eq!(text, "10.8.0.0/24/8");
        }
        other => panic!("unexpected {:?}", other),
    }

    let mut raw = document();
    raw.tun_cidr = s("10.8.0.0/40");
    assert!(matches!(Config::from_raw(raw), Err(ConfigError::Parse(Field::TunCidr, _))));
}
