//! Turning a decoded configuration document into a validated `Config`.

use std::sync::Arc;
use vstd::prelude::*;
use crate::addr::{
    cidr_of, ipv4_of, parse_cidr, parse_ipv4, parse_server_addr, parse_socket_addr, port_of,
    server_addr_denotes, socket_of, Cidr, CidrError, Ipv4, ServerAddr, SocketAddress,
};
use crate::cipher::{cipher_of, CipherKind};
use crate::text::{after_char, find_char};

verus! {

/// The `server_config` section as decoded; absent keys are `None`.
pub struct RawServerConfig {
    pub addr: Option<String>,
    pub password: Option<String>,
    pub method: Option<String>,
    /// Connect timeout in whole seconds; the one optional key.
    pub timeout: Option<u32>,
}

/// A configuration document as decoded, before any field is checked.
pub struct RawConfig {
    pub server_config: Option<RawServerConfig>,
    pub dns_start_ip: Option<String>,
    pub dns_server: Option<String>,
    pub tun_name: Option<String>,
    pub tun_ip: Option<String>,
    pub tun_cidr: Option<String>,
    pub rules: Option<Vec<String>>,
}

/// A key of the configuration document.
#[derive(Clone, Copy, Debug, PartialEq, Eq, Structural)]
pub enum Field {
    ServerConfig,
    Addr,
    Password,
    Method,
    DnsStartIp,
    DnsServer,
    TunName,
    TunIp,
    TunCidr,
    Rules,
}

/// Why a document was refused, with the offending key.
#[derive(Debug)]
pub enum ConfigError {
    /// A required key is absent.
    Missing(Field),
    /// The value is not in the shape the key asks for; holds the raw text.
    Format(Field, String),
    /// The value has the right shape but does not parse; holds the raw text.
    Parse(Field, String),
}

/// The remote proxy server.
#[derive(Clone, Debug)]
pub struct ServerConfig {
    pub addr: ServerAddr,
    pub password: String,
    pub method: CipherKind,
    pub timeout_secs: Option<u64>,
}

/// A fully validated configuration; none exists with an invalid field.
#[derive(Clone, Debug)]
pub struct Config {
    pub server_config: Arc<ServerConfig>,
    pub dns_start_ip: Ipv4,
    pub dns_server: SocketAddress,
    pub tun_name: String,
    pub tun_ip: Ipv4,
    pub tun_cidr: Cidr,
    /// Routing rule descriptions, verbatim and in document order. They are not
    /// checked here: their grammar belongs to the rule matcher, which parses
    /// and validates them.
    pub rules: Vec<String>,
}

/// The key under which each field stands in the document.
pub open spec fn field_key(f: Field) -> Seq<char> {
    match f {
        Field::ServerConfig => "server_config"@,
        Field::Addr => "addr"@,
        Field::Password => "password"@,
        Field::Method => "method"@,
        Field::DnsStartIp => "dns_start_ip"@,
        Field::DnsServer => "dns_server"@,
        Field::TunName => "tun_name"@,
        Field::TunIp => "tun_ip"@,
        Field::TunCidr => "tun_cidr"@,
        Field::Rules => "rules"@,
    }
}

impl Field {
    /// The key under which this field stands in the document.
    pub fn key(&self) -> (r: &'static str)
        ensures
            r@ == field_key(*self),
    {
        match self {
            Field::ServerConfig => "server_config",
            Field::Addr => "addr",
            Field::Password => "password",
            Field::Method => "method",
            Field::DnsStartIp => "dns_start_ip",
            Field::DnsServer => "dns_server",
            Field::TunName => "tun_name",
            Field::TunIp => "tun_ip",
            Field::TunCidr => "tun_cidr",
            Field::Rules => "rules",
        }
    }
}

/// The first required key, in document order, that is absent.
pub open spec fn first_missing(raw: RawConfig) -> Option<Field> {
    match raw.server_config {
        None => Some(Field::ServerConfig),
        Some(sc) => if sc.addr is None {
            Some(Field::Addr)
        } else if sc.password is None {
            Some(Field::Password)
        } else if sc.method is None {
            Some(Field::Method)
        } else if raw.dns_start_ip is None {
            Some(Field::DnsStartIp)
        } else if raw.dns_server is None {
            Some(Field::DnsServer)
        } else if raw.tun_name is None {
            Some(Field::TunName)
        } else if raw.tun_ip is None {
            Some(Field::TunIp)
        } else if raw.tun_cidr is None {
            Some(Field::TunCidr)
        } else if raw.rules is None {
            Some(Field::Rules)
        } else {
            None
        },
    }
}

/// A server address text is a socket address, or a non-empty host with a port.
pub open spec fn server_addr_valid(s: Seq<char>) -> bool {
    socket_of(s) is Some || (find_char(s, ':') > 0 && port_of(after_char(s, ':')) is Some)
}

/// The error that loading `raw` ends in, if any: the first absent key, else
/// the first value, in document order, that does not parse.
pub open spec fn load_error(raw: RawConfig) -> Option<ConfigError> {
    match first_missing(raw) {
        Some(f) => Some(ConfigError::Missing(f)),
        None => {
            let sc = raw.server_config->0;
            let addr = sc.addr->0;
            let method = sc.method->0;
            let dns_start_ip = raw.dns_start_ip->0;
            let dns_server = raw.dns_server->0;
            let tun_ip = raw.tun_ip->0;
            let tun_cidr = raw.tun_cidr->0;
            if !server_addr_valid(addr@) {
                Some(ConfigError::Parse(Field::Addr, addr))
            } else if cipher_of(method@) is None {
                Some(ConfigError::Parse(Field::Method, method))
            } else if ipv4_of(dns_start_ip@) is None {
                Some(ConfigError::Parse(Field::DnsStartIp, dns_start_ip))
            } else if socket_of(dns_server@) is None {
                Some(ConfigError::Parse(Field::DnsServer, dns_server))
            } else if ipv4_of(tun_ip@) is None {
                Some(ConfigError::Parse(Field::TunIp, tun_ip))
            } else {
                match cidr_of(tun_cidr@) {
                    Ok(_) => None,
                    Err(CidrError::MissingSeparator) | Err(CidrError::ExtraSegment) => Some(
                        ConfigError::Format(Field::TunCidr, tun_cidr),
                    ),
                    Err(_) => Some(ConfigError::Parse(Field::TunCidr, tun_cidr)),
                }
            }
        },
    }
}

/// `cfg` holds what each field of `raw` parses to.
pub open spec fn loaded_from(raw: RawConfig, cfg: Config) -> bool {
    let sc = raw.server_config->0;
    &&& server_addr_denotes(sc.addr->0@, Some(cfg.server_config.addr))
    &&& cfg.server_config.password == sc.password->0
    &&& Some(cfg.server_config.method) == cipher_of(sc.method->0@)
    &&& cfg.server_config.timeout_secs == match sc.timeout {
        Some(t) => Some(t as u64),
        None => None::<u64>,
    }
    &&& Some(cfg.dns_start_ip) == ipv4_of(raw.dns_start_ip->0@)
    &&& Some(cfg.dns_server@) == socket_of(raw.dns_server->0@)
    &&& cfg.tun_name == raw.tun_name->0
    &&& Some(cfg.tun_ip) == ipv4_of(raw.tun_ip->0@)
    &&& Ok::<Cidr, CidrError>(cfg.tun_cidr) == cidr_of(raw.tun_cidr->0@)
    &&& cfg.tun_cidr.wf()
    &&& cfg.rules == raw.rules->0
}

/// What loading `raw` gives: the error of `load_error` where there is one,
/// else a `Config` holding the parsed value of every field.
pub open spec fn load_outcome(raw: RawConfig, r: Result<Config, ConfigError>) -> bool {
    match r {
        Ok(cfg) => load_error(raw) is None && loaded_from(raw, cfg),
        Err(e) => load_error(raw) == Some(e),
    }
}

impl ServerConfig {
    pub fn new(addr: ServerAddr, password: String, method: CipherKind, timeout_secs: Option<u64>) -> (r: ServerConfig)
        ensures
            r.addr == addr,
            r.password == password,
            r.method == method,
            r.timeout_secs == timeout_secs,
    {
        ServerConfig { addr, password, method, timeout_secs }
    }
}

impl Config {
    /// Validates a decoded document field by field; the first failure ends the
    /// load and no partial `Config` is returned. Rule strings are passed on
    /// unchecked: validating them is left to the rule matcher.
    pub fn from_raw(raw: RawConfig) -> (r: Result<Config, ConfigError>)
        ensures
            load_outcome(raw, r),
    {
        let ghost raw0 = raw;
        let RawConfig { server_config, dns_start_ip, dns_server, tun_name, tun_ip, tun_cidr, rules } =
            raw;
        let sc = match server_config {
            Some(sc) => sc,
            None => return Err(ConfigError::Missing(Field::ServerConfig)),
        };
        let RawServerConfig { addr, password, method, timeout } = sc;
        let addr = match addr {
            Some(v) => v,
            None => return Err(ConfigError::Missing(Field::Addr)),
        };
        let password = match password {
            Some(v) => v,
            None => return Err(ConfigError::Missing(Field::Password)),
        };
        let method = match method {
            Some(v) => v,
            None => return Err(ConfigError::Missing(Field::Method)),
        };
        let dns_start_ip = match dns_start_ip {
            Some(v) => v,
            None => return Err(ConfigError::Missing(Field::DnsStartIp)),
        };
        let dns_server = match dns_server {
            Some(v) => v,
            None => return Err(ConfigError::Missing(Field::DnsServer)),
        };
        let tun_name = match tun_name {
            Some(v) => v,
            None => return Err(ConfigError::Missing(Field::TunName)),
        };
        let tun_ip = match tun_ip {
            Some(v) => v,
            None => return Err(ConfigError::Missing(Field::TunIp)),
        };
        let tun_cidr = match tun_cidr {
            Some(v) => v,
            None => return Err(ConfigError::Missing(Field::TunCidr)),
        };
        let rules = match rules {
            Some(v) => v,
            None => return Err(ConfigError::Missing(Field::Rules)),
        };
        let server_addr = match parse_server_addr(addr.as_str()) {
            Some(a) => a,
            None => return Err(ConfigError::Parse(Field::Addr, addr)),
        };
        let cipher = match CipherKind::from_name(method.as_str()) {
            Some(k) => k,
            None => return Err(ConfigError::Parse(Field::Method, method)),
        };
        let dns_start = match parse_ipv4(dns_start_ip.as_str()) {
            Some(a) => a,
            None => return Err(ConfigError::Parse(Field::DnsStartIp, dns_start_ip)),
        };
        let dns = match parse_socket_addr(dns_server.as_str()) {
            Some(a) => a,
            None => return Err(ConfigError::Parse(Field::DnsServer, dns_server)),
        };
        let ip = match parse_ipv4(tun_ip.as_str()) {
            Some(a) => a,
            None => return Err(ConfigError::Parse(Field::TunIp, tun_ip)),
        };
        let cidr = match parse_cidr(tun_cidr.as_str()) {
            Ok(c) => c,
            Err(CidrError::MissingSeparator) | Err(CidrError::ExtraSegment) => return Err(
                ConfigError::Format(Field::TunCidr, tun_cidr),
            ),
            Err(_) => return Err(ConfigError::Parse(Field::TunCidr, tun_cidr)),
        };
        let timeout_secs = match timeout {
            Some(t) => Some(t as u64),
            None => None,
        };
        let server_config = ServerConfig::new(server_addr, password, cipher, timeout_secs);
        Ok(
            Config {
                server_config: Arc::new(server_config),
                dns_start_ip: dns_start,
                dns_server: dns,
                tun_name,
                tun_ip: ip,
                tun_cidr: cidr,
                rules,
            },
        )
    }
}


/// Every required key present and every value valid.
pub open spec fn document_valid(raw: RawConfig) -> bool {
    &&& first_missing(raw) is None
    &&& server_addr_valid(raw.server_config->0.addr->0@)
    &&& cipher_of(raw.server_config->0.method->0@) is Some
    &&& ipv4_of(raw.dns_start_ip->0@) is Some
    &&& socket_of(raw.dns_server->0@) is Some
    &&& ipv4_of(raw.tun_ip->0@) is Some
    &&& cidr_of(raw.tun_cidr->0@) is Ok
}

/// Some required key is absent.
pub open spec fn document_lacks_key(raw: RawConfig) -> bool {
    ||| raw.server_config is None
    ||| raw.server_config->0.addr is None
    ||| raw.server_config->0.password is None
    ||| raw.server_config->0.method is None
    ||| raw.dns_start_ip is None
    ||| raw.dns_server is None
    ||| raw.tun_name is None
    ||| raw.tun_ip is None
    ||| raw.tun_cidr is None
    ||| raw.rules is None
}

/// A document whose every required field is valid loads, and each field of
/// the result equals what its text parses to.
pub proof fn lemma_valid_document_loads(raw: RawConfig, r: Result<Config, ConfigError>)
    requires
        document_valid(raw),
        load_outcome(raw, r),
    ensures
        r is Ok,
        Some(r->Ok_0.dns_start_ip) == ipv4_of(raw.dns_start_ip->0@),
        Some(r->Ok_0.dns_server@) == socket_of(raw.dns_server->0@),
        Some(r->Ok_0.tun_ip) == ipv4_of(raw.tun_ip->0@),
        Ok::<Cidr, CidrError>(r->Ok_0.tun_cidr) == cidr_of(raw.tun_cidr->0@),
        Some(r->Ok_0.server_config.method) == cipher_of(raw.server_config->0.method->0@),
        r->Ok_0.tun_name == raw.tun_name->0,
        r->Ok_0.rules == raw.rules->0,
{
}

/// A document that lacks a required key does not load: the error names the
/// first such key and no `Config` comes out.
pub proof fn lemma_missing_key_fails(raw: RawConfig, r: Result<Config, ConfigError>)
    requires
        document_lacks_key(raw),
        load_outcome(raw, r),
    ensures
        r matches Err(ConfigError::Missing(f)) && first_missing(raw) == Some(f),
{
}

/// An unknown encryption method fails the load with an error on the `method`
/// key, where the server address before it is valid.
pub proof fn lemma_unknown_method_fails(raw: RawConfig, r: Result<Config, ConfigError>)
    requires
        first_missing(raw) is None,
        server_addr_valid(raw.server_config->0.addr->0@),
        cipher_of(raw.server_config->0.method->0@) is None,
        load_outcome(raw, r),
    ensures
        r matches Err(ConfigError::Parse(f, text)) && f == Field::Method && text
            == raw.server_config->0.method->0,
{
}

} // verus!
