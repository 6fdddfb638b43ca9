//! Textual addresses: IPv4 literals, CIDR blocks, socket addresses and the
//! proxy server's address.

use vstd::prelude::*;
use vstd::string::*;
use crate::text::{
    after_char, all_digits, before_char, decimal_in, decimal_text, decimal_value, find_char,
    find_from, find_gap, find_gap_in, all_hex, hex_value, hex_in, lemma_decimal_text, lemma_digits_hold_no, lemma_find_char_concat, lemma_find_char_none,
};

verus! {

/// An IPv4 address, octets in network order.
#[derive(Clone, Copy, Debug, PartialEq, Eq, Structural)]
pub struct Ipv4 {
    pub a: u8,
    pub b: u8,
    pub c: u8,
    pub d: u8,
}

/// A network prefix: an address and the number of leading bits that name the
/// network.
#[derive(Clone, Copy, Debug, PartialEq, Eq, Structural)]
pub struct Cidr {
    pub address: Ipv4,
    pub prefix_len: u8,
}

impl Cidr {
    /// An IPv4 prefix is at most 32 bits long.
    pub open spec fn wf(&self) -> bool {
        self.prefix_len <= 32
    }
}

/// Why a CIDR text was refused.
#[derive(Clone, Copy, Debug, PartialEq, Eq, Structural)]
pub enum CidrError {
    /// No `/` between address and prefix length.
    MissingSeparator,
    /// A second `/` after the prefix length: more than two segments.
    ExtraSegment,
    /// The part before the `/` is no IPv4 address.
    BadAddress,
    /// The part after the `/` is no prefix length of 0 to 32.
    BadPrefix,
}

/// An IPv6 address: eight 16-bit groups, most significant first.
#[derive(Clone, Debug, PartialEq, Eq)]
pub struct Ipv6 {
    pub groups: Vec<u16>,
}

/// An IP address of either family.
#[derive(Clone, Debug, PartialEq, Eq)]
pub enum IpAddr {
    V4(Ipv4),
    V6(Ipv6),
}

/// An IP address with a port.
#[derive(Clone, Debug, PartialEq, Eq)]
pub struct SocketAddress {
    pub ip: IpAddr,
    pub port: u16,
}

/// An IP address as a value: four octets, or the eight groups of an IPv6 address.
pub enum IpAddrView {
    V4(Ipv4),
    V6(Seq<u16>),
}

/// A socket address as a value.
pub struct SocketView {
    pub ip: IpAddrView,
    pub port: u16,
}

impl View for SocketAddress {
    type V = SocketView;

    open spec fn view(&self) -> SocketView {
        SocketView {
            ip: match self.ip {
                IpAddr::V4(a) => IpAddrView::V4(a),
                IpAddr::V6(a) => IpAddrView::V6(a.groups@),
            },
            port: self.port,
        }
    }
}

/// The proxy server: an IP literal with a port, or a host name with a port.
#[derive(Clone, Debug)]
pub enum ServerAddr {
    SocketAddr(SocketAddress),
    DomainName(String, u16),
}

/// One octet of a dotted-quad: one to three digits, no leading zero, at most 255.
pub open spec fn octet_ok(s: Seq<char>) -> bool {
    &&& 1 <= s.len() <= 3
    &&& all_digits(s)
    &&& (s.len() > 1 ==> s[0] != '0')
    &&& decimal_value(s) <= 255
}

/// The IPv4 address that `s` writes in dotted-quad form, if any.
pub open spec fn ipv4_of(s: Seq<char>) -> Option<Ipv4> {
    let p0 = before_char(s, '.');
    let r0 = after_char(s, '.');
    let p1 = before_char(r0, '.');
    let r1 = after_char(r0, '.');
    let p2 = before_char(r1, '.');
    let p3 = after_char(r1, '.');
    if find_char(s, '.') >= 0 && find_char(r0, '.') >= 0 && find_char(r1, '.') >= 0 && octet_ok(
        p0,
    ) && octet_ok(p1) && octet_ok(p2) && octet_ok(p3) {
        Some(
            Ipv4 {
                a: decimal_value(p0) as u8,
                b: decimal_value(p1) as u8,
                c: decimal_value(p2) as u8,
                d: decimal_value(p3) as u8,
            },
        )
    } else {
        None
    }
}

/// A prefix length: one or more digits (leading zeros allowed), at most 32.
pub open spec fn prefix_of(s: Seq<char>) -> Option<u8> {
    if s.len() >= 1 && all_digits(s) && decimal_value(s) <= 32 {
        Some(decimal_value(s) as u8)
    } else {
        None
    }
}

/// A port: one or more digits (leading zeros allowed), at most 65535.
pub open spec fn port_of(s: Seq<char>) -> Option<u16> {
    if s.len() >= 1 && all_digits(s) && decimal_value(s) <= 65535 {
        Some(decimal_value(s) as u16)
    } else {
        None
    }
}

/// `address/prefix`, split at the first `/`; a text of more than two
/// `/`-separated segments is refused as malformed, whatever they hold.
pub open spec fn cidr_of(s: Seq<char>) -> Result<Cidr, CidrError> {
    if find_char(s, '/') < 0 {
        Err(CidrError::MissingSeparator)
    } else if find_char(after_char(s, '/'), '/') >= 0 {
        Err(CidrError::ExtraSegment)
    } else {
        match ipv4_of(before_char(s, '/')) {
            None => Err(CidrError::BadAddress),
            Some(address) => match prefix_of(after_char(s, '/')) {
                None => Err(CidrError::BadPrefix),
                Some(prefix_len) => Ok(Cidr { address, prefix_len }),
            },
        }
    }
}

/// One group of an IPv6 address: one to four hex digits.
pub open spec fn hex_group(s: Seq<char>) -> Option<u16> {
    if 1 <= s.len() <= 4 && all_hex(s) && hex_value(s) <= 0xffff {
        Some(hex_value(s) as u16)
    } else {
        None
    }
}

/// The last part of a group list: one hex group, or, where at least two
/// groups are left, a dotted-quad IPv4 address standing for two groups.
pub open spec fn last_groups(s: Seq<char>, n: nat) -> Option<Seq<u16>> {
    if find_char(s, '.') >= 0 {
        if n >= 2 {
            match ipv4_of(s) {
                Some(ip) => Some(
                    seq![
                        (ip.a as int * 256 + ip.b as int) as u16,
                        (ip.c as int * 256 + ip.d as int) as u16,
                    ],
                ),
                None => None,
            }
        } else {
            None
        }
    } else {
        match hex_group(s) {
            Some(g) => Some(seq![g]),
            None => None,
        }
    }
}

/// At most `n` groups separated by single `:`.
pub open spec fn groups_of(s: Seq<char>, n: nat) -> Option<Seq<u16>>
    decreases n,
{
    if n == 0 {
        None
    } else if find_char(s, ':') < 0 {
        last_groups(s, n)
    } else {
        match (hex_group(before_char(s, ':')), groups_of(after_char(s, ':'), (n - 1) as nat)) {
            (Some(g), Some(r)) => Some(seq![g] + r),
            _ => None,
        }
    }
}

/// The eight groups of an IPv6 address text: eight groups, or groups before
/// and after one `::` that stands for at least one zero group. An IPv4
/// address may stand for the last two groups, but not just before `::`.
pub open spec fn ipv6_of(s: Seq<char>) -> Option<Seq<u16>> {
    let k = find_gap(s);
    if k < 0 {
        match groups_of(s, 8) {
            Some(g) => if g.len() == 8 {
                Some(g)
            } else {
                None
            },
            None => None,
        }
    } else {
        let head = s.take(k);
        let tail = s.skip(k + 2);
        let h = if head.len() == 0 {
            Some(Seq::<u16>::empty())
        } else if find_char(head, '.') >= 0 {
            None
        } else {
            groups_of(head, 7)
        };
        let t = if tail.len() == 0 {
            Some(Seq::<u16>::empty())
        } else {
            groups_of(tail, 7)
        };
        match (h, t) {
            (Some(h), Some(t)) => if h.len() + t.len() <= 7 {
                Some(h + Seq::new((8 - h.len() - t.len()) as nat, |i: int| 0u16) + t)
            } else {
                None
            },
            _ => None,
        }
    }
}

/// A socket address: `address:port` with an IPv4 address, split at the first
/// `:`, or `[address]:port` with an IPv6 address.
pub open spec fn socket_of(s: Seq<char>) -> Option<SocketView> {
    if s.len() > 0 && s[0] == '[' {
        let j = find_char(s, ']');
        if j < 0 {
            None
        } else {
            let rest = s.skip(j + 1);
            if rest.len() >= 1 && rest[0] == ':' {
                match (ipv6_of(s.subrange(1, j)), port_of(rest.skip(1))) {
                    (Some(g), Some(port)) => Some(SocketView { ip: IpAddrView::V6(g), port }),
                    _ => None,
                }
            } else {
                None
            }
        }
    } else if find_char(s, ':') < 0 {
        None
    } else {
        match (ipv4_of(before_char(s, ':')), port_of(after_char(s, ':'))) {
            (Some(ip), Some(port)) => Some(SocketView { ip: IpAddrView::V4(ip), port }),
            _ => None,
        }
    }
}

/// What a server address text denotes: an IP literal with a port where the
/// text is a socket address, else a non-empty host name before the first `:`
/// with a port after it.
pub open spec fn server_addr_denotes(s: Seq<char>, r: Option<ServerAddr>) -> bool {
    match socket_of(s) {
        Some(a) => r matches Some(ServerAddr::SocketAddr(x)) && x@ == a,
        None => if find_char(s, ':') > 0 && port_of(after_char(s, ':')) is Some {
            match r {
                Some(ServerAddr::DomainName(host, port)) => host@ == before_char(s, ':') && port
                    == port_of(after_char(s, ':'))->0,
                _ => false,
            }
        } else {
            r is None
        },
    }
}

/// Dotted-quad text of an address, each octet in canonical decimal.
pub open spec fn ipv4_text(ip: Ipv4) -> Seq<char> {
    decimal_text(ip.a as nat) + seq!['.'] + (decimal_text(ip.b as nat) + seq!['.'] + (
    decimal_text(ip.c as nat) + seq!['.'] + decimal_text(ip.d as nat)))
}

/// `address/prefix` text of a block.
pub open spec fn cidr_text(c: Cidr) -> Seq<char> {
    ipv4_text(c.address) + seq!['/'] + decimal_text(c.prefix_len as nat)
}

/// `octet_ok` of `s[from..to]`, with the octet's value.
fn octet_in(s: &str, len: usize, from: usize, to: usize) -> (r: Option<u8>)
    requires
        len == s@.len(),
        from <= to <= len,
    ensures
        r == (if octet_ok(s@.subrange(from as int, to as int)) {
            Some(decimal_value(s@.subrange(from as int, to as int)) as u8)
        } else {
            None
        }),
{
    if to - from < 1 || to - from > 3 {
        return None;
    }
    if to - from > 1 && s.get_char(from) == '0' {
        assert(s@.subrange(from as int, to as int)[0] == s@[from as int]);
        return None;
    }
    assert(to - from > 1 ==> s@.subrange(from as int, to as int)[0] == s@[from as int]);
    match decimal_in(s, len, from, to, 255) {
        Some(v) => Some(v as u8),
        None => None,
    }
}

/// Reads a dotted-quad IPv4 address: four octets of one to three digits, no
/// leading zeros, each at most 255.
pub fn parse_ipv4(s: &str) -> (r: Option<Ipv4>)
    ensures
        r == ipv4_of(s@),
{
    let len = s.unicode_len();
    let ghost t = s@;
    assert(t.skip(0) =~= t);
    let i0 = match find_from(s, len, 0, '.') {
        Some(i) => i,
        None => return None,
    };
    let ghost r0 = t.skip(i0 + 1);
    assert(before_char(t, '.') =~= t.subrange(0, i0 as int));
    assert(after_char(t, '.') =~= r0);
    let i1 = match find_from(s, len, i0 + 1, '.') {
        Some(i) => i,
        None => return None,
    };
    let ghost r1 = t.skip(i1 + 1);
    assert(before_char(r0, '.') =~= t.subrange(i0 + 1, i1 as int));
    assert(after_char(r0, '.') =~= r1);
    let i2 = match find_from(s, len, i1 + 1, '.') {
        Some(i) => i,
        None => return None,
    };
    assert(before_char(r1, '.') =~= t.subrange(i1 + 1, i2 as int));
    assert(after_char(r1, '.') =~= t.subrange(i2 + 1, len as int));
    let a = match octet_in(s, len, 0, i0) {
        Some(v) => v,
        None => return None,
    };
    let b = match octet_in(s, len, i0 + 1, i1) {
        Some(v) => v,
        None => return None,
    };
    let c = match octet_in(s, len, i1 + 1, i2) {
        Some(v) => v,
        None => return None,
    };
    let d = match octet_in(s, len, i2 + 1, len) {
        Some(v) => v,
        None => return None,
    };
    Some(Ipv4 { a, b, c, d })
}


/// Reads `address/prefix`: an IPv4 address, a `/`, and a prefix length of 0 to
/// 32. A second `/` is refused as `ExtraSegment` (a malformed text), rather
/// than read as part of the prefix or ignored.
pub fn parse_cidr(s: &str) -> (r: Result<Cidr, CidrError>)
    ensures
        r == cidr_of(s@),
        r matches Ok(c) ==> c.wf(),
{
    let len = s.unicode_len();
    let ghost t = s@;
    assert(t.skip(0) =~= t);
    let i = match find_from(s, len, 0, '/') {
        Some(i) => i,
        None => return Err(CidrError::MissingSeparator),
    };
    assert(before_char(t, '/') =~= t.subrange(0, i as int));
    assert(after_char(t, '/') =~= t.subrange(i + 1, len as int));
    assert(t.subrange(i + 1, len as int) =~= t.skip(i + 1));
    if let Some(_) = find_from(s, len, i + 1, '/') {
        return Err(CidrError::ExtraSegment);
    }
    let address = match parse_ipv4(s.substring_char(0, i)) {
        Some(a) => a,
        None => return Err(CidrError::BadAddress),
    };
    match decimal_in(s, len, i + 1, len, 32) {
        Some(p) => Ok(Cidr { address, prefix_len: p as u8 }),
        None => Err(CidrError::BadPrefix),
    }
}

/// Splits `s` at its first `:` into the parts before and after it.
fn split_colon(s: &str) -> (r: Option<(&str, &str)>)
    ensures
        match r {
            Some((h, p)) => find_char(s@, ':') >= 0 && h@ == before_char(s@, ':') && p@
                == after_char(s@, ':'),
            None => find_char(s@, ':') < 0,
        },
{
    let len = s.unicode_len();
    let ghost t = s@;
    assert(t.skip(0) =~= t);
    match find_from(s, len, 0, ':') {
        Some(i) => {
            assert(before_char(t, ':') =~= t.subrange(0, i as int));
            assert(after_char(t, ':') =~= t.subrange(i + 1, len as int));
            Some((s.substring_char(0, i), s.substring_char(i + 1, len)))
        },
        None => None,
    }
}

/// Reads a port: decimal digits, at most 65535.
pub fn parse_port(s: &str) -> (r: Option<u16>)
    ensures
        r == port_of(s@),
{
    let len = s.unicode_len();
    assert(s@.subrange(0, len as int) =~= s@);
    match decimal_in(s, len, 0, len, 65535) {
        Some(v) => Some(v as u16),
        None => None,
    }
}

/// The groups of `s`, at most `n` of them, as `groups_of` reads them.
fn groups_in(s: &str, n: usize) -> (r: Option<Vec<u16>>)
    ensures
        match r {
            Some(v) => groups_of(s@, n as nat) == Some(v@),
            None => groups_of(s@, n as nat) is None,
        },
    decreases n,
{
    if n == 0 {
        return None;
    }
    let len = s.unicode_len();
    assert(s@.skip(0) =~= s@);
    assert(s@.subrange(0, len as int) =~= s@);
    match find_from(s, len, 0, ':') {
        None => {
            if find_from(s, len, 0, '.').is_some() {
                if n < 2 {
                    return None;
                }
                match parse_ipv4(s) {
                    Some(ip) => {
                        let mut v: Vec<u16> = Vec::new();
                        v.push((ip.a as u16) * 256 + ip.b as u16);
                        v.push((ip.c as u16) * 256 + ip.d as u16);
                        assert(v@ =~= last_groups(s@, n as nat)->0);
                        Some(v)
                    },
                    None => None,
                }
            } else {
                match hex_in(s, len, 0, len) {
                    Some(g) => {
                        let mut v: Vec<u16> = Vec::new();
                        v.push(g);
                        assert(v@ =~= seq![g]);
                        Some(v)
                    },
                    None => None,
                }
            }
        },
        Some(i) => {
            assert(before_char(s@, ':') =~= s@.subrange(0, i as int));
            assert(after_char(s@, ':') =~= s@.subrange(i + 1, len as int));
            let g = match hex_in(s, len, 0, i) {
                Some(g) => g,
                None => return None,
            };
            let mut rest = match groups_in(s.substring_char(i + 1, len), n - 1) {
                Some(v) => v,
                None => return None,
            };
            let ghost old_rest = rest@;
            rest.insert(0, g);
            assert(rest@ =~= seq![g] + old_rest);
            Some(rest)
        },
    }
}

/// Reads an IPv6 address: hex groups of one to four digits, with at most one
/// `::` and optionally a dotted-quad IPv4 address for the last two groups.
pub fn parse_ipv6(s: &str) -> (r: Option<Ipv6>)
    ensures
        match r {
            Some(a) => ipv6_of(s@) == Some(a.groups@),
            None => ipv6_of(s@) is None,
        },
{
    let len = s.unicode_len();
    let k = match find_gap_in(s, len) {
        None => {
            return match groups_in(s, 8) {
                Some(v) => if v.len() == 8 {
                    Some(Ipv6 { groups: v })
                } else {
                    None
                },
                None => None,
            };
        },
        Some(k) => k,
    };
    let head = s.substring_char(0, k);
    let tail = s.substring_char(k + 2, len);
    assert(head@ =~= s@.take(k as int));
    assert(tail@ =~= s@.skip(k + 2));
    assert(head@.skip(0) =~= head@);
    let h: Vec<u16> = if k == 0 {
        Vec::new()
    } else if find_from(head, k, 0, '.').is_some() {
        return None;
    } else {
        match groups_in(head, 7) {
            Some(v) => v,
            None => return None,
        }
    };
    let t: Vec<u16> = if k + 2 == len {
        Vec::new()
    } else {
        match groups_in(tail, 7) {
            Some(v) => v,
            None => return None,
        }
    };
    if h.len() > 7 || t.len() > 7 - h.len() {
        return None;
    }
    let zeros: usize = 8 - h.len() - t.len();
    let ghost hv = h@;
    let mut all = h;
    let mut z: usize = 0;
    while z < zeros
        invariant
            z <= zeros,
            all@ == hv + Seq::new(z as nat, |i: int| 0u16),
        decreases zeros - z,
    {
        all.push(0u16);
        assert(all@ =~= hv + Seq::new((z + 1) as nat, |i: int| 0u16));
        z = z + 1;
    }
    let mut t = t;
    let ghost tv = t@;
    all.append(&mut t);
    assert(all@ =~= hv + Seq::new(zeros as nat, |i: int| 0u16) + tv);
    Some(Ipv6 { groups: all })
}

/// Reads a socket address: `a.b.c.d:port`, or `[ipv6]:port`.
pub fn parse_socket_addr(s: &str) -> (r: Option<SocketAddress>)
    ensures
        match r {
            Some(a) => socket_of(s@) == Some(a@),
            None => socket_of(s@) is None,
        },
{
    let len = s.unicode_len();
    if len > 0 && s.get_char(0) == '[' {
        assert(s@.skip(0) =~= s@);
        let j = match find_from(s, len, 0, ']') {
            Some(j) => j,
            None => return None,
        };
        let ghost rest = s@.skip(j + 1);
        if j + 1 >= len || s.get_char(j + 1) != ':' {
            assert(j + 1 < len ==> rest[0] == s@[j + 1]);
            return None;
        }
        assert(rest[0] == s@[j + 1]);
        assert(rest.skip(1) =~= s@.subrange(j + 2, len as int));
        let ip = match parse_ipv6(s.substring_char(1, j)) {
            Some(a) => a,
            None => return None,
        };
        let port = match parse_port(s.substring_char(j + 2, len)) {
            Some(p) => p,
            None => return None,
        };
        return Some(SocketAddress { ip: IpAddr::V6(ip), port });
    }
    match split_colon(s) {
        Some((host, port)) => match (parse_ipv4(host), parse_port(port)) {
            (Some(ip), Some(port)) => Some(SocketAddress { ip: IpAddr::V4(ip), port }),
            _ => None,
        },
        None => None,
    }
}

/// Reads the proxy server's address: a socket address where the text is one,
/// else a host name and a port.
pub fn parse_server_addr(s: &str) -> (r: Option<ServerAddr>)
    ensures
        server_addr_denotes(s@, r),
{
    if let Some(a) = parse_socket_addr(s) {
        return Some(ServerAddr::SocketAddr(a));
    }
    match split_colon(s) {
        Some((host, port)) => {
            proof {
                lemma_find_char_positive(s@, ':');
            }
            if host.unicode_len() == 0 {
                return None;
            }
            match parse_port(port) {
                Some(p) => Some(ServerAddr::DomainName(host.to_owned(), p)),
                None => None,
            }
        },
        None => None,
    }
}

proof fn lemma_find_char_positive(s: Seq<char>, c: char)
    requires
        find_char(s, c) >= 0,
    ensures
        before_char(s, c).len() == find_char(s, c),
{
    lemma_find_char_bound(s, c);
}

proof fn lemma_find_char_bound(s: Seq<char>, c: char)
    ensures
        find_char(s, c) < s.len(),
    decreases s.len(),
{
    if s.len() > 0 && s[0] != c {
        lemma_find_char_bound(s.drop_first(), c);
    }
}

/// Relies on smoltcp's `Display` for `IpAddress`, which writes an IPv4 address
/// through core's `Ipv4Addr` as four decimal octets joined by dots.
#[verifier::external_body]
pub(crate) fn address_text(ip: Ipv4) -> (r: String)
    ensures
        r@ == ipv4_text(ip),
{
    let a = smoltcp::wire::IpAddress::Ipv4(smoltcp::wire::Ipv4Address::new(ip.a, ip.b, ip.c, ip.d));
    a.to_string()
}

/// Relies on smoltcp's `IpCidr::new` (which panics above 32 bits) and its
/// `Display`, which writes the address, a `/` and the prefix length in decimal.
#[verifier::external_body]
pub(crate) fn network_text(c: Cidr) -> (r: String)
    requires
        c.wf(),
    ensures
        r@ == cidr_text(c),
{
    let a = c.address;
    let ip = smoltcp::wire::IpAddress::Ipv4(smoltcp::wire::Ipv4Address::new(a.a, a.b, a.c, a.d));
    smoltcp::wire::IpCidr::new(ip, c.prefix_len).to_string()
}


proof fn lemma_octet_text(n: u8)
    ensures
        octet_ok(decimal_text(n as nat)),
        decimal_value(decimal_text(n as nat)) == n,
        forall|j: int| 0 <= j < decimal_text(n as nat).len() ==> decimal_text(n as nat)[j] != '.',
        forall|j: int| 0 <= j < decimal_text(n as nat).len() ==> decimal_text(n as nat)[j] != '/',
{
    lemma_decimal_text(n as nat);
    lemma_digits_hold_no(decimal_text(n as nat), '.');
    lemma_digits_hold_no(decimal_text(n as nat), '/');
}

proof fn lemma_no_char_concat(x: Seq<char>, y: Seq<char>, c: char)
    requires
        forall|j: int| 0 <= j < x.len() ==> x[j] != c,
        forall|j: int| 0 <= j < y.len() ==> y[j] != c,
    ensures
        forall|j: int| 0 <= j < (x + y).len() ==> (x + y)[j] != c,
{
    assert forall|j: int| 0 <= j < (x + y).len() implies (x + y)[j] != c by {
        if j < x.len() {
            assert((x + y)[j] == x[j]);
        } else {
            assert((x + y)[j] == y[j - x.len()]);
        }
    }
}

/// Dotted-quad text of an address reads back as that address, and holds no `/`.
pub proof fn lemma_ipv4_round_trip(ip: Ipv4)
    ensures
        ipv4_of(ipv4_text(ip)) == Some(ip),
        forall|j: int| 0 <= j < ipv4_text(ip).len() ==> ipv4_text(ip)[j] != '/',
{
    let da = decimal_text(ip.a as nat);
    let db = decimal_text(ip.b as nat);
    let dc = decimal_text(ip.c as nat);
    let dd = decimal_text(ip.d as nat);
    lemma_octet_text(ip.a);
    lemma_octet_text(ip.b);
    lemma_octet_text(ip.c);
    lemma_octet_text(ip.d);
    let r1 = dc + seq!['.'] + dd;
    let r0 = db + seq!['.'] + r1;
    lemma_find_char_concat(da, '.', r0);
    lemma_find_char_concat(db, '.', r1);
    lemma_find_char_concat(dc, '.', dd);
    let dot = seq!['.'];
    assert(forall|j: int| 0 <= j < dot.len() ==> dot[j] != '/');
    lemma_no_char_concat(dc, dot, '/');
    lemma_no_char_concat(dc + dot, dd, '/');
    lemma_no_char_concat(db, dot, '/');
    lemma_no_char_concat(db + dot, r1, '/');
    lemma_no_char_concat(da, dot, '/');
    lemma_no_char_concat(da + dot, r0, '/');
}

/// A well-formed block written as `a.b.c.d/n` reads back as the same block;
/// the same text followed by `/` and anything is refused as malformed; a text
/// without `/` is refused as lacking the separator.
pub proof fn lemma_cidr_round_trip(c: Cidr, s: Seq<char>, rest: Seq<char>)
    requires
        c.wf(),
    ensures
        cidr_of(cidr_text(c)) == Ok::<Cidr, CidrError>(c),
        cidr_of(cidr_text(c) + seq!['/'] + rest) == Err::<Cidr, CidrError>(
            CidrError::ExtraSegment,
        ),
        (forall|j: int| 0 <= j < s.len() ==> s[j] != '/') ==> cidr_of(s) == Err::<
            Cidr,
            CidrError,
        >(CidrError::MissingSeparator),
{
    lemma_ipv4_round_trip(c.address);
    let ip = ipv4_text(c.address);
    let p = decimal_text(c.prefix_len as nat);
    lemma_decimal_text(c.prefix_len as nat);
    lemma_digits_hold_no(p, '/');
    lemma_find_char_none(p, '/');
    lemma_find_char_concat(ip, '/', p);
    let longer = ip + seq!['/'] + (p + seq!['/'] + rest);
    assert(cidr_text(c) + seq!['/'] + rest =~= longer);
    lemma_find_char_concat(ip, '/', p + seq!['/'] + rest);
    lemma_find_char_concat(p, '/', rest);
    if forall|j: int| 0 <= j < s.len() ==> s[j] != '/' {
        lemma_find_char_none(s, '/');
    }
}

} // verus!
