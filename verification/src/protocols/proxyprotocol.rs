//! The PROXY protocol header, in its text form (version 1) and in its
//! binary form (version 2).

pub mod shared;
pub mod v1;

use crate::address::{
    parse_ipv4,
    parse_ipv4_spec,
    parse_ipv6,
    parse_ipv6_spec,
    parse_u16,
    parse_u16_spec,
    split_fields,
    split_on,
    IpAddress,
    SocketAddress,
};
use vstd::prelude::*;

verus! {

#[derive(Debug, Clone, Copy, PartialEq, Eq, Structural)]
pub enum ProxyProtocolVersion {
    /// Version 1
    V1,
    /// Version 2
    V2,
}

#[derive(Debug, Clone, Copy, PartialEq, Eq, Structural)]
pub enum ProxyProtocol {
    V1(ProxyProtocolV1),
    V1Heartbeat,
    V2(ProxyProtocolV2),
}

#[derive(Debug, Clone, Copy, PartialEq, Eq, Structural)]
pub enum SocketType {
    TCP,
    UDP,
    Unix,
}

#[derive(Debug, Clone, Copy, PartialEq, Eq, Structural)]
pub enum AddrType {
    V4,
    V6,
}

#[derive(Debug, Clone, Copy, PartialEq, Eq, Structural)]
pub struct ProxyProtocolV1 {
    pub socket_type: SocketType,
    pub src_addr: SocketAddress,
    pub dst_addr: SocketAddress,
}

impl ProxyProtocolV1 {
    pub fn socket_type(&self) -> (r: SocketType)
        ensures
            r == self.socket_type,
    {
        self.socket_type
    }

    pub fn src_addr(&self) -> (r: SocketAddress)
        ensures
            r == self.src_addr,
    {
        self.src_addr
    }

    pub fn dst_addr(&self) -> (r: SocketAddress)
        ensures
            r == self.dst_addr,
    {
        self.dst_addr
    }
}

#[derive(Debug, Clone, Copy, PartialEq, Eq, Structural)]
pub enum ProxyProtocolV2Type {
    Unknown,
    IPv4,
    IPv6,
    UnixStream,
}

impl ProxyProtocolV2Type {
    /// The protocol that a code stands for: 0x10 is IPv4, 0x20 is IPv6, 0x30
    /// is a Unix stream, and every other code is unknown.
    pub open spec fn of_code(value: u8) -> ProxyProtocolV2Type {
        if value == 0x10 {
            ProxyProtocolV2Type::IPv4
        } else if value == 0x20 {
            ProxyProtocolV2Type::IPv6
        } else if value == 0x30 {
            ProxyProtocolV2Type::UnixStream
        } else {
            ProxyProtocolV2Type::Unknown
        }
    }
}

impl From<u8> for ProxyProtocolV2Type {
    fn from(value: u8) -> (r: ProxyProtocolV2Type) {
        if value == 0x10 {
            ProxyProtocolV2Type::IPv4
        } else if value == 0x20 {
            ProxyProtocolV2Type::IPv6
        } else if value == 0x30 {
            ProxyProtocolV2Type::UnixStream
        } else {
            ProxyProtocolV2Type::Unknown
        }
    }
}

impl vstd::std_specs::convert::FromSpecImpl<u8> for ProxyProtocolV2Type {
    open spec fn obeys_from_spec() -> bool {
        true
    }

    open spec fn from_spec(value: u8) -> ProxyProtocolV2Type {
        ProxyProtocolV2Type::of_code(value)
    }
}

#[derive(Debug, Clone, Copy, PartialEq, Eq, Structural)]
pub struct ProxyProtocolV2 {
    pub socket_type: SocketType,
    pub protocol: ProxyProtocolV2Type,
    pub src_addr: Option<SocketAddress>,
    pub dst_addr: Option<SocketAddress>,
}

impl ProxyProtocolV2 {
    pub fn socket_type(&self) -> (r: SocketType)
        ensures
            r == self.socket_type,
    {
        self.socket_type
    }

    pub fn protocol(&self) -> (r: ProxyProtocolV2Type)
        ensures
            r == self.protocol,
    {
        self.protocol
    }

    pub fn src_addr(&self) -> (r: Option<SocketAddress>)
        ensures
            r == self.src_addr,
    {
        self.src_addr
    }

    pub fn dst_addr(&self) -> (r: Option<SocketAddress>)
        ensures
            r == self.dst_addr,
    {
        self.dst_addr
    }
}

/// Why a buffer that announces a PROXY header could not be read.
/// `WantMoreData` gives the number of bytes by which a binary header is
/// short.
#[derive(Debug, Clone, Copy, PartialEq, Eq, Structural)]
pub enum ProxyProtocolError {
    InvalidVersion,
    InvalidFormat,
    InvaildIp,
    InvaildPort,
    WantMoreData(usize),
}

/// Bytes to read before the sniffer can tell the two versions apart.
pub const PRROXY_PROTOCOL_READ_BUF_SIZE: usize = 12;

/// "PROXY ", which begins a header of version 1.
pub open spec fn v1_begin() -> Seq<u8> {
    seq![0x50u8, 0x52, 0x4f, 0x58, 0x59, 0x20]
}

/// The line end that closes a header of version 1.
pub open spec fn v1_end() -> Seq<u8> {
    seq![0x0du8, 0x0a]
}

/// "UNKNOWN", the body of a heartbeat.
pub open spec fn v1_unknown() -> Seq<u8> {
    seq![0x55u8, 0x4e, 0x4b, 0x4e, 0x4f, 0x57, 0x4e]
}

/// The twelve bytes that begin a header of version 2.
pub open spec fn v2_begin() -> Seq<u8> {
    seq![0x0du8, 0x0a, 0x0d, 0x0a, 0x00, 0x0d, 0x0a, 0x51, 0x55, 0x49, 0x54, 0x0a]
}

pub open spec fn starts_with(buf: Seq<u8>, prefix: Seq<u8>) -> bool {
    prefix.len() <= buf.len() && buf.take(prefix.len() as int) == prefix
}

pub open spec fn ends_with(buf: Seq<u8>, suffix: Seq<u8>) -> bool {
    suffix.len() <= buf.len() && buf.skip(buf.len() - suffix.len()) == suffix
}

/// The version that a buffer announces: version 1 where it begins with
/// "PROXY " and ends with a line end, version 2 where it begins with the
/// binary signature.
pub open spec fn version_of(buf: Seq<u8>) -> Option<ProxyProtocolVersion> {
    if starts_with(buf, v1_begin()) && ends_with(buf, v1_end()) {
        Some(ProxyProtocolVersion::V1)
    } else if starts_with(buf, v2_begin()) {
        Some(ProxyProtocolVersion::V2)
    } else {
        None
    }
}

/// Whether the buffer begins with "PROXY ".
pub fn has_v1_begin(buf: &[u8]) -> (r: bool)
    ensures
        r == starts_with(buf@, v1_begin()),
{
    let r = buf.len() >= 6 && buf[0] == 0x50 && buf[1] == 0x52 && buf[2] == 0x4f && buf[3] == 0x58
        && buf[4] == 0x59 && buf[5] == 0x20;
    proof {
        if r {
            assert(buf@.take(6) =~= v1_begin());
        } else if buf@.len() >= 6 {
            let t = buf@.take(6);
            assert(t[0] == buf@[0] && t[1] == buf@[1] && t[2] == buf@[2] && t[3] == buf@[3] && t[4]
                == buf@[4] && t[5] == buf@[5]);
        }
    }
    r
}

/// Whether the buffer ends with a line end.
pub fn has_v1_end(buf: &[u8]) -> (r: bool)
    ensures
        r == ends_with(buf@, v1_end()),
{
    let len: usize = buf.len();
    let r = len >= 2 && buf[len - 2] == 0x0d && buf[len - 1] == 0x0a;
    proof {
        if r {
            assert(buf@.skip(len - 2) =~= v1_end());
        } else if len >= 2 {
            let t = buf@.skip(len - 2);
            assert(t[0] == buf@[len - 2] && t[1] == buf@[len - 1]);
        }
    }
    r
}

/// Whether the buffer begins with the signature of version 2.
pub fn has_v2_begin(buf: &[u8]) -> (r: bool)
    ensures
        r == starts_with(buf@, v2_begin()),
{
    let r = buf.len() >= 12 && buf[0] == 0x0d && buf[1] == 0x0a && buf[2] == 0x0d && buf[3] == 0x0a
        && buf[4] == 0x00 && buf[5] == 0x0d && buf[6] == 0x0a && buf[7] == 0x51 && buf[8] == 0x55
        && buf[9] == 0x49 && buf[10] == 0x54 && buf[11] == 0x0a;
    proof {
        if r {
            assert(buf@.take(12) =~= v2_begin());
        } else if buf@.len() >= 12 {
            let t = buf@.take(12);
            assert(t[0] == buf@[0] && t[1] == buf@[1] && t[2] == buf@[2] && t[3] == buf@[3] && t[4]
                == buf@[4] && t[5] == buf@[5] && t[6] == buf@[6] && t[7] == buf@[7] && t[8]
                == buf@[8] && t[9] == buf@[9] && t[10] == buf@[10] && t[11] == buf@[11]);
        }
    }
    r
}

/// Tells which version of the PROXY protocol a buffer announces, if any.
pub fn parse_proxy_protocol_version(buf: &[u8]) -> (r: Option<ProxyProtocolVersion>)
    ensures
        r == version_of(buf@),
{
    if has_v1_begin(buf) && has_v1_end(buf) {
        return Some(ProxyProtocolVersion::V1);
    }
    if has_v2_begin(buf) {
        return Some(ProxyProtocolVersion::V2);
    }
    None
}

/// `core::str::from_utf8`, asked only whether it succeeds: it does exactly
/// on the byte sequences that are valid UTF-8.
#[verifier::external_body]
fn is_valid_utf8(bytes: &[u8]) -> (r: bool)
    ensures
        r == vstd::utf8::valid_utf8(bytes@),
{
    core::str::from_utf8(bytes).is_ok()
}

/// The socket type and the address family that the first field of a
/// version 1 header names: TCP4, TCP6, UDP4 or UDP6.
pub open spec fn v1_family(tag: Seq<u8>) -> Option<(SocketType, AddrType)> {
    if tag == seq![0x54u8, 0x43, 0x50, 0x34] {
        Some((SocketType::TCP, AddrType::V4))
    } else if tag == seq![0x54u8, 0x43, 0x50, 0x36] {
        Some((SocketType::TCP, AddrType::V6))
    } else if tag == seq![0x55u8, 0x44, 0x50, 0x34] {
        Some((SocketType::UDP, AddrType::V4))
    } else if tag == seq![0x55u8, 0x44, 0x50, 0x36] {
        Some((SocketType::UDP, AddrType::V6))
    } else {
        None
    }
}

fn read_v1_family(tag: &[u8]) -> (r: Option<(SocketType, AddrType)>)
    ensures
        r == v1_family(tag@),
{
    if tag.len() != 4 {
        return None;
    }
    let socket_type = if tag[0] == 0x54 && tag[1] == 0x43 && tag[2] == 0x50 {
        SocketType::TCP
    } else if tag[0] == 0x55 && tag[1] == 0x44 && tag[2] == 0x50 {
        SocketType::UDP
    } else {
        assert(tag@ != seq![0x54u8, 0x43, 0x50, 0x34] && tag@ != seq![0x54u8, 0x43, 0x50, 0x36]
            && tag@ != seq![0x55u8, 0x44, 0x50, 0x34] && tag@ != seq![0x55u8, 0x44, 0x50, 0x36]) by {
            if tag@ == seq![0x54u8, 0x43, 0x50, 0x34] || tag@ == seq![0x54u8, 0x43, 0x50, 0x36] {
                assert(tag@[0] == 0x54 && tag@[1] == 0x43 && tag@[2] == 0x50);
            }
            if tag@ == seq![0x55u8, 0x44, 0x50, 0x34] || tag@ == seq![0x55u8, 0x44, 0x50, 0x36] {
                assert(tag@[0] == 0x55 && tag@[1] == 0x44 && tag@[2] == 0x50);
            }
        }
        return None;
    };
    let addr_type = if tag[3] == 0x34 {
        AddrType::V4
    } else if tag[3] == 0x36 {
        AddrType::V6
    } else {
        assert(v1_family(tag@) is None) by {
            if v1_family(tag@) is Some {
                assert(tag@[3] == 0x34 || tag@[3] == 0x36);
            }
        }
        return None;
    };
    proof {
        let last: u8 = if addr_type == AddrType::V4 { 0x34 } else { 0x36 };
        let first: u8 = if socket_type == SocketType::TCP { 0x54 } else { 0x55 };
        let second: u8 = if socket_type == SocketType::TCP { 0x43 } else { 0x44 };
        assert(tag@ =~= seq![first, second, 0x50u8, last]);
    }
    Some((socket_type, addr_type))
}

/// The socket address that the text of an address and the text of a port
/// write. Text that is not UTF-8 counts as a bad address; then the port is
/// read, then the address in the family asked for.
pub open spec fn ip_port_of_text(ip: Seq<u8>, port: Seq<u8>, addr_type: AddrType) -> Result<
    SocketAddress,
    ProxyProtocolError,
> {
    if !vstd::utf8::valid_utf8(ip) || !vstd::utf8::valid_utf8(port) {
        Err(ProxyProtocolError::InvaildIp)
    } else {
        match parse_u16_spec(port) {
            None => Err(ProxyProtocolError::InvaildPort),
            Some(number) => {
                let parsed = match addr_type {
                    AddrType::V4 => parse_ipv4_spec(ip),
                    AddrType::V6 => parse_ipv6_spec(ip),
                };
                match parsed {
                    None => Err(ProxyProtocolError::InvaildIp),
                    Some(address) => Ok(SocketAddress { ip: address, port: number }),
                }
            },
        }
    }
}

fn parse_ip_port(ip: &[u8], port: &[u8], addr_type: AddrType) -> (r: Result<
    SocketAddress,
    ProxyProtocolError,
>)
    ensures
        r == ip_port_of_text(ip@, port@, addr_type),
{
    if !is_valid_utf8(ip) {
        return Err(ProxyProtocolError::InvaildIp);
    }
    if !is_valid_utf8(port) {
        return Err(ProxyProtocolError::InvaildIp);
    }
    let number = match parse_u16(port) {
        Some(n) => n,
        None => {
            return Err(ProxyProtocolError::InvaildPort);
        },
    };
    let parsed = match addr_type {
        AddrType::V4 => parse_ipv4(ip),
        AddrType::V6 => parse_ipv6(ip),
    };
    match parsed {
        Some(address) => Ok(SocketAddress { ip: address, port: number }),
        None => Err(ProxyProtocolError::InvaildIp),
    }
}

/// What the body of a version 1 header says, the body being the text
/// between "PROXY " and the line end. `Ok(None)` is the heartbeat, whose
/// body is "UNKNOWN". Any other body holds five fields with single spaces
/// between them: the family, the two addresses, the two ports.
pub open spec fn v1_of(body: Seq<u8>) -> Result<Option<ProxyProtocolV1>, ProxyProtocolError> {
    let fields = split_fields(body, 0x20);
    if body == v1_unknown() {
        Ok(None)
    } else if fields.len() != 5 {
        Err(ProxyProtocolError::InvalidFormat)
    } else {
        match v1_family(fields[0]) {
            None => Err(ProxyProtocolError::InvalidFormat),
            Some((socket_type, addr_type)) => match ip_port_of_text(
                fields[1],
                fields[3],
                addr_type,
            ) {
                Err(e) => Err(e),
                Ok(src_addr) => match ip_port_of_text(fields[2], fields[4], addr_type) {
                    Err(e) => Err(e),
                    Ok(dst_addr) => Ok(Some(ProxyProtocolV1 { socket_type, src_addr, dst_addr })),
                },
            },
        }
    }
}

fn is_v1_unknown(body: &[u8]) -> (r: bool)
    ensures
        r == (body@ == v1_unknown()),
{
    let r = body.len() == 7 && body[0] == 0x55 && body[1] == 0x4e && body[2] == 0x4b && body[3]
        == 0x4e && body[4] == 0x4f && body[5] == 0x57 && body[6] == 0x4e;
    proof {
        if r {
            assert(body@ =~= v1_unknown());
        }
    }
    r
}

fn parse_proxy_protocol_v1(body: &[u8]) -> (r: Result<Option<ProxyProtocolV1>, ProxyProtocolError>)
    ensures
        r == v1_of(body@),
{
    if is_v1_unknown(body) {
        return Ok(None);
    }
    let data = split_on(body, 0x20);
    if data.len() != 5 {
        return Err(ProxyProtocolError::InvalidFormat);
    }
    let (socket_type, addr_type) = match read_v1_family(data[0]) {
        Some(pair) => pair,
        None => {
            return Err(ProxyProtocolError::InvalidFormat);
        },
    };
    let src_addr = match parse_ip_port(data[1], data[3], addr_type) {
        Ok(addr) => addr,
        Err(e) => {
            return Err(e);
        },
    };
    let dst_addr = match parse_ip_port(data[2], data[4], addr_type) {
        Ok(addr) => addr,
        Err(e) => {
            return Err(e);
        },
    };
    Ok(Some(ProxyProtocolV1 { socket_type, src_addr, dst_addr }))
}

/// The address family that the high half of the second byte names: 1 is
/// IPv4 and 4 is IPv6.
pub open spec fn v2_family(code: int) -> Option<AddrType> {
    if code == 1 {
        Some(AddrType::V4)
    } else if code == 4 {
        Some(AddrType::V6)
    } else {
        None
    }
}

/// Bytes of one address in a family.
pub open spec fn address_length(addr_type: AddrType) -> int {
    match addr_type {
        AddrType::V4 => 4,
        AddrType::V6 => 16,
    }
}

/// The socket type that the low half of the second byte names: 0 is a
/// stream and 1 is a datagram.
pub open spec fn v2_socket_type(code: int) -> Option<SocketType> {
    if code == 0 {
        Some(SocketType::TCP)
    } else if code == 1 {
        Some(SocketType::UDP)
    } else {
        None
    }
}

/// The length that the third and fourth byte of a version 2 header give:
/// that of the address block, which holds the two addresses and the two
/// ports.
pub open spec fn v2_announced_length(rest: Seq<u8>) -> int {
    rest[2] as int * 256 + rest[3] as int
}

/// Bytes of the address block in a family: two addresses and two ports of
/// two bytes each, which is 12 for IPv4 and 36 for IPv6.
pub open spec fn address_block_length(addr_type: AddrType) -> int {
    2 * address_length(addr_type) + 4
}

/// What a version 2 header says, `rest` being what follows the signature.
///
/// The first byte holds the version, which is 2, and the command: 0 for a
/// connection of the proxy's own, whose addresses are left out of the
/// result, and 1 for a relayed connection. The second byte holds the
/// address family and the socket type. The third and the fourth byte hold
/// the length of the address block, which must be the one of the family.
/// The block follows: the source and the destination address, then the
/// source and the destination port in two bytes each, all high byte first.
/// While the block is incomplete, the bytes that it lacks are wanted.
pub open spec fn v2_of(rest: Seq<u8>) -> Result<ProxyProtocolV2, ProxyProtocolError> {
    if rest.len() < 4 {
        Err(ProxyProtocolError::WantMoreData((4 - rest.len()) as usize))
    } else if rest[0] as int / 16 != 2 {
        Err(ProxyProtocolError::InvalidVersion)
    } else {
        match v2_family(rest[1] as int / 16) {
            None => Err(ProxyProtocolError::InvaildIp),
            Some(addr_type) => {
                let n = address_length(addr_type);
                let announced = v2_announced_length(rest);
                if announced != address_block_length(addr_type) {
                    Err(ProxyProtocolError::InvaildIp)
                } else if rest.len() < 4 + announced {
                    Err(ProxyProtocolError::WantMoreData((4 + announced - rest.len()) as usize))
                } else {
                    match v2_socket_type(rest[1] as int % 16) {
                        None => Err(ProxyProtocolError::InvalidFormat),
                        Some(socket_type) => if rest[0] as int % 16 == 0 {
                            Ok(
                                ProxyProtocolV2 {
                                    socket_type,
                                    protocol: v2_protocol(addr_type),
                                    src_addr: None,
                                    dst_addr: None,
                                },
                            )
                        } else if rest[0] as int % 16 == 1 {
                            Ok(
                                ProxyProtocolV2 {
                                    socket_type,
                                    protocol: v2_protocol(addr_type),
                                    src_addr: Some(v2_address(rest, 4, 4 + 2 * n, n)),
                                    dst_addr: Some(v2_address(rest, 4 + n, 6 + 2 * n, n)),
                                },
                            )
                        } else {
                            Err(ProxyProtocolError::InvalidFormat)
                        },
                    }
                }
            },
        }
    }
}

pub open spec fn v2_protocol(addr_type: AddrType) -> ProxyProtocolV2Type {
    match addr_type {
        AddrType::V4 => ProxyProtocolV2Type::IPv4,
        AddrType::V6 => ProxyProtocolV2Type::IPv6,
    }
}

/// The socket address whose `n` address bytes stand at `at` and whose two
/// port bytes stand at `port_at`.
pub open spec fn v2_address(rest: Seq<u8>, at: int, port_at: int, n: int) -> SocketAddress {
    SocketAddress {
        ip: shared::ip_of_bytes(rest.subrange(at, at + n))->0,
        port: shared::pair_at(rest, port_at),
    }
}

fn read_v2_address(rest: &[u8], at: usize, port_at: usize, n: usize) -> (r: SocketAddress)
    requires
        n == 4 || n == 16,
        at + n <= rest@.len(),
        port_at + 2 <= rest@.len(),
    ensures
        r == v2_address(rest@, at as int, port_at as int, n as int),
{
    let total: usize = rest.len();
    let ip_bytes = vstd::slice::slice_subrange(rest, at, at + n);
    let port_bytes = vstd::slice::slice_subrange(rest, port_at, port_at + 2);
    assert(shared::pair_at(port_bytes@, 0) == shared::pair_at(rest@, port_at as int));
    match shared::parse_sock_addr(ip_bytes, port_bytes) {
        Ok(addr) => addr,
        Err(_) => {
            assert(false);
            SocketAddress { ip: IpAddress::V4(0, 0, 0, 0), port: 0 }
        },
    }
}

fn parse_proxy_protocol_v2(rest: &[u8]) -> (r: Result<ProxyProtocolV2, ProxyProtocolError>)
    ensures
        r == v2_of(rest@),
{
    let len: usize = rest.len();
    if len < 4 {
        return Err(ProxyProtocolError::WantMoreData(4 - len));
    }
    let version: u8 = rest[0] / 16;
    let command: u8 = rest[0] % 16;
    let family: u8 = rest[1] / 16;
    let socket_code: u8 = rest[1] % 16;
    let announced: usize = (rest[2] as usize) * 256 + (rest[3] as usize);
    if version != 2 {
        return Err(ProxyProtocolError::InvalidVersion);
    }
    let (addr_type, n): (AddrType, usize) = if family == 1 {
        (AddrType::V4, 4)
    } else if family == 4 {
        (AddrType::V6, 16)
    } else {
        return Err(ProxyProtocolError::InvaildIp);
    };
    if announced != 2 * n + 4 {
        return Err(ProxyProtocolError::InvaildIp);
    }
    if len < 4 + announced {
        return Err(ProxyProtocolError::WantMoreData(4 + announced - len));
    }
    let socket_type = if socket_code == 0 {
        SocketType::TCP
    } else if socket_code == 1 {
        SocketType::UDP
    } else {
        return Err(ProxyProtocolError::InvalidFormat);
    };
    let protocol = match addr_type {
        AddrType::V4 => ProxyProtocolV2Type::IPv4,
        AddrType::V6 => ProxyProtocolV2Type::IPv6,
    };
    if command == 0 {
        Ok(ProxyProtocolV2 { socket_type, protocol, src_addr: None, dst_addr: None })
    } else if command == 1 {
        let src_addr = read_v2_address(rest, 4, 4 + 2 * n, n);
        let dst_addr = read_v2_address(rest, 4 + n, 6 + 2 * n, n);
        Ok(ProxyProtocolV2 { socket_type, protocol, src_addr: Some(src_addr), dst_addr: Some(dst_addr) })
    } else {
        Err(ProxyProtocolError::InvalidFormat)
    }
}

/// What a buffer that starts a connection says of a PROXY header:
/// `Ok(None)` where it announces none; else the header, or the reason why
/// it cannot be read. The body of a version 1 header lies between "PROXY "
/// and the line end; a version 2 header follows its signature.
pub open spec fn proxy_protocol_of(buf: Seq<u8>) -> Result<Option<ProxyProtocol>, ProxyProtocolError> {
    match version_of(buf) {
        Some(ProxyProtocolVersion::V1) => match v1_of(buf.subrange(6, buf.len() - 2)) {
            Err(e) => Err(e),
            Ok(None) => Ok(Some(ProxyProtocol::V1Heartbeat)),
            Ok(Some(header)) => Ok(Some(ProxyProtocol::V1(header))),
        },
        Some(ProxyProtocolVersion::V2) => match v2_of(buf.skip(12)) {
            Err(e) => Err(e),
            Ok(header) => Ok(Some(ProxyProtocol::V2(header))),
        },
        None => Ok(None),
    }
}

/// Reads the PROXY header that a buffer holds, if it announces one.
pub fn parse_proxy_protocol(buf: &[u8]) -> (r: Result<Option<ProxyProtocol>, ProxyProtocolError>)
    ensures
        r == proxy_protocol_of(buf@),
{
    let len: usize = buf.len();
    match parse_proxy_protocol_version(buf) {
        Some(ProxyProtocolVersion::V1) => {
            assert(len >= 8) by {
                let head = buf@.take(6);
                let end = buf@.skip(len - 2);
                assert(head[5] == buf@[5]);
                if len == 6 {
                    assert(end[1] == buf@[5]);
                }
                if len == 7 {
                    assert(end[0] == buf@[5]);
                }
            }
            match parse_proxy_protocol_v1(vstd::slice::slice_subrange(buf, 6, len - 2)) {
                Err(e) => Err(e),
                Ok(None) => Ok(Some(ProxyProtocol::V1Heartbeat)),
                Ok(Some(header)) => Ok(Some(ProxyProtocol::V1(header))),
            }
        },
        Some(ProxyProtocolVersion::V2) => {
            let rest = vstd::slice::slice_subrange(buf, 12, len);
            assert(rest@ =~= buf@.skip(12));
            match parse_proxy_protocol_v2(rest) {
                Err(e) => Err(e),
                Ok(header) => Ok(Some(ProxyProtocol::V2(header))),
            }
        },
        None => Ok(None),
    }
}

/// In every header of version 2 that is read, the family decides the
/// length of an address: the block of an IPv4 header holds two addresses
/// of four bytes, that of an IPv6 header two of sixteen bytes, and the
/// announced length is that of the block. The addresses that are given are
/// of the family. A header of the right version whose family is neither of
/// the two is refused.
pub proof fn lemma_v2_family(rest: Seq<u8>)
    ensures
        v2_of(rest) matches Ok(header) ==> {
            &&& v2_family(rest[1] as int / 16) matches Some(addr_type)
            &&& header.protocol == v2_protocol(addr_type)
            &&& v2_announced_length(rest) == address_block_length(addr_type)
            &&& rest.len() >= 4 + v2_announced_length(rest)
            &&& header.protocol == ProxyProtocolV2Type::IPv4 <==> address_length(addr_type) == 4
            &&& header.protocol == ProxyProtocolV2Type::IPv6 <==> address_length(addr_type) == 16
            &&& header.src_addr matches Some(addr) ==> (addr.ip is V4 <==> address_length(addr_type)
                == 4)
            &&& header.dst_addr matches Some(addr) ==> (addr.ip is V4 <==> address_length(addr_type)
                == 4)
        },
        rest.len() >= 4 && rest[0] as int / 16 == 2 && v2_family(rest[1] as int / 16) is None
            ==> v2_of(rest) == Err::<ProxyProtocolV2, _>(ProxyProtocolError::InvaildIp),
{
    if v2_of(rest) is Ok {
        let n = address_length(v2_family(rest[1] as int / 16)->0);
        assert(rest.subrange(4, 4 + n).len() == n);
        assert(rest.subrange(4 + n, 4 + n + n).len() == n);
    }
}

} // verus!
