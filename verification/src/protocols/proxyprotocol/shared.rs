//! Addresses in their binary form, as the second version of the PROXY
//! protocol carries them.

use crate::address::{IpAddress, SocketAddress};
use vstd::prelude::*;

verus! {

#[derive(Debug, Clone, Copy, PartialEq, Eq, Structural)]
pub enum ProxyProtocolError {
    InvaildIp,
    InvaildPort,
    WantMoreData,
}

/// The 16-bit number in the two bytes at `i`, high byte first.
pub open spec fn pair_at(buf: Seq<u8>, i: int) -> u16 {
    (buf[i] as int * 256 + buf[i + 1] as int) as u16
}

/// The address that the bytes hold: four bytes are the octets of an IPv4
/// address, sixteen bytes are the eight groups of an IPv6 address, high
/// byte first.
pub open spec fn ip_of_bytes(buf: Seq<u8>) -> Option<IpAddress> {
    if buf.len() == 4 {
        Some(IpAddress::V4(buf[0], buf[1], buf[2], buf[3]))
    } else if buf.len() == 16 {
        Some(
            IpAddress::V6(
                pair_at(buf, 0),
                pair_at(buf, 2),
                pair_at(buf, 4),
                pair_at(buf, 6),
                pair_at(buf, 8),
                pair_at(buf, 10),
                pair_at(buf, 12),
                pair_at(buf, 14),
            ),
        )
    } else {
        None
    }
}

fn read_pair(buf: &[u8], i: usize) -> (r: u16)
    requires
        i + 1 < buf@.len(),
    ensures
        r == pair_at(buf@, i as int),
{
    let hi: u16 = buf[i] as u16;
    let lo: u16 = buf[i + 1] as u16;
    hi * 256 + lo
}

/// Reads an IP address from its four or sixteen bytes.
pub fn parse_ip_addr(buf: &[u8]) -> (r: Result<IpAddress, ProxyProtocolError>)
    ensures
        match ip_of_bytes(buf@) {
            Some(ip) => r == Ok::<IpAddress, ProxyProtocolError>(ip),
            None => r == Err::<IpAddress, ProxyProtocolError>(ProxyProtocolError::InvaildIp),
        },
{
    if buf.len() != 4 && buf.len() != 16 {
        return Err(ProxyProtocolError::InvaildIp);
    }
    if buf.len() == 4 {
        return Ok(IpAddress::V4(buf[0], buf[1], buf[2], buf[3]));
    }
    Ok(
        IpAddress::V6(
            read_pair(buf, 0),
            read_pair(buf, 2),
            read_pair(buf, 4),
            read_pair(buf, 6),
            read_pair(buf, 8),
            read_pair(buf, 10),
            read_pair(buf, 12),
            read_pair(buf, 14),
        ),
    )
}

/// The socket address that an address and a two-byte port hold. A port of
/// another length is refused before the address is looked at.
pub open spec fn sock_addr_of_bytes(ip_buf: Seq<u8>, port_buf: Seq<u8>) -> Result<
    SocketAddress,
    ProxyProtocolError,
> {
    if port_buf.len() != 2 {
        Err(ProxyProtocolError::InvaildPort)
    } else {
        match ip_of_bytes(ip_buf) {
            Some(ip) => Ok(SocketAddress { ip, port: pair_at(port_buf, 0) }),
            None => Err(ProxyProtocolError::InvaildIp),
        }
    }
}

/// Reads a socket address from the bytes of its address and of its port.
pub fn parse_sock_addr(ip_buf: &[u8], port_buf: &[u8]) -> (r: Result<
    SocketAddress,
    ProxyProtocolError,
>)
    ensures
        r == sock_addr_of_bytes(ip_buf@, port_buf@),
{
    if port_buf.len() != 2 {
        return Err(ProxyProtocolError::InvaildPort);
    }
    match parse_ip_addr(ip_buf) {
        Ok(ip) => Ok(SocketAddress { ip, port: read_pair(port_buf, 0) }),
        Err(e) => Err(e),
    }
}

} // verus!
