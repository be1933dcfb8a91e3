//! What the gateway makes of the bytes that it has peeked at the start of
//! a connection.

use crate::protocols::proxyprotocol::{
    has_v1_begin,
    has_v2_begin,
    lemma_v2_family,
    parse_proxy_protocol,
    proxy_protocol_of,
    starts_with,
    v1_begin,
    v2_announced_length,
    v2_begin,
    ProxyProtocol,
    ProxyProtocolError,
    ProxyProtocolV2Type,
};
use crate::protocols::tls::{
    is_tls_handshake,
    get_tls_sni_from_buf,
    sniff_client_hello,
    hostname_matches,
    ProtocolTLS,
    ProtocolTLSError,
};
use crate::protocols::utils::{find_index_pos, occurs_at};
use vstd::prelude::*;

verus! {

/// The longest header of version 1, its line end included.
pub const PROXY_V1_MAX_LENGTH: usize = 107;

/// What the peeked bytes say of a PROXY header.
#[derive(Debug, Clone, Copy, PartialEq, Eq, Structural)]
pub enum ProxySniff {
    /// The connection begins with this header, which takes up `consumed`
    /// bytes.
    Matched { header: ProxyProtocol, consumed: usize },
    /// The connection does not begin with a PROXY header.
    NoMatch,
    /// More bytes are wanted, up to this number.
    NeedMore(usize),
    /// The connection announces a PROXY header that cannot be read.
    Invalid(ProxyProtocolError),
}

/// The line end.
pub open spec fn line_end() -> Seq<u8> {
    seq![0x0du8, 0x0a]
}

/// Whether the first line end in `buf` stands at index `i`.
pub open spec fn is_first_line_end(buf: Seq<u8>, i: int) -> bool {
    &&& occurs_at(buf, line_end(), i)
    &&& forall|j: int| 0 <= j < i ==> !occurs_at(buf, line_end(), j)
}

/// Whether `buf` is the beginning of `whole` and shorter than it.
pub open spec fn begins(buf: Seq<u8>, whole: Seq<u8>) -> bool {
    buf.len() < whole.len() && whole.take(buf.len() as int) == buf
}

/// Bytes that a version 2 header takes up, told from its family: the
/// signature, four bytes, two addresses and two ports.
pub open spec fn v2_header_length(header: ProxyProtocol) -> usize {
    match header {
        ProxyProtocol::V2(h) => if h.protocol == ProxyProtocolV2Type::IPv6 {
            52
        } else {
            28
        },
        _ => 0,
    }
}

/// What the text of a buffer that begins with "PROXY " says, given the
/// index of its first line end: the header is the line up to it.
pub open spec fn v1_sniff_of(buf: Seq<u8>, line_end_at: Option<int>) -> ProxySniff {
    match line_end_at {
        Some(i) => match proxy_protocol_of(buf.take(i + 2)) {
            Ok(Some(header)) => ProxySniff::Matched { header, consumed: (i + 2) as usize },
            Ok(None) => ProxySniff::NoMatch,
            Err(e) => ProxySniff::Invalid(e),
        },
        None => if buf.len() >= PROXY_V1_MAX_LENGTH {
            ProxySniff::Invalid(ProxyProtocolError::InvalidFormat)
        } else {
            ProxySniff::NeedMore((PROXY_V1_MAX_LENGTH - buf.len()) as usize)
        },
    }
}

/// Bytes that a version 2 header takes up, as the buffer announces them:
/// the signature, four bytes, and the address block of the announced
/// length.
pub open spec fn v2_announced_header_length(buf: Seq<u8>) -> int {
    16 + v2_announced_length(buf.skip(12))
}

/// A version 2 header that is read takes up what it announces, which for
/// its family is 28 or 52 bytes, and lies within the buffer.
pub proof fn lemma_v2_header_length(buf: Seq<u8>)
    requires
        starts_with(buf, v2_begin()),
        proxy_protocol_of(buf) matches Ok(Some(_)),
    ensures
        proxy_protocol_of(buf) matches Ok(Some(header)) && v2_header_length(header)
            == v2_announced_header_length(buf) && v2_announced_header_length(buf) <= buf.len(),
{
    assert(!starts_with(buf, v1_begin())) by {
        if starts_with(buf, v1_begin()) {
            assert(buf.take(6)[0] == buf[0]);
            assert(buf.take(12)[0] == buf[0]);
        }
    }
    lemma_v2_family(buf.skip(12));
}

/// What a buffer that begins with the binary signature says.
pub open spec fn v2_sniff_of(buf: Seq<u8>) -> ProxySniff {
    match proxy_protocol_of(buf) {
        Ok(Some(header)) => ProxySniff::Matched {
            header,
            consumed: v2_announced_header_length(buf) as usize,
        },
        Ok(None) => ProxySniff::NoMatch,
        Err(ProxyProtocolError::WantMoreData(n)) => ProxySniff::NeedMore(n),
        Err(e) => ProxySniff::Invalid(e),
    }
}

/// Index of the first line end in `buf`, if it has one.
pub open spec fn first_line_end(buf: Seq<u8>) -> Option<int> {
    if exists|i: int| is_first_line_end(buf, i) {
        Some(choose|i: int| is_first_line_end(buf, i))
    } else {
        None
    }
}

/// What the peeked bytes say of a PROXY header.
///
/// A buffer that begins with the binary signature is read as a header of
/// version 2. A buffer that begins with "PROXY " holds a header of version 1
/// up to its first line end; without a line end more bytes are wanted, until
/// the buffer is as long as the longest header. A buffer that is shorter
/// than the signature and begins like one of the two beginnings is too
/// short to tell. Every other buffer holds no header.
pub open spec fn proxy_sniff_of(buf: Seq<u8>) -> ProxySniff {
    if starts_with(buf, v2_begin()) {
        v2_sniff_of(buf)
    } else if starts_with(buf, v1_begin()) {
        v1_sniff_of(buf, first_line_end(buf))
    } else if begins(buf, v2_begin()) || begins(buf, v1_begin()) {
        ProxySniff::NeedMore((12 - buf.len()) as usize)
    } else {
        ProxySniff::NoMatch
    }
}

/// Compares `buf` with the beginning of `whole`.
fn is_beginning_of(buf: &[u8], whole: &[u8]) -> (r: bool)
    ensures
        r == begins(buf@, whole@),
{
    let n: usize = buf.len();
    if n >= whole.len() {
        return false;
    }
    let mut i: usize = 0;
    while i < n
        invariant
            n == buf@.len(),
            n < whole@.len(),
            i <= n,
            forall|j: int| 0 <= j < i ==> buf@[j] == whole@[j],
        decreases n - i,
    {
        if buf[i] != whole[i] {
            assert(whole@.take(n as int)[i as int] != buf@[i as int]);
            return false;
        }
        i = i + 1;
    }
    assert(whole@.take(n as int) =~= buf@);
    true
}

/// Bytes that a header takes up where it is one of version 2.
fn header_length(header: &ProxyProtocol) -> (n: usize)
    ensures
        n == v2_header_length(*header),
{
    match header {
        ProxyProtocol::V2(h) => if h.protocol == ProxyProtocolV2Type::IPv6 {
            52
        } else {
            28
        },
        _ => 0,
    }
}

/// Looks for a PROXY header at the start of the peeked bytes.
pub fn get_proxy_protocol(buf: &[u8]) -> (sniff: ProxySniff)
    ensures
        sniff == proxy_sniff_of(buf@),
{
    let len: usize = buf.len();
    if has_v2_begin(buf) {
        return match parse_proxy_protocol(buf) {
            Ok(Some(header)) => {
                proof {
                    lemma_v2_header_length(buf@);
                }
                ProxySniff::Matched { header, consumed: header_length(&header) }
            },
            Ok(None) => ProxySniff::NoMatch,
            Err(ProxyProtocolError::WantMoreData(n)) => ProxySniff::NeedMore(n),
            Err(e) => ProxySniff::Invalid(e),
        };
    }
    if has_v1_begin(buf) {
        let pattern: [u8; 2] = [0x0d, 0x0a];
        assert(pattern@ =~= line_end());
        return match find_index_pos(buf, pattern.as_slice()) {
            Some(i) => {
                assert(is_first_line_end(buf@, i as int));
                assert(first_line_end(buf@) == Some(i as int)) by {
                    let k = choose|k: int| is_first_line_end(buf@, k);
                    if k < i {
                        assert(!occurs_at(buf@, line_end(), k));
                    }
                    if i < k {
                        assert(!occurs_at(buf@, line_end(), i as int));
                    }
                }
                let line = vstd::slice::slice_subrange(buf, 0, i + 2);
                assert(line@ =~= buf@.take(i + 2));
                match parse_proxy_protocol(line) {
                    Ok(Some(header)) => ProxySniff::Matched { header, consumed: i + 2 },
                    Ok(None) => ProxySniff::NoMatch,
                    Err(e) => ProxySniff::Invalid(e),
                }
            },
            None => {
                if len >= PROXY_V1_MAX_LENGTH {
                    ProxySniff::Invalid(ProxyProtocolError::InvalidFormat)
                } else {
                    ProxySniff::NeedMore(PROXY_V1_MAX_LENGTH - len)
                }
            },
        };
    }
    let v1_start: [u8; 6] = [0x50, 0x52, 0x4f, 0x58, 0x59, 0x20];
    let v2_start: [u8; 12] = [0x0d, 0x0a, 0x0d, 0x0a, 0x00, 0x0d, 0x0a, 0x51, 0x55, 0x49, 0x54, 0x0a];
    assert(v1_start@ =~= v1_begin());
    assert(v2_start@ =~= v2_begin());
    if is_beginning_of(buf, v2_start.as_slice()) || is_beginning_of(buf, v1_start.as_slice()) {
        return ProxySniff::NeedMore(12 - len);
    }
    ProxySniff::NoMatch
}

/// What the peeked bytes say of a TLS handshake.
#[derive(Debug, Clone)]
pub enum TlsSniff {
    /// The connection does not begin with a ClientHello.
    NotTls,
    /// The connection begins with this ClientHello.
    Found(ProtocolTLS),
    /// This many bytes are missing.
    NeedMore(usize),
    /// The connection begins like a ClientHello that its announced length
    /// cannot hold.
    Malformed,
}

/// Whether `sniff` is what the peeked bytes say of a TLS handshake. Nothing
/// peeked is no handshake.
pub open spec fn is_tls_sniff(data: Seq<u8>, sniff: TlsSniff) -> bool {
    if data.len() == 0 {
        sniff is NotTls
    } else {
        match sniff_client_hello(data) {
            Ok(None) => sniff is NotTls,
            Ok(Some(summary)) => sniff matches TlsSniff::Found(tls) && tls.version
                == summary.version && hostname_matches(data, summary.server_name, tls.hostname),
            Err(ProtocolTLSError::WantMoreData(Some(n))) => sniff matches TlsSniff::NeedMore(m)
                && m == n,
            Err(ProtocolTLSError::WantMoreData(None)) => sniff is Malformed,
        }
    }
}

/// Looks for a ClientHello at the start of the peeked bytes.
pub fn get_tls_sni(data: &[u8]) -> (sniff: TlsSniff)
    ensures
        is_tls_sniff(data@, sniff),
{
    if !is_tls_handshake(data) {
        return TlsSniff::NotTls;
    }
    match get_tls_sni_from_buf(data) {
        Ok(Some(tls)) => TlsSniff::Found(tls),
        Ok(None) => TlsSniff::NotTls,
        Err(ProtocolTLSError::WantMoreData(Some(n))) => TlsSniff::NeedMore(n),
        Err(ProtocolTLSError::WantMoreData(None)) => TlsSniff::Malformed,
    }
}

} // verus!
