//! Recognition of a TLS ClientHello and extraction of its server name.
//!
//! The sniffer only reads the buffer it is handed. It answers with the
//! ClientHello's summary, with "this is not a ClientHello", or with the
//! number of bytes that are still missing.

use vstd::prelude::*;

verus! {

/// The sniffer could not conclude: more bytes are wanted. `Some(n)` gives
/// the exact number of missing bytes; `None` means that a fixed-size field
/// lies beyond the announced handshake message.
#[derive(Debug, Clone, PartialEq, Eq)]
pub enum ProtocolTLSError {
    WantMoreData(Option<usize>),
}

/// What was learned from a ClientHello.
#[derive(Debug, Clone)]
pub struct ProtocolTLS {
    pub hostname: Option<String>,
    pub version: u16,
}

/// Where the interesting parts of a ClientHello lie in the buffer.
/// `server_name` is the offset and the length of the first host name of the
/// first server_name extension.
#[derive(Debug, Clone, Copy, PartialEq, Eq)]
pub struct ClientHelloSummary {
    pub version: u16,
    pub server_name: Option<(usize, usize)>,
}

pub const TLS_HANDSHAKE_PREFIX_LENGTH: usize = 1;

pub const TLS_HANDSHAKE_START_LENGTH: usize = 3;

/// Record type of a TLS handshake record.
pub const TLS_HANDSHAKE_RECORD: u8 = 0x16;

/// Handshake message type of a ClientHello.
pub const TLS_CLIENT_HELLO: u8 = 0x01;

/// Bytes of the record header and the handshake header together.
pub const TLS_HEADERS_LENGTH: usize = 9;

/// The big-endian number in the two bytes at `i`.
pub open spec fn be16(data: Seq<u8>, i: int) -> int {
    data[i] as int * 256 + data[i + 1] as int
}

/// The big-endian number in the three bytes at `i`.
pub open spec fn be24(data: Seq<u8>, i: int) -> int {
    (data[i] as int * 256 + data[i + 1] as int) * 256 + data[i + 2] as int
}

/// The answer "`n` more bytes are wanted".
pub open spec fn want_more(n: int) -> Result<Option<ClientHelloSummary>, ProtocolTLSError> {
    Err(ProtocolTLSError::WantMoreData(Some(n as usize)))
}

/// The answer "a fixed-size field is missing".
pub open spec fn want_unknown() -> Result<Option<ClientHelloSummary>, ProtocolTLSError> {
    Err(ProtocolTLSError::WantMoreData(None))
}

/// Walks the server name list in `data[pos..end]` and gives the place of the
/// first entry of type host_name. An entry that overruns the list ends the
/// walk.
pub open spec fn scan_names(data: Seq<u8>, pos: int, end: int) -> Option<(usize, usize)>
    decreases end - pos,
{
    if pos < 0 || pos + 3 > end {
        None
    } else {
        let name_len = be16(data, pos + 1);
        let start = pos + 3;
        if start + name_len > end {
            None
        } else if data[pos] == 0 {
            Some((start as usize, name_len as usize))
        } else {
            scan_names(data, start + name_len, end)
        }
    }
}

/// The host name inside the body of a server_name extension, which lies at
/// `data[body..body + len]`.
pub open spec fn server_name_in(data: Seq<u8>, body: int, len: int) -> Option<(usize, usize)> {
    if len < 2 {
        None
    } else if len < 2 + be16(data, body) {
        None
    } else {
        scan_names(data, body + 2, body + 2 + be16(data, body))
    }
}

/// Walks the extensions in `data[pos..end]` up to the first server_name
/// extension and gives the place of its host name. An extension that
/// overruns the block ends the walk.
pub open spec fn scan_extensions(data: Seq<u8>, pos: int, end: int) -> Option<(usize, usize)>
    decreases end - pos,
{
    if pos < 0 || pos + 4 > end {
        None
    } else {
        let ext_len = be16(data, pos + 2);
        let body = pos + 4;
        if body + ext_len > end {
            None
        } else if be16(data, pos) == 0 {
            server_name_in(data, body, ext_len)
        } else {
            scan_extensions(data, body + ext_len, end)
        }
    }
}

/// Offset of the session id's length byte: the headers, the client version
/// and the random come before it.
pub open spec fn session_id_at() -> int {
    43
}

/// Offset just behind the session id.
pub open spec fn cipher_suites_at(data: Seq<u8>) -> int {
    session_id_at() + 1 + data[session_id_at()] as int
}

/// Offset just behind the cipher suites.
pub open spec fn compression_at(data: Seq<u8>) -> int {
    cipher_suites_at(data) + 2 + be16(data, cipher_suites_at(data))
}

/// Offset just behind the compression methods, where the extensions block
/// begins with its length.
pub open spec fn extensions_at(data: Seq<u8>) -> int {
    compression_at(data) + 1 + data[compression_at(data)] as int
}

/// Offset just behind the extensions block.
pub open spec fn extensions_end(data: Seq<u8>) -> int {
    extensions_at(data) + 2 + be16(data, extensions_at(data))
}

/// The sniffer's answer for the body of a ClientHello whose headers are
/// complete and whose announced handshake message is in the buffer.
pub open spec fn sniff_body(data: Seq<u8>) -> Result<Option<ClientHelloSummary>, ProtocolTLSError> {
    let len = data.len() as int;
    let version = be16(data, 9) as u16;
    if len < session_id_at() + 1 {
        want_unknown()
    } else if len < cipher_suites_at(data) {
        want_more(cipher_suites_at(data) - len)
    } else if len < cipher_suites_at(data) + 2 {
        want_unknown()
    } else if len < compression_at(data) {
        want_more(compression_at(data) - len)
    } else if len < compression_at(data) + 1 {
        want_unknown()
    } else if len < extensions_at(data) {
        want_more(extensions_at(data) - len)
    } else if len < extensions_at(data) + 2 {
        Ok(Some(ClientHelloSummary { version, server_name: None }))
    } else if len < extensions_end(data) {
        want_more(extensions_end(data) - len)
    } else {
        Ok(
            Some(
                ClientHelloSummary {
                    version,
                    server_name: scan_extensions(
                        data,
                        extensions_at(data) + 2,
                        extensions_end(data),
                    ),
                },
            ),
        )
    }
}

/// The sniffer's answer for a buffer: `Ok(None)` when the buffer does not
/// start a ClientHello, `Err` with the missing byte count when it is too
/// short to tell, else the summary.
pub open spec fn sniff_client_hello(data: Seq<u8>) -> Result<
    Option<ClientHelloSummary>,
    ProtocolTLSError,
> {
    let len = data.len() as int;
    if len == 0 {
        want_more(9)
    } else if data[0] != TLS_HANDSHAKE_RECORD {
        Ok(None)
    } else if len < 9 {
        want_more(9 - len)
    } else if data[5] != TLS_CLIENT_HELLO {
        Ok(None)
    } else if len < 9 + be24(data, 6) {
        want_more(9 + be24(data, 6) - len)
    } else {
        sniff_body(data)
    }
}

/// Whether the buffer starts with the record type of a TLS handshake.
pub fn is_tls_handshake(data: &[u8]) -> (r: bool)
    ensures
        r == (data@.len() >= 1 && data@[0] == TLS_HANDSHAKE_RECORD),
{
    data.len() >= TLS_HANDSHAKE_PREFIX_LENGTH && data[0] == TLS_HANDSHAKE_RECORD
}

fn read_u16(data: &[u8], i: usize) -> (r: u16)
    requires
        i + 1 < data@.len(),
    ensures
        r == be16(data@, i as int),
{
    let hi: u16 = data[i] as u16;
    let lo: u16 = data[i + 1] as u16;
    hi * 256 + lo
}

fn read_u24(data: &[u8], i: usize) -> (r: usize)
    requires
        i + 2 < data@.len(),
    ensures
        r == be24(data@, i as int),
        r < 0x100_0000,
{
    let a: usize = data[i] as usize;
    let b: usize = data[i + 1] as usize;
    let c: usize = data[i + 2] as usize;
    (a * 256 + b) * 256 + c
}

fn find_host_name(data: &[u8], start: usize, end: usize) -> (r: Option<(usize, usize)>)
    requires
        start <= end <= data@.len(),
    ensures
        r == scan_names(data@, start as int, end as int),
        r matches Some((at, len)) ==> start <= at && at + len <= end,
{
    let mut pos: usize = start;
    while end - pos >= 3
        invariant
            start <= pos <= end <= data@.len(),
            scan_names(data@, pos as int, end as int) == scan_names(
                data@,
                start as int,
                end as int,
            ),
        decreases end - pos,
    {
        let name_type: u8 = data[pos];
        let name_len: usize = read_u16(data, pos + 1) as usize;
        let name_start: usize = pos + 3;
        if name_len > end - name_start {
            return None;
        }
        if name_type == 0 {
            return Some((name_start, name_len));
        }
        pos = name_start + name_len;
    }
    None
}

fn find_server_name(data: &[u8], start: usize, end: usize) -> (r: Option<(usize, usize)>)
    requires
        start <= end <= data@.len(),
    ensures
        r == scan_extensions(data@, start as int, end as int),
        r matches Some((at, len)) ==> start <= at && at + len <= end,
{
    let mut pos: usize = start;
    while end - pos >= 4
        invariant
            start <= pos <= end <= data@.len(),
            scan_extensions(data@, pos as int, end as int) == scan_extensions(
                data@,
                start as int,
                end as int,
            ),
        decreases end - pos,
    {
        let ext_type: u16 = read_u16(data, pos);
        let ext_len: usize = read_u16(data, pos + 2) as usize;
        let body: usize = pos + 4;
        if ext_len > end - body {
            return None;
        }
        if ext_type == 0 {
            if ext_len < 2 {
                return None;
            }
            let list_len: usize = read_u16(data, body) as usize;
            if ext_len - 2 < list_len {
                return None;
            }
            return find_host_name(data, body + 2, body + 2 + list_len);
        }
        pos = body + ext_len;
    }
    None
}

/// Finds the client version and the place of the server name in a buffer
/// that starts a connection.
pub fn locate_server_name(data: &[u8]) -> (r: Result<Option<ClientHelloSummary>, ProtocolTLSError>)
    ensures
        r == sniff_client_hello(data@),
        r matches Ok(Some(summary)) ==> (summary.server_name matches Some((at, len)) ==> at + len
            <= data@.len()),
{
    let len: usize = data.len();
    if len == 0 {
        return Err(ProtocolTLSError::WantMoreData(Some(TLS_HEADERS_LENGTH)));
    }
    if data[0] != TLS_HANDSHAKE_RECORD {
        return Ok(None);
    }
    if len < TLS_HEADERS_LENGTH {
        return Err(ProtocolTLSError::WantMoreData(Some(TLS_HEADERS_LENGTH - len)));
    }
    if data[5] != TLS_CLIENT_HELLO {
        return Ok(None);
    }
    let handshake_len: usize = read_u24(data, 6);
    if len - TLS_HEADERS_LENGTH < handshake_len {
        return Err(
            ProtocolTLSError::WantMoreData(Some(handshake_len - (len - TLS_HEADERS_LENGTH))),
        );
    }
    // client version, then the random
    if len < 11 {
        return Err(ProtocolTLSError::WantMoreData(None));
    }
    let version: u16 = read_u16(data, 9);
    if len < 44 {
        return Err(ProtocolTLSError::WantMoreData(None));
    }
    // session id
    let session_id_len: usize = data[43] as usize;
    let mut pos: usize = 44;
    if len - pos < session_id_len {
        return Err(ProtocolTLSError::WantMoreData(Some(session_id_len - (len - pos))));
    }
    pos = pos + session_id_len;
    // cipher suites
    if len - pos < 2 {
        return Err(ProtocolTLSError::WantMoreData(None));
    }
    let cipher_suites_len: usize = read_u16(data, pos) as usize;
    pos = pos + 2;
    if len - pos < cipher_suites_len {
        return Err(ProtocolTLSError::WantMoreData(Some(cipher_suites_len - (len - pos))));
    }
    pos = pos + cipher_suites_len;
    // compression methods
    if len - pos < 1 {
        return Err(ProtocolTLSError::WantMoreData(None));
    }
    let compression_len: usize = data[pos] as usize;
    pos = pos + 1;
    if len - pos < compression_len {
        return Err(ProtocolTLSError::WantMoreData(Some(compression_len - (len - pos))));
    }
    pos = pos + compression_len;
    // extensions: a ClientHello may end here
    if len - pos < 2 {
        return Ok(Some(ClientHelloSummary { version, server_name: None }));
    }
    let extensions_len: usize = read_u16(data, pos) as usize;
    pos = pos + 2;
    if len - pos < extensions_len {
        return Err(ProtocolTLSError::WantMoreData(Some(extensions_len - (len - pos))));
    }
    let server_name = find_server_name(data, pos, pos + extensions_len);
    Ok(Some(ClientHelloSummary { version, server_name }))
}

/// Name for the text that `String::from_utf8_lossy` makes of a byte
/// sequence.
pub uninterp spec fn utf8_lossy(bytes: Seq<u8>) -> Seq<char>;

/// `String::from_utf8_lossy`, made into an owned `String`. The text is a
/// function of the bytes alone; where the bytes are valid UTF-8 it is what
/// they encode.
#[verifier::external_body]
fn decode_utf8_lossy(bytes: &[u8]) -> (s: String)
    ensures
        s@ == utf8_lossy(bytes@),
        vstd::utf8::valid_utf8(bytes@) ==> s@ == vstd::utf8::decode_utf8(bytes@),
{
    String::from_utf8_lossy(bytes).into_owned()
}

/// Whether `name` is the text of the bytes of a host name: what they
/// encode where they are valid UTF-8, and in any case what a lossy
/// decoding makes of them.
pub open spec fn is_name_text(bytes: Seq<u8>, name: Seq<char>) -> bool {
    &&& name == utf8_lossy(bytes)
    &&& vstd::utf8::valid_utf8(bytes) ==> name == vstd::utf8::decode_utf8(bytes)
}

/// Whether `hostname` is the text of the bytes at `place`, or absent with
/// it.
pub open spec fn hostname_matches(
    data: Seq<u8>,
    place: Option<(usize, usize)>,
    hostname: Option<String>,
) -> bool {
    match place {
        None => hostname is None,
        Some((at, len)) => hostname matches Some(name) && is_name_text(
            data.subrange(at as int, at + len),
            name@,
        ),
    }
}

/// Whether `r` is the sniffer's answer for `data`, with the server name as
/// text.
pub open spec fn is_sniffed(
    data: Seq<u8>,
    r: Result<Option<ProtocolTLS>, ProtocolTLSError>,
) -> bool {
    match sniff_client_hello(data) {
        Err(e) => r matches Err(got) && got == e,
        Ok(None) => r matches Ok(None),
        Ok(Some(summary)) => r matches Ok(Some(tls)) && tls.version == summary.version
            && hostname_matches(data, summary.server_name, tls.hostname),
    }
}

/// Gives the ClientHello's summary with the server name as text.
pub fn describe_client_hello(data: &[u8], summary: ClientHelloSummary) -> (tls: ProtocolTLS)
    requires
        summary.server_name matches Some((at, len)) ==> at + len <= data@.len(),
    ensures
        tls.version == summary.version,
        hostname_matches(data@, summary.server_name, tls.hostname),
{
    let total: usize = data.len();
    let hostname = match summary.server_name {
        None => None,
        Some((at, len)) => {
            assert(at + len <= total);
            Some(decode_utf8_lossy(vstd::slice::slice_subrange(data, at, at + len)))
        },
    };
    ProtocolTLS { hostname, version: summary.version }
}

/// Parses a buffer that starts a connection as a TLS record holding a
/// ClientHello. `Ok(None)` says that it is none; `Err` says how many bytes
/// are missing.
pub fn parse_tls_client_hello(data: &[u8]) -> (r: Result<Option<ProtocolTLS>, ProtocolTLSError>)
    ensures
        is_sniffed(data@, r),
{
    match locate_server_name(data) {
        Err(e) => Err(e),
        Ok(None) => Ok(None),
        Ok(Some(summary)) => Ok(Some(describe_client_hello(data, summary))),
    }
}

/// The server name and the client version of the ClientHello in `data`.
pub fn get_tls_sni_from_buf(data: &[u8]) -> (r: Result<Option<ProtocolTLS>, ProtocolTLSError>)
    ensures
        is_sniffed(data@, r),
{
    parse_tls_client_hello(data)
}

/// Whether the extensions in `data[pos..end]`, walked as the sniffer walks
/// them, hold a server_name extension.
pub open spec fn has_server_name_extension(data: Seq<u8>, pos: int, end: int) -> bool
    decreases end - pos,
{
    if pos < 0 || pos + 4 > end {
        false
    } else if pos + 4 + be16(data, pos + 2) > end {
        false
    } else {
        be16(data, pos) == 0 || has_server_name_extension(
            data,
            pos + 4 + be16(data, pos + 2),
            end,
        )
    }
}

proof fn lemma_scan_without_server_name(data: Seq<u8>, pos: int, end: int)
    requires
        !has_server_name_extension(data, pos, end),
    ensures
        scan_extensions(data, pos, end) is None,
    decreases end - pos,
{
    if pos >= 0 && pos + 4 <= end && pos + 4 + be16(data, pos + 2) <= end {
        lemma_scan_without_server_name(data, pos + 4 + be16(data, pos + 2), end);
    }
}

/// A complete ClientHello that has no extensions block, or none with a
/// server_name extension in it, is summarised without an error and without
/// a server name.
pub proof fn lemma_hello_without_server_name(data: Seq<u8>)
    requires
        sniff_client_hello(data) matches Ok(Some(_)),
        data.len() < extensions_at(data) + 2 || !has_server_name_extension(
            data,
            extensions_at(data) + 2,
            extensions_end(data),
        ),
    ensures
        sniff_client_hello(data) matches Ok(Some(summary)) && summary.server_name is None,
{
    if data.len() >= extensions_at(data) + 2 {
        lemma_scan_without_server_name(data, extensions_at(data) + 2, extensions_end(data));
    }
}

/// Reassembly: let `message` be one record that holds exactly one handshake
/// message, and let the first `k` bytes of it have arrived. Then the sniffer
/// either answers what it answers for the whole message, or asks for a
/// number of bytes that the rest of the message still holds.
pub proof fn lemma_reassembly_invariance(message: Seq<u8>, k: int)
    requires
        message.len() >= 9,
        message.len() == 9 + be24(message, 6),
        message.len() <= usize::MAX,
        0 <= k <= message.len(),
    ensures
        sniff_client_hello(message.take(k)) == sniff_client_hello(message) || (sniff_client_hello(
            message.take(k),
        ) matches Err(ProtocolTLSError::WantMoreData(Some(n))) && 0 < n && k + n
            <= message.len()),
{
    let part = message.take(k);
    if k == message.len() {
        assert(part =~= message);
    } else if k >= 9 {
        assert(be24(part, 6) == be24(message, 6));
    }
}

/// The byte count that the sniffer asks for is exact: with fewer bytes
/// added to the buffer, it still finds no ClientHello to summarise.
pub proof fn lemma_deficit_is_exact(shorter: Seq<u8>, longer: Seq<u8>, n: usize)
    requires
        shorter.len() <= longer.len() < shorter.len() + n,
        longer.take(shorter.len() as int) == shorter,
        sniff_client_hello(shorter) == Err::<Option<ClientHelloSummary>, _>(
            ProtocolTLSError::WantMoreData(Some(n)),
        ),
        longer.len() <= usize::MAX,
    ensures
        !(sniff_client_hello(longer) matches Ok(Some(_))),
{
    assert forall|i: int| 0 <= i < shorter.len() implies shorter[i] == longer[i] by {
        assert(longer.take(shorter.len() as int)[i] == longer[i]);
    }
}

} // verus!
