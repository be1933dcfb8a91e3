use webgateway::gateway::proxy::protocols::{get_tls_sni, TlsSniff};
use webgateway::protocols::tls::{
    get_tls_sni_from_buf, is_tls_handshake, locate_server_name, parse_tls_client_hello,
    ClientHelloSummary, ProtocolTLSError,
};

/// A ClientHello of TLS 1.2 with the given extensions block (`None`: the
/// message ends behind the compression methods).
fn client_hello(extensions: Option<Vec<u8>>) -> Vec<u8> {
    let mut body: Vec<u8> = Vec::new();
    body.extend_from_slice(&[0x03, 0x03]);
    body.extend_from_slice(&[0x11; 32]);
    body.push(0);
    body.extend_from_slice(&[0x00, 0x02, 0x13, 0x01]);
    body.extend_from_slice(&[0x01, 0x00]);
    if let Some(ext) = extensions {
        body.extend_from_slice(&(ext.len() as u16).to_be_bytes());
        body.extend_from_slice(&ext);
    }
    let mut out: Vec<u8> = vec![0x16, 0x03, 0x01];
    out.extend_from_slice(&((body.len() + 4) as u16).to_be_bytes());
    out.push(0x01);
    out.extend_from_slice(&(body.len() as u32).to_be_bytes()[1..]);
    out.extend_from_slice(&body);
    out
}

fn sni_extension(name: &[u8]) -> Vec<u8> {
    let mut ext: Vec<u8> = vec![0x00, 0x00];
    ext.extend_from_slice(&((name.len() + 5) as u16).to_be_bytes());
    ext.extend_from_slice(&((name.len() + 3) as u16).to_be_bytes());
    ext.push(0x00);
    ext.extend_from_slice(&(name.len() as u16).to_be_bytes());
    ext.extend_from_slice(name);
    ext
}

fn other_extension() -> Vec<u8> {
    vec![0x00, 0x0b, 0x00, 0x02, 0x01, 0x00]
}

#[test]
fn tls_handshake_is_recognised_by_first_byte() {
    assert!(is_tls_handshake(&[0x16]));
    assert!(is_tls_handshake(&[0x16, 0x03, 0x01]));
    assert!(!is_tls_handshake(&[]));
    assert!(!is_tls_handshake(b"GET / HTTP/1.1\r\n"));
}

#[test]
fn client_hello_with_sni_gives_hostname_and_version() {
    let hello = client_hello(Some(sni_extension(b"example.com")));
    let tls = parse_tls_client_hello(&hello).unwrap().unwrap();
    assert_eq!(tls.hostname.as_deref(), Some("example.com"));
    assert_eq!(tls.version, 0x0303);
    let again = get_tls_sni_from_buf(&hello).unwrap().unwrap();
    assert_eq!(again.hostname.as_deref(), Some("example.com"));
}

#[test]
fn server_name_is_located_by_offset_and_length() {
    let hello = client_hello(Some(sni_extension(b"example.com")));
    let summary = locate_server_name(&hello).unwrap().unwrap();
    let (at, len) = summary.server_name.unwrap();
    assert_eq!(&hello[at..at + len], b"example.com");
    assert_eq!(summary.version, 0x0303);
}

#[test]
fn sni_is_found_behind_other_extensions() {
    let mut ext = other_extension();
    ext.extend_from_slice(&sni_extension(b"a.example.org"));
    ext.extend_from_slice(&other_extension());
    let hello = client_hello(Some(ext));
    let tls = parse_tls_client_hello(&hello).unwrap().unwrap();
    assert_eq!(tls.hostname.as_deref(), Some("a.example.org"));
}

#[test]
fn client_hello_without_server_name_gives_no_hostname() {
    let hello = client_hello(Some(other_extension()));
    let tls = parse_tls_client_hello(&hello).unwrap().unwrap();
    assert_eq!(tls.hostname, None);
    assert_eq!(tls.version, 0x0303);
}

#[test]
fn client_hello_without_extensions_gives_no_hostname() {
    let hello = client_hello(None);
    let tls = parse_tls_client_hello(&hello).unwrap().unwrap();
    assert_eq!(tls.hostname, None);
    let empty_block = client_hello(Some(Vec::new()));
    let tls = parse_tls_client_hello(&empty_block).unwrap().unwrap();
    assert_eq!(tls.hostname, None);
}

#[test]
fn hostname_that_is_not_utf8_is_read_lossily() {
    let hello = client_hello(Some(sni_extension(&[b'a', 0xff, b'b'])));
    let tls = parse_tls_client_hello(&hello).unwrap().unwrap();
    assert_eq!(tls.hostname.as_deref(), Some("a\u{fffd}b"));
}

#[test]
fn other_traffic_is_not_applicable() {
    assert!(matches!(parse_tls_client_hello(b"GET / HTTP/1.1\r\n\r\n"), Ok(None)));
    assert!(matches!(parse_tls_client_hello(b"G"), Ok(None)));
    // a handshake record that holds no ClientHello
    let mut hello = client_hello(None);
    hello[5] = 0x02;
    assert!(matches!(parse_tls_client_hello(&hello), Ok(None)));
}

#[test]
fn short_buffers_want_the_exact_deficit() {
    assert_eq!(
        parse_tls_client_hello(&[]).unwrap_err(),
        ProtocolTLSError::WantMoreData(Some(9))
    );
    assert_eq!(
        parse_tls_client_hello(&[0x16, 0x03, 0x01]).unwrap_err(),
        ProtocolTLSError::WantMoreData(Some(6))
    );
    let hello = client_hello(Some(sni_extension(b"example.com")));
    for k in 9..hello.len() {
        assert_eq!(
            parse_tls_client_hello(&hello[..k]).unwrap_err(),
            ProtocolTLSError::WantMoreData(Some(hello.len() - k))
        );
    }
}

#[test]
fn handshake_too_short_for_its_fixed_fields_is_malformed() {
    // announces an empty handshake message
    let data = [0x16, 0x03, 0x01, 0x00, 0x04, 0x01, 0x00, 0x00, 0x00];
    assert_eq!(
        parse_tls_client_hello(&data).unwrap_err(),
        ProtocolTLSError::WantMoreData(None)
    );
    assert!(matches!(get_tls_sni(&data), TlsSniff::Malformed));
}

#[test]
fn variable_field_beyond_the_buffer_wants_its_deficit() {
    // session id announces 32 bytes that are not there
    let mut data = vec![0x16, 0x03, 0x01, 0x00, 0x27, 0x01, 0x00, 0x00, 0x23];
    data.extend_from_slice(&[0x03, 0x03]);
    data.extend_from_slice(&[0u8; 32]);
    data.push(32);
    assert_eq!(
        parse_tls_client_hello(&data).unwrap_err(),
        ProtocolTLSError::WantMoreData(Some(32))
    );
}

#[test]
fn extension_that_overruns_its_block_ends_the_scan() {
    let mut ext = other_extension();
    // announces 0x40 bytes of payload, the block holds none
    ext.extend_from_slice(&[0x00, 0x00, 0x00, 0x40]);
    let hello = client_hello(Some(ext));
    let tls = parse_tls_client_hello(&hello).unwrap().unwrap();
    assert_eq!(tls.hostname, None);
}

#[test]
fn name_of_another_type_is_skipped() {
    let name = b"example.net";
    let mut list: Vec<u8> = vec![0x01, 0x00, 0x02, b'x', b'y'];
    list.push(0x00);
    list.extend_from_slice(&(name.len() as u16).to_be_bytes());
    list.extend_from_slice(name);
    let mut ext: Vec<u8> = vec![0x00, 0x00];
    ext.extend_from_slice(&((list.len() + 2) as u16).to_be_bytes());
    ext.extend_from_slice(&(list.len() as u16).to_be_bytes());
    ext.extend_from_slice(&list);
    let hello = client_hello(Some(ext));
    let tls = parse_tls_client_hello(&hello).unwrap().unwrap();
    assert_eq!(tls.hostname.as_deref(), Some("example.net"));
}

#[test]
fn client_hello_in_five_byte_writes_is_reassembled() {
    let hello = client_hello(Some(sni_extension(b"example.com")));
    let whole = parse_tls_client_hello(&hello).unwrap().unwrap();
    let mut buffer: Vec<u8> = Vec::new();
    let mut found = None;
    for chunk in hello.chunks(5) {
        buffer.extend_from_slice(chunk);
        match parse_tls_client_hello(&buffer) {
            Ok(r) => {
                found = r;
                break;
            }
            Err(ProtocolTLSError::WantMoreData(Some(n))) => {
                assert!(n > 0 && buffer.len() + n <= hello.len());
            }
            Err(e) => panic!("unexpected {:?}", e),
        }
    }
    let tls = found.unwrap();
    assert_eq!(tls.hostname.as_deref(), Some("example.com"));
    assert_eq!(tls.hostname, whole.hostname);
    assert_eq!(tls.version, whole.version);
}

#[test]
fn every_split_point_gives_the_same_answer() {
    let hello = client_hello(Some(sni_extension(b"example.com")));
    for cut in 0..hello.len() {
        let mut buffer = hello[..cut].to_vec();
        loop {
            match parse_tls_client_hello(&buffer) {
                Err(ProtocolTLSError::WantMoreData(Some(n))) => {
                    let end = buffer.len() + n;
                    buffer.extend_from_slice(&hello[buffer.len()..end]);
                }
                Ok(Some(tls)) => {
                    assert_eq!(tls.hostname.as_deref(), Some("example.com"));
                    assert_eq!(tls.version, 0x0303);
                    break;
                }
                other => panic!("unexpected {:?}", other),
            }
        }
    }
}

#[test]
fn gateway_sniff_tells_the_four_cases_apart() {
    let hello = client_hello(Some(sni_extension(b"example.com")));
    assert!(matches!(get_tls_sni(&[]), TlsSniff::NotTls));
    assert!(matches!(get_tls_sni(b"GET"), TlsSniff::NotTls));
    assert!(matches!(get_tls_sni(&hello[..3]), TlsSniff::NeedMore(6)));
    match get_tls_sni(&hello) {
        TlsSniff::Found(tls) => assert_eq!(tls.hostname.as_deref(), Some("example.com")),
        other => panic!("unexpected {:?}", other),
    }
}

#[test]
fn summary_is_a_plain_value() {
    let a = ClientHelloSummary { version: 0x0303, server_name: Some((54, 11)) };
    assert_eq!(a, a.clone());
}
