use webgateway::gateway::proxy::{
    ConnectionDispatcher, DispatchAction, DispatchEvent, DispatchState,
};
use webgateway::protocols::proxyprotocol::ProxyProtocol;
use webgateway::shared::streams::{BufferStream, WrapperBufferStream};

fn hello_with_sni(name: &[u8]) -> Vec<u8> {
    let mut ext: Vec<u8> = vec![0x00, 0x00];
    ext.extend_from_slice(&((name.len() + 5) as u16).to_be_bytes());
    ext.extend_from_slice(&((name.len() + 3) as u16).to_be_bytes());
    ext.push(0x00);
    ext.extend_from_slice(&(name.len() as u16).to_be_bytes());
    ext.extend_from_slice(name);
    let mut body: Vec<u8> = vec![0x03, 0x03];
    body.extend_from_slice(&[0x22; 32]);
    body.push(0);
    body.extend_from_slice(&[0x00, 0x02, 0x13, 0x01, 0x01, 0x00]);
    body.extend_from_slice(&(ext.len() as u16).to_be_bytes());
    body.extend_from_slice(&ext);
    let mut out: Vec<u8> = vec![0x16, 0x03, 0x01];
    out.extend_from_slice(&((body.len() + 4) as u16).to_be_bytes());
    out.push(0x01);
    out.extend_from_slice(&(body.len() as u32).to_be_bytes()[1..]);
    out.extend_from_slice(&body);
    out
}

/// Drives a dispatcher over writes that arrive one by one, and gives the
/// action with which the sniffing ends.
fn sniff(writes: &[&[u8]], retry_limit: usize) -> (ConnectionDispatcher, DispatchAction, Vec<u8>) {
    let mut stream = BufferStream::new(WrapperBufferStream::Raw);
    let mut d = ConnectionDispatcher::new(retry_limit);
    let mut peeked: Vec<u8> = Vec::new();
    let mut next = 0;
    let mut action = d.handle_connection(DispatchEvent::Accepted, &peeked);
    loop {
        match action {
            DispatchAction::Peek(n) => {
                if stream.available() == 0 && next < writes.len() {
                    stream.fill(writes[next]);
                    next += 1;
                }
                peeked.extend(stream.pre_read_buf(n));
                action = d.handle_connection(DispatchEvent::Peeked, &peeked);
            }
            other => return (d, other, peeked),
        }
    }
}

#[test]
fn accepted_connection_is_peeked_for_a_proxy_header() {
    let mut d = ConnectionDispatcher::new(4);
    assert_eq!(d.state(), DispatchState::Start);
    assert!(matches!(d.handle_connection(DispatchEvent::Accepted, &[]), DispatchAction::Peek(12)));
    assert_eq!(d.state(), DispatchState::ProxyProtoSniff);
}

#[test]
fn plain_http_is_passed_through_with_its_bytes() {
    let (d, action, _) = sniff(&[b"GET / HTTP/1.1\r\nHost: a\r\n\r\n"], 4);
    assert!(matches!(action, DispatchAction::Rewind { skip: 0 }));
    assert_eq!(d.state(), DispatchState::PassThrough);
    assert_eq!(d.origin(), None);
}

#[test]
fn tls_connection_goes_to_the_handshake_with_its_server_name() {
    let hello = hello_with_sni(b"example.com");
    let (d, action, peeked) = sniff(&[&hello], 4);
    match action {
        DispatchAction::AcceptTls { skip, tls } => {
            assert_eq!(skip, 0);
            assert_eq!(tls.hostname.as_deref(), Some("example.com"));
            assert_eq!(tls.version, 0x0303);
        }
        other => panic!("unexpected {:?}", other),
    }
    assert_eq!(d.state(), DispatchState::TlsTerminate);
    // the handshake is replayed verbatim
    assert_eq!(peeked, hello);
}

#[test]
fn client_hello_in_three_five_byte_writes_and_the_rest() {
    let hello = hello_with_sni(b"example.com");
    let writes: Vec<&[u8]> = vec![&hello[..5], &hello[5..10], &hello[10..15], &hello[15..]];
    let (d, action, peeked) = sniff(&writes, 8);
    match action {
        DispatchAction::AcceptTls { tls, .. } => {
            assert_eq!(tls.hostname.as_deref(), Some("example.com"))
        }
        other => panic!("unexpected {:?}", other),
    }
    assert_eq!(d.state(), DispatchState::TlsTerminate);
    assert_eq!(peeked, hello);
}

#[test]
fn proxy_header_in_front_of_tls_is_recorded_and_skipped() {
    let header = b"PROXY TCP4 192.168.0.1 192.168.0.11 56324 443\r\n";
    let hello = hello_with_sni(b"example.com");
    let all = [header.to_vec(), hello].concat();
    let (d, action, _) = sniff(&[&all], 8);
    match action {
        DispatchAction::AcceptTls { skip, tls } => {
            assert_eq!(skip, header.len());
            assert_eq!(tls.hostname.as_deref(), Some("example.com"));
        }
        other => panic!("unexpected {:?}", other),
    }
    match d.origin() {
        Some(ProxyProtocol::V1(h)) => assert_eq!(h.src_addr.port, 56324),
        other => panic!("unexpected {:?}", other),
    }
}

#[test]
fn proxy_header_in_front_of_plain_http() {
    let all = b"PROXY UNKNOWN\r\nGET / HTTP/1.1\r\n\r\n";
    let (d, action, _) = sniff(&[all], 8);
    assert!(matches!(action, DispatchAction::Rewind { skip: 15 }));
    assert_eq!(d.origin(), Some(ProxyProtocol::V1Heartbeat));
}

#[test]
fn bad_proxy_header_fails_open() {
    let (d, action, _) = sniff(&[b"PROXY TCP4 1.2.3.4 5.6.7.8 1\r\nGET /"], 8);
    assert!(matches!(action, DispatchAction::Rewind { skip: 0 }));
    assert_eq!(d.state(), DispatchState::PassThrough);
    assert_eq!(d.origin(), None);
}

#[test]
fn retries_are_bounded() {
    let hello = hello_with_sni(b"example.com");
    // the client never sends more than the first bytes
    let (d, action, _) = sniff(&[&hello[..20]], 3);
    assert!(matches!(action, DispatchAction::Rewind { skip: 0 }));
    assert_eq!(d.state(), DispatchState::PassThrough);
}

#[test]
fn connection_is_served_and_closed() {
    let hello = hello_with_sni(b"example.com");
    let (mut d, _, peeked) = sniff(&[&hello], 4);
    assert!(matches!(d.handle_connection(DispatchEvent::Ready, &peeked), DispatchAction::Serve));
    assert_eq!(d.state(), DispatchState::HttpServe);
    assert!(matches!(d.handle_connection(DispatchEvent::Served, &peeked), DispatchAction::Close));
    assert_eq!(d.state(), DispatchState::Closed);
    assert!(matches!(d.handle_connection(DispatchEvent::Ready, &peeked), DispatchAction::Close));
    assert_eq!(d.state(), DispatchState::Closed);
}

#[test]
fn failure_closes_only_this_connection() {
    for steps in 0..3 {
        let mut d = ConnectionDispatcher::new(4);
        if steps > 0 {
            d.handle_connection(DispatchEvent::Accepted, &[]);
        }
        if steps > 1 {
            d.handle_connection(DispatchEvent::Peeked, b"GET / HTTP/1.1\r\n");
        }
        assert!(matches!(d.handle_connection(DispatchEvent::Failed, &[]), DispatchAction::Close));
        assert_eq!(d.state(), DispatchState::Closed);
    }
}

#[test]
fn event_out_of_turn_closes() {
    let mut d = ConnectionDispatcher::new(4);
    assert!(matches!(d.handle_connection(DispatchEvent::Served, &[]), DispatchAction::Close));
    assert_eq!(d.state(), DispatchState::Closed);
}
