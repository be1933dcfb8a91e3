use webgateway::address::{IpAddress, SocketAddress};
use webgateway::gateway::proxy::backends::{
    classify_host, select_server_name, BackendConnectionPool, BackendConnectionPoolConfig,
    PoolAction, PoolEvent, PooledConnection, ServerNameError, TlsServerName,
};

fn target() -> SocketAddress {
    SocketAddress::new(IpAddress::V4(192, 168, 2, 254), 5244)
}

fn pool(max: usize) -> BackendConnectionPool<u32> {
    BackendConnectionPool::new(BackendConnectionPoolConfig::new(target()).max_connections(max))
}

fn hand_out(action: PoolAction<u32>) -> PooledConnection<u32> {
    match action {
        PoolAction::HandOut(handle) => handle,
        other => panic!("unexpected {:?}", other),
    }
}

#[test]
fn config_builders_set_their_fields() {
    let c = BackendConnectionPoolConfig::new(target());
    assert_eq!(c.target, target());
    assert_eq!(c.max_connections, 0);
    assert!(!c.tls);
    assert!(c.tls_config.is_none());
    assert_eq!(c.hostname, None);
    let c = c.max_connections(7);
    assert_eq!(c.max_connections, 7);
    assert_eq!(c.target, target());
}

#[test]
fn zero_max_connections_means_the_largest_permit_count() {
    let p = pool(0);
    assert_eq!(p.available_permits(), usize::MAX >> 3);
    let p = pool(3);
    assert_eq!(p.available_permits(), 3);
    assert_eq!(p.config().max_connections, 3);
}

#[test]
fn empty_pool_connects_and_hands_out() {
    let mut p = pool(2);
    assert!(matches!(p.get(PoolEvent::Acquire), PoolAction::Connect));
    assert_eq!(p.available_permits(), 1);
    assert_eq!(p.pending(), 1);
    let handle = hand_out(p.get(PoolEvent::Connected(41)));
    assert_eq!(handle.conn, Some(41));
    assert_eq!(p.in_use(), 1);
    assert_eq!(p.pending(), 0);
}

#[test]
fn second_get_waits_until_the_first_handle_is_dropped() {
    let mut p = pool(1);
    assert!(matches!(p.get(PoolEvent::Acquire), PoolAction::Connect));
    let first = hand_out(p.get(PoolEvent::Connected(1)));
    // the second caller is told to wait, again and again
    assert!(matches!(p.get(PoolEvent::Acquire), PoolAction::Suspend));
    assert!(matches!(p.get(PoolEvent::Acquire), PoolAction::Suspend));
    assert_eq!(p.in_use(), 1);
    // the first handle is dropped: its permit is back
    let conn = p.release(first).unwrap();
    assert_eq!(p.available_permits(), 1);
    assert_eq!(p.return_connection(conn, true), None);
    // now the second caller goes on, and gets the connection that came back
    match p.get(PoolEvent::Acquire) {
        PoolAction::Probe(c) => assert_eq!(c, 1),
        other => panic!("unexpected {:?}", other),
    }
    let second = hand_out(p.get(PoolEvent::Probed { conn: 1, healthy: true }));
    assert_eq!(second.conn, Some(1));
    assert_eq!(p.in_use(), 1);
}

#[test]
fn never_more_in_use_than_max_connections() {
    let mut p = pool(3);
    let mut handles = Vec::new();
    for i in 0..10u32 {
        match p.get(PoolEvent::Acquire) {
            PoolAction::Connect => handles.push(hand_out(p.get(PoolEvent::Connected(i)))),
            PoolAction::Suspend => {}
            other => panic!("unexpected {:?}", other),
        }
        assert!(p.in_use() <= 3);
    }
    assert_eq!(handles.len(), 3);
    assert_eq!(p.available_permits(), 0);
}

#[test]
fn releasing_frees_exactly_one_permit() {
    let mut p = pool(4);
    assert!(matches!(p.get(PoolEvent::Acquire), PoolAction::Connect));
    let a = hand_out(p.get(PoolEvent::Connected(1)));
    assert!(matches!(p.get(PoolEvent::Acquire), PoolAction::Connect));
    let b = hand_out(p.get(PoolEvent::Connected(2)));
    let before = p.available_permits();
    assert_eq!(p.release(a), Some(1));
    assert_eq!(p.available_permits(), before + 1);
    assert_eq!(p.release(b), Some(2));
    assert_eq!(p.available_permits(), before + 2);
    assert_eq!(p.in_use(), 0);
}

#[test]
fn idle_connections_come_out_in_the_order_they_came_back() {
    let mut p = pool(0);
    p.return_connection(10, true);
    p.return_connection(20, true);
    p.return_connection(30, true);
    assert_eq!(p.idle_connections(), 3);
    assert!(matches!(p.get(PoolEvent::Acquire), PoolAction::Probe(10)));
    let _first = hand_out(p.get(PoolEvent::Probed { conn: 10, healthy: true }));
    assert!(matches!(p.get(PoolEvent::Acquire), PoolAction::Probe(20)));
    assert_eq!(p.idle_connections(), 1);
}

#[test]
fn stale_idle_connections_are_discarded_under_one_permit() {
    let mut p = pool(2);
    p.return_connection(10, true);
    p.return_connection(20, true);
    assert!(matches!(p.get(PoolEvent::Acquire), PoolAction::Probe(10)));
    assert_eq!(p.available_permits(), 1);
    match p.get(PoolEvent::Probed { conn: 10, healthy: false }) {
        PoolAction::DiscardAndProbe { discard, probe } => {
            assert_eq!(discard, 10);
            assert_eq!(probe, 20);
        }
        other => panic!("unexpected {:?}", other),
    }
    match p.get(PoolEvent::Probed { conn: 20, healthy: false }) {
        PoolAction::DiscardAndConnect { discard } => assert_eq!(discard, 20),
        other => panic!("unexpected {:?}", other),
    }
    // still the one permit of this call
    assert_eq!(p.available_permits(), 1);
    let handle = hand_out(p.get(PoolEvent::Connected(99)));
    assert_eq!(handle.conn, Some(99));
    assert_eq!(p.idle_connections(), 0);
}

#[test]
fn connection_that_returns_unhealthy_is_never_handed_out_again() {
    let mut p = pool(2);
    assert!(matches!(p.get(PoolEvent::Acquire), PoolAction::Connect));
    let handle = hand_out(p.get(PoolEvent::Connected(7)));
    let conn = p.release(handle).unwrap();
    // the health check on return fails: the pool gives it back to be closed
    assert_eq!(p.return_connection(conn, false), Some(7));
    assert_eq!(p.idle_connections(), 0);
    // the next callers get new connections
    assert!(matches!(p.get(PoolEvent::Acquire), PoolAction::Connect));
    let _a = hand_out(p.get(PoolEvent::Connected(8)));
    assert!(matches!(p.get(PoolEvent::Acquire), PoolAction::Connect));
}

#[test]
fn failed_connect_gives_the_permit_back() {
    let mut p = pool(1);
    assert!(matches!(p.get(PoolEvent::Acquire), PoolAction::Connect));
    assert_eq!(p.available_permits(), 0);
    assert!(matches!(p.get(PoolEvent::ConnectFailed), PoolAction::Fail));
    assert_eq!(p.available_permits(), 1);
    assert!(matches!(p.get(PoolEvent::Acquire), PoolAction::Connect));
}

#[test]
fn explicit_return_puts_back_and_releases() {
    let mut p = pool(1);
    assert!(matches!(p.get(PoolEvent::Acquire), PoolAction::Connect));
    let handle = hand_out(p.get(PoolEvent::Connected(5)));
    assert_eq!(handle.return_to_pool(&mut p, true), None);
    assert_eq!(p.idle_connections(), 1);
    assert_eq!(p.available_permits(), 1);
    assert!(matches!(p.get(PoolEvent::Acquire), PoolAction::Probe(5)));
    let handle = hand_out(p.get(PoolEvent::Probed { conn: 5, healthy: true }));
    assert_eq!(handle.return_to_pool(&mut p, false), Some(5));
    assert_eq!(p.idle_connections(), 0);
    assert_eq!(p.available_permits(), 1);
}

#[test]
fn server_name_of_a_peer_without_configured_host() {
    assert_eq!(
        select_server_name(None, IpAddress::V4(10, 0, 0, 9)),
        Ok(TlsServerName::IpAddress(IpAddress::V4(10, 0, 0, 9)))
    );
}

#[test]
fn server_name_of_a_configured_address() {
    assert_eq!(
        select_server_name(Some("192.0.2.7".to_string()), IpAddress::V4(10, 0, 0, 9)),
        Ok(TlsServerName::IpAddress(IpAddress::V4(192, 0, 2, 7)))
    );
    assert_eq!(
        select_server_name(Some("::1".to_string()), IpAddress::V4(10, 0, 0, 9)),
        Ok(TlsServerName::IpAddress(IpAddress::V6(0, 0, 0, 0, 0, 0, 0, 1)))
    );
}

#[test]
fn server_name_of_a_configured_dns_name() {
    assert_eq!(
        select_server_name(Some("backend.example.com".to_string()), IpAddress::V4(10, 0, 0, 9)),
        Ok(TlsServerName::DnsName("backend.example.com".to_string()))
    );
    assert_eq!(
        select_server_name(Some("not a name".to_string()), IpAddress::V4(10, 0, 0, 9)),
        Err(ServerNameError::InvalidDnsName)
    );
    assert_eq!(
        select_server_name(Some("".to_string()), IpAddress::V4(10, 0, 0, 9)),
        Err(ServerNameError::InvalidDnsName)
    );
}

#[test]
fn host_is_classified_from_what_was_found_out() {
    let ip = IpAddress::V4(1, 2, 3, 4);
    assert_eq!(classify_host("h".to_string(), Some(ip), false), Ok(TlsServerName::IpAddress(ip)));
    assert_eq!(
        classify_host("h".to_string(), None, true),
        Ok(TlsServerName::DnsName("h".to_string()))
    );
    assert_eq!(
        classify_host("h".to_string(), None, false),
        Err(ServerNameError::InvalidDnsName)
    );
}
