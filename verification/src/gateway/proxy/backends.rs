//! The pool of connections to one backend.
//!
//! The pool decides; it performs no input or output. Whoever drives it
//! reports what happened as a `PoolEvent` and carries out the `PoolAction`
//! that the pool answers with. A connection is a value of any type `C` that
//! the driver chooses.

use crate::address::{parse_ip, parse_ip_spec, IpAddress, SocketAddress};
use std::collections::VecDeque;
use std::sync::Arc;
use vstd::prelude::*;

verus! {

#[verifier::external_type_specification]
#[verifier::external_body]
pub struct ExClientConfig(rustls::ClientConfig);

/// `tokio::sync::Semaphore::MAX_PERMITS`: the largest number of permits
/// that a semaphore holds, which is `usize::MAX` without its three highest
/// bits.
#[verifier::external_body]
fn semaphore_max_permits() -> (n: usize)
    ensures
        n == usize::MAX / 8,
{
    tokio::sync::Semaphore::MAX_PERMITS
}

/// Name for the verdict of `rustls::pki_types::DnsName::try_from` on a
/// text: whether it is a syntactically valid DNS name.
pub uninterp spec fn valid_dns_name(host: Seq<char>) -> bool;

/// `rustls::pki_types::DnsName::try_from`, asked only whether it accepts
/// the text. The verdict is a function of the text alone.
#[verifier::external_body]
fn is_dns_name(host: &str) -> (ok: bool)
    ensures
        ok == valid_dns_name(host@),
{
    rustls::pki_types::DnsName::try_from(host).is_ok()
}

/// The name that a TLS client asks its server for.
#[derive(Debug, Clone, PartialEq, Eq)]
pub enum TlsServerName {
    IpAddress(IpAddress),
    DnsName(String),
}

/// Why no server name could be chosen.
#[derive(Debug, Clone, Copy, PartialEq, Eq, Structural)]
pub enum ServerNameError {
    InvalidDnsName,
}

/// The server name for a host that is configured: its address where the
/// text writes one, else the text itself where it is a DNS name.
pub fn classify_host(host: String, address: Option<IpAddress>, dns_name: bool) -> (r: Result<
    TlsServerName,
    ServerNameError,
>)
    ensures
        match address {
            Some(ip) => r == Ok::<TlsServerName, ServerNameError>(TlsServerName::IpAddress(ip)),
            None => if dns_name {
                r == Ok::<TlsServerName, ServerNameError>(TlsServerName::DnsName(host))
            } else {
                r == Err::<TlsServerName, ServerNameError>(ServerNameError::InvalidDnsName)
            },
        },
{
    match address {
        Some(ip) => Ok(TlsServerName::IpAddress(ip)),
        None => if dns_name {
            Ok(TlsServerName::DnsName(host))
        } else {
            Err(ServerNameError::InvalidDnsName)
        },
    }
}

/// The server name that a TLS connection to a backend asks for. Without a
/// configured host it is the peer's address. A configured host that writes
/// an IP address stands for that address; any other host must be a DNS
/// name.
pub fn select_server_name(hostname: Option<String>, peer: IpAddress) -> (r: Result<
    TlsServerName,
    ServerNameError,
>)
    ensures
        match hostname {
            None => r == Ok::<TlsServerName, ServerNameError>(TlsServerName::IpAddress(peer)),
            Some(host) => match parse_ip_spec(vstd::utf8::encode_utf8(host@)) {
                Some(ip) => r == Ok::<TlsServerName, ServerNameError>(TlsServerName::IpAddress(ip)),
                None => if valid_dns_name(host@) {
                    r == Ok::<TlsServerName, ServerNameError>(TlsServerName::DnsName(host))
                } else {
                    r == Err::<TlsServerName, ServerNameError>(ServerNameError::InvalidDnsName)
                },
            },
        },
{
    match hostname {
        None => Ok(TlsServerName::IpAddress(peer)),
        Some(host) => {
            let address = parse_ip(host.as_str().as_bytes());
            let dns_name = is_dns_name(host.as_str());
            classify_host(host, address, dns_name)
        },
    }
}

/// How a pool reaches its backend.
#[derive(Debug, Clone)]
pub struct BackendConnectionPoolConfig {
    pub target: SocketAddress,
    /// The most connections that are in use at a time; 0 sets no bound.
    pub max_connections: usize,
    pub tls: bool,
    pub tls_config: Option<Arc<rustls::ClientConfig>>,
    pub hostname: Option<String>,
}

impl BackendConnectionPoolConfig {
    pub fn new(target: SocketAddress) -> (r: Self)
        ensures
            r.target == target,
            r.max_connections == 0,
            !r.tls,
            r.tls_config is None,
            r.hostname is None,
    {
        Self { target, max_connections: 0, tls: false, tls_config: None, hostname: None }
    }

    pub fn max_connections(self, max: usize) -> (r: Self)
        ensures
            r.max_connections == max,
            r.target == self.target,
            r.tls == self.tls,
            r.tls_config == self.tls_config,
            r.hostname == self.hostname,
    {
        let mut r = self;
        r.max_connections = max;
        r
    }

    pub fn tls(self, config: Arc<rustls::ClientConfig>, hostname: Option<String>) -> (r: Self)
        ensures
            r.tls,
            r.tls_config == Some(config),
            r.hostname == hostname,
            r.target == self.target,
            r.max_connections == self.max_connections,
    {
        let mut r = self;
        r.tls = true;
        r.tls_config = Some(config);
        r.hostname = hostname;
        r
    }
}

/// A connection lent out by a pool. While it lives it holds one of the
/// pool's permits.
#[derive(Debug)]
pub struct PooledConnection<C> {
    pub conn: Option<C>,
}

/// What the driver reports to the pool in the course of one `get`.
#[derive(Debug)]
pub enum PoolEvent<C> {
    /// A caller asks for a connection, or asks again after it was told to
    /// wait and a permit has come back.
    Acquire,
    /// The health check of the connection that the pool offered has ended.
    Probed { conn: C, healthy: bool },
    /// The new connection that the pool asked for is established.
    Connected(C),
    /// The new connection that the pool asked for could not be made.
    ConnectFailed,
}

/// What the pool asks the driver to do next.
#[derive(Debug)]
pub enum PoolAction<C> {
    /// All permits are out: wait for one, then report `Acquire` again.
    Suspend,
    /// Check this idle connection's health, then report `Probed`.
    Probe(C),
    /// No idle connection is left: establish one, then report `Connected`
    /// or `ConnectFailed`.
    Connect,
    /// Close the first connection; check the second, then report `Probed`.
    DiscardAndProbe { discard: C, probe: C },
    /// Close the connection; establish a new one, then report `Connected`
    /// or `ConnectFailed`.
    DiscardAndConnect { discard: C },
    /// Give this connection to the caller.
    HandOut(PooledConnection<C>),
    /// Tell the caller that no connection could be made. Its permit is
    /// back in the pool.
    Fail,
}

/// The largest number of permits that a pool holds.
pub open spec fn max_permits() -> usize {
    (usize::MAX / 8) as usize
}

/// The number of permits of a pool that is configured with
/// `max_connections`.
pub open spec fn permits_for(max_connections: usize) -> usize {
    if max_connections == 0 {
        max_permits()
    } else {
        max_connections
    }
}

/// A pool as a mathematical value.
pub ghost struct PoolModel<C> {
    /// The idle connections, the one that waited longest first.
    pub idle: Seq<C>,
    /// All permits, issued or not.
    pub capacity: nat,
    /// Permits that are out: with a `get` under way, or with a connection
    /// that was handed out.
    pub issued: nat,
    /// Connections that were handed out and have not come back.
    pub live: nat,
}

impl<C> PoolModel<C> {
    /// No more connections are in use than permits are out, and no more
    /// permits are out than the pool has.
    pub open spec fn wf(self) -> bool {
        self.live <= self.issued <= self.capacity
    }

    /// Permits that can still be issued.
    pub open spec fn available(self) -> nat {
        (self.capacity - self.issued) as nat
    }

    /// Calls of `get` that hold a permit and have no connection yet.
    pub open spec fn pending(self) -> nat {
        (self.issued - self.live) as nat
    }

    /// Whether the pool can take the event: all but `Acquire` belong to a
    /// `get` that holds a permit.
    pub open spec fn accepts(self, event: PoolEvent<C>) -> bool {
        event is Acquire || self.pending() > 0
    }

    /// The next step of a `get` that holds a permit: the idle connection
    /// that waited longest is to be probed, or a new one is to be made.
    pub open spec fn offer(self) -> (PoolModel<C>, PoolAction<C>) {
        if self.idle.len() > 0 {
            (PoolModel { idle: self.idle.drop_first(), ..self }, PoolAction::Probe(self.idle[0]))
        } else {
            (self, PoolAction::Connect)
        }
    }

    /// The pool after an event, and what it asks for.
    pub open spec fn step(self, event: PoolEvent<C>) -> (PoolModel<C>, PoolAction<C>) {
        match event {
            PoolEvent::Acquire => if self.issued < self.capacity {
                (PoolModel { issued: self.issued + 1, ..self }).offer()
            } else {
                (self, PoolAction::Suspend)
            },
            PoolEvent::Probed { conn, healthy } => if healthy {
                (
                    PoolModel { live: self.live + 1, ..self },
                    PoolAction::HandOut(PooledConnection { conn: Some(conn) }),
                )
            } else if self.idle.len() > 0 {
                (
                    PoolModel { idle: self.idle.drop_first(), ..self },
                    PoolAction::DiscardAndProbe { discard: conn, probe: self.idle[0] },
                )
            } else {
                (self, PoolAction::DiscardAndConnect { discard: conn })
            },
            PoolEvent::Connected(conn) => (
                PoolModel { live: self.live + 1, ..self },
                PoolAction::HandOut(PooledConnection { conn: Some(conn) }),
            ),
            PoolEvent::ConnectFailed => (
                PoolModel { issued: (self.issued - 1) as nat, ..self },
                PoolAction::Fail,
            ),
        }
    }

    /// The pool after a handed-out connection was dropped: its permit is
    /// back.
    pub open spec fn released(self) -> PoolModel<C> {
        PoolModel { issued: (self.issued - 1) as nat, live: (self.live - 1) as nat, ..self }
    }

    /// The pool after a connection came back with the verdict of its health
    /// check: a healthy one waits behind the others, an unhealthy one is
    /// not kept.
    pub open spec fn returned(self, conn: C, healthy: bool) -> PoolModel<C> {
        if healthy {
            PoolModel { idle: self.idle.push(conn), ..self }
        } else {
            self
        }
    }
}

/// The pool of connections to one backend.
pub struct BackendConnectionPool<C> {
    config: BackendConnectionPoolConfig,
    idle: VecDeque<C>,
    capacity: usize,
    issued: usize,
    live: usize,
}

impl<C> View for BackendConnectionPool<C> {
    type V = PoolModel<C>;

    closed spec fn view(&self) -> PoolModel<C> {
        PoolModel {
            idle: self.idle@,
            capacity: self.capacity as nat,
            issued: self.issued as nat,
            live: self.live as nat,
        }
    }
}

impl<C> BackendConnectionPool<C> {
    /// The pool's counters are consistent with each other and with its
    /// configuration.
    pub closed spec fn wf(&self) -> bool {
        &&& self.live <= self.issued <= self.capacity
        &&& self.capacity == permits_for(self.config.max_connections)
        &&& self.capacity <= max_permits()
    }

    /// A well-formed pool never has more connections in use than permits
    /// out, nor more permits out than it has.
    pub proof fn lemma_wf_bounds(&self)
        requires
            self.wf(),
        ensures
            self@.wf(),
            self@.capacity == permits_for(self.spec_config().max_connections),
    {
    }

    /// The configuration that the pool was made with.
    pub closed spec fn spec_config(&self) -> BackendConnectionPoolConfig {
        self.config
    }

    /// A pool without connections and with all permits in it.
    pub fn new(config: BackendConnectionPoolConfig) -> (pool: Self)
        requires
            config.max_connections <= max_permits(),
        ensures
            pool@ == (PoolModel::<C> {
                idle: Seq::empty(),
                capacity: permits_for(config.max_connections) as nat,
                issued: 0,
                live: 0,
            }),
            pool.spec_config() == config,
            pool.wf(),
    {
        let capacity: usize = if config.max_connections == 0 {
            semaphore_max_permits()
        } else {
            config.max_connections
        };
        Self { config, idle: VecDeque::new(), capacity, issued: 0, live: 0 }
    }

    pub fn config(&self) -> (r: &BackendConnectionPoolConfig)
        ensures
            *r == self.spec_config(),
    {
        &self.config
    }

    /// Permits that can still be issued.
    pub fn available_permits(&self) -> (n: usize)
        requires
            self.wf(),
        ensures
            n == self@.available(),
    {
        self.capacity - self.issued
    }

    /// Connections that were handed out and have not come back.
    pub fn in_use(&self) -> (n: usize)
        ensures
            n == self@.live,
    {
        self.live
    }

    /// Calls of `get` that hold a permit and have no connection yet.
    pub fn pending(&self) -> (n: usize)
        requires
            self.wf(),
        ensures
            n == self@.pending(),
    {
        self.issued - self.live
    }

    /// Connections that wait in the pool.
    pub fn idle_connections(&self) -> (n: usize)
        ensures
            n == self@.idle.len(),
    {
        self.idle.len()
    }

    /// The next step of a `get` that holds a permit.
    fn offer(&mut self) -> (action: PoolAction<C>)
        requires
            old(self).wf(),
        ensures
            (final(self)@, action) == old(self)@.offer(),
            final(self).spec_config() == old(self).spec_config(),
            final(self).wf(),
    {
        match self.idle.pop_front() {
            Some(conn) => PoolAction::Probe(conn),
            None => PoolAction::Connect,
        }
    }

    /// Takes one step of handing out a connection: the pool takes in what
    /// happened and answers with what is to be done next. A caller's `get`
    /// begins with `Acquire` and ends with `HandOut` or `Fail`.
    pub fn get(&mut self, event: PoolEvent<C>) -> (action: PoolAction<C>)
        requires
            old(self).wf(),
            old(self)@.accepts(event),
        ensures
            (final(self)@, action) == old(self)@.step(event),
            final(self).spec_config() == old(self).spec_config(),
            final(self).wf(),
    {
        match event {
            PoolEvent::Acquire => {
                if self.issued < self.capacity {
                    self.issued = self.issued + 1;
                    self.offer()
                } else {
                    PoolAction::Suspend
                }
            },
            PoolEvent::Probed { conn, healthy } => {
                if healthy {
                    self.live = self.live + 1;
                    PoolAction::HandOut(PooledConnection { conn: Some(conn) })
                } else {
                    match self.idle.pop_front() {
                        Some(next) => PoolAction::DiscardAndProbe { discard: conn, probe: next },
                        None => PoolAction::DiscardAndConnect { discard: conn },
                    }
                }
            },
            PoolEvent::Connected(conn) => {
                self.live = self.live + 1;
                PoolAction::HandOut(PooledConnection { conn: Some(conn) })
            },
            PoolEvent::ConnectFailed => {
                self.issued = self.issued - 1;
                PoolAction::Fail
            },
        }
    }

    /// Takes back the permit of a connection that was handed out and is
    /// dropped, and gives the connection, which is to be probed and then
    /// passed to `return_connection`.
    pub fn release(&mut self, handle: PooledConnection<C>) -> (conn: Option<C>)
        requires
            old(self).wf(),
            old(self)@.live > 0,
        ensures
            final(self)@ == old(self)@.released(),
            final(self)@.available() == old(self)@.available() + 1,
            final(self).spec_config() == old(self).spec_config(),
            final(self).wf(),
            conn == handle.conn,
    {
        self.live = self.live - 1;
        self.issued = self.issued - 1;
        handle.conn
    }

    /// Takes a connection back with the verdict of its health check. A
    /// healthy one waits behind the idle ones. An unhealthy one is given
    /// back to be closed, and the pool is as it was.
    pub fn return_connection(&mut self, conn: C, healthy: bool) -> (close: Option<C>)
        requires
            old(self).wf(),
        ensures
            final(self)@ == old(self)@.returned(conn, healthy),
            final(self).spec_config() == old(self).spec_config(),
            final(self).wf(),
            close == if healthy {
                None
            } else {
                Some(conn)
            },
    {
        if !healthy {
            return Some(conn);
        }
        self.idle.push_back(conn);
        None
    }
}

impl<C> PooledConnection<C> {
    /// Gives the connection back by hand: it returns to the pool with the
    /// verdict of its health check, and then the permit is released. What
    /// comes out is to be closed.
    pub fn return_to_pool(self, pool: &mut BackendConnectionPool<C>, healthy: bool) -> (close: Option<
        C,
    >)
        requires
            old(pool).wf(),
            old(pool)@.live > 0,
        ensures
            final(pool).wf(),
            final(pool)@ == (match self.conn {
                Some(conn) => old(pool)@.returned(conn, healthy).released(),
                None => old(pool)@.released(),
            }),
            final(pool).spec_config() == old(pool).spec_config(),
            close == (match self.conn {
                Some(conn) => if healthy {
                    None
                } else {
                    Some(conn)
                },
                None => None,
            }),
    {
        let mut handle = self;
        let close = match handle.conn.take() {
            Some(conn) => pool.return_connection(conn, healthy),
            None => None,
        };
        let _ = pool.release(handle);
        close
    }
}

/// Every step keeps the bound: no more connections are in use than
/// permits are out, and no more permits are out than the pool has. A
/// connection is handed out only under a permit that was free before, and
/// nothing else puts a connection into use.
pub proof fn lemma_step_keeps_bound<C>(pool: PoolModel<C>, event: PoolEvent<C>)
    requires
        pool.wf(),
        pool.accepts(event),
    ensures
        pool.step(event).0.wf(),
        pool.step(event).0.capacity == pool.capacity,
        pool.step(event).0.live <= pool.capacity,
        pool.step(event).1 is HandOut ==> pool.step(event).0.live == pool.live + 1 && pool.live
            < pool.capacity,
        !(pool.step(event).1 is HandOut) ==> pool.step(event).0.live == pool.live,
{
}

/// A pool whose permits are all out makes the next caller wait, and stays
/// as it is.
pub proof fn lemma_full_pool_suspends<C>(pool: PoolModel<C>)
    requires
        pool.wf(),
        pool.issued == pool.capacity,
    ensures
        pool.step(PoolEvent::Acquire) == (pool, PoolAction::<C>::Suspend),
{
}

/// Dropping a connection that was handed out frees exactly one permit.
pub proof fn lemma_release_frees_one_permit<C>(pool: PoolModel<C>)
    requires
        pool.wf(),
        pool.live > 0,
    ensures
        pool.released().wf(),
        pool.released().available() == pool.available() + 1,
        pool.released().live == pool.live - 1,
        pool.released().idle == pool.idle,
{
}

/// A connection that comes back unhealthy leaves no trace in the pool.
pub proof fn lemma_unhealthy_return_is_forgotten<C>(pool: PoolModel<C>, conn: C)
    ensures
        pool.returned(conn, false) == pool,
{
}

/// What a step offers for probing is the idle connection that waited
/// longest, and what it hands out is the connection that the event
/// brought: one that was probed healthy, or a new one. So a step never
/// gives out a connection that is neither idle nor new.
pub proof fn lemma_offers_come_from_idle<C>(pool: PoolModel<C>, event: PoolEvent<C>)
    requires
        pool.wf(),
        pool.accepts(event),
    ensures
        match pool.step(event).1 {
            PoolAction::Probe(conn) => pool.idle.len() > 0 && conn == pool.idle[0]
                && pool.step(event).0.idle == pool.idle.drop_first(),
            PoolAction::DiscardAndProbe { discard, probe } => pool.idle.len() > 0 && probe
                == pool.idle[0] && pool.step(event).0.idle == pool.idle.drop_first() && (
            event matches PoolEvent::Probed { conn, healthy } && !healthy && conn == discard),
            PoolAction::DiscardAndConnect { discard } => pool.idle.len() == 0 && (
            event matches PoolEvent::Probed { conn, healthy } && !healthy && conn == discard),
            PoolAction::Connect => pool.idle.len() == 0,
            PoolAction::HandOut(handle) => (event matches PoolEvent::Probed { conn, healthy }
                && healthy && handle.conn == Some(conn)) || (event matches PoolEvent::Connected(
                conn,
            ) && handle.conn == Some(conn)),
            _ => true,
        },
{
}

} // verus!
