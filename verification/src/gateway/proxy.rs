//! What the gateway decides for each connection it serves.
//!
//! A connection runs through its states in one direction: the first bytes
//! are peeked and searched for a PROXY header, then for a TLS ClientHello;
//! then the connection is either handed to a TLS handshake or passed
//! through as it is; then it is served; then it is closed. The dispatcher
//! decides. Whoever drives it reports what happened and carries out the
//! action that the dispatcher answers with.

pub mod backends;
pub mod protocols;

use crate::gateway::proxy::protocols::{
    get_proxy_protocol,
    get_tls_sni,
    proxy_sniff_of,
    ProxySniff,
    TlsSniff,
};
use crate::protocols::proxyprotocol::{ProxyProtocol, PRROXY_PROTOCOL_READ_BUF_SIZE};
use crate::protocols::tls::{
    hostname_matches,
    sniff_client_hello,
    ProtocolTLS,
    ProtocolTLSError,
    TLS_HANDSHAKE_START_LENGTH,
};
use vstd::prelude::*;

verus! {

/// Where a connection stands.
#[derive(Debug, Clone, Copy, PartialEq, Eq, Structural)]
pub enum DispatchState {
    Start,
    ProxyProtoSniff,
    TlsSniff,
    TlsTerminate,
    PassThrough,
    HttpServe,
    Closed,
}

/// What the driver reports.
#[derive(Debug, Clone, Copy, PartialEq, Eq, Structural)]
pub enum DispatchEvent {
    /// The connection was accepted.
    Accepted,
    /// The peek that was asked for has ended. The bytes come with the
    /// event: all that were peeked on this connection, from its first.
    Peeked,
    /// The TLS handshake is done, or the stream is rewound.
    Ready,
    /// The connection was served to its end.
    Served,
    /// Input or output failed.
    Failed,
}

/// What the dispatcher asks the driver to do.
#[derive(Debug, Clone)]
pub enum DispatchAction {
    /// Peek up to this many bytes more, then report `Peeked`.
    Peek(usize),
    /// Consume the first `skip` bytes, which hold the PROXY header, then
    /// accept a TLS handshake that begins with the peeked ClientHello, with
    /// the certificate for its server name; then report `Ready`.
    AcceptTls { skip: usize, tls: ProtocolTLS },
    /// Consume the first `skip` bytes, which hold the PROXY header, and
    /// rewind the stream so that the other peeked bytes are read again;
    /// then report `Ready`.
    Rewind { skip: usize },
    /// Serve requests on the stream, then report `Served`.
    Serve,
    /// Close the connection.
    Close,
}

/// The dispatcher of one connection.
#[derive(Debug, Clone, Copy, PartialEq, Eq, Structural)]
pub struct ConnectionDispatcher {
    pub state: DispatchState,
    /// How often a sniffer may ask for more bytes.
    pub retry_limit: usize,
    /// How often the sniffer at work may still ask.
    pub retries_left: usize,
    /// The PROXY header that the connection began with.
    pub origin: Option<ProxyProtocol>,
    /// Bytes that the PROXY header takes up.
    pub header_length: usize,
}

/// The place of a state in the course of a connection.
pub open spec fn rank(state: DispatchState) -> nat {
    match state {
        DispatchState::Start => 0,
        DispatchState::ProxyProtoSniff => 1,
        DispatchState::TlsSniff => 2,
        DispatchState::TlsTerminate => 3,
        DispatchState::PassThrough => 3,
        DispatchState::HttpServe => 4,
        DispatchState::Closed => 5,
    }
}

/// The step that gives up sniffing: the connection is passed through as
/// plain bytes.
pub open spec fn passes_through(
    old: ConnectionDispatcher,
    new: ConnectionDispatcher,
    action: DispatchAction,
) -> bool {
    &&& new == (ConnectionDispatcher { state: DispatchState::PassThrough, ..old })
    &&& action matches DispatchAction::Rewind { skip }
    &&& skip == old.header_length
}

/// The step that ends the connection.
pub open spec fn closes(
    old: ConnectionDispatcher,
    new: ConnectionDispatcher,
    action: DispatchAction,
) -> bool {
    &&& new == (ConnectionDispatcher { state: DispatchState::Closed, ..old })
    &&& action is Close
}

/// The bytes behind the PROXY header.
pub open spec fn behind_header(peeked: Seq<u8>, header_length: usize) -> Seq<u8> {
    if header_length <= peeked.len() {
        peeked.skip(header_length as int)
    } else {
        Seq::empty()
    }
}

/// The step of a dispatcher that looks for a ClientHello in `rest`, the
/// peeked bytes behind the PROXY header. A ClientHello goes to the TLS
/// handshake. Missing bytes are peeked while retries are left. Everything
/// else is passed through.
pub open spec fn is_tls_step(
    old: ConnectionDispatcher,
    rest: Seq<u8>,
    new: ConnectionDispatcher,
    action: DispatchAction,
) -> bool {
    if rest.len() == 0 {
        passes_through(old, new, action)
    } else {
        match sniff_client_hello(rest) {
            Ok(Some(summary)) => {
                &&& new == (ConnectionDispatcher { state: DispatchState::TlsTerminate, ..old })
                &&& action matches DispatchAction::AcceptTls { skip, tls }
                &&& skip == old.header_length
                &&& tls.version == summary.version
                &&& hostname_matches(rest, summary.server_name, tls.hostname)
            },
            Err(ProtocolTLSError::WantMoreData(Some(n))) => if old.retries_left > 0 {
                &&& new == (ConnectionDispatcher {
                    retries_left: (old.retries_left - 1) as usize,
                    ..old
                })
                &&& action matches DispatchAction::Peek(m)
                &&& m == n
            } else {
                passes_through(old, new, action)
            },
            _ => passes_through(old, new, action),
        }
    }
}

/// The step of a dispatcher that looks for a PROXY header in the peeked
/// bytes. A header is recorded and the bytes behind it are peeked. Without
/// a header the same bytes are searched for a ClientHello. Missing bytes
/// are peeked while retries are left. A header that cannot be read, or
/// that stays incomplete, does not end the connection: it is passed
/// through.
pub open spec fn is_proxy_step(
    old: ConnectionDispatcher,
    peeked: Seq<u8>,
    new: ConnectionDispatcher,
    action: DispatchAction,
) -> bool {
    match proxy_sniff_of(peeked) {
        ProxySniff::Matched { header, consumed } => {
            &&& new == (ConnectionDispatcher {
                state: DispatchState::TlsSniff,
                retries_left: old.retry_limit,
                origin: Some(header),
                header_length: consumed,
                ..old
            })
            &&& action matches DispatchAction::Peek(m)
            &&& m == TLS_HANDSHAKE_START_LENGTH
        },
        ProxySniff::NoMatch => is_tls_step(
            ConnectionDispatcher {
                state: DispatchState::TlsSniff,
                retries_left: old.retry_limit,
                ..old
            },
            peeked,
            new,
            action,
        ),
        ProxySniff::NeedMore(n) => if old.retries_left > 0 {
            &&& new == (ConnectionDispatcher {
                retries_left: (old.retries_left - 1) as usize,
                ..old
            })
            &&& action matches DispatchAction::Peek(m)
            &&& m == n
        } else {
            passes_through(old, new, action)
        },
        ProxySniff::Invalid(_) => passes_through(old, new, action),
    }
}

/// Whether `new` and `action` are the dispatcher's answer, in the state
/// `old`, to an event that comes with the peeked bytes.
///
/// An event that a state does not wait for closes the connection, and so
/// does a failure.
pub open spec fn is_dispatch_step(
    old: ConnectionDispatcher,
    event: DispatchEvent,
    peeked: Seq<u8>,
    new: ConnectionDispatcher,
    action: DispatchAction,
) -> bool {
    match (old.state, event) {
        (DispatchState::Start, DispatchEvent::Accepted) => {
            &&& new == (ConnectionDispatcher {
                state: DispatchState::ProxyProtoSniff,
                retries_left: old.retry_limit,
                ..old
            })
            &&& action matches DispatchAction::Peek(m)
            &&& m == PRROXY_PROTOCOL_READ_BUF_SIZE
        },
        (DispatchState::ProxyProtoSniff, DispatchEvent::Peeked) => is_proxy_step(
            old,
            peeked,
            new,
            action,
        ),
        (DispatchState::TlsSniff, DispatchEvent::Peeked) => is_tls_step(
            old,
            behind_header(peeked, old.header_length),
            new,
            action,
        ),
        (DispatchState::TlsTerminate, DispatchEvent::Ready) | (
            DispatchState::PassThrough,
            DispatchEvent::Ready,
        ) => {
            &&& new == (ConnectionDispatcher { state: DispatchState::HttpServe, ..old })
            &&& action is Serve
        },
        _ => closes(old, new, action),
    }
}

impl ConnectionDispatcher {
    /// The dispatcher of a connection that is not accepted yet. Each of its
    /// sniffers may ask `retry_limit` times for more bytes.
    pub fn new(retry_limit: usize) -> (r: Self)
        ensures
            r == (ConnectionDispatcher {
                state: DispatchState::Start,
                retry_limit,
                retries_left: retry_limit,
                origin: None,
                header_length: 0,
            }),
    {
        ConnectionDispatcher {
            state: DispatchState::Start,
            retry_limit,
            retries_left: retry_limit,
            origin: None,
            header_length: 0,
        }
    }

    pub fn state(&self) -> (r: DispatchState)
        ensures
            r == self.state,
    {
        self.state
    }

    /// The PROXY header that the connection began with: where the
    /// connection comes from.
    pub fn origin(&self) -> (r: Option<ProxyProtocol>)
        ensures
            r == self.origin,
    {
        self.origin
    }

    fn pass_through(&mut self) -> (action: DispatchAction)
        ensures
            passes_through(*old(self), *final(self), action),
    {
        self.state = DispatchState::PassThrough;
        DispatchAction::Rewind { skip: self.header_length }
    }

    fn tls_step(&mut self, rest: &[u8]) -> (action: DispatchAction)
        ensures
            is_tls_step(*old(self), rest@, *final(self), action),
    {
        match get_tls_sni(rest) {
            TlsSniff::Found(tls) => {
                self.state = DispatchState::TlsTerminate;
                DispatchAction::AcceptTls { skip: self.header_length, tls }
            },
            TlsSniff::NeedMore(n) => {
                if self.retries_left > 0 {
                    self.retries_left = self.retries_left - 1;
                    DispatchAction::Peek(n)
                } else {
                    self.pass_through()
                }
            },
            TlsSniff::NotTls => self.pass_through(),
            TlsSniff::Malformed => self.pass_through(),
        }
    }

    fn proxy_step(&mut self, peeked: &[u8]) -> (action: DispatchAction)
        ensures
            is_proxy_step(*old(self), peeked@, *final(self), action),
    {
        match get_proxy_protocol(peeked) {
            ProxySniff::Matched { header, consumed } => {
                self.state = DispatchState::TlsSniff;
                self.retries_left = self.retry_limit;
                self.origin = Some(header);
                self.header_length = consumed;
                DispatchAction::Peek(TLS_HANDSHAKE_START_LENGTH)
            },
            ProxySniff::NoMatch => {
                self.state = DispatchState::TlsSniff;
                self.retries_left = self.retry_limit;
                self.tls_step(peeked)
            },
            ProxySniff::NeedMore(n) => {
                if self.retries_left > 0 {
                    self.retries_left = self.retries_left - 1;
                    DispatchAction::Peek(n)
                } else {
                    self.pass_through()
                }
            },
            ProxySniff::Invalid(_) => self.pass_through(),
        }
    }

    /// Takes one step in the course of a connection: takes in what
    /// happened, together with all the bytes peeked so far, and answers
    /// with what is to be done next. The connection never returns to a
    /// state that it has left.
    pub fn handle_connection(&mut self, event: DispatchEvent, peeked: &[u8]) -> (action:
        DispatchAction)
        ensures
            is_dispatch_step(*old(self), event, peeked@, *final(self), action),
            rank(final(self).state) >= rank(old(self).state),
    {
        match (self.state, event) {
            (DispatchState::Start, DispatchEvent::Accepted) => {
                self.state = DispatchState::ProxyProtoSniff;
                self.retries_left = self.retry_limit;
                DispatchAction::Peek(PRROXY_PROTOCOL_READ_BUF_SIZE)
            },
            (DispatchState::ProxyProtoSniff, DispatchEvent::Peeked) => self.proxy_step(peeked),
            (DispatchState::TlsSniff, DispatchEvent::Peeked) => {
                let len: usize = peeked.len();
                let from: usize = if self.header_length <= len {
                    self.header_length
                } else {
                    len
                };
                let rest = vstd::slice::slice_subrange(peeked, from, len);
                assert(rest@ =~= behind_header(peeked@, self.header_length));
                self.tls_step(rest)
            },
            (DispatchState::TlsTerminate, DispatchEvent::Ready) => {
                self.state = DispatchState::HttpServe;
                DispatchAction::Serve
            },
            (DispatchState::PassThrough, DispatchEvent::Ready) => {
                self.state = DispatchState::HttpServe;
                DispatchAction::Serve
            },
            _ => {
                self.state = DispatchState::Closed;
                DispatchAction::Close
            },
        }
    }
}

/// A connection never returns to a state that it has left, and a closed
/// connection stays closed.
pub proof fn lemma_dispatch_is_linear(
    old: ConnectionDispatcher,
    event: DispatchEvent,
    peeked: Seq<u8>,
    new: ConnectionDispatcher,
    action: DispatchAction,
)
    requires
        is_dispatch_step(old, event, peeked, new, action),
    ensures
        rank(new.state) >= rank(old.state),
        old.state == DispatchState::Closed ==> new.state == DispatchState::Closed,
        event == DispatchEvent::Failed ==> new.state == DispatchState::Closed && action is Close,
{
}

} // verus!
