//! The connection reactor's decision core: the server builder, the
//! per-connection protocol state machine, and the round-robin
//! distribution of accepted connections over workers.
//!
//! The sockets, threads and event loops themselves live outside this
//! crate; they feed events in and perform the actions decided here.
use std::sync::Arc;
use vstd::prelude::*;
use crate::bodyparser::BodyParser;
use crate::middleware::MiddleWare;
use crate::request::Request;
use crate::response::Response;
use crate::service::{ArcHandler, ArcService, HandlerKind};

verus! {

/// Relies on num_cpus::get: the number of logical CPUs of the current
/// system, always at least one.
#[verifier::external_body]
fn cpu_count() -> (n: usize)
    ensures
        1 <= n,
{
    num_cpus::get()
}

/// Where one connection stands: accepted, in the optional TLS
/// handshake, bound to the HTTP protocol, serving requests, or closed.
#[derive(Clone, Copy, PartialEq, Eq, Structural, Debug)]
pub enum ConnectionPhase {
    Accepted,
    TlsHandshaking,
    Bound,
    Serving,
    Closed,
}

/// What the connection's owner reports to the state machine.
#[derive(Clone, Copy, PartialEq, Eq, Structural, Debug)]
pub enum ConnEvent {
    Start,
    TlsOk,
    TlsFailed,
    RequestDone,
    PeerClosed,
    IoError,
}

/// What the connection's owner must do next.
#[derive(Clone, Copy, PartialEq, Eq, Structural, Debug)]
pub enum ConnAction {
    Handshake,
    BindProtocol,
    AwaitRequest,
    Drop,
    Idle,
}

/// The per-connection state machine.  A fresh connection handshakes
/// first when TLS is configured and binds the protocol directly when it
/// is not; a handshake failure drops the connection before any HTTP
/// processing; a serving connection keeps serving, request after
/// request, until the peer closes or an I/O error ends it; a closed
/// connection stays closed.  An event that does not belong to the
/// current phase closes the connection.
pub open spec fn spec_advance(phase: ConnectionPhase, event: ConnEvent, tls: bool) -> (
    ConnectionPhase,
    ConnAction,
) {
    match (phase, event) {
        (ConnectionPhase::Accepted, ConnEvent::Start) => if tls {
            (ConnectionPhase::TlsHandshaking, ConnAction::Handshake)
        } else {
            (ConnectionPhase::Bound, ConnAction::BindProtocol)
        },
        (ConnectionPhase::TlsHandshaking, ConnEvent::TlsOk) => (
            ConnectionPhase::Bound,
            ConnAction::BindProtocol,
        ),
        (ConnectionPhase::TlsHandshaking, ConnEvent::TlsFailed) => (
            ConnectionPhase::Closed,
            ConnAction::Drop,
        ),
        (ConnectionPhase::Bound, ConnEvent::Start) => (
            ConnectionPhase::Serving,
            ConnAction::AwaitRequest,
        ),
        (ConnectionPhase::Serving, ConnEvent::RequestDone) => (
            ConnectionPhase::Serving,
            ConnAction::AwaitRequest,
        ),
        (ConnectionPhase::Serving, ConnEvent::PeerClosed) => (
            ConnectionPhase::Closed,
            ConnAction::Drop,
        ),
        (ConnectionPhase::Serving, ConnEvent::IoError) => (
            ConnectionPhase::Closed,
            ConnAction::Drop,
        ),
        (ConnectionPhase::Closed, _) => (ConnectionPhase::Closed, ConnAction::Idle),
        _ => (ConnectionPhase::Closed, ConnAction::Drop),
    }
}

/// Advances one connection's state machine.
pub fn advance(phase: ConnectionPhase, event: ConnEvent, tls: bool) -> (r: (
    ConnectionPhase,
    ConnAction,
))
    ensures
        r == spec_advance(phase, event, tls),
{
    match (phase, event) {
        (ConnectionPhase::Accepted, ConnEvent::Start) => if tls {
            (ConnectionPhase::TlsHandshaking, ConnAction::Handshake)
        } else {
            (ConnectionPhase::Bound, ConnAction::BindProtocol)
        },
        (ConnectionPhase::TlsHandshaking, ConnEvent::TlsOk) => (
            ConnectionPhase::Bound,
            ConnAction::BindProtocol,
        ),
        (ConnectionPhase::TlsHandshaking, ConnEvent::TlsFailed) => (
            ConnectionPhase::Closed,
            ConnAction::Drop,
        ),
        (ConnectionPhase::Bound, ConnEvent::Start) => (
            ConnectionPhase::Serving,
            ConnAction::AwaitRequest,
        ),
        (ConnectionPhase::Serving, ConnEvent::RequestDone) => (
            ConnectionPhase::Serving,
            ConnAction::AwaitRequest,
        ),
        (ConnectionPhase::Serving, ConnEvent::PeerClosed) => (
            ConnectionPhase::Closed,
            ConnAction::Drop,
        ),
        (ConnectionPhase::Serving, ConnEvent::IoError) => (
            ConnectionPhase::Closed,
            ConnAction::Drop,
        ),
        (ConnectionPhase::Closed, _) => (ConnectionPhase::Closed, ConnAction::Idle),
        _ => (ConnectionPhase::Closed, ConnAction::Drop),
    }
}

/// LAW — a closed connection never comes back: no event moves the state
/// machine out of `Closed`, and nothing but `Idle` is asked of its
/// owner.
pub proof fn lemma_closed_is_final(event: ConnEvent, tls: bool)
    ensures
        spec_advance(ConnectionPhase::Closed, event, tls).0 == ConnectionPhase::Closed,
        spec_advance(ConnectionPhase::Closed, event, tls).1 == ConnAction::Idle,
{
}

/// LAW — the handshake happens exactly when TLS is configured: a fresh
/// connection enters the TLS handshake if and only if the reactor was
/// built with TLS, and otherwise binds the protocol at once.
pub proof fn lemma_handshake_iff_tls(tls: bool)
    ensures
        spec_advance(ConnectionPhase::Accepted, ConnEvent::Start, tls).0
            == ConnectionPhase::TlsHandshaking <==> tls,
        !tls ==> spec_advance(ConnectionPhase::Accepted, ConnEvent::Start, tls).1
            == ConnAction::BindProtocol,
{
}

/// LAW — a failed handshake drops the connection before any HTTP
/// processing: from the handshake, failure goes straight to `Closed`.
pub proof fn lemma_handshake_failure_drops(tls: bool)
    ensures
        spec_advance(ConnectionPhase::TlsHandshaking, ConnEvent::TlsFailed, tls) == (
            ConnectionPhase::Closed,
            ConnAction::Drop,
        ),
{
}

/// The acceptor's round-robin choice of worker for each accepted
/// connection.
pub struct RoundRobin {
    pub next: usize,
    pub workers: usize,
}

impl RoundRobin {
    /// The cursor always points at a real worker.
    pub open spec fn wf(&self) -> bool {
        self.next < self.workers
    }

    /// A round-robin over the given number of workers.
    pub fn new(workers: usize) -> (r: RoundRobin)
        requires
            workers >= 1,
        ensures
            r.workers == workers,
            r.next == 0,
            r.wf(),
    {
        RoundRobin { next: 0, workers }
    }

    /// Picks the worker for the next connection and advances the
    /// cursor, wrapping around after the last worker.
    pub fn pick(&mut self) -> (w: usize)
        requires
            old(self).wf(),
        ensures
            w == old(self).next,
            w < old(self).workers,
            final(self).workers == old(self).workers,
            final(self).next == (old(self).next + 1) % (old(self).workers as int),
            final(self).wf(),
    {
        let w = self.next;
        self.next = if self.next + 1 == self.workers {
            0
        } else {
            self.next + 1
        };
        proof {
            if w + 1 == self.workers {
                vstd::arithmetic::div_mod::lemma_mod_self_0(self.workers as int);
            } else {
                vstd::arithmetic::div_mod::lemma_small_mod((w + 1) as nat, self.workers as nat);
            }
        }
        w
    }
}

/// A future's poll callback, wrapped for an event loop that runs one
/// closure every wakeup.
pub struct ReactorHandler<F> {
    pub handler: F,
}

/// The main server: the reactor is where the routes, the middlewares
/// and the listener's configuration are mounted before the event loops
/// start.
///
/// The listening, accepting and serving themselves are I/O and happen
/// outside this crate, driven by this configuration.
pub struct ArcReactor<H, M, A> {
    pub port: i16,
    pub threads: usize,
    pub tls_configured: bool,
    pub before: Option<Arc<M>>,
    pub after: Option<Arc<A>>,
    pub handler: Option<H>,
}

impl<H: ArcService, A: MiddleWare<Response>> ArcReactor<H, BodyParser, A> {
    /// Creates an instance of the server: a default port of `8080`, one
    /// worker per logical CPU, and the JSON body gate mounted as the
    /// default before middleware — every request the reactor serves
    /// passes it unless other middleware is mounted instead.
    pub fn new() -> (r: ArcReactor<H, BodyParser, A>)
        ensures
            r.port == 8080,
            r.threads >= 1,
            !r.tls_configured,
            r.before matches Some(b) && b == BodyParser,
            r.after is None,
            r.handler is None,
    {
        ArcReactor {
            port: 8080,
            threads: cpu_count(),
            tls_configured: false,
            before: Some(Arc::new(BodyParser)),
            after: None,
            handler: None,
        }
    }
}

impl<H: ArcService, A: MiddleWare<Response>> Default for ArcReactor<H, BodyParser, A> {
    /// The default reactor equals `ArcReactor::new()`: port `8080`, one
    /// worker per logical CPU, and the JSON body gate mounted.
    fn default() -> (r: ArcReactor<H, BodyParser, A>)
        ensures
            r.port == 8080,
            r.threads >= 1,
            !r.tls_configured,
            r.before matches Some(b) && b == BodyParser,
            r.after is None,
            r.handler is None,
    {
        ArcReactor::new()
    }
}

impl<H: ArcService, M: MiddleWare<Request>, A: MiddleWare<Response>> ArcReactor<H, M, A> {
    /// Sets the port for the server to listen on.
    pub fn port(self, port: i16) -> (r: Self)
        ensures
            r == (ArcReactor { port, ..self }),
    {
        ArcReactor { port, ..self }
    }

    /// Sets the number of worker event loops.
    pub fn threads(self, count: usize) -> (r: Self)
        requires
            count >= 1,
        ensures
            r == (ArcReactor { threads: count, ..self }),
    {
        ArcReactor { threads: count, ..self }
    }

    /// Configures whether accepted connections go through a TLS
    /// handshake before the protocol is bound.  The acceptor itself is
    /// held outside the crate.
    pub fn tls(self, enabled: bool) -> (r: Self)
        ensures
            r == (ArcReactor { tls_configured: enabled, ..self }),
    {
        ArcReactor { tls_configured: enabled, ..self }
    }

    /// Mounts the router on the reactor.
    pub fn routes(self, routes: H) -> (r: Self)
        ensures
            r == (ArcReactor { handler: Some(routes), ..self }),
    {
        ArcReactor { handler: Some(routes), ..self }
    }

    /// Mounts any service on the reactor.
    pub fn service(self, service: H) -> (r: Self)
        ensures
            r == (ArcReactor { handler: Some(service), ..self }),
    {
        ArcReactor { handler: Some(service), ..self }
    }

    /// Mounts a request middleware that wraps the whole service.
    pub fn before(self, before: M) -> (r: Self)
        ensures
            r.before matches Some(b) && b == before,
            r.after == self.after,
            r.handler == self.handler,
            r.port == self.port,
            r.threads == self.threads,
            r.tls_configured == self.tls_configured,
    {
        ArcReactor { before: Some(Arc::new(before)), ..self }
    }

    /// Mounts a response middleware that wraps the whole service.
    pub fn after(self, after: A) -> (r: Self)
        ensures
            r.after matches Some(a) && a == after,
            r.before == self.before,
            r.handler == self.handler,
            r.port == self.port,
            r.threads == self.threads,
            r.tls_configured == self.tls_configured,
    {
        ArcReactor { after: Some(Arc::new(after)), ..self }
    }

    /// The root composite the reactor's workers run: the mounted service
    /// wrapped in the reactor's before and after middleware, so that
    /// both stages execute on every request the reactor serves.  Nothing
    /// comes back when no service was mounted.
    pub fn compose(self) -> (r: Option<ArcHandler<H, M, A>>)
        ensures
            match r {
                Some(h) => self.handler matches Some(s) && h.before == self.before && h.handler
                    == HandlerKind::<H, M, A>::Leaf(s) && h.after == self.after,
                None => self.handler is None,
            },
    {
        let ArcReactor { port: _, threads: _, tls_configured: _, before, after, handler } = self;
        match handler {
            Some(s) => Some(
                ArcHandler { before, handler: HandlerKind::Leaf(s), after },
            ),
            None => None,
        }
    }
}

} // verus!
