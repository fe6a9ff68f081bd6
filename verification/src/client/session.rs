//! Client session lifecycle for connecting to an RDMA KV server.
//!
//! A [`ClientSession`] holds what a client knows of its server. It comes of a
//! [`Handshake`]:
//!
//! 1. Connect to the control plane
//! 2. Negotiate protocol version
//! 3. Discover server metadata
//! 4. Auto-detect transport: try RDMA first, fall back to TCP
//!
//! The handshake says what to do next; the caller does it and says what came of
//! it.
//!
//! # Keepalive & Reconnection
//!
//! A heartbeat response tells when the server has restarted (its generation has
//! changed). On reconnect, all cached MR metadata is invalidated and
//! re-discovered.

use vstd::prelude::*;
use vstd::string::*;

use crate::control::proto;
use crate::control::proto::{
    HeartbeatResponse, MetadataView, RegionMetadata, RegionType, ServerMetadata,
};
use crate::error;
use crate::error::{ErrorView, RdmaError};
use crate::text;

verus! {

/// Default heartbeat interval (milliseconds).
pub const DEFAULT_HEARTBEAT_INTERVAL_MS: u64 = 1_000;

/// Minimum compatible server protocol version.
pub const MIN_COMPATIBLE_VERSION: u32 = 1;

/// TLS configuration for mTLS client connections.
///
/// All fields are PEM-encoded strings.
#[derive(Debug)]
pub struct TlsConfig {
    /// PEM-encoded CA certificate used to verify the server.
    pub ca_cert_pem: String,
    /// PEM-encoded client certificate (for mutual TLS).
    pub client_cert_pem: String,
    /// PEM-encoded client private key.
    pub client_key_pem: String,
}

impl Clone for TlsConfig {
    fn clone(&self) -> (r: Self)
        ensures
            r.ca_cert_pem@ == self.ca_cert_pem@,
            r.client_cert_pem@ == self.client_cert_pem@,
            r.client_key_pem@ == self.client_key_pem@,
    {
        TlsConfig {
            ca_cert_pem: self.ca_cert_pem.clone(),
            client_cert_pem: self.client_cert_pem.clone(),
            client_key_pem: self.client_key_pem.clone(),
        }
    }
}

// ---------------------------------------------------------------------------
// Errors
// ---------------------------------------------------------------------------
/// Error type for client session operations.
#[derive(Debug)]
pub enum ClientSessionError {
    /// gRPC status error from the control plane.
    Grpc(String),
    /// gRPC transport error (connection refused, timeout, etc.).
    Transport(String),
    /// RDMA hardware or internal error.
    Rdma(RdmaError),
    /// No RDMA device found on the system.
    NoDevice,
    /// Server metadata is missing a required memory region.
    MissingRegion(String),
    /// Protocol version mismatch between client and server.
    VersionMismatch(String),
    /// TLS configuration or handshake error.
    Tls(String),
}

/// A session error as a value.
pub enum SessionErrorView {
    Grpc(Seq<char>),
    Transport(Seq<char>),
    Rdma(ErrorView),
    NoDevice,
    MissingRegion(Seq<char>),
    VersionMismatch(Seq<char>),
    Tls(Seq<char>),
}

impl View for ClientSessionError {
    type V = SessionErrorView;

    open spec fn view(&self) -> SessionErrorView {
        match *self {
            ClientSessionError::Grpc(s) => SessionErrorView::Grpc(s@),
            ClientSessionError::Transport(s) => SessionErrorView::Transport(s@),
            ClientSessionError::Rdma(e) => SessionErrorView::Rdma(e@),
            ClientSessionError::NoDevice => SessionErrorView::NoDevice,
            ClientSessionError::MissingRegion(s) => SessionErrorView::MissingRegion(s@),
            ClientSessionError::VersionMismatch(s) => SessionErrorView::VersionMismatch(s@),
            ClientSessionError::Tls(s) => SessionErrorView::Tls(s@),
        }
    }
}

/// The message of a session error.
pub open spec fn session_message(e: SessionErrorView) -> Seq<char> {
    match e {
        SessionErrorView::Grpc(s) => "gRPC error: "@ + s,
        SessionErrorView::Transport(s) => "gRPC transport: "@ + s,
        SessionErrorView::Rdma(e) => "RDMA error: "@ + error::error_message(e),
        SessionErrorView::NoDevice => "No RDMA device found"@,
        SessionErrorView::MissingRegion(s) => "Server metadata missing required region: "@ + s,
        SessionErrorView::VersionMismatch(s) => "version mismatch: "@ + s,
        SessionErrorView::Tls(s) => "TLS error: "@ + s,
    }
}

impl ClientSessionError {
    /// The message that this error shows.
    pub fn message(&self) -> (r: String)
        ensures
            r@ == session_message(self@),
    {
        match self {
            ClientSessionError::Grpc(s) => text::prefixed("gRPC error: ", s.as_str()),
            ClientSessionError::Transport(s) => text::prefixed("gRPC transport: ", s.as_str()),
            ClientSessionError::Rdma(e) => {
                let inner: String = e.message();
                text::prefixed("RDMA error: ", inner.as_str())
            },
            ClientSessionError::NoDevice => "No RDMA device found".to_owned(),
            ClientSessionError::MissingRegion(s) => text::prefixed(
                "Server metadata missing required region: ",
                s.as_str(),
            ),
            ClientSessionError::VersionMismatch(s) => text::prefixed(
                "version mismatch: ",
                s.as_str(),
            ),
            ClientSessionError::Tls(s) => text::prefixed("TLS error: ", s.as_str()),
        }
    }
}

impl From<RdmaError> for ClientSessionError {
    fn from(e: RdmaError) -> (r: Self) {
        ClientSessionError::Rdma(e)
    }
}

impl vstd::std_specs::convert::FromSpecImpl<RdmaError> for ClientSessionError {
    open spec fn obeys_from_spec() -> bool {
        true
    }

    open spec fn from_spec(e: RdmaError) -> ClientSessionError {
        ClientSessionError::Rdma(e)
    }
}

// ---------------------------------------------------------------------------
// ClientSession
// ---------------------------------------------------------------------------
/// A client session connected to an RDMA KV server.
#[derive(Debug)]
pub struct ClientSession {
    /// Unique client ID (locally assigned).
    pub client_id: u64,
    /// Server address for reconnection.
    pub server_addr: String,
    /// Server metadata: MR regions, generation, bucket count.
    pub metadata: ServerMetadata,
    /// Server protocol version.
    pub server_version: u32,
    /// Heartbeat interval, in milliseconds.
    pub heartbeat_interval: u64,
}

/// A session as a value.
pub struct SessionView {
    pub client_id: u64,
    pub server_addr: Seq<char>,
    pub metadata: MetadataView,
    pub server_version: u32,
    pub heartbeat_interval: u64,
}

impl View for ClientSession {
    type V = SessionView;

    open spec fn view(&self) -> SessionView {
        SessionView {
            client_id: self.client_id,
            server_addr: self.server_addr@,
            metadata: self.metadata@,
            server_version: self.server_version,
            heartbeat_interval: self.heartbeat_interval,
        }
    }
}

/// Reconnection is needed: the server asks for it, or its generation has changed.
pub open spec fn reconnect_needed(m: MetadataView, response: HeartbeatResponse) -> bool {
    response.reconnect || response.generation != m.generation
}

impl ClientSession {
    /// Get server metadata (MR regions, generation, bucket count).
    pub fn metadata(&self) -> (r: &ServerMetadata)
        ensures
            r@ == self@.metadata,
    {
        &self.metadata
    }

    /// Get the hash table region metadata, if present.
    pub fn hash_table_region(&self) -> (r: Option<&RegionMetadata>)
        ensures
            match r {
                Some(m) => proto::region_of(self@.metadata.regions, RegionType::HashTable) == Some(
                    *m,
                ),
                None => proto::region_of(self@.metadata.regions, RegionType::HashTable) is None,
            },
    {
        self.metadata.region(RegionType::HashTable)
    }

    /// Get the large object region metadata, if present.
    pub fn large_object_region(&self) -> (r: Option<&RegionMetadata>)
        ensures
            match r {
                Some(m) => proto::region_of(self@.metadata.regions, RegionType::LargeObject)
                    == Some(*m),
                None => proto::region_of(self@.metadata.regions, RegionType::LargeObject) is None,
            },
    {
        self.metadata.region(RegionType::LargeObject)
    }

    /// Get the free list region metadata, if present.
    pub fn free_list_region(&self) -> (r: Option<&RegionMetadata>)
        ensures
            match r {
                Some(m) => proto::region_of(self@.metadata.regions, RegionType::FreeList) == Some(
                    *m,
                ),
                None => proto::region_of(self@.metadata.regions, RegionType::FreeList) is None,
            },
    {
        self.metadata.region(RegionType::FreeList)
    }

    /// Takes over re-discovered server metadata; a failed discovery leaves the
    /// cached copy as it is.
    ///
    /// Useful when the server rotates memory regions (generation bump).
    pub fn refresh_metadata(&mut self, discovered: Result<ServerMetadata, String>) -> (r: Result<
        (),
        ClientSessionError,
    >)
        ensures
            match discovered {
                Ok(m) => r is Ok && final(self)@ == (SessionView {
                    metadata: m@,
                    ..old(self)@
                }),
                Err(status) => final(self)@ == old(self)@ && (r matches Err(e) && e@
                    == SessionErrorView::Grpc(status@)),
            },
    {
        match discovered {
            Ok(m) => {
                self.metadata = m;
                Ok(())
            },
            Err(status) => Err(ClientSessionError::Grpc(status)),
        }
    }

    /// Invalidate all cached remote memory region metadata.
    /// Called when server restarts (generation change detected).
    pub fn invalidate_mr_metadata(&mut self)
        ensures
            final(self)@ == (SessionView { metadata: proto::no_metadata(), ..old(self)@ }),
    {
        self.metadata = ServerMetadata::default();
    }

    /// Check if reconnection is needed based on heartbeat response.
    ///
    /// Returns `true` if the server explicitly requests reconnect, or if
    /// the server's generation has changed (indicating a restart).
    pub fn check_reconnect_needed(&self, response: &HeartbeatResponse) -> (b: bool)
        ensures
            b == reconnect_needed(self@.metadata, *response),
    {
        response.reconnect || response.generation != self.metadata.generation
    }

    /// Begins to connect to a server; the first thing to do is to connect to its
    /// control plane.
    pub fn connect(server_addr: &str, client_id: u64) -> (h: Handshake)
        ensures
            h@ == (HandshakeView {
                client_id,
                server_addr: server_addr@,
                stage: StageView::Control,
            }),
    {
        Handshake {
            client_id,
            server_addr: server_addr.to_owned(),
            stage: HandshakeStage::Control,
        }
    }

    /// Begins a full reconnect: the old metadata is invalidated, and the first
    /// thing to do is to re-discover it.
    ///
    /// # Steps
    ///
    /// 1. Invalidate old MR metadata
    /// 2. Re-discover server metadata
    /// 3. Reconnect transport
    /// 4. Update local state: the session that comes of the handshake
    pub fn reconnect(&mut self) -> (h: Handshake)
        ensures
            final(self)@ == (SessionView { metadata: proto::no_metadata(), ..old(self)@ }),
            h@ == (HandshakeView {
                client_id: old(self)@.client_id,
                server_addr: old(self)@.server_addr,
                stage: StageView::Discover { version: old(self)@.server_version },
            }),
    {
        self.invalidate_mr_metadata();
        Handshake {
            client_id: self.client_id,
            server_addr: self.server_addr.clone(),
            stage: HandshakeStage::Discover { version: self.server_version },
        }
    }
}

// ---------------------------------------------------------------------------
// Handshake
// ---------------------------------------------------------------------------
/// The message about a server that is too old.
pub open spec fn version_message(version: u32) -> Seq<char> {
    "Server version "@ + text::decimal(version as nat)
        + " is incompatible; minimum required is "@ + text::decimal(MIN_COMPATIBLE_VERSION as nat)
}

/// The address of the TCP fallback: the same host, on the next port. An address
/// without a port that has a next one is taken as it is.
pub open spec fn tcp_addr(addr: Seq<char>) -> Seq<char> {
    match text::last_of(addr, ':') {
        None => addr,
        Some(i) => match text::decimal_value(addr.skip(i + 1)) {
            Some(port) if port < 65535 => addr.take(i + 1) + text::decimal(port + 1),
            _ => addr,
        },
    }
}

/// The address of the TCP fallback.
pub fn tcp_fallback_addr(addr: &str) -> (r: String)
    ensures
        r@ == tcp_addr(addr@),
{
    match text::find_last(addr, ':') {
        None => addr.to_owned(),
        Some(i) => match text::parse_decimal(addr, i + 1, 65534) {
            Some(port) => {
                let mut r: String = addr.substring_char(0, i + 1).to_owned();
                text::append_decimal(&mut r, (port + 1) as u64);
                assert(addr@.subrange(0, i + 1) =~= addr@.take(i + 1));
                r
            },
            None => addr.to_owned(),
        },
    }
}

/// Where a handshake stands, as a value.
pub enum StageView {
    /// Connecting to the control plane.
    Control,
    /// Asking for the protocol version.
    Version,
    /// Discovering the metadata of a server of this version.
    Discover { version: u32 },
    /// Connecting over RDMA.
    Rdma { version: u32, metadata: MetadataView },
    /// Connecting over TCP.
    Tcp { version: u32, metadata: MetadataView },
}

/// A handshake as a value.
pub struct HandshakeView {
    pub client_id: u64,
    pub server_addr: Seq<char>,
    pub stage: StageView,
}

/// Where a handshake stands.
#[derive(Debug)]
pub enum HandshakeStage {
    Control,
    Version,
    Discover { version: u32 },
    Rdma { version: u32, metadata: ServerMetadata },
    Tcp { version: u32, metadata: ServerMetadata },
}

impl View for HandshakeStage {
    type V = StageView;

    open spec fn view(&self) -> StageView {
        match *self {
            HandshakeStage::Control => StageView::Control,
            HandshakeStage::Version => StageView::Version,
            HandshakeStage::Discover { version } => StageView::Discover { version },
            HandshakeStage::Rdma { version, metadata } => StageView::Rdma {
                version,
                metadata: metadata@,
            },
            HandshakeStage::Tcp { version, metadata } => StageView::Tcp {
                version,
                metadata: metadata@,
            },
        }
    }
}

/// Connecting to a server.
#[derive(Debug)]
pub struct Handshake {
    pub client_id: u64,
    pub server_addr: String,
    pub stage: HandshakeStage,
}

impl View for Handshake {
    type V = HandshakeView;

    open spec fn view(&self) -> HandshakeView {
        HandshakeView {
            client_id: self.client_id,
            server_addr: self.server_addr@,
            stage: self.stage@,
        }
    }
}

/// What to do next in a handshake.
#[derive(Debug)]
pub enum SessionAction {
    /// Connect to the control plane at this address.
    OpenControl(String),
    /// Ask the control plane for the protocol version.
    AskVersion,
    /// Ask the control plane for the metadata.
    Discover,
    /// Connect over RDMA to the server at this address.
    OpenRdma(String),
    /// Connect over TCP to this address.
    OpenTcp(String),
}

/// An action as a value.
pub enum ActionView {
    OpenControl(Seq<char>),
    AskVersion,
    Discover,
    OpenRdma(Seq<char>),
    OpenTcp(Seq<char>),
}

impl View for SessionAction {
    type V = ActionView;

    open spec fn view(&self) -> ActionView {
        match *self {
            SessionAction::OpenControl(a) => ActionView::OpenControl(a@),
            SessionAction::AskVersion => ActionView::AskVersion,
            SessionAction::Discover => ActionView::Discover,
            SessionAction::OpenRdma(a) => ActionView::OpenRdma(a@),
            SessionAction::OpenTcp(a) => ActionView::OpenTcp(a@),
        }
    }
}

/// What came of an action. The texts are those of the control plane's errors.
#[derive(Debug)]
pub enum SessionEvent {
    ControlOpened,
    ControlFailed(String),
    Version(u32),
    Metadata(ServerMetadata),
    /// The control plane answered with an error status.
    StatusError(String),
    TransportOpened,
    TransportFailed(RdmaError),
}

/// An event as a value.
pub enum EventView {
    ControlOpened,
    ControlFailed(Seq<char>),
    Version(u32),
    Metadata(MetadataView),
    StatusError(Seq<char>),
    TransportOpened,
    TransportFailed(ErrorView),
}

impl View for SessionEvent {
    type V = EventView;

    open spec fn view(&self) -> EventView {
        match *self {
            SessionEvent::ControlOpened => EventView::ControlOpened,
            SessionEvent::ControlFailed(s) => EventView::ControlFailed(s@),
            SessionEvent::Version(v) => EventView::Version(v),
            SessionEvent::Metadata(m) => EventView::Metadata(m@),
            SessionEvent::StatusError(s) => EventView::StatusError(s@),
            SessionEvent::TransportOpened => EventView::TransportOpened,
            SessionEvent::TransportFailed(e) => EventView::TransportFailed(e@),
        }
    }
}

/// How a handshake goes on.
#[derive(Debug)]
pub enum SessionStep {
    /// Do this and hand back what came of it.
    Perform(SessionAction),
    /// The session is there; whether it uses RDMA.
    Connected(ClientSession, bool),
    /// The handshake failed.
    Failed(ClientSessionError),
}

/// A step as a value.
pub enum SessionStepView {
    Perform(ActionView),
    Connected(SessionView, bool),
    Failed(SessionErrorView),
}

impl View for SessionStep {
    type V = SessionStepView;

    open spec fn view(&self) -> SessionStepView {
        match *self {
            SessionStep::Perform(a) => SessionStepView::Perform(a@),
            SessionStep::Connected(s, rdma) => SessionStepView::Connected(s@, rdma),
            SessionStep::Failed(e) => SessionStepView::Failed(e@),
        }
    }
}

/// What to do in a stage.
pub open spec fn session_action(h: HandshakeView) -> ActionView {
    match h.stage {
        StageView::Control => ActionView::OpenControl(h.server_addr),
        StageView::Version => ActionView::AskVersion,
        StageView::Discover { .. } => ActionView::Discover,
        StageView::Rdma { .. } => ActionView::OpenRdma(h.server_addr),
        StageView::Tcp { .. } => ActionView::OpenTcp(tcp_addr(h.server_addr)),
    }
}

/// The event is one that the stage can end with.
pub open spec fn fits(stage: StageView, event: EventView) -> bool {
    match stage {
        StageView::Control => event is ControlOpened || event is ControlFailed,
        StageView::Version => event is Version || event is StatusError,
        StageView::Discover { .. } => event is Metadata || event is StatusError,
        StageView::Rdma { .. } => event is TransportOpened || event is TransportFailed,
        StageView::Tcp { .. } => event is TransportOpened || event is TransportFailed,
    }
}

/// The handshake in another stage, whose action it performs.
pub open spec fn moved(h: HandshakeView, stage: StageView) -> (HandshakeView, SessionStepView) {
    let next = HandshakeView { stage, ..h };
    (next, SessionStepView::Perform(session_action(next)))
}

/// The session that comes of a handshake.
pub open spec fn session_of(h: HandshakeView, version: u32, metadata: MetadataView) -> SessionView {
    SessionView {
        client_id: h.client_id,
        server_addr: h.server_addr,
        metadata,
        server_version: version,
        heartbeat_interval: DEFAULT_HEARTBEAT_INTERVAL_MS,
    }
}

/// One step of a handshake.
pub open spec fn handshake_step(h: HandshakeView, event: EventView) -> (
    HandshakeView,
    SessionStepView,
) {
    match event {
        EventView::ControlOpened => moved(h, StageView::Version),
        EventView::ControlFailed(s) => (h, SessionStepView::Failed(SessionErrorView::Transport(s))),
        EventView::StatusError(s) => (h, SessionStepView::Failed(SessionErrorView::Grpc(s))),
        EventView::Version(v) => if v < MIN_COMPATIBLE_VERSION {
            (
                h,
                SessionStepView::Failed(SessionErrorView::VersionMismatch(version_message(v))),
            )
        } else {
            moved(h, StageView::Discover { version: v })
        },
        EventView::Metadata(m) => moved(
            h,
            StageView::Rdma { version: h.stage->Discover_version, metadata: m },
        ),
        EventView::TransportOpened => match h.stage {
            StageView::Rdma { version, metadata } => (
                h,
                SessionStepView::Connected(session_of(h, version, metadata), true),
            ),
            StageView::Tcp { version, metadata } => (
                h,
                SessionStepView::Connected(session_of(h, version, metadata), false),
            ),
            _ => (h, SessionStepView::Failed(SessionErrorView::NoDevice)),
        },
        EventView::TransportFailed(e) => match h.stage {
            StageView::Rdma { version, metadata } => moved(
                h,
                StageView::Tcp { version, metadata },
            ),
            _ => (
                h,
                SessionStepView::Failed(
                    SessionErrorView::Rdma(
                        ErrorView::Internal("TCP fallback: "@ + error::error_message(e)),
                    ),
                ),
            ),
        },
    }
}

impl Handshake {
    /// What to do now.
    pub fn action(&self) -> (a: SessionAction)
        ensures
            a@ == session_action(self@),
    {
        match &self.stage {
            HandshakeStage::Control => SessionAction::OpenControl(self.server_addr.clone()),
            HandshakeStage::Version => SessionAction::AskVersion,
            HandshakeStage::Discover { .. } => SessionAction::Discover,
            HandshakeStage::Rdma { .. } => SessionAction::OpenRdma(self.server_addr.clone()),
            HandshakeStage::Tcp { .. } => SessionAction::OpenTcp(
                tcp_fallback_addr(self.server_addr.as_str()),
            ),
        }
    }

    /// Takes the stage out of the handshake, leaving the first.
    fn take_stage(&mut self) -> (s: HandshakeStage)
        ensures
            s@ == old(self)@.stage,
            final(self)@ == (HandshakeView { stage: StageView::Control, ..old(self)@ }),
    {
        let mut s = HandshakeStage::Control;
        std::mem::swap(&mut s, &mut self.stage);
        s
    }

    /// Goes on with what came of the action. A handshake that is over is not gone
    /// on with.
    pub fn step(&mut self, event: SessionEvent) -> (r: SessionStep)
        requires
            fits(old(self)@.stage, event@),
        ensures
            r@ == handshake_step(old(self)@, event@).1,
            r is Perform ==> final(self)@ == handshake_step(old(self)@, event@).0,
    {
        match event {
            SessionEvent::ControlOpened => {
                self.stage = HandshakeStage::Version;
                SessionStep::Perform(self.action())
            },
            SessionEvent::ControlFailed(s) => SessionStep::Failed(ClientSessionError::Transport(s)),
            SessionEvent::StatusError(s) => SessionStep::Failed(ClientSessionError::Grpc(s)),
            SessionEvent::Version(v) => {
                if v < MIN_COMPATIBLE_VERSION {
                    let mut msg: String = "Server version ".to_owned();
                    text::append_decimal(&mut msg, v as u64);
                    msg.append(" is incompatible; minimum required is ");
                    text::append_decimal(&mut msg, MIN_COMPATIBLE_VERSION as u64);
                    return SessionStep::Failed(ClientSessionError::VersionMismatch(msg));
                }
                self.stage = HandshakeStage::Discover { version: v };
                SessionStep::Perform(self.action())
            },
            SessionEvent::Metadata(m) => {
                let version: u32 = match self.stage {
                    HandshakeStage::Discover { version } => version,
                    _ => 0,
                };
                self.stage = HandshakeStage::Rdma { version, metadata: m };
                SessionStep::Perform(self.action())
            },
            SessionEvent::TransportOpened => match self.take_stage() {
                HandshakeStage::Rdma { version, metadata } => SessionStep::Connected(
                    self.session(version, metadata),
                    true,
                ),
                HandshakeStage::Tcp { version, metadata } => SessionStep::Connected(
                    self.session(version, metadata),
                    false,
                ),
                _ => SessionStep::Failed(ClientSessionError::NoDevice),
            },
            SessionEvent::TransportFailed(e) => match self.take_stage() {
                HandshakeStage::Rdma { version, metadata } => {
                    self.stage = HandshakeStage::Tcp { version, metadata };
                    SessionStep::Perform(self.action())
                },
                _ => {
                    let inner: String = e.message();
                    SessionStep::Failed(
                        ClientSessionError::Rdma(
                            RdmaError::Internal(text::prefixed("TCP fallback: ", inner.as_str())),
                        ),
                    )
                },
            },
        }
    }

    /// The session that comes of the handshake.
    fn session(&self, version: u32, metadata: ServerMetadata) -> (s: ClientSession)
        ensures
            s@ == session_of(self@, version, metadata@),
    {
        ClientSession {
            client_id: self.client_id,
            server_addr: self.server_addr.clone(),
            metadata,
            server_version: version,
            heartbeat_interval: DEFAULT_HEARTBEAT_INTERVAL_MS,
        }
    }
}

// ---------------------------------------------------------------------------
// Laws
// ---------------------------------------------------------------------------
/// A server whose version is too old is refused before anything is discovered.
pub proof fn law_old_server_is_refused(h: HandshakeView, version: u32)
    requires
        h.stage is Version,
    ensures
        version < MIN_COMPATIBLE_VERSION <==> handshake_step(h, EventView::Version(version)).1 is Failed,
{
}

/// TCP is tried only after RDMA has failed, on the next port of the same host; a
/// session that uses TCP knows the same server.
pub proof fn law_rdma_is_preferred(h: HandshakeView, m: MetadataView, e: ErrorView)
    requires
        h.stage is Discover,
    ensures
        ({
            let (h1, a1) = handshake_step(h, EventView::Metadata(m));
            let (h2, a2) = handshake_step(h1, EventView::TransportFailed(e));
            let (_, over_rdma) = handshake_step(h1, EventView::TransportOpened);
            let (_, over_tcp) = handshake_step(h2, EventView::TransportOpened);
            let version = h.stage->Discover_version;
            &&& a1 == SessionStepView::Perform(ActionView::OpenRdma(h.server_addr))
            &&& a2 == SessionStepView::Perform(ActionView::OpenTcp(tcp_addr(h.server_addr)))
            &&& over_rdma == SessionStepView::Connected(session_of(h, version, m), true)
            &&& over_tcp == SessionStepView::Connected(session_of(h, version, m), false)
        }),
{
}

/// The fallback of an address with a port below the last is the same host with
/// the port after it.
pub proof fn law_fallback_port(host: Seq<char>, port: nat)
    requires
        port < 65535,
    ensures
        tcp_addr(host + seq![':'] + text::decimal(port)) == host + seq![':'] + text::decimal(
            port + 1,
        ),
{
    let digits = text::decimal(port);
    let addr = host + seq![':'] + digits;
    text::law_decimal_reads_back(port);
    lemma_digits_have_no_colon(port);
    lemma_last_colon(host, digits);
    assert(addr.skip(host.len() as int + 1) =~= digits);
    assert(addr.take(host.len() as int + 1) =~= host + seq![':']);
}

proof fn lemma_digits_have_no_colon(n: nat)
    ensures
        forall|i: int| 0 <= i < text::decimal(n).len() ==> #[trigger] text::decimal(n)[i] != ':',
    decreases n,
{
    if n >= 10 {
        lemma_digits_have_no_colon(n / 10);
        assert(text::decimal(n).drop_last() =~= text::decimal(n / 10));
    }
}

proof fn lemma_last_colon(host: Seq<char>, digits: Seq<char>)
    requires
        forall|i: int| 0 <= i < digits.len() ==> #[trigger] digits[i] != ':',
    ensures
        text::last_of(host + seq![':'] + digits, ':') == Some(host.len() as int),
    decreases digits.len(),
{
    let addr = host + seq![':'] + digits;
    if digits.len() == 0 {
        assert(addr.last() == ':');
        assert(addr.len() == host.len() + 1);
    } else {
        assert(addr.last() == digits[digits.len() - 1]);
        assert(addr.drop_last() =~= host + seq![':'] + digits.drop_last());
        lemma_last_colon(host, digits.drop_last());
    }
}

/// A restart of the server is noticed: once its metadata is known, a heartbeat
/// from another generation asks for a reconnect, and one from the same generation
/// does so only on request.
pub proof fn law_restart_is_noticed(m: MetadataView, response: HeartbeatResponse)
    ensures
        response.generation != m.generation ==> reconnect_needed(m, response),
        response.generation == m.generation ==> reconnect_needed(m, response)
            == response.reconnect,
{
}

/// A handshake that nothing stops goes through its stages in order, each with its own
/// action, and ends with a session over RDMA that knows the client's id, the server's
/// address, its version and its metadata, and beats once a second.
pub proof fn law_handshake(h: HandshakeView, version: u32, m: MetadataView)
    requires
        h.stage is Control,
        version >= 1,
    ensures
        ({
            let (h1, a1) = handshake_step(h, EventView::ControlOpened);
            let (h2, a2) = handshake_step(h1, EventView::Version(version));
            let (h3, a3) = handshake_step(h2, EventView::Metadata(m));
            let (_, a4) = handshake_step(h3, EventView::TransportOpened);
            &&& session_action(h) == ActionView::OpenControl(h.server_addr)
            &&& a1 == SessionStepView::Perform(ActionView::AskVersion)
            &&& a2 == SessionStepView::Perform(ActionView::Discover)
            &&& a3 == SessionStepView::Perform(ActionView::OpenRdma(h.server_addr))
            &&& a4 == SessionStepView::Connected(
                SessionView {
                    client_id: h.client_id,
                    server_addr: h.server_addr,
                    metadata: m,
                    server_version: version,
                    heartbeat_interval: 1000,
                },
                true,
            )
        }),
{
}

/// A failure ends the handshake with an error that says where it came from: the control
/// plane's transport, one of its answers, a version below 1, or, once RDMA has failed too,
/// the TCP fallback.
pub proof fn law_handshake_failures(h: HandshakeView, s: Seq<char>, e: ErrorView)
    ensures
        handshake_step(h, EventView::ControlFailed(s)).1 == SessionStepView::Failed(
            SessionErrorView::Transport(s),
        ),
        handshake_step(h, EventView::StatusError(s)).1 == SessionStepView::Failed(
            SessionErrorView::Grpc(s),
        ),
        handshake_step(h, EventView::Version(0)).1 matches SessionStepView::Failed(
            SessionErrorView::VersionMismatch(_),
        ),
        h.stage is Tcp ==> handshake_step(h, EventView::TransportFailed(e)).1
            == SessionStepView::Failed(
            SessionErrorView::Rdma(
                ErrorView::Internal("TCP fallback: "@ + error::error_message(e)),
            ),
        ),
        h.stage is Rdma ==> handshake_step(h, EventView::TransportFailed(e)).1 is Perform,
{
}

/// An address without a port is its own fallback.
pub proof fn law_fallback_without_port(addr: Seq<char>)
    requires
        text::last_of(addr, ':') is None,
    ensures
        tcp_addr(addr) == addr,
{
}

} // verus!
