//! What every connection shares.
use crate::auth::AuthState;
use crate::cluster::Cluster;
use crate::config::ProtocolConfig;
use crate::connections::Registry;
use crate::domain::ServerInfo;
use crate::metrics::ServerMetrics;
use crate::scan::ScanCursors;
use vstd::prelude::*;

verus! {

/// Where this node is listening, and the ceilings it is running under.
#[derive(Debug)]
pub struct Binding {
    /// The address and port the cache port is actually bound to, as they print:
    /// a configured port of zero is a request and not an answer.
    pub addr: String,
    /// The address alone.
    pub ip: String,
    pub port: u16,
    /// `server.max_connections`, reported as memcached's `max_connections` and
    /// Redis's `maxclients`.
    pub max_connections: u64,
    /// `server.max_blocking_threads`.
    pub max_blocking_threads: u64,
    pub read_buffer: u64,
}

/// Everything a connection needs, but for the store.
pub struct ServerState {
    pub info: ServerInfo,
    /// Which commands are available and on what budget.
    pub protocol: ProtocolConfig,
    /// The credential table and the pre-authentication budget. Present even when
    /// authentication is off, so that nothing has a special case.
    pub auth: AuthState,
    pub metrics: ServerMetrics,
    /// Present even with no peers configured.
    pub cluster: Cluster,
    /// Read-only requests skip the hop to the storage tier.
    pub inline_reads: bool,
    /// Live `SCAN` cursors.
    pub scan_cursors: ScanCursors,
    /// How this node is bound and bounded.
    pub binding: Binding,
    /// Who is connected.
    pub connections: Registry,
}

impl ServerState {
    /// Every part keeps its own invariant.
    pub open spec fn wf(self) -> bool {
        &&& self.auth.wf()
        &&& self.metrics.commands@.wf()
        &&& self.scan_cursors@.wf()
        &&& self.connections@.wf()
    }

    /// The state of a node that has served nothing yet.
    pub fn new(
        info: ServerInfo,
        protocol: ProtocolConfig,
        auth: AuthState,
        cluster: Cluster,
        inline_reads: bool,
        binding: Binding,
    ) -> (state: Self)
        requires
            auth.wf(),
        ensures
            state.wf(),
            state.info == info,
            state.protocol == protocol,
            state.auth == auth,
            state.cluster == cluster,
            state.inline_reads == inline_reads,
            state.binding == binding,
            call_ensures(ServerMetrics::default, (), state.metrics),
            state.scan_cursors@.live.len() == 0,
            state.scan_cursors@.capacity == protocol.scan_cursors,
            state.scan_cursors@.ttl == protocol.scan_cursor_ttl_ms * 1_000_000,
            state.connections@.live.len() == 0,
            state.connections@.next == 1,
    {
        ServerState {
            info,
            scan_cursors: ScanCursors::new(
                protocol.scan_cursors,
                protocol.scan_cursor_ttl_ms as u128 * 1_000_000,
            ),
            protocol,
            auth,
            metrics: ServerMetrics::default(),
            cluster,
            inline_reads,
            binding,
            connections: Registry::default(),
        }
    }
}

} // verus!
