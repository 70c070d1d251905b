//! Server configuration: its sections, their defaults, and the rules that have
//! to hold before a server starts.
//!
//! Paths and addresses are text here. The limits and defaults that belong to the
//! storage engine and the wire format come in as values.
use crate::auth;
use crate::credentials;
use crate::protocol::Protocol;
use crate::text;
use vstd::prelude::*;

verus! {

#[derive(Debug)]
pub struct Config {
    pub server: ServerConfig,
    pub store: StoreConfig,
    pub protocol: ProtocolConfig,
    pub auth: AuthConfig,
    pub tls: TlsConfig,
    pub cluster: ClusterConfig,
    pub observability: ObservabilityConfig,
}

#[derive(Debug)]
pub struct ServerConfig {
    pub listen: String,
    /// Rejected beyond this many concurrent connections, rather than accepted
    /// and starved.
    pub max_connections: usize,
    /// Bytes reserved per connection read buffer.
    pub read_buffer: usize,
    /// Threads available for store operations, and so the ceiling on concurrent
    /// reads. `store.max_readers` has to cover it.
    pub max_blocking_threads: usize,
}

#[derive(Debug)]
pub struct StoreConfig {
    pub path: String,
    /// Which storage engine to open. Not interchangeable on an existing
    /// database.
    pub backend: Backend,
    /// Independent environments, and therefore the ceiling on concurrent
    /// writers. `0` picks at most two; see `Config::shard_count`.
    pub shards: usize,
    /// Map size per shard, not in total.
    pub map_size_mb: usize,
    /// How much of the file to allocate at creation, per shard. `0` grows it on
    /// demand.
    pub preallocate_mb: usize,
    pub max_readers: u32,
    pub durability: Durability,
    pub max_value_bytes: usize,
    /// Start from an empty database.
    pub wipe_on_start: bool,
    /// Let the engine write dirty pages straight into the map.
    pub write_map: bool,
    /// Read every shard's data file at startup.
    pub prefault: bool,
    /// Run read-only requests on the network worker instead of handing them to
    /// the storage tier.
    pub inline_reads: bool,
    /// Make the working set resident, keep it resident, and serve reads inline
    /// only if that worked.
    pub resident_mode: bool,
    pub write: WriteConfig,
    pub ttl: TtlConfig,
    pub tags: TagConfig,
    pub eviction: EvictionConfig,
}

/// A fraction of a shard's map in use.
///
/// Held as its IEEE 754 binary64 bit pattern and as the text it prints as.
#[derive(Debug)]
pub struct Watermark {
    pub bits: u64,
    pub text: String,
}

/// The bit pattern of one.
pub const ONE_BITS: u64 = 0x3ff0_0000_0000_0000;

/// The bit pattern of negative zero, which compares equal to zero.
pub const NEGATIVE_ZERO_BITS: u64 = 0x8000_0000_0000_0000;

impl Watermark {
    /// A number that orders the fractions from zero to one as they compare:
    /// within that range bit patterns ascend with the value.
    pub open spec fn rank(self) -> int {
        if self.bits == NEGATIVE_ZERO_BITS {
            0
        } else {
            self.bits as int
        }
    }

    /// Whether the value lies between zero and one, one itself counting only
    /// where `closed` says so. No negative number, infinity or NaN does.
    pub open spec fn in_range(self, closed: bool) -> bool {
        self.rank() < ONE_BITS || (closed && self.rank() == ONE_BITS)
    }

    /// Whether the value is smaller than another, both from zero to one.
    pub open spec fn less(self, other: Watermark) -> bool {
        self.rank() < other.rank()
    }

    fn order(&self) -> (rank: u64)
        ensures
            rank == self.rank(),
    {
        if self.bits == NEGATIVE_ZERO_BITS {
            0
        } else {
            self.bits
        }
    }

    fn within(&self, closed: bool) -> (yes: bool)
        ensures
            yes == self.in_range(closed),
    {
        self.order() < ONE_BITS || (closed && self.order() == ONE_BITS)
    }

    fn below(&self, other: &Watermark) -> (yes: bool)
        ensures
            yes == self.less(*other),
    {
        self.order() < other.order()
    }
}

impl Clone for Watermark {
    fn clone(&self) -> (copy: Self)
        ensures
            copy == *self,
    {
        Watermark { bits: self.bits, text: self.text.clone() }
    }
}

/// Capacity watermarks, as fractions of a shard's map in use.
#[derive(Debug)]
pub struct EvictionConfig {
    /// Reclamation stops waiting for its interval and runs continuously.
    pub soft: Watermark,
    /// Live records start being evicted, soonest-to-expire first.
    pub hard: Watermark,
    /// Writes are refused; reads and deletes still work.
    pub critical: Watermark,
    /// Records evicted per pass.
    pub batch: usize,
}

impl Clone for EvictionConfig {
    fn clone(&self) -> (copy: Self)
        ensures
            copy == *self,
    {
        EvictionConfig {
            soft: self.soft.clone(),
            hard: self.hard.clone(),
            critical: self.critical.clone(),
            batch: self.batch,
        }
    }
}

#[derive(Debug, Clone, Copy)]
pub struct TagConfig {
    /// Ceiling on registered tag names.
    pub max_tags: usize,
    /// Ceiling on the tags one record may carry.
    pub max_per_record: usize,
    /// Tag-index entries examined per reclamation pass.
    pub reclaim_batch: usize,
}

#[derive(Debug, Clone, Copy)]
pub struct WriteConfig {
    /// Most operations packed into a single commit.
    pub max_batch: usize,
    /// Queued writes before further ones are refused.
    pub queue_depth: usize,
    /// Artificial delay before sealing a batch.
    pub linger_us: u64,
    /// How often the writer forces committed data onto the device. `0` never
    /// does.
    pub sync_interval_ms: u64,
}

#[derive(Debug, Clone, Copy)]
pub struct TtlConfig {
    /// Granularity that expiry-index buckets round up to.
    pub bucket_granularity_ms: u64,
    pub sweep_interval_ms: u64,
    /// Most index entries examined per sweep.
    pub sweep_batch: usize,
}

/// Which storage engine to open.
#[derive(Debug, Clone, Copy, PartialEq, Eq, Structural)]
pub enum Backend {
    Lmdb,
    Mdbx,
}

impl Backend {
    /// The name this engine goes by in the config file and in log lines.
    pub fn as_str(self) -> (name: &'static str)
        ensures
            name@ == (match self {
                Backend::Lmdb => "lmdb"@,
                Backend::Mdbx => "mdbx"@,
            }),
    {
        match self {
            Backend::Lmdb => "lmdb",
            Backend::Mdbx => "mdbx",
        }
    }
}

impl Default for Backend {
    fn default() -> (backend: Self)
        ensures
            backend == Backend::Lmdb,
    {
        Backend::Lmdb
    }
}

/// How hard a commit tries to survive a crash.
#[derive(Debug, Clone, Copy, PartialEq, Eq, Structural)]
pub enum Durability {
    Durable,
    Relaxed,
    Lazy,
}

impl Default for Durability {
    fn default() -> (durability: Self)
        ensures
            durability == Durability::Lazy,
    {
        Durability::Lazy
    }
}

/// Who may use the cache port.
#[derive(Debug)]
pub struct AuthConfig {
    /// Whether unauthenticated connections are refused.
    ///
    /// Separate from the credential table so a rollout can configure
    /// credentials, roll every client and peer, and only then start enforcing.
    pub required: bool,
    /// Path to the credential file. Empty uses `VASH_AUTH_SECRET`, or nothing.
    pub file: String,
    /// How long a connection may stay unauthenticated before it is dropped.
    pub timeout_ms: u64,
    /// Failed attempts on one connection before it is closed.
    pub max_attempts: u32,
    /// Concurrent unauthenticated connections. `0` picks a tenth of
    /// `server.max_connections`.
    pub max_unauthenticated_connections: usize,
}

impl Default for AuthConfig {
    fn default() -> (config: Self)
        ensures
            !config.required,
            config.file@.len() == 0,
            config.timeout_ms == 5_000,
            config.max_attempts == 3,
            config.max_unauthenticated_connections == 0,
    {
        AuthConfig {
            required: false,
            file: String::new(),
            timeout_ms: 5_000,
            max_attempts: 3,
            max_unauthenticated_connections: 0,
        }
    }
}

/// TLS termination on a second listener.
#[derive(Debug)]
pub struct TlsConfig {
    /// Where the TLS listener binds. Empty means there is not one.
    pub listen: String,
    /// PEM certificate chain, leaf first.
    pub cert: String,
    /// PEM private key.
    pub key: String,
    /// How long a handshake may take before the connection is dropped.
    pub handshake_timeout_ms: u64,
    /// Whether clients must present a certificate, and be identified by it.
    pub client_auth: ClientAuth,
    /// PEM bundle of the CA that issued the client certificates.
    pub client_ca: String,
}

/// Whether the server asks clients for a certificate.
#[derive(Debug, Clone, Copy, PartialEq, Eq, Structural)]
pub enum ClientAuth {
    /// Ask for nothing.
    NotAsked,
    /// Refuse any connection that does not present a certificate this server's
    /// `client_ca` issued, and whose subject is not in the credential table.
    Required,
}

impl Default for ClientAuth {
    fn default() -> (mode: Self)
        ensures
            mode == ClientAuth::NotAsked,
    {
        ClientAuth::NotAsked
    }
}

impl Default for TlsConfig {
    fn default() -> (config: Self)
        ensures
            !config.asked(),
            config.cert@.len() == 0,
            config.key@.len() == 0,
            config.handshake_timeout_ms == 3_000,
            config.client_auth == ClientAuth::NotAsked,
            config.client_ca@.len() == 0,
    {
        TlsConfig {
            listen: String::new(),
            cert: String::new(),
            key: String::new(),
            handshake_timeout_ms: 3_000,
            client_auth: ClientAuth::NotAsked,
            client_ca: String::new(),
        }
    }
}

impl TlsConfig {
    /// Whether a TLS listener was asked for.
    pub open spec fn asked(self) -> bool {
        self.listen@.len() > 0
    }

    /// Whether a TLS listener was asked for.
    pub fn enabled(&self) -> (yes: bool)
        ensures
            yes == self.asked(),
    {
        !self.listen.as_str().is_empty()
    }
}

/// Peers, and how tag invalidation reaches them.
#[derive(Debug)]
pub struct ClusterConfig {
    /// Addresses of the other nodes' cache ports.
    pub peers: Vec<String>,
    pub delete_by_tag: FanoutMode,
    /// How often a node exchanges tag generations with each of its peers.
    pub gossip_interval_ms: u64,
    /// How long a single exchange with a peer may take, including connecting.
    pub fanout_timeout_ms: u64,
    /// Invalidations queued per peer before further ones are dropped.
    pub queue_depth: usize,
    /// Credential the peer connections present.
    pub auth_name: String,
    pub auth_secret: String,
    /// Dial peers over TLS rather than in the clear.
    pub tls: bool,
    /// PEM bundle of the CA that issued the peers' certificates.
    pub tls_ca: String,
    /// The name peers' certificates must carry, when it is not the host in
    /// `peers`.
    pub tls_server_name: String,
}

impl Default for ClusterConfig {
    fn default() -> (config: Self)
        ensures
            config.peers@.len() == 0,
            config.delete_by_tag == FanoutMode::Fanout,
            config.gossip_interval_ms == 5_000,
            config.fanout_timeout_ms == 2_000,
            config.queue_depth == 1_024,
            config.auth_name@.len() == 0,
            config.auth_secret@.len() == 0,
            !config.tls,
            config.tls_ca@.len() == 0,
            config.tls_server_name@.len() == 0,
    {
        ClusterConfig {
            peers: Vec::new(),
            delete_by_tag: FanoutMode::Fanout,
            gossip_interval_ms: 5_000,
            fanout_timeout_ms: 2_000,
            queue_depth: 1_024,
            auth_name: String::new(),
            auth_secret: String::new(),
            tls: false,
            tls_ca: String::new(),
            tls_server_name: String::new(),
        }
    }
}

/// Whether a character is a square bracket.
pub open spec fn bracket(c: char) -> bool {
    c == '[' || c == ']'
}

/// `s` without the brackets it starts with.
pub open spec fn unbracket_start(s: Seq<char>) -> Seq<char>
    decreases s.len(),
{
    if s.len() > 0 && bracket(s[0]) {
        unbracket_start(s.skip(1))
    } else {
        s
    }
}

/// `s` without the brackets it ends in.
pub open spec fn unbracket_end(s: Seq<char>) -> Seq<char>
    decreases s.len(),
{
    if s.len() > 0 && bracket(s.last()) {
        unbracket_end(s.drop_last())
    } else {
        s
    }
}

/// What precedes the last colon, without the brackets around it: the host of a
/// `host:port` address, IPv6 literals too. All of `addr` where there is no
/// colon.
pub open spec fn host_of(addr: Seq<char>) -> Seq<char> {
    match text::last_index(addr, ':') {
        Some(k) => unbracket_end(unbracket_start(addr.take(k as int))),
        None => addr,
    }
}

fn host_text(addr: &str) -> (host: String)
    ensures
        host@ == host_of(addr@),
{
    let chars = text::chars_of(addr);
    let end = match text::find_last(&chars, ':') {
        Some(k) => k,
        None => {
            return addr.to_owned();
        },
    };
    let ghost whole = chars@.take(end as int);
    let mut from: usize = 0;
    let mut to: usize = end;
    assert(chars@.subrange(0, end as int) =~= whole);
    while from < to && (chars[from] == '[' || chars[from] == ']')
        invariant
            from <= to <= chars@.len(),
            unbracket_start(chars@.subrange(from as int, to as int)) == unbracket_start(whole),
        decreases to - from,
    {
        let ghost s = chars@.subrange(from as int, to as int);
        assert(s[0] == chars@[from as int]);
        assert(s.skip(1) =~= chars@.subrange(from + 1, to as int));
        from = from + 1;
    }
    let ghost opened = chars@.subrange(from as int, to as int);
    assert(opened.len() > 0 ==> opened[0] == chars@[from as int]);
    assert(opened == unbracket_start(whole));
    while from < to && (chars[to - 1] == '[' || chars[to - 1] == ']')
        invariant
            from <= to <= chars@.len(),
            unbracket_end(chars@.subrange(from as int, to as int)) == unbracket_end(opened),
        decreases to - from,
    {
        let ghost s = chars@.subrange(from as int, to as int);
        assert(s.last() == chars@[to - 1]);
        assert(s.drop_last() =~= chars@.subrange(from as int, to - 1));
        to = to - 1;
    }
    let ghost closed = chars@.subrange(from as int, to as int);
    assert(closed.len() > 0 ==> closed.last() == chars@[to - 1]);
    text::text_between(&chars, from, to)
}

impl ClusterConfig {
    /// The name to verify a peer's certificate against.
    ///
    /// The explicit override when there is one, otherwise the host out of the
    /// peer address.
    pub fn tls_name_for(&self, addr: &str) -> (name: String)
        ensures
            name@ == (if self.tls_server_name@.len() > 0 {
                self.tls_server_name@
            } else {
                host_of(addr@)
            }),
    {
        if !self.tls_server_name.as_str().is_empty() {
            return self.tls_server_name.clone();
        }
        host_text(addr)
    }

    /// What peer connections should present, if anything.
    pub fn credential(&self) -> (credential: Option<(&str, &str)>)
        ensures
            credential is Some <==> self.auth_secret@.len() > 0,
            credential is Some ==> (credential->0).0@ == (if self.auth_name@.len() == 0 {
                auth::DEFAULT_NAME@
            } else {
                self.auth_name@
            }),
            credential is Some ==> (credential->0).1@ == self.auth_secret@,
    {
        if self.auth_secret.as_str().is_empty() {
            return None;
        }
        let name = if self.auth_name.as_str().is_empty() {
            auth::DEFAULT_NAME
        } else {
            self.auth_name.as_str()
        };
        Some((name, self.auth_secret.as_str()))
    }
}

/// How far a tag invalidation travels before it is answered.
#[derive(Debug, Clone, Copy, PartialEq, Eq, Structural)]
pub enum FanoutMode {
    /// No fan-out. The client calls every node itself.
    Local,
    /// Reply immediately, forward in the background.
    Fanout,
    /// Reply once reachable peers have acknowledged.
    FanoutSync,
}

impl Default for FanoutMode {
    fn default() -> (mode: Self)
        ensures
            mode == FanoutMode::Fanout,
    {
        FanoutMode::Fanout
    }
}

#[derive(Debug)]
pub struct ObservabilityConfig {
    /// `json` or `pretty`.
    pub log_format: String,
    pub log_level: String,
    /// Address for `/metrics`, `/health` and `/stats`. Empty serves none of
    /// them.
    pub admin_listen: String,
}

impl Default for ObservabilityConfig {
    fn default() -> (config: Self)
        ensures
            config.log_format@ == "pretty"@,
            config.log_level@ == "info"@,
            config.admin_listen@.len() == 0,
    {
        ObservabilityConfig {
            log_format: "pretty".to_owned(),
            log_level: "info".to_owned(),
            admin_listen: String::new(),
        }
    }
}

#[derive(Debug, Clone, Copy)]
pub struct ProtocolConfig {
    /// `FLUSH` empties the whole cache on request from any client that can
    /// reach the port, so it is off unless deliberately enabled.
    pub flush_enabled: bool,
    /// `LIST_KEYS` and `LIST_TAGS`, off unless deliberately enabled.
    pub listing_enabled: bool,
    /// Records one `LIST_KEYS` call may examine before it stops early.
    pub listing_max_scan: usize,
    /// Live Redis `SCAN` cursors held at once.
    pub scan_cursors: usize,
    /// How long a `SCAN` cursor stays resumable.
    pub scan_cursor_ttl_ms: u64,
    /// Whether the memcached text and meta protocols are served.
    pub memcached_enabled: bool,
    /// Whether the Redis protocol is served.
    pub resp_enabled: bool,
}

impl ProtocolConfig {
    /// Whether a connection that opened with this dialect may proceed.
    ///
    /// VCP is not disableable: it is the native protocol, and the only one that
    /// can report what a server does and does not serve.
    pub fn dialect_enabled(&self, dialect: Protocol) -> (yes: bool)
        ensures
            yes == (match dialect {
                Protocol::Vcp => true,
                Protocol::Memcached => self.memcached_enabled,
                Protocol::Resp => self.resp_enabled,
            }),
    {
        match dialect {
            Protocol::Vcp => true,
            Protocol::Memcached => self.memcached_enabled,
            Protocol::Resp => self.resp_enabled,
        }
    }
}

impl Default for ProtocolConfig {
    fn default() -> (config: Self)
        ensures
            config == (ProtocolConfig {
                flush_enabled: false,
                listing_enabled: false,
                listing_max_scan: 100_000,
                scan_cursors: 1_024,
                scan_cursor_ttl_ms: 60_000,
                memcached_enabled: true,
                resp_enabled: true,
            }),
    {
        ProtocolConfig {
            flush_enabled: false,
            listing_enabled: false,
            listing_max_scan: 100_000,
            scan_cursors: 1_024,
            scan_cursor_ttl_ms: 60_000,
            memcached_enabled: true,
            resp_enabled: true,
        }
    }
}

impl Default for ServerConfig {
    fn default() -> (config: Self)
        ensures
            config.listen@ == "127.0.0.1:11311"@,
            config.max_connections == 10_000,
            config.read_buffer == 16_384,
            config.max_blocking_threads == 128,
    {
        ServerConfig {
            listen: "127.0.0.1:11311".to_owned(),
            max_connections: 10_000,
            read_buffer: 16 * 1024,
            max_blocking_threads: 128,
        }
    }
}

/// What the storage engine and the wire format can hold.
#[derive(Debug, Clone, Copy)]
pub struct EngineLimits {
    /// Smallest map, in bytes.
    pub min_map_size: usize,
    /// Longest value, in bytes.
    pub max_value_len: usize,
    /// Most tags a record header can describe.
    pub max_tags_per_record: usize,
    /// Length of a frame header, in bytes.
    pub frame_header_len: usize,
}

/// What the storage engine uses where nothing is configured.
#[derive(Debug)]
pub struct EngineDefaults {
    pub max_value_len: usize,
    pub max_tags: usize,
    pub max_tags_per_record: usize,
    pub reclaim_batch: usize,
    pub max_batch: usize,
    pub queue_depth: usize,
    pub linger_us: u64,
    pub sync_interval_ms: u64,
    pub sweep_interval_ms: u64,
    pub sweep_batch: usize,
    pub eviction: EvictionConfig,
}

impl EngineDefaults {
    /// Whether the engine's own defaults are usable within its limits.
    pub open spec fn sound(self, limits: EngineLimits) -> bool {
        &&& limits.min_map_size <= 4096 * 1048576
        &&& self.max_value_len <= limits.max_value_len
        &&& limits.frame_header_len <= 16_384
        &&& self.max_tags > 0
        &&& 0 < self.max_tags_per_record <= limits.max_tags_per_record
        &&& self.reclaim_batch > 0
        &&& self.max_batch > 0
        &&& self.queue_depth > 0
        &&& self.sweep_interval_ms > 0
        &&& self.sweep_batch > 0
        &&& self.eviction.soft.in_range(false)
        &&& self.eviction.hard.in_range(false)
        &&& self.eviction.critical.in_range(true)
        &&& self.eviction.soft.less(self.eviction.hard)
        &&& self.eviction.hard.less(self.eviction.critical)
        &&& self.eviction.batch > 0
    }
}

impl TagConfig {
    pub fn with_engine(engine: &EngineDefaults) -> (config: Self)
        ensures
            config == (TagConfig {
                max_tags: engine.max_tags,
                max_per_record: engine.max_tags_per_record,
                reclaim_batch: engine.reclaim_batch,
            }),
    {
        TagConfig {
            max_tags: engine.max_tags,
            max_per_record: engine.max_tags_per_record,
            reclaim_batch: engine.reclaim_batch,
        }
    }
}

impl WriteConfig {
    pub fn with_engine(engine: &EngineDefaults) -> (config: Self)
        ensures
            config == (WriteConfig {
                max_batch: engine.max_batch,
                queue_depth: engine.queue_depth,
                linger_us: engine.linger_us,
                sync_interval_ms: engine.sync_interval_ms,
            }),
    {
        WriteConfig {
            max_batch: engine.max_batch,
            queue_depth: engine.queue_depth,
            linger_us: engine.linger_us,
            sync_interval_ms: engine.sync_interval_ms,
        }
    }
}

impl TtlConfig {
    pub fn with_engine(engine: &EngineDefaults) -> (config: Self)
        ensures
            config == (TtlConfig {
                bucket_granularity_ms: 1000,
                sweep_interval_ms: engine.sweep_interval_ms,
                sweep_batch: engine.sweep_batch,
            }),
    {
        TtlConfig {
            bucket_granularity_ms: 1000,
            sweep_interval_ms: engine.sweep_interval_ms,
            sweep_batch: engine.sweep_batch,
        }
    }
}

impl StoreConfig {
    /// What a store section holds where nothing is configured.
    pub open spec fn is_default(self, engine: EngineDefaults) -> bool {
        &&& self.path@ == "data"@
        &&& self.backend == Backend::Lmdb
        &&& self.shards == 0
        &&& self.map_size_mb == 4096
        &&& self.preallocate_mb == 0
        &&& self.max_readers == 256
        &&& self.durability == Durability::Lazy
        &&& self.max_value_bytes == engine.max_value_len
        &&& !self.wipe_on_start
        &&& !self.write_map
        &&& !self.prefault
        &&& !self.inline_reads
        &&& !self.resident_mode
        &&& self.write == WriteConfig {
            max_batch: engine.max_batch,
            queue_depth: engine.queue_depth,
            linger_us: engine.linger_us,
            sync_interval_ms: engine.sync_interval_ms,
        }
        &&& self.ttl == TtlConfig {
            bucket_granularity_ms: 1000,
            sweep_interval_ms: engine.sweep_interval_ms,
            sweep_batch: engine.sweep_batch,
        }
        &&& self.tags == TagConfig {
            max_tags: engine.max_tags,
            max_per_record: engine.max_tags_per_record,
            reclaim_batch: engine.reclaim_batch,
        }
        &&& self.eviction == engine.eviction
    }

    pub fn with_engine(engine: &EngineDefaults) -> (config: Self)
        ensures
            config.is_default(*engine),
    {
        StoreConfig {
            path: "data".to_owned(),
            backend: Backend::Lmdb,
            map_size_mb: 4096,
            preallocate_mb: 0,
            max_readers: 256,
            durability: Durability::Lazy,
            max_value_bytes: engine.max_value_len,
            wipe_on_start: false,
            write_map: false,
            prefault: false,
            inline_reads: false,
            resident_mode: false,
            shards: 0,
            write: WriteConfig::with_engine(engine),
            ttl: TtlConfig::with_engine(engine),
            tags: TagConfig::with_engine(engine),
            eviction: engine.eviction.clone(),
        }
    }
}

/// Whether a peer's address has a host and a port in it.
pub open spec fn host_and_port(peer: Seq<char>) -> bool {
    peer.contains(':') && peer[0] != ':'
}

/// The first peer whose address has not.
pub open spec fn first_bad_peer(peers: Seq<String>) -> Seq<char>
    decreases peers.len(),
{
    if peers.len() == 0 {
        Seq::empty()
    } else if !host_and_port(peers[0]@) {
        peers[0]@
    } else {
        first_bad_peer(peers.skip(1))
    }
}

/// A rule that a configuration breaks, and what to tell the operator.
#[derive(Debug)]
pub struct ConfigError {
    pub rule: Rule,
    pub message: String,
}

/// The rules a configuration has to meet, in the order they are checked.
#[derive(Debug, Clone, Copy, PartialEq, Eq, Structural)]
pub enum Rule {
    MapSize,
    Preallocate,
    MaxReaders,
    MaxConnections,
    MaxValueBytes,
    ReadBuffer,
    MaxBlockingThreads,
    ReadersCoverThreads,
    TlsBuild,
    TlsCertificate,
    TlsListener,
    ClusterTlsBuild,
    ClusterTlsCa,
    PeerCredential,
    AuthAttempts,
    AuthTimeout,
    WriteBatch,
    WriteQueue,
    SweepInterval,
    SweepBatch,
    BucketGranularity,
    MaxTags,
    MaxTagsPerRecord,
    TagsFitHeader,
    ReclaimBatch,
    ListingMaxScan,
    ScanCursorCount,
    ScanCursorTtl,
    WatermarkRange,
    WatermarkOrder,
    EvictionBatch,
    GossipInterval,
    FanoutTimeout,
    PeerQueue,
    PeerAddress,
}

/// Every rule, in the order they are checked.
pub open spec fn rules() -> Seq<Rule> {
    seq![
        Rule::MapSize,
        Rule::Preallocate,
        Rule::MaxReaders,
        Rule::MaxConnections,
        Rule::MaxValueBytes,
        Rule::ReadBuffer,
        Rule::MaxBlockingThreads,
        Rule::ReadersCoverThreads,
        Rule::TlsBuild,
        Rule::TlsCertificate,
        Rule::TlsListener,
        Rule::ClusterTlsBuild,
        Rule::ClusterTlsCa,
        Rule::PeerCredential,
        Rule::AuthAttempts,
        Rule::AuthTimeout,
        Rule::WriteBatch,
        Rule::WriteQueue,
        Rule::SweepInterval,
        Rule::SweepBatch,
        Rule::BucketGranularity,
        Rule::MaxTags,
        Rule::MaxTagsPerRecord,
        Rule::TagsFitHeader,
        Rule::ReclaimBatch,
        Rule::ListingMaxScan,
        Rule::ScanCursorCount,
        Rule::ScanCursorTtl,
        Rule::WatermarkRange,
        Rule::WatermarkOrder,
        Rule::EvictionBatch,
        Rule::GossipInterval,
        Rule::FanoutTimeout,
        Rule::PeerQueue,
        Rule::PeerAddress,
    ]
}

fn rule_list() -> (list: Vec<Rule>)
    ensures
        list@ == rules(),
{
    let list = vec![
        Rule::MapSize,
        Rule::Preallocate,
        Rule::MaxReaders,
        Rule::MaxConnections,
        Rule::MaxValueBytes,
        Rule::ReadBuffer,
        Rule::MaxBlockingThreads,
        Rule::ReadersCoverThreads,
        Rule::TlsBuild,
        Rule::TlsCertificate,
        Rule::TlsListener,
        Rule::ClusterTlsBuild,
        Rule::ClusterTlsCa,
        Rule::PeerCredential,
        Rule::AuthAttempts,
        Rule::AuthTimeout,
        Rule::WriteBatch,
        Rule::WriteQueue,
        Rule::SweepInterval,
        Rule::SweepBatch,
        Rule::BucketGranularity,
        Rule::MaxTags,
        Rule::MaxTagsPerRecord,
        Rule::TagsFitHeader,
        Rule::ReclaimBatch,
        Rule::ListingMaxScan,
        Rule::ScanCursorCount,
        Rule::ScanCursorTtl,
        Rule::WatermarkRange,
        Rule::WatermarkOrder,
        Rule::EvictionBatch,
        Rule::GossipInterval,
        Rule::FanoutTimeout,
        Rule::PeerQueue,
        Rule::PeerAddress,
    ];
    assert(list@ =~= rules());
    list
}

impl Config {
    /// Whether the configuration meets a rule.
    pub open spec fn holds(self, rule: Rule, limits: EngineLimits, tls_built: bool) -> bool {
        match rule {
            Rule::MapSize => self.store.map_size_mb * 1048576 >= limits.min_map_size,
            Rule::Preallocate => self.store.preallocate_mb <= self.store.map_size_mb,
            Rule::MaxReaders => self.store.max_readers > 0,
            Rule::MaxConnections => 0 < self.server.max_connections <= u32::MAX,
            Rule::MaxValueBytes => self.store.max_value_bytes <= limits.max_value_len,
            Rule::ReadBuffer => self.server.read_buffer >= limits.frame_header_len,
            Rule::MaxBlockingThreads => self.server.max_blocking_threads > 0,
            Rule::ReadersCoverThreads => self.store.max_readers > self.server.max_blocking_threads,
            Rule::TlsBuild => tls_built || !self.tls.asked(),
            Rule::TlsCertificate => !self.tls.asked() || !(self.tls.cert@.len() == 0
                || self.tls.key@.len() == 0),
            Rule::TlsListener => self.tls.asked() || (self.tls.cert@.len() == 0
                && self.tls.key@.len() == 0),
            Rule::ClusterTlsBuild => tls_built || !self.cluster.tls,
            Rule::ClusterTlsCa => !self.cluster.tls || self.cluster.tls_ca@.len() > 0,
            Rule::PeerCredential => !self.auth.required || self.cluster.peers@.len() == 0
                || self.cluster.auth_secret@.len() > 0,
            Rule::AuthAttempts => self.auth.max_attempts > 0,
            Rule::AuthTimeout => self.auth.timeout_ms > 0,
            Rule::WriteBatch => self.store.write.max_batch > 0,
            Rule::WriteQueue => self.store.write.queue_depth > 0,
            Rule::SweepInterval => self.store.ttl.sweep_interval_ms > 0,
            Rule::SweepBatch => self.store.ttl.sweep_batch > 0,
            Rule::BucketGranularity => self.store.ttl.bucket_granularity_ms > 0,
            Rule::MaxTags => self.store.tags.max_tags > 0,
            Rule::MaxTagsPerRecord => self.store.tags.max_per_record > 0,
            Rule::TagsFitHeader => self.store.tags.max_per_record <= limits.max_tags_per_record,
            Rule::ReclaimBatch => self.store.tags.reclaim_batch > 0,
            Rule::ListingMaxScan => self.protocol.listing_max_scan > 0,
            Rule::ScanCursorCount => self.protocol.scan_cursors > 0,
            Rule::ScanCursorTtl => self.protocol.scan_cursor_ttl_ms > 0,
            Rule::WatermarkRange => self.store.eviction.soft.in_range(false)
                && self.store.eviction.hard.in_range(false)
                && self.store.eviction.critical.in_range(true),
            Rule::WatermarkOrder => self.store.eviction.soft.less(self.store.eviction.hard)
                && self.store.eviction.hard.less(self.store.eviction.critical),
            Rule::EvictionBatch => self.store.eviction.batch > 0,
            Rule::GossipInterval => self.cluster.gossip_interval_ms > 0,
            Rule::FanoutTimeout => self.cluster.fanout_timeout_ms > 0,
            Rule::PeerQueue => self.cluster.queue_depth > 0,
            Rule::PeerAddress => forall|i: int|
                0 <= i < self.cluster.peers@.len() ==> host_and_port(
                    #[trigger] self.cluster.peers@[i]@,
                ),
        }
    }

    /// What a broken rule prints as.
    pub open spec fn rule_message(self, rule: Rule, limits: EngineLimits) -> Seq<char> {
        match rule {
            Rule::MapSize => "store.map_size_mb is "@
                + text::decimal(self.store.map_size_mb as nat)
                + " MiB, but the minimum is "@
                + text::decimal((limits.min_map_size / 1048576) as nat)
                + " MiB: below that, LMDB can report a full map permanently even after everything has been deleted"@,
            Rule::Preallocate => "store.preallocate_mb is "@
                + text::decimal(self.store.preallocate_mb as nat)
                + " MiB, which is larger than store.map_size_mb ("@
                + text::decimal(self.store.map_size_mb as nat)
                + " MiB);              a file cannot start bigger than its own ceiling"@,
            Rule::MaxReaders => "store.max_readers must be > 0"@,
            Rule::MaxConnections => "server.max_connections must be between 1 and 4294967295"@,
            Rule::MaxValueBytes => "store.max_value_bytes exceeds the absolute limit of "@
                + text::decimal(limits.max_value_len as nat)
                + " bytes"@,
            Rule::ReadBuffer => "server.read_buffer must hold at least one frame header"@,
            Rule::MaxBlockingThreads => "server.max_blocking_threads must be > 0"@,
            Rule::ReadersCoverThreads => "store.max_readers ("@
                + text::decimal(self.store.max_readers as nat)
                + ") must exceed server.max_blocking_threads ("@
                + text::decimal(self.server.max_blocking_threads as nat)
                + "), or reads will fail with MDB_READERS_FULL under load"@,
            Rule::TlsBuild =>
                "tls.listen is set, but this binary was built without the `tls` feature and cannot terminate TLS. Rebuild with `--features tls`, or clear tls.listen — it will not fall back to serving that port in the clear"@,
            Rule::TlsCertificate =>
                "tls.listen is set but tls.cert or tls.key is empty; a TLS listener with no certificate has nothing to present"@,
            Rule::TlsListener =>
                "tls.cert or tls.key is set but tls.listen is empty, so nothing will serve them. Set tls.listen, or clear both"@,
            Rule::ClusterTlsBuild =>
                "cluster.tls is set, but this binary was built without the `tls` feature.              Rebuild with `--features tls`, or clear cluster.tls — it will not fall back              to dialling peers in the clear"@,
            Rule::ClusterTlsCa =>
                "cluster.tls is set but cluster.tls_ca is empty. Peers are verified against an              explicit CA; there is no fallback to the platform roots, because these are              internal names issued by an internal authority"@,
            Rule::PeerCredential => "auth.required is set and "@
                + text::decimal(self.cluster.peers@.len() as nat)
                + " peers are configured, but cluster.auth_secret is empty. Peer traffic uses the cache port like any other client, so the peers would be refused and tag invalidation would stop converging across the cluster while every node still reported itself healthy"@,
            Rule::AuthAttempts =>
                "auth.max_attempts must be > 0, or no credential could ever be presented"@,
            Rule::AuthTimeout =>
                "auth.timeout_ms must be > 0, or a connection would be dropped before it could authenticate"@,
            Rule::WriteBatch => "store.write.max_batch must be > 0"@,
            Rule::WriteQueue => "store.write.queue_depth must be > 0"@,
            Rule::SweepInterval => "store.ttl.sweep_interval_ms must be > 0"@,
            Rule::SweepBatch => "store.ttl.sweep_batch must be > 0"@,
            Rule::BucketGranularity => "store.ttl.bucket_granularity_ms must be > 0"@,
            Rule::MaxTags => "store.tags.max_tags must be > 0"@,
            Rule::MaxTagsPerRecord => "store.tags.max_per_record must be > 0"@,
            Rule::TagsFitHeader => "store.tags.max_per_record exceeds the absolute limit of "@
                + text::decimal(limits.max_tags_per_record as nat)
                + ", which the record header cannot describe"@,
            Rule::ReclaimBatch => "store.tags.reclaim_batch must be > 0"@,
            Rule::ListingMaxScan => "protocol.listing_max_scan must be > 0"@,
            Rule::ScanCursorCount => "protocol.scan_cursors must be > 0"@,
            Rule::ScanCursorTtl => "protocol.scan_cursor_ttl_ms must be > 0"@,
            Rule::WatermarkRange => "store.eviction watermarks must be fractions between 0 and 1"@,
            Rule::WatermarkOrder => "store.eviction watermarks must increase: soft ("@
                + self.store.eviction.soft.text@
                + ") < hard ("@
                + self.store.eviction.hard.text@
                + ") < critical ("@
                + self.store.eviction.critical.text@
                + ")"@,
            Rule::EvictionBatch => "store.eviction.batch must be > 0"@,
            Rule::GossipInterval => "cluster.gossip_interval_ms must be > 0"@,
            Rule::FanoutTimeout => "cluster.fanout_timeout_ms must be > 0"@,
            Rule::PeerQueue => "cluster.queue_depth must be > 0"@,
            Rule::PeerAddress => "cluster.peers entry "@
                + credentials::quoted(first_bad_peer(self.cluster.peers@))
                + " is not a host:port address"@,
        }
    }

    fn meets(&self, rule: Rule, limits: &EngineLimits, tls_built: bool) -> (yes: bool)
        ensures
            yes == self.holds(rule, *limits, tls_built),
    {
        match rule {
            Rule::MapSize => self.store.map_size_mb as u128 * 1048576 >= limits.min_map_size as u128,
            Rule::Preallocate => self.store.preallocate_mb <= self.store.map_size_mb,
            Rule::MaxReaders => self.store.max_readers > 0,
            Rule::MaxConnections => self.server.max_connections > 0
                && self.server.max_connections <= u32::MAX as usize,
            Rule::MaxValueBytes => self.store.max_value_bytes <= limits.max_value_len,
            Rule::ReadBuffer => self.server.read_buffer >= limits.frame_header_len,
            Rule::MaxBlockingThreads => self.server.max_blocking_threads > 0,
            Rule::ReadersCoverThreads => self.store.max_readers as usize
                > self.server.max_blocking_threads,
            Rule::TlsBuild => tls_built || !self.tls.enabled(),
            Rule::TlsCertificate => !self.tls.enabled() || !(self.tls.cert.as_str().is_empty()
                || self.tls.key.as_str().is_empty()),
            Rule::TlsListener => self.tls.enabled() || (self.tls.cert.as_str().is_empty()
                && self.tls.key.as_str().is_empty()),
            Rule::ClusterTlsBuild => tls_built || !self.cluster.tls,
            Rule::ClusterTlsCa => !self.cluster.tls || !self.cluster.tls_ca.as_str().is_empty(),
            Rule::PeerCredential => !self.auth.required || self.cluster.peers.len() == 0
                || self.cluster.credential().is_some(),
            Rule::AuthAttempts => self.auth.max_attempts > 0,
            Rule::AuthTimeout => self.auth.timeout_ms > 0,
            Rule::WriteBatch => self.store.write.max_batch > 0,
            Rule::WriteQueue => self.store.write.queue_depth > 0,
            Rule::SweepInterval => self.store.ttl.sweep_interval_ms > 0,
            Rule::SweepBatch => self.store.ttl.sweep_batch > 0,
            Rule::BucketGranularity => self.store.ttl.bucket_granularity_ms > 0,
            Rule::MaxTags => self.store.tags.max_tags > 0,
            Rule::MaxTagsPerRecord => self.store.tags.max_per_record > 0,
            Rule::TagsFitHeader => self.store.tags.max_per_record <= limits.max_tags_per_record,
            Rule::ReclaimBatch => self.store.tags.reclaim_batch > 0,
            Rule::ListingMaxScan => self.protocol.listing_max_scan > 0,
            Rule::ScanCursorCount => self.protocol.scan_cursors > 0,
            Rule::ScanCursorTtl => self.protocol.scan_cursor_ttl_ms > 0,
            Rule::WatermarkRange => self.store.eviction.soft.within(false)
                && self.store.eviction.hard.within(false)
                && self.store.eviction.critical.within(true),
            Rule::WatermarkOrder => self.store.eviction.soft.below(&self.store.eviction.hard)
                && self.store.eviction.hard.below(&self.store.eviction.critical),
            Rule::EvictionBatch => self.store.eviction.batch > 0,
            Rule::GossipInterval => self.cluster.gossip_interval_ms > 0,
            Rule::FanoutTimeout => self.cluster.fanout_timeout_ms > 0,
            Rule::PeerQueue => self.cluster.queue_depth > 0,
            Rule::PeerAddress => self.bad_peer().is_none(),
        }
    }

    fn describe(&self, rule: Rule, limits: &EngineLimits) -> (out: String)
        ensures
            out@ == self.rule_message(rule, *limits),
    {
        match rule {
            Rule::MapSize => {
                let mut out = "store.map_size_mb is ".to_owned();
                text::push_decimal(&mut out, self.store.map_size_mb as u64);
                out.append(" MiB, but the minimum is ");
                text::push_decimal(&mut out, (limits.min_map_size / 1048576) as u64);
                out.append(" MiB: below that, LMDB can report a full map permanently even after everything has been deleted");
                out
            },
            Rule::Preallocate => {
                let mut out = "store.preallocate_mb is ".to_owned();
                text::push_decimal(&mut out, self.store.preallocate_mb as u64);
                out.append(" MiB, which is larger than store.map_size_mb (");
                text::push_decimal(&mut out, self.store.map_size_mb as u64);
                out.append(" MiB);              a file cannot start bigger than its own ceiling");
                out
            },
            Rule::MaxReaders => "store.max_readers must be > 0".to_owned(),
            Rule::MaxConnections => "server.max_connections must be between 1 and 4294967295".to_owned(),
            Rule::MaxValueBytes => {
                let mut out = "store.max_value_bytes exceeds the absolute limit of ".to_owned();
                text::push_decimal(&mut out, limits.max_value_len as u64);
                out.append(" bytes");
                out
            },
            Rule::ReadBuffer => "server.read_buffer must hold at least one frame header".to_owned(),
            Rule::MaxBlockingThreads => "server.max_blocking_threads must be > 0".to_owned(),
            Rule::ReadersCoverThreads => {
                let mut out = "store.max_readers (".to_owned();
                text::push_decimal(&mut out, self.store.max_readers as u64);
                out.append(") must exceed server.max_blocking_threads (");
                text::push_decimal(&mut out, self.server.max_blocking_threads as u64);
                out.append("), or reads will fail with MDB_READERS_FULL under load");
                out
            },
            Rule::TlsBuild =>
                "tls.listen is set, but this binary was built without the `tls` feature and cannot terminate TLS. Rebuild with `--features tls`, or clear tls.listen — it will not fall back to serving that port in the clear".to_owned(),
            Rule::TlsCertificate =>
                "tls.listen is set but tls.cert or tls.key is empty; a TLS listener with no certificate has nothing to present".to_owned(),
            Rule::TlsListener =>
                "tls.cert or tls.key is set but tls.listen is empty, so nothing will serve them. Set tls.listen, or clear both".to_owned(),
            Rule::ClusterTlsBuild =>
                "cluster.tls is set, but this binary was built without the `tls` feature.              Rebuild with `--features tls`, or clear cluster.tls — it will not fall back              to dialling peers in the clear".to_owned(),
            Rule::ClusterTlsCa =>
                "cluster.tls is set but cluster.tls_ca is empty. Peers are verified against an              explicit CA; there is no fallback to the platform roots, because these are              internal names issued by an internal authority".to_owned(),
            Rule::PeerCredential => {
                let mut out = "auth.required is set and ".to_owned();
                text::push_decimal(&mut out, self.cluster.peers.len() as u64);
                out.append(" peers are configured, but cluster.auth_secret is empty. Peer traffic uses the cache port like any other client, so the peers would be refused and tag invalidation would stop converging across the cluster while every node still reported itself healthy");
                out
            },
            Rule::AuthAttempts =>
                "auth.max_attempts must be > 0, or no credential could ever be presented".to_owned(),
            Rule::AuthTimeout =>
                "auth.timeout_ms must be > 0, or a connection would be dropped before it could authenticate".to_owned(),
            Rule::WriteBatch => "store.write.max_batch must be > 0".to_owned(),
            Rule::WriteQueue => "store.write.queue_depth must be > 0".to_owned(),
            Rule::SweepInterval => "store.ttl.sweep_interval_ms must be > 0".to_owned(),
            Rule::SweepBatch => "store.ttl.sweep_batch must be > 0".to_owned(),
            Rule::BucketGranularity => "store.ttl.bucket_granularity_ms must be > 0".to_owned(),
            Rule::MaxTags => "store.tags.max_tags must be > 0".to_owned(),
            Rule::MaxTagsPerRecord => "store.tags.max_per_record must be > 0".to_owned(),
            Rule::TagsFitHeader => {
                let mut out = "store.tags.max_per_record exceeds the absolute limit of ".to_owned();
                text::push_decimal(&mut out, limits.max_tags_per_record as u64);
                out.append(", which the record header cannot describe");
                out
            },
            Rule::ReclaimBatch => "store.tags.reclaim_batch must be > 0".to_owned(),
            Rule::ListingMaxScan => "protocol.listing_max_scan must be > 0".to_owned(),
            Rule::ScanCursorCount => "protocol.scan_cursors must be > 0".to_owned(),
            Rule::ScanCursorTtl => "protocol.scan_cursor_ttl_ms must be > 0".to_owned(),
            Rule::WatermarkRange =>
                "store.eviction watermarks must be fractions between 0 and 1".to_owned(),
            Rule::WatermarkOrder => {
                let mut out = "store.eviction watermarks must increase: soft (".to_owned();
                out.append(self.store.eviction.soft.text.as_str());
                out.append(") < hard (");
                out.append(self.store.eviction.hard.text.as_str());
                out.append(") < critical (");
                out.append(self.store.eviction.critical.text.as_str());
                out.append(")");
                out
            },
            Rule::EvictionBatch => "store.eviction.batch must be > 0".to_owned(),
            Rule::GossipInterval => "cluster.gossip_interval_ms must be > 0".to_owned(),
            Rule::FanoutTimeout => "cluster.fanout_timeout_ms must be > 0".to_owned(),
            Rule::PeerQueue => "cluster.queue_depth must be > 0".to_owned(),
            Rule::PeerAddress => {
                let mut out = "cluster.peers entry ".to_owned();
                let peer: &str = match self.bad_peer() {
                    Some(i) => self.cluster.peers[i].as_str(),
                    None => "",
                };
                proof {
                    reveal_strlit("");
                    assert(peer@ =~= first_bad_peer(self.cluster.peers@));
                }
                out.append(credentials::quote(peer).as_str());
                out.append(" is not a host:port address");
                out
            },
        }
    }

    /// Checks every rule in order and reports the first that is broken.
    ///
    /// `tls_built` says whether this binary can terminate TLS: a configuration
    /// that asks for it in one that cannot must stop startup rather than fall
    /// back to plaintext.
    pub fn validate(&self, limits: &EngineLimits, tls_built: bool) -> (checked: Result<
        (),
        ConfigError,
    >)
        ensures
            match checked {
                Ok(_) => self.valid(*limits, tls_built),
                Err(e) => exists|i: int|
                    #![trigger rules()[i]]
                    0 <= i < rules().len() && e.rule == rules()[i] && !self.holds(
                        rules()[i],
                        *limits,
                        tls_built,
                    ) && (forall|j: int|
                        0 <= j < i ==> self.holds(#[trigger] rules()[j], *limits, tls_built))
                        && e.message@ == self.rule_message(e.rule, *limits),
            },
    {
        let list = rule_list();
        let mut i: usize = 0;
        while i < list.len()
            invariant
                list@ == rules(),
                i <= list@.len(),
                forall|j: int| 0 <= j < i ==> self.holds(#[trigger] rules()[j], *limits, tls_built),
            decreases list@.len() - i,
        {
            if !self.meets(list[i], limits, tls_built) {
                assert(list@[i as int] == rules()[i as int]);
                return Err(
                    ConfigError { rule: list[i], message: self.describe(list[i], limits) },
                );
            }
            i = i + 1;
        }
        Ok(())
    }

    fn bad_peer(&self) -> (found: Option<usize>)
        ensures
            found is None <==> (forall|i: int|
                0 <= i < self.cluster.peers@.len() ==> host_and_port(
                    #[trigger] self.cluster.peers@[i]@,
                )),
            found is Some ==> found->0 < self.cluster.peers@.len()
                && self.cluster.peers@[found->0 as int]@ == first_bad_peer(self.cluster.peers@),
            found is None ==> first_bad_peer(self.cluster.peers@) == Seq::<char>::empty(),
    {
        let mut i: usize = 0;
        let ghost peers = self.cluster.peers@;
        assert(peers.skip(0) =~= peers);
        while i < self.cluster.peers.len()
            invariant
                peers == self.cluster.peers@,
                i <= peers.len(),
                forall|j: int| 0 <= j < i ==> host_and_port(#[trigger] peers[j]@),
                first_bad_peer(peers.skip(i as int)) == first_bad_peer(peers),
            decreases peers.len() - i,
        {
            let chars = text::chars_of(self.cluster.peers[i].as_str());
            assert(chars@ == peers[i as int]@);
            let colon = text::find_from(&chars, 0, ':');
            proof {
                assert(chars@.skip(0) =~= chars@);
                text::lemma_run_before_contains(chars@, ':');
                assert(peers.skip(i as int)[0] == peers[i as int]);
                assert(peers.skip(i as int).skip(1) =~= peers.skip(i + 1));
            }
            if colon == chars.len() || colon == 0 {
                return Some(i);
            }
            i = i + 1;
        }
        None
    }

    /// Whether every rule holds.
    pub open spec fn valid(self, limits: EngineLimits, tls_built: bool) -> bool {
        forall|i: int|
            0 <= i < rules().len() ==> self.holds(#[trigger] rules()[i], limits, tls_built)
    }

    /// The configuration of a server that was told nothing.
    pub fn with_engine(engine: &EngineDefaults) -> (config: Self)
        ensures
            config.server.listen@ == "127.0.0.1:11311"@,
            config.server.max_connections == 10_000,
            config.server.read_buffer == 16_384,
            config.server.max_blocking_threads == 128,
            config.store.is_default(*engine),
            call_ensures(ProtocolConfig::default, (), config.protocol),
            call_ensures(AuthConfig::default, (), config.auth),
            call_ensures(TlsConfig::default, (), config.tls),
            call_ensures(ClusterConfig::default, (), config.cluster),
            call_ensures(ObservabilityConfig::default, (), config.observability),
    {
        Config {
            server: ServerConfig::default(),
            store: StoreConfig::with_engine(engine),
            protocol: ProtocolConfig::default(),
            auth: AuthConfig::default(),
            tls: TlsConfig::default(),
            cluster: ClusterConfig::default(),
            observability: ObservabilityConfig::default(),
        }
    }

    /// Shards actually used, resolving the `0` default against the parallelism
    /// of the machine where it is known.
    ///
    /// Capped at two: sharding buys concurrent writers and nothing else, and
    /// divides the mean batch of every commit.
    pub fn shard_count(&self, parallelism: Option<usize>) -> (n: usize)
        ensures
            n == self.shards(parallelism),
    {
        if self.store.shards != 0 {
            return self.store.shards;
        }
        let cores: usize = match parallelism {
            Some(n) => n,
            None => 1,
        };
        if cores < 2 {
            cores
        } else {
            2
        }
    }

    /// The shards in use.
    pub open spec fn shards(self, parallelism: Option<usize>) -> usize {
        if self.store.shards != 0 {
            self.store.shards
        } else {
            match parallelism {
                Some(n) => if n < 2 {
                    n
                } else {
                    2
                },
                None => 1,
            }
        }
    }

    /// Whether the two sizes fit in the machine's address space in bytes.
    pub open spec fn sizes_fit(self) -> bool {
        self.store.map_size_mb * 1048576 <= usize::MAX && self.store.preallocate_mb * 1048576
            <= usize::MAX
    }

    /// Whether `store_config` can be asked for.
    pub fn has_representable_sizes(&self) -> (yes: bool)
        ensures
            yes == self.sizes_fit(),
    {
        self.store.map_size_mb <= usize::MAX / 1048576 && self.store.preallocate_mb <= usize::MAX
            / 1048576
    }

    /// What the storage engine is opened with.
    pub fn store_config(&self, parallelism: Option<usize>) -> (engine: EngineConfig)
        requires
            self.sizes_fit(),
        ensures
            engine == (EngineConfig {
                path: self.store.path,
                backend: self.store.backend,
                shards: self.shards(parallelism),
                map_size: (self.store.map_size_mb * 1048576) as usize,
                preallocate: (self.store.preallocate_mb * 1048576) as usize,
                max_readers: self.store.max_readers,
                durability: self.store.durability,
                max_value_len: self.store.max_value_bytes,
                wipe_on_start: self.store.wipe_on_start,
                write_map: self.store.write_map,
                prefault: self.store.prefault || self.store.resident_mode,
                lock_map: self.store.resident_mode,
                bucket_granularity_ms: self.store.ttl.bucket_granularity_ms,
                max_tags: self.store.tags.max_tags,
                max_tags_per_record: self.store.tags.max_per_record,
                max_batch: self.store.write.max_batch,
                queue_depth: self.store.write.queue_depth,
                linger_us: self.store.write.linger_us,
                sync_interval_ms: self.store.write.sync_interval_ms,
                sweep_interval_ms: self.store.ttl.sweep_interval_ms,
                sweep_batch: self.store.ttl.sweep_batch,
                reclaim_batch: self.store.tags.reclaim_batch,
                eviction: self.store.eviction,
            }),
    {
        EngineConfig {
            path: self.store.path.clone(),
            backend: self.store.backend,
            shards: self.shard_count(parallelism),
            map_size: self.store.map_size_mb * 1048576,
            preallocate: self.store.preallocate_mb * 1048576,
            max_readers: self.store.max_readers,
            durability: self.store.durability,
            max_value_len: self.store.max_value_bytes,
            wipe_on_start: self.store.wipe_on_start,
            write_map: self.store.write_map,
            prefault: self.store.prefault || self.store.resident_mode,
            lock_map: self.store.resident_mode,
            bucket_granularity_ms: self.store.ttl.bucket_granularity_ms,
            max_tags: self.store.tags.max_tags,
            max_tags_per_record: self.store.tags.max_per_record,
            max_batch: self.store.write.max_batch,
            queue_depth: self.store.write.queue_depth,
            linger_us: self.store.write.linger_us,
            sync_interval_ms: self.store.write.sync_interval_ms,
            sweep_interval_ms: self.store.ttl.sweep_interval_ms,
            sweep_batch: self.store.ttl.sweep_batch,
            reclaim_batch: self.store.tags.reclaim_batch,
            eviction: self.store.eviction.clone(),
        }
    }
}

/// What the storage engine is opened with.
#[derive(Debug)]
pub struct EngineConfig {
    pub path: String,
    pub backend: Backend,
    pub shards: usize,
    pub map_size: usize,
    pub preallocate: usize,
    pub max_readers: u32,
    pub durability: Durability,
    pub max_value_len: usize,
    pub wipe_on_start: bool,
    pub write_map: bool,
    /// Residency implies prefaulting: locking pages that were never read in
    /// would pin an empty map.
    pub prefault: bool,
    pub lock_map: bool,
    pub bucket_granularity_ms: u64,
    pub max_tags: usize,
    pub max_tags_per_record: usize,
    pub max_batch: usize,
    pub queue_depth: usize,
    pub linger_us: u64,
    pub sync_interval_ms: u64,
    pub sweep_interval_ms: u64,
    pub sweep_batch: usize,
    pub reclaim_batch: usize,
    pub eviction: EvictionConfig,
}

/// Every rule is checked: a valid configuration meets each of them.
pub proof fn valid_means_every_rule_holds(
    config: Config,
    rule: Rule,
    limits: EngineLimits,
    tls_built: bool,
)
    requires
        config.valid(limits, tls_built),
    ensures
        config.holds(rule, limits, tls_built),
{
    let all = rules();
    match rule {
        Rule::MapSize => assert(all[0] == rule),
        Rule::Preallocate => assert(all[1] == rule),
        Rule::MaxReaders => assert(all[2] == rule),
        Rule::MaxConnections => assert(all[3] == rule),
        Rule::MaxValueBytes => assert(all[4] == rule),
        Rule::ReadBuffer => assert(all[5] == rule),
        Rule::MaxBlockingThreads => assert(all[6] == rule),
        Rule::ReadersCoverThreads => assert(all[7] == rule),
        Rule::TlsBuild => assert(all[8] == rule),
        Rule::TlsCertificate => assert(all[9] == rule),
        Rule::TlsListener => assert(all[10] == rule),
        Rule::ClusterTlsBuild => assert(all[11] == rule),
        Rule::ClusterTlsCa => assert(all[12] == rule),
        Rule::PeerCredential => assert(all[13] == rule),
        Rule::AuthAttempts => assert(all[14] == rule),
        Rule::AuthTimeout => assert(all[15] == rule),
        Rule::WriteBatch => assert(all[16] == rule),
        Rule::WriteQueue => assert(all[17] == rule),
        Rule::SweepInterval => assert(all[18] == rule),
        Rule::SweepBatch => assert(all[19] == rule),
        Rule::BucketGranularity => assert(all[20] == rule),
        Rule::MaxTags => assert(all[21] == rule),
        Rule::MaxTagsPerRecord => assert(all[22] == rule),
        Rule::TagsFitHeader => assert(all[23] == rule),
        Rule::ReclaimBatch => assert(all[24] == rule),
        Rule::ListingMaxScan => assert(all[25] == rule),
        Rule::ScanCursorCount => assert(all[26] == rule),
        Rule::ScanCursorTtl => assert(all[27] == rule),
        Rule::WatermarkRange => assert(all[28] == rule),
        Rule::WatermarkOrder => assert(all[29] == rule),
        Rule::EvictionBatch => assert(all[30] == rule),
        Rule::GossipInterval => assert(all[31] == rule),
        Rule::FanoutTimeout => assert(all[32] == rule),
        Rule::PeerQueue => assert(all[33] == rule),
        Rule::PeerAddress => assert(all[34] == rule),
    }
}

/// A binary that cannot terminate TLS never starts on a configuration that asks
/// for it, on either side: there is no fallback to plaintext.
pub proof fn no_tls_without_a_build_that_serves_it(config: Config, limits: EngineLimits)
    requires
        config.valid(limits, false),
    ensures
        !config.tls.asked(),
        !config.cluster.tls,
{
    valid_means_every_rule_holds(config, Rule::TlsBuild, limits, false);
    valid_means_every_rule_holds(config, Rule::ClusterTlsBuild, limits, false);
}

/// Where the engine's own defaults are usable, the default configuration is
/// valid in every build.
pub proof fn defaults_are_valid(
    config: Config,
    engine: EngineDefaults,
    limits: EngineLimits,
    tls_built: bool,
)
    requires
        call_ensures(Config::with_engine, (&engine,), config),
        engine.sound(limits),
    ensures
        config.valid(limits, tls_built),
{
}

/// Whether an address has a colon behind its first character, which is none.
pub open spec fn has_port(peer: Seq<char>) -> bool {
    exists|k: int| 0 < k < peer.len() && #[trigger] peer[k] == ':' && peer[0] != ':'
}

/// A configuration is valid exactly where a server can run on it: everything that is
/// waited for, held or counted off has room for at least one, nothing is larger than
/// what the engine and the wire can carry, the threads that read never outnumber the
/// readers there are, eviction starts before writes are refused, and no connection is
/// asked for that could not be made.
pub proof fn a_valid_configuration_is_one_to_run_on(
    config: Config,
    limits: EngineLimits,
    tls_built: bool,
)
    ensures
        config.valid(limits, tls_built) <==> {
            let server = config.server;
            let store = config.store;
            let cluster = config.cluster;
            // Room for one.
            &&& 1 <= server.max_connections <= 0xffff_ffff
            &&& 1 <= server.max_blocking_threads < store.max_readers
            &&& config.auth.max_attempts != 0 && config.auth.timeout_ms != 0
            &&& store.write.max_batch != 0 && store.write.queue_depth != 0
            &&& store.ttl.sweep_interval_ms != 0 && store.ttl.sweep_batch != 0
            &&& store.ttl.bucket_granularity_ms != 0
            &&& store.tags.max_tags != 0 && store.tags.reclaim_batch != 0
            &&& store.eviction.batch != 0
            &&& config.protocol.listing_max_scan != 0
            &&& config.protocol.scan_cursors != 0 && config.protocol.scan_cursor_ttl_ms != 0
            &&& cluster.gossip_interval_ms != 0 && cluster.fanout_timeout_ms != 0
            &&& cluster.queue_depth != 0
            // Within what can be carried.
            &&& limits.min_map_size <= store.map_size_mb * 0x10_0000
            &&& store.preallocate_mb <= store.map_size_mb
            &&& store.max_value_bytes <= limits.max_value_len
            &&& limits.frame_header_len <= server.read_buffer
            &&& 1 <= store.tags.max_per_record <= limits.max_tags_per_record
            // Eviction before refusal: soft, hard and critical, from zero to one.
            &&& store.eviction.soft.rank() < store.eviction.hard.rank()
                < store.eviction.critical.rank() <= ONE_BITS
            // Nothing that could not be made.
            &&& config.tls.asked() ==> tls_built && config.tls.cert@.len() > 0
                && config.tls.key@.len() > 0
            &&& !config.tls.asked() ==> config.tls.cert@.len() == 0 && config.tls.key@.len() == 0
            &&& cluster.tls ==> tls_built && cluster.tls_ca@.len() > 0
            &&& config.auth.required && cluster.peers@.len() > 0 ==> cluster.auth_secret@.len() > 0
            &&& forall|i: int|
                0 <= i < cluster.peers@.len() ==> has_port(#[trigger] cluster.peers@[i]@)
        },
{
    let peers = config.cluster.peers@;
    assert forall|i: int| 0 <= i < peers.len() implies host_and_port(#[trigger] peers[i]@)
        == has_port(peers[i]@) by {
        let peer = peers[i]@;
        if host_and_port(peer) {
            let k = choose|k: int| 0 <= k < peer.len() && peer[k] == ':';
            assert(peer[k] == ':');
        }
        if has_port(peer) {
            let k = choose|k: int| 0 < k < peer.len() && #[trigger] peer[k] == ':' && peer[0] != ':';
            assert(peer[k] == ':');
        }
    }
    if config.valid(limits, tls_built) {
        assert forall|rule: Rule| #[trigger] config.holds(rule, limits, tls_built) by {
            valid_means_every_rule_holds(config, rule, limits, tls_built);
        }
        assert(config.holds(Rule::MapSize, limits, tls_built));
        assert(config.holds(Rule::Preallocate, limits, tls_built));
        assert(config.holds(Rule::MaxReaders, limits, tls_built));
        assert(config.holds(Rule::MaxConnections, limits, tls_built));
        assert(config.holds(Rule::MaxValueBytes, limits, tls_built));
        assert(config.holds(Rule::ReadBuffer, limits, tls_built));
        assert(config.holds(Rule::MaxBlockingThreads, limits, tls_built));
        assert(config.holds(Rule::ReadersCoverThreads, limits, tls_built));
        assert(config.holds(Rule::TlsBuild, limits, tls_built));
        assert(config.holds(Rule::TlsCertificate, limits, tls_built));
        assert(config.holds(Rule::TlsListener, limits, tls_built));
        assert(config.holds(Rule::ClusterTlsBuild, limits, tls_built));
        assert(config.holds(Rule::ClusterTlsCa, limits, tls_built));
        assert(config.holds(Rule::PeerCredential, limits, tls_built));
        assert(config.holds(Rule::AuthAttempts, limits, tls_built));
        assert(config.holds(Rule::AuthTimeout, limits, tls_built));
        assert(config.holds(Rule::WriteBatch, limits, tls_built));
        assert(config.holds(Rule::WriteQueue, limits, tls_built));
        assert(config.holds(Rule::SweepInterval, limits, tls_built));
        assert(config.holds(Rule::SweepBatch, limits, tls_built));
        assert(config.holds(Rule::BucketGranularity, limits, tls_built));
        assert(config.holds(Rule::MaxTags, limits, tls_built));
        assert(config.holds(Rule::MaxTagsPerRecord, limits, tls_built));
        assert(config.holds(Rule::TagsFitHeader, limits, tls_built));
        assert(config.holds(Rule::ReclaimBatch, limits, tls_built));
        assert(config.holds(Rule::ListingMaxScan, limits, tls_built));
        assert(config.holds(Rule::ScanCursorCount, limits, tls_built));
        assert(config.holds(Rule::ScanCursorTtl, limits, tls_built));
        assert(config.holds(Rule::WatermarkRange, limits, tls_built));
        assert(config.holds(Rule::WatermarkOrder, limits, tls_built));
        assert(config.holds(Rule::EvictionBatch, limits, tls_built));
        assert(config.holds(Rule::GossipInterval, limits, tls_built));
        assert(config.holds(Rule::FanoutTimeout, limits, tls_built));
        assert(config.holds(Rule::PeerQueue, limits, tls_built));
        assert(config.holds(Rule::PeerAddress, limits, tls_built));
    }
}

/// A server has the shards it is told to have, and otherwise one, or two where the
/// machine can run two at once; never more.
pub proof fn shards_are_few(config: Config, parallelism: Option<usize>)
    requires
        parallelism is Some ==> parallelism->0 > 0,
    ensures
        config.store.shards > 0 ==> config.shards(parallelism) == config.store.shards,
        config.store.shards == 0 ==> 1 <= config.shards(parallelism) <= 2,
        config.store.shards == 0 ==> (config.shards(parallelism) == 2 <==> parallelism is Some
            && parallelism->0 >= 2),
{
}

} // verus!
