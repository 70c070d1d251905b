//! Running a server: what the command line changes in a configuration, the
//! limits a configuration leads to, and which connections are let in.
use crate::auth::{Auth, AuthState, Limits, LoadError};
use crate::config::{Config, Durability, StoreConfig};
use crate::credentials;
use crate::metrics::ServerMetrics;
use crate::text;
use vstd::prelude::*;

verus! {

/// What the command line asks for. A flag that is absent means "whatever the
/// configuration file said", never "put it back".
#[derive(Debug)]
pub struct Overrides {
    pub listen: Option<String>,
    pub data: Option<String>,
    /// Start from an empty database, and do not sync to disk.
    pub ephemeral: bool,
    pub enable_flush: bool,
    pub enable_listing: bool,
    pub admin_listen: Option<String>,
    pub disable_memcached: bool,
    pub disable_resp: bool,
    /// Replaces the configured peer list rather than adding to it, so the flag
    /// always describes the whole cluster.
    pub peers: Vec<String>,
    pub require_auth: bool,
    pub auth_file: Option<String>,
}

/// A value, unless the command line gives another.
pub open spec fn or_given(given: Option<String>, configured: String) -> String {
    match given {
        Some(value) => value,
        None => configured,
    }
}

/// A configuration with what the command line asks for.
pub open spec fn overridden(config: Config, asked: Overrides) -> Config {
    Config {
        server: crate::config::ServerConfig {
            listen: or_given(asked.listen, config.server.listen),
            ..config.server
        },
        store: StoreConfig {
            path: or_given(asked.data, config.store.path),
            durability: if asked.ephemeral {
                Durability::Lazy
            } else {
                config.store.durability
            },
            wipe_on_start: asked.ephemeral || config.store.wipe_on_start,
            ..config.store
        },
        protocol: crate::config::ProtocolConfig {
            flush_enabled: asked.enable_flush || config.protocol.flush_enabled,
            listing_enabled: asked.enable_listing || config.protocol.listing_enabled,
            memcached_enabled: !asked.disable_memcached && config.protocol.memcached_enabled,
            resp_enabled: !asked.disable_resp && config.protocol.resp_enabled,
            ..config.protocol
        },
        auth: crate::config::AuthConfig {
            required: asked.require_auth || config.auth.required,
            file: or_given(asked.auth_file, config.auth.file),
            ..config.auth
        },
        cluster: crate::config::ClusterConfig {
            peers: if asked.peers@.len() > 0 {
                asked.peers
            } else {
                config.cluster.peers
            },
            ..config.cluster
        },
        observability: crate::config::ObservabilityConfig {
            admin_listen: or_given(asked.admin_listen, config.observability.admin_listen),
            ..config.observability
        },
        ..config
    }
}

fn set_if_given(slot: &mut String, given: Option<String>)
    ensures
        *final(slot) == or_given(given, *old(slot)),
{
    if let Some(value) = given {
        *slot = value;
    }
}

fn set_peers_if_given(slot: &mut Vec<String>, given: Vec<String>)
    ensures
        *final(slot) == (if given@.len() > 0 {
            given
        } else {
            *old(slot)
        }),
{
    if given.len() > 0 {
        *slot = given;
    }
}

/// Applies what the command line asks for.
pub fn apply_overrides(config: &mut Config, asked: Overrides)
    ensures
        *final(config) == overridden(*old(config), asked),
{
    set_if_given(&mut config.server.listen, asked.listen);
    set_if_given(&mut config.store.path, asked.data);
    config.store.durability = if asked.ephemeral {
        Durability::Lazy
    } else {
        config.store.durability
    };
    config.store.wipe_on_start = asked.ephemeral || config.store.wipe_on_start;
    config.protocol.flush_enabled = asked.enable_flush || config.protocol.flush_enabled;
    config.protocol.listing_enabled = asked.enable_listing || config.protocol.listing_enabled;
    config.protocol.memcached_enabled = !asked.disable_memcached
        && config.protocol.memcached_enabled;
    config.protocol.resp_enabled = !asked.disable_resp && config.protocol.resp_enabled;
    set_if_given(&mut config.observability.admin_listen, asked.admin_listen);
    set_if_given(&mut config.auth.file, asked.auth_file);
    config.auth.required = asked.require_auth || config.auth.required;
    set_peers_if_given(&mut config.cluster.peers, asked.peers);
}

/// A command line that asks for nothing changes nothing.
pub proof fn nothing_asked_changes_nothing(config: Config, asked: Overrides)
    requires
        asked.listen is None,
        asked.data is None,
        !asked.ephemeral,
        !asked.enable_flush,
        !asked.enable_listing,
        asked.admin_listen is None,
        !asked.disable_memcached,
        !asked.disable_resp,
        asked.peers@.len() == 0,
        !asked.require_auth,
        asked.auth_file is None,
    ensures
        overridden(config, asked) == config,
{
}

/// How the log is written.
#[derive(Debug, Clone, Copy, PartialEq, Eq, Structural)]
pub enum LogFormat {
    Json,
    Pretty,
}

/// What a configured log format means.
pub open spec fn log_format_of(name: Seq<char>) -> Option<LogFormat> {
    if name == "json"@ {
        Some(LogFormat::Json)
    } else if name == "pretty"@ {
        Some(LogFormat::Pretty)
    } else {
        None
    }
}

/// Reads `observability.log_format`.
pub fn log_format(name: &str) -> (format: Result<LogFormat, String>)
    ensures
        match log_format_of(name@) {
            Some(known) => format == Ok::<LogFormat, String>(known),
            None => format is Err && format->Err_0@ == "unknown observability.log_format "@
                + credentials::quoted(name@) + ", expected json or pretty"@,
        },
{
    let given = text::chars_of(name);
    let json = text::chars_of("json");
    let pretty = text::chars_of("pretty");
    if text::same_text(given.as_slice(), json.as_slice()) {
        return Ok(LogFormat::Json);
    }
    if text::same_text(given.as_slice(), pretty.as_slice()) {
        return Ok(LogFormat::Pretty);
    }
    let mut message = "unknown observability.log_format ".to_owned();
    message.append(credentials::quote(name).as_str());
    message.append(", expected json or pretty");
    Err(message)
}

/// The bounds on what an unauthenticated connection may consume.
///
/// Where nothing is configured, strangers get a tenth of the connection budget,
/// so that they cannot crowd out the authenticated ones; but never none of it.
pub open spec fn limits_of(config: Config) -> Limits {
    Limits {
        timeout_ms: config.auth.timeout_ms,
        max_attempts: config.auth.max_attempts,
        max_connections: if config.auth.max_unauthenticated_connections != 0 {
            config.auth.max_unauthenticated_connections
        } else if config.server.max_connections / 10 > 1 {
            config.server.max_connections / 10
        } else {
            1
        },
    }
}

pub fn limits(config: &Config) -> (limits: Limits)
    ensures
        limits == limits_of(*config),
{
    let max_connections: usize = if config.auth.max_unauthenticated_connections != 0 {
        config.auth.max_unauthenticated_connections
    } else if config.server.max_connections / 10 > 1 {
        config.server.max_connections / 10
    } else {
        1
    };
    Limits {
        timeout_ms: config.auth.timeout_ms,
        max_attempts: config.auth.max_attempts,
        max_connections,
    }
}

/// Whether the store has to be asked if its whole map is locked in memory.
///
/// `resident_mode` is a request, not a setting: it earns inline reads only by
/// having locked every shard's map.
pub fn asks_for_residency(store: &StoreConfig) -> (yes: bool)
    ensures
        yes == (store.resident_mode && !store.inline_reads),
{
    store.resident_mode && !store.inline_reads
}

/// Whether reads are served inline, given whether the map is locked.
pub fn inline_reads(store: &StoreConfig, locked: bool) -> (yes: bool)
    ensures
        yes == (store.inline_reads || (store.resident_mode && locked)),
        yes && !store.inline_reads ==> locked,
        store.inline_reads ==> yes,
{
    if asks_for_residency(store) {
        locked
    } else {
        store.inline_reads
    }
}

/// Swaps in a reloaded credential table, or keeps the one in use where the
/// reload failed: swapping in an empty table because someone truncated the file
/// in the middle of an edit would be wrong.
pub fn reload_credentials(state: &mut AuthState, loaded: Result<Auth, LoadError>) -> (failure:
    Option<LoadError>)
    requires
        old(state).wf(),
        loaded is Ok ==> loaded->Ok_0.wf(),
    ensures
        final(state).wf(),
        final(state).budget() == old(state).budget(),
        match loaded {
            Ok(auth) => failure is None && final(state)@ == auth@,
            Err(e) => failure == Some(e) && final(state)@ == old(state)@,
        },
        failure is Some <==> loaded is Err,
        failure is Some ==> final(state)@ == old(state)@,
{
    match loaded {
        Ok(auth) => {
            state.replace(auth);
            None
        },
        Err(e) => Some(e),
    }
}

/// The connection budget: how many connections there are, and how many of them
/// have not authenticated yet.
///
/// The second, smaller budget exists because without it the budget of strangers
/// is the connection budget, and a stranger can fill it without presenting
/// anything.
#[derive(Debug)]
pub struct Doorkeeper {
    open: usize,
    max_open: usize,
    strangers: usize,
    max_strangers: usize,
    enforcing: bool,
}

/// What the budget holds.
pub struct Budget {
    pub open: usize,
    pub max_open: usize,
    pub strangers: usize,
    pub max_strangers: usize,
    pub enforcing: bool,
}

impl Budget {
    /// Both budgets are kept, and every stranger is a connection.
    pub open spec fn wf(self) -> bool {
        &&& self.open <= self.max_open
        &&& self.strangers <= self.max_strangers
        &&& self.strangers <= self.open
        &&& !self.enforcing ==> self.strangers == 0
    }

    /// What becomes of a connection that arrives.
    pub open spec fn verdict(self) -> Verdict {
        if self.open >= self.max_open {
            Verdict::AtTheLimit
        } else if self.enforcing && self.strangers >= self.max_strangers {
            Verdict::TooManyStrangers
        } else {
            Verdict::Admitted { stranger: self.enforcing }
        }
    }
}

/// What becomes of a connection.
#[derive(Debug, Clone, Copy, PartialEq, Eq, Structural)]
pub enum Verdict {
    /// Refused: there are as many connections as there may be.
    AtTheLimit,
    /// Refused: there are as many unauthenticated ones as there may be.
    TooManyStrangers,
    /// Let in. A stranger counts against both budgets until it authenticates.
    Admitted { stranger: bool },
}

impl View for Doorkeeper {
    type V = Budget;

    closed spec fn view(&self) -> Budget {
        Budget {
            open: self.open,
            max_open: self.max_open,
            strangers: self.strangers,
            max_strangers: self.max_strangers,
            enforcing: self.enforcing,
        }
    }
}

impl Doorkeeper {
    /// An empty budget.
    pub fn new(max_open: usize, max_strangers: usize, enforcing: bool) -> (keeper: Self)
        ensures
            keeper@ == (Budget { open: 0, max_open, strangers: 0, max_strangers, enforcing }),
            keeper@.wf(),
    {
        Doorkeeper { open: 0, max_open, strangers: 0, max_strangers, enforcing }
    }

    /// Decides on a connection that arrived, and counts it.
    ///
    /// Past the limit it is refused instead of accepted into a backlog nobody can
    /// serve: a client that is told no can fall back.
    pub fn let_in(&mut self, metrics: &mut ServerMetrics) -> (verdict: Verdict)
        requires
            old(self)@.wf(),
        ensures
            final(self)@.wf(),
            verdict == old(self)@.verdict(),
            match verdict {
                Verdict::AtTheLimit => {
                    &&& final(self)@ == old(self)@
                    &&& *final(metrics) == (ServerMetrics {
                        connections_rejected: old(metrics).connections_rejected.wrapping_add(1),
                        ..*old(metrics)
                    })
                },
                Verdict::TooManyStrangers => {
                    &&& final(self)@ == old(self)@
                    &&& *final(metrics) == (ServerMetrics {
                        auth_capacity_rejected: old(metrics).auth_capacity_rejected.wrapping_add(1),
                        connections_rejected: old(metrics).connections_rejected.wrapping_add(1),
                        ..*old(metrics)
                    })
                },
                Verdict::Admitted { stranger } => {
                    &&& final(self)@ == (Budget {
                        open: (old(self)@.open + 1) as usize,
                        strangers: if stranger {
                            (old(self)@.strangers + 1) as usize
                        } else {
                            old(self)@.strangers
                        },
                        ..old(self)@
                    })
                    &&& *final(metrics) == (ServerMetrics {
                        connections_total: old(metrics).connections_total.wrapping_add(1),
                        connections_active: old(metrics).connections_active.wrapping_add(1),
                        ..*old(metrics)
                    })
                },
            },
    {
        if self.open >= self.max_open {
            metrics.connection_rejected();
            return Verdict::AtTheLimit;
        }
        if self.enforcing && self.strangers >= self.max_strangers {
            metrics.auth_capacity_rejected();
            metrics.connection_rejected();
            return Verdict::TooManyStrangers;
        }
        metrics.connection_opened();
        self.open = self.open + 1;
        if self.enforcing {
            self.strangers = self.strangers + 1;
        }
        Verdict::Admitted { stranger: self.enforcing }
    }

    /// Gives back the stranger's place of a connection that has just
    /// authenticated, so the smaller budget counts connections that have
    /// presented nothing.
    pub fn authenticated(&mut self)
        requires
            old(self)@.wf(),
            old(self)@.strangers > 0,
        ensures
            final(self)@.wf(),
            final(self)@ == (Budget {
                strangers: (old(self)@.strangers - 1) as usize,
                ..old(self)@
            }),
    {
        self.strangers = self.strangers - 1;
    }

    /// Gives back the place of a connection that ended, and counts it.
    /// `stranger` says that it never authenticated.
    pub fn closed(&mut self, stranger: bool, metrics: &mut ServerMetrics)
        requires
            old(self)@.wf(),
            old(self)@.open > 0,
            if stranger {
                old(self)@.strangers > 0
            } else {
                old(self)@.strangers < old(self)@.open
            },
        ensures
            final(self)@.wf(),
            final(self)@ == (Budget {
                open: (old(self)@.open - 1) as usize,
                strangers: if stranger {
                    (old(self)@.strangers - 1) as usize
                } else {
                    old(self)@.strangers
                },
                ..old(self)@
            }),
            *final(metrics) == (ServerMetrics {
                connections_active: old(metrics).connections_active.wrapping_sub(1),
                ..*old(metrics)
            }),
    {
        self.open = self.open - 1;
        if stranger {
            self.strangers = self.strangers - 1;
        }
        metrics.connection_closed();
    }

    /// Whether every connection has ended, so that the store can be closed.
    pub fn drained(&self) -> (yes: bool)
        ensures
            yes == (self@.open == 0),
    {
        self.open == 0
    }
}

/// Strangers alone never fill the connection budget, where their own is the
/// smaller one.
pub proof fn strangers_leave_room(budget: Budget)
    requires
        budget.wf(),
        budget.max_strangers < budget.max_open,
    ensures
        budget.open == budget.strangers ==> budget.verdict() != Verdict::AtTheLimit,
{
}

/// Nobody is refused while there is room, and authentication that is not enforced
/// never refuses anybody.
pub proof fn room_is_given(budget: Budget)
    requires
        budget.wf(),
        budget.open < budget.max_open,
    ensures
        !budget.enforcing ==> budget.verdict() == (Verdict::Admitted { stranger: false }),
        budget.strangers < budget.max_strangers ==> budget.verdict() is Admitted,
{
}

/// No budget is ever overrun, nobody is refused who fits in both, and a connection that
/// must authenticate counts as a stranger's until it has.
pub proof fn a_budget_is_kept_and_used(budget: Budget)
    requires
        budget.wf(),
    ensures
        budget.verdict() is Admitted <==> budget.open < budget.max_open && (!budget.enforcing
            || budget.strangers < budget.max_strangers),
        budget.verdict() matches Verdict::Admitted { stranger } ==> stranger == budget.enforcing,
        budget.verdict() is TooManyStrangers ==> budget.enforcing && budget.open < budget.max_open,
{
}

/// What the command line asks for is what a configuration then says, whatever it said
/// before, and a flag that is absent leaves its setting alone.
pub proof fn a_flag_is_heeded_and_nothing_else_changes(config: Config, asked: Overrides)
    ensures
        ({
            let out = overridden(config, asked);
            &&& out.server.listen == (if asked.listen is Some {
                asked.listen->0
            } else {
                config.server.listen
            })
            &&& out.store.path == (if asked.data is Some {
                asked.data->0
            } else {
                config.store.path
            })
            &&& asked.ephemeral ==> out.store.wipe_on_start && out.store.durability
                == Durability::Lazy
            &&& !asked.ephemeral ==> out.store.wipe_on_start == config.store.wipe_on_start
                && out.store.durability == config.store.durability
            &&& out.protocol.flush_enabled <==> asked.enable_flush || config.protocol.flush_enabled
            &&& out.protocol.listing_enabled <==> asked.enable_listing
                || config.protocol.listing_enabled
            &&& out.protocol.memcached_enabled <==> config.protocol.memcached_enabled
                && !asked.disable_memcached
            &&& out.protocol.resp_enabled <==> config.protocol.resp_enabled && !asked.disable_resp
            &&& out.auth.required <==> asked.require_auth || config.auth.required
            &&& out.auth.file == (if asked.auth_file is Some {
                asked.auth_file->0
            } else {
                config.auth.file
            })
            &&& out.cluster.peers == (if asked.peers@.len() > 0 {
                asked.peers
            } else {
                config.cluster.peers
            })
            &&& out.observability.admin_listen == (if asked.admin_listen is Some {
                asked.admin_listen->0
            } else {
                config.observability.admin_listen
            })
            &&& out.tls == config.tls
            &&& out.server.max_connections == config.server.max_connections
            &&& out.auth.max_attempts == config.auth.max_attempts
            &&& out.auth.timeout_ms == config.auth.timeout_ms
        }),
{
}

/// Strangers always have a place, never more of them than were configured, and by
/// default no more than a tenth of all, so that those who have authenticated are never
/// crowded out.
pub proof fn strangers_get_a_tenth_at_most(config: Config)
    requires
        config.server.max_connections > 0,
    ensures
        limits_of(config).max_connections > 0,
        limits_of(config).max_connections <= config.server.max_connections || limits_of(
            config,
        ).max_connections == config.auth.max_unauthenticated_connections,
        config.auth.max_unauthenticated_connections > 0 ==> limits_of(config).max_connections
            == config.auth.max_unauthenticated_connections,
        config.auth.max_unauthenticated_connections == 0 && config.server.max_connections >= 10
            ==> limits_of(config).max_connections * 10 <= config.server.max_connections
            && config.server.max_connections < (limits_of(config).max_connections + 1) * 10,
        config.auth.max_unauthenticated_connections == 0 && config.server.max_connections < 10
            ==> limits_of(config).max_connections == 1,
        limits_of(config).timeout_ms == config.auth.timeout_ms,
        limits_of(config).max_attempts == config.auth.max_attempts,
{
}

} // verus!
