//! The counter snapshot behind memcached `stats` and Redis `INFO`.
//!
//! One list, two renderings: memcached prints every pair as a `STAT` line, and
//! `INFO` maps these names onto Redis's. The names are memcached's wherever it
//! has one; everything else carries a `vash_` prefix.
//!
//! Nothing here is reported that is not measured. A store that cannot be queried
//! contributes no keys at all rather than a row of zeroes.
use crate::cluster;
use crate::connections;
use crate::credentials;
use crate::memcached::StatsSection;
use crate::metrics;
use crate::metrics::{CommandKind, StoreStats};
use crate::state::ServerState;
use crate::text;
use vstd::prelude::*;

verus! {

/// A counter's name and value.
pub type Row = (Seq<char>, Seq<char>);

/// The rows of a list of counters.
pub open spec fn rows(list: Seq<(String, String)>) -> Seq<Row> {
    Seq::new(list.len(), |i: int| (list[i].0@, list[i].1@))
}

/// Adds one counter.
pub fn push_row(list: &mut Vec<(String, String)>, name: &str, value: String)
    ensures
        rows(final(list)@) == rows(old(list)@).push((name@, value@)),
{
    let ghost before = list@;
    list.push((name.to_owned(), value));
    assert(rows(list@) =~= rows(before).push((name@, value@)));
}

/// Adds the counters of another list.
pub fn push_rows(list: &mut Vec<(String, String)>, more: Vec<(String, String)>)
    ensures
        rows(final(list)@) == rows(old(list)@) + rows(more@),
{
    let ghost before = list@;
    let ghost added = more@;
    let mut more = more;
    list.append(&mut more);
    assert(rows(list@) =~= rows(before) + rows(added));
}

/// `yes` or `no`.
pub open spec fn yes_no_text(flag: bool) -> Seq<char> {
    if flag {
        "yes"@
    } else {
        "no"@
    }
}

/// `yes` or `no`.
pub fn yes_no(flag: bool) -> (out: String)
    ensures
        out@ == yes_no_text(flag),
{
    if flag {
        "yes".to_owned()
    } else {
        "no".to_owned()
    }
}

/// What the process says of itself.
#[derive(Debug)]
pub struct Process {
    pub pid: u64,
    pub version: String,
    pub pointer_bits: u64,
    pub uptime_secs: u64,
    pub unix_secs: u64,
    /// The name of the mode the cluster tier runs in.
    pub cluster_mode: String,
}

/// What the server counted.
pub open spec fn server_rows(process: Process, state: ServerState) -> Seq<Row> {
    seq![
        ("pid"@, text::decimal(process.pid as nat)),
        ("version"@, process.version@),
        ("pointer_size"@, text::decimal(process.pointer_bits as nat)),
        ("uptime"@, text::decimal(process.uptime_secs as nat)),
        ("time"@, text::decimal(process.unix_secs as nat)),
        ("max_connections"@, text::decimal(state.binding.max_connections as nat)),
        ("curr_connections"@, text::decimal(state.metrics.connections_active as nat)),
        ("total_connections"@, text::decimal(state.metrics.connections_total as nat)),
        ("rejected_connections"@, text::decimal(state.metrics.connections_rejected as nat)),
        (
            "cmd_get"@,
            text::decimal(
                state.metrics.commands@.total(CommandKind::Get)
                    .wrapping_add(state.metrics.commands@.total(CommandKind::GetMany))
                    .wrapping_add(state.metrics.commands@.total(CommandKind::GetAndTouch)) as nat,
            ),
        ),
        (
            "cmd_set"@,
            text::decimal(
                state.metrics.commands@.total(CommandKind::SetOne)
                    .wrapping_add(state.metrics.commands@.total(CommandKind::SetMany)) as nat,
            ),
        ),
        ("cmd_touch"@, text::decimal(state.metrics.commands@.total(CommandKind::Touch) as nat)),
        ("cmd_flush"@, text::decimal(state.metrics.commands@.total(CommandKind::Flush) as nat)),
        ("cmd_meta"@, text::decimal(state.metrics.outcomes.meta_commands as nat)),
        ("get_hits"@, text::decimal(state.metrics.hits as nat)),
        ("get_misses"@, text::decimal(state.metrics.misses as nat)),
        ("delete_hits"@, text::decimal(state.metrics.outcomes.delete_hits as nat)),
        ("delete_misses"@, text::decimal(state.metrics.outcomes.delete_misses as nat)),
        ("incr_hits"@, text::decimal(state.metrics.outcomes.incr_hits as nat)),
        ("incr_misses"@, text::decimal(state.metrics.outcomes.incr_misses as nat)),
        ("decr_hits"@, text::decimal(state.metrics.outcomes.decr_hits as nat)),
        ("decr_misses"@, text::decimal(state.metrics.outcomes.decr_misses as nat)),
        ("cas_hits"@, text::decimal(state.metrics.outcomes.cas_hits as nat)),
        ("cas_misses"@, text::decimal(state.metrics.outcomes.cas_misses as nat)),
        ("cas_badval"@, text::decimal(state.metrics.outcomes.cas_badval as nat)),
        ("touch_hits"@, text::decimal(state.metrics.outcomes.touch_hits as nat)),
        ("touch_misses"@, text::decimal(state.metrics.outcomes.touch_misses as nat)),
        ("total_items"@, text::decimal(state.metrics.outcomes.total_items as nat)),
        ("store_too_large"@, text::decimal(state.metrics.outcomes.store_too_large as nat)),
        ("store_no_memory"@, text::decimal(state.metrics.errors_capacity as nat)),
        (
            "auth_cmds"@,
            text::decimal(state.metrics.auth_ok.wrapping_add(state.metrics.auth_failed) as nat),
        ),
        ("auth_errors"@, text::decimal(state.metrics.auth_failed as nat)),
        ("bytes_read"@, text::decimal(state.metrics.outcomes.bytes_read as nat)),
        ("bytes_written"@, text::decimal(state.metrics.outcomes.bytes_written as nat)),
        ("accepting_conns"@, "1"@),
        ("vash_commands"@, text::decimal(state.metrics.commands_total as nat)),
        ("vash_reads"@, text::decimal(state.metrics.reads as nat)),
        ("vash_writes"@, text::decimal(state.metrics.writes as nat)),
    ]
}

fn server_rows_list(process: &Process, state: &ServerState) -> (list: Vec<(String, String)>)
    requires
        state.metrics.commands@.wf(),
    ensures
        rows(list@) == server_rows(*process, *state),
{
    let mut list: Vec<(String, String)> = Vec::new();
    assert(rows(list@) =~= Seq::empty());
    push_row(&mut list, "pid", text::decimal_text(process.pid));
    push_row(&mut list, "version", process.version.clone());
    push_row(&mut list, "pointer_size", text::decimal_text(process.pointer_bits));
    push_row(&mut list, "uptime", text::decimal_text(process.uptime_secs));
    push_row(&mut list, "time", text::decimal_text(process.unix_secs));
    push_row(&mut list, "max_connections", text::decimal_text(state.binding.max_connections));
    push_row(&mut list, "curr_connections", text::decimal_text(state.metrics.connections_active));
    push_row(&mut list, "total_connections", text::decimal_text(state.metrics.connections_total));
    push_row(&mut list, "rejected_connections", text::decimal_text(state.metrics.connections_rejected));
    push_row(
        &mut list,
        "cmd_get",
        text::decimal_text(
            state.metrics.commands.total(CommandKind::Get)
                .wrapping_add(state.metrics.commands.total(CommandKind::GetMany))
                .wrapping_add(state.metrics.commands.total(CommandKind::GetAndTouch)),
        ),
    );
    push_row(
        &mut list,
        "cmd_set",
        text::decimal_text(
            state.metrics.commands.total(CommandKind::SetOne)
                .wrapping_add(state.metrics.commands.total(CommandKind::SetMany)),
        ),
    );
    push_row(
        &mut list,
        "cmd_touch",
        text::decimal_text(state.metrics.commands.total(CommandKind::Touch)),
    );
    push_row(
        &mut list,
        "cmd_flush",
        text::decimal_text(state.metrics.commands.total(CommandKind::Flush)),
    );
    push_row(&mut list, "cmd_meta", text::decimal_text(state.metrics.outcomes.meta_commands));
    push_row(&mut list, "get_hits", text::decimal_text(state.metrics.hits));
    push_row(&mut list, "get_misses", text::decimal_text(state.metrics.misses));
    push_row(&mut list, "delete_hits", text::decimal_text(state.metrics.outcomes.delete_hits));
    push_row(&mut list, "delete_misses", text::decimal_text(state.metrics.outcomes.delete_misses));
    push_row(&mut list, "incr_hits", text::decimal_text(state.metrics.outcomes.incr_hits));
    push_row(&mut list, "incr_misses", text::decimal_text(state.metrics.outcomes.incr_misses));
    push_row(&mut list, "decr_hits", text::decimal_text(state.metrics.outcomes.decr_hits));
    push_row(&mut list, "decr_misses", text::decimal_text(state.metrics.outcomes.decr_misses));
    push_row(&mut list, "cas_hits", text::decimal_text(state.metrics.outcomes.cas_hits));
    push_row(&mut list, "cas_misses", text::decimal_text(state.metrics.outcomes.cas_misses));
    push_row(&mut list, "cas_badval", text::decimal_text(state.metrics.outcomes.cas_badval));
    push_row(&mut list, "touch_hits", text::decimal_text(state.metrics.outcomes.touch_hits));
    push_row(&mut list, "touch_misses", text::decimal_text(state.metrics.outcomes.touch_misses));
    push_row(&mut list, "total_items", text::decimal_text(state.metrics.outcomes.total_items));
    push_row(&mut list, "store_too_large", text::decimal_text(state.metrics.outcomes.store_too_large));
    push_row(&mut list, "store_no_memory", text::decimal_text(state.metrics.errors_capacity));
    push_row(
        &mut list,
        "auth_cmds",
        text::decimal_text(state.metrics.auth_ok.wrapping_add(state.metrics.auth_failed)),
    );
    push_row(&mut list, "auth_errors", text::decimal_text(state.metrics.auth_failed));
    push_row(&mut list, "bytes_read", text::decimal_text(state.metrics.outcomes.bytes_read));
    push_row(&mut list, "bytes_written", text::decimal_text(state.metrics.outcomes.bytes_written));
    push_row(&mut list, "accepting_conns", "1".to_owned());
    push_row(&mut list, "vash_commands", text::decimal_text(state.metrics.commands_total));
    push_row(&mut list, "vash_reads", text::decimal_text(state.metrics.reads));
    push_row(&mut list, "vash_writes", text::decimal_text(state.metrics.writes));
    list
}

/// What the store reports.
pub open spec fn store_rows(store: StoreStats) -> Seq<Row> {
    seq![
        ("curr_items"@, text::decimal(store.entries as nat)),
        ("bytes"@, text::decimal(store.used_bytes as nat)),
        ("limit_maxbytes"@, text::decimal(store.map_size as nat)),
        ("evictions"@, text::decimal(store.evicted as nat)),
        ("vash_shards"@, text::decimal(store.shards as nat)),
        ("vash_utilisation"@, store.utilisation_4@),
        ("vash_expiry_entries"@, text::decimal(store.expiry_entries as nat)),
        ("vash_tags"@, text::decimal(store.tags as nat)),
        ("vash_tag_index_entries"@, text::decimal(store.tag_index_entries as nat)),
        ("vash_pending_reclaims"@, text::decimal(store.pending_reclaims as nat)),
        ("vash_commits"@, text::decimal(store.commits as nat)),
        ("vash_committed_ops"@, text::decimal(store.committed_ops as nat)),
        ("vash_mean_batch"@, store.mean_batch_2@),
        ("vash_sweeps"@, text::decimal(store.sweeps as nat)),
        ("vash_reclaimed"@, text::decimal(store.reclaimed as nat)),
        ("vash_tag_reclaimed"@, text::decimal(store.tag_reclaimed as nat)),
        ("vash_sweep_lag_ms"@, text::decimal(store.sweep_lag_ms as nat)),
        ("vash_epoch"@, text::decimal(store.epoch as nat)),
        ("vash_readers_in_use"@, text::decimal(store.readers_in_use as nat)),
        ("vash_oldest_reader_age_ms"@, text::decimal(store.oldest_reader_age_ms as nat)),
    ]
}

fn store_rows_list(store: &StoreStats) -> (list: Vec<(String, String)>)
    ensures
        rows(list@) == store_rows(*store),
{
    let mut list: Vec<(String, String)> = Vec::new();
    assert(rows(list@) =~= Seq::empty());
    push_row(&mut list, "curr_items", text::decimal_text(store.entries));
    push_row(&mut list, "bytes", text::decimal_text(store.used_bytes));
    push_row(&mut list, "limit_maxbytes", text::decimal_text(store.map_size));
    push_row(&mut list, "evictions", text::decimal_text(store.evicted));
    push_row(&mut list, "vash_shards", text::decimal_text(store.shards));
    push_row(&mut list, "vash_utilisation", store.utilisation_4.clone());
    push_row(&mut list, "vash_expiry_entries", text::decimal_text(store.expiry_entries));
    push_row(&mut list, "vash_tags", text::decimal_text(store.tags));
    push_row(&mut list, "vash_tag_index_entries", text::decimal_text(store.tag_index_entries));
    push_row(&mut list, "vash_pending_reclaims", text::decimal_text(store.pending_reclaims));
    push_row(&mut list, "vash_commits", text::decimal_text(store.commits));
    push_row(&mut list, "vash_committed_ops", text::decimal_text(store.committed_ops));
    push_row(&mut list, "vash_mean_batch", store.mean_batch_2.clone());
    push_row(&mut list, "vash_sweeps", text::decimal_text(store.sweeps));
    push_row(&mut list, "vash_reclaimed", text::decimal_text(store.reclaimed));
    push_row(&mut list, "vash_tag_reclaimed", text::decimal_text(store.tag_reclaimed));
    push_row(&mut list, "vash_sweep_lag_ms", text::decimal_text(store.sweep_lag_ms));
    push_row(&mut list, "vash_epoch", text::decimal_text(store.epoch));
    push_row(&mut list, "vash_readers_in_use", text::decimal_text(store.readers_in_use));
    push_row(&mut list, "vash_oldest_reader_age_ms", text::decimal_text(store.oldest_reader_age_ms));
    list
}

/// What the cluster looks like from here.
pub open spec fn cluster_rows(process: Process, state: ServerState) -> Seq<Row> {
    seq![
        ("vash_cluster_mode"@, process.cluster_mode@),
        ("vash_cluster_peers"@, text::decimal(state.cluster.membership().peers.len())),
        ("vash_cluster_peers_reachable"@, text::decimal(cluster::up(state.cluster.membership().peers))),
    ]
}

fn cluster_rows_list(process: &Process, state: &ServerState) -> (list: Vec<(String, String)>)
    ensures
        rows(list@) == cluster_rows(*process, *state),
{
    let mut list: Vec<(String, String)> = Vec::new();
    assert(rows(list@) =~= Seq::empty());
    push_row(&mut list, "vash_cluster_mode", process.cluster_mode.clone());
    push_row(&mut list, "vash_cluster_peers", text::decimal_text(state.cluster.peer_count() as u64));
    push_row(
        &mut list,
        "vash_cluster_peers_reachable",
        text::decimal_text(state.cluster.peers_reachable()),
    );
    list
}

/// The general counters. The store's go together or not at all: a `curr_items`
/// of zero beside a real `cmd_get` would read as an empty cache rather than as an
/// unanswered question.
pub open spec fn general(process: Process, state: ServerState, store: Option<&StoreStats>) -> Seq<Row> {
    match store {
        Some(store) => server_rows(process, state) + store_rows(*store) + cluster_rows(process, state),
        None => server_rows(process, state) + cluster_rows(process, state),
    }
}

/// Builds the counter list.
pub fn collect(process: &Process, state: &ServerState, store: Option<&StoreStats>) -> (list: Vec<
    (String, String),
>)
    requires
        state.wf(),
    ensures
        rows(list@) == general(*process, *state, store),
{
    let mut list = server_rows_list(process, state);
    if let Some(store) = store {
        push_rows(&mut list, store_rows_list(store));
    }
    push_rows(&mut list, cluster_rows_list(process, state));
    list
}

/// The configuration this node is running, but for what the store was opened with.
pub open spec fn setting_rows(process: Process, state: ServerState, encrypted: bool) -> Seq<Row> {
    seq![
        ("maxconns"@, text::decimal(state.binding.max_connections as nat)),
        ("tcpport"@, text::decimal(state.binding.port as nat)),
        ("udpport"@, "0"@),
        ("inter"@, state.binding.ip@),
        ("verbosity"@, "0"@),
        ("evictions"@, "on"@),
        ("domain_socket"@, "NULL"@),
        ("shutdown_command"@, "no"@),
        ("cas_enabled"@, "yes"@),
        ("auth_enabled_sasl"@, "no"@),
        ("auth_enabled_ascii"@, yes_no_text(state.auth@.required)),
        ("maxconns_fast"@, "yes"@),
        ("flush_enabled"@, yes_no_text(state.protocol.flush_enabled)),
        ("dump_enabled"@, yes_no_text(state.protocol.listing_enabled)),
        ("lru_crawler"@, yes_no_text(state.protocol.listing_enabled)),
        ("lru_crawler_tocrawl"@, text::decimal(state.protocol.listing_max_scan as nat)),
        ("lru_maintainer_thread"@, "no"@),
        ("temp_lru"@, "no"@),
        ("track_sizes"@, "no"@),
        ("detail_enabled"@, "no"@),
        ("ssl_enabled"@, yes_no_text(encrypted)),
        ("proxy_enabled"@, "no"@),
        ("client_flags_size"@, "4"@),
        ("vash_shards"@, text::decimal(state.info.shards as nat)),
        ("vash_max_value_bytes"@, text::decimal(state.info.max_value_len as nat)),
        ("vash_max_tags_per_record"@, text::decimal(state.info.max_tags_per_record as nat)),
        ("vash_listing_max_scan"@, text::decimal(state.protocol.listing_max_scan as nat)),
        ("vash_max_blocking_threads"@, text::decimal(state.binding.max_blocking_threads as nat)),
        ("vash_read_buffer"@, text::decimal(state.binding.read_buffer as nat)),
        ("vash_scan_cursors"@, text::decimal(state.protocol.scan_cursors as nat)),
        ("vash_scan_cursor_ttl_ms"@, text::decimal(state.protocol.scan_cursor_ttl_ms as nat)),
        ("vash_memcached_enabled"@, yes_no_text(state.protocol.memcached_enabled)),
        ("vash_resp_enabled"@, yes_no_text(state.protocol.resp_enabled)),
        ("vash_inline_reads"@, yes_no_text(state.inline_reads)),
        ("vash_cluster_mode"@, process.cluster_mode@),
        ("vash_cluster_peers"@, text::decimal(state.cluster.membership().peers.len())),
    ]
}

fn setting_rows_list(process: &Process, state: &ServerState, encrypted: bool) -> (list: Vec<
    (String, String),
>)
    requires
        state.auth.wf(),
    ensures
        rows(list@) == setting_rows(*process, *state, encrypted),
{
    let mut list: Vec<(String, String)> = Vec::new();
    assert(rows(list@) =~= Seq::empty());
    push_row(&mut list, "maxconns", text::decimal_text(state.binding.max_connections));
    push_row(&mut list, "tcpport", text::decimal_text(state.binding.port as u64));
    push_row(&mut list, "udpport", "0".to_owned());
    push_row(&mut list, "inter", state.binding.ip.clone());
    push_row(&mut list, "verbosity", "0".to_owned());
    push_row(&mut list, "evictions", "on".to_owned());
    push_row(&mut list, "domain_socket", "NULL".to_owned());
    push_row(&mut list, "shutdown_command", "no".to_owned());
    push_row(&mut list, "cas_enabled", "yes".to_owned());
    push_row(&mut list, "auth_enabled_sasl", "no".to_owned());
    push_row(&mut list, "auth_enabled_ascii", yes_no(state.auth.required()));
    push_row(&mut list, "maxconns_fast", "yes".to_owned());
    push_row(&mut list, "flush_enabled", yes_no(state.protocol.flush_enabled));
    push_row(&mut list, "dump_enabled", yes_no(state.protocol.listing_enabled));
    push_row(&mut list, "lru_crawler", yes_no(state.protocol.listing_enabled));
    push_row(
        &mut list,
        "lru_crawler_tocrawl",
        text::decimal_text(state.protocol.listing_max_scan as u64),
    );
    push_row(&mut list, "lru_maintainer_thread", "no".to_owned());
    push_row(&mut list, "temp_lru", "no".to_owned());
    push_row(&mut list, "track_sizes", "no".to_owned());
    push_row(&mut list, "detail_enabled", "no".to_owned());
    push_row(&mut list, "ssl_enabled", yes_no(encrypted));
    push_row(&mut list, "proxy_enabled", "no".to_owned());
    push_row(&mut list, "client_flags_size", "4".to_owned());
    push_row(&mut list, "vash_shards", text::decimal_text(state.info.shards as u64));
    push_row(&mut list, "vash_max_value_bytes", text::decimal_text(state.info.max_value_len as u64));
    push_row(
        &mut list,
        "vash_max_tags_per_record",
        text::decimal_text(state.info.max_tags_per_record as u64),
    );
    push_row(
        &mut list,
        "vash_listing_max_scan",
        text::decimal_text(state.protocol.listing_max_scan as u64),
    );
    push_row(
        &mut list,
        "vash_max_blocking_threads",
        text::decimal_text(state.binding.max_blocking_threads),
    );
    push_row(&mut list, "vash_read_buffer", text::decimal_text(state.binding.read_buffer));
    push_row(&mut list, "vash_scan_cursors", text::decimal_text(state.protocol.scan_cursors as u64));
    push_row(
        &mut list,
        "vash_scan_cursor_ttl_ms",
        text::decimal_text(state.protocol.scan_cursor_ttl_ms),
    );
    push_row(&mut list, "vash_memcached_enabled", yes_no(state.protocol.memcached_enabled));
    push_row(&mut list, "vash_resp_enabled", yes_no(state.protocol.resp_enabled));
    push_row(&mut list, "vash_inline_reads", yes_no(state.inline_reads));
    push_row(&mut list, "vash_cluster_mode", process.cluster_mode.clone());
    push_row(&mut list, "vash_cluster_peers", text::decimal_text(state.cluster.peer_count() as u64));
    list
}

/// What the store was opened with.
pub open spec fn opened_rows(state: ServerState, store: StoreStats) -> Seq<Row> {
    seq![
        ("maxbytes"@, text::decimal(store.map_size as nat)),
        ("item_size_max"@, text::decimal(state.info.max_value_len as nat)),
        ("vash_max_readers"@, text::decimal(store.max_readers as nat)),
    ]
}

fn opened_rows_list(state: &ServerState, store: &StoreStats) -> (list: Vec<(String, String)>)
    ensures
        rows(list@) == opened_rows(*state, *store),
{
    let mut list: Vec<(String, String)> = Vec::new();
    assert(rows(list@) =~= Seq::empty());
    push_row(&mut list, "maxbytes", text::decimal_text(store.map_size));
    push_row(&mut list, "item_size_max", text::decimal_text(state.info.max_value_len as u64));
    push_row(&mut list, "vash_max_readers", text::decimal_text(store.max_readers));
    list
}

/// `stats settings`. `ssl_enabled` describes the connection that asks, not the
/// process that answers: a client on the plaintext port that checks it before
/// sending a credential must not be told otherwise.
pub fn settings(
    process: &Process,
    state: &ServerState,
    store: Option<&StoreStats>,
    encrypted: bool,
) -> (list: Vec<(String, String)>)
    requires
        state.wf(),
    ensures
        rows(list@) == (match store {
            Some(store) => setting_rows(*process, *state, encrypted) + opened_rows(*state, *store),
            None => setting_rows(*process, *state, encrypted),
        }),
{
    let mut list = setting_rows_list(process, state, encrypted);
    if let Some(store) = store {
        push_rows(&mut list, opened_rows_list(state, store));
    }
    list
}

/// A name under the one slab class there is.
pub open spec fn classed(before: Seq<char>, class: Seq<char>, after: Seq<char>) -> Seq<char> {
    before + class + after
}

fn class_name(before: &str, class: &str, after: &str) -> (name: String)
    ensures
        name@ == classed(before@, class@, after@),
{
    let mut name = before.to_owned();
    name.append(class);
    name.append(after);
    name
}

/// `stats items`, for the one class there is.
pub open spec fn item_rows(class: Seq<char>, state: ServerState, store: StoreStats) -> Seq<Row> {
    seq![
        (classed("items:"@, class, ":number"@), text::decimal(store.entries as nat)),
        (classed("items:"@, class, ":evicted"@), text::decimal(store.evicted as nat)),
        (
            classed("items:"@, class, ":outofmemory"@),
            text::decimal(state.metrics.errors_capacity as nat),
        ),
        (classed("items:"@, class, ":vash_expiry_entries"@), text::decimal(store.expiry_entries as nat)),
        (
            classed("items:"@, class, ":vash_tag_index_entries"@),
            text::decimal(store.tag_index_entries as nat),
        ),
        (
            classed("items:"@, class, ":vash_pending_reclaims"@),
            text::decimal(store.pending_reclaims as nat),
        ),
        (classed("items:"@, class, ":vash_reclaimed"@), text::decimal(store.reclaimed as nat)),
        (classed("items:"@, class, ":vash_tag_reclaimed"@), text::decimal(store.tag_reclaimed as nat)),
    ]
}

/// `stats items`: per slab class, of which there is one. Nothing where the store
/// cannot be queried.
pub fn items(class: &str, state: &ServerState, store: Option<&StoreStats>) -> (list: Vec<
    (String, String),
>)
    ensures
        rows(list@) == (match store {
            Some(store) => item_rows(class@, *state, *store),
            None => Seq::empty(),
        }),
{
    let mut list: Vec<(String, String)> = Vec::new();
    assert(rows(list@) =~= Seq::empty());
    if let Some(store) = store {
        push_row(
            &mut list,
            class_name("items:", class, ":number").as_str(),
            text::decimal_text(store.entries),
        );
        push_row(
            &mut list,
            class_name("items:", class, ":evicted").as_str(),
            text::decimal_text(store.evicted),
        );
        push_row(
            &mut list,
            class_name("items:", class, ":outofmemory").as_str(),
            text::decimal_text(state.metrics.errors_capacity),
        );
        push_row(
            &mut list,
            class_name("items:", class, ":vash_expiry_entries").as_str(),
            text::decimal_text(store.expiry_entries),
        );
        push_row(
            &mut list,
            class_name("items:", class, ":vash_tag_index_entries").as_str(),
            text::decimal_text(store.tag_index_entries),
        );
        push_row(
            &mut list,
            class_name("items:", class, ":vash_pending_reclaims").as_str(),
            text::decimal_text(store.pending_reclaims),
        );
        push_row(
            &mut list,
            class_name("items:", class, ":vash_reclaimed").as_str(),
            text::decimal_text(store.reclaimed),
        );
        push_row(
            &mut list,
            class_name("items:", class, ":vash_tag_reclaimed").as_str(),
            text::decimal_text(store.tag_reclaimed),
        );
    }
    list
}

/// `stats slabs`. What a slab allocator would report has no honest value here but
/// for the command counters and the number of records, each of which is one unit
/// of storage in use.
pub open spec fn slab_rows(class: Seq<char>, state: ServerState, store: Option<&StoreStats>) -> Seq<
    Row,
> {
    let counters = seq![
        (classed(""@, class, ":get_hits"@), text::decimal(state.metrics.hits as nat)),
        (
            classed(""@, class, ":cmd_set"@),
            text::decimal(
                state.metrics.commands@.total(CommandKind::SetOne).wrapping_add(
                    state.metrics.commands@.total(CommandKind::SetMany),
                ) as nat,
            ),
        ),
    ];
    match store {
        Some(store) => counters.push(
            (classed(""@, class, ":used_chunks"@), text::decimal(store.entries as nat)),
        ).push(("active_slabs"@, class)).push(
            ("total_malloced"@, text::decimal(store.map_size as nat)),
        ),
        None => counters.push(("active_slabs"@, class)),
    }
}

/// `stats slabs`.
pub fn slabs(class: &str, state: &ServerState, store: Option<&StoreStats>) -> (list: Vec<
    (String, String),
>)
    requires
        state.wf(),
    ensures
        rows(list@) == slab_rows(class@, *state, store),
{
    let mut list: Vec<(String, String)> = Vec::new();
    assert(rows(list@) =~= Seq::empty());
    push_row(
        &mut list,
        class_name("", class, ":get_hits").as_str(),
        text::decimal_text(state.metrics.hits),
    );
    push_row(
        &mut list,
        class_name("", class, ":cmd_set").as_str(),
        text::decimal_text(
            state.metrics.commands.total(CommandKind::SetOne).wrapping_add(
                state.metrics.commands.total(CommandKind::SetMany),
            ),
        ),
    );
    if let Some(store) = store {
        push_row(
            &mut list,
            class_name("", class, ":used_chunks").as_str(),
            text::decimal_text(store.entries),
        );
    }
    push_row(&mut list, "active_slabs", class.to_owned());
    if let Some(store) = store {
        push_row(&mut list, "total_malloced", text::decimal_text(store.map_size));
    }
    list
}

/// What a section is built from.
pub struct Sources<'a> {
    pub process: &'a Process,
    pub state: &'a ServerState,
    pub store: Option<&'a StoreStats>,
    /// The name of the one slab class there is.
    pub class: &'a str,
    /// Whether the connection that asks is encrypted.
    pub encrypted: bool,
    /// Milliseconds on the registry's clock.
    pub now_ms: u64,
}

/// The rows of one section.
pub open spec fn section_rows(from: Sources, which: StatsSection) -> Seq<Row> {
    match which {
        StatsSection::General => general(*from.process, *from.state, from.store),
        StatsSection::Settings => match from.store {
            Some(store) => setting_rows(*from.process, *from.state, from.encrypted) + opened_rows(
                *from.state,
                *store,
            ),
            None => setting_rows(*from.process, *from.state, from.encrypted),
        },
        StatsSection::Items => match from.store {
            Some(store) => item_rows(from.class@, *from.state, *store),
            None => Seq::empty(),
        },
        StatsSection::Slabs => slab_rows(from.class@, *from.state, from.store),
        StatsSection::Conns => connections::rendering(
            from.state.connections@,
            from.state.binding.addr@,
            from.now_ms,
        ),
        StatsSection::Sizes => seq![("sizes_status"@, "disabled"@)],
        StatsSection::Empty => Seq::empty(),
    }
}

/// Builds one `stats` subcommand's counters.
pub fn section(from: &Sources, which: StatsSection) -> (list: Vec<(String, String)>)
    requires
        from.state.wf(),
    ensures
        rows(list@) == section_rows(*from, which),
{
    match which {
        StatsSection::General => collect(from.process, from.state, from.store),
        StatsSection::Settings => settings(
            from.process,
            from.state,
            from.store,
            from.encrypted,
        ),
        StatsSection::Items => items(from.class, from.state, from.store),
        StatsSection::Slabs => slabs(from.class, from.state, from.store),
        StatsSection::Conns => from.state.connections.render(
            from.state.binding.addr.as_str(),
            from.now_ms,
        ),
        StatsSection::Sizes => {
            let mut list: Vec<(String, String)> = Vec::new();
            assert(rows(list@) =~= Seq::empty());
            push_row(&mut list, "sizes_status", "disabled".to_owned());
            list
        },
        StatsSection::Empty => {
            let list: Vec<(String, String)> = Vec::new();
            assert(rows(list@) =~= Seq::empty());
            list
        },
    }
}

/// Where a name stands among the general counters, told by its length and a few
/// of its characters.
spec fn place(s: Seq<char>) -> int {
    let a = if s.len() > 0 { s[0] } else { s.last() };
    let b = if s.len() > 4 { s[4] } else { s.last() };
    let c = if s.len() > 6 { s[6] } else { s.last() };
    if s.len() == 3 && a == 'p' && b == 'd' && c == 'd' {
        0
    } else if s.len() == 7 && a == 'v' && b == 'i' && c == 'n' {
        1
    } else if s.len() == 12 && a == 'p' && b == 't' && c == 'r' {
        2
    } else if s.len() == 6 && a == 'u' && b == 'm' && c == 'e' {
        3
    } else if s.len() == 4 && a == 't' && b == 'e' && c == 'e' {
        4
    } else if s.len() == 15 && a == 'm' && b == 'c' && c == 'n' {
        5
    } else if s.len() == 16 && a == 'c' && b == '_' && c == 'o' {
        6
    } else if s.len() == 17 && a == 't' && b == 'l' && c == 'c' {
        7
    } else if s.len() == 20 && a == 'r' && b == 'c' && c == 'e' {
        8
    } else if s.len() == 7 && a == 'c' && b == 'g' && c == 't' {
        9
    } else if s.len() == 7 && a == 'c' && b == 's' && c == 't' {
        10
    } else if s.len() == 9 && a == 'c' && b == 't' && c == 'u' {
        11
    } else if s.len() == 9 && a == 'c' && b == 'f' && c == 'u' {
        12
    } else if s.len() == 8 && a == 'c' && b == 'm' && c == 't' {
        13
    } else if s.len() == 8 && a == 'g' && b == 'h' && c == 't' {
        14
    } else if s.len() == 10 && a == 'g' && b == 'm' && c == 's' {
        15
    } else if s.len() == 11 && a == 'd' && b == 't' && c == '_' {
        16
    } else if s.len() == 13 && a == 'd' && b == 't' && c == '_' {
        17
    } else if s.len() == 9 && a == 'i' && b == '_' && c == 'i' {
        18
    } else if s.len() == 11 && a == 'i' && b == '_' && c == 'i' {
        19
    } else if s.len() == 9 && a == 'd' && b == '_' && c == 'i' {
        20
    } else if s.len() == 11 && a == 'd' && b == '_' && c == 'i' {
        21
    } else if s.len() == 8 && a == 'c' && b == 'h' && c == 't' {
        22
    } else if s.len() == 10 && a == 'c' && b == 'm' && c == 's' {
        23
    } else if s.len() == 10 && a == 'c' && b == 'b' && c == 'd' {
        24
    } else if s.len() == 10 && a == 't' && b == 'h' && c == 'h' {
        25
    } else if s.len() == 12 && a == 't' && b == 'h' && c == 'm' {
        26
    } else if s.len() == 11 && a == 't' && b == 'l' && c == 'i' {
        27
    } else if s.len() == 15 && a == 's' && b == 'e' && c == 't' {
        28
    } else if s.len() == 15 && a == 's' && b == 'e' && c == 'n' {
        29
    } else if s.len() == 9 && a == 'a' && b == '_' && c == 'm' {
        30
    } else if s.len() == 11 && a == 'a' && b == '_' && c == 'r' {
        31
    } else if s.len() == 10 && a == 'b' && b == 's' && c == 'r' {
        32
    } else if s.len() == 13 && a == 'b' && b == 's' && c == 'w' {
        33
    } else if s.len() == 15 && a == 'a' && b == 'p' && c == 'i' {
        34
    } else if s.len() == 13 && a == 'v' && b == '_' && c == 'o' {
        35
    } else if s.len() == 10 && a == 'v' && b == '_' && c == 'e' {
        36
    } else if s.len() == 11 && a == 'v' && b == '_' && c == 'r' {
        37
    } else if s.len() == 10 && a == 'c' && b == '_' && c == 't' {
        38
    } else if s.len() == 5 && a == 'b' && b == 's' && c == 's' {
        39
    } else if s.len() == 14 && a == 'l' && b == 't' && c == 'm' {
        40
    } else if s.len() == 9 && a == 'e' && b == 't' && c == 'o' {
        41
    } else if s.len() == 11 && a == 'v' && b == '_' && c == 'h' {
        42
    } else if s.len() == 16 && a == 'v' && b == '_' && c == 't' {
        43
    } else if s.len() == 19 && a == 'v' && b == '_' && c == 'x' {
        44
    } else if s.len() == 9 && a == 'v' && b == '_' && c == 'a' {
        45
    } else if s.len() == 22 && a == 'v' && b == '_' && c == 'a' {
        46
    } else if s.len() == 21 && a == 'v' && b == '_' && c == 'e' {
        47
    } else if s.len() == 12 && a == 'v' && b == '_' && c == 'o' {
        48
    } else if s.len() == 18 && a == 'v' && b == '_' && c == 'o' {
        49
    } else if s.len() == 15 && a == 'v' && b == '_' && c == 'e' {
        50
    } else if s.len() == 11 && a == 'v' && b == '_' && c == 'w' {
        51
    } else if s.len() == 14 && a == 'v' && b == '_' && c == 'e' {
        52
    } else if s.len() == 18 && a == 'v' && b == '_' && c == 'a' {
        53
    } else if s.len() == 17 && a == 'v' && b == '_' && c == 'w' {
        54
    } else if s.len() == 10 && a == 'v' && b == '_' && c == 'p' {
        55
    } else if s.len() == 19 && a == 'v' && b == '_' && c == 'e' {
        56
    } else if s.len() == 25 && a == 'v' && b == '_' && c == 'l' {
        57
    } else if s.len() == 17 && a == 'v' && b == '_' && c == 'l' {
        58
    } else if s.len() == 18 && a == 'v' && b == '_' && c == 'l' {
        59
    } else if s.len() == 28 && a == 'v' && b == '_' && c == 'l' {
        60
    } else {
        -1
    }
}

/// The names of the general counters.
pub open spec fn general_names() -> Seq<Seq<char>> {
    seq![
        "pid"@,
        "version"@,
        "pointer_size"@,
        "uptime"@,
        "time"@,
        "max_connections"@,
        "curr_connections"@,
        "total_connections"@,
        "rejected_connections"@,
        "cmd_get"@,
        "cmd_set"@,
        "cmd_touch"@,
        "cmd_flush"@,
        "cmd_meta"@,
        "get_hits"@,
        "get_misses"@,
        "delete_hits"@,
        "delete_misses"@,
        "incr_hits"@,
        "incr_misses"@,
        "decr_hits"@,
        "decr_misses"@,
        "cas_hits"@,
        "cas_misses"@,
        "cas_badval"@,
        "touch_hits"@,
        "touch_misses"@,
        "total_items"@,
        "store_too_large"@,
        "store_no_memory"@,
        "auth_cmds"@,
        "auth_errors"@,
        "bytes_read"@,
        "bytes_written"@,
        "accepting_conns"@,
        "vash_commands"@,
        "vash_reads"@,
        "vash_writes"@,
        "curr_items"@,
        "bytes"@,
        "limit_maxbytes"@,
        "evictions"@,
        "vash_shards"@,
        "vash_utilisation"@,
        "vash_expiry_entries"@,
        "vash_tags"@,
        "vash_tag_index_entries"@,
        "vash_pending_reclaims"@,
        "vash_commits"@,
        "vash_committed_ops"@,
        "vash_mean_batch"@,
        "vash_sweeps"@,
        "vash_reclaimed"@,
        "vash_tag_reclaimed"@,
        "vash_sweep_lag_ms"@,
        "vash_epoch"@,
        "vash_readers_in_use"@,
        "vash_oldest_reader_age_ms"@,
        "vash_cluster_mode"@,
        "vash_cluster_peers"@,
        "vash_cluster_peers_reachable"@,
    ]
}

proof fn lemma_place(i: int)
    requires
        0 <= i < 61,
    ensures
        place(general_names()[i]) == i,
{
    if i == 0 {
        reveal_strlit("pid");
    } else if i == 1 {
        reveal_strlit("version");
    } else if i == 2 {
        reveal_strlit("pointer_size");
    } else if i == 3 {
        reveal_strlit("uptime");
    } else if i == 4 {
        reveal_strlit("time");
    } else if i == 5 {
        reveal_strlit("max_connections");
    } else if i == 6 {
        reveal_strlit("curr_connections");
    } else if i == 7 {
        reveal_strlit("total_connections");
    } else if i == 8 {
        reveal_strlit("rejected_connections");
    } else if i == 9 {
        reveal_strlit("cmd_get");
    } else if i == 10 {
        reveal_strlit("cmd_set");
    } else if i == 11 {
        reveal_strlit("cmd_touch");
    } else if i == 12 {
        reveal_strlit("cmd_flush");
    } else if i == 13 {
        reveal_strlit("cmd_meta");
    } else if i == 14 {
        reveal_strlit("get_hits");
    } else if i == 15 {
        reveal_strlit("get_misses");
    } else if i == 16 {
        reveal_strlit("delete_hits");
    } else if i == 17 {
        reveal_strlit("delete_misses");
    } else if i == 18 {
        reveal_strlit("incr_hits");
    } else if i == 19 {
        reveal_strlit("incr_misses");
    } else if i == 20 {
        reveal_strlit("decr_hits");
    } else if i == 21 {
        reveal_strlit("decr_misses");
    } else if i == 22 {
        reveal_strlit("cas_hits");
    } else if i == 23 {
        reveal_strlit("cas_misses");
    } else if i == 24 {
        reveal_strlit("cas_badval");
    } else if i == 25 {
        reveal_strlit("touch_hits");
    } else if i == 26 {
        reveal_strlit("touch_misses");
    } else if i == 27 {
        reveal_strlit("total_items");
    } else if i == 28 {
        reveal_strlit("store_too_large");
    } else if i == 29 {
        reveal_strlit("store_no_memory");
    } else if i == 30 {
        reveal_strlit("auth_cmds");
    } else if i == 31 {
        reveal_strlit("auth_errors");
    } else if i == 32 {
        reveal_strlit("bytes_read");
    } else if i == 33 {
        reveal_strlit("bytes_written");
    } else if i == 34 {
        reveal_strlit("accepting_conns");
    } else if i == 35 {
        reveal_strlit("vash_commands");
    } else if i == 36 {
        reveal_strlit("vash_reads");
    } else if i == 37 {
        reveal_strlit("vash_writes");
    } else if i == 38 {
        reveal_strlit("curr_items");
    } else if i == 39 {
        reveal_strlit("bytes");
    } else if i == 40 {
        reveal_strlit("limit_maxbytes");
    } else if i == 41 {
        reveal_strlit("evictions");
    } else if i == 42 {
        reveal_strlit("vash_shards");
    } else if i == 43 {
        reveal_strlit("vash_utilisation");
    } else if i == 44 {
        reveal_strlit("vash_expiry_entries");
    } else if i == 45 {
        reveal_strlit("vash_tags");
    } else if i == 46 {
        reveal_strlit("vash_tag_index_entries");
    } else if i == 47 {
        reveal_strlit("vash_pending_reclaims");
    } else if i == 48 {
        reveal_strlit("vash_commits");
    } else if i == 49 {
        reveal_strlit("vash_committed_ops");
    } else if i == 50 {
        reveal_strlit("vash_mean_batch");
    } else if i == 51 {
        reveal_strlit("vash_sweeps");
    } else if i == 52 {
        reveal_strlit("vash_reclaimed");
    } else if i == 53 {
        reveal_strlit("vash_tag_reclaimed");
    } else if i == 54 {
        reveal_strlit("vash_sweep_lag_ms");
    } else if i == 55 {
        reveal_strlit("vash_epoch");
    } else if i == 56 {
        reveal_strlit("vash_readers_in_use");
    } else if i == 57 {
        reveal_strlit("vash_oldest_reader_age_ms");
    } else if i == 58 {
        reveal_strlit("vash_cluster_mode");
    } else if i == 59 {
        reveal_strlit("vash_cluster_peers");
    } else if i == 60 {
        reveal_strlit("vash_cluster_peers_reachable");
    }
}

/// No two general counters share a name, whether or not the store could be
/// queried: a renderer that picks a counter by name has one to pick.
pub proof fn every_counter_is_named_once(
    process: Process,
    state: ServerState,
    store: Option<&StoreStats>,
    i: int,
    j: int,
)
    requires
        0 <= i < j < general(process, state, store).len(),
    ensures
        general(process, state, store)[i].0 != general(process, state, store)[j].0,
{
    let list = general(process, state, store);
    let shift = |k: int| if store is None && k >= 38 { k + 20 } else { k };
    lemma_general_name(process, state, store, i);
    lemma_general_name(process, state, store, j);
    lemma_place(shift(i));
    lemma_place(shift(j));
}

proof fn lemma_general_name(process: Process, state: ServerState, store: Option<&StoreStats>, k: int)
    requires
        0 <= k < general(process, state, store).len(),
    ensures
        general(process, state, store)[k].0 == general_names()[if store is None && k >= 38 {
            k + 20
        } else {
            k
        }],
        general(process, state, store).len() == (if store is None {
            41int
        } else {
            61int
        }),
{
}

proof fn lemma_listed(list: Seq<Row>, k: int, row: Row)
    requires
        0 <= k < list.len(),
        list[k] == row,
    ensures
        list.contains(row),
{
}

proof fn lemma_server_row(process: Process, state: ServerState, store: Option<&StoreStats>, k: int)
    requires
        0 <= k < 38,
    ensures
        general(process, state, store).len() >= 38,
        general(process, state, store)[k] == server_rows(process, state)[k],
{
}

/// Whether some rows and a page of metrics tell the same value, each under its own name.
pub open spec fn agree(list: Seq<Row>, name: Seq<char>, page: Seq<char>, metric: Seq<char>) -> bool {
    exists|value: Seq<char>|
        #![trigger list.contains((name, value))]
        list.contains((name, value)) && credentials::holds_text(
            page,
            metrics::sample(metric, value),
        )
}

/// What `stats` and `INFO` tell of the server is what the metrics page tells of it.
#[verifier::rlimit(60)]
#[verifier::spinoff_prover]
pub proof fn the_counters_agree_with_the_metrics(
    process: Process,
    state: ServerState,
    store: Option<&StoreStats>,
)
    ensures
        ({
            let list = general(process, state, store);
            let page = metrics::server_text(state.metrics);
            &&& agree(list, "total_connections"@, page, "vash_connections_total"@)
            &&& agree(list, "curr_connections"@, page, "vash_connections_active"@)
            &&& agree(list, "rejected_connections"@, page, "vash_connections_rejected_total"@)
            &&& agree(list, "vash_commands"@, page, "vash_commands_total"@)
            &&& agree(list, "vash_reads"@, page, "vash_reads_total"@)
            &&& agree(list, "vash_writes"@, page, "vash_writes_total"@)
            &&& agree(list, "get_hits"@, page, "vash_hits_total"@)
            &&& agree(list, "get_misses"@, page, "vash_misses_total"@)
        }),
{
    let list = general(process, state, store);
    let all = metrics::server_samples(state.metrics);
    metrics::every_server_counter_is_on_the_page(state.metrics);
    let v0 = text::decimal(state.metrics.connections_total as nat);
    assert(all[0] == metrics::sample("vash_connections_total"@, v0));
    lemma_server_row(process, state, store, 7);
    lemma_listed(list, 7, ("total_connections"@, v0));
    let v1 = text::decimal(state.metrics.connections_active as nat);
    assert(all[1] == metrics::sample("vash_connections_active"@, v1));
    lemma_server_row(process, state, store, 6);
    lemma_listed(list, 6, ("curr_connections"@, v1));
    let v2 = text::decimal(state.metrics.connections_rejected as nat);
    assert(all[2] == metrics::sample("vash_connections_rejected_total"@, v2));
    lemma_server_row(process, state, store, 8);
    lemma_listed(list, 8, ("rejected_connections"@, v2));
    let v3 = text::decimal(state.metrics.commands_total as nat);
    assert(all[3] == metrics::sample("vash_commands_total"@, v3));
    lemma_server_row(process, state, store, 35);
    lemma_listed(list, 35, ("vash_commands"@, v3));
    let v4 = text::decimal(state.metrics.reads as nat);
    assert(all[4] == metrics::sample("vash_reads_total"@, v4));
    lemma_server_row(process, state, store, 36);
    lemma_listed(list, 36, ("vash_reads"@, v4));
    let v5 = text::decimal(state.metrics.writes as nat);
    assert(all[5] == metrics::sample("vash_writes_total"@, v5));
    lemma_server_row(process, state, store, 37);
    lemma_listed(list, 37, ("vash_writes"@, v5));
    let v6 = text::decimal(state.metrics.hits as nat);
    assert(all[6] == metrics::sample("vash_hits_total"@, v6));
    lemma_server_row(process, state, store, 14);
    lemma_listed(list, 14, ("get_hits"@, v6));
    let v7 = text::decimal(state.metrics.misses as nat);
    assert(all[7] == metrics::sample("vash_misses_total"@, v7));
    lemma_server_row(process, state, store, 15);
    lemma_listed(list, 15, ("get_misses"@, v7));
}

/// Whether some rows and the page of outcomes tell the same number.
pub open spec fn outcomes_agree(
    list: Seq<Row>,
    name: Seq<char>,
    page: Seq<char>,
    command: Seq<char>,
    outcome: Seq<char>,
) -> bool {
    exists|n: u64|
        #![trigger metrics::outcome_line(command, outcome, n)]
        list.contains((name, text::decimal(n as nat))) && credentials::holds_text(
            page,
            metrics::outcome_line(command, outcome, n),
        )
}

/// What `stats` and `INFO` tell of what the commands found is what the metrics page
/// tells of it.
#[verifier::rlimit(60)]
#[verifier::spinoff_prover]
pub proof fn the_outcomes_agree_with_the_metrics(
    process: Process,
    state: ServerState,
    store: Option<&StoreStats>,
)
    ensures
        ({
            let list = general(process, state, store);
            let page = metrics::outcome_text(state.metrics.outcomes);
            &&& outcomes_agree(list, "delete_hits"@, page, "delete"@, "hit"@)
            &&& outcomes_agree(list, "delete_misses"@, page, "delete"@, "miss"@)
            &&& outcomes_agree(list, "incr_hits"@, page, "incr"@, "hit"@)
            &&& outcomes_agree(list, "incr_misses"@, page, "incr"@, "miss"@)
            &&& outcomes_agree(list, "decr_hits"@, page, "decr"@, "hit"@)
            &&& outcomes_agree(list, "decr_misses"@, page, "decr"@, "miss"@)
            &&& outcomes_agree(list, "cas_hits"@, page, "cas"@, "hit"@)
            &&& outcomes_agree(list, "cas_misses"@, page, "cas"@, "miss"@)
            &&& outcomes_agree(list, "cas_badval"@, page, "cas"@, "badval"@)
            &&& outcomes_agree(list, "touch_hits"@, page, "touch"@, "hit"@)
            &&& outcomes_agree(list, "touch_misses"@, page, "touch"@, "miss"@)
        }),
{
    let list = general(process, state, store);
    let all = metrics::outcome_samples(state.metrics.outcomes);
    metrics::every_outcome_is_on_the_page(state.metrics.outcomes);
    let v0 = state.metrics.outcomes.delete_hits;
    assert(all[0] == metrics::outcome_line("delete"@, "hit"@, v0));
    lemma_server_row(process, state, store, 16);
    lemma_listed(list, 16, ("delete_hits"@, text::decimal(v0 as nat)));
    let v1 = state.metrics.outcomes.delete_misses;
    assert(all[1] == metrics::outcome_line("delete"@, "miss"@, v1));
    lemma_server_row(process, state, store, 17);
    lemma_listed(list, 17, ("delete_misses"@, text::decimal(v1 as nat)));
    let v2 = state.metrics.outcomes.incr_hits;
    assert(all[2] == metrics::outcome_line("incr"@, "hit"@, v2));
    lemma_server_row(process, state, store, 18);
    lemma_listed(list, 18, ("incr_hits"@, text::decimal(v2 as nat)));
    let v3 = state.metrics.outcomes.incr_misses;
    assert(all[3] == metrics::outcome_line("incr"@, "miss"@, v3));
    lemma_server_row(process, state, store, 19);
    lemma_listed(list, 19, ("incr_misses"@, text::decimal(v3 as nat)));
    let v4 = state.metrics.outcomes.decr_hits;
    assert(all[4] == metrics::outcome_line("decr"@, "hit"@, v4));
    lemma_server_row(process, state, store, 20);
    lemma_listed(list, 20, ("decr_hits"@, text::decimal(v4 as nat)));
    let v5 = state.metrics.outcomes.decr_misses;
    assert(all[5] == metrics::outcome_line("decr"@, "miss"@, v5));
    lemma_server_row(process, state, store, 21);
    lemma_listed(list, 21, ("decr_misses"@, text::decimal(v5 as nat)));
    let v6 = state.metrics.outcomes.cas_hits;
    assert(all[6] == metrics::outcome_line("cas"@, "hit"@, v6));
    lemma_server_row(process, state, store, 22);
    lemma_listed(list, 22, ("cas_hits"@, text::decimal(v6 as nat)));
    let v7 = state.metrics.outcomes.cas_misses;
    assert(all[7] == metrics::outcome_line("cas"@, "miss"@, v7));
    lemma_server_row(process, state, store, 23);
    lemma_listed(list, 23, ("cas_misses"@, text::decimal(v7 as nat)));
    let v8 = state.metrics.outcomes.cas_badval;
    assert(all[8] == metrics::outcome_line("cas"@, "badval"@, v8));
    lemma_server_row(process, state, store, 24);
    lemma_listed(list, 24, ("cas_badval"@, text::decimal(v8 as nat)));
    let v9 = state.metrics.outcomes.touch_hits;
    assert(all[9] == metrics::outcome_line("touch"@, "hit"@, v9));
    lemma_server_row(process, state, store, 25);
    lemma_listed(list, 25, ("touch_hits"@, text::decimal(v9 as nat)));
    let v10 = state.metrics.outcomes.touch_misses;
    assert(all[10] == metrics::outcome_line("touch"@, "miss"@, v10));
    lemma_server_row(process, state, store, 26);
    lemma_listed(list, 26, ("touch_misses"@, text::decimal(v10 as nat)));
}

/// Whether two lists tell the same value, each under its own name.
pub open spec fn same_value(a: Seq<Row>, name: Seq<char>, b: Seq<Row>, other: Seq<char>) -> bool {
    exists|value: Seq<char>|
        #![trigger a.contains((name, value))]
        a.contains((name, value)) && b.contains((other, value))
}

/// The sections tell of the records what the general counters tell.
#[verifier::rlimit(60)]
#[verifier::spinoff_prover]
pub proof fn the_sections_agree_with_the_general_counters(
    process: Process,
    state: ServerState,
    store: &StoreStats,
    class: Seq<char>,
)
    ensures
        ({
            let list = general(process, state, Some(store));
            let items = item_rows(class, state, *store);
            let slabs = slab_rows(class, state, Some(store));
            &&& same_value(list, "curr_items"@, items, classed("items:"@, class, ":number"@))
            &&& same_value(list, "evictions"@, items, classed("items:"@, class, ":evicted"@))
            &&& same_value(
                list,
                "store_no_memory"@,
                items,
                classed("items:"@, class, ":outofmemory"@),
            )
            &&& same_value(
                list,
                "vash_reclaimed"@,
                items,
                classed("items:"@, class, ":vash_reclaimed"@),
            )
            &&& same_value(list, "curr_items"@, slabs, classed(""@, class, ":used_chunks"@))
            &&& same_value(list, "get_hits"@, slabs, classed(""@, class, ":get_hits"@))
            &&& same_value(list, "cmd_set"@, slabs, classed(""@, class, ":cmd_set"@))
            &&& same_value(list, "limit_maxbytes"@, slabs, "total_malloced"@)
        }),
{
    let list = general(process, state, Some(store));
    let items = item_rows(class, state, *store);
    let slabs = slab_rows(class, state, Some(store));
    lemma_listed(list, 38, ("curr_items"@, text::decimal(store.entries as nat)));
    lemma_listed(list, 40, ("limit_maxbytes"@, text::decimal(store.map_size as nat)));
    lemma_listed(list, 41, ("evictions"@, text::decimal(store.evicted as nat)));
    lemma_listed(list, 52, ("vash_reclaimed"@, text::decimal(store.reclaimed as nat)));
    lemma_server_row(process, state, Some(store), 14);
    lemma_server_row(process, state, Some(store), 10);
    lemma_server_row(process, state, Some(store), 29);
    lemma_listed(list, 14, ("get_hits"@, text::decimal(state.metrics.hits as nat)));
    lemma_listed(list, 10, ("cmd_set"@, slabs[1].1));
    lemma_listed(list, 29, ("store_no_memory"@, items[2].1));
    lemma_listed(items, 0, items[0]);
    lemma_listed(items, 1, items[1]);
    lemma_listed(items, 2, items[2]);
    lemma_listed(items, 6, items[6]);
    lemma_listed(slabs, 0, slabs[0]);
    lemma_listed(slabs, 1, slabs[1]);
    lemma_listed(slabs, 2, slabs[2]);
    lemma_listed(slabs, 4, slabs[4]);
}

} // verus!
