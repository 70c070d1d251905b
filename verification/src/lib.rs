//! The decision logic of a cache server: credentials, configuration rules,
//! command execution, cluster digests, metrics and listings.
//!
//! Everything here works on plain values. Sockets, files, clocks, locks and the
//! storage engine belong to the program around it.
use vstd::prelude::*;

pub mod admin;
pub mod auth;
pub mod cluster;
pub mod config;
pub mod conn;
pub mod connections;
pub mod credentials;
pub mod dispatch;
pub mod domain;
pub mod memcached;
pub mod metrics;
pub mod model;
pub mod promises;
pub mod protocol;
pub mod resp;
pub mod scan;
pub mod server;
pub mod state;
pub mod stats;
pub mod tags;
pub mod text;
pub mod tls;
pub mod vcp;

verus! {

} // verus!
