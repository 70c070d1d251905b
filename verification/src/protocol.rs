//! The wire dialects.
use vstd::prelude::*;

verus! {

/// What a connection speaks, told by its first byte.
#[derive(Debug, Clone, Copy, PartialEq, Eq, Structural)]
pub enum Protocol {
    Vcp,
    Memcached,
    Resp,
}

} // verus!
