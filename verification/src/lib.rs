//! Data and query core of a peer-to-peer applet registry.
//!
//! Peers publish immutable, content-addressed records describing installed
//! application bundles ("applets"), link them from a deterministic anchor
//! address so the whole network can discover them, and answer "who is playing
//! which applet" from each peer's private append-only history of its own
//! writes.  Network transport, gossip and the host runtime are out of scope:
//! this crate models the store, the link graph and the history themselves and
//! verifies the registration protocol and the discovery queries over them.

pub mod anchor;
pub mod codec;
pub mod graph;
pub mod hash;
pub mod history;
pub mod laws;
pub mod peer;
pub mod record;
pub mod store;
pub mod types;

use vstd::prelude::*;

verus! {

/// A content address: a fixed-width digest identifying a record by its
/// canonical bytes.  Addresses are opaque, comparable and orderable; they are
/// never chosen by a caller, always derived from content (or, for anchors,
/// from a well-known path).
#[derive(Clone, Copy, PartialEq, Eq, Structural, Hash, Debug)]
pub struct Address {
    pub digest: u64,
}

} // verus!
