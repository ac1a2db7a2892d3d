//! Anchors: deterministic, well-known addresses computed from human-readable
//! path segments, independent of any content.  An anchor owns no data; it
//! serves purely as a stable link source for discovery, so no coordination is
//! needed to "create" it — every peer computes the same address.

use vstd::prelude::*;

use crate::Address;
use crate::codec::{chars8, push_str};
use crate::hash::{digest_of, fnv1a};

verus! {

/// The canonical bytes of an anchor path.  The leading tag byte keeps anchor
/// addresses in a domain distinct from record addresses, whose canonical
/// bytes start with a record variant tag.
pub open spec fn anchor_bytes(path: Seq<char>) -> Seq<u8> {
    seq![0u8] + chars8(path)
}

/// The anchor address of a path segment: a pure, deterministic function, so
/// the same segment always yields the same address on every peer.
pub open spec fn anchor_address_of(path: Seq<char>) -> Address {
    Address { digest: fnv1a(anchor_bytes(path)) }
}

/// The discovery root for applets: the anchor of the literal path
/// `"applets"`.
pub open spec fn applets_anchor() -> Address {
    anchor_address_of("applets"@)
}

/// Computes the anchor address of a path segment.
pub fn anchor_address(path: &str) -> (a: Address)
    ensures
        a == anchor_address_of(path@),
{
    let mut bytes: Vec<u8> = Vec::new();
    bytes.push(0u8);
    proof {
        assert(bytes@ =~= seq![0u8]);
    }
    push_str(&mut bytes, path);
    proof {
        assert(bytes@ =~= anchor_bytes(path@));
    }
    Address { digest: digest_of(&bytes) }
}

/// The path segment under which applets are anchored.
pub fn get_applets_path() -> (s: String)
    ensures
        s@ == "applets"@,
{
    "applets".to_owned()
}

} // verus!
