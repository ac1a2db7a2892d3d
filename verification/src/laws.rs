//! Registry-wide laws: properties that relate several operations, stated
//! over the same spec functions the operations' own contracts use.

use vstd::prelude::*;

use crate::Address;
use crate::anchor::applets_anchor;
use crate::graph::{LinkType, LinkView};
use crate::peer::{anchor_has_link, applet_listed, Peer};
use crate::record::{record_address, AppletView, RecordView};

verus! {

/// Determinism: a record's content address is a pure function of its
/// content.  Two peers that independently submit content-identical records
/// obtain the identical address, since `put` on each returns
/// `record_address` of the record submitted there.
pub proof fn lemma_address_deterministic(r1: RecordView, r2: RecordView)
    requires
        r1 == r2,
    ensures
        record_address(r1) == record_address(r2),
{
}

/// Idempotent linking: appending an anchor-to-applet link that already
/// exists in the graph changes nothing about which addresses the anchor
/// reaches.  Together with `get_all_applets`' contract — each listed address
/// appears exactly once, and an address is listed exactly when the anchor
/// links to it and it resolves to an applet — a duplicate link neither drops
/// nor double-lists an applet.
pub proof fn lemma_idempotent_linking(g: Seq<LinkView>, dup: LinkView)
    requires
        g.contains(dup),
    ensures
        forall|a: Address| anchor_has_link(g.push(dup), a) == anchor_has_link(g, a),
{
    assert forall|a: Address| anchor_has_link(g.push(dup), a) == anchor_has_link(g, a) by {
        if anchor_has_link(g, a) {
            let i = choose|i: int|
                0 <= i < g.len() && (#[trigger] g[i]).source == applets_anchor() && g[i].link_type
                    == LinkType::AnchorToApplet && g[i].target == a;
            assert(g.push(dup)[i] == g[i]);
            assert(anchor_has_link(g.push(dup), a));
        }
        if anchor_has_link(g.push(dup), a) {
            let i = choose|i: int|
                0 <= i < g.push(dup).len() && (#[trigger] g.push(dup)[i]).source
                    == applets_anchor() && g.push(dup)[i].link_type == LinkType::AnchorToApplet
                    && g.push(dup)[i].target == a;
            if i < g.len() {
                assert(g[i] == g.push(dup)[i]);
            } else {
                assert(g.push(dup)[i] == dup);
                let w = choose|w: int| 0 <= w < g.len() && g[w] == dup;
                assert((#[trigger] g[w]).source == applets_anchor() && g[w].link_type
                    == LinkType::AnchorToApplet && g[w].target == a);
            }
            assert(anchor_has_link(g, a));
        }
    }
}

/// Partial-failure tolerance: an address that does not resolve in the local
/// store is never listed, no matter what links point at it — the discovery
/// view simply omits it (and `get_all_applets` returns a plain vector, so it
/// cannot fail).
pub proof fn lemma_unresolvable_target_omitted(p: Peer, b: Address)
    requires
        p.store.spec_get(b) is None,
    ensures
        forall|ap| !applet_listed(p, b, ap),
{
}

/// A listed address determines its applet: the store resolves each address
/// to at most one record, so discovery maps every address to one metadata
/// value, field for field.
pub proof fn lemma_listed_unique(p: Peer, a: Address, ap1: AppletView, ap2: AppletView)
    requires
        applet_listed(p, a, ap1),
        applet_listed(p, a, ap2),
    ensures
        ap1 == ap2,
{
}

} // verus!
