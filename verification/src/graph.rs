//! Link graph: directed, typed, append-only edges between addresses.  A link
//! never requires its target to resolve to a stored record — agents, anchors
//! and not-yet-published records are all valid targets — and no uniqueness is
//! enforced, so queries must tolerate duplicate edges.

use vstd::prelude::*;

use crate::Address;
use crate::record::dup_bytes;

verus! {

/// The closed set of link relations; each tag partitions the graph into an
/// independently queryable relation.
#[derive(Clone, Copy, PartialEq, Eq, Structural, Debug)]
pub enum LinkType {
    /// From the well-known applet anchor to a published applet record.
    AnchorToApplet,
    /// From an applet record to the agent identity playing it.
    ExternalAgentToApplet,
}

/// A directed, typed edge between two addresses, with optional opaque tag
/// bytes.  Immutable once created.
pub struct Link {
    pub source: Address,
    pub target: Address,
    pub link_type: LinkType,
    pub tag: Option<Vec<u8>>,
}

/// The mathematical value of a [`Link`].
pub struct LinkView {
    pub source: Address,
    pub target: Address,
    pub link_type: LinkType,
    pub tag: Option<Seq<u8>>,
}

/// The mathematical value of an optional tag payload.
pub open spec fn tag_view(t: Option<Vec<u8>>) -> Option<Seq<u8>> {
    match t {
        Option::None => Option::None,
        Option::Some(b) => Option::Some(b@),
    }
}

impl View for Link {
    type V = LinkView;

    open spec fn view(&self) -> LinkView {
        LinkView {
            source: self.source,
            target: self.target,
            link_type: self.link_type,
            tag: tag_view(self.tag),
        }
    }
}

impl Link {
    /// Copies a link, preserving its mathematical value.
    pub fn dup(&self) -> (r: Link)
        ensures
            r@ == self@,
    {
        Link {
            source: self.source,
            target: self.target,
            link_type: self.link_type,
            tag: match &self.tag {
                None => None,
                Some(b) => Some(dup_bytes(b)),
            },
        }
    }
}

/// Whether a link leaves `source` and passes an optional type filter.
pub open spec fn link_matches(l: LinkView, source: Address, filter: Option<LinkType>) -> bool {
    l.source == source && match filter {
        Option::None => true,
        Option::Some(t) => l.link_type == t,
    }
}

/// The links leaving `source` that pass `filter`, in insertion order.
pub open spec fn links_from(
    g: Seq<LinkView>,
    source: Address,
    filter: Option<LinkType>,
) -> Seq<LinkView>
    decreases g.len(),
{
    if g.len() == 0 {
        Seq::empty()
    } else if link_matches(g.last(), source, filter) {
        links_from(g.drop_last(), source, filter).push(g.last())
    } else {
        links_from(g.drop_last(), source, filter)
    }
}

/// A link occurs in the filtered view exactly when it occurs in the graph
/// and matches.
pub proof fn lemma_links_from_complete(
    g: Seq<LinkView>,
    source: Address,
    filter: Option<LinkType>,
    l: LinkView,
)
    ensures
        links_from(g, source, filter).contains(l) <==> g.contains(l) && link_matches(
            l,
            source,
            filter,
        ),
    decreases g.len(),
{
    if g.len() > 0 {
        let tail = g.drop_last();
        lemma_links_from_complete(tail, source, filter, l);
        let fl = links_from(g, source, filter);
        let ftail = links_from(tail, source, filter);
        if tail.contains(l) {
            let j = choose|j: int| 0 <= j < tail.len() && tail[j] == l;
            assert(g[j] == l);
            assert(g.contains(l));
        }
        if link_matches(g.last(), source, filter) {
            assert(fl == ftail.push(g.last()));
            if fl.contains(l) {
                let i = choose|i: int| 0 <= i < fl.len() && fl[i] == l;
                if i < ftail.len() {
                    assert(ftail[i] == l);
                    assert(ftail.contains(l));
                } else {
                    assert(l == g.last());
                    assert(g[g.len() - 1] == l);
                    assert(g.contains(l));
                }
            }
            if g.contains(l) && link_matches(l, source, filter) {
                let j = choose|j: int| 0 <= j < g.len() && g[j] == l;
                if j < g.len() - 1 {
                    assert(tail[j] == l);
                    assert(tail.contains(l));
                    let k = choose|k: int| 0 <= k < ftail.len() && ftail[k] == l;
                    assert(fl[k] == l);
                    assert(fl.contains(l));
                } else {
                    assert(l == g.last());
                    assert(fl[ftail.len() as int] == l);
                    assert(fl.contains(l));
                }
            }
        } else {
            assert(fl == ftail);
            if g.contains(l) && link_matches(l, source, filter) {
                let j = choose|j: int| 0 <= j < g.len() && g[j] == l;
                assert(j < g.len() - 1);
                assert(tail[j] == l);
                assert(tail.contains(l));
            }
        }
    }
}

/// One peer's append-only link graph.
pub struct LinkGraph {
    links: Vec<Link>,
}

impl View for LinkGraph {
    type V = Seq<LinkView>;

    closed spec fn view(&self) -> Seq<LinkView> {
        Seq::new(self.links@.len(), |i: int| self.links@[i]@)
    }
}

impl LinkGraph {
    /// An empty graph.
    pub fn new() -> (g: LinkGraph)
        ensures
            g@ == Seq::<LinkView>::empty(),
    {
        let g = LinkGraph { links: Vec::new() };
        proof {
            assert(g@ =~= Seq::<LinkView>::empty());
        }
        g
    }

    /// Appends a typed edge and returns its identifier (its position).
    /// Always succeeds: the target need not resolve to any stored record.
    pub fn create_link(
        &mut self,
        source: Address,
        target: Address,
        link_type: LinkType,
        tag: Option<Vec<u8>>,
    ) -> (id: usize)
        ensures
            final(self)@ == old(self)@.push(
                LinkView { source, target, link_type, tag: tag_view(tag) },
            ),
            id == old(self)@.len(),
    {
        let id = self.links.len();
        self.links.push(Link { source, target, link_type, tag });
        proof {
            assert(self@ =~= old(self)@.push(
                LinkView { source, target, link_type, tag: tag_view(tag) },
            ));
        }
        id
    }

    /// Returns every link whose source is `source`, optionally restricted to
    /// one link type, in insertion order (stable for a given snapshot).
    pub fn get_links(&self, source: Address, filter: Option<LinkType>) -> (r: Vec<Link>)
        ensures
            Seq::new(r@.len(), |i: int| r@[i]@) == links_from(self@, source, filter),
    {
        let mut r: Vec<Link> = Vec::new();
        let mut i: usize = 0;
        while i < self.links.len()
            invariant
                i <= self.links@.len(),
                self@.len() == self.links@.len(),
                Seq::new(r@.len(), |k: int| r@[k]@) == links_from(
                    self@.take(i as int),
                    source,
                    filter,
                ),
            decreases self.links@.len() - i,
        {
            let l = &self.links[i];
            let matches_source = l.source.digest == source.digest;
            let matches_type = match filter {
                None => true,
                Some(t) => {
                    let lt = l.link_type;
                    match (lt, t) {
                        (LinkType::AnchorToApplet, LinkType::AnchorToApplet) => true,
                        (LinkType::ExternalAgentToApplet, LinkType::ExternalAgentToApplet) => true,
                        _ => false,
                    }
                },
            };
            proof {
                assert(self@.take(i + 1 as int).drop_last() =~= self@.take(i as int));
                assert(self@.take(i + 1 as int).last() == self@[i as int]);
                assert(self@[i as int] == self.links@[i as int]@);
            }
            if matches_source && matches_type {
                r.push(l.dup());
                proof {
                    assert(link_matches(self@[i as int], source, filter));
                    assert(Seq::new(r@.len(), |k: int| r@[k]@) =~= links_from(
                        self@.take(i + 1 as int),
                        source,
                        filter,
                    ));
                }
            } else {
                proof {
                    assert(!link_matches(self@[i as int], source, filter));
                    assert(Seq::new(r@.len(), |k: int| r@[k]@) =~= links_from(
                        self@.take(i + 1 as int),
                        source,
                        filter,
                    ));
                }
            }
            i = i + 1;
        }
        proof {
            assert(self@.take(self.links@.len() as int) =~= self@);
        }
        r
    }
}

} // verus!
