//! One peer of the registry: its content store, link graph and local
//! history, with the registration protocol and the discovery queries over
//! them.  Cross-peer propagation is out of scope; `observe_record` and
//! `observe_link` stand for the moment a replicated write arrives from
//! another peer.

use vstd::prelude::*;

use crate::Address;
use crate::anchor::{anchor_address, applets_anchor, get_applets_path};
use crate::graph::{
    lemma_links_from_complete, link_matches, links_from, Link, LinkGraph, LinkType, LinkView,
};
use crate::history::{HistoryEntry, HistoryEntryView, LocalHistory};
use crate::record::{Applet, AppletGui, AppletView, Record, RecordView, record_address};
use crate::store::{ContentStore, RegistryError};

verus! {

/// What a registration call carries: the applet metadata to publish and the
/// agent identity that will be playing it.
pub struct RegisterAppletInput {
    pub applet_agent_pub_key: Address,
    pub applet: Applet,
}

/// One row of the local "who is playing what" view.
#[derive(PartialEq, Eq, Debug)]
pub struct PlayingApplet {
    pub applet: Applet,
    pub agent_pub_key: Address,
}

/// One network participant: its own store, graph and history.
pub struct Peer {
    pub store: ContentStore,
    pub graph: LinkGraph,
    pub history: LocalHistory,
}

/// Whether the graph holds at least one anchor-to-applet link from the
/// applet discovery root to `a`.
pub open spec fn anchor_has_link(g: Seq<LinkView>, a: Address) -> bool {
    exists|i: int|
        0 <= i < g.len() && (#[trigger] g[i]).source == applets_anchor() && g[i].link_type
            == LinkType::AnchorToApplet && g[i].target == a
}

/// Whether the applet `ap` is discoverable on peer `p` under address `a`:
/// the anchor links to `a` and `a` resolves locally to that applet record.
pub open spec fn applet_listed(p: Peer, a: Address, ap: AppletView) -> bool {
    anchor_has_link(p.graph@, a) && p.store.spec_get(a) == Option::Some(RecordView::Applet(ap))
}

/// Whether a history entry records creating an applet record under `a`.
pub open spec fn is_applet_create(e: HistoryEntryView, a: Address) -> bool {
    e matches HistoryEntryView::CreatedRecord { address, record } && address == a
        && record is Applet
}

/// The applet carried by an applet-create entry.
pub open spec fn applet_of(e: HistoryEntryView) -> AppletView {
    match e {
        HistoryEntryView::CreatedRecord { record: RecordView::Applet(ap), .. } => ap,
        _ => arbitrary(),
    }
}

/// The applet of the newest applet-create entry under `a`, if any.
pub open spec fn last_applet_create(h: Seq<HistoryEntryView>, a: Address) -> Option<AppletView>
    decreases h.len(),
{
    if h.len() == 0 {
        Option::None
    } else if is_applet_create(h.last(), a) {
        Option::Some(applet_of(h.last()))
    } else {
        last_applet_create(h.drop_last(), a)
    }
}

/// Whether a history entry records creating an agent-to-applet link whose
/// source is `a`.
pub open spec fn is_agent_link(e: HistoryEntryView, a: Address) -> bool {
    e matches HistoryEntryView::CreatedLink { source, link_type, .. } && source == a && link_type
        == LinkType::ExternalAgentToApplet
}

/// The agent identity targeted by a link-create entry.
pub open spec fn agent_of(e: HistoryEntryView) -> Address {
    match e {
        HistoryEntryView::CreatedLink { target, .. } => target,
        _ => arbitrary(),
    }
}

/// The agent of the newest agent-link entry whose source is `a`, if any.
pub open spec fn last_agent_link(h: Seq<HistoryEntryView>, a: Address) -> Option<Address>
    decreases h.len(),
{
    if h.len() == 0 {
        Option::None
    } else if is_agent_link(h.last(), a) {
        Option::Some(agent_of(h.last()))
    } else {
        last_agent_link(h.drop_last(), a)
    }
}

/// The local playing view at address `a`: the newest locally created applet
/// record under `a`, joined with the newest locally created agent link from
/// `a`.  Absent unless both exist — the join is deliberately local-only.
pub open spec fn playing_in(h: Seq<HistoryEntryView>, a: Address) -> Option<(AppletView, Address)> {
    match (last_applet_create(h, a), last_agent_link(h, a)) {
        (Option::Some(ap), Option::Some(ag)) => Option::Some((ap, ag)),
        _ => Option::None,
    }
}

/// The local playing view of peer `p` at address `a`.
pub open spec fn playing_at(p: Peer, a: Address) -> Option<(AppletView, Address)> {
    playing_in(p.history@, a)
}

/// Whether some pair in `s` carries the key `a`.
pub open spec fn has_key<T>(s: Seq<(Address, T)>, a: Address) -> bool {
    exists|i: int| 0 <= i < s.len() && (#[trigger] s[i]).0 == a
}

proof fn lemma_last_applet_create_at(h: Seq<HistoryEntryView>, a: Address, j: int)
    requires
        0 <= j < h.len(),
        is_applet_create(h[j], a),
        forall|k: int| j < k < h.len() ==> !is_applet_create(#[trigger] h[k], a),
    ensures
        last_applet_create(h, a) == Option::Some(applet_of(h[j])),
    decreases h.len(),
{
    if j == h.len() - 1 {
        assert(h.last() == h[j]);
    } else {
        assert(!is_applet_create(h[h.len() - 1], a));
        assert(h.last() == h[h.len() - 1]);
        assert forall|k: int| j < k < h.drop_last().len() implies !is_applet_create(
            #[trigger] h.drop_last()[k],
            a,
        ) by {
            assert(h.drop_last()[k] == h[k]);
        }
        assert(h.drop_last()[j] == h[j]);
        lemma_last_applet_create_at(h.drop_last(), a, j);
    }
}

proof fn lemma_last_applet_create_none(h: Seq<HistoryEntryView>, a: Address)
    requires
        forall|k: int| 0 <= k < h.len() ==> !is_applet_create(#[trigger] h[k], a),
    ensures
        last_applet_create(h, a) is None,
    decreases h.len(),
{
    if h.len() > 0 {
        assert(h.last() == h[h.len() - 1]);
        assert forall|k: int| 0 <= k < h.drop_last().len() implies !is_applet_create(
            #[trigger] h.drop_last()[k],
            a,
        ) by {
            assert(h.drop_last()[k] == h[k]);
        }
        lemma_last_applet_create_none(h.drop_last(), a);
    }
}

proof fn lemma_last_agent_link_at(h: Seq<HistoryEntryView>, a: Address, j: int)
    requires
        0 <= j < h.len(),
        is_agent_link(h[j], a),
        forall|k: int| j < k < h.len() ==> !is_agent_link(#[trigger] h[k], a),
    ensures
        last_agent_link(h, a) == Option::Some(agent_of(h[j])),
    decreases h.len(),
{
    if j == h.len() - 1 {
        assert(h.last() == h[j]);
    } else {
        assert(!is_agent_link(h[h.len() - 1], a));
        assert(h.last() == h[h.len() - 1]);
        assert forall|k: int| j < k < h.drop_last().len() implies !is_agent_link(
            #[trigger] h.drop_last()[k],
            a,
        ) by {
            assert(h.drop_last()[k] == h[k]);
        }
        assert(h.drop_last()[j] == h[j]);
        lemma_last_agent_link_at(h.drop_last(), a, j);
    }
}

proof fn lemma_last_agent_link_none(h: Seq<HistoryEntryView>, a: Address)
    requires
        forall|k: int| 0 <= k < h.len() ==> !is_agent_link(#[trigger] h[k], a),
    ensures
        last_agent_link(h, a) is None,
    decreases h.len(),
{
    if h.len() > 0 {
        assert(h.last() == h[h.len() - 1]);
        assert forall|k: int| 0 <= k < h.drop_last().len() implies !is_agent_link(
            #[trigger] h.drop_last()[k],
            a,
        ) by {
            assert(h.drop_last()[k] == h[k]);
        }
        lemma_last_agent_link_none(h.drop_last(), a);
    }
}

/// Scans a key/value vector for the key `a`.
fn contains_key<T>(v: &Vec<(Address, T)>, a: Address) -> (r: bool)
    ensures
        r == has_key(v@, a),
{
    let mut i: usize = 0;
    while i < v.len()
        invariant
            i <= v@.len(),
            forall|m: int| 0 <= m < i ==> (#[trigger] v@[m]).0 != a,
        decreases v@.len() - i,
    {
        let pair = &v[i];
        if pair.0.digest == a.digest {
            proof {
                assert(v@[i as int].0 == a);
            }
            return true;
        }
        i = i + 1;
    }
    false
}

/// Looks the key `a` up in an address/agent vector.
fn lookup_agent(v: &Vec<(Address, Address)>, a: Address) -> (r: Option<Address>)
    ensures
        match r {
            Option::Some(ag) => exists|i: int| 0 <= i < v@.len() && #[trigger] v@[i] == (a, ag),
            Option::None => !has_key(v@, a),
        },
{
    let mut i: usize = 0;
    while i < v.len()
        invariant
            i <= v@.len(),
            forall|m: int| 0 <= m < i ==> (#[trigger] v@[m]).0 != a,
        decreases v@.len() - i,
    {
        let pair = &v[i];
        if pair.0.digest == a.digest {
            proof {
                assert(v@[i as int] == (a, pair.1));
            }
            return Some(pair.1);
        }
        i = i + 1;
    }
    None
}

impl Peer {
    /// Well-formedness: the store's content-address invariant holds.
    pub open spec fn wf(self) -> bool {
        self.store.wf()
    }

    /// A fresh peer with an empty store, graph and history.
    pub fn new() -> (p: Peer)
        ensures
            p.wf(),
            p.store.entries() == Seq::<(Address, RecordView)>::empty(),
            p.graph@ == Seq::<LinkView>::empty(),
            p.history@ == Seq::<HistoryEntryView>::empty(),
    {
        Peer { store: ContentStore::new(), graph: LinkGraph::new(), history: LocalHistory::new() }
    }

    /// Writes a record: persists it in the content store under its content
    /// address (idempotently) and records the write in local history.
    pub fn put_record(&mut self, record: Record) -> (a: Address)
        requires
            old(self).wf(),
        ensures
            final(self).wf(),
            a == record_address(record@),
            old(self).store.contains_addr(a) ==> final(self).store.entries() == old(self).store.entries(),
            !old(self).store.contains_addr(a) ==> final(self).store.entries() == old(self).store.entries().push((a, record@)) && final(self).store.spec_get(a)
                == Option::Some(record@),
            final(self).graph == old(self).graph,
            final(self).history@ == old(self).history@.push(
                HistoryEntryView::CreatedRecord { address: a, record: record@ },
            ),
    {
        let copy = record.dup();
        let a = self.store.put(copy);
        self.history.record_created(a, record);
        a
    }

    /// Writes a link: appends it to the graph and records the write in local
    /// history.
    pub fn create_link(
        &mut self,
        source: Address,
        target: Address,
        link_type: LinkType,
        tag: Option<Vec<u8>>,
    ) -> (id: usize)
        ensures
            final(self).graph@ == old(self).graph@.push(
                LinkView { source, target, link_type, tag: crate::graph::tag_view(tag) },
            ),
            final(self).history@ == old(self).history@.push(
                HistoryEntryView::CreatedLink { source, target, link_type },
            ),
            final(self).store == old(self).store,
            id == old(self).graph@.len(),
    {
        let id = self.graph.create_link(source, target, link_type, tag);
        self.history.link_created(source, target, link_type);
        id
    }

    /// Commits a GUI bundle privately and returns its content address.
    pub fn commit_gui_file(&mut self, input: AppletGui) -> (a: Address)
        requires
            old(self).wf(),
        ensures
            final(self).wf(),
            a == record_address(RecordView::GuiBlob(input@)),
            old(self).store.contains_addr(a) ==> final(self).store.entries() == old(self).store.entries(),
            !old(self).store.contains_addr(a) ==> final(self).store.entries() == old(self).store.entries().push((a, RecordView::GuiBlob(input@))) && final(self).store.spec_get(a) == Option::Some(RecordView::GuiBlob(input@)),
            final(self).graph == old(self).graph,
            final(self).history@ == old(self).history@.push(
                HistoryEntryView::CreatedRecord { address: a, record: RecordView::GuiBlob(input@) },
            ),
    {
        let AppletGui(bytes) = input;
        self.put_record(Record::GuiBlob(bytes))
    }

    /// Retrieves a committed GUI bundle by address.  `NotFound` when nothing
    /// is stored locally under the address; `TypeMismatch` when the record
    /// there is not a GUI bundle.  Both are surfaced, never swallowed.
    pub fn query_applet_gui(&self, gui_hash: Address) -> (r: Result<AppletGui, RegistryError>)
        ensures
            match r {
                Result::Ok(g) => self.store.spec_get(gui_hash) == Option::Some(
                    RecordView::GuiBlob(g@),
                ),
                Result::Err(RegistryError::NotFound) => self.store.spec_get(gui_hash) is None,
                Result::Err(RegistryError::TypeMismatch) => self.store.spec_get(
                    gui_hash,
                ) matches Option::Some(rv) && rv is Applet,
            },
    {
        self.store.get_gui(gui_hash)
    }

    /// Publishes an applet record and links it to the agent playing it.
    /// Immediately afterwards the local
    /// playing view maps the applet's address to exactly this applet and
    /// agent, with no propagation delay.
    pub fn register_applet(&mut self, input: RegisterAppletInput) -> (a: Address)
        requires
            old(self).wf(),
        ensures
            final(self).wf(),
            a == record_address(RecordView::Applet(input.applet@)),
            old(self).store.contains_addr(a) ==> final(self).store.entries() == old(self).store.entries(),
            !old(self).store.contains_addr(a) ==> final(self).store.entries() == old(self).store.entries().push((a, RecordView::Applet(input.applet@))) && final(self).store.spec_get(a) == Option::Some(RecordView::Applet(input.applet@)),
            final(self).graph@ == old(self).graph@.push(
                LinkView {
                    source: a,
                    target: input.applet_agent_pub_key,
                    link_type: LinkType::ExternalAgentToApplet,
                    tag: Option::None,
                },
            ),
            final(self).history@ == old(self).history@ + seq![
                HistoryEntryView::CreatedRecord {
                    address: a,
                    record: RecordView::Applet(input.applet@),
                },
                HistoryEntryView::CreatedLink {
                    source: a,
                    target: input.applet_agent_pub_key,
                    link_type: LinkType::ExternalAgentToApplet,
                },
            ],
            playing_in(final(self).history@, a) == Option::Some(
                (input.applet@, input.applet_agent_pub_key),
            ),
    {
        let agent = input.applet_agent_pub_key;
        let record = Record::Applet(input.applet);
        let a = self.put_record(record);
        let _ = self.create_link(a, agent, LinkType::ExternalAgentToApplet, None);
        proof {
            let h = self.history@;
            assert(h =~= old(self).history@ + seq![
                HistoryEntryView::CreatedRecord {
                    address: a,
                    record: RecordView::Applet(input.applet@),
                },
                HistoryEntryView::CreatedLink {
                    source: a,
                    target: agent,
                    link_type: LinkType::ExternalAgentToApplet,
                },
            ]);
            assert(is_agent_link(h.last(), a));
            assert(last_agent_link(h, a) == Option::Some(agent));
            assert(!is_applet_create(h.last(), a));
            assert(h.drop_last().last() == HistoryEntryView::CreatedRecord {
                address: a,
                record: RecordView::Applet(input.applet@),
            });
            assert(is_applet_create(h.drop_last().last(), a));
            assert(last_applet_create(h, a) == last_applet_create(h.drop_last(), a));
            assert(last_applet_create(h.drop_last(), a) == Option::Some(input.applet@));
        }
        a
    }

    /// Full registration: publishes the applet record and links it both from
    /// the discovery anchor and from the owning agent.  Afterwards the applet
    /// is globally discoverable on
    /// this peer — provided the address was previously vacant or already held
    /// this very content, which the hash's collision resistance guarantees.
    pub fn create_applet(&mut self, input: RegisterAppletInput) -> (a: Address)
        requires
            old(self).wf(),
        ensures
            final(self).wf(),
            a == record_address(RecordView::Applet(input.applet@)),
            old(self).store.contains_addr(a) ==> final(self).store.entries() == old(self).store.entries(),
            !old(self).store.contains_addr(a) ==> final(self).store.entries() == old(self).store.entries().push((a, RecordView::Applet(input.applet@))),
            final(self).graph@ == old(self).graph@ + seq![
                LinkView {
                    source: a,
                    target: input.applet_agent_pub_key,
                    link_type: LinkType::ExternalAgentToApplet,
                    tag: Option::None,
                },
                LinkView {
                    source: applets_anchor(),
                    target: a,
                    link_type: LinkType::AnchorToApplet,
                    tag: Option::None,
                },
            ],
            final(self).history@ == old(self).history@ + seq![
                HistoryEntryView::CreatedRecord {
                    address: a,
                    record: RecordView::Applet(input.applet@),
                },
                HistoryEntryView::CreatedLink {
                    source: a,
                    target: input.applet_agent_pub_key,
                    link_type: LinkType::ExternalAgentToApplet,
                },
                HistoryEntryView::CreatedLink {
                    source: applets_anchor(),
                    target: a,
                    link_type: LinkType::AnchorToApplet,
                },
            ],
            playing_in(final(self).history@, a) == Option::Some(
                (input.applet@, input.applet_agent_pub_key),
            ),
            old(self).store.spec_get(a) is None || old(self).store.spec_get(a) == Option::Some(
                RecordView::Applet(input.applet@),
            ) ==> applet_listed(*final(self), a, input.applet@),
    {
        let ghost agent = input.applet_agent_pub_key;
        let a = self.register_applet(input);
        let ghost mid_history = self.history@;
        let path = get_applets_path();
        let anchor = anchor_address(path.as_str());
        let _ = self.create_link(anchor, a, LinkType::AnchorToApplet, None);
        proof {
            let h = self.history@;
            assert(h =~= old(self).history@ + seq![
                HistoryEntryView::CreatedRecord {
                    address: a,
                    record: RecordView::Applet(input.applet@),
                },
                HistoryEntryView::CreatedLink {
                    source: a,
                    target: agent,
                    link_type: LinkType::ExternalAgentToApplet,
                },
                HistoryEntryView::CreatedLink {
                    source: applets_anchor(),
                    target: a,
                    link_type: LinkType::AnchorToApplet,
                },
            ]);
            assert(final(self).graph@ =~= old(self).graph@ + seq![
                LinkView {
                    source: a,
                    target: agent,
                    link_type: LinkType::ExternalAgentToApplet,
                    tag: Option::None,
                },
                LinkView {
                    source: applets_anchor(),
                    target: a,
                    link_type: LinkType::AnchorToApplet,
                    tag: Option::None,
                },
            ]);
            // the anchor link neither creates an applet record nor an agent
            // link, so the playing view at `a` is untouched
            assert(h.drop_last() =~= mid_history);
            assert(!is_applet_create(h.last(), a));
            assert(!is_agent_link(h.last(), a));
            assert(last_applet_create(h, a) == last_applet_create(mid_history, a));
            assert(last_agent_link(h, a) == last_agent_link(mid_history, a));
            // the new anchor link makes `a` discoverable
            let g = self.graph@;
            assert(g[g.len() - 1] == LinkView {
                source: applets_anchor(),
                target: a,
                link_type: LinkType::AnchorToApplet,
                tag: Option::None,
            });
            assert(anchor_has_link(g, a));
        }
        a
    }

    /// Stores a record replicated from another peer, without touching local
    /// history: history reflects only this peer's own writes.
    pub fn observe_record(&mut self, record: Record) -> (a: Address)
        requires
            old(self).wf(),
        ensures
            final(self).wf(),
            a == record_address(record@),
            old(self).store.contains_addr(a) ==> final(self).store.entries() == old(self).store.entries(),
            !old(self).store.contains_addr(a) ==> final(self).store.entries() == old(self).store.entries().push((a, record@)) && final(self).store.spec_get(a)
                == Option::Some(record@),
            final(self).graph == old(self).graph,
            final(self).history == old(self).history,
    {
        self.store.put(record)
    }

    /// Appends a link replicated from another peer, without touching local
    /// history.
    pub fn observe_link(&mut self, link: Link)
        ensures
            final(self).graph@ == old(self).graph@.push(link@),
            final(self).store == old(self).store,
            final(self).history == old(self).history,
    {
        let Link { source, target, link_type, tag } = link;
        let _ = self.graph.create_link(source, target, link_type, tag);
    }

    /// The global discovery view: walks the anchor's links, fetches each
    /// target best-effort, and keeps what decodes as an applet.  Never an
    /// error: targets that are missing locally or are not applet records are
    /// silently omitted; duplicate anchor links do not drop or double-list an
    /// applet.  The result maps each listed address to its applet, each
    /// address at most once.
    pub fn get_all_applets(&self) -> (r: Vec<(Address, Applet)>)
        ensures
            forall|i: int, j: int|
                0 <= i < j < r@.len() ==> (#[trigger] r@[i]).0 != (#[trigger] r@[j]).0,
            forall|i: int| 0 <= i < r@.len() ==> applet_listed(*self, (#[trigger] r@[i]).0, r@[i].1@),
            forall|a: Address, ap: AppletView|
                #[trigger] applet_listed(*self, a, ap) ==> exists|i: int|
                    0 <= i < r@.len() && (#[trigger] r@[i]).0 == a && r@[i].1@ == ap,
    {
        let path = get_applets_path();
        let anchor = anchor_address(path.as_str());
        let links = self.graph.get_links(anchor, Some(LinkType::AnchorToApplet));
        let ghost filtered = links_from(self.graph@, applets_anchor(), Option::Some(LinkType::AnchorToApplet));
        proof {
            assert(Seq::new(links@.len(), |i: int| links@[i]@) == filtered);
        }

        let mut targets: Vec<Address> = Vec::new();
        let mut t: usize = 0;
        while t < links.len()
            invariant
                t <= links@.len(),
                links@.len() == filtered.len(),
                forall|i: int| 0 <= i < links@.len() ==> (#[trigger] links@[i])@ == filtered[i],
                targets@.len() == t,
                forall|m: int| 0 <= m < t ==> #[trigger] targets@[m] == filtered[m].target,
            decreases links@.len() - t,
        {
            let l = &links[t];
            targets.push(l.target);
            t = t + 1;
        }

        let fetched = self.store.batch_get(&targets);

        let mut r: Vec<(Address, Applet)> = Vec::new();
        let mut i: usize = 0;
        while i < fetched.len()
            invariant
                i <= fetched@.len(),
                fetched@.len() == targets@.len(),
                targets@.len() == filtered.len(),
                filtered == links_from(
                    self.graph@,
                    applets_anchor(),
                    Option::Some(LinkType::AnchorToApplet),
                ),
                forall|m: int| 0 <= m < targets@.len() ==> #[trigger] targets@[m]
                    == filtered[m].target,
                forall|m: int|
                    0 <= m < fetched@.len() ==> match #[trigger] fetched@[m] {
                        Option::Some(rec) => self.store.spec_get(targets@[m]) == Option::Some(
                            rec@,
                        ),
                        Option::None => self.store.spec_get(targets@[m]) is None,
                    },
                forall|x: int, y: int|
                    0 <= x < y < r@.len() ==> (#[trigger] r@[x]).0 != (#[trigger] r@[y]).0,
                forall|x: int|
                    0 <= x < r@.len() ==> applet_listed(*self, (#[trigger] r@[x]).0, r@[x].1@),
                forall|m: int|
                    0 <= m < i && (self.store.spec_get(#[trigger] targets@[m]) matches Option::Some(
                        rv,
                    ) && rv is Applet) ==> has_key(r@, targets@[m]),
            decreases fetched@.len() - i,
        {
            let ghost pre = r@;
            match &fetched[i] {
                Some(Record::Applet(ap)) => {
                    let tgt = targets[i];
                    if !contains_key(&r, tgt) {
                        proof {
                            // the anchor links to this target, and it
                            // resolves to this applet record
                            assert(filtered[i as int].target == tgt);
                            assert(filtered.contains(filtered[i as int]));
                            lemma_links_from_complete(
                                self.graph@,
                                applets_anchor(),
                                Option::Some(LinkType::AnchorToApplet),
                                filtered[i as int],
                            );
                            assert(self.graph@.contains(filtered[i as int]));
                            let x = choose|x: int|
                                0 <= x < self.graph@.len() && self.graph@[x] == filtered[i as int];
                            assert((#[trigger] self.graph@[x]).source == applets_anchor()
                                && self.graph@[x].link_type == LinkType::AnchorToApplet
                                && self.graph@[x].target == tgt);
                            assert(anchor_has_link(self.graph@, tgt));
                        }
                        r.push((tgt, ap.dup()));
                        proof {
                            assert(r@[pre.len() as int].0 == tgt);
                            assert(has_key(r@, tgt));
                        }
                    }
                },
                _ => {},
            }
            proof {
                assert forall|m: int|
                    0 <= m < i + 1 && (self.store.spec_get(
                        #[trigger] targets@[m],
                    ) matches Option::Some(rv) && rv is Applet) implies has_key(
                    r@,
                    targets@[m],
                ) by {
                    if m < i && has_key(pre, targets@[m]) {
                        let w = choose|w: int|
                            0 <= w < pre.len() && (#[trigger] pre[w]).0 == targets@[m];
                        assert(r@[w] == pre[w]);
                    }
                }
            }
            i = i + 1;
        }
        proof {
            assert forall|a: Address, ap: AppletView| #[trigger] applet_listed(*self, a, ap)
                implies exists|x: int|
                0 <= x < r@.len() && (#[trigger] r@[x]).0 == a && r@[x].1@ == ap by {
                let gi = choose|gi: int|
                    0 <= gi < self.graph@.len() && (#[trigger] self.graph@[gi]).source
                        == applets_anchor() && self.graph@[gi].link_type == LinkType::AnchorToApplet
                        && self.graph@[gi].target == a;
                let l = self.graph@[gi];
                assert(self.graph@.contains(l));
                assert(link_matches(l, applets_anchor(), Option::Some(LinkType::AnchorToApplet)));
                lemma_links_from_complete(
                    self.graph@,
                    applets_anchor(),
                    Option::Some(LinkType::AnchorToApplet),
                    l,
                );
                assert(filtered.contains(l));
                let m = choose|m: int| 0 <= m < filtered.len() && filtered[m] == l;
                assert(targets@[m] == a);
                assert(self.store.spec_get(a) == Option::Some(RecordView::Applet(ap)));
                assert(has_key(r@, a));
                let x = choose|x: int| 0 <= x < r@.len() && (#[trigger] r@[x]).0 == a;
                assert(applet_listed(*self, a, r@[x].1@));
                assert(RecordView::Applet(r@[x].1@) == RecordView::Applet(ap));
                assert(r@[x].1@ == ap);
            }
        }
        r
    }

    /// The local playing view: joins this peer's own applet-record creates
    /// with its own agent-to-applet link creates by shared applet address.
    /// Exact with no propagation delay, and deliberately blind to records
    /// authored elsewhere.  The result carries each address at most once,
    /// mapped to the newest locally created applet and agent for it.
    pub fn get_applets_i_am_playing(&self) -> (r: Vec<(Address, PlayingApplet)>)
        ensures
            forall|i: int, j: int|
                0 <= i < j < r@.len() ==> (#[trigger] r@[i]).0 != (#[trigger] r@[j]).0,
            forall|i: int|
                0 <= i < r@.len() ==> playing_at(*self, (#[trigger] r@[i]).0) == Option::Some(
                    (r@[i].1.applet@, r@[i].1.agent_pub_key),
                ),
            forall|a: Address|
                #[trigger] playing_at(*self, a) is Some ==> exists|i: int|
                    0 <= i < r@.len() && (#[trigger] r@[i]).0 == a,
    {
        let ghost h = self.history@;
        let n = self.history.len();

        let mut applets: Vec<(Address, Applet)> = Vec::new();
        let mut j: usize = n;
        while j > 0
            invariant
                j <= n,
                n == h.len(),
                h == self.history@,
                forall|x: int, y: int|
                    0 <= x < y < applets@.len() ==> (#[trigger] applets@[x]).0 != (
                    #[trigger] applets@[y]).0,
                forall|m: int|
                    0 <= m < applets@.len() ==> last_applet_create(
                        h,
                        (#[trigger] applets@[m]).0,
                    ) == Option::Some(applets@[m].1@),
                forall|k: int, a: Address|
                    j <= k < h.len() && #[trigger] is_applet_create(h[k], a) ==> has_key(
                        applets@,
                        a,
                    ),
            decreases j,
        {
            j = j - 1;
            let e = self.history.at(j);
            let ghost pre = applets@;
            match e {
                HistoryEntry::CreatedRecord { address, record: Record::Applet(ap) } => {
                    let addr = *address;
                    if !contains_key(&applets, addr) {
                        proof {
                            assert(e@ == h[j as int]);
                            assert(is_applet_create(h[j as int], addr));
                            assert(applet_of(h[j as int]) == ap@);
                            assert forall|k: int| j < k < h.len() implies !is_applet_create(
                                #[trigger] h[k],
                                addr,
                            ) by {
                                if is_applet_create(h[k], addr) {
                                    assert(has_key(pre, addr));
                                }
                            }
                            lemma_last_applet_create_at(h, addr, j as int);
                        }
                        applets.push((addr, ap.dup()));
                        proof {
                            assert(applets@[pre.len() as int].0 == addr);
                            assert(has_key(applets@, addr));
                        }
                    }
                    proof {
                        assert forall|k: int, a: Address|
                            j <= k < h.len() && #[trigger] is_applet_create(h[k], a) implies
                            has_key(applets@, a) by {
                            if k == j as int {
                                assert(a == addr);
                                if has_key(pre, addr) {
                                    let w = choose|w: int|
                                        0 <= w < pre.len() && (#[trigger] pre[w]).0 == addr;
                                    assert(applets@[w] == pre[w]);
                                }
                            } else {
                                assert(has_key(pre, a));
                                let w = choose|w: int|
                                    0 <= w < pre.len() && (#[trigger] pre[w]).0 == a;
                                assert(applets@[w] == pre[w]);
                            }
                        }
                    }
                },
                _ => {
                    proof {
                        assert(e@ == h[j as int]);
                        assert(forall|a: Address| !is_applet_create(h[j as int], a));
                    }
                },
            }
        }

        let mut agents: Vec<(Address, Address)> = Vec::new();
        let mut j2: usize = n;
        while j2 > 0
            invariant
                j2 <= n,
                n == h.len(),
                h == self.history@,
                forall|x: int, y: int|
                    0 <= x < y < agents@.len() ==> (#[trigger] agents@[x]).0 != (
                    #[trigger] agents@[y]).0,
                forall|m: int|
                    0 <= m < agents@.len() ==> last_agent_link(h, (#[trigger] agents@[m]).0)
                        == Option::Some(agents@[m].1),
                forall|k: int, a: Address|
                    j2 <= k < h.len() && #[trigger] is_agent_link(h[k], a) ==> has_key(agents@, a),
            decreases j2,
        {
            j2 = j2 - 1;
            let e = self.history.at(j2);
            let ghost pre = agents@;
            match e {
                HistoryEntry::CreatedLink {
                    source,
                    target,
                    link_type: LinkType::ExternalAgentToApplet,
                } => {
                    let src = *source;
                    if !contains_key(&agents, src) {
                        proof {
                            assert(e@ == h[j2 as int]);
                            assert(is_agent_link(h[j2 as int], src));
                            assert(agent_of(h[j2 as int]) == *target);
                            assert forall|k: int| j2 < k < h.len() implies !is_agent_link(
                                #[trigger] h[k],
                                src,
                            ) by {
                                if is_agent_link(h[k], src) {
                                    assert(has_key(pre, src));
                                }
                            }
                            lemma_last_agent_link_at(h, src, j2 as int);
                        }
                        agents.push((src, *target));
                        proof {
                            assert(agents@[pre.len() as int].0 == src);
                            assert(has_key(agents@, src));
                        }
                    }
                    proof {
                        assert forall|k: int, a: Address|
                            j2 <= k < h.len() && #[trigger] is_agent_link(h[k], a) implies has_key(
                            agents@,
                            a,
                        ) by {
                            if k == j2 as int {
                                assert(a == src);
                                if has_key(pre, src) {
                                    let w = choose|w: int|
                                        0 <= w < pre.len() && (#[trigger] pre[w]).0 == src;
                                    assert(agents@[w] == pre[w]);
                                }
                            } else {
                                assert(has_key(pre, a));
                                let w = choose|w: int|
                                    0 <= w < pre.len() && (#[trigger] pre[w]).0 == a;
                                assert(agents@[w] == pre[w]);
                            }
                        }
                    }
                },
                _ => {
                    proof {
                        assert(e@ == h[j2 as int]);
                        assert(forall|a: Address| !is_agent_link(h[j2 as int], a));
                    }
                },
            }
        }

        let mut r: Vec<(Address, PlayingApplet)> = Vec::new();
        let mut i: usize = 0;
        while i < applets.len()
            invariant
                i <= applets@.len(),
                h == self.history@,
                forall|x: int, y: int|
                    0 <= x < y < applets@.len() ==> (#[trigger] applets@[x]).0 != (
                    #[trigger] applets@[y]).0,
                forall|m: int|
                    0 <= m < applets@.len() ==> last_applet_create(
                        h,
                        (#[trigger] applets@[m]).0,
                    ) == Option::Some(applets@[m].1@),
                forall|m: int|
                    0 <= m < agents@.len() ==> last_agent_link(h, (#[trigger] agents@[m]).0)
                        == Option::Some(agents@[m].1),
                forall|k: int, a: Address|
                    0 <= k < h.len() && #[trigger] is_applet_create(h[k], a) ==> has_key(
                        applets@,
                        a,
                    ),
                forall|k: int, a: Address|
                    0 <= k < h.len() && #[trigger] is_agent_link(h[k], a) ==> has_key(agents@, a),
                forall|x: int, y: int|
                    0 <= x < y < r@.len() ==> (#[trigger] r@[x]).0 != (#[trigger] r@[y]).0,
                forall|m: int|
                    0 <= m < r@.len() ==> playing_in(h, (#[trigger] r@[m]).0) == Option::Some(
                        (r@[m].1.applet@, r@[m].1.agent_pub_key),
                    ),
                forall|m: int|
                    0 <= m < i && last_agent_link(h, (#[trigger] applets@[m]).0) is Some
                        ==> has_key(r@, applets@[m].0),
                forall|m: int|
                    0 <= m < r@.len() ==> exists|x: int|
                        0 <= x < i && (#[trigger] applets@[x]).0 == (#[trigger] r@[m]).0,
            decreases applets@.len() - i,
        {
            let a = applets[i].0;
            let ghost pre = r@;
            match lookup_agent(&agents, a) {
                Some(ag) => {
                    proof {
                        // `a` is not yet a key of `r`: its keys come from
                        // earlier applet entries, whose keys differ from `a`
                        assert forall|m: int| 0 <= m < pre.len() implies (#[trigger] pre[m]).0 != a
                            by {
                            let x = choose|x: int|
                                0 <= x < i && (#[trigger] applets@[x]).0 == pre[m].0;
                            assert(applets@[x].0 != applets@[i as int].0);
                        }
                        let gi = choose|gi: int|
                            0 <= gi < agents@.len() && #[trigger] agents@[gi] == (a, ag);
                        assert(last_agent_link(h, a) == Option::Some(ag));
                        assert(last_applet_create(h, a) == Option::Some(applets@[i as int].1@));
                    }
                    let ap = &applets[i].1;
                    r.push((a, PlayingApplet { applet: ap.dup(), agent_pub_key: ag }));
                    proof {
                        assert(r@[pre.len() as int].0 == a);
                        assert(r@[pre.len() as int].1.applet@ == applets@[i as int].1@);
                        assert(has_key(r@, a));
                        assert forall|m: int|
                            0 <= m < i + 1 && last_agent_link(
                                h,
                                (#[trigger] applets@[m]).0,
                            ) is Some implies has_key(r@, applets@[m].0) by {
                            if m < i {
                                let w = choose|w: int|
                                    0 <= w < pre.len() && (#[trigger] pre[w]).0 == applets@[m].0;
                                assert(r@[w] == pre[w]);
                            }
                        }
                        assert forall|m: int| 0 <= m < r@.len() implies exists|x: int|
                            0 <= x < i + 1 && (#[trigger] applets@[x]).0 == (#[trigger] r@[m]).0
                            by {
                            if m < pre.len() {
                                assert(r@[m] == pre[m]);
                                let x = choose|x: int|
                                    0 <= x < i && (#[trigger] applets@[x]).0 == pre[m].0;
                                assert(0 <= x < i + 1 && applets@[x].0 == r@[m].0);
                            } else {
                                assert(applets@[i as int].0 == r@[m].0);
                            }
                        }
                    }
                },
                None => {
                    proof {
                        assert(!has_key(agents@, a));
                        assert forall|k: int| 0 <= k < h.len() implies !is_agent_link(
                            #[trigger] h[k],
                            a,
                        ) by {
                            if is_agent_link(h[k], a) {
                                assert(has_key(agents@, a));
                            }
                        }
                        lemma_last_agent_link_none(h, a);
                    }
                },
            }
            i = i + 1;
        }
        proof {
            assert forall|a: Address| #[trigger] playing_at(*self, a) is Some implies exists|i: int|
                0 <= i < r@.len() && (#[trigger] r@[i]).0 == a by {
                assert(last_applet_create(h, a) is Some);
                assert(last_agent_link(h, a) is Some);
                if !has_key(applets@, a) {
                    assert forall|k: int| 0 <= k < h.len() implies !is_applet_create(
                        #[trigger] h[k],
                        a,
                    ) by {
                        if is_applet_create(h[k], a) {
                            assert(has_key(applets@, a));
                        }
                    }
                    lemma_last_applet_create_none(h, a);
                }
                let m = choose|m: int| 0 <= m < applets@.len() && (#[trigger] applets@[m]).0 == a;
                assert(has_key(r@, a));
                let x = choose|x: int| 0 <= x < r@.len() && (#[trigger] r@[x]).0 == a;
            }
        }
        r
    }
}

} // verus!
