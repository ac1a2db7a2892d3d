//! Local history: one peer's private, append-only, totally ordered log of its
//! own write operations.  It reflects exactly and only this peer's writes,
//! with no propagation delay, so read-your-own-writes queries over it are
//! exact.

use vstd::prelude::*;

use crate::Address;
use crate::graph::LinkType;
use crate::record::{kind_of, Record, RecordKind, RecordView};

verus! {

/// The two kinds of write operation a peer records.
#[derive(Clone, Copy, PartialEq, Eq, Structural, Debug)]
pub enum OpKind {
    CreateRecord,
    CreateLink,
}

/// One write operation performed locally by this peer, in creation order.
pub enum HistoryEntry {
    CreatedRecord { address: Address, record: Record },
    CreatedLink { source: Address, target: Address, link_type: LinkType },
}

/// The mathematical value of a [`HistoryEntry`].
pub enum HistoryEntryView {
    CreatedRecord { address: Address, record: RecordView },
    CreatedLink { source: Address, target: Address, link_type: LinkType },
}

impl View for HistoryEntry {
    type V = HistoryEntryView;

    open spec fn view(&self) -> HistoryEntryView {
        match self {
            HistoryEntry::CreatedRecord { address, record } => HistoryEntryView::CreatedRecord {
                address: *address,
                record: record@,
            },
            HistoryEntry::CreatedLink { source, target, link_type } => {
                HistoryEntryView::CreatedLink {
                    source: *source,
                    target: *target,
                    link_type: *link_type,
                }
            },
        }
    }
}

/// The operation kind of a history entry.
pub open spec fn op_of(e: HistoryEntryView) -> OpKind {
    match e {
        HistoryEntryView::CreatedRecord { .. } => OpKind::CreateRecord,
        HistoryEntryView::CreatedLink { .. } => OpKind::CreateLink,
    }
}

/// Whether an entry passes an optional operation filter and an optional
/// record-kind filter.  A record-kind filter admits only record creates of
/// that kind; link creates carry no record and never pass it.
pub open spec fn entry_matches(
    e: HistoryEntryView,
    op: Option<OpKind>,
    kind: Option<RecordKind>,
) -> bool {
    &&& match op {
        Option::None => true,
        Option::Some(o) => op_of(e) == o,
    }
    &&& match kind {
        Option::None => true,
        Option::Some(k) => e matches HistoryEntryView::CreatedRecord { record, .. } && kind_of(
            record,
        ) == k,
    }
}

/// The entries passing both filters, oldest first.
pub open spec fn history_filter(
    h: Seq<HistoryEntryView>,
    op: Option<OpKind>,
    kind: Option<RecordKind>,
) -> Seq<HistoryEntryView>
    decreases h.len(),
{
    if h.len() == 0 {
        Seq::empty()
    } else if entry_matches(h.last(), op, kind) {
        history_filter(h.drop_last(), op, kind).push(h.last())
    } else {
        history_filter(h.drop_last(), op, kind)
    }
}

/// One peer's append-only operation log.
pub struct LocalHistory {
    entries: Vec<HistoryEntry>,
}

impl View for LocalHistory {
    type V = Seq<HistoryEntryView>;

    closed spec fn view(&self) -> Seq<HistoryEntryView> {
        Seq::new(self.entries@.len(), |i: int| self.entries@[i]@)
    }
}

impl LocalHistory {
    /// An empty history.
    pub fn new() -> (h: LocalHistory)
        ensures
            h@ == Seq::<HistoryEntryView>::empty(),
    {
        let h = LocalHistory { entries: Vec::new() };
        proof {
            assert(h@ =~= Seq::<HistoryEntryView>::empty());
        }
        h
    }

    /// The number of recorded operations.
    pub fn len(&self) -> (n: usize)
        ensures
            n == self@.len(),
    {
        self.entries.len()
    }

    /// The `i`-th recorded operation, oldest first.
    pub fn at(&self, i: usize) -> (e: &HistoryEntry)
        requires
            i < self@.len(),
        ensures
            e@ == self@[i as int],
    {
        &self.entries[i]
    }

    /// Records that this peer created a record under `address`.
    pub fn record_created(&mut self, address: Address, record: Record)
        ensures
            final(self)@ == old(self)@.push(
                HistoryEntryView::CreatedRecord { address, record: record@ },
            ),
    {
        self.entries.push(HistoryEntry::CreatedRecord { address, record });
        proof {
            assert(self@ =~= old(self)@.push(
                HistoryEntryView::CreatedRecord {
                    address,
                    record: self.entries@.last()->CreatedRecord_record@,
                },
            ));
        }
    }

    /// Records that this peer created a link.
    pub fn link_created(&mut self, source: Address, target: Address, link_type: LinkType)
        ensures
            final(self)@ == old(self)@.push(
                HistoryEntryView::CreatedLink { source, target, link_type },
            ),
    {
        self.entries.push(HistoryEntry::CreatedLink { source, target, link_type });
        proof {
            assert(self@ =~= old(self)@.push(
                HistoryEntryView::CreatedLink { source, target, link_type },
            ));
        }
    }

    /// Scans this peer's own history, oldest first, returning the entries
    /// that pass the optional operation and record-kind filters.  The order
    /// is total and deterministic for a fixed history state.
    pub fn query(&self, op: Option<OpKind>, kind: Option<RecordKind>) -> (r: Vec<HistoryEntry>)
        ensures
            Seq::new(r@.len(), |i: int| r@[i]@) == history_filter(self@, op, kind),
    {
        let mut r: Vec<HistoryEntry> = Vec::new();
        let mut i: usize = 0;
        while i < self.entries.len()
            invariant
                i <= self.entries@.len(),
                self@.len() == self.entries@.len(),
                Seq::new(r@.len(), |k: int| r@[k]@) == history_filter(
                    self@.take(i as int),
                    op,
                    kind,
                ),
            decreases self.entries@.len() - i,
        {
            let e = &self.entries[i];
            let keep = match e {
                HistoryEntry::CreatedRecord { record, .. } => {
                    let op_ok = match op {
                        None => true,
                        Some(OpKind::CreateRecord) => true,
                        Some(OpKind::CreateLink) => false,
                    };
                    let kind_ok = match kind {
                        None => true,
                        Some(RecordKind::Applet) => matches!(record, Record::Applet(_)),
                        Some(RecordKind::GuiBlob) => matches!(record, Record::GuiBlob(_)),
                    };
                    op_ok && kind_ok
                },
                HistoryEntry::CreatedLink { .. } => {
                    let op_ok = match op {
                        None => true,
                        Some(OpKind::CreateRecord) => false,
                        Some(OpKind::CreateLink) => true,
                    };
                    let kind_ok = match kind {
                        None => true,
                        Some(_) => false,
                    };
                    op_ok && kind_ok
                },
            };
            proof {
                assert(self@.take(i + 1 as int).drop_last() =~= self@.take(i as int));
                assert(self@.take(i + 1 as int).last() == self@[i as int]);
                assert(self@[i as int] == self.entries@[i as int]@);
                assert(keep == entry_matches(self@[i as int], op, kind));
            }
            if keep {
                r.push(e.dup());
                proof {
                    assert(Seq::new(r@.len(), |k: int| r@[k]@) =~= history_filter(
                        self@.take(i + 1 as int),
                        op,
                        kind,
                    ));
                }
            } else {
                proof {
                    assert(Seq::new(r@.len(), |k: int| r@[k]@) =~= history_filter(
                        self@.take(i + 1 as int),
                        op,
                        kind,
                    ));
                }
            }
            i = i + 1;
        }
        proof {
            assert(self@.take(self.entries@.len() as int) =~= self@);
        }
        r
    }
}

impl HistoryEntry {
    /// Copies a history entry, preserving its mathematical value.
    pub fn dup(&self) -> (r: HistoryEntry)
        ensures
            r@ == self@,
    {
        match self {
            HistoryEntry::CreatedRecord { address, record } => HistoryEntry::CreatedRecord {
                address: *address,
                record: record.dup(),
            },
            HistoryEntry::CreatedLink { source, target, link_type } => HistoryEntry::CreatedLink {
                source: *source,
                target: *target,
                link_type: *link_type,
            },
        }
    }
}

} // verus!
