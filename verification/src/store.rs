//! Content store: content-addressed, immutable, append-only record storage.
//! Records are keyed by the digest of their canonical bytes, so storage is
//! deduplicated by content and concurrent writers of identical records
//! converge without coordination.

use vstd::prelude::*;

use crate::Address;
use crate::record::{address_of, dup_bytes, AppletGui, Record, RecordView, record_address};

verus! {

/// Why a direct fetch can fail: the address is absent from the local store
/// (normal under eventual consistency), or the stored bytes decode as the
/// wrong record variant.
#[derive(Clone, Copy, PartialEq, Eq, Structural, Debug)]
pub enum RegistryError {
    NotFound,
    TypeMismatch,
}

/// The first record stored under address `a`, if any.
pub open spec fn find_rec(s: Seq<(Address, RecordView)>, a: Address) -> Option<RecordView>
    decreases s.len(),
{
    if s.len() == 0 {
        Option::None
    } else if s[0].0 == a {
        Option::Some(s[0].1)
    } else {
        find_rec(s.drop_first(), a)
    }
}

/// A lookup succeeds exactly when some entry carries the address.
pub proof fn lemma_find_rec_exists(s: Seq<(Address, RecordView)>, a: Address)
    ensures
        find_rec(s, a) is Some <==> exists|i: int| 0 <= i < s.len() && s[i].0 == a,
    decreases s.len(),
{
    if s.len() > 0 {
        if s[0].0 == a {
        } else {
            lemma_find_rec_exists(s.drop_first(), a);
            if find_rec(s.drop_first(), a) is Some {
                let i = choose|i: int| 0 <= i < s.drop_first().len() && s.drop_first()[i].0 == a;
                assert(s[i + 1].0 == a);
            } else {
                assert forall|i: int| 0 <= i < s.len() implies s[i].0 != a by {
                    if i > 0 {
                        assert(s.drop_first()[i - 1].0 == s[i].0);
                    }
                }
            }
        }
    }
}

/// Appending an entry leaves every earlier lookup unchanged; a lookup of the
/// new entry's address that used to fail now finds it.
pub proof fn lemma_find_rec_push(s: Seq<(Address, RecordView)>, p: (Address, RecordView), a: Address)
    ensures
        find_rec(s.push(p), a) == if find_rec(s, a) is Some {
            find_rec(s, a)
        } else if p.0 == a {
            Option::Some(p.1)
        } else {
            Option::None::<RecordView>
        },
    decreases s.len(),
{
    if s.len() == 0 {
        assert(s.push(p)[0] == p);
        assert(s.push(p).drop_first() =~= Seq::<(Address, RecordView)>::empty());
        assert(find_rec(Seq::<(Address, RecordView)>::empty(), a) is None);
        assert(find_rec(s, a) is None);
        if p.0 == a {
            assert(find_rec(s.push(p), a) == Option::Some(p.1));
        } else {
            assert(find_rec(s.push(p), a) == find_rec(s.push(p).drop_first(), a));
        }
    } else {
        assert(s.push(p)[0] == s[0]);
        if s[0].0 == a {
            assert(find_rec(s.push(p), a) == Option::Some(s[0].1));
            assert(find_rec(s, a) == Option::Some(s[0].1));
        } else {
            assert(s.push(p).drop_first() =~= s.drop_first().push(p));
            lemma_find_rec_push(s.drop_first(), p, a);
            assert(find_rec(s.push(p), a) == find_rec(s.drop_first().push(p), a));
            assert(find_rec(s, a) == find_rec(s.drop_first(), a));
        }
    }
}

/// Content-addressed record storage for one peer.
pub struct ContentStore {
    records: Vec<(Address, Record)>,
}

impl ContentStore {
    /// The stored entries, oldest first, as address/value pairs.
    pub closed spec fn entries(self) -> Seq<(Address, RecordView)> {
        Seq::new(self.records@.len(), |i: int| (self.records@[i].0, self.records@[i].1@))
    }

    /// The record stored under `a`, if any.
    pub open spec fn spec_get(self, a: Address) -> Option<RecordView> {
        find_rec(self.entries(), a)
    }

    /// Whether any record is stored under `a`.
    pub open spec fn contains_addr(self, a: Address) -> bool {
        self.spec_get(a) is Some
    }

    /// Well-formedness: every entry sits under the address derived from its
    /// own content, and no address appears twice.
    pub open spec fn wf(self) -> bool {
        &&& forall|i: int|
            0 <= i < self.entries().len() ==> (#[trigger] self.entries()[i]).0 == record_address(
                self.entries()[i].1,
            )
        &&& forall|i: int, j: int|
            0 <= i < j < self.entries().len() ==> (#[trigger] self.entries()[i]).0 != (
            #[trigger] self.entries()[j]).0
    }

    /// An empty store.
    pub fn new() -> (s: ContentStore)
        ensures
            s.entries() == Seq::<(Address, RecordView)>::empty(),
            s.wf(),
    {
        let s = ContentStore { records: Vec::new() };
        proof {
            assert(s.entries() =~= Seq::<(Address, RecordView)>::empty());
        }
        s
    }

    /// Retrieves the record stored under `a`, or nothing: a miss is a normal
    /// condition (the record may exist elsewhere in the network).
    pub fn get(&self, a: Address) -> (r: Option<&Record>)
        ensures
            match r {
                Option::Some(rec) => self.spec_get(a) == Option::Some(rec@),
                Option::None => self.spec_get(a) is None,
            },
    {
        let ghost all = self.entries();
        proof {
            assert(all.skip(0) =~= all);
        }
        let mut i: usize = 0;
        while i < self.records.len()
            invariant
                i <= self.records@.len(),
                all == self.entries(),
                all.len() == self.records@.len(),
                find_rec(all.skip(i as int), a) == find_rec(all, a),
            decreases self.records@.len() - i,
        {
            let pair = &self.records[i];
            proof {
                assert(all.skip(i as int)[0] == all[i as int]);
            }
            if pair.0.digest == a.digest {
                return Some(&pair.1);
            }
            proof {
                assert(all.skip(i as int).drop_first() =~= all.skip(i + 1 as int));
            }
            i = i + 1;
        }
        proof {
            assert(all.skip(self.records@.len() as int) =~= Seq::<(Address, RecordView)>::empty());
        }
        None
    }

    /// Whether a record is stored under `a`.
    pub fn contains(&self, a: Address) -> (r: bool)
        ensures
            r == self.contains_addr(a),
    {
        self.get(a).is_some()
    }

    /// Computes the content address of `record` and persists the record if no
    /// record is stored under that address yet.  Idempotent by construction:
    /// duplicate content is not an error and changes nothing.
    pub fn put(&mut self, record: Record) -> (a: Address)
        requires
            old(self).wf(),
        ensures
            final(self).wf(),
            a == record_address(record@),
            old(self).contains_addr(a) ==> final(self).entries() == old(self).entries(),
            !old(self).contains_addr(a) ==> final(self).entries() == old(self).entries().push(
                (a, record@),
            ) && final(self).spec_get(a) == Option::Some(record@),
    {
        let a = address_of(&record);
        if !self.contains(a) {
            let ghost before = self.entries();
            self.records.push((a, record));
            proof {
                assert(self.entries() =~= before.push((a, record@)));
                lemma_find_rec_push(before, (a, record@), a);
                lemma_find_rec_exists(before, a);
                assert forall|i: int, j: int|
                    0 <= i < j < self.entries().len() implies (#[trigger] self.entries()[i]).0 != (
                #[trigger] self.entries()[j]).0 by {
                    if j < before.len() {
                        assert(before[i] == self.entries()[i]);
                        assert(before[j] == self.entries()[j]);
                    } else {
                        assert(before[i] == self.entries()[i]);
                    }
                }
            }
        }
        a
    }

    /// Best-effort multi-address fetch: one result slot per requested
    /// address, with misses simply absent rather than failing the batch.
    pub fn batch_get(&self, addrs: &Vec<Address>) -> (r: Vec<Option<Record>>)
        ensures
            r@.len() == addrs@.len(),
            forall|i: int|
                0 <= i < addrs@.len() ==> match #[trigger] r@[i] {
                    Option::Some(rec) => self.spec_get(addrs@[i]) == Option::Some(rec@),
                    Option::None => self.spec_get(addrs@[i]) is None,
                },
    {
        let mut r: Vec<Option<Record>> = Vec::new();
        let mut i: usize = 0;
        while i < addrs.len()
            invariant
                i <= addrs@.len(),
                r@.len() == i,
                forall|m: int|
                    0 <= m < i ==> match #[trigger] r@[m] {
                        Option::Some(rec) => self.spec_get(addrs@[m]) == Option::Some(rec@),
                        Option::None => self.spec_get(addrs@[m]) is None,
                    },
            decreases addrs@.len() - i,
        {
            match self.get(addrs[i]) {
                Some(rec) => {
                    let d = rec.dup();
                    r.push(Some(d));
                },
                None => {
                    r.push(None);
                },
            }
            i = i + 1;
        }
        r
    }

    /// Retrieves the record under `a` and decodes it as a GUI bundle.
    /// `NotFound` when nothing is stored locally under `a`; `TypeMismatch`
    /// when the record there is not a GUI bundle.
    pub fn get_gui(&self, a: Address) -> (r: Result<AppletGui, RegistryError>)
        ensures
            match r {
                Result::Ok(g) => self.spec_get(a) == Option::Some(RecordView::GuiBlob(g@)),
                Result::Err(RegistryError::NotFound) => self.spec_get(a) is None,
                Result::Err(RegistryError::TypeMismatch) => self.spec_get(a) matches Option::Some(
                    rv,
                ) && rv is Applet,
            },
    {
        match self.get(a) {
            None => Err(RegistryError::NotFound),
            Some(Record::Applet(_)) => Err(RegistryError::TypeMismatch),
            Some(Record::GuiBlob(b)) => Ok(AppletGui(dup_bytes(b))),
        }
    }
}

} // verus!
