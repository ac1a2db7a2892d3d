//! Records: the immutable values the content store holds.  A record is either
//! applet metadata or an opaque GUI bundle; its identity is its content
//! address, derived from its canonical bytes and never chosen by a caller.

use vstd::prelude::*;

use crate::Address;
use crate::codec::{
    applet_bytes, blob8, chars8, le8, opt_chars8, push_blob, push_le8, push_opt_str, push_str,
};
use crate::hash::{digest_of, fnv1a};

verus! {

/// Applet metadata as published to the network.  `properties`, `uid` and
/// `dna_hashes` are keyed by role name; property values are opaque
/// serialized blobs whose internal structure is the publisher's concern.
#[derive(PartialEq, Eq, Debug)]
pub struct Applet {
    pub name: String,
    pub description: String,
    pub logo_src: Option<String>,
    pub devhub_happ_release_hash: Address,
    pub gui_file_hash: Address,
    pub properties: Vec<(String, Vec<u8>)>,
    pub uid: Vec<(String, Option<String>)>,
    pub dna_hashes: Vec<(String, Address)>,
}

/// The mathematical value of an [`Applet`]: every field reduced to sequences
/// and plain values.
#[verifier::ext_equal]
pub struct AppletView {
    pub name: Seq<char>,
    pub description: Seq<char>,
    pub logo_src: Option<Seq<char>>,
    pub devhub_happ_release_hash: Address,
    pub gui_file_hash: Address,
    pub properties: Seq<(Seq<char>, Seq<u8>)>,
    pub uid: Seq<(Seq<char>, Option<Seq<char>>)>,
    pub dna_hashes: Seq<(Seq<char>, Address)>,
}

/// The mathematical value of an optional string.
pub open spec fn opt_str_view(o: Option<String>) -> Option<Seq<char>> {
    match o {
        Option::None => Option::None,
        Option::Some(s) => Option::Some(s@),
    }
}

/// The mathematical value of a property list.
pub open spec fn props_view(s: Seq<(String, Vec<u8>)>) -> Seq<(Seq<char>, Seq<u8>)> {
    Seq::new(s.len(), |i: int| (s[i].0@, s[i].1@))
}

/// The mathematical value of a unique-seed list.
pub open spec fn uid_view(s: Seq<(String, Option<String>)>) -> Seq<(Seq<char>, Option<Seq<char>>)> {
    Seq::new(s.len(), |i: int| (s[i].0@, opt_str_view(s[i].1)))
}

/// The mathematical value of a dna-address list.
pub open spec fn dna_view(s: Seq<(String, Address)>) -> Seq<(Seq<char>, Address)> {
    Seq::new(s.len(), |i: int| (s[i].0@, s[i].1))
}

impl View for Applet {
    type V = AppletView;

    open spec fn view(&self) -> AppletView {
        AppletView {
            name: self.name@,
            description: self.description@,
            logo_src: opt_str_view(self.logo_src),
            devhub_happ_release_hash: self.devhub_happ_release_hash,
            gui_file_hash: self.gui_file_hash,
            properties: props_view(self.properties@),
            uid: uid_view(self.uid@),
            dna_hashes: dna_view(self.dna_hashes@),
        }
    }
}

/// A packaged UI bundle: an opaque byte payload, stored privately by the
/// committing peer and not replicated for network-wide reads.
#[derive(PartialEq, Eq, Debug)]
pub struct AppletGui(pub Vec<u8>);

impl View for AppletGui {
    type V = Seq<u8>;

    open spec fn view(&self) -> Seq<u8> {
        self.0@
    }
}

/// A stored record: applet metadata or a private GUI bundle.
pub enum Record {
    Applet(Applet),
    GuiBlob(Vec<u8>),
}

/// The mathematical value of a [`Record`].
pub enum RecordView {
    Applet(AppletView),
    GuiBlob(Seq<u8>),
}

impl View for Record {
    type V = RecordView;

    open spec fn view(&self) -> RecordView {
        match self {
            Record::Applet(a) => RecordView::Applet(a@),
            Record::GuiBlob(b) => RecordView::GuiBlob(b@),
        }
    }
}

/// The two record variants, as a filter for history queries.
#[derive(Clone, Copy, PartialEq, Eq, Structural, Debug)]
pub enum RecordKind {
    Applet,
    GuiBlob,
}

/// The variant a record value belongs to.
pub open spec fn kind_of(r: RecordView) -> RecordKind {
    match r {
        RecordView::Applet(_) => RecordKind::Applet,
        RecordView::GuiBlob(_) => RecordKind::GuiBlob,
    }
}

/// The canonical bytes of a record: a variant tag, then every field in a
/// fixed order with explicit length prefixes.
pub open spec fn record_bytes(r: RecordView) -> Seq<u8> {
    match r {
        RecordView::Applet(a) => seq![1u8] + applet_bytes(a),
        RecordView::GuiBlob(b) => seq![2u8] + blob8(b),
    }
}

/// The content address of a record: the digest of its canonical bytes.
/// A pure function of content, so independent writers of identical records
/// converge on the same address without coordination.
pub open spec fn record_address(r: RecordView) -> Address {
    Address { digest: fnv1a(record_bytes(r)) }
}

/// Serializes a record into its canonical bytes.
pub fn canonical_bytes(r: &Record) -> (out: Vec<u8>)
    ensures
        out@ == record_bytes(r@),
{
    let mut out: Vec<u8> = Vec::new();
    match r {
        Record::Applet(a) => {
            out.push(1u8);
            proof {
                assert(out@ =~= seq![1u8]);
            }
            push_applet(&mut out, a);
        },
        Record::GuiBlob(b) => {
            out.push(2u8);
            proof {
                assert(out@ =~= seq![2u8]);
            }
            push_blob(&mut out, b);
        },
    }
    out
}

/// Computes a record's content address from its canonical bytes.
pub fn address_of(r: &Record) -> (a: Address)
    ensures
        a == record_address(r@),
{
    let bytes = canonical_bytes(r);
    Address { digest: digest_of(&bytes) }
}

/// Appends the canonical bytes of a property list to `out`.
fn push_props(out: &mut Vec<u8>, v: &Vec<(String, Vec<u8>)>)
    ensures
        final(out)@ == old(out)@ + le8(v@.len() as u64) + crate::codec::prop_items(
            props_view(v@),
        ),
{
    push_le8(out, v.len() as u64);
    let ghost pv = props_view(v@);
    let ghost pstart = out@;
    let mut i: usize = 0;
    while i < v.len()
        invariant
            i <= v@.len(),
            pv == props_view(v@),
            pv.len() == v@.len(),
            pstart == old(out)@ + le8(v@.len() as u64),
            out@ == pstart + crate::codec::prop_items(pv.take(i as int)),
        decreases v@.len() - i,
    {
        let pair = &v[i];
        push_str(out, pair.0.as_str());
        push_blob(out, &pair.1);
        proof {
            assert(pv.take(i + 1 as int).drop_last() =~= pv.take(i as int));
            assert(pv.take(i + 1 as int).last() == pv[i as int]);
            assert(out@ =~= pstart + crate::codec::prop_items(pv.take(i + 1 as int)));
        }
        i = i + 1;
    }
    proof {
        assert(pv.take(pv.len() as int) =~= pv);
    }
}

/// Appends the canonical bytes of a unique-seed list to `out`.
fn push_uid(out: &mut Vec<u8>, v: &Vec<(String, Option<String>)>)
    ensures
        final(out)@ == old(out)@ + le8(v@.len() as u64) + crate::codec::uid_items(uid_view(v@)),
{
    push_le8(out, v.len() as u64);
    let ghost uv = uid_view(v@);
    let ghost ustart = out@;
    let mut j: usize = 0;
    while j < v.len()
        invariant
            j <= v@.len(),
            uv == uid_view(v@),
            uv.len() == v@.len(),
            ustart == old(out)@ + le8(v@.len() as u64),
            out@ == ustart + crate::codec::uid_items(uv.take(j as int)),
        decreases v@.len() - j,
    {
        let pair = &v[j];
        push_str(out, pair.0.as_str());
        push_opt_str(out, &pair.1);
        proof {
            assert(uv.take(j + 1 as int).drop_last() =~= uv.take(j as int));
            assert(uv.take(j + 1 as int).last() == uv[j as int]);
            assert(out@ =~= ustart + crate::codec::uid_items(uv.take(j + 1 as int)));
        }
        j = j + 1;
    }
    proof {
        assert(uv.take(uv.len() as int) =~= uv);
    }
}

/// Appends the canonical bytes of a dna-address list to `out`.
fn push_dna(out: &mut Vec<u8>, v: &Vec<(String, Address)>)
    ensures
        final(out)@ == old(out)@ + le8(v@.len() as u64) + crate::codec::dna_items(dna_view(v@)),
{
    push_le8(out, v.len() as u64);
    let ghost dv = dna_view(v@);
    let ghost dstart = out@;
    let mut k: usize = 0;
    while k < v.len()
        invariant
            k <= v@.len(),
            dv == dna_view(v@),
            dv.len() == v@.len(),
            dstart == old(out)@ + le8(v@.len() as u64),
            out@ == dstart + crate::codec::dna_items(dv.take(k as int)),
        decreases v@.len() - k,
    {
        let pair = &v[k];
        push_str(out, pair.0.as_str());
        push_le8(out, pair.1.digest);
        proof {
            assert(dv.take(k + 1 as int).drop_last() =~= dv.take(k as int));
            assert(dv.take(k + 1 as int).last() == dv[k as int]);
            assert(out@ =~= dstart + crate::codec::dna_items(dv.take(k + 1 as int)));
        }
        k = k + 1;
    }
    proof {
        assert(dv.take(dv.len() as int) =~= dv);
    }
}

/// Appends the canonical bytes of every applet field to `out`.
#[verifier::rlimit(50)]
fn push_applet(out: &mut Vec<u8>, a: &Applet)
    ensures
        final(out)@ == old(out)@ + applet_bytes(a@),
{
    push_str(out, a.name.as_str());
    push_str(out, a.description.as_str());
    push_opt_str(out, &a.logo_src);
    push_le8(out, a.devhub_happ_release_hash.digest);
    push_le8(out, a.gui_file_hash.digest);
    push_props(out, &a.properties);
    push_uid(out, &a.uid);
    push_dna(out, &a.dna_hashes);
    proof {
        assert(out@ =~= old(out)@ + applet_bytes(a@));
    }
}

/// Copies a byte vector, preserving its view.
pub fn dup_bytes(v: &Vec<u8>) -> (r: Vec<u8>)
    ensures
        r@ == v@,
{
    let mut r: Vec<u8> = Vec::new();
    let mut i: usize = 0;
    while i < v.len()
        invariant
            i <= v@.len(),
            r@ == v@.take(i as int),
        decreases v@.len() - i,
    {
        r.push(v[i]);
        proof {
            assert(r@ =~= v@.take(i + 1 as int));
        }
        i = i + 1;
    }
    proof {
        assert(v@.take(v@.len() as int) =~= v@);
    }
    r
}

impl Applet {
    /// Copies an applet, preserving its mathematical value.
    pub fn dup(&self) -> (r: Applet)
        ensures
            r@ == self@,
    {
        let mut properties: Vec<(String, Vec<u8>)> = Vec::new();
        let mut i: usize = 0;
        while i < self.properties.len()
            invariant
                i <= self.properties@.len(),
                properties@.len() == i,
                forall|m: int|
                    0 <= m < i ==> #[trigger] properties@[m].0@ == self.properties@[m].0@
                        && properties@[m].1@ == self.properties@[m].1@,
            decreases self.properties@.len() - i,
        {
            let pair = &self.properties[i];
            properties.push((pair.0.clone(), dup_bytes(&pair.1)));
            i = i + 1;
        }

        let mut uid: Vec<(String, Option<String>)> = Vec::new();
        let mut j: usize = 0;
        while j < self.uid.len()
            invariant
                j <= self.uid@.len(),
                uid@.len() == j,
                forall|m: int|
                    0 <= m < j ==> #[trigger] uid@[m].0@ == self.uid@[m].0@ && opt_str_view(
                        uid@[m].1,
                    ) == opt_str_view(self.uid@[m].1),
            decreases self.uid@.len() - j,
        {
            let pair = &self.uid[j];
            let value: Option<String> = match &pair.1 {
                None => None,
                Some(s) => Some(s.clone()),
            };
            uid.push((pair.0.clone(), value));
            j = j + 1;
        }

        let mut dna_hashes: Vec<(String, Address)> = Vec::new();
        let mut k: usize = 0;
        while k < self.dna_hashes.len()
            invariant
                k <= self.dna_hashes@.len(),
                dna_hashes@.len() == k,
                forall|m: int|
                    0 <= m < k ==> #[trigger] dna_hashes@[m].0@ == self.dna_hashes@[m].0@
                        && dna_hashes@[m].1 == self.dna_hashes@[m].1,
            decreases self.dna_hashes@.len() - k,
        {
            let pair = &self.dna_hashes[k];
            dna_hashes.push((pair.0.clone(), pair.1));
            k = k + 1;
        }

        let r = Applet {
            name: self.name.clone(),
            description: self.description.clone(),
            logo_src: match &self.logo_src {
                None => None,
                Some(s) => Some(s.clone()),
            },
            devhub_happ_release_hash: self.devhub_happ_release_hash,
            gui_file_hash: self.gui_file_hash,
            properties,
            uid,
            dna_hashes,
        };
        proof {
            assert(r@.properties =~= self@.properties);
            assert(r@.uid =~= self@.uid);
            assert(r@.dna_hashes =~= self@.dna_hashes);
            assert(r@ =~= self@);
        }
        r
    }
}

impl Record {
    /// Copies a record, preserving its mathematical value.
    pub fn dup(&self) -> (r: Record)
        ensures
            r@ == self@,
    {
        match self {
            Record::Applet(a) => Record::Applet(a.dup()),
            Record::GuiBlob(b) => Record::GuiBlob(dup_bytes(b)),
        }
    }
}

} // verus!
