//! Canonical serialization: the byte form over which content addresses are
//! computed.  Every field of a record is written in a fixed order with
//! explicit length prefixes, so the bytes — and hence the address — are a
//! pure function of the record's content.

use vstd::prelude::*;

use crate::Address;
use crate::record::AppletView;

verus! {

/// A `u64` as eight little-endian bytes.
pub closed spec fn le8(n: u64) -> Seq<u8> {
    seq![
        (n % 256) as u8,
        ((n / 256) % 256) as u8,
        ((n / 0x10000) % 256) as u8,
        ((n / 0x1000000) % 256) as u8,
        ((n / 0x100000000) % 256) as u8,
        ((n / 0x10000000000) % 256) as u8,
        ((n / 0x1000000000000) % 256) as u8,
        ((n / 0x100000000000000) % 256) as u8,
    ]
}

/// A `u32` as four little-endian bytes.
pub closed spec fn le4(n: u32) -> Seq<u8> {
    seq![
        (n % 256) as u8,
        ((n / 256) % 256) as u8,
        ((n / 0x10000) % 256) as u8,
        ((n / 0x1000000) % 256) as u8,
    ]
}

/// The code points of a string, four bytes each.
pub closed spec fn chars4(s: Seq<char>) -> Seq<u8>
    decreases s.len(),
{
    if s.len() == 0 {
        Seq::empty()
    } else {
        chars4(s.drop_last()) + le4(s.last() as u32)
    }
}

/// A string: its length, then its code points.
pub open spec fn chars8(s: Seq<char>) -> Seq<u8> {
    le8(s.len() as u64) + chars4(s)
}

/// An optional string: a presence byte, then the string if present.
pub open spec fn opt_chars8(s: Option<Seq<char>>) -> Seq<u8> {
    match s {
        None => seq![0u8],
        Some(t) => seq![1u8] + chars8(t),
    }
}

/// An opaque byte blob: its length, then its bytes.
pub open spec fn blob8(b: Seq<u8>) -> Seq<u8> {
    le8(b.len() as u64) + b
}

/// The canonical bytes of a property list: each role name with its opaque
/// configuration blob, in order.
pub open spec fn prop_items(s: Seq<(Seq<char>, Seq<u8>)>) -> Seq<u8>
    decreases s.len(),
{
    if s.len() == 0 {
        Seq::empty()
    } else {
        prop_items(s.drop_last()) + chars8(s.last().0) + blob8(s.last().1)
    }
}

/// The canonical bytes of a unique-seed list: each role name with its
/// optional seed, in order.
pub open spec fn uid_items(s: Seq<(Seq<char>, Option<Seq<char>>)>) -> Seq<u8>
    decreases s.len(),
{
    if s.len() == 0 {
        Seq::empty()
    } else {
        uid_items(s.drop_last()) + chars8(s.last().0) + opt_chars8(s.last().1)
    }
}

/// The canonical bytes of a dna-address list: each role name with its
/// address, in order.
pub open spec fn dna_items(s: Seq<(Seq<char>, Address)>) -> Seq<u8>
    decreases s.len(),
{
    if s.len() == 0 {
        Seq::empty()
    } else {
        dna_items(s.drop_last()) + chars8(s.last().0) + le8(s.last().1.digest)
    }
}

/// The canonical bytes of applet metadata: every field in a fixed order,
/// strings and lists with explicit length prefixes.
pub open spec fn applet_bytes(a: AppletView) -> Seq<u8> {
    chars8(a.name) + chars8(a.description) + opt_chars8(a.logo_src) + le8(
        a.devhub_happ_release_hash.digest,
    ) + le8(a.gui_file_hash.digest) + le8(a.properties.len() as u64) + prop_items(a.properties)
        + le8(a.uid.len() as u64) + uid_items(a.uid) + le8(a.dna_hashes.len() as u64) + dna_items(
        a.dna_hashes,
    )
}

/// Appends the eight little-endian bytes of `n` to `out`.
pub fn push_le8(out: &mut Vec<u8>, n: u64)
    ensures
        final(out)@ == old(out)@ + le8(n),
{
    out.push((n % 256) as u8);
    out.push(((n / 256) % 256) as u8);
    out.push(((n / 0x10000) % 256) as u8);
    out.push(((n / 0x1000000) % 256) as u8);
    out.push(((n / 0x100000000) % 256) as u8);
    out.push(((n / 0x10000000000) % 256) as u8);
    out.push(((n / 0x1000000000000) % 256) as u8);
    out.push(((n / 0x100000000000000) % 256) as u8);
    proof {
        assert(out@ =~= old(out)@ + le8(n));
    }
}

/// Appends the four little-endian bytes of `n` to `out`.
pub fn push_le4(out: &mut Vec<u8>, n: u32)
    ensures
        final(out)@ == old(out)@ + le4(n),
{
    out.push((n % 256) as u8);
    out.push(((n / 256) % 256) as u8);
    out.push(((n / 0x10000) % 256) as u8);
    out.push(((n / 0x1000000) % 256) as u8);
    proof {
        assert(out@ =~= old(out)@ + le4(n));
    }
}

/// Appends the canonical form of the string `s` to `out`.
pub fn push_str(out: &mut Vec<u8>, s: &str)
    ensures
        final(out)@ == old(out)@ + chars8(s@),
{
    let n = s.unicode_len();
    push_le8(out, n as u64);
    let ghost start = out@;
    let mut i: usize = 0;
    while i < n
        invariant
            n == s@.len(),
            i <= n,
            start == old(out)@ + le8(n as u64),
            out@ == start + chars4(s@.take(i as int)),
        decreases n - i,
    {
        let c = s.get_char(i);
        push_le4(out, c as u32);
        proof {
            assert(s@.take(i + 1 as int).drop_last() =~= s@.take(i as int));
            assert(s@.take(i + 1 as int).last() == s@[i as int]);
        }
        i = i + 1;
    }
    proof {
        assert(s@.take(n as int) =~= s@);
    }
}

/// Appends the canonical form of an optional string to `out`.
pub fn push_opt_str(out: &mut Vec<u8>, s: &Option<String>)
    ensures
        final(out)@ == old(out)@ + opt_chars8(match s {
            Option::None => Option::None,
            Option::Some(t) => Option::Some(t@),
        }),
{
    match s {
        None => {
            out.push(0u8);
            proof {
                assert(out@ =~= old(out)@ + seq![0u8]);
            }
        },
        Some(t) => {
            out.push(1u8);
            proof {
                assert(out@ =~= old(out)@ + seq![1u8]);
            }
            push_str(out, t.as_str());
            proof {
                assert(old(out)@ + seq![1u8] + chars8(t@) =~= old(out)@ + (seq![1u8]
                    + chars8(t@)));
            }
        },
    }
}

/// Appends the canonical form of an opaque byte blob to `out`.
pub fn push_blob(out: &mut Vec<u8>, b: &Vec<u8>)
    ensures
        final(out)@ == old(out)@ + blob8(b@),
{
    push_le8(out, b.len() as u64);
    let ghost start = out@;
    let mut i: usize = 0;
    while i < b.len()
        invariant
            i <= b@.len(),
            start == old(out)@ + le8(b@.len() as u64),
            out@ == start + b@.take(i as int),
        decreases b@.len() - i,
    {
        let x = b[i];
        out.push(x);
        proof {
            assert(out@ =~= start + b@.take(i + 1 as int));
        }
        i = i + 1;
    }
    proof {
        assert(b@.take(b@.len() as int) =~= b@);
        assert(out@ =~= old(out)@ + blob8(b@));
    }
}

} // verus!
