//! Content identifiers for canonical nodes. A node's identifier is the hash
//! of its canonical binary encoding, a deterministic DAG-CBOR document: a map
//! with keys `"e"` (the array of leaf records, each a map with keys `"k"`,
//! `"p"`, `"t"`, `"v"`) and `"l"` (the left subtree link or null), map keys
//! in sorted order, links carried as tag 42 over the identifier bytes behind
//! a single zero byte, and all heads in shortest form. The byte layout is
//! pinned down to the bit by the spec functions here, so that any two
//! builders of the same entry list obtain the same bytes and therefore the
//! same identifier.

use crate::codec::{serialize_node_data, serialize_spec};
use crate::error::{MstError, MstErrorV};
use crate::node::{entry_views, Cid, NodeData, NodeDataV, NodeEntry, TreeEntry, TreeEntryV};
use libipld::multihash::MultihashDigest;
use vstd::prelude::*;

verus! {

/// The CBOR head announcing a major type and its argument, in shortest form.
pub open spec fn cbor_head(major: int, val: int) -> Seq<u8> {
    if val < 24 {
        seq![(major * 32 + val) as u8]
    } else if val < 256 {
        seq![(major * 32 + 24) as u8, val as u8]
    } else if val < 65536 {
        seq![(major * 32 + 25) as u8, (val / 256) as u8, (val % 256) as u8]
    } else if val < 4294967296 {
        seq![
            (major * 32 + 26) as u8,
            (val / 16777216) as u8,
            ((val / 65536) % 256) as u8,
            ((val / 256) % 256) as u8,
            (val % 256) as u8,
        ]
    } else {
        seq![
            (major * 32 + 27) as u8,
            (val / 72057594037927936) as u8,
            ((val / 281474976710656) % 256) as u8,
            ((val / 1099511627776) % 256) as u8,
            ((val / 4294967296) % 256) as u8,
            ((val / 16777216) % 256) as u8,
            ((val / 65536) % 256) as u8,
            ((val / 256) % 256) as u8,
            (val % 256) as u8,
        ]
    }
}

/// A CBOR byte string: its head followed by the raw bytes.
pub open spec fn cbor_bytes(b: Seq<u8>) -> Seq<u8> {
    cbor_head(2, b.len() as int) + b
}

/// A DAG-CBOR link: tag 42 over a byte string holding the identifier bytes
/// behind a single zero (identity multibase) byte.
pub open spec fn cbor_cid_link(cid: Seq<u8>) -> Seq<u8> {
    cbor_head(6, 42) + cbor_bytes(seq![0u8] + cid)
}

/// An optional link: null when absent.
pub open spec fn cbor_opt_link(o: Option<Seq<u8>>) -> Seq<u8> {
    match o {
        Some(c) => cbor_cid_link(c),
        None => seq![0xf6u8],
    }
}

/// One leaf record as a four-entry CBOR map, keys in sorted order.
pub open spec fn encode_tree_entry(t: TreeEntryV) -> Seq<u8> {
    cbor_head(5, 4) + seq![0x61u8, 0x6bu8] + cbor_bytes(t.k) + seq![0x61u8, 0x70u8] + cbor_head(
        0,
        t.p as int,
    ) + seq![0x61u8, 0x74u8] + cbor_opt_link(t.t) + seq![0x61u8, 0x76u8] + cbor_cid_link(t.v)
}

/// The leaf records, back to back.
pub open spec fn encode_tree_entries(es: Seq<TreeEntryV>) -> Seq<u8>
    decreases es.len(),
{
    if es.len() == 0 {
        Seq::empty()
    } else {
        encode_tree_entry(es[0]) + encode_tree_entries(es.drop_first())
    }
}

/// The canonical binary encoding of a node: a two-entry CBOR map, keys in
/// sorted order, holding the leaf-record array and the left link.
pub open spec fn encode_node_data(d: NodeDataV) -> Seq<u8> {
    cbor_head(5, 2) + seq![0x61u8, 0x65u8] + cbor_head(4, d.e.len() as int)
        + encode_tree_entries(d.e) + seq![0x61u8, 0x6cu8] + cbor_opt_link(d.l)
}

/// Appends the CBOR head for `major` and `val`, in shortest form.
fn push_head(out: &mut Vec<u8>, major: u8, val: u64)
    requires
        major <= 6,
    ensures
        final(out)@ == old(out)@ + cbor_head(major as int, val as int),
{
    let base: u8 = major * 32;
    if val < 24 {
        out.push(base + val as u8);
    } else if val < 256 {
        out.push(base + 24);
        out.push(val as u8);
    } else if val < 65536 {
        out.push(base + 25);
        out.push((val / 256) as u8);
        out.push((val % 256) as u8);
    } else if val < 4294967296 {
        out.push(base + 26);
        out.push((val / 16777216) as u8);
        out.push(((val / 65536) % 256) as u8);
        out.push(((val / 256) % 256) as u8);
        out.push((val % 256) as u8);
    } else {
        out.push(base + 27);
        out.push((val / 72057594037927936) as u8);
        out.push(((val / 281474976710656) % 256) as u8);
        out.push(((val / 1099511627776) % 256) as u8);
        out.push(((val / 4294967296) % 256) as u8);
        out.push(((val / 16777216) % 256) as u8);
        out.push(((val / 65536) % 256) as u8);
        out.push(((val / 256) % 256) as u8);
        out.push((val % 256) as u8);
    }
    proof {
        assert(out@ =~= old(out)@ + cbor_head(major as int, val as int));
    }
}

/// Appends all of `b`.
fn push_bytes(out: &mut Vec<u8>, b: &Vec<u8>)
    ensures
        final(out)@ == old(out)@ + b@,
{
    let mut i: usize = 0;
    while i < b.len()
        invariant
            i <= b@.len(),
            out@ =~= old(out)@ + b@.subrange(0, i as int),
        decreases b@.len() - i,
    {
        let x = b[i];
        out.push(x);
        i = i + 1;
    }
    proof {
        assert(out@ =~= old(out)@ + b@);
    }
}

/// Appends a CBOR byte string.
fn push_byte_string(out: &mut Vec<u8>, b: &Vec<u8>)
    ensures
        final(out)@ == old(out)@ + cbor_bytes(b@),
{
    push_head(out, 2, b.len() as u64);
    push_bytes(out, b);
    proof {
        assert(out@ =~= old(out)@ + cbor_bytes(b@));
    }
}

/// Appends a DAG-CBOR link to a content identifier.
fn push_cid_link(out: &mut Vec<u8>, c: &Cid)
    ensures
        final(out)@ == old(out)@ + cbor_cid_link(c@),
{
    push_head(out, 6, 42);
    let mut wrapped: Vec<u8> = Vec::new();
    wrapped.push(0u8);
    push_bytes(&mut wrapped, &c.bytes);
    proof {
        assert(wrapped@ =~= seq![0u8] + c@);
    }
    push_byte_string(out, &wrapped);
    proof {
        assert(out@ =~= old(out)@ + cbor_cid_link(c@));
    }
}

/// Appends a link or null.
fn push_opt_link(out: &mut Vec<u8>, o: &Option<Cid>)
    ensures
        final(out)@ == old(out)@ + cbor_opt_link(crate::node::opt_cid_view(*o)),
{
    match o {
        Some(c) => push_cid_link(out, c),
        None => {
            out.push(0xf6u8);
            proof {
                assert(out@ =~= old(out)@ + seq![0xf6u8]);
            }
        },
    }
}

/// Appends one leaf record's map.
fn push_tree_entry(out: &mut Vec<u8>, t: &TreeEntry)
    ensures
        final(out)@ == old(out)@ + encode_tree_entry(t@),
{
    push_head(out, 5, 4);
    out.push(0x61u8);
    out.push(0x6bu8);
    push_byte_string(out, &t.k);
    out.push(0x61u8);
    out.push(0x70u8);
    push_head(out, 0, t.p as u64);
    out.push(0x61u8);
    out.push(0x74u8);
    push_opt_link(out, &t.t);
    out.push(0x61u8);
    out.push(0x76u8);
    push_cid_link(out, &t.v);
    proof {
        assert(out@ =~= old(out)@ + encode_tree_entry(t@));
    }
}

/// Computes the canonical binary encoding of a node's on-disk form.
pub fn node_data_bytes(d: &NodeData) -> (r: Vec<u8>)
    ensures
        r@ == encode_node_data(d@),
{
    let mut out: Vec<u8> = Vec::new();
    push_head(&mut out, 5, 2);
    out.push(0x61u8);
    out.push(0x65u8);
    push_head(&mut out, 4, d.e.len() as u64);
    let ghost header = out@;
    let ghost evs = d@.e;
    let mut i: usize = 0;
    proof {
        assert(evs.skip(0) =~= evs);
        assert(encode_tree_entries(evs) + Seq::<u8>::empty() =~= encode_tree_entries(evs));
    }
    while i < d.e.len()
        invariant
            evs == d@.e,
            evs.len() == d.e@.len(),
            forall|j: int| 0 <= j < evs.len() ==> evs[j] == d.e@[j]@,
            i <= evs.len(),
            out@ =~= header + encode_tree_entries(evs.take(i as int)),
        decreases d.e@.len() - i,
    {
        push_tree_entry(&mut out, &d.e[i]);
        i = i + 1;
        proof {
            lemma_encode_entries_snoc(evs.take(i as int - 1), evs[i as int - 1]);
            assert(evs.take(i as int - 1).push(evs[i as int - 1]) =~= evs.take(i as int));
            assert(out@ =~= header + encode_tree_entries(evs.take(i as int)));
        }
    }
    out.push(0x61u8);
    out.push(0x6cu8);
    push_opt_link(&mut out, &d.l);
    proof {
        assert(evs.take(evs.len() as int) =~= evs);
        assert(out@ =~= encode_node_data(d@));
    }
    out
}

/// Encoding one more record appends its bytes at the back.
proof fn lemma_encode_entries_snoc(es: Seq<TreeEntryV>, t: TreeEntryV)
    ensures
        encode_tree_entries(es.push(t)) == encode_tree_entries(es) + encode_tree_entry(t),
    decreases es.len(),
{
    if es.len() == 0 {
        assert(es.push(t)[0] == t);
        assert(es.push(t).drop_first() =~= Seq::<TreeEntryV>::empty());
        assert(encode_tree_entries(Seq::<TreeEntryV>::empty()) =~= Seq::<u8>::empty());
        assert(encode_tree_entries(es.push(t)) =~= encode_tree_entry(t));
        assert(encode_tree_entries(es) + encode_tree_entry(t) =~= encode_tree_entry(t));
    } else {
        assert(es.push(t).drop_first() =~= es.drop_first().push(t));
        lemma_encode_entries_snoc(es.drop_first(), t);
        assert(encode_tree_entries(es.push(t)) =~= encode_tree_entries(es) + encode_tree_entry(
            t,
        ));
    }
}

/// Named result of libipld's content addressing: the binary CIDv1 (DAG-CBOR
/// codec, SHA2-256 multihash) of a byte string — a function of the bytes
/// alone.
pub uninterp spec fn cid_of(bytes: Seq<u8>) -> Seq<u8>;

/// Relies on `libipld::multihash::Code::Sha2_256::digest`,
/// `libipld::Cid::new_v1` and `libipld::Cid::to_bytes`: the binary CIDv1
/// address (DAG-CBOR codec, SHA2-256 multihash) of the input bytes, a
/// function of those bytes alone.
#[verifier::external_body]
fn cid_bytes_for(bytes: &Vec<u8>) -> (r: Vec<u8>)
    ensures
        r@ == cid_of(bytes@),
{
    let mh = libipld::multihash::Code::Sha2_256.digest(bytes.as_slice());
    let cid = libipld::Cid::new_v1(0x71, mh);
    cid.to_bytes()
}

/// The content identifier a node of these entries persists under: the hash
/// address of the canonical binary encoding of their serialized form. Same
/// entries, same bytes, same identifier — and any serialization failure is
/// surfaced unchanged.
pub fn cid_for_entries(entries: &Vec<NodeEntry>) -> (r: Result<Cid, MstError>)
    ensures
        (match r {
            Ok(c) => serialize_spec(entry_views(entries@)) matches Ok(d) && c@ == cid_of(
                encode_node_data(d),
            ),
            Err(e) => serialize_spec(entry_views(entries@)) == Err::<NodeDataV, MstErrorV>(e@),
        }),
{
    let data = match serialize_node_data(entries) {
        Ok(d) => d,
        Err(e) => {
            return Err(e);
        },
    };
    let bytes = node_data_bytes(&data);
    Ok(Cid::new(cid_bytes_for(&bytes)))
}

} // verus!
