//! Canonical node encoding: prefix-compressed serialization of a node's
//! entry list into its on-disk form and the inverse reconstruction. The
//! canonical form is a pure function of the sorted entry list — same entries,
//! same bytes, same content identifier — which is what makes the tree's root
//! hash a deterministic function of its contents.

use crate::error::{MstError, MstErrorV};
use crate::fanout::{layer_spec, leading_zeros_on_hash};
use crate::keys::{ensure_valid_mst_key, valid_mst_key};
use crate::node::{
    entry_views, opt_cid_view, tree_entry_views, Cid, Leaf, LeafV, MstV, NodeData, NodeDataV,
    NodeEntry, NodeEntryV, TreeEntry, TreeEntryV, MST,
};
use vstd::prelude::*;
use vstd::string::StrSliceExecFns;
use vstd::string::StringSliceAdditionalSpecFns;

verus! {

/// Length of the longest common prefix of two byte strings.
pub open spec fn common_prefix_len(a: Seq<u8>, b: Seq<u8>) -> int
    decreases a.len(),
{
    if a.len() == 0 || b.len() == 0 || a[0] != b[0] {
        0
    } else {
        1 + common_prefix_len(a.drop_first(), b.drop_first())
    }
}

/// The common prefix length is bounded by both strings, the prefixes agree,
/// and the next bytes (if any) differ.
pub proof fn lemma_common_prefix(a: Seq<u8>, b: Seq<u8>)
    ensures
        0 <= common_prefix_len(a, b) <= a.len(),
        common_prefix_len(a, b) <= b.len(),
        forall|j: int| 0 <= j < common_prefix_len(a, b) ==> a[j] == b[j],
        common_prefix_len(a, b) < a.len() && common_prefix_len(a, b) < b.len() ==> a[
            common_prefix_len(a, b)
        ] != b[common_prefix_len(a, b)],
    decreases a.len(),
{
    let p = common_prefix_len(a, b);
    if !(a.len() == 0 || b.len() == 0 || a[0] != b[0]) {
        lemma_common_prefix(a.drop_first(), b.drop_first());
        let q = common_prefix_len(a.drop_first(), b.drop_first());
        assert forall|j: int| 0 <= j < p implies a[j] == b[j] by {
            if j > 0 {
                assert(a.drop_first()[j - 1] == b.drop_first()[j - 1]);
            }
        }
        if p < a.len() && p < b.len() {
            assert(a[p] == a.drop_first()[q] && b[p] == b.drop_first()[q]);
        }
    }
}

/// The common prefix agrees as a whole: the first `common_prefix_len` bytes
/// of both strings are equal as sequences.
pub proof fn lemma_common_prefix_take(a: Seq<u8>, b: Seq<u8>)
    ensures
        a.take(common_prefix_len(a, b)) == b.take(common_prefix_len(a, b)),
{
    lemma_common_prefix(a, b);
    assert(a.take(common_prefix_len(a, b)) =~= b.take(common_prefix_len(a, b)));
}

/// Counts the bytes shared between the fronts of two keys: the length of
/// their longest common byte prefix.
pub fn count_prefix_len(a: &String, b: &String) -> (r: usize)
    ensures
        r == common_prefix_len(vstd::utf8::encode_utf8(a@), vstd::utf8::encode_utf8(b@)),
{
    let av = a.as_str().as_bytes_vec();
    let bv = b.as_str().as_bytes_vec();
    let ghost ab = av@;
    let ghost bb = bv@;
    let n = if av.len() < bv.len() {
        av.len()
    } else {
        bv.len()
    };
    let mut i: usize = 0;
    proof {
        assert(ab.skip(0) =~= ab);
        assert(bb.skip(0) =~= bb);
    }
    while i < n
        invariant
            av@ == ab,
            bv@ == bb,
            ab == vstd::utf8::encode_utf8(a@),
            bb == vstd::utf8::encode_utf8(b@),
            n <= ab.len() && n <= bb.len() && (n == ab.len() || n == bb.len()),
            i <= n,
            common_prefix_len(ab, bb) == i + common_prefix_len(
                ab.skip(i as int),
                bb.skip(i as int),
            ),
        decreases n - i,
    {
        proof {
            assert(ab.skip(i as int)[0] == ab[i as int]);
            assert(bb.skip(i as int)[0] == bb[i as int]);
            assert(ab.skip(i as int).drop_first() =~= ab.skip(i as int + 1));
            assert(bb.skip(i as int).drop_first() =~= bb.skip(i as int + 1));
        }
        if av[i] != bv[i] {
            proof {
                lemma_common_prefix(ab, bb);
            }
            return i;
        }
        i = i + 1;
    }
    proof {
        assert(ab.skip(n as int).len() == 0 || bb.skip(n as int).len() == 0);
    }
    i
}

/// Copies the bytes of `v` from position `from` on.
fn vec_skip(v: &Vec<u8>, from: usize) -> (r: Vec<u8>)
    requires
        from <= v@.len(),
    ensures
        r@ == v@.skip(from as int),
{
    let mut r: Vec<u8> = Vec::new();
    let mut i: usize = from;
    while i < v.len()
        invariant
            from <= i <= v@.len(),
            r@ =~= v@.subrange(from as int, i as int),
        decreases v@.len() - i,
    {
        let b = v[i];
        r.push(b);
        i = i + 1;
    }
    proof {
        assert(r@ =~= v@.skip(from as int));
    }
    r
}

/// Concatenates two byte vectors.
fn vec_concat(a: &Vec<u8>, b: &Vec<u8>) -> (r: Vec<u8>)
    ensures
        r@ == a@ + b@,
{
    let mut r: Vec<u8> = Vec::new();
    let mut i: usize = 0;
    while i < a.len()
        invariant
            i <= a@.len(),
            r@ =~= a@.subrange(0, i as int),
        decreases a@.len() - i,
    {
        let x = a[i];
        r.push(x);
        i = i + 1;
    }
    let mut j: usize = 0;
    while j < b.len()
        invariant
            j <= b@.len(),
            r@ =~= a@ + b@.subrange(0, j as int),
        decreases b@.len() - j,
    {
        let x = b[j];
        r.push(x);
        j = j + 1;
    }
    proof {
        assert(r@ =~= a@ + b@);
    }
    r
}

/// Relies on `String::from_utf8`: succeeds exactly on valid UTF-8 input and
/// returns the string holding those bytes.
#[verifier::external_body]
fn string_from_utf8(v: Vec<u8>) -> (r: Option<String>)
    ensures
        r matches Some(s) ==> vstd::utf8::valid_utf8(v@) && vstd::utf8::encode_utf8(s@) == v@,
        r is None ==> !vstd::utf8::valid_utf8(v@),
{
    match String::from_utf8(v) {
        Ok(s) => Some(s),
        Err(_) => None,
    }
}

/// The key of the first leaf of an entry list, if any leaf is present.
pub open spec fn first_leaf_key(entries: Seq<NodeEntryV>) -> Option<Seq<char>>
    decreases entries.len(),
{
    if entries.len() == 0 {
        None
    } else {
        match entries[0] {
            NodeEntryV::Leaf(l) => Some(l.key),
            NodeEntryV::MST(_) => first_leaf_key(entries.drop_first()),
        }
    }
}

/// The layer a node of these entries sits at, read off its first leaf: a
/// node with no leaves (only a left subtree pointer, or empty) has no
/// determinable layer of its own.
pub fn layer_for_entries(entries: &Vec<NodeEntry>) -> (r: Option<u32>)
    ensures
        match first_leaf_key(entry_views(entries@)) {
            Some(k) => r matches Some(l) && l == layer_spec(vstd::utf8::encode_utf8(k)),
            None => r is None,
        },
{
    let ghost vs = entry_views(entries@);
    let mut i: usize = 0;
    proof {
        assert(vs.skip(0) =~= vs);
    }
    while i < entries.len()
        invariant
            vs == entry_views(entries@),
            i <= vs.len() == entries@.len(),
            forall|j: int| 0 <= j < i ==> !(#[trigger] vs[j] is Leaf),
            first_leaf_key(vs) == first_leaf_key(vs.skip(i as int)),
        decreases entries@.len() - i,
    {
        proof {
            assert(vs.skip(i as int)[0] == vs[i as int]);
            assert(vs.skip(i as int).drop_first() =~= vs.skip(i as int + 1));
        }
        match &entries[i] {
            NodeEntry::Leaf(l) => {
                let kb = l.key.as_str().as_bytes_vec();
                let layer = leading_zeros_on_hash(&kb);
                return Some(layer);
            },
            NodeEntry::MST(_) => {
                i = i + 1;
            },
        }
    }
    proof {
        assert(vs.skip(vs.len() as int) =~= Seq::<NodeEntryV>::empty());
    }
    None
}


/// The canonical serialization of the entries that follow the optional left
/// subtree pointer, walked front to back with the previous leaf's full key
/// bytes at hand. A subtree pointer where a leaf is expected means two
/// subtrees stand next to each other; every key is re-validated before it is
/// compressed; a shared prefix must fit the wire format's one-byte count.
pub open spec fn serialize_leaves(entries: Seq<NodeEntryV>, last_kb: Seq<u8>) -> Result<
    Seq<TreeEntryV>,
    MstErrorV,
>
    decreases entries.len(),
{
    if entries.len() == 0 {
        Ok(Seq::empty())
    } else {
        match entries[0] {
            NodeEntryV::MST(_) => Err(MstErrorV::AdjacentSubtrees),
            NodeEntryV::Leaf(l) => {
                if !valid_mst_key(l.key) {
                    Err(MstErrorV::InvalidKey(l.key))
                } else {
                    let kb = vstd::utf8::encode_utf8(l.key);
                    let p = common_prefix_len(last_kb, kb);
                    if p > 255 {
                        Err(MstErrorV::PrefixTooLong)
                    } else {
                        let has_tree = entries.len() >= 2 && entries[1] is MST;
                        let t = if has_tree {
                            match entries[1] {
                                NodeEntryV::MST(m) => Some(m.pointer),
                                NodeEntryV::Leaf(_) => None,
                            }
                        } else {
                            None
                        };
                        let rest = if has_tree {
                            entries.skip(2)
                        } else {
                            entries.skip(1)
                        };
                        let head = TreeEntryV { p: p as u8, k: kb.skip(p), v: l.value, t };
                        match serialize_leaves(rest, kb) {
                            Ok(tail) => Ok(Seq::empty().push(head) + tail),
                            Err(e) => Err(e),
                        }
                    }
                }
            },
        }
    }
}

/// The canonical (on-disk) form of an entry list: the first entry, if a
/// subtree pointer, becomes the node's left pointer; the rest serialize as
/// prefix-compressed leaf records.
pub open spec fn serialize_spec(entries: Seq<NodeEntryV>) -> Result<NodeDataV, MstErrorV> {
    let has_left = entries.len() > 0 && entries[0] is MST;
    let l = if has_left {
        match entries[0] {
            NodeEntryV::MST(m) => Some(m.pointer),
            NodeEntryV::Leaf(_) => None,
        }
    } else {
        None
    };
    let rest = if has_left {
        entries.skip(1)
    } else {
        entries
    };
    match serialize_leaves(rest, Seq::empty()) {
        Ok(e) => Ok(NodeDataV { l, e }),
        Err(err) => Err(err),
    }
}

/// Joins an already-serialized front with the outcome of serializing the
/// remaining entries.
pub open spec fn ser_combine(
    l: Option<Seq<u8>>,
    acc: Seq<TreeEntryV>,
    rest: Result<Seq<TreeEntryV>, MstErrorV>,
) -> Result<NodeDataV, MstErrorV> {
    match rest {
        Ok(tail) => Ok(NodeDataV { l, e: acc + tail }),
        Err(e) => Err(e),
    }
}

/// Serializes a node's entry list into its canonical on-disk form: the
/// optional leading subtree pointer becomes the left pointer, and each leaf
/// is emitted with the byte count it shares with the previous leaf's full
/// key, its remaining suffix bytes, its value pointer, and its optional
/// trailing subtree pointer. Fails, without any partial result, on two
/// adjacent subtree pointers, on any ill-formed key, and on a shared prefix
/// that cannot be represented.
pub fn serialize_node_data(entries: &Vec<NodeEntry>) -> (r: Result<NodeData, MstError>)
    ensures
        (match r {
            Ok(d) => serialize_spec(entry_views(entries@)) == Ok::<NodeDataV, MstErrorV>(d@),
            Err(e) => serialize_spec(entry_views(entries@)) == Err::<NodeDataV, MstErrorV>(e@),
        }),
{
    let ghost vs = entry_views(entries@);
    proof {
        assert(vs.len() == entries@.len());
        assert(forall|j: int| 0 <= j < vs.len() ==> vs[j] == entries@[j]@);
    }
    let mut l: Option<Cid> = None;
    let mut i: usize = 0;
    if entries.len() > 0 {
        if let NodeEntry::MST(t) = &entries[0] {
            l = Some(t.pointer.duplicate());
            i = 1;
        }
    }
    let mut e: Vec<TreeEntry> = Vec::new();
    let mut last_key = String::new();
    proof {
        assert(vstd::utf8::encode_utf8(last_key@) =~= Seq::<u8>::empty());
        if i == 1 {
            assert(vs.skip(1) =~= vs.skip(1));
        } else {
            assert(vs.skip(0) =~= vs);
        }
        assert(tree_entry_views(e@) =~= Seq::<TreeEntryV>::empty());
        assert(serialize_spec(vs) == ser_combine(
            opt_cid_view(l),
            tree_entry_views(e@),
            serialize_leaves(vs.skip(i as int), vstd::utf8::encode_utf8(last_key@)),
        )) by {
            match serialize_leaves(vs.skip(i as int), Seq::empty()) {
                Ok(tail) => {
                    assert(Seq::<TreeEntryV>::empty() + tail =~= tail);
                },
                Err(_) => {},
            }
        }
    }
    while i < entries.len()
        invariant
            vs == entry_views(entries@),
            vs.len() == entries@.len(),
            forall|j: int| 0 <= j < vs.len() ==> vs[j] == entries@[j]@,
            i <= vs.len(),
            serialize_spec(vs) == ser_combine(
                opt_cid_view(l),
                tree_entry_views(e@),
                serialize_leaves(vs.skip(i as int), vstd::utf8::encode_utf8(last_key@)),
            ),
        decreases entries@.len() - i,
    {
        let ghost lkb = vstd::utf8::encode_utf8(last_key@);
        proof {
            assert(vs.skip(i as int)[0] == vs[i as int]);
        }
        let leaf = match &entries[i] {
            NodeEntry::MST(_) => {
                return Err(MstError::AdjacentSubtrees);
            },
            NodeEntry::Leaf(leaf) => leaf,
        };
        if let Err(err) = ensure_valid_mst_key(&leaf.key) {
            return Err(err);
        }
        let p = count_prefix_len(&last_key, &leaf.key);
        if p > 255 {
            return Err(MstError::PrefixTooLong);
        }
        let kb = leaf.key.as_str().as_bytes_vec();
        proof {
            lemma_common_prefix(lkb, kb@);
        }
        let suffix = vec_skip(&kb, p);
        let mut t: Option<Cid> = None;
        let mut step: usize = 1;
        if i + 1 < entries.len() {
            if let NodeEntry::MST(m) = &entries[i + 1] {
                t = Some(m.pointer.duplicate());
                step = 2;
            }
        }
        let te = TreeEntry { p: p as u8, k: suffix, v: leaf.value.duplicate(), t };
        let ghost old_e = e@;
        e.push(te);
        let ghost old_i = i as int;
        last_key = leaf.key.clone();
        i = i + step;
        proof {
            if old_i + 1 < vs.len() {
                assert(vs.skip(old_i)[1] == vs[old_i + 1]);
            }
            assert(vs.skip(old_i).skip(1) =~= vs.skip(old_i + 1));
            if step == 2 {
                assert(vs.skip(old_i).skip(2) =~= vs.skip(old_i + 2));
            }
            assert(tree_entry_views(old_e.push(te)) =~= tree_entry_views(old_e).push(te@));
            match serialize_leaves(vs.skip(i as int), kb@) {
                Ok(tail) => {
                    assert(tree_entry_views(old_e) + (Seq::empty().push(te@) + tail)
                        =~= tree_entry_views(old_e.push(te)) + tail);
                },
                Err(_) => {},
            }
        }
    }
    proof {
        assert(vs.skip(vs.len() as int) =~= Seq::<NodeEntryV>::empty());
        match serialize_spec(vs) {
            Ok(d) => {
                assert(tree_entry_views(e@) + Seq::<TreeEntryV>::empty() =~= tree_entry_views(e@));
            },
            Err(_) => {},
        }
    }
    Ok(NodeData { l, e })
}

/// The layer expected of a child node: one below the caller's expected
/// layer, or unknown if the caller's is unknown.
pub open spec fn child_layer(layer: Option<u32>) -> Option<u32> {
    match layer {
        Some(l) => Some((l - 1) as u32),
        None => None,
    }
}

/// The inverse walk of [`serialize_leaves`]: each leaf's full key is the
/// first `p` bytes of the preceding full key followed by the stored suffix,
/// re-validated as it is reconstructed; subtree pointers become lazy
/// references one layer below the caller-supplied expected layer.
pub open spec fn deser_leaves(
    es: Seq<TreeEntryV>,
    last_kb: Seq<u8>,
    layer: Option<u32>,
) -> Result<Seq<NodeEntryV>, MstErrorV>
    decreases es.len(),
{
    if es.len() == 0 {
        Ok(Seq::empty())
    } else {
        let e0 = es[0];
        if e0.p > last_kb.len() {
            Err(MstErrorV::PrefixTooLong)
        } else {
            let kb = last_kb.take(e0.p as int) + e0.k;
            if !vstd::utf8::valid_utf8(kb) {
                Err(MstErrorV::InvalidUtf8)
            } else {
                let key = vstd::utf8::decode_utf8(kb);
                if !valid_mst_key(key) {
                    Err(MstErrorV::InvalidKey(key))
                } else if e0.t is Some && layer == Some(0u32) {
                    Err(MstErrorV::LayerUnderflow)
                } else {
                    let leaf = NodeEntryV::Leaf(LeafV { key, value: e0.v });
                    let this = match e0.t {
                        Some(ptr) => Seq::empty().push(leaf).push(
                            NodeEntryV::MST(MstV { pointer: ptr, layer: child_layer(layer) }),
                        ),
                        None => Seq::empty().push(leaf),
                    };
                    match deser_leaves(es.drop_first(), kb, layer) {
                        Ok(tail) => Ok(this + tail),
                        Err(e) => Err(e),
                    }
                }
            }
        }
    }
}

/// The entry list a canonical node denotes: the optional left pointer
/// becomes a leading subtree reference one layer down, followed by the
/// reconstructed leaves. A node that claims a subtree below layer zero is
/// corrupt.
pub open spec fn deserialize_spec(data: NodeDataV, layer: Option<u32>) -> Result<
    Seq<NodeEntryV>,
    MstErrorV,
> {
    if data.l is Some && layer == Some(0u32) {
        Err(MstErrorV::LayerUnderflow)
    } else {
        let head = match data.l {
            Some(ptr) => Seq::empty().push(
                NodeEntryV::MST(MstV { pointer: ptr, layer: child_layer(layer) }),
            ),
            None => Seq::empty(),
        };
        match deser_leaves(data.e, Seq::empty(), layer) {
            Ok(tail) => Ok(head + tail),
            Err(e) => Err(e),
        }
    }
}

/// Copies the first `to` bytes of `v`.
fn vec_take(v: &Vec<u8>, to: usize) -> (r: Vec<u8>)
    requires
        to <= v@.len(),
    ensures
        r@ == v@.take(to as int),
{
    let mut r: Vec<u8> = Vec::new();
    let mut i: usize = 0;
    while i < to
        invariant
            to <= v@.len(),
            i <= to,
            r@ =~= v@.subrange(0, i as int),
        decreases to - i,
    {
        let b = v[i];
        r.push(b);
        i = i + 1;
    }
    proof {
        assert(r@ =~= v@.take(to as int));
    }
    r
}

/// An identical copy of a byte vector.
fn clone_bytes(v: &Vec<u8>) -> (r: Vec<u8>)
    ensures
        r@ == v@,
{
    let r = v.clone();
    proof {
        assert(r@ =~= v@);
    }
    r
}

/// Reconstructs a node's entry list from its canonical on-disk form, loaded
/// from untrusted storage: every reconstructed key is re-validated, and a
/// failure means the stored node is corrupt or was produced by a
/// non-conformant peer — it is surfaced, never repaired. Subtree pointers
/// are attached lazily, one layer below the caller-supplied expected layer
/// (unknown if the expectation is unknown).
pub fn deserialize_node_data(data: &NodeData, layer: Option<u32>) -> (r: Result<
    Vec<NodeEntry>,
    MstError,
>)
    ensures
        (match r {
            Ok(es) => deserialize_spec(data@, layer) == Ok::<Seq<NodeEntryV>, MstErrorV>(
                entry_views(es@),
            ),
            Err(e) => deserialize_spec(data@, layer) == Err::<Seq<NodeEntryV>, MstErrorV>(e@),
        }),
{
    let ghost dv = data@;
    proof {
        assert(dv.e.len() == data.e@.len());
        assert(forall|j: int| 0 <= j < dv.e.len() ==> dv.e[j] == data.e@[j]@);
    }
    let mut out: Vec<NodeEntry> = Vec::new();
    if let Some(lcid) = &data.l {
        let new_layer: Option<u32> = match layer {
            Some(pl) => {
                if pl == 0 {
                    return Err(MstError::LayerUnderflow);
                }
                Some(pl - 1)
            },
            None => None,
        };
        out.push(NodeEntry::MST(MST::load(lcid.duplicate(), new_layer)));
    }
    let mut last_kb: Vec<u8> = Vec::new();
    let mut i: usize = 0;
    proof {
        assert(dv.e.skip(0) =~= dv.e);
        assert(entry_views(out@) =~= (match dv.l {
            Some(ptr) => Seq::empty().push(
                NodeEntryV::MST(MstV { pointer: ptr, layer: child_layer(layer) }),
            ),
            None => Seq::<NodeEntryV>::empty(),
        }));
    }
    while i < data.e.len()
        invariant
            dv == data@,
            i <= dv.e.len() == data.e@.len(),
            forall|j: int| 0 <= j < dv.e.len() ==> dv.e[j] == data.e@[j]@,
            !(dv.l is Some && layer == Some(0u32)),
            deserialize_spec(dv, layer) == (match deser_leaves(
                dv.e.skip(i as int),
                last_kb@,
                layer,
            ) {
                Ok(tail) => Ok::<Seq<NodeEntryV>, MstErrorV>(entry_views(out@) + tail),
                Err(e) => Err::<Seq<NodeEntryV>, MstErrorV>(e),
            }),
        decreases data.e@.len() - i,
    {
        proof {
            assert(dv.e.skip(i as int)[0] == dv.e[i as int]);
            assert(dv.e.skip(i as int).drop_first() =~= dv.e.skip(i as int + 1));
        }
        let entry = &data.e[i];
        let p = entry.p as usize;
        if p > last_kb.len() {
            return Err(MstError::PrefixTooLong);
        }
        let prefix = vec_take(&last_kb, p);
        let kb = vec_concat(&prefix, &entry.k);
        let key = match string_from_utf8(clone_bytes(&kb)) {
            Some(s) => s,
            None => {
                return Err(MstError::InvalidUtf8);
            },
        };
        proof {
            vstd::utf8::encode_utf8_decode_utf8(key@);
        }
        if let Err(err) = ensure_valid_mst_key(&key) {
            return Err(err);
        }
        let ghost old_out = out@;
        let ghost old_i = i as int;
        out.push(NodeEntry::Leaf(Leaf { key, value: entry.v.duplicate() }));
        let ghost mid_out = out@;
        if let Some(tcid) = &entry.t {
            let new_layer: Option<u32> = match layer {
                Some(pl) => {
                    if pl == 0 {
                        return Err(MstError::LayerUnderflow);
                    }
                    Some(pl - 1)
                },
                None => None,
            };
            out.push(NodeEntry::MST(MST::load(tcid.duplicate(), new_layer)));
        }
        last_kb = kb;
        i = i + 1;
        proof {
            let e0 = dv.e[old_i];
            let kbs = last_kb@;
            let keyv = vstd::utf8::decode_utf8(kbs);
            let leafv = NodeEntryV::Leaf(LeafV { key: keyv, value: e0.v });
            let this = (match e0.t {
                Some(ptr) => Seq::empty().push(leafv).push(
                    NodeEntryV::MST(MstV { pointer: ptr, layer: child_layer(layer) }),
                ),
                None => Seq::empty().push(leafv),
            });
            assert(entry_views(mid_out) =~= entry_views(old_out).push(leafv));
            assert(entry_views(out@) =~= entry_views(old_out) + this);
            match deser_leaves(dv.e.skip(i as int), kbs, layer) {
                Ok(tail) => {
                    assert(entry_views(old_out) + (this + tail) =~= entry_views(out@) + tail);
                },
                Err(_) => {},
            }
        }
    }
    proof {
        assert(dv.e.skip(dv.e.len() as int) =~= Seq::<TreeEntryV>::empty());
        match deserialize_spec(dv, layer) {
            Ok(_) => {
                assert(entry_views(out@) + Seq::<NodeEntryV>::empty() =~= entry_views(out@));
            },
            Err(_) => {},
        }
    }
    Ok(out)
}

/// Every subtree reference among `entries` carries the layer hint one below
/// `layer`, and none is present at all when `layer` is zero.
pub open spec fn subtree_layers_match(entries: Seq<NodeEntryV>, layer: Option<u32>) -> bool {
    forall|i: int|
        0 <= i < entries.len() ==> ((#[trigger] entries[i]) matches NodeEntryV::MST(m)
            ==> m.layer == child_layer(layer) && !(layer == Some(0u32)))
}

proof fn lemma_round_trip_leaves(entries: Seq<NodeEntryV>, last_kb: Seq<u8>, layer: Option<u32>)
    requires
        serialize_leaves(entries, last_kb) is Ok,
        subtree_layers_match(entries, layer),
    ensures
        deser_leaves(serialize_leaves(entries, last_kb)->Ok_0, last_kb, layer) == Ok::<
            Seq<NodeEntryV>,
            MstErrorV,
        >(entries),
    decreases entries.len(),
{
    let ser = serialize_leaves(entries, last_kb)->Ok_0;
    if entries.len() == 0 {
        assert(ser =~= Seq::<TreeEntryV>::empty());
        assert(entries =~= Seq::<NodeEntryV>::empty());
    } else {
        let l = entries[0]->Leaf_0;
        let kb = vstd::utf8::encode_utf8(l.key);
        let p = common_prefix_len(last_kb, kb);
        lemma_common_prefix(last_kb, kb);
        lemma_common_prefix_take(last_kb, kb);
        let has_tree = entries.len() >= 2 && entries[1] is MST;
        let rest = if has_tree {
            entries.skip(2)
        } else {
            entries.skip(1)
        };
        let t = if has_tree {
            Some(entries[1]->MST_0.pointer)
        } else {
            None::<Seq<u8>>
        };
        let head = TreeEntryV { p: p as u8, k: kb.skip(p), v: l.value, t };
        let tail = serialize_leaves(rest, kb)->Ok_0;
        assert(ser == Seq::empty().push(head) + tail);
        assert(ser[0] == head);
        assert(ser.drop_first() =~= tail);
        // The reconstructed key bytes are exactly the original key's bytes.
        assert(last_kb.take(p) + kb.skip(p) =~= kb);
        vstd::utf8::encode_utf8_valid_utf8(l.key);
        vstd::utf8::encode_utf8_decode_utf8(l.key);
        // The remaining entries round-trip by induction.
        assert(subtree_layers_match(rest, layer)) by {
            assert forall|i: int|
                0 <= i < rest.len() implies ((#[trigger] rest[i]) matches NodeEntryV::MST(m)
                ==> m.layer == child_layer(layer) && !(layer == Some(0u32))) by {
                if has_tree {
                    assert(rest[i] == entries[i + 2]);
                } else {
                    assert(rest[i] == entries[i + 1]);
                }
            }
        }
        lemma_round_trip_leaves(rest, kb, layer);
        // Walk the deserialization of `ser` one step by hand.
        let e0 = ser[0];
        assert(e0 == head);
        assert(0 <= p <= 255 && e0.p == p);
        assert(e0.p <= last_kb.len());
        let kb2 = last_kb.take(e0.p as int) + e0.k;
        assert(kb2 == kb);
        assert(vstd::utf8::valid_utf8(kb2));
        let key2 = vstd::utf8::decode_utf8(kb2);
        assert(key2 == l.key);
        assert(valid_mst_key(key2));
        assert(!(e0.t is Some && layer == Some(0u32)));
        let leaf2 = NodeEntryV::Leaf(LeafV { key: key2, value: e0.v });
        assert(leaf2 =~~= entries[0]);
        assert(deser_leaves(ser.drop_first(), kb2, layer) == Ok::<Seq<NodeEntryV>, MstErrorV>(
            rest,
        ));
        if has_tree {
            assert(entries[1] matches NodeEntryV::MST(m) && m.layer == child_layer(layer)
                && m.pointer == e0.t->Some_0);
            let sub = NodeEntryV::MST(MstV { pointer: e0.t->Some_0, layer: child_layer(layer) });
            assert(sub =~~= entries[1]);
            assert(deser_leaves(ser, last_kb, layer) == Ok::<Seq<NodeEntryV>, MstErrorV>(
                Seq::empty().push(leaf2).push(sub) + rest,
            ));
            assert(Seq::empty().push(leaf2).push(sub) + rest =~= entries);
        } else {
            assert(e0.t is None);
            assert(deser_leaves(ser, last_kb, layer) == Ok::<Seq<NodeEntryV>, MstErrorV>(
                Seq::empty().push(leaf2) + rest,
            ));
            assert(Seq::empty().push(leaf2) + rest =~= entries);
        }
    }
}

/// Round-trip: prefix compression is lossless. Deserializing the canonical
/// form of any entry list that serializes without error, against an expected
/// layer consistent with the list's own subtree layer hints, yields that
/// entry list back unchanged.
pub proof fn lemma_round_trip(entries: Seq<NodeEntryV>, layer: Option<u32>)
    requires
        serialize_spec(entries) is Ok,
        subtree_layers_match(entries, layer),
    ensures
        deserialize_spec(serialize_spec(entries)->Ok_0, layer) == Ok::<Seq<NodeEntryV>, MstErrorV>(
            entries,
        ),
{
    let data = serialize_spec(entries)->Ok_0;
    if entries.len() > 0 && entries[0] is MST {
        let rest = entries.skip(1);
        assert(subtree_layers_match(rest, layer)) by {
            assert forall|i: int|
                0 <= i < rest.len() implies ((#[trigger] rest[i]) matches NodeEntryV::MST(m)
                ==> m.layer == child_layer(layer) && !(layer == Some(0u32))) by {
                assert(rest[i] == entries[i + 1]);
            }
        }
        lemma_round_trip_leaves(rest, Seq::empty(), layer);
        assert(entries[0] matches NodeEntryV::MST(m) && m.layer == child_layer(layer));
        assert(Seq::empty().push(
            NodeEntryV::MST(MstV { pointer: data.l->Some_0, layer: child_layer(layer) }),
        ) + rest =~= entries);
    } else {
        lemma_round_trip_leaves(entries, Seq::empty(), layer);
        assert(Seq::<NodeEntryV>::empty() + entries =~= entries);
    }
}

proof fn lemma_leaves_ok_shape(entries: Seq<NodeEntryV>, last_kb: Seq<u8>)
    requires
        serialize_leaves(entries, last_kb) is Ok,
    ensures
        entries.len() > 0 ==> entries[0] is Leaf,
        forall|i: int|
            1 <= i < entries.len() ==> !((#[trigger] entries[i]) is MST && entries[i - 1] is MST),
    decreases entries.len(),
{
    if entries.len() > 0 {
        let l = entries[0]->Leaf_0;
        let kb = vstd::utf8::encode_utf8(l.key);
        let has_tree = entries.len() >= 2 && entries[1] is MST;
        let rest = if has_tree {
            entries.skip(2)
        } else {
            entries.skip(1)
        };
        lemma_leaves_ok_shape(rest, kb);
        assert forall|i: int|
            1 <= i < entries.len() implies !((#[trigger] entries[i]) is MST && entries[i - 1]
            is MST) by {
            if has_tree {
                if i == 2 && entries.len() > 2 {
                    assert(entries[2] == rest[0]);
                } else if i >= 3 {
                    assert(entries[i] == rest[i - 2]);
                    assert(entries[i - 1] == rest[i - 3]);
                }
            } else {
                if i == 1 {
                    assert(entries[1] == rest[0]);
                } else {
                    assert(entries[i] == rest[i - 1]);
                    assert(entries[i - 1] == rest[i - 2]);
                }
            }
        }
    }
}

/// No silently dropped subtrees: an entry list in which two subtree pointers
/// stand next to each other never serializes successfully — the attempt
/// fails with a structural error, as [`serialize_leaves`] spells out.
pub proof fn lemma_no_adjacent_subtrees(entries: Seq<NodeEntryV>)
    requires
        serialize_spec(entries) is Ok,
    ensures
        forall|i: int|
            1 <= i < entries.len() ==> !((#[trigger] entries[i]) is MST && entries[i - 1] is MST),
{
    if entries.len() > 0 && entries[0] is MST {
        let rest = entries.skip(1);
        lemma_leaves_ok_shape(rest, Seq::empty());
        assert forall|i: int|
            1 <= i < entries.len() implies !((#[trigger] entries[i]) is MST && entries[i - 1]
            is MST) by {
            if i == 1 && entries.len() > 1 {
                assert(entries[1] == rest[0]);
            } else if i >= 2 {
                assert(entries[i] == rest[i - 1]);
                assert(entries[i - 1] == rest[i - 2]);
            }
        }
    } else {
        lemma_leaves_ok_shape(entries, Seq::empty());
    }
}

/// Determinism of the canonical form: serialization is a pure function of
/// the entry list — the same entries yield the same canonical node, whatever
/// edit history produced them.
pub proof fn lemma_canonical_form_deterministic(e1: Seq<NodeEntryV>, e2: Seq<NodeEntryV>)
    requires
        e1 == e2,
    ensures
        serialize_spec(e1) == serialize_spec(e2),
{
}

} // verus!
