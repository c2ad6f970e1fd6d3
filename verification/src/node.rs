//! In-memory and wire-level data model of one MST node.
//!
//! A node is an ordered list of entries, each either a leaf (key and value
//! pointer) or a pointer to a subtree one layer below; no two subtree
//! pointers may stand next to each other. Content identifiers are opaque
//! comparable byte strings: the engine never inspects them, it only stores,
//! copies and compares them.

use vstd::prelude::*;

verus! {

/// A content identifier: the hash-based address of a value's canonical
/// bytes. Treated as an opaque, comparable byte string.
pub struct Cid {
    pub bytes: Vec<u8>,
}

impl View for Cid {
    type V = Seq<u8>;

    open spec fn view(&self) -> Seq<u8> {
        self.bytes@
    }
}

impl Cid {
    /// Wraps raw content-identifier bytes.
    pub fn new(bytes: Vec<u8>) -> (c: Cid)
        ensures
            c@ == bytes@,
    {
        Cid { bytes }
    }

    /// An identical copy of this identifier.
    pub fn duplicate(&self) -> (c: Cid)
        ensures
            c@ == self@,
    {
        let copy = self.bytes.clone();
        proof {
            assert(copy@ =~= self.bytes@);
        }
        Cid { bytes: copy }
    }
}

/// A leaf entry: a record key paired with the content identifier of the
/// record's serialized body.
pub struct Leaf {
    pub key: String,
    pub value: Cid,
}

/// Mathematical image of a [`Leaf`].
#[verifier::ext_equal]
pub struct LeafV {
    pub key: Seq<char>,
    pub value: Seq<u8>,
}

impl View for Leaf {
    type V = LeafV;

    open spec fn view(&self) -> LeafV {
        LeafV { key: self.key@, value: self.value@ }
    }
}

/// A lazily-materialized subtree one layer below: only its content
/// identifier and an optional layer hint are held; the referenced node is
/// resolved through the node store on demand, never eagerly.
pub struct MST {
    pub pointer: Cid,
    pub layer: Option<u32>,
}

/// Mathematical image of an [`MST`] subtree reference.
#[verifier::ext_equal]
pub struct MstV {
    pub pointer: Seq<u8>,
    pub layer: Option<u32>,
}

impl View for MST {
    type V = MstV;

    open spec fn view(&self) -> MstV {
        MstV { pointer: self.pointer@, layer: self.layer }
    }
}

impl MST {
    /// Attaches to an existing tree by content identifier without loading
    /// any of its nodes; `layer` is an optimization hint, not required for
    /// correctness.
    pub fn load(pointer: Cid, layer: Option<u32>) -> (t: MST)
        ensures
            t@.pointer == pointer@,
            t@.layer == layer,
    {
        MST { pointer, layer }
    }
}

/// One entry of a node: a leaf, or a pointer to a subtree one layer below.
pub enum NodeEntry {
    MST(MST),
    Leaf(Leaf),
}

/// Mathematical image of a [`NodeEntry`].
#[verifier::ext_equal]
pub enum NodeEntryV {
    MST(MstV),
    Leaf(LeafV),
}

impl View for NodeEntry {
    type V = NodeEntryV;

    open spec fn view(&self) -> NodeEntryV {
        match self {
            NodeEntry::MST(t) => NodeEntryV::MST(t@),
            NodeEntry::Leaf(l) => NodeEntryV::Leaf(l@),
        }
    }
}

impl NodeEntry {
    /// Whether this entry is a leaf.
    pub fn is_leaf(&self) -> (r: bool)
        ensures
            r == (self@ is Leaf),
    {
        match self {
            NodeEntry::Leaf(_) => true,
            NodeEntry::MST(_) => false,
        }
    }

    /// Whether this entry is a subtree pointer.
    pub fn is_tree(&self) -> (r: bool)
        ensures
            r == (self@ is MST),
    {
        match self {
            NodeEntry::MST(_) => true,
            NodeEntry::Leaf(_) => false,
        }
    }
}

/// The views of a node's entries, in order.
pub open spec fn entry_views(s: Seq<NodeEntry>) -> Seq<NodeEntryV> {
    s.map_values(|e: NodeEntry| e@)
}

/// One leaf record of a node's canonical (on-disk) form: the count of bytes
/// shared with the preceding leaf's full key, the remaining key suffix
/// bytes, the value pointer, and an optional trailing subtree pointer.
pub struct TreeEntry {
    pub p: u8,
    pub k: Vec<u8>,
    pub v: Cid,
    pub t: Option<Cid>,
}

/// Mathematical image of a [`TreeEntry`].
#[verifier::ext_equal]
pub struct TreeEntryV {
    pub p: u8,
    pub k: Seq<u8>,
    pub v: Seq<u8>,
    pub t: Option<Seq<u8>>,
}

impl View for TreeEntry {
    type V = TreeEntryV;

    open spec fn view(&self) -> TreeEntryV {
        TreeEntryV {
            p: self.p,
            k: self.k@,
            v: self.v@,
            t: match &self.t {
                Some(c) => Some(c@),
                None => None,
            },
        }
    }
}

/// The canonical (on-disk) form of a node: an optional left-most subtree
/// pointer and the ordered leaf records.
pub struct NodeData {
    pub l: Option<Cid>,
    pub e: Vec<TreeEntry>,
}

/// Mathematical image of a [`NodeData`].
#[verifier::ext_equal]
pub struct NodeDataV {
    pub l: Option<Seq<u8>>,
    pub e: Seq<TreeEntryV>,
}

/// The view of an optional content identifier.
pub open spec fn opt_cid_view(o: Option<Cid>) -> Option<Seq<u8>> {
    match o {
        Some(c) => Some(c@),
        None => None,
    }
}

/// The views of a node's leaf records, in order.
pub open spec fn tree_entry_views(s: Seq<TreeEntry>) -> Seq<TreeEntryV> {
    s.map_values(|t: TreeEntry| t@)
}

impl View for NodeData {
    type V = NodeDataV;

    open spec fn view(&self) -> NodeDataV {
        NodeDataV { l: opt_cid_view(self.l), e: tree_entry_views(self.e@) }
    }
}

} // verus!
