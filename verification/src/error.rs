//! Failure kinds surfaced by the MST engine. Validation and structural
//! failures are always fatal to the operation that raised them and are never
//! silently repaired.

use vstd::prelude::*;
use vstd::string::StringExecFns;

verus! {

/// A structural or validation failure raised while building, serializing or
/// deserializing an MST node.
#[derive(Debug, Clone)]
pub enum MstError {
    /// A record key failed validation; carries the offending key.
    InvalidKey(String),
    /// Two subtree pointers stood next to each other in a node's entry list.
    AdjacentSubtrees,
    /// A shared-prefix length did not fit the canonical wire format, or
    /// pointed past the end of the preceding key.
    PrefixTooLong,
    /// A node at layer zero claimed a subtree one layer below it.
    LayerUnderflow,
    /// Stored key bytes did not decode as UTF-8.
    InvalidUtf8,
}

/// Mathematical image of an [`MstError`]: the offending key is kept as a
/// character sequence.
pub enum MstErrorV {
    InvalidKey(Seq<char>),
    AdjacentSubtrees,
    PrefixTooLong,
    LayerUnderflow,
    InvalidUtf8,
}

impl View for MstError {
    type V = MstErrorV;

    open spec fn view(&self) -> MstErrorV {
        match self {
            MstError::InvalidKey(k) => MstErrorV::InvalidKey(k@),
            MstError::AdjacentSubtrees => MstErrorV::AdjacentSubtrees,
            MstError::PrefixTooLong => MstErrorV::PrefixTooLong,
            MstError::LayerUnderflow => MstErrorV::LayerUnderflow,
            MstError::InvalidUtf8 => MstErrorV::InvalidUtf8,
        }
    }
}

impl MstError {
    /// A short human-readable description of the failure.
    pub fn message(&self) -> String {
        match self {
            MstError::InvalidKey(_) => String::from_str("invalid MST key"),
            MstError::AdjacentSubtrees => {
                String::from_str("not a valid node: two subtrees next to each other")
            },
            MstError::PrefixTooLong => String::from_str("prefix length out of range"),
            MstError::LayerUnderflow => String::from_str("subtree below layer zero"),
            MstError::InvalidUtf8 => String::from_str("stored key bytes are not valid UTF-8"),
        }
    }
}

} // verus!
