//! Merkle Search Tree (MST) primitives for a personal data server's record
//! repository: record-key validation, the hash fan-out rule that assigns each
//! key a tree layer, canonical node (de)serialization with prefix compression,
//! content-identifier computation for nodes, and signed session-token helpers.

pub mod auth;
pub mod cid;
pub mod codec;
pub mod error;
pub mod fanout;
pub mod keys;
pub mod node;
