//! A minimal Ethereum execution-client core: a verified canonical
//! Recursive Length Prefix (RLP) encoder together with the pure parts of a
//! JSON-RPC front end (method dispatch and response shaping).
//!
//! The RLP module proves that every supported value has exactly one
//! encoding, in the canonical minimal form: integers as minimal big-endian
//! byte strings, the single-byte shortcut below `0x80`, and the 56-byte
//! short/long threshold for both byte strings and lists.

pub mod canonical;
pub mod rlp;
pub mod rpc;
pub mod types;
