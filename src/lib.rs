//! Chain-tracking core of a block indexer: block hashes, the canonical
//! header list, block metadata and address encoding.
pub mod hash;
pub mod block;
pub mod meta;
pub mod address;
pub mod source;
