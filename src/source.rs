//! Choice of where blocks are read from during indexing.
use crate::hash::Sha256dHash;
use vstd::prelude::*;

verus! {

/// Where the indexer fetches blocks.
#[derive(Clone, Copy, PartialEq, Eq, Debug, Structural)]
pub enum FetchFrom {
    /// One `getblock` call per block: slower, suited to incremental updates.
    Bitcoind,
    /// The node's `blk*.dat` files: faster, suited to the initial index.
    BlkFiles,
}

/// Reads block files only for an empty store that was not told to use RPC.
pub fn fetch_from(jsonrpc_import: bool, store_is_empty: bool) -> (r: FetchFrom)
    ensures
        r == (if jsonrpc_import || !store_is_empty {
            FetchFrom::Bitcoind
        } else {
            FetchFrom::BlkFiles
        }),
{
    let mut use_rpc = jsonrpc_import;
    if !use_rpc {
        use_rpc = !store_is_empty;
    }
    if use_rpc {
        FetchFrom::Bitcoind
    } else {
        FetchFrom::BlkFiles
    }
}

/// The polling step: index again when the node's best block differs from
/// the tip that was indexed last.
pub fn needs_reindex(best: &Sha256dHash, indexed_tip: &Sha256dHash) -> (r: bool)
    ensures
        r == (best@ != indexed_tip@),
{
    !best.same_as(indexed_tip)
}

} // verus!
