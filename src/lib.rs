//! A forked view of an Ethereum chain: blocks up to the fork block come from
//! a cache of the remote chain, later blocks from a local store that grows
//! at its end; with the conversion of JSON-RPC blocks and transactions into
//! their internal form.

use vstd::prelude::*;

pub mod block;
pub mod eth;
pub mod fork;
pub mod forked;
pub mod primitives;

verus! {

} // verus!
