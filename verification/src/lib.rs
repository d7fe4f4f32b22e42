//! Committee sharding of the substate address space, the consensus rules that decide votes, the
//! virtual substates that validators generate, and the building of transactions.
pub mod builder;
pub mod hotstuff;
pub mod shard;
pub mod substate_address;
pub mod uint;
pub mod virtual_substate;
