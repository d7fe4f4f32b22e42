//! The consensus values that the vote rules read: transactions as a block proposes them, the pool's
//! record of each, and the decisions that come out.
use crate::substate_address::SubstateAddress;
use vstd::prelude::*;

verus! {

/// The identity of a transaction (its hash).
#[derive(Clone, Copy, Debug, PartialEq, Eq, Hash)]
pub struct TransactionId {
    pub hash: [u8; 32],
}

/// The identity of a block (its hash).
#[derive(Clone, Copy, Debug, PartialEq, Eq, Hash)]
pub struct BlockId {
    pub hash: [u8; 32],
}

/// What a committee decides for a transaction.
#[derive(Clone, Copy, Debug, PartialEq, Eq, Structural, Hash)]
pub enum Decision {
    Commit,
    Abort,
}

/// What a validator votes for a block.
#[derive(Clone, Copy, Debug, PartialEq, Eq, Structural, Hash)]
pub enum QuorumDecision {
    Accept,
    Reject,
}

/// The stage that a transaction has reached in the pool.
#[derive(Clone, Copy, Debug, PartialEq, Eq, Structural, Hash)]
pub enum TransactionPoolStage {
    New,
    Prepared,
    LocalPrepared,
    AllPrepared,
    SomePrepared,
}

impl TransactionPoolStage {
    /// Whether the transaction has reached one of the two final stages.
    pub open spec fn accepted(self) -> bool {
        self is AllPrepared || self is SomePrepared
    }

    pub fn is_accepted(&self) -> (r: bool)
        ensures
            r == self.accepted(),
    {
        match self {
            TransactionPoolStage::AllPrepared | TransactionPoolStage::SomePrepared => true,
            _ => false,
        }
    }
}

/// A transaction as a block proposes it: the leader's decision and fees.
#[derive(Clone, Copy, Debug)]
pub struct TransactionAtom {
    pub id: TransactionId,
    pub decision: Decision,
    pub transaction_fee: u64,
    pub leader_fee: u64,
}

/// A reference to a block of a foreign committee that a block carries.
#[derive(Clone, Copy, Debug)]
pub struct ForeignProposal {
    pub bucket: u32,
    pub block_id: BlockId,
}

/// One command of a proposed block.
#[derive(Clone, Copy, Debug)]
pub enum Command {
    Prepare(TransactionAtom),
    LocalPrepared(TransactionAtom),
    Accept(TransactionAtom),
    ForeignProposal(ForeignProposal),
}

/// A change to the pool's record of a transaction, written in the same store transaction in
/// which the vote is decided.
#[derive(Clone, Copy, Debug)]
pub enum PoolUpdate {
    /// The local decision becomes ABORT.
    AbortLocalDecision { transaction: TransactionId },
    /// The stage that the transaction moves to once the block is locked, and whether the next
    /// stage is then ready to be proposed.
    PendingStage { transaction: TransactionId, stage: TransactionPoolStage, is_ready: bool },
}

/// Errors of the consensus rules that are not a matter of disagreement with the leader.
#[derive(Clone, Debug)]
pub enum HotStuffError {
    /// A transaction that the block accepts has evidence from no shard.
    DistinctShardsIsZero { transaction: TransactionId, block: BlockId },
    /// This validator's address is missing from its own committee.
    OurAddressNotInLocalCommittee,
    /// The committee decided to commit a transaction whose execution was rejected.
    RejectedTransactionCommitDecision {
        block: BlockId,
        transaction: TransactionId,
        reject_reason: String,
    },
}

} // verus!
