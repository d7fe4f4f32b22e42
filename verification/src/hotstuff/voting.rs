//! Whether to vote on a block, what to do once the vote is decided, the vote message itself, and
//! which validators forward newly locked blocks to foreign committees.
use crate::hotstuff::models::{BlockId, HotStuffError, QuorumDecision};
use vstd::prelude::*;

verus! {

/// A validator's public key (its address in a committee), as bytes.
#[derive(Clone, Debug)]
pub struct ValidatorAddress {
    pub bytes: Vec<u8>,
}

/// A validator's signature, as bytes.
#[derive(Clone, Debug)]
pub struct ValidatorSignature {
    pub bytes: Vec<u8>,
}

/// A vote for a block, sent to the next leader.
#[derive(Clone, Debug)]
pub struct VoteMessage {
    pub epoch: u64,
    pub block_id: BlockId,
    pub block_height: u64,
    pub decision: QuorumDecision,
    pub signature: ValidatorSignature,
}

/// The record of the last vote that this validator sent.
#[derive(Clone, Debug)]
pub struct LastSentVote {
    pub epoch: u64,
    pub block_id: BlockId,
    pub block_height: u64,
    pub decision: QuorumDecision,
    pub signature: ValidatorSignature,
}

/// What a validator knows of a block when it votes on it.
#[derive(Clone, Copy, Debug)]
pub struct BlockSummary {
    pub id: BlockId,
    pub height: u64,
    pub epoch: u64,
}

/// A block is voted on only if it is higher than the last block voted on (a validator that never
/// voted may vote), and it either extends the locked block or its justification is for a block
/// above the locked block.
pub open spec fn should_vote_spec(
    last_voted_height: Option<u64>,
    locked_height: u64,
    block_height: u64,
    extends_locked_block: bool,
    justified_height: u64,
) -> bool {
    &&& match last_voted_height {
        None => true,
        Some(h) => block_height > h,
    }
    &&& (extends_locked_block || justified_height > locked_height)
}

/// Whether to vote on a block of height `block_height`, given the height of the last block voted
/// on (`None` where this validator never voted), the height of the locked block, whether the block
/// extends the locked block, and the height of the block that its QC justifies.
pub fn should_vote(
    last_voted_height: Option<u64>,
    locked_height: u64,
    block_height: u64,
    extends_locked_block: bool,
    justified_height: u64,
) -> (r: bool)
    ensures
        r == should_vote_spec(
            last_voted_height,
            locked_height,
            block_height,
            extends_locked_block,
            justified_height,
        ),
        r <==> ((last_voted_height is None || block_height > last_voted_height->Some_0) && (
        extends_locked_block || justified_height > locked_height)),
{
    let above_last_vote = match last_voted_height {
        None => true,
        Some(h) => block_height > h,
    };
    above_last_vote && (extends_locked_block || justified_height > locked_height)
}

/// What follows once the vote on a block is decided.
#[derive(Clone, Copy, Debug)]
pub struct DecisionFollowUp {
    /// Update the chain: lock and commit the blocks that the new block's QCs justify, and process
    /// the new leaf.
    pub update_nodes: bool,
    /// Record the block as the last one voted on.
    pub set_last_voted: bool,
    /// Send a vote to the next leader, if this validator is registered for the epoch.
    pub vote_if_registered: bool,
}

/// What follows a decision: the chain is updated only for ACCEPT; any decision at all is
/// recorded as the last vote and sent.
pub fn follow_up_decision(decision: Option<QuorumDecision>) -> (r: DecisionFollowUp)
    ensures
        r.update_nodes == (decision == Some(QuorumDecision::Accept)),
        r.set_last_voted == (decision is Some),
        r.vote_if_registered == (decision is Some),
{
    let accepted = match decision {
        Some(QuorumDecision::Accept) => true,
        _ => false,
    };
    DecisionFollowUp {
        update_nodes: accepted,
        set_last_voted: decision.is_some(),
        vote_if_registered: decision.is_some(),
    }
}

/// Once a block has been voted on, no block at the same height or below is voted on again.
pub proof fn law_never_vote_twice_at_a_height(
    voted_height: u64,
    locked_height: u64,
    block_height: u64,
    extends_locked_block: bool,
    justified_height: u64,
)
    requires
        block_height <= voted_height,
    ensures
        !should_vote_spec(
            Some(voted_height),
            locked_height,
            block_height,
            extends_locked_block,
            justified_height,
        ),
{
}

/// Every block higher than the last block voted on (or any block, where this validator never
/// voted) that extends the locked block or justifies a block above it may be voted on.
pub proof fn law_higher_blocks_that_respect_the_lock_are_voted(
    last_voted_height: Option<u64>,
    locked_height: u64,
    block_height: u64,
    extends_locked_block: bool,
    justified_height: u64,
)
    requires
        last_voted_height matches Some(h) ==> block_height > h,
        extends_locked_block || justified_height > locked_height,
    ensures
        should_vote_spec(
            last_voted_height,
            locked_height,
            block_height,
            extends_locked_block,
            justified_height,
        ),
{
}

/// A validator votes only for a block that extends its locked block or that justifies a block
/// above its locked block: a vote never conflicts with the lock.
pub proof fn law_vote_respects_the_lock(
    last_voted_height: Option<u64>,
    locked_height: u64,
    block_height: u64,
    extends_locked_block: bool,
    justified_height: u64,
)
    requires
        should_vote_spec(
            last_voted_height,
            locked_height,
            block_height,
            extends_locked_block,
            justified_height,
        ),
    ensures
        extends_locked_block || justified_height > locked_height,
{
}

/// The vote for `block` with `decision`, signed with `signature`.
pub fn generate_vote_message(
    block: &BlockSummary,
    decision: QuorumDecision,
    signature: ValidatorSignature,
) -> (r: VoteMessage)
    ensures
        r.epoch == block.epoch,
        r.block_id == block.id,
        r.block_height == block.height,
        r.decision == decision,
        r.signature == signature,
{
    VoteMessage {
        epoch: block.epoch,
        block_id: block.id,
        block_height: block.height,
        decision,
        signature,
    }
}

/// The record of having sent `vote`.
pub fn last_sent_vote(vote: VoteMessage) -> (r: LastSentVote)
    ensures
        r.epoch == vote.epoch,
        r.block_id == vote.block_id,
        r.block_height == vote.block_height,
        r.decision == vote.decision,
        r.signature == vote.signature,
{
    LastSentVote {
        epoch: vote.epoch,
        block_id: vote.block_id,
        block_height: vote.block_height,
        decision: vote.decision,
        signature: vote.signature,
    }
}

/// Whether two byte strings are equal.
pub fn same_bytes(a: &Vec<u8>, b: &Vec<u8>) -> (r: bool)
    ensures
        r == (a@ == b@),
{
    if a.len() != b.len() {
        return false;
    }
    let mut i: usize = 0;
    while i < a.len()
        invariant
            a.len() == b.len(),
            0 <= i <= a.len(),
            forall|k: int| 0 <= k < i ==> a@[k] == b@[k],
        decreases a.len() - i,
    {
        if a[i] != b[i] {
            return false;
        }
        i = i + 1;
    }
    assert(a@ =~= b@);
    true
}

/// The index of the first member of `committee` whose key is `key`, if any.
pub open spec fn first_position(committee: Seq<ValidatorAddress>, key: Seq<u8>) -> Option<int> {
    if exists|i: int| 0 <= i < committee.len() && (#[trigger] committee[i]).bytes@ == key {
        Some(
            choose|i: int|
                0 <= i < committee.len() && (#[trigger] committee[i]).bytes@ == key && forall|j: int|
                    0 <= j < i ==> (#[trigger] committee[j]).bytes@ != key,
        )
    } else {
        None
    }
}

/// How far member `my_index` comes after the leader, going round the committee.
pub open spec fn distance_from_leader(my_index: int, leader_index: int, len: int) -> int {
    (my_index + len - leader_index) % len
}

/// The leader and the `len / 3` members after it send a newly locked block to the foreign
/// committees: at least one honest member among them does.
pub open spec fn forwards_foreignly(my_index: int, leader_index: int, len: int) -> bool {
    distance_from_leader(my_index, leader_index, len) <= len / 3
}

/// Whether this validator (`our_address`) is one of those that send a newly locked block to the
/// foreign committees, where `leader_index` is the index of the block's leader in `committee`.
/// Fails where this validator is not in its committee.
pub fn should_forward_foreignly(
    committee: &Vec<ValidatorAddress>,
    our_address: &ValidatorAddress,
    leader_index: u32,
) -> (r: Result<bool, HotStuffError>)
    requires
        committee.len() <= usize::MAX / 2,
        first_position(committee@, our_address.bytes@) matches Some(p) ==> leader_index <= p
            + committee.len(),
    ensures
        match first_position(committee@, our_address.bytes@) {
            None => r == Err::<bool, HotStuffError>(HotStuffError::OurAddressNotInLocalCommittee),
            Some(p) => r == Ok::<bool, HotStuffError>(
                forwards_foreignly(p, leader_index as int, committee.len() as int),
            ),
        },
{
    let mut i: usize = 0;
    while i < committee.len()
        invariant
            0 <= i <= committee.len(),
            committee.len() <= usize::MAX / 2,
            first_position(committee@, our_address.bytes@) matches Some(p) ==> leader_index <= p
                + committee.len(),
            forall|j: int| 0 <= j < i ==> (#[trigger] committee@[j]).bytes@ != our_address.bytes@,
        decreases committee.len() - i,
    {
        if same_bytes(&committee[i].bytes, &our_address.bytes) {
            proof {
                let ghost p = i as int;
                assert(committee@[p].bytes@ == our_address.bytes@);
                let q = first_position(committee@, our_address.bytes@)->Some_0;
                assert(q == p) by {
                    if q < p {
                        assert(committee@[q].bytes@ != our_address.bytes@);
                    }
                    if p < q {
                        assert(committee@[p].bytes@ != our_address.bytes@);
                    }
                }
            }
            let len = committee.len();
            let diff_from_leader = (i + len - leader_index as usize) % len;
            return Ok(diff_from_leader <= len / 3);
        }
        i = i + 1;
    }
    Err(HotStuffError::OurAddressNotInLocalCommittee)
}

/// The leader always forwards a newly locked block to the foreign committees.
pub proof fn law_leader_forwards_foreignly(leader_index: int, len: int)
    requires
        0 <= leader_index < len,
    ensures
        forwards_foreignly(leader_index, leader_index, len),
{
    assert((leader_index + len - leader_index) % len == 0) by {
        vstd::arithmetic::div_mod::lemma_mod_self_0(len);
    }
}

/// The members that forward a newly locked block to the foreign committees are the leader and the
/// `len / 3` members that follow it, going round the committee.
pub proof fn law_forwarders_are_the_leader_and_the_next_third(my_index: int, leader_index: int, len: int)
    requires
        0 <= my_index < len,
        0 <= leader_index < len,
    ensures
        forwards_foreignly(my_index, leader_index, len) <==> (if my_index >= leader_index {
            my_index - leader_index
        } else {
            my_index + len - leader_index
        }) <= len / 3,
{
    let x = my_index + len - leader_index;
    if my_index >= leader_index {
        vstd::arithmetic::div_mod::lemma_mod_add_multiples_vanish(my_index - leader_index, len);
        vstd::arithmetic::div_mod::lemma_small_mod((my_index - leader_index) as nat, len as nat);
    } else {
        vstd::arithmetic::div_mod::lemma_small_mod(x as nat, len as nat);
    }
}

} // verus!
