use tari_dan::hotstuff::models::{BlockId, HotStuffError, QuorumDecision};
use tari_dan::hotstuff::voting::{
    follow_up_decision, generate_vote_message, last_sent_vote, should_forward_foreignly, should_vote, BlockSummary,
    ValidatorAddress, ValidatorSignature,
};

#[test]
fn votes_only_above_the_last_voted_height() {
    assert!(should_vote(None, 0, 0, true, 0));
    assert!(should_vote(Some(4), 2, 5, true, 0));
    assert!(!should_vote(Some(5), 2, 5, true, 4));
    assert!(!should_vote(Some(6), 2, 5, true, 4));
}

#[test]
fn votes_only_for_blocks_that_respect_the_lock() {
    // Extends the locked block.
    assert!(should_vote(Some(4), 3, 5, true, 3));
    // Does not extend it, but justifies a block above it.
    assert!(should_vote(Some(4), 3, 5, false, 4));
    // Neither.
    assert!(!should_vote(Some(4), 3, 5, false, 3));
    assert!(!should_vote(None, 3, 5, false, 2));
}

#[test]
fn follow_up_of_each_decision() {
    let accept = follow_up_decision(Some(QuorumDecision::Accept));
    assert!(accept.update_nodes && accept.set_last_voted && accept.vote_if_registered);
    let reject = follow_up_decision(Some(QuorumDecision::Reject));
    assert!(!reject.update_nodes && reject.set_last_voted && reject.vote_if_registered);
    let none = follow_up_decision(None);
    assert!(!none.update_nodes && !none.set_last_voted && !none.vote_if_registered);
}

#[test]
fn vote_message_and_its_record() {
    let block = BlockSummary { id: BlockId { hash: [3; 32] }, height: 12, epoch: 4 };
    let vote = generate_vote_message(&block, QuorumDecision::Accept, ValidatorSignature { bytes: vec![1, 2] });
    assert_eq!(vote.epoch, 4);
    assert_eq!(vote.block_height, 12);
    assert_eq!(vote.block_id, BlockId { hash: [3; 32] });
    let sent = last_sent_vote(vote);
    assert_eq!(sent.epoch, 4);
    assert_eq!(sent.block_height, 12);
    assert_eq!(sent.decision, QuorumDecision::Accept);
    assert_eq!(sent.signature.bytes, vec![1, 2]);
}

fn committee(n: u8) -> Vec<ValidatorAddress> {
    (0..n).map(|i| ValidatorAddress { bytes: vec![i, i] }).collect()
}

#[test]
fn leader_and_next_third_forward_foreignly() {
    // Seven members: the leader (index 5) and the two that follow it, going round (6 and 0).
    let c = committee(7);
    let forwarding: Vec<u8> = (0..7u8)
        .filter(|i| should_forward_foreignly(&c, &ValidatorAddress { bytes: vec![*i, *i] }, 5).unwrap())
        .collect();
    assert_eq!(forwarding, vec![0, 5, 6]);
}

#[test]
fn validator_missing_from_its_committee_is_an_error() {
    let c = committee(4);
    let r = should_forward_foreignly(&c, &ValidatorAddress { bytes: vec![9] }, 0);
    assert!(matches!(r, Err(HotStuffError::OurAddressNotInLocalCommittee)));
}
