use tari_dan::hotstuff::models::{
    Command, Decision, ForeignProposal, HotStuffError, BlockId, PoolUpdate, QuorumDecision, TransactionAtom,
    TransactionId, TransactionPoolStage,
};
use tari_dan::hotstuff::vote_decision::{
    decide_on_block, decide_what_to_vote, passing_leader_fees_fit, LockView, PoolRecordView, ProposalItem,
};
use tari_dan::substate_address::SubstateAddress;
use tari_dan::uint::U256;

const BLOCK: BlockId = BlockId { hash: [0xbb; 32] };

fn tx(n: u8) -> TransactionId {
    TransactionId { hash: [n; 32] }
}

fn addr(n: u32) -> SubstateAddress {
    SubstateAddress::from_u256(U256::from_u32(n))
}

fn atom(n: u8, decision: Decision, leader_fee: u64) -> TransactionAtom {
    TransactionAtom { id: tx(n), decision, transaction_fee: 100, leader_fee }
}

fn record(stage: TransactionPoolStage, decision: Decision) -> PoolRecordView {
    PoolRecordView {
        stage,
        current_decision: decision,
        local_decision: decision,
        remote_decision: None,
        transaction_fee: 100,
        all_shards_complete: true,
        is_ready: true,
        distinct_shards: 2,
        calculated_leader_fee: 10,
    }
}

fn locks(inputs: Vec<u32>, outputs: Vec<u32>) -> LockView {
    LockView {
        local_inputs: inputs.into_iter().map(addr).collect(),
        inputs_write_lockable: true,
        input_refs_read_lockable: true,
        outputs: outputs.into_iter().map(addr).collect(),
        outputs_lockable: true,
    }
}

fn prepare(n: u8, inputs: Vec<u32>, outputs: Vec<u32>) -> ProposalItem {
    ProposalItem {
        command: Command::Prepare(atom(n, Decision::Commit, 0)),
        record: Some(record(TransactionPoolStage::New, Decision::Commit)),
        locks: locks(inputs, outputs),
        foreign_proposal_exists: false,
    }
}

fn accept(n: u8, leader_fee: u64) -> ProposalItem {
    ProposalItem {
        command: Command::Accept(atom(n, Decision::Commit, leader_fee)),
        record: Some(record(TransactionPoolStage::LocalPrepared, Decision::Commit)),
        locks: locks(vec![], vec![]),
        foreign_proposal_exists: false,
    }
}

fn is_pending(u: &PoolUpdate, id: TransactionId, stage: TransactionPoolStage, ready: bool) -> bool {
    matches!(u, PoolUpdate::PendingStage { transaction, stage: s, is_ready } if *transaction == id && *s == stage && *is_ready == ready)
}

#[test]
fn block_of_agreeing_commands_is_accepted() {
    let items = vec![prepare(1, vec![1, 2], vec![10]), prepare(2, vec![3], vec![11]), accept(3, 10)];
    let out = decide_what_to_vote(&items, BLOCK, 10).unwrap();
    assert_eq!(out.decision, Some(QuorumDecision::Accept));
    assert_eq!(out.updates.len(), 3);
    assert!(is_pending(&out.updates[0], tx(1), TransactionPoolStage::Prepared, true));
    assert!(is_pending(&out.updates[1], tx(2), TransactionPoolStage::Prepared, true));
    assert!(is_pending(&out.updates[2], tx(3), TransactionPoolStage::AllPrepared, false));
}

#[test]
fn conflicting_input_locks_abort_the_second_transaction() {
    let items = vec![prepare(1, vec![1, 2], vec![10]), prepare(2, vec![2], vec![11]), accept(3, 10)];
    let out = decide_what_to_vote(&items, BLOCK, 10).unwrap();
    assert_eq!(out.decision, None);
    assert_eq!(out.updates.len(), 2);
    assert!(matches!(out.updates[1], PoolUpdate::AbortLocalDecision { transaction } if transaction == tx(2)));
}

#[test]
fn conflicting_output_locks_abort_the_second_transaction() {
    let items = vec![prepare(1, vec![1], vec![10]), prepare(2, vec![2], vec![10])];
    let out = decide_what_to_vote(&items, BLOCK, 0).unwrap();
    assert_eq!(out.decision, None);
    assert!(matches!(out.updates[1], PoolUpdate::AbortLocalDecision { transaction } if transaction == tx(2)));
}

#[test]
fn unlockable_inputs_abort_the_transaction() {
    let mut item = prepare(1, vec![1], vec![10]);
    item.locks.inputs_write_lockable = false;
    let out = decide_what_to_vote(&vec![item], BLOCK, 0).unwrap();
    assert_eq!(out.decision, None);
    assert_eq!(out.updates.len(), 1);
    assert!(matches!(out.updates[0], PoolUpdate::AbortLocalDecision { .. }));
}

#[test]
fn transaction_missing_from_the_pool_gets_no_vote() {
    let mut item = accept(1, 10);
    item.record = None;
    let out = decide_what_to_vote(&vec![prepare(2, vec![1], vec![]), item], BLOCK, 10).unwrap();
    assert_eq!(out.decision, None);
    assert_eq!(out.updates.len(), 1);
}

#[test]
fn leader_fee_total_must_match() {
    let items = vec![accept(1, 10), accept(2, 10)];
    assert_eq!(decide_what_to_vote(&items, BLOCK, 20).unwrap().decision, Some(QuorumDecision::Accept));
    let out = decide_what_to_vote(&items, BLOCK, 21).unwrap();
    assert_eq!(out.decision, None);
    assert_eq!(out.updates.len(), 2);
}

#[test]
fn leader_fee_disagreement_gets_no_vote() {
    let out = decide_what_to_vote(&vec![accept(1, 11)], BLOCK, 11).unwrap();
    assert_eq!(out.decision, None);
    assert_eq!(out.updates.len(), 0);
}

#[test]
fn accept_with_no_shards_is_an_error() {
    let mut item = accept(1, 10);
    item.record.as_mut().unwrap().distinct_shards = 0;
    match decide_what_to_vote(&vec![item], BLOCK, 10) {
        Err(HotStuffError::DistinctShardsIsZero { transaction, block }) => {
            assert_eq!(transaction, tx(1));
            assert_eq!(block, BLOCK);
        },
        _ => panic!("expected an error"),
    }
}

#[test]
fn remote_abort_moves_to_some_prepared() {
    let mut item = accept(1, 10);
    item.record.as_mut().unwrap().remote_decision = Some(Decision::Abort);
    let out = decide_what_to_vote(&vec![item], BLOCK, 10).unwrap();
    assert!(is_pending(&out.updates[0], tx(1), TransactionPoolStage::SomePrepared, false));
}

#[test]
fn stage_disagreement_gets_no_vote() {
    let mut item = prepare(1, vec![1], vec![]);
    item.record.as_mut().unwrap().stage = TransactionPoolStage::LocalPrepared;
    assert_eq!(decide_what_to_vote(&vec![item], BLOCK, 0).unwrap().decision, None);
}

#[test]
fn local_prepared_records_readiness() {
    let item = ProposalItem {
        command: Command::LocalPrepared(atom(4, Decision::Commit, 0)),
        record: Some(PoolRecordView {
            all_shards_complete: false,
            ..record(TransactionPoolStage::Prepared, Decision::Commit)
        }),
        locks: locks(vec![], vec![]),
        foreign_proposal_exists: false,
    };
    let out = decide_what_to_vote(&vec![item], BLOCK, 0).unwrap();
    assert_eq!(out.decision, Some(QuorumDecision::Accept));
    assert!(is_pending(&out.updates[0], tx(4), TransactionPoolStage::LocalPrepared, false));
}

#[test]
fn missing_foreign_proposal_gets_no_vote() {
    let item = ProposalItem {
        command: Command::ForeignProposal(ForeignProposal { bucket: 1, block_id: BlockId { hash: [9; 32] } }),
        record: None,
        locks: locks(vec![], vec![]),
        foreign_proposal_exists: false,
    };
    assert_eq!(decide_what_to_vote(&vec![item.clone()], BLOCK, 0).unwrap().decision, None);
    let present = ProposalItem { foreign_proposal_exists: true, ..item };
    assert_eq!(decide_what_to_vote(&vec![present], BLOCK, 0).unwrap().decision, Some(QuorumDecision::Accept));
}

#[test]
fn fees_beyond_the_first_failing_command_are_not_added() {
    let missing = ProposalItem {
        command: Command::ForeignProposal(ForeignProposal { bucket: 1, block_id: BlockId { hash: [9; 32] } }),
        record: None,
        locks: locks(vec![], vec![]),
        foreign_proposal_exists: false,
    };
    let mut a1 = accept(1, u64::MAX);
    a1.record.as_mut().unwrap().calculated_leader_fee = u64::MAX;
    let mut a2 = accept(2, u64::MAX);
    a2.record.as_mut().unwrap().calculated_leader_fee = u64::MAX;
    let items = vec![missing, a1.clone(), a2.clone()];
    assert!(passing_leader_fees_fit(&items));
    let out = decide_what_to_vote(&items, BLOCK, 0).unwrap();
    assert_eq!(out.decision, None);
    assert!(out.updates.is_empty());
    assert!(!passing_leader_fees_fit(&vec![a1, a2]));
}

#[test]
fn no_vote_on_a_block_that_may_not_be_voted_on() {
    let items = vec![accept(1, 10)];
    let out = decide_on_block(Some(5), 3, 5, true, 4, &items, BLOCK, 10).unwrap();
    assert_eq!(out.decision, None);
    assert!(out.updates.is_empty());
    let out = decide_on_block(Some(5), 3, 6, false, 3, &items, BLOCK, 10).unwrap();
    assert_eq!(out.decision, None);
    assert!(out.updates.is_empty());
    let out = decide_on_block(Some(5), 3, 6, false, 4, &items, BLOCK, 10).unwrap();
    assert_eq!(out.decision, Some(QuorumDecision::Accept));
}
