use tari_dan::hotstuff::block_processing::{
    blocks_to_commit, blocks_to_lock, leaf_command_action, lock_block_actions, on_lock_result, plan_block_execution,
    process_new_leaf, start_prepare_locking, AcceptedTransaction, ExecuteAction, LeafCommandAction, LeafCommandView,
    LockBlockAction, PrepareLockAction, PrepareLockPhase,
};
use tari_dan::hotstuff::models::{
    BlockId, Command, Decision, HotStuffError, TransactionAtom, TransactionId, TransactionPoolStage,
};
use tari_dan::hotstuff::voting::BlockSummary;

fn run_locking(answers: &[bool]) -> Vec<PrepareLockAction> {
    let (mut phase, action) = start_prepare_locking();
    let mut actions = vec![action];
    for a in answers {
        if phase == PrepareLockPhase::Done {
            break;
        }
        let (p, action) = on_lock_result(phase, *a);
        phase = p;
        actions.push(action);
    }
    actions
}

#[test]
fn all_locks_granted_are_kept() {
    assert_eq!(
        run_locking(&[true, true, true]),
        vec![
            PrepareLockAction::TryWriteLockInputs,
            PrepareLockAction::TryReadLockInputRefs,
            PrepareLockAction::TryLockOutputs,
            PrepareLockAction::KeepLocks
        ]
    );
}

#[test]
fn refused_inputs_abort_without_further_locking() {
    assert_eq!(
        run_locking(&[false, true, true]),
        vec![PrepareLockAction::TryWriteLockInputs, PrepareLockAction::AbortLocalDecision]
    );
    assert_eq!(
        run_locking(&[true, false, true]),
        vec![
            PrepareLockAction::TryWriteLockInputs,
            PrepareLockAction::TryReadLockInputRefs,
            PrepareLockAction::AbortLocalDecision
        ]
    );
}

#[test]
fn refused_outputs_release_the_inputs() {
    assert_eq!(
        *run_locking(&[true, true, false]).last().unwrap(),
        PrepareLockAction::UnlockInputsAndAbortLocalDecision
    );
}

fn atom(n: u8, decision: Decision) -> TransactionAtom {
    TransactionAtom { id: TransactionId { hash: [n; 32] }, decision, transaction_fee: 7, leader_fee: 2 }
}

#[test]
fn leaf_commands() {
    let id = TransactionId { hash: [1; 32] };
    assert_eq!(
        leaf_command_action(&Command::Prepare(atom(1, Decision::Commit)), TransactionPoolStage::New, false),
        LeafCommandAction::LockSubstates { transaction: id }
    );
    assert_eq!(
        leaf_command_action(&Command::Prepare(atom(1, Decision::Abort)), TransactionPoolStage::New, true),
        LeafCommandAction::Nothing
    );
    assert_eq!(
        leaf_command_action(&Command::LocalPrepared(atom(1, Decision::Commit)), TransactionPoolStage::LocalPrepared, true),
        LeafCommandAction::MarkLocalPreparedReady { transaction: id }
    );
    assert_eq!(
        leaf_command_action(&Command::LocalPrepared(atom(1, Decision::Commit)), TransactionPoolStage::LocalPrepared, false),
        LeafCommandAction::Nothing
    );
    assert_eq!(
        leaf_command_action(&Command::Accept(atom(1, Decision::Commit)), TransactionPoolStage::LocalPrepared, true),
        LeafCommandAction::Nothing
    );
}

fn chain(heights: &[u64]) -> Vec<BlockSummary> {
    heights
        .iter()
        .map(|h| BlockSummary { id: BlockId { hash: [*h as u8; 32] }, height: *h, epoch: 1 })
        .collect()
}

#[test]
fn blocks_above_the_locked_block_are_locked_newest_first() {
    let locked: Vec<u64> = blocks_to_lock(7, &chain(&[10, 9, 8, 7, 6])).iter().map(|b| b.height).collect();
    assert_eq!(locked, vec![10, 9, 8]);
    assert!(blocks_to_lock(10, &chain(&[10, 9])).is_empty());
}

#[test]
fn blocks_above_the_last_executed_are_committed_oldest_first() {
    let committed: Vec<u64> = blocks_to_commit(7, &chain(&[10, 9, 8, 7, 6])).iter().map(|b| b.height).collect();
    assert_eq!(committed, vec![8, 9, 10]);
}

fn accepted(n: u8, decision: Decision, current: Decision, rejected: bool) -> AcceptedTransaction {
    AcceptedTransaction {
        atom: atom(n, decision),
        current_decision: current,
        transaction_fee: 7,
        reject_reason: if rejected { Some(format!("reason {}", n)) } else { None },
    }
}

#[test]
fn executing_a_block_commits_and_releases() {
    let block = BlockId { hash: [0; 32] };
    let plan = plan_block_execution(
        block,
        &vec![accepted(1, Decision::Commit, Decision::Commit, false), accepted(2, Decision::Abort, Decision::Abort, true)],
    )
    .unwrap();
    let t1 = TransactionId { hash: [1; 32] };
    let t2 = TransactionId { hash: [2; 32] };
    assert_eq!(
        plan.actions,
        vec![
            ExecuteAction::CommitTransaction { transaction: t1 },
            ExecuteAction::UnlockInputs { transaction: t1 },
            ExecuteAction::UnlockOutputs { transaction: t1 },
            ExecuteAction::RemoveFromPool { transaction: t1 },
            ExecuteAction::SetFinalDecision { transaction: t1, decision: Decision::Commit },
            ExecuteAction::RemoveFromPool { transaction: t2 },
            ExecuteAction::SetFinalDecision { transaction: t2, decision: Decision::Abort },
            ExecuteAction::CommitBlock,
        ]
    );
    assert_eq!(plan.total_transaction_fee, 14);
    assert_eq!(plan.total_fee_due, 4);
}

#[test]
fn rejected_transaction_decided_commit_fails_the_block() {
    let block = BlockId { hash: [5; 32] };
    let r = plan_block_execution(
        block,
        &vec![accepted(1, Decision::Abort, Decision::Commit, true), accepted(2, Decision::Commit, Decision::Commit, true)],
    );
    match r {
        Err(HotStuffError::RejectedTransactionCommitDecision { block: b, transaction, reject_reason }) => {
            assert_eq!(b, block);
            assert_eq!(transaction, TransactionId { hash: [2; 32] });
            assert_eq!(reject_reason, "reason 2");
        },
        _ => panic!("expected an error"),
    }
}

#[test]
fn fees_after_a_rejected_commit_are_not_added() {
    let block = BlockId { hash: [5; 32] };
    let mut big = accepted(3, Decision::Commit, Decision::Commit, false);
    big.transaction_fee = u64::MAX;
    let r = plan_block_execution(
        block,
        &vec![accepted(1, Decision::Commit, Decision::Commit, false), accepted(2, Decision::Commit, Decision::Commit, true), big],
    );
    assert!(matches!(r, Err(HotStuffError::RejectedTransactionCommitDecision { .. })));
}

#[test]
fn processing_a_new_leaf_marks_it_processed() {
    let commands = vec![
        LeafCommandView { command: Command::Prepare(atom(1, Decision::Commit)), stage: TransactionPoolStage::New, all_shards_complete: false },
        LeafCommandView {
            command: Command::LocalPrepared(atom(2, Decision::Commit)),
            stage: TransactionPoolStage::LocalPrepared,
            all_shards_complete: true,
        },
    ];
    assert_eq!(
        process_new_leaf(false, &commands),
        vec![
            LeafCommandAction::LockSubstates { transaction: TransactionId { hash: [1; 32] } },
            LeafCommandAction::MarkLocalPreparedReady { transaction: TransactionId { hash: [2; 32] } },
            LeafCommandAction::MarkLeafProcessed,
        ]
    );
    assert!(process_new_leaf(true, &commands).is_empty());
}

#[test]
fn locking_blocks_stores_foreign_proposals_then_confirms_oldest_first() {
    let id = |h: u8| BlockId { hash: [h; 32] };
    assert_eq!(
        lock_block_actions(7, &chain(&[9, 8, 7])),
        vec![
            LockBlockAction::UpsertForeignProposals { block: id(8) },
            LockBlockAction::ConfirmTransitions { block: id(8) },
            LockBlockAction::UpsertForeignProposals { block: id(9) },
            LockBlockAction::ConfirmTransitions { block: id(9) },
        ]
    );
}
