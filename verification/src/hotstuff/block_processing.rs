//! What follows an ACCEPT vote: the locks that the new leaf's transactions take, the blocks that
//! become locked and committed, and what committing a block does to its transactions.
use crate::hotstuff::models::{BlockId, Command, Decision, HotStuffError, TransactionAtom, TransactionId, TransactionPoolStage};
use crate::hotstuff::voting::BlockSummary;
use vstd::prelude::*;

verus! {

// ---------------------------------------------------------------------------------------------
// Locks taken when a new leaf is processed
// ---------------------------------------------------------------------------------------------
/// Where the locking of a Prepare transaction's substates stands.
#[derive(Clone, Copy, Debug, PartialEq, Eq, Structural)]
pub enum PrepareLockPhase {
    /// Waiting for the write locks on the local inputs.
    LockInputs,
    /// Waiting for the read locks on the local input refs.
    LockInputRefs,
    /// Waiting for the output locks.
    LockOutputs,
    Done,
}

/// The next thing to do with the store while locking a Prepare transaction's substates.
#[derive(Clone, Copy, Debug, PartialEq, Eq, Structural)]
pub enum PrepareLockAction {
    TryWriteLockInputs,
    TryReadLockInputRefs,
    TryLockOutputs,
    /// Every lock was taken: keep them.
    KeepLocks,
    /// The inputs could not all be locked: change the local decision to ABORT.
    AbortLocalDecision,
    /// The outputs could not all be locked: release the input locks and change the local
    /// decision to ABORT.
    UnlockInputsAndAbortLocalDecision,
}

/// The locking of a Prepare transaction's substates begins with the write locks on its inputs.
pub fn start_prepare_locking() -> (r: (PrepareLockPhase, PrepareLockAction))
    ensures
        r == (PrepareLockPhase::LockInputs, PrepareLockAction::TryWriteLockInputs),
{
    (PrepareLockPhase::LockInputs, PrepareLockAction::TryWriteLockInputs)
}

/// One step of locking: the next phase and action, given whether the store granted the locks
/// that the last action asked for.
pub open spec fn prepare_lock_step(phase: PrepareLockPhase, acquired: bool) -> (
    PrepareLockPhase,
    PrepareLockAction,
) {
    match phase {
        PrepareLockPhase::LockInputs => if acquired {
            (PrepareLockPhase::LockInputRefs, PrepareLockAction::TryReadLockInputRefs)
        } else {
            (PrepareLockPhase::Done, PrepareLockAction::AbortLocalDecision)
        },
        PrepareLockPhase::LockInputRefs => if acquired {
            (PrepareLockPhase::LockOutputs, PrepareLockAction::TryLockOutputs)
        } else {
            (PrepareLockPhase::Done, PrepareLockAction::AbortLocalDecision)
        },
        PrepareLockPhase::LockOutputs => if acquired {
            (PrepareLockPhase::Done, PrepareLockAction::KeepLocks)
        } else {
            (PrepareLockPhase::Done, PrepareLockAction::UnlockInputsAndAbortLocalDecision)
        },
        PrepareLockPhase::Done => (PrepareLockPhase::Done, PrepareLockAction::KeepLocks),
    }
}

/// The next phase and action of locking, given whether the store granted the last locks asked
/// for.
pub fn on_lock_result(phase: PrepareLockPhase, acquired: bool) -> (r: (
    PrepareLockPhase,
    PrepareLockAction,
))
    requires
        phase != PrepareLockPhase::Done,
    ensures
        r == prepare_lock_step(phase, acquired),
{
    match phase {
        PrepareLockPhase::LockInputs => if acquired {
            (PrepareLockPhase::LockInputRefs, PrepareLockAction::TryReadLockInputRefs)
        } else {
            (PrepareLockPhase::Done, PrepareLockAction::AbortLocalDecision)
        },
        PrepareLockPhase::LockInputRefs => if acquired {
            (PrepareLockPhase::LockOutputs, PrepareLockAction::TryLockOutputs)
        } else {
            (PrepareLockPhase::Done, PrepareLockAction::AbortLocalDecision)
        },
        _ => if acquired {
            (PrepareLockPhase::Done, PrepareLockAction::KeepLocks)
        } else {
            (PrepareLockPhase::Done, PrepareLockAction::UnlockInputsAndAbortLocalDecision)
        },
    }
}

/// The last action of locking where the store answers `inputs`, `input_refs` and `outputs` to
/// the three requests, each asked only where the ones before were granted.
pub open spec fn prepare_locking_outcome(inputs: bool, input_refs: bool, outputs: bool) -> PrepareLockAction {
    let (p1, a1) = prepare_lock_step(PrepareLockPhase::LockInputs, inputs);
    if p1 is Done {
        a1
    } else {
        let (p2, a2) = prepare_lock_step(p1, input_refs);
        if p2 is Done {
            a2
        } else {
            prepare_lock_step(p2, outputs).1
        }
    }
}

/// Locking a Prepare transaction keeps its locks exactly where all three requests are granted;
/// it releases the input locks only where the inputs and input refs were locked and the outputs
/// were not; in every other case the local decision becomes ABORT.
pub proof fn law_prepare_locking_outcome(inputs: bool, input_refs: bool, outputs: bool)
    ensures
        (prepare_locking_outcome(inputs, input_refs, outputs) == PrepareLockAction::KeepLocks) == (
        inputs && input_refs && outputs),
        (prepare_locking_outcome(inputs, input_refs, outputs)
            == PrepareLockAction::UnlockInputsAndAbortLocalDecision) == (inputs && input_refs
            && !outputs),
        (prepare_locking_outcome(inputs, input_refs, outputs)
            == PrepareLockAction::AbortLocalDecision) == (!inputs || !input_refs),
{
}

/// What processing a new leaf does for one of its commands.
#[derive(Clone, Copy, Debug, PartialEq, Eq)]
pub enum LeafCommandAction {
    /// Lock the transaction's substates (see `start_prepare_locking`).
    LockSubstates { transaction: TransactionId },
    /// Mark the transaction's LocalPrepared stage as ready to propose ACCEPT.
    MarkLocalPreparedReady { transaction: TransactionId },
    Nothing,
    /// Mark the leaf block as processed.
    MarkLeafProcessed,
}

/// What processing a new leaf does for `command` (see `leaf_command_action`).
pub open spec fn leaf_action(
    command: Command,
    stage: TransactionPoolStage,
    all_shards_complete: bool,
) -> LeafCommandAction {
    match command {
        Command::Prepare(t) => if t.decision is Commit {
            LeafCommandAction::LockSubstates { transaction: t.id }
        } else {
            LeafCommandAction::Nothing
        },
        Command::LocalPrepared(t) => if stage is LocalPrepared && all_shards_complete {
            LeafCommandAction::MarkLocalPreparedReady { transaction: t.id }
        } else {
            LeafCommandAction::Nothing
        },
        _ => LeafCommandAction::Nothing,
    }
}

/// Processing a new leaf marks a transaction ready to propose ACCEPT exactly for a LocalPrepared
/// command whose transaction the pool holds at stage LocalPrepared with evidence complete for all
/// shards; it locks substates exactly for a Prepare whose proposed decision is COMMIT; the action
/// names the command's transaction; and it never marks the leaf itself.
pub proof fn law_leaf_actions(command: Command, stage: TransactionPoolStage, all_shards_complete: bool)
    ensures
        (leaf_action(command, stage, all_shards_complete) is MarkLocalPreparedReady) == (
        command is LocalPrepared && stage == TransactionPoolStage::LocalPrepared && all_shards_complete),
        (leaf_action(command, stage, all_shards_complete) is LockSubstates) == (command matches Command::Prepare(
            t,
        ) && t.decision == Decision::Commit),
        leaf_action(command, stage, all_shards_complete) matches LeafCommandAction::MarkLocalPreparedReady {
            transaction,
        } ==> (command matches Command::LocalPrepared(t) && t.id == transaction),
        leaf_action(command, stage, all_shards_complete) matches LeafCommandAction::LockSubstates {
            transaction,
        } ==> (command matches Command::Prepare(t) && t.id == transaction),
        !(leaf_action(command, stage, all_shards_complete) is MarkLeafProcessed),
{
}

/// A command of a new leaf, with the stage that the pool holds for its transaction and whether its
/// evidence is complete for all shards.
#[derive(Clone, Copy, Debug)]
pub struct LeafCommandView {
    pub command: Command,
    pub stage: TransactionPoolStage,
    pub all_shards_complete: bool,
}

/// What processing the new leaf whose commands are `commands` does: nothing at all where the leaf
/// was already processed; otherwise the action of each command in order (see
/// `leaf_command_action`), and then the leaf is marked processed.
pub fn process_new_leaf(already_processed: bool, commands: &Vec<LeafCommandView>) -> (r: Vec<
    LeafCommandAction,
>)
    ensures
        already_processed ==> r@.len() == 0,
        !already_processed ==> {
            &&& r@.len() == commands.len() + 1
            &&& forall|k: int|
                0 <= k < commands.len() ==> r@[k] == leaf_action(
                    (#[trigger] commands@[k]).command,
                    commands@[k].stage,
                    commands@[k].all_shards_complete,
                )
            &&& r@[commands.len() as int] == LeafCommandAction::MarkLeafProcessed
        },
{
    let mut actions: Vec<LeafCommandAction> = Vec::new();
    if already_processed {
        return actions;
    }
    let mut i: usize = 0;
    while i < commands.len()
        invariant
            0 <= i <= commands.len(),
            actions@.len() == i,
            forall|k: int|
                0 <= k < i ==> actions@[k] == leaf_action(
                    (#[trigger] commands@[k]).command,
                    commands@[k].stage,
                    commands@[k].all_shards_complete,
                ),
        decreases commands.len() - i,
    {
        let c = &commands[i];
        actions.push(leaf_command_action(&c.command, c.stage, c.all_shards_complete));
        i = i + 1;
    }
    actions.push(LeafCommandAction::MarkLeafProcessed);
    actions
}

/// What processing a new leaf does for `command`, given the stage that the pool holds for its
/// transaction and whether the evidence is complete for all shards: a Prepare to commit takes its
/// locks; a LocalPrepared whose stage is LocalPrepared with complete evidence becomes ready.
pub fn leaf_command_action(
    command: &Command,
    stage: TransactionPoolStage,
    all_shards_complete: bool,
) -> (r: LeafCommandAction)
    ensures
        r == leaf_action(*command, stage, all_shards_complete),
        r is MarkLocalPreparedReady ==> stage == TransactionPoolStage::LocalPrepared
            && all_shards_complete,
{
    match command {
        Command::Prepare(t) => match t.decision {
            Decision::Commit => LeafCommandAction::LockSubstates { transaction: t.id },
            Decision::Abort => LeafCommandAction::Nothing,
        },
        Command::LocalPrepared(t) => match stage {
            TransactionPoolStage::LocalPrepared => if all_shards_complete {
                LeafCommandAction::MarkLocalPreparedReady { transaction: t.id }
            } else {
                LeafCommandAction::Nothing
            },
            _ => LeafCommandAction::Nothing,
        },
        _ => LeafCommandAction::Nothing,
    }
}

// ---------------------------------------------------------------------------------------------
// Blocks that become locked and committed
// ---------------------------------------------------------------------------------------------
/// How many blocks at the head of `chain` (a block followed by its ancestors) are higher than
/// `height`.
pub open spec fn count_above(chain: Seq<BlockSummary>, height: u64) -> nat
    decreases chain.len(),
{
    if chain.len() == 0 || chain[0].height <= height {
        0
    } else {
        1 + count_above(chain.drop_first(), height)
    }
}

proof fn lemma_count_above(chain: Seq<BlockSummary>, height: u64)
    ensures
        count_above(chain, height) <= chain.len(),
        forall|k: int| 0 <= k < count_above(chain, height) ==> (#[trigger] chain[k]).height > height,
        count_above(chain, height) < chain.len() ==> chain[count_above(chain, height) as int].height
            <= height,
    decreases chain.len(),
{
    if chain.len() > 0 && chain[0].height > height {
        lemma_count_above(chain.drop_first(), height);
        assert forall|k: int| 0 <= k < count_above(chain, height) implies (#[trigger] chain[k]).height
            > height by {
            if k > 0 {
                assert(chain[k] == chain.drop_first()[k - 1]);
            }
        }
    }
}

fn count_blocks_above(chain: &Vec<BlockSummary>, height: u64) -> (r: usize)
    ensures
        r == count_above(chain@, height),
{
    let mut i: usize = 0;
    proof {
        assert(chain@.skip(0) =~= chain@);
    }
    while i < chain.len() && chain[i].height > height
        invariant
            0 <= i <= chain.len(),
            i + count_above(chain@.skip(i as int), height) == count_above(chain@, height),
        decreases chain.len() - i,
    {
        proof {
            assert(chain@.skip(i as int).drop_first() =~= chain@.skip(i + 1));
        }
        i = i + 1;
    }
    i
}

/// The blocks that become locked when the chain's locked block is at `locked_height`: `chain`
/// holds the newly justified block followed by its ancestors, and the blocks above the locked
/// height are locked, newest first. The chain must reach down to the locked height.
pub fn blocks_to_lock(locked_height: u64, chain: &Vec<BlockSummary>) -> (r: Vec<BlockSummary>)
    requires
        count_above(chain@, locked_height) < chain.len(),
    ensures
        r@ == chain@.take(count_above(chain@, locked_height) as int),
{
    let n = count_blocks_above(chain, locked_height);
    let mut r: Vec<BlockSummary> = Vec::new();
    let mut i: usize = 0;
    proof {
        lemma_count_above(chain@, locked_height);
    }
    while i < n
        invariant
            0 <= i <= n <= chain.len(),
            r@ == chain@.take(i as int),
        decreases n - i,
    {
        r.push(chain[i]);
        assert(chain@.take(i + 1) =~= chain@.take(i as int).push(chain@[i as int]));
        i = i + 1;
    }
    r
}

/// The blocks to commit when the last executed block is at `last_executed_height`: `chain` holds
/// the block to commit followed by its ancestors, and the blocks above the last executed height
/// are committed, oldest first. The chain must reach down to the last executed height.
pub fn blocks_to_commit(last_executed_height: u64, chain: &Vec<BlockSummary>) -> (r: Vec<
    BlockSummary,
>)
    requires
        count_above(chain@, last_executed_height) < chain.len(),
    ensures
        r@ == chain@.take(count_above(chain@, last_executed_height) as int).reverse(),
{
    let above = blocks_to_lock(last_executed_height, chain);
    let mut r: Vec<BlockSummary> = Vec::new();
    let mut i: usize = above.len();
    while i > 0
        invariant
            0 <= i <= above.len(),
            r@ == above@.skip(i as int).reverse(),
        decreases i,
    {
        i = i - 1;
        r.push(above[i]);
        assert(above@.skip(i as int).reverse() =~= above@.skip(i + 1).reverse().push(
            above@[i as int],
        ));
    }
    assert(above@.skip(0) =~= above@);
    r
}

/// What locking a block writes, besides moving it into the locked set.
#[derive(Clone, Copy, Debug, PartialEq, Eq)]
pub enum LockBlockAction {
    /// Store the foreign proposals that the block carries.
    UpsertForeignProposals { block: BlockId },
    /// Move the pending stage updates of the block's transactions into their current stages.
    ConfirmTransitions { block: BlockId },
}

/// The writes that locking the blocks of `chain` above `locked_height` makes: oldest block first,
/// its foreign proposals are stored and then its pending stages confirmed. The chain must reach
/// down to the locked height.
pub fn lock_block_actions(locked_height: u64, chain: &Vec<BlockSummary>) -> (r: Vec<LockBlockAction>)
    requires
        count_above(chain@, locked_height) < chain.len(),
    ensures
        r@.len() == 2 * count_above(chain@, locked_height),
        forall|k: int|
            0 <= k < count_above(chain@, locked_height) ==> {
                &&& r@[2 * k] == LockBlockAction::UpsertForeignProposals {
                    block: (#[trigger] chain@.take(count_above(chain@, locked_height) as int).reverse()[k]).id,
                }
                &&& r@[2 * k + 1] == LockBlockAction::ConfirmTransitions {
                    block: chain@.take(count_above(chain@, locked_height) as int).reverse()[k].id,
                }
            },
{
    let blocks = blocks_to_commit(locked_height, chain);
    let mut r: Vec<LockBlockAction> = Vec::new();
    let mut i: usize = 0;
    while i < blocks.len()
        invariant
            0 <= i <= blocks.len(),
            r@.len() == 2 * i,
            forall|k: int|
                0 <= k < i ==> {
                    &&& r@[2 * k] == LockBlockAction::UpsertForeignProposals {
                        block: (#[trigger] blocks@[k]).id,
                    }
                    &&& r@[2 * k + 1] == LockBlockAction::ConfirmTransitions { block: blocks@[k].id }
                },
        decreases blocks.len() - i,
    {
        r.push(LockBlockAction::UpsertForeignProposals { block: blocks[i].id });
        r.push(LockBlockAction::ConfirmTransitions { block: blocks[i].id });
        i = i + 1;
    }
    r
}

/// Whether every block in `chain` is higher than the ones after it, as a block is higher than
/// its ancestors.
pub open spec fn heights_descend(chain: Seq<BlockSummary>) -> bool {
    forall|i: int, j: int| 0 <= i < j < chain.len() ==> chain[i].height > chain[j].height
}

/// Blocks are committed in order of height, each above the last executed block: the commit
/// order of `blocks_to_commit` rises strictly in height.
pub proof fn law_commit_order_rises(last_executed_height: u64, chain: Seq<BlockSummary>, i: int, j: int)
    requires
        heights_descend(chain),
        count_above(chain, last_executed_height) < chain.len(),
        0 <= i < j < count_above(chain, last_executed_height),
    ensures
        chain.take(count_above(chain, last_executed_height) as int).reverse()[i].height < chain.take(
            count_above(chain, last_executed_height) as int,
        ).reverse()[j].height,
        chain.take(count_above(chain, last_executed_height) as int).reverse()[i].height
            > last_executed_height,
{
    lemma_count_above(chain, last_executed_height);
    let n = count_above(chain, last_executed_height) as int;
    let c = chain.take(n).reverse();
    assert(c[i] == chain[n - 1 - i]);
    assert(c[j] == chain[n - 1 - j]);
}

// ---------------------------------------------------------------------------------------------
// Committing a block
// ---------------------------------------------------------------------------------------------
/// What the pool and the executed transaction show of a transaction that a committed block
/// accepts.
#[derive(Clone, Debug)]
pub struct AcceptedTransaction {
    /// The Accept command.
    pub atom: TransactionAtom,
    /// The pool's current decision for the transaction.
    pub current_decision: Decision,
    /// The transaction fee that the pool holds for it.
    pub transaction_fee: u64,
    /// Why executing the transaction was rejected, where it was.
    pub reject_reason: Option<String>,
}

/// A write that committing a block makes, in order.
#[derive(Clone, Copy, Debug, PartialEq, Eq)]
pub enum ExecuteAction {
    /// Apply the transaction's substate changes.
    CommitTransaction { transaction: TransactionId },
    UnlockInputs { transaction: TransactionId },
    UnlockOutputs { transaction: TransactionId },
    RemoveFromPool { transaction: TransactionId },
    SetFinalDecision { transaction: TransactionId, decision: Decision },
    /// Mark the block as committed.
    CommitBlock,
}

/// The writes that committing a block makes, and the fee totals that it reports.
#[derive(Clone, Debug)]
pub struct ExecutionPlan {
    pub actions: Vec<ExecuteAction>,
    pub total_transaction_fee: u64,
    pub total_fee_due: u64,
}

/// A transaction that the committee decided to commit but whose execution was rejected.
pub open spec fn rejected_commit(a: AcceptedTransaction) -> bool {
    a.atom.decision is Commit && a.reject_reason is Some
}

/// The writes for one accepted transaction: its changes are applied where the committee decided
/// to commit; its locks are released where the pool's decision was to commit (only then were
/// they taken); it leaves the pool with its final decision.
pub open spec fn accept_actions(a: AcceptedTransaction) -> Seq<ExecuteAction> {
    let id = a.atom.id;
    (if a.atom.decision is Commit {
        seq![ExecuteAction::CommitTransaction { transaction: id }]
    } else {
        Seq::empty()
    }) + (if a.current_decision is Commit {
        seq![
            ExecuteAction::UnlockInputs { transaction: id },
            ExecuteAction::UnlockOutputs { transaction: id },
        ]
    } else {
        Seq::empty()
    }) + seq![
        ExecuteAction::RemoveFromPool { transaction: id },
        ExecuteAction::SetFinalDecision { transaction: id, decision: a.atom.decision },
    ]
}

/// The writes for the accepted transactions, in order.
pub open spec fn execution_actions(accepts: Seq<AcceptedTransaction>) -> Seq<ExecuteAction>
    decreases accepts.len(),
{
    if accepts.len() == 0 {
        Seq::empty()
    } else {
        execution_actions(accepts.drop_last()) + accept_actions(accepts.last())
    }
}

/// The sum of the transaction fees that the pool holds for the accepted transactions.
pub open spec fn transaction_fee_sum(accepts: Seq<AcceptedTransaction>) -> int
    decreases accepts.len(),
{
    if accepts.len() == 0 {
        0
    } else {
        transaction_fee_sum(accepts.drop_last()) + accepts.last().transaction_fee
    }
}

/// The sum of the leader fees due for the accepted transactions.
pub open spec fn leader_fee_sum(accepts: Seq<AcceptedTransaction>) -> int
    decreases accepts.len(),
{
    if accepts.len() == 0 {
        0
    } else {
        leader_fee_sum(accepts.drop_last()) + accepts.last().atom.leader_fee
    }
}

proof fn lemma_fee_sums_prefix(accepts: Seq<AcceptedTransaction>, i: int)
    requires
        0 <= i <= accepts.len(),
    ensures
        0 <= transaction_fee_sum(accepts.take(i)) <= transaction_fee_sum(accepts),
        0 <= leader_fee_sum(accepts.take(i)) <= leader_fee_sum(accepts),
    decreases accepts.len() - i,
{
    if i < accepts.len() {
        lemma_fee_sums_prefix(accepts, i + 1);
        assert(accepts.take(i + 1).drop_last() =~= accepts.take(i));
    } else {
        assert(accepts.take(i) =~= accepts);
    }
    lemma_fee_sums_nonneg(accepts.take(i));
}

proof fn lemma_fee_sums_nonneg(accepts: Seq<AcceptedTransaction>)
    ensures
        transaction_fee_sum(accepts) >= 0,
        leader_fee_sum(accepts) >= 0,
    decreases accepts.len(),
{
    if accepts.len() > 0 {
        lemma_fee_sums_nonneg(accepts.drop_last());
    }
}

proof fn lemma_seq_concat_contains(a: Seq<ExecuteAction>, b: Seq<ExecuteAction>, x: ExecuteAction)
    ensures
        (a + b).contains(x) == (a.contains(x) || b.contains(x)),
{
    if (a + b).contains(x) {
        let i = choose|i: int| 0 <= i < (a + b).len() && (a + b)[i] == x;
        if i < a.len() {
            assert(a[i] == x);
        } else {
            assert(b[i - a.len()] == x);
        }
    }
    if a.contains(x) {
        let i = choose|i: int| 0 <= i < a.len() && a[i] == x;
        assert((a + b)[i] == x);
    }
    if b.contains(x) {
        let i = choose|i: int| 0 <= i < b.len() && b[i] == x;
        assert((a + b)[a.len() + i] == x);
    }
}

/// Committing a block applies a transaction's substate changes exactly for the accepted
/// transactions whose decision is COMMIT, and releases a transaction's locks exactly for those
/// whose pool decision was COMMIT: an ABORT decision never applies changes.
pub proof fn law_commit_applies_only_committed_transactions(
    accepts: Seq<AcceptedTransaction>,
    t: TransactionId,
)
    ensures
        execution_actions(accepts).contains(ExecuteAction::CommitTransaction { transaction: t })
            <==> exists|k: int|
            0 <= k < accepts.len() && (#[trigger] accepts[k]).atom.id == t && accepts[k].atom.decision
                == Decision::Commit,
        execution_actions(accepts).contains(ExecuteAction::UnlockInputs { transaction: t })
            <==> exists|k: int|
            0 <= k < accepts.len() && (#[trigger] accepts[k]).atom.id == t && accepts[k].current_decision
                == Decision::Commit,
        execution_actions(accepts).contains(ExecuteAction::RemoveFromPool { transaction: t })
            <==> exists|k: int| 0 <= k < accepts.len() && (#[trigger] accepts[k]).atom.id == t,
    decreases accepts.len(),
{
    if accepts.len() > 0 {
        let init = accepts.drop_last();
        let a = accepts.last();
        law_commit_applies_only_committed_transactions(init, t);
        let c = ExecuteAction::CommitTransaction { transaction: t };
        let u = ExecuteAction::UnlockInputs { transaction: t };
        let rm = ExecuteAction::RemoveFromPool { transaction: t };
        lemma_seq_concat_contains(execution_actions(init), accept_actions(a), c);
        lemma_seq_concat_contains(execution_actions(init), accept_actions(a), u);
        lemma_seq_concat_contains(execution_actions(init), accept_actions(a), rm);
        let id = a.atom.id;
        let p1: Seq<ExecuteAction> = if a.atom.decision is Commit {
            seq![ExecuteAction::CommitTransaction { transaction: id }]
        } else {
            Seq::empty()
        };
        let p2: Seq<ExecuteAction> = if a.current_decision is Commit {
            seq![
                ExecuteAction::UnlockInputs { transaction: id },
                ExecuteAction::UnlockOutputs { transaction: id },
            ]
        } else {
            Seq::empty()
        };
        let p3: Seq<ExecuteAction> = seq![
            ExecuteAction::RemoveFromPool { transaction: id },
            ExecuteAction::SetFinalDecision { transaction: id, decision: a.atom.decision },
        ];
        assert(accept_actions(a) == p1 + p2 + p3);
        lemma_seq_concat_contains(p1 + p2, p3, c);
        lemma_seq_concat_contains(p1, p2, c);
        lemma_seq_concat_contains(p1 + p2, p3, u);
        lemma_seq_concat_contains(p1, p2, u);
        lemma_seq_concat_contains(p1 + p2, p3, rm);
        lemma_seq_concat_contains(p1, p2, rm);
        assert(p1.contains(c) == (a.atom.decision == Decision::Commit && id == t)) by {
            if a.atom.decision is Commit {
                assert(p1[0] == ExecuteAction::CommitTransaction { transaction: id });
            }
        }
        assert(p2.contains(u) == (a.current_decision == Decision::Commit && id == t)) by {
            if a.current_decision is Commit {
                assert(p2[0] == ExecuteAction::UnlockInputs { transaction: id });
            }
        }
        assert(p3.contains(rm) == (id == t)) by {
            assert(p3[0] == ExecuteAction::RemoveFromPool { transaction: id });
        }
        assert(!p1.contains(u) && !p1.contains(rm) && !p2.contains(c) && !p2.contains(rm)
            && !p3.contains(c) && !p3.contains(u));
        assert forall|k: int| 0 <= k < init.len() implies #[trigger] init[k] == accepts[k] by {}
        let n = accepts.len() - 1;
        assert(accepts[n] == a);
        if exists|k: int| 0 <= k < accepts.len() && (#[trigger] accepts[k]).atom.id == t && accepts[k].atom.decision == Decision::Commit {
            let k = choose|k: int| 0 <= k < accepts.len() && (#[trigger] accepts[k]).atom.id == t && accepts[k].atom.decision == Decision::Commit;
            if k < n {
                assert(init[k] == accepts[k]);
            }
        }
        if exists|k: int| 0 <= k < accepts.len() && (#[trigger] accepts[k]).atom.id == t && accepts[k].current_decision == Decision::Commit {
            let k = choose|k: int| 0 <= k < accepts.len() && (#[trigger] accepts[k]).atom.id == t && accepts[k].current_decision == Decision::Commit;
            if k < n {
                assert(init[k] == accepts[k]);
            }
        }
        if exists|k: int| 0 <= k < accepts.len() && (#[trigger] accepts[k]).atom.id == t {
            let k = choose|k: int| 0 <= k < accepts.len() && (#[trigger] accepts[k]).atom.id == t;
            if k < n {
                assert(init[k] == accepts[k]);
            }
        }
    } else {
        assert(execution_actions(accepts) =~= Seq::<ExecuteAction>::empty());
    }
}

/// How many of the accepted transactions, from the first, come before the first that the
/// committee decided to commit but whose execution was rejected.
pub open spec fn count_until_rejected(accepts: Seq<AcceptedTransaction>) -> nat
    decreases accepts.len(),
{
    if accepts.len() == 0 || rejected_commit(accepts[0]) {
        0
    } else {
        1 + count_until_rejected(accepts.drop_first())
    }
}

proof fn lemma_count_until_rejected(accepts: Seq<AcceptedTransaction>)
    ensures
        count_until_rejected(accepts) <= accepts.len(),
        forall|k: int|
            0 <= k < count_until_rejected(accepts) ==> !rejected_commit(#[trigger] accepts[k]),
        count_until_rejected(accepts) < accepts.len() ==> rejected_commit(
            accepts[count_until_rejected(accepts) as int],
        ),
    decreases accepts.len(),
{
    if accepts.len() > 0 && !rejected_commit(accepts[0]) {
        lemma_count_until_rejected(accepts.drop_first());
        assert forall|k: int| 0 <= k < count_until_rejected(accepts) implies !rejected_commit(
            #[trigger] accepts[k],
        ) by {
            if k > 0 {
                assert(accepts[k] == accepts.drop_first()[k - 1]);
            }
        }
    }
}

/// Plans the commit of block `block` whose Accept commands are `accepts`, in order: fails at the
/// first transaction that the committee decided to commit but whose execution was rejected
/// (nothing is then written), with its reject reason; otherwise makes the writes of
/// `accept_actions` for each transaction and then marks the block committed, and totals the
/// transaction fees and the leader fees due. The fees of the transactions before the first
/// rejected one must add up to at most `u64::MAX`.
pub fn plan_block_execution(block: BlockId, accepts: &Vec<AcceptedTransaction>) -> (r: Result<
    ExecutionPlan,
    HotStuffError,
>)
    requires
        transaction_fee_sum(accepts@.take(count_until_rejected(accepts@) as int)) <= u64::MAX,
        leader_fee_sum(accepts@.take(count_until_rejected(accepts@) as int)) <= u64::MAX,
    ensures
        r is Ok <==> forall|k: int| 0 <= k < accepts.len() ==> !rejected_commit(#[trigger] accepts@[k]),
        r matches Ok(plan) ==> {
            &&& plan.actions@ == execution_actions(accepts@).push(ExecuteAction::CommitBlock)
            &&& plan.total_transaction_fee == transaction_fee_sum(accepts@)
            &&& plan.total_fee_due == leader_fee_sum(accepts@)
        },
        r matches Err(e) ==> exists|k: int|
            0 <= k < accepts.len() && rejected_commit(#[trigger] accepts@[k]) && (forall|j: int|
                0 <= j < k ==> !rejected_commit(#[trigger] accepts@[j])) && (e matches HotStuffError::RejectedTransactionCommitDecision {
                block: b,
                transaction: t,
                reject_reason: rr,
            } && b == block && t == accepts@[k].atom.id && rr@ == accepts@[k].reject_reason->Some_0@),
{
    let mut actions: Vec<ExecuteAction> = Vec::new();
    let mut total_transaction_fee: u64 = 0;
    let mut total_fee_due: u64 = 0;
    let mut i: usize = 0;
    let ghost n = count_until_rejected(accepts@) as int;
    proof {
        assert(accepts@.take(0) =~= Seq::<AcceptedTransaction>::empty());
        lemma_count_until_rejected(accepts@);
    }
    while i < accepts.len()
        invariant
            0 <= i <= n <= accepts.len(),
            n == count_until_rejected(accepts@),
            n < accepts.len() ==> rejected_commit(accepts@[n]),
            transaction_fee_sum(accepts@.take(n)) <= u64::MAX,
            leader_fee_sum(accepts@.take(n)) <= u64::MAX,
            forall|j: int| 0 <= j < i ==> !rejected_commit(#[trigger] accepts@[j]),
            actions@ == execution_actions(accepts@.take(i as int)),
            total_transaction_fee == transaction_fee_sum(accepts@.take(i as int)),
            total_fee_due == leader_fee_sum(accepts@.take(i as int)),
        decreases accepts.len() - i,
    {
        let a = &accepts[i];
        let id = a.atom.id;
        let commit = match a.atom.decision {
            Decision::Commit => true,
            Decision::Abort => false,
        };
        if commit {
            match &a.reject_reason {
                Some(reason) => {
                    return Err(
                        HotStuffError::RejectedTransactionCommitDecision {
                            block,
                            transaction: id,
                            reject_reason: reason.clone(),
                        },
                    );
                },
                None => {},
            }
        }
        proof {
            assert(i < n);
            assert(accepts@.take(i + 1).drop_last() =~= accepts@.take(i as int));
            assert(accepts@.take(n).take(i + 1) =~= accepts@.take(i + 1));
            lemma_fee_sums_prefix(accepts@.take(n), i + 1);
        }
        total_transaction_fee = total_transaction_fee + a.transaction_fee;
        total_fee_due = total_fee_due + a.atom.leader_fee;
        let ghost before = actions@;
        if commit {
            actions.push(ExecuteAction::CommitTransaction { transaction: id });
        }
        match a.current_decision {
            Decision::Commit => {
                actions.push(ExecuteAction::UnlockInputs { transaction: id });
                actions.push(ExecuteAction::UnlockOutputs { transaction: id });
            },
            Decision::Abort => {},
        }
        actions.push(ExecuteAction::RemoveFromPool { transaction: id });
        actions.push(ExecuteAction::SetFinalDecision { transaction: id, decision: a.atom.decision });
        proof {
            assert(accepts@.take(i + 1).last() == accepts@[i as int]);
            assert(actions@ =~= before + accept_actions(accepts@[i as int]));
        }
        i = i + 1;
    }
    proof {
        assert(accepts@.take(i as int) =~= accepts@);
    }
    actions.push(ExecuteAction::CommitBlock);
    Ok(ExecutionPlan { actions, total_transaction_fee, total_fee_due })
}

} // verus!
