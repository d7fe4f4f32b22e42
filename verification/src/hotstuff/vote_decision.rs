//! Deciding what to vote on a locally proposed block: every command must agree with the local pool,
//! the transactions that commit must not lock a substate twice, and the leader's fees must add up.
use crate::hotstuff::models::{
    BlockId, Command, Decision, HotStuffError, PoolUpdate, QuorumDecision, TransactionAtom, TransactionId,
    TransactionPoolStage,
};
use crate::hotstuff::voting::{should_vote, should_vote_spec, ValidatorAddress};
use crate::substate_address::SubstateAddress;
use vstd::prelude::*;

verus! {

/// The handler of a locally proposed block that is ready to be voted on, for the validator at
/// `validator_addr`.
#[derive(Clone, Debug)]
pub struct OnReadyToVoteOnLocalBlock {
    validator_addr: ValidatorAddress,
}

impl OnReadyToVoteOnLocalBlock {
    /// The key of the validator that this handler votes for.
    pub closed spec fn validator(self) -> Seq<u8> {
        self.validator_addr.bytes@
    }

    /// A handler for the validator at `validator_addr`.
    pub fn new(validator_addr: ValidatorAddress) -> (r: Self)
        ensures
            r.validator() == validator_addr.bytes@,
    {
        OnReadyToVoteOnLocalBlock { validator_addr }
    }

    /// The address of the validator that this handler votes for.
    pub fn validator_addr(&self) -> (r: &ValidatorAddress)
        ensures
            r.bytes@ == self.validator(),
    {
        &self.validator_addr
    }
}

/// The pool's record of a transaction of the block, as read once the local committee's evidence
/// has been added to it.
#[derive(Clone, Copy, Debug)]
pub struct PoolRecordView {
    pub stage: TransactionPoolStage,
    pub current_decision: Decision,
    pub local_decision: Decision,
    pub remote_decision: Option<Decision>,
    pub transaction_fee: u64,
    pub all_shards_complete: bool,
    pub is_ready: bool,
    /// How many distinct committee shards the evidence spans.
    pub distinct_shards: u64,
    /// The leader fee that the pool calculates for `distinct_shards` shards.
    pub calculated_leader_fee: u64,
}

/// What the store shows of the locks that a Prepare command would take.
#[derive(Clone, Debug)]
pub struct LockView {
    /// The inputs (and filled inputs) of the transaction that the local committee holds.
    pub local_inputs: Vec<SubstateAddress>,
    /// Whether the store could write-lock all of `local_inputs`.
    pub inputs_write_lockable: bool,
    /// Whether the store could read-lock the local input refs.
    pub input_refs_read_lockable: bool,
    /// The outputs that executing the transaction produces.
    pub outputs: Vec<SubstateAddress>,
    /// Whether the store could lock all of `outputs`.
    pub outputs_lockable: bool,
}

/// One command of the block, with what the pool and the store show of it.
#[derive(Clone, Debug)]
pub struct ProposalItem {
    pub command: Command,
    /// The pool's record of the command's transaction; `None` where the pool does not hold it.
    pub record: Option<PoolRecordView>,
    pub locks: LockView,
    /// For a foreign proposal: whether the store holds it.
    pub foreign_proposal_exists: bool,
}

/// The result of deciding: the vote, if any, and the pool updates to write in either case.
#[derive(Clone, Debug)]
pub struct VoteDecisionOutcome {
    pub decision: Option<QuorumDecision>,
    pub updates: Vec<PoolUpdate>,
}

/// What has been gathered while the block's commands are checked in order.
pub struct VoteScan {
    pub locked_inputs: Seq<SubstateAddress>,
    pub locked_outputs: Seq<SubstateAddress>,
    pub total_leader_fee: int,
    pub updates: Seq<PoolUpdate>,
}

/// The outcome of checking one command.
pub enum ScanStep {
    Continue(VoteScan),
    /// Stop without a vote, in this state (whose updates are written).
    Abstain(VoteScan),
    /// Stop with an error: the evidence of this accepted transaction spans no shard.
    Fail(TransactionId, VoteScan),
}

/// Whether some substate occurs in both sequences.
pub open spec fn seqs_intersect(a: Seq<SubstateAddress>, b: Seq<SubstateAddress>) -> bool {
    exists|x: SubstateAddress| a.contains(x) && b.contains(x)
}

pub open spec fn with_update(s: VoteScan, u: PoolUpdate) -> VoteScan {
    VoteScan {
        locked_inputs: s.locked_inputs,
        locked_outputs: s.locked_outputs,
        total_leader_fee: s.total_leader_fee,
        updates: s.updates.push(u),
    }
}

/// A Prepare command: the stage must be New or Prepared, fee and decision must agree; a commit
/// must be able to lock its inputs and outputs, none of which another command of the block locked.
pub open spec fn prepare_step(
    s: VoteScan,
    t: TransactionAtom,
    rec: PoolRecordView,
    locks: LockView,
) -> ScanStep {
    if !(rec.stage is New || rec.stage is Prepared) {
        ScanStep::Abstain(s)
    } else if rec.transaction_fee != t.transaction_fee {
        ScanStep::Abstain(s)
    } else if rec.current_decision != t.decision {
        ScanStep::Abstain(s)
    } else {
        let pending = PoolUpdate::PendingStage {
            transaction: t.id,
            stage: TransactionPoolStage::Prepared,
            is_ready: true,
        };
        if rec.current_decision is Commit {
            let inputs_locked = locks.inputs_write_lockable && !seqs_intersect(
                locks.local_inputs@,
                s.locked_inputs,
            ) && locks.input_refs_read_lockable;
            let outputs_locked = locks.outputs_lockable && !seqs_intersect(
                locks.outputs@,
                s.locked_outputs,
            );
            if !inputs_locked || !outputs_locked {
                ScanStep::Abstain(
                    with_update(s, PoolUpdate::AbortLocalDecision { transaction: t.id }),
                )
            } else {
                ScanStep::Continue(
                    VoteScan {
                        locked_inputs: s.locked_inputs + locks.local_inputs@,
                        locked_outputs: s.locked_outputs + locks.outputs@,
                        total_leader_fee: s.total_leader_fee,
                        updates: s.updates.push(pending),
                    },
                )
            }
        } else {
            ScanStep::Continue(with_update(s, pending))
        }
    }
}

/// A LocalPrepared command: the stage must be Prepared or LocalPrepared, and the leader must agree
/// with the local decision and the fee.
pub open spec fn local_prepared_step(s: VoteScan, t: TransactionAtom, rec: PoolRecordView) -> ScanStep {
    if !(rec.stage is Prepared || rec.stage is LocalPrepared) {
        ScanStep::Abstain(s)
    } else if rec.local_decision != t.decision {
        ScanStep::Abstain(s)
    } else if rec.transaction_fee != t.transaction_fee {
        ScanStep::Abstain(s)
    } else {
        ScanStep::Continue(
            with_update(
                s,
                PoolUpdate::PendingStage {
                    transaction: t.id,
                    stage: TransactionPoolStage::LocalPrepared,
                    is_ready: rec.all_shards_complete,
                },
            ),
        )
    }
}

/// An Accept command: the stage must be LocalPrepared or accepted, decision, evidence and fees must
/// agree, and the leader fee must be the one that the pool calculates.
pub open spec fn accept_step(s: VoteScan, t: TransactionAtom, rec: PoolRecordView) -> ScanStep {
    if !(rec.stage is LocalPrepared || rec.stage.accepted()) {
        ScanStep::Abstain(s)
    } else if rec.current_decision != t.decision {
        ScanStep::Abstain(s)
    } else if !rec.all_shards_complete {
        ScanStep::Abstain(s)
    } else if rec.transaction_fee != t.transaction_fee {
        ScanStep::Abstain(s)
    } else if !rec.is_ready && !rec.all_shards_complete {
        ScanStep::Abstain(s)
    } else if rec.distinct_shards == 0 {
        ScanStep::Fail(t.id, s)
    } else if rec.calculated_leader_fee != t.leader_fee {
        ScanStep::Abstain(s)
    } else {
        let stage = if rec.remote_decision == Some(Decision::Abort) {
            TransactionPoolStage::SomePrepared
        } else {
            TransactionPoolStage::AllPrepared
        };
        ScanStep::Continue(
            VoteScan {
                locked_inputs: s.locked_inputs,
                locked_outputs: s.locked_outputs,
                total_leader_fee: s.total_leader_fee + rec.calculated_leader_fee,
                updates: s.updates.push(
                    PoolUpdate::PendingStage { transaction: t.id, stage, is_ready: false },
                ),
            },
        )
    }
}

/// Checking one command of the block.
pub open spec fn scan_item(s: VoteScan, item: ProposalItem) -> ScanStep {
    match item.command {
        Command::ForeignProposal(_) => if item.foreign_proposal_exists {
            ScanStep::Continue(s)
        } else {
            ScanStep::Abstain(s)
        },
        Command::Prepare(t) => match item.record {
            None => ScanStep::Abstain(s),
            Some(rec) => prepare_step(s, t, rec, item.locks),
        },
        Command::LocalPrepared(t) => match item.record {
            None => ScanStep::Abstain(s),
            Some(rec) => local_prepared_step(s, t, rec),
        },
        Command::Accept(t) => match item.record {
            None => ScanStep::Abstain(s),
            Some(rec) => accept_step(s, t, rec),
        },
    }
}

/// Checking the commands in order, stopping at the first that does not pass.
pub open spec fn scan_from(items: Seq<ProposalItem>, s: VoteScan) -> ScanStep
    decreases items.len(),
{
    if items.len() == 0 {
        ScanStep::Continue(s)
    } else {
        match scan_item(s, items[0]) {
            ScanStep::Continue(next) => scan_from(items.drop_first(), next),
            other => other,
        }
    }
}

pub open spec fn initial_scan() -> VoteScan {
    VoteScan {
        locked_inputs: Seq::empty(),
        locked_outputs: Seq::empty(),
        total_leader_fee: 0,
        updates: Seq::empty(),
    }
}

/// The vote on block `block` with these commands, whose leader claims `block_total_leader_fee`:
/// ACCEPT where every command passes and the leader fees add up to the claimed total, no vote
/// otherwise; with the pool updates that were made on the way.
pub open spec fn vote_decision(items: Seq<ProposalItem>, block: BlockId, block_total_leader_fee: u64) -> Result<
    (Option<QuorumDecision>, Seq<PoolUpdate>),
    HotStuffError,
> {
    match scan_from(items, initial_scan()) {
        ScanStep::Continue(s) => if s.total_leader_fee == block_total_leader_fee {
            Ok((Some(QuorumDecision::Accept), s.updates))
        } else {
            Ok((None, s.updates))
        },
        ScanStep::Abstain(s) => Ok((None, s.updates)),
        ScanStep::Fail(id, _) => Err(HotStuffError::DistinctShardsIsZero { transaction: id, block }),
    }
}

/// The state in which checking the commands stopped, or finished.
pub open spec fn stop_state(r: ScanStep) -> VoteScan {
    match r {
        ScanStep::Continue(s) => s,
        ScanStep::Abstain(s) => s,
        ScanStep::Fail(_, s) => s,
    }
}

/// The sum of the leader fees of the Accept commands that pass, up to where checking the block's
/// commands stops: the sum that deciding adds up.
pub open spec fn passing_leader_fee_total(items: Seq<ProposalItem>) -> int {
    stop_state(scan_from(items, initial_scan())).total_leader_fee
}

/// The leader fee that a command proposes, where it is an Accept.
pub open spec fn proposed_leader_fee(item: ProposalItem) -> int {
    match item.command {
        Command::Accept(t) => t.leader_fee as int,
        _ => 0,
    }
}

/// The sum of the leader fees that the block's Accept commands propose.
pub open spec fn accept_fee_sum(items: Seq<ProposalItem>) -> int
    decreases items.len(),
{
    if items.len() == 0 {
        0
    } else {
        accept_fee_sum(items.drop_last()) + proposed_leader_fee(items.last())
    }
}

/// Whether some substate occurs in both `a` and `b`.
fn any_shared(a: &Vec<SubstateAddress>, b: &Vec<SubstateAddress>) -> (r: bool)
    ensures
        r == seqs_intersect(a@, b@),
{
    let mut i: usize = 0;
    while i < a.len()
        invariant
            0 <= i <= a.len(),
            forall|k: int, l: int| 0 <= k < i && 0 <= l < b.len() ==> a@[k] != b@[l],
        decreases a.len() - i,
    {
        let mut j: usize = 0;
        while j < b.len()
            invariant
                0 <= i < a.len(),
                0 <= j <= b.len(),
                forall|l: int| 0 <= l < j ==> a@[i as int] != b@[l],
            decreases b.len() - j,
        {
            if a[i] == b[j] {
                assert(a@.contains(a@[i as int]) && b@.contains(a@[i as int]));
                return true;
            }
            j = j + 1;
        }
        i = i + 1;
    }
    assert forall|x: SubstateAddress| !(a@.contains(x) && b@.contains(x)) by {
        if a@.contains(x) && b@.contains(x) {
            let k = choose|k: int| 0 <= k < a.len() && a@[k] == x;
            let l = choose|l: int| 0 <= l < b.len() && b@[l] == x;
            assert(a@[k] != b@[l]);
        }
    }
    false
}

/// Appends every element of `more` to `acc`.
fn append_all(acc: &mut Vec<SubstateAddress>, more: &Vec<SubstateAddress>)
    ensures
        final(acc)@ == old(acc)@ + more@,
{
    let mut i: usize = 0;
    while i < more.len()
        invariant
            0 <= i <= more.len(),
            acc@ == old(acc)@ + more@.take(i as int),
        decreases more.len() - i,
    {
        acc.push(more[i]);
        assert(more@.take(i + 1) =~= more@.take(i as int).push(more@[i as int]));
        i = i + 1;
    }
    assert(more@.take(more.len() as int) =~= more@);
}

/// How checking a block's commands ended.
enum ScanEnd {
    Completed,
    Abstained,
    Failed(TransactionId),
}

/// The end of checking a block's commands, the leader fees added up so far and the pool updates
/// made so far.
struct ScanRun {
    end: ScanEnd,
    total: u128,
    updates: Vec<PoolUpdate>,
}

spec fn run_matches(run: ScanRun, step: ScanStep) -> bool {
    &&& run.total == stop_state(step).total_leader_fee
    &&& run.updates@ == stop_state(step).updates
    &&& match step {
        ScanStep::Continue(_) => run.end is Completed,
        ScanStep::Abstain(_) => run.end is Abstained,
        ScanStep::Fail(id, _) => run.end == ScanEnd::Failed(id),
    }
}

/// Checks the block's commands in order (see `scan_from`), adding the leader fees in a number wide
/// enough for any block.
fn scan_block(items: &Vec<ProposalItem>) -> (run: ScanRun)
    ensures
        run_matches(run, scan_from(items@, initial_scan())),
{
    let mut locked_inputs: Vec<SubstateAddress> = Vec::new();
    let mut locked_outputs: Vec<SubstateAddress> = Vec::new();
    let mut total_leader_fee: u128 = 0;
    let mut updates: Vec<PoolUpdate> = Vec::new();
    let mut i: usize = 0;
    proof {
        assert(items@.skip(0) =~= items@);
    }
    while i < items.len()
        invariant
            0 <= i <= items.len(),
            total_leader_fee <= i * 0xffff_ffff_ffff_ffffu128,
            scan_from(
                items@.skip(i as int),
                VoteScan {
                    locked_inputs: locked_inputs@,
                    locked_outputs: locked_outputs@,
                    total_leader_fee: total_leader_fee as int,
                    updates: updates@,
                },
            ) == scan_from(items@, initial_scan()),
        decreases items.len() - i,
    {
        let ghost s = VoteScan {
            locked_inputs: locked_inputs@,
            locked_outputs: locked_outputs@,
            total_leader_fee: total_leader_fee as int,
            updates: updates@,
        };
        let item = &items[i];
        proof {
            assert(items@.skip(i as int)[0] == items@[i as int]);
            assert(items@.skip(i as int).drop_first() =~= items@.skip(i + 1));
        }
        match item.command {
            Command::ForeignProposal(_) => {
                if !item.foreign_proposal_exists {
                    return ScanRun { end: ScanEnd::Abstained, total: total_leader_fee, updates };
                }
            },
            Command::Prepare(t) => {
                let rec = match item.record {
                    None => {
                        return ScanRun { end: ScanEnd::Abstained, total: total_leader_fee, updates };
                    },
                    Some(rec) => rec,
                };
                let stage_ok = match rec.stage {
                    TransactionPoolStage::New | TransactionPoolStage::Prepared => true,
                    _ => false,
                };
                if !stage_ok || rec.transaction_fee != t.transaction_fee || rec.current_decision
                    != t.decision {
                    return ScanRun { end: ScanEnd::Abstained, total: total_leader_fee, updates };
                }
                if rec.current_decision == Decision::Commit {
                    let inputs_locked = item.locks.inputs_write_lockable && !any_shared(
                        &item.locks.local_inputs,
                        &locked_inputs,
                    ) && item.locks.input_refs_read_lockable;
                    let outputs_locked = inputs_locked && item.locks.outputs_lockable
                        && !any_shared(&item.locks.outputs, &locked_outputs);
                    if !outputs_locked {
                        updates.push(PoolUpdate::AbortLocalDecision { transaction: t.id });
                        return ScanRun { end: ScanEnd::Abstained, total: total_leader_fee, updates };
                    }
                    append_all(&mut locked_inputs, &item.locks.local_inputs);
                    append_all(&mut locked_outputs, &item.locks.outputs);
                }
                updates.push(
                    PoolUpdate::PendingStage {
                        transaction: t.id,
                        stage: TransactionPoolStage::Prepared,
                        is_ready: true,
                    },
                );
            },
            Command::LocalPrepared(t) => {
                let rec = match item.record {
                    None => {
                        return ScanRun { end: ScanEnd::Abstained, total: total_leader_fee, updates };
                    },
                    Some(rec) => rec,
                };
                let stage_ok = match rec.stage {
                    TransactionPoolStage::Prepared | TransactionPoolStage::LocalPrepared => true,
                    _ => false,
                };
                if !stage_ok || rec.local_decision != t.decision || rec.transaction_fee
                    != t.transaction_fee {
                    return ScanRun { end: ScanEnd::Abstained, total: total_leader_fee, updates };
                }
                updates.push(
                    PoolUpdate::PendingStage {
                        transaction: t.id,
                        stage: TransactionPoolStage::LocalPrepared,
                        is_ready: rec.all_shards_complete,
                    },
                );
            },
            Command::Accept(t) => {
                let rec = match item.record {
                    None => {
                        return ScanRun { end: ScanEnd::Abstained, total: total_leader_fee, updates };
                    },
                    Some(rec) => rec,
                };
                let stage_ok = match rec.stage {
                    TransactionPoolStage::LocalPrepared => true,
                    _ => rec.stage.is_accepted(),
                };
                if !stage_ok || rec.current_decision != t.decision || !rec.all_shards_complete
                    || rec.transaction_fee != t.transaction_fee || (!rec.is_ready
                    && !rec.all_shards_complete) {
                    return ScanRun { end: ScanEnd::Abstained, total: total_leader_fee, updates };
                }
                if rec.distinct_shards == 0 {
                    return ScanRun { end: ScanEnd::Failed(t.id), total: total_leader_fee, updates };
                }
                if rec.calculated_leader_fee != t.leader_fee {
                    return ScanRun { end: ScanEnd::Abstained, total: total_leader_fee, updates };
                }
                total_leader_fee = total_leader_fee + rec.calculated_leader_fee as u128;
                let remote_abort = match rec.remote_decision {
                    Some(Decision::Abort) => true,
                    _ => false,
                };
                let stage = if remote_abort {
                    TransactionPoolStage::SomePrepared
                } else {
                    TransactionPoolStage::AllPrepared
                };
                updates.push(
                    PoolUpdate::PendingStage { transaction: t.id, stage, is_ready: false },
                );
            },
        }
        i = i + 1;
    }
    proof {
        assert(items@.skip(i as int) =~= Seq::<ProposalItem>::empty());
    }
    ScanRun { end: ScanEnd::Completed, total: total_leader_fee, updates }
}


/// Whether the leader fees of the Accept commands that pass, up to where checking the block's
/// commands stops, add up to at most `u64::MAX`.
pub fn passing_leader_fees_fit(items: &Vec<ProposalItem>) -> (r: bool)
    ensures
        r == (passing_leader_fee_total(items@) <= u64::MAX),
{
    let run = scan_block(items);
    run.total <= 0xffff_ffff_ffff_ffffu128
}

/// Decides on the locally proposed block `block`: a block that may not be voted on (see
/// `should_vote`) gets no vote and changes nothing; any other is decided by
/// `decide_what_to_vote`.
pub fn decide_on_block(
    last_voted_height: Option<u64>,
    locked_height: u64,
    block_height: u64,
    extends_locked_block: bool,
    justified_height: u64,
    items: &Vec<ProposalItem>,
    block: BlockId,
    block_total_leader_fee: u64,
) -> (r: Result<VoteDecisionOutcome, HotStuffError>)
    requires
        should_vote_spec(
            last_voted_height,
            locked_height,
            block_height,
            extends_locked_block,
            justified_height,
        ) ==> passing_leader_fee_total(items@) <= u64::MAX,
    ensures
        !should_vote_spec(
            last_voted_height,
            locked_height,
            block_height,
            extends_locked_block,
            justified_height,
        ) ==> (r matches Ok(o) && o.decision is None && o.updates@.len() == 0),
        should_vote_spec(
            last_voted_height,
            locked_height,
            block_height,
            extends_locked_block,
            justified_height,
        ) ==> match (r, vote_decision(items@, block, block_total_leader_fee)) {
            (Ok(o), Ok((d, u))) => o.decision == d && o.updates@ == u,
            (Err(e), Err(f)) => e == f,
            _ => false,
        },
{
    if should_vote(last_voted_height, locked_height, block_height, extends_locked_block, justified_height) {
        decide_what_to_vote(items, block, block_total_leader_fee)
    } else {
        Ok(VoteDecisionOutcome { decision: None, updates: Vec::new() })
    }
}

/// Decides the vote on the locally proposed block `block` from its commands and what the pool and
/// the store show of them, in the order of the commands: the first command that disagrees with
/// the local view ends the decision without a vote; a transaction that cannot take its locks has
/// its local decision changed to ABORT; every command that passes records the stage it moves to.
/// The leader fees of the Accept commands that pass must add up to at most `u64::MAX`.
pub fn decide_what_to_vote(items: &Vec<ProposalItem>, block: BlockId, block_total_leader_fee: u64) -> (r: Result<
    VoteDecisionOutcome,
    HotStuffError,
>)
    requires
        passing_leader_fee_total(items@) <= u64::MAX,
    ensures
        match (r, vote_decision(items@, block, block_total_leader_fee)) {
            (Ok(o), Ok((d, u))) => o.decision == d && o.updates@ == u,
            (Err(e), Err(f)) => e == f,
            _ => false,
        },
{
    let run = scan_block(items);
    match run.end {
        ScanEnd::Completed => {
            let decision = if run.total == block_total_leader_fee as u128 {
                Some(QuorumDecision::Accept)
            } else {
                None
            };
            Ok(VoteDecisionOutcome { decision, updates: run.updates })
        },
        ScanEnd::Abstained => Ok(VoteDecisionOutcome { decision: None, updates: run.updates }),
        ScanEnd::Failed(id) => Err(HotStuffError::DistinctShardsIsZero { transaction: id, block }),
    }
}

/// Whether the command is a Prepare of a transaction that the pool decided to commit: one that
/// takes locks on its inputs and outputs.
pub open spec fn commits_with_locks(item: ProposalItem) -> bool {
    match item.command {
        Command::Prepare(_) => match item.record {
            Some(rec) => rec.current_decision is Commit,
            None => false,
        },
        _ => false,
    }
}

/// Whether the pool (or, for a foreign proposal, the store) knows the command's subject.
pub open spec fn item_known(item: ProposalItem) -> bool {
    match item.command {
        Command::ForeignProposal(_) => item.foreign_proposal_exists,
        _ => item.record is Some,
    }
}

/// The checks that a command passes in a block voted ACCEPT, on its fields.
spec fn item_agrees(item: ProposalItem) -> bool {
    match item.command {
        Command::Prepare(t) => match item.record {
            Some(rec) => rec.current_decision == t.decision && rec.transaction_fee == t.transaction_fee
                && (rec.stage is New || rec.stage is Prepared),
            None => false,
        },
        Command::LocalPrepared(t) => match item.record {
            Some(rec) => rec.local_decision == t.decision && rec.transaction_fee == t.transaction_fee
                && (rec.stage is Prepared || rec.stage is LocalPrepared),
            None => false,
        },
        Command::Accept(t) => match item.record {
            Some(rec) => rec.current_decision == t.decision && rec.transaction_fee == t.transaction_fee
                && rec.all_shards_complete && rec.distinct_shards > 0 && rec.calculated_leader_fee
                == t.leader_fee,
            None => false,
        },
        Command::ForeignProposal(_) => item.foreign_proposal_exists,
    }
}

/// A block is voted ACCEPT only where the leader agrees with the local pool on every transaction:
/// a Prepare proposes the pool's current decision and fee from stage New or Prepared; a
/// LocalPrepared proposes the pool's local decision and fee from stage Prepared or LocalPrepared;
/// an Accept proposes the pool's current decision, fee and calculated leader fee, with evidence
/// complete for all shards.
pub proof fn law_accepted_block_agrees_with_the_leader(
    items: Seq<ProposalItem>,
    block: BlockId,
    block_total_leader_fee: u64,
    k: int,
)
    requires
        vote_decision(items, block, block_total_leader_fee) matches Ok((Some(QuorumDecision::Accept), _)),
        0 <= k < items.len(),
    ensures
        items[k].command matches Command::Prepare(t) ==> (items[k].record matches Some(rec) && (
        rec.current_decision == t.decision && rec.transaction_fee == t.transaction_fee && (
        rec.stage is New || rec.stage is Prepared))),
        items[k].command matches Command::LocalPrepared(t) ==> (items[k].record matches Some(rec) && (
        rec.local_decision == t.decision && rec.transaction_fee == t.transaction_fee && (
        rec.stage is Prepared || rec.stage is LocalPrepared))),
        items[k].command matches Command::Accept(t) ==> (items[k].record matches Some(rec) && (
        rec.current_decision == t.decision && rec.transaction_fee == t.transaction_fee
            && rec.all_shards_complete && rec.calculated_leader_fee == t.leader_fee)),
        items[k].command is ForeignProposal ==> items[k].foreign_proposal_exists,
{
    lemma_scan_continue(items, initial_scan());
    assert(item_agrees(items[k]));
}

proof fn lemma_intersect_symmetric(a: Seq<SubstateAddress>, b: Seq<SubstateAddress>)
    ensures
        seqs_intersect(a, b) == seqs_intersect(b, a),
{
    if seqs_intersect(a, b) {
        let x = choose|x: SubstateAddress| a.contains(x) && b.contains(x);
        assert(b.contains(x) && a.contains(x));
    }
    if seqs_intersect(b, a) {
        let x = choose|x: SubstateAddress| b.contains(x) && a.contains(x);
        assert(a.contains(x) && b.contains(x));
    }
}

proof fn lemma_intersect_concat(a: Seq<SubstateAddress>, b: Seq<SubstateAddress>, c: Seq<SubstateAddress>)
    ensures
        seqs_intersect(a, b + c) == (seqs_intersect(a, b) || seqs_intersect(a, c)),
{
    if seqs_intersect(a, b + c) {
        let x = choose|x: SubstateAddress| a.contains(x) && (b + c).contains(x);
        let i = choose|i: int| 0 <= i < (b + c).len() && (b + c)[i] == x;
        if i < b.len() {
            assert(b[i] == x);
            assert(a.contains(x) && b.contains(x));
        } else {
            assert(c[i - b.len()] == x);
            assert(a.contains(x) && c.contains(x));
        }
    }
    if seqs_intersect(a, b) {
        let x = choose|x: SubstateAddress| a.contains(x) && b.contains(x);
        let i = choose|i: int| 0 <= i < b.len() && b[i] == x;
        assert((b + c)[i] == x);
        assert(a.contains(x) && (b + c).contains(x));
    }
    if seqs_intersect(a, c) {
        let x = choose|x: SubstateAddress| a.contains(x) && c.contains(x);
        let i = choose|i: int| 0 <= i < c.len() && c[i] == x;
        assert((b + c)[b.len() + i] == x);
        assert(a.contains(x) && (b + c).contains(x));
    }
}

proof fn lemma_accept_fee_sum_first(items: Seq<ProposalItem>)
    requires
        items.len() > 0,
    ensures
        accept_fee_sum(items) == proposed_leader_fee(items[0]) + accept_fee_sum(items.drop_first()),
    decreases items.len(),
{
    if items.len() == 1 {
        assert(items.drop_last() =~= Seq::<ProposalItem>::empty());
        assert(items.drop_first() =~= Seq::<ProposalItem>::empty());
    } else {
        lemma_accept_fee_sum_first(items.drop_last());
        assert(items.drop_last().drop_first() =~= items.drop_first().drop_last());
        assert(items.drop_first().last() == items.last());
    }
}

/// What a scan that gets through all of `items` from state `s` shows of them.
proof fn lemma_scan_continue(items: Seq<ProposalItem>, s: VoteScan)
    requires
        scan_from(items, s) is Continue,
    ensures
        (scan_from(items, s)->Continue_0).total_leader_fee == s.total_leader_fee + accept_fee_sum(
            items,
        ),
        (scan_from(items, s)->Continue_0).updates.len() >= s.updates.len(),
        (scan_from(items, s)->Continue_0).updates.take(s.updates.len() as int) == s.updates,
        forall|k: int|
            s.updates.len() <= k < (scan_from(items, s)->Continue_0).updates.len() ==> (#[trigger] (
            scan_from(items, s)->Continue_0).updates[k]) is PendingStage,
        forall|k: int| 0 <= k < items.len() ==> item_known(#[trigger] items[k]),
        forall|k: int| 0 <= k < items.len() ==> item_agrees(#[trigger] items[k]),
        forall|k: int|
            0 <= k < items.len() && commits_with_locks(#[trigger] items[k]) ==> {
                &&& items[k].locks.inputs_write_lockable
                &&& items[k].locks.input_refs_read_lockable
                &&& items[k].locks.outputs_lockable
                &&& !seqs_intersect(items[k].locks.local_inputs@, s.locked_inputs)
                &&& !seqs_intersect(items[k].locks.outputs@, s.locked_outputs)
            },
        forall|k: int, l: int|
            0 <= k < l < items.len() && commits_with_locks(#[trigger] items[k]) && commits_with_locks(
                #[trigger] items[l],
            ) ==> {
                &&& !seqs_intersect(items[k].locks.local_inputs@, items[l].locks.local_inputs@)
                &&& !seqs_intersect(items[k].locks.outputs@, items[l].locks.outputs@)
            },
    decreases items.len(),
{
    if items.len() > 0 {
        let first = items[0];
        let tail = items.drop_first();
        let next = scan_item(s, first)->Continue_0;
        lemma_scan_continue(tail, next);
        lemma_accept_fee_sum_first(items);
        let e = scan_from(items, s)->Continue_0;
        assert(e == scan_from(tail, next)->Continue_0);
        assert(next.updates.len() >= s.updates.len());
        assert(next.updates.take(s.updates.len() as int) =~= s.updates);
        assert(e.updates.take(s.updates.len() as int) =~= s.updates) by {
            assert(e.updates.take(next.updates.len() as int) == next.updates);
        }
        assert forall|k: int| s.updates.len() <= k < e.updates.len() implies (#[trigger] e.updates[k]) is PendingStage by {
            if k >= next.updates.len() {
            } else {
                assert(e.updates[k] == e.updates.take(next.updates.len() as int)[k]);
            }
        }
        assert forall|k: int| 0 <= k < items.len() implies item_known(#[trigger] items[k]) by {
            if k > 0 {
                assert(items[k] == tail[k - 1]);
            }
        }
        assert forall|k: int| 0 <= k < items.len() implies item_agrees(#[trigger] items[k]) by {
            if k > 0 {
                assert(items[k] == tail[k - 1]);
            }
        }
        assert forall|k: int|
            0 <= k < items.len() && commits_with_locks(#[trigger] items[k]) implies {
            &&& items[k].locks.inputs_write_lockable
            &&& items[k].locks.input_refs_read_lockable
            &&& items[k].locks.outputs_lockable
            &&& !seqs_intersect(items[k].locks.local_inputs@, s.locked_inputs)
            &&& !seqs_intersect(items[k].locks.outputs@, s.locked_outputs)
        } by {
            if k > 0 {
                assert(items[k] == tail[k - 1]);
                if commits_with_locks(first) {
                    lemma_intersect_concat(items[k].locks.local_inputs@, s.locked_inputs, first.locks.local_inputs@);
                    lemma_intersect_concat(items[k].locks.outputs@, s.locked_outputs, first.locks.outputs@);
                }
            }
        }
        assert forall|k: int, l: int|
            0 <= k < l < items.len() && commits_with_locks(#[trigger] items[k]) && commits_with_locks(
                #[trigger] items[l],
            ) implies {
            &&& !seqs_intersect(items[k].locks.local_inputs@, items[l].locks.local_inputs@)
            &&& !seqs_intersect(items[k].locks.outputs@, items[l].locks.outputs@)
        } by {
            assert(items[l] == tail[l - 1]);
            if k > 0 {
                assert(items[k] == tail[k - 1]);
            } else {
                lemma_intersect_concat(items[l].locks.local_inputs@, s.locked_inputs, first.locks.local_inputs@);
                lemma_intersect_concat(items[l].locks.outputs@, s.locked_outputs, first.locks.outputs@);
                lemma_intersect_symmetric(items[l].locks.local_inputs@, first.locks.local_inputs@);
                lemma_intersect_symmetric(items[l].locks.outputs@, first.locks.outputs@);
            }
        }
    }
}

/// A block that is voted ACCEPT never has two of its committing transactions take the same
/// input lock or the same output lock.
pub proof fn law_accepted_block_locks_nothing_twice(
    items: Seq<ProposalItem>,
    block: BlockId,
    block_total_leader_fee: u64,
    k: int,
    l: int,
)
    requires
        vote_decision(items, block, block_total_leader_fee) matches Ok((Some(QuorumDecision::Accept), _)),
        0 <= k < l < items.len(),
        commits_with_locks(items[k]),
        commits_with_locks(items[l]),
    ensures
        !seqs_intersect(items[k].locks.local_inputs@, items[l].locks.local_inputs@),
        !seqs_intersect(items[k].locks.outputs@, items[l].locks.outputs@),
{
    lemma_scan_continue(items, initial_scan());
}

/// In a block that is voted ACCEPT, every command's transaction is known to the pool, every
/// foreign proposal is in the store, and every committing transaction could take all its locks.
pub proof fn law_accepted_block_fully_known(items: Seq<ProposalItem>, block: BlockId, block_total_leader_fee: u64, k: int)
    requires
        vote_decision(items, block, block_total_leader_fee) matches Ok((Some(QuorumDecision::Accept), _)),
        0 <= k < items.len(),
    ensures
        item_known(items[k]),
        commits_with_locks(items[k]) ==> items[k].locks.inputs_write_lockable
            && items[k].locks.input_refs_read_lockable && items[k].locks.outputs_lockable,
{
    lemma_scan_continue(items, initial_scan());
}

/// Every pool update made while deciding ACCEPT on a block records a pending stage: no
/// transaction of a block voted ACCEPT had its local decision changed to ABORT.
pub proof fn law_accepted_block_aborts_nothing(items: Seq<ProposalItem>, block: BlockId, block_total_leader_fee: u64, k: int)
    requires
        vote_decision(items, block, block_total_leader_fee) matches Ok((Some(QuorumDecision::Accept), u)) && 0 <= k
            < u.len(),
    ensures
        (vote_decision(items, block, block_total_leader_fee)->Ok_0.1)[k] is PendingStage,
{
    lemma_scan_continue(items, initial_scan());
}

/// A block is voted ACCEPT only where the leader fees of its Accept commands add up to the total
/// that the leader claims.
pub proof fn law_accepted_block_fees_add_up(items: Seq<ProposalItem>, block: BlockId, block_total_leader_fee: u64)
    requires
        vote_decision(items, block, block_total_leader_fee) matches Ok((Some(QuorumDecision::Accept), _)),
    ensures
        accept_fee_sum(items) == block_total_leader_fee,
{
    lemma_scan_continue(items, initial_scan());
}

} // verus!
