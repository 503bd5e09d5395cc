//! The log batches that the worker writes for single-key changes, and what
//! replay reads from a batch.
use crate::common::error::EC;
use crate::wal::xl_entry::{TxOp, XLBatch, XLDelete, XLEntry, XLInsert};
use vstd::prelude::*;

verus! {

/// The batch of one autocommitted put: a transaction `xid` that begins,
/// inserts `key` with `value` (table and tuple id 0), and commits.
pub fn single_put_batch(xid: u64, key: Vec<u8>, value: Vec<u8>) -> (r: XLBatch)
    ensures
        r.entries@.len() == 1,
        r.entries@[0].xid == xid,
        r.entries@[0].ops@.len() == 3,
        r.entries@[0].ops@[0] is Begin,
        r.entries@[0].ops@[1] matches TxOp::Insert(ins) && ins.table_id == 0 && ins.tuple_id == 0
            && ins.key@ == key@ && ins.value@ == value@,
        r.entries@[0].ops@[2] is Commit,
{
    XLBatch {
        entries: vec![
            XLEntry {
                xid,
                ops: vec![TxOp::Begin, TxOp::Insert(XLInsert { table_id: 0, tuple_id: 0, key, value }), TxOp::Commit],
            },
        ],
    }
}

/// The batch of one autocommitted delete: a transaction `xid` that begins,
/// deletes `key` (table and tuple id 0), and commits.
pub fn single_delete_batch(xid: u64, key: Vec<u8>) -> (r: XLBatch)
    ensures
        r.entries@.len() == 1,
        r.entries@[0].xid == xid,
        r.entries@[0].ops@.len() == 3,
        r.entries@[0].ops@[0] is Begin,
        r.entries@[0].ops@[1] matches TxOp::Delete(del) && del.table_id == 0 && del.tuple_id == 0 && del.key@
            == key@,
        r.entries@[0].ops@[2] is Commit,
{
    XLBatch {
        entries: vec![
            XLEntry {
                xid,
                ops: vec![TxOp::Begin, TxOp::Delete(XLDelete { table_id: 0, tuple_id: 0, key }), TxOp::Commit],
            },
        ],
    }
}

/// The largest transaction id in the batch, `None` for an empty batch:
/// replay advances the committed timestamp to it.
pub fn batch_max_xid(batch: &XLBatch) -> (r: Option<u64>)
    ensures
        r is None <==> batch.entries@.len() == 0,
        r matches Some(m) ==> (exists|i: int| 0 <= i < batch.entries@.len() && batch.entries@[i].xid == m)
            && forall|i: int| 0 <= i < batch.entries@.len() ==> batch.entries@[i].xid <= m,
{
    let mut best: Option<u64> = None;
    let mut i: usize = 0;
    while i < batch.entries.len()
        invariant
            i <= batch.entries@.len(),
            best is None <==> i == 0,
            best matches Some(m) ==> (exists|j: int| 0 <= j < i && batch.entries@[j].xid == m) && forall|j: int|
                0 <= j < i ==> batch.entries@[j].xid <= m,
        decreases batch.entries@.len() - i,
    {
        let x = batch.entries[i].xid;
        best = match best {
            Some(m) => if x > m { Some(x) } else { Some(m) },
            None => Some(x),
        };
        i += 1;
    }
    best
}

/// Where the commit of a worker transaction stands.
#[derive(Debug, Clone, Copy, PartialEq, Eq, Structural)]
pub enum CommitStage {
    /// Nothing is done yet.
    Start,
    /// The transaction wrote nothing and is being ended.
    EndingEmpty,
    /// The write set is built and its locks are being taken.
    Locking,
    /// The locks are held and storage prepares the commit.
    Preparing,
    /// The log batch of the commit is being appended.
    Logging,
    /// The log is being flushed.
    Flushing,
    /// The prepared commit is being applied to storage.
    Applying,
    /// The locks of the write set are being released.
    Releasing,
    /// The transaction is being ended.
    Ending,
    /// The commit is over.
    Done,
}

/// The commit of a worker transaction: its stage, whether the worker has a
/// log, and the outcome of logging and applying, once known.
#[derive(Debug, Clone, Copy, PartialEq, Eq)]
pub struct CommitState {
    pub stage: CommitStage,
    pub has_log: bool,
    pub outcome: Result<(), EC>,
}

/// What the last action of a commit came to.
#[derive(Debug, Clone, Copy, PartialEq, Eq)]
pub enum CommitEvent {
    /// The commit is asked for: whether the transaction wrote nothing, and
    /// whether the worker has a log.
    Begin { empty: bool, has_log: bool },
    /// Whether the locks of the write set were all taken.
    Locked(bool),
    /// The outcome of preparing the commit in storage.
    Prepared(Result<(), EC>),
    /// The outcome of appending the log batch.
    Appended(Result<(), EC>),
    /// The outcome of flushing the log.
    Flushed(Result<(), EC>),
    /// The outcome of applying the prepared commit.
    Applied(Result<(), EC>),
    /// The locks were released.
    Released,
    /// The outcome of ending the transaction.
    Ended(Result<(), EC>),
}

/// What the worker does next for a commit.
#[derive(Debug, Clone, Copy, PartialEq, Eq)]
pub enum CommitAction {
    /// End the transaction.
    EndTx,
    /// Build the write set and take its locks, without waiting.
    LockWriteSet,
    /// Prepare the commit in storage.
    PrepareCommit,
    /// Append the commit's log batch.
    AppendLog,
    /// Flush the log.
    FlushLog,
    /// Apply the prepared commit to storage.
    ApplyCommit,
    /// Release the locks of the write set.
    ReleaseLocks,
    /// Report this outcome to the caller.
    Finish(Result<(), EC>),
}

/// Whether `event` answers the action that a commit in `stage` asked for.
pub open spec fn commit_event_fits(stage: CommitStage, event: CommitEvent) -> bool {
    ||| stage is Start && event is Begin
    ||| (stage is EndingEmpty || stage is Ending) && event is Ended
    ||| stage is Locking && event is Locked
    ||| stage is Preparing && event is Prepared
    ||| stage is Logging && event is Appended
    ||| stage is Flushing && event is Flushed
    ||| stage is Applying && event is Applied
    ||| stage is Releasing && event is Released
}

/// The commit that nothing has been done for yet.
pub open spec fn commit_start_state() -> CommitState {
    CommitState { stage: CommitStage::Start, has_log: false, outcome: Ok(()) }
}

/// The commit that nothing has been done for yet.
pub fn commit_start() -> (r: CommitState)
    ensures
        r == commit_start_state(),
        r.stage == CommitStage::Start,
        r.has_log == false,
        r.outcome == Ok::<(), EC>(()),
{
    CommitState { stage: CommitStage::Start, has_log: false, outcome: Ok(()) }
}

/// The next state of a commit in `state` and its next action, once its last
/// action came to `event`.
pub open spec fn commit_next(state: CommitState, event: CommitEvent) -> (CommitState, CommitAction) {
    match event {
        CommitEvent::Begin { empty, has_log } => if empty {
            (CommitState { stage: CommitStage::EndingEmpty, ..state }, CommitAction::EndTx)
        } else {
            (CommitState { stage: CommitStage::Locking, has_log, ..state }, CommitAction::LockWriteSet)
        },
        CommitEvent::Locked(ok) => if ok {
            (CommitState { stage: CommitStage::Preparing, ..state }, CommitAction::PrepareCommit)
        } else {
            (CommitState { stage: CommitStage::Done, ..state }, CommitAction::Finish(Err(EC::TxErr)))
        },
        CommitEvent::Prepared(res) => if res is Err {
            (CommitState { stage: CommitStage::Done, ..state }, CommitAction::Finish(res))
        } else if state.has_log {
            (CommitState { stage: CommitStage::Logging, ..state }, CommitAction::AppendLog)
        } else {
            (CommitState { stage: CommitStage::Applying, ..state }, CommitAction::ApplyCommit)
        },
        CommitEvent::Appended(res) => if res is Err {
            (CommitState { stage: CommitStage::Releasing, outcome: res, ..state }, CommitAction::ReleaseLocks)
        } else {
            (CommitState { stage: CommitStage::Flushing, ..state }, CommitAction::FlushLog)
        },
        CommitEvent::Flushed(res) => if res is Err {
            (CommitState { stage: CommitStage::Releasing, outcome: res, ..state }, CommitAction::ReleaseLocks)
        } else {
            (CommitState { stage: CommitStage::Applying, ..state }, CommitAction::ApplyCommit)
        },
        CommitEvent::Applied(res) => (
            CommitState { stage: CommitStage::Releasing, outcome: res, ..state },
            CommitAction::ReleaseLocks,
        ),
        CommitEvent::Released => (CommitState { stage: CommitStage::Ending, ..state }, CommitAction::EndTx),
        CommitEvent::Ended(res) => (
            CommitState { stage: CommitStage::Done, ..state },
            CommitAction::Finish(if state.stage is EndingEmpty || res is Err { res } else { state.outcome }),
        ),
    }
}

/// Once the locks are held and storage has prepared the commit, the commit
/// does not finish before its locks are released and its transaction ended,
/// whatever logging and applying come to: each step from logging, flushing,
/// applying or releasing moves to one of these stages or to ending, the
/// locks are released exactly on the steps into the releasing stage, the
/// release is followed by ending the transaction, and ending it finishes the
/// commit.
pub proof fn lemma_prepared_commit_releases_locks(state: CommitState, event: CommitEvent)
    requires
        commit_event_fits(state.stage, event),
        state.stage is Logging || state.stage is Flushing || state.stage is Applying || state.stage is Releasing
            || state.stage is Ending,
    ensures
        ({
            let (next, action) = commit_next(state, event);
            &&& state.stage is Ending <==> next.stage is Done
            &&& next.stage is Done ==> action is Finish
            &&& !(state.stage is Ending) ==> (next.stage is Logging || next.stage is Flushing
                || next.stage is Applying || next.stage is Releasing || next.stage is Ending)
            &&& (next.stage is Releasing) == (action == CommitAction::ReleaseLocks)
            &&& state.stage is Releasing ==> next.stage is Ending && action == CommitAction::EndTx
        }),
{
}

/// The decisions of a worker's commit: from the state of the commit and
/// what its last action came to, the next state and action. A transaction
/// that wrote nothing is only ended. Otherwise the locks of its write set
/// are taken, and a failure to take them fails the commit with `TxErr`.
/// Storage then prepares the commit, and a failure there is reported as it
/// is. The log batch is appended and flushed where the worker has a log,
/// and the commit applied; the first of these that fails gives the outcome.
/// Whatever that outcome, the locks are then released and the transaction
/// ended; a failure to end it is reported in place of the outcome.
pub fn commit_step(state: CommitState, event: CommitEvent) -> (r: (CommitState, CommitAction))
    requires
        commit_event_fits(state.stage, event),
    ensures
        r == commit_next(state, event),
{
    match event {
        CommitEvent::Begin { empty, has_log } => {
            if empty {
                (CommitState { stage: CommitStage::EndingEmpty, ..state }, CommitAction::EndTx)
            } else {
                (CommitState { stage: CommitStage::Locking, has_log, ..state }, CommitAction::LockWriteSet)
            }
        },
        CommitEvent::Locked(ok) => {
            if ok {
                (CommitState { stage: CommitStage::Preparing, ..state }, CommitAction::PrepareCommit)
            } else {
                (CommitState { stage: CommitStage::Done, ..state }, CommitAction::Finish(Err(EC::TxErr)))
            }
        },
        CommitEvent::Prepared(res) => {
            if res.is_err() {
                (CommitState { stage: CommitStage::Done, ..state }, CommitAction::Finish(res))
            } else if state.has_log {
                (CommitState { stage: CommitStage::Logging, ..state }, CommitAction::AppendLog)
            } else {
                (CommitState { stage: CommitStage::Applying, ..state }, CommitAction::ApplyCommit)
            }
        },
        CommitEvent::Appended(res) => {
            if res.is_err() {
                (CommitState { stage: CommitStage::Releasing, outcome: res, ..state }, CommitAction::ReleaseLocks)
            } else {
                (CommitState { stage: CommitStage::Flushing, ..state }, CommitAction::FlushLog)
            }
        },
        CommitEvent::Flushed(res) => {
            if res.is_err() {
                (CommitState { stage: CommitStage::Releasing, outcome: res, ..state }, CommitAction::ReleaseLocks)
            } else {
                (CommitState { stage: CommitStage::Applying, ..state }, CommitAction::ApplyCommit)
            }
        },
        CommitEvent::Applied(res) => {
            (CommitState { stage: CommitStage::Releasing, outcome: res, ..state }, CommitAction::ReleaseLocks)
        },
        CommitEvent::Released => {
            (CommitState { stage: CommitStage::Ending, ..state }, CommitAction::EndTx)
        },
        CommitEvent::Ended(res) => {
            let finish = if state.stage == CommitStage::EndingEmpty || res.is_err() {
                res
            } else {
                state.outcome
            };
            (CommitState { stage: CommitStage::Done, ..state }, CommitAction::Finish(finish))
        },
    }
}

/// A failure to append the log, to flush it or to apply the commit is what
/// the commit reports: after such a step the locks are released and the
/// transaction ended, and the commit finishes with that step's outcome, or
/// with the failure to end the transaction where ending it fails. In
/// particular a commit whose apply failed never reports success.
pub proof fn lemma_commit_reports_failure(state: CommitState, res: Result<(), EC>, end: Result<(), EC>)
    requires
        state.stage is Logging || state.stage is Flushing || state.stage is Applying,
        state.stage is Applying || res is Err,
    ensures
        ({
            let event = if state.stage is Logging {
                CommitEvent::Appended(res)
            } else if state.stage is Flushing {
                CommitEvent::Flushed(res)
            } else {
                CommitEvent::Applied(res)
            };
            let (s1, a1) = commit_next(state, event);
            let (s2, a2) = commit_next(s1, CommitEvent::Released);
            let (s3, a3) = commit_next(s2, CommitEvent::Ended(end));
            &&& a1 == CommitAction::ReleaseLocks
            &&& a2 == CommitAction::EndTx
            &&& s3.stage is Done
            &&& a3 == CommitAction::Finish(if end is Err { end } else { res })
            &&& (res is Err || end is Err) ==> a3 matches CommitAction::Finish(Err(_))
        }),
{
}

/// A commit whose every step succeeds reports success, with or without a
/// log, after releasing the locks and ending the transaction.
pub proof fn lemma_commit_succeeds(has_log: bool)
    ensures
        ({
            let (s0, _) = commit_next(commit_start_state(), CommitEvent::Begin { empty: false, has_log });
            let (s1, _) = commit_next(s0, CommitEvent::Locked(true));
            let (s2, _) = commit_next(s1, CommitEvent::Prepared(Ok(())));
            let s4 = if has_log {
                commit_next(commit_next(s2, CommitEvent::Appended(Ok(()))).0, CommitEvent::Flushed(Ok(()))).0
            } else {
                s2
            };
            let (s5, a5) = commit_next(s4, CommitEvent::Applied(Ok(())));
            let (s6, a6) = commit_next(s5, CommitEvent::Released);
            let (s7, a7) = commit_next(s6, CommitEvent::Ended(Ok(())));
            &&& s4.stage is Applying
            &&& a5 == CommitAction::ReleaseLocks
            &&& a6 == CommitAction::EndTx
            &&& a7 matches CommitAction::Finish(Ok(_))
        }),
{
}

/// A commit that stops early reports why: a transaction that wrote nothing
/// is only ended and reports how ending it went; a commit whose locks cannot
/// all be taken fails with `TxErr`; one that storage cannot prepare fails
/// with storage's error. None of these reports success unless ending the
/// empty transaction succeeded.
pub proof fn lemma_commit_early_outcomes(has_log: bool, end: Result<(), EC>, prepared: EC)
    ensures
        ({
            let (s0, a0) = commit_next(commit_start_state(), CommitEvent::Begin { empty: true, has_log });
            let (_, a1) = commit_next(s0, CommitEvent::Ended(end));
            &&& a0 == CommitAction::EndTx
            &&& a1 == CommitAction::Finish(end)
        }),
        ({
            let (s0, a0) = commit_next(commit_start_state(), CommitEvent::Begin { empty: false, has_log });
            let (s1, a1) = commit_next(s0, CommitEvent::Locked(false));
            &&& a0 == CommitAction::LockWriteSet
            &&& s1.stage is Done
            &&& a1 == CommitAction::Finish(Err(EC::TxErr))
        }),
        ({
            let (s0, _) = commit_next(commit_start_state(), CommitEvent::Begin { empty: false, has_log });
            let (s1, a1) = commit_next(s0, CommitEvent::Locked(true));
            let (s2, a2) = commit_next(s1, CommitEvent::Prepared(Err(prepared)));
            &&& a1 == CommitAction::PrepareCommit
            &&& s2.stage is Done
            &&& a2 == CommitAction::Finish(Err(prepared))
        }),
{
}

} // verus!
