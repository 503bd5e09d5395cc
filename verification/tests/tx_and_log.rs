use mudu_kernel::common::error::EC;
use mudu_kernel::contract::x_lock_mgr::LockResult;
use mudu_kernel::contract::xl_batch::XLBatch;
use mudu_kernel::meta::fuzz::format_comma_line;
use mudu_kernel::meta::meta_mgr::{clamp_nanos, now_catalog_xid, CatalogXidClock};
use mudu_kernel::server::session::SessionTx;
use mudu_kernel::server::x_contract::{
    batch_max_xid, commit_start, commit_step, single_delete_batch, single_put_batch, CommitAction, CommitEvent,
    CommitStage,
};
use mudu_kernel::tx::lock_slot::LockSlotInner;
use mudu_kernel::tx::x_snap_mgr::RunningXids;
use mudu_kernel::wal::xl_entry::{TxOp, XLBatch as WalBatch};
use mudu_kernel::x_log::iou::{round_up_align, IOUSetting};

#[test]
fn lock_slot_grants_in_request_order() {
    let mut s = LockSlotInner::new();
    assert!(s.lock(1));
    assert!(!s.lock(2));
    assert!(!s.lock(3));
    assert_eq!(s.release(2), (false, None));
    assert_eq!(s.release(1), (true, Some(2)));
    assert_eq!(s.release(2), (true, Some(3)));
    assert_eq!(s.release_and_check(3), (None, true));
    assert!(s.is_deleted());
    assert_eq!(s.try_lock(4), None);
    let mut t = LockSlotInner::new();
    assert_eq!(t.try_lock(4), Some(true));
    assert!(!t.remove_if_empty());
    t.set_deleted();
    assert!(t.is_deleted());
    assert_eq!(LockResult::Locked, LockResult::Locked);
}

#[test]
fn running_xids_snapshots() {
    let mut r = RunningXids::new(10);
    assert_eq!(r.add_x(), (11, vec![]));
    assert_eq!(r.add_x(), (12, vec![11]));
    r.remove_x(11);
    assert_eq!(r.add_x(), (13, vec![12]));
    r.add(5);
    r.add(12);
    assert_eq!(r.add_x(), (14, vec![5, 12, 13]));
}

#[test]
fn session_transactions() {
    let mut s = SessionTx::new();
    assert_eq!(s.begin_tx(7), Ok(()));
    assert_eq!(s.begin_tx(8), Err(EC::ExistingSuchElement));
    assert_eq!(s.current_tx(), Some(7));
    assert_eq!(s.current_tx(), None);
    assert_eq!(s.begin_tx(9), Ok(()));
    assert_eq!(s.end_tx(), Ok(()));
    assert_eq!(s.current_tx(), None);
}

#[test]
fn wal_single_key_batches() {
    let b = single_put_batch(5, vec![1], vec![2, 3]);
    assert_eq!(b.entries.len(), 1);
    assert_eq!(b.entries[0].xid, 5);
    assert!(matches!(b.entries[0].ops[0], TxOp::Begin));
    match &b.entries[0].ops[1] {
        TxOp::Insert(i) => assert_eq!((i.table_id, i.tuple_id, i.key.clone(), i.value.clone()), (0, 0, vec![1], vec![2, 3])),
        _ => panic!("expected insert"),
    }
    assert!(matches!(b.entries[0].ops[2], TxOp::Commit));
    let d = single_delete_batch(6, vec![4]);
    match &d.entries[0].ops[1] {
        TxOp::Delete(x) => assert_eq!(x.key, vec![4]),
        _ => panic!("expected delete"),
    }
    let mut all = WalBatch { entries: vec![] };
    assert_eq!(batch_max_xid(&all), None);
    all.entries.extend(b.entries);
    all.entries.extend(single_put_batch(9, vec![], vec![]).entries);
    all.entries.extend(d.entries);
    assert_eq!(batch_max_xid(&all), Some(9));
}

#[test]
fn xl_batch_accessors() {
    let b = XLBatch::new(3, vec!["a", "b"]);
    assert_eq!(b.lsn(), 3);
    assert_eq!(b.records(), &vec!["a", "b"]);
    assert_eq!(b.into_records(), vec!["a", "b"]);
}

#[test]
fn catalog_xids_increase() {
    let mut c = CatalogXidClock::new(100);
    assert_eq!(c.next_catalog_xid(50), 101);
    assert_eq!(c.next_catalog_xid(500), 500);
    assert_eq!(c.next_catalog_xid(500), 501);
    let mut m = CatalogXidClock::new(u64::MAX);
    assert_eq!(m.next_catalog_xid(0), u64::MAX);
    assert_eq!(clamp_nanos(u128::MAX), u64::MAX);
    assert_eq!(clamp_nanos(42), 42);
    let a = now_catalog_xid();
    assert!(a > 1_600_000_000_000_000_000);
}

#[test]
fn comma_lines() {
    assert_eq!(format_comma_line(&vec![]), "");
    assert_eq!(format_comma_line(&vec!["a".to_string()]), "a");
    assert_eq!(format_comma_line(&vec!["a".to_string(), "bc".to_string(), "".to_string()]), "a, bc, ");
}

#[test]
fn io_uring_alignment() {
    assert_eq!(round_up_align(0, 512), 0);
    assert_eq!(round_up_align(1, 512), 512);
    assert_eq!(round_up_align(512, 512), 512);
    assert_eq!(round_up_align(513, 512), 1024);
    let s = IOUSetting::default();
    assert_eq!((s.sector_size, s.buffer_size, s.buffer_count, s.queue_size), (512, 1024 * 1024, 64, 64));
}

fn run_commit(events: &[CommitEvent]) -> Vec<CommitAction> {
    let mut state = commit_start();
    let mut actions = vec![];
    for e in events {
        let (next, action) = commit_step(state, *e);
        state = next;
        actions.push(action);
    }
    actions
}

#[test]
fn commit_of_an_empty_transaction_only_ends_it() {
    let actions = run_commit(&[CommitEvent::Begin { empty: true, has_log: true }, CommitEvent::Ended(Ok(()))]);
    assert_eq!(actions, vec![CommitAction::EndTx, CommitAction::Finish(Ok(()))]);
    let failed = run_commit(&[CommitEvent::Begin { empty: true, has_log: false }, CommitEvent::Ended(Err(EC::StorageErr))]);
    assert_eq!(failed[1], CommitAction::Finish(Err(EC::StorageErr)));
}

#[test]
fn commit_logs_flushes_applies_then_releases_and_ends() {
    let actions = run_commit(&[
        CommitEvent::Begin { empty: false, has_log: true },
        CommitEvent::Locked(true),
        CommitEvent::Prepared(Ok(())),
        CommitEvent::Appended(Ok(())),
        CommitEvent::Flushed(Ok(())),
        CommitEvent::Applied(Ok(())),
        CommitEvent::Released,
        CommitEvent::Ended(Ok(())),
    ]);
    assert_eq!(
        actions,
        vec![
            CommitAction::LockWriteSet,
            CommitAction::PrepareCommit,
            CommitAction::AppendLog,
            CommitAction::FlushLog,
            CommitAction::ApplyCommit,
            CommitAction::ReleaseLocks,
            CommitAction::EndTx,
            CommitAction::Finish(Ok(())),
        ]
    );
}

#[test]
fn commit_without_log_goes_straight_to_apply() {
    let mut state = commit_start();
    for e in [CommitEvent::Begin { empty: false, has_log: false }, CommitEvent::Locked(true)] {
        state = commit_step(state, e).0;
    }
    let (next, action) = commit_step(state, CommitEvent::Prepared(Ok(())));
    assert_eq!(action, CommitAction::ApplyCommit);
    assert_eq!(next.stage, CommitStage::Applying);
}

#[test]
fn commit_failures() {
    let lock_fail = run_commit(&[CommitEvent::Begin { empty: false, has_log: true }, CommitEvent::Locked(false)]);
    assert_eq!(lock_fail[1], CommitAction::Finish(Err(EC::TxErr)));
    let prepare_fail = run_commit(&[
        CommitEvent::Begin { empty: false, has_log: true },
        CommitEvent::Locked(true),
        CommitEvent::Prepared(Err(EC::StorageErr)),
    ]);
    assert_eq!(prepare_fail[2], CommitAction::Finish(Err(EC::StorageErr)));
    let log_fail = run_commit(&[
        CommitEvent::Begin { empty: false, has_log: true },
        CommitEvent::Locked(true),
        CommitEvent::Prepared(Ok(())),
        CommitEvent::Appended(Err(EC::IOErr)),
        CommitEvent::Released,
        CommitEvent::Ended(Ok(())),
    ]);
    assert_eq!(log_fail[3], CommitAction::ReleaseLocks);
    assert_eq!(log_fail[4], CommitAction::EndTx);
    assert_eq!(log_fail[5], CommitAction::Finish(Err(EC::IOErr)));
    let end_fail = run_commit(&[
        CommitEvent::Begin { empty: false, has_log: false },
        CommitEvent::Locked(true),
        CommitEvent::Prepared(Ok(())),
        CommitEvent::Applied(Err(EC::StorageErr)),
        CommitEvent::Released,
        CommitEvent::Ended(Err(EC::TxErr)),
    ]);
    assert_eq!(end_fail[5], CommitAction::Finish(Err(EC::TxErr)));
}
