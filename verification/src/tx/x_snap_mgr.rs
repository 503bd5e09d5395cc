//! The list of running transactions from which snapshots are taken.
use crate::common::sorted::{sorted_insert, sorted_remove, strictly_sorted};
use vstd::prelude::*;

verus! {

/// The running transactions, in increasing order of their timestamps, and
/// the last timestamp handed out.
pub struct RunningXids {
    ts: u64,
    running: Vec<u64>,
}

impl RunningXids {
    pub closed spec fn spec_ts(&self) -> u64 {
        self.ts
    }

    pub closed spec fn spec_running(&self) -> Seq<u64> {
        self.running@
    }

    /// No transaction runs; the next timestamp handed out is `ts + 1`.
    pub fn new(ts: u64) -> (r: Self)
        ensures
            r.spec_ts() == ts,
            r.spec_running() == Seq::<u64>::empty(),
    {
        RunningXids { ts, running: vec![] }
    }

    /// Starts a transaction: hands out the next timestamp together with the
    /// transactions running before it, then counts it as running.
    pub fn add_x(&mut self) -> (r: (u64, Vec<u64>))
        requires
            old(self).spec_ts() < u64::MAX,
        ensures
            r.0 == old(self).spec_ts() + 1,
            r.1@ == old(self).spec_running(),
            final(self).spec_ts() == r.0,
            final(self).spec_running().contains(r.0),
            strictly_sorted(old(self).spec_running()) ==> strictly_sorted(final(self).spec_running()),
            final(self).spec_running() == old(self).spec_running() || exists|i: int|
                0 <= i <= old(self).spec_running().len() && final(self).spec_running()
                    == old(self).spec_running().insert(i, r.0),
    {
        self.ts += 1;
        let snapshot = self.running.clone();
        let ts = self.ts;
        self.add(ts);
        (ts, snapshot)
    }

    /// Ends the transaction with timestamp `ts`.
    pub fn remove_x(&mut self, ts: u64)
        ensures
            final(self).spec_ts() == old(self).spec_ts(),
            strictly_sorted(old(self).spec_running()) ==> strictly_sorted(final(self).spec_running()),
            strictly_sorted(old(self).spec_running()) ==> (final(self).spec_running() == old(self).spec_running()
                <==> !old(self).spec_running().contains(ts)),
            final(self).spec_running() == old(self).spec_running() || exists|i: int|
                0 <= i < old(self).spec_running().len() && old(self).spec_running()[i] == ts && final(self).spec_running() == old(self).spec_running().remove(i),
    {
        self.remove(ts);
    }

    /// Counts `xid` as running, unless bisection finds it already there.
    pub fn add(&mut self, xid: u64)
        ensures
            final(self).spec_ts() == old(self).spec_ts(),
            final(self).spec_running().contains(xid),
            strictly_sorted(old(self).spec_running()) ==> strictly_sorted(final(self).spec_running()),
            final(self).spec_running() == old(self).spec_running() || exists|i: int|
                0 <= i <= old(self).spec_running().len() && final(self).spec_running() == old(self).spec_running().insert(i, xid),
    {
        sorted_insert(&mut self.running, xid);
    }

    fn remove(&mut self, xid: u64)
        ensures
            final(self).spec_ts() == old(self).spec_ts(),
            strictly_sorted(old(self).spec_running()) ==> strictly_sorted(final(self).spec_running()),
            strictly_sorted(old(self).spec_running()) ==> (final(self).spec_running() == old(self).spec_running()
                <==> !old(self).spec_running().contains(xid)),
            final(self).spec_running() == old(self).spec_running() || exists|i: int|
                0 <= i < old(self).spec_running().len() && old(self).spec_running()[i] == xid && final(self).spec_running() == old(self).spec_running().remove(i),
    {
        sorted_remove(&mut self.running, xid);
    }
}

} // verus!
