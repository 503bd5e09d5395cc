//! Redo log entries of page updates, numbered by log sequence numbers.
use crate::storage::page_block::PageUpdate;
use vstd::prelude::*;

verus! {

/// The source of log sequence numbers: it holds the next number to hand out.
pub struct LsnCounter {
    next: u64,
}

impl LsnCounter {
    /// The number that the next call of `next_lsn` returns.
    pub closed spec fn spec_next(&self) -> u64 {
        self.next
    }

    /// A counter that starts at 0.
    pub fn new() -> (r: Self)
        ensures
            r.spec_next() == 0,
    {
        LsnCounter { next: 0 }
    }
}

/// Restarts the counter at `n`.
pub fn lsn_init(counter: &mut LsnCounter, n: u64)
    ensures
        final(counter).spec_next() == n,
{
    counter.next = n;
}

/// Hands out the next log sequence number; the counter wraps around after `u64::MAX`.
pub fn next_lsn(counter: &mut LsnCounter) -> (r: u64)
    ensures
        r == old(counter).spec_next(),
        final(counter).spec_next() == if r == u64::MAX { 0 } else { (r + 1) as u64 },
{
    let r = counter.next;
    counter.next = counter.next.wrapping_add(1);
    r
}

/// A log entry: the updates made to one page, under one log sequence number.
pub struct LogEntry {
    lsn: u64,
    file_id: u64,
    page_id: u64,
    update: Vec<PageUpdate>,
}

impl LogEntry {
    pub closed spec fn spec_lsn(&self) -> u64 {
        self.lsn
    }

    pub closed spec fn spec_file_id(&self) -> u64 {
        self.file_id
    }

    pub closed spec fn spec_page_id(&self) -> u64 {
        self.page_id
    }

    pub closed spec fn updates(&self) -> Seq<PageUpdate> {
        self.update@
    }

    /// A log entry without updates, numbered with the next log sequence number of `counter`.
    pub fn new(counter: &mut LsnCounter, file_id: u64, page_id: u64) -> (r: LogEntry)
        ensures
            r.spec_lsn() == old(counter).spec_next(),
            final(counter).spec_next() == if r.spec_lsn() == u64::MAX { 0 } else { (r.spec_lsn() + 1) as u64 },
            r.spec_file_id() == file_id,
            r.spec_page_id() == page_id,
            r.updates() == Seq::<PageUpdate>::empty(),
    {
        Self { lsn: next_lsn(counter), file_id, page_id, update: vec![] }
    }

    /// Appends an update to the entry.
    pub fn add_update_delta(&mut self, update: PageUpdate)
        ensures
            final(self).spec_lsn() == old(self).spec_lsn(),
            final(self).spec_file_id() == old(self).spec_file_id(),
            final(self).spec_page_id() == old(self).spec_page_id(),
            final(self).updates() == old(self).updates().push(update),
    {
        self.update.push(update);
    }

    pub fn lsn(&self) -> (r: u64)
        ensures
            r == self.spec_lsn(),
    {
        self.lsn
    }

    pub fn file_id(&self) -> (r: u64)
        ensures
            r == self.spec_file_id(),
    {
        self.file_id
    }

    pub fn page_id(&self) -> (r: u64)
        ensures
            r == self.spec_page_id(),
    {
        self.page_id
    }

    pub fn update(&self) -> (r: &Vec<PageUpdate>)
        ensures
            r@ == self.updates(),
    {
        &self.update
    }
}

} // verus!
