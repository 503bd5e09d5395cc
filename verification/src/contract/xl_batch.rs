//! A batch of transaction log records under one log sequence number.
use vstd::prelude::*;

verus! {

/// Log records written together under log sequence number `lsn`.
#[derive(Debug, PartialEq, Eq)]
pub struct XLBatch<R> {
    lsn: u64,
    records: Vec<R>,
}

impl<R> XLBatch<R> {
    pub closed spec fn spec_lsn(&self) -> u64 {
        self.lsn
    }

    pub closed spec fn spec_records(&self) -> Seq<R> {
        self.records@
    }

    pub fn new(lsn: u64, records: Vec<R>) -> (r: XLBatch<R>)
        ensures
            r.spec_lsn() == lsn,
            r.spec_records() == records@,
    {
        XLBatch { lsn, records }
    }

    pub fn lsn(&self) -> (r: u64)
        ensures
            r == self.spec_lsn(),
    {
        self.lsn
    }

    pub fn records(&self) -> (r: &Vec<R>)
        ensures
            r@ == self.spec_records(),
    {
        &self.records
    }

    pub fn into_records(self) -> (r: Vec<R>)
        ensures
            r@ == self.spec_records(),
    {
        self.records
    }
}

} // verus!
