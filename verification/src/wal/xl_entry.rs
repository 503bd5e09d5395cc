//! Records of the worker write-ahead log.
use crate::common::id::OID;
use vstd::prelude::*;

verus! {

/// A key and value inserted into a table.
pub struct XLInsert {
    pub table_id: OID,
    pub tuple_id: OID,
    pub key: Vec<u8>,
    pub value: Vec<u8>,
}

/// A key deleted from a table.
pub struct XLDelete {
    pub table_id: OID,
    pub tuple_id: OID,
    pub key: Vec<u8>,
}

/// One operation of a transaction in the log.
pub enum TxOp {
    Begin,
    Insert(XLInsert),
    Delete(XLDelete),
    Commit,
}

/// The operations of one transaction.
pub struct XLEntry {
    pub xid: u64,
    pub ops: Vec<TxOp>,
}

/// A batch of log entries written together.
pub struct XLBatch {
    pub entries: Vec<XLEntry>,
}

} // verus!
